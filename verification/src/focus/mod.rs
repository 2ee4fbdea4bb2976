pub mod score;
pub mod state;
pub mod monitor;
pub mod analyzer;
