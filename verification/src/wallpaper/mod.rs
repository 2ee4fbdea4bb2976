pub mod setter;
pub mod transition;
