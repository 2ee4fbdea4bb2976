pub mod generator;
pub mod noise_field;
pub mod raymarcher;
pub mod stars;
