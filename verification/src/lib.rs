pub mod portfolio;
pub mod rat;
pub mod series;
pub mod source;
pub mod timestamp;
