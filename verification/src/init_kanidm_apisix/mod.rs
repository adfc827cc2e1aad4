pub mod error;
pub mod secrets;
pub mod stages;
pub mod summary;
