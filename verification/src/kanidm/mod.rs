pub mod error;
pub mod operations;
pub mod output;
pub mod provision;
