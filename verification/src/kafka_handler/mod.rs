pub mod config;
pub mod messages;
pub mod producer;
pub mod start;
