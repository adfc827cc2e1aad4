pub mod admin;
pub mod error;
pub mod route;
