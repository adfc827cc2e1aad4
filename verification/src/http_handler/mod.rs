pub mod error;
pub mod headers;
pub mod request;
pub mod response;
