pub mod error;
pub mod run;
pub mod signals;
pub mod startup;
