pub mod boot;
pub mod command;
pub mod container;
pub mod definitions;
pub mod environment;
pub mod graph;
pub mod inspect;
pub mod load;
pub mod paths;
pub mod resources;
pub mod startup;
pub mod volumes;
