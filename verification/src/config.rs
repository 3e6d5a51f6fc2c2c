//! Parsing data from the configuration file.
pub mod acceptance;
pub mod assembly;
pub mod check;
pub mod cluster;
pub mod described;
pub mod environment;
pub mod error;
pub mod laws;
pub mod listener;
pub mod load;
pub mod messages;
pub mod named;
pub mod orders;
pub mod paths;
pub mod placement;
pub mod report;
pub mod setup;
pub mod types;
