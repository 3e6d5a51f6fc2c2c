//! The main process: what clients ask for and what the workers are told.
pub mod collect;
pub mod laws;
pub mod listing;
pub mod load;
pub mod orders;
pub mod progress;
pub mod route;
pub mod save;
pub mod server;
pub mod types;
pub mod workers;
