//! Verified core of a reverse proxy.
pub mod address;
pub mod buffer;
pub mod certificate;
pub mod collections;
pub mod command;
pub mod config;
pub mod path;
pub mod protocol;
pub mod proxy;
pub mod ready;
pub mod session;
pub mod text;
pub mod ulid;
pub mod worker;
