//! The protocols that a session goes through.
pub mod parsing;
pub mod pipe;
pub mod proxy_protocol;
pub mod rustls;
