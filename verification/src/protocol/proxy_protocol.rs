//! The second version of the proxy protocol, by which a proxy tells whom it stands for.
pub mod expect;
pub mod header;
pub mod parser;
pub mod waiting;
pub mod wire;
