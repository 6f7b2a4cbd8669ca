//! Release catalog, redirect policy and issue reports for a network-boot gateway.

pub mod asset;
pub mod error;
pub mod github;
pub mod http;
pub mod milestone;
pub mod release;
pub mod text;
