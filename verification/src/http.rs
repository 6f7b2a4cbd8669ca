//! The HTTP side: request headers, the redirect policy and the gateway.

pub mod client;
pub mod header;
pub mod redirect;
pub mod server;
