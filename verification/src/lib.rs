//! A multi-user chat server core: length-prefixed framing, the per-connection
//! session state machine, the credential service and the fan-out planning of
//! the transport, with their contracts.

pub mod config;
pub mod frame;
pub mod json;
pub mod protocol;
pub mod server;
pub mod server_database;
pub mod tcp_server;
pub mod text;
pub mod user_service;
