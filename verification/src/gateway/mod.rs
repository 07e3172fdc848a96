//! The gateway: one local address that answers for every running server.
//!
//! A request is read from the bytes that arrive, checked against the key and sent to the
//! server that serves the model it asks for.
pub mod models;
pub mod reply;
pub mod request;
pub mod serve;
pub mod servers;
