//! Core of a chat room server: the claimed-name registry, per-connection
//! identities, the session state machine that negotiates a name and relays
//! chat lines, and the server configuration.
pub mod config;
pub mod registry;
pub mod client;
pub mod session;
pub mod laws;
