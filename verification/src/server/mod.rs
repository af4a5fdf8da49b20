//! The decisions of the server.

pub mod audit_events;
pub mod chain_callback;
pub mod laws;
pub mod message_laws;
pub mod ops;
pub mod rooms;
pub mod settings;
pub mod settlement;
pub mod settlement_laws;
pub mod showdown;
pub mod signatures;
pub mod wallet;
