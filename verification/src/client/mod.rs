//! The decisions of a player without a screen.

pub mod demo;
pub mod journal;
pub mod laws;
pub mod policy;
pub mod reply_laws;
pub mod runtime;
pub mod seat;
pub mod session;
pub mod wallet;
