//! Verified core of an agent-driven poker table: the rules of the game, the signing
//! and verification of requests, the settlement of hands and the bookkeeping around them.
pub mod agent_sdk;
pub mod audit;
pub mod auth;
pub mod auth_laws;
pub mod backoff;
pub mod cards;
pub mod chain_laws;
pub mod chain_tx;
pub mod chain_watcher;
pub mod client;
pub mod columns;
pub mod document;
pub mod document_laws;
pub mod domain;
pub mod engine;
pub mod evm;
pub mod json;
pub mod json_laws;
pub mod ledger;
pub mod paging;
pub mod platform;
pub mod record_laws;
pub mod rpc;
pub mod server;
pub mod table;
pub mod text;
pub mod word_laws;
