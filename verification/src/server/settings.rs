//! What the environment says of how the server runs.
use vstd::prelude::*;

use crate::text::{chars_of, lower, lowered, parse_number, read_number, same_text, text_of, trim, trimmed};

verus! {

/// Whether a text that may be missing says anything.
pub open spec fn says_something(text: Option<String>) -> bool {
    text is Some && trimmed(text->0@).len() > 0
}

/// Whether a text that may be missing says anything.
pub fn is_given(text: &Option<String>) -> (given: bool)
    ensures
        given == says_something(*text),
{
    match text {
        Some(text) => trim(&chars_of(text.as_str())).len() > 0,
        None => false,
    }
}

/// Whether a switch is on: it is, unless it is said to be off.
pub open spec fn on_unless_denied(value: Option<String>) -> bool {
    match value {
        Some(text) => {
            let word = lowered(trimmed(text@));
            !(word == "0"@ || word == "false"@ || word == "off"@ || word == "no"@)
        },
        None => true,
    }
}

/// Whether a switch is on: it is not, unless it is said to be.
pub open spec fn on_if_affirmed(value: Option<String>) -> bool {
    match value {
        Some(text) => {
            let word = lowered(trimmed(text@));
            word == "1"@ || word == "true"@ || word == "on"@ || word == "yes"@
        },
        None => false,
    }
}

/// Whether the pages for administrators are served.
pub fn ops_http_enabled(value: &Option<String>) -> (on: bool)
    ensures
        on == on_unless_denied(*value),
{
    match value {
        Some(text) => {
            let word = text_of(&lower(&trim(&chars_of(text.as_str()))));
            !(same_text(word.as_str(), "0") || same_text(word.as_str(), "false") || same_text(
                word.as_str(),
                "off",
            ) || same_text(word.as_str(), "no"))
        },
        None => true,
    }
}

/// Whether hands are settled without being asked.
pub fn auto_settlement_enabled(value: &Option<String>) -> (on: bool)
    ensures
        on == on_if_affirmed(*value),
{
    match value {
        Some(text) => {
            let word = text_of(&lower(&trim(&chars_of(text.as_str()))));
            same_text(word.as_str(), "1") || same_text(word.as_str(), "true") || same_text(
                word.as_str(),
                "on",
            ) || same_text(word.as_str(), "yes")
        },
        None => false,
    }
}

/// The number that a text that may be missing names.
pub open spec fn number_in(value: Option<String>, max: int) -> Option<int> {
    match value {
        Some(text) => match read_number(text@, 10, max) {
            Ok(n) => Some(n),
            Err(_) => None,
        },
        None => None,
    }
}

/// The number that a text that may be missing names, or else `default`.
pub fn number_or(value: &Option<String>, max: u64, default: u64) -> (n: u64)
    requires
        default <= max,
    ensures
        n == (match number_in(*value, max as int) {
            Some(n) => n,
            None => default as int,
        }),
        n <= max,
{
    match value {
        Some(text) => match parse_number(&chars_of(text.as_str()), 10, max as u128) {
            Ok(n) => n as u64,
            Err(_) => default,
        },
        None => default,
    }
}

/// How many connections to the database are kept.
#[derive(Debug, Clone, Copy, PartialEq, Eq, Structural)]
pub struct PoolLimits {
    pub max_connections: u32,
    pub min_connections: u32,
    pub acquire_timeout_ms: u64,
}

/// Whether these are the limits that the environment sets: twenty connections at most, two at
/// least and ten seconds to get one, where it says nothing else, and never more at least than
/// at most.
pub open spec fn are_limits(
    limits: PoolLimits,
    max_connections: Option<String>,
    min_connections: Option<String>,
    acquire_timeout_ms: Option<String>,
) -> bool {
    let least = match number_in(min_connections, u32::MAX as int) {
        Some(n) => n,
        None => 2,
    };
    &&& limits.max_connections == (match number_in(max_connections, u32::MAX as int) {
        Some(n) => n,
        None => 20,
    })
    &&& limits.min_connections == (if least <= limits.max_connections {
        least
    } else {
        limits.max_connections as int
    })
    &&& limits.acquire_timeout_ms == (match number_in(acquire_timeout_ms, u64::MAX as int) {
        Some(n) => n,
        None => 10_000,
    })
}

/// How many connections to the database are kept.
pub fn pool_limits(
    max_connections: &Option<String>,
    min_connections: &Option<String>,
    acquire_timeout_ms: &Option<String>,
) -> (limits: PoolLimits)
    ensures
        are_limits(limits, *max_connections, *min_connections, *acquire_timeout_ms),
        limits.min_connections <= limits.max_connections,
{
    let most: u32 = number_or(max_connections, u32::MAX as u64, 20) as u32;
    let least: u32 = number_or(min_connections, u32::MAX as u64, 2) as u32;
    PoolLimits {
        max_connections: most,
        min_connections: if least <= most {
            least
        } else {
            most
        },
        acquire_timeout_ms: number_or(acquire_timeout_ms, u64::MAX, 10_000),
    }
}

/// A limit that the environment may set: what it names, but at least one, or else what held
/// before.
pub open spec fn limit_set(value: Option<String>, before: usize) -> int {
    match number_in(value, usize::MAX as int) {
        Some(n) => if n >= 1 {
            n
        } else {
            1
        },
        None => before as int,
    }
}

/// A limit of the requests that one connection may make.
pub fn request_limit(value: &Option<String>, before: usize) -> (limit: usize)
    ensures
        limit == limit_set(*value, before),
{
    match value {
        Some(text) => match parse_number(&chars_of(text.as_str()), 10, usize::MAX as u128) {
            Ok(n) => if n >= 1 {
                n as usize
            } else {
                1
            },
            Err(_) => before,
        },
        None => before,
    }
}

/// Which chain a room looks at, and how often a payment must be confirmed.
#[derive(Debug, PartialEq, Eq)]
pub struct RoomActorConfig {
    pub chain_verify_rpc_endpoint: Option<String>,
    pub chain_verify_min_confirmations: u64,
}

/// Which chain a room looks at, and how often a payment must be confirmed: once at least.
pub fn room_actor_config(endpoint: Option<String>, min_confirmations: &Option<String>) -> (config:
    RoomActorConfig)
    ensures
        config.chain_verify_rpc_endpoint == (if says_something(endpoint) {
            endpoint
        } else {
            None
        }),
        config.chain_verify_min_confirmations == (match number_in(
            *min_confirmations,
            u64::MAX as int,
        ) {
            Some(n) => if n >= 1 {
                n
            } else {
                1
            },
            None => 1,
        }),
{
    let confirmations: u64 = number_or(min_confirmations, u64::MAX, 1);
    RoomActorConfig {
        chain_verify_rpc_endpoint: if is_given(&endpoint) {
            endpoint
        } else {
            None
        },
        chain_verify_min_confirmations: if confirmations >= 1 {
            confirmations
        } else {
            1
        },
    }
}

/// How winners are paid.
#[derive(Debug, Clone, Copy, PartialEq, Eq, Structural)]
pub enum SettlementMode {
    Batch,
    Direct,
    Disabled,
}

impl SettlementMode {
    pub open spec fn spec_name(self) -> Seq<char> {
        match self {
            SettlementMode::Batch => "batch"@,
            SettlementMode::Direct => "direct"@,
            SettlementMode::Disabled => "disabled"@,
        }
    }

    pub fn name(self) -> (name: &'static str)
        ensures
            name@ == self.spec_name(),
    {
        match self {
            SettlementMode::Batch => "batch",
            SettlementMode::Direct => "direct",
            SettlementMode::Disabled => "disabled",
        }
    }
}

/// How winners are paid: through a contract where one is named, else one by one, and not at all
/// where the chain or the payer is not named.
pub fn settlement_mode(
    endpoint: &Option<String>,
    from_address: &Option<String>,
    contract: &Option<String>,
) -> (mode: SettlementMode)
    ensures
        mode == (if !says_something(*endpoint) || !says_something(*from_address) {
            SettlementMode::Disabled
        } else if says_something(*contract) {
            SettlementMode::Batch
        } else {
            SettlementMode::Direct
        }),
{
    if !is_given(endpoint) || !is_given(from_address) {
        SettlementMode::Disabled
    } else if is_given(contract) {
        SettlementMode::Batch
    } else {
        SettlementMode::Direct
    }
}

/// Where everything is kept.
#[derive(Debug, PartialEq, Eq)]
pub enum StorageBackend {
    Postgres { url: String, limits: PoolLimits },
    Memory,
}

/// Where everything is kept: in the database that the environment names, or in memory where it
/// names none.
pub fn build_repo_bundle(
    database_url: Option<String>,
    max_connections: &Option<String>,
    min_connections: &Option<String>,
    acquire_timeout_ms: &Option<String>,
) -> (backend: StorageBackend)
    ensures
        says_something(database_url) <==> backend is Postgres,
        backend is Postgres ==> backend->url == database_url->0,
        backend is Postgres ==> are_limits(
            backend->limits,
            *max_connections,
            *min_connections,
            *acquire_timeout_ms,
        ),
{
    if !is_given(&database_url) {
        return StorageBackend::Memory;
    }
    match database_url {
        Some(url) => StorageBackend::Postgres {
            url: url,
            limits: pool_limits(max_connections, min_connections, acquire_timeout_ms),
        },
        None => StorageBackend::Memory,
    }
}

} // verus!
