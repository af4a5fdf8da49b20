//! The vocabulary shared by every part of the table.
pub mod action;
pub mod errors;
pub mod events;
pub mod game;
pub mod ids;
pub mod money;
pub mod time;

pub use action::{ActionType, LegalAction, PlayerAction};
pub use errors::DomainError;
pub use events::{AuditBehaviorEvent, AuditBehaviorEventKind, HandEvent, HandEventKind};
pub use game::{ActionSeq, HandSnapshot, HandStatus, SeatId, Street};
pub use ids::{AgentId, HandId, RequestId, RoomId, SessionId, TraceId};
pub use money::{Chips, MoneyError};
pub use time::Timestamp;
