//! The audit: requests, behaviour, the events of hands, and events that wait to be sent.
use vstd::prelude::*;
use vstd::string::StringExecFns;

use crate::columns::{
    from_middle, is_optional_id_text, middle, optional_id_text, optional_seat, optional_seat_column,
    seat_column, seat_in, to_middle, unsigned_or_zero,
};
use crate::domain::events::{HandEvent, HandEventKind};
use crate::domain::game::SeatId;
use crate::domain::ids::{
    id_text, parse_id, parsed_uuid, uuid_text, AgentId, HandId, RoomId, SessionId, TraceId,
};
use crate::domain::time::Timestamp;
use crate::json::Json;
pub use crate::paging::{page_of, PageRequest};
use crate::text::{copy_optional_text, owned, same_text};

verus! {

/// Why the audit could not do what it was asked.
#[derive(Debug, PartialEq, Eq)]
pub enum AuditStoreError {
    NotImplemented,
    LockPoisoned,
    Database(String),
    InvalidUuid { field: String, value: String },
    Serialization(String),
}

impl AuditStoreError {
    pub open spec fn spec_message(self) -> Seq<char> {
        match self {
            AuditStoreError::NotImplemented => "not implemented"@,
            AuditStoreError::LockPoisoned => "store lock poisoned"@,
            AuditStoreError::Database(detail) => "database error: "@ + detail@,
            AuditStoreError::InvalidUuid { field, value } => "invalid uuid in field "@ + field@
                + ": "@ + value@,
            AuditStoreError::Serialization(detail) => "serialization error: "@ + detail@,
        }
    }

    /// What the error says to a reader.
    pub fn message(&self) -> (text: String)
        ensures
            text@ == self.spec_message(),
    {
        match self {
            AuditStoreError::NotImplemented => String::from_str("not implemented"),
            AuditStoreError::LockPoisoned => String::from_str("store lock poisoned"),
            AuditStoreError::Database(detail) => String::from_str("database error: ").concat(
                detail.as_str(),
            ),
            AuditStoreError::InvalidUuid { field, value } => {
                let mut text = String::from_str("invalid uuid in field ");
                text.append(field.as_str());
                text.append(": ");
                text.append(value.as_str());
                text
            },
            AuditStoreError::Serialization(detail) => String::from_str(
                "serialization error: ",
            ).concat(detail.as_str()),
        }
    }
}

/// A request and what each check said of it.
#[derive(Debug, PartialEq, Eq)]
pub struct ActionAttemptRecord {
    pub attempt_id: String,
    pub request_id: String,
    pub request_nonce: String,
    pub agent_id: Option<AgentId>,
    pub session_id: Option<SessionId>,
    pub room_id: Option<RoomId>,
    pub hand_id: Option<HandId>,
    pub seat_id: Option<SeatId>,
    pub action_seq: Option<u32>,
    pub method: String,
    pub action_type: Option<String>,
    pub request_payload_json: Json,
    pub signature_verify_result: String,
    pub replay_check_result: String,
    pub idempotency_check_result: String,
    pub validation_result: String,
    pub router_result: String,
    pub business_result_code: Option<String>,
    pub error_detail: Option<String>,
    pub received_at: Timestamp,
    pub completed_at: Option<Timestamp>,
    pub trace_id: TraceId,
}

/// Something that somebody may ask about later.
#[derive(Debug, PartialEq, Eq)]
pub struct BehaviorEventRecord {
    pub behavior_event_id: String,
    pub event_kind: String,
    pub event_source: String,
    pub room_id: Option<RoomId>,
    pub hand_id: Option<HandId>,
    pub seat_id: Option<SeatId>,
    pub action_seq: Option<u32>,
    pub related_attempt_id: Option<String>,
    pub related_tx_hash: Option<String>,
    pub severity: String,
    pub payload_json: Json,
    pub occurred_at: Timestamp,
    pub trace_id: TraceId,
}

/// An event that waits to be sent, or was.
#[derive(Debug, PartialEq, Eq)]
pub struct OutboxEventRecord {
    pub outbox_event_id: String,
    pub topic: String,
    pub partition_key: String,
    pub payload_json: Json,
    pub status: String,
    pub attempts: u32,
    pub available_at: Timestamp,
    pub delivered_at: Option<Timestamp>,
    pub created_at: Timestamp,
}

/// Whether reading the identifier in a field gave what it should.
pub open spec fn reads_id_field(field: Seq<char>, value: Seq<char>, read: Result<u128, AuditStoreError>) -> bool {
    match parsed_uuid(value) {
        Ok(id) => read == Ok::<u128, AuditStoreError>(id),
        Err(_) => read is Err && read->Err_0 is InvalidUuid && read->Err_0->field@ == field
            && read->Err_0->value@ == value,
    }
}

/// Reads the identifier in a field.
pub fn parse_uuid_field(field: &str, value: &str) -> (read: Result<u128, AuditStoreError>)
    ensures
        reads_id_field(field@, value@, read),
        forall|given: u128| #[trigger]
            uuid_text(given) == value@ ==> read == Ok::<u128, AuditStoreError>(given),
{
    match parse_id(value) {
        Ok(id) => Ok(id),
        Err(_) => Err(AuditStoreError::InvalidUuid { field: owned(field), value: owned(value) }),
    }
}

/// A seat in a column.
pub fn opt_i16(v: Option<SeatId>) -> (column: Option<i16>)
    ensures
        column == seat_column(v),
{
    optional_seat_column(v)
}

/// The number of an action in a column; one that does not fit is left out.
pub open spec fn seq_column(v: Option<u32>) -> Option<i32> {
    match v {
        Some(n) => if n <= i32::MAX {
            Some(n as i32)
        } else {
            None
        },
        None => None,
    }
}

/// The number of an action in a column; one that does not fit is left out.
pub fn opt_i32(v: Option<u32>) -> (column: Option<i32>)
    ensures
        column == seq_column(v),
{
    match v {
        Some(n) => if n <= i32::MAX as u32 {
            Some(n as i32)
        } else {
            None
        },
        None => None,
    }
}

/// The number of an action from a column that may be empty or hold none.
pub open spec fn seq_in(column: Option<i32>) -> Option<u32> {
    match column {
        Some(n) => if n >= 0 {
            Some(n as u32)
        } else {
            None
        },
        None => None,
    }
}

fn optional_seq(column: Option<i32>) -> (seq: Option<u32>)
    ensures
        seq == seq_in(column),
{
    match column {
        Some(n) => if n >= 0 {
            Some(n as u32)
        } else {
            None
        },
        None => None,
    }
}

/// The number of an action that fits a column comes back from it.
pub proof fn action_numbers_read_back(v: Option<u32>)
    requires
        v is Some ==> v->0 <= i32::MAX,
    ensures
        seq_in(seq_column(v)) == v,
{
}

impl HandEventKind {
    /// The name of the kind in the database.
    pub open spec fn spec_type(self) -> Seq<char> {
        match self {
            HandEventKind::HandStarted => "HandStarted"@,
            HandEventKind::TurnStarted { .. } => "TurnStarted"@,
            HandEventKind::ActionAccepted(_) => "ActionAccepted"@,
            HandEventKind::StreetChanged { .. } => "StreetChanged"@,
            HandEventKind::PotUpdated { .. } => "PotUpdated"@,
            HandEventKind::HandClosed => "HandClosed"@,
        }
    }
}

/// The name of the kind in the database.
pub fn hand_event_type(kind: &HandEventKind) -> (name: &'static str)
    ensures
        name@ == kind.spec_type(),
{
    match kind {
        HandEventKind::HandStarted => "HandStarted",
        HandEventKind::TurnStarted { .. } => "TurnStarted",
        HandEventKind::ActionAccepted(_) => "ActionAccepted",
        HandEventKind::StreetChanged { .. } => "StreetChanged",
        HandEventKind::PotUpdated { .. } => "PotUpdated",
        HandEventKind::HandClosed => "HandClosed",
    }
}

/// A request, in the database.
#[derive(Debug, PartialEq, Eq)]
pub struct ActionAttemptRow {
    pub attempt_id: u128,
    pub request_id: u128,
    pub request_nonce: String,
    pub agent_id: Option<u128>,
    pub session_id: Option<u128>,
    pub room_id: Option<u128>,
    pub hand_id: Option<u128>,
    pub seat_id: Option<i16>,
    pub action_seq: Option<i32>,
    pub method: String,
    pub action_type: Option<String>,
    pub request_payload_json: Json,
    pub signature_verify_result: String,
    pub replay_check_result: String,
    pub idempotency_check_result: String,
    pub validation_result: String,
    pub router_result: String,
    pub business_result_code: Option<String>,
    pub error_detail: Option<String>,
    pub received_at: Timestamp,
    pub completed_at: Option<Timestamp>,
    pub trace_id: u128,
}

impl ActionAttemptRecord {
    /// Whether a row says the same as this record, but for the two identifiers that the record
    /// has as texts.
    pub open spec fn agrees_with(self, row: ActionAttemptRow) -> bool {
        &&& self.request_nonce == row.request_nonce
        &&& self.agent_id == (match row.agent_id {
            Some(id) => Some(AgentId(id)),
            None => None,
        })
        &&& self.session_id == (match row.session_id {
            Some(id) => Some(SessionId(id)),
            None => None,
        })
        &&& self.room_id == (match row.room_id {
            Some(id) => Some(RoomId(id)),
            None => None,
        })
        &&& self.hand_id == (match row.hand_id {
            Some(id) => Some(HandId(id)),
            None => None,
        })
        &&& self.method == row.method
        &&& self.action_type == row.action_type
        &&& self.request_payload_json@ == row.request_payload_json@
        &&& self.signature_verify_result == row.signature_verify_result
        &&& self.replay_check_result == row.replay_check_result
        &&& self.idempotency_check_result == row.idempotency_check_result
        &&& self.validation_result == row.validation_result
        &&& self.router_result == row.router_result
        &&& self.business_result_code == row.business_result_code
        &&& self.error_detail == row.error_detail
        &&& self.received_at == row.received_at
        &&& self.completed_at == row.completed_at
        &&& self.trace_id == TraceId(row.trace_id)
    }

    /// Whether this record is read from a row.
    pub open spec fn is_from_row(self, row: ActionAttemptRow) -> bool {
        &&& self.agrees_with(row)
        &&& self.attempt_id@ == uuid_text(row.attempt_id)
        &&& self.request_id@ == uuid_text(row.request_id)
        &&& self.seat_id == seat_in(row.seat_id)
        &&& self.action_seq == seq_in(row.action_seq)
    }

    /// Whether a row holds this record.
    pub open spec fn is_in_row(self, row: ActionAttemptRow) -> bool {
        &&& self.agrees_with(row)
        &&& parsed_uuid(self.attempt_id@) == Ok::<u128, Seq<char>>(row.attempt_id)
        &&& parsed_uuid(self.request_id@) == Ok::<u128, Seq<char>>(row.request_id)
        &&& row.seat_id == seat_column(self.seat_id)
        &&& row.action_seq == seq_column(self.action_seq)
    }

    /// The row that holds this record; an identifier that is none is refused, the one of the
    /// attempt first.
    pub fn to_row(&self) -> (row: Result<ActionAttemptRow, AuditStoreError>)
        ensures
            match (parsed_uuid(self.attempt_id@), parsed_uuid(self.request_id@)) {
                (Err(_), _) => row is Err && row->Err_0 is InvalidUuid && row->Err_0->field@
                    == "attempt_id"@ && row->Err_0->value@ == self.attempt_id@,
                (Ok(_), Err(_)) => row is Err && row->Err_0 is InvalidUuid && row->Err_0->field@
                    == "request_id"@ && row->Err_0->value@ == self.request_id@,
                (Ok(_), Ok(_)) => row is Ok && self.is_in_row(row->Ok_0),
            },
    {
        let attempt_id: u128 = match parse_uuid_field("attempt_id", self.attempt_id.as_str()) {
            Ok(id) => id,
            Err(error) => {
                return Err(error);
            },
        };
        let request_id: u128 = match parse_uuid_field("request_id", self.request_id.as_str()) {
            Ok(id) => id,
            Err(error) => {
                return Err(error);
            },
        };
        Ok(
            ActionAttemptRow {
                attempt_id: attempt_id,
                request_id: request_id,
                request_nonce: self.request_nonce.clone(),
                agent_id: match self.agent_id {
                    Some(id) => Some(id.0),
                    None => None,
                },
                session_id: match self.session_id {
                    Some(id) => Some(id.0),
                    None => None,
                },
                room_id: match self.room_id {
                    Some(id) => Some(id.0),
                    None => None,
                },
                hand_id: match self.hand_id {
                    Some(id) => Some(id.0),
                    None => None,
                },
                seat_id: opt_i16(self.seat_id),
                action_seq: opt_i32(self.action_seq),
                method: self.method.clone(),
                action_type: copy_optional_text(&self.action_type),
                request_payload_json: self.request_payload_json.clone(),
                signature_verify_result: self.signature_verify_result.clone(),
                replay_check_result: self.replay_check_result.clone(),
                idempotency_check_result: self.idempotency_check_result.clone(),
                validation_result: self.validation_result.clone(),
                router_result: self.router_result.clone(),
                business_result_code: copy_optional_text(&self.business_result_code),
                error_detail: copy_optional_text(&self.error_detail),
                received_at: self.received_at,
                completed_at: self.completed_at,
                trace_id: self.trace_id.0,
            },
        )
    }
}

/// The request that a row holds.
pub fn row_to_action_attempt_record(row: ActionAttemptRow) -> (record: ActionAttemptRecord)
    ensures
        record.is_from_row(row),
{
    ActionAttemptRecord {
        attempt_id: id_text(row.attempt_id),
        request_id: id_text(row.request_id),
        request_nonce: row.request_nonce,
        agent_id: match row.agent_id {
            Some(id) => Some(AgentId(id)),
            None => None,
        },
        session_id: match row.session_id {
            Some(id) => Some(SessionId(id)),
            None => None,
        },
        room_id: match row.room_id {
            Some(id) => Some(RoomId(id)),
            None => None,
        },
        hand_id: match row.hand_id {
            Some(id) => Some(HandId(id)),
            None => None,
        },
        seat_id: optional_seat(row.seat_id),
        action_seq: optional_seq(row.action_seq),
        method: row.method,
        action_type: row.action_type,
        request_payload_json: row.request_payload_json,
        signature_verify_result: row.signature_verify_result,
        replay_check_result: row.replay_check_result,
        idempotency_check_result: row.idempotency_check_result,
        validation_result: row.validation_result,
        router_result: row.router_result,
        business_result_code: row.business_result_code,
        error_detail: row.error_detail,
        received_at: row.received_at,
        completed_at: row.completed_at,
        trace_id: TraceId(row.trace_id),
    }
}

/// A request that was written is read again as it was, as long as the number of its action
/// fits the database.
pub proof fn attempts_read_back(
    record: ActionAttemptRecord,
    row: ActionAttemptRow,
    read: ActionAttemptRecord,
)
    requires
        record.is_in_row(row),
        read.is_from_row(row),
        record.action_seq is Some ==> record.action_seq->0 <= i32::MAX,
    ensures
        read.seat_id == record.seat_id,
        read.action_seq == record.action_seq,
        read.room_id == record.room_id,
        read.hand_id == record.hand_id,
        read.method == record.method,
        read.action_type == record.action_type,
        read.request_payload_json@ == record.request_payload_json@,
        read.signature_verify_result == record.signature_verify_result,
        read.replay_check_result == record.replay_check_result,
        read.idempotency_check_result == record.idempotency_check_result,
        read.validation_result == record.validation_result,
        read.router_result == record.router_result,
        read.business_result_code == record.business_result_code,
        read.error_detail == record.error_detail,
        read.received_at == record.received_at,
        read.completed_at == record.completed_at,
        read.trace_id == record.trace_id,
        parsed_uuid(record.attempt_id@) is Ok && read.attempt_id@ == uuid_text(
            parsed_uuid(record.attempt_id@)->Ok_0,
        ),
{
}

/// Something in the audit, in the database.
#[derive(Debug, PartialEq, Eq)]
pub struct BehaviorEventRow {
    pub behavior_event_id: u128,
    pub event_kind: String,
    pub event_source: String,
    pub room_id: Option<u128>,
    pub hand_id: Option<u128>,
    pub seat_id: Option<i16>,
    pub action_seq: Option<i32>,
    pub related_attempt_id: Option<u128>,
    pub related_tx_hash: Option<String>,
    pub severity: String,
    pub payload_json: Json,
    pub occurred_at: Timestamp,
    pub trace_id: u128,
}

impl BehaviorEventRecord {
    /// Whether a row says the same as this record, but for the identifiers that the record has
    /// as texts.
    pub open spec fn agrees_with(self, row: BehaviorEventRow) -> bool {
        &&& self.event_kind == row.event_kind
        &&& self.event_source == row.event_source
        &&& self.room_id == (match row.room_id {
            Some(id) => Some(RoomId(id)),
            None => None,
        })
        &&& self.hand_id == (match row.hand_id {
            Some(id) => Some(HandId(id)),
            None => None,
        })
        &&& self.related_tx_hash == row.related_tx_hash
        &&& self.severity == row.severity
        &&& self.payload_json@ == row.payload_json@
        &&& self.occurred_at == row.occurred_at
        &&& self.trace_id == TraceId(row.trace_id)
    }

    /// Whether this record is read from a row.
    pub open spec fn is_from_row(self, row: BehaviorEventRow) -> bool {
        &&& self.agrees_with(row)
        &&& self.behavior_event_id@ == uuid_text(row.behavior_event_id)
        &&& self.seat_id == seat_in(row.seat_id)
        &&& self.action_seq == seq_in(row.action_seq)
        &&& is_optional_id_text(self.related_attempt_id, row.related_attempt_id)
    }

    /// Whether a row holds this record.
    pub open spec fn is_in_row(self, row: BehaviorEventRow) -> bool {
        &&& self.agrees_with(row)
        &&& parsed_uuid(self.behavior_event_id@) == Ok::<u128, Seq<char>>(row.behavior_event_id)
        &&& match self.related_attempt_id {
            Some(text) => row.related_attempt_id is Some && parsed_uuid(text@) == Ok::<
                u128,
                Seq<char>,
            >(row.related_attempt_id->0),
            None => row.related_attempt_id is None,
        }
        &&& row.seat_id == seat_column(self.seat_id)
        &&& row.action_seq == seq_column(self.action_seq)
    }

    /// The row that holds this record; an identifier that is none is refused, the record's own
    /// first.
    pub fn to_row(&self) -> (row: Result<BehaviorEventRow, AuditStoreError>)
        ensures
            if parsed_uuid(self.behavior_event_id@) is Err {
                row is Err && row->Err_0 is InvalidUuid && row->Err_0->field@
                    == "behavior_event_id"@ && row->Err_0->value@ == self.behavior_event_id@
            } else if self.related_attempt_id is Some && parsed_uuid(
                self.related_attempt_id->0@,
            ) is Err {
                row is Err && row->Err_0 is InvalidUuid && row->Err_0->field@
                    == "related_attempt_id"@ && row->Err_0->value@ == self.related_attempt_id->0@
            } else {
                row is Ok && self.is_in_row(row->Ok_0)
            },
    {
        let behavior_event_id: u128 = match parse_uuid_field(
            "behavior_event_id",
            self.behavior_event_id.as_str(),
        ) {
            Ok(id) => id,
            Err(error) => {
                return Err(error);
            },
        };
        let related_attempt_id: Option<u128> = match &self.related_attempt_id {
            Some(text) => match parse_uuid_field("related_attempt_id", text.as_str()) {
                Ok(id) => Some(id),
                Err(error) => {
                    return Err(error);
                },
            },
            None => None,
        };
        Ok(
            BehaviorEventRow {
                behavior_event_id: behavior_event_id,
                event_kind: self.event_kind.clone(),
                event_source: self.event_source.clone(),
                room_id: match self.room_id {
                    Some(id) => Some(id.0),
                    None => None,
                },
                hand_id: match self.hand_id {
                    Some(id) => Some(id.0),
                    None => None,
                },
                seat_id: opt_i16(self.seat_id),
                action_seq: opt_i32(self.action_seq),
                related_attempt_id: related_attempt_id,
                related_tx_hash: copy_optional_text(&self.related_tx_hash),
                severity: self.severity.clone(),
                payload_json: self.payload_json.clone(),
                occurred_at: self.occurred_at,
                trace_id: self.trace_id.0,
            },
        )
    }
}

/// What a row of the audit holds.
pub fn row_to_behavior_event_record(row: BehaviorEventRow) -> (record: BehaviorEventRecord)
    ensures
        record.is_from_row(row),
{
    BehaviorEventRecord {
        behavior_event_id: id_text(row.behavior_event_id),
        event_kind: row.event_kind,
        event_source: row.event_source,
        room_id: match row.room_id {
            Some(id) => Some(RoomId(id)),
            None => None,
        },
        hand_id: match row.hand_id {
            Some(id) => Some(HandId(id)),
            None => None,
        },
        seat_id: optional_seat(row.seat_id),
        action_seq: optional_seq(row.action_seq),
        related_attempt_id: optional_id_text(row.related_attempt_id),
        related_tx_hash: row.related_tx_hash,
        severity: row.severity,
        payload_json: row.payload_json,
        occurred_at: row.occurred_at,
        trace_id: TraceId(row.trace_id),
    }
}

/// An event that waits to be sent, in the database.
#[derive(Debug, PartialEq, Eq)]
pub struct OutboxEventRow {
    pub outbox_event_id: u128,
    pub topic: String,
    pub partition_key: String,
    pub payload_json: Json,
    pub status: String,
    pub attempts: i32,
    pub available_at: Timestamp,
    pub delivered_at: Option<Timestamp>,
    pub created_at: Timestamp,
}

impl OutboxEventRecord {
    /// The row that holds this record; an identifier that is none is refused.
    pub fn to_row(&self) -> (row: Result<OutboxEventRow, AuditStoreError>)
        ensures
            match parsed_uuid(self.outbox_event_id@) {
                Err(_) => row is Err && row->Err_0 is InvalidUuid && row->Err_0->field@
                    == "outbox_event_id"@ && row->Err_0->value@ == self.outbox_event_id@,
                Ok(id) => {
                    &&& row is Ok
                    &&& row->Ok_0.outbox_event_id == id
                    &&& row->Ok_0.topic == self.topic
                    &&& row->Ok_0.partition_key == self.partition_key
                    &&& row->Ok_0.payload_json@ == self.payload_json@
                    &&& row->Ok_0.status == self.status
                    &&& row->Ok_0.attempts == middle(self.attempts as int)
                    &&& row->Ok_0.available_at == self.available_at
                    &&& row->Ok_0.delivered_at == self.delivered_at
                    &&& row->Ok_0.created_at == self.created_at
                },
            },
    {
        let outbox_event_id: u128 = match parse_uuid_field(
            "outbox_event_id",
            self.outbox_event_id.as_str(),
        ) {
            Ok(id) => id,
            Err(error) => {
                return Err(error);
            },
        };
        Ok(
            OutboxEventRow {
                outbox_event_id: outbox_event_id,
                topic: self.topic.clone(),
                partition_key: self.partition_key.clone(),
                payload_json: self.payload_json.clone(),
                status: self.status.clone(),
                attempts: to_middle(self.attempts),
                available_at: self.available_at,
                delivered_at: self.delivered_at,
                created_at: self.created_at,
            },
        )
    }

    /// The record that a row holds.
    pub fn from_row(row: OutboxEventRow) -> (record: OutboxEventRecord)
        ensures
            record.outbox_event_id@ == uuid_text(row.outbox_event_id),
            record.topic == row.topic,
            record.partition_key == row.partition_key,
            record.payload_json == row.payload_json,
            record.status == row.status,
            record.attempts == unsigned_or_zero(row.attempts as int, u32::MAX as int),
            record.available_at == row.available_at,
            record.delivered_at == row.delivered_at,
            record.created_at == row.created_at,
    {
        OutboxEventRecord {
            outbox_event_id: id_text(row.outbox_event_id),
            topic: row.topic,
            partition_key: row.partition_key,
            payload_json: row.payload_json,
            status: row.status,
            attempts: from_middle(row.attempts),
            available_at: row.available_at,
            delivered_at: row.delivered_at,
            created_at: row.created_at,
        }
    }

    /// Whether the event still waits.
    pub open spec fn is_pending(self) -> bool {
        self.status@ == "pending"@
    }

    /// Whether this is the event `before`, now sent at the moment `at`.
    pub open spec fn is_delivered_form_of(self, before: OutboxEventRecord, at: Timestamp) -> bool {
        &&& self.status@ == "delivered"@
        &&& self == (OutboxEventRecord {
            status: self.status,
            delivered_at: Some(at),
            ..before
        })
    }
}

/// Tells what the audit knows.
pub trait AuditReadRepository {
    fn get_action_attempt_by_request_id(&self, request_id: &str) -> Result<
        Option<&ActionAttemptRecord>,
        AuditStoreError,
    >;

    fn list_behavior_events(
        &self,
        room_id: Option<RoomId>,
        hand_id: Option<HandId>,
        page: PageRequest,
    ) -> Result<Vec<&BehaviorEventRecord>, AuditStoreError>;

    fn list_hand_events(&self, hand_id: HandId, page: PageRequest) -> Result<
        Vec<HandEvent>,
        AuditStoreError,
    >;
}

/// Takes things into the audit.
pub trait AuditRepository {
    fn insert_action_attempt(&mut self, record: ActionAttemptRecord) -> Result<
        (),
        AuditStoreError,
    >;

    fn insert_behavior_event(&mut self, record: BehaviorEventRecord) -> Result<
        (),
        AuditStoreError,
    >;

    fn append_hand_events(&mut self, events: &Vec<HandEvent>) -> Result<(), AuditStoreError>;

    fn insert_outbox_event(&mut self, record: OutboxEventRecord) -> Result<(), AuditStoreError>;

    fn fetch_pending_outbox_events(&self, limit: usize) -> Result<
        Vec<&OutboxEventRecord>,
        AuditStoreError,
    >;

    fn mark_outbox_event_delivered(&mut self, outbox_event_id: &str, delivered_at: Timestamp) -> Result<
        (),
        AuditStoreError,
    >;
}

/// An audit that forgets everything.
#[derive(Debug)]
pub struct NoopAuditRepository;

impl AuditRepository for NoopAuditRepository {
    fn insert_action_attempt(&mut self, record: ActionAttemptRecord) -> (result: Result<
        (),
        AuditStoreError,
    >)
        ensures
            result is Ok,
    {
        Ok(())
    }

    fn insert_behavior_event(&mut self, record: BehaviorEventRecord) -> (result: Result<
        (),
        AuditStoreError,
    >)
        ensures
            result is Ok,
    {
        Ok(())
    }

    fn append_hand_events(&mut self, events: &Vec<HandEvent>) -> (result: Result<
        (),
        AuditStoreError,
    >)
        ensures
            result is Ok,
    {
        Ok(())
    }

    fn insert_outbox_event(&mut self, record: OutboxEventRecord) -> (result: Result<
        (),
        AuditStoreError,
    >)
        ensures
            result is Ok,
    {
        Ok(())
    }

    fn fetch_pending_outbox_events(&self, limit: usize) -> (events: Result<
        Vec<&OutboxEventRecord>,
        AuditStoreError,
    >)
        ensures
            events is Ok,
            events->Ok_0@.len() == 0,
    {
        Ok(Vec::new())
    }

    fn mark_outbox_event_delivered(&mut self, outbox_event_id: &str, delivered_at: Timestamp) -> (result:
        Result<(), AuditStoreError>)
        ensures
            result is Ok,
    {
        Ok(())
    }
}

/// An audit in memory.
#[derive(Debug)]
pub struct InMemoryAuditRepository {
    pub action_attempts: Vec<ActionAttemptRecord>,
    pub behavior_events: Vec<BehaviorEventRecord>,
    pub hand_events: Vec<HandEvent>,
    pub outbox_events: Vec<OutboxEventRecord>,
}

impl Default for InMemoryAuditRepository {
    fn default() -> (repo: InMemoryAuditRepository)
        ensures
            repo.action_attempts@.len() == 0,
            repo.behavior_events@.len() == 0,
            repo.hand_events@.len() == 0,
            repo.outbox_events@.len() == 0,
    {
        InMemoryAuditRepository {
            action_attempts: Vec::new(),
            behavior_events: Vec::new(),
            hand_events: Vec::new(),
            outbox_events: Vec::new(),
        }
    }
}

/// Whether the event at place `i` is the first with this identifier.
pub open spec fn is_first_with(events: Seq<OutboxEventRecord>, id: Seq<char>, i: int) -> bool {
    &&& 0 <= i < events.len()
    &&& events[i].outbox_event_id@ == id
    &&& forall|j: int| 0 <= j < i ==> (#[trigger] events[j]).outbox_event_id@ != id
}

/// Whether `after` are the events `before` once the first event with this identifier was
/// marked as sent.
pub open spec fn marks_delivered(
    before: Seq<OutboxEventRecord>,
    after: Seq<OutboxEventRecord>,
    id: Seq<char>,
    at: Timestamp,
) -> bool {
    &&& after.len() == before.len()
    &&& forall|i: int|
        0 <= i < before.len() ==> if is_first_with(before, id, i) {
            (#[trigger] after[i]).is_delivered_form_of(before[i], at)
        } else {
            after[i] == before[i]
        }
}

/// The events that wait, in the order in which they came.
pub open spec fn pending_events(events: Seq<OutboxEventRecord>) -> Seq<OutboxEventRecord> {
    events.filter(|event: OutboxEventRecord| event.is_pending())
}

/// The things in the audit about a room, a hand, or both.
pub open spec fn behavior_about(
    events: Seq<BehaviorEventRecord>,
    room_id: Option<RoomId>,
    hand_id: Option<HandId>,
) -> Seq<BehaviorEventRecord> {
    events.filter(
        |event: BehaviorEventRecord|
            (room_id is None || event.room_id == room_id) && (hand_id is None || event.hand_id
                == hand_id),
    )
}

/// The events of a hand.
pub open spec fn events_of_hand(events: Seq<HandEvent>, hand_id: HandId) -> Seq<HandEvent> {
    events.filter(|event: HandEvent| event.hand_id == hand_id)
}

/// The first request with this identifier.
pub open spec fn attempt_for(attempts: Seq<ActionAttemptRecord>, request_id: Seq<char>) -> Option<
    ActionAttemptRecord,
>
    decreases attempts.len(),
{
    if attempts.len() == 0 {
        None
    } else if attempts[0].request_id@ == request_id {
        Some(attempts[0])
    } else {
        attempt_for(attempts.skip(1), request_id)
    }
}

/// One more result: it stands on the page exactly when its number does.
proof fn lemma_page_of_push<T>(results: Seq<T>, more: T, page: PageRequest)
    ensures
        page_of(results.push(more), page) == (if page.offset <= results.len() && results.len()
            - page.offset < page.limit {
            page_of(results, page).push(more)
        } else {
            page_of(results, page)
        }),
{
    if page.offset <= results.len() && results.len() - page.offset < page.limit {
        assert(page_of(results.push(more), page) =~= page_of(results, page).push(more));
    } else {
        assert(page_of(results.push(more), page) =~= page_of(results, page));
    }
}

impl AuditRepository for InMemoryAuditRepository {
    fn insert_action_attempt(&mut self, record: ActionAttemptRecord) -> (result: Result<
        (),
        AuditStoreError,
    >)
        ensures
            result is Ok,
            final(self).action_attempts@ == old(self).action_attempts@.push(record),
            final(self).behavior_events == old(self).behavior_events,
            final(self).hand_events == old(self).hand_events,
            final(self).outbox_events == old(self).outbox_events,
    {
        self.action_attempts.push(record);
        Ok(())
    }

    fn insert_behavior_event(&mut self, record: BehaviorEventRecord) -> (result: Result<
        (),
        AuditStoreError,
    >)
        ensures
            result is Ok,
            final(self).behavior_events@ == old(self).behavior_events@.push(record),
            final(self).action_attempts == old(self).action_attempts,
            final(self).hand_events == old(self).hand_events,
            final(self).outbox_events == old(self).outbox_events,
    {
        self.behavior_events.push(record);
        Ok(())
    }

    fn append_hand_events(&mut self, events: &Vec<HandEvent>) -> (result: Result<
        (),
        AuditStoreError,
    >)
        ensures
            result is Ok,
            final(self).hand_events@ == old(self).hand_events@ + events@,
            final(self).action_attempts == old(self).action_attempts,
            final(self).behavior_events == old(self).behavior_events,
            final(self).outbox_events == old(self).outbox_events,
    {
        let mut i: usize = 0;
        assert(self.hand_events@ =~= old(self).hand_events@ + events@.take(0));
        while i < events.len()
            invariant
                i <= events.len(),
                self.hand_events@ == old(self).hand_events@ + events@.take(i as int),
                self.action_attempts == old(self).action_attempts,
                self.behavior_events == old(self).behavior_events,
                self.outbox_events == old(self).outbox_events,
            decreases events.len() - i,
        {
            self.hand_events.push(events[i]);
            i = i + 1;
            assert(old(self).hand_events@ + events@.take(i as int) =~= (old(self).hand_events@
                + events@.take(i - 1)).push(events@[i - 1]));
        }
        assert(events@.take(i as int) =~= events@);
        Ok(())
    }

    fn insert_outbox_event(&mut self, record: OutboxEventRecord) -> (result: Result<
        (),
        AuditStoreError,
    >)
        ensures
            result is Ok,
            final(self).outbox_events@ == old(self).outbox_events@.push(record),
            final(self).action_attempts == old(self).action_attempts,
            final(self).behavior_events == old(self).behavior_events,
            final(self).hand_events == old(self).hand_events,
    {
        self.outbox_events.push(record);
        Ok(())
    }

    /// The first events that wait, at most as many as asked for.
    fn fetch_pending_outbox_events(&self, limit: usize) -> (events: Result<
        Vec<&OutboxEventRecord>,
        AuditStoreError,
    >)
        ensures
            events is Ok,
            events->Ok_0@.map_values(|event: &OutboxEventRecord| *event) == page_of(
                pending_events(self.outbox_events@),
                PageRequest { limit: limit, offset: 0 },
            ),
    {
        let mut found: Vec<&OutboxEventRecord> = Vec::new();
        let mut i: usize = 0;
        let ghost value = |event: &OutboxEventRecord| *event;
        let ghost page = PageRequest { limit: limit, offset: 0 };
        let ghost all = self.outbox_events@;
        proof {
            reveal(Seq::filter);
            assert(found@.map_values(value) =~= page_of(pending_events(all.take(0)), page));
        }
        while i < self.outbox_events.len()
            invariant
                i <= all.len(),
                all == self.outbox_events@,
                value == (|event: &OutboxEventRecord| *event),
                page == (PageRequest { limit: limit, offset: 0 }),
                found@.map_values(value) == page_of(pending_events(all.take(i as int)), page),
            decreases all.len() - i,
        {
            let event = &self.outbox_events[i];
            proof {
                reveal(Seq::filter);
                assert(all.take(i + 1).drop_last() =~= all.take(i as int));
                lemma_page_of_push(pending_events(all.take(i as int)), *event, page);
            }
            let ghost before = found@;
            if same_text(event.status.as_str(), "pending") && found.len() < limit {
                found.push(event);
                assert(found@.map_values(value) =~= before.map_values(value).push(*event));
            }
            i = i + 1;
        }
        assert(all.take(i as int) =~= all);
        Ok(found)
    }

    /// Marks the first event with this identifier as sent; without such an event nothing
    /// changes.
    fn mark_outbox_event_delivered(&mut self, outbox_event_id: &str, delivered_at: Timestamp) -> (result:
        Result<(), AuditStoreError>)
        ensures
            result is Ok,
            marks_delivered(
                old(self).outbox_events@,
                final(self).outbox_events@,
                outbox_event_id@,
                delivered_at,
            ),
            final(self).action_attempts == old(self).action_attempts,
            final(self).behavior_events == old(self).behavior_events,
            final(self).hand_events == old(self).hand_events,
    {
        let mut i: usize = 0;
        while i < self.outbox_events.len()
            invariant
                i <= self.outbox_events@.len(),
                *self == *old(self),
                forall|j: int|
                    0 <= j < i ==> (#[trigger] self.outbox_events@[j]).outbox_event_id@
                        != outbox_event_id@,
            decreases self.outbox_events@.len() - i,
        {
            if same_text(self.outbox_events[i].outbox_event_id.as_str(), outbox_event_id) {
                let event = &mut self.outbox_events[i];
                event.status = owned("delivered");
                event.delivered_at = Some(delivered_at);
                return Ok(());
            }
            i = i + 1;
        }
        Ok(())
    }
}

impl AuditReadRepository for InMemoryAuditRepository {
    /// The first request with this identifier.
    fn get_action_attempt_by_request_id(&self, request_id: &str) -> (found: Result<
        Option<&ActionAttemptRecord>,
        AuditStoreError,
    >)
        ensures
            found is Ok,
            match found->Ok_0 {
                Some(record) => attempt_for(self.action_attempts@, request_id@) == Some(*record),
                None => attempt_for(self.action_attempts@, request_id@) is None,
            },
    {
        let mut i: usize = 0;
        assert(self.action_attempts@.skip(0) =~= self.action_attempts@);
        while i < self.action_attempts.len()
            invariant
                i <= self.action_attempts@.len(),
                attempt_for(self.action_attempts@, request_id@) == attempt_for(
                    self.action_attempts@.skip(i as int),
                    request_id@,
                ),
            decreases self.action_attempts@.len() - i,
        {
            if same_text(self.action_attempts[i].request_id.as_str(), request_id) {
                return Ok(Some(&self.action_attempts[i]));
            }
            assert(self.action_attempts@.skip(i as int).skip(1) =~= self.action_attempts@.skip(
                i + 1,
            ));
            i = i + 1;
        }
        Ok(None)
    }

    /// The things about a room, a hand, or both, in the order in which they came.
    fn list_behavior_events(
        &self,
        room_id: Option<RoomId>,
        hand_id: Option<HandId>,
        page: PageRequest,
    ) -> (events: Result<Vec<&BehaviorEventRecord>, AuditStoreError>)
        ensures
            events is Ok,
            events->Ok_0@.map_values(|event: &BehaviorEventRecord| *event) == page_of(
                behavior_about(self.behavior_events@, room_id, hand_id),
                page,
            ),
    {
        let mut found: Vec<&BehaviorEventRecord> = Vec::new();
        let mut seen: usize = 0;
        let mut i: usize = 0;
        let ghost value = |event: &BehaviorEventRecord| *event;
        let ghost all = self.behavior_events@;
        proof {
            reveal(Seq::filter);
            assert(found@.map_values(value) =~= page_of(
                behavior_about(all.take(0), room_id, hand_id),
                page,
            ));
        }
        while i < self.behavior_events.len()
            invariant
                i <= all.len(),
                all == self.behavior_events@,
                value == (|event: &BehaviorEventRecord| *event),
                seen == behavior_about(all.take(i as int), room_id, hand_id).len(),
                seen <= i,
                found@.map_values(value) == page_of(
                    behavior_about(all.take(i as int), room_id, hand_id),
                    page,
                ),
            decreases all.len() - i,
        {
            let event = &self.behavior_events[i];
            proof {
                reveal(Seq::filter);
                assert(all.take(i + 1).drop_last() =~= all.take(i as int));
                lemma_page_of_push(
                    behavior_about(all.take(i as int), room_id, hand_id),
                    *event,
                    page,
                );
            }
            let ghost before = found@;
            let about_room: bool = room_id.is_none() || event.room_id == room_id;
            let about_hand: bool = hand_id.is_none() || event.hand_id == hand_id;
            if about_room && about_hand {
                if seen >= page.offset && seen - page.offset < page.limit {
                    found.push(event);
                    assert(found@.map_values(value) =~= before.map_values(value).push(*event));
                }
                seen = seen + 1;
            }
            i = i + 1;
        }
        assert(all.take(i as int) =~= all);
        Ok(found)
    }

    /// The events of a hand, in the order in which they came.
    fn list_hand_events(&self, hand_id: HandId, page: PageRequest) -> (events: Result<
        Vec<HandEvent>,
        AuditStoreError,
    >)
        ensures
            events is Ok,
            events->Ok_0@ == page_of(events_of_hand(self.hand_events@, hand_id), page),
    {
        let mut found: Vec<HandEvent> = Vec::new();
        let mut seen: usize = 0;
        let mut i: usize = 0;
        let ghost all = self.hand_events@;
        proof {
            reveal(Seq::filter);
            assert(found@ =~= page_of(events_of_hand(all.take(0), hand_id), page));
        }
        while i < self.hand_events.len()
            invariant
                i <= all.len(),
                all == self.hand_events@,
                seen == events_of_hand(all.take(i as int), hand_id).len(),
                seen <= i,
                found@ == page_of(events_of_hand(all.take(i as int), hand_id), page),
            decreases all.len() - i,
        {
            let event = self.hand_events[i];
            proof {
                reveal(Seq::filter);
                assert(all.take(i + 1).drop_last() =~= all.take(i as int));
                lemma_page_of_push(events_of_hand(all.take(i as int), hand_id), event, page);
            }
            if event.hand_id == hand_id {
                if seen >= page.offset && seen - page.offset < page.limit {
                    found.push(event);
                }
                seen = seen + 1;
            }
            i = i + 1;
        }
        assert(all.take(i as int) =~= all);
        Ok(found)
    }
}

/// Whether no two events have the same identifier.
pub open spec fn identifiers_differ(events: Seq<OutboxEventRecord>) -> bool {
    forall|i: int, j: int|
        #![trigger events[i], events[j]]
        0 <= i < j < events.len() ==> events[i].outbox_event_id@ != events[j].outbox_event_id@
}

/// An event that was marked as sent waits no more, and no other event is touched.
pub proof fn delivered_events_wait_no_more(
    before: Seq<OutboxEventRecord>,
    after: Seq<OutboxEventRecord>,
    id: Seq<char>,
    at: Timestamp,
    i: int,
)
    requires
        marks_delivered(before, after, id, at),
        identifiers_differ(before),
        0 <= i < before.len(),
    ensures
        before[i].outbox_event_id@ == id ==> !after[i].is_pending(),
        before[i].outbox_event_id@ != id ==> after[i] == before[i],
        after[i].outbox_event_id == before[i].outbox_event_id,
{
    reveal_strlit("pending");
    reveal_strlit("delivered");
    assert("pending"@.len() != "delivered"@.len());
    if before[i].outbox_event_id@ == id {
        assert forall|j: int| 0 <= j < i implies (#[trigger] before[j]).outbox_event_id@ != id by {
            assert(before[j].outbox_event_id@ != before[i].outbox_event_id@);
        }
        assert(is_first_with(before, id, i));
    }
    assert(after[i] == after[i]);
}

/// Marking an event as sent twice changes no more than the moment.
pub proof fn second_mark_changes_only_the_moment(
    before: Seq<OutboxEventRecord>,
    once: Seq<OutboxEventRecord>,
    twice: Seq<OutboxEventRecord>,
    id: Seq<char>,
    first: Timestamp,
    second: Timestamp,
    i: int,
)
    requires
        marks_delivered(before, once, id, first),
        marks_delivered(once, twice, id, second),
        0 <= i < before.len(),
    ensures
        !is_first_with(before, id, i) ==> twice[i] == before[i],
        is_first_with(before, id, i) ==> twice[i].status@ == "delivered"@ && twice[i].delivered_at
            == Some(second),
{
    assert forall|j: int| 0 <= j < before.len() implies (#[trigger] once[j]).outbox_event_id
        == before[j].outbox_event_id by {
        assert(is_first_with(before, id, j) || !is_first_with(before, id, j));
    }
    assert(twice[i] == twice[i]);
    assert(once[i] == once[i]);
    if is_first_with(before, id, i) {
        assert forall|j: int| 0 <= j < i implies (#[trigger] once[j]).outbox_event_id@ != id by {
            assert(before[j].outbox_event_id@ != id);
        }
        assert(is_first_with(once, id, i));
    } else if is_first_with(once, id, i) {
        assert forall|j: int| 0 <= j < i implies (#[trigger] before[j]).outbox_event_id@ != id by {
            assert(once[j].outbox_event_id@ != id);
        }
        assert(is_first_with(before, id, i));
    }
}

} // verus!
