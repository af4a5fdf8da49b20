//! What the server enters into the audit, and the events that it lays out to be sent.
use vstd::prelude::*;
use vstd::string::StringExecFns;

use crate::audit::{BehaviorEventRecord, OutboxEventRecord};
use crate::columns::{middle, optional_seat_column, seat_column, to_middle, to_wide, wide};
use crate::domain::events::{
    hand_event_name, hand_event_seat_id, id_json, member, number_json, number_tree, object,
    optional_text_json, optional_text_tree, text_json, AuditBehaviorEventKind, HandEvent,
};
use crate::domain::game::{HandSnapshot, HandStatus, SeatId, Street};
use crate::domain::ids::{
    fresh_id_text, id_text, is_fresh_text, is_time_ordered, uuid_text, HandId, RequestId, RoomId,
    TraceId,
};
use crate::domain::time::Timestamp;
use crate::json::{Json, JsonView};
use crate::rpc::{EventEnvelope, EventTopic};
use crate::text::{decimal, decimal_text, owned, same_text};

verus! {

/// Something that a room tells of.
#[derive(Debug, PartialEq, Eq)]
pub struct RoomBehaviorEvent {
    pub room_id: RoomId,
    pub trace_id: TraceId,
    pub kind: AuditBehaviorEventKind,
}

impl AuditBehaviorEventKind {
    /// The seat that it is about.
    pub open spec fn spec_seat_of(self) -> Option<SeatId> {
        match self {
            AuditBehaviorEventKind::SeatJoined { seat_id } => Some(seat_id),
            AuditBehaviorEventKind::SeatLeft { seat_id } => Some(seat_id),
            AuditBehaviorEventKind::SeatAddressBound { seat_id } => Some(seat_id),
            AuditBehaviorEventKind::SeatSessionKeysBound { seat_id, .. } => Some(seat_id),
            AuditBehaviorEventKind::TurnTimeoutAutoFold { seat_id, .. } => Some(seat_id),
            AuditBehaviorEventKind::ChainTxVerificationCallback { seat_id, .. } => seat_id,
        }
    }

    /// The number of the action that it is about.
    pub open spec fn spec_action_of(self) -> Option<u32> {
        match self {
            AuditBehaviorEventKind::TurnTimeoutAutoFold { action_seq, .. } => Some(action_seq),
            AuditBehaviorEventKind::ChainTxVerificationCallback { action_seq, .. } => action_seq,
            _ => None,
        }
    }

    /// The payment that it is about.
    pub open spec fn spec_payment_of(self) -> Option<String> {
        match self {
            AuditBehaviorEventKind::ChainTxVerificationCallback { tx_hash, .. } => Some(tx_hash),
            _ => None,
        }
    }
}

/// The record of the audit of something that a room tells of.
pub fn record_behavior_event(event: &RoomBehaviorEvent) -> (record: BehaviorEventRecord)
    ensures
        is_fresh_text(record.behavior_event_id@),
        record.event_kind@ == event.kind.spec_name(),
        record.event_source@ == "table_service"@,
        record.room_id == Some(event.room_id),
        record.hand_id is None,
        record.seat_id == event.kind.spec_seat_of(),
        record.action_seq == event.kind.spec_action_of(),
        record.related_attempt_id is None,
        record.related_tx_hash == event.kind.spec_payment_of(),
        record.severity@ == "info"@,
        record.payload_json@ == event.kind.tree(),
        record.trace_id == event.trace_id,
{
    let (seat_id, action_seq, related_tx_hash): (Option<SeatId>, Option<u32>, Option<String>) =
        match &event.kind {
        AuditBehaviorEventKind::SeatJoined { seat_id } => (Some(*seat_id), None, None),
        AuditBehaviorEventKind::SeatLeft { seat_id } => (Some(*seat_id), None, None),
        AuditBehaviorEventKind::SeatAddressBound { seat_id } => (Some(*seat_id), None, None),
        AuditBehaviorEventKind::SeatSessionKeysBound { seat_id, .. } => (
            Some(*seat_id),
            None,
            None,
        ),
        AuditBehaviorEventKind::TurnTimeoutAutoFold { seat_id, action_seq } => (
            Some(*seat_id),
            Some(*action_seq),
            None,
        ),
        AuditBehaviorEventKind::ChainTxVerificationCallback {
            seat_id,
            action_seq,
            tx_hash,
            ..
        } => (*seat_id, *action_seq, Some(tx_hash.clone())),
    };
    BehaviorEventRecord {
        behavior_event_id: fresh_id_text(),
        event_kind: owned(event.kind.name()),
        event_source: owned("table_service"),
        room_id: Some(event.room_id),
        hand_id: None,
        seat_id: seat_id,
        action_seq: action_seq,
        related_attempt_id: None,
        related_tx_hash: related_tx_hash,
        severity: owned("info"),
        payload_json: event.kind.to_json(),
        occurred_at: Timestamp::now(),
        trace_id: event.trace_id,
    }
}

/// Whether a record lays out an event to be sent.
pub open spec fn lays_out(
    topic: Seq<char>,
    partition_key: Seq<char>,
    payload: JsonView,
    record: OutboxEventRecord,
) -> bool {
    &&& is_fresh_text(record.outbox_event_id@)
    &&& record.topic@ == topic
    &&& record.partition_key@ == partition_key
    &&& record.payload_json@ == payload
    &&& record.status@ == "pending"@
    &&& record.attempts == 0
    &&& record.delivered_at is None
    &&& record.available_at == record.created_at
}

fn outbox_record(topic: &str, partition_key: String, payload: Json) -> (record: OutboxEventRecord)
    ensures
        lays_out(topic@, partition_key@, payload@, record),
{
    let now = Timestamp::now();
    OutboxEventRecord {
        outbox_event_id: fresh_id_text(),
        topic: owned(topic),
        partition_key: partition_key,
        payload_json: payload,
        status: owned("pending"),
        attempts: 0,
        available_at: now,
        delivered_at: None,
        created_at: now,
    }
}

/// The events of hands that a document can hold.
pub open spec fn writable_events(events: Seq<HandEvent>) -> Seq<HandEvent> {
    events.filter(|event: HandEvent| event.tree() is Some)
}

/// Whether a record lays out the event of a hand.
pub open spec fn lays_out_event(event: HandEvent, record: OutboxEventRecord) -> bool {
    lays_out("hand.events"@, uuid_text(event.room_id.0), event.tree()->0, record)
}

/// Lays out the events of hands to be sent; one that a document cannot hold is passed over.
pub fn append_hand_events(events: &Vec<HandEvent>) -> (records: Vec<OutboxEventRecord>)
    ensures
        records@.len() == writable_events(events@).len(),
        forall|i: int|
            0 <= i < records@.len() ==> lays_out_event(
                writable_events(events@)[i],
                #[trigger] records@[i],
            ),
{
    let mut records: Vec<OutboxEventRecord> = Vec::new();
    let mut i: usize = 0;
    proof {
        reveal(Seq::filter);
        assert(writable_events(events@.take(0)).len() == 0);
    }
    while i < events.len()
        invariant
            i <= events.len(),
            records@.len() == writable_events(events@.take(i as int)).len(),
            forall|k: int|
                0 <= k < records@.len() ==> lays_out_event(
                    writable_events(events@.take(i as int))[k],
                    #[trigger] records@[k],
                ),
        decreases events.len() - i,
    {
        let event = &events[i];
        proof {
            reveal(Seq::filter);
            assert(events@.take(i + 1).drop_last() =~= events@.take(i as int));
        }
        match event.to_json() {
            Some(payload) => {
                records.push(outbox_record("hand.events", id_text(event.room_id.0), payload));
            },
            None => {},
        }
        i = i + 1;
    }
    assert(events@.take(i as int) =~= events@);
    records
}

/// Something that only one seat may see.
#[derive(Debug, PartialEq, Eq)]
pub struct SeatPrivateEvent {
    pub room_id: RoomId,
    pub hand_id: HandId,
    pub seat_id: SeatId,
    pub event_name: String,
    pub payload: Json,
}

impl SeatPrivateEvent {
    pub open spec fn tree(self) -> JsonView {
        JsonView::Object(
            seq![
                member("room_id"@, JsonView::Text(uuid_text(self.room_id.0))),
                member("hand_id"@, JsonView::Text(uuid_text(self.hand_id.0))),
                member("seat_id"@, number_tree(self.seat_id as u64)),
                member("event_name"@, JsonView::Text(self.event_name@)),
                member("payload"@, self.payload@),
            ],
        )
    }

    /// The event as a document.
    pub fn to_json(&self) -> (value: Json)
        ensures
            value@ == self.tree(),
    {
        let mut members: Vec<(String, Json)> = Vec::new();
        members.push((owned("room_id"), id_json(self.room_id.0)));
        members.push((owned("hand_id"), id_json(self.hand_id.0)));
        members.push((owned("seat_id"), number_json(self.seat_id as u64)));
        members.push((owned("event_name"), text_json(self.event_name.as_str())));
        members.push((owned("payload"), self.payload.clone()));
        let value = object(members);
        assert(value@->Object_0 =~= self.tree()->Object_0);
        value
    }
}

/// Whether a record lays out something that only one seat may see.
pub open spec fn lays_out_private(event: SeatPrivateEvent, record: OutboxEventRecord) -> bool {
    lays_out(
        "seat.events"@,
        uuid_text(event.room_id.0) + ":"@ + decimal(event.seat_id as nat),
        event.tree(),
        record,
    )
}

/// Lays out what only single seats may see to be sent.
pub fn append_private_events(events: &Vec<SeatPrivateEvent>) -> (records: Vec<OutboxEventRecord>)
    ensures
        records@.len() == events@.len(),
        forall|i: int|
            0 <= i < records@.len() ==> lays_out_private(events@[i], #[trigger] records@[i]),
{
    let mut records: Vec<OutboxEventRecord> = Vec::new();
    let mut i: usize = 0;
    while i < events.len()
        invariant
            i <= events.len(),
            records@.len() == i,
            forall|k: int|
                0 <= k < i ==> lays_out_private(events@[k], #[trigger] records@[k]),
        decreases events.len() - i,
    {
        let event = &events[i];
        let mut partition_key = id_text(event.room_id.0);
        partition_key.append(":");
        partition_key.append(decimal_text(event.seat_id as u128).as_str());
        records.push(outbox_record("seat.events", partition_key, event.to_json()));
        i = i + 1;
    }
    records
}

/// What the database keeps of a hand.
#[derive(Debug, PartialEq, Eq)]
pub struct HandSnapshotRow {
    pub hand_id: u128,
    pub room_id: u128,
    pub hand_no: i64,
    pub hand_status: &'static str,
    pub street: &'static str,
    pub acting_seat_id: Option<i16>,
    pub action_seq_next: i32,
    pub pot_total: String,
    pub is_over: bool,
}

/// The name of a hand's status in the database.
pub open spec fn status_column(status: HandStatus) -> Seq<char> {
    match status {
        HandStatus::Created => "Created"@,
        HandStatus::Running => "Running"@,
        HandStatus::Showdown => "Showdown"@,
        HandStatus::Settling => "Settling"@,
        HandStatus::Settled => "Settled"@,
        HandStatus::Aborted => "Aborted"@,
    }
}

/// The name of a street in the database.
pub open spec fn street_column(street: Street) -> Seq<char> {
    match street {
        Street::Preflop => "Preflop"@,
        Street::Flop => "Flop"@,
        Street::Turn => "Turn"@,
        Street::River => "River"@,
        Street::Showdown => "Showdown"@,
    }
}

/// What the database keeps of a hand.
pub fn upsert_hand_snapshot_row(snapshot: &HandSnapshot) -> (row: HandSnapshotRow)
    ensures
        row.hand_id == snapshot.hand_id.0,
        row.room_id == snapshot.room_id.0,
        row.hand_no == wide(snapshot.hand_no as int),
        row.hand_status@ == status_column(snapshot.status),
        row.street@ == street_column(snapshot.street),
        row.acting_seat_id == seat_column(snapshot.acting_seat_id),
        row.action_seq_next == middle(snapshot.next_action_seq as int),
        row.pot_total@ == decimal(snapshot.pot_total.0 as nat),
        row.is_over == (snapshot.status == HandStatus::Settled || snapshot.status
            == HandStatus::Aborted),
{
    HandSnapshotRow {
        hand_id: snapshot.hand_id.0,
        room_id: snapshot.room_id.0,
        hand_no: to_wide(snapshot.hand_no),
        hand_status: match snapshot.status {
            HandStatus::Created => "Created",
            HandStatus::Running => "Running",
            HandStatus::Showdown => "Showdown",
            HandStatus::Settling => "Settling",
            HandStatus::Settled => "Settled",
            HandStatus::Aborted => "Aborted",
        },
        street: match snapshot.street {
            Street::Preflop => "Preflop",
            Street::Flop => "Flop",
            Street::Turn => "Turn",
            Street::River => "River",
            Street::Showdown => "Showdown",
        },
        acting_seat_id: optional_seat_column(snapshot.acting_seat_id),
        action_seq_next: to_middle(snapshot.next_action_seq),
        pot_total: decimal_text(snapshot.pot_total.0),
        is_over: snapshot.status == HandStatus::Settled || snapshot.status == HandStatus::Aborted,
    }
}

/// Why a request was rejected.
#[derive(Debug, Clone, Copy, PartialEq, Eq, Structural)]
pub enum RequestRejectReason {
    RequestExpiredOrInvalidWindow,
    MissingOrInvalidSignature,
    InvalidKeyBindingProof,
    ReplayRejected,
}

impl RequestRejectReason {
    /// What the audit calls the rejection.
    pub open spec fn spec_kind(self) -> Seq<char> {
        match self {
            RequestRejectReason::RequestExpiredOrInvalidWindow => "request_rejected"@,
            RequestRejectReason::MissingOrInvalidSignature => "request_rejected_signature"@,
            RequestRejectReason::InvalidKeyBindingProof => "request_rejected_key_binding"@,
            RequestRejectReason::ReplayRejected => "request_rejected_replay"@,
        }
    }

    pub open spec fn spec_name(self) -> Seq<char> {
        match self {
            RequestRejectReason::RequestExpiredOrInvalidWindow => "RequestExpiredOrInvalidWindow"@,
            RequestRejectReason::MissingOrInvalidSignature => "MissingOrInvalidSignature"@,
            RequestRejectReason::InvalidKeyBindingProof => "InvalidKeyBindingProof"@,
            RequestRejectReason::ReplayRejected => "ReplayRejected"@,
        }
    }

    pub fn name(self) -> (name: &'static str)
        ensures
            name@ == self.spec_name(),
    {
        match self {
            RequestRejectReason::RequestExpiredOrInvalidWindow => "RequestExpiredOrInvalidWindow",
            RequestRejectReason::MissingOrInvalidSignature => "MissingOrInvalidSignature",
            RequestRejectReason::InvalidKeyBindingProof => "InvalidKeyBindingProof",
            RequestRejectReason::ReplayRejected => "ReplayRejected",
        }
    }

    /// What the audit calls the rejection, and how bad it is.
    pub fn map_reason(self) -> (names: (&'static str, &'static str))
        ensures
            names.0@ == self.spec_kind(),
            names.1@ == "warn"@,
    {
        match self {
            RequestRejectReason::RequestExpiredOrInvalidWindow => ("request_rejected", "warn"),
            RequestRejectReason::MissingOrInvalidSignature => (
                "request_rejected_signature",
                "warn",
            ),
            RequestRejectReason::InvalidKeyBindingProof => (
                "request_rejected_key_binding",
                "warn",
            ),
            RequestRejectReason::ReplayRejected => ("request_rejected_replay", "warn"),
        }
    }
}

/// A request that was rejected.
#[derive(Debug, PartialEq, Eq)]
pub struct RequestRejectAuditEvent {
    pub method: String,
    pub reason: RequestRejectReason,
    pub trace_id: TraceId,
    pub request_id: Option<RequestId>,
    pub request_nonce: Option<String>,
    pub room_id: Option<RoomId>,
    pub hand_id: Option<HandId>,
    pub seat_id: Option<SeatId>,
    pub action_seq: Option<u32>,
    pub detail: Option<String>,
}

/// The text of a request's identifier.
pub open spec fn request_tree(request_id: Option<RequestId>) -> JsonView {
    match request_id {
        Some(id) => JsonView::Text(uuid_text(id.0)),
        None => JsonView::Null,
    }
}

/// What the audit keeps of a request that was rejected.
pub open spec fn reject_payload(event: RequestRejectAuditEvent) -> JsonView {
    JsonView::Object(
        seq![
            member("method"@, JsonView::Text(event.method@)),
            member("reason"@, JsonView::Text(event.reason.spec_name())),
            member("request_id"@, request_tree(event.request_id)),
            member("request_nonce"@, optional_text_tree(event.request_nonce)),
            member("detail"@, optional_text_tree(event.detail)),
        ],
    )
}

/// The record of the audit of a request that was rejected.
pub fn on_request_rejected(event: &RequestRejectAuditEvent) -> (record: BehaviorEventRecord)
    ensures
        is_fresh_text(record.behavior_event_id@),
        record.event_kind@ == event.reason.spec_kind(),
        record.event_source@ == "rpc_gateway"@,
        record.room_id == event.room_id,
        record.hand_id == event.hand_id,
        record.seat_id == event.seat_id,
        record.action_seq == event.action_seq,
        match event.request_id {
            Some(id) => record.related_attempt_id is Some && record.related_attempt_id->0@
                == uuid_text(id.0),
            None => record.related_attempt_id is None,
        },
        record.related_tx_hash is None,
        record.severity@ == "warn"@,
        record.payload_json@ == reject_payload(*event),
        record.trace_id == event.trace_id,
{
    let (kind, severity) = event.reason.map_reason();
    let mut members: Vec<(String, Json)> = Vec::new();
    members.push((owned("method"), text_json(event.method.as_str())));
    members.push((owned("reason"), text_json(event.reason.name())));
    members.push(
        (
            owned("request_id"),
            match event.request_id {
                Some(id) => id_json(id.0),
                None => Json::Null,
            },
        ),
    );
    members.push((owned("request_nonce"), optional_text_json(&event.request_nonce)));
    members.push((owned("detail"), optional_text_json(&event.detail)));
    let payload = object(members);
    assert(payload@->Object_0 =~= reject_payload(*event)->Object_0);
    BehaviorEventRecord {
        behavior_event_id: fresh_id_text(),
        event_kind: owned(kind),
        event_source: owned("rpc_gateway"),
        room_id: event.room_id,
        hand_id: event.hand_id,
        seat_id: event.seat_id,
        action_seq: event.action_seq,
        related_attempt_id: match event.request_id {
            Some(id) => Some(id_text(id.0)),
            None => None,
        },
        related_tx_hash: None,
        severity: owned(severity),
        payload_json: payload,
        occurred_at: Timestamp::now(),
        trace_id: event.trace_id,
    }
}

/// Cards that were encrypted for a seat.
#[derive(Debug, PartialEq, Eq)]
pub struct HoleCardsDeliveryAuditEvent {
    pub room_id: RoomId,
    pub hand_id: HandId,
    pub seat_id: SeatId,
    pub event_seq: u32,
    pub key_id: String,
    pub algorithm: String,
    pub ciphertext_len: usize,
}

/// What the audit keeps of cards that were encrypted.
pub open spec fn delivery_payload(event: HoleCardsDeliveryAuditEvent) -> JsonView {
    JsonView::Object(
        seq![
            member("event_seq"@, number_tree(event.event_seq as u64)),
            member("key_id"@, JsonView::Text(event.key_id@)),
            member("algorithm"@, JsonView::Text(event.algorithm@)),
            member("ciphertext_len"@, number_tree(event.ciphertext_len as u64)),
        ],
    )
}

/// The record of the audit of cards that were encrypted.
pub fn on_hole_cards_encrypted(event: &HoleCardsDeliveryAuditEvent) -> (record: BehaviorEventRecord)
    ensures
        is_fresh_text(record.behavior_event_id@),
        record.event_kind@ == "hole_cards_encrypted_delivery"@,
        record.event_source@ == "seat_crypto"@,
        record.room_id == Some(event.room_id),
        record.hand_id == Some(event.hand_id),
        record.seat_id == Some(event.seat_id),
        record.action_seq is None,
        record.related_attempt_id is None,
        record.related_tx_hash is None,
        record.severity@ == "info"@,
        record.payload_json@ == delivery_payload(*event),
        is_time_ordered(record.trace_id.0),
{
    let mut members: Vec<(String, Json)> = Vec::new();
    members.push((owned("event_seq"), number_json(event.event_seq as u64)));
    members.push((owned("key_id"), text_json(event.key_id.as_str())));
    members.push((owned("algorithm"), text_json(event.algorithm.as_str())));
    members.push((owned("ciphertext_len"), number_json(event.ciphertext_len as u64)));
    let payload = object(members);
    assert(payload@->Object_0 =~= delivery_payload(*event)->Object_0);
    BehaviorEventRecord {
        behavior_event_id: fresh_id_text(),
        event_kind: owned("hole_cards_encrypted_delivery"),
        event_source: owned("seat_crypto"),
        room_id: Some(event.room_id),
        hand_id: Some(event.hand_id),
        seat_id: Some(event.seat_id),
        action_seq: None,
        related_attempt_id: None,
        related_tx_hash: None,
        severity: owned("info"),
        payload_json: payload,
        occurred_at: Timestamp::now(),
        trace_id: TraceId::new(),
    }
}

/// What an event that waits to be sent was read as.
#[derive(Debug, PartialEq, Eq)]
pub enum OutboxPayload {
    Hand(HandEvent),
    Seat(SeatPrivateEvent),
    Unreadable(String),
    Other,
}

/// How an event that waits to be sent is to be read.
#[derive(Debug, Clone, Copy, PartialEq, Eq, Structural)]
pub enum OutboxTopic {
    Hand,
    Seat,
    Other,
}

/// How an event under this topic is to be read.
pub fn outbox_topic(topic: &str) -> (kind: OutboxTopic)
    ensures
        kind == (if topic@ == "hand.events"@ {
            OutboxTopic::Hand
        } else if topic@ == "seat.events"@ {
            OutboxTopic::Seat
        } else {
            OutboxTopic::Other
        }),
{
    if same_text(topic, "hand.events") {
        OutboxTopic::Hand
    } else if same_text(topic, "seat.events") {
        OutboxTopic::Seat
    } else {
        OutboxTopic::Other
    }
}

/// Whether an event goes out in this envelope.
pub open spec fn goes_out_as(
    parsed: OutboxPayload,
    payload: JsonView,
    envelope: Result<Option<EventEnvelope>, String>,
) -> bool {
    match parsed {
        OutboxPayload::Hand(event) => {
            &&& envelope is Ok
            &&& envelope->Ok_0 is Some
            &&& envelope->Ok_0->0.topic == EventTopic::HandEvents
            &&& envelope->Ok_0->0.room_id == event.room_id
            &&& envelope->Ok_0->0.hand_id == Some(event.hand_id)
            &&& envelope->Ok_0->0.seat_id == event.kind.spec_seat()
            &&& envelope->Ok_0->0.event_name@ == event.kind.spec_name()
            &&& envelope->Ok_0->0.payload@ == payload
        },
        OutboxPayload::Seat(event) => {
            &&& envelope is Ok
            &&& envelope->Ok_0 is Some
            &&& envelope->Ok_0->0.topic == EventTopic::SeatEvents
            &&& envelope->Ok_0->0.room_id == event.room_id
            &&& envelope->Ok_0->0.hand_id == Some(event.hand_id)
            &&& envelope->Ok_0->0.seat_id == Some(event.seat_id)
            &&& envelope->Ok_0->0.event_name@ == event.event_name@
            &&& envelope->Ok_0->0.payload@ == event.payload@
        },
        OutboxPayload::Unreadable(detail) => envelope == Err::<Option<EventEnvelope>, String>(
            detail,
        ),
        OutboxPayload::Other => envelope is Ok && envelope->Ok_0 is None,
    }
}

/// The envelope that an event goes out in: an event of a hand as it is, something that only
/// one seat may see to that seat, and nothing else at all.
pub fn to_event_envelope(parsed: OutboxPayload, payload_json: Json) -> (envelope: Result<
    Option<EventEnvelope>,
    String,
>)
    ensures
        goes_out_as(parsed, payload_json@, envelope),
{
    match parsed {
        OutboxPayload::Hand(event) => Ok(
            Some(
                EventEnvelope {
                    topic: EventTopic::HandEvents,
                    room_id: event.room_id,
                    hand_id: Some(event.hand_id),
                    seat_id: hand_event_seat_id(&event.kind),
                    event_name: owned(hand_event_name(&event.kind)),
                    payload: payload_json,
                },
            ),
        ),
        OutboxPayload::Seat(event) => Ok(
            Some(
                EventEnvelope {
                    topic: EventTopic::SeatEvents,
                    room_id: event.room_id,
                    hand_id: Some(event.hand_id),
                    seat_id: Some(event.seat_id),
                    event_name: event.event_name,
                    payload: event.payload,
                },
            ),
        ),
        OutboxPayload::Unreadable(detail) => Err(detail),
        OutboxPayload::Other => Ok(None),
    }
}

/// One step of sending the events that wait.
#[derive(Debug, PartialEq, Eq)]
pub enum OutboxAction {
    /// Send this.
    Publish(EventEnvelope),
    /// Note that the event with this identifier was sent.
    MarkDelivered(String),
    /// Stop with this error.
    Stop(String),
    /// All is done; this many events were sent.
    Finish(usize),
}

/// An event that waits, with what it was read as.
#[derive(Debug, PartialEq, Eq)]
pub struct PendingEvent {
    pub outbox_event_id: String,
    pub payload_json: Json,
    pub parsed: OutboxPayload,
}

/// The events before the first that cannot be read.
pub open spec fn readable_events(events: Seq<PendingEvent>) -> Seq<PendingEvent>
    decreases events.len(),
{
    if events.len() == 0 {
        Seq::empty()
    } else {
        let front = readable_events(events.drop_last());
        if front.len() == events.len() - 1 && !(events.last().parsed is Unreadable) {
            front.push(events.last())
        } else {
            front
        }
    }
}

/// Those of the events that are sent at all.
pub open spec fn sent_events(events: Seq<PendingEvent>) -> Seq<PendingEvent> {
    events.filter(|event: PendingEvent| !(event.parsed is Other))
}

/// Whether the steps at these places send an event and note it.
pub open spec fn sends(event: PendingEvent, publish: OutboxAction, mark: OutboxAction) -> bool {
    &&& publish is Publish
    &&& goes_out_as(
        event.parsed,
        event.payload_json@,
        Ok::<Option<EventEnvelope>, String>(Some(publish->Publish_0)),
    )
    &&& mark == OutboxAction::MarkDelivered(event.outbox_event_id)
}

/// Whether these steps send all events, each noted once it is sent.
pub open spec fn sends_all(events: Seq<PendingEvent>, actions: Seq<OutboxAction>) -> bool {
    forall|i: int|
        0 <= i < events.len() ==> sends(#[trigger] events[i], actions[2 * i], actions[2 * i + 1])
}

/// The steps of sending the events that wait: each event is sent and then noted; one that
/// cannot be read ends the steps with its error, and else they end with the number of events
/// that were sent.
pub fn publish_pending_outbox_once(events: Vec<PendingEvent>) -> (actions: Vec<OutboxAction>)
    ensures
        ({
            let readable = readable_events(events@);
            let sent = sent_events(readable);
            &&& actions@.len() == 2 * sent.len() + 1
            &&& sends_all(sent, actions@)
            &&& readable.len() == events@.len() ==> actions@.last() is Finish
                && actions@.last()->Finish_0 == sent.len()
            &&& readable.len() < events@.len() ==> actions@.last() == OutboxAction::Stop(
                events@[readable.len() as int].parsed->Unreadable_0,
            )
        }),
{
    let ghost all = events@;
    let mut rest = events;
    let mut actions: Vec<OutboxAction> = Vec::new();
    let mut done: usize = 0;
    let mut published: usize = 0;
    let count: usize = rest.len();
    proof {
        reveal(Seq::filter);
        assert(all.take(0).len() == 0);
        assert(readable_events(all.take(0)) =~= all.take(0));
        assert(sent_events(all.take(0)).len() == 0);
        assert(rest@ =~= all.skip(0));
    }
    while done < count
        invariant
            done <= count,
            count == all.len(),
            all == events@,
            rest@ == all.skip(done as int),
            readable_events(all.take(done as int)) == all.take(done as int),
            published <= done,
            published == sent_events(all.take(done as int)).len(),
            actions@.len() == 2 * published,
            sends_all(sent_events(all.take(done as int)), actions@),
        decreases count - done,
    {
        let event = rest.remove(0);
        proof {
            reveal(Seq::filter);
            assert(event == all[done as int]);
            assert(rest@ =~= all.skip(done + 1));
            assert(all.take(done + 1).drop_last() =~= all.take(done as int));
            assert(all.take(done + 1) =~= all.take(done as int).push(event));
        }
        let ghost before = actions@;
        let ghost sent = sent_events(all.take(done as int));
        match to_event_envelope(event.parsed, event.payload_json) {
            Err(detail) => {
                proof {
                    lemma_readable_stops(all, done as nat, all.len());
                    assert(all.take(all.len() as int) =~= all);
                }
                actions.push(OutboxAction::Stop(detail));
                assert forall|i: int| 0 <= i < sent.len() implies sends(
                    #[trigger] sent[i],
                    actions@[2 * i],
                    actions@[2 * i + 1],
                ) by {
                    assert(before[2 * i] == actions@[2 * i]);
                }
                return actions;
            },
            Ok(None) => {},
            Ok(Some(envelope)) => {
                actions.push(OutboxAction::Publish(envelope));
                actions.push(OutboxAction::MarkDelivered(event.outbox_event_id));
                published = published + 1;
                assert(sent_events(all.take(done + 1)) == sent.push(event));
                assert forall|i: int| 0 <= i < sent.push(event).len() implies sends(
                    #[trigger] sent.push(event)[i],
                    actions@[2 * i],
                    actions@[2 * i + 1],
                ) by {
                    if i < sent.len() {
                        assert(sent[i] == sent.push(event)[i]);
                        assert(before[2 * i] == actions@[2 * i]);
                        assert(before[2 * i + 1] == actions@[2 * i + 1]);
                    }
                }
            },
        }
        done = done + 1;
    }
    assert(all.take(done as int) =~= all);
    let ghost before = actions@;
    let ghost sent = sent_events(all);
    actions.push(OutboxAction::Finish(published));
    assert forall|i: int| 0 <= i < sent.len() implies sends(
        #[trigger] sent[i],
        actions@[2 * i],
        actions@[2 * i + 1],
    ) by {
        assert(before[2 * i] == actions@[2 * i]);
        assert(before[2 * i + 1] == actions@[2 * i + 1]);
    }
    actions
}

proof fn lemma_readable_stops(events: Seq<PendingEvent>, place: nat, count: nat)
    requires
        place < count <= events.len(),
        readable_events(events.take(place as int)) == events.take(place as int),
        events[place as int].parsed is Unreadable,
    ensures
        readable_events(events.take(count as int)) == events.take(place as int),
    decreases count,
{
    assert(events.take(count as int).drop_last() =~= events.take(count - 1));
    if count > place + 1 {
        lemma_readable_stops(events, place, (count - 1) as nat);
    }
}

} // verus!
