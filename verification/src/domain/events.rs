use vstd::prelude::*;

use crate::domain::action::PlayerAction;
use crate::domain::game::{SeatId, Street};
use crate::domain::ids::{id_text, uuid_text, HandId, RoomId, TraceId};
use crate::domain::money::Chips;
use crate::domain::time::Timestamp;
use crate::json::{members_view, Json, JsonNumber, JsonView, NumberView};
use crate::text::owned;

verus! {

/// What happened in a hand.
#[derive(Debug, Clone, Copy, PartialEq, Eq, Structural)]
pub enum HandEventKind {
    HandStarted,
    TurnStarted { seat_id: SeatId },
    ActionAccepted(PlayerAction),
    StreetChanged { street: Street },
    PotUpdated { pot_total: Chips },
    HandClosed,
}

/// One event of a hand, in its place.
#[derive(Debug, Clone, Copy, PartialEq, Eq, Structural)]
pub struct HandEvent {
    pub room_id: RoomId,
    pub hand_id: HandId,
    pub event_seq: u32,
    pub trace_id: TraceId,
    pub occurred_at: Timestamp,
    pub kind: HandEventKind,
}

/// What players and the chain did around the hands.
#[derive(Debug, PartialEq, Eq)]
pub enum AuditBehaviorEventKind {
    SeatJoined { seat_id: SeatId },
    SeatLeft { seat_id: SeatId },
    SeatAddressBound { seat_id: SeatId },
    SeatSessionKeysBound { seat_id: SeatId, key_algo: String },
    TurnTimeoutAutoFold { seat_id: SeatId, action_seq: u32 },
    ChainTxVerificationCallback {
        seat_id: Option<SeatId>,
        action_seq: Option<u32>,
        tx_hash: String,
        status: String,
        confirmations: u64,
        failure_reason: Option<String>,
    },
}

/// One event around the hands.
#[derive(Debug, PartialEq, Eq)]
pub struct AuditBehaviorEvent {
    pub room_id: Option<RoomId>,
    pub hand_id: Option<HandId>,
    pub seat_id: Option<SeatId>,
    pub trace_id: TraceId,
    pub occurred_at: Timestamp,
    pub kind: AuditBehaviorEventKind,
}

/// A member of an object.
pub open spec fn member(key: Seq<char>, value: JsonView) -> (Seq<char>, JsonView) {
    (key, value)
}

/// An unsigned number as a value.
pub open spec fn number_tree(n: u64) -> JsonView {
    JsonView::Number(NumberView::Unsigned(n))
}

pub open spec fn optional_number_tree(n: Option<u64>) -> JsonView {
    match n {
        Some(n) => number_tree(n),
        None => JsonView::Null,
    }
}

pub open spec fn optional_text_tree(text: Option<String>) -> JsonView {
    match text {
        Some(text) => JsonView::Text(text@),
        None => JsonView::Null,
    }
}

/// Makes an object of members.
pub fn object(members: Vec<(String, Json)>) -> (value: Json)
    ensures
        value@ == JsonView::Object(members_view(members@)),
{
    let ghost views = members_view(members@);
    let value = Json::Object(members);
    assert(value@->Object_0 =~= views);
    value
}

/// An object with one member.
pub fn tagged(key: &str, value: Json) -> (object: Json)
    ensures
        object@ == JsonView::Object(seq![(key@, value@)]),
{
    let ghost inner = value@;
    let mut members: Vec<(String, Json)> = Vec::new();
    members.push((owned(key), value));
    assert(members_view(members@) =~= seq![(key@, inner)]);
    self::object(members)
}

pub fn text_json(text: &str) -> (value: Json)
    ensures
        value@ == JsonView::Text(text@),
{
    Json::Text(owned(text))
}

pub fn number_json(n: u64) -> (value: Json)
    ensures
        value@ == number_tree(n),
{
    Json::Number(JsonNumber::Unsigned(n))
}

pub fn optional_number_json(n: Option<u64>) -> (value: Json)
    ensures
        value@ == optional_number_tree(n),
{
    match n {
        Some(n) => number_json(n),
        None => Json::Null,
    }
}

pub fn optional_text_json(text: &Option<String>) -> (value: Json)
    ensures
        value@ == optional_text_tree(*text),
{
    match text {
        Some(text) => text_json(text.as_str()),
        None => Json::Null,
    }
}

/// An identifier as a value.
pub fn id_json(id: u128) -> (value: Json)
    ensures
        value@ == JsonView::Text(uuid_text(id)),
{
    Json::Text(id_text(id))
}

/// An amount as a value, where a document can hold it.
pub open spec fn chips_tree(amount: Chips) -> Option<JsonView> {
    if amount.0 <= u64::MAX {
        Some(number_tree(amount.0 as u64))
    } else {
        None
    }
}

/// An amount as a value. Numbers in documents go up to the largest of sixty-four bits; a
/// larger amount has no value.
pub fn chips_json(amount: Chips) -> (value: Option<Json>)
    ensures
        match value {
            Some(value) => chips_tree(amount) == Some(value@),
            None => chips_tree(amount) is None,
        },
{
    if amount.0 <= 18_446_744_073_709_551_615 {
        Some(number_json(amount.0 as u64))
    } else {
        None
    }
}

impl PlayerAction {
    /// The action as a value.
    pub open spec fn tree(self) -> Option<JsonView> {
        let amount = match self.amount {
            None => Some(JsonView::Null),
            Some(amount) => chips_tree(amount),
        };
        match amount {
            None => None,
            Some(amount) => Some(
                JsonView::Object(
                    seq![
                        member("room_id"@, JsonView::Text(uuid_text(self.room_id.0))),
                        member("hand_id"@, JsonView::Text(uuid_text(self.hand_id.0))),
                        member("action_seq"@, number_tree(self.action_seq as u64)),
                        member("seat_id"@, number_tree(self.seat_id as u64)),
                        member("action_type"@, JsonView::Text(self.action_type.spec_name())),
                        member("amount"@, amount),
                    ],
                ),
            ),
        }
    }

    /// The action as a value, where a document can hold its amount.
    pub fn to_json(&self) -> (value: Option<Json>)
        ensures
            match value {
                Some(value) => self.tree() == Some(value@),
                None => self.tree() is None,
            },
    {
        let amount = match self.amount {
            None => Json::Null,
            Some(amount) => match chips_json(amount) {
                Some(amount) => amount,
                None => {
                    return None;
                },
            },
        };
        let ghost amount_tree = amount@;
        let mut members: Vec<(String, Json)> = Vec::new();
        members.push((owned("room_id"), id_json(self.room_id.0)));
        members.push((owned("hand_id"), id_json(self.hand_id.0)));
        members.push((owned("action_seq"), number_json(self.action_seq as u64)));
        members.push((owned("seat_id"), number_json(self.seat_id as u64)));
        members.push((owned("action_type"), text_json(self.action_type.name())));
        members.push((owned("amount"), amount));
        assert(members_view(members@) =~= self.tree()->0->Object_0);
        Some(object(members))
    }
}

impl HandEventKind {
    /// The name of the event.
    pub open spec fn spec_name(self) -> Seq<char> {
        match self {
            HandEventKind::HandStarted => "hand_started"@,
            HandEventKind::TurnStarted { .. } => "turn_started"@,
            HandEventKind::ActionAccepted(_) => "action_accepted"@,
            HandEventKind::StreetChanged { .. } => "street_changed"@,
            HandEventKind::PotUpdated { .. } => "pot_updated"@,
            HandEventKind::HandClosed => "hand_closed"@,
        }
    }

    /// The seat that the event is about, if it is about one.
    pub open spec fn spec_seat(self) -> Option<SeatId> {
        match self {
            HandEventKind::TurnStarted { seat_id } => Some(seat_id),
            HandEventKind::ActionAccepted(action) => Some(action.seat_id),
            _ => None,
        }
    }

    /// The event as a value: its name, alone or over what it tells.
    pub open spec fn tree(self) -> Option<JsonView> {
        match self {
            HandEventKind::HandStarted => Some(JsonView::Text("hand_started"@)),
            HandEventKind::TurnStarted { seat_id } => Some(
                JsonView::Object(
                    seq![
                        member(
                            "turn_started"@,
                            JsonView::Object(seq![member("seat_id"@, number_tree(seat_id as u64))]),
                        ),
                    ],
                ),
            ),
            HandEventKind::ActionAccepted(action) => match action.tree() {
                Some(action) => Some(
                    JsonView::Object(seq![member("action_accepted"@, action)]),
                ),
                None => None,
            },
            HandEventKind::StreetChanged { street } => Some(
                JsonView::Object(
                    seq![
                        member(
                            "street_changed"@,
                            JsonView::Object(
                                seq![member("street"@, JsonView::Text(street.spec_name()))],
                            ),
                        ),
                    ],
                ),
            ),
            HandEventKind::PotUpdated { pot_total } => match chips_tree(pot_total) {
                Some(amount) => Some(
                    JsonView::Object(
                        seq![
                            member(
                                "pot_updated"@,
                                JsonView::Object(seq![member("pot_total"@, amount)]),
                            ),
                        ],
                    ),
                ),
                None => None,
            },
            HandEventKind::HandClosed => Some(JsonView::Text("hand_closed"@)),
        }
    }

    /// The event as a value, where a document can hold its amounts.
    pub fn to_json(&self) -> (value: Option<Json>)
        ensures
            match value {
                Some(value) => self.tree() == Some(value@),
                None => self.tree() is None,
            },
    {
        match self {
            HandEventKind::HandStarted => Some(text_json("hand_started")),
            HandEventKind::TurnStarted { seat_id } => Some(
                tagged("turn_started", tagged("seat_id", number_json(*seat_id as u64))),
            ),
            HandEventKind::ActionAccepted(action) => match action.to_json() {
                Some(action) => Some(tagged("action_accepted", action)),
                None => None,
            },
            HandEventKind::StreetChanged { street } => Some(
                tagged("street_changed", tagged("street", text_json(street.name()))),
            ),
            HandEventKind::PotUpdated { pot_total } => match chips_json(*pot_total) {
                Some(amount) => Some(tagged("pot_updated", tagged("pot_total", amount))),
                None => None,
            },
            HandEventKind::HandClosed => Some(text_json("hand_closed")),
        }
    }
}

impl HandEvent {
    /// The event as a value.
    pub open spec fn tree(self) -> Option<JsonView> {
        match self.kind.tree() {
            None => None,
            Some(kind) => Some(
                JsonView::Object(
                    seq![
                        member("room_id"@, JsonView::Text(uuid_text(self.room_id.0))),
                        member("hand_id"@, JsonView::Text(uuid_text(self.hand_id.0))),
                        member("event_seq"@, number_tree(self.event_seq as u64)),
                        member("trace_id"@, JsonView::Text(uuid_text(self.trace_id.0))),
                        member("occurred_at"@, JsonView::Text(self.occurred_at.document_text())),
                        member("kind"@, kind),
                    ],
                ),
            ),
        }
    }

    /// The event as a value, where a document can hold its amounts.
    pub fn to_json(&self) -> (value: Option<Json>)
        ensures
            match value {
                Some(value) => self.tree() == Some(value@),
                None => self.tree() is None,
            },
    {
        let kind = match self.kind.to_json() {
            Some(kind) => kind,
            None => {
                return None;
            },
        };
        let ghost kind_tree = kind@;
        let mut members: Vec<(String, Json)> = Vec::new();
        members.push((owned("room_id"), id_json(self.room_id.0)));
        members.push((owned("hand_id"), id_json(self.hand_id.0)));
        members.push((owned("event_seq"), number_json(self.event_seq as u64)));
        members.push((owned("trace_id"), id_json(self.trace_id.0)));
        members.push((owned("occurred_at"), Json::Text(self.occurred_at.to_document_text())));
        members.push((owned("kind"), kind));
        assert(members_view(members@) =~= self.tree()->0->Object_0);
        Some(object(members))
    }
}

/// The name of an event.
pub fn hand_event_name(kind: &HandEventKind) -> (name: &'static str)
    ensures
        name@ == kind.spec_name(),
{
    match kind {
        HandEventKind::HandStarted => "hand_started",
        HandEventKind::TurnStarted { .. } => "turn_started",
        HandEventKind::ActionAccepted(_) => "action_accepted",
        HandEventKind::StreetChanged { .. } => "street_changed",
        HandEventKind::PotUpdated { .. } => "pot_updated",
        HandEventKind::HandClosed => "hand_closed",
    }
}

/// The seat that an event is about, if it is about one.
pub fn hand_event_seat_id(kind: &HandEventKind) -> (seat: Option<u8>)
    ensures
        seat == kind.spec_seat(),
{
    match kind {
        HandEventKind::TurnStarted { seat_id } => Some(*seat_id),
        HandEventKind::ActionAccepted(action) => Some(action.seat_id),
        _ => None,
    }
}

impl AuditBehaviorEventKind {
    /// The name of the event.
    pub open spec fn spec_name(self) -> Seq<char> {
        match self {
            AuditBehaviorEventKind::SeatJoined { .. } => "seat_joined"@,
            AuditBehaviorEventKind::SeatLeft { .. } => "seat_left"@,
            AuditBehaviorEventKind::SeatAddressBound { .. } => "seat_address_bound"@,
            AuditBehaviorEventKind::SeatSessionKeysBound { .. } => "seat_session_keys_bound"@,
            AuditBehaviorEventKind::TurnTimeoutAutoFold { .. } => "turn_timeout_auto_fold"@,
            AuditBehaviorEventKind::ChainTxVerificationCallback {
                ..
            } => "chain_tx_verification_callback"@,
        }
    }

    /// What the event tells, as a value.
    pub open spec fn detail_tree(self) -> Seq<(Seq<char>, JsonView)> {
        match self {
            AuditBehaviorEventKind::SeatJoined { seat_id } => seq![
                member("seat_id"@, number_tree(seat_id as u64)),
            ],
            AuditBehaviorEventKind::SeatLeft { seat_id } => seq![
                member("seat_id"@, number_tree(seat_id as u64)),
            ],
            AuditBehaviorEventKind::SeatAddressBound { seat_id } => seq![
                member("seat_id"@, number_tree(seat_id as u64)),
            ],
            AuditBehaviorEventKind::SeatSessionKeysBound { seat_id, key_algo } => seq![
                member("seat_id"@, number_tree(seat_id as u64)),
                member("key_algo"@, JsonView::Text(key_algo@)),
            ],
            AuditBehaviorEventKind::TurnTimeoutAutoFold { seat_id, action_seq } => seq![
                member("seat_id"@, number_tree(seat_id as u64)),
                member("action_seq"@, number_tree(action_seq as u64)),
            ],
            AuditBehaviorEventKind::ChainTxVerificationCallback {
                seat_id,
                action_seq,
                tx_hash,
                status,
                confirmations,
                failure_reason,
            } => seq![
                member("seat_id"@, optional_number_tree(widen_seat(seat_id))),
                member("action_seq"@, optional_number_tree(widen_seq(action_seq))),
                member("tx_hash"@, JsonView::Text(tx_hash@)),
                member("status"@, JsonView::Text(status@)),
                member("confirmations"@, number_tree(confirmations)),
                member("failure_reason"@, optional_text_tree(failure_reason)),
            ],
        }
    }

    /// The event as a value: its name over what it tells.
    pub open spec fn tree(self) -> JsonView {
        JsonView::Object(
            seq![member(self.spec_name(), JsonView::Object(self.detail_tree()))],
        )
    }

    /// The name of the event.
    pub fn name(&self) -> (name: &'static str)
        ensures
            name@ == self.spec_name(),
    {
        match self {
            AuditBehaviorEventKind::SeatJoined { .. } => "seat_joined",
            AuditBehaviorEventKind::SeatLeft { .. } => "seat_left",
            AuditBehaviorEventKind::SeatAddressBound { .. } => "seat_address_bound",
            AuditBehaviorEventKind::SeatSessionKeysBound { .. } => "seat_session_keys_bound",
            AuditBehaviorEventKind::TurnTimeoutAutoFold { .. } => "turn_timeout_auto_fold",
            AuditBehaviorEventKind::ChainTxVerificationCallback {
                ..
            } => "chain_tx_verification_callback",
        }
    }

    /// The event as a value.
    pub fn to_json(&self) -> (value: Json)
        ensures
            value@ == self.tree(),
    {
        let mut members: Vec<(String, Json)> = Vec::new();
        match self {
            AuditBehaviorEventKind::SeatJoined { seat_id } => {
                members.push((owned("seat_id"), number_json(*seat_id as u64)));
            },
            AuditBehaviorEventKind::SeatLeft { seat_id } => {
                members.push((owned("seat_id"), number_json(*seat_id as u64)));
            },
            AuditBehaviorEventKind::SeatAddressBound { seat_id } => {
                members.push((owned("seat_id"), number_json(*seat_id as u64)));
            },
            AuditBehaviorEventKind::SeatSessionKeysBound { seat_id, key_algo } => {
                members.push((owned("seat_id"), number_json(*seat_id as u64)));
                members.push((owned("key_algo"), text_json(key_algo.as_str())));
            },
            AuditBehaviorEventKind::TurnTimeoutAutoFold { seat_id, action_seq } => {
                members.push((owned("seat_id"), number_json(*seat_id as u64)));
                members.push((owned("action_seq"), number_json(*action_seq as u64)));
            },
            AuditBehaviorEventKind::ChainTxVerificationCallback {
                seat_id,
                action_seq,
                tx_hash,
                status,
                confirmations,
                failure_reason,
            } => {
                let seat: Option<u64> = match seat_id {
                    Some(seat) => Some(*seat as u64),
                    None => None,
                };
                let seq: Option<u64> = match action_seq {
                    Some(seq) => Some(*seq as u64),
                    None => None,
                };
                members.push((owned("seat_id"), optional_number_json(seat)));
                members.push((owned("action_seq"), optional_number_json(seq)));
                members.push((owned("tx_hash"), text_json(tx_hash.as_str())));
                members.push((owned("status"), text_json(status.as_str())));
                members.push((owned("confirmations"), number_json(*confirmations)));
                members.push((owned("failure_reason"), optional_text_json(failure_reason)));
            },
        }
        assert(members_view(members@) =~= self.detail_tree());
        tagged(self.name(), object(members))
    }
}

pub open spec fn widen_seat(seat: Option<SeatId>) -> Option<u64> {
    match seat {
        Some(seat) => Some(seat as u64),
        None => None,
    }
}

pub open spec fn widen_seq(seq: Option<u32>) -> Option<u64> {
    match seq {
        Some(seq) => Some(seq as u64),
        None => None,
    }
}

} // verus!
