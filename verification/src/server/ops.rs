//! The pages for administrators.
use vstd::prelude::*;

use crate::audit::ActionAttemptRecord;
use crate::columns::{from_wide, is_optional_id_text, optional_id_text, unsigned_or_zero};
use crate::domain::events::{
    chips_json, chips_tree, id_json, member, number_json, number_tree, object, optional_number_json,
    optional_text_json, optional_text_tree, text_json, HandEvent,
};
use crate::domain::ids::{parse_id, parsed_uuid, uuid_text, HandId, RoomId};
use crate::domain::time::Timestamp;
use crate::json::{Json, JsonNumber, JsonView, NumberView};
use crate::ledger::{
    ExceptionCreditRecord, SettlementPlanRecordInsert, SettlementRecordInsert,
    SettlementRecordStatusUpdate, TxBindingRecord, TxVerificationRecord,
};
use crate::server::showdown::AdminUpsertShowdownInputRequest;
use crate::table::{lookup, upserted, Table};
use crate::text::{owned, same_text};

verus! {

// Records as documents.

/// An identifier that may be missing, as a value.
pub open spec fn optional_id_tree(id: Option<u128>) -> JsonView {
    match id {
        Some(id) => JsonView::Text(uuid_text(id)),
        None => JsonView::Null,
    }
}

fn optional_id_json(id: Option<u128>) -> (value: Json)
    ensures
        value@ == optional_id_tree(id),
{
    match id {
        Some(id) => id_json(id),
        None => Json::Null,
    }
}

/// A moment as a value.
pub open spec fn moment_tree(moment: Timestamp) -> JsonView {
    JsonView::Text(moment.document_text())
}

fn moment_json(moment: Timestamp) -> (value: Json)
    ensures
        value@ == moment_tree(moment),
{
    Json::Text(moment.to_document_text())
}

/// A moment that may be missing, as a value.
pub open spec fn optional_moment_tree(moment: Option<Timestamp>) -> JsonView {
    match moment {
        Some(moment) => moment_tree(moment),
        None => JsonView::Null,
    }
}

fn optional_moment_json(moment: Option<Timestamp>) -> (value: Json)
    ensures
        value@ == optional_moment_tree(moment),
{
    match moment {
        Some(moment) => moment_json(moment),
        None => Json::Null,
    }
}

/// A whole number as a value.
pub open spec fn signed_tree(n: i32) -> JsonView {
    if n < 0 {
        JsonView::Number(NumberView::Negative(n as i64))
    } else {
        JsonView::Number(NumberView::Unsigned(n as u64))
    }
}

fn signed_json(n: i32) -> (value: Json)
    ensures
        value@ == signed_tree(n),
{
    if n < 0 {
        Json::Number(JsonNumber::Negative(n as i64))
    } else {
        Json::Number(JsonNumber::Unsigned(n as u64))
    }
}

/// A small number that may be missing, as a value.
pub open spec fn optional_seat_tree(seat_id: Option<u8>) -> JsonView {
    match seat_id {
        Some(seat) => number_tree(seat as u64),
        None => JsonView::Null,
    }
}

/// A number that may be missing, as a value.
pub open spec fn optional_seq_tree(seq: Option<u32>) -> JsonView {
    match seq {
        Some(seq) => number_tree(seq as u64),
        None => JsonView::Null,
    }
}

impl ActionAttemptRecord {
    /// The record as a document.
    pub open spec fn tree(self) -> JsonView {
        JsonView::Object(
            seq![
                member("attempt_id"@, JsonView::Text(self.attempt_id@)),
                member("request_id"@, JsonView::Text(self.request_id@)),
                member("request_nonce"@, JsonView::Text(self.request_nonce@)),
                member(
                    "agent_id"@,
                    optional_id_tree(
                        match self.agent_id {
                            Some(id) => Some(id.0),
                            None => None,
                        },
                    ),
                ),
                member(
                    "session_id"@,
                    optional_id_tree(
                        match self.session_id {
                            Some(id) => Some(id.0),
                            None => None,
                        },
                    ),
                ),
                member(
                    "room_id"@,
                    optional_id_tree(
                        match self.room_id {
                            Some(id) => Some(id.0),
                            None => None,
                        },
                    ),
                ),
                member(
                    "hand_id"@,
                    optional_id_tree(
                        match self.hand_id {
                            Some(id) => Some(id.0),
                            None => None,
                        },
                    ),
                ),
                member("seat_id"@, optional_seat_tree(self.seat_id)),
                member("action_seq"@, optional_seq_tree(self.action_seq)),
                member("method"@, JsonView::Text(self.method@)),
                member("action_type"@, optional_text_tree(self.action_type)),
                member("request_payload_json"@, self.request_payload_json@),
                member("signature_verify_result"@, JsonView::Text(self.signature_verify_result@)),
                member("replay_check_result"@, JsonView::Text(self.replay_check_result@)),
                member("idempotency_check_result"@, JsonView::Text(self.idempotency_check_result@)),
                member("validation_result"@, JsonView::Text(self.validation_result@)),
                member("router_result"@, JsonView::Text(self.router_result@)),
                member("business_result_code"@, optional_text_tree(self.business_result_code)),
                member("error_detail"@, optional_text_tree(self.error_detail)),
                member("received_at"@, moment_tree(self.received_at)),
                member("completed_at"@, optional_moment_tree(self.completed_at)),
                member("trace_id"@, JsonView::Text(uuid_text(self.trace_id.0))),
            ],
        )
    }

    /// The record as a document.
    pub fn to_json(&self) -> (value: Json)
        ensures
            value@ == self.tree(),
    {
        let agent_id: Option<u128> = match self.agent_id {
            Some(id) => Some(id.0),
            None => None,
        };
        let session_id: Option<u128> = match self.session_id {
            Some(id) => Some(id.0),
            None => None,
        };
        let room_id: Option<u128> = match self.room_id {
            Some(id) => Some(id.0),
            None => None,
        };
        let hand_id: Option<u128> = match self.hand_id {
            Some(id) => Some(id.0),
            None => None,
        };
        let seat_id: Option<u64> = match self.seat_id {
            Some(seat) => Some(seat as u64),
            None => None,
        };
        let action_seq: Option<u64> = match self.action_seq {
            Some(seq) => Some(seq as u64),
            None => None,
        };
        let mut members: Vec<(String, Json)> = Vec::new();
        members.push((owned("attempt_id"), text_json(self.attempt_id.as_str())));
        members.push((owned("request_id"), text_json(self.request_id.as_str())));
        members.push((owned("request_nonce"), text_json(self.request_nonce.as_str())));
        members.push((owned("agent_id"), optional_id_json(agent_id)));
        members.push((owned("session_id"), optional_id_json(session_id)));
        members.push((owned("room_id"), optional_id_json(room_id)));
        members.push((owned("hand_id"), optional_id_json(hand_id)));
        members.push((owned("seat_id"), optional_number_json(seat_id)));
        members.push((owned("action_seq"), optional_number_json(action_seq)));
        members.push((owned("method"), text_json(self.method.as_str())));
        members.push((owned("action_type"), optional_text_json(&self.action_type)));
        members.push((owned("request_payload_json"), self.request_payload_json.clone()));
        members.push(
            (owned("signature_verify_result"), text_json(self.signature_verify_result.as_str())),
        );
        members.push((owned("replay_check_result"), text_json(self.replay_check_result.as_str())));
        members.push(
            (owned("idempotency_check_result"), text_json(self.idempotency_check_result.as_str())),
        );
        members.push((owned("validation_result"), text_json(self.validation_result.as_str())));
        members.push((owned("router_result"), text_json(self.router_result.as_str())));
        members.push((owned("business_result_code"), optional_text_json(&self.business_result_code)));
        members.push((owned("error_detail"), optional_text_json(&self.error_detail)));
        members.push((owned("received_at"), moment_json(self.received_at)));
        members.push((owned("completed_at"), optional_moment_json(self.completed_at)));
        members.push((owned("trace_id"), id_json(self.trace_id.0)));
        let value = object(members);
        assert(value@->Object_0 =~= self.tree()->Object_0);
        value
    }
}

impl TxVerificationRecord {
    /// The record as a document, where its amount has a value.
    pub open spec fn tree(self) -> Option<JsonView> {
        let value = match self.value {
            Some(amount) => chips_tree(amount),
            None => Some(JsonView::Null),
        };
        match value {
            None => None,
            Some(value) => Some(
                JsonView::Object(
                    seq![
                        member("tx_hash"@, JsonView::Text(self.tx_hash@)),
                        member("chain_id"@, JsonView::Text(self.chain_id@)),
                        member("from_address"@, optional_text_tree(self.from_address)),
                        member("to_address"@, optional_text_tree(self.to_address)),
                        member("value"@, value),
                        member("tx_status"@, JsonView::Text(self.tx_status@)),
                        member("confirmations"@, number_tree(self.confirmations)),
                        member("verification_status"@, JsonView::Text(self.verification_status@)),
                        member("failure_reason"@, optional_text_tree(self.failure_reason)),
                        member("verified_at"@, optional_moment_tree(self.verified_at)),
                    ],
                ),
            ),
        }
    }

    /// The record as a document, where its amount has a value.
    pub fn to_json(&self) -> (value: Option<Json>)
        ensures
            is_document(value, self.tree()),
    {
        let amount = match self.value {
            Some(amount) => match chips_json(amount) {
                Some(value) => value,
                None => {
                    return None;
                },
            },
            None => Json::Null,
        };
        let mut members: Vec<(String, Json)> = Vec::new();
        members.push((owned("tx_hash"), text_json(self.tx_hash.as_str())));
        members.push((owned("chain_id"), text_json(self.chain_id.as_str())));
        members.push((owned("from_address"), optional_text_json(&self.from_address)));
        members.push((owned("to_address"), optional_text_json(&self.to_address)));
        members.push((owned("value"), amount));
        members.push((owned("tx_status"), text_json(self.tx_status.as_str())));
        members.push((owned("confirmations"), number_json(self.confirmations)));
        members.push((owned("verification_status"), text_json(self.verification_status.as_str())));
        members.push((owned("failure_reason"), optional_text_json(&self.failure_reason)));
        members.push((owned("verified_at"), optional_moment_json(self.verified_at)));
        let value = object(members);
        assert(value@->Object_0 =~= self.tree()->0->Object_0);
        Some(value)
    }
}

/// Whether a document that may be missing is this one.
pub open spec fn is_document(value: Option<Json>, expected: Option<JsonView>) -> bool {
    match expected {
        Some(tree) => value is Some && value->0@ == tree,
        None => value is None,
    }
}

impl TxBindingRecord {
    /// The record as a document, where its amount has a value.
    pub open spec fn tree(self) -> Option<JsonView> {
        match chips_tree(self.expected_amount) {
            None => None,
            Some(amount) => Some(
                JsonView::Object(
                    seq![
                        member("room_id"@, JsonView::Text(uuid_text(self.room_id.0))),
                        member("hand_id"@, JsonView::Text(uuid_text(self.hand_id.0))),
                        member("action_seq"@, number_tree(self.action_seq as u64)),
                        member("seat_id"@, number_tree(self.seat_id as u64)),
                        member("expected_amount"@, amount),
                        member("tx_hash"@, JsonView::Text(self.tx_hash@)),
                        member("binding_status"@, JsonView::Text(self.binding_status@)),
                        member("bound_at"@, moment_tree(self.bound_at)),
                    ],
                ),
            ),
        }
    }

    /// The record as a document, where its amount has a value.
    pub fn to_json(&self) -> (value: Option<Json>)
        ensures
            is_document(value, self.tree()),
    {
        let amount = match chips_json(self.expected_amount) {
            Some(value) => value,
            None => {
                return None;
            },
        };
        let mut members: Vec<(String, Json)> = Vec::new();
        members.push((owned("room_id"), id_json(self.room_id.0)));
        members.push((owned("hand_id"), id_json(self.hand_id.0)));
        members.push((owned("action_seq"), number_json(self.action_seq as u64)));
        members.push((owned("seat_id"), number_json(self.seat_id as u64)));
        members.push((owned("expected_amount"), amount));
        members.push((owned("tx_hash"), text_json(self.tx_hash.as_str())));
        members.push((owned("binding_status"), text_json(self.binding_status.as_str())));
        members.push((owned("bound_at"), moment_json(self.bound_at)));
        let value = object(members);
        assert(value@->Object_0 =~= self.tree()->0->Object_0);
        Some(value)
    }
}

impl ExceptionCreditRecord {
    /// The record as a document, where its amount has a value.
    pub open spec fn tree(self) -> Option<JsonView> {
        match chips_tree(self.amount) {
            None => None,
            Some(amount) => Some(
                JsonView::Object(
                    seq![
                        member("room_id"@, JsonView::Text(uuid_text(self.room_id.0))),
                        member("seat_id"@, number_tree(self.seat_id as u64)),
                        member(
                            "hand_id"@,
                            optional_id_tree(
                                match self.hand_id {
                                    Some(id) => Some(id.0),
                                    None => None,
                                },
                            ),
                        ),
                        member("tx_hash"@, optional_text_tree(self.tx_hash)),
                        member("credit_kind"@, JsonView::Text(self.credit_kind@)),
                        member("amount"@, amount),
                        member("status"@, JsonView::Text(self.status@)),
                        member("reason"@, optional_text_tree(self.reason)),
                        member("created_at"@, moment_tree(self.created_at)),
                        member("updated_at"@, moment_tree(self.updated_at)),
                    ],
                ),
            ),
        }
    }

    /// The record as a document, where its amount has a value.
    pub fn to_json(&self) -> (value: Option<Json>)
        ensures
            is_document(value, self.tree()),
    {
        let amount = match chips_json(self.amount) {
            Some(value) => value,
            None => {
                return None;
            },
        };
        let hand_id: Option<u128> = match self.hand_id {
            Some(id) => Some(id.0),
            None => None,
        };
        let mut members: Vec<(String, Json)> = Vec::new();
        members.push((owned("room_id"), id_json(self.room_id.0)));
        members.push((owned("seat_id"), number_json(self.seat_id as u64)));
        members.push((owned("hand_id"), optional_id_json(hand_id)));
        members.push((owned("tx_hash"), optional_text_json(&self.tx_hash)));
        members.push((owned("credit_kind"), text_json(self.credit_kind.as_str())));
        members.push((owned("amount"), amount));
        members.push((owned("status"), text_json(self.status.as_str())));
        members.push((owned("reason"), optional_text_json(&self.reason)));
        members.push((owned("created_at"), moment_json(self.created_at)));
        members.push((owned("updated_at"), moment_json(self.updated_at)));
        let value = object(members);
        assert(value@->Object_0 =~= self.tree()->0->Object_0);
        Some(value)
    }
}

impl SettlementPlanRecordInsert {
    /// The record as a document, where its amounts have values.
    pub open spec fn tree(self) -> Option<JsonView> {
        match (chips_tree(self.rake_amount), chips_tree(self.payout_total)) {
            (Some(rake), Some(total)) => Some(
                JsonView::Object(
                    seq![
                        member(
                            "settlement_plan_id"@,
                            JsonView::Text(uuid_text(self.settlement_plan_id)),
                        ),
                        member("room_id"@, JsonView::Text(uuid_text(self.room_id.0))),
                        member("hand_id"@, JsonView::Text(uuid_text(self.hand_id.0))),
                        member("status"@, JsonView::Text(self.status@)),
                        member("rake_amount"@, rake),
                        member("payout_total"@, total),
                        member("payload_json"@, self.payload_json@),
                        member("created_at"@, moment_tree(self.created_at)),
                        member("finalized_at"@, optional_moment_tree(self.finalized_at)),
                    ],
                ),
            ),
            _ => None,
        }
    }

    /// The record as a document, where its amounts have values.
    pub fn to_json(&self) -> (value: Option<Json>)
        ensures
            is_document(value, self.tree()),
    {
        let rake = match chips_json(self.rake_amount) {
            Some(value) => value,
            None => {
                return None;
            },
        };
        let total = match chips_json(self.payout_total) {
            Some(value) => value,
            None => {
                return None;
            },
        };
        let mut members: Vec<(String, Json)> = Vec::new();
        members.push((owned("settlement_plan_id"), id_json(self.settlement_plan_id)));
        members.push((owned("room_id"), id_json(self.room_id.0)));
        members.push((owned("hand_id"), id_json(self.hand_id.0)));
        members.push((owned("status"), text_json(self.status.as_str())));
        members.push((owned("rake_amount"), rake));
        members.push((owned("payout_total"), total));
        members.push((owned("payload_json"), self.payload_json.clone()));
        members.push((owned("created_at"), moment_json(self.created_at)));
        members.push((owned("finalized_at"), optional_moment_json(self.finalized_at)));
        let value = object(members);
        assert(value@->Object_0 =~= self.tree()->0->Object_0);
        Some(value)
    }
}

impl SettlementRecordInsert {
    /// The record as a document.
    pub open spec fn tree(self) -> JsonView {
        JsonView::Object(
            seq![
                member("settlement_record_id"@, JsonView::Text(uuid_text(self.settlement_record_id))),
                member("settlement_plan_id"@, JsonView::Text(uuid_text(self.settlement_plan_id))),
                member("room_id"@, JsonView::Text(uuid_text(self.room_id.0))),
                member("hand_id"@, JsonView::Text(uuid_text(self.hand_id.0))),
                member("tx_hash"@, optional_text_tree(self.tx_hash)),
                member("settlement_status"@, JsonView::Text(self.settlement_status@)),
                member("retry_count"@, signed_tree(self.retry_count)),
                member("error_detail"@, optional_text_tree(self.error_detail)),
                member("created_at"@, moment_tree(self.created_at)),
                member("updated_at"@, moment_tree(self.updated_at)),
            ],
        )
    }

    /// The record as a document.
    pub fn to_json(&self) -> (value: Json)
        ensures
            value@ == self.tree(),
    {
        let mut members: Vec<(String, Json)> = Vec::new();
        members.push((owned("settlement_record_id"), id_json(self.settlement_record_id)));
        members.push((owned("settlement_plan_id"), id_json(self.settlement_plan_id)));
        members.push((owned("room_id"), id_json(self.room_id.0)));
        members.push((owned("hand_id"), id_json(self.hand_id.0)));
        members.push((owned("tx_hash"), optional_text_json(&self.tx_hash)));
        members.push((owned("settlement_status"), text_json(self.settlement_status.as_str())));
        members.push((owned("retry_count"), signed_json(self.retry_count)));
        members.push((owned("error_detail"), optional_text_json(&self.error_detail)));
        members.push((owned("created_at"), moment_json(self.created_at)));
        members.push((owned("updated_at"), moment_json(self.updated_at)));
        let value = object(members);
        assert(value@->Object_0 =~= self.tree()->Object_0);
        value
    }
}

// The pages.

#[derive(Debug, Clone, Copy, PartialEq, Eq)]
pub struct HealthResponse {
    pub ok: bool,
    pub service: &'static str,
}

#[derive(Debug, Clone, Copy, PartialEq, Eq)]
pub struct MetricsResponse {
    pub format: &'static str,
    pub body: &'static str,
}

/// The page that says that the server is well.
pub fn health() -> (page: HealthResponse)
    ensures
        page.ok,
        page.service@ == "ops-http"@,
{
    HealthResponse { ok: true, service: "ops-http" }
}

/// The page that will say how the server does.
pub fn metrics() -> (page: MetricsResponse)
    ensures
        page.format@ == "prometheus-text"@,
        page.body@ == "# metrics not implemented yet\n"@,
{
    MetricsResponse { format: "prometheus-text", body: "# metrics not implemented yet\n" }
}

#[derive(Debug, PartialEq, Eq)]
pub struct AdminStubResponse {
    pub ok: bool,
    pub resource: String,
    pub id: String,
    pub note: &'static str,
}

#[derive(Debug, PartialEq, Eq)]
pub struct AdminAuditRequestResponse {
    pub ok: bool,
    pub request_id: String,
    pub found: bool,
    pub record: Option<Json>,
}

#[derive(Debug, PartialEq, Eq)]
pub struct AdminAuditTxResponse {
    pub ok: bool,
    pub tx_hash: String,
    pub found: bool,
    pub verification: Option<Json>,
    pub tx_binding: Option<Json>,
    pub exception_credits: Vec<Json>,
}

#[derive(Debug, PartialEq, Eq)]
pub struct AdminHandReplayResponse {
    pub ok: bool,
    pub hand_id: String,
    pub found: bool,
    pub events: Vec<Json>,
}

#[derive(Debug, PartialEq, Eq)]
pub struct AdminSettlementHandResponse {
    pub ok: bool,
    pub hand_id: String,
    pub found: bool,
    pub plan: Option<Json>,
    pub records: Vec<Json>,
}

#[derive(Debug, PartialEq, Eq)]
pub struct AdminMarkManualReviewRequest {
    pub retry_count: Option<i32>,
    pub reason: Option<String>,
}

#[derive(Debug, PartialEq, Eq)]
pub struct AdminMarkManualReviewResponse {
    pub ok: bool,
    pub tx_hash: String,
    pub settlement_status: &'static str,
    pub retry_count: i32,
}

#[derive(Debug, PartialEq, Eq)]
pub struct AdminUpsertShowdownInputResponse {
    pub ok: bool,
    pub hand_id: String,
    pub accepted: bool,
}

/// What an administrator sees of a room.
#[derive(Debug, Clone, PartialEq, Eq)]
pub struct RoomAdminAggregate {
    pub room_id: RoomId,
    pub room_status: String,
    pub dealer_address: String,
    pub max_players: u16,
    pub occupied_seats: u16,
    pub latest_hand_id: Option<String>,
    pub latest_hand_no: Option<u64>,
    pub latest_hand_status: Option<String>,
    pub latest_hand_started_at: Option<Timestamp>,
    pub open_exception_credit_count: u64,
    pub open_exception_credit_total: String,
}

#[derive(Debug, PartialEq, Eq)]
pub struct AdminRoomResponse {
    pub ok: bool,
    pub room_id: String,
    pub found: bool,
    pub room: Option<RoomAdminAggregate>,
}

/// The identifier in an address of a page; one that is none asks for nothing.
pub open spec fn asked_id(id: Seq<char>) -> Option<u128> {
    match parsed_uuid(id) {
        Ok(id) => Some(id),
        Err(_) => None,
    }
}

/// The room that a page is asked for.
pub fn asked_room(id: &str) -> (room_id: Option<RoomId>)
    ensures
        room_id == (match asked_id(id@) {
            Some(id) => Some(RoomId(id)),
            None => None,
        }),
        forall|given: u128| #[trigger]
            uuid_text(given) == id@ ==> room_id == Some(RoomId(given)),
{
    match parse_id(id) {
        Ok(id) => Some(RoomId(id)),
        Err(_) => None,
    }
}

/// The hand that a page is asked for.
pub fn asked_hand(id: &str) -> (hand_id: Option<HandId>)
    ensures
        hand_id == (match asked_id(id@) {
            Some(id) => Some(HandId(id)),
            None => None,
        }),
        forall|given: u128| #[trigger]
            uuid_text(given) == id@ ==> hand_id == Some(HandId(given)),
{
    match parse_id(id) {
        Ok(id) => Some(HandId(id)),
        Err(_) => None,
    }
}

/// How many events of a hand a page shows.
pub const REPLAY_LIMIT: usize = 500;

/// How many payments that are owed back are looked through.
pub const CREDIT_LIMIT: usize = 100;

/// The page of a room.
pub fn admin_room(id: String, room: Option<RoomAdminAggregate>) -> (page: AdminRoomResponse)
    ensures
        page.ok,
        page.room_id == id,
        page.found == (room is Some),
        page.room == room,
{
    AdminRoomResponse { ok: true, room_id: id, found: room.is_some(), room: room }
}

/// The documents of the events that a document can hold.
pub open spec fn event_documents(events: Seq<HandEvent>) -> Seq<JsonView>
    decreases events.len(),
{
    if events.len() == 0 {
        Seq::empty()
    } else {
        let front = event_documents(events.drop_last());
        match events.last().tree() {
            Some(tree) => front.push(tree),
            None => front,
        }
    }
}

/// The documents as mathematical values.
pub open spec fn documents(values: Seq<Json>) -> Seq<JsonView> {
    values.map_values(|value: Json| value@)
}

/// The page that plays a hand again.
pub fn admin_hand_replay(id: String, events: &Vec<HandEvent>) -> (page: AdminHandReplayResponse)
    ensures
        page.ok,
        page.hand_id == id,
        documents(page.events@) == event_documents(events@),
        page.found == (page.events@.len() > 0),
{
    let mut shown: Vec<Json> = Vec::new();
    let mut i: usize = 0;
    assert(documents(shown@) =~= event_documents(events@.take(0)));
    while i < events.len()
        invariant
            i <= events.len(),
            documents(shown@) == event_documents(events@.take(i as int)),
        decreases events.len() - i,
    {
        assert(events@.take(i + 1).drop_last() =~= events@.take(i as int));
        let ghost before = shown@;
        match events[i].to_json() {
            Some(value) => {
                shown.push(value);
                assert(documents(shown@) =~= documents(before).push(value@));
            },
            None => {},
        }
        i = i + 1;
    }
    assert(events@.take(i as int) =~= events@);
    AdminHandReplayResponse { ok: true, hand_id: id, found: shown.len() > 0, events: shown }
}

/// The plan that belongs to the records of a hand: that of the first.
pub fn plan_of_records(records: &Vec<SettlementRecordInsert>) -> (plan_id: Option<u128>)
    ensures
        plan_id == (if records@.len() > 0 {
            Some(records@[0].settlement_plan_id)
        } else {
            None
        }),
{
    if records.len() > 0 {
        Some(records[0].settlement_plan_id)
    } else {
        None
    }
}

/// The page of how a hand was paid out.
pub fn admin_settlement_hand(
    id: String,
    plan: Option<&SettlementPlanRecordInsert>,
    records: &Vec<SettlementRecordInsert>,
) -> (page: AdminSettlementHandResponse)
    ensures
        page.ok,
        page.hand_id == id,
        is_document(
            page.plan,
            match plan {
                Some(plan) => plan.tree(),
                None => None,
            },
        ),
        documents(page.records@) == records@.map_values(
            |record: SettlementRecordInsert| record.tree(),
        ),
        page.found == (page.plan is Some || records@.len() > 0),
{
    let plan_json = match plan {
        Some(plan) => plan.to_json(),
        None => None,
    };
    let ghost told = |record: SettlementRecordInsert| record.tree();
    let mut shown: Vec<Json> = Vec::new();
    let mut i: usize = 0;
    while i < records.len()
        invariant
            i <= records.len(),
            shown@.len() == i,
            forall|k: int| 0 <= k < i ==> (#[trigger] shown@[k])@ == records@[k].tree(),
        decreases records.len() - i,
    {
        shown.push(records[i].to_json());
        i = i + 1;
    }
    assert(documents(shown@) =~= records@.map_values(told));
    AdminSettlementHandResponse {
        ok: true,
        hand_id: id,
        found: plan_json.is_some() || shown.len() > 0,
        plan: plan_json,
        records: shown,
    }
}

/// The page of a request.
pub fn admin_audit_request(id: String, record: Option<&ActionAttemptRecord>) -> (page:
    AdminAuditRequestResponse)
    ensures
        page.ok,
        page.request_id == id,
        page.found == (record is Some),
        is_document(
            page.record,
            match record {
                Some(record) => Some(record.tree()),
                None => None,
            },
        ),
{
    let shown = match record {
        Some(record) => Some(record.to_json()),
        None => None,
    };
    AdminAuditRequestResponse { ok: true, request_id: id, found: shown.is_some(), record: shown }
}

/// The documents of the payments that are owed back for one transaction.
pub open spec fn credit_documents(credits: Seq<ExceptionCreditRecord>, tx_hash: Seq<char>) -> Seq<
    JsonView,
>
    decreases credits.len(),
{
    if credits.len() == 0 {
        Seq::empty()
    } else {
        let front = credit_documents(credits.drop_last(), tx_hash);
        let credit = credits.last();
        if credit.tx_hash is Some && credit.tx_hash->0@ == tx_hash && credit.tree() is Some {
            front.push(credit.tree()->0)
        } else {
            front
        }
    }
}

/// The page of a transaction.
pub fn admin_audit_tx(
    id: String,
    verification: Option<&TxVerificationRecord>,
    tx_binding: Option<&TxBindingRecord>,
    credits: &Vec<ExceptionCreditRecord>,
) -> (page: AdminAuditTxResponse)
    ensures
        page.ok,
        page.tx_hash == id,
        is_document(
            page.verification,
            match verification {
                Some(record) => record.tree(),
                None => None,
            },
        ),
        is_document(
            page.tx_binding,
            match tx_binding {
                Some(record) => record.tree(),
                None => None,
            },
        ),
        documents(page.exception_credits@) == credit_documents(credits@, id@),
        page.found == (page.verification is Some || page.tx_binding is Some
            || page.exception_credits@.len() > 0),
{
    let shown_verification = match verification {
        Some(record) => record.to_json(),
        None => None,
    };
    let shown_binding = match tx_binding {
        Some(record) => record.to_json(),
        None => None,
    };
    let mut shown: Vec<Json> = Vec::new();
    let mut i: usize = 0;
    assert(documents(shown@) =~= credit_documents(credits@.take(0), id@));
    while i < credits.len()
        invariant
            i <= credits.len(),
            documents(shown@) == credit_documents(credits@.take(i as int), id@),
        decreases credits.len() - i,
    {
        let credit = &credits[i];
        assert(credits@.take(i + 1).drop_last() =~= credits@.take(i as int));
        let ghost before = shown@;
        let is_of_tx: bool = match &credit.tx_hash {
            Some(hash) => same_text(hash.as_str(), id.as_str()),
            None => false,
        };
        if is_of_tx {
            match credit.to_json() {
                Some(value) => {
                    shown.push(value);
                    assert(documents(shown@) =~= documents(before).push(value@));
                },
                None => {},
            }
        }
        i = i + 1;
    }
    assert(credits@.take(i as int) =~= credits@);
    AdminAuditTxResponse {
        ok: true,
        tx_hash: id,
        found: shown_verification.is_some() || shown_binding.is_some() || shown.len() > 0,
        verification: shown_verification,
        tx_binding: shown_binding,
        exception_credits: shown,
    }
}

/// What is noted when an administrator wants somebody to look at a payment, and the page that
/// answers: one retry unless another number is given, and never less than none.
pub fn admin_mark_settlement_manual_review(id: String, body: AdminMarkManualReviewRequest) -> (answer: (
    SettlementRecordStatusUpdate,
    AdminMarkManualReviewResponse,
))
    ensures
        ({
            let asked: int = match body.retry_count {
                Some(n) => n as int,
                None => 1,
            };
            let retries: int = if asked >= 0 {
                asked
            } else {
                0
            };
            &&& answer.0.tx_hash@ == id@
            &&& answer.0.settlement_status@ == "manual_review_required"@
            &&& answer.0.retry_count == retries
            &&& answer.0.error_detail is Some
            &&& answer.0.error_detail->0@ == (match body.reason {
                Some(reason) => reason@,
                None => "manual review required (ops override)"@,
            })
            &&& answer.1.ok
            &&& answer.1.tx_hash == id
            &&& answer.1.settlement_status@ == "manual_review_required"@
            &&& answer.1.retry_count == retries
        }),
{
    let asked: i32 = match body.retry_count {
        Some(n) => n,
        None => 1,
    };
    let retries: i32 = if asked >= 0 {
        asked
    } else {
        0
    };
    let reason = match body.reason {
        Some(reason) => reason,
        None => owned("manual review required (ops override)"),
    };
    let update = SettlementRecordStatusUpdate {
        tx_hash: id.clone(),
        settlement_status: owned("manual_review_required"),
        retry_count: retries,
        error_detail: Some(reason),
        updated_at: Timestamp::now(),
    };
    let page = AdminMarkManualReviewResponse {
        ok: true,
        tx_hash: id,
        settlement_status: "manual_review_required",
        retry_count: retries,
    };
    (update, page)
}

/// The page that answers an administrator who wrote down the cards of a hand.
pub fn admin_upsert_showdown_input(id: String, accepted: bool) -> (page:
    AdminUpsertShowdownInputResponse)
    ensures
        page.ok,
        page.hand_id == id,
        page.accepted == accepted,
{
    AdminUpsertShowdownInputResponse { ok: true, hand_id: id, accepted: accepted }
}

/// Takes the cards of hands.
pub trait ShowdownAdminRepository {
    fn upsert_showdown_input(
        &mut self,
        hand_id: HandId,
        payload: AdminUpsertShowdownInputRequest,
    ) -> Result<(), String>;
}

/// Takes the cards of hands and forgets them.
#[derive(Debug)]
pub struct NoopShowdownAdminRepository;

impl ShowdownAdminRepository for NoopShowdownAdminRepository {
    fn upsert_showdown_input(
        &mut self,
        hand_id: HandId,
        payload: AdminUpsertShowdownInputRequest,
    ) -> (result: Result<(), String>)
        ensures
            result is Ok,
    {
        Ok(())
    }
}

/// Tells of rooms.
pub trait RoomAdminReadRepository {
    fn get_room_admin_aggregate(&self, room_id: RoomId) -> Result<
        Option<&RoomAdminAggregate>,
        String,
    >;
}

/// What administrators see of rooms, in memory.
#[derive(Debug)]
pub struct InMemoryRoomAdminReadRepository {
    data: Table<u128, RoomAdminAggregate>,
}

impl InMemoryRoomAdminReadRepository {
    pub closed spec fn rows(self) -> Seq<(u128, RoomAdminAggregate)> {
        self.data.rows()
    }

    pub fn new() -> (repo: InMemoryRoomAdminReadRepository)
        ensures
            repo.rows().len() == 0,
    {
        InMemoryRoomAdminReadRepository { data: Table::new() }
    }

    /// Keeps what is known of a room.
    pub fn upsert(&mut self, aggregate: RoomAdminAggregate) -> (result: Result<(), String>)
        ensures
            result is Ok,
            final(self).rows() == upserted(old(self).rows(), aggregate.room_id.0, aggregate),
    {
        self.data.upsert(aggregate.room_id.0, aggregate);
        Ok(())
    }
}

impl RoomAdminReadRepository for InMemoryRoomAdminReadRepository {
    fn get_room_admin_aggregate(&self, room_id: RoomId) -> (room: Result<
        Option<&RoomAdminAggregate>,
        String,
    >)
        ensures
            room is Ok,
            match room->Ok_0 {
                Some(room) => lookup(self.rows(), room_id.0) == Some(*room),
                None => lookup(self.rows(), room_id.0) is None,
            },
    {
        Ok(self.data.get(&room_id.0))
    }
}

/// What the database tells of a room.
#[derive(Debug, PartialEq, Eq)]
pub struct RoomAdminRow {
    pub room_id: u128,
    pub room_status: String,
    pub dealer_address: String,
    pub max_players: i16,
    pub occupied_seats: i64,
    pub latest_hand_id: Option<u128>,
    pub latest_hand_no: Option<i64>,
    pub latest_hand_status: Option<String>,
    pub latest_hand_started_at: Option<Timestamp>,
    pub open_exception_credit_count: i64,
    pub open_exception_credit_total: String,
}

impl RoomAdminAggregate {
    /// What an administrator sees of a room, from the database.
    pub fn from_row(row: RoomAdminRow) -> (room: RoomAdminAggregate)
        ensures
            room.room_id == RoomId(row.room_id),
            room.room_status == row.room_status,
            room.dealer_address == row.dealer_address,
            room.max_players == unsigned_or_zero(row.max_players as int, u16::MAX as int),
            room.occupied_seats == unsigned_or_zero(row.occupied_seats as int, u16::MAX as int),
            is_optional_id_text(room.latest_hand_id, row.latest_hand_id),
            room.latest_hand_no == (match row.latest_hand_no {
                Some(n) => if n >= 0 {
                    Some(n as u64)
                } else {
                    None
                },
                None => None,
            }),
            room.latest_hand_status == row.latest_hand_status,
            room.latest_hand_started_at == row.latest_hand_started_at,
            room.open_exception_credit_count == unsigned_or_zero(
                row.open_exception_credit_count as int,
                u64::MAX as int,
            ),
            room.open_exception_credit_total == row.open_exception_credit_total,
    {
        RoomAdminAggregate {
            room_id: RoomId(row.room_id),
            room_status: row.room_status,
            dealer_address: row.dealer_address,
            max_players: if row.max_players >= 0 {
                row.max_players as u16
            } else {
                0
            },
            occupied_seats: if 0 <= row.occupied_seats && row.occupied_seats <= 65_535 {
                row.occupied_seats as u16
            } else {
                0
            },
            latest_hand_id: optional_id_text(row.latest_hand_id),
            latest_hand_no: match row.latest_hand_no {
                Some(n) => if n >= 0 {
                    Some(n as u64)
                } else {
                    None
                },
                None => None,
            },
            latest_hand_status: row.latest_hand_status,
            latest_hand_started_at: row.latest_hand_started_at,
            open_exception_credit_count: from_wide(row.open_exception_credit_count),
            open_exception_credit_total: row.open_exception_credit_total,
        }
    }
}

} // verus!
