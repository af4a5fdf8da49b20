//! What stands in the documents that are kept and sent.
use vstd::prelude::*;

use crate::audit::ActionAttemptRecord;
use crate::chain_watcher::TxVerificationCallback;
use crate::client::journal::ClientAuditRecord;
use crate::client::policy::{prompt_tree, DecisionContextEntry, PolicyDecisionInput, INSTRUCTION};
use crate::client::wallet::{call_tree, transfer_tree};
use crate::domain::action::PlayerAction;
use crate::domain::events::{AuditBehaviorEventKind, HandEvent, HandEventKind};
use crate::domain::ids::{identifiers_read_apart, uuid_text};
use crate::domain::time::{rfc3339_z_text, Timestamp};
use crate::json::{json_text, Json, JsonView, NumberView};
use crate::ledger::{
    ExceptionCreditRecord, SettlementPlanRecordInsert, SettlementRecordInsert, TxBindingRecord,
    TxVerificationRecord,
};
use crate::rpc::PrivatePayloadEvent;
use crate::server::audit_events::{
    delivery_payload, reject_payload, HoleCardsDeliveryAuditEvent, RequestRejectAuditEvent,
    SeatPrivateEvent,
};
use crate::server::chain_callback::callback_payload;
use crate::server::ops::{credit_documents, event_documents};
use crate::server::settlement::{
    receipt_payload, review_payload, submission_payload, SettlementTransferReceipt,
    SettlementTransferSubmission,
};
use crate::text::{decimal, number_text};

verus! {

/// Whether the document holds the value under the key, at this place among its members.
pub open spec fn says(document: JsonView, place: int, key: Seq<char>, value: JsonView) -> bool {
    document is Object && 0 <= place < document->Object_0.len() && document->Object_0[place] == (
        key,
        value,
    )
}

/// A text that may be missing.
pub open spec fn maybe_text(text: Option<String>) -> JsonView {
    if let Some(text) = text {
        JsonView::Text(text@)
    } else {
        JsonView::Null
    }
}

/// A value that may be missing.
pub open spec fn maybe(value: Option<Json>) -> JsonView {
    if let Some(value) = value {
        value@
    } else {
        JsonView::Null
    }
}

/// Texts in a row.
pub open spec fn listed(texts: Seq<String>) -> JsonView {
    JsonView::Array(Seq::new(texts.len(), |i: int| JsonView::Text(texts[i]@)))
}

/// A moment as a document holds it.
pub open spec fn moment(at: Timestamp) -> JsonView {
    JsonView::Text(rfc3339_z_text(at.spec_seconds() as i64, at.spec_nanos() as u32))
}

/// A moment that may be missing.
pub open spec fn maybe_moment(at: Option<Timestamp>) -> JsonView {
    if let Some(at) = at {
        moment(at)
    } else {
        JsonView::Null
    }
}

/// The document of an attempt holds everything that is known of it.
pub proof fn attempts_in_documents(attempt: ActionAttemptRecord)
    ensures
        ({
            let document = attempt.tree();
            &&& document is Object
            &&& document->Object_0.len() == 22
            &&& says(document, 0, "attempt_id"@, JsonView::Text(attempt.attempt_id@))
            &&& says(document, 1, "request_id"@, JsonView::Text(attempt.request_id@))
            &&& says(document, 2, "request_nonce"@, JsonView::Text(attempt.request_nonce@))
            &&& says(
                document,
                3,
                "agent_id"@,
                match attempt.agent_id {
                    Some(id) => JsonView::Text(uuid_text(id.0)),
                    None => JsonView::Null,
                },
            )
            &&& says(
                document,
                4,
                "session_id"@,
                match attempt.session_id {
                    Some(id) => JsonView::Text(uuid_text(id.0)),
                    None => JsonView::Null,
                },
            )
            &&& says(
                document,
                5,
                "room_id"@,
                match attempt.room_id {
                    Some(id) => JsonView::Text(uuid_text(id.0)),
                    None => JsonView::Null,
                },
            )
            &&& says(
                document,
                6,
                "hand_id"@,
                match attempt.hand_id {
                    Some(id) => JsonView::Text(uuid_text(id.0)),
                    None => JsonView::Null,
                },
            )
            &&& says(
                document,
                7,
                "seat_id"@,
                match attempt.seat_id {
                    Some(seat) => JsonView::Number(NumberView::Unsigned(seat as u64)),
                    None => JsonView::Null,
                },
            )
            &&& says(
                document,
                8,
                "action_seq"@,
                match attempt.action_seq {
                    Some(seq) => JsonView::Number(NumberView::Unsigned(seq as u64)),
                    None => JsonView::Null,
                },
            )
            &&& says(document, 9, "method"@, JsonView::Text(attempt.method@))
            &&& says(document, 10, "action_type"@, maybe_text(attempt.action_type))
            &&& says(document, 11, "request_payload_json"@, attempt.request_payload_json@)
            &&& says(
                document,
                12,
                "signature_verify_result"@,
                JsonView::Text(attempt.signature_verify_result@),
            )
            &&& says(
                document,
                13,
                "replay_check_result"@,
                JsonView::Text(attempt.replay_check_result@),
            )
            &&& says(
                document,
                14,
                "idempotency_check_result"@,
                JsonView::Text(attempt.idempotency_check_result@),
            )
            &&& says(document, 15, "validation_result"@, JsonView::Text(attempt.validation_result@))
            &&& says(document, 16, "router_result"@, JsonView::Text(attempt.router_result@))
            &&& says(
                document,
                17,
                "business_result_code"@,
                maybe_text(attempt.business_result_code),
            )
            &&& says(document, 18, "error_detail"@, maybe_text(attempt.error_detail))
            &&& says(document, 19, "received_at"@, moment(attempt.received_at))
            &&& says(document, 20, "completed_at"@, maybe_moment(attempt.completed_at))
            &&& says(document, 21, "trace_id"@, JsonView::Text(uuid_text(attempt.trace_id.0)))
        }),
{
}

/// The document of a verification holds everything that is known of it; there is none exactly where
/// its value is above what a number of a document can be.
pub proof fn verifications_in_documents(record: TxVerificationRecord)
    ensures
        record.tree() is Some <==> record.value is None || (record.value->0).0 <= u64::MAX,
        record.tree() is Some ==> ({
            let document = record.tree()->0;
            &&& document is Object
            &&& document->Object_0.len() == 10
            &&& says(document, 0, "tx_hash"@, JsonView::Text(record.tx_hash@))
            &&& says(document, 1, "chain_id"@, JsonView::Text(record.chain_id@))
            &&& says(document, 2, "from_address"@, maybe_text(record.from_address))
            &&& says(document, 3, "to_address"@, maybe_text(record.to_address))
            &&& says(
                document,
                4,
                "value"@,
                match record.value {
                    Some(amount) => JsonView::Number(NumberView::Unsigned(amount.0 as u64)),
                    None => JsonView::Null,
                },
            )
            &&& says(document, 5, "tx_status"@, JsonView::Text(record.tx_status@))
            &&& says(
                document,
                6,
                "confirmations"@,
                JsonView::Number(NumberView::Unsigned(record.confirmations)),
            )
            &&& says(
                document,
                7,
                "verification_status"@,
                JsonView::Text(record.verification_status@),
            )
            &&& says(document, 8, "failure_reason"@, maybe_text(record.failure_reason))
            &&& says(document, 9, "verified_at"@, maybe_moment(record.verified_at))
        }),
{
}

/// The document of a payment that is tied to an action holds everything that is known of it; there
/// is none exactly where its amount is above what a number of a document can be.
pub proof fn bindings_in_documents(record: TxBindingRecord)
    ensures
        record.tree() is Some <==> record.expected_amount.0 <= u64::MAX,
        record.tree() is Some ==> ({
            let document = record.tree()->0;
            &&& document is Object
            &&& document->Object_0.len() == 8
            &&& says(document, 0, "room_id"@, JsonView::Text(uuid_text(record.room_id.0)))
            &&& says(document, 1, "hand_id"@, JsonView::Text(uuid_text(record.hand_id.0)))
            &&& says(
                document,
                2,
                "action_seq"@,
                JsonView::Number(NumberView::Unsigned(record.action_seq as u64)),
            )
            &&& says(
                document,
                3,
                "seat_id"@,
                JsonView::Number(NumberView::Unsigned(record.seat_id as u64)),
            )
            &&& says(
                document,
                4,
                "expected_amount"@,
                JsonView::Number(NumberView::Unsigned(record.expected_amount.0 as u64)),
            )
            &&& says(document, 5, "tx_hash"@, JsonView::Text(record.tx_hash@))
            &&& says(document, 6, "binding_status"@, JsonView::Text(record.binding_status@))
            &&& says(document, 7, "bound_at"@, moment(record.bound_at))
        }),
{
}

/// The document of a credit holds everything that is known of it; there is none exactly where its
/// amount is above what a number of a document can be.
pub proof fn credits_in_documents(record: ExceptionCreditRecord)
    ensures
        record.tree() is Some <==> record.amount.0 <= u64::MAX,
        record.tree() is Some ==> ({
            let document = record.tree()->0;
            &&& document is Object
            &&& document->Object_0.len() == 10
            &&& says(document, 0, "room_id"@, JsonView::Text(uuid_text(record.room_id.0)))
            &&& says(
                document,
                1,
                "seat_id"@,
                JsonView::Number(NumberView::Unsigned(record.seat_id as u64)),
            )
            &&& says(
                document,
                2,
                "hand_id"@,
                match record.hand_id {
                    Some(id) => JsonView::Text(uuid_text(id.0)),
                    None => JsonView::Null,
                },
            )
            &&& says(document, 3, "tx_hash"@, maybe_text(record.tx_hash))
            &&& says(document, 4, "credit_kind"@, JsonView::Text(record.credit_kind@))
            &&& says(
                document,
                5,
                "amount"@,
                JsonView::Number(NumberView::Unsigned(record.amount.0 as u64)),
            )
            &&& says(document, 6, "status"@, JsonView::Text(record.status@))
            &&& says(document, 7, "reason"@, maybe_text(record.reason))
            &&& says(document, 8, "created_at"@, moment(record.created_at))
            &&& says(document, 9, "updated_at"@, moment(record.updated_at))
        }),
{
}

/// The document of a plan holds everything that is known of it; there is none exactly where an
/// amount is above what a number of a document can be.
pub proof fn plans_in_documents(record: SettlementPlanRecordInsert)
    ensures
        record.tree() is Some <==> record.rake_amount.0 <= u64::MAX && record.payout_total.0 <= u64::MAX,
        record.tree() is Some ==> ({
            let document = record.tree()->0;
            &&& document is Object
            &&& document->Object_0.len() == 9
            &&& says(
                document,
                0,
                "settlement_plan_id"@,
                JsonView::Text(uuid_text(record.settlement_plan_id)),
            )
            &&& says(document, 1, "room_id"@, JsonView::Text(uuid_text(record.room_id.0)))
            &&& says(document, 2, "hand_id"@, JsonView::Text(uuid_text(record.hand_id.0)))
            &&& says(document, 3, "status"@, JsonView::Text(record.status@))
            &&& says(
                document,
                4,
                "rake_amount"@,
                JsonView::Number(NumberView::Unsigned(record.rake_amount.0 as u64)),
            )
            &&& says(
                document,
                5,
                "payout_total"@,
                JsonView::Number(NumberView::Unsigned(record.payout_total.0 as u64)),
            )
            &&& says(document, 6, "payload_json"@, record.payload_json@)
            &&& says(document, 7, "created_at"@, moment(record.created_at))
            &&& says(document, 8, "finalized_at"@, maybe_moment(record.finalized_at))
        }),
{
}

/// The document of a payment holds everything that is known of it.
pub proof fn payments_in_documents(record: SettlementRecordInsert)
    ensures
        ({
            let document = record.tree();
            &&& document is Object
            &&& document->Object_0.len() == 10
            &&& says(
                document,
                0,
                "settlement_record_id"@,
                JsonView::Text(uuid_text(record.settlement_record_id)),
            )
            &&& says(
                document,
                1,
                "settlement_plan_id"@,
                JsonView::Text(uuid_text(record.settlement_plan_id)),
            )
            &&& says(document, 2, "room_id"@, JsonView::Text(uuid_text(record.room_id.0)))
            &&& says(document, 3, "hand_id"@, JsonView::Text(uuid_text(record.hand_id.0)))
            &&& says(document, 4, "tx_hash"@, maybe_text(record.tx_hash))
            &&& says(document, 5, "settlement_status"@, JsonView::Text(record.settlement_status@))
            &&& says(document, 6, "retry_count"@, JsonView::Number(
                if record.retry_count < 0 {
                    NumberView::Negative(record.retry_count as i64)
                } else {
                    NumberView::Unsigned(record.retry_count as u64)
                },
            ))
            &&& says(document, 7, "error_detail"@, maybe_text(record.error_detail))
            &&& says(document, 8, "created_at"@, moment(record.created_at))
            &&& says(document, 9, "updated_at"@, moment(record.updated_at))
        }),
{
}

/// The document of what one seat may see holds the room, the hand, the seat, the name and the
/// payload, on both ends of the wire.
pub proof fn private_events_in_documents(sent: SeatPrivateEvent, received: PrivatePayloadEvent)
    ensures
        ({
            let document = sent.tree();
            &&& document is Object
            &&& document->Object_0.len() == 5
            &&& says(document, 0, "room_id"@, JsonView::Text(uuid_text(sent.room_id.0)))
            &&& says(document, 1, "hand_id"@, JsonView::Text(uuid_text(sent.hand_id.0)))
            &&& says(
                document,
                2,
                "seat_id"@,
                JsonView::Number(NumberView::Unsigned(sent.seat_id as u64)),
            )
            &&& says(document, 3, "event_name"@, JsonView::Text(sent.event_name@))
            &&& says(document, 4, "payload"@, sent.payload@)
        }),
        sent.tree() == received.tree() <==> {
            &&& sent.room_id == received.room_id
            &&& sent.hand_id == received.hand_id
            &&& sent.seat_id == received.seat_id
            &&& sent.event_name@ == received.event_name@
            &&& sent.payload@ == received.payload@
        },
{
    if sent.tree() == received.tree() {
        let x = sent.tree()->Object_0;
        let y = received.tree()->Object_0;
        assert(x[0].1 == y[0].1 && x[1].1 == y[1].1 && x[2].1 == y[2].1 && x[3].1 == y[3].1
            && x[4].1 == y[4].1);
        identifiers_read_apart(sent.room_id.0, received.room_id.0);
        identifiers_read_apart(sent.hand_id.0, received.hand_id.0);
    }
}

/// An entry of the journal holds the kind, the room, the hand, the seat and the payload.
pub proof fn journal_entries_in_documents(entry: ClientAuditRecord)
    ensures
        ({
            let document = entry.tree();
            &&& document is Object
            &&& document->Object_0.len() == 5
            &&& says(document, 0, "event_kind"@, JsonView::Text(entry.event_kind@))
            &&& says(
                document,
                1,
                "room_id"@,
                match entry.room_id {
                    Some(id) => JsonView::Text(uuid_text(id.0)),
                    None => JsonView::Null,
                },
            )
            &&& says(
                document,
                2,
                "hand_id"@,
                match entry.hand_id {
                    Some(id) => JsonView::Text(uuid_text(id.0)),
                    None => JsonView::Null,
                },
            )
            &&& says(
                document,
                3,
                "seat_id"@,
                match entry.seat_id {
                    Some(seat) => JsonView::Number(NumberView::Unsigned(seat as u64)),
                    None => JsonView::Null,
                },
            )
            &&& says(document, 4, "payload"@, entry.payload@)
        }),
        entry.line() == "{\"ts_unix_ms\":"@ + decimal(entry.ts_unix_ms as nat) + ","@ + json_text(
            entry.tree(),
        ).skip(1) + "\n"@,
{
}

/// A call names its method and its parameters.
pub proof fn calls_in_documents(method: Seq<char>, params: JsonView)
    ensures
        ({
            let document = call_tree(method, params);
            &&& document is Object
            &&& document->Object_0.len() == 4
            &&& says(document, 0, "jsonrpc"@, JsonView::Text("2.0"@))
            &&& says(document, 1, "id"@, JsonView::Number(NumberView::Unsigned(1)))
            &&& says(document, 2, "method"@, JsonView::Text(method))
            &&& says(document, 3, "params"@, params)
        }),
{
}

/// The call of a payment names both sides, and the amount in hexadecimal digits.
pub proof fn transfers_in_documents(from: Seq<char>, to: Seq<char>, value: nat)
    ensures
        ({
            let document = transfer_tree(from, to, value)->Array_0[0];
            &&& document is Object
            &&& document->Object_0.len() == 3
            &&& says(document, 0, "from"@, JsonView::Text(from))
            &&& says(document, 1, "to"@, JsonView::Text(to))
            &&& says(document, 2, "value"@, JsonView::Text("0x"@ + number_text(value, 16)))
        }),
        transfer_tree(from, to, value) is Array,
        transfer_tree(from, to, value)->Array_0.len() == 1,
{
}

/// What a decision may rest on is told in full.
pub proof fn decisions_in_documents(input: PolicyDecisionInput)
    ensures
        ({
            let document = input.tree();
            &&& document is Object
            &&& document->Object_0.len() == 7
            &&& says(document, 0, "room_id"@, JsonView::Text(uuid_text(input.room_id.0)))
            &&& says(document, 1, "hand_id"@, JsonView::Text(uuid_text(input.hand_id.0)))
            &&& says(
                document,
                2,
                "seat_id"@,
                JsonView::Number(NumberView::Unsigned(input.seat_id as u64)),
            )
            &&& says(document, 3, "legal_actions"@, listed(input.legal_actions@))
            &&& says(document, 4, "public_state_json"@, input.public_state_json@)
            &&& says(document, 5, "private_state_json"@, maybe(input.private_state_json))
            &&& says(document, 6, "decision_context_json"@, maybe(input.decision_context_json))
        }),
{
    assert(input.tree()->Object_0[3].1->Array_0 =~= listed(input.legal_actions@)->Array_0);
}

/// The tool is told its task, its instruction and what the decision may rest on.
pub proof fn prompts_in_documents(input: PolicyDecisionInput)
    ensures
        ({
            let document = prompt_tree(input);
            &&& document is Object
            &&& document->Object_0.len() == 3
            &&& says(document, 0, "task"@, JsonView::Text("poker_action_decision"@))
            &&& says(document, 1, "instruction"@, JsonView::Text(INSTRUCTION@))
            &&& says(document, 2, "input"@, input.tree())
        }),
{
}

/// A decision is remembered with its hand, its seat, what was allowed, what was chosen, and why.
pub proof fn memories_in_documents(entry: DecisionContextEntry)
    ensures
        ({
            let document = entry.tree();
            &&& document is Object
            &&& document->Object_0.len() == 5
            &&& says(document, 0, "hand_id"@, JsonView::Text(uuid_text(entry.hand_id.0)))
            &&& says(
                document,
                1,
                "seat_id"@,
                JsonView::Number(NumberView::Unsigned(entry.seat_id as u64)),
            )
            &&& says(document, 2, "legal_actions"@, listed(entry.legal_actions@))
            &&& says(document, 3, "chosen_action"@, maybe_text(entry.chosen_action))
            &&& says(document, 4, "rationale"@, maybe_text(entry.rationale))
        }),
{
    assert(entry.tree()->Object_0[2].1->Array_0 =~= listed(entry.legal_actions@)->Array_0);
}

/// The document of an action holds everything that it says; there is none exactly where its amount
/// is above what a number of a document can be.
pub proof fn actions_in_documents(record: PlayerAction)
    ensures
        record.tree() is Some <==> record.amount is None || (record.amount->0).0 <= u64::MAX,
        record.tree() is Some ==> ({
            let document = record.tree()->0;
            &&& document is Object
            &&& document->Object_0.len() == 6
            &&& says(document, 0, "room_id"@, JsonView::Text(uuid_text(record.room_id.0)))
            &&& says(document, 1, "hand_id"@, JsonView::Text(uuid_text(record.hand_id.0)))
            &&& says(
                document,
                2,
                "action_seq"@,
                JsonView::Number(NumberView::Unsigned(record.action_seq as u64)),
            )
            &&& says(
                document,
                3,
                "seat_id"@,
                JsonView::Number(NumberView::Unsigned(record.seat_id as u64)),
            )
            &&& says(document, 4, "action_type"@, JsonView::Text(record.action_type.spec_name()))
            &&& says(
                document,
                5,
                "amount"@,
                match record.amount {
                    Some(amount) => JsonView::Number(NumberView::Unsigned(amount.0 as u64)),
                    None => JsonView::Null,
                },
            )
        }),
{
}

/// The document of an event of a hand holds its place, its moment and what happened; there is one
/// exactly where there is one of what happened.
pub proof fn hand_events_in_documents(record: HandEvent)
    ensures
        record.tree() is Some <==> record.kind.tree() is Some,
        record.tree() is Some ==> ({
            let document = record.tree()->0;
            &&& document is Object
            &&& document->Object_0.len() == 6
            &&& says(document, 0, "room_id"@, JsonView::Text(uuid_text(record.room_id.0)))
            &&& says(document, 1, "hand_id"@, JsonView::Text(uuid_text(record.hand_id.0)))
            &&& says(
                document,
                2,
                "event_seq"@,
                JsonView::Number(NumberView::Unsigned(record.event_seq as u64)),
            )
            &&& says(document, 3, "trace_id"@, JsonView::Text(uuid_text(record.trace_id.0)))
            &&& says(document, 4, "occurred_at"@, moment(record.occurred_at))
            &&& says(document, 5, "kind"@, record.kind.tree()->0)
        }),
{
}

/// The document of a verification that the chain reported holds the transaction, the status, the
/// confirmations and the reason.
pub proof fn verified_payments_in_documents(callback: TxVerificationCallback)
    ensures
        ({
            let document = callback_payload(callback);
            &&& document is Object
            &&& document->Object_0.len() == 4
            &&& says(document, 0, "tx_hash"@, JsonView::Text(callback.tx_hash@))
            &&& says(document, 1, "status"@, JsonView::Text(callback.status.spec_name()))
            &&& says(
                document,
                2,
                "confirmations"@,
                JsonView::Number(NumberView::Unsigned(callback.confirmations)),
            )
            &&& says(document, 3, "failure_reason"@, maybe_text(callback.failure_reason))
        }),
{
}

/// The document of a submission holds the seat and the transaction.
pub proof fn submissions_in_documents(submission: SettlementTransferSubmission)
    ensures
        ({
            let document = submission_payload(submission);
            &&& document is Object
            &&& document->Object_0.len() == 2
            &&& says(
                document,
                0,
                "seat_id"@,
                JsonView::Number(NumberView::Unsigned(submission.seat_id as u64)),
            )
            &&& says(document, 1, "tx_hash"@, JsonView::Text(submission.tx_hash@))
        }),
{
}

/// The document of a receipt holds the transaction, the status and the confirmations.
pub proof fn receipts_in_documents(receipt: SettlementTransferReceipt)
    ensures
        ({
            let document = receipt_payload(receipt);
            &&& document is Object
            &&& document->Object_0.len() == 3
            &&& says(document, 0, "tx_hash"@, JsonView::Text(receipt.tx_hash@))
            &&& says(document, 1, "status"@, JsonView::Text(receipt.status.spec_name()))
            &&& says(
                document,
                2,
                "confirmations"@,
                JsonView::Number(NumberView::Unsigned(receipt.confirmations)),
            )
        }),
{
}

/// The document of a payment that failed holds the transaction and the reason.
pub proof fn failures_in_documents(receipt: SettlementTransferReceipt)
    ensures
        ({
            let document = review_payload(receipt);
            &&& document is Object
            &&& document->Object_0.len() == 2
            &&& says(document, 0, "tx_hash"@, JsonView::Text(receipt.tx_hash@))
            &&& says(document, 1, "reason"@, JsonView::Text("direct payout receipt failed"@))
        }),
{
}

/// The document of a rejected request holds the method, the reason, the request and the detail.
pub proof fn rejections_in_documents(event: RequestRejectAuditEvent)
    ensures
        ({
            let document = reject_payload(event);
            &&& document is Object
            &&& document->Object_0.len() == 5
            &&& says(document, 0, "method"@, JsonView::Text(event.method@))
            &&& says(document, 1, "reason"@, JsonView::Text(event.reason.spec_name()))
            &&& says(
                document,
                2,
                "request_id"@,
                match event.request_id {
                    Some(id) => JsonView::Text(uuid_text(id.0)),
                    None => JsonView::Null,
                },
            )
            &&& says(document, 3, "request_nonce"@, maybe_text(event.request_nonce))
            &&& says(document, 4, "detail"@, maybe_text(event.detail))
        }),
{
}

/// The document of encrypted cards holds the event, the key, the algorithm and the length.
pub proof fn deliveries_in_documents(event: HoleCardsDeliveryAuditEvent)
    ensures
        ({
            let document = delivery_payload(event);
            &&& document is Object
            &&& document->Object_0.len() == 4
            &&& says(
                document,
                0,
                "event_seq"@,
                JsonView::Number(NumberView::Unsigned(event.event_seq as u64)),
            )
            &&& says(document, 1, "key_id"@, JsonView::Text(event.key_id@))
            &&& says(document, 2, "algorithm"@, JsonView::Text(event.algorithm@))
            &&& says(
                document,
                3,
                "ciphertext_len"@,
                JsonView::Number(NumberView::Unsigned(event.ciphertext_len as u64)),
            )
        }),
{
}

/// What happened in a hand is its name, alone or over what it tells; there is no document exactly
/// where an amount is above what a number of a document can be.
pub proof fn what_happened_in_documents(kind: HandEventKind)
    ensures
        kind == HandEventKind::HandStarted ==> kind.tree() == Some(
            JsonView::Text("hand_started"@),
        ),
        kind == HandEventKind::HandClosed ==> kind.tree() == Some(JsonView::Text("hand_closed"@)),
        kind matches HandEventKind::TurnStarted { seat_id } ==> kind.tree() is Some && says(
            kind.tree()->0,
            0,
            "turn_started"@,
            JsonView::Object(
                seq![("seat_id"@, JsonView::Number(NumberView::Unsigned(seat_id as u64)))],
            ),
        ),
        kind matches HandEventKind::ActionAccepted(action) ==> {
            &&& kind.tree() is Some <==> action.tree() is Some
            &&& kind.tree() is Some ==> says(
                kind.tree()->0,
                0,
                "action_accepted"@,
                action.tree()->0,
            )
        },
        kind matches HandEventKind::StreetChanged { street } ==> kind.tree() is Some && says(
            kind.tree()->0,
            0,
            "street_changed"@,
            JsonView::Object(seq![("street"@, JsonView::Text(street.spec_name()))]),
        ),
        kind matches HandEventKind::PotUpdated { pot_total } ==> {
            &&& kind.tree() is Some <==> pot_total.0 <= u64::MAX
            &&& kind.tree() is Some ==> says(
                kind.tree()->0,
                0,
                "pot_updated"@,
                JsonView::Object(
                    seq![
                        (
                            "pot_total"@,
                            JsonView::Number(NumberView::Unsigned(pot_total.0 as u64)),
                        ),
                    ],
                ),
            )
        },
        kind.tree() is Some && kind.tree()->0 is Object ==> kind.tree()->0->Object_0.len() == 1,
{
}

/// What happens around the hands is its name over what it tells.
pub proof fn behavior_in_documents(kind: AuditBehaviorEventKind)
    ensures
        kind.tree() is Object,
        kind.tree()->Object_0.len() == 1,
        kind.tree()->Object_0[0].1 is Object,
        kind matches AuditBehaviorEventKind::SeatJoined { seat_id } ==> says(
            kind.tree(),
            0,
            "seat_joined"@,
            JsonView::Object(
                seq![("seat_id"@, JsonView::Number(NumberView::Unsigned(seat_id as u64)))],
            ),
        ),
        kind matches AuditBehaviorEventKind::SeatLeft { seat_id } ==> says(
            kind.tree(),
            0,
            "seat_left"@,
            JsonView::Object(
                seq![("seat_id"@, JsonView::Number(NumberView::Unsigned(seat_id as u64)))],
            ),
        ),
        kind matches AuditBehaviorEventKind::SeatAddressBound { seat_id } ==> says(
            kind.tree(),
            0,
            "seat_address_bound"@,
            JsonView::Object(
                seq![("seat_id"@, JsonView::Number(NumberView::Unsigned(seat_id as u64)))],
            ),
        ),
        kind matches AuditBehaviorEventKind::SeatSessionKeysBound { seat_id, key_algo } ==> {
            &&& kind.tree()->Object_0[0].0 == "seat_session_keys_bound"@
            &&& says(
                kind.tree()->Object_0[0].1,
                0,
                "seat_id"@,
                JsonView::Number(NumberView::Unsigned(seat_id as u64)),
            )
            &&& says(kind.tree()->Object_0[0].1, 1, "key_algo"@, JsonView::Text(key_algo@))
        },
        kind matches AuditBehaviorEventKind::TurnTimeoutAutoFold { seat_id, action_seq } ==> {
            &&& kind.tree()->Object_0[0].0 == "turn_timeout_auto_fold"@
            &&& says(
                kind.tree()->Object_0[0].1,
                0,
                "seat_id"@,
                JsonView::Number(NumberView::Unsigned(seat_id as u64)),
            )
            &&& says(
                kind.tree()->Object_0[0].1,
                1,
                "action_seq"@,
                JsonView::Number(NumberView::Unsigned(action_seq as u64)),
            )
        },
        kind is ChainTxVerificationCallback ==> ({
            let told = kind.tree()->Object_0[0].1;
            &&& kind.tree()->Object_0[0].0 == "chain_tx_verification_callback"@
            &&& told->Object_0.len() == 6
            &&& says(
                told,
                0,
                "seat_id"@,
                match kind->ChainTxVerificationCallback_seat_id {
                    Some(seat) => JsonView::Number(NumberView::Unsigned(seat as u64)),
                    None => JsonView::Null,
                },
            )
            &&& says(
                told,
                1,
                "action_seq"@,
                match kind->ChainTxVerificationCallback_action_seq {
                    Some(seq) => JsonView::Number(NumberView::Unsigned(seq as u64)),
                    None => JsonView::Null,
                },
            )
            &&& says(told, 2, "tx_hash"@, JsonView::Text(kind->tx_hash@))
            &&& says(told, 3, "status"@, JsonView::Text(kind->status@))
            &&& says(
                told,
                4,
                "confirmations"@,
                JsonView::Number(NumberView::Unsigned(kind->confirmations)),
            )
            &&& says(told, 5, "failure_reason"@, maybe_text(kind->failure_reason))
        }),
{
}

/// A replay holds the documents of the events in their order, without those that have none.
pub proof fn replays_hold_their_events(events: Seq<HandEvent>, more: HandEvent)
    ensures
        event_documents(Seq::empty()).len() == 0,
        more.tree() is Some ==> event_documents(events.push(more)) == event_documents(events).push(
            more.tree()->0,
        ),
        more.tree() is None ==> event_documents(events.push(more)) == event_documents(events),
{
    assert(events.push(more).drop_last() =~= events);
}

/// The credits on the page of a transaction are the documents of those of that transaction, in
/// their order.
pub proof fn pages_hold_their_credits(
    credits: Seq<ExceptionCreditRecord>,
    more: ExceptionCreditRecord,
    tx_hash: Seq<char>,
)
    ensures
        credit_documents(Seq::empty(), tx_hash).len() == 0,
        more.tx_hash is Some && more.tx_hash->0@ == tx_hash && more.tree() is Some
            ==> credit_documents(credits.push(more), tx_hash) == credit_documents(
            credits,
            tx_hash,
        ).push(more.tree()->0),
        more.tx_hash is None || more.tx_hash->0@ != tx_hash || more.tree() is None
            ==> credit_documents(credits.push(more), tx_hash) == credit_documents(credits, tx_hash),
{
    assert(credits.push(more).drop_last() =~= credits);
}

} // verus!
