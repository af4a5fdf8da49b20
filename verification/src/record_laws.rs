//! What is kept, and what is told of it again.
use vstd::prelude::*;

use crate::audit::{
    attempt_for, behavior_about, events_of_hand, is_first_with, marks_delivered, pending_events,
    reads_id_field, seq_column, seq_in, ActionAttemptRecord, ActionAttemptRow, AuditStoreError,
    BehaviorEventRecord, BehaviorEventRow, OutboxEventRecord,
};
use crate::auth::{window_fault, AuthError, ReplayNonceKey};
use crate::columns::{middle, seat_column, seat_in, unsigned_or_zero, wide};
use crate::domain::action::ActionType;
use crate::domain::events::{HandEvent, HandEventKind};
use crate::domain::game::{HandStatus, SeatId, Street};
use crate::domain::ids::{parsed_uuid, uuid_text, AgentId, HandId, RoomId, SessionId, TraceId};
use crate::domain::money::{Chips, MoneyError};
use crate::domain::time::Timestamp;
use crate::ledger::{
    binding_for, chips_in, chips_or_zero, credits_of, default_chain_id, records_of, tells_binding, told_of, told_rows,
    ExceptionCreditRecord, ExceptionCreditUpsert, LedgerDirection, LedgerEntryInsert,
    LedgerEntryRow, SettlementRecordInsert, SettlementRecordStatusUpdate, TxBindingInsert,
    TxBindingRecord, TxBindingRow,
};
use crate::paging::{page_of, PageRequest};
use crate::platform::{
    env_named, reads_env, AppConfig, AppEnv, ConfigError, EnvOverrides, PartialAppConfig,
};
use crate::table::{lookup, upserted};
use crate::text::{decimal, lowered, number_text, numbers_that_are_read_fit, read_number, trimmed};

verus! {

/// What a table holds for a key is the last row with that key, whatever stands before it.
pub proof fn the_last_row_counts<K, V>(rows: Seq<(K, V)>, key: K, value: V, other: K)
    ensures
        lookup(Seq::<(K, V)>::empty(), key) is None,
        lookup(rows.push((key, value)), key) == Some(value),
        other != key ==> lookup(rows.push((key, value)), other) == lookup(rows, other),
        lookup(rows, key) is None ==> upserted(rows, key, value) == rows.push((key, value)),
        upserted(rows, key, value).len() == (if lookup(rows, key) is Some {
            rows.len()
        } else {
            rows.len() + 1
        }),
    decreases rows.len(),
{
    assert(rows.push((key, value)).drop_last() =~= rows);
    if rows.len() == 0 {
        assert(rows.push((key, value)) =~= seq![(key, value)]);
    } else {
        let front = rows.drop_last();
        the_last_row_counts(front, key, value, other);
    }
}

/// A page begins behind the results that it leaves out and is as long as it may be.
pub proof fn pages_hold_what_they_should<T>(results: Seq<T>, page: PageRequest, i: int)
    ensures
        page_of(results, page).len() <= page.limit,
        page.offset + page.limit <= results.len() ==> page_of(results, page).len() == page.limit,
        page.offset <= results.len() < page.offset + page.limit ==> page_of(results, page).len()
            == results.len() - page.offset,
        page.offset > results.len() ==> page_of(results, page).len() == 0,
        0 <= i < page_of(results, page).len() ==> page_of(results, page)[i]
            == results[page.offset + i],
{
}

/// Columns hold a number as it is where it fits and else the largest that does; what comes out
/// of a column below zero or above the bound is nothing.
pub proof fn columns_hold_numbers(n: u64, seq: u32, column: int, max: int)
    requires
        max >= 0,
    ensures
        n <= 9_223_372_036_854_775_807 ==> wide(n as int) == n,
        n > 9_223_372_036_854_775_807 ==> wide(n as int) == 9_223_372_036_854_775_807,
        seq <= 2_147_483_647 ==> middle(seq as int) == seq,
        seq > 2_147_483_647 ==> middle(seq as int) == 2_147_483_647,
        0 <= column <= max ==> unsigned_or_zero(column, max) == column,
        column < 0 || column > max ==> unsigned_or_zero(column, max) == 0,
{
}

/// Seats and the numbers of actions stand in their columns as they are, and as nothing where
/// they do not fit or there is none.
pub proof fn columns_hold_seats_and_actions(
    seat: Option<SeatId>,
    seq: Option<u32>,
    seat_col: Option<i16>,
    seq_col: Option<i32>,
)
    ensures
        seat matches Some(n) ==> seat_column(seat) is Some && seat_column(seat)->0 == n,
        seat is None ==> seat_column(seat) is None,
        seq matches Some(n) ==> {
            &&& n <= 2_147_483_647 ==> seq_column(seq) is Some && seq_column(seq)->0 == n
            &&& n > 2_147_483_647 ==> seq_column(seq) is None
        },
        seq is None ==> seq_column(seq) is None,
        seat_col matches Some(n) ==> {
            &&& 0 <= n <= 255 ==> seat_in(seat_col) is Some && seat_in(seat_col)->0 == n
            &&& n < 0 || n > 255 ==> seat_in(seat_col) is None
        },
        seq_col matches Some(n) ==> {
            &&& n >= 0 ==> seq_in(seq_col) is Some && seq_in(seq_col)->0 == n
            &&& n < 0 ==> seq_in(seq_col) is None
        },
{
}

/// An amount in a column is its decimal digits; what is no number counts as none, or as nothing.
pub proof fn columns_hold_amounts(text: Seq<char>)
    ensures
        chips_in(text) is Some <==> read_number(text, 10, u128::MAX as int) is Ok,
        chips_in(text) is Some ==> (chips_in(text)->0).0 == read_number(
            text,
            10,
            u128::MAX as int,
        )->Ok_0,
        chips_in(text) is Some ==> chips_or_zero(text) == chips_in(text)->0,
        chips_in(text) is None ==> chips_or_zero(text) == Chips(0),
{
    numbers_that_are_read_fit(text, 10, u128::MAX as int);
}

/// A row of the ledger holds its entry: the amount in decimal digits, the side by its word, and
/// every identifier by its number.
pub proof fn rows_hold_their_entry(entry: LedgerEntryInsert, row: LedgerEntryRow)
    requires
        entry.is_in_row(row),
    ensures
        row.entry_type == entry.entry_type,
        row.asset_type == entry.asset_type,
        row.account_scope == entry.account_scope,
        row.related_tx_hash == entry.related_tx_hash,
        row.remark == entry.remark,
        row.amount_text@ == number_text(entry.amount.0 as nat, 10),
        entry.direction == LedgerDirection::Debit ==> row.direction@ == "debit"@,
        entry.direction == LedgerDirection::Credit ==> row.direction@ == "credit"@,
        entry.room_id matches Some(id) ==> row.room_id == Some(id.0),
        entry.hand_id matches Some(id) ==> row.hand_id == Some(id.0),
        entry.agent_id matches Some(id) ==> row.agent_id == Some(id.0),
        entry.seat_id matches Some(seat) ==> row.seat_id is Some && row.seat_id->0 == seat,
        entry.room_id is None ==> row.room_id is None,
        entry.hand_id is None ==> row.hand_id is None,
        entry.agent_id is None ==> row.agent_id is None,
        entry.seat_id is None ==> row.seat_id is None,
        row.trace_id == entry.trace_id.0,
        entry.related_event_id is None ==> row.related_event_id is None,
        entry.related_event_id is Some && parsed_uuid(entry.related_event_id->0@) is Ok
            ==> row.related_event_id == Some(parsed_uuid(entry.related_event_id->0@)->Ok_0),
{
}

/// What is read out of a row of the ledger is what stands in it.
pub proof fn entries_hold_their_row(entry: LedgerEntryInsert, row: LedgerEntryRow)
    requires
        entry.is_from_row(row),
    ensures
        entry.entry_type == row.entry_type,
        entry.asset_type == row.asset_type,
        row.direction@ == "debit"@ ==> entry.direction == LedgerDirection::Debit,
        row.direction@ != "debit"@ ==> entry.direction == LedgerDirection::Credit,
        read_number(row.amount_text@, 10, u128::MAX as int) is Ok ==> entry.amount.0
            == read_number(row.amount_text@, 10, u128::MAX as int)->Ok_0,
        read_number(row.amount_text@, 10, u128::MAX as int) is Err ==> entry.amount.0 == 0,
        row.room_id matches Some(id) ==> entry.room_id == Some(RoomId(id)),
        row.hand_id matches Some(id) ==> entry.hand_id == Some(HandId(id)),
        row.agent_id matches Some(id) ==> entry.agent_id == Some(AgentId(id)),
        row.related_event_id matches Some(id) ==> entry.related_event_id is Some
            && entry.related_event_id->0@ == uuid_text(id),
        row.related_attempt_id matches Some(id) ==> entry.related_attempt_id is Some
            && entry.related_attempt_id->0@ == uuid_text(id),
        entry.trace_id == TraceId(row.trace_id),
{
    numbers_that_are_read_fit(row.amount_text@, 10, u128::MAX as int);
}

/// The payment of an action is one that was tied to the same action of the same hand, and there
/// is none only where none was.
pub proof fn payments_are_found_by_their_action(
    rows: Seq<(Seq<char>, TxBindingInsert)>,
    hand_id: HandId,
    action_seq: u32,
)
    ensures
        binding_for(rows, hand_id, action_seq) is Some <==> exists|i: int|
            0 <= i < rows.len() && (#[trigger] rows[i]).1.hand_id == hand_id
                && rows[i].1.action_seq == action_seq,
        binding_for(rows, hand_id, action_seq) matches Some(found) ==> found.hand_id == hand_id
            && found.action_seq == action_seq,
    decreases rows.len(),
{
    if rows.len() > 0 {
        let front = rows.drop_last();
        payments_are_found_by_their_action(front, hand_id, action_seq);
        if binding_for(front, hand_id, action_seq) is Some {
            let i = choose|i: int|
                0 <= i < front.len() && (#[trigger] front[i]).1.hand_id == hand_id
                    && front[i].1.action_seq == action_seq;
            assert(rows[i] == front[i]);
        }
        if rows.last().1.hand_id == hand_id && rows.last().1.action_seq == action_seq {
            assert(rows[rows.len() - 1].1.hand_id == hand_id);
        }
        if exists|i: int|
            0 <= i < rows.len() && (#[trigger] rows[i]).1.hand_id == hand_id
                && rows[i].1.action_seq == action_seq {
            let i = choose|i: int|
                0 <= i < rows.len() && (#[trigger] rows[i]).1.hand_id == hand_id
                    && rows[i].1.action_seq == action_seq;
            if i < front.len() {
                assert(front[i] == rows[i]);
            }
        }
    }
}

/// A payment that is tied to an action is told with all that is known of it, once its amount is.
pub proof fn tied_payments_are_told(
    binding: Option<TxBindingInsert>,
    record: Option<TxBindingRecord>,
)
    requires
        tells_binding(binding, record),
    ensures
        record is Some <==> binding is Some && binding->0.expected_amount is Some,
        record is Some ==> {
            &&& record->0.tx_hash == binding->0.tx_hash
            &&& record->0.room_id == binding->0.room_id
            &&& record->0.hand_id == binding->0.hand_id
            &&& record->0.seat_id == binding->0.seat_id
            &&& record->0.action_seq == binding->0.action_seq
            &&& Some(record->0.expected_amount) == binding->0.expected_amount
            &&& record->0.binding_status == binding->0.binding_status
            &&& record->0.bound_at == binding->0.created_at
        },
{
}

/// The credits of a room are all credits of that room and no others; without a room they are all
/// credits.
pub proof fn credits_are_found_by_their_room(
    rows: Seq<(Seq<char>, ExceptionCreditUpsert)>,
    room_id: Option<RoomId>,
    credit: ExceptionCreditUpsert,
)
    ensures
        credits_of(rows, room_id).contains(credit) <==> (exists|i: int|
            0 <= i < rows.len() && (#[trigger] rows[i]).1 == credit) && (room_id is None
            || credit.room_id == room_id->0),
    decreases rows.len(),
{
    if rows.len() > 0 {
        let front = rows.drop_last();
        credits_are_found_by_their_room(front, room_id, credit);
        let done = credits_of(front, room_id);
        let all = credits_of(rows, room_id);
        if done.contains(credit) {
            let at = choose|k: int| 0 <= k < done.len() && done[k] == credit;
            assert(all[at] == credit);
            let i = choose|i: int| 0 <= i < front.len() && (#[trigger] front[i]).1 == credit;
            assert(rows[i] == front[i]);
        }
        if rows.last().1 == credit {
            assert(rows[rows.len() - 1].1 == credit);
            if room_id is None || credit.room_id == room_id->0 {
                assert(all[all.len() - 1] == credit);
            }
        }
        if exists|i: int| 0 <= i < rows.len() && (#[trigger] rows[i]).1 == credit {
            let i = choose|i: int| 0 <= i < rows.len() && (#[trigger] rows[i]).1 == credit;
            if i < front.len() {
                assert(front[i] == rows[i]);
            }
        }
    }
}

/// A credit is told with its room, its seat, its payment, its kind, its amount and its reason.
pub proof fn credits_are_told(credit: ExceptionCreditUpsert, record: ExceptionCreditRecord)
    requires
        credit.is_told_by(record),
    ensures
        record.room_id == credit.room_id,
        credit.seat_id matches Some(seat) ==> record.seat_id == seat,
        credit.seat_id is None ==> record.seat_id == 0,
        record.hand_id is None,
        record.tx_hash == Some(credit.tx_hash),
        record.credit_kind == credit.credit_type,
        record.amount == credit.amount,
        record.status == credit.status,
        record.reason == Some(credit.reason),
        record.created_at == credit.updated_at,
        record.updated_at == credit.updated_at,
{
}

/// What became of a payment changes the records of its transaction, and in them the status, the
/// count of tries, the error and the moment alone.
pub proof fn notes_change_what_became_of_a_payment(
    record: SettlementRecordInsert,
    update: SettlementRecordStatusUpdate,
)
    ensures
        ({
            let told = told_of(record, update);
            &&& record.tx_hash is Some && record.tx_hash->0@ == update.tx_hash@ ==> {
                &&& told.settlement_status == update.settlement_status
                &&& told.retry_count == update.retry_count
                &&& told.error_detail == update.error_detail
                &&& told.updated_at == update.updated_at
            }
            &&& record.tx_hash is None || record.tx_hash->0@ != update.tx_hash@ ==> told == record
            &&& told.settlement_record_id == record.settlement_record_id
            &&& told.settlement_plan_id == record.settlement_plan_id
            &&& told.room_id == record.room_id
            &&& told.hand_id == record.hand_id
            &&& told.tx_hash == record.tx_hash
            &&& told.created_at == record.created_at
        }),
{
}

/// A note reaches every row, each under its own key and in its own place.
pub proof fn notes_reach_every_row(
    rows: Seq<(u128, SettlementRecordInsert)>,
    update: SettlementRecordStatusUpdate,
    i: int,
)
    requires
        0 <= i < rows.len(),
    ensures
        told_rows(rows, update).len() == rows.len(),
        told_rows(rows, update)[i].0 == rows[i].0,
        rows[i].1.tx_hash is Some && rows[i].1.tx_hash->0@ == update.tx_hash@ ==> told_rows(
            rows,
            update,
        )[i].1.settlement_status == update.settlement_status,
        rows[i].1.tx_hash is None || rows[i].1.tx_hash->0@ != update.tx_hash@ ==> told_rows(
            rows,
            update,
        )[i].1 == rows[i].1,
{
}

/// A record that is no older than those of its hand comes behind them all, and one of another
/// hand changes nothing.
pub proof fn later_records_come_last(
    rows: Seq<(u128, SettlementRecordInsert)>,
    key: u128,
    record: SettlementRecordInsert,
    hand_id: HandId,
)
    requires
        forall|i: int|
            0 <= i < records_of(rows, hand_id).len() ==> (#[trigger] records_of(
                rows,
                hand_id,
            )[i]).created_at.instant() <= record.created_at.instant(),
    ensures
        record.hand_id == hand_id ==> records_of(rows.push((key, record)), hand_id) == records_of(
            rows,
            hand_id,
        ).push(record),
        record.hand_id != hand_id ==> records_of(rows.push((key, record)), hand_id) == records_of(
            rows,
            hand_id,
        ),
{
    let before = records_of(rows, hand_id);
    assert(rows.push((key, record)).drop_last() =~= rows);
    if before.len() > 0 {
        assert(before[before.len() - 1].created_at.instant() <= record.created_at.instant());
    } else {
        assert(before.push(record) =~= seq![record]);
    }
}

/// The words and the chain of the ledger.
pub proof fn the_ledger_has_its_words()
    ensures
        LedgerDirection::Debit.spec_name() == "debit"@,
        LedgerDirection::Credit.spec_name() == "credit"@,
        default_chain_id() == "cfx-espace"@,
{
}

/// The attempt of a request is the first that names it.
pub proof fn attempts_are_found_by_their_request(
    attempts: Seq<ActionAttemptRecord>,
    request_id: Seq<char>,
    at: int,
)
    ensures
        0 <= at < attempts.len() && attempts[at].request_id@ == request_id && (forall|i: int|
            0 <= i < at ==> (#[trigger] attempts[i]).request_id@ != request_id) ==> attempt_for(
            attempts,
            request_id,
        ) == Some(attempts[at]),
        (forall|i: int|
            0 <= i < attempts.len() ==> (#[trigger] attempts[i]).request_id@ != request_id)
            ==> attempt_for(attempts, request_id) is None,
    decreases attempts.len(),
{
    if attempts.len() > 0 {
        let rest = attempts.skip(1);
        attempts_are_found_by_their_request(rest, request_id, at - 1);
        if 0 < at < attempts.len() && attempts[at].request_id@ == request_id && (forall|i: int|
            0 <= i < at ==> (#[trigger] attempts[i]).request_id@ != request_id) {
            assert(attempts[0].request_id@ != request_id);
            assert(rest[at - 1] == attempts[at]);
            assert forall|i: int| 0 <= i < at - 1 implies (#[trigger] rest[i]).request_id@
                != request_id by {
                assert(rest[i] == attempts[i + 1]);
            }
        }
        if forall|i: int|
            0 <= i < attempts.len() ==> (#[trigger] attempts[i]).request_id@ != request_id {
            assert(attempts[0].request_id@ != request_id);
            assert forall|i: int| 0 <= i < rest.len() implies (#[trigger] rest[i]).request_id@
                != request_id by {
                assert(rest[i] == attempts[i + 1]);
            }
        }
    }
}

/// The events about a room or a hand are those that name it; a question about neither is
/// answered with all.
pub proof fn the_audit_answers_what_is_asked(
    events: Seq<BehaviorEventRecord>,
    room_id: Option<RoomId>,
    hand_id: Option<HandId>,
    i: int,
)
    requires
        0 <= i < events.len(),
    ensures
        (room_id is None || events[i].room_id == room_id) && (hand_id is None || events[i].hand_id
            == hand_id) ==> behavior_about(events, room_id, hand_id).contains(events[i]),
        forall|k: int|
            0 <= k < behavior_about(events, room_id, hand_id).len() ==> (room_id is None || (
            #[trigger] behavior_about(events, room_id, hand_id)[k]).room_id == room_id) && (
            hand_id is None || behavior_about(events, room_id, hand_id)[k].hand_id == hand_id),
{
    broadcast use vstd::seq_lib::group_filter_ensures;

    let asked = |event: BehaviorEventRecord|
        (room_id is None || event.room_id == room_id) && (hand_id is None || event.hand_id
            == hand_id);
    if asked(events[i]) {
        events.lemma_filter_contains(asked, i);
    }
    assert forall|k: int| 0 <= k < behavior_about(events, room_id, hand_id).len() implies (room_id
        is None || (#[trigger] behavior_about(events, room_id, hand_id)[k]).room_id == room_id) && (
    hand_id is None || behavior_about(events, room_id, hand_id)[k].hand_id == hand_id) by {
        assert(asked(events.filter(asked)[k]));
    }
}

/// The events of a hand are all events that name it and no others.
pub proof fn hands_keep_their_events(events: Seq<HandEvent>, hand_id: HandId, i: int)
    requires
        0 <= i < events.len(),
    ensures
        events[i].hand_id == hand_id ==> events_of_hand(events, hand_id).contains(events[i]),
        forall|k: int|
            0 <= k < events_of_hand(events, hand_id).len() ==> (#[trigger] events_of_hand(
                events,
                hand_id,
            )[k]).hand_id == hand_id,
{
    broadcast use vstd::seq_lib::group_filter_ensures;

    let own = |event: HandEvent| event.hand_id == hand_id;
    if own(events[i]) {
        events.lemma_filter_contains(own, i);
    }
    assert forall|k: int| 0 <= k < events_of_hand(events, hand_id).len() implies (
    #[trigger] events_of_hand(events, hand_id)[k]).hand_id == hand_id by {
        assert(own(events.filter(own)[k]));
    }
}

/// The events that wait are all that are pending and no others.
pub proof fn pending_events_wait(events: Seq<OutboxEventRecord>, i: int)
    requires
        0 <= i < events.len(),
    ensures
        events[i].status@ == "pending"@ ==> pending_events(events).contains(events[i]),
        forall|k: int|
            0 <= k < pending_events(events).len() ==> (#[trigger] pending_events(events)[k]).status@
                == "pending"@,
{
    broadcast use vstd::seq_lib::group_filter_ensures;

    let waits = |event: OutboxEventRecord| event.is_pending();
    if waits(events[i]) {
        events.lemma_filter_contains(waits, i);
    }
    assert forall|k: int| 0 <= k < pending_events(events).len() implies (
    #[trigger] pending_events(events)[k]).status@ == "pending"@ by {
        assert(waits(events.filter(waits)[k]));
    }
}

/// An event that is marked is delivered at that moment and else as it was; all others stay.
pub proof fn marked_events_are_delivered(
    before: Seq<OutboxEventRecord>,
    after: Seq<OutboxEventRecord>,
    id: Seq<char>,
    at: Timestamp,
    i: int,
)
    requires
        marks_delivered(before, after, id, at),
        0 <= i < before.len(),
        before[i].outbox_event_id@ == id,
        forall|j: int| 0 <= j < i ==> (#[trigger] before[j]).outbox_event_id@ != id,
    ensures
        after.len() == before.len(),
        after[i].status@ == "delivered"@,
        after[i].delivered_at == Some(at),
        after[i].outbox_event_id == before[i].outbox_event_id,
        after[i].topic == before[i].topic,
        after[i].partition_key == before[i].partition_key,
        after[i].payload_json == before[i].payload_json,
        after[i].attempts == before[i].attempts,
        forall|j: int| 0 <= j < before.len() && j != i ==> #[trigger] after[j] == before[j],
{
    assert(is_first_with(before, id, i));
    assert(after[i].is_delivered_form_of(before[i], at));
    assert forall|j: int| 0 <= j < before.len() && j != i implies #[trigger] after[j]
        == before[j] by {
        assert(!is_first_with(before, id, j)) by {
            if j > i {
                assert(before[i].outbox_event_id@ == id);
            }
        }
    }
}

/// What is read out of a row of attempts is what stands in it, identifiers by their texts.
pub proof fn attempts_hold_their_row(record: ActionAttemptRecord, row: ActionAttemptRow)
    requires
        record.is_from_row(row),
    ensures
        record.attempt_id@ == uuid_text(row.attempt_id),
        record.request_id@ == uuid_text(row.request_id),
        record.request_nonce == row.request_nonce,
        record.method == row.method,
        record.action_type == row.action_type,
        row.agent_id matches Some(id) ==> record.agent_id == Some(AgentId(id)),
        row.session_id matches Some(id) ==> record.session_id == Some(SessionId(id)),
        row.room_id matches Some(id) ==> record.room_id == Some(RoomId(id)),
        row.hand_id matches Some(id) ==> record.hand_id == Some(HandId(id)),
        row.agent_id is None ==> record.agent_id is None,
        row.session_id is None ==> record.session_id is None,
        row.room_id is None ==> record.room_id is None,
        row.hand_id is None ==> record.hand_id is None,
        row.seat_id matches Some(n) ==> (0 <= n <= 255 ==> record.seat_id == Some(n as u8)),
        row.action_seq matches Some(n) ==> (n >= 0 ==> record.action_seq == Some(n as u32)),
        record.request_payload_json@ == row.request_payload_json@,
        record.signature_verify_result == row.signature_verify_result,
        record.replay_check_result == row.replay_check_result,
        record.idempotency_check_result == row.idempotency_check_result,
        record.validation_result == row.validation_result,
        record.router_result == row.router_result,
        record.business_result_code == row.business_result_code,
        record.error_detail == row.error_detail,
        record.received_at == row.received_at,
        record.completed_at == row.completed_at,
        record.trace_id == TraceId(row.trace_id),
{
}

/// What is read out of a row of events is what stands in it, identifiers by their texts.
pub proof fn behavior_holds_its_row(record: BehaviorEventRecord, row: BehaviorEventRow)
    requires
        record.is_from_row(row),
    ensures
        record.behavior_event_id@ == uuid_text(row.behavior_event_id),
        record.event_kind == row.event_kind,
        record.event_source == row.event_source,
        row.room_id matches Some(id) ==> record.room_id == Some(RoomId(id)),
        row.hand_id matches Some(id) ==> record.hand_id == Some(HandId(id)),
        row.related_attempt_id matches Some(id) ==> record.related_attempt_id is Some
            && record.related_attempt_id->0@ == uuid_text(id),
        record.related_tx_hash == row.related_tx_hash,
        record.severity == row.severity,
        record.payload_json@ == row.payload_json@,
        record.occurred_at == row.occurred_at,
        record.trace_id == TraceId(row.trace_id),
{
}

/// What is read out of a row of payments that are tied to actions is what stands in it.
pub proof fn bindings_hold_their_row(record: TxBindingRecord, row: TxBindingRow)
    requires
        record.is_from_row(row),
    ensures
        record.room_id == RoomId(row.room_id),
        record.hand_id == HandId(row.hand_id),
        row.action_seq >= 0 ==> record.action_seq == row.action_seq,
        0 <= row.seat_id <= 255 ==> record.seat_id == row.seat_id,
        read_number(row.expected_amount_text@, 10, u128::MAX as int) is Ok
            ==> record.expected_amount.0 == read_number(
            row.expected_amount_text@,
            10,
            u128::MAX as int,
        )->Ok_0,
        record.tx_hash == row.tx_hash,
        record.binding_status == row.binding_status,
        record.bound_at == row.bound_at,
{
    numbers_that_are_read_fit(row.expected_amount_text@, 10, u128::MAX as int);
}

/// Events of a hand are kept under the words for them.
pub proof fn events_are_kept_under_their_words(kind: HandEventKind)
    ensures
        kind is HandStarted ==> kind.spec_type() == "HandStarted"@,
        kind is TurnStarted ==> kind.spec_type() == "TurnStarted"@,
        kind is ActionAccepted ==> kind.spec_type() == "ActionAccepted"@,
        kind is StreetChanged ==> kind.spec_type() == "StreetChanged"@,
        kind is PotUpdated ==> kind.spec_type() == "PotUpdated"@,
        kind is HandClosed ==> kind.spec_type() == "HandClosed"@,
{
}

/// The place that the server runs at is known by these words, capital or small.
pub proof fn places_are_known_by_their_words(value: Seq<char>)
    ensures
        ({
            let word = lowered(trimmed(value));
            &&& env_named(value) == Some(AppEnv::Local) <==> word == "local"@
            &&& word == "dev"@ || word == "development"@ ==> env_named(value) == Some(AppEnv::Dev)
                || word == "local"@
            &&& env_named(value) == Some(AppEnv::Dev) ==> word == "dev"@ || word == "development"@
            &&& env_named(value) == Some(AppEnv::Test) ==> word == "test"@
            &&& env_named(value) == Some(AppEnv::Prod) ==> word == "prod"@ || word == "production"@
            &&& env_named(value) is None ==> word != "test"@ && word != "prod"@ && word
                != "production"@
        }),
        AppEnv::Local.spec_name() == "local"@,
        AppEnv::Dev.spec_name() == "dev"@,
        AppEnv::Test.spec_name() == "test"@,
        AppEnv::Prod.spec_name() == "prod"@,
{
}

/// What a file says replaces what was set before, and what it does not say stays.
pub proof fn files_replace_what_they_say(config: AppConfig, partial: PartialAppConfig)
    ensures
        partial.app is None ==> config.merged(partial).app == config.app,
        partial.observability is None ==> config.merged(partial).observability
            == config.observability,
        partial.app matches Some(app) ==> {
            &&& app.env matches Some(value) ==> config.merged(partial).app.env == value
            &&& app.env is None ==> config.merged(partial).app.env == config.app.env
            &&& app.service_name matches Some(value) ==> config.merged(partial).app.service_name
                == value
            &&& app.service_name is None ==> config.merged(partial).app.service_name
                == config.app.service_name
            &&& app.rpc_bind_addr matches Some(value) ==> config.merged(partial).app.rpc_bind_addr
                == value
            &&& app.rpc_bind_addr is None ==> config.merged(partial).app.rpc_bind_addr
                == config.app.rpc_bind_addr
            &&& app.ops_http_bind_addr matches Some(value) ==> config.merged(
                partial,
            ).app.ops_http_bind_addr == value
            &&& app.ops_http_bind_addr is None ==> config.merged(partial).app.ops_http_bind_addr
                == config.app.ops_http_bind_addr
        },
        partial.observability matches Some(section) ==> {
            &&& section.log_filter matches Some(value) ==> config.merged(
                partial,
            ).observability.log_filter == value
            &&& section.log_filter is None ==> config.merged(partial).observability.log_filter
                == config.observability.log_filter
        },
{
}

/// What the environment does not say stays; of its two words for the log the server's own counts
/// first.
pub proof fn the_environment_leaves_the_rest(config: AppConfig, env: EnvOverrides)
    ensures
        config.overridden(env).app.env == config.app.env,
        env.service_name is None ==> config.overridden(env).app.service_name
            == config.app.service_name,
        env.rpc_bind_addr is None ==> config.overridden(env).app.rpc_bind_addr
            == config.app.rpc_bind_addr,
        env.ops_http_bind_addr is None ==> config.overridden(env).app.ops_http_bind_addr
            == config.app.ops_http_bind_addr,
        env.log_filter is None && env.rust_log is Some ==> config.overridden(
            env,
        ).observability.log_filter == env.rust_log->0,
        env.log_filter is None && env.rust_log is None ==> config.overridden(
            env,
        ).observability.log_filter == config.observability.log_filter,
{
}

/// Without files and environment the server listens on this machine alone.
pub proof fn defaults_listen_on_this_machine(config: AppConfig, app_env: AppEnv)
    requires
        config.is_default(app_env),
    ensures
        config.app.env == app_env,
        config.app.service_name@ == "app-server"@,
        config.app.rpc_bind_addr@ == "127.0.0.1:9000"@,
        config.app.ops_http_bind_addr@ == "127.0.0.1:9100"@,
        config.observability.log_filter@ == "info"@,
{
}

/// A request is in its window exactly where it is ahead by no more than the tolerance and behind
/// by no more than the time for which it is good, both in milliseconds.
pub proof fn windows_have_two_ends(now: int, requested: int, expiry_ms: int, tolerance_ms: int)
    ensures
        window_fault(now, requested, expiry_ms, tolerance_ms) is None <==> requested <= now
            + tolerance_ms * 1_000_000 && now <= requested + expiry_ms * 1_000_000,
        requested > now + tolerance_ms * 1_000_000 ==> window_fault(
            now,
            requested,
            expiry_ms,
            tolerance_ms,
        ) == Some(AuthError::RequestFromFuture),
        requested <= now + tolerance_ms * 1_000_000 && now > requested + expiry_ms * 1_000_000
            ==> window_fault(now, requested, expiry_ms, tolerance_ms) == Some(
            AuthError::RequestExpired,
        ),
{
}

/// Requests are the same exactly where agent, identifier and nonce are.
pub proof fn requests_are_told_apart(a: ReplayNonceKey, b: ReplayNonceKey)
    ensures
        a@ == b@ <==> a.agent_id == b.agent_id && a.request_id == b.request_id && a.request_nonce@
            == b.request_nonce@,
{
}

/// A moment counts the nanoseconds of its seconds and its own.
pub proof fn moments_count_nanoseconds(a: Timestamp, b: Timestamp)
    ensures
        a.instant() == a.spec_seconds() * 1_000_000_000 + a.spec_nanos(),
        a.spec_seconds() == b.spec_seconds() && a.spec_nanos() < b.spec_nanos() ==> a.instant()
            < b.instant(),
{
}

/// Amounts add and subtract as numbers do, and report what does not fit.
pub proof fn chips_count_as_numbers(a: Chips, b: Chips)
    ensures
        a.0 + b.0 <= u128::MAX ==> a.plus(b) is Ok && a.plus(b)->Ok_0.0 == a.0 + b.0,
        a.0 + b.0 > u128::MAX ==> a.plus(b) == Err::<Chips, MoneyError>(MoneyError::Overflow),
        a.0 >= b.0 ==> a.minus(b) is Ok && a.minus(b)->Ok_0.0 == a.0 - b.0,
        a.0 < b.0 ==> a.minus(b) == Err::<Chips, MoneyError>(MoneyError::Underflow),
        a.0 >= b.0 ==> a.less(b).0 == a.0 - b.0,
        a.0 < b.0 ==> a.less(b).0 == 0,
{
}

/// The words of the game in documents.
pub proof fn the_game_has_its_words()
    ensures
        ActionType::Fold.spec_name() == "fold"@,
        ActionType::Check.spec_name() == "check"@,
        ActionType::Call.spec_name() == "call"@,
        ActionType::RaiseTo.spec_name() == "raise_to"@,
        ActionType::AllIn.spec_name() == "all_in"@,
        ActionType::Fold.spec_label() == "fold"@,
        ActionType::Check.spec_label() == "check"@,
        ActionType::Call.spec_label() == "call"@,
        ActionType::RaiseTo.spec_label() == "raiseto"@,
        ActionType::AllIn.spec_label() == "allin"@,
        Street::Preflop.spec_name() == "preflop"@,
        Street::Flop.spec_name() == "flop"@,
        Street::Turn.spec_name() == "turn"@,
        Street::River.spec_name() == "river"@,
        Street::Showdown.spec_name() == "showdown"@,
        HandStatus::Created.spec_name() == "created"@,
        HandStatus::Running.spec_name() == "running"@,
        HandStatus::Showdown.spec_name() == "showdown"@,
        HandStatus::Settling.spec_name() == "settling"@,
        HandStatus::Settled.spec_name() == "settled"@,
        HandStatus::Aborted.spec_name() == "aborted"@,
{
}

/// An identifier in a field is read, or the field is told with what stands in it.
pub proof fn fields_hold_identifiers(
    field: Seq<char>,
    value: Seq<char>,
    read: Result<u128, AuditStoreError>,
)
    requires
        reads_id_field(field, value, read),
    ensures
        read is Ok <==> parsed_uuid(value) is Ok,
        read is Ok ==> read->Ok_0 == parsed_uuid(value)->Ok_0,
        read is Err ==> read->Err_0 is InvalidUuid && read->Err_0->field@ == field
            && read->Err_0->value@ == value,
{
}

/// A place that is not known is told as it was understood: trimmed and in small letters.
pub proof fn unknown_places_are_told(value: Seq<char>, read: Result<AppEnv, ConfigError>)
    requires
        reads_env(value, read),
    ensures
        read is Ok <==> env_named(value) is Some,
        read is Ok ==> Some(read->Ok_0) == env_named(value),
        read is Err ==> read->Err_0 is InvalidEnv && read->Err_0->InvalidEnv_0@ == lowered(
            trimmed(value),
        ),
{
}

} // verus!
