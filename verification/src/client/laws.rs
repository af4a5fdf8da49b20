//! What a player can rely on when a client plays for them.
use vstd::prelude::*;

use crate::agent_sdk::{
    decoded_for, key_name, lists, unsigned_meta, RetryPolicy, RetryableErrorKind, SeatContext,
};
use crate::auth::SignedRequestMeta;
use crate::cards::card_text;
use crate::client::demo::{bot_action, bot_choice, step_after, DemoStep};
use crate::client::policy::{
    acceptable, amount_in, braced, latest, named_action, rule_choice, said, CodexDecisionRaw,
    CodexReply, PolicyAdapterError, PolicyDecision, PolicySource,
};
use crate::client::runtime::{
    claim_of, cost, first_choice, found_documents, held_back, refused_count, secret_fault,
    PayloadReading, PrepareStep, RuntimeError, SingleActionRunOutcome, TurnDecisionInput,
};
use crate::client::seat::{
    coins, decides, events_address, first_active, fixed_digits, is_said, key_fault, notation,
    number_said, payload_number, selected_room, turn_key, without_zeros, words, split_words,
    PolicyMode, TurnKeeper,
};
use crate::client::session::{all_idle, to_restore, SubscriptionSpec, SubscriptionState};
use crate::client::wallet::{call_tree, transfer_tree};
use crate::document::{member_value, text_value, unsigned_value};
use crate::domain::action::{ActionType, LegalAction};
use crate::domain::game::{HandSnapshot, HandStatus, SeatId};
use crate::domain::ids::{is_time_ordered, RoomId};
use crate::domain::money::Chips;
use crate::evm::{hex_error, is_hex};
use crate::json::JsonView;
use crate::rpc::{PrivatePayloadEvent, RoomBindSessionKeysRequest, RoomSummary, SeatEventAad};
use crate::text::{
    begins_with, decimal, lowered, number_text, numbers_that_are_read_fit, read_number, trimmed,
    white_space,
};

verus! {

/// Whether one of the texts is this one.
pub open spec fn is_among(texts: Seq<String>, text: Seq<char>) -> bool {
    exists|i: int| 0 <= i < texts.len() && (#[trigger] texts[i])@ == text
}

/// The rule checks where a check is offered, else calls where a call is, else folds where a fold
/// is, and else does nothing.
pub proof fn the_rule_plays_it_safe(legal_actions: Seq<String>)
    ensures
        is_among(legal_actions, "check"@) ==> rule_choice(legal_actions) == Some(ActionType::Check),
        !is_among(legal_actions, "check"@) && is_among(legal_actions, "call"@) ==> rule_choice(
            legal_actions,
        ) == Some(ActionType::Call),
        !is_among(legal_actions, "check"@) && !is_among(legal_actions, "call"@) && is_among(
            legal_actions,
            "fold"@,
        ) ==> rule_choice(legal_actions) == Some(ActionType::Fold),
        !is_among(legal_actions, "check"@) && !is_among(legal_actions, "call"@) && !is_among(
            legal_actions,
            "fold"@,
        ) ==> rule_choice(legal_actions) is None,
        lists(legal_actions, "check"@) <==> is_among(legal_actions, "check"@),
{
    assert(lists(legal_actions, "check"@) <==> is_among(legal_actions, "check"@));
    assert(lists(legal_actions, "call"@) <==> is_among(legal_actions, "call"@));
    assert(lists(legal_actions, "fold"@) <==> is_among(legal_actions, "fold"@));
}

/// An action is known by its word alone, in capitals or small letters and with white space
/// around it.
pub proof fn actions_are_known_by_their_words(raw: Seq<char>)
    ensures
        lowered(trimmed(raw)) == "fold"@ ==> named_action(raw) == Some(ActionType::Fold),
        named_action(raw) == Some(ActionType::Fold) ==> lowered(trimmed(raw)) == "fold"@,
        named_action(raw) == Some(ActionType::Check) ==> lowered(trimmed(raw)) == "check"@,
        named_action(raw) == Some(ActionType::Call) ==> lowered(trimmed(raw)) == "call"@,
        named_action(raw) == Some(ActionType::RaiseTo) ==> lowered(trimmed(raw)) == "raise_to"@,
        named_action(raw) == Some(ActionType::AllIn) ==> lowered(trimmed(raw)) == "all_in"@,
        named_action(raw) is None ==> lowered(trimmed(raw)) != "check"@ && lowered(trimmed(raw))
            != "call"@ && lowered(trimmed(raw)) != "raise_to"@ && lowered(trimmed(raw))
            != "all_in"@,
{
}

/// A decision of the tool counts exactly where it names an action that is offered and any amount
/// in it is a number; what the tool said in whole counts before what stands in braces.
pub proof fn the_tool_chooses_what_is_offered(
    raw: CodexDecisionRaw,
    legal_actions: Seq<String>,
    reply: CodexReply,
)
    ensures
        acceptable(raw, legal_actions) ==> {
            &&& named_action(raw.action_type@) is Some
            &&& is_among(legal_actions, named_action(raw.action_type@)->0.spec_label())
            &&& raw.amount matches Some(text) ==> read_number(text@, 10, u128::MAX as int) is Ok
        },
        named_action(raw.action_type@) is Some && is_among(
            legal_actions,
            named_action(raw.action_type@)->0.spec_label(),
        ) && raw.amount is None ==> acceptable(raw, legal_actions),
        raw.amount is Some && read_number(raw.amount->0@, 10, u128::MAX as int) is Ok
            ==> amount_in(raw.amount) == Ok::<Option<Chips>, PolicyAdapterError>(
            Some(Chips(read_number(raw.amount->0@, 10, u128::MAX as int)->Ok_0 as u128)),
        ),
        raw.amount is None ==> amount_in(raw.amount) == Ok::<Option<Chips>, PolicyAdapterError>(
            None,
        ),
        reply.whole is Some ==> said(reply) == reply.whole,
        reply.whole is None ==> said(reply) == reply.braced,
{
    if named_action(raw.action_type@) is Some {
        let word = named_action(raw.action_type@)->0.spec_label();
        assert(lists(legal_actions, word) <==> is_among(legal_actions, word));
    }
}

/// The object in a text reaches from its first opening brace to its last closing one.
pub proof fn objects_reach_from_brace_to_brace(text: Seq<char>, start: int, end: int)
    requires
        0 <= start < end < text.len(),
        text[start] == '{',
        text[end] == '}',
        forall|i: int| 0 <= i < start ==> text[i] != '{',
        forall|i: int| end < i < text.len() ==> text[i] != '}',
    ensures
        braced(text) == Some(text.subrange(start, end + 1)),
{
    text.index_of_first_ensures('{');
    text.index_of_last_ensures('}');
    assert(text.contains('{') && text.contains('}'));
    let first = text.index_of_first('{')->0;
    let last = text.index_of_last('}')->0;
    assert(first == start) by {
        if first < start {
            assert(text[first] == '{');
        }
    }
    assert(last == end) by {
        if last > end {
            assert(text[last] == '}');
        }
    }
}

/// Of what was decided as much is kept as may be, and the latest of it.
pub proof fn the_latest_are_kept<T>(all: Seq<T>, bound: nat)
    ensures
        latest(all, bound).len() <= bound,
        all.len() <= bound ==> latest(all, bound) == all,
        all.len() > bound ==> latest(all, bound).len() == bound,
        forall|i: int|
            0 <= i < latest(all, bound).len() ==> #[trigger] latest(all, bound)[i] == all[all.len()
                - latest(all, bound).len() + i],
{
}

/// The tool is listened to only where it is asked for and gave a decision; else the rule
/// decides, and a rule's decision names no amount.
pub proof fn the_rule_stands_in_for_the_tool(
    policy_mode: PolicyMode,
    tool: Result<Option<PolicyDecision>, PolicyAdapterError>,
    turn: TurnDecisionInput,
    decision: Option<PolicyDecision>,
)
    requires
        decides(policy_mode, tool, turn, decision),
    ensures
        policy_mode == PolicyMode::CodexCli && tool is Ok && tool->Ok_0 is Some ==> decision
            == tool->Ok_0,
        policy_mode == PolicyMode::Rule || tool is Err || tool->Ok_0 is None ==> {
            &&& decision is Some <==> rule_choice(turn.policy_input.legal_actions@) is Some
            &&& decision is Some ==> Some(decision->0.action_type) == rule_choice(
                turn.policy_input.legal_actions@,
            ) && decision->0.amount is None && decision->0.source == PolicySource::Rule
        },
{
}

/// An attempt is repeated exactly while attempts are left and the policy repeats for this
/// reason.
pub proof fn attempts_are_repeated_for_a_reason(policy: RetryPolicy, attempt_no: u32)
    ensures
        policy.retries(attempt_no, RetryableErrorKind::Timeout) <==> attempt_no
            < policy.max_attempts && policy.retry_on_timeout,
        policy.retries(attempt_no, RetryableErrorKind::Transport) <==> attempt_no
            < policy.max_attempts && policy.retry_on_transport_error,
{
}

/// A new request has its own identifier and nonce, is good for thirty seconds, carries no
/// signature yet, and names its key.
pub proof fn new_requests_wait_for_their_signature(
    meta: SignedRequestMeta,
    key_id: Seq<char>,
    seat: SeatContext,
)
    ensures
        unsigned_meta(meta, key_id) ==> {
            &&& meta.request_expiry_ms == 30_000
            &&& meta.signature@.len() == 0
            &&& meta.signature_pubkey_id@ == key_id
            &&& meta.request_nonce@.len() == 36
            &&& is_time_ordered(meta.request_id.0)
        },
        seat.request_signature_pubkey_id matches Some(name) ==> key_name(seat) == name@,
        seat.request_signature_pubkey_id is None ==> key_name(seat) == "unset"@,
{
}

/// A seat decodes the payloads that are meant for it, all of them and no others.
pub proof fn seats_decode_their_own_payloads(
    payloads: Seq<(SeatEventAad, Result<Vec<u8>, String>)>,
    room_id: RoomId,
    seat_id: SeatId,
    count: nat,
)
    requires
        count <= payloads.len(),
        decoded_for(payloads, room_id, seat_id, count) is Ok,
    ensures
        forall|i: int|
            0 <= i < count && (#[trigger] payloads[i]).0.room_id == room_id
                && payloads[i].0.seat_id == seat_id ==> payloads[i].1 is Ok && decoded_for(
                payloads,
                room_id,
                seat_id,
                count,
            )->Ok_0.contains(payloads[i].1->Ok_0@),
        forall|k: int|
            0 <= k < decoded_for(payloads, room_id, seat_id, count)->Ok_0.len() ==> exists|i: int|
                0 <= i < count && (#[trigger] payloads[i]).0.room_id == room_id
                    && payloads[i].0.seat_id == seat_id && payloads[i].1 is Ok
                    && payloads[i].1->Ok_0@ == #[trigger] decoded_for(
                    payloads,
                    room_id,
                    seat_id,
                    count,
                )->Ok_0[k],
    decreases count,
{
    if count > 0 {
        let last = (count - 1) as nat;
        seats_decode_their_own_payloads(payloads, room_id, seat_id, last);
        let front = decoded_for(payloads, room_id, seat_id, last)->Ok_0;
        let all = decoded_for(payloads, room_id, seat_id, count)->Ok_0;
        assert forall|i: int|
            0 <= i < count && (#[trigger] payloads[i]).0.room_id == room_id
                && payloads[i].0.seat_id == seat_id implies payloads[i].1 is Ok && all.contains(
            payloads[i].1->Ok_0@,
        ) by {
            if i < last {
                assert(front.contains(payloads[i].1->Ok_0@));
                let at = choose|k: int| 0 <= k < front.len() && front[k] == payloads[i].1->Ok_0@;
                assert(all[at] == front[at]);
            } else {
                assert(all[all.len() - 1] == payloads[i].1->Ok_0@);
            }
        }
        assert forall|k: int| 0 <= k < all.len() implies exists|i: int|
            0 <= i < count && (#[trigger] payloads[i]).0.room_id == room_id
                && payloads[i].0.seat_id == seat_id && payloads[i].1 is Ok
                && payloads[i].1->Ok_0@ == #[trigger] all[k] by {
            if k < front.len() {
                assert(all[k] == front[k]);
                let i = choose|i: int|
                    0 <= i < last && (#[trigger] payloads[i]).0.room_id == room_id
                        && payloads[i].0.seat_id == seat_id && payloads[i].1 is Ok
                        && payloads[i].1->Ok_0@ == front[k];
                assert(payloads[i].1->Ok_0@ == all[k]);
            } else {
                assert(payloads[last as int].1->Ok_0@ == all[k]);
            }
        }
    }
}

/// A secret key is thirty-two bytes in digits.
pub proof fn secret_keys_have_sixty_four_digits(secret_hex: Seq<char>)
    ensures
        secret_fault(secret_hex) is None <==> is_hex(secret_hex) && secret_hex.len() == 64,
        key_fault(secret_hex) is None <==> is_hex(secret_hex) && secret_hex.len() == 64,
        !is_hex(secret_hex) ==> secret_fault(secret_hex) == Some(hex_error(secret_hex)),
{
}

/// The cards that are found are those of the events that deal cards and could be read, in their
/// order; the others that deal cards and were refused are counted.
pub proof fn dealt_cards_are_found(
    events: Seq<PrivatePayloadEvent>,
    readings: Seq<PayloadReading>,
    count: nat,
)
    requires
        0 < count <= events.len(),
    ensures
        ({
            let deals = events[count - 1].event_name@ == "hole_cards_dealt"@;
            let before = found_documents(events, readings, (count - 1) as nat);
            let refused = refused_count(events, readings, (count - 1) as nat);
            &&& found_documents(events, readings, 0).len() == 0
            &&& refused_count(events, readings, 0) == 0
            &&& deals && readings[count - 1] is Document ==> found_documents(
                events,
                readings,
                count,
            ) == before.push(readings[count - 1]->Document_0@)
            &&& !deals || !(readings[count - 1] is Document) ==> found_documents(
                events,
                readings,
                count,
            ) == before
            &&& deals && readings[count - 1] is Refused ==> refused_count(events, readings, count)
                == refused + 1
            &&& !deals || !(readings[count - 1] is Refused) ==> refused_count(
                events,
                readings,
                count,
            ) == refused
        }),
        held_back(count) <= u32::MAX,
        count <= u32::MAX ==> held_back(count) == count,
{
}

/// The choice that is looked up is the first of its kind that is offered.
pub proof fn the_first_choice_of_its_kind(
    actions: Seq<LegalAction>,
    action_type: ActionType,
    at: int,
)
    requires
        0 <= at < actions.len(),
        actions[at].action_type == action_type,
        forall|i: int| 0 <= i < at ==> (#[trigger] actions[i]).action_type != action_type,
    ensures
        first_choice(actions, action_type) == Some(actions[at]),
    decreases at,
{
    if at > 0 {
        let rest = actions.skip(1);
        assert(actions[0].action_type != action_type);
        assert forall|i: int| 0 <= i < at - 1 implies (#[trigger] rest[i]).action_type
            != action_type by {
            assert(rest[i] == actions[i + 1]);
        }
        the_first_choice_of_its_kind(rest, action_type, at - 1);
    }
}

/// A fold and a check cost nothing; a call costs what the offer asks; a raise and an all-in cost
/// what was decided, and cannot be without an amount.
pub proof fn actions_have_their_price(
    action_type: ActionType,
    amount: Option<Chips>,
    legal_actions: Seq<LegalAction>,
)
    ensures
        action_type == ActionType::Fold || action_type == ActionType::Check ==> cost(
            action_type,
            amount,
            legal_actions,
        ) == Ok::<Option<Chips>, Seq<char>>(None),
        action_type == ActionType::RaiseTo || action_type == ActionType::AllIn ==> {
            &&& amount is Some ==> cost(action_type, amount, legal_actions) == Ok::<
                Option<Chips>,
                Seq<char>,
            >(amount)
            &&& amount is None ==> cost(action_type, amount, legal_actions) == Err::<
                Option<Chips>,
                Seq<char>,
            >("raise_to/all_in requires explicit amount"@)
        },
        action_type == ActionType::Call && (forall|i: int|
            0 <= i < legal_actions.len() ==> (#[trigger] legal_actions[i]).action_type
                != ActionType::Call) ==> cost(action_type, amount, legal_actions) == Err::<
            Option<Chips>,
            Seq<char>,
        >("call not present in legal actions"@),
{
    if forall|i: int|
        0 <= i < legal_actions.len() ==> (#[trigger] legal_actions[i]).action_type
            != ActionType::Call {
        lemma_no_choice(legal_actions, ActionType::Call);
    }
}

proof fn lemma_no_choice(actions: Seq<LegalAction>, action_type: ActionType)
    requires
        forall|i: int| 0 <= i < actions.len() ==> (#[trigger] actions[i]).action_type != action_type,
    ensures
        first_choice(actions, action_type) is None,
    decreases actions.len(),
{
    if actions.len() > 0 {
        let rest = actions.skip(1);
        assert(actions[0].action_type != action_type);
        assert forall|i: int| 0 <= i < rest.len() implies (#[trigger] rest[i]).action_type
            != action_type by {
            assert(rest[i] == actions[i + 1]);
        }
        lemma_no_choice(rest, action_type);
    }
}

/// A seat claims its keys for its own room, seat and address, from the moment of the request on
/// and without an end.
pub proof fn seats_claim_their_own_keys(request: RoomBindSessionKeysRequest)
    ensures
        ({
            let claim = claim_of(request);
            &&& claim.room_id == request.room_id
            &&& claim.seat_id == request.seat_id
            &&& claim.seat_address == request.seat_address
            &&& claim.card_encrypt_pubkey == request.card_encrypt_pubkey
            &&& claim.request_verify_pubkey == request.request_verify_pubkey
            &&& claim.key_algo == request.key_algo
            &&& claim.issued_at == request.request_meta.request_ts
            &&& claim.expires_at is None
            &&& claim.agent_id is None
            &&& claim.session_id is None
        }),
{
}

/// A seat joins, binds its address, binds its keys and says that it is ready, by these methods.
pub proof fn seats_prepare_in_order()
    ensures
        PrepareStep::Join.spec_method() == "room.join"@,
        PrepareStep::BindAddress.spec_method() == "room.bind_address"@,
        PrepareStep::BindSessionKeys.spec_method() == "room.bind_session_keys"@,
        PrepareStep::Ready.spec_method() == "room.ready"@,
{
}

/// Events come from the same address as answers, under the scheme for events.
pub proof fn events_come_from_the_same_address(rest: Seq<char>)
    ensures
        events_address("http://"@ + rest) == "ws://"@ + rest,
        events_address("https://"@ + rest) == "wss://"@ + rest,
        !begins_with(rest, "http://"@) && !begins_with(rest, "https://"@) ==> events_address(rest)
            == rest,
{
    reveal_strlit("http://");
    reveal_strlit("https://");
    let plain = "http://"@ + rest;
    let secure = "https://"@ + rest;
    assert(plain.take(7) =~= "http://"@);
    assert(plain.skip(7) =~= rest);
    assert(secure.take(8) =~= "https://"@);
    assert(secure.skip(8) =~= rest);
    assert(secure.take(7)[4] == 's');
    assert("http://"@[4] == ':');
}

/// A card is written with the sign of its value and the sign of its suit, thirteen values to a
/// suit, by the client as by the server.
pub proof fn cards_have_their_signs(card: u8)
    requires
        card < 52,
    ensures
        card_text(card).len() == 2,
        card_text(card)[0] == "23456789TJQKA"@[card as int % 13],
        card_text(card)[1] == "schd"@[card as int / 13],
        notation(card as u64) == Some(card_text(card)),
{
    reveal_strlit("23456789TJQKA");
    reveal_strlit("schd");
    assert(notation(card as u64)->0 =~= card_text(card));
}

/// A number above the deck is no card.
pub proof fn only_cards_are_shown(index: u64)
    ensures
        notation(index) is Some <==> index < 52,
{
}

proof fn lemma_fixed_digits_len(n: nat, count: nat)
    ensures
        fixed_digits(n, count).len() == count,
    decreases count,
{
    if count > 0 {
        lemma_fixed_digits_len(n / 10, (count - 1) as nat);
    }
}

/// Taking zeros off the end takes off nothing else.
pub proof fn zeros_come_off_the_end(text: Seq<char>)
    ensures
        without_zeros(text).len() <= text.len(),
        without_zeros(text) == text.take(without_zeros(text).len() as int),
        forall|i: int| without_zeros(text).len() <= i < text.len() ==> #[trigger] text[i] == '0',
        without_zeros(text).len() > 0 ==> without_zeros(text).last() != '0',
    decreases text.len(),
{
    if text.len() > 0 && text.last() == '0' {
        let front = text.drop_last();
        zeros_come_off_the_end(front);
        let n = without_zeros(front).len() as int;
        assert(front.take(n) =~= text.take(n));
        assert forall|i: int| n <= i < text.len() implies #[trigger] text[i] == '0' by {
            if i < front.len() {
                assert(front[i] == text[i]);
            }
        }
    } else {
        assert(text.take(text.len() as int) =~= text);
    }
}

/// An amount of a coin's smallest part is shown in whole coins, a point and what is left in
/// eighteen digits without zeros at their end.
pub proof fn amounts_are_shown_in_coins(wei: nat)
    ensures
        wei % 1_000_000_000_000_000_000 == 0 ==> coins(wei) == decimal(
            wei / 1_000_000_000_000_000_000,
        ) + ".0 ETH"@,
        wei % 1_000_000_000_000_000_000 != 0 ==> coins(wei) == decimal(
            wei / 1_000_000_000_000_000_000,
        ) + "."@ + without_zeros(fixed_digits(wei % 1_000_000_000_000_000_000, 18)) + " ETH"@,
        fixed_digits(wei, 18).len() == 18,
{
    lemma_fixed_digits_len(wei, 18);
}

/// A client takes the first room that is active, and the first of all where none is.
pub proof fn clients_take_the_first_active_room(rooms: Seq<RoomSummary>, at: int)
    requires
        0 <= at < rooms.len(),
    ensures
        lowered(rooms[at].status@) == "active"@ && (forall|i: int|
            0 <= i < at ==> lowered((#[trigger] rooms[i]).status@) != "active"@) ==> selected_room(
            rooms,
        ) == Some(rooms[at].room_id),
        (forall|i: int| 0 <= i < rooms.len() ==> lowered((#[trigger] rooms[i]).status@)
            != "active"@) ==> selected_room(rooms) == Some(rooms[0].room_id),
        selected_room(Seq::empty()) is None,
{
    if lowered(rooms[at].status@) == "active"@ && (forall|i: int|
        0 <= i < at ==> lowered((#[trigger] rooms[i]).status@) != "active"@) {
        lemma_first_active(rooms, at);
    }
    if forall|i: int| 0 <= i < rooms.len() ==> lowered((#[trigger] rooms[i]).status@) != "active"@ {
        lemma_none_active(rooms);
    }
}

proof fn lemma_first_active(rooms: Seq<RoomSummary>, at: int)
    requires
        0 <= at < rooms.len(),
        lowered(rooms[at].status@) == "active"@,
        forall|i: int| 0 <= i < at ==> lowered((#[trigger] rooms[i]).status@) != "active"@,
    ensures
        first_active(rooms) == Some(rooms[at].room_id),
    decreases at,
{
    if at > 0 {
        assert(lowered(rooms[0].status@) != "active"@);
        let rest = rooms.skip(1);
        assert forall|i: int| 0 <= i < at - 1 implies lowered((#[trigger] rest[i]).status@)
            != "active"@ by {
            assert(rest[i] == rooms[i + 1]);
        }
        lemma_first_active(rest, at - 1);
    }
}

proof fn lemma_none_active(rooms: Seq<RoomSummary>)
    requires
        forall|i: int| 0 <= i < rooms.len() ==> lowered((#[trigger] rooms[i]).status@) != "active"@,
    ensures
        first_active(rooms) is None,
    decreases rooms.len(),
{
    if rooms.len() > 0 {
        assert(lowered(rooms[0].status@) != "active"@);
        let rest = rooms.skip(1);
        assert forall|i: int| 0 <= i < rest.len() implies lowered((#[trigger] rest[i]).status@)
            != "active"@ by {
            assert(rest[i] == rooms[i + 1]);
        }
        lemma_none_active(rest);
    }
}

/// Two turns are the same exactly where they are of the same hand and the same action of it.
pub proof fn turns_are_told_apart(a: TurnDecisionInput, b: TurnDecisionInput)
    ensures
        turn_key(a) == turn_key(b) <==> a.hand_id == b.hand_id && a.action_seq == b.action_seq,
{
}

/// Only an error of the network or of the wallet lets a turn be tried again; any other error,
/// and success, end it. A decision that was carried out is remembered, another is not.
pub proof fn only_passing_errors_are_retried(
    begun: TurnKeeper,
    after: TurnKeeper,
    turn: TurnDecisionInput,
    decision: PolicyDecision,
    outcome: Result<SingleActionRunOutcome, RuntimeError>,
)
    requires
        begun.last_attempted_turn == Some((turn.hand_id.0, turn.action_seq)),
        begun.finished(after, turn, decision, outcome),
    ensures
        outcome is Err && (outcome->Err_0 is Http || outcome->Err_0 is Wallet) ==> after.is_new(
            turn,
        ),
        outcome is Ok || !(outcome->Err_0 is Http || outcome->Err_0 is Wallet) ==> !after.is_new(
            turn,
        ),
        outcome is Err ==> after.decisions == begun.decisions,
        outcome is Ok && begun.decisions.bound() > 0 ==> ({
            let last = after.decisions.kept().last();
            &&& after.decisions.kept().len() > 0
            &&& last.hand_id == turn.hand_id
            &&& last.chosen_action is Some
            &&& last.chosen_action->0@ == decision.action_type.spec_label()
            &&& last.rationale == decision.rationale
        }),
{
}

/// A setting that says nothing leaves the default; one that says something must be a number in
/// decimal digits.
pub proof fn settings_say_numbers(value: Option<String>, default: u64)
    ensures
        is_said(value) <==> value is Some && trimmed(value->0@).len() > 0,
        value is None || trimmed(value->0@).len() == 0 ==> number_said(value, default) == Some(
            default,
        ),
        value is Some && trimmed(value->0@).len() > 0 ==> {
            &&& number_said(value, default) is Some <==> read_number(
                value->0@,
                10,
                u64::MAX as int,
            ) is Ok
            &&& number_said(value, default) is Some ==> number_said(value, default)->0
                == read_number(value->0@, 10, u64::MAX as int)->Ok_0
        },
{
    if value is Some {
        numbers_that_are_read_fit(value->0@, 10, u64::MAX as int);
    }
}

/// A number in a document may stand as a number or as its decimal digits.
pub proof fn documents_hold_numbers_both_ways(payload: JsonView, key: Seq<char>)
    ensures
        member_value(payload, key) is None ==> payload_number(payload, key) is None,
        member_value(payload, key) matches Some(value) ==> {
            &&& unsigned_value(value) is Some ==> payload_number(payload, key) == unsigned_value(
                value,
            )
            &&& unsigned_value(value) is None && text_value(value) is Some && read_number(
                text_value(value)->0,
                10,
                u64::MAX as int,
            ) is Ok ==> payload_number(payload, key) is Some && payload_number(payload, key)->0
                == read_number(text_value(value)->0, 10, u64::MAX as int)->Ok_0
        },
{
    if let Some(value) = member_value(payload, key) {
        if let Some(text) = text_value(value) {
            numbers_that_are_read_fit(text, 10, u64::MAX as int);
        }
    }
}

/// The words of a text, put together, are the text without its white space.
pub proof fn words_leave_out_white_space_alone(text: Seq<char>)
    ensures
        joined(words(text)) == text.filter(|c: char| !white_space(c)),
{
    lemma_joined_words(text);
    let (done, open) = split_words(text);
    if open.len() > 0 {
        assert(done.push(open).drop_last() =~= done);
    } else {
        assert(joined(done) + open =~= joined(done));
    }
}

/// Texts put together.
pub open spec fn joined(texts: Seq<Seq<char>>) -> Seq<char>
    decreases texts.len(),
{
    if texts.len() == 0 {
        Seq::empty()
    } else {
        joined(texts.drop_last()) + texts.last()
    }
}

proof fn lemma_joined_words(text: Seq<char>)
    ensures
        joined(split_words(text).0) + split_words(text).1 == text.filter(
            |c: char| !white_space(c),
        ),
    decreases text.len(),
{
    reveal(Seq::filter);
    if text.len() > 0 {
        lemma_joined_words(text.drop_last());
        let (done, open) = split_words(text.drop_last());
        if !white_space(text.last()) {
            assert(joined(done) + open.push(text.last()) =~= (joined(done) + open).push(
                text.last(),
            ));
        } else if open.len() > 0 {
            assert(done.push(open).drop_last() =~= done);
            assert(joined(done.push(open)) + Seq::<char>::empty() =~= joined(done) + open);
        }
    } else {
        assert(joined(split_words(text).0) + split_words(text).1 =~= Seq::<char>::empty());
    }
}

/// A lost connection leaves every subscription known but idle.
pub proof fn lost_subscriptions_stay_known(
    rows: Seq<(Seq<char>, SubscriptionState)>,
    i: int,
)
    requires
        0 <= i < rows.len(),
    ensures
        all_idle(rows).len() == rows.len(),
        all_idle(rows)[i].0 == rows[i].0,
        all_idle(rows)[i].1.spec == rows[i].1.spec,
        all_idle(rows)[i].1.remote_subscription_id is None,
        !all_idle(rows)[i].1.active,
{
}

/// A subscription is restored exactly where it is not active.
pub proof fn idle_subscriptions_are_restored(
    rows: Seq<(Seq<char>, SubscriptionState)>,
    key: Seq<char>,
    spec_: SubscriptionSpec,
)
    ensures
        to_restore(rows).contains((key, spec_)) <==> exists|i: int|
            0 <= i < rows.len() && !(#[trigger] rows[i]).1.active && rows[i].0 == key
                && rows[i].1.spec == spec_,
    decreases rows.len(),
{
    if rows.len() > 0 {
        let front = rows.drop_last();
        idle_subscriptions_are_restored(front, key, spec_);
        let done = to_restore(front);
        let all = to_restore(rows);
        if done.contains((key, spec_)) {
            let at = choose|k: int| 0 <= k < done.len() && done[k] == (key, spec_);
            assert(all[at] == (key, spec_));
            let i = choose|i: int|
                0 <= i < front.len() && !(#[trigger] front[i]).1.active && front[i].0 == key
                    && front[i].1.spec == spec_;
            assert(rows[i] == front[i]);
        }
        let last = rows.last();
        if !last.1.active && last.0 == key && last.1.spec == spec_ {
            assert(all[all.len() - 1] == (key, spec_));
            assert(rows[rows.len() - 1] == last);
        }
        if exists|i: int|
            0 <= i < rows.len() && !(#[trigger] rows[i]).1.active && rows[i].0 == key
                && rows[i].1.spec == spec_ {
            let i = choose|i: int|
                0 <= i < rows.len() && !(#[trigger] rows[i]).1.active && rows[i].0 == key
                    && rows[i].1.spec == spec_;
            if i < front.len() {
                assert(front[i] == rows[i]);
            }
        }
        if all.contains((key, spec_)) && !done.contains((key, spec_)) {
            assert(rows[rows.len() - 1] == last);
        }
    }
}

/// A payment names its sender, its receiver and, in hexadecimal digits, its amount.
pub proof fn payments_name_both_sides(from: Seq<char>, to: Seq<char>, value: nat)
    ensures
        ({
            let payment = transfer_tree(from, to, value)->Array_0[0]->Object_0;
            &&& transfer_tree(from, to, value)->Array_0.len() == 1
            &&& payment.len() == 3
            &&& payment[0] == ("from"@, JsonView::Text(from))
            &&& payment[1] == ("to"@, JsonView::Text(to))
            &&& payment[2] == ("value"@, JsonView::Text("0x"@ + number_text(value, 16)))
        }),
        ({
            let call = call_tree("eth_sendTransaction"@, transfer_tree(from, to, value))->Object_0;
            &&& call.len() == 4
            &&& call[0] == ("jsonrpc"@, JsonView::Text("2.0"@))
            &&& call[2] == ("method"@, JsonView::Text("eth_sendTransaction"@))
            &&& call[3] == ("params"@, transfer_tree(from, to, value))
        }),
{
}

/// A player of the demonstration checks where it can, else calls where it can, and else folds,
/// in the hand that is played and as its next action; a hand that is over is not played on.
pub proof fn the_demonstration_plays_on(
    snapshot: HandSnapshot,
    seat_id: u8,
    legal_actions: Seq<LegalAction>,
)
    ensures
        bot_choice(legal_actions) == ActionType::Check <==> exists|i: int|
            0 <= i < legal_actions.len() && (#[trigger] legal_actions[i]).action_type
                == ActionType::Check,
        bot_choice(legal_actions) == ActionType::Call ==> exists|i: int|
            0 <= i < legal_actions.len() && (#[trigger] legal_actions[i]).action_type
                == ActionType::Call,
        (exists|i: int|
            0 <= i < legal_actions.len() && (#[trigger] legal_actions[i]).action_type
                == ActionType::Call) ==> bot_choice(legal_actions) != ActionType::Fold,
        bot_choice(legal_actions) == ActionType::Check || bot_choice(legal_actions)
            == ActionType::Call || bot_choice(legal_actions) == ActionType::Fold,
        ({
            let action = bot_action(snapshot, seat_id, legal_actions);
            &&& action.room_id == snapshot.room_id
            &&& action.hand_id == snapshot.hand_id
            &&& action.action_seq == snapshot.next_action_seq
            &&& action.seat_id == seat_id
            &&& action.action_type == bot_choice(legal_actions)
            &&& action.amount is None
        }),
        snapshot.status == HandStatus::Settled || snapshot.status == HandStatus::Aborted
            || snapshot.status == HandStatus::Showdown ==> step_after(snapshot) == DemoStep::Stop(
            snapshot.status,
        ),
        snapshot.status == HandStatus::Created || snapshot.status == HandStatus::Running
            || snapshot.status == HandStatus::Settling ==> {
            &&& snapshot.acting_seat_id matches Some(seat) ==> step_after(snapshot)
                == DemoStep::Act(seat)
            &&& snapshot.acting_seat_id is None ==> step_after(snapshot) == DemoStep::Wait
        },
{
    assert(crate::client::demo::offers(legal_actions, ActionType::Check) <==> exists|i: int|
        0 <= i < legal_actions.len() && (#[trigger] legal_actions[i]).action_type
            == ActionType::Check);
    assert(crate::client::demo::offers(legal_actions, ActionType::Call) <==> exists|i: int|
        0 <= i < legal_actions.len() && (#[trigger] legal_actions[i]).action_type
            == ActionType::Call);
}

} // verus!
