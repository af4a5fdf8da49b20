//! What the client makes of what it is told: settings, answers, notifications and cards.
use vstd::prelude::*;

use crate::agent_sdk::AgentSkillError;
use crate::auth::SignedRequestMeta;
use crate::chain_watcher::hex_quantity;
use crate::client::runtime::{
    call_failure, choice_names, found_documents, is_skill_error, is_text_to_sign, private_state, refusal, refused_count, texts,
    PayloadReading, RuntimeError,
};
use crate::client::seat::{
    cards_state, event_of, first_fault, is_complete, notation, seat_cards, shown_cards,
    subscription_name, text_lists, SeatVariables, FIRST_BACKOFF_MS, LAST_BACKOFF_MS,
};
use crate::client::wallet::{optional_quantity, reads_as, simple_digits, WalletAdapterError};
use crate::document::{
    member_text, member_unsigned, member_value, signed_value, text_value, unsigned_value,
};
use crate::document_laws::says;
use crate::domain::action::{ActionType, LegalAction};
use crate::domain::ids::{uuid_text, RoomId};
use crate::json::{canonical, json_text, JsonView, NumberView};
use crate::platform::{ErrorBody, ErrorCode};
use crate::rpc::PrivatePayloadEvent;
use crate::table::lookup;
use crate::text::{decimal, read_number, signed_decimal, trimmed, NumberError};

verus! {

/// A call that failed is told with its method and with the code, the message and the data of the
/// error; what the error leaves out stands as nothing, or as unknown.
pub proof fn failed_calls_tell_their_error(
    method: Seq<char>,
    error: JsonView,
    code: JsonView,
    message: Seq<char>,
    data: JsonView,
)
    requires
        member_value(error, "code"@) == Some(code) || (member_value(error, "code"@) is None && code
            is Null),
        member_text(error, "message"@) == Some(message) || (member_text(error, "message"@) is None
            && message == "unknown json-rpc error"@),
        member_value(error, "data"@) == Some(data) || (member_value(error, "data"@) is None && data
            is Null),
    ensures
        call_failure(method, error) == "jsonrpc "@ + method + " failed: code="@ + json_text(code)
            + " message="@ + message + " data="@ + json_text(data),
{
}

/// A refusal is told by its code and its message, and one without them as unknown.
pub proof fn refusals_tell_code_and_message(error: ErrorBody, unknown: Seq<char>)
    ensures
        refusal(Some(error), unknown) == error.code.spec_label() + ": "@ + error.message@,
        error.code == ErrorCode::Forbidden ==> refusal(Some(error), unknown) == "Forbidden"@
            + ": "@ + error.message@,
        refusal(None, unknown) == unknown,
{
}

/// What a seat knows of its own holds all its events in their order; without a key no cards and no
/// failures, with one the cards that could be decrypted and the count of those that could not.
pub proof fn seats_know_their_own(
    events: Seq<PrivatePayloadEvent>,
    readings: Seq<PayloadReading>,
    i: int,
)
    requires
        0 <= i < events.len(),
    ensures
        ({
            let known = private_state(events, true, readings);
            let unknown = private_state(events, false, readings);
            let refused = refused_count(events, readings, events.len());
            &&& known is Object && known->Object_0.len() == 3
            &&& unknown is Object && unknown->Object_0.len() == 3
            &&& known->Object_0[0].0 == "events"@
            &&& known->Object_0[0].1 is Array
            &&& known->Object_0[0].1->Array_0.len() == events.len()
            &&& known->Object_0[0].1->Array_0[i] == events[i].tree()
            &&& unknown->Object_0[0] == known->Object_0[0]
            &&& says(
                known,
                1,
                "decrypted_hole_cards"@,
                JsonView::Array(found_documents(events, readings, events.len())),
            )
            &&& says(unknown, 1, "decrypted_hole_cards"@, JsonView::Array(Seq::empty()))
            &&& refused <= 4_294_967_295 ==> says(
                known,
                2,
                "decrypt_failures"@,
                JsonView::Number(NumberView::Unsigned(refused as u64)),
            )
            &&& refused > 4_294_967_295 ==> says(
                known,
                2,
                "decrypt_failures"@,
                JsonView::Number(NumberView::Unsigned(4_294_967_295)),
            )
            &&& says(
                unknown,
                2,
                "decrypt_failures"@,
                JsonView::Number(NumberView::Unsigned(0)),
            )
        }),
{
}

/// Whether a setting says anything but white space.
pub open spec fn is_given(value: Option<String>) -> bool {
    value is Some && trimmed(value->0@).len() > 0
}

/// Whether a setting says a number, or nothing.
pub open spec fn is_number_or_left_out(value: Option<String>) -> bool {
    !is_given(value) || read_number(value->0@, 10, u64::MAX as int) is Ok
}

/// A seat can play exactly where the server, its own address, the address of the room and its key
/// are given, and the numbers that are given are numbers; the first of them that is wrong is
/// told by name.
pub proof fn seats_need_their_settings(vars: SeatVariables)
    ensures
        is_complete(vars) <==> {
            &&& is_given(vars.rpc_endpoint)
            &&& is_given(vars.seat_address)
            &&& is_given(vars.room_chain_address)
            &&& is_given(vars.card_encrypt_pubkey_hex)
            &&& is_number_or_left_out(vars.seat_id)
            &&& is_number_or_left_out(vars.tx_value)
        },
        vars.rpc_endpoint is None ==> first_fault(vars) == "missing required env: "@
            + "RPC_ENDPOINT"@,
        vars.rpc_endpoint is Some && !is_given(vars.rpc_endpoint) ==> first_fault(vars)
            == "required env "@ + "RPC_ENDPOINT"@ + " is empty"@,
        is_given(vars.rpc_endpoint) && !is_number_or_left_out(vars.seat_id) ==> first_fault(vars)
            == "invalid "@ + "SEAT_ID"@ + ": "@ + vars.seat_id->0@,
        is_given(vars.rpc_endpoint) && is_number_or_left_out(vars.seat_id) ==> {
            &&& vars.seat_address is None ==> first_fault(vars) == "missing required env: "@
                + "SEAT_ADDRESS"@
            &&& vars.seat_address is Some && !is_given(vars.seat_address) ==> first_fault(vars)
                == "required env "@ + "SEAT_ADDRESS"@ + " is empty"@
            &&& is_given(vars.seat_address) && vars.room_chain_address is None ==> first_fault(vars)
                == "missing required env: "@ + "ROOM_CHAIN_ADDRESS"@
            &&& is_given(vars.seat_address) && vars.room_chain_address is Some && !is_given(
                vars.room_chain_address,
            ) ==> first_fault(vars) == "required env "@ + "ROOM_CHAIN_ADDRESS"@ + " is empty"@
            &&& is_given(vars.seat_address) && is_given(vars.room_chain_address)
                && !is_number_or_left_out(vars.tx_value) ==> first_fault(vars) == "invalid "@
                + "TX_VALUE"@ + ": "@ + vars.tx_value->0@
            &&& is_given(vars.seat_address) && is_given(vars.room_chain_address)
                && is_number_or_left_out(vars.tx_value) && vars.card_encrypt_pubkey_hex is None
                ==> first_fault(vars) == "missing required env: "@ + "CARD_ENCRYPT_PUBKEY_HEX"@
            &&& is_given(vars.seat_address) && is_given(vars.room_chain_address)
                && is_number_or_left_out(vars.tx_value) && vars.card_encrypt_pubkey_hex is Some
                && !is_given(vars.card_encrypt_pubkey_hex) ==> first_fault(vars) == "required env "@
                + "CARD_ENCRYPT_PUBKEY_HEX"@ + " is empty"@
        },
{
}

/// A subscription is named by the text or the number that came back, or by the text under its
/// data or else under its identifier.
pub proof fn subscriptions_are_named(result: JsonView)
    ensures
        result matches JsonView::Text(text) ==> subscription_name(result) == Some(text),
        result matches JsonView::Number(NumberView::Unsigned(n)) ==> subscription_name(result)
            == Some(decimal(n as nat)),
        result matches JsonView::Number(NumberView::Negative(n)) ==> subscription_name(result)
            == Some(signed_decimal(n as int)),
        result matches JsonView::Object(members) ==> {
            &&& lookup(members, "data"@) matches Some(JsonView::Text(text)) ==> subscription_name(
                result,
            ) == Some(text)
            &&& !(lookup(members, "data"@) is Some && lookup(members, "data"@)->0 is Text) ==> (
            match lookup(members, "subscription_id"@) {
                Some(JsonView::Text(text)) => subscription_name(result) == Some(text),
                _ => subscription_name(result) is None,
            })
        },
        result is Null || result is Bool || result is Array ==> subscription_name(result) is None,
{
}

/// An event comes in a notification of events, as the result among its parameters.
pub proof fn events_come_in_notifications(value: JsonView, event: JsonView)
    ensures
        event_of(value) == Some(event) <==> {
            &&& member_value(value, "method"@) == Some(JsonView::Text("events"@))
            &&& member_value(value, "params"@) is Some
            &&& member_value(member_value(value, "params"@)->0, "result"@) == Some(event)
        },
{
}

/// Cards are shown where all of them are cards: for every seat in its order, each card by its
/// notation.
pub proof fn cards_are_shown_in_order(entries: Seq<JsonView>, i: int, cards: Seq<JsonView>, k: int)
    requires
        0 <= i < entries.len(),
        shown_cards(cards_state(entries)) is Some,
        member_value(entries[i], "cards"@) == Some(JsonView::Array(cards)),
        0 <= k < cards.len(),
    ensures
        ({
            let shown = shown_cards(cards_state(entries))->0;
            &&& shown.len() == entries.len()
            &&& shown[i].len() == cards.len()
            &&& unsigned_value(cards[k]) is Some
            &&& unsigned_value(cards[k])->0 < 52
            &&& Some(shown[i][k]) == notation(unsigned_value(cards[k])->0)
        }),
{
    let state = cards_state(entries);
    let members = state->Object_0;
    assert(members.last() == ("decrypted_hole_cards"@, JsonView::Array(entries)));
    assert(member_value(state, "decrypted_hole_cards"@) == Some(JsonView::Array(entries)));
    assert(seat_cards(entries[i]) is Some);
    assert(crate::client::seat::card_text(cards[k]) is Some);
}

/// The digits of an identifier are those of its text without the hyphens.
pub proof fn digits_leave_out_the_hyphens(id: u128, k: int)
    requires
        0 <= k < 32,
    ensures
        simple_digits(id).len() == 32,
        simple_digits(id)[k] == uuid_text(id)[if k < 8 {
            k
        } else if k < 12 {
            k + 1
        } else if k < 16 {
            k + 2
        } else if k < 20 {
            k + 3
        } else {
            k + 4
        }],
{
}

/// Choices are named in their order by their words.
pub proof fn choices_are_named(actions: Seq<LegalAction>, i: int)
    requires
        0 <= i < actions.len(),
    ensures
        choice_names(actions).len() == actions.len(),
        actions[i].action_type == ActionType::Fold ==> choice_names(actions)[i] == "fold"@,
        actions[i].action_type == ActionType::Check ==> choice_names(actions)[i] == "check"@,
        actions[i].action_type == ActionType::Call ==> choice_names(actions)[i] == "call"@,
        actions[i].action_type == ActionType::RaiseTo ==> choice_names(actions)[i] == "raiseto"@,
        actions[i].action_type == ActionType::AllIn ==> choice_names(actions)[i] == "allin"@,
{
}

/// Texts stay what they are, in their order.
pub proof fn texts_stay_in_order(values: Seq<String>, i: int)
    requires
        0 <= i < values.len(),
    ensures
        texts(values).len() == values.len(),
        texts(values)[i] == values[i]@,
{
}

/// A number of a document is the number that stands there, with its sign; nothing else is one.
pub proof fn documents_hold_numbers(value: JsonView, key: Seq<char>)
    ensures
        value matches JsonView::Number(NumberView::Unsigned(n)) ==> {
            &&& unsigned_value(value) == Some(n)
            &&& n <= 9_223_372_036_854_775_807 ==> signed_value(value) is Some && signed_value(
                value,
            )->0 == n
            &&& n > 9_223_372_036_854_775_807 ==> signed_value(value) is None
        },
        value matches JsonView::Number(NumberView::Negative(n)) ==> signed_value(value) == Some(n)
            && unsigned_value(value) is None,
        !(value is Number) ==> signed_value(value) is None && unsigned_value(value) is None,
        value matches JsonView::Text(text) ==> text_value(value) == Some(text),
        !(value is Text) ==> text_value(value) is None,
        value matches JsonView::Object(members) ==> member_value(value, key) == lookup(members, key),
        !(value is Object) ==> member_value(value, key) is None,
        member_value(value, key) is None ==> member_text(value, key) is None && member_unsigned(
            value,
            key,
        ) is None,
        member_value(value, key) matches Some(inner) ==> member_text(value, key) == text_value(
            inner,
        ) && member_unsigned(value, key) == unsigned_value(inner),
{
}

/// A quantity that is left out is none; another is what its digits say, or an error of reading.
pub proof fn quantities_may_be_left_out(text: String, read: Result<u64, WalletAdapterError>)
    ensures
        optional_quantity(None) == Ok::<Option<int>, NumberError>(None),
        hex_quantity(text@, u64::MAX as int) matches Ok(n) ==> optional_quantity(Some(text)) == Ok::<
            Option<int>,
            NumberError,
        >(Some(n)),
        hex_quantity(text@, u64::MAX as int) matches Err(fault) ==> optional_quantity(Some(text))
            == Err::<Option<int>, NumberError>(fault),
        reads_as(hex_quantity(text@, u64::MAX as int), read) ==> {
            &&& read is Ok <==> hex_quantity(text@, u64::MAX as int) is Ok
            &&& read is Ok ==> read->Ok_0 == hex_quantity(text@, u64::MAX as int)->Ok_0
            &&& read is Err ==> read->Err_0 is Parse
        },
{
}

/// Lists of texts stay what they are, in their order.
pub proof fn lists_stay_in_order(values: Seq<Vec<String>>, i: int, k: int)
    requires
        0 <= i < values.len(),
        0 <= k < values[i]@.len(),
    ensures
        text_lists(values).len() == values.len(),
        text_lists(values)[i].len() == values[i]@.len(),
        text_lists(values)[i][k] == values[i]@[k]@,
{
}

/// A seat that has no place and an action that was tried before are errors of the agent, told in
/// their words.
pub proof fn agents_tell_their_errors<T>(made: Result<T, RuntimeError>)
    ensures
        is_skill_error(made, AgentSkillError::MissingSeatContext) <==> made is Err
            && made->Err_0 is AgentSkill && made->Err_0->AgentSkill_0@ == "seat context missing"@,
        is_skill_error(made, AgentSkillError::DuplicateActionAttempt) <==> made is Err
            && made->Err_0 is AgentSkill && made->Err_0->AgentSkill_0@
            == "duplicate action attempt detected"@,
{
}

/// What a seat signs of a request names the method, the room and the parameters, but no hand and
/// no action.
pub proof fn seats_sign_their_requests(
    text: Seq<char>,
    method: Seq<char>,
    room_id: RoomId,
    params: JsonView,
    meta: SignedRequestMeta,
)
    requires
        is_text_to_sign(text, method, room_id, params, meta),
    ensures
        text == "method="@ + method + "|session_id="@ + uuid_text(0) + "|room_id="@ + uuid_text(
            room_id.0,
        ) + "|hand_id="@ + Seq::empty() + "|action_seq="@ + Seq::empty() + "|params="@ + json_text(
            canonical(params),
        ) + "|request_id="@ + uuid_text(meta.request_id.0) + "|request_nonce="@
            + meta.request_nonce@ + "|request_ts="@ + meta.request_ts.text()
            + "|request_expiry_ms="@ + signed_decimal(meta.request_expiry_ms as int),
{
}

/// A client that lost its connection waits for half a second at first and for ten seconds at most.
pub proof fn waits_have_their_limits()
    ensures
        FIRST_BACKOFF_MS == 500,
        LAST_BACKOFF_MS == 10_000,
{
}

} // verus!
