//! A client that plays one seat until it is stopped.
use std::collections::HashSet;

use vstd::prelude::*;
use vstd::string::StringExecFns;

use crate::client::policy::{
    latest, rule_choice, DecisionContextEntry, DecisionContextManager, PolicyAdapter,
    PolicyAdapterError, PolicyDecision, PolicySource, RulePolicyAdapter,
};
use crate::client::runtime::{
    found_documents, refusal, refusal_text, texts, PayloadReading, RuntimeError,
    SingleActionRunnerConfig, SingleActionRunOutcome, TurnDecisionInput,
};
use crate::document::{
    member_text, member_unsigned, member_value, signed_value, text_value, unsigned_value,
};
use crate::domain::game::{HandSnapshot, HandStatus};
use crate::domain::ids::{parse_id, parsed_uuid, HandId, RoomId};
use crate::domain::money::Chips;
use crate::evm::{bytes_of_hex, hex_decode, is_hex};
use crate::json::{items_view, json_text, lemma_array_view, Json, JsonView};
use crate::platform::ResponseEnvelope;
use crate::rpc::{PrivatePayloadEvent, RoomSummary};
use crate::text::{
    begins_with, chars_of, copy_optional_text, decimal, decimal_text, digit_char, lower, lowered,
    owned, parse_number, part, read_number, same_text, signed_decimal, signed_decimal_text,
    starts_with, text_of, trim, trimmed, white_space,
};

verus! {

// What the environment says.

/// Whether a variable says anything.
pub open spec fn is_said(value: Option<String>) -> bool {
    value is Some && trimmed(value->0@).len() > 0
}

fn has_text(text: &str) -> (has: bool)
    ensures
        has == (trimmed(text@).len() > 0),
{
    trim(&chars_of(text)).len() > 0
}

/// A variable that has to say something.
pub fn env_required(name: &str, value: Option<String>) -> (said: Result<String, String>)
    ensures
        match value {
            None => said is Err && said->Err_0@ == "missing required env: "@ + name@,
            Some(text) => if trimmed(text@).len() == 0 {
                said is Err && said->Err_0@ == "required env "@ + name@ + " is empty"@
            } else {
                said == Ok::<String, String>(text)
            },
        },
{
    match value {
        None => {
            let mut fault = String::from_str("missing required env: ");
            fault.append(name);
            Err(fault)
        },
        Some(text) => if has_text(text.as_str()) {
            Ok(text)
        } else {
            let mut fault = String::from_str("required env ");
            fault.append(name);
            fault.append(" is empty");
            Err(fault)
        },
    }
}

/// A variable that may say something.
pub fn env_optional(value: Option<String>) -> (said: Option<String>)
    ensures
        said == (if is_said(value) {
            value
        } else {
            None
        }),
{
    match value {
        None => None,
        Some(text) => if has_text(text.as_str()) {
            Some(text)
        } else {
            None
        },
    }
}

/// The number that a variable gives, or else the default.
pub open spec fn number_said(value: Option<String>, default: u64) -> Option<u64> {
    if is_said(value) {
        match read_number(value->0@, 10, u64::MAX as int) {
            Ok(n) => Some(n as u64),
            Err(_) => None,
        }
    } else {
        Some(default)
    }
}

/// What is told of a variable that cannot be read.
pub open spec fn unreadable(name: Seq<char>, value: Seq<char>) -> Seq<char> {
    "invalid "@ + name + ": "@ + value
}

fn unreadable_text(name: &str, value: &str) -> (text: String)
    ensures
        text@ == unreadable(name@, value@),
{
    let mut fault = String::from_str("invalid ");
    fault.append(name);
    fault.append(": ");
    fault.append(value);
    fault
}

/// The number that a variable gives, or else the default.
pub fn env_parse_u64(name: &str, value: Option<String>, default: u64) -> (number: Result<u64, String>)
    ensures
        match number_said(value, default) {
            Some(n) => number == Ok::<u64, String>(n),
            None => number is Err && number->Err_0@ == unreadable(name@, value->0@),
        },
{
    match env_optional(value) {
        None => Ok(default),
        Some(text) => match parse_number(&chars_of(text.as_str()), 10, u64::MAX as u128) {
            Ok(n) => Ok(n as u64),
            Err(_) => Err(unreadable_text(name, text.as_str())),
        },
    }
}

/// The room that a variable names, where it says anything.
pub fn env_parse_room_id_optional(name: &str, value: Option<String>) -> (room_id: Result<
    Option<RoomId>,
    String,
>)
    ensures
        !is_said(value) ==> room_id == Ok::<Option<RoomId>, String>(None),
        is_said(value) ==> match parsed_uuid(value->0@) {
            Ok(id) => room_id == Ok::<Option<RoomId>, String>(Some(RoomId(id))),
            Err(_) => room_id is Err && room_id->Err_0@ == unreadable(name@, value->0@),
        },
{
    match env_optional(value) {
        None => Ok(None),
        Some(text) => match parse_id(text.as_str()) {
            Ok(id) => Ok(Some(RoomId(id))),
            Err(_) => Err(unreadable_text(name, text.as_str())),
        },
    }
}

/// The variables that configure the seat.
#[derive(Debug, PartialEq, Eq)]
pub struct SeatVariables {
    pub rpc_endpoint: Option<String>,
    pub seat_id: Option<String>,
    pub seat_address: Option<String>,
    pub room_chain_address: Option<String>,
    pub tx_value: Option<String>,
    pub card_encrypt_pubkey_hex: Option<String>,
    pub card_encrypt_secret_hex: Option<String>,
}

/// Whether the variables configure a seat.
pub open spec fn is_complete(vars: SeatVariables) -> bool {
    &&& is_said(vars.rpc_endpoint)
    &&& number_said(vars.seat_id, 0) is Some
    &&& is_said(vars.seat_address)
    &&& is_said(vars.room_chain_address)
    &&& number_said(vars.tx_value, 1) is Some
    &&& is_said(vars.card_encrypt_pubkey_hex)
}

/// What is told of a variable that has to say something and does not.
pub open spec fn missing(name: Seq<char>, value: Option<String>) -> Seq<char> {
    if value is None {
        "missing required env: "@ + name
    } else {
        "required env "@ + name + " is empty"@
    }
}

/// What is told of the first variable that is wrong.
pub open spec fn first_fault(vars: SeatVariables) -> Seq<char> {
    if !is_said(vars.rpc_endpoint) {
        missing("RPC_ENDPOINT"@, vars.rpc_endpoint)
    } else if number_said(vars.seat_id, 0) is None {
        unreadable("SEAT_ID"@, vars.seat_id->0@)
    } else if !is_said(vars.seat_address) {
        missing("SEAT_ADDRESS"@, vars.seat_address)
    } else if !is_said(vars.room_chain_address) {
        missing("ROOM_CHAIN_ADDRESS"@, vars.room_chain_address)
    } else if number_said(vars.tx_value, 1) is None {
        unreadable("TX_VALUE"@, vars.tx_value->0@)
    } else {
        missing("CARD_ENCRYPT_PUBKEY_HEX"@, vars.card_encrypt_pubkey_hex)
    }
}

/// Where the client plays, from the variables; of the number of the seat the lowest eight bits
/// count.
pub fn build_config(chain_id: u64, room_id: RoomId, vars: SeatVariables) -> (cfg: Result<
    SingleActionRunnerConfig,
    String,
>)
    ensures
        cfg is Ok <==> is_complete(vars),
        cfg is Err ==> cfg->Err_0@ == first_fault(vars),
        cfg is Ok ==> cfg->Ok_0 == (SingleActionRunnerConfig {
            rpc_endpoint: vars.rpc_endpoint->0,
            room_id: room_id,
            seat_id: (number_said(vars.seat_id, 0)->0 % 256) as u8,
            seat_address: vars.seat_address->0,
            room_chain_address: vars.room_chain_address->0,
            chain_id: chain_id,
            tx_value: Chips(number_said(vars.tx_value, 1)->0 as u128),
            card_encrypt_pubkey_hex: vars.card_encrypt_pubkey_hex->0,
            card_encrypt_secret_hex: if is_said(vars.card_encrypt_secret_hex) {
                vars.card_encrypt_secret_hex
            } else {
                None
            },
        }),
{
    let rpc_endpoint = match env_required("RPC_ENDPOINT", vars.rpc_endpoint) {
        Ok(text) => text,
        Err(fault) => {
            return Err(fault);
        },
    };
    let seat_id: u64 = match env_parse_u64("SEAT_ID", vars.seat_id, 0) {
        Ok(n) => n,
        Err(fault) => {
            return Err(fault);
        },
    };
    let seat_address = match env_required("SEAT_ADDRESS", vars.seat_address) {
        Ok(text) => text,
        Err(fault) => {
            return Err(fault);
        },
    };
    let room_chain_address = match env_required("ROOM_CHAIN_ADDRESS", vars.room_chain_address) {
        Ok(text) => text,
        Err(fault) => {
            return Err(fault);
        },
    };
    let tx_value: u64 = match env_parse_u64("TX_VALUE", vars.tx_value, 1) {
        Ok(n) => n,
        Err(fault) => {
            return Err(fault);
        },
    };
    let card_encrypt_pubkey_hex = match env_required(
        "CARD_ENCRYPT_PUBKEY_HEX",
        vars.card_encrypt_pubkey_hex,
    ) {
        Ok(text) => text,
        Err(fault) => {
            return Err(fault);
        },
    };
    Ok(
        SingleActionRunnerConfig {
            rpc_endpoint: rpc_endpoint,
            room_id: room_id,
            seat_id: (seat_id % 256) as u8,
            seat_address: seat_address,
            room_chain_address: room_chain_address,
            chain_id: chain_id,
            tx_value: Chips(tx_value as u128),
            card_encrypt_pubkey_hex: card_encrypt_pubkey_hex,
            card_encrypt_secret_hex: env_optional(vars.card_encrypt_secret_hex),
        },
    )
}

#[derive(Debug, Clone, Copy, PartialEq, Eq, Structural)]
pub enum PolicyMode {
    Rule,
    CodexCli,
}

/// Who decides: the rule, unless the variable names the tool.
pub fn parse_policy_mode(value: Option<String>) -> (mode: PolicyMode)
    ensures
        mode == (if is_said(value) && lowered(value->0@) == "codex_cli"@ {
            PolicyMode::CodexCli
        } else {
            PolicyMode::Rule
        }),
{
    match env_optional(value) {
        None => PolicyMode::Rule,
        Some(text) => if same_text(
            text_of(&lower(&chars_of(text.as_str()))).as_str(),
            "codex_cli",
        ) {
            PolicyMode::CodexCli
        } else {
            PolicyMode::Rule
        },
    }
}

/// The words of a text that ended, and the one that has not.
pub open spec fn split_words(text: Seq<char>) -> (Seq<Seq<char>>, Seq<char>)
    decreases text.len(),
{
    if text.len() == 0 {
        (Seq::empty(), Seq::empty())
    } else {
        let (done, open) = split_words(text.drop_last());
        if !white_space(text.last()) {
            (done, open.push(text.last()))
        } else if open.len() > 0 {
            (done.push(open), Seq::empty())
        } else {
            (done, open)
        }
    }
}

/// The words of a text, with white space between them.
pub open spec fn words(text: Seq<char>) -> Seq<Seq<char>> {
    let (done, open) = split_words(text);
    if open.len() > 0 {
        done.push(open)
    } else {
        done
    }
}

fn is_space(c: char) -> (is: bool)
    ensures
        is == white_space(c),
{
    let mut one: Vec<char> = Vec::new();
    one.push(c);
    let rest = trim(&one);
    proof {
        reveal_with_fuel(crate::text::trimmed_start, 2);
        reveal_with_fuel(crate::text::trimmed_end, 2);
        assert(one@ =~= seq![c]);
        assert(one@.skip(1) =~= Seq::<char>::empty());
        assert(one@.drop_last() =~= Seq::<char>::empty());
    }
    rest.len() == 0
}

fn words_of(text: &str) -> (found: Vec<String>)
    ensures
        texts(found@) == words(text@),
{
    let chars = chars_of(text);
    let ghost all = text@;
    let mut found: Vec<String> = Vec::new();
    let mut open: Vec<char> = Vec::new();
    let mut i: usize = 0;
    assert(texts(found@) =~= split_words(all.take(0)).0);
    assert(open@ =~= split_words(all.take(0)).1);
    while i < chars.len()
        invariant
            i <= chars.len(),
            chars@ == all,
            texts(found@) == split_words(all.take(i as int)).0,
            open@ == split_words(all.take(i as int)).1,
        decreases chars.len() - i,
    {
        assert(all.take(i + 1).drop_last() =~= all.take(i as int));
        let ghost before = found@;
        if !is_space(chars[i]) {
            open.push(chars[i]);
        } else if open.len() > 0 {
            let word = text_of(&open);
            found.push(word);
            assert(texts(found@) =~= texts(before).push(word@));
            open = Vec::new();
            assert(open@ =~= Seq::<char>::empty());
        }
        i = i + 1;
    }
    assert(all.take(i as int) =~= all);
    if open.len() > 0 {
        let ghost before = found@;
        let word = text_of(&open);
        found.push(word);
        assert(texts(found@) =~= texts(before).push(word@));
    }
    found
}

/// Words are not empty and hold no white space.
pub proof fn words_are_solid(text: Seq<char>, i: int, k: int)
    requires
        0 <= i < words(text).len(),
    ensures
        words(text)[i].len() > 0,
        0 <= k < words(text)[i].len() ==> !white_space(words(text)[i][k]),
{
    lemma_split_words(text);
}

proof fn lemma_split_words(text: Seq<char>)
    ensures
        forall|i: int|
            0 <= i < split_words(text).0.len() ==> (#[trigger] split_words(text).0[i]).len() > 0,
        forall|i: int, k: int|
            0 <= i < split_words(text).0.len() && 0 <= k < split_words(text).0[i].len()
                ==> !white_space(#[trigger] split_words(text).0[i][k]),
        forall|k: int|
            0 <= k < split_words(text).1.len() ==> !white_space(#[trigger] split_words(text).1[k]),
    decreases text.len(),
{
    if text.len() > 0 {
        lemma_split_words(text.drop_last());
        let done = split_words(text.drop_last()).0;
        let open = split_words(text.drop_last()).1;
        let now = split_words(text).0;
        assert forall|i: int| 0 <= i < now.len() implies (#[trigger] now[i]).len() > 0 by {
            if i < done.len() {
                assert(now[i] == done[i]);
            }
        }
        assert forall|i: int, k: int| 0 <= i < now.len() && 0 <= k < now[i].len() implies !white_space(
            #[trigger] now[i][k],
        ) by {
            if i < done.len() {
                assert(now[i] == done[i]);
                assert(!white_space(done[i][k]));
            } else {
                assert(now[i] == open);
                assert(!white_space(open[k]));
            }
        }
        assert forall|k: int| 0 <= k < split_words(text).1.len() implies !white_space(
            #[trigger] split_words(text).1[k],
        ) by {
            if k < open.len() {
                assert(!white_space(open[k]));
            }
        }
    }
}

/// The arguments of the tool that decides.
pub fn parse_codex_cli_args(value: Option<String>) -> (args: Vec<String>)
    ensures
        texts(args@) == (if is_said(value) {
            words(value->0@)
        } else {
            Seq::empty()
        }),
{
    match env_optional(value) {
        None => {
            let none: Vec<String> = Vec::new();
            assert(texts(none@) =~= Seq::<Seq<char>>::empty());
            none
        },
        Some(text) => words_of(text.as_str()),
    }
}

/// The address for events that belongs to an address for calls.
pub open spec fn events_address(address: Seq<char>) -> Seq<char> {
    if begins_with(address, "http://"@) {
        "ws://"@ + address.skip(7)
    } else if begins_with(address, "https://"@) {
        "wss://"@ + address.skip(8)
    } else {
        address
    }
}

/// The address for events that belongs to an address for calls.
pub fn derive_ws_endpoint(http_endpoint: &str) -> (endpoint: String)
    ensures
        endpoint@ == events_address(http_endpoint@),
{
    let chars = chars_of(http_endpoint);
    proof {
        reveal_strlit("http://");
        reveal_strlit("https://");
    }
    if starts_with(&chars, &chars_of("http://")) {
        let rest = part(&chars, 7, chars.len());
        assert(rest@ =~= chars@.skip(7));
        return owned("ws://").concat(text_of(&rest).as_str());
    }
    if starts_with(&chars, &chars_of("https://")) {
        let rest = part(&chars, 8, chars.len());
        assert(rest@ =~= chars@.skip(8));
        return owned("wss://").concat(text_of(&rest).as_str());
    }
    owned(http_endpoint)
}

// How cards and amounts are shown.

/// The sign of a value of cards.
pub open spec fn value_sign(value: int) -> char {
    if value < 8 {
        digit_char(value + 2)
    } else if value == 8 {
        'T'
    } else if value == 9 {
        'J'
    } else if value == 10 {
        'Q'
    } else if value == 11 {
        'K'
    } else {
        'A'
    }
}

/// The sign of a suit.
pub open spec fn suit_sign(suit: int) -> char {
    if suit == 0 {
        's'
    } else if suit == 1 {
        'c'
    } else if suit == 2 {
        'h'
    } else {
        'd'
    }
}

/// How a card is shown.
pub open spec fn notation(index: u64) -> Option<Seq<char>> {
    if index < 52 {
        Some(seq![value_sign(index as int % 13), suit_sign(index as int / 13)])
    } else {
        None
    }
}

/// How a card is shown.
pub fn card_index_to_notation(index: u64) -> (shown: Option<String>)
    ensures
        shown is Some <==> notation(index) is Some,
        shown is Some ==> shown->0@ == notation(index)->0,
{
    if index >= 52 {
        return None;
    }
    let value: u64 = index % 13;
    let value_char: char = if value == 0 {
        '2'
    } else if value == 1 {
        '3'
    } else if value == 2 {
        '4'
    } else if value == 3 {
        '5'
    } else if value == 4 {
        '6'
    } else if value == 5 {
        '7'
    } else if value == 6 {
        '8'
    } else if value == 7 {
        '9'
    } else if value == 8 {
        'T'
    } else if value == 9 {
        'J'
    } else if value == 10 {
        'Q'
    } else if value == 11 {
        'K'
    } else {
        'A'
    };
    let suit: u64 = index / 13;
    let suit_char: char = if suit == 0 {
        's'
    } else if suit == 1 {
        'c'
    } else if suit == 2 {
        'h'
    } else {
        'd'
    };
    let mut chars: Vec<char> = Vec::new();
    chars.push(value_char);
    chars.push(suit_char);
    assert(chars@ =~= notation(index)->0);
    Some(text_of(&chars))
}

/// Different cards are shown differently.
pub proof fn cards_are_told_apart(a: u64, b: u64)
    requires
        a < 52,
        b < 52,
        notation(a) == notation(b),
    ensures
        a == b,
{
    let first = notation(a)->0;
    let second = notation(b)->0;
    assert(first[0] == second[0] && first[1] == second[1]);
    assert(a as int % 13 == b as int % 13);
    assert(a as int / 13 == b as int / 13);
}

/// How the card in a document is shown.
pub open spec fn card_text(card: JsonView) -> Option<Seq<char>> {
    match unsigned_value(card) {
        Some(index) => notation(index),
        None => None,
    }
}

/// How the cards of a seat are shown: all of them or none.
pub open spec fn seat_cards(entry: JsonView) -> Option<Seq<Seq<char>>> {
    match member_value(entry, "cards"@) {
        Some(JsonView::Array(cards)) => if forall|i: int|
            0 <= i < cards.len() ==> card_text(#[trigger] cards[i]) is Some {
            Some(cards.map_values(|card: JsonView| card_text(card)->0))
        } else {
            None
        },
        _ => None,
    }
}

/// How all cards that a seat knows are shown: all of them or none.
pub open spec fn shown_cards(state: JsonView) -> Option<Seq<Seq<Seq<char>>>> {
    match member_value(state, "decrypted_hole_cards"@) {
        Some(JsonView::Array(entries)) => if forall|i: int|
            0 <= i < entries.len() ==> seat_cards(#[trigger] entries[i]) is Some {
            Some(entries.map_values(|entry: JsonView| seat_cards(entry)->0))
        } else {
            None
        },
        _ => None,
    }
}

fn show_seat_cards(entry: &Json) -> (shown: Option<Vec<String>>)
    ensures
        shown is Some <==> seat_cards(entry@) is Some,
        shown is Some ==> texts(shown->0@) == seat_cards(entry@)->0,
{
    let cards = match entry.get("cards") {
        Some(cards) => cards,
        None => {
            return None;
        },
    };
    let items = match cards.as_array() {
        Some(items) => items,
        None => {
            return None;
        },
    };
    let ghost all = items_view(items@);
    let ghost told = |card: JsonView| card_text(card)->0;
    assert(member_value(entry@, "cards"@) == Some(JsonView::Array(all)));
    let mut shown: Vec<String> = Vec::new();
    let mut i: usize = 0;
    while i < items.len()
        invariant
            i <= items.len(),
            all == items_view(items@),
            member_value(entry@, "cards"@) == Some(JsonView::Array(all)),
            shown@.len() == i,
            forall|k: int|
                0 <= k < i ==> card_text(#[trigger] all[k]) is Some && shown@[k]@ == card_text(
                    all[k],
                )->0,
        decreases items.len() - i,
    {
        assert(all[i as int] == items@[i as int]@);
        let index = match items[i].as_u64() {
            Some(index) => index,
            None => {
                assert(card_text(all[i as int]) is None);
                return None;
            },
        };
        match card_index_to_notation(index) {
            Some(text) => {
                shown.push(text);
            },
            None => {
                assert(card_text(all[i as int]) is None);
                return None;
            },
        }
        i = i + 1;
    }
    assert(texts(shown@) =~= all.map_values(told));
    Some(shown)
}

/// The cards as mathematical values.
pub open spec fn text_lists(values: Seq<Vec<String>>) -> Seq<Seq<Seq<char>>> {
    values.map_values(|value: Vec<String>| texts(value@))
}

/// How all cards that a seat knows are shown.
pub fn pretty_hole_cards(private_state: &Json) -> (shown: Option<Vec<Vec<String>>>)
    ensures
        shown is Some <==> shown_cards(private_state@) is Some,
        shown is Some ==> text_lists(shown->0@) == shown_cards(private_state@)->0,
{
    let entries = match private_state.get("decrypted_hole_cards") {
        Some(entries) => entries,
        None => {
            return None;
        },
    };
    let items = match entries.as_array() {
        Some(items) => items,
        None => {
            return None;
        },
    };
    let ghost all = items_view(items@);
    let ghost told = |entry: JsonView| seat_cards(entry)->0;
    assert(member_value(private_state@, "decrypted_hole_cards"@) == Some(JsonView::Array(all)));
    let mut shown: Vec<Vec<String>> = Vec::new();
    let mut i: usize = 0;
    while i < items.len()
        invariant
            i <= items.len(),
            all == items_view(items@),
            member_value(private_state@, "decrypted_hole_cards"@) == Some(JsonView::Array(all)),
            shown@.len() == i,
            forall|k: int|
                0 <= k < i ==> seat_cards(#[trigger] all[k]) is Some && texts(shown@[k]@)
                    == seat_cards(all[k])->0,
        decreases items.len() - i,
    {
        assert(all[i as int] == items@[i as int]@);
        match show_seat_cards(&items[i]) {
            Some(cards) => {
                shown.push(cards);
            },
            None => {
                assert(seat_cards(all[i as int]) is None);
                return None;
            },
        }
        i = i + 1;
    }
    assert(text_lists(shown@) =~= all.map_values(told));
    Some(shown)
}

/// The last `count` decimal digits of a number.
pub open spec fn fixed_digits(n: nat, count: nat) -> Seq<char>
    decreases count,
{
    if count == 0 {
        Seq::empty()
    } else {
        fixed_digits(n / 10, (count - 1) as nat).push(digit_char((n % 10) as int))
    }
}

/// The text without the zeros at its end.
pub open spec fn without_zeros(text: Seq<char>) -> Seq<char>
    decreases text.len(),
{
    if text.len() > 0 && text.last() == '0' {
        without_zeros(text.drop_last())
    } else {
        text
    }
}

/// How many units of the chain make one coin.
pub const WEI_PER_ETH: u128 = 1_000_000_000_000_000_000;

/// How an amount is shown, in coins.
pub open spec fn coins(wei: nat) -> Seq<char> {
    let whole = wei / (WEI_PER_ETH as nat);
    let rest = wei % (WEI_PER_ETH as nat);
    if rest == 0 {
        decimal(whole) + ".0 ETH"@
    } else {
        decimal(whole) + "."@ + without_zeros(fixed_digits(rest, 18)) + " ETH"@
    }
}

fn digits_of(n: u128, count: u8) -> (digits: Vec<char>)
    ensures
        digits@ == fixed_digits(n as nat, count as nat),
    decreases count,
{
    if count == 0 {
        Vec::new()
    } else {
        let mut digits = digits_of(n / 10, count - 1);
        let last: u128 = n % 10;
        let c: char = if last == 0 {
            '0'
        } else if last == 1 {
            '1'
        } else if last == 2 {
            '2'
        } else if last == 3 {
            '3'
        } else if last == 4 {
            '4'
        } else if last == 5 {
            '5'
        } else if last == 6 {
            '6'
        } else if last == 7 {
            '7'
        } else if last == 8 {
            '8'
        } else {
            '9'
        };
        digits.push(c);
        digits
    }
}

/// How an amount is shown, in coins.
pub fn format_wei_as_eth(wei: u128) -> (shown: String)
    ensures
        shown@ == coins(wei as nat),
{
    let whole: u128 = wei / WEI_PER_ETH;
    let rest: u128 = wei % WEI_PER_ETH;
    let mut shown = decimal_text(whole);
    if rest == 0 {
        shown.append(".0 ETH");
        return shown;
    }
    let mut digits = digits_of(rest, 18);
    while digits.len() > 0 && digits[digits.len() - 1] == '0'
        invariant
            without_zeros(digits@) == without_zeros(fixed_digits(rest as nat, 18)),
        decreases digits.len(),
    {
        let ghost before = digits@;
        let _ = digits.pop();
        assert(digits@ =~= before.drop_last());
    }
    shown.append(".");
    shown.append(text_of(&digits).as_str());
    shown.append(" ETH");
    shown
}

// What the server answers.

/// The number in a member of a payload, written as a number or as a text.
pub open spec fn payload_number(payload: JsonView, key: Seq<char>) -> Option<u64> {
    match member_value(payload, key) {
        None => None,
        Some(value) => match unsigned_value(value) {
            Some(n) => Some(n),
            None => match text_value(value) {
                None => None,
                Some(text) => match read_number(text, 10, u64::MAX as int) {
                    Ok(n) => Some(n as u64),
                    Err(_) => None,
                },
            },
        },
    }
}

/// The number in a member of a payload, written as a number or as a text.
pub fn payload_u64(payload: &Json, key: &str) -> (number: Option<u64>)
    ensures
        number == payload_number(payload@, key@),
{
    let value = match payload.get(key) {
        Some(value) => value,
        None => {
            return None;
        },
    };
    match value.as_u64() {
        Some(n) => Some(n),
        None => match value.as_str() {
            None => None,
            Some(text) => match parse_number(&chars_of(text), 10, u64::MAX as u128) {
                Ok(n) => Some(n as u64),
                Err(_) => None,
            },
        },
    }
}

/// The result in the answer to a call; an error in the answer counts first.
pub fn http_rpc_call_result<'a>(method: &str, payload: &'a Json) -> (result: Result<&'a Json, String>)
    ensures
        match (member_value(payload@, "error"@), member_value(payload@, "result"@)) {
            (Some(error), _) => result is Err && result->Err_0@ == "json-rpc "@ + method@
                + " returned error: "@ + json_text(error),
            (None, None) => result is Err && result->Err_0@ == "json-rpc "@ + method@
                + " missing result"@,
            (None, Some(value)) => result is Ok && result->Ok_0@ == value,
        },
{
    match payload.get("error") {
        Some(error) => {
            let mut text = String::from_str("json-rpc ");
            text.append(method);
            text.append(" returned error: ");
            text.append(error.to_text().as_str());
            Err(text)
        },
        None => match payload.get("result") {
            Some(result) => Ok(result),
            None => {
                let mut text = String::from_str("json-rpc ");
                text.append(method);
                text.append(" missing result");
                Err(text)
            },
        },
    }
}

/// What the server hands out, unless it refuses or hands out nothing.
pub fn envelope_data<T>(env: ResponseEnvelope<T>, method: &str) -> (data: Result<T, String>)
    ensures
        !env.ok ==> data is Err && data->Err_0@ == method@ + " failed: "@ + refusal(
            env.error,
            "unknown app error"@,
        ),
        env.ok && env.data is None ==> data is Err && data->Err_0@ == method@
            + " missing data payload"@,
        env.ok && env.data is Some ==> data == Ok::<T, String>(env.data->0),
{
    if !env.ok {
        let mut text = owned(method);
        text.append(" failed: ");
        text.append(refusal_text(&env.error, "unknown app error").as_str());
        return Err(text);
    }
    match env.data {
        Some(data) => Ok(data),
        None => {
            let mut text = owned(method);
            text.append(" missing data payload");
            Err(text)
        },
    }
}

/// Whether a room is active.
pub open spec fn is_active(room: RoomSummary) -> bool {
    lowered(room.status@) == "active"@
}

/// The first active room.
pub open spec fn first_active(rooms: Seq<RoomSummary>) -> Option<RoomId>
    decreases rooms.len(),
{
    if rooms.len() == 0 {
        None
    } else if is_active(rooms[0]) {
        Some(rooms[0].room_id)
    } else {
        first_active(rooms.skip(1))
    }
}

/// The room to play in: the first active one, or else the first.
pub open spec fn selected_room(rooms: Seq<RoomSummary>) -> Option<RoomId> {
    if rooms.len() == 0 {
        None
    } else if first_active(rooms) is Some {
        first_active(rooms)
    } else {
        Some(rooms[0].room_id)
    }
}

fn select_room(rooms: &Vec<RoomSummary>) -> (room_id: Option<RoomId>)
    ensures
        room_id == selected_room(rooms@),
{
    if rooms.len() == 0 {
        return None;
    }
    let mut i: usize = 0;
    assert(rooms@.skip(0) =~= rooms@);
    while i < rooms.len()
        invariant
            i <= rooms.len(),
            rooms.len() > 0,
            first_active(rooms@) == first_active(rooms@.skip(i as int)),
        decreases rooms.len() - i,
    {
        assert(rooms@.skip(i as int)[0] == rooms@[i as int]);
        assert(rooms@.skip(i as int).skip(1) =~= rooms@.skip(i + 1));
        let status = text_of(&lower(&chars_of(rooms[i].status.as_str())));
        if same_text(status.as_str(), "active") {
            return Some(rooms[i].room_id);
        }
        i = i + 1;
    }
    Some(rooms[0].room_id)
}

/// The room to play in: the one that the environment names, or one that the server has.
pub fn resolve_room_id(
    room_id_from_env: Option<RoomId>,
    list: ResponseEnvelope<Vec<RoomSummary>>,
) -> (room_id: Result<RoomId, String>)
    ensures
        room_id_from_env is Some ==> room_id == Ok::<RoomId, String>(room_id_from_env->0),
        room_id_from_env is None && !list.ok ==> room_id is Err && room_id->Err_0@
            == "room.list failed: "@ + refusal(list.error, "unknown app error"@),
        room_id_from_env is None && list.ok ==> match (match list.data {
            Some(rooms) => selected_room(rooms@),
            None => None,
        }) {
            Some(id) => room_id == Ok::<RoomId, String>(id),
            None => room_id is Err && room_id->Err_0@
                == "room.list returned no rooms; provide ROOM_ID or create a room first"@,
        },
{
    match room_id_from_env {
        Some(id) => {
            return Ok(id);
        },
        None => {},
    }
    if !list.ok {
        let mut text = String::from_str("room.list failed: ");
        text.append(refusal_text(&list.error, "unknown app error").as_str());
        return Err(text);
    }
    let found = match &list.data {
        Some(rooms) => select_room(rooms),
        None => None,
    };
    match found {
        Some(id) => Ok(id),
        None => Err(owned("room.list returned no rooms; provide ROOM_ID or create a room first")),
    }
}

// What the seat knows of its cards.

/// Why the key cannot be used.
pub open spec fn key_fault(secret_hex: Seq<char>) -> Option<Seq<char>> {
    if !is_hex(secret_hex) {
        Some("invalid CARD_ENCRYPT_SECRET_HEX"@)
    } else if bytes_of_hex(secret_hex).len() != 32 {
        Some("CARD_ENCRYPT_SECRET_HEX must decode to 32 bytes"@)
    } else {
        None
    }
}

/// The key with which the cards of a hand are to be asked for; none where they are known
/// already or where there is no key.
pub fn key_to_sync(
    cfg: &SingleActionRunnerConfig,
    hand_id: HandId,
    synced_hands: &HashSet<u128>,
) -> (key: Result<Option<Vec<u8>>, String>)
    ensures
        synced_hands@.contains(hand_id.0) || cfg.card_encrypt_secret_hex is None ==> key == Ok::<
            Option<Vec<u8>>,
            String,
        >(None),
        !synced_hands@.contains(hand_id.0) && cfg.card_encrypt_secret_hex is Some ==> match key_fault(
            cfg.card_encrypt_secret_hex->0@,
        ) {
            Some(fault) => key is Err && key->Err_0@ == fault,
            None => key is Ok && key->Ok_0 is Some && key->Ok_0->0@ == bytes_of_hex(
                cfg.card_encrypt_secret_hex->0@,
            ),
        },
{
    broadcast use vstd::std_specs::hash::group_hash_axioms;

    if synced_hands.contains(&hand_id.0) {
        return Ok(None);
    }
    match &cfg.card_encrypt_secret_hex {
        None => Ok(None),
        Some(secret_hex) => match hex_decode(secret_hex.as_str()) {
            Err(_) => Err(owned("invalid CARD_ENCRYPT_SECRET_HEX")),
            Ok(bytes) => if bytes.len() == 32 {
                Ok(Some(bytes))
            } else {
                Err(owned("CARD_ENCRYPT_SECRET_HEX must decode to 32 bytes"))
            },
        },
    }
}

/// The cards of a hand, as they are and as they are shown.
#[derive(Debug, PartialEq, Eq)]
pub struct SyncedCards {
    pub raw: Json,
    pub pretty: Option<Vec<Vec<String>>>,
}

/// The state with nothing but the cards.
pub open spec fn cards_state(cards: Seq<JsonView>) -> JsonView {
    JsonView::Object(seq![("decrypted_hole_cards"@, JsonView::Array(cards))])
}

/// The cards that were found in the events of a hand; the hand counts as known once there are
/// any.
pub fn sync_hole_cards_for_hand(
    hand_id: HandId,
    events: &Vec<PrivatePayloadEvent>,
    readings: &Vec<PayloadReading>,
    synced_hands: &mut HashSet<u128>,
) -> (synced: Option<SyncedCards>)
    requires
        readings@.len() == events@.len(),
    ensures
        ({
            let found = found_documents(events@, readings@, events@.len());
            if found.len() == 0 {
                &&& synced is None
                &&& final(synced_hands)@ == old(synced_hands)@
            } else {
                &&& synced is Some
                &&& synced->0.raw@ == JsonView::Array(found)
                &&& synced->0.pretty is Some <==> shown_cards(cards_state(found)) is Some
                &&& synced->0.pretty is Some ==> text_lists(synced->0.pretty->0@) == shown_cards(
                    cards_state(found),
                )->0
                &&& final(synced_hands)@ == old(synced_hands)@.insert(hand_id.0)
            }
        }),
{
    broadcast use vstd::std_specs::hash::group_hash_axioms;

    let mut cards: Vec<Json> = Vec::new();
    let mut i: usize = 0;
    assert(items_view(cards@) =~= found_documents(events@, readings@, 0));
    while i < events.len()
        invariant
            i <= events.len(),
            readings@.len() == events@.len(),
            items_view(cards@) == found_documents(events@, readings@, i as nat),
        decreases events.len() - i,
    {
        let ghost before = cards@;
        if same_text(events[i].event_name.as_str(), "hole_cards_dealt") {
            match &readings[i] {
                PayloadReading::Document(value) => {
                    let copy = value.clone();
                    cards.push(copy);
                    assert(items_view(cards@) =~= items_view(before).push(copy@));
                },
                _ => {},
            }
        }
        i = i + 1;
    }
    let ghost found = found_documents(events@, readings@, events@.len());
    assert(items_view(cards@).len() == cards@.len());
    if cards.len() == 0 {
        return None;
    }
    proof {
        lemma_array_view(cards);
    }
    let raw = Json::Array(cards);
    let mut members: Vec<(String, Json)> = Vec::new();
    members.push((owned("decrypted_hole_cards"), raw.clone()));
    let state = crate::domain::events::object(members);
    assert(state@->Object_0 =~= cards_state(found)->Object_0);
    let pretty = pretty_hole_cards(&state);
    synced_hands.insert(hand_id.0);
    Some(SyncedCards { raw: raw, pretty: pretty })
}

/// The hand whose cards are to be asked for, from the state of the table.
pub fn sync_hole_cards_for_current_hand(answer: ResponseEnvelope<Option<HandSnapshot>>) -> (hand: Result<
    Option<HandId>,
    String,
>)
    ensures
        !answer.ok ==> hand is Err && hand->Err_0@ == "game.get_state failed: "@ + refusal(
            answer.error,
            "unknown app error"@,
        ),
        answer.ok && answer.data is None ==> hand is Err && hand->Err_0@
            == "game.get_state missing data payload"@,
        answer.ok && answer.data is Some ==> hand == Ok::<Option<HandId>, String>(
            match answer.data->0 {
                Some(state) => match state.status {
                    HandStatus::Running | HandStatus::Showdown | HandStatus::Settling => Some(
                        state.hand_id,
                    ),
                    _ => None,
                },
                None => None,
            },
        ),
{
    proof {
        reveal_strlit("game.get_state");
        reveal_strlit(" failed: ");
        reveal_strlit("game.get_state failed: ");
        reveal_strlit(" missing data payload");
        reveal_strlit("game.get_state missing data payload");
        assert("game.get_state"@ + " failed: "@ =~= "game.get_state failed: "@);
        assert("game.get_state"@ + " missing data payload"@
            =~= "game.get_state missing data payload"@);
    }
    match envelope_data(answer, "game.get_state") {
        Err(fault) => Err(fault),
        Ok(None) => Ok(None),
        Ok(Some(state)) => match state.status {
            HandStatus::Running => Ok(Some(state.hand_id)),
            HandStatus::Showdown => Ok(Some(state.hand_id)),
            HandStatus::Settling => Ok(Some(state.hand_id)),
            _ => Ok(None),
        },
    }
}

// Turns.

/// What the client remembers of its turns.
#[derive(Debug)]
pub struct TurnKeeper {
    pub last_attempted_turn: Option<(u128, u32)>,
    pub decisions: DecisionContextManager,
}

/// What names a turn.
pub open spec fn turn_key(turn: TurnDecisionInput) -> (u128, u32) {
    (turn.hand_id.0, turn.action_seq)
}

/// Whether an error may pass by itself, so that the turn is tried again.
pub open spec fn is_transient(error: RuntimeError) -> bool {
    error is Http || error is Wallet
}

fn copy_texts(values: &Vec<String>) -> (copy: Vec<String>)
    ensures
        texts(copy@) == texts(values@),
{
    let mut copy: Vec<String> = Vec::new();
    let mut i: usize = 0;
    while i < values.len()
        invariant
            i <= values.len(),
            copy@.len() == i,
            forall|k: int| 0 <= k < i ==> (#[trigger] copy@[k])@ == values@[k]@,
        decreases values.len() - i,
    {
        copy.push(values[i].clone());
        i = i + 1;
    }
    assert(texts(copy@) =~= texts(values@));
    copy
}

/// Whether the decision that is remembered is the one that was made.
pub open spec fn remembers(
    entry: DecisionContextEntry,
    turn: TurnDecisionInput,
    decision: PolicyDecision,
) -> bool {
    &&& entry.hand_id == turn.hand_id
    &&& entry.seat_id == turn.policy_input.seat_id
    &&& texts(entry.legal_actions@) == texts(turn.policy_input.legal_actions@)
    &&& entry.chosen_action is Some
    &&& entry.chosen_action->0@ == decision.action_type.spec_label()
    &&& entry.rationale == decision.rationale
}

impl TurnKeeper {
    /// One that has seen no turn, and remembers so many decisions.
    pub fn new(max_entries: usize) -> (keeper: TurnKeeper)
        ensures
            keeper.last_attempted_turn is None,
            keeper.decisions.kept() == Seq::<DecisionContextEntry>::empty(),
            keeper.decisions.bound() == (if max_entries >= 1 {
                max_entries as nat
            } else {
                1
            }),
    {
        TurnKeeper {
            last_attempted_turn: None,
            decisions: DecisionContextManager::with_max_entries(max_entries),
        }
    }

    /// Whether the turn was not tried last.
    pub open spec fn is_new(self, turn: TurnDecisionInput) -> bool {
        self.last_attempted_turn != Some(turn_key(turn))
    }

    /// Whether the turn was not tried last.
    pub fn is_new_turn(&self, turn: &TurnDecisionInput) -> (new: bool)
        ensures
            new == self.is_new(*turn),
    {
        match self.last_attempted_turn {
            Some((hand, seq)) => hand != turn.hand_id.0 || seq != turn.action_seq,
            None => true,
        }
    }

    /// Begins a turn where it is still the latest one; an error or another turn means that it
    /// is not.
    pub fn begin(
        &mut self,
        turn: &TurnDecisionInput,
        latest: &Result<Option<TurnDecisionInput>, RuntimeError>,
    ) -> (begun: bool)
        ensures
            begun == (match *latest {
                Ok(Some(latest)) => turn_key(latest) == turn_key(*turn),
                _ => false,
            }),
            final(self).decisions == old(self).decisions,
            final(self).last_attempted_turn == (if begun {
                Some(turn_key(*turn))
            } else {
                old(self).last_attempted_turn
            }),
    {
        let current: bool = match latest {
            Ok(Some(latest)) => latest.hand_id.0 == turn.hand_id.0 && latest.action_seq
                == turn.action_seq,
            _ => false,
        };
        if current {
            self.last_attempted_turn = Some((turn.hand_id.0, turn.action_seq));
        }
        current
    }

    /// What is kept once a turn is over: a decision that was carried out is remembered, and a
    /// turn whose error may pass by itself may be tried again.
    pub open spec fn finished(
        self,
        after: TurnKeeper,
        turn: TurnDecisionInput,
        decision: PolicyDecision,
        outcome: Result<SingleActionRunOutcome, RuntimeError>,
    ) -> bool {
        &&& after.decisions.bound() == self.decisions.bound()
        &&& match outcome {
            Ok(_) => {
                &&& after.last_attempted_turn == self.last_attempted_turn
                &&& exists|entry: DecisionContextEntry| #[trigger]
                    remembers(entry, turn, decision) && after.decisions.kept() == latest(
                        self.decisions.kept().push(entry),
                        self.decisions.bound(),
                    )
            },
            Err(error) => {
                &&& after.decisions == self.decisions
                &&& after.last_attempted_turn == (if is_transient(error) {
                    None
                } else {
                    self.last_attempted_turn
                })
            },
        }
    }

    /// Notes what came of a turn.
    pub fn finish(
        &mut self,
        turn: &TurnDecisionInput,
        decision: &PolicyDecision,
        outcome: &Result<SingleActionRunOutcome, RuntimeError>,
    )
        ensures
            old(self).finished(*final(self), *turn, *decision, *outcome),
    {
        match outcome {
            Ok(_) => {
                let entry = DecisionContextEntry {
                    hand_id: turn.hand_id,
                    seat_id: turn.policy_input.seat_id,
                    legal_actions: copy_texts(&turn.policy_input.legal_actions),
                    chosen_action: Some(owned(decision.action_type.label())),
                    rationale: copy_optional_text(&decision.rationale),
                };
                assert(remembers(entry, *turn, *decision));
                self.decisions.push(entry);
            },
            Err(error) => {
                let passes: bool = match error {
                    RuntimeError::Http(_) => true,
                    RuntimeError::Wallet(_) => true,
                    _ => false,
                };
                if passes {
                    self.last_attempted_turn = None;
                }
            },
        }
    }
}

/// A turn that was begun is not begun again, unless what went wrong may pass by itself.
pub proof fn turns_are_tried_once(
    begun: TurnKeeper,
    after: TurnKeeper,
    turn: TurnDecisionInput,
    decision: PolicyDecision,
    outcome: Result<SingleActionRunOutcome, RuntimeError>,
)
    requires
        begun.last_attempted_turn == Some(turn_key(turn)),
        begun.finished(after, turn, decision, outcome),
    ensures
        after.is_new(turn) <==> (outcome is Err && is_transient(outcome->Err_0)),
{
}

/// Whether this is the decision about a turn: the tool's, where it is asked and decides, or else
/// the rule's.
pub open spec fn decides(
    policy_mode: PolicyMode,
    tool: Result<Option<PolicyDecision>, PolicyAdapterError>,
    turn: TurnDecisionInput,
    decision: Option<PolicyDecision>,
) -> bool {
    if policy_mode == PolicyMode::CodexCli && tool is Ok && tool->Ok_0 is Some {
        decision == tool->Ok_0
    } else {
        match rule_choice(turn.policy_input.legal_actions@) {
            None => decision is None,
            Some(action) => {
                &&& decision is Some
                &&& decision->0.action_type == action
                &&& decision->0.amount is None
                &&& decision->0.rationale is Some
                &&& decision->0.rationale->0@ == "rule_policy_simple_priority"@
                &&& decision->0.source == PolicySource::Rule
            },
        }
    }
}

/// The decision about a turn: the tool's, where it is asked and decides, or else the rule's.
pub fn decide_turn(
    policy_mode: PolicyMode,
    tool: Result<Option<PolicyDecision>, PolicyAdapterError>,
    turn: &TurnDecisionInput,
) -> (decision: Option<PolicyDecision>)
    ensures
        decides(policy_mode, tool, *turn, decision),
{
    match policy_mode {
        PolicyMode::CodexCli => match tool {
            Ok(Some(decision)) => {
                return Some(decision);
            },
            _ => {},
        },
        PolicyMode::Rule => {},
    }
    let rule = RulePolicyAdapter;
    match rule.decide_action(&turn.policy_input) {
        Ok(decision) => decision,
        Err(_) => None,
    }
}

/// What was learned on the way through a turn.
pub enum TurnEvent {
    /// What was collected about the turn.
    Collected(Result<Option<TurnDecisionInput>, RuntimeError>),
    /// What the tool, where it was asked, decided.
    Asked {
        turn: TurnDecisionInput,
        tool: Result<Option<PolicyDecision>, PolicyAdapterError>,
    },
    /// What was collected once more, after the decision.
    CollectedAgain {
        turn: TurnDecisionInput,
        decision: PolicyDecision,
        latest: Result<Option<TurnDecisionInput>, RuntimeError>,
    },
    /// What came of carrying the decision out.
    Executed {
        turn: TurnDecisionInput,
        decision: PolicyDecision,
        outcome: Result<SingleActionRunOutcome, RuntimeError>,
    },
}

/// What is to be done next about a turn.
pub enum TurnStep {
    /// Nothing more; an error is passed on.
    Stop(Result<(), RuntimeError>),
    /// Ask the tool, where it is in use.
    Ask(TurnDecisionInput),
    /// Look whether the turn is still the latest.
    CollectAgain { turn: TurnDecisionInput, decision: PolicyDecision },
    /// Carry the decision out.
    Execute { turn: TurnDecisionInput, decision: PolicyDecision },
}

impl TurnKeeper {
    /// Whether nothing that is kept has changed.
    pub open spec fn same(self, other: TurnKeeper) -> bool {
        self.last_attempted_turn == other.last_attempted_turn && self.decisions == other.decisions
    }

    /// What is to be done about a turn, and what is kept of it. A turn that was tried last is
    /// passed over, one that nothing is decided about too, and one that is no longer the latest
    /// is not carried out.
    pub fn maybe_execute_turn(&mut self, policy_mode: PolicyMode, event: TurnEvent) -> (step:
        TurnStep)
        ensures
            match event {
                TurnEvent::Collected(collected) => {
                    &&& final(self).same(*old(self))
                    &&& step == (match collected {
                        Err(error) => TurnStep::Stop(Err(error)),
                        Ok(Some(turn)) if old(self).is_new(turn) => TurnStep::Ask(turn),
                        _ => TurnStep::Stop(Ok(())),
                    })
                },
                TurnEvent::Asked { turn, tool } => {
                    &&& final(self).same(*old(self))
                    &&& match step {
                        TurnStep::Stop(stop) => stop == Ok::<(), RuntimeError>(()) && decides(
                            policy_mode,
                            tool,
                            turn,
                            None,
                        ),
                        TurnStep::CollectAgain { turn: kept, decision } => kept == turn && decides(
                            policy_mode,
                            tool,
                            turn,
                            Some(decision),
                        ),
                        _ => false,
                    }
                },
                TurnEvent::CollectedAgain { turn, decision, latest } => if latest is Ok
                    && latest->Ok_0 is Some && turn_key(latest->Ok_0->0) == turn_key(turn) {
                    &&& final(self).decisions == old(self).decisions
                    &&& final(self).last_attempted_turn == Some(turn_key(turn))
                    &&& step == (TurnStep::Execute { turn, decision })
                } else {
                    &&& final(self).same(*old(self))
                    &&& step == TurnStep::Stop(Ok(()))
                },
                TurnEvent::Executed { turn, decision, outcome } => {
                    &&& step == TurnStep::Stop(Ok(()))
                    &&& old(self).finished(*final(self), turn, decision, outcome)
                },
            },
    {
        match event {
            TurnEvent::Collected(collected) => match collected {
                Err(error) => TurnStep::Stop(Err(error)),
                Ok(None) => TurnStep::Stop(Ok(())),
                Ok(Some(turn)) => if self.is_new_turn(&turn) {
                    TurnStep::Ask(turn)
                } else {
                    TurnStep::Stop(Ok(()))
                },
            },
            TurnEvent::Asked { turn, tool } => match decide_turn(policy_mode, tool, &turn) {
                None => TurnStep::Stop(Ok(())),
                Some(decision) => TurnStep::CollectAgain { turn, decision },
            },
            TurnEvent::CollectedAgain { turn, decision, latest } => {
                if self.begin(&turn, &latest) {
                    TurnStep::Execute { turn, decision }
                } else {
                    TurnStep::Stop(Ok(()))
                }
            },
            TurnEvent::Executed { turn, decision, outcome } => {
                self.finish(&turn, &decision, &outcome);
                TurnStep::Stop(Ok(()))
            },
        }
    }
}

// Events.

/// What a message says to the wish to be told of events.
#[derive(Debug, PartialEq, Eq)]
pub enum SubscribeReply {
    /// Something else: wait for the next message.
    Other,
    /// The name of the subscription.
    Subscribed(String),
    /// The wish was refused, or the answer says nothing.
    Failed(String),
}

/// The name of the subscription in a result.
pub open spec fn subscription_name(result: JsonView) -> Option<Seq<char>> {
    if text_value(result) is Some {
        text_value(result)
    } else if unsigned_value(result) is Some {
        Some(decimal(unsigned_value(result)->0 as nat))
    } else if signed_value(result) is Some {
        Some(signed_decimal(signed_value(result)->0 as int))
    } else if member_text(result, "data"@) is Some {
        member_text(result, "data"@)
    } else {
        member_text(result, "subscription_id"@)
    }
}

/// What a message says to the wish to be told of events.
pub fn subscribe_turn_events(value: &Json) -> (reply: SubscribeReply)
    ensures
        member_unsigned(value@, "id"@) != Some(1u64) ==> reply == SubscribeReply::Other,
        member_unsigned(value@, "id"@) == Some(1u64) ==> match (
            member_value(value@, "error"@),
            member_value(value@, "result"@),
        ) {
            (Some(error), _) => reply is Failed && reply->Failed_0@
                == "websocket subscribe returned error: "@ + json_text(error),
            (None, Some(result)) if subscription_name(result) is Some => reply is Subscribed
                && reply->Subscribed_0@ == subscription_name(result)->0,
            _ => reply is Failed && reply->Failed_0@
                == "websocket subscribe response missing subscription id: "@ + json_text(value@),
        },
{
    match value.unsigned_at("id") {
        Some(id) => if id != 1 {
            return SubscribeReply::Other;
        },
        None => {
            return SubscribeReply::Other;
        },
    }
    match value.get("error") {
        Some(error) => {
            let mut text = String::from_str("websocket subscribe returned error: ");
            text.append(error.to_text().as_str());
            return SubscribeReply::Failed(text);
        },
        None => {},
    }
    match value.get("result") {
        Some(result) => {
            match result.as_str() {
                Some(name) => {
                    return SubscribeReply::Subscribed(owned(name));
                },
                None => {},
            }
            match result.as_u64() {
                Some(n) => {
                    return SubscribeReply::Subscribed(decimal_text(n as u128));
                },
                None => {},
            }
            match result.as_i64() {
                Some(n) => {
                    return SubscribeReply::Subscribed(signed_decimal_text(n));
                },
                None => {},
            }
            match result.text_at("data") {
                Some(name) => {
                    return SubscribeReply::Subscribed(owned(name));
                },
                None => {},
            }
            match result.text_at("subscription_id") {
                Some(name) => {
                    return SubscribeReply::Subscribed(owned(name));
                },
                None => {},
            }
        },
        None => {},
    }
    let mut text = String::from_str("websocket subscribe response missing subscription id: ");
    text.append(value.to_text().as_str());
    SubscribeReply::Failed(text)
}

/// The event in a message.
pub open spec fn event_of(value: JsonView) -> Option<JsonView> {
    if member_text(value, "method"@) == Some("events"@) {
        match member_value(value, "params"@) {
            Some(params) => member_value(params, "result"@),
            None => None,
        }
    } else {
        None
    }
}

/// The event in a message; other messages are passed over.
pub fn event_in<'a>(value: &'a Json) -> (event: Option<&'a Json>)
    ensures
        match event_of(value@) {
            Some(event_value) => event is Some && event->0@ == event_value,
            None => event is None,
        },
{
    let is_event: bool = match value.text_at("method") {
        Some(method) => same_text(method, "events"),
        None => false,
    };
    if !is_event {
        return None;
    }
    match value.get("params") {
        Some(params) => params.get("result"),
        None => None,
    }
}

/// What follows from an event.
#[derive(Debug, Clone, Copy, PartialEq, Eq, Structural)]
pub struct EventPlan {
    /// The hand whose cards are to be asked for.
    pub sync_hand: Option<HandId>,
    /// Whether the seat may have its turn.
    pub check_turn: bool,
}

/// What follows from an event: cards are asked for when a hand or a turn starts, and the turn
/// is looked at when one starts.
pub fn plan_event(event_name: &str, hand_id: Option<HandId>) -> (plan: EventPlan)
    ensures
        plan.sync_hand == (if event_name@ == "hand_started"@ || event_name@ == "turn_started"@ {
            hand_id
        } else {
            None
        }),
        plan.check_turn == (event_name@ == "turn_started"@),
{
    let is_turn: bool = same_text(event_name, "turn_started");
    let is_hand: bool = same_text(event_name, "hand_started");
    EventPlan {
        sync_hand: if is_turn || is_hand {
            hand_id
        } else {
            None
        },
        check_turn: is_turn,
    }
}

/// The first wait before the client connects again.
pub const FIRST_BACKOFF_MS: u64 = 500;

/// The longest wait before the client connects again.
pub const LAST_BACKOFF_MS: u64 = 10_000;

/// The wait after this one: twice as long, up to the longest.
pub fn next_backoff_ms(backoff_ms: u64) -> (next: u64)
    ensures
        next == (if 2 * backoff_ms <= LAST_BACKOFF_MS {
            2 * backoff_ms
        } else {
            LAST_BACKOFF_MS as int
        }),
{
    if backoff_ms <= LAST_BACKOFF_MS / 2 {
        2 * backoff_ms
    } else {
        LAST_BACKOFF_MS
    }
}

} // verus!
