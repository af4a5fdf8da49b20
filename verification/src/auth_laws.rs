//! What a signature commits the signer to.

use vstd::prelude::*;

use crate::auth::{
    agent_number, binding_message, optional_id_text, room_number, session_number, signing_message,
    SeatKeyBindingClaim, SigningMessageInput,
};
use crate::domain::ids::{identifiers_read_apart, lemma_uuid_characters, uuid_text};
use crate::json::{canonical, json_text};
use crate::json_laws::{
    canonical_form_stays_whole, is_whole, lemma_decimal_digits, numbers_end, values_end,
};
use crate::text::{decimal, signed_decimal};

verus! {

/// Whether a text can stand between two bars.
pub open spec fn holds_no_bar(text: Seq<char>) -> bool {
    forall|i: int| 0 <= i < text.len() ==> #[trigger] text[i] != '|'
}

/// The part of the signed text that names the hand.
pub open spec fn hand_part(input: SigningMessageInput) -> Seq<char> {
    match input.hand_id {
        Some(hand_id) => hand_id@,
        None => Seq::empty(),
    }
}

spec fn count_part(count: Option<u32>) -> Seq<char> {
    match count {
        Some(n) => decimal(n as nat),
        None => Seq::empty(),
    }
}

/// A part without bars ends at the next bar.
proof fn lemma_parts_end(f: Seq<char>, g: Seq<char>, x: Seq<char>, y: Seq<char>)
    requires
        f + x == g + y,
        holds_no_bar(f),
        holds_no_bar(g),
        x.len() > 0,
        y.len() > 0,
        x[0] == '|',
        y[0] == '|',
    ensures
        f == g,
        x == y,
{
    let left = f + x;
    let right = g + y;
    if f.len() < g.len() {
        assert(left[f.len() as int] == '|');
        assert(right[f.len() as int] == g[f.len() as int]);
    }
    if g.len() < f.len() {
        assert(right[g.len() as int] == '|');
        assert(left[g.len() as int] == f[g.len() as int]);
    }
    assert(f =~= left.take(f.len() as int));
    assert(g =~= right.take(g.len() as int));
    assert(x =~= left.skip(f.len() as int));
    assert(y =~= right.skip(g.len() as int));
}

/// The same label in front of two texts can be taken off.
proof fn lemma_label_off(label: Seq<char>, x: Seq<char>, y: Seq<char>)
    requires
        label + x == label + y,
    ensures
        x == y,
{
    assert(x =~= (label + x).skip(label.len() as int));
    assert(y =~= (label + y).skip(label.len() as int));
}

/// A number behind the last equals sign is found from the end of the text.
proof fn lemma_last_part(label: Seq<char>, a: Seq<char>, b: Seq<char>, n: int, m: int)
    requires
        label.len() > 0,
        label.last() == '=',
        a + (label + signed_decimal(n)) == b + (label + signed_decimal(m)),
    ensures
        a == b,
        n == m,
{
    let p = signed_decimal(n);
    let q = signed_decimal(m);
    lemma_number_characters(n);
    lemma_number_characters(m);
    lemma_last_words(label, a, b, p, q);
    let none = Seq::<char>::empty();
    if n < 0 && m < 0 {
        assert(p.skip(1) =~= decimal((-n) as nat) + none);
        assert(q.skip(1) =~= decimal((-m) as nat) + none);
        numbers_end((-n) as nat, (-m) as nat, none, none);
    } else if n >= 0 && m >= 0 {
        assert(p =~= decimal(n as nat) + none);
        assert(q =~= decimal(m as nat) + none);
        numbers_end(n as nat, m as nat, none, none);
    } else {
        assert(p[0] == q[0]);
    }
}

proof fn lemma_number_characters(n: int)
    ensures
        signed_decimal(n).len() > 0,
        n < 0 ==> signed_decimal(n)[0] == '-',
        n >= 0 ==> signed_decimal(n)[0] != '-',
        forall|i: int|
            0 <= i < signed_decimal(n).len() ==> (#[trigger] signed_decimal(n)[i]) != '='
                && signed_decimal(n)[i] != '|',
{
    if n < 0 {
        lemma_decimal_digits((-n) as nat);
        let digits = decimal((-n) as nat);
        let text = signed_decimal(n);
        assert forall|i: int| 0 <= i < text.len() implies (#[trigger] text[i]) != '=' && text[i]
            != '|' by {
            if i > 0 {
                assert(text[i] == digits[i - 1]);
            }
        }
    } else {
        lemma_decimal_digits(n as nat);
    }
}

proof fn lemma_counts_differ(a: Option<u32>, b: Option<u32>)
    ensures
        holds_no_bar(count_part(a)),
        count_part(a) == count_part(b) ==> a == b,
{
    if let Some(n) = a {
        lemma_number_characters(n as int);
        if let Some(m) = b {
            if count_part(a) == count_part(b) {
                let none = Seq::<char>::empty();
                assert(decimal(n as nat) + none =~= decimal(m as nat) + none);
                numbers_end(n as nat, m as nat, none, none);
            }
        }
    }
    if let Some(m) = b {
        lemma_number_characters(m as int);
    }
}

proof fn lemma_ids_differ(a: Option<u128>, b: Option<u128>)
    ensures
        holds_no_bar(optional_id_text(a)),
        forall|i: int|
            0 <= i < optional_id_text(a).len() ==> #[trigger] optional_id_text(a)[i] != '=',
        optional_id_text(a) == optional_id_text(b) ==> a == b,
{
    if let Some(n) = a {
        lemma_uuid_characters(n);
        if let Some(m) = b {
            if uuid_text(n) == uuid_text(m) {
                identifiers_read_apart(n, m);
            }
        }
    }
    if let Some(m) = b {
        lemma_uuid_characters(m);
    }
}

/// What follows the nonce in the signed text.
spec fn end_part(input: SigningMessageInput) -> Seq<char> {
    "|request_ts="@ + (input.meta.request_ts.text() + ("|request_expiry_ms="@ + signed_decimal(
        input.meta.request_expiry_ms as int,
    )))
}

/// What follows the parameters in the signed text.
spec fn request_part(input: SigningMessageInput) -> Seq<char> {
    "|request_id="@ + (uuid_text(input.meta.request_id.0) + ("|request_nonce="@ + (
    input.meta.request_nonce@ + end_part(input))))
}

/// What follows the name of the hand in the signed text.
spec fn turn_part(input: SigningMessageInput) -> Seq<char> {
    "|action_seq="@ + (count_part(input.action_seq) + ("|params="@ + (json_text(
        canonical(input.params@),
    ) + request_part(input))))
}

/// What follows the method in the signed text.
spec fn place_part(input: SigningMessageInput) -> Seq<char> {
    "|session_id="@ + (uuid_text(input.session_id.0) + ("|room_id="@ + (optional_id_text(
        room_number(input.room_id),
    ) + ("|hand_id="@ + (hand_part(input) + turn_part(input))))))
}

proof fn lemma_regroup(x: Seq<char>, label: Seq<char>, part: Seq<char>, rest: Seq<char>)
    ensures
        x + label + part + rest == x + (label + (part + rest)),
{
    assert(x + label + part + rest =~= x + (label + (part + rest)));
}

proof fn lemma_text_in_parts(input: SigningMessageInput)
    ensures
        signing_message(input) == "method="@ + (input.method@ + place_part(input)),
{
    let session = uuid_text(input.session_id.0);
    let room = optional_id_text(room_number(input.room_id));
    let hand = hand_part(input);
    let count = count_part(input.action_seq);
    let params = json_text(canonical(input.params@));
    let request = uuid_text(input.meta.request_id.0);
    let nonce = input.meta.request_nonce@;
    let ts = input.meta.request_ts.text();
    let expiry = signed_decimal(input.meta.request_expiry_ms as int);
    let to_method = "method="@ + input.method@;
    let to_session = to_method + "|session_id="@ + session;
    let to_room = to_session + "|room_id="@ + room;
    let to_hand = to_room + "|hand_id="@ + hand;
    let to_count = to_hand + "|action_seq="@ + count;
    let to_params = to_count + "|params="@ + params;
    let to_request = to_params + "|request_id="@ + request;
    let to_nonce = to_request + "|request_nonce="@ + nonce;
    let to_ts = to_nonce + "|request_ts="@ + ts;
    assert(signing_message(input) == to_ts + "|request_expiry_ms="@ + expiry);
    let last = "|request_expiry_ms="@ + expiry;
    assert(to_ts + "|request_expiry_ms="@ + expiry =~= to_ts + last);
    lemma_regroup(to_nonce, "|request_ts="@, ts, last);
    let nonce_on = nonce + end_part(input);
    lemma_regroup(to_request, "|request_nonce="@, nonce, end_part(input));
    lemma_regroup(to_params, "|request_id="@, request, "|request_nonce="@ + nonce_on);
    lemma_regroup(to_count, "|params="@, params, request_part(input));
    let params_on = params + request_part(input);
    lemma_regroup(to_hand, "|action_seq="@, count, "|params="@ + params_on);
    let hand_on = hand + turn_part(input);
    lemma_regroup(to_room, "|hand_id="@, hand, turn_part(input));
    let room_on = room + ("|hand_id="@ + hand_on);
    lemma_regroup(to_session, "|room_id="@, room, "|hand_id="@ + hand_on);
    lemma_regroup(to_method, "|session_id="@, session, "|room_id="@ + room_on);
    assert(to_method + place_part(input) =~= "method="@ + (input.method@ + place_part(input)));
}

proof fn lemma_same_end(first: SigningMessageInput, second: SigningMessageInput)
    requires
        end_part(first) == end_part(second),
    ensures
        first.meta.request_ts.text() == second.meta.request_ts.text(),
        first.meta.request_expiry_ms == second.meta.request_expiry_ms,
{
    let label = "|request_expiry_ms="@;
    reveal_strlit("|request_expiry_ms=");
    let n = first.meta.request_expiry_ms as int;
    let m = second.meta.request_expiry_ms as int;
    let a = first.meta.request_ts.text();
    let b = second.meta.request_ts.text();
    lemma_label_off(
        "|request_ts="@,
        a + (label + signed_decimal(n)),
        b + (label + signed_decimal(m)),
    );
    lemma_last_part(label, a, b, n, m);
}

proof fn lemma_same_request(first: SigningMessageInput, second: SigningMessageInput)
    requires
        request_part(first) == request_part(second),
        holds_no_bar(first.meta.request_nonce@),
        holds_no_bar(second.meta.request_nonce@),
    ensures
        first.meta.request_id == second.meta.request_id,
        first.meta.request_nonce@ == second.meta.request_nonce@,
        end_part(first) == end_part(second),
{
    reveal_strlit("|request_nonce=");
    reveal_strlit("|request_ts=");
    let a = uuid_text(first.meta.request_id.0);
    let b = uuid_text(second.meta.request_id.0);
    let x = first.meta.request_nonce@ + end_part(first);
    let y = second.meta.request_nonce@ + end_part(second);
    lemma_uuid_characters(first.meta.request_id.0);
    lemma_uuid_characters(second.meta.request_id.0);
    lemma_label_off("|request_id="@, a + ("|request_nonce="@ + x), b + ("|request_nonce="@ + y));
    lemma_parts_end(a, b, "|request_nonce="@ + x, "|request_nonce="@ + y);
    identifiers_read_apart(first.meta.request_id.0, second.meta.request_id.0);
    lemma_label_off("|request_nonce="@, x, y);
    lemma_parts_end(
        first.meta.request_nonce@,
        second.meta.request_nonce@,
        end_part(first),
        end_part(second),
    );
}

proof fn lemma_same_turn(first: SigningMessageInput, second: SigningMessageInput)
    requires
        turn_part(first) == turn_part(second),
        is_whole(first.params@),
        is_whole(second.params@),
    ensures
        first.action_seq == second.action_seq,
        canonical(first.params@) == canonical(second.params@),
        request_part(first) == request_part(second),
{
    reveal_strlit("|params=");
    reveal_strlit("|request_id=");
    let a = count_part(first.action_seq);
    let b = count_part(second.action_seq);
    let x = json_text(canonical(first.params@)) + request_part(first);
    let y = json_text(canonical(second.params@)) + request_part(second);
    lemma_counts_differ(first.action_seq, second.action_seq);
    lemma_counts_differ(second.action_seq, first.action_seq);
    lemma_label_off("|action_seq="@, a + ("|params="@ + x), b + ("|params="@ + y));
    lemma_parts_end(a, b, "|params="@ + x, "|params="@ + y);
    lemma_label_off("|params="@, x, y);
    canonical_form_stays_whole(first.params@);
    canonical_form_stays_whole(second.params@);
    values_end(
        canonical(first.params@),
        canonical(second.params@),
        request_part(first),
        request_part(second),
    );
}

proof fn lemma_same_place(first: SigningMessageInput, second: SigningMessageInput)
    requires
        place_part(first) == place_part(second),
        holds_no_bar(hand_part(first)),
        holds_no_bar(hand_part(second)),
    ensures
        first.session_id == second.session_id,
        first.room_id == second.room_id,
        hand_part(first) == hand_part(second),
        turn_part(first) == turn_part(second),
{
    reveal_strlit("|room_id=");
    reveal_strlit("|hand_id=");
    reveal_strlit("|action_seq=");
    let a = uuid_text(first.session_id.0);
    let b = uuid_text(second.session_id.0);
    let c = optional_id_text(room_number(first.room_id));
    let d = optional_id_text(room_number(second.room_id));
    let u = hand_part(first) + turn_part(first);
    let v = hand_part(second) + turn_part(second);
    let x = c + ("|hand_id="@ + u);
    let y = d + ("|hand_id="@ + v);
    lemma_uuid_characters(first.session_id.0);
    lemma_uuid_characters(second.session_id.0);
    lemma_label_off("|session_id="@, a + ("|room_id="@ + x), b + ("|room_id="@ + y));
    lemma_parts_end(a, b, "|room_id="@ + x, "|room_id="@ + y);
    identifiers_read_apart(first.session_id.0, second.session_id.0);
    lemma_label_off("|room_id="@, x, y);
    lemma_ids_differ(room_number(first.room_id), room_number(second.room_id));
    lemma_ids_differ(room_number(second.room_id), room_number(first.room_id));
    lemma_parts_end(c, d, "|hand_id="@ + u, "|hand_id="@ + v);
    lemma_label_off("|hand_id="@, u, v);
    lemma_parts_end(hand_part(first), hand_part(second), turn_part(first), turn_part(second));
}

/// What is signed of a request tells the request: two requests with the same signed text agree
/// in their method, session, room, hand, turn, parameters up to the order of members, number,
/// nonce, time and expiry. Bars separate the parts, so the parts that are free text hold none.
/// A hand that is not named counts as one with an empty name.
pub proof fn signed_text_tells_the_request(
    first: SigningMessageInput,
    second: SigningMessageInput,
)
    requires
        signing_message(first) == signing_message(second),
        holds_no_bar(first.method@),
        holds_no_bar(second.method@),
        holds_no_bar(hand_part(first)),
        holds_no_bar(hand_part(second)),
        holds_no_bar(first.meta.request_nonce@),
        holds_no_bar(second.meta.request_nonce@),
        is_whole(first.params@),
        is_whole(second.params@),
    ensures
        first.method@ == second.method@,
        first.session_id == second.session_id,
        first.room_id == second.room_id,
        hand_part(first) == hand_part(second),
        first.action_seq == second.action_seq,
        canonical(first.params@) == canonical(second.params@),
        first.meta.request_id == second.meta.request_id,
        first.meta.request_nonce@ == second.meta.request_nonce@,
        first.meta.request_ts.text() == second.meta.request_ts.text(),
        first.meta.request_expiry_ms == second.meta.request_expiry_ms,
{
    reveal_strlit("|session_id=");
    lemma_text_in_parts(first);
    lemma_text_in_parts(second);
    lemma_label_off(
        "method="@,
        first.method@ + place_part(first),
        second.method@ + place_part(second),
    );
    lemma_parts_end(first.method@, second.method@, place_part(first), place_part(second));
    lemma_same_place(first, second);
    lemma_same_turn(first, second);
    lemma_same_request(first, second);
    lemma_same_end(first, second);
}

/// The part of a seat's claim that names its moments.
pub open spec fn moments_part(claim: SeatKeyBindingClaim) -> Seq<char> {
    "|issued_at="@ + claim.issued_at.text() + "|expires_at="@ + (match claim.expires_at {
        Some(moment) => moment.text(),
        None => Seq::empty(),
    })
}

/// What follows the seat in a seat's claim, up to its moments.
spec fn keys_part(claim: SeatKeyBindingClaim, rest: Seq<char>) -> Seq<char> {
    "|seat_address="@ + (claim.seat_address@ + ("|card_encrypt_pubkey="@ + (
    claim.card_encrypt_pubkey@ + ("|request_verify_pubkey="@ + (claim.request_verify_pubkey@ + (
    "|key_algo="@ + (claim.key_algo@ + rest)))))))
}

/// What follows the moments in a seat's claim.
spec fn owner_part(claim: SeatKeyBindingClaim) -> Seq<char> {
    "|agent_id="@ + (optional_id_text(agent_number(claim.agent_id)) + ("|session_id="@
        + optional_id_text(session_number(claim.session_id))))
}

proof fn lemma_claim_in_parts(claim: SeatKeyBindingClaim)
    ensures
        binding_message(claim) == "room_id="@ + (uuid_text(claim.room_id.0) + ("|seat_id="@ + (
        decimal(claim.seat_id as nat) + keys_part(
            claim,
            moments_part(claim) + owner_part(claim),
        )))),
{
    let room = uuid_text(claim.room_id.0);
    let seat = decimal(claim.seat_id as nat);
    let address = claim.seat_address@;
    let card_key = claim.card_encrypt_pubkey@;
    let request_key = claim.request_verify_pubkey@;
    let algo = claim.key_algo@;
    let issued = claim.issued_at.text();
    let expires = match claim.expires_at {
        Some(moment) => moment.text(),
        None => Seq::empty(),
    };
    let agent = optional_id_text(agent_number(claim.agent_id));
    let session = optional_id_text(session_number(claim.session_id));
    let to_room = "room_id="@ + room;
    let to_seat = to_room + "|seat_id="@ + seat;
    let to_address = to_seat + "|seat_address="@ + address;
    let to_card_key = to_address + "|card_encrypt_pubkey="@ + card_key;
    let to_request_key = to_card_key + "|request_verify_pubkey="@ + request_key;
    let to_algo = to_request_key + "|key_algo="@ + algo;
    let to_expires = to_algo + "|issued_at="@ + issued + "|expires_at="@ + expires;
    let to_agent = to_expires + "|agent_id="@ + agent;
    let last = "|session_id="@ + session;
    assert(binding_message(claim) == to_agent + "|session_id="@ + session);
    assert(to_agent + "|session_id="@ + session =~= to_agent + last);
    lemma_regroup(to_expires, "|agent_id="@, agent, last);
    assert(to_expires =~= to_algo + moments_part(claim));
    let rest = moments_part(claim) + owner_part(claim);
    assert(to_algo + moments_part(claim) + owner_part(claim) =~= to_algo + rest);
    lemma_regroup(to_request_key, "|key_algo="@, algo, rest);
    let algo_on = "|key_algo="@ + (algo + rest);
    lemma_regroup(to_card_key, "|request_verify_pubkey="@, request_key, algo_on);
    let request_on = "|request_verify_pubkey="@ + (request_key + algo_on);
    lemma_regroup(to_address, "|card_encrypt_pubkey="@, card_key, request_on);
    let card_on = "|card_encrypt_pubkey="@ + (card_key + request_on);
    lemma_regroup(to_seat, "|seat_address="@, address, card_on);
    lemma_regroup(to_room, "|seat_id="@, seat, keys_part(claim, rest));
    let seat_on = "|seat_id="@ + (seat + keys_part(claim, rest));
    assert(to_room + seat_on =~= "room_id="@ + (room + seat_on));
}

proof fn lemma_part_off(label: Seq<char>, f: Seq<char>, g: Seq<char>, x: Seq<char>, y: Seq<char>)
    requires
        label + (f + x) == label + (g + y),
        holds_no_bar(f),
        holds_no_bar(g),
        x.len() > 0,
        y.len() > 0,
        x[0] == '|',
        y[0] == '|',
    ensures
        f == g,
        x == y,
{
    lemma_label_off(label, f + x, g + y);
    lemma_parts_end(f, g, x, y);
}

proof fn lemma_same_keys(
    first: SeatKeyBindingClaim,
    second: SeatKeyBindingClaim,
    x: Seq<char>,
    y: Seq<char>,
)
    requires
        keys_part(first, x) == keys_part(second, y),
        claims_plain_keys(first),
        claims_plain_keys(second),
        x.len() > 0,
        y.len() > 0,
        x[0] == '|',
        y[0] == '|',
    ensures
        first.seat_address@ == second.seat_address@,
        first.card_encrypt_pubkey@ == second.card_encrypt_pubkey@,
        first.request_verify_pubkey@ == second.request_verify_pubkey@,
        first.key_algo@ == second.key_algo@,
        x == y,
{
    reveal_strlit("|card_encrypt_pubkey=");
    reveal_strlit("|request_verify_pubkey=");
    reveal_strlit("|key_algo=");
    let algo_a = "|key_algo="@ + (first.key_algo@ + x);
    let algo_b = "|key_algo="@ + (second.key_algo@ + y);
    let request_a = "|request_verify_pubkey="@ + (first.request_verify_pubkey@ + algo_a);
    let request_b = "|request_verify_pubkey="@ + (second.request_verify_pubkey@ + algo_b);
    let card_a = "|card_encrypt_pubkey="@ + (first.card_encrypt_pubkey@ + request_a);
    let card_b = "|card_encrypt_pubkey="@ + (second.card_encrypt_pubkey@ + request_b);
    lemma_part_off("|seat_address="@, first.seat_address@, second.seat_address@, card_a, card_b);
    lemma_part_off(
        "|card_encrypt_pubkey="@,
        first.card_encrypt_pubkey@,
        second.card_encrypt_pubkey@,
        request_a,
        request_b,
    );
    lemma_part_off(
        "|request_verify_pubkey="@,
        first.request_verify_pubkey@,
        second.request_verify_pubkey@,
        algo_a,
        algo_b,
    );
    lemma_part_off("|key_algo="@, first.key_algo@, second.key_algo@, x, y);
}

/// The same characters without an equals sign stand behind the last equals sign.
proof fn lemma_last_words(label: Seq<char>, a: Seq<char>, b: Seq<char>, p: Seq<char>, q: Seq<char>)
    requires
        label.len() > 0,
        label.last() == '=',
        a + (label + p) == b + (label + q),
        forall|i: int| 0 <= i < p.len() ==> #[trigger] p[i] != '=',
        forall|i: int| 0 <= i < q.len() ==> #[trigger] q[i] != '=',
    ensures
        a == b,
        p == q,
{
    let left = a + (label + p);
    let right = b + (label + q);
    let end = left.len() as int;
    if p.len() < q.len() {
        let at = end - p.len() - 1;
        assert(left[at] == label.last());
        assert(right[at] == q[q.len() - p.len() - 1]);
    }
    if q.len() < p.len() {
        let at = end - q.len() - 1;
        assert(right[at] == label.last());
        assert(left[at] == p[p.len() - q.len() - 1]);
    }
    assert(p =~= left.skip(end - p.len()));
    assert(q =~= right.skip(end - q.len()));
    assert(a =~= left.take(end - p.len() - label.len()));
    assert(b =~= right.take(end - q.len() - label.len()));
}

proof fn lemma_same_owner(
    first: SeatKeyBindingClaim,
    second: SeatKeyBindingClaim,
    x: Seq<char>,
    y: Seq<char>,
)
    requires
        x + owner_part(first) == y + owner_part(second),
    ensures
        x == y,
        first.agent_id == second.agent_id,
        first.session_id == second.session_id,
{
    reveal_strlit("|agent_id=");
    reveal_strlit("|session_id=");
    let agent_a = optional_id_text(agent_number(first.agent_id));
    let agent_b = optional_id_text(agent_number(second.agent_id));
    let session_a = optional_id_text(session_number(first.session_id));
    let session_b = optional_id_text(session_number(second.session_id));
    lemma_ids_differ(agent_number(first.agent_id), agent_number(second.agent_id));
    lemma_ids_differ(agent_number(second.agent_id), agent_number(first.agent_id));
    lemma_ids_differ(session_number(first.session_id), session_number(second.session_id));
    lemma_ids_differ(session_number(second.session_id), session_number(first.session_id));
    let u = x + ("|agent_id="@ + agent_a);
    let v = y + ("|agent_id="@ + agent_b);
    assert(x + owner_part(first) =~= u + ("|session_id="@ + session_a));
    assert(y + owner_part(second) =~= v + ("|session_id="@ + session_b));
    lemma_last_words("|session_id="@, u, v, session_a, session_b);
    lemma_last_words("|agent_id="@, x, y, agent_a, agent_b);
}

/// Whether the free texts of a claim hold no bar.
pub open spec fn claims_plain_keys(claim: SeatKeyBindingClaim) -> bool {
    &&& holds_no_bar(claim.seat_address@)
    &&& holds_no_bar(claim.card_encrypt_pubkey@)
    &&& holds_no_bar(claim.request_verify_pubkey@)
    &&& holds_no_bar(claim.key_algo@)
}

/// What is signed of a seat's claim to its keys tells the claim: two claims with the same signed
/// text agree in their room, seat, address, keys, agent, session and the text of their moments.
pub proof fn binding_text_tells_the_claim(first: SeatKeyBindingClaim, second: SeatKeyBindingClaim)
    requires
        binding_message(first) == binding_message(second),
        claims_plain_keys(first),
        claims_plain_keys(second),
    ensures
        first.room_id == second.room_id,
        first.seat_id == second.seat_id,
        first.seat_address@ == second.seat_address@,
        first.card_encrypt_pubkey@ == second.card_encrypt_pubkey@,
        first.request_verify_pubkey@ == second.request_verify_pubkey@,
        first.key_algo@ == second.key_algo@,
        moments_part(first) == moments_part(second),
        first.agent_id == second.agent_id,
        first.session_id == second.session_id,
{
    reveal_strlit("|seat_id=");
    reveal_strlit("|seat_address=");
    reveal_strlit("|issued_at=");
    lemma_claim_in_parts(first);
    lemma_claim_in_parts(second);
    let rest_a = moments_part(first) + owner_part(first);
    let rest_b = moments_part(second) + owner_part(second);
    let keys_a = keys_part(first, rest_a);
    let keys_b = keys_part(second, rest_b);
    let seat_a = decimal(first.seat_id as nat);
    let seat_b = decimal(second.seat_id as nat);
    lemma_uuid_characters(first.room_id.0);
    lemma_uuid_characters(second.room_id.0);
    lemma_part_off(
        "room_id="@,
        uuid_text(first.room_id.0),
        uuid_text(second.room_id.0),
        "|seat_id="@ + (seat_a + keys_a),
        "|seat_id="@ + (seat_b + keys_b),
    );
    identifiers_read_apart(first.room_id.0, second.room_id.0);
    lemma_label_off("|seat_id="@, seat_a + keys_a, seat_b + keys_b);
    numbers_end(first.seat_id as nat, second.seat_id as nat, keys_a, keys_b);
    lemma_same_keys(first, second, rest_a, rest_b);
    lemma_same_owner(first, second, moments_part(first), moments_part(second));
}

} // verus!
