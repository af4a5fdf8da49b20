//! What the server lays out to be sent, and what it makes of what it is told.
use std::collections::HashMap;
use vstd::prelude::*;

use crate::auth::{binding_message, fault_result, AuthError, SeatKeyBindingClaim};
use crate::cards::{cards_fault, cards_in, CardsFault};
use crate::chain_watcher::{confirmations_at, hex_quantity};
use crate::document::{member_text, member_value, signed_value};
use crate::document_laws::{maybe_text, says};
use crate::domain::events::HandEvent;
use crate::domain::game::SeatId;
use crate::domain::ids::{parsed_uuid, uuid_text, RoomId};
use crate::audit::OutboxEventRecord;
use crate::evm::{address_of, is_secret, public_point, SignatureFault};
use crate::json::{canonical, json_text, JsonView, NumberView};
use crate::ledger::SettlementShowdownInputRecord;
use crate::rpc::{
    GameActRequest, RoomBindAddressRequest, RoomBindSessionKeysRequest, RoomReadyRequest,
    RoomSummary,
};
use crate::server::audit_events::{
    lays_out_event, lays_out_private, sends, sends_all, writable_events, OutboxAction, OutboxPayload,
    PendingEvent, SeatPrivateEvent,
};
use crate::server::ops::{asked_id, CREDIT_LIMIT, REPLAY_LIMIT};
use crate::server::rooms::{accounts_with, is_account_of, AppRoomService};
use crate::server::showdown::{
    addresses_below, admin_texts, comes_from_record, filled_layers, given_addresses, has_winner, persisted_texts, recorded_seats,
    requested_seats, seats_fault, showdown_fault, ShowdownSeatCardsInput,
};
use crate::server::signatures::{
    act_params, bind_address_params, bind_keys_params, ready_params, SignedText,
};
use crate::server::wallet::{number_in_reply, reads_reply, rpc_fault, RoomChainAccount};
use crate::engine::showdown::{
    competes, lemma_best_seats, the_best_hands_win, ShowdownInput, ShowdownView,
};
use crate::engine::state::LayerView;
use crate::table::lookup;
use crate::text::{decimal, signed_decimal};

verus! {

/// What is signed of an action names the seat, the action, the amount and the payment.
pub proof fn signed_actions_in_documents(request: GameActRequest)
    ensures
        ({
            let document = act_params(request);
            &&& document is Object
            &&& document->Object_0.len() == 4
            &&& says(
                document,
                0,
                "seat_id"@,
                JsonView::Number(NumberView::Unsigned(request.seat_id as u64)),
            )
            &&& says(document, 1, "action_type"@, JsonView::Text(request.action_type@))
            &&& says(document, 2, "amount"@, maybe_text(request.amount))
            &&& says(document, 3, "tx_hash"@, maybe_text(request.tx_hash))
        }),
{
}

/// What is signed of a wish to tie a seat to an address names both.
pub proof fn signed_addresses_in_documents(request: RoomBindAddressRequest)
    ensures
        ({
            let document = bind_address_params(request);
            &&& document is Object
            &&& document->Object_0.len() == 2
            &&& says(
                document,
                0,
                "seat_id"@,
                JsonView::Number(NumberView::Unsigned(request.seat_id as u64)),
            )
            &&& says(document, 1, "seat_address"@, JsonView::Text(request.seat_address@))
        }),
{
}

/// What is signed of a wish to tie a seat to its keys names the seat, the address, the keys and
/// the proof.
pub proof fn signed_keys_in_documents(request: RoomBindSessionKeysRequest)
    ensures
        ({
            let document = bind_keys_params(request);
            &&& document is Object
            &&& document->Object_0.len() == 6
            &&& says(
                document,
                0,
                "seat_id"@,
                JsonView::Number(NumberView::Unsigned(request.seat_id as u64)),
            )
            &&& says(document, 1, "seat_address"@, JsonView::Text(request.seat_address@))
            &&& says(
                document,
                2,
                "card_encrypt_pubkey"@,
                JsonView::Text(request.card_encrypt_pubkey@),
            )
            &&& says(
                document,
                3,
                "request_verify_pubkey"@,
                JsonView::Text(request.request_verify_pubkey@),
            )
            &&& says(document, 4, "key_algo"@, JsonView::Text(request.key_algo@))
            &&& says(document, 5, "proof_signature"@, JsonView::Text(request.proof_signature@))
        }),
{
}

/// What is signed of a seat that joins or is ready names the seat.
pub proof fn signed_seats_in_documents(request: RoomReadyRequest)
    ensures
        ready_params(request) is Object,
        ready_params(request)->Object_0.len() == 1,
        says(
            ready_params(request),
            0,
            "seat_id"@,
            JsonView::Number(NumberView::Unsigned(request.seat_id as u64)),
        ),
{
}

/// What is signed of a request names its parts in this order, with the session left at zero.
pub proof fn signed_requests_are_laid_out(signed: SignedText, hand: Seq<char>, count: Seq<char>)
    requires
        signed.hand_id == Some(hand) || (signed.hand_id is None && hand.len() == 0),
        signed.action_seq is Some && count == decimal(signed.action_seq->0 as nat) || (
        signed.action_seq is None && count.len() == 0),
    ensures
        signed.text() == "method="@ + signed.method + "|session_id="@ + uuid_text(0)
            + "|room_id="@ + uuid_text(signed.room_id.0) + "|hand_id="@ + hand + "|action_seq="@
            + count + "|params="@ + json_text(canonical(signed.params)) + "|request_id="@
            + uuid_text(signed.meta.request_id.0) + "|request_nonce="@ + signed.meta.request_nonce@
            + "|request_ts="@ + signed.meta.request_ts.text() + "|request_expiry_ms="@
            + signed_decimal(signed.meta.request_expiry_ms as int),
{
    assert(signed.hand_id is None ==> hand =~= Seq::empty());
    assert(signed.action_seq is None ==> count =~= Seq::empty());
}

/// What is signed of a claim to keys names its parts in this order.
pub proof fn signed_claims_are_laid_out(
    claim: SeatKeyBindingClaim,
    expiry: Seq<char>,
    agent: Seq<char>,
    session: Seq<char>,
)
    requires
        claim.expires_at is Some && expiry == claim.expires_at->0.text() || (claim.expires_at is None
            && expiry.len() == 0),
        claim.agent_id is Some && agent == uuid_text((claim.agent_id->0).0) || (
        claim.agent_id is None && agent.len() == 0),
        claim.session_id is Some && session == uuid_text((claim.session_id->0).0) || (
        claim.session_id is None && session.len() == 0),
    ensures
        binding_message(claim) == "room_id="@ + uuid_text(claim.room_id.0) + "|seat_id="@
            + decimal(claim.seat_id as nat) + "|seat_address="@ + claim.seat_address@
            + "|card_encrypt_pubkey="@ + claim.card_encrypt_pubkey@ + "|request_verify_pubkey="@
            + claim.request_verify_pubkey@ + "|key_algo="@ + claim.key_algo@ + "|issued_at="@
            + claim.issued_at.text() + "|expires_at="@ + expiry + "|agent_id="@ + agent
            + "|session_id="@ + session,
{
    assert(claim.expires_at is None ==> expiry =~= Seq::empty());
    assert(claim.agent_id is None ==> agent =~= Seq::empty());
    assert(claim.session_id is None ==> session =~= Seq::empty());
}

/// Every fault of a signature has its own error.
pub proof fn signature_faults_have_their_errors()
    ensures
        fault_result(None) == Ok::<(), AuthError>(()),
        fault_result(Some(SignatureFault::Invalid)) == Err::<(), AuthError>(
            AuthError::InvalidEthereumSignature,
        ),
        fault_result(Some(SignatureFault::RecoveryFailed)) == Err::<(), AuthError>(
            AuthError::EthereumSignatureRecoveryFailed,
        ),
        fault_result(Some(SignatureFault::AddressMismatch)) == Err::<(), AuthError>(
            AuthError::EthereumAddressMismatch,
        ),
{
}

/// A transaction has as many confirmations as blocks from its own to the latest, both counted, and
/// none where it is in no block yet or in a later one.
pub proof fn confirmations_count_blocks(latest: int, block: int)
    requires
        0 <= latest <= u64::MAX,
        0 <= block <= u64::MAX,
    ensures
        block == 0 ==> confirmations_at(latest, block) == 0,
        latest < block ==> confirmations_at(latest, block) == 0,
        0 < block <= latest ==> confirmations_at(latest, block) == latest - block + 1,
{
}

/// Cards that were kept are those of their own room: for another room there are none, and cards
/// that cannot be read are an error.
pub proof fn kept_cards_belong_to_their_room(
    record: SettlementShowdownInputRecord,
    room_id: RoomId,
    found: Result<Option<ShowdownInput>, String>,
)
    requires
        comes_from_record(Some(record), room_id, found),
    ensures
        record.room_id != room_id ==> found is Ok && found->Ok_0 is None,
        record.room_id == room_id ==> {
            &&& found is Ok ==> found->Ok_0 is Some
            &&& found is Ok <==> showdown_fault(
                record.board_cards@,
                recorded_seats(record.revealed_hole_cards@),
                persisted_texts(),
            ) is None
            &&& found is Err ==> Some(found->Err_0@) == showdown_fault(
                record.board_cards@,
                recorded_seats(record.revealed_hole_cards@),
                persisted_texts(),
            )
            &&& found is Ok ==> {
                &&& found->Ok_0->0@.revealed.len() == record.revealed_hole_cards@.len()
                &&& found->Ok_0->0@.board.len() == cards_in(record.board_cards@)
                &&& forall|i: int|
                    0 <= i < found->Ok_0->0@.revealed.len() ==> (
                    #[trigger] found->Ok_0->0@.revealed[i]).0
                        == record.revealed_hole_cards@[i].seat_id
            }
        },
{
}

/// Where nothing was kept, nothing is found.
pub proof fn nothing_comes_from_nothing(
    room_id: RoomId,
    found: Result<Option<ShowdownInput>, String>,
)
    requires
        comes_from_record(None, room_id, found),
    ensures
        found is Ok,
        found->Ok_0 is None,
{
}

/// The seats of a request are told in their order, each with its cards.
pub proof fn requested_seats_stay_in_order(seats: Seq<ShowdownSeatCardsInput>, i: int)
    requires
        0 <= i < seats.len(),
    ensures
        requested_seats(seats).len() == seats.len(),
        requested_seats(seats)[i].0 == seats[i].seat_id,
        requested_seats(seats)[i].1 == seats[i].cards@,
{
}

proof fn lemma_first_seat_at_fault(
    seats: Seq<(u8, Seq<char>)>,
    at: int,
    count: int,
)
    requires
        0 <= at < count <= seats.len(),
        forall|i: int|
            0 <= i < at ==> cards_fault(
                (#[trigger] seats[i]).1,
                cards_in(seats[i].1),
            ) is None && cards_in(seats[i].1) == 2,
    ensures
        cards_fault(seats[at].1, cards_in(seats[at].1)) matches Some(fault) ==> {
            &&& seats_fault(seats, count, admin_texts()) == Some(
                "invalid seat cards for seat "@ + decimal(seats[at].0 as nat) + ": "@
                    + fault.message(),
            )
            &&& seats_fault(seats, count, persisted_texts()) == Some(
                "invalid persisted seat cards for seat "@ + decimal(seats[at].0 as nat) + ": "@
                    + fault.message(),
            )
        },
        cards_fault(seats[at].1, cards_in(seats[at].1)) is None && cards_in(seats[at].1) != 2 ==> {
            &&& seats_fault(seats, count, admin_texts()) == Some(
                "seat "@ + decimal(seats[at].0 as nat) + " must provide exactly 2 cards"@,
            )
            &&& seats_fault(seats, count, persisted_texts()) == Some(
                "invalid persisted seat cards length for seat "@ + decimal(seats[at].0 as nat),
            )
        },
    decreases count,
{
    if count - 1 > at {
        lemma_first_seat_at_fault(seats, at, count - 1);
    } else {
        lemma_no_seat_at_fault(seats, at);
        reveal_strlit("");
        assert("invalid persisted seat cards length for seat "@ + decimal(seats[at].0 as nat) + ""@
            =~= "invalid persisted seat cards length for seat "@ + decimal(seats[at].0 as nat));
    }
}

proof fn lemma_no_seat_at_fault(seats: Seq<(u8, Seq<char>)>, count: int)
    requires
        0 <= count <= seats.len(),
        forall|i: int|
            0 <= i < count ==> cards_fault(
                (#[trigger] seats[i]).1,
                cards_in(seats[i].1),
            ) is None && cards_in(seats[i].1) == 2,
    ensures
        seats_fault(seats, count, admin_texts()) is None,
        seats_fault(seats, count, persisted_texts()) is None,
    decreases count,
{
    if count > 0 {
        lemma_no_seat_at_fault(seats, count - 1);
        assert(cards_in(seats[count - 1].1) == 2);
    }
}

/// The first seat whose cards are wrong is told by its number: that its cards cannot be read, or
/// that they are not two.
pub proof fn the_first_wrong_seat_is_told(
    board: Seq<char>,
    seats: Seq<(u8, Seq<char>)>,
    at: int,
    fault: CardsFault,
)
    requires
        cards_fault(board, cards_in(board)) is None,
        0 <= at < seats.len(),
        forall|i: int|
            0 <= i < at ==> cards_fault(
                (#[trigger] seats[i]).1,
                cards_in(seats[i].1),
            ) is None && cards_in(seats[i].1) == 2,
    ensures
        cards_fault(seats[at].1, cards_in(seats[at].1)) == Some(fault) ==> {
            &&& showdown_fault(board, seats, admin_texts()) == Some(
                "invalid seat cards for seat "@ + decimal(seats[at].0 as nat) + ": "@
                    + fault.message(),
            )
            &&& showdown_fault(board, seats, persisted_texts()) == Some(
                "invalid persisted seat cards for seat "@ + decimal(seats[at].0 as nat) + ": "@
                    + fault.message(),
            )
        },
        cards_fault(seats[at].1, cards_in(seats[at].1)) is None && cards_in(seats[at].1) != 2 ==> {
            &&& showdown_fault(board, seats, admin_texts()) == Some(
                "seat "@ + decimal(seats[at].0 as nat) + " must provide exactly 2 cards"@,
            )
            &&& showdown_fault(board, seats, persisted_texts()) == Some(
                "invalid persisted seat cards length for seat "@ + decimal(seats[at].0 as nat),
            )
        },
{
    lemma_first_seat_at_fault(seats, at, seats.len() as int);
}

/// The addresses of a hand are listed from the lowest seat up, each seat with its own.
pub proof fn hands_list_their_addresses(
    addresses: Map<SeatId, String>,
    bound: nat,
    seat_id: SeatId,
    address: String,
)
    requires
        bound <= 256,
    ensures
        addresses_below(addresses, bound).contains((seat_id, address)) <==> seat_id < bound
            && addresses.dom().contains(seat_id) && addresses[seat_id] == address,
        forall|i: int|
            0 <= i < addresses_below(addresses, bound).len() ==> (#[trigger] addresses_below(
                addresses,
                bound,
            )[i]).0 < bound,
        forall|i: int, j: int|
            0 <= i < j < addresses_below(addresses, bound).len() ==> (#[trigger] addresses_below(
                addresses,
                bound,
            )[i]).0 < (#[trigger] addresses_below(addresses, bound)[j]).0,
    decreases bound,
{
    if bound > 0 {
        hands_list_their_addresses(addresses, (bound - 1) as nat, seat_id, address);
        let front = addresses_below(addresses, (bound - 1) as nat);
        let all = addresses_below(addresses, bound);
        let last = (bound - 1) as u8;
        if front.contains((seat_id, address)) {
            let at = choose|k: int| 0 <= k < front.len() && front[k] == (seat_id, address);
            assert(all[at] == (seat_id, address));
        }
        if addresses.contains_key(last) {
            assert(all == front.push((last, addresses[last])));
            if seat_id == last && addresses[last] == address {
                assert(all[front.len() as int] == (seat_id, address));
            }
            if all.contains((seat_id, address)) {
                let at = choose|k: int| 0 <= k < all.len() && all[k] == (seat_id, address);
                if at < front.len() {
                    assert(front[at] == (seat_id, address));
                }
            }
        }
    }
}

/// An error of a node is told by its code, zero where there is none, and its message.
pub proof fn node_errors_are_told(error: JsonView, code: i64, message: Seq<char>)
    requires
        member_value(error, "code"@) is Some && signed_value(member_value(error, "code"@)->0)
            == Some(code) || (code == 0 && (member_value(error, "code"@) is None || signed_value(
            member_value(error, "code"@)->0,
        ) is None)),
        member_text(error, "message"@) == Some(message) || (member_text(error, "message"@) is None
            && message == "unknown"@),
    ensures
        rpc_fault(error) == "rpc code="@ + signed_decimal(code as int) + " message="@ + message,
{
}

/// A number that a node answers with is that of its digits; an answer that is no text is told by
/// the method.
pub proof fn node_answers_are_read(
    method: Seq<char>,
    reply: JsonView,
    max: int,
    read: Result<u128, String>,
)
    ensures
        reply is Text ==> {
            &&& number_in_reply(method, reply, max) is Ok <==> hex_quantity(
                reply->Text_0,
                max,
            ) is Ok
            &&& number_in_reply(method, reply, max) is Ok ==> number_in_reply(
                method,
                reply,
                max,
            )->Ok_0 == hex_quantity(reply->Text_0, max)->Ok_0
        },
        !(reply is Text) ==> number_in_reply(method, reply, max) == Err::<int, Seq<char>>(
            method + " returned non-string"@,
        ),
        reads_reply(method, reply, max, read) ==> {
            &&& read is Ok <==> reply is Text && hex_quantity(reply->Text_0, max) is Ok
            &&& read is Ok ==> read->Ok_0 == hex_quantity(reply->Text_0, max)->Ok_0
            &&& !(reply is Text) ==> read->Err_0@ == method + " returned non-string"@
        },
{
}

/// An event of a hand is laid out for its room and waits, never tried before.
pub proof fn hand_events_are_laid_out(event: HandEvent, record: OutboxEventRecord)
    requires
        lays_out_event(event, record),
    ensures
        record.topic@ == "hand.events"@,
        record.partition_key@ == uuid_text(event.room_id.0),
        event.tree() matches Some(document) ==> record.payload_json@ == document,
        record.status@ == "pending"@,
        record.attempts == 0,
        record.delivered_at is None,
        record.available_at == record.created_at,
{
}

/// What one seat may see is laid out for that seat of its room and waits, never tried before.
pub proof fn private_events_are_laid_out(event: SeatPrivateEvent, record: OutboxEventRecord)
    requires
        lays_out_private(event, record),
    ensures
        record.topic@ == "seat.events"@,
        record.partition_key@ == uuid_text(event.room_id.0) + ":"@ + decimal(event.seat_id as nat),
        record.payload_json@ == event.tree(),
        record.status@ == "pending"@,
        record.attempts == 0,
        record.delivered_at is None,
        record.available_at == record.created_at,
{
}

/// The events that are laid out are all that a document can hold and no others.
pub proof fn only_writable_events_are_laid_out(events: Seq<HandEvent>, i: int)
    requires
        0 <= i < events.len(),
    ensures
        events[i].tree() is Some ==> writable_events(events).contains(events[i]),
        forall|k: int|
            0 <= k < writable_events(events).len() ==> (#[trigger] writable_events(
                events,
            )[k]).tree() is Some,
{
    broadcast use vstd::seq_lib::group_filter_ensures;

    let writable = |event: HandEvent| event.tree() is Some;
    if writable(events[i]) {
        events.lemma_filter_contains(writable, i);
    }
    assert forall|k: int| 0 <= k < writable_events(events).len() implies (
    #[trigger] writable_events(events)[k]).tree() is Some by {
        assert(writable(events.filter(writable)[k]));
    }
}

/// An event that is sent goes out for its own room, to its own seat where only one may see it, and
/// is noted under its own identifier.
pub proof fn sent_events_are_noted(event: PendingEvent, publish: OutboxAction, mark: OutboxAction)
    requires
        sends(event, publish, mark),
    ensures
        publish is Publish,
        mark == OutboxAction::MarkDelivered(event.outbox_event_id),
        event.parsed matches OutboxPayload::Hand(told) ==> publish->Publish_0.room_id
            == told.room_id && publish->Publish_0.payload@ == event.payload_json@,
        event.parsed matches OutboxPayload::Seat(told) ==> publish->Publish_0.room_id
            == told.room_id && publish->Publish_0.seat_id == Some(told.seat_id)
            && publish->Publish_0.payload@ == told.payload@,
        event.parsed is Hand || event.parsed is Seat,
{
}

/// A page is asked for by the text of an identifier, and by no other text.
pub proof fn pages_are_asked_for_by_identifier(text: Seq<char>, id: u128)
    ensures
        asked_id(text) == Some(id) <==> parsed_uuid(text) == Ok::<u128, Seq<char>>(id),
        asked_id(text) is None <==> parsed_uuid(text) is Err,
{
}

/// A room that had an account keeps it; a room that had none gets one of a secret key, behind
/// those of the others, which stay.
pub proof fn rooms_keep_their_accounts(
    before: Seq<(u128, RoomChainAccount)>,
    after: Seq<(u128, RoomChainAccount)>,
    room_id: RoomId,
)
    requires
        accounts_with(before, after, room_id),
    ensures
        lookup(before, room_id.0) is Some ==> after == before,
        lookup(before, room_id.0) is None ==> {
            &&& after.len() == before.len() + 1
            &&& after.drop_last() == before
            &&& after.last().0 == room_id.0
            &&& exists|secret: Seq<u8>| #[trigger]
                is_secret(secret) && after.last().1.address@ == address_of(public_point(secret))
                    && after.last().1.private_key_hex@ == crate::evm::hex_of(secret)
        },
{
    if lookup(before, room_id.0) is None {
        let (account, secret) = choose|account: RoomChainAccount, secret: Seq<u8>| #[trigger]
            is_account_of(account, secret) && after == crate::table::upserted(
                before,
                room_id.0,
                account,
            );
        crate::record_laws::the_last_row_counts(before, room_id.0, account, room_id.0);
        assert(after.drop_last() =~= before);
        assert(is_secret(secret));
    }
}

/// A room that is listed is active and told with the address of its own account.
pub proof fn rooms_are_listed_with_their_address(
    service: AppRoomService,
    room_id: RoomId,
    summary: RoomSummary,
)
    requires
        service.summarizes(room_id, summary),
    ensures
        summary.room_id == room_id,
        summary.status@ == "active"@,
        lookup(service.accounts(), room_id.0) is Some,
        summary.chain_address == Some(lookup(service.accounts(), room_id.0)->0.address),
{
}

/// A layer can be awarded exactly where the flop is on the board and somebody who can win it shows
/// their cards.
pub proof fn layers_are_won_by_who_shows(input: ShowdownView, layer: LayerView)
    ensures
        has_winner(input, layer) <==> input.board.len() >= 3 && exists|i: int| #[trigger]
            competes(input, Some(layer.eligible_seats), i),
{
    let eligible = Some(layer.eligible_seats);
    let scores = input.scores(eligible);
    let winners = input.best_seats(scores, eligible, input.revealed.len());
    if has_winner(input, layer) {
        lemma_best_seats(input, scores, eligible, input.revealed.len());
        assert(input.wins_among(scores, eligible, input.revealed.len(), winners[0]));
        let i = choose|i: int|
            0 <= i < input.revealed.len() && #[trigger] input.has_best(scores, i, eligible)
                && input.revealed[i].0 == winners[0];
        assert(competes(input, eligible, i));
    } else {
        the_best_hands_win(input, eligible, None);
    }
}

/// Where no addresses were given for a hand, none are listed.
pub proof fn no_addresses_are_made_up(addresses: HashMap<SeatId, String>, seat_id: SeatId)
    ensures
        given_addresses(None).len() == 0,
        forall|address: String| #[trigger]
            given_addresses(Some(addresses)).contains((seat_id, address))
                <==> addresses@.dom().contains(seat_id) && addresses@[seat_id] == address,
{
    assert forall|address: String| #[trigger]
        given_addresses(Some(addresses)).contains((seat_id, address))
            <==> addresses@.dom().contains(seat_id) && addresses@[seat_id] == address by {
        hands_list_their_addresses(addresses@, 256, seat_id, address);
    }
}

/// Each event is sent in its turn and noted right after.
pub proof fn every_event_is_sent_and_noted(
    events: Seq<PendingEvent>,
    actions: Seq<OutboxAction>,
    i: int,
)
    requires
        sends_all(events, actions),
        0 <= i < events.len(),
    ensures
        actions[2 * i] is Publish,
        actions[2 * i + 1] == OutboxAction::MarkDelivered(events[i].outbox_event_id),
{
    assert(sends(events[i], actions[2 * i], actions[2 * i + 1]));
}

/// Only layers that hold chips are awarded, and all of those.
pub proof fn only_filled_layers_are_awarded(layers: Seq<LayerView>, i: int)
    requires
        0 <= i < layers.len(),
    ensures
        layers[i].amount > 0 ==> filled_layers(layers).contains(layers[i]),
        forall|k: int|
            0 <= k < filled_layers(layers).len() ==> (#[trigger] filled_layers(layers)[k]).amount
                > 0,
{
    broadcast use vstd::seq_lib::group_filter_ensures;

    let filled = |layer: LayerView| layer.amount > 0;
    if filled(layers[i]) {
        layers.lemma_filter_contains(filled, i);
    }
    assert forall|k: int| 0 <= k < filled_layers(layers).len() implies (#[trigger] filled_layers(
        layers,
    )[k]).amount > 0 by {
        assert(filled(layers.filter(filled)[k]));
    }
}

/// How many events and credits a page holds at most.
pub proof fn pages_have_their_limits()
    ensures
        REPLAY_LIMIT == 500,
        CREDIT_LIMIT == 100,
{
}

} // verus!
