//! What the server promises: who is paid, whom it believes, and what it tells.
use vstd::prelude::*;

use crate::chain_watcher::hex_quantity;
use crate::cards::{cards_fault, cards_in};
use crate::document::{member_text, text_value};
use crate::domain::events::{AuditBehaviorEventKind, HandEvent, HandEventKind};
use crate::domain::game::{HandStatus, SeatId, Street};
use crate::domain::ids::{uuid_text, RoomId};
use crate::domain::money::Chips;
use crate::engine::pots::{is_slice, layers_are_slices_of_the_pot, payers_of, pot_layers_of};
use crate::engine::showdown::{is_unbeaten, the_best_hands_win, ShowdownView};
use crate::engine::state::LayerView;
use crate::evm::{
    address_of, bytes_of_hex, is_hex, loaded_secret, public_point, signature_fault, SignatureFault,
};
use crate::json::JsonView;
use crate::rpc::{
    EventEnvelope, EventTopic, GameActRequest, RoomBindAddressRequest, RoomBindSessionKeysRequest,
    RoomReadyRequest,
};
use crate::server::audit_events::{
    delivery_payload, goes_out_as, readable_events, reject_payload, sent_events, street_column,
    status_column, HoleCardsDeliveryAuditEvent, OutboxPayload, PendingEvent,
    RequestRejectAuditEvent, RequestRejectReason,
};
use crate::server::rooms::{bound_below, with_room, AppRoomService, RoomSeat, RoomServiceError};
use crate::server::settings::{
    are_limits, limit_set, on_if_affirmed, on_unless_denied, says_something, PoolLimits,
};
use crate::server::settlement::{SettlementTransferReceipt, SettlementTxStatus};
use crate::server::showdown::{
    admin_texts, awards_layers, filled_layers, persisted_texts, seat_fault, seats_fault,
    showdown_fault, PotAwardInput,
};
use crate::server::signatures::{
    act_params, bind_address_params, bind_keys_params, ready_params, tests_signature, SignedText,
};
use crate::server::wallet::{
    account_fault, batch_fault, reads_receipt, transferred, RoomChainAccount,
};
use crate::chain_tx::{recipient_fault, BatchTransfer};
use crate::table::lookup;
use crate::text::{decimal, lowered, read_number, trimmed};
use vstd::utf8::encode_utf8;

verus! {

proof fn lemma_all_filled(layers: Seq<LayerView>)
    requires
        forall|i: int| 0 <= i < layers.len() ==> (#[trigger] layers[i]).amount > 0,
    ensures
        filled_layers(layers) == layers,
    decreases layers.len(),
{
    reveal(Seq::filter);
    if layers.len() > 0 {
        let front = layers.drop_last();
        assert forall|i: int| 0 <= i < front.len() implies (#[trigger] front[i]).amount > 0 by {
            assert(front[i] == layers[i]);
        }
        lemma_all_filled(front);
        assert(layers[layers.len() - 1].amount > 0);
        assert(front.push(layers.last()) =~= layers);
    }
}

/// Every layer of the pot is awarded, whole and in its order, to exactly those who paid into it,
/// did not fold and show a hand that nobody else of them beats.
pub proof fn each_layer_goes_to_its_best_hands(
    input: ShowdownView,
    contributions: Map<SeatId, Chips>,
    folded: Set<SeatId>,
    awards: Seq<PotAwardInput>,
    i: int,
)
    requires
        awards_layers(input, filled_layers(pot_layers_of(contributions, folded)), awards),
        0 <= i < awards.len(),
    ensures
        ({
            let layers = pot_layers_of(contributions, folded);
            let eligible = Some(layers[i].eligible_seats);
            &&& awards.len() == layers.len()
            &&& awards[i].amount.0 == layers[i].amount
            &&& awards[i].amount.0 > 0
            &&& awards[i].eligible_seats@ == layers[i].eligible_seats
            &&& awards[i].winner_seats@.len() > 0
            &&& forall|seat: SeatId| #[trigger]
                awards[i].winner_seats@.contains(seat) <==> exists|k: int| #[trigger]
                    is_unbeaten(input, eligible, k) && input.revealed[k].0 == seat
            &&& forall|seat: SeatId| #[trigger]
                awards[i].winner_seats@.contains(seat) ==> !folded.contains(seat)
                    && contributions.dom().contains(seat) && contributions[seat].0 > 0
        }),
{
    let layers = pot_layers_of(contributions, folded);
    let levels = layers_are_slices_of_the_pot(contributions, folded);
    assert forall|k: int| 0 <= k < layers.len() implies (#[trigger] layers[k]).amount > 0 by {
        assert(is_slice(contributions, folded, levels[k], levels[k + 1], layers[k]));
        let step = levels[k + 1] - levels[k];
        let count = crate::engine::seats::in_order(payers_of(contributions, levels[k + 1])).len() as int;
        assert(step * count > 0) by (nonlinear_arith)
            requires
                step > 0,
                count > 0,
        ;
    }
    lemma_all_filled(layers);
    let eligible = Some(layers[i].eligible_seats);
    let award = awards[i];
    the_best_hands_win(input, eligible, Some(award.winner_seats@));
    assert(is_slice(contributions, folded, levels[i], levels[i + 1], layers[i]));
    lemma_levels_nonnegative(contributions, folded, levels, i);
    assert forall|seat: SeatId| #[trigger]
        award.winner_seats@.contains(seat) implies !folded.contains(seat)
        && contributions.dom().contains(seat) && contributions[seat].0 > 0 by {
        let k = choose|k: int| #[trigger]
            is_unbeaten(input, eligible, k) && input.revealed[k].0 == seat;
        assert(layers[i].eligible_seats.contains(seat));
    }
}

proof fn lemma_levels_nonnegative(
    contributions: Map<SeatId, Chips>,
    folded: Set<SeatId>,
    levels: Seq<int>,
    i: int,
)
    requires
        0 <= i < levels.len(),
        levels[0] == 0,
        levels.len() == pot_layers_of(contributions, folded).len() + 1,
        forall|k: int|
            0 <= k < pot_layers_of(contributions, folded).len() ==> is_slice(
                contributions,
                folded,
                levels[k],
                levels[k + 1],
                #[trigger] pot_layers_of(contributions, folded)[k],
            ),
    ensures
        levels[i] >= 0,
    decreases i,
{
    if i > 0 {
        lemma_levels_nonnegative(contributions, folded, levels, i - 1);
        assert(is_slice(
            contributions,
            folded,
            levels[i - 1],
            levels[i - 1 + 1],
            pot_layers_of(contributions, folded)[i - 1],
        ));
    }
}

/// A payment without a receipt is pending; with one it is confirmed exactly where its status is
/// one, and has as many confirmations as blocks from its own to the latest, both counted.
pub proof fn receipts_in_plain_terms(
    tx_hash: Seq<char>,
    receipt: JsonView,
    latest: JsonView,
    read: Result<SettlementTransferReceipt, String>,
)
    requires
        reads_receipt(tx_hash, receipt, latest, read),
    ensures
        read is Ok ==> read->Ok_0.tx_hash@ == tx_hash,
        read is Ok ==> (read->Ok_0.status == SettlementTxStatus::Pending <==> receipt is Null),
        receipt is Null ==> read is Ok && read->Ok_0.confirmations == 0,
        read is Ok && !(receipt is Null) ==> {
            &&& read->Ok_0.status == SettlementTxStatus::Confirmed <==> member_text(
                receipt,
                "status"@,
            ) is Some && hex_quantity(
                member_text(receipt, "status"@)->0,
                u64::MAX as int,
            )->Ok_0 == 1
            &&& text_value(latest) is Some
            &&& ({
                let now = hex_quantity(text_value(latest)->0, u64::MAX as int)->Ok_0;
                let mined = match member_text(receipt, "blockNumber"@) {
                    Some(text) => hex_quantity(text, u64::MAX as int)->Ok_0,
                    None => 0,
                };
                &&& now < mined ==> read->Ok_0.confirmations == 1
                &&& mined <= now && now - mined < u64::MAX ==> read->Ok_0.confirmations == now
                    - mined + 1
            })
        },
        !(receipt is Null) && text_value(latest) is None ==> read is Err && read->Err_0@
            == "eth_blockNumber returned non-string"@,
{
}

/// What a batch pays in all grows with every transfer by its amount.
pub proof fn transfers_add_up(transfers: Seq<BatchTransfer>, more: BatchTransfer)
    ensures
        transferred(Seq::empty(), 0) == 0,
        transferred(transfers.push(more), transfers.len() + 1) == transferred(
            transfers,
            transfers.len(),
        ) + more.amount,
{
    lemma_transferred_in_front(transfers, transfers.push(more), transfers.len());
}

proof fn lemma_transferred_in_front(a: Seq<BatchTransfer>, b: Seq<BatchTransfer>, count: nat)
    requires
        count <= a.len() <= b.len(),
        forall|i: int| 0 <= i < a.len() ==> a[i] == b[i],
    ensures
        transferred(a, count) == transferred(b, count),
    decreases count,
{
    if count > 0 {
        lemma_transferred_in_front(a, b, (count - 1) as nat);
    }
}

/// A batch is refused where it is empty, then where it pays more than an amount can be, then for
/// its first recipient that cannot be read.
pub proof fn batches_are_refused_for_a_reason(transfers: Seq<BatchTransfer>)
    ensures
        transfers.len() == 0 ==> batch_fault(transfers) == Some(
            "batch transfer list cannot be empty"@,
        ),
        transfers.len() > 0 && transferred(transfers, transfers.len()) > u128::MAX ==> batch_fault(
            transfers,
        ) == Some("batch payout total overflow: amount overflow"@),
        transfers.len() > 0 && transferred(transfers, transfers.len()) <= u128::MAX
            ==> batch_fault(transfers) == recipient_fault(transfers, transfers.len()),
{
}

/// A room can sign exactly where it has an account whose key can be read and loaded and whose
/// address, capital or small, is that of the key.
pub proof fn rooms_sign_with_the_key_of_their_address(
    room_id: RoomId,
    account: Option<RoomChainAccount>,
)
    ensures
        account_fault(room_id, account) is None <==> {
            &&& account is Some
            &&& is_hex(account->0.private_key_hex@)
            &&& loaded_secret(bytes_of_hex(account->0.private_key_hex@)) is Ok
            &&& lowered(
                address_of(
                    public_point(loaded_secret(bytes_of_hex(account->0.private_key_hex@))->Ok_0),
                ),
            ) == lowered(account->0.address@)
        },
        account is None ==> account_fault(room_id, account) == Some(
            "room "@ + uuid_text(room_id.0) + " has no chain signer"@,
        ),
{
}

/// A request is believed exactly where its signature has no fault for the address, over the
/// text of the request; the session is never part of it.
pub proof fn only_good_signatures_are_believed(
    address: Seq<char>,
    signed: SignedText,
    result: Result<(), String>,
)
    requires
        tests_signature(address, signed, result),
    ensures
        result is Ok <==> signature_fault(
            address,
            encode_utf8(signed.text()),
            signed.meta.signature@,
        ) is None,
        ({
            let fault = signature_fault(
                address,
                encode_utf8(signed.text()),
                signed.meta.signature@,
            );
            &&& fault == Some(SignatureFault::Invalid) ==> result->Err_0@
                == "invalid ethereum signature"@
            &&& fault == Some(SignatureFault::RecoveryFailed) ==> result->Err_0@
                == "ethereum signature recovery failed"@
            &&& fault == Some(SignatureFault::AddressMismatch) ==> result->Err_0@
                == "ethereum address mismatch"@
        }),
{
}

/// What is signed of an action tells the seat, the action, the amount and the payment.
pub proof fn signed_actions_tell_everything(a: GameActRequest, b: GameActRequest)
    requires
        act_params(a) == act_params(b),
    ensures
        a.seat_id == b.seat_id,
        a.action_type@ == b.action_type@,
        a.amount is Some == b.amount is Some,
        a.amount is Some ==> a.amount->0@ == b.amount->0@,
        a.tx_hash is Some == b.tx_hash is Some,
        a.tx_hash is Some ==> a.tx_hash->0@ == b.tx_hash->0@,
{
    let x = act_params(a)->Object_0;
    let y = act_params(b)->Object_0;
    assert(x[0].1 == y[0].1 && x[1].1 == y[1].1 && x[2].1 == y[2].1 && x[3].1 == y[3].1);
}

/// What is signed of a wish to tie a seat to an address tells both.
pub proof fn signed_addresses_tell_the_seat(a: RoomBindAddressRequest, b: RoomBindAddressRequest)
    requires
        bind_address_params(a) == bind_address_params(b),
    ensures
        a.seat_id == b.seat_id,
        a.seat_address@ == b.seat_address@,
{
    let x = bind_address_params(a)->Object_0;
    let y = bind_address_params(b)->Object_0;
    assert(x[0].1 == y[0].1 && x[1].1 == y[1].1);
}

/// What is signed of a wish to tie a seat to its keys tells the seat, the address, the keys and
/// the proof.
pub proof fn signed_keys_tell_the_seat(a: RoomBindSessionKeysRequest, b: RoomBindSessionKeysRequest)
    requires
        bind_keys_params(a) == bind_keys_params(b),
    ensures
        a.seat_id == b.seat_id,
        a.seat_address@ == b.seat_address@,
        a.card_encrypt_pubkey@ == b.card_encrypt_pubkey@,
        a.request_verify_pubkey@ == b.request_verify_pubkey@,
        a.key_algo@ == b.key_algo@,
        a.proof_signature@ == b.proof_signature@,
{
    let x = bind_keys_params(a)->Object_0;
    let y = bind_keys_params(b)->Object_0;
    assert(x[0].1 == y[0].1 && x[1].1 == y[1].1 && x[2].1 == y[2].1);
    assert(x[3].1 == y[3].1 && x[4].1 == y[4].1 && x[5].1 == y[5].1);
}

/// What is signed by a seat that is ready tells the seat.
pub proof fn signed_readiness_tells_the_seat(a: RoomReadyRequest, b: RoomReadyRequest)
    requires
        ready_params(a) == ready_params(b),
    ensures
        a.seat_id == b.seat_id,
{
    let x = ready_params(a)->Object_0;
    let y = ready_params(b)->Object_0;
    assert(x[0].1 == y[0].1);
}

/// The pages for those who run the server are on unless the setting denies them; settling by
/// itself is off unless the setting affirms it. Case and white space around do not matter.
pub proof fn switches_know_their_words(value: Option<String>)
    ensures
        value is None ==> on_unless_denied(value) && !on_if_affirmed(value),
        value is Some ==> ({
            let word = lowered(trimmed(value->0@));
            &&& !on_unless_denied(value) <==> (word == "0"@ || word == "false"@ || word == "off"@
                || word == "no"@)
            &&& on_if_affirmed(value) <==> (word == "1"@ || word == "true"@ || word == "on"@ || word
                == "yes"@)
        }),
        says_something(value) <==> value is Some && trimmed(value->0@).len() > 0,
{
}

/// A setting counts as a number where it is one in decimal digits that fits; the pool keeps
/// twenty connections at most, two at least and waits ten seconds unless told otherwise, and
/// never keeps more at least than at most.
pub proof fn pools_have_their_limits(
    limits: PoolLimits,
    most: Option<String>,
    least: Option<String>,
    wait: Option<String>,
)
    requires
        are_limits(limits, most, least, wait),
    ensures
        most is None ==> limits.max_connections == 20,
        wait is None ==> limits.acquire_timeout_ms == 10_000,
        least is None && limits.max_connections >= 2 ==> limits.min_connections == 2,
        limits.min_connections <= limits.max_connections,
        most is Some && read_number(most->0@, 10, u32::MAX as int) is Ok ==> limits.max_connections
            == read_number(most->0@, 10, u32::MAX as int)->Ok_0,
        wait is Some && read_number(wait->0@, 10, u64::MAX as int) is Ok
            ==> limits.acquire_timeout_ms == read_number(wait->0@, 10, u64::MAX as int)->Ok_0,
        least is Some && read_number(least->0@, 10, u32::MAX as int) is Ok && read_number(
            least->0@,
            10,
            u32::MAX as int,
        )->Ok_0 <= limits.max_connections ==> limits.min_connections == read_number(
            least->0@,
            10,
            u32::MAX as int,
        )->Ok_0,
{
}

/// A limit of requests is at least one, and stays what it was where no number is given.
pub proof fn request_limits_are_at_least_one(value: Option<String>, before: usize)
    ensures
        value is None ==> limit_set(value, before) == before,
        value is Some && read_number(value->0@, 10, usize::MAX as int) is Err ==> limit_set(
            value,
            before,
        ) == before,
        value is Some && read_number(value->0@, 10, usize::MAX as int) is Ok ==> ({
            let n = read_number(value->0@, 10, usize::MAX as int)->Ok_0;
            &&& n == 0 ==> limit_set(value, before) == 1
            &&& n > 0 ==> limit_set(value, before) == n
        }),
{
}

/// Sending stops at the first event that cannot be read: what comes before it is readable, and
/// nothing that comes after it is sent.
pub proof fn sending_stops_at_the_first_unreadable(events: Seq<PendingEvent>)
    ensures
        readable_events(events).len() <= events.len(),
        readable_events(events) == events.take(readable_events(events).len() as int),
        forall|i: int|
            0 <= i < readable_events(events).len() ==> !((
            #[trigger] events[i]).parsed is Unreadable),
        readable_events(events).len() < events.len()
            ==> events[readable_events(events).len() as int].parsed is Unreadable,
    decreases events.len(),
{
    if events.len() > 0 {
        let front = events.drop_last();
        sending_stops_at_the_first_unreadable(front);
        let n = readable_events(front).len() as int;
        assert(front.take(n) =~= events.take(n));
        if n == events.len() - 1 && !(events.last().parsed is Unreadable) {
            assert(events.take(events.len() as int) =~= front.push(events.last()));
            assert(front.take(n) =~= front);
        }
        assert forall|i: int| 0 <= i < readable_events(events).len() implies !((
        #[trigger] events[i]).parsed is Unreadable) by {
            if i < n {
                assert(front[i] == events[i]);
            }
        }
        if n < front.len() {
            assert(front[n] == events[n]);
        }
    } else {
        assert(events.take(0) =~= readable_events(events));
    }
}

/// Events of a topic that nobody listens to are passed over; all others are sent.
pub proof fn only_known_topics_are_sent(events: Seq<PendingEvent>, i: int)
    requires
        0 <= i < events.len(),
    ensures
        !(events[i].parsed is Other) ==> sent_events(events).contains(events[i]),
        forall|k: int|
            0 <= k < sent_events(events).len() ==> !((
            #[trigger] sent_events(events)[k]).parsed is Other),
{
    broadcast use vstd::seq_lib::group_filter_ensures;

    let known = |event: PendingEvent| !(event.parsed is Other);
    if known(events[i]) {
        events.lemma_filter_contains(known, i);
    }
    assert forall|k: int| 0 <= k < sent_events(events).len() implies !((
    #[trigger] sent_events(events)[k]).parsed is Other) by {
        assert(known(events.filter(known)[k]));
    }
}

/// Those who listen are told of an event of a hand under its name, with the seat whose turn
/// begins or who acted, and with the document as it was kept.
pub proof fn listeners_hear_of_hands(
    event: HandEvent,
    payload: JsonView,
    envelope: Result<Option<EventEnvelope>, String>,
)
    requires
        goes_out_as(OutboxPayload::Hand(event), payload, envelope),
    ensures
        envelope is Ok,
        envelope->Ok_0 is Some,
        ({
            let told = envelope->Ok_0->0;
            &&& told.topic == EventTopic::HandEvents
            &&& told.room_id == event.room_id
            &&& told.hand_id == Some(event.hand_id)
            &&& told.payload@ == payload
            &&& event.kind matches HandEventKind::TurnStarted { seat_id } ==> told.seat_id == Some(
                seat_id,
            ) && told.event_name@ == "turn_started"@
            &&& event.kind matches HandEventKind::ActionAccepted(action) ==> told.seat_id == Some(
                action.seat_id,
            ) && told.event_name@ == "action_accepted"@
            &&& event.kind is HandStarted ==> told.seat_id is None && told.event_name@
                == "hand_started"@
            &&& event.kind is StreetChanged ==> told.seat_id is None && told.event_name@
                == "street_changed"@
            &&& event.kind is PotUpdated ==> told.seat_id is None && told.event_name@
                == "pot_updated"@
            &&& event.kind is HandClosed ==> told.seat_id is None && told.event_name@
                == "hand_closed"@
        }),
{
}

/// The audit knows of an event in a room whose seat, which action and which payment it concerns.
pub proof fn the_audit_knows_whom_it_concerns(kind: AuditBehaviorEventKind)
    ensures
        kind matches AuditBehaviorEventKind::SeatJoined { seat_id } ==> kind.spec_seat_of() == Some(
            seat_id,
        ) && kind.spec_name() == "seat_joined"@,
        kind matches AuditBehaviorEventKind::SeatLeft { seat_id } ==> kind.spec_seat_of() == Some(
            seat_id,
        ) && kind.spec_name() == "seat_left"@,
        kind matches AuditBehaviorEventKind::SeatAddressBound { seat_id } ==> kind.spec_seat_of()
            == Some(seat_id) && kind.spec_name() == "seat_address_bound"@,
        kind matches AuditBehaviorEventKind::SeatSessionKeysBound { seat_id, .. }
            ==> kind.spec_seat_of() == Some(seat_id) && kind.spec_name()
            == "seat_session_keys_bound"@,
        kind matches AuditBehaviorEventKind::TurnTimeoutAutoFold { seat_id, action_seq }
            ==> kind.spec_seat_of() == Some(seat_id) && kind.spec_action_of() == Some(action_seq)
            && kind.spec_name() == "turn_timeout_auto_fold"@,
        kind matches AuditBehaviorEventKind::ChainTxVerificationCallback {
            seat_id,
            action_seq,
            tx_hash,
            ..
        } ==> kind.spec_seat_of() == seat_id && kind.spec_action_of() == action_seq
            && kind.spec_payment_of() == Some(tx_hash) && kind.spec_name()
            == "chain_tx_verification_callback"@,
        !(kind is ChainTxVerificationCallback) ==> kind.spec_payment_of() is None,
        !(kind is ChainTxVerificationCallback) && !(kind is TurnTimeoutAutoFold)
            ==> kind.spec_action_of() is None,
{
}

/// The audit's document of an event in a room tells the event.
pub proof fn audited_events_tell_themselves(a: AuditBehaviorEventKind, b: AuditBehaviorEventKind)
    requires
        a.tree() == b.tree(),
    ensures
        a.spec_name() == b.spec_name(),
        a.detail_tree() == b.detail_tree(),
{
    let x = a.tree()->Object_0[0];
    let y = b.tree()->Object_0[0];
    assert(x == y);
}

/// The audit's document of a request that was rejected tells the method, the request and the
/// detail, and the reason has its own kind of event.
pub proof fn rejections_tell_the_request(a: RequestRejectAuditEvent, b: RequestRejectAuditEvent)
    ensures
        reject_payload(a) == reject_payload(b) ==> {
            &&& a.method@ == b.method@
            &&& a.reason.spec_name() == b.reason.spec_name()
            &&& a.request_nonce is Some == b.request_nonce is Some
            &&& a.request_nonce is Some ==> a.request_nonce->0@ == b.request_nonce->0@
            &&& a.detail is Some == b.detail is Some
            &&& a.detail is Some ==> a.detail->0@ == b.detail->0@
            &&& a.request_id is Some == b.request_id is Some
            &&& a.request_id is Some ==> a.request_id == b.request_id
        },
        RequestRejectReason::RequestExpiredOrInvalidWindow.spec_kind() == "request_rejected"@,
        RequestRejectReason::MissingOrInvalidSignature.spec_kind()
            == "request_rejected_signature"@,
        RequestRejectReason::InvalidKeyBindingProof.spec_kind() == "request_rejected_key_binding"@,
        RequestRejectReason::ReplayRejected.spec_kind() == "request_rejected_replay"@,
{
    if reject_payload(a) == reject_payload(b) {
        let x = reject_payload(a)->Object_0;
        let y = reject_payload(b)->Object_0;
        assert(x[0].1 == y[0].1 && x[1].1 == y[1].1 && x[2].1 == y[2].1);
        assert(x[3].1 == y[3].1 && x[4].1 == y[4].1);
        if let (Some(one), Some(other)) = (a.request_id, b.request_id) {
            crate::domain::ids::identifiers_read_apart(one.0, other.0);
        }
    }
}

/// The audit's document of cards that were encrypted tells the event, the key, the algorithm and
/// the length.
pub proof fn deliveries_tell_themselves(
    a: HoleCardsDeliveryAuditEvent,
    b: HoleCardsDeliveryAuditEvent,
)
    requires
        delivery_payload(a) == delivery_payload(b),
    ensures
        a.event_seq == b.event_seq,
        a.key_id@ == b.key_id@,
        a.algorithm@ == b.algorithm@,
        a.ciphertext_len as u64 == b.ciphertext_len as u64,
{
    let x = delivery_payload(a)->Object_0;
    let y = delivery_payload(b)->Object_0;
    assert(x[0].1 == y[0].1 && x[1].1 == y[1].1 && x[2].1 == y[2].1 && x[3].1 == y[3].1);
}

/// The database knows a hand by the words for its status and its street.
pub proof fn columns_have_their_words()
    ensures
        status_column(HandStatus::Created) == "Created"@,
        status_column(HandStatus::Running) == "Running"@,
        status_column(HandStatus::Showdown) == "Showdown"@,
        status_column(HandStatus::Settling) == "Settling"@,
        status_column(HandStatus::Settled) == "Settled"@,
        status_column(HandStatus::Aborted) == "Aborted"@,
        street_column(Street::Preflop) == "Preflop"@,
        street_column(Street::Flop) == "Flop"@,
        street_column(Street::Turn) == "Turn"@,
        street_column(Street::River) == "River"@,
        street_column(Street::Showdown) == "Showdown"@,
{
}

/// Opening a room keeps all rooms in their order and opens it once.
pub proof fn rooms_are_opened_once(rooms: Seq<RoomId>, room_id: RoomId)
    ensures
        with_room(rooms, room_id).contains(room_id),
        rooms.contains(room_id) ==> with_room(rooms, room_id) == rooms,
        !rooms.contains(room_id) ==> with_room(rooms, room_id).len() == rooms.len() + 1
            && with_room(rooms, room_id).last() == room_id && with_room(
            rooms,
            room_id,
        ).drop_last() == rooms,
{
    if !rooms.contains(room_id) {
        assert(rooms.push(room_id)[rooms.len() as int] == room_id);
        assert(rooms.push(room_id).drop_last() =~= rooms);
    }
}

/// The addresses of a room are those of its seats alone, each with its seat, from the lowest
/// seat up.
pub proof fn rooms_list_their_own_addresses(
    rows: Seq<(RoomSeat, String)>,
    room_id: RoomId,
    bound: nat,
    seat_id: SeatId,
    address: String,
)
    requires
        bound <= 256,
    ensures
        bound_below(rows, room_id, bound).contains((seat_id, address)) <==> seat_id < bound
            && lookup(rows, RoomSeat { room_id: room_id, seat_id: seat_id }) == Some(address),
        forall|i: int, j: int|
            0 <= i < j < bound_below(rows, room_id, bound).len() ==> (#[trigger] bound_below(
                rows,
                room_id,
                bound,
            )[i]).0 < (#[trigger] bound_below(rows, room_id, bound)[j]).0,
        forall|i: int|
            0 <= i < bound_below(rows, room_id, bound).len() ==> (#[trigger] bound_below(
                rows,
                room_id,
                bound,
            )[i]).0 < bound,
    decreases bound,
{
    if bound > 0 {
        let below = (bound - 1) as nat;
        rooms_list_their_own_addresses(rows, room_id, below, seat_id, address);
        let front = bound_below(rows, room_id, below);
        let all = bound_below(rows, room_id, bound);
        let last = below as u8;
        match lookup(rows, RoomSeat { room_id: room_id, seat_id: last }) {
            Some(found) => {
                if front.contains((seat_id, address)) {
                    let at = choose|i: int| 0 <= i < front.len() && front[i] == (seat_id, address);
                    assert(all[at] == (seat_id, address));
                }
                if seat_id == last && address == found {
                    assert(all[all.len() - 1] == (seat_id, address));
                }
            },
            None => {},
        }
    }
}

/// A seat may bind or say that it is ready exactly where it joined and its room is open.
pub proof fn seats_join_before_anything_else(
    service: AppRoomService,
    room_id: RoomId,
    seat_id: SeatId,
    result: Result<(), RoomServiceError>,
)
    requires
        service.admits(room_id, seat_id, result),
    ensures
        result is Ok <==> service.joined().contains(
            RoomSeat { room_id: room_id, seat_id: seat_id },
        ) && service.spec_rooms().contains(room_id),
        !service.joined().contains(RoomSeat { room_id: room_id, seat_id: seat_id })
            ==> result->Err_0 is Upstream && result->Err_0->Upstream_0@ == "seat "@ + decimal(
            seat_id as nat,
        ) + " must call room.join before bind/ready"@,
        service.joined().contains(RoomSeat { room_id: room_id, seat_id: seat_id })
            && !service.spec_rooms().contains(room_id) ==> result->Err_0
            == RoomServiceError::RoomNotFound,
{
}

/// The cards of a hand are taken exactly where the board and every seat's cards can be read and
/// every seat shows two; the first fault is told, the board's before the seats'.
pub proof fn faulty_cards_are_told(board: Seq<char>, seats: Seq<(u8, Seq<char>)>)
    ensures
        showdown_fault(board, seats, admin_texts()) is None <==> cards_fault(
            board,
            cards_in(board),
        ) is None && forall|i: int|
            0 <= i < seats.len() ==> cards_fault(
                (#[trigger] seats[i]).1,
                cards_in(seats[i].1),
            ) is None && cards_in(seats[i].1) == 2,
        showdown_fault(board, seats, persisted_texts()) is None <==> showdown_fault(
            board,
            seats,
            admin_texts(),
        ) is None,
        cards_fault(board, cards_in(board)) matches Some(fault) ==> showdown_fault(
            board,
            seats,
            admin_texts(),
        ) == Some("invalid board cards: "@ + fault.message()) && showdown_fault(
            board,
            seats,
            persisted_texts(),
        ) == Some("invalid persisted board cards: "@ + fault.message()),
{
    lemma_seats_without_fault(seats, seats.len() as int);
}

proof fn lemma_seats_without_fault(seats: Seq<(u8, Seq<char>)>, count: int)
    requires
        0 <= count <= seats.len(),
    ensures
        seats_fault(seats, count, admin_texts()) is None <==> forall|i: int|
            0 <= i < count ==> cards_fault(
                (#[trigger] seats[i]).1,
                cards_in(seats[i].1),
            ) is None && cards_in(seats[i].1) == 2,
        seats_fault(seats, count, persisted_texts()) is None <==> forall|i: int|
            0 <= i < count ==> cards_fault(
                (#[trigger] seats[i]).1,
                cards_in(seats[i].1),
            ) is None && cards_in(seats[i].1) == 2,
    decreases count,
{
    if count > 0 {
        lemma_seats_without_fault(seats, count - 1);
        let last = seats[count - 1];
        assert(seat_fault(last.0, last.1, admin_texts()) is None <==> cards_fault(
            last.1,
            cards_in(last.1),
        ) is None && cards_in(last.1) == 2);
    }
}

} // verus!
