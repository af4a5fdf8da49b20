use vstd::prelude::*;

use crate::domain::action::{ActionType, PlayerAction};
use crate::domain::errors::DomainError;
use crate::domain::game::{HandStatus, SeatId, Street};
use crate::domain::ids::{HandId, RoomId};
use crate::domain::money::{Chips, MoneyError};
use crate::engine::betting::{dealer_place, EngineActionResult, EngineError};
use crate::engine::dealing::{blind_places, blinds_differ, DEFAULT_BIG_BLIND, DEFAULT_SMALL_BLIND};
use crate::engine::pots::{
    amount_at, contribution_raises_the_total, contribution_within_total, empty_total, layers_fit,
    layers_fit_where_the_total_fits, side_pots_of, total_contributed,
};
use crate::engine::seats::{in_order, in_order_lists_the_set, next_round_finds};
use crate::engine::state::{Card, TableView};

verus! {

impl TableView {
    /// The pot holds exactly what the players put in, and everybody is shown that amount.
    pub open spec fn pot_backed(self) -> bool {
        &&& self.pot.main_pot.0 == total_contributed(self.pot.contributions)
        &&& self.snapshot.pot_total == self.pot.main_pot
    }
}

/// An action that the rules refuse is answered with the reason and changes nothing.
pub proof fn refused_action_changes_nothing(state: TableView, action: PlayerAction)
    requires
        state.refusal(action) is Some,
    ensures
        state.answer_to(action) == Err::<EngineActionResult, EngineError>(
            EngineError::Domain(state.refusal(action)->0),
        ),
        state.after_action(action) == state,
{
}

/// An accepted action moves the count of actions on by one, in both places where it is kept.
pub proof fn accepted_action_is_counted(state: TableView, action: PlayerAction)
    requires
        state.answer_to(action) is Ok,
    ensures
        ({
            let after = state.after_action(action);
            let next = if state.snapshot.next_action_seq == u32::MAX {
                u32::MAX as int
            } else {
                state.snapshot.next_action_seq + 1
            };
            after.snapshot.next_action_seq == next && after.hand.next_action_seq == next
        }),
{
}

/// The same action is not accepted a second time, as long as the count of actions can grow.
pub proof fn accepted_action_is_not_repeated(state: TableView, action: PlayerAction)
    requires
        state.answer_to(action) is Ok,
        state.snapshot.next_action_seq < u32::MAX,
    ensures
        state.after_action(action).answer_to(action) == Err::<EngineActionResult, EngineError>(
            EngineError::Domain(DomainError::ActionIllegal),
        ),
{
    accepted_action_is_counted(state, action);
}

/// An action changes neither the hand's identity, nor who is seated, nor the cards.
pub proof fn action_keeps_the_table(state: TableView, action: PlayerAction)
    ensures
        ({
            let after = state.after_action(action);
            &&& after.snapshot.room_id == state.snapshot.room_id
            &&& after.snapshot.hand_id == state.snapshot.hand_id
            &&& after.snapshot.hand_no == state.snapshot.hand_no
            &&& after.hand.hand_id == state.hand.hand_id
            &&& after.hand.seated == state.hand.seated
            &&& after.dealing == state.dealing
        }),
{
}

/// Nobody but the acting player folds or goes all in, and nobody comes back.
pub proof fn action_concerns_the_actor_alone(state: TableView, action: PlayerAction, other: SeatId)
    requires
        other != action.seat_id,
    ensures
        ({
            let after = state.after_action(action);
            &&& after.hand.folded.contains(other) == state.hand.folded.contains(other)
            &&& after.hand.all_in.contains(other) == state.hand.all_in.contains(other)
            &&& amount_at(after.pot.contributions, other) == amount_at(
                state.pot.contributions,
                other,
            )
        }),
{
}

/// The records of who acts, of the street and of the count of actions stay in agreement.
pub proof fn actions_keep_the_records_consistent(state: TableView, action: PlayerAction)
    requires
        state.consistent(),
    ensures
        state.after_action(action).consistent(),
{
}

/// Where the pot holds what the players put in, an accepted action keeps it so, and the pot
/// can be split into layers.
pub proof fn actions_keep_the_pot_backed(state: TableView, action: PlayerAction)
    requires
        state.pot_backed(),
    ensures
        !state.pot_overflows(action) && state.refusal(action) is None
            ==> !state.contribution_overflows(action),
        state.answer_to(action) is Ok ==> {
            &&& layers_fit(state.contributions_after(action))
            &&& state.after_action(action).pot_backed()
        },
{
    let seat = action.seat_id;
    contribution_within_total(state.pot.contributions, seat);
    if state.answer_to(action) is Ok {
        if state.moves_chips(action) {
            let amount = amount_at(state.pot.contributions, seat).plus(
                state.delta_of(action),
            )->Ok_0;
            contribution_raises_the_total(state.pot.contributions, seat, amount);
        }
        layers_fit_where_the_total_fits(state.contributions_after(action));
    }
}

/// After an accepted action the side pots are those of the chips that are now in the pot.
pub proof fn actions_keep_the_side_pots_current(state: TableView, action: PlayerAction)
    requires
        state.answer_to(action) is Ok,
    ensures
        ({
            let after = state.after_action(action);
            after.pot.side_pots == side_pots_of(after.pot.contributions, after.hand.folded)
        }),
{
}

/// A new hand has an empty pot that is backed, and consistent records.
pub proof fn new_hand_is_sound(room_id: RoomId, hand_id: HandId, hand_no: u64)
    ensures
        TableView::created(room_id, hand_id, hand_no).pot_backed(),
        TableView::created(room_id, hand_id, hand_no).consistent(),
{
    empty_total(Map::empty());
}

/// Dealing puts exactly the blinds into the pot and leaves consistent records.
pub proof fn dealt_hand_is_sound(state: TableView, deck: Seq<Card>)
    requires
        state.deal_refusal(deck) is None,
        state.hand.next_action_seq == state.snapshot.next_action_seq,
        state.hand.hand_id == state.snapshot.hand_id,
    ensures
        state.hand_dealt(deck).pot_backed(),
        state.hand_dealt(deck).consistent(),
        layers_fit(state.hand_dealt(deck).pot.contributions),
{
    let order = in_order(state.hand.seated);
    in_order_lists_the_set(state.hand.seated);
    let (small, big, first) = blind_places(state.snapshot.hand_no, order.len());
    blinds_differ(state.snapshot.hand_no, order.len());
    assert(order[small] != order[big]);
    let none = Map::<SeatId, Chips>::empty();
    empty_total(none);
    let one = none.insert(order[small], Chips(DEFAULT_SMALL_BLIND));
    contribution_raises_the_total(none, order[small], Chips(DEFAULT_SMALL_BLIND));
    contribution_raises_the_total(one, order[big], Chips(DEFAULT_BIG_BLIND));
    layers_fit_where_the_total_fits(state.hand_dealt(deck).pot.contributions);
}

/// A player is offered a check exactly when a check is accepted, and a call exactly when a
/// call is accepted.
pub proof fn offered_check_or_call_is_allowed(state: TableView, seat: SeatId)
    ensures
        state.choice_allowed(seat, ActionType::Fold, None),
        state.choices_of(seat)[0].action_type == ActionType::Fold,
        state.choice_allowed(seat, ActionType::Check, None) <==> state.choices_of(
            seat,
        )[1].action_type == ActionType::Check,
        state.choice_allowed(seat, ActionType::Call, None) <==> state.choices_of(
            seat,
        )[1].action_type == ActionType::Call,
        state.choice_allowed(seat, ActionType::Call, None) ==> state.choices_of(
            seat,
        )[1].min_amount == Some(state.to_call(seat)),
{
}

/// A raise is accepted exactly from the offered amount on, where nobody has bet more than
/// the current bet, the next raise is above it, and it can still grow.
pub proof fn offered_raise_is_allowed(state: TableView, seat: SeatId, target: Chips)
    requires
        state.bet_of(seat).0 <= state.betting.current_bet.0 < u128::MAX,
        state.betting.min_raise_to matches Some(least) ==> least.0 > state.betting.current_bet.0,
    ensures
        state.choice_allowed(seat, ActionType::RaiseTo, Some(target)) <==> target.0
            >= (state.choices_of(seat)[2].min_amount->0).0,
{
}

/// Whoever is to act next is seated and has not folded; within a street the next player can
/// also still bet.
pub proof fn next_actor_can_act(state: TableView, action: PlayerAction)
    requires
        state.answer_to(action) is Ok,
        state.after_action(action).snapshot.acting_seat_id is Some,
    ensures
        ({
            let after = state.after_action(action);
            let actor = after.snapshot.acting_seat_id->0;
            &&& after.active().contains(actor)
            &&& state.answer_to(action)->Ok_0->street_changed is None ==> after.actionable().contains(
                actor,
            )
        }),
{
    let done = state.action_done(action);
    let order = in_order(done.hand.seated);
    in_order_lists_the_set(done.hand.seated);
    in_order_lists_the_set(done.active());
    in_order_lists_the_set(done.actionable());
    let active = in_order(done.active());
    let actionable = in_order(done.actionable());
    if active.len() > 1 && done.round_complete() {
        assert(active.contains(active[0]));
        assert(order.contains(active[0]));
        let at = order.index_of(active[0]);
        assert(done.active().contains(order[at]));
        next_round_finds(
            order,
            dealer_place(done.snapshot.hand_no, order.len()),
            done.active(),
        );
    } else if active.len() > 1 && actionable.len() > 0 {
        assert(actionable.contains(actionable[0]));
        if done.hand.seated.contains(action.seat_id) {
            assert(order.contains(action.seat_id));
            assert(order.contains(actionable[0]));
            let at = order.index_of(actionable[0]);
            assert(done.actionable().contains(order[at]));
            next_round_finds(order, order.index_of(action.seat_id), done.actionable());
        }
    }
}

/// The hand is settled, with nobody to act, as soon as all but one have folded.
pub proof fn last_player_settles_the_hand(state: TableView, action: PlayerAction)
    requires
        state.answer_to(action) is Ok,
        in_order(state.action_done(action).active()).len() <= 1,
    ensures
        state.after_action(action).snapshot.status == HandStatus::Settled,
        state.after_action(action).snapshot.acting_seat_id is None,
{
}

/// A round that completes on the river leads to the showdown, with nobody to act and without
/// closing the hand.
pub proof fn river_leads_to_showdown(state: TableView, action: PlayerAction)
    requires
        state.answer_to(action) is Ok,
        in_order(state.action_done(action).active()).len() > 1,
        state.action_done(action).round_complete(),
        state.snapshot.street == Street::River,
    ensures
        state.after_action(action).snapshot.status == HandStatus::Showdown,
        state.after_action(action).snapshot.street == Street::Showdown,
        state.after_action(action).snapshot.acting_seat_id is None,
        state.answer_to(action) == Ok::<EngineActionResult, EngineError>(
            EngineActionResult::Accepted { street_changed: Some(Street::Showdown) },
        ),
{
}

/// A bet that the pot cannot hold is reported as an overflow, and the count of actions stays.
pub proof fn overflow_is_reported(state: TableView, action: PlayerAction)
    requires
        state.refusal(action) is None,
        state.pot_overflows(action) || state.contribution_overflows(action),
    ensures
        state.answer_to(action) == Err::<EngineActionResult, EngineError>(
            EngineError::Money(MoneyError::Overflow),
        ),
        state.after_action(action).snapshot.next_action_seq == state.snapshot.next_action_seq,
        state.after_action(action).pot.contributions == state.pot.contributions,
{
}

} // verus!
