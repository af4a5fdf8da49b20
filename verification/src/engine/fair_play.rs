//! The game in plain terms: what a player may do, where the chips go, and whose turn comes next.
use vstd::prelude::*;

use crate::domain::action::{ActionType, LegalAction, PlayerAction};
use crate::domain::errors::DomainError;
use crate::domain::events::HandEventKind;
use crate::domain::game::{HandSnapshot, HandStatus, SeatId, Street};
use crate::domain::ids::{HandId, RoomId};
use crate::domain::money::{Chips, MoneyError};
use crate::engine::betting::{dealer_place, EngineActionResult, EngineError};
use crate::engine::dealing::{blind_places, blinds_differ, sorted_deck};
use crate::engine::events::{events_after_action, events_at_start};
use crate::engine::seats::{
    in_order, in_order_lists_the_set, next_round_is_the_nearest, two_seats_make_two_places,
};
use crate::engine::state::{Card, TableView};

verus! {

/// The chips that a record holds for a seat.
pub open spec fn chips_at(amounts: Map<SeatId, Chips>, seat: SeatId) -> int {
    if amounts.dom().contains(seat) {
        amounts[seat].0 as int
    } else {
        0
    }
}

/// Whether it is the player's turn and the action is the next one.
pub open spec fn on_turn(state: TableView, action: PlayerAction) -> bool {
    &&& action.action_seq == state.snapshot.next_action_seq
    &&& state.snapshot.acting_seat_id == Some(action.seat_id)
}

/// Whether the pot and the player's record can hold so many chips more.
pub open spec fn chips_fit(state: TableView, seat: SeatId, chips: int) -> bool {
    &&& state.pot.main_pot.0 + chips <= u128::MAX
    &&& chips_at(state.pot.contributions, seat) + chips <= u128::MAX
}

/// An action out of its turn is refused with its reason.
pub proof fn actions_come_in_turn(state: TableView, action: PlayerAction)
    ensures
        action.action_seq != state.snapshot.next_action_seq ==> state.answer_to(action) == Err::<
            EngineActionResult,
            EngineError,
        >(EngineError::Domain(DomainError::ActionIllegal)),
        action.action_seq == state.snapshot.next_action_seq && state.snapshot.acting_seat_id
            != Some(action.seat_id) ==> state.answer_to(action) == Err::<
            EngineActionResult,
            EngineError,
        >(EngineError::Domain(DomainError::NotYourTurn)),
{
}

/// Whoever's turn it is may always fold.
pub proof fn a_fold_is_always_accepted(state: TableView, action: PlayerAction)
    requires
        on_turn(state, action),
        action.action_type == ActionType::Fold,
    ensures
        state.answer_to(action) is Ok,
        state.after_action(action).hand.folded == state.hand.folded.insert(action.seat_id),
        state.after_action(action).hand.all_in == state.hand.all_in,
        state.after_action(action).pot.main_pot == state.pot.main_pot,
        state.after_action(action).pot.contributions == state.pot.contributions,
{
}

/// A player may check exactly when they owe nothing, and a check moves nothing.
pub proof fn a_check_needs_nothing_owed(state: TableView, action: PlayerAction)
    requires
        on_turn(state, action),
        action.action_type == ActionType::Check,
    ensures
        chips_at(state.betting.bets, action.seat_id) >= state.betting.current_bet.0
            ==> state.answer_to(action) is Ok,
        chips_at(state.betting.bets, action.seat_id) < state.betting.current_bet.0
            ==> state.answer_to(action) == Err::<EngineActionResult, EngineError>(
            EngineError::Domain(DomainError::ActionIllegal),
        ),
        state.after_action(action).hand.folded == state.hand.folded,
        state.after_action(action).hand.all_in == state.hand.all_in,
        state.after_action(action).pot.main_pot == state.pot.main_pot,
        state.after_action(action).pot.contributions == state.pot.contributions,
{
}

/// A player may call exactly when they owe something, and puts in exactly what they owe.
pub proof fn a_call_pays_what_is_owed(state: TableView, action: PlayerAction)
    requires
        on_turn(state, action),
        action.action_type == ActionType::Call,
    ensures
        ({
            let owed = state.betting.current_bet.0 - chips_at(state.betting.bets, action.seat_id);
            let after = state.after_action(action);
            &&& owed <= 0 ==> state.answer_to(action) == Err::<EngineActionResult, EngineError>(
                EngineError::Domain(DomainError::ActionIllegal),
            )
            &&& owed > 0 && !chips_fit(state, action.seat_id, owed) ==> state.answer_to(action)
                == Err::<EngineActionResult, EngineError>(EngineError::Money(MoneyError::Overflow))
            &&& owed > 0 && chips_fit(state, action.seat_id, owed) ==> {
                &&& state.answer_to(action) is Ok
                &&& after.pot.main_pot.0 == state.pot.main_pot.0 + owed
                &&& after.snapshot.pot_total == after.pot.main_pot
                &&& chips_at(after.pot.contributions, action.seat_id) == chips_at(
                    state.pot.contributions,
                    action.seat_id,
                ) + owed
                &&& after.hand.folded == state.hand.folded
                &&& after.hand.all_in == state.hand.all_in
            }
        }),
{
}

/// A player may raise exactly to more than they and everybody else bet, and to no less than the
/// least raise; the raise puts in what is missing to that bet.
pub proof fn a_raise_goes_above_the_bet(state: TableView, action: PlayerAction)
    requires
        on_turn(state, action),
        action.action_type == ActionType::RaiseTo,
    ensures
        ({
            let bet = chips_at(state.betting.bets, action.seat_id);
            let after = state.after_action(action);
            let refused = Err::<EngineActionResult, EngineError>(
                EngineError::Domain(DomainError::ActionIllegal),
            );
            match action.amount {
                None => state.answer_to(action) == refused,
                Some(target) => {
                    let allowed = target.0 > bet && target.0 > state.betting.current_bet.0 && (
                    state.betting.min_raise_to matches Some(least) ==> target.0 >= least.0);
                    let fits = chips_fit(state, action.seat_id, target.0 - bet);
                    &&& !allowed ==> state.answer_to(action) == refused
                    &&& allowed && !fits ==> state.answer_to(action) == Err::<
                        EngineActionResult,
                        EngineError,
                    >(EngineError::Money(MoneyError::Overflow))
                    &&& allowed && fits ==> {
                        &&& state.answer_to(action) is Ok
                        &&& after.pot.main_pot.0 == state.pot.main_pot.0 + target.0 - bet
                        &&& after.snapshot.pot_total == after.pot.main_pot
                        &&& chips_at(after.pot.contributions, action.seat_id) == chips_at(
                            state.pot.contributions,
                            action.seat_id,
                        ) + target.0 - bet
                        &&& after.hand.folded == state.hand.folded
                        &&& after.hand.all_in == state.hand.all_in
                    }
                },
            }
        }),
{
}

/// A player may go all in exactly with more than they bet already, and is all in from then on.
pub proof fn all_in_puts_in_everything(state: TableView, action: PlayerAction)
    requires
        on_turn(state, action),
        action.action_type == ActionType::AllIn,
    ensures
        ({
            let bet = chips_at(state.betting.bets, action.seat_id);
            let after = state.after_action(action);
            let refused = Err::<EngineActionResult, EngineError>(
                EngineError::Domain(DomainError::ActionIllegal),
            );
            match action.amount {
                None => state.answer_to(action) == refused,
                Some(target) => {
                    let fits = chips_fit(state, action.seat_id, target.0 - bet);
                    &&& target.0 <= bet ==> state.answer_to(action) == refused
                    &&& target.0 > bet && !fits ==> state.answer_to(action) == Err::<
                        EngineActionResult,
                        EngineError,
                    >(EngineError::Money(MoneyError::Overflow))
                    &&& target.0 > bet && fits ==> {
                        &&& state.answer_to(action) is Ok
                        &&& after.pot.main_pot.0 == state.pot.main_pot.0 + target.0 - bet
                        &&& after.snapshot.pot_total == after.pot.main_pot
                        &&& chips_at(after.pot.contributions, action.seat_id) == chips_at(
                            state.pot.contributions,
                            action.seat_id,
                        ) + target.0 - bet
                        &&& after.hand.folded == state.hand.folded
                        &&& after.hand.all_in == state.hand.all_in.insert(action.seat_id)
                    }
                },
            }
        }),
{
}

/// The bet that the action brings the player to.
pub open spec fn bet_after(state: TableView, action: PlayerAction) -> int {
    match action.action_type {
        ActionType::Fold | ActionType::Check => chips_at(state.betting.bets, action.seat_id),
        ActionType::Call => state.betting.current_bet.0 as int,
        ActionType::RaiseTo | ActionType::AllIn => match action.amount {
            Some(target) => target.0 as int,
            None => 0,
        },
    }
}

/// The highest bet once the action is done.
pub open spec fn highest_bet_after(state: TableView, action: PlayerAction) -> int {
    if bet_after(state, action) > state.betting.current_bet.0 && (action.action_type
        == ActionType::RaiseTo || action.action_type == ActionType::AllIn) {
        bet_after(state, action)
    } else {
        state.betting.current_bet.0 as int
    }
}

/// Whether a player is in the hand once the action is done.
pub open spec fn stays_in(state: TableView, action: PlayerAction, seat: SeatId) -> bool {
    &&& state.hand.seated.contains(seat)
    &&& !state.hand.folded.contains(seat)
    &&& !(action.action_type == ActionType::Fold && seat == action.seat_id)
}

/// Whether a player is all in once the action is done.
pub open spec fn is_all_in(state: TableView, action: PlayerAction, seat: SeatId) -> bool {
    state.hand.all_in.contains(seat) || (action.action_type == ActionType::AllIn && seat
        == action.seat_id)
}

/// Whether a player has nothing to answer any more on this street, once the action is done. A
/// higher bet asks everybody anew who is not all in.
pub open spec fn is_done(state: TableView, action: PlayerAction, seat: SeatId) -> bool {
    let higher = highest_bet_after(state, action) > state.betting.current_bet.0;
    let acted = seat == action.seat_id || (if higher {
        is_all_in(state, action, seat)
    } else {
        state.betting.acted.contains(seat)
    });
    let bet = if seat == action.seat_id {
        bet_after(state, action)
    } else {
        chips_at(state.betting.bets, seat)
    };
    acted && (is_all_in(state, action, seat) || bet == highest_bet_after(state, action))
}

/// Whether two players or more are in the hand once the action is done.
pub open spec fn is_contested(state: TableView, action: PlayerAction) -> bool {
    exists|a: SeatId, b: SeatId|
        a != b && #[trigger] stays_in(state, action, a) && #[trigger] stays_in(state, action, b)
}

/// Whether nobody has to answer any more.
pub open spec fn is_street_over(state: TableView, action: PlayerAction) -> bool {
    forall|seat: SeatId| #[trigger] stays_in(state, action, seat) ==> is_done(state, action, seat)
}

/// Whether somebody can still bet.
pub open spec fn can_bet(state: TableView, action: PlayerAction, seat: SeatId) -> bool {
    stays_in(state, action, seat) && !is_all_in(state, action, seat)
}

pub open spec fn next_street_of(street: Street) -> Street {
    match street {
        Street::Preflop => Street::Flop,
        Street::Flop => Street::Turn,
        Street::Turn => Street::River,
        Street::River => Street::Showdown,
        Street::Showdown => Street::Showdown,
    }
}

proof fn lemma_done_in_plain_terms(state: TableView, action: PlayerAction)
    requires
        state.answer_to(action) is Ok,
    ensures
        ({
            let done = state.action_done(action);
            &&& done.hand.seated == state.hand.seated
            &&& forall|seat: SeatId| #[trigger]
                done.active().contains(seat) <==> stays_in(state, action, seat)
            &&& forall|seat: SeatId| #[trigger]
                done.actionable().contains(seat) <==> can_bet(state, action, seat)
            &&& done.round_complete() <==> is_street_over(state, action)
            &&& in_order(done.active()).len() > 1 <==> is_contested(state, action)
            &&& in_order(done.actionable()).len() == 0 <==> forall|seat: SeatId|
                !#[trigger] can_bet(state, action, seat)
            &&& done.betting.current_bet.0 == highest_bet_after(state, action)
            &&& done.snapshot.street == state.snapshot.street
            &&& done.snapshot.status == state.snapshot.status
            &&& done.snapshot.hand_no == state.snapshot.hand_no
        }),
{
    let done = state.action_done(action);
    two_seats_make_two_places(done.active());
    two_seats_make_two_places(done.actionable());
    assert forall|seat: SeatId| #[trigger] done.active().contains(seat) <==> stays_in(
        state,
        action,
        seat,
    ) by {}
    assert forall|seat: SeatId| #[trigger] done.actionable().contains(seat) <==> can_bet(
        state,
        action,
        seat,
    ) by {}
    assert forall|seat: SeatId| #[trigger] stays_in(state, action, seat) implies (is_done(
        state,
        action,
        seat,
    ) <==> done.betting.acted.contains(seat) && (done.hand.all_in.contains(seat) || done.bet_of(
        seat,
    ) == done.betting.current_bet)) by {
        assert(done.bet_of(seat).0 == chips_at(done.betting.bets, seat));
    }
    if done.round_complete() {
        assert forall|seat: SeatId| #[trigger] stays_in(state, action, seat) implies is_done(
            state,
            action,
            seat,
        ) by {
            assert(done.active().contains(seat));
        }
    }
    if is_street_over(state, action) {
        assert forall|seat: SeatId| #[trigger] done.active().contains(seat) implies
            done.betting.acted.contains(seat) && (done.hand.all_in.contains(seat) || done.bet_of(
            seat,
        ) == done.betting.current_bet) by {
            assert(stays_in(state, action, seat));
        }
    }
    if in_order(done.active()).len() > 1 {
        let (a, b) = choose|a: SeatId, b: SeatId|
            !(#[trigger] done.active().contains(a) && #[trigger] done.active().contains(b) ==> a
                == b);
        assert(stays_in(state, action, a) && stays_in(state, action, b));
    }
    if is_contested(state, action) {
        let (a, b) = choose|a: SeatId, b: SeatId|
            a != b && #[trigger] stays_in(state, action, a) && #[trigger] stays_in(
                state,
                action,
                b,
            );
        assert(done.active().contains(a) && done.active().contains(b));
    }
    if in_order(done.actionable()).len() == 0 {
        assert forall|seat: SeatId| !#[trigger] can_bet(state, action, seat) by {
            assert(!done.actionable().contains(seat));
        }
    }
    if forall|seat: SeatId| !#[trigger] can_bet(state, action, seat) {
        assert forall|seat: SeatId| !#[trigger] done.actionable().contains(seat) by {
            assert(!can_bet(state, action, seat));
        }
    }
}

/// The last player in the hand wins it at once: nobody acts any more, and no street begins.
pub proof fn the_last_player_in_ends_the_hand(state: TableView, action: PlayerAction)
    requires
        state.answer_to(action) is Ok,
        !is_contested(state, action),
    ensures
        state.after_action(action).snapshot.status == HandStatus::Settled,
        state.after_action(action).snapshot.acting_seat_id is None,
        state.after_action(action).snapshot.street == state.snapshot.street,
        state.answer_to(action)->Ok_0->street_changed is None,
{
    lemma_done_in_plain_terms(state, action);
}

/// A street ends exactly when everybody in the hand acted and either is all in or put in the
/// highest bet; then the next one begins, in the order of the game.
pub proof fn streets_follow_each_other(state: TableView, action: PlayerAction)
    requires
        state.answer_to(action) is Ok,
        is_contested(state, action),
    ensures
        ({
            let after = state.after_action(action);
            let next = next_street_of(state.snapshot.street);
            let begun = state.answer_to(action)->Ok_0->street_changed;
            &&& is_street_over(state, action) ==> begun == Some(next) && after.snapshot.street == next
            &&& is_street_over(state, action) && next == Street::Showdown ==> after.snapshot.status
                == HandStatus::Showdown && after.snapshot.acting_seat_id is None
            &&& is_street_over(state, action) && next != Street::Showdown ==> {
                &&& after.snapshot.status == state.snapshot.status
                &&& after.betting.current_bet.0 == 0
                &&& after.betting.min_raise_to is None
                &&& after.betting.acted == Set::<SeatId>::empty()
                &&& forall|seat: SeatId| #[trigger] chips_at(after.betting.bets, seat) == 0
            }
            &&& !is_street_over(state, action) ==> {
                ||| begun is None && after.snapshot.street == state.snapshot.street
                    && after.snapshot.status == state.snapshot.status
                ||| begun == Some(Street::Showdown) && after.snapshot.street == Street::Showdown
                    && after.snapshot.status == HandStatus::Showdown
                    && after.snapshot.acting_seat_id is None
            }
        }),
{
    lemma_done_in_plain_terms(state, action);
}

/// Where somebody still has to answer and nobody can bet, the cards decide; where somebody can
/// bet, the street goes on.
pub proof fn cards_decide_when_nobody_can_bet(state: TableView, action: PlayerAction)
    requires
        state.answer_to(action) is Ok,
        is_contested(state, action),
        !is_street_over(state, action),
    ensures
        (forall|seat: SeatId| !#[trigger] can_bet(state, action, seat)) <==> state.after_action(
            action,
        ).snapshot.status == HandStatus::Showdown && state.answer_to(action)->Ok_0->street_changed
            == Some(Street::Showdown),
        (exists|seat: SeatId| #[trigger] can_bet(state, action, seat)) ==> state.answer_to(
            action,
        )->Ok_0->street_changed is None,
{
    lemma_done_in_plain_terms(state, action);
}

/// The place of the dealer among the seats from the lowest up: hand one is dealt from the first
/// seat, each later hand from the next one.
pub open spec fn place_of_dealer(state: TableView) -> int {
    if state.snapshot.hand_no == 0 {
        0
    } else {
        (state.snapshot.hand_no - 1) % (in_order(state.hand.seated).len() as int)
    }
}

/// A new street is opened by the first player in the hand who sits left of the dealer: nobody in
/// the hand sits on a place in between.
pub proof fn a_street_opens_left_of_the_dealer(state: TableView, action: PlayerAction) -> (
    places_on: int)
    requires
        state.answer_to(action) is Ok,
        is_contested(state, action),
        is_street_over(state, action),
        next_street_of(state.snapshot.street) != Street::Showdown,
    ensures
        ({
            let order = in_order(state.hand.seated);
            let n = order.len() as int;
            let dealer = place_of_dealer(state);
            &&& 1 <= places_on <= n
            &&& state.after_action(action).snapshot.acting_seat_id == Some(
                order[(dealer + places_on) % n],
            )
            &&& stays_in(state, action, order[(dealer + places_on) % n])
            &&& forall|k: int|
                1 <= k < places_on ==> !stays_in(
                    state,
                    action,
                    #[trigger] order[(dealer + k) % n],
                )
        }),
{
    lemma_done_in_plain_terms(state, action);
    let done = state.action_done(action);
    let order = in_order(state.hand.seated);
    in_order_lists_the_set(state.hand.seated);
    let (a, b) = choose|a: SeatId, b: SeatId|
        a != b && #[trigger] stays_in(state, action, a) && #[trigger] stays_in(state, action, b);
    assert(order.contains(a));
    let at = order.index_of(a);
    assert(done.active().contains(order[at]));
    let n = order.len() as int;
    let dealer = place_of_dealer(state);
    assert(dealer_place(state.snapshot.hand_no, order.len()) == dealer) by {
        vstd::arithmetic::div_mod::lemma_small_mod(0, order.len());
    }
    let places_on = next_round_is_the_nearest(order, dealer, done.active());
    assert(state.after_action(action).snapshot.acting_seat_id == Some(done.first_after_dealer()));
    assert(done.active().contains(order[(dealer + places_on) % n]));
    assert forall|k: int| 1 <= k < places_on implies !stays_in(
        state,
        action,
        #[trigger] order[(dealer + k) % n],
    ) by {
        assert(!done.active().contains(order[(dealer + k) % n]));
    }
    places_on
}

/// Within a street the turn goes to the next player round the table who can still bet: nobody
/// who can bet sits on a place in between.
pub proof fn the_turn_goes_round_the_table(state: TableView, action: PlayerAction, place: int) -> (
    places_on: int)
    requires
        state.answer_to(action) is Ok,
        is_contested(state, action),
        !is_street_over(state, action),
        exists|seat: SeatId| #[trigger] can_bet(state, action, seat),
        0 <= place < in_order(state.hand.seated).len(),
        in_order(state.hand.seated)[place] == action.seat_id,
    ensures
        ({
            let order = in_order(state.hand.seated);
            let n = order.len() as int;
            &&& 1 <= places_on <= n
            &&& state.after_action(action).snapshot.acting_seat_id == Some(
                order[(place + places_on) % n],
            )
            &&& can_bet(state, action, order[(place + places_on) % n])
            &&& forall|k: int|
                1 <= k < places_on ==> !can_bet(state, action, #[trigger] order[(place + k) % n])
        }),
{
    lemma_done_in_plain_terms(state, action);
    let done = state.action_done(action);
    let order = in_order(state.hand.seated);
    in_order_lists_the_set(state.hand.seated);
    let free = choose|seat: SeatId| #[trigger] can_bet(state, action, seat);
    assert(order.contains(free));
    let at = order.index_of(free);
    assert(done.actionable().contains(order[at]));
    assert(order.contains(action.seat_id));
    assert(order.index_of(action.seat_id) == place);
    let places_on = next_round_is_the_nearest(order, place, done.actionable());
    let n = order.len() as int;
    assert(done.actionable().contains(order[(place + places_on) % n]));
    assert forall|k: int| 1 <= k < places_on implies !can_bet(
        state,
        action,
        #[trigger] order[(place + k) % n],
    ) by {
        assert(!done.actionable().contains(order[(place + k) % n]));
    }
    places_on
}

/// Within a street the bets are those of before but for the player who acted, and only a higher
/// bet changes what the others have to match.
pub proof fn bets_of_the_street(state: TableView, action: PlayerAction, other: SeatId)
    requires
        state.answer_to(action) is Ok,
        is_contested(state, action),
        !is_street_over(state, action),
    ensures
        ({
            let after = state.after_action(action);
            &&& after.betting.current_bet.0 == highest_bet_after(state, action)
            &&& chips_at(after.betting.bets, action.seat_id) == bet_after(state, action)
            &&& other != action.seat_id ==> chips_at(after.betting.bets, other) == chips_at(
                state.betting.bets,
                other,
            )
            &&& highest_bet_after(state, action) == state.betting.current_bet.0
                ==> after.betting.min_raise_to == state.betting.min_raise_to
                && after.betting.acted == state.betting.acted.insert(action.seat_id)
            &&& highest_bet_after(state, action) > state.betting.current_bet.0 ==> {
                &&& after.betting.acted.contains(action.seat_id)
                &&& other != action.seat_id ==> (after.betting.acted.contains(other)
                    <==> is_all_in(state, action, other))
            }
        }),
{
    lemma_done_in_plain_terms(state, action);
}

/// The next raise must be at least as large as this one: after a raise from `c` to `t` that
/// somebody can still answer, it must reach `t + (t - c)`, or `t` where no amount is so large.
pub proof fn a_raise_sets_the_next_one(
    state: TableView,
    action: PlayerAction,
    target: Chips,
    other: SeatId,
)
    requires
        state.answer_to(action) is Ok,
        action.action_type == ActionType::RaiseTo || action.action_type == ActionType::AllIn,
        action.amount == Some(target),
        target.0 > state.betting.current_bet.0,
        other != action.seat_id,
        state.hand.seated.contains(other),
        !state.hand.folded.contains(other),
        !state.hand.all_in.contains(other),
    ensures
        ({
            let after = state.after_action(action);
            let least = 2 * target.0 - state.betting.current_bet.0;
            &&& after.betting.current_bet == target
            &&& after.betting.min_raise_to is Some
            &&& least <= u128::MAX ==> (after.betting.min_raise_to->0).0 == least
            &&& least > u128::MAX ==> after.betting.min_raise_to->0 == target
        }),
{
    lemma_done_in_plain_terms(state, action);
    assert(stays_in(state, action, other));
    assert(!is_done(state, action, other));
}

/// A player is offered a fold, then a check where they owe nothing and else a call of exactly
/// what they owe, then a raise from the least raise on, and at last to go all in.
pub proof fn choices_are_those_of_the_game(state: TableView, seat: SeatId)
    ensures
        ({
            let owed = state.betting.current_bet.0 - chips_at(state.betting.bets, seat);
            let choices = state.choices_of(seat);
            &&& choices.len() == 4
            &&& choices[0] == (LegalAction {
                action_type: ActionType::Fold,
                min_amount: None,
                max_amount: None,
            })
            &&& owed <= 0 ==> choices[1] == (LegalAction {
                action_type: ActionType::Check,
                min_amount: None,
                max_amount: None,
            })
            &&& owed > 0 ==> choices[1] == (LegalAction {
                action_type: ActionType::Call,
                min_amount: Some(Chips(owed as u128)),
                max_amount: Some(Chips(owed as u128)),
            })
            &&& choices[2].action_type == ActionType::RaiseTo
            &&& choices[2].max_amount is None
            &&& choices[2].min_amount is Some
            &&& state.betting.min_raise_to is Some ==> choices[2].min_amount
                == state.betting.min_raise_to
            &&& state.betting.min_raise_to is None && state.betting.current_bet.0 < u128::MAX ==> (
            choices[2].min_amount->0).0 == state.betting.current_bet.0 + 1
            &&& state.betting.min_raise_to is None && state.betting.current_bet.0 == u128::MAX ==> (
            choices[2].min_amount->0).0 == u128::MAX
            &&& choices[3] == (LegalAction {
                action_type: ActionType::AllIn,
                min_amount: None,
                max_amount: None,
            })
        }),
{
}

/// A hand is dealt to two players or more, from a deck that holds no card twice and enough
/// cards for two to each player, five on the board and three burned.
pub proof fn a_deal_needs_players_and_cards(state: TableView, deck: Seq<Card>)
    ensures
        ({
            let n = in_order(state.hand.seated).len();
            &&& n < 2 ==> state.deal_refusal(deck) == Some(EngineError::NotEnoughPlayersToDeal)
            &&& n >= 2 && !deck.no_duplicates() ==> state.deal_refusal(deck) == Some(
                EngineError::DuplicateCardsInDeck,
            )
            &&& n >= 2 && deck.no_duplicates() && deck.len() < 2 * n + 8 ==> state.deal_refusal(
                deck,
            ) == Some(EngineError::InsufficientDeck)
            &&& n >= 2 && deck.no_duplicates() && deck.len() >= 2 * n + 8 ==> state.deal_refusal(
                deck,
            ) is None
        }),
{
}

/// The cards go round the table twice, then to the board with a card burned before the flop, the
/// turn and the river; the rest stays in the deck.
pub proof fn cards_go_round_the_table_twice(state: TableView, deck: Seq<Card>, place: int)
    requires
        state.deal_refusal(deck) is None,
        0 <= place < in_order(state.hand.seated).len(),
    ensures
        ({
            let order = in_order(state.hand.seated);
            let n = order.len() as int;
            let dealing = state.hand_dealt(deck).dealing->0;
            &&& state.hand_dealt(deck).dealing is Some
            &&& forall|seat: SeatId| #[trigger]
                dealing.hole.dom().contains(seat) <==> state.hand.seated.contains(seat)
            &&& dealing.hole[order[place]].len() == 2
            &&& dealing.hole[order[place]][0] == deck[place]
            &&& dealing.hole[order[place]][1] == deck[n + place]
            &&& dealing.board.len() == 5
            &&& dealing.burned.len() == 3
            &&& dealing.burned[0] == deck[2 * n]
            &&& dealing.board[0] == deck[2 * n + 1]
            &&& dealing.board[1] == deck[2 * n + 2]
            &&& dealing.board[2] == deck[2 * n + 3]
            &&& dealing.burned[1] == deck[2 * n + 4]
            &&& dealing.board[3] == deck[2 * n + 5]
            &&& dealing.burned[2] == deck[2 * n + 6]
            &&& dealing.board[4] == deck[2 * n + 7]
            &&& dealing.undealt.len() == deck.len() - 2 * n - 8
            &&& forall|i: int|
                0 <= i < dealing.undealt.len() ==> #[trigger] dealing.undealt[i] == deck[2 * n + 8
                    + i]
        }),
{
    let order = in_order(state.hand.seated);
    in_order_lists_the_set(state.hand.seated);
    assert(order.contains(order[place]));
    assert(order.index_of(order[place]) == place);
}

/// The two seats left of the dealer post the blinds and the one after them begins; of two
/// players the dealer posts the small blind and begins. Nothing else is in the pot.
pub proof fn blinds_are_posted_left_of_the_dealer(state: TableView, deck: Seq<Card>, seat: SeatId)
    requires
        state.deal_refusal(deck) is None,
    ensures
        ({
            let order = in_order(state.hand.seated);
            let n = order.len() as int;
            let dealer = place_of_dealer(state);
            let small = order[if n == 2 {
                dealer
            } else {
                (dealer + 1) % n
            }];
            let big = order[if n == 2 {
                (dealer + 1) % n
            } else {
                (dealer + 2) % n
            }];
            let first = order[if n == 2 {
                dealer
            } else {
                (dealer + 3) % n
            }];
            let after = state.hand_dealt(deck);
            let posted: int = if seat == small {
                100_000_000_000_000
            } else if seat == big {
                200_000_000_000_000
            } else {
                0
            };
            &&& small != big
            &&& chips_at(after.betting.bets, seat) == posted
            &&& chips_at(after.pot.contributions, seat) == posted
            &&& after.pot.main_pot.0 == 300_000_000_000_000
            &&& after.snapshot.pot_total.0 == 300_000_000_000_000
            &&& after.pot.side_pots.len() == 0
            &&& after.betting.current_bet.0 == 200_000_000_000_000
            &&& after.betting.min_raise_to is Some
            &&& (after.betting.min_raise_to->0).0 == 400_000_000_000_000
            &&& after.betting.acted == Set::<SeatId>::empty()
            &&& after.snapshot.acting_seat_id == Some(first)
            &&& after.snapshot.status == HandStatus::Running
            &&& after.snapshot.street == Street::Preflop
            &&& after.snapshot.hand_no == state.snapshot.hand_no
            &&& after.snapshot.hand_id == state.snapshot.hand_id
            &&& after.snapshot.room_id == state.snapshot.room_id
            &&& after.snapshot.next_action_seq == state.snapshot.next_action_seq
            &&& after.hand.seated == state.hand.seated
            &&& after.hand.folded == state.hand.folded
            &&& after.hand.all_in == state.hand.all_in
        }),
{
    let order = in_order(state.hand.seated);
    in_order_lists_the_set(state.hand.seated);
    let n = order.len() as int;
    assert(dealer_place(state.snapshot.hand_no, order.len()) == place_of_dealer(state)) by {
        vstd::arithmetic::div_mod::lemma_small_mod(0, order.len());
    }
    blinds_differ(state.snapshot.hand_no, order.len());
    let (small, big, first) = blind_places(state.snapshot.hand_no, order.len());
    assert(order[small] != order[big]);
}

/// The deck in order holds every card once, each at the place of its number.
pub proof fn the_deck_holds_every_card(card: Card)
    requires
        card < 52,
    ensures
        sorted_deck().len() == 52,
        sorted_deck()[card as int] == card,
        sorted_deck().no_duplicates(),
{
}

/// Where whoever acted is not seated, the turn goes to the lowest seat that can still bet.
pub proof fn the_turn_comes_back_to_the_table(state: TableView, action: PlayerAction, seat: SeatId)
    requires
        state.answer_to(action) is Ok,
        is_contested(state, action),
        !is_street_over(state, action),
        !state.hand.seated.contains(action.seat_id),
        can_bet(state, action, seat),
    ensures
        ({
            let actor = state.after_action(action).snapshot.acting_seat_id;
            &&& actor is Some
            &&& can_bet(state, action, actor->0)
            &&& actor->0 <= seat
        }),
{
    lemma_done_in_plain_terms(state, action);
    let done = state.action_done(action);
    let free = in_order(done.actionable());
    in_order_lists_the_set(done.actionable());
    assert(done.actionable().contains(seat));
    assert(free.contains(seat));
    let at = free.index_of(seat);
    assert(free[0] <= free[at]);
    assert(free.contains(free[0]));
    assert(done.actionable().contains(free[0]));
}

/// Where the chips of an action do not fit, the turn stays where it is, nobody folds or goes all
/// in, and no record of what a player put in changes.
pub proof fn too_many_chips_leave_the_turn(state: TableView, action: PlayerAction)
    requires
        on_turn(state, action),
        state.answer_to(action) == Err::<EngineActionResult, EngineError>(
            EngineError::Money(MoneyError::Overflow),
        ),
    ensures
        ({
            let after = state.after_action(action);
            &&& after.snapshot == state.snapshot
            &&& after.hand == state.hand
            &&& after.pot.contributions == state.pot.contributions
            &&& after.pot.side_pots == state.pot.side_pots
            &&& after.betting.acted == state.betting.acted
            &&& after.betting.acting_seat_id == state.betting.acting_seat_id
            &&& after.dealing == state.dealing
            &&& action.action_type != ActionType::Fold && action.action_type != ActionType::Check
        }),
{
}

/// A new hand has nobody seated and nothing bet, and waits for its first action.
pub proof fn a_new_hand_is_empty(room_id: RoomId, hand_id: HandId, hand_no: u64, seat: SeatId)
    ensures
        ({
            let hand = TableView::created(room_id, hand_id, hand_no);
            &&& hand.snapshot.room_id == room_id
            &&& hand.snapshot.hand_id == hand_id
            &&& hand.hand.hand_id == hand_id
            &&& hand.snapshot.hand_no == hand_no
            &&& hand.snapshot.status == HandStatus::Created
            &&& hand.snapshot.street == Street::Preflop
            &&& hand.hand.street == Street::Preflop
            &&& hand.snapshot.next_action_seq == 1
            &&& hand.hand.next_action_seq == 1
            &&& hand.snapshot.acting_seat_id is None
            &&& hand.hand.acting_seat_id is None
            &&& hand.betting.acting_seat_id is None
            &&& hand.snapshot.pot_total.0 == 0
            &&& hand.pot.main_pot.0 == 0
            &&& hand.pot.side_pots.len() == 0
            &&& hand.betting.current_bet.0 == 0
            &&& hand.betting.min_raise_to is None
            &&& chips_at(hand.betting.bets, seat) == 0
            &&& chips_at(hand.pot.contributions, seat) == 0
            &&& !hand.hand.seated.contains(seat)
            &&& !hand.hand.folded.contains(seat)
            &&& !hand.hand.all_in.contains(seat)
            &&& !hand.betting.acted.contains(seat)
            &&& hand.dealing is None
        }),
{
}

/// A hand begins with its actor seated, nobody folded or all in, and no cards dealt yet.
pub proof fn a_hand_starts_afresh(state: TableView, actor: SeatId)
    ensures
        ({
            let after = state.started(actor);
            &&& after.snapshot.status == HandStatus::Running
            &&& after.snapshot.acting_seat_id == Some(actor)
            &&& after.hand.acting_seat_id == Some(actor)
            &&& after.betting.acting_seat_id == Some(actor)
            &&& after.hand.next_action_seq == state.hand.next_action_seq
            &&& after.hand.street == state.hand.street
            &&& after.hand.hand_id == state.hand.hand_id
            &&& after.snapshot.hand_no == state.snapshot.hand_no
            &&& after.snapshot.hand_id == state.snapshot.hand_id
            &&& after.snapshot.room_id == state.snapshot.room_id
            &&& after.snapshot.pot_total == state.snapshot.pot_total
            &&& after.betting.min_raise_to == state.betting.min_raise_to
            &&& after.hand.seated == state.hand.seated.insert(actor)
            &&& after.hand.folded == Set::<SeatId>::empty()
            &&& after.hand.all_in == Set::<SeatId>::empty()
            &&& after.betting.acted == Set::<SeatId>::empty()
            &&& after.dealing is None
            &&& after.pot == state.pot
            &&& after.betting.bets == state.betting.bets
            &&& after.betting.current_bet == state.betting.current_bet
            &&& after.snapshot.next_action_seq == state.snapshot.next_action_seq
            &&& after.snapshot.street == state.snapshot.street
        }),
{
}

/// After an action everybody is told of the action and of the pot, then of the street where one
/// began, and at last of the end of the hand or of whose turn it is.
pub proof fn everybody_is_told(
    snapshot: HandSnapshot,
    action: PlayerAction,
    street_changed: Option<Street>,
)
    ensures
        ({
            let events = events_after_action(snapshot, action, street_changed);
            let next: int = if street_changed is Some {
                3
            } else {
                2
            };
            let over = snapshot.status == HandStatus::Settled || snapshot.status
                == HandStatus::Aborted;
            &&& events[0] == HandEventKind::ActionAccepted(action)
            &&& events[1] == (HandEventKind::PotUpdated { pot_total: snapshot.pot_total })
            &&& street_changed matches Some(street) ==> events[2] == (
            HandEventKind::StreetChanged { street: street })
            &&& over ==> events.len() == next + 1 && events[next] == HandEventKind::HandClosed
            &&& !over && snapshot.acting_seat_id is None ==> events.len() == next
            &&& !over && snapshot.acting_seat_id is Some ==> events.len() == next + 1
                && events[next] == (HandEventKind::TurnStarted {
                seat_id: snapshot.acting_seat_id->0,
            })
        }),
{
}

/// At the start of a hand everybody is told that it began and whose turn it is.
pub proof fn everybody_is_told_of_the_start(snapshot: HandSnapshot)
    ensures
        ({
            let events = events_at_start(snapshot);
            &&& events[0] == HandEventKind::HandStarted
            &&& snapshot.acting_seat_id is None ==> events.len() == 1
            &&& snapshot.acting_seat_id is Some ==> events.len() == 2 && events[1] == (
            HandEventKind::TurnStarted { seat_id: snapshot.acting_seat_id->0 })
        }),
{
}

} // verus!
