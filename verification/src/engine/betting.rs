use std::collections::HashSet;

use vstd::prelude::*;

use crate::domain::action::{ActionType, LegalAction, PlayerAction};
use crate::domain::errors::DomainError;
use crate::domain::game::{HandSnapshot, HandStatus, SeatId, Street};
use crate::domain::money::{Chips, MoneyError};
use crate::engine::pots::{
    amount_at, build_pot_layers, build_side_pots, contribution_of, layers_fit, pot_layers_of,
    side_pots_of,
};
use crate::engine::seats::{
    find_next_round, in_order, in_order_lists_the_set, next_round, place_of, seats_in_order,
    seats_outside,
};
use crate::engine::state::{BettingView, EngineState, HandView, PotLayer, PotView, TableView};

verus! {

broadcast use vstd::std_specs::hash::group_hash_axioms;

/// Why the engine refuses to act.
#[derive(Debug, Clone, Copy, PartialEq, Eq, Structural)]
pub enum EngineError {
    Domain(DomainError),
    Money(MoneyError),
    NotEnoughPlayersToDeal,
    InsufficientDeck,
    DuplicateCardsInDeck,
}

impl EngineError {
    /// What the error says to a reader.
    pub fn message(self) -> (text: &'static str)
        ensures
            match self {
                EngineError::Domain(error) => text@ == error.spec_message(),
                EngineError::Money(MoneyError::Overflow) => text@ == "amount overflow"@,
                EngineError::Money(MoneyError::Underflow) => text@ == "amount underflow"@,
                EngineError::NotEnoughPlayersToDeal => text@
                    == "not enough seated players to deal"@,
                EngineError::InsufficientDeck => text@ == "deck does not contain enough cards"@,
                EngineError::DuplicateCardsInDeck => text@ == "deck contains duplicate cards"@,
            },
    {
        match self {
            EngineError::Domain(error) => error.message(),
            EngineError::Money(error) => error.message(),
            EngineError::NotEnoughPlayersToDeal => "not enough seated players to deal",
            EngineError::InsufficientDeck => "deck does not contain enough cards",
            EngineError::DuplicateCardsInDeck => "deck contains duplicate cards",
        }
    }
}

/// What came of an accepted action.
#[derive(Debug, Clone, Copy, PartialEq, Eq, Structural)]
pub enum EngineActionResult {
    Accepted { street_changed: Option<Street> },
}

/// Applies the rules to the state of a hand.
#[derive(Debug, Clone, Copy)]
pub struct PokerEngine;

/// The street after this one, if cards are still to come.
pub open spec fn street_after(street: Street) -> Option<Street> {
    match street {
        Street::Preflop => Some(Street::Flop),
        Street::Flop => Some(Street::Turn),
        Street::Turn => Some(Street::River),
        Street::River => None,
        Street::Showdown => None,
    }
}

/// The least bet that the next raise must reach: as much on top as this raise was.
pub open spec fn min_raise_after(current_bet: Chips, target: Chips) -> Chips {
    let size = target.less(current_bet);
    match target.plus(size) {
        Ok(next) => next,
        Err(_) => target,
    }
}

/// The place of the dealer among `seat_count` seats: hand one is dealt from the first seat,
/// and the deal moves on by one seat with each hand.
pub open spec fn dealer_place(hand_no: u64, seat_count: nat) -> int {
    if seat_count == 0 {
        0
    } else {
        (if hand_no == 0 {
            0
        } else {
            hand_no - 1
        }) % (seat_count as int)
    }
}

impl TableView {
    /// Those who can still win.
    pub open spec fn active(self) -> Set<SeatId> {
        self.hand.seated.difference(self.hand.folded)
    }

    /// Those who can still bet.
    pub open spec fn actionable(self) -> Set<SeatId> {
        self.hand.seated.difference(self.hand.folded).difference(self.hand.all_in)
    }

    /// What the seat has bet on this street.
    pub open spec fn bet_of(self, seat: SeatId) -> Chips {
        amount_at(self.betting.bets, seat)
    }

    /// What the seat has to add in order to stay in.
    pub open spec fn to_call(self, seat: SeatId) -> Chips {
        self.betting.current_bet.less(self.bet_of(seat))
    }

    /// Why the rules do not allow the action, if they do not.
    pub open spec fn refusal(self, action: PlayerAction) -> Option<DomainError> {
        let seat = action.seat_id;
        if action.action_seq != self.snapshot.next_action_seq {
            Some(DomainError::ActionIllegal)
        } else if self.snapshot.acting_seat_id != Some(seat) {
            Some(DomainError::NotYourTurn)
        } else if self.choice_allowed(seat, action.action_type, action.amount) {
            None
        } else {
            Some(DomainError::ActionIllegal)
        }
    }

    /// Whether the player whose turn it is may choose this.
    pub open spec fn choice_allowed(
        self,
        seat: SeatId,
        choice: ActionType,
        amount: Option<Chips>,
    ) -> bool {
        match choice {
            ActionType::Fold => true,
            ActionType::Check => self.to_call(seat).0 == 0,
            ActionType::Call => self.to_call(seat).0 != 0,
            ActionType::RaiseTo => match amount {
                Some(target) => target.0 > self.bet_of(seat).0 && target.0
                    > self.betting.current_bet.0 && (match self.betting.min_raise_to {
                    Some(least) => target.0 >= least.0,
                    None => true,
                }),
                None => false,
            },
            ActionType::AllIn => match amount {
                Some(target) => target.0 > self.bet_of(seat).0,
                None => false,
            },
        }
    }

    /// The bet that an allowed action brings the player to.
    pub open spec fn target_of(self, action: PlayerAction) -> Chips {
        match action.action_type {
            ActionType::Fold => self.bet_of(action.seat_id),
            ActionType::Check => self.bet_of(action.seat_id),
            ActionType::Call => self.betting.current_bet,
            ActionType::RaiseTo => action.amount->0,
            ActionType::AllIn => action.amount->0,
        }
    }

    /// The chips that an allowed action moves into the pot.
    pub open spec fn delta_of(self, action: PlayerAction) -> Chips {
        self.target_of(action).less(self.bet_of(action.seat_id))
    }

    pub open spec fn moves_chips(self, action: PlayerAction) -> bool {
        action.action_type != ActionType::Fold && action.action_type != ActionType::Check
    }

    /// Whether the others have to answer to the action.
    pub open spec fn raises(self, action: PlayerAction) -> bool {
        (action.action_type == ActionType::RaiseTo || action.action_type == ActionType::AllIn)
            && self.target_of(action).0 > self.betting.current_bet.0
    }

    /// The bet is on the table, not yet in the pot.
    pub open spec fn bet_placed(self, action: PlayerAction) -> TableView {
        let target = self.target_of(action);
        TableView {
            betting: BettingView {
                bets: self.betting.bets.insert(action.seat_id, target),
                current_bet: if self.raises(action) {
                    target
                } else {
                    self.betting.current_bet
                },
                min_raise_to: if self.raises(action) {
                    Some(min_raise_after(self.betting.current_bet, target))
                } else {
                    self.betting.min_raise_to
                },
                ..self.betting
            },
            ..self
        }
    }

    /// The pot does not hold the chips of the action.
    pub open spec fn pot_overflows(self, action: PlayerAction) -> bool {
        self.moves_chips(action) && self.pot.main_pot.plus(self.delta_of(action)) is Err
    }

    /// The record of what the player put in does not hold the chips of the action.
    pub open spec fn contribution_overflows(self, action: PlayerAction) -> bool {
        self.moves_chips(action) && amount_at(self.pot.contributions, action.seat_id).plus(
            self.delta_of(action),
        ) is Err
    }

    /// The chips of the bet are in the pot.
    pub open spec fn pot_grown(self, action: PlayerAction) -> TableView {
        TableView {
            pot: PotView {
                main_pot: self.pot.main_pot.plus(self.delta_of(action))->Ok_0,
                ..self.pot
            },
            ..self.bet_placed(action)
        }
    }

    /// What everybody has put in once the action is done.
    pub open spec fn contributions_after(self, action: PlayerAction) -> Map<SeatId, Chips> {
        if self.moves_chips(action) {
            self.pot.contributions.insert(
                action.seat_id,
                amount_at(self.pot.contributions, action.seat_id).plus(
                    self.delta_of(action),
                )->Ok_0,
            )
        } else {
            self.pot.contributions
        }
    }

    /// The chips have moved and the records of who folded and who is all in are up to date.
    pub open spec fn chips_moved(self, action: PlayerAction) -> TableView {
        let seat = action.seat_id;
        let moved = if self.moves_chips(action) {
            self.pot_grown(action)
        } else {
            self
        };
        TableView {
            snapshot: HandSnapshot {
                pot_total: if self.moves_chips(action) {
                    moved.pot.main_pot
                } else {
                    self.snapshot.pot_total
                },
                ..self.snapshot
            },
            hand: HandView {
                folded: if action.action_type == ActionType::Fold {
                    self.hand.folded.insert(seat)
                } else {
                    self.hand.folded
                },
                all_in: if action.action_type == ActionType::AllIn {
                    self.hand.all_in.insert(seat)
                } else {
                    self.hand.all_in
                },
                ..self.hand
            },
            pot: PotView { contributions: self.contributions_after(action), ..moved.pot },
            ..moved
        }
    }

    /// The action is done and counted; whose turn it is comes next. A raise asks everybody
    /// anew who is not all in.
    pub open spec fn action_done(self, action: PlayerAction) -> TableView {
        let moved = self.chips_moved(action);
        let seq = if self.snapshot.next_action_seq == u32::MAX {
            u32::MAX
        } else {
            (self.snapshot.next_action_seq + 1) as u32
        };
        TableView {
            snapshot: HandSnapshot { next_action_seq: seq, ..moved.snapshot },
            hand: HandView { next_action_seq: seq, ..moved.hand },
            betting: BettingView {
                acted: if self.raises(action) {
                    moved.hand.all_in.insert(action.seat_id)
                } else {
                    self.betting.acted.insert(action.seat_id)
                },
                ..moved.betting
            },
            pot: PotView {
                side_pots: side_pots_of(moved.pot.contributions, moved.hand.folded),
                ..moved.pot
            },
            ..moved
        }
    }

    /// Everybody who can win has acted and has either matched the bet or is all in.
    pub open spec fn round_complete(self) -> bool {
        forall|seat: SeatId| #[trigger]
            self.active().contains(seat) ==> self.betting.acted.contains(seat) && (
            self.hand.all_in.contains(seat) || self.bet_of(seat) == self.betting.current_bet)
    }

    /// No more bets: the cards decide.
    pub open spec fn at_showdown(self) -> TableView {
        self.with_status(HandStatus::Showdown).on_street(Street::Showdown).with_actor(None)
    }

    /// The first player to act on a new street: the first after the dealer who can win.
    pub open spec fn first_after_dealer(self) -> SeatId {
        let order = in_order(self.hand.seated);
        match next_round(
            order,
            dealer_place(self.snapshot.hand_no, order.len()),
            self.active(),
        ) {
            Some(seat) => seat,
            None => in_order(self.active())[0],
        }
    }

    /// The next street begins with no bets; after the last one comes the showdown.
    pub open spec fn street_advanced(self) -> TableView {
        match street_after(self.snapshot.street) {
            Some(street) => {
                let turned = self.on_street(street).with_actor(Some(self.first_after_dealer()));
                TableView {
                    betting: BettingView {
                        current_bet: Chips(0),
                        min_raise_to: None,
                        bets: Map::empty(),
                        acted: Set::empty(),
                        ..turned.betting
                    },
                    ..turned
                }
            },
            None => self.at_showdown(),
        }
    }

    /// The player to act after `seat`: the next round the table who can still bet.
    pub open spec fn actor_after(self, seat: SeatId) -> SeatId {
        let order = in_order(self.hand.seated);
        if self.hand.seated.contains(seat) {
            match next_round(order, order.index_of(seat), self.actionable()) {
                Some(next) => next,
                None => in_order(self.actionable())[0],
            }
        } else {
            in_order(self.actionable())[0]
        }
    }

    /// The state once the turn has passed on from `seat`.
    pub open spec fn turn_passed(self, seat: SeatId) -> TableView {
        if in_order(self.active()).len() <= 1 {
            self.with_status(HandStatus::Settled).with_actor(None)
        } else if self.round_complete() {
            self.street_advanced()
        } else if in_order(self.actionable()).len() == 0 {
            self.at_showdown()
        } else {
            self.with_actor(Some(self.actor_after(seat)))
        }
    }

    /// The street that begins when the turn passes on, if one does.
    pub open spec fn street_begun(self) -> Option<Street> {
        if in_order(self.active()).len() <= 1 {
            None
        } else if self.round_complete() {
            match street_after(self.snapshot.street) {
                Some(street) => Some(street),
                None => Some(Street::Showdown),
            }
        } else if in_order(self.actionable()).len() == 0 {
            Some(Street::Showdown)
        } else {
            None
        }
    }

    /// What the engine answers to the action.
    pub open spec fn answer_to(self, action: PlayerAction) -> Result<
        EngineActionResult,
        EngineError,
    > {
        match self.refusal(action) {
            Some(error) => Err(EngineError::Domain(error)),
            None => if self.pot_overflows(action) || self.contribution_overflows(action) {
                Err(EngineError::Money(MoneyError::Overflow))
            } else {
                Ok(
                    EngineActionResult::Accepted {
                        street_changed: self.action_done(action).street_begun(),
                    },
                )
            },
        }
    }

    /// The state that the action leaves behind. An action that the rules refuse changes
    /// nothing.
    pub open spec fn after_action(self, action: PlayerAction) -> TableView {
        if self.refusal(action) is Some {
            self
        } else if self.pot_overflows(action) {
            self.bet_placed(action)
        } else if self.contribution_overflows(action) {
            self.pot_grown(action)
        } else {
            self.action_done(action).turn_passed(action.seat_id)
        }
    }

    /// The choices of the player whose turn it is.
    pub open spec fn choices_of(self, seat: SeatId) -> Seq<LegalAction> {
        let owed = self.to_call(seat);
        let least = match self.betting.min_raise_to {
            Some(least) => least,
            None => match self.betting.current_bet.plus(Chips(1)) {
                Ok(next) => next,
                Err(_) => self.betting.current_bet,
            },
        };
        seq![
            LegalAction { action_type: ActionType::Fold, min_amount: None, max_amount: None },
            if owed.0 == 0 {
                LegalAction { action_type: ActionType::Check, min_amount: None, max_amount: None }
            } else {
                LegalAction {
                    action_type: ActionType::Call,
                    min_amount: Some(owed),
                    max_amount: Some(owed),
                }
            },
            LegalAction {
                action_type: ActionType::RaiseTo,
                min_amount: Some(least),
                max_amount: None,
            },
            LegalAction { action_type: ActionType::AllIn, min_amount: None, max_amount: None },
        ]
    }
}

/// The street after this one, or none after the river.
pub fn next_street(current: Street) -> (next: Option<Street>)
    ensures
        next == street_after(current),
{
    match current {
        Street::Preflop => Some(Street::Flop),
        Street::Flop => Some(Street::Turn),
        Street::Turn => Some(Street::River),
        Street::River => None,
        Street::Showdown => None,
    }
}

/// The least bet that a raise after the one from `current_bet` to `target_bet` must reach.
pub fn next_min_raise_to(current_bet: Chips, target_bet: Chips) -> (least: Chips)
    ensures
        least == min_raise_after(current_bet, target_bet),
{
    let raise_size = target_bet.less_or_zero(current_bet);
    match target_bet.checked_add(raise_size) {
        Ok(next) => next,
        Err(_) => target_bet,
    }
}

/// The place of the dealer among the seats of the hand.
pub fn state_dealer_index(hand_no: u64, seat_count: usize) -> (place: usize)
    ensures
        place == dealer_place(hand_no, seat_count as nat),
        seat_count > 0 ==> place < seat_count,
{
    if seat_count == 0 {
        return 0;
    }
    let dealt: u64 = if hand_no == 0 {
        0
    } else {
        hand_no - 1
    };
    let place: u64 = dealt % (seat_count as u64);
    place as usize
}

impl Default for PokerEngine {
    fn default() -> (engine: PokerEngine) {
        PokerEngine::new()
    }
}

impl PokerEngine {
    pub fn new() -> (engine: PokerEngine) {
        PokerEngine
    }

    /// The choices of a player: none unless it is their turn.
    pub fn legal_actions(&self, state: &EngineState, seat_id: SeatId) -> (actions: Vec<LegalAction>)
        ensures
            state.snapshot.acting_seat_id != Some(seat_id) ==> actions@.len() == 0,
            state.snapshot.acting_seat_id == Some(seat_id) ==> actions@ == state@.choices_of(
                seat_id,
            ),
    {
        let mut actions: Vec<LegalAction> = Vec::new();
        match state.snapshot.acting_seat_id {
            Some(acting) => {
                if acting != seat_id {
                    return actions;
                }
            },
            None => {
                return actions;
            },
        }
        let current_bet = state.betting_round.current_bet;
        let seat_bet = contribution_of(&state.betting_round.player_bets, seat_id);
        let to_call = current_bet.less_or_zero(seat_bet);
        actions.push(
            LegalAction { action_type: ActionType::Fold, min_amount: None, max_amount: None },
        );
        if to_call.0 == 0 {
            actions.push(
                LegalAction { action_type: ActionType::Check, min_amount: None, max_amount: None },
            );
        } else {
            actions.push(
                LegalAction {
                    action_type: ActionType::Call,
                    min_amount: Some(to_call),
                    max_amount: Some(to_call),
                },
            );
        }
        let min_raise_to = match state.betting_round.min_raise_to {
            Some(least) => least,
            None => match current_bet.checked_add(Chips(1)) {
                Ok(next) => next,
                Err(_) => current_bet,
            },
        };
        actions.push(
            LegalAction {
                action_type: ActionType::RaiseTo,
                min_amount: Some(min_raise_to),
                max_amount: None,
            },
        );
        actions.push(
            LegalAction { action_type: ActionType::AllIn, min_amount: None, max_amount: None },
        );
        assert(actions@ =~= state@.choices_of(seat_id));
        actions
    }

    /// Applies a player's action to the hand. An action that the rules refuse changes
    /// nothing; one whose chips the pot cannot hold leaves the bet on the table.
    pub fn apply_action(&self, state: &mut EngineState, action: PlayerAction) -> (result: Result<
        EngineActionResult,
        EngineError,
    >)
        requires
            old(state)@.answer_to(action) is Ok ==> layers_fit(
                old(state)@.contributions_after(action),
            ),
        ensures
            result == old(state)@.answer_to(action),
            final(state)@ == old(state)@.after_action(action),
    {
        let ghost before = state@;
        if action.action_seq != state.snapshot.next_action_seq {
            return Err(EngineError::Domain(DomainError::ActionIllegal));
        }
        let on_turn: bool = match state.snapshot.acting_seat_id {
            Some(acting) => acting == action.seat_id,
            None => false,
        };
        if !on_turn {
            return Err(EngineError::Domain(DomainError::NotYourTurn));
        }
        let seat: u8 = action.seat_id;
        let prior_seat_bet = contribution_of(&state.betting_round.player_bets, seat);
        let current_bet = state.betting_round.current_bet;
        let to_call = current_bet.less_or_zero(prior_seat_bet);
        let mut raised: bool = false;
        match action.action_type {
            ActionType::Fold => {
                state.hand.folded_seats.insert(seat);
            },
            ActionType::Check => {
                if to_call.0 != 0 {
                    return Err(EngineError::Domain(DomainError::ActionIllegal));
                }
            },
            ActionType::Call => {
                if to_call.0 == 0 {
                    return Err(EngineError::Domain(DomainError::ActionIllegal));
                }
                state.betting_round.player_bets.insert(seat, current_bet);
                assert(state@ =~= before.bet_placed(action));
                assert(to_call == before.delta_of(action));
                match self.move_chips(state, seat, to_call) {
                    Ok(_) => {},
                    Err(error) => {
                        return Err(EngineError::Money(error));
                    },
                }
            },
            ActionType::RaiseTo | ActionType::AllIn => {
                let target = match action.amount {
                    Some(target) => target,
                    None => {
                        return Err(EngineError::Domain(DomainError::ActionIllegal));
                    },
                };
                if target.0 <= prior_seat_bet.0 {
                    return Err(EngineError::Domain(DomainError::ActionIllegal));
                }
                raised = target.0 > current_bet.0;
                let is_all_in: bool = match action.action_type {
                    ActionType::AllIn => true,
                    _ => false,
                };
                if !is_all_in {
                    if !raised {
                        return Err(EngineError::Domain(DomainError::ActionIllegal));
                    }
                    match state.betting_round.min_raise_to {
                        Some(min_raise_to) => {
                            if target.0 < min_raise_to.0 {
                                return Err(EngineError::Domain(DomainError::ActionIllegal));
                            }
                        },
                        None => {},
                    }
                }
                let delta = target.less_or_zero(prior_seat_bet);
                state.betting_round.player_bets.insert(seat, target);
                if raised {
                    state.betting_round.current_bet = target;
                    state.betting_round.min_raise_to = Some(next_min_raise_to(current_bet, target));
                }
                assert(state@ =~= before.bet_placed(action));
                assert(delta == before.delta_of(action));
                match self.move_chips(state, seat, delta) {
                    Ok(_) => {},
                    Err(error) => {
                        return Err(EngineError::Money(error));
                    },
                }
                if is_all_in {
                    state.hand.all_in_seats.insert(seat);
                }
            },
        }
        assert(state@ =~= before.chips_moved(action));
        self.rebuild_side_pots(state);
        if raised {
            state.betting_round.acted_seats = crate::engine::state::copy_seats(
                &state.hand.all_in_seats,
            );
        }
        state.betting_round.acted_seats.insert(seat);
        let next_seq: u32 = state.snapshot.next_action_seq.saturating_add(1);
        state.snapshot.next_action_seq = next_seq;
        state.hand.next_action_seq = next_seq;
        assert(state@ =~= before.action_done(action));
        let street_changed = self.advance_turn(state, seat);
        Ok(EngineActionResult::Accepted { street_changed: street_changed })
    }

    /// Moves chips from a player into the pot and shows the new total.
    fn move_chips(&self, state: &mut EngineState, seat_id: SeatId, delta: Chips) -> (moved: Result<
        (),
        MoneyError,
    >)
        requires
            delta.0 > 0,
        ensures
            match old(state)@.pot.main_pot.plus(delta) {
                Err(error) => moved == Err::<(), MoneyError>(error) && final(state)@ == old(
                    state,
                )@,
                Ok(main_pot) => {
                    let grown = PotView { main_pot: main_pot, ..old(state)@.pot };
                    match amount_at(old(state)@.pot.contributions, seat_id).plus(delta) {
                        Err(error) => moved == Err::<(), MoneyError>(error) && final(state)@ == (
                        TableView { pot: grown, ..old(state)@ }),
                        Ok(amount) => moved is Ok && final(state)@ == (TableView {
                            snapshot: HandSnapshot { pot_total: main_pot, ..old(state)@.snapshot },
                            pot: PotView {
                                contributions: grown.contributions.insert(seat_id, amount),
                                ..grown
                            },
                            ..old(state)@
                        }),
                    }
                },
            },
    {
        match state.pot.main_pot.checked_add(delta) {
            Ok(main_pot) => {
                state.pot.main_pot = main_pot;
            },
            Err(error) => {
                return Err(error);
            },
        }
        match add_contribution(state, seat_id, delta) {
            Ok(_) => {},
            Err(error) => {
                return Err(error);
            },
        }
        state.snapshot.pot_total = state.pot.main_pot;
        Ok(())
    }

    /// Splits the pot anew after the chips or the folds have changed.
    pub fn rebuild_side_pots(&self, state: &mut EngineState)
        requires
            layers_fit(old(state)@.pot.contributions),
        ensures
            final(state)@ == (TableView {
                pot: PotView {
                    side_pots: side_pots_of(
                        old(state)@.pot.contributions,
                        old(state)@.hand.folded,
                    ),
                    ..old(state)@.pot
                },
                ..old(state)@
            }),
    {
        state.pot.side_pots = build_side_pots(
            &state.pot.player_contributions,
            &state.hand.folded_seats,
        );
    }

    /// The layers of the pot, the main pot first.
    pub fn pot_layers(&self, state: &EngineState) -> (layers: Vec<PotLayer>)
        requires
            layers_fit(state@.pot.contributions),
        ensures
            layers@.map_values(|layer: PotLayer| layer@) == pot_layers_of(
                state@.pot.contributions,
                state@.hand.folded,
            ),
    {
        build_pot_layers(&state.pot.player_contributions, &state.hand.folded_seats)
    }

    /// Passes the turn on from `current_seat_id`, to another player, to the next street or to
    /// the end of the hand.
    fn advance_turn(&self, state: &mut EngineState, current_seat_id: SeatId) -> (begun: Option<
        Street,
    >)
        ensures
            final(state)@ == old(state)@.turn_passed(current_seat_id),
            begun == old(state)@.street_begun(),
    {
        let ghost before = state@;
        let active_seats = self.active_seats_sorted(state);
        if active_seats.len() <= 1 {
            state.snapshot.status = HandStatus::Settled;
            state.set_actor(None);
            return None;
        }
        if self.is_betting_round_complete(state, &active_seats) {
            return self.advance_street(state, &active_seats);
        }
        let actionable_seats = self.actionable_seats_sorted(state);
        if actionable_seats.len() == 0 {
            self.enter_showdown(state);
            return Some(Street::Showdown);
        }
        let seated = seats_in_order(&state.hand.seated_players);
        proof {
            in_order_lists_the_set(before.hand.seated);
            in_order_lists_the_set(before.actionable());
            assert(actionable_seats@.to_set() =~= before.actionable());
        }
        let next_seat: u8 = match place_of(&seated, current_seat_id) {
            Some(place) => {
                assert(seated@.contains(seated@[place as int]));
                assert(seated@.index_of(current_seat_id) == place);
                match find_next_round(&seated, place, &actionable_seats) {
                    Some(next) => next,
                    None => actionable_seats[0],
                }
            },
            None => actionable_seats[0],
        };
        state.set_actor(Some(next_seat));
        None
    }

    /// Those who can still win, from the lowest seat up.
    fn active_seats_sorted(&self, state: &EngineState) -> (seats: Vec<SeatId>)
        ensures
            seats@ == in_order(state@.active()),
    {
        let none: HashSet<SeatId> = HashSet::new();
        assert(state@.active().difference(none@) =~= state@.active());
        seats_outside(&state.hand.seated_players, &state.hand.folded_seats, &none)
    }

    /// Those who can still bet, from the lowest seat up.
    fn actionable_seats_sorted(&self, state: &EngineState) -> (seats: Vec<SeatId>)
        ensures
            seats@ == in_order(state@.actionable()),
    {
        seats_outside(
            &state.hand.seated_players,
            &state.hand.folded_seats,
            &state.hand.all_in_seats,
        )
    }

    /// Whether nobody has to act any more on this street.
    fn is_betting_round_complete(&self, state: &EngineState, active_seats: &Vec<SeatId>) -> (complete:
        bool)
        requires
            active_seats@ == in_order(state@.active()),
        ensures
            complete == (active_seats.len() > 0 && state@.round_complete()),
    {
        if active_seats.len() == 0 {
            return false;
        }
        proof {
            in_order_lists_the_set(state@.active());
        }
        let mut i: usize = 0;
        while i < active_seats.len()
            invariant
                i <= active_seats.len(),
                active_seats@ == in_order(state@.active()),
                forall|seat: SeatId| #[trigger]
                    active_seats@.contains(seat) <==> state@.active().contains(seat),
                forall|j: int|
                    0 <= j < i ==> state.betting_round.acted_seats@.contains(
                        #[trigger] active_seats[j],
                    ) && (state.hand.all_in_seats@.contains(active_seats[j]) || state@.bet_of(
                        active_seats[j],
                    ) == state.betting_round.current_bet),
            decreases active_seats.len() - i,
        {
            let seat: u8 = active_seats[i];
            assert(active_seats@.contains(active_seats@[i as int]));
            let matched: bool = contribution_of(&state.betting_round.player_bets, seat).0
                == state.betting_round.current_bet.0;
            if !state.betting_round.acted_seats.contains(&seat) || !(
            state.hand.all_in_seats.contains(&seat) || matched) {
                assert(state@.active().contains(seat));
                return false;
            }
            i = i + 1;
        }
        assert forall|seat: SeatId| #[trigger] state@.active().contains(
            seat,
        ) implies state@.betting.acted.contains(seat) && (state@.hand.all_in.contains(seat)
            || state@.bet_of(seat) == state@.betting.current_bet) by {
            assert(active_seats@.contains(seat));
            let at = choose|j: int| 0 <= j < active_seats.len() && active_seats[j] == seat;
            assert(state.betting_round.acted_seats@.contains(active_seats[at]));
        }
        true
    }

    fn enter_showdown(&self, state: &mut EngineState)
        ensures
            final(state)@ == old(state)@.at_showdown(),
    {
        state.snapshot.status = HandStatus::Showdown;
        state.snapshot.street = Street::Showdown;
        state.hand.street = Street::Showdown;
        state.set_actor(None);
    }

    /// Begins the next street, or the showdown after the last one.
    fn advance_street(&self, state: &mut EngineState, active_seats: &Vec<SeatId>) -> (begun: Option<
        Street,
    >)
        requires
            active_seats@ == in_order(old(state)@.active()),
            active_seats.len() > 0,
        ensures
            final(state)@ == old(state)@.street_advanced(),
            begun == (match street_after(old(state)@.snapshot.street) {
                Some(street) => Some(street),
                None => Some(Street::Showdown),
            }),
    {
        let ghost before = state@;
        let street = match next_street(state.snapshot.street) {
            Some(street) => street,
            None => {
                self.enter_showdown(state);
                return Some(Street::Showdown);
            },
        };
        let next_seat: u8 = match self.next_active_seat_left_of_button(state, active_seats) {
            Some(seat) => seat,
            None => active_seats[0],
        };
        state.snapshot.street = street;
        state.hand.street = street;
        state.betting_round.current_bet = Chips(0);
        state.betting_round.min_raise_to = None;
        state.betting_round.player_bets.clear();
        state.betting_round.acted_seats.clear();
        state.set_actor(Some(next_seat));
        assert(state@ =~= before.street_advanced());
        Some(street)
    }

    /// The first player after the dealer who can win, if anybody is seated.
    fn next_active_seat_left_of_button(
        &self,
        state: &EngineState,
        active_seats_sorted: &Vec<SeatId>,
    ) -> (next: Option<SeatId>)
        requires
            active_seats_sorted@ == in_order(state@.active()),
            active_seats_sorted.len() > 0,
        ensures
            match next {
                Some(seat) => seat == state@.first_after_dealer(),
                None => state@.first_after_dealer() == active_seats_sorted[0],
            },
    {
        let seated = seats_in_order(&state.hand.seated_players);
        proof {
            in_order_lists_the_set(state@.hand.seated);
            in_order_lists_the_set(state@.active());
            assert(active_seats_sorted@.to_set() =~= state@.active());
            assert(active_seats_sorted@.contains(active_seats_sorted@[0]));
            assert(state@.hand.seated.contains(active_seats_sorted@[0]));
            assert(seated@.contains(active_seats_sorted@[0]));
        }
        let dealer: usize = state_dealer_index(state.snapshot.hand_no, seated.len());
        find_next_round(&seated, dealer, active_seats_sorted)
    }
}

/// Adds to the record of what the seat has put in.
fn add_contribution(state: &mut EngineState, seat_id: SeatId, delta: Chips) -> (added: Result<
    (),
    MoneyError,
>)
    ensures
        match amount_at(old(state)@.pot.contributions, seat_id).plus(delta) {
            Err(error) => added == Err::<(), MoneyError>(error) && final(state)@ == old(state)@,
            Ok(amount) => added is Ok && final(state)@ == (if delta.0 == 0 {
                old(state)@
            } else {
                TableView {
                    pot: PotView {
                        contributions: old(state)@.pot.contributions.insert(seat_id, amount),
                        ..old(state)@.pot
                    },
                    ..old(state)@
                }
            }),
        },
{
    if delta.0 == 0 {
        return Ok(());
    }
    let next = match contribution_of(&state.pot.player_contributions, seat_id).checked_add(delta) {
        Ok(next) => next,
        Err(error) => {
            return Err(error);
        },
    };
    state.pot.player_contributions.insert(seat_id, next);
    Ok(())
}

} // verus!
