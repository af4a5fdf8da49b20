use std::collections::{HashMap, HashSet};

use vstd::prelude::*;

use crate::domain::game::{HandSnapshot, HandStatus, SeatId, Street};
use crate::domain::money::Chips;
use crate::engine::betting::{dealer_place, state_dealer_index, EngineError, PokerEngine};
use crate::engine::seats::{in_order, in_order_lists_the_set, seats_in_order};
use crate::engine::state::{
    BettingView, Card, DealingState, DealingView, EngineState, PotView, TableView,
};

verus! {

broadcast use vstd::std_specs::hash::group_hash_axioms;

/// The small blind.
pub const DEFAULT_SMALL_BLIND: u128 = 100_000_000_000_000;

/// The big blind.
pub const DEFAULT_BIG_BLIND: u128 = 200_000_000_000_000;

/// The places of the small blind, of the big blind and of the first player to act, counted
/// from the dealer. Of two players the dealer posts the small blind and acts first.
pub open spec fn blind_places(hand_no: u64, seat_count: nat) -> (int, int, int) {
    let dealer = dealer_place(hand_no, seat_count);
    let n = seat_count as int;
    if n == 2 {
        (dealer, (dealer + 1) % n, dealer)
    } else {
        ((dealer + 1) % n, (dealer + 2) % n, (dealer + 3) % n)
    }
}

/// Where the cards of the deck go at a table that seats `order`: one card to each player, a
/// second one to each, then the board with a card burned before the flop, the turn and the
/// river.
pub open spec fn dealt(order: Seq<SeatId>, deck: Seq<Card>) -> DealingView {
    let n = order.len() as int;
    DealingView {
        undealt: deck.skip(2 * n + 8),
        burned: seq![deck[2 * n], deck[2 * n + 4], deck[2 * n + 6]],
        board: seq![
            deck[2 * n + 1],
            deck[2 * n + 2],
            deck[2 * n + 3],
            deck[2 * n + 5],
            deck[2 * n + 7],
        ],
        hole: Map::new(
            |seat: SeatId| order.contains(seat),
            |seat: SeatId| seq![deck[order.index_of(seat)], deck[n + order.index_of(seat)]],
        ),
    }
}

impl TableView {
    /// Why the hand cannot be dealt from this deck, if it cannot.
    pub open spec fn deal_refusal(self, deck: Seq<Card>) -> Option<EngineError> {
        let players = in_order(self.hand.seated).len();
        if players < 2 {
            Some(EngineError::NotEnoughPlayersToDeal)
        } else if !deck.no_duplicates() {
            Some(EngineError::DuplicateCardsInDeck)
        } else if deck.len() < 2 * players + 8 {
            Some(EngineError::InsufficientDeck)
        } else {
            None
        }
    }

    /// The hand once its cards are dealt and its blinds are posted.
    pub open spec fn hand_dealt(self, deck: Seq<Card>) -> TableView {
        let order = in_order(self.hand.seated);
        let (small, big, first) = blind_places(self.snapshot.hand_no, order.len());
        let posted = Map::<SeatId, Chips>::empty().insert(
            order[small],
            Chips(DEFAULT_SMALL_BLIND),
        ).insert(order[big], Chips(DEFAULT_BIG_BLIND));
        let pot = Chips((DEFAULT_SMALL_BLIND + DEFAULT_BIG_BLIND) as u128);
        let begun = self.with_status(HandStatus::Running).on_street(Street::Preflop).with_actor(
            Some(order[first]),
        );
        TableView {
            snapshot: HandSnapshot { pot_total: pot, ..begun.snapshot },
            betting: BettingView {
                current_bet: Chips(DEFAULT_BIG_BLIND),
                min_raise_to: Some(Chips((2 * DEFAULT_BIG_BLIND) as u128)),
                bets: posted,
                acted: Set::empty(),
                ..begun.betting
            },
            pot: PotView { main_pot: pot, side_pots: Seq::empty(), contributions: posted },
            dealing: Some(dealt(order, deck)),
            ..begun
        }
    }
}

/// A deck in which every card is where its number says.
pub open spec fn sorted_deck() -> Seq<Card> {
    Seq::new(52, |i: int| i as u8)
}

/// All cards, in the order of their numbers.
pub fn ordered_deck() -> (deck: Vec<Card>)
    ensures
        deck@ == sorted_deck(),
{
    let mut deck: Vec<Card> = Vec::new();
    let mut card: u8 = 0;
    while card < 52
        invariant
            card <= 52,
            deck.len() == card,
            forall|i: int| 0 <= i < card ==> deck[i] == i,
        decreases 52 - card,
    {
        deck.push(card);
        card = card + 1;
    }
    assert(deck@ =~= sorted_deck());
    deck
}

/// Whether no card is in the deck twice.
fn all_different(deck: &Vec<Card>) -> (different: bool)
    ensures
        different == deck@.no_duplicates(),
{
    let mut seen: HashSet<Card> = HashSet::new();
    let mut i: usize = 0;
    while i < deck.len()
        invariant
            i <= deck.len(),
            forall|card: Card| #[trigger]
                seen@.contains(card) <==> exists|j: int| 0 <= j < i && deck@[j] == card,
            forall|j: int, k: int| 0 <= j < k < i ==> deck@[j] != deck@[k],
        decreases deck.len() - i,
    {
        let card: u8 = deck[i];
        if seen.contains(&card) {
            return false;
        }
        assert forall|j: int, k: int| 0 <= j < k < i + 1 implies deck@[j] != deck@[k] by {
            if k == i {
                assert(!seen@.contains(deck@[i as int]));
            }
        }
        seen.insert(card);
        assert forall|other: Card| #[trigger] seen@.contains(other) <==> exists|j: int|
            0 <= j < i + 1 && deck@[j] == other by {
            if other == card {
                assert(deck@[i as int] == other);
            }
        }
        i = i + 1;
    }
    true
}

/// The two cards of each player.
fn deal_hole_cards(order: &Vec<SeatId>, deck: &Vec<Card>) -> (hole_cards: HashMap<SeatId, [Card; 2]>)
    requires
        order@.no_duplicates(),
        order.len() <= 256,
        2 * order.len() <= deck.len(),
    ensures
        hole_cards@.map_values(|cards: [Card; 2]| cards@) == dealt(order@, deck@).hole,
{
    let n: usize = order.len();
    let mut hole_cards: HashMap<SeatId, [Card; 2]> = HashMap::new();
    let mut i: usize = 0;
    while i < n
        invariant
            i <= n,
            n == order.len(),
            n <= 256,
            2 * n <= deck.len(),
            order@.no_duplicates(),
            forall|seat: SeatId| #[trigger]
                hole_cards@.dom().contains(seat) <==> exists|j: int| 0 <= j < i && order@[j] == seat,
            forall|j: int|
                0 <= j < i ==> (#[trigger] hole_cards@[order@[j]])@ == seq![deck@[j], deck@[n + j]],
        decreases n - i,
    {
        let ghost before = hole_cards@;
        let pair: [Card; 2] = [deck[i], deck[n + i]];
        hole_cards.insert(order[i], pair);
        assert(pair@ =~= seq![deck@[i as int], deck@[n + i]]);
        assert forall|seat: SeatId| #[trigger] hole_cards@.dom().contains(seat) <==> exists|j: int|
            0 <= j < i + 1 && order@[j] == seat by {
            if seat == order@[i as int] {
                assert(hole_cards@.dom().contains(seat));
            } else if before.dom().contains(seat) {
                let at = choose|j: int| 0 <= j < i && order@[j] == seat;
                assert(0 <= at < i + 1 && order@[at] == seat);
            }
        }
        assert forall|j: int| 0 <= j < i + 1 implies (#[trigger] hole_cards@[order@[j]])@
            == seq![deck@[j], deck@[n + j]] by {
            if j < i {
                assert(order@[j] != order@[i as int]);
                assert(before[order@[j]]@ == seq![deck@[j], deck@[n + j]]);
            }
        }
        i = i + 1;
    }
    let ghost got = hole_cards@.map_values(|cards: [Card; 2]| cards@);
    assert(got =~= dealt(order@, deck@).hole) by {
        assert forall|seat: SeatId| got.dom().contains(seat) == dealt(
            order@,
            deck@,
        ).hole.dom().contains(seat) by {
            assert(hole_cards@.dom().contains(seat) <==> order@.contains(seat));
        }
        assert forall|seat: SeatId| got.dom().contains(seat) implies got[seat] == dealt(
            order@,
            deck@,
        ).hole[seat] by {
            let at = order@.index_of(seat);
            assert(order@.contains(seat));
            assert(order@[at] == seat && 0 <= at < n);
            assert(hole_cards@[order@[at]]@ == seq![deck@[at], deck@[n + at]]);
        }
    }
    hole_cards
}

impl PokerEngine {
    /// Deals a new hand from a deck in the order of the cards' numbers.
    pub fn deal_new_hand_internal(&self, state: &mut EngineState) -> (result: Result<
        (),
        EngineError,
    >)
        ensures
            match old(state)@.deal_refusal(sorted_deck()) {
                Some(error) => result == Err::<(), EngineError>(error) && final(state)@ == old(
                    state,
                )@,
                None => result is Ok && final(state)@ == old(state)@.hand_dealt(sorted_deck()),
            },
    {
        self.deal_new_hand_internal_with_deck(state, ordered_deck())
    }

    /// Deals a new hand from `deck` and posts the blinds.
    pub fn deal_new_hand_internal_with_deck(&self, state: &mut EngineState, deck: Vec<Card>) -> (result:
        Result<(), EngineError>)
        ensures
            match old(state)@.deal_refusal(deck@) {
                Some(error) => result == Err::<(), EngineError>(error) && final(state)@ == old(
                    state,
                )@,
                None => result is Ok && final(state)@ == old(state)@.hand_dealt(deck@),
            },
    {
        let ghost before = state@;
        let seats = seats_in_order(&state.hand.seated_players);
        proof {
            in_order_lists_the_set(before.hand.seated);
        }
        if seats.len() < 2 {
            return Err(EngineError::NotEnoughPlayersToDeal);
        }
        if !all_different(&deck) {
            return Err(EngineError::DuplicateCardsInDeck);
        }
        let n: usize = seats.len();
        if deck.len() < 2 * n + 8 {
            return Err(EngineError::InsufficientDeck);
        }
        let base: usize = 2 * n;
        let mut burn_cards: Vec<Card> = Vec::new();
        burn_cards.push(deck[base]);
        burn_cards.push(deck[base + 4]);
        burn_cards.push(deck[base + 6]);
        let mut board_cards: Vec<Card> = Vec::new();
        board_cards.push(deck[base + 1]);
        board_cards.push(deck[base + 2]);
        board_cards.push(deck[base + 3]);
        board_cards.push(deck[base + 5]);
        board_cards.push(deck[base + 7]);
        let hole_cards = deal_hole_cards(&seats, &deck);
        let mut rest = deck;
        let undealt_deck = rest.split_off(base + 8);
        let dealing = DealingState {
            undealt_deck: undealt_deck,
            burn_cards: burn_cards,
            board_cards: board_cards,
            hole_cards: hole_cards,
        };
        assert(dealing@ =~= dealt(seats@, deck@)) by {
            assert(dealing@.undealt =~= deck@.skip(2 * n + 8));
            assert(dealing@.burned =~= dealt(seats@, deck@).burned);
            assert(dealing@.board =~= dealt(seats@, deck@).board);
        }
        let (small_blind_seat, big_blind_seat, first_to_act) = self.blinds_and_first_to_act(
            state.snapshot.hand_no,
            &seats,
        );
        state.dealing = Some(dealing);
        state.snapshot.status = HandStatus::Running;
        state.snapshot.street = Street::Preflop;
        state.hand.street = Street::Preflop;
        state.set_actor(Some(first_to_act));
        state.betting_round.current_bet = Chips(DEFAULT_BIG_BLIND);
        state.betting_round.min_raise_to = Some(Chips(DEFAULT_BIG_BLIND + DEFAULT_BIG_BLIND));
        state.betting_round.acted_seats.clear();
        state.betting_round.player_bets.clear();
        state.betting_round.player_bets.insert(small_blind_seat, Chips(DEFAULT_SMALL_BLIND));
        state.betting_round.player_bets.insert(big_blind_seat, Chips(DEFAULT_BIG_BLIND));
        state.pot.side_pots.clear();
        state.pot.player_contributions.clear();
        state.pot.player_contributions.insert(small_blind_seat, Chips(DEFAULT_SMALL_BLIND));
        state.pot.player_contributions.insert(big_blind_seat, Chips(DEFAULT_BIG_BLIND));
        state.pot.main_pot = Chips(DEFAULT_SMALL_BLIND + DEFAULT_BIG_BLIND);
        state.snapshot.pot_total = state.pot.main_pot;
        assert(state@.pot.side_pots =~= Seq::empty());
        assert(state@ =~= before.hand_dealt(deck@));
        Ok(())
    }

    /// Who posts the small blind, who posts the big blind and who acts first.
    fn blinds_and_first_to_act(&self, hand_no: u64, seats_sorted: &Vec<SeatId>) -> (places: (
        SeatId,
        SeatId,
        SeatId,
    ))
        requires
            2 <= seats_sorted.len() <= 256,
        ensures
            ({
                let (small, big, first) = blind_places(hand_no, seats_sorted@.len());
                &&& places.0 == seats_sorted@[small]
                &&& places.1 == seats_sorted@[big]
                &&& places.2 == seats_sorted@[first]
            }),
    {
        let n: usize = seats_sorted.len();
        let dealer: usize = state_dealer_index(hand_no, n);
        if n == 2 {
            (seats_sorted[dealer], seats_sorted[(dealer + 1) % n], seats_sorted[dealer])
        } else {
            (
                seats_sorted[(dealer + 1) % n],
                seats_sorted[(dealer + 2) % n],
                seats_sorted[(dealer + 3) % n],
            )
        }
    }
}

/// The cards in the order in which they leave the deck.
pub open spec fn cards_in_dealing_order(order: Seq<SeatId>, dealing: DealingView) -> Seq<Card> {
    let n = order.len();
    Seq::new(n, |i: int| dealing.hole[order[i]][0]) + Seq::new(
        n,
        |i: int| dealing.hole[order[i]][1],
    ) + seq![
        dealing.burned[0],
        dealing.board[0],
        dealing.board[1],
        dealing.board[2],
        dealing.burned[1],
        dealing.board[3],
        dealing.burned[2],
        dealing.board[4],
    ] + dealing.undealt
}

/// Every card of the deck goes to exactly one place: putting the hole cards, the burned
/// cards, the board and the rest together again gives the deck.
pub proof fn dealing_keeps_every_card(order: Seq<SeatId>, deck: Seq<Card>)
    requires
        order.no_duplicates(),
        deck.len() >= 2 * order.len() + 8,
    ensures
        cards_in_dealing_order(order, dealt(order, deck)) == deck,
{
    let dealing = dealt(order, deck);
    assert forall|i: int| 0 <= i < order.len() implies dealing.hole[#[trigger] order[i]] == seq![
        deck[i],
        deck[order.len() + i],
    ] by {
        assert(order.contains(order[i]));
        assert(order.index_of(order[i]) == i);
    }
    assert(cards_in_dealing_order(order, dealing) =~= deck);
}

/// From one hand to the next the dealer moves on by one seat.
pub proof fn deal_rotates(hand_no: u64, seat_count: nat)
    requires
        1 <= hand_no < u64::MAX,
        seat_count > 0,
    ensures
        dealer_place((hand_no + 1) as u64, seat_count) == (dealer_place(hand_no, seat_count) + 1) % (
        seat_count as int),
{
    vstd::arithmetic::div_mod::lemma_add_mod_noop(hand_no - 1, 1, seat_count as int);
    if seat_count > 1 {
        vstd::arithmetic::div_mod::lemma_small_mod(1, seat_count);
    } else {
        assert(dealer_place(hand_no, seat_count) == 0);
        assert(hand_no as int % 1 == 0);
        assert(1int % 1 == 0);
    }
}

/// The two blinds are posted by different players.
pub proof fn blinds_differ(hand_no: u64, seat_count: nat)
    requires
        seat_count >= 2,
    ensures
        ({
            let (small, big, first) = blind_places(hand_no, seat_count);
            &&& small != big
            &&& 0 <= small < seat_count
            &&& 0 <= big < seat_count
            &&& 0 <= first < seat_count
        }),
{
    let n = seat_count as int;
    let dealer = dealer_place(hand_no, seat_count);
    assert(0 <= dealer < n);
    assert(dealer + 1 < n ==> (dealer + 1) % n == dealer + 1) by (nonlinear_arith)
        requires
            0 <= dealer < n,
    ;
    assert(dealer + 1 == n ==> (dealer + 1) % n == 0) by (nonlinear_arith)
        requires
            0 <= dealer < n,
    ;
    assert(dealer + 2 < n ==> (dealer + 2) % n == dealer + 2) by (nonlinear_arith)
        requires
            0 <= dealer < n,
    ;
    assert(n <= dealer + 2 < 2 * n ==> (dealer + 2) % n == dealer + 2 - n) by (nonlinear_arith)
        requires
            0 <= dealer < n,
    ;
}

} // verus!
