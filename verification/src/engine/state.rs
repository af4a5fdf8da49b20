use std::collections::{HashMap, HashSet};

use vstd::prelude::*;

use crate::domain::game::{ActionSeq, HandSnapshot, HandStatus, SeatId, Street};
use crate::domain::ids::{is_time_ordered, HandId, RoomId};
use crate::domain::money::Chips;

verus! {

broadcast use vstd::std_specs::hash::group_hash_axioms;

/// A playing card by its number: thirteen per suit, from the two up to the ace, in the order
/// spades, clubs, hearts, diamonds.
pub type Card = u8;

/// Who takes part in the hand.
#[derive(Debug)]
pub struct HandState {
    pub hand_id: HandId,
    pub street: Street,
    pub next_action_seq: ActionSeq,
    pub acting_seat_id: Option<SeatId>,
    pub seated_players: HashSet<SeatId>,
    pub folded_seats: HashSet<SeatId>,
    pub all_in_seats: HashSet<SeatId>,
}

/// The bets of the current street.
#[derive(Debug)]
pub struct BettingRoundState {
    pub current_bet: Chips,
    pub min_raise_to: Option<Chips>,
    pub acting_seat_id: Option<SeatId>,
    pub player_bets: HashMap<SeatId, Chips>,
    pub acted_seats: HashSet<SeatId>,
}

/// A part of the pot that not everybody can win.
#[derive(Debug, PartialEq, Eq)]
pub struct SidePot {
    pub amount: Chips,
    pub eligible_seats: Vec<SeatId>,
}

/// A part of the pot with those who can win it.
#[derive(Debug, PartialEq, Eq)]
pub struct PotLayer {
    pub amount: Chips,
    pub eligible_seats: Vec<SeatId>,
    pub is_main: bool,
}

/// The chips in the middle of the table and where they came from.
#[derive(Debug)]
pub struct PotState {
    pub main_pot: Chips,
    pub side_pots: Vec<SidePot>,
    pub player_contributions: HashMap<SeatId, Chips>,
}

/// Where the cards of the deck have gone.
#[derive(Debug)]
pub struct DealingState {
    pub undealt_deck: Vec<Card>,
    pub burn_cards: Vec<Card>,
    pub board_cards: Vec<Card>,
    pub hole_cards: HashMap<SeatId, [Card; 2]>,
}

/// Everything the rules need to know of a hand.
#[derive(Debug)]
pub struct EngineState {
    pub snapshot: HandSnapshot,
    pub hand: HandState,
    pub betting_round: BettingRoundState,
    pub pot: PotState,
    pub dealing: Option<DealingState>,
}

#[verifier::ext_equal]
pub ghost struct HandView {
    pub hand_id: HandId,
    pub street: Street,
    pub next_action_seq: ActionSeq,
    pub acting_seat_id: Option<SeatId>,
    pub seated: Set<SeatId>,
    pub folded: Set<SeatId>,
    pub all_in: Set<SeatId>,
}

#[verifier::ext_equal]
pub ghost struct BettingView {
    pub current_bet: Chips,
    pub min_raise_to: Option<Chips>,
    pub acting_seat_id: Option<SeatId>,
    pub bets: Map<SeatId, Chips>,
    pub acted: Set<SeatId>,
}

/// A layer of the pot, with its amount as a mathematical number.
#[verifier::ext_equal]
pub ghost struct LayerView {
    pub amount: int,
    pub eligible_seats: Seq<SeatId>,
    pub is_main: bool,
}

#[verifier::ext_equal]
pub ghost struct SidePotView {
    pub amount: int,
    pub eligible_seats: Seq<SeatId>,
}

#[verifier::ext_equal]
pub ghost struct PotView {
    pub main_pot: Chips,
    pub side_pots: Seq<SidePotView>,
    pub contributions: Map<SeatId, Chips>,
}

#[verifier::ext_equal]
pub ghost struct DealingView {
    pub undealt: Seq<Card>,
    pub burned: Seq<Card>,
    pub board: Seq<Card>,
    pub hole: Map<SeatId, Seq<Card>>,
}

/// The state of a hand as a mathematical value.
#[verifier::ext_equal]
pub ghost struct TableView {
    pub snapshot: HandSnapshot,
    pub hand: HandView,
    pub betting: BettingView,
    pub pot: PotView,
    pub dealing: Option<DealingView>,
}

impl View for SidePot {
    type V = SidePotView;

    open spec fn view(&self) -> SidePotView {
        SidePotView { amount: self.amount.0 as int, eligible_seats: self.eligible_seats@ }
    }
}

impl View for PotLayer {
    type V = LayerView;

    open spec fn view(&self) -> LayerView {
        LayerView {
            amount: self.amount.0 as int,
            eligible_seats: self.eligible_seats@,
            is_main: self.is_main,
        }
    }
}

impl View for HandState {
    type V = HandView;

    open spec fn view(&self) -> HandView {
        HandView {
            hand_id: self.hand_id,
            street: self.street,
            next_action_seq: self.next_action_seq,
            acting_seat_id: self.acting_seat_id,
            seated: self.seated_players@,
            folded: self.folded_seats@,
            all_in: self.all_in_seats@,
        }
    }
}

impl View for BettingRoundState {
    type V = BettingView;

    open spec fn view(&self) -> BettingView {
        BettingView {
            current_bet: self.current_bet,
            min_raise_to: self.min_raise_to,
            acting_seat_id: self.acting_seat_id,
            bets: self.player_bets@,
            acted: self.acted_seats@,
        }
    }
}

impl View for PotState {
    type V = PotView;

    open spec fn view(&self) -> PotView {
        PotView {
            main_pot: self.main_pot,
            side_pots: self.side_pots@.map_values(|pot: SidePot| pot@),
            contributions: self.player_contributions@,
        }
    }
}

impl View for DealingState {
    type V = DealingView;

    open spec fn view(&self) -> DealingView {
        DealingView {
            undealt: self.undealt_deck@,
            burned: self.burn_cards@,
            board: self.board_cards@,
            hole: self.hole_cards@.map_values(|cards: [Card; 2]| cards@),
        }
    }
}

impl View for EngineState {
    type V = TableView;

    open spec fn view(&self) -> TableView {
        TableView {
            snapshot: self.snapshot,
            hand: self.hand@,
            betting: self.betting_round@,
            pot: self.pot@,
            dealing: match self.dealing {
                Some(dealing) => Some(dealing@),
                None => None,
            },
        }
    }
}

impl TableView {
    /// The same hand with `actor` to act, or nobody.
    pub open spec fn with_actor(self, actor: Option<SeatId>) -> TableView {
        TableView {
            snapshot: HandSnapshot { acting_seat_id: actor, ..self.snapshot },
            hand: HandView { acting_seat_id: actor, ..self.hand },
            betting: BettingView { acting_seat_id: actor, ..self.betting },
            ..self
        }
    }

    /// The same hand on another street.
    pub open spec fn on_street(self, street: Street) -> TableView {
        TableView {
            snapshot: HandSnapshot { street: street, ..self.snapshot },
            hand: HandView { street: street, ..self.hand },
            ..self
        }
    }

    pub open spec fn with_status(self, status: HandStatus) -> TableView {
        TableView { snapshot: HandSnapshot { status: status, ..self.snapshot }, ..self }
    }

    /// The three records of who acts, and the records of the street, the hand and the next
    /// action, agree.
    pub open spec fn consistent(self) -> bool {
        &&& self.hand.acting_seat_id == self.snapshot.acting_seat_id
        &&& self.betting.acting_seat_id == self.snapshot.acting_seat_id
        &&& self.hand.street == self.snapshot.street
        &&& self.hand.next_action_seq == self.snapshot.next_action_seq
        &&& self.hand.hand_id == self.snapshot.hand_id
    }

    /// A hand that has not begun.
    pub open spec fn created(room_id: RoomId, hand_id: HandId, hand_no: u64) -> TableView {
        TableView {
            snapshot: HandSnapshot {
                room_id: room_id,
                hand_id: hand_id,
                hand_no: hand_no,
                status: HandStatus::Created,
                street: Street::Preflop,
                acting_seat_id: None,
                next_action_seq: 1,
                pot_total: Chips(0),
            },
            hand: HandView {
                hand_id: hand_id,
                street: Street::Preflop,
                next_action_seq: 1,
                acting_seat_id: None,
                seated: Set::empty(),
                folded: Set::empty(),
                all_in: Set::empty(),
            },
            betting: BettingView {
                current_bet: Chips(0),
                min_raise_to: None,
                acting_seat_id: None,
                bets: Map::empty(),
                acted: Set::empty(),
            },
            pot: PotView {
                main_pot: Chips(0),
                side_pots: Seq::empty(),
                contributions: Map::empty(),
            },
            dealing: None,
        }
    }

    /// The hand begins with `actor` to act; whoever begins is seated.
    pub open spec fn started(self, actor: SeatId) -> TableView {
        let begun = self.with_status(HandStatus::Running).with_actor(Some(actor));
        TableView {
            hand: HandView {
                seated: begun.hand.seated.insert(actor),
                folded: Set::empty(),
                all_in: Set::empty(),
                ..begun.hand
            },
            betting: BettingView { acted: Set::empty(), ..begun.betting },
            dealing: None,
            ..begun
        }
    }
}

impl EngineState {
    /// A new hand of the room, under a fresh identifier.
    pub fn new(room_id: RoomId, hand_no: u64) -> (state: EngineState)
        ensures
            state@ == TableView::created(room_id, state.snapshot.hand_id, hand_no),
            is_time_ordered(state.snapshot.hand_id.0),
            state@.consistent(),
    {
        let hand_id = HandId::new();
        let state = EngineState {
            snapshot: HandSnapshot {
                room_id: room_id,
                hand_id: hand_id,
                hand_no: hand_no,
                status: HandStatus::Created,
                street: Street::Preflop,
                acting_seat_id: None,
                next_action_seq: 1,
                pot_total: Chips(0),
            },
            hand: HandState {
                hand_id: hand_id,
                street: Street::Preflop,
                next_action_seq: 1,
                acting_seat_id: None,
                seated_players: HashSet::new(),
                folded_seats: HashSet::new(),
                all_in_seats: HashSet::new(),
            },
            betting_round: BettingRoundState {
                current_bet: Chips(0),
                min_raise_to: None,
                acting_seat_id: None,
                player_bets: HashMap::new(),
                acted_seats: HashSet::new(),
            },
            pot: PotState {
                main_pot: Chips(0),
                side_pots: Vec::new(),
                player_contributions: HashMap::new(),
            },
            dealing: None,
        };
        assert(state.pot@.side_pots =~= Seq::empty());
        state
    }

    /// Begins the hand with `acting_seat_id` to act.
    pub fn start(&mut self, acting_seat_id: SeatId)
        ensures
            final(self)@ == old(self)@.started(acting_seat_id),
    {
        self.snapshot.status = HandStatus::Running;
        self.set_actor(Some(acting_seat_id));
        self.betting_round.acted_seats.clear();
        self.hand.folded_seats.clear();
        self.hand.all_in_seats.clear();
        self.dealing = None;
        self.hand.seated_players.insert(acting_seat_id);
    }

    /// Gives a player a seat.
    pub fn seat_player(&mut self, seat_id: SeatId)
        ensures
            final(self)@ == (TableView {
                hand: HandView { seated: old(self)@.hand.seated.insert(seat_id), ..old(self)@.hand },
                ..old(self)@
            }),
    {
        self.hand.seated_players.insert(seat_id);
    }

    /// Makes it the turn of `actor`, or nobody's.
    pub(crate) fn set_actor(&mut self, actor: Option<SeatId>)
        ensures
            final(self)@ == old(self)@.with_actor(actor),
            final(self).hand.seated_players == old(self).hand.seated_players,
            final(self).hand.folded_seats == old(self).hand.folded_seats,
            final(self).hand.all_in_seats == old(self).hand.all_in_seats,
    {
        self.snapshot.acting_seat_id = actor;
        self.hand.acting_seat_id = actor;
        self.betting_round.acting_seat_id = actor;
    }
}

/// A copy of a set of seats.
pub fn copy_seats(seats: &HashSet<SeatId>) -> (copy: HashSet<SeatId>)
    ensures
        copy@ == seats@,
{
    let mut copy: HashSet<SeatId> = HashSet::new();
    let mut next: u16 = 0;
    while next < 256
        invariant
            next <= 256,
            forall|seat: SeatId| #[trigger]
                copy@.contains(seat) <==> seats@.contains(seat) && seat < next,
        decreases 256 - next,
    {
        let seat: u8 = next as u8;
        if seats.contains(&seat) {
            copy.insert(seat);
        }
        next = next + 1;
    }
    assert(copy@ =~= seats@);
    copy
}

/// A copy of a map from seats.
pub fn copy_by_seat<T: Copy>(entries: &HashMap<SeatId, T>) -> (copy: HashMap<SeatId, T>)
    ensures
        copy@ == entries@,
{
    let mut copy: HashMap<SeatId, T> = HashMap::new();
    let mut next: u16 = 0;
    while next < 256
        invariant
            next <= 256,
            forall|seat: SeatId| #[trigger]
                copy@.dom().contains(seat) <==> entries@.dom().contains(seat) && seat < next,
            forall|seat: SeatId|
                copy@.dom().contains(seat) ==> #[trigger] copy@[seat] == entries@[seat],
        decreases 256 - next,
    {
        let seat: u8 = next as u8;
        match entries.get(&seat) {
            Some(entry) => {
                copy.insert(seat, *entry);
            },
            None => {},
        }
        next = next + 1;
    }
    assert(copy@ =~= entries@);
    copy
}

impl Clone for HandState {
    fn clone(&self) -> (copy: HandState)
        ensures
            copy@ == self@,
    {
        HandState {
            hand_id: self.hand_id,
            street: self.street,
            next_action_seq: self.next_action_seq,
            acting_seat_id: self.acting_seat_id,
            seated_players: copy_seats(&self.seated_players),
            folded_seats: copy_seats(&self.folded_seats),
            all_in_seats: copy_seats(&self.all_in_seats),
        }
    }
}

impl Clone for BettingRoundState {
    fn clone(&self) -> (copy: BettingRoundState)
        ensures
            copy@ == self@,
    {
        BettingRoundState {
            current_bet: self.current_bet,
            min_raise_to: self.min_raise_to,
            acting_seat_id: self.acting_seat_id,
            player_bets: copy_by_seat(&self.player_bets),
            acted_seats: copy_seats(&self.acted_seats),
        }
    }
}

impl Clone for SidePot {
    fn clone(&self) -> (copy: SidePot)
        ensures
            copy@ == self@,
    {
        let eligible_seats = self.eligible_seats.clone();
        assert(eligible_seats@ =~= self.eligible_seats@);
        SidePot { amount: self.amount, eligible_seats: eligible_seats }
    }
}

impl Clone for PotLayer {
    fn clone(&self) -> (copy: PotLayer)
        ensures
            copy@ == self@,
    {
        let eligible_seats = self.eligible_seats.clone();
        assert(eligible_seats@ =~= self.eligible_seats@);
        PotLayer { amount: self.amount, eligible_seats: eligible_seats, is_main: self.is_main }
    }
}

impl Clone for PotState {
    fn clone(&self) -> (copy: PotState)
        ensures
            copy@ == self@,
    {
        let mut side_pots: Vec<SidePot> = Vec::new();
        let mut i: usize = 0;
        while i < self.side_pots.len()
            invariant
                i <= self.side_pots.len(),
                side_pots.len() == i,
                forall|j: int| 0 <= j < i ==> (#[trigger] side_pots[j])@ == self.side_pots[j]@,
            decreases self.side_pots.len() - i,
        {
            side_pots.push(self.side_pots[i].clone());
            i = i + 1;
        }
        let copy = PotState {
            main_pot: self.main_pot,
            side_pots: side_pots,
            player_contributions: copy_by_seat(&self.player_contributions),
        };
        assert(copy@.side_pots =~= self@.side_pots);
        copy
    }
}

impl Clone for DealingState {
    fn clone(&self) -> (copy: DealingState)
        ensures
            copy@ == self@,
    {
        let copy = DealingState {
            undealt_deck: self.undealt_deck.clone(),
            burn_cards: self.burn_cards.clone(),
            board_cards: self.board_cards.clone(),
            hole_cards: copy_by_seat(&self.hole_cards),
        };
        assert(copy@.undealt =~= self@.undealt);
        assert(copy@.burned =~= self@.burned);
        assert(copy@.board =~= self@.board);
        copy
    }
}

impl Clone for EngineState {
    fn clone(&self) -> (copy: EngineState)
        ensures
            copy@ == self@,
    {
        EngineState {
            snapshot: self.snapshot,
            hand: self.hand.clone(),
            betting_round: self.betting_round.clone(),
            pot: self.pot.clone(),
            dealing: match &self.dealing {
                Some(dealing) => Some(dealing.clone()),
                None => None,
            },
        }
    }
}

} // verus!
