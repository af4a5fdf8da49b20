use vstd::prelude::*;

use crate::domain::game::SeatId;
use crate::engine::betting::PokerEngine;
use crate::engine::seats::contains_seat;
use crate::engine::state::Card;
use crate::engine::showdown::HandRank::{
    Flush, FourOfAKind, FullHouse, HighCard, OnePair, Straight, StraightFlush, ThreeOfAKind, TwoPair,
};

verus! {

/// The strength of a hand of cards: its category, then the strength within the category.
#[derive(Debug, Clone, Copy, PartialEq, Eq, Structural)]
pub enum HandRank {
    HighCard(u32),
    OnePair(u32),
    TwoPair(u32),
    ThreeOfAKind(u32),
    Straight(u32),
    Flush(u32),
    FullHouse(u32),
    FourOfAKind(u32),
    StraightFlush(u32),
}

impl HandRank {
    pub open spec fn spec_category(self) -> int {
        match self {
            HandRank::HighCard(_) => 0,
            HandRank::OnePair(_) => 1,
            HandRank::TwoPair(_) => 2,
            HandRank::ThreeOfAKind(_) => 3,
            HandRank::Straight(_) => 4,
            HandRank::Flush(_) => 5,
            HandRank::FullHouse(_) => 6,
            HandRank::FourOfAKind(_) => 7,
            HandRank::StraightFlush(_) => 8,
        }
    }

    pub open spec fn spec_strength(self) -> int {
        match self {
            HandRank::HighCard(s) => s as int,
            HandRank::OnePair(s) => s as int,
            HandRank::TwoPair(s) => s as int,
            HandRank::ThreeOfAKind(s) => s as int,
            HandRank::Straight(s) => s as int,
            HandRank::Flush(s) => s as int,
            HandRank::FullHouse(s) => s as int,
            HandRank::FourOfAKind(s) => s as int,
            HandRank::StraightFlush(s) => s as int,
        }
    }

    /// A number that orders hands by strength.
    pub open spec fn value(self) -> int {
        self.spec_category() * 0x1_0000_0000 + self.spec_strength()
    }

    /// The same number, to compute with.
    pub fn score(self) -> (score: u64)
        ensures
            score == self.value(),
    {
        match self {
            HandRank::HighCard(s) => s as u64,
            HandRank::OnePair(s) => 0x1_0000_0000 + s as u64,
            HandRank::TwoPair(s) => 0x2_0000_0000 + s as u64,
            HandRank::ThreeOfAKind(s) => 0x3_0000_0000 + s as u64,
            HandRank::Straight(s) => 0x4_0000_0000 + s as u64,
            HandRank::Flush(s) => 0x5_0000_0000 + s as u64,
            HandRank::FullHouse(s) => 0x6_0000_0000 + s as u64,
            HandRank::FourOfAKind(s) => 0x7_0000_0000 + s as u64,
            HandRank::StraightFlush(s) => 0x8_0000_0000 + s as u64,
        }
    }
}

/// How many of the first `count` cards have this value.
pub open spec fn value_count(cards: Seq<Card>, value: int, count: nat) -> nat
    decreases count,
{
    if count == 0 {
        0
    } else {
        value_count(cards, value, (count - 1) as nat) + (if cards[count - 1] % 13 == value {
            1nat
        } else {
            0nat
        })
    }
}

/// Cards that have a rank: five or more cards of the deck, no value more than four times, and
/// not nothing but fours of a kind.
pub open spec fn rankable(cards: Seq<Card>) -> bool {
    &&& cards.len() >= 5
    &&& forall|i: int| 0 <= i < cards.len() ==> #[trigger] cards[i] < 52
    &&& forall|value: int|
        0 <= value < 13 ==> #[trigger] value_count(cards, value, cards.len()) <= 4
    &&& exists|value: int|
        0 <= value < 13 && 1 <= #[trigger] value_count(cards, value, cards.len()) <= 3
}

/// What `rs_poker::core::Rankable::rank` finds in the cards: the best five of them.
pub uninterp spec fn hand_rank(cards: Seq<Card>) -> HandRank;

/// Ranks the cards with `rs_poker::core::Rankable::rank` on a vector of `rs_poker` cards. The
/// result is claimed to depend on the cards alone.
#[verifier::external_body]
fn rank_cards(cards: &Vec<Card>) -> (rank: HandRank)
    requires
        rankable(cards@),
    ensures
        rank == hand_rank(cards@),
{
    let hand: Vec<_> = cards.iter().copied().map(rs_poker::core::Card::from).collect();
    match rs_poker::core::Rankable::rank(&hand) {
        rs_poker::core::Rank::HighCard(s) => HighCard(s),
        rs_poker::core::Rank::OnePair(s) => OnePair(s),
        rs_poker::core::Rank::TwoPair(s) => TwoPair(s),
        rs_poker::core::Rank::ThreeOfAKind(s) => ThreeOfAKind(s),
        rs_poker::core::Rank::Straight(s) => Straight(s),
        rs_poker::core::Rank::Flush(s) => Flush(s),
        rs_poker::core::Rank::FullHouse(s) => FullHouse(s),
        rs_poker::core::Rank::FourOfAKind(s) => FourOfAKind(s),
        rs_poker::core::Rank::StraightFlush(s) => StraightFlush(s),
    }
}

/// The cards on the table and those that the players show.
#[derive(Debug)]
pub struct ShowdownInput {
    pub board: Vec<Card>,
    pub revealed_hole_cards: Vec<(SeatId, [Card; 2])>,
}

#[verifier::ext_equal]
pub ghost struct ShowdownView {
    pub board: Seq<Card>,
    pub revealed: Seq<(SeatId, Seq<Card>)>,
}

impl View for ShowdownInput {
    type V = ShowdownView;

    open spec fn view(&self) -> ShowdownView {
        ShowdownView {
            board: self.board@,
            revealed: self.revealed_hole_cards@.map_values(
                |shown: (SeatId, [Card; 2])| (shown.0, shown.1@),
            ),
        }
    }
}

impl Clone for ShowdownInput {
    fn clone(&self) -> (copy: ShowdownInput)
        ensures
            copy@ == self@,
    {
        let mut revealed: Vec<(SeatId, [Card; 2])> = Vec::new();
        let mut i: usize = 0;
        while i < self.revealed_hole_cards.len()
            invariant
                i <= self.revealed_hole_cards.len(),
                revealed@ == self.revealed_hole_cards@.take(i as int),
            decreases self.revealed_hole_cards.len() - i,
        {
            revealed.push(self.revealed_hole_cards[i]);
            i = i + 1;
        }
        let board = self.board.clone();
        assert(board@ =~= self.board@);
        assert(revealed@ =~= self.revealed_hole_cards@);
        ShowdownInput { board: board, revealed_hole_cards: revealed }
    }
}

/// Who wins, from the lowest seat up.
#[derive(Debug, Clone, PartialEq, Eq)]
pub struct ShowdownResult {
    pub winner_seats: Vec<SeatId>,
}

impl ShowdownView {
    /// The cards that the player at place `i` of the revealed hands plays with.
    pub open spec fn cards_of(self, i: int) -> Seq<Card> {
        self.board + self.revealed[i].1
    }

    /// Whether the player at place `i` takes part in the comparison.
    pub open spec fn takes_part(self, i: int, eligible: Option<Seq<SeatId>>) -> bool {
        match eligible {
            Some(seats) => seats.contains(self.revealed[i].0),
            None => true,
        }
    }

    /// Whether every hand that takes part has a rank.
    pub open spec fn all_rankable(self, eligible: Option<Seq<SeatId>>) -> bool {
        self.board.len() >= 3 ==> forall|i: int|
            0 <= i < self.revealed.len() && #[trigger] self.takes_part(i, eligible) ==> rankable(
                self.cards_of(i),
            )
    }

    /// Whether the player at place `i` has the best hand of those who take part, given the
    /// score of each.
    pub open spec fn has_best(self, scores: Seq<int>, i: int, eligible: Option<Seq<SeatId>>) -> bool {
        &&& self.takes_part(i, eligible)
        &&& forall|j: int|
            0 <= j < self.revealed.len() && #[trigger] self.takes_part(j, eligible) ==> scores[j]
                <= scores[i]
    }

    /// The seats of the best hands among the first `count`, in the order in which they were
    /// shown.
    pub open spec fn best_seats(
        self,
        scores: Seq<int>,
        eligible: Option<Seq<SeatId>>,
        count: nat,
    ) -> Seq<SeatId>
        decreases count,
    {
        if count == 0 {
            Seq::empty()
        } else {
            let rest = self.best_seats(scores, eligible, (count - 1) as nat);
            if self.has_best(scores, count - 1, eligible) {
                rest.push(self.revealed[count - 1].0)
            } else {
                rest
            }
        }
    }

    /// Whether one of the first `count` hands is a best one and belongs to `seat`.
    pub open spec fn wins_among(
        self,
        scores: Seq<int>,
        eligible: Option<Seq<SeatId>>,
        count: nat,
        seat: SeatId,
    ) -> bool {
        exists|i: int|
            0 <= i < count && #[trigger] self.has_best(scores, i, eligible) && self.revealed[i].0
                == seat
    }

    /// The scores that the ranks of the hands give, and nothing for those who do not take
    /// part.
    pub open spec fn scores(self, eligible: Option<Seq<SeatId>>) -> Seq<int> {
        Seq::new(
            self.revealed.len(),
            |i: int|
                if self.takes_part(i, eligible) {
                    hand_rank(self.cards_of(i)).value()
                } else {
                    0
                },
        )
    }
}

pub open spec fn sorted(seats: Seq<SeatId>) -> bool {
    forall|i: int, j: int| 0 <= i <= j < seats.len() ==> seats[i] <= seats[j]
}

/// What a comparison of hands with these scores must say.
pub open spec fn showdown_decides(
    input: ShowdownView,
    scores: Seq<int>,
    eligible: Option<Seq<SeatId>>,
    result: Option<Seq<SeatId>>,
) -> bool {
    let winners = input.best_seats(scores, eligible, input.revealed.len());
    match result {
        Some(seats) => {
            &&& input.board.len() >= 3
            &&& winners.len() > 0
            &&& sorted(seats)
            &&& seats.to_multiset() == winners.to_multiset()
        },
        None => input.board.len() < 3 || winners.len() == 0,
    }
}

/// The seats in order, as often as they occur.
fn sort_seats(seats: &Vec<SeatId>) -> (order: Vec<SeatId>)
    ensures
        sorted(order@),
        order@.to_multiset() == seats@.to_multiset(),
{
    broadcast use vstd::seq_lib::group_to_multiset_ensures;

    let mut order: Vec<SeatId> = Vec::new();
    let mut i: usize = 0;
    assert(seats@.take(0) =~= order@);
    while i < seats.len()
        invariant
            i <= seats.len(),
            sorted(order@),
            order@.to_multiset() == seats@.take(i as int).to_multiset(),
        decreases seats.len() - i,
    {
        let seat: u8 = seats[i];
        let mut at: usize = 0;
        while at < order.len() && order[at] <= seat
            invariant
                at <= order.len(),
                forall|j: int| 0 <= j < at ==> order[j] <= seat,
            decreases order.len() - at,
        {
            at = at + 1;
        }
        let ghost before = order@;
        order.insert(at, seat);
        assert(seats@.take(i + 1) =~= seats@.take(i as int).push(seat));
        proof {
            vstd::seq_lib::to_multiset_insert(before, at as int, seat);
            assert(order@ =~= before.insert(at as int, seat));
            vstd::seq_lib::to_multiset_build(seats@.take(i as int), seat);
        }
        i = i + 1;
    }
    assert(seats@.take(seats.len() as int) =~= seats@);
    order
}

impl ShowdownInput {
    /// How many of the cards have this value.
    fn count_value(cards: &Vec<Card>, value: u8) -> (count: usize)
        ensures
            count == value_count(cards@, value as int, cards@.len()),
    {
        let mut count: usize = 0;
        let mut i: usize = 0;
        while i < cards.len()
            invariant
                i <= cards.len(),
                count == value_count(cards@, value as int, i as nat),
                count <= i,
            decreases cards.len() - i,
        {
            if cards[i] % 13 == value {
                count = count + 1;
            }
            i = i + 1;
        }
        count
    }

    /// Whether the cards have a rank.
    pub fn can_rank(cards: &Vec<Card>) -> (can: bool)
        ensures
            can == rankable(cards@),
    {
        if cards.len() < 5 {
            return false;
        }
        let mut i: usize = 0;
        while i < cards.len()
            invariant
                i <= cards.len(),
                forall|j: int| 0 <= j < i ==> #[trigger] cards@[j] < 52,
            decreases cards.len() - i,
        {
            if cards[i] >= 52 {
                return false;
            }
            i = i + 1;
        }
        let mut found: bool = false;
        let mut value: u8 = 0;
        while value < 13
            invariant
                value <= 13,
                forall|v: int| 0 <= v < value ==> #[trigger] value_count(cards@, v, cards@.len()) <= 4,
                found == exists|v: int|
                    0 <= v < value && 1 <= #[trigger] value_count(cards@, v, cards@.len()) <= 3,
            decreases 13 - value,
        {
            let count: usize = ShowdownInput::count_value(cards, value);
            assert(count == value_count(cards@, value as int, cards@.len()));
            if count > 4 {
                return false;
            }
            if count >= 1 && count <= 3 {
                found = true;
            }
            value = value + 1;
        }
        found
    }

    /// The board and the two cards of the player at place `i`.
    fn cards_at(&self, i: usize) -> (cards: Vec<Card>)
        requires
            i < self.revealed_hole_cards.len(),
        ensures
            cards@ == self@.cards_of(i as int),
    {
        let mut cards = self.board.clone();
        assert(cards@ =~= self.board@);
        let (_seat, hole) = self.revealed_hole_cards[i];
        cards.push(hole[0]);
        cards.push(hole[1]);
        assert(cards@ =~= self@.cards_of(i as int));
        cards
    }

    /// Whether the player at place `i` takes part in the comparison.
    fn takes_part_at(&self, i: usize, eligible_seats: Option<&Vec<SeatId>>) -> (takes_part: bool)
        requires
            i < self.revealed_hole_cards.len(),
        ensures
            takes_part == self@.takes_part(i as int, seats_of(eligible_seats)),
    {
        let (seat, _cards) = self.revealed_hole_cards[i];
        match eligible_seats {
            Some(seats) => contains_seat(seats, seat),
            None => true,
        }
    }

    /// Whether every hand that takes part has a rank, so that the hands can be compared.
    pub fn is_rankable(&self, eligible_seats: Option<&Vec<SeatId>>) -> (can: bool)
        ensures
            can == self@.all_rankable(seats_of(eligible_seats)),
    {
        if self.board.len() < 3 {
            return true;
        }
        let ghost eligible = seats_of(eligible_seats);
        let mut i: usize = 0;
        while i < self.revealed_hole_cards.len()
            invariant
                i <= self.revealed_hole_cards.len(),
                self.board.len() >= 3,
                eligible == seats_of(eligible_seats),
                forall|j: int|
                    0 <= j < i && #[trigger] self@.takes_part(j, eligible) ==> rankable(
                        self@.cards_of(j),
                    ),
            decreases self.revealed_hole_cards.len() - i,
        {
            if self.takes_part_at(i, eligible_seats) {
                let cards = self.cards_at(i);
                if !ShowdownInput::can_rank(&cards) {
                    assert(self@.takes_part(i as int, eligible));
                    return false;
                }
            }
            i = i + 1;
        }
        true
    }

    /// The scores of the hands that take part.
    fn hand_scores(&self, eligible_seats: Option<&Vec<SeatId>>) -> (scores: Vec<u64>)
        requires
            self.board.len() >= 3,
            self@.all_rankable(seats_of(eligible_seats)),
        ensures
            scores@.map_values(|score: u64| score as int) == self@.scores(seats_of(eligible_seats)),
    {
        let ghost eligible = seats_of(eligible_seats);
        let mut scores: Vec<u64> = Vec::new();
        let mut i: usize = 0;
        while i < self.revealed_hole_cards.len()
            invariant
                i <= self.revealed_hole_cards.len(),
                self.board.len() >= 3,
                eligible == seats_of(eligible_seats),
                self@.all_rankable(eligible),
                scores.len() == i,
                forall|j: int| 0 <= j < i ==> #[trigger] scores@[j] == self@.scores(eligible)[j],
            decreases self.revealed_hole_cards.len() - i,
        {
            let score: u64 = if self.takes_part_at(i, eligible_seats) {
                let cards = self.cards_at(i);
                assert(self@.takes_part(i as int, eligible));
                rank_cards(&cards).score()
            } else {
                0
            };
            scores.push(score);
            i = i + 1;
        }
        assert(scores@.map_values(|score: u64| score as int) =~= self@.scores(eligible));
        scores
    }
}

/// The contents of an optional list of seats.
pub open spec fn seats_of(seats: Option<&Vec<SeatId>>) -> Option<Seq<SeatId>> {
    match seats {
        Some(seats) => Some(seats@),
        None => None,
    }
}

/// The winners that a result names.
pub open spec fn winners_of(result: Option<ShowdownResult>) -> Option<Seq<SeatId>> {
    match result {
        Some(result) => Some(result.winner_seats@),
        None => None,
    }
}

/// Compares hands by their scores, among the eligible seats if they are given.
pub fn showdown_by_scores(
    input: &ShowdownInput,
    scores: &Vec<u64>,
    eligible_seats: Option<&Vec<SeatId>>,
) -> (result: Option<ShowdownResult>)
    requires
        scores.len() == input.revealed_hole_cards.len(),
    ensures
        showdown_decides(
            input@,
            scores@.map_values(|score: u64| score as int),
            seats_of(eligible_seats),
            winners_of(result),
        ),
{
    if input.board.len() < 3 {
        return None;
    }
    let ghost values = scores@.map_values(|score: u64| score as int);
    let ghost eligible = seats_of(eligible_seats);
    let mut best: Option<u64> = None;
    let mut i: usize = 0;
    while i < input.revealed_hole_cards.len()
        invariant
            i <= input.revealed_hole_cards.len(),
            scores.len() == input.revealed_hole_cards.len(),
            values == scores@.map_values(|score: u64| score as int),
            eligible == seats_of(eligible_seats),
            match best {
                Some(top) => {
                    &&& exists|j: int|
                        0 <= j < i && #[trigger] input@.takes_part(j, eligible) && values[j] == top
                    &&& forall|j: int|
                        0 <= j < i && #[trigger] input@.takes_part(j, eligible) ==> values[j] <= top
                },
                None => forall|j: int| 0 <= j < i ==> !#[trigger] input@.takes_part(j, eligible),
            },
        decreases input.revealed_hole_cards.len() - i,
    {
        let takes_part: bool = input.takes_part_at(i, eligible_seats);
        if takes_part {
            best = match best {
                Some(top) => if scores[i] > top {
                    Some(scores[i])
                } else {
                    Some(top)
                },
                None => Some(scores[i]),
            };
        }
        i = i + 1;
    }
    let mut winners: Vec<SeatId> = Vec::new();
    let mut k: usize = 0;
    while k < input.revealed_hole_cards.len()
        invariant
            k <= input.revealed_hole_cards.len(),
            scores.len() == input.revealed_hole_cards.len(),
            values == scores@.map_values(|score: u64| score as int),
            eligible == seats_of(eligible_seats),
            match best {
                Some(top) => {
                    &&& exists|j: int|
                        0 <= j < input@.revealed.len() && #[trigger] input@.takes_part(j, eligible)
                            && values[j] == top
                    &&& forall|j: int|
                        0 <= j < input@.revealed.len() && #[trigger] input@.takes_part(j, eligible)
                            ==> values[j] <= top
                },
                None => forall|j: int|
                    0 <= j < input@.revealed.len() ==> !#[trigger] input@.takes_part(j, eligible),
            },
            winners@ == input@.best_seats(values, eligible, k as nat),
        decreases input.revealed_hole_cards.len() - k,
    {
        let (seat, _cards) = input.revealed_hole_cards[k];
        let takes_part: bool = input.takes_part_at(k, eligible_seats);
        let wins: bool = match best {
            Some(top) => takes_part && scores[k] == top,
            None => false,
        };
        assert(wins == input@.has_best(values, k as int, eligible)) by {
            assert(values[k as int] == scores@[k as int]);
            if best is Some && takes_part {
                let top = best->0;
                let at = choose|j: int|
                    0 <= j < input@.revealed.len() && #[trigger] input@.takes_part(j, eligible)
                        && values[j] == top;
                assert(input@.takes_part(at, eligible));
            }
        }
        if wins {
            winners.push(seat);
        }
        k = k + 1;
    }
    if winners.len() == 0 {
        None
    } else {
        Some(ShowdownResult { winner_seats: sort_seats(&winners) })
    }
}

impl PokerEngine {
    /// Who wins among all players who show their cards.
    pub fn evaluate_showdown(&self, input: &ShowdownInput) -> (result: Option<ShowdownResult>)
        requires
            input@.all_rankable(None),
        ensures
            showdown_decides(input@, input@.scores(None), None, winners_of(result)),
    {
        self.evaluate_showdown_for_eligible(input, None)
    }

    /// Who wins among the eligible players who show their cards.
    pub fn evaluate_showdown_for_eligible(
        &self,
        input: &ShowdownInput,
        eligible_seats: Option<&Vec<SeatId>>,
    ) -> (result: Option<ShowdownResult>)
        requires
            input@.all_rankable(seats_of(eligible_seats)),
        ensures
            showdown_decides(
                input@,
                input@.scores(seats_of(eligible_seats)),
                seats_of(eligible_seats),
                winners_of(result),
            ),
    {
        if input.board.len() < 3 {
            return None;
        }
        let scores = input.hand_scores(eligible_seats);
        assert(scores.len() == input.revealed_hole_cards.len()) by {
            assert(scores@.map_values(|score: u64| score as int).len() == scores@.len());
        }
        showdown_by_scores(input, &scores, eligible_seats)
    }
}

pub proof fn lemma_best_seats(
    input: ShowdownView,
    scores: Seq<int>,
    eligible: Option<Seq<SeatId>>,
    count: nat,
)
    requires
        count <= input.revealed.len(),
    ensures
        forall|k: int|
            #![trigger input.best_seats(scores, eligible, count)[k]]
            0 <= k < input.best_seats(scores, eligible, count).len() ==> input.wins_among(
                scores,
                eligible,
                count,
                input.best_seats(scores, eligible, count)[k],
            ),
        forall|i: int|
            0 <= i < count && #[trigger] input.has_best(scores, i, eligible)
                ==> input.best_seats(scores, eligible, count).contains(input.revealed[i].0),
    decreases count,
{
    if count > 0 {
        let last = count - 1;
        lemma_best_seats(input, scores, eligible, last as nat);
        let rest = input.best_seats(scores, eligible, last as nat);
        let all = input.best_seats(scores, eligible, count);
        assert forall|k: int| 0 <= k < all.len() implies input.wins_among(
            scores,
            eligible,
            count,
            #[trigger] all[k],
        ) by {
            if k < rest.len() {
                assert(input.wins_among(scores, eligible, last as nat, rest[k]));
                assert(all[k] == rest[k]);
                let i = choose|i: int|
                    0 <= i < last && #[trigger] input.has_best(scores, i, eligible)
                        && input.revealed[i].0 == rest[k];
                assert(0 <= i < count && input.has_best(scores, i, eligible));
            } else {
                assert(input.has_best(scores, last, eligible));
            }
        }
        assert forall|i: int|
            0 <= i < count && #[trigger] input.has_best(
                scores,
                i,
                eligible,
            ) implies all.contains(input.revealed[i].0) by {
            if i == last {
                assert(all[all.len() - 1] == input.revealed[i].0);
            } else {
                assert(rest.contains(input.revealed[i].0));
                let at = choose|k: int| 0 <= k < rest.len() && rest[k] == input.revealed[i].0;
                assert(all[at] == input.revealed[i].0);
            }
        }
    }
}

/// Whoever wins showed a hand and was eligible, and everybody with the best hand shares: the
/// decision of a showdown names exactly the eligible seats that nobody beats.
pub proof fn winners_are_the_unbeaten(
    input: ShowdownView,
    scores: Seq<int>,
    eligible: Option<Seq<SeatId>>,
    seats: Seq<SeatId>,
)
    requires
        showdown_decides(input, scores, eligible, Some(seats)),
    ensures
        forall|seat: SeatId| #[trigger]
            seats.contains(seat) <==> input.wins_among(
                scores,
                eligible,
                input.revealed.len(),
                seat,
            ),
        eligible is Some ==> forall|seat: SeatId| #[trigger]
            seats.contains(seat) ==> eligible->0.contains(seat),
{
    broadcast use vstd::seq_lib::group_to_multiset_ensures;

    let winners = input.best_seats(scores, eligible, input.revealed.len());
    lemma_best_seats(input, scores, eligible, input.revealed.len());
    assert forall|seat: SeatId| #[trigger] seats.contains(seat) <==> input.wins_among(
        scores,
        eligible,
        input.revealed.len(),
        seat,
    ) by {
        assert(seats.contains(seat) <==> seats.to_multiset().count(seat) > 0);
        assert(winners.contains(seat) <==> winners.to_multiset().count(seat) > 0);
        if winners.contains(seat) {
            let k = choose|k: int| 0 <= k < winners.len() && winners[k] == seat;
            assert(input.wins_among(scores, eligible, input.revealed.len(), winners[k]));
        }
    }
}

/// The place of a hand's category among the categories, from a high card up to a straight flush.
pub open spec fn category_of(rank: HandRank) -> (int, u32) {
    match rank {
        HandRank::HighCard(s) => (1, s),
        HandRank::OnePair(s) => (2, s),
        HandRank::TwoPair(s) => (3, s),
        HandRank::ThreeOfAKind(s) => (4, s),
        HandRank::Straight(s) => (5, s),
        HandRank::Flush(s) => (6, s),
        HandRank::FullHouse(s) => (7, s),
        HandRank::FourOfAKind(s) => (8, s),
        HandRank::StraightFlush(s) => (9, s),
    }
}

/// Whether a hand is no worse than another: of a higher category, or of the same one and no
/// weaker within it.
pub open spec fn holds_against(rank: HandRank, other: HandRank) -> bool {
    let (a, s) = category_of(rank);
    let (b, t) = category_of(other);
    a > b || (a == b && s >= t)
}

/// Scores order hands by their category and then by their strength.
pub proof fn scores_order_the_hands(rank: HandRank, other: HandRank)
    ensures
        rank.value() >= other.value() <==> holds_against(rank, other),
{
}

/// Whether the hand at place `i` is shown by somebody who can win.
pub open spec fn competes(input: ShowdownView, eligible: Option<Seq<SeatId>>, i: int) -> bool {
    &&& 0 <= i < input.revealed.len()
    &&& eligible matches Some(seats) ==> seats.contains(input.revealed[i].0)
}

/// Whether nobody who competes beats the hand at place `i`.
pub open spec fn is_unbeaten(input: ShowdownView, eligible: Option<Seq<SeatId>>, i: int) -> bool {
    &&& competes(input, eligible, i)
    &&& forall|j: int| #[trigger]
        competes(input, eligible, j) ==> holds_against(
            hand_rank(input.board + input.revealed[i].1),
            hand_rank(input.board + input.revealed[j].1),
        )
}

proof fn lemma_somebody_is_best(
    input: ShowdownView,
    scores: Seq<int>,
    eligible: Option<Seq<SeatId>>,
    count: nat,
    some: int,
) -> (best: int)
    requires
        0 <= some < count <= input.revealed.len(),
        input.takes_part(some, eligible),
    ensures
        0 <= best < count,
        input.takes_part(best, eligible),
        forall|j: int|
            0 <= j < count && #[trigger] input.takes_part(j, eligible) ==> scores[j]
                <= scores[best],
    decreases count,
{
    let last = count - 1;
    if some == last {
        if exists|i: int| 0 <= i < last && #[trigger] input.takes_part(i, eligible) {
            let other = choose|i: int| 0 <= i < last && #[trigger] input.takes_part(i, eligible);
            let best = lemma_somebody_is_best(input, scores, eligible, last as nat, other);
            if scores[best] >= scores[last] {
                best
            } else {
                last
            }
        } else {
            last
        }
    } else {
        let best = lemma_somebody_is_best(input, scores, eligible, last as nat, some);
        if input.takes_part(last, eligible) && scores[last] > scores[best] {
            last
        } else {
            best
        }
    }
}

proof fn lemma_best_seats_differ(
    input: ShowdownView,
    scores: Seq<int>,
    eligible: Option<Seq<SeatId>>,
    count: nat,
)
    requires
        count <= input.revealed.len(),
        forall|i: int, j: int|
            0 <= i < j < input.revealed.len() ==> (#[trigger] input.revealed[i]).0 != (
            #[trigger] input.revealed[j]).0,
    ensures
        input.best_seats(scores, eligible, count).no_duplicates(),
    decreases count,
{
    if count > 0 {
        let last = count - 1;
        lemma_best_seats_differ(input, scores, eligible, last as nat);
        lemma_best_seats(input, scores, eligible, last as nat);
        let rest = input.best_seats(scores, eligible, last as nat);
        let all = input.best_seats(scores, eligible, count);
        if input.has_best(scores, last, eligible) {
            assert forall|k: int| 0 <= k < rest.len() implies rest[k] != input.revealed[last].0 by {
                assert(input.wins_among(scores, eligible, last as nat, rest[k]));
                let i = choose|i: int|
                    0 <= i < last && #[trigger] input.has_best(scores, i, eligible)
                        && input.revealed[i].0 == rest[k];
                assert(input.revealed[i].0 != input.revealed[last].0);
            }
        }
    }
}

/// The winners of a showdown are exactly the competing seats whose hands nobody who competes
/// beats, with the cards of the board; they are named from the lowest seat up, and each once
/// where each shows one hand. There is no winner exactly where the board has fewer than three
/// cards or nobody competes.
pub proof fn the_best_hands_win(
    input: ShowdownView,
    eligible: Option<Seq<SeatId>>,
    result: Option<Seq<SeatId>>,
)
    requires
        showdown_decides(input, input.scores(eligible), eligible, result),
    ensures
        result is Some <==> input.board.len() >= 3 && exists|i: int| #[trigger]
            competes(input, eligible, i),
        result is Some ==> result->0.len() > 0,
        result is Some ==> forall|seat: SeatId| #[trigger]
            result->0.contains(seat) <==> exists|i: int| #[trigger]
                is_unbeaten(input, eligible, i) && input.revealed[i].0 == seat,
        result is Some ==> forall|i: int, j: int|
            0 <= i <= j < result->0.len() ==> result->0[i] <= result->0[j],
        result is Some && (forall|i: int, j: int|
            0 <= i < j < input.revealed.len() ==> (#[trigger] input.revealed[i]).0 != (
            #[trigger] input.revealed[j]).0) ==> result->0.no_duplicates(),
{
    let scores = input.scores(eligible);
    let count = input.revealed.len();
    let winners = input.best_seats(scores, eligible, count);
    lemma_best_seats(input, scores, eligible, count);
    assert forall|i: int| 0 <= i < count implies (#[trigger] competes(input, eligible, i)
        <==> input.takes_part(i, eligible)) by {}
    assert forall|i: int, j: int|
        #[trigger] competes(input, eligible, i) && #[trigger] competes(
            input,
            eligible,
            j,
        ) implies (scores[i] >= scores[j] <==> holds_against(
        hand_rank(input.board + input.revealed[i].1),
        hand_rank(input.board + input.revealed[j].1),
    )) by {
        scores_order_the_hands(hand_rank(input.cards_of(i)), hand_rank(input.cards_of(j)));
    }
    assert forall|i: int| 0 <= i < count implies (#[trigger] is_unbeaten(input, eligible, i)
        <==> input.has_best(scores, i, eligible)) by {
        if input.has_best(scores, i, eligible) {
            assert forall|j: int| #[trigger]
                competes(input, eligible, j) implies holds_against(
                hand_rank(input.board + input.revealed[i].1),
                hand_rank(input.board + input.revealed[j].1),
            ) by {
                assert(input.takes_part(j, eligible));
                assert(competes(input, eligible, i));
            }
        }
        if is_unbeaten(input, eligible, i) {
            assert forall|j: int|
                0 <= j < count && #[trigger] input.takes_part(j, eligible) implies scores[j]
                <= scores[i] by {
                assert(competes(input, eligible, j));
            }
        }
    }
    if exists|i: int| #[trigger] competes(input, eligible, i) {
        let some = choose|i: int| #[trigger] competes(input, eligible, i);
        let best = lemma_somebody_is_best(input, scores, eligible, count, some);
        assert(input.has_best(scores, best, eligible));
        assert(winners.contains(input.revealed[best].0));
        assert(winners.len() > 0);
    }
    if winners.len() > 0 {
        assert(input.wins_among(scores, eligible, count, winners[0]));
        let i = choose|i: int|
            0 <= i < count && #[trigger] input.has_best(scores, i, eligible)
                && input.revealed[i].0 == winners[0];
        assert(competes(input, eligible, i));
    }
    if result is Some {
        let seats = result->0;
        vstd::seq_lib::to_multiset_len(seats);
        vstd::seq_lib::to_multiset_len(winners);
        winners_are_the_unbeaten(input, scores, eligible, seats);
        assert forall|seat: SeatId| #[trigger] seats.contains(seat) <==> exists|i: int| #[trigger]
            is_unbeaten(input, eligible, i) && input.revealed[i].0 == seat by {
            if seats.contains(seat) {
                assert(input.wins_among(scores, eligible, count, seat));
                let i = choose|i: int|
                    0 <= i < count && #[trigger] input.has_best(scores, i, eligible)
                        && input.revealed[i].0 == seat;
                assert(is_unbeaten(input, eligible, i));
            }
            if exists|i: int| #[trigger]
                is_unbeaten(input, eligible, i) && input.revealed[i].0 == seat {
                let i = choose|i: int| #[trigger]
                    is_unbeaten(input, eligible, i) && input.revealed[i].0 == seat;
                assert(input.has_best(scores, i, eligible));
                assert(input.wins_among(scores, eligible, count, seat));
            }
        }
        if forall|i: int, j: int|
            0 <= i < j < input.revealed.len() ==> (#[trigger] input.revealed[i]).0 != (
            #[trigger] input.revealed[j]).0 {
            lemma_best_seats_differ(input, scores, eligible, count);
            winners.lemma_multiset_has_no_duplicates();
            seats.lemma_multiset_has_no_duplicates_conv();
        }
    }
}

} // verus!
