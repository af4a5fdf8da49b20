use std::collections::HashSet;

use vstd::prelude::*;

use crate::domain::game::SeatId;

verus! {

broadcast use vstd::std_specs::hash::group_hash_axioms;

/// The members of `seats` below `bound`, from the lowest up.
pub open spec fn seats_below(seats: Set<SeatId>, bound: nat) -> Seq<SeatId>
    decreases bound,
{
    if bound == 0 {
        Seq::empty()
    } else {
        let rest = seats_below(seats, (bound - 1) as nat);
        if seats.contains((bound - 1) as u8) {
            rest.push((bound - 1) as u8)
        } else {
            rest
        }
    }
}

/// The members of `seats`, from the lowest up.
pub open spec fn in_order(seats: Set<SeatId>) -> Seq<SeatId> {
    seats_below(seats, 256)
}

/// Strictly increasing, so without repetitions.
pub open spec fn increasing(order: Seq<SeatId>) -> bool {
    forall|i: int, j: int| 0 <= i < j < order.len() ==> order[i] < order[j]
}

proof fn lemma_seats_below(seats: Set<SeatId>, bound: nat)
    requires
        bound <= 256,
    ensures
        increasing(seats_below(seats, bound)),
        forall|i: int|
            0 <= i < seats_below(seats, bound).len() ==> seats.contains(
                #[trigger] seats_below(seats, bound)[i],
            ) && seats_below(seats, bound)[i] < bound,
        forall|seat: SeatId|
            seat < bound && seats.contains(seat) ==> #[trigger] seats_below(seats, bound).contains(
                seat,
            ),
        seats_below(seats, bound).len() <= bound,
    decreases bound,
{
    if bound > 0 {
        let below = (bound - 1) as nat;
        lemma_seats_below(seats, below);
        let rest = seats_below(seats, below);
        let all = seats_below(seats, bound);
        assert forall|seat: SeatId| seat < bound && seats.contains(seat) implies all.contains(
            seat,
        ) by {
            if seat == below {
                assert(all[all.len() - 1] == seat);
            } else {
                assert(rest.contains(seat));
                let at = choose|i: int| 0 <= i < rest.len() && rest[i] == seat;
                assert(all[at] == seat);
            }
        }
    }
}

/// Ordering a set of seats keeps exactly its members, each once.
pub proof fn in_order_lists_the_set(seats: Set<SeatId>)
    ensures
        increasing(in_order(seats)),
        in_order(seats).no_duplicates(),
        in_order(seats).len() <= 256,
        forall|seat: SeatId| #[trigger] in_order(seats).contains(seat) <==> seats.contains(seat),
{
    lemma_seats_below(seats, 256);
    assert forall|seat: SeatId| #[trigger] in_order(seats).contains(seat) implies seats.contains(
        seat,
    ) by {
        let at = choose|i: int| 0 <= i < in_order(seats).len() && in_order(seats)[i] == seat;
        assert(seats.contains(seats_below(seats, 256)[at]));
    }
}

/// The members of `seats` that are in neither of the other two sets, from the lowest up.
pub fn seats_outside(
    seats: &HashSet<SeatId>,
    first: &HashSet<SeatId>,
    second: &HashSet<SeatId>,
) -> (order: Vec<SeatId>)
    ensures
        order@ == in_order(seats@.difference(first@).difference(second@)),
{
    let ghost kept = seats@.difference(first@).difference(second@);
    let mut order: Vec<SeatId> = Vec::new();
    let mut next: u16 = 0;
    while next < 256
        invariant
            next <= 256,
            kept == seats@.difference(first@).difference(second@),
            order@ == seats_below(kept, next as nat),
        decreases 256 - next,
    {
        let seat: u8 = next as u8;
        if seats.contains(&seat) && !first.contains(&seat) && !second.contains(&seat) {
            order.push(seat);
        }
        next = next + 1;
    }
    order
}

/// The members of `seats`, from the lowest up.
pub fn seats_in_order(seats: &HashSet<SeatId>) -> (order: Vec<SeatId>)
    ensures
        order@ == in_order(seats@),
{
    let none: HashSet<SeatId> = HashSet::new();
    let order = seats_outside(seats, &none, &none);
    assert(seats@.difference(none@).difference(none@) =~= seats@);
    order
}

/// Going round the table from place `start`, the first of `wanted` at `step` places or more
/// from there.
pub open spec fn first_round_from(
    order: Seq<SeatId>,
    start: int,
    step: nat,
    wanted: Set<SeatId>,
) -> Option<SeatId>
    decreases order.len() + 1 - step,
{
    if step > order.len() {
        None
    } else {
        let seat = order[(start + step) % (order.len() as int)];
        if wanted.contains(seat) {
            Some(seat)
        } else {
            first_round_from(order, start, step + 1, wanted)
        }
    }
}

/// Going round the table from place `start`, the next of `wanted`. The player at `start`
/// comes last.
pub open spec fn next_round(order: Seq<SeatId>, start: int, wanted: Set<SeatId>) -> Option<SeatId> {
    first_round_from(order, start, 1, wanted)
}

/// Finds the next of `wanted` after place `start` of a table that seats `order`.
pub fn find_next_round(order: &Vec<SeatId>, start: usize, wanted: &Vec<SeatId>) -> (next: Option<
    SeatId,
>)
    requires
        start < order.len(),
        order.len() <= 256,
    ensures
        next == next_round(order@, start as int, wanted@.to_set()),
{
    let mut step: usize = 1;
    while step <= order.len()
        invariant
            1 <= step <= order.len() + 1,
            start < order.len(),
            order.len() <= 256,
            first_round_from(order@, start as int, step as nat, wanted@.to_set()) == next_round(
                order@,
                start as int,
                wanted@.to_set(),
            ),
        decreases order.len() + 1 - step,
    {
        let seat: u8 = order[(start + step) % order.len()];
        if contains_seat(wanted, seat) {
            return Some(seat);
        }
        step = step + 1;
    }
    None
}

/// Whether `seat` is one of `seats`.
pub fn contains_seat(seats: &Vec<SeatId>, seat: SeatId) -> (found: bool)
    ensures
        found == seats@.contains(seat),
        found == seats@.to_set().contains(seat),
{
    let mut i: usize = 0;
    while i < seats.len()
        invariant
            i <= seats.len(),
            forall|j: int| 0 <= j < i ==> seats[j] != seat,
        decreases seats.len() - i,
    {
        if seats[i] == seat {
            return true;
        }
        i = i + 1;
    }
    false
}

/// The place of `seat` in `order`, if it has one.
pub fn place_of(order: &Vec<SeatId>, seat: SeatId) -> (place: Option<usize>)
    ensures
        match place {
            Some(at) => at < order.len() && order[at as int] == seat && forall|j: int|
                0 <= j < at ==> order[j] != seat,
            None => !order@.contains(seat),
        },
{
    let mut i: usize = 0;
    while i < order.len()
        invariant
            i <= order.len(),
            forall|j: int| 0 <= j < i ==> order[j] != seat,
        decreases order.len() - i,
    {
        if order[i] == seat {
            return Some(i);
        }
        i = i + 1;
    }
    None
}

/// A table that seats one of `wanted` always has a next one, and it is both wanted and seated.
pub proof fn next_round_finds(order: Seq<SeatId>, start: int, wanted: Set<SeatId>)
    requires
        0 <= start < order.len(),
        exists|i: int| 0 <= i < order.len() && wanted.contains(#[trigger] order[i]),
    ensures
        next_round(order, start, wanted) is Some,
        wanted.contains(next_round(order, start, wanted)->0),
        order.contains(next_round(order, start, wanted)->0),
{
    let at = choose|i: int| 0 <= i < order.len() && wanted.contains(#[trigger] order[i]);
    let step = if at > start {
        at - start
    } else {
        at - start + order.len()
    };
    assert(1 <= step <= order.len());
    assert((start + step) % (order.len() as int) == at) by {
        if at > start {
            vstd::arithmetic::div_mod::lemma_small_mod(at as nat, order.len());
        } else {
            vstd::arithmetic::div_mod::lemma_mod_add_multiples_vanish(at, order.len() as int);
            vstd::arithmetic::div_mod::lemma_small_mod(at as nat, order.len());
        }
    }
    lemma_first_round_from(order, start, 1, step as nat, wanted);
}

proof fn lemma_first_round_from(
    order: Seq<SeatId>,
    start: int,
    step: nat,
    hit: nat,
    wanted: Set<SeatId>,
)
    requires
        0 <= start < order.len(),
        step <= hit <= order.len(),
        wanted.contains(order[(start + hit) % (order.len() as int)]),
    ensures
        first_round_from(order, start, step, wanted) is Some,
        wanted.contains(first_round_from(order, start, step, wanted)->0),
        order.contains(first_round_from(order, start, step, wanted)->0),
    decreases hit - step,
{
    let seat = order[(start + step) % (order.len() as int)];
    vstd::arithmetic::div_mod::lemma_mod_bound(start + step, order.len() as int);
    if wanted.contains(seat) {
        assert(order.contains(seat));
    } else {
        lemma_first_round_from(order, start, step + 1, hit, wanted);
    }
}

/// The next of `wanted` round the table is the nearest one: it sits some places on, and nobody
/// who is wanted sits on a place in between.
pub proof fn next_round_is_the_nearest(
    order: Seq<SeatId>,
    start: int,
    wanted: Set<SeatId>,
) -> (places_on: int)
    requires
        0 <= start < order.len(),
        exists|i: int| 0 <= i < order.len() && wanted.contains(#[trigger] order[i]),
    ensures
        1 <= places_on <= order.len(),
        next_round(order, start, wanted) == Some(
            order[(start + places_on) % (order.len() as int)],
        ),
        wanted.contains(order[(start + places_on) % (order.len() as int)]),
        forall|k: int|
            1 <= k < places_on ==> !wanted.contains(
                #[trigger] order[(start + k) % (order.len() as int)],
            ),
{
    next_round_finds(order, start, wanted);
    lemma_nearest_from(order, start, 1, wanted)
}

proof fn lemma_nearest_from(order: Seq<SeatId>, start: int, step: nat, wanted: Set<SeatId>) -> (
    places_on: int)
    requires
        0 <= start < order.len(),
        1 <= step,
        first_round_from(order, start, step, wanted) is Some,
    ensures
        step <= places_on <= order.len(),
        first_round_from(order, start, step, wanted) == Some(
            order[(start + places_on) % (order.len() as int)],
        ),
        wanted.contains(order[(start + places_on) % (order.len() as int)]),
        forall|k: int|
            step <= k < places_on ==> !wanted.contains(
                #[trigger] order[(start + k) % (order.len() as int)],
            ),
    decreases order.len() + 1 - step,
{
    if wanted.contains(order[(start + step) % (order.len() as int)]) {
        step as int
    } else {
        lemma_nearest_from(order, start, step + 1, wanted)
    }
}

/// Seats that are not one and the same make an order of two or more, and the other way round.
pub proof fn two_seats_make_two_places(seats: Set<SeatId>)
    ensures
        in_order(seats).len() <= 1 <==> forall|a: SeatId, b: SeatId|
            #[trigger] seats.contains(a) && #[trigger] seats.contains(b) ==> a == b,
        in_order(seats).len() == 0 <==> forall|a: SeatId| !#[trigger] seats.contains(a),
{
    in_order_lists_the_set(seats);
    let order = in_order(seats);
    if order.len() >= 2 {
        assert(order.contains(order[0]) && order.contains(order[1]));
        assert(seats.contains(order[0]) && seats.contains(order[1]));
        assert(order[0] != order[1]);
    } else {
        assert forall|a: SeatId, b: SeatId|
            #[trigger] seats.contains(a) && #[trigger] seats.contains(b) implies a == b by {
            assert(order.contains(a) && order.contains(b));
            assert(order[0] == a && order[0] == b);
        }
    }
    if order.len() >= 1 {
        assert(order.contains(order[0]));
        assert(seats.contains(order[0]));
    } else {
        assert forall|a: SeatId| !#[trigger] seats.contains(a) by {
            assert(order.contains(a) == seats.contains(a));
        }
    }
}

} // verus!
