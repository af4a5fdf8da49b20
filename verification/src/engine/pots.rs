use std::collections::{HashMap, HashSet};

use vstd::prelude::*;

use crate::domain::game::SeatId;
use crate::domain::money::Chips;
use crate::engine::seats::{in_order, in_order_lists_the_set, seats_below};
use crate::engine::state::{LayerView, PotLayer, SidePot, SidePotView};

verus! {

broadcast use vstd::std_specs::hash::group_hash_axioms;

/// Those who put in more than `floor`.
pub open spec fn above(contributions: Map<SeatId, Chips>, floor: int) -> Set<SeatId> {
    Set::new(|seat: SeatId| contributions.dom().contains(seat) && contributions[seat].0 > floor)
}

/// The least of the amounts that the first `count` of `seats` put in.
pub open spec fn lowest(contributions: Map<SeatId, Chips>, seats: Seq<SeatId>, count: nat) -> int
    decreases count,
{
    if count <= 1 {
        contributions[seats[0]].0 as int
    } else {
        let rest = lowest(contributions, seats, (count - 1) as nat);
        let last = contributions[seats[count - 1]].0 as int;
        if last < rest {
            last
        } else {
            rest
        }
    }
}

/// The lowest amount above `floor` that somebody put in.
pub open spec fn next_level(contributions: Map<SeatId, Chips>, floor: int) -> int {
    let seats = in_order(above(contributions, floor));
    lowest(contributions, seats, seats.len())
}

/// The layers of the pot above `floor`: as long as two players or more put in more than that,
/// each of them pays up to the next level, and those of them who did not fold can win it.
pub open spec fn layers_above(
    contributions: Map<SeatId, Chips>,
    folded: Set<SeatId>,
    floor: int,
) -> Seq<LayerView>
    decreases u128::MAX - floor,
{
    let payers = in_order(above(contributions, floor));
    if payers.len() <= 1 {
        Seq::empty()
    } else {
        let level = next_level(contributions, floor);
        proof {
            lemma_next_level(contributions, floor);
        }
        seq![
            LayerView {
                amount: (level - floor) * payers.len(),
                eligible_seats: in_order(above(contributions, floor).difference(folded)),
                is_main: floor == 0,
            },
        ] + layers_above(contributions, folded, level)
    }
}

/// The layers of the pot, the main pot first.
pub open spec fn pot_layers_of(contributions: Map<SeatId, Chips>, folded: Set<SeatId>) -> Seq<
    LayerView,
> {
    layers_above(contributions, folded, 0)
}

/// No layer is larger than an amount of chips can be.
pub open spec fn layers_fit(contributions: Map<SeatId, Chips>) -> bool {
    forall|i: int|
        0 <= i < pot_layers_of(contributions, Set::empty()).len() ==> (#[trigger] pot_layers_of(
            contributions,
            Set::empty(),
        )[i]).amount <= u128::MAX
}

/// All layers but the main pot.
pub open spec fn side_pots_of(contributions: Map<SeatId, Chips>, folded: Set<SeatId>) -> Seq<
    SidePotView,
> {
    let layers = pot_layers_of(contributions, folded);
    if layers.len() == 0 {
        Seq::empty()
    } else {
        layers.skip(1).map_values(
            |layer: LayerView|
                SidePotView { amount: layer.amount, eligible_seats: layer.eligible_seats },
        )
    }
}

proof fn lemma_lowest(contributions: Map<SeatId, Chips>, seats: Seq<SeatId>, count: nat)
    requires
        1 <= count <= seats.len(),
    ensures
        forall|i: int|
            0 <= i < count ==> lowest(contributions, seats, count)
                <= (#[trigger] contributions[seats[i]]).0,
        exists|i: int|
            0 <= i < count && lowest(contributions, seats, count) == (
            #[trigger] contributions[seats[i]]).0,
    decreases count,
{
    if count > 1 {
        lemma_lowest(contributions, seats, (count - 1) as nat);
        assert(contributions[seats[count - 1]].0 == contributions[seats[count - 1]].0);
    } else {
        assert(lowest(contributions, seats, count) == contributions[seats[0]].0);
    }
}

/// The next level is above the floor, somebody put in exactly that, and nobody stopped in
/// between.
pub proof fn lemma_next_level(contributions: Map<SeatId, Chips>, floor: int)
    requires
        in_order(above(contributions, floor)).len() > 0,
    ensures
        floor < next_level(contributions, floor) <= u128::MAX,
        forall|seat: SeatId|
            contributions.dom().contains(seat) && (#[trigger] contributions[seat]).0 > floor
                ==> contributions[seat].0 >= next_level(contributions, floor),
        exists|seat: SeatId|
            contributions.dom().contains(seat) && (#[trigger] contributions[seat]).0 == next_level(
                contributions,
                floor,
            ),
{
    let payers = above(contributions, floor);
    let seats = in_order(payers);
    in_order_lists_the_set(payers);
    lemma_lowest(contributions, seats, seats.len());
    assert forall|seat: SeatId|
        contributions.dom().contains(seat) && (
        #[trigger] contributions[seat]).0 > floor implies contributions[seat].0 >= next_level(
        contributions,
        floor,
    ) by {
        assert(payers.contains(seat));
        assert(seats.contains(seat));
        let at = choose|i: int| 0 <= i < seats.len() && seats[i] == seat;
        assert(contributions[seats[at]].0 >= next_level(contributions, floor));
    }
    let at = choose|i: int|
        0 <= i < seats.len() && lowest(contributions, seats, seats.len()) == (
        #[trigger] contributions[seats[i]]).0;
    assert(seats.contains(seats[at]));
    assert(payers.contains(seats[at]));
}

/// Who can win a layer does not change its amount.
pub proof fn lemma_amounts_ignore_folds(
    contributions: Map<SeatId, Chips>,
    folded: Set<SeatId>,
    other: Set<SeatId>,
    floor: int,
)
    ensures
        layers_above(contributions, folded, floor).len() == layers_above(
            contributions,
            other,
            floor,
        ).len(),
        forall|i: int|
            #![trigger layers_above(contributions, folded, floor)[i]]
            #![trigger layers_above(contributions, other, floor)[i]]
            0 <= i < layers_above(contributions, folded, floor).len() ==> layers_above(
                contributions,
                folded,
                floor,
            )[i].amount == layers_above(contributions, other, floor)[i].amount,
    decreases u128::MAX - floor,
{
    if in_order(above(contributions, floor)).len() > 1 {
        lemma_next_level(contributions, floor);
        let level = next_level(contributions, floor);
        lemma_amounts_ignore_folds(contributions, folded, other, level);
        let rest = layers_above(contributions, folded, level);
        let other_rest = layers_above(contributions, other, level);
        assert forall|i: int| 0 <= i < layers_above(contributions, folded, floor).len() implies (
        #[trigger] layers_above(contributions, folded, floor)[i]).amount == (
        #[trigger] layers_above(contributions, other, floor)[i]).amount by {
            if i > 0 {
                assert(layers_above(contributions, folded, floor)[i] == rest[i - 1]);
                assert(layers_above(contributions, other, floor)[i] == other_rest[i - 1]);
            }
        }
    }
}

/// Only the first layer is the main pot.
pub proof fn only_the_first_layer_is_main(
    contributions: Map<SeatId, Chips>,
    folded: Set<SeatId>,
    floor: int,
)
    requires
        floor >= 0,
    ensures
        forall|i: int|
            0 <= i < layers_above(contributions, folded, floor).len() ==> ((
            #[trigger] layers_above(contributions, folded, floor)[i]).is_main <==> i == 0 && floor
                == 0),
    decreases u128::MAX - floor,
{
    if in_order(above(contributions, floor)).len() > 1 {
        lemma_next_level(contributions, floor);
        let level = next_level(contributions, floor);
        only_the_first_layer_is_main(contributions, folded, level);
        assert forall|i: int| 0 <= i < layers_above(contributions, folded, floor).len() implies ((
        #[trigger] layers_above(contributions, folded, floor)[i]).is_main <==> i == 0 && floor
            == 0) by {
            if i > 0 {
                assert(layers_above(contributions, folded, floor)[i] == layers_above(
                    contributions,
                    folded,
                    level,
                )[i - 1]);
            }
        }
    }
}

/// Those who put in more than `floor`, from the lowest seat up, leaving out `folded`.
fn payers_above(
    contributions: &HashMap<SeatId, Chips>,
    folded: &HashSet<SeatId>,
    floor: u128,
) -> (payers: Vec<SeatId>)
    ensures
        payers@ == in_order(above(contributions@, floor as int).difference(folded@)),
{
    let ghost wanted = above(contributions@, floor as int).difference(folded@);
    let mut payers: Vec<SeatId> = Vec::new();
    let mut next: u16 = 0;
    while next < 256
        invariant
            next <= 256,
            wanted == above(contributions@, floor as int).difference(folded@),
            payers@ == seats_below(wanted, next as nat),
        decreases 256 - next,
    {
        let seat: u8 = next as u8;
        match contributions.get(&seat) {
            Some(amount) => {
                if amount.0 > floor && !folded.contains(&seat) {
                    payers.push(seat);
                }
            },
            None => {},
        }
        next = next + 1;
    }
    payers
}

/// The least that any of `payers` put in.
fn lowest_contribution(contributions: &HashMap<SeatId, Chips>, payers: &Vec<SeatId>) -> (level: u128)
    requires
        payers.len() > 0,
        forall|i: int|
            0 <= i < payers.len() ==> contributions@.dom().contains(#[trigger] payers[i]),
    ensures
        level == lowest(contributions@, payers@, payers@.len()),
{
    let mut level: u128 = contribution_of(contributions, payers[0]).0;
    let mut i: usize = 1;
    while i < payers.len()
        invariant
            1 <= i <= payers.len(),
            forall|j: int|
                0 <= j < payers.len() ==> contributions@.dom().contains(#[trigger] payers[j]),
            level == lowest(contributions@, payers@, i as nat),
        decreases payers.len() - i,
    {
        let amount: u128 = contribution_of(contributions, payers[i]).0;
        if amount < level {
            level = amount;
        }
        i = i + 1;
    }
    level
}

/// What the seat put in, or nothing.
pub open spec fn amount_at(amounts: Map<SeatId, Chips>, seat: SeatId) -> Chips {
    if amounts.dom().contains(seat) {
        amounts[seat]
    } else {
        Chips(0)
    }
}

/// What `amounts` holds for the seat, or no chips.
pub fn contribution_of(amounts: &HashMap<SeatId, Chips>, seat: SeatId) -> (amount: Chips)
    ensures
        amount == amount_at(amounts@, seat),
{
    match amounts.get(&seat) {
        Some(amount) => *amount,
        None => Chips(0),
    }
}

/// Splits what the players put in into the layers of the pot.
pub fn build_pot_layers(
    contributions: &HashMap<SeatId, Chips>,
    folded_seats: &HashSet<SeatId>,
) -> (layers: Vec<PotLayer>)
    requires
        layers_fit(contributions@),
    ensures
        layers@.map_values(|layer: PotLayer| layer@) == pot_layers_of(
            contributions@,
            folded_seats@,
        ),
{
    let none: HashSet<SeatId> = HashSet::new();
    let mut layers: Vec<PotLayer> = Vec::new();
    let mut floor: u128 = 0;
    let ghost all = pot_layers_of(contributions@, folded_seats@);
    proof {
        lemma_amounts_ignore_folds(contributions@, folded_seats@, Set::empty(), 0);
        assert forall|i: int| 0 <= i < all.len() implies (#[trigger] all[i]).amount
            <= u128::MAX by {
            assert(pot_layers_of(contributions@, Set::empty())[i].amount <= u128::MAX);
        }
        assert(layers@.map_values(|layer: PotLayer| layer@) =~= Seq::<LayerView>::empty());
        assert(Seq::<LayerView>::empty() + all =~= all);
    }
    loop
        invariant
            none@ == Set::<SeatId>::empty(),
            all == pot_layers_of(contributions@, folded_seats@),
            forall|i: int| 0 <= i < all.len() ==> (#[trigger] all[i]).amount <= u128::MAX,
            all == layers@.map_values(|layer: PotLayer| layer@) + layers_above(
                contributions@,
                folded_seats@,
                floor as int,
            ),
        ensures
            all == layers@.map_values(|layer: PotLayer| layer@),
        decreases u128::MAX - floor,
    {
        let payers = payers_above(contributions, &none, floor);
        let ghost rest = layers_above(contributions@, folded_seats@, floor as int);
        let ghost done = layers@.map_values(|layer: PotLayer| layer@);
        assert(above(contributions@, floor as int).difference(none@) =~= above(
            contributions@,
            floor as int,
        ));
        if payers.len() <= 1 {
            assert(done + rest =~= done);
            break;
        }
        proof {
            lemma_next_level(contributions@, floor as int);
            in_order_lists_the_set(above(contributions@, floor as int));
            assert forall|i: int| 0 <= i < payers.len() implies contributions@.dom().contains(
                #[trigger] payers[i],
            ) by {
                assert(in_order(above(contributions@, floor as int)).contains(payers@[i]));
            }
            assert((done + rest)[done.len() as int] == rest[0]);
            assert(all[done.len() as int].amount <= u128::MAX);
        }
        let level: u128 = lowest_contribution(contributions, &payers);
        let step: u128 = level - floor;
        let count: u128 = payers.len() as u128;
        assert(rest[0].amount == step * count);
        let layer = PotLayer {
            amount: Chips(step * count),
            eligible_seats: payers_above(contributions, folded_seats, floor),
            is_main: floor == 0,
        };
        assert(layer@ == rest[0]);
        layers.push(layer);
        proof {
            let tail = layers_above(contributions@, folded_seats@, level as int);
            let now = layers@.map_values(|layer: PotLayer| layer@);
            assert(now =~= done.push(rest[0]));
            assert(now + tail =~= done + rest);
        }
        floor = level;
    }
    layers
}

/// The layers of the pot beside the main pot.
pub fn build_side_pots(
    contributions: &HashMap<SeatId, Chips>,
    folded_seats: &HashSet<SeatId>,
) -> (pots: Vec<SidePot>)
    requires
        layers_fit(contributions@),
    ensures
        pots@.map_values(|pot: SidePot| pot@) == side_pots_of(contributions@, folded_seats@),
{
    let layers = build_pot_layers(contributions, folded_seats);
    let ghost views = layers@.map_values(|layer: PotLayer| layer@);
    proof {
        only_the_first_layer_is_main(contributions@, folded_seats@, 0);
    }
    let mut pots: Vec<SidePot> = Vec::new();
    let mut i: usize = 0;
    while i < layers.len()
        invariant
            i <= layers.len(),
            views == layers@.map_values(|layer: PotLayer| layer@),
            forall|j: int| 0 <= j < views.len() ==> ((#[trigger] views[j]).is_main <==> j == 0),
            pots.len() == (if i == 0 {
                0
            } else {
                i - 1
            }),
            forall|j: int|
                0 <= j < pots.len() ==> (#[trigger] pots[j])@ == (SidePotView {
                    amount: views[j + 1].amount,
                    eligible_seats: views[j + 1].eligible_seats,
                }),
        decreases layers.len() - i,
    {
        let layer = &layers[i];
        assert(views[i as int] == layer@);
        if !layer.is_main {
            let eligible_seats = layer.eligible_seats.clone();
            assert(eligible_seats@ =~= layer.eligible_seats@);
            pots.push(SidePot { amount: layer.amount, eligible_seats: eligible_seats });
        }
        i = i + 1;
    }
    assert(pots@.map_values(|pot: SidePot| pot@) =~= side_pots_of(contributions@, folded_seats@));
    pots
}

/// What the seats below `bound` put in beyond `floor`, added up.
pub open spec fn excess_below(contributions: Map<SeatId, Chips>, floor: int, bound: nat) -> int
    decreases bound,
{
    if bound == 0 {
        0
    } else {
        let seat = (bound - 1) as u8;
        let rest = excess_below(contributions, floor, (bound - 1) as nat);
        if above(contributions, floor).contains(seat) {
            rest + (contributions[seat].0 - floor)
        } else {
            rest
        }
    }
}

/// What all seats put in beyond `floor`.
pub open spec fn excess(contributions: Map<SeatId, Chips>, floor: int) -> int {
    excess_below(contributions, floor, 256)
}

/// Everything that was put in.
pub open spec fn total_contributed(contributions: Map<SeatId, Chips>) -> int {
    excess(contributions, 0)
}

/// The sum of the layers' amounts.
pub open spec fn layers_total(layers: Seq<LayerView>) -> int
    decreases layers.len(),
{
    if layers.len() == 0 {
        0
    } else {
        layers[0].amount + layers_total(layers.skip(1))
    }
}

/// The highest level that two players or more reached, from `floor` up.
pub open spec fn contested_level(contributions: Map<SeatId, Chips>, floor: int) -> int
    decreases u128::MAX - floor,
{
    if in_order(above(contributions, floor)).len() <= 1 {
        floor
    } else {
        proof {
            lemma_next_level(contributions, floor);
        }
        contested_level(contributions, next_level(contributions, floor))
    }
}

proof fn lemma_excess_below_step(
    contributions: Map<SeatId, Chips>,
    floor: int,
    level: int,
    bound: nat,
)
    requires
        floor < level,
        bound <= 256,
        forall|seat: SeatId|
            contributions.dom().contains(seat) && (#[trigger] contributions[seat]).0 > floor
                ==> contributions[seat].0 >= level,
    ensures
        excess_below(contributions, floor, bound) == excess_below(contributions, level, bound) + (
        level - floor) * seats_below(above(contributions, floor), bound).len(),
    decreases bound,
{
    if bound > 0 {
        let below = (bound - 1) as nat;
        lemma_excess_below_step(contributions, floor, level, below);
        let seat = below as u8;
        let step = level - floor;
        let count = seats_below(above(contributions, floor), below).len() as int;
        if above(contributions, floor).contains(seat) {
            assert(step * (count + 1) == step * count + step) by (nonlinear_arith);
        }
    } else {
        assert((level - floor) * 0 == 0) by (nonlinear_arith);
    }
}

proof fn lemma_excess_nonnegative(contributions: Map<SeatId, Chips>, floor: int, bound: nat)
    ensures
        excess_below(contributions, floor, bound) >= 0,
    decreases bound,
{
    if bound > 0 {
        lemma_excess_nonnegative(contributions, floor, (bound - 1) as nat);
    }
}

/// No chip is lost: the layers and what a single player put in beyond everybody else make up
/// all that was put in above `floor`.
pub proof fn layers_account_for_all_chips(
    contributions: Map<SeatId, Chips>,
    folded: Set<SeatId>,
    floor: int,
)
    ensures
        layers_total(layers_above(contributions, folded, floor)) + excess(
            contributions,
            contested_level(contributions, floor),
        ) == excess(contributions, floor),
        in_order(above(contributions, contested_level(contributions, floor))).len() <= 1,
        contested_level(contributions, floor) >= floor,
    decreases u128::MAX - floor,
{
    if in_order(above(contributions, floor)).len() > 1 {
        lemma_next_level(contributions, floor);
        let level = next_level(contributions, floor);
        layers_account_for_all_chips(contributions, folded, level);
        lemma_excess_below_step(contributions, floor, level, 256);
        assert(layers_above(contributions, folded, floor).skip(1) =~= layers_above(
            contributions,
            folded,
            level,
        ));
    }
}

/// No layer is negative, and none is larger than all together.
pub proof fn lemma_layers_nonnegative(
    contributions: Map<SeatId, Chips>,
    folded: Set<SeatId>,
    floor: int,
)
    ensures
        layers_total(layers_above(contributions, folded, floor)) >= 0,
        forall|i: int|
            0 <= i < layers_above(contributions, folded, floor).len() ==> 0 <= (
            #[trigger] layers_above(contributions, folded, floor)[i]).amount <= layers_total(
                layers_above(contributions, folded, floor),
            ),
    decreases u128::MAX - floor,
{
    if in_order(above(contributions, floor)).len() > 1 {
        lemma_next_level(contributions, floor);
        let level = next_level(contributions, floor);
        lemma_layers_nonnegative(contributions, folded, level);
        let rest = layers_above(contributions, folded, level);
        let all = layers_above(contributions, folded, floor);
        assert(all.skip(1) =~= rest);
        let step = level - floor;
        let count = in_order(above(contributions, floor)).len() as int;
        assert(step * count >= 0) by (nonlinear_arith)
            requires
                step >= 0,
                count >= 0,
        ;
        assert forall|i: int| 0 <= i < all.len() implies 0 <= (#[trigger] all[i]).amount
            <= layers_total(all) by {
            if i > 0 {
                assert(all[i] == rest[i - 1]);
            }
        }
    }
}

/// Contributions that add up to an amount of chips split into layers that are amounts too.
pub proof fn layers_fit_where_the_total_fits(contributions: Map<SeatId, Chips>)
    requires
        total_contributed(contributions) <= u128::MAX,
    ensures
        layers_fit(contributions),
{
    layers_account_for_all_chips(contributions, Set::empty(), 0);
    lemma_excess_nonnegative(contributions, contested_level(contributions, 0), 256);
    lemma_layers_nonnegative(contributions, Set::empty(), 0);
}

proof fn lemma_excess_below_insert(
    contributions: Map<SeatId, Chips>,
    seat: SeatId,
    amount: Chips,
    bound: nat,
)
    requires
        bound <= 256,
    ensures
        excess_below(contributions.insert(seat, amount), 0, bound) == excess_below(
            contributions,
            0,
            bound,
        ) + (if seat < bound {
            amount.0 - amount_at(contributions, seat).0
        } else {
            0
        }),
    decreases bound,
{
    if bound > 0 {
        lemma_excess_below_insert(contributions, seat, amount, (bound - 1) as nat);
    }
}

/// Putting in `delta` more chips raises the total by as much.
pub proof fn contribution_raises_the_total(
    contributions: Map<SeatId, Chips>,
    seat: SeatId,
    amount: Chips,
)
    ensures
        total_contributed(contributions.insert(seat, amount)) == total_contributed(contributions)
            + amount.0 - amount_at(contributions, seat).0,
{
    lemma_excess_below_insert(contributions, seat, amount, 256);
}

/// Nobody put in more than everybody together.
pub proof fn contribution_within_total(contributions: Map<SeatId, Chips>, seat: SeatId)
    ensures
        amount_at(contributions, seat).0 <= total_contributed(contributions),
{
    lemma_excess_nonnegative(contributions.insert(seat, Chips(0)), 0, 256);
    contribution_raises_the_total(contributions, seat, Chips(0));
}

/// At a table where nobody put anything in, the total is nothing.
pub proof fn empty_total(contributions: Map<SeatId, Chips>)
    requires
        contributions == Map::<SeatId, Chips>::empty(),
    ensures
        total_contributed(contributions) == 0,
{
    lemma_empty_total(contributions, 256);
}

proof fn lemma_empty_total(contributions: Map<SeatId, Chips>, bound: nat)
    requires
        contributions == Map::<SeatId, Chips>::empty(),
    ensures
        excess_below(contributions, 0, bound) == 0,
    decreases bound,
{
    if bound > 0 {
        lemma_empty_total(contributions, (bound - 1) as nat);
    }
}

/// The levels that part the layers above `floor`: the amounts that somebody put in, as long as
/// two players or more went beyond the level before.
spec fn levels_above(contributions: Map<SeatId, Chips>, floor: int) -> Seq<int>
    decreases u128::MAX - floor,
{
    if in_order(above(contributions, floor)).len() <= 1 {
        seq![floor]
    } else {
        proof {
            lemma_next_level(contributions, floor);
        }
        seq![floor] + levels_above(contributions, next_level(contributions, floor))
    }
}

/// The seats that put in at least `level`.
pub open spec fn payers_of(contributions: Map<SeatId, Chips>, level: int) -> Set<SeatId> {
    Set::new(|seat: SeatId| contributions.dom().contains(seat) && contributions[seat].0 >= level)
}

/// Whether a layer is the slice of the pot between two levels: every seat that put in the
/// upper level or more paid the difference, and a seat can win the slice exactly when it paid
/// and did not fold.
pub open spec fn is_slice(
    contributions: Map<SeatId, Chips>,
    folded: Set<SeatId>,
    lower: int,
    upper: int,
    layer: LayerView,
) -> bool {
    &&& lower < upper
    &&& exists|seat: SeatId|
        contributions.dom().contains(seat) && (#[trigger] contributions[seat]).0 == upper
    &&& forall|seat: SeatId|
        contributions.dom().contains(seat) && (#[trigger] contributions[seat]).0 > lower
            ==> contributions[seat].0 >= upper
    &&& forall|seat: SeatId| #[trigger]
        layer.eligible_seats.contains(seat) <==> contributions.dom().contains(seat)
            && contributions[seat].0 >= upper && !folded.contains(seat)
    &&& layer.eligible_seats.no_duplicates()
    &&& forall|i: int, j: int|
        0 <= i < j < layer.eligible_seats.len() ==> layer.eligible_seats[i]
            < layer.eligible_seats[j]
    &&& layer.amount == (upper - lower) * in_order(payers_of(contributions, upper)).len()
    &&& in_order(payers_of(contributions, upper)).len() >= 2
}

proof fn lemma_slices_above(contributions: Map<SeatId, Chips>, folded: Set<SeatId>, floor: int)
    ensures
        ({
            let layers = layers_above(contributions, folded, floor);
            let levels = levels_above(contributions, floor);
            &&& levels.len() == layers.len() + 1
            &&& levels[0] == floor
            &&& forall|i: int|
                0 <= i < layers.len() ==> is_slice(
                    contributions,
                    folded,
                    levels[i],
                    levels[i + 1],
                    #[trigger] layers[i],
                )
            &&& in_order(above(contributions, levels.last())).len() <= 1
        }),
    decreases u128::MAX - floor,
{
    let layers = layers_above(contributions, folded, floor);
    let levels = levels_above(contributions, floor);
    let payers = above(contributions, floor);
    if in_order(payers).len() > 1 {
        lemma_next_level(contributions, floor);
        let level = next_level(contributions, floor);
        lemma_slices_above(contributions, folded, level);
        let rest = layers_above(contributions, folded, level);
        let rest_levels = levels_above(contributions, level);
        assert(payers_of(contributions, level) =~= payers);
        in_order_lists_the_set(payers.difference(folded));
        assert(is_slice(contributions, folded, floor, level, layers[0]));
        assert(levels.last() == rest_levels.last());
        assert forall|i: int| 0 <= i < layers.len() implies is_slice(
            contributions,
            folded,
            levels[i],
            levels[i + 1],
            #[trigger] layers[i],
        ) by {
            if i > 0 {
                assert(layers[i] == rest[i - 1]);
                assert(levels[i] == rest_levels[i - 1]);
                assert(levels[i + 1] == rest_levels[i]);
            } else {
                assert(levels[1] == rest_levels[0]);
            }
        }
    }
}

/// The layers of the pot are slices that lie one on top of the other from nothing up, and they
/// end where fewer than two players put in more. Each level is an amount that somebody put in
/// with nobody stopping in between; whoever paid into a slice and did not fold can win it, and
/// nobody else. The first slice alone is the main pot.
pub proof fn layers_are_slices_of_the_pot(
    contributions: Map<SeatId, Chips>,
    folded: Set<SeatId>,
) -> (levels: Seq<int>)
    ensures
        ({
            let layers = pot_layers_of(contributions, folded);
            &&& levels.len() == layers.len() + 1
            &&& levels[0] == 0
            &&& forall|i: int|
                0 <= i < layers.len() ==> is_slice(
                    contributions,
                    folded,
                    levels[i],
                    levels[i + 1],
                    #[trigger] layers[i],
                )
            &&& forall|i: int| 0 <= i < layers.len() ==> ((#[trigger] layers[i]).is_main <==> i == 0)
            &&& forall|a: SeatId, b: SeatId|
                a != b && contributions.dom().contains(a) && contributions.dom().contains(b)
                    && (#[trigger] contributions[a]).0 > levels.last() ==> (
                #[trigger] contributions[b]).0 <= levels.last()
        }),
{
    lemma_slices_above(contributions, folded, 0);
    only_the_first_layer_is_main(contributions, folded, 0);
    let levels = levels_above(contributions, 0);
    let last = levels.last();
    assert forall|a: SeatId, b: SeatId|
        a != b && contributions.dom().contains(a) && contributions.dom().contains(b) && (
        #[trigger] contributions[a]).0 > last implies (#[trigger] contributions[b]).0
        <= last by {
        let order = in_order(above(contributions, last));
        in_order_lists_the_set(above(contributions, last));
        if contributions[b].0 > last {
            assert(order.contains(a) && order.contains(b));
            let i = order.index_of(a);
            let j = order.index_of(b);
            assert(order[i] == a && order[j] == b);
        }
    }
    levels
}

/// Nobody who folded can win any layer of the pot, not even the main pot.
pub proof fn folded_seats_win_nothing(
    contributions: Map<SeatId, Chips>,
    folded: Set<SeatId>,
    seat: SeatId,
    i: int,
)
    requires
        folded.contains(seat),
        0 <= i < pot_layers_of(contributions, folded).len(),
    ensures
        !pot_layers_of(contributions, folded)[i].eligible_seats.contains(seat),
{
    layers_are_slices_of_the_pot(contributions, folded);
}

/// Whoever put anything in and did not fold can win the main pot, where there is one.
pub proof fn everybody_else_can_win_the_main_pot(
    contributions: Map<SeatId, Chips>,
    folded: Set<SeatId>,
    seat: SeatId,
)
    requires
        pot_layers_of(contributions, folded).len() > 0,
        contributions.dom().contains(seat),
        contributions[seat].0 > 0,
        !folded.contains(seat),
    ensures
        pot_layers_of(contributions, folded)[0].eligible_seats.contains(seat),
        pot_layers_of(contributions, folded)[0].is_main,
{
    let levels = layers_are_slices_of_the_pot(contributions, folded);
    assert(is_slice(
        contributions,
        folded,
        levels[0],
        levels[1],
        pot_layers_of(contributions, folded)[0],
    ));
}

/// The side pots are the layers of the pot but the first, in their order.
pub proof fn side_pots_are_the_other_layers(
    contributions: Map<SeatId, Chips>,
    folded: Set<SeatId>,
)
    ensures
        ({
            let layers = pot_layers_of(contributions, folded);
            let pots = side_pots_of(contributions, folded);
            &&& layers.len() == 0 ==> pots.len() == 0
            &&& layers.len() > 0 ==> pots.len() == layers.len() - 1
            &&& forall|i: int|
                0 <= i < pots.len() ==> (#[trigger] pots[i]).amount == layers[i + 1].amount
                    && pots[i].eligible_seats == layers[i + 1].eligible_seats
        }),
{
}

} // verus!
