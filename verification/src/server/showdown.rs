//! The cards that a hand is settled by, and who wins which part of the pot.
use std::collections::HashMap;

use vstd::prelude::*;
use vstd::string::StringExecFns;

use crate::cards::{
    are_cards, are_cards_of, cards_fault, cards_in, cards_text, cards_to_compact_string,
    different_cards_read_back, parse_cards,
};
use crate::domain::game::SeatId;
use crate::domain::ids::{is_time_ordered, parse_id, parsed_uuid, HandId, RoomId, TraceId};
use crate::domain::money::Chips;
use crate::domain::time::Timestamp;
use crate::engine::betting::PokerEngine;
use crate::engine::pots::{
    contested_level, excess, layers_account_for_all_chips, layers_fit, layers_total,
    lemma_layers_nonnegative, pot_layers_of, total_contributed,
};
use crate::engine::showdown::{showdown_decides, ShowdownInput, ShowdownView};
use crate::engine::state::{Card, EngineState, LayerView, PotLayer};
use crate::ledger::{SettlementShowdownInputRecord, SettlementShowdownSeatCardsRecord};
use crate::server::rooms::{bound_below, AppRoomService};
use crate::table::{lookup, upserted, Key, Table};
use crate::text::{decimal, decimal_text, owned};

verus! {

/// A part of the pot, with those who can win it and those who do.
#[derive(Debug, PartialEq, Eq)]
pub struct PotAwardInput {
    pub amount: Chips,
    pub eligible_seats: Vec<SeatId>,
    pub winner_seats: Vec<SeatId>,
}

/// The layers that hold chips.
pub open spec fn filled_layers(layers: Seq<LayerView>) -> Seq<LayerView> {
    layers.filter(|layer: LayerView| layer.amount > 0)
}

/// Whether somebody wins a layer by these cards.
pub open spec fn has_winner(input: ShowdownView, layer: LayerView) -> bool {
    let eligible = Some(layer.eligible_seats);
    input.board.len() >= 3 && input.best_seats(
        input.scores(eligible),
        eligible,
        input.revealed.len(),
    ).len() > 0
}

/// Whether the hands that compete for each layer that holds chips can be ranked.
pub open spec fn layers_rankable(input: ShowdownView, layers: Seq<LayerView>) -> bool {
    forall|i: int|
        0 <= i < layers.len() && (#[trigger] layers[i]).amount > 0 ==> input.all_rankable(
            Some(layers[i].eligible_seats),
        )
}

/// Whether an award gives a layer to those whose hands win it.
pub open spec fn awards_layer(input: ShowdownView, layer: LayerView, award: PotAwardInput) -> bool {
    let eligible = Some(layer.eligible_seats);
    &&& award.amount.0 == layer.amount
    &&& award.eligible_seats@ == layer.eligible_seats
    &&& showdown_decides(input, input.scores(eligible), eligible, Some(award.winner_seats@))
}

/// Whether awards give all layers that hold chips to those whose hands win them.
pub open spec fn awards_layers(
    input: ShowdownView,
    layers: Seq<LayerView>,
    awards: Seq<PotAwardInput>,
) -> bool {
    &&& awards.len() == layers.len()
    &&& forall|i: int|
        0 <= i < awards.len() ==> awards_layer(input, layers[i], #[trigger] awards[i])
}

/// Who wins which part of the pot. A pot with chips that came from nobody, or a part that
/// nobody wins, is an error.
pub fn pot_awards_from_showdown(
    engine: &PokerEngine,
    state: &EngineState,
    showdown_input: &ShowdownInput,
) -> (awards: Result<Vec<PotAwardInput>, String>)
    requires
        layers_fit(state@.pot.contributions),
        layers_rankable(
            showdown_input@,
            pot_layers_of(state@.pot.contributions, state@.hand.folded),
        ),
    ensures
        ({
            let layers = pot_layers_of(state@.pot.contributions, state@.hand.folded);
            if layers.len() == 0 && state.snapshot.pot_total.0 > 0 {
                awards is Err && awards->Err_0@ == "pot_total > 0 but no pot layers derived"@
            } else if exists|i: int|
                0 <= i < layers.len() && (#[trigger] layers[i]).amount > 0 && !has_winner(
                    showdown_input@,
                    layers[i],
                ) {
                awards is Err && awards->Err_0@ == "unable to evaluate showdown for pot layer"@
            } else {
                awards is Ok && awards_layers(
                    showdown_input@,
                    filled_layers(layers),
                    awards->Ok_0@,
                )
            }
        }),
{
    let layers = engine.pot_layers(state);
    let ghost views = layers@.map_values(|layer: PotLayer| layer@);
    if layers.len() == 0 && state.snapshot.pot_total.0 > 0 {
        return Err(owned("pot_total > 0 but no pot layers derived"));
    }
    let mut awards: Vec<PotAwardInput> = Vec::new();
    let mut i: usize = 0;
    proof {
        reveal(Seq::filter);
        assert(filled_layers(views.take(0)) =~= Seq::empty());
    }
    while i < layers.len()
        invariant
            i <= layers.len(),
            views == layers@.map_values(|layer: PotLayer| layer@),
            views == pot_layers_of(state@.pot.contributions, state@.hand.folded),
            !(layers.len() == 0 && state.snapshot.pot_total.0 > 0),
            layers_rankable(showdown_input@, views),
            awards_layers(showdown_input@, filled_layers(views.take(i as int)), awards@),
            forall|k: int|
                0 <= k < i && (#[trigger] views[k]).amount > 0 ==> has_winner(
                    showdown_input@,
                    views[k],
                ),
        decreases layers.len() - i,
    {
        let layer = &layers[i];
        let ghost before = filled_layers(views.take(i as int));
        proof {
            reveal(Seq::filter);
            assert(views.take(i + 1).drop_last() =~= views.take(i as int));
            assert(views[i as int] == layer@);
        }
        if layer.amount.0 != 0 {
            match engine.evaluate_showdown_for_eligible(
                showdown_input,
                Some(&layer.eligible_seats),
            ) {
                None => {
                    assert(views[i as int].amount > 0 && !has_winner(
                        showdown_input@,
                        views[i as int],
                    ));
                    return Err(owned("unable to evaluate showdown for pot layer"));
                },
                Some(showdown) => {
                    let eligible_seats = layer.eligible_seats.clone();
                    assert(eligible_seats@ =~= layer.eligible_seats@);
                    let ghost earlier = awards@;
                    awards.push(
                        PotAwardInput {
                            amount: layer.amount,
                            eligible_seats: eligible_seats,
                            winner_seats: showdown.winner_seats,
                        },
                    );
                    assert(filled_layers(views.take(i + 1)) == before.push(layer@));
                    assert forall|k: int| 0 <= k < awards@.len() implies awards_layer(
                        showdown_input@,
                        filled_layers(views.take(i + 1))[k],
                        #[trigger] awards@[k],
                    ) by {
                        if k < earlier.len() {
                            assert(awards@[k] == earlier[k]);
                        }
                    }
                },
            }
        }
        i = i + 1;
    }
    assert(views.take(i as int) =~= views);
    Ok(awards)
}

/// The sum of the amounts that are awarded.
pub open spec fn awarded(awards: Seq<PotAwardInput>) -> int
    decreases awards.len(),
{
    if awards.len() == 0 {
        0
    } else {
        awarded(awards.drop_last()) + awards.last().amount.0
    }
}

proof fn lemma_layers_total_of_last(layers: Seq<LayerView>)
    requires
        layers.len() > 0,
    ensures
        layers_total(layers) == layers_total(layers.drop_last()) + layers.last().amount,
    decreases layers.len(),
{
    if layers.len() == 1 {
        assert(layers_total(layers.skip(1)) == 0);
        assert(layers_total(layers.drop_last()) == 0);
    } else {
        lemma_layers_total_of_last(layers.skip(1));
        assert(layers.skip(1).drop_last() =~= layers.drop_last().skip(1));
        assert(layers.skip(1).last() == layers.last());
        assert(layers_total(layers.drop_last()) == layers[0].amount + layers_total(
            layers.drop_last().skip(1),
        ));
    }
}

proof fn lemma_awarded(input: ShowdownView, layers: Seq<LayerView>, awards: Seq<PotAwardInput>)
    requires
        awards_layers(input, filled_layers(layers), awards),
        forall|i: int| 0 <= i < layers.len() ==> (#[trigger] layers[i]).amount >= 0,
    ensures
        awarded(awards) == layers_total(layers),
    decreases layers.len(),
{
    reveal(Seq::filter);
    if layers.len() == 0 {
        assert(filled_layers(layers) =~= Seq::empty());
    } else {
        let front = layers.drop_last();
        let last = layers.last();
        lemma_layers_total_of_last(layers);
        assert(last.amount >= 0);
        assert forall|i: int| 0 <= i < front.len() implies (#[trigger] front[i]).amount >= 0 by {
            assert(layers[i].amount >= 0);
        }
        if last.amount > 0 {
            assert(filled_layers(layers) == filled_layers(front).push(last));
            let rest = awards.drop_last();
            assert forall|k: int| 0 <= k < rest.len() implies awards_layer(
                input,
                filled_layers(front)[k],
                #[trigger] rest[k],
            ) by {
                assert(rest[k] == awards[k]);
            }
            lemma_awarded(input, front, rest);
            assert(awards[awards.len() - 1].amount.0 == last.amount);
        } else {
            lemma_awarded(input, front, awards);
        }
    }
}

/// No chip is lost: what is awarded and what a single player put in beyond everybody else make
/// up all that was put in.
pub proof fn awards_account_for_all_chips(
    input: ShowdownView,
    contributions: Map<SeatId, Chips>,
    folded: Set<SeatId>,
    awards: Seq<PotAwardInput>,
)
    requires
        awards_layers(input, filled_layers(pot_layers_of(contributions, folded)), awards),
    ensures
        awarded(awards) + excess(contributions, contested_level(contributions, 0))
            == total_contributed(contributions),
{
    layers_account_for_all_chips(contributions, folded, 0);
    lemma_layers_nonnegative(contributions, folded, 0);
    lemma_awarded(input, pot_layers_of(contributions, folded), awards);
}

/// The cards of a seat, as an administrator writes them.
#[derive(Debug, PartialEq, Eq)]
pub struct ShowdownSeatCardsInput {
    pub seat_id: u8,
    pub cards: String,
}

/// The cards of a hand, as an administrator writes them.
#[derive(Debug, PartialEq, Eq)]
pub struct AdminUpsertShowdownInputRequest {
    pub room_id: String,
    pub board: String,
    pub revealed_hole_cards: Vec<ShowdownSeatCardsInput>,
}

/// How faults in the cards of a hand are spoken of.
pub ghost struct FaultTexts {
    pub board: Seq<char>,
    pub seat: Seq<char>,
    pub count: Seq<char>,
    pub count_end: Seq<char>,
}

pub open spec fn admin_texts() -> FaultTexts {
    FaultTexts {
        board: "invalid board cards: "@,
        seat: "invalid seat cards for seat "@,
        count: "seat "@,
        count_end: " must provide exactly 2 cards"@,
    }
}

pub open spec fn persisted_texts() -> FaultTexts {
    FaultTexts {
        board: "invalid persisted board cards: "@,
        seat: "invalid persisted seat cards for seat "@,
        count: "invalid persisted seat cards length for seat "@,
        count_end: ""@,
    }
}

/// What is wrong with the two cards of a seat.
pub open spec fn seat_fault(seat_id: u8, cards: Seq<char>, texts: FaultTexts) -> Option<Seq<char>> {
    match cards_fault(cards, cards_in(cards)) {
        Some(fault) => Some(texts.seat + decimal(seat_id as nat) + ": "@ + fault.message()),
        None => if cards_in(cards) != 2 {
            Some(texts.count + decimal(seat_id as nat) + texts.count_end)
        } else {
            None
        },
    }
}

/// What is wrong with the first of the first `count` seats that something is wrong with.
pub open spec fn seats_fault(seats: Seq<(u8, Seq<char>)>, count: int, texts: FaultTexts) -> Option<
    Seq<char>,
>
    decreases count,
{
    if count <= 0 {
        None
    } else {
        match seats_fault(seats, count - 1, texts) {
            Some(fault) => Some(fault),
            None => seat_fault(seats[count - 1].0, seats[count - 1].1, texts),
        }
    }
}

/// What is wrong with the cards of a hand; the board is looked at first.
pub open spec fn showdown_fault(
    board: Seq<char>,
    seats: Seq<(u8, Seq<char>)>,
    texts: FaultTexts,
) -> Option<Seq<char>> {
    match cards_fault(board, cards_in(board)) {
        Some(fault) => Some(texts.board + fault.message()),
        None => seats_fault(seats, seats.len() as int, texts),
    }
}

/// Whether these are the cards of the seats.
pub open spec fn reveals(revealed: Seq<(SeatId, Seq<Card>)>, seats: Seq<(u8, Seq<char>)>) -> bool {
    &&& revealed.len() == seats.len()
    &&& forall|i: int|
        0 <= i < revealed.len() ==> (#[trigger] revealed[i]).0 == seats[i].0 && are_cards_of(
            revealed[i].1,
            seats[i].1,
        )
}

/// Whether these are the cards of a hand.
pub open spec fn is_showdown_of(
    input: ShowdownView,
    board: Seq<char>,
    seats: Seq<(u8, Seq<char>)>,
) -> bool {
    are_cards_of(input.board, board) && reveals(input.revealed, seats)
}

/// The two cards of a seat.
fn read_seat(
    seat_id: u8,
    cards: &str,
    seat_text: &str,
    count_text: &str,
    count_end: &str,
    Ghost(texts): Ghost<FaultTexts>,
) -> (read: Result<[Card; 2], String>)
    requires
        texts.seat == seat_text@,
        texts.count == count_text@,
        texts.count_end == count_end@,
    ensures
        match seat_fault(seat_id, cards@, texts) {
            Some(fault) => read is Err && read->Err_0@ == fault,
            None => read is Ok && are_cards_of(read->Ok_0@, cards@),
        },
{
    match parse_cards(cards) {
        Err(detail) => {
            let mut text = owned(seat_text);
            text.append(decimal_text(seat_id as u128).as_str());
            text.append(": ");
            text.append(detail.as_str());
            Err(text)
        },
        Ok(hand) => {
            if hand.len() != 2 {
                let mut text = owned(count_text);
                text.append(decimal_text(seat_id as u128).as_str());
                text.append(count_end);
                return Err(text);
            }
            let pair: [Card; 2] = [hand[0], hand[1]];
            assert(pair@ =~= hand@);
            Ok(pair)
        },
    }
}

proof fn lemma_seats_fault_stays(
    seats: Seq<(u8, Seq<char>)>,
    count: int,
    all: int,
    texts: FaultTexts,
)
    requires
        0 <= count <= all,
        seats_fault(seats, count, texts) is Some,
    ensures
        seats_fault(seats, all, texts) == seats_fault(seats, count, texts),
    decreases all - count,
{
    if count < all {
        lemma_seats_fault_stays(seats, count, all - 1, texts);
    }
}

/// The seats of a request with the texts of their cards.
pub open spec fn requested_seats(seats: Seq<ShowdownSeatCardsInput>) -> Seq<(u8, Seq<char>)> {
    seats.map_values(|seat: ShowdownSeatCardsInput| (seat.seat_id, seat.cards@))
}

/// The seats of a record with the texts of their cards.
pub open spec fn recorded_seats(seats: Seq<SettlementShowdownSeatCardsRecord>) -> Seq<
    (u8, Seq<char>),
> {
    seats.map_values(|seat: SettlementShowdownSeatCardsRecord| (seat.seat_id, seat.cards@))
}

/// Reads what an administrator wrote: the room, the board, then the cards of each seat.
pub fn parse_showdown_input(payload: &AdminUpsertShowdownInputRequest) -> (read: Result<
    (RoomId, ShowdownInput),
    String,
>)
    ensures
        match parsed_uuid(payload.room_id@) {
            Err(detail) => read is Err && read->Err_0@ == "invalid room_id: "@ + detail,
            Ok(room_id) => match showdown_fault(
                payload.board@,
                requested_seats(payload.revealed_hole_cards@),
                admin_texts(),
            ) {
                Some(fault) => read is Err && read->Err_0@ == fault,
                None => {
                    &&& read is Ok
                    &&& read->Ok_0.0 == RoomId(room_id)
                    &&& is_showdown_of(
                        read->Ok_0.1@,
                        payload.board@,
                        requested_seats(payload.revealed_hole_cards@),
                    )
                },
            },
        },
{
    let room_id: u128 = match parse_id(payload.room_id.as_str()) {
        Ok(id) => id,
        Err(detail) => {
            return Err(owned("invalid room_id: ").concat(detail.as_str()));
        },
    };
    let board = match parse_cards(payload.board.as_str()) {
        Ok(cards) => cards,
        Err(detail) => {
            return Err(owned("invalid board cards: ").concat(detail.as_str()));
        },
    };
    let ghost seats = requested_seats(payload.revealed_hole_cards@);
    let mut revealed: Vec<(SeatId, [Card; 2])> = Vec::new();
    let ghost pair = |shown: (SeatId, [Card; 2])| (shown.0, shown.1@);
    let mut i: usize = 0;
    while i < payload.revealed_hole_cards.len()
        invariant
            i <= seats.len(),
            seats == requested_seats(payload.revealed_hole_cards@),
            pair == (|shown: (SeatId, [Card; 2])| (shown.0, shown.1@)),
            parsed_uuid(payload.room_id@) is Ok,
            cards_fault(payload.board@, cards_in(payload.board@)) is None,
            seats_fault(seats, i as int, admin_texts()) is None,
            revealed@.len() == i,
            forall|k: int|
                0 <= k < i ==> (#[trigger] revealed@[k]).0 == seats[k].0 && are_cards_of(
                    revealed@[k].1@,
                    seats[k].1,
                ),
        decreases seats.len() - i,
    {
        let seat = &payload.revealed_hole_cards[i];
        assert(seats[i as int] == (seat.seat_id, seat.cards@));
        match read_seat(
            seat.seat_id,
            seat.cards.as_str(),
            "invalid seat cards for seat ",
            "seat ",
            " must provide exactly 2 cards",
            Ghost(admin_texts()),
        ) {
            Err(text) => {
                proof {
                    lemma_seats_fault_stays(seats, i + 1, seats.len() as int, admin_texts());
                }
                return Err(text);
            },
            Ok(cards) => {
                revealed.push((seat.seat_id, cards));
            },
        }
        i = i + 1;
    }
    Ok((RoomId(room_id), ShowdownInput { board: board, revealed_hole_cards: revealed }))
}

/// Whether all cards of a hand are cards of the deck.
pub open spec fn shows_cards(input: ShowdownView) -> bool {
    &&& are_cards(input.board)
    &&& forall|i: int| 0 <= i < input.revealed.len() ==> are_cards((#[trigger] input.revealed[i]).1)
}

/// Whether a record holds the cards of a hand.
pub open spec fn records_showdown(
    input: ShowdownView,
    board: Seq<char>,
    seats: Seq<(u8, Seq<char>)>,
) -> bool {
    &&& board == cards_text(input.board, input.board.len())
    &&& seats.len() == input.revealed.len()
    &&& forall|i: int|
        0 <= i < seats.len() ==> #[trigger] seats[i] == (
            input.revealed[i].0,
            cards_text(input.revealed[i].1, input.revealed[i].1.len()),
        )
}

/// The record that holds the cards of a hand.
pub fn showdown_input_to_record(room_id: RoomId, hand_id: HandId, input: &ShowdownInput) -> (record:
    SettlementShowdownInputRecord)
    requires
        shows_cards(input@),
    ensures
        record.room_id == room_id,
        record.hand_id == hand_id,
        record.source@ == "admin_ops_http"@,
        is_time_ordered(record.trace_id.0),
        records_showdown(input@, record.board_cards@, recorded_seats(record.revealed_hole_cards@)),
{
    let mut seats: Vec<SettlementShowdownSeatCardsRecord> = Vec::new();
    let mut i: usize = 0;
    while i < input.revealed_hole_cards.len()
        invariant
            i <= input.revealed_hole_cards.len(),
            shows_cards(input@),
            seats@.len() == i,
            forall|k: int|
                0 <= k < i ==> #[trigger] recorded_seats(seats@)[k] == (
                    input@.revealed[k].0,
                    cards_text(input@.revealed[k].1, input@.revealed[k].1.len()),
                ),
        decreases input.revealed_hole_cards.len() - i,
    {
        let (seat_id, pair) = input.revealed_hole_cards[i];
        let mut cards: Vec<Card> = Vec::new();
        cards.push(pair[0]);
        cards.push(pair[1]);
        assert(input@.revealed[i as int] == (seat_id, pair@));
        assert(cards@ =~= pair@);
        let ghost before = seats@;
        seats.push(
            SettlementShowdownSeatCardsRecord {
                seat_id: seat_id,
                cards: cards_to_compact_string(&cards),
            },
        );
        assert(recorded_seats(seats@) =~= recorded_seats(before).push(
            (seat_id, cards_text(pair@, pair@.len())),
        ));
        i = i + 1;
    }
    SettlementShowdownInputRecord {
        room_id: room_id,
        hand_id: hand_id,
        board_cards: cards_to_compact_string(&input.board),
        revealed_hole_cards: seats,
        source: owned("admin_ops_http"),
        updated_at: Timestamp::now(),
        trace_id: TraceId::new(),
    }
}

/// Reads the cards of a hand from their record.
pub fn showdown_input_from_record(record: &SettlementShowdownInputRecord) -> (read: Result<
    ShowdownInput,
    String,
>)
    ensures
        match showdown_fault(
            record.board_cards@,
            recorded_seats(record.revealed_hole_cards@),
            persisted_texts(),
        ) {
            Some(fault) => read is Err && read->Err_0@ == fault,
            None => read is Ok && is_showdown_of(
                read->Ok_0@,
                record.board_cards@,
                recorded_seats(record.revealed_hole_cards@),
            ),
        },
{
    let board = match parse_cards(record.board_cards.as_str()) {
        Ok(cards) => cards,
        Err(detail) => {
            return Err(owned("invalid persisted board cards: ").concat(detail.as_str()));
        },
    };
    let ghost seats = recorded_seats(record.revealed_hole_cards@);
    let mut revealed: Vec<(SeatId, [Card; 2])> = Vec::new();
    let mut i: usize = 0;
    while i < record.revealed_hole_cards.len()
        invariant
            i <= seats.len(),
            seats == recorded_seats(record.revealed_hole_cards@),
            cards_fault(record.board_cards@, cards_in(record.board_cards@)) is None,
            seats_fault(seats, i as int, persisted_texts()) is None,
            revealed@.len() == i,
            forall|k: int|
                0 <= k < i ==> (#[trigger] revealed@[k]).0 == seats[k].0 && are_cards_of(
                    revealed@[k].1@,
                    seats[k].1,
                ),
        decreases seats.len() - i,
    {
        let seat = &record.revealed_hole_cards[i];
        assert(seats[i as int] == (seat.seat_id, seat.cards@));
        match read_seat(
            seat.seat_id,
            seat.cards.as_str(),
            "invalid persisted seat cards for seat ",
            "invalid persisted seat cards length for seat ",
            "",
            Ghost(persisted_texts()),
        ) {
            Err(text) => {
                proof {
                    lemma_seats_fault_stays(seats, i + 1, seats.len() as int, persisted_texts());
                }
                return Err(text);
            },
            Ok(cards) => {
                revealed.push((seat.seat_id, cards));
            },
        }
        i = i + 1;
    }
    Ok(ShowdownInput { board: board, revealed_hole_cards: revealed })
}

/// Whether no card occurs twice on the board or in a hand of two.
pub open spec fn cards_differ(input: ShowdownView) -> bool {
    &&& input.board.no_duplicates()
    &&& forall|i: int|
        0 <= i < input.revealed.len() ==> (#[trigger] input.revealed[i]).1.no_duplicates()
            && input.revealed[i].1.len() == 2
}

/// Whether two hands hold the same cards at the same places, in whatever order.
pub open spec fn same_cards(a: ShowdownView, b: ShowdownView) -> bool {
    &&& forall|card: Card| #[trigger] a.board.contains(card) <==> b.board.contains(card)
    &&& a.revealed.len() == b.revealed.len()
    &&& forall|i: int|
        0 <= i < a.revealed.len() ==> (#[trigger] a.revealed[i]).0 == b.revealed[i].0
    &&& forall|i: int, card: Card|
        0 <= i < a.revealed.len() ==> (#[trigger] a.revealed[i].1.contains(card)
            <==> b.revealed[i].1.contains(card))
}

proof fn lemma_recorded_seats(
    input: ShowdownView,
    board: Seq<char>,
    seats: Seq<(u8, Seq<char>)>,
    count: int,
)
    requires
        records_showdown(input, board, seats),
        shows_cards(input),
        cards_differ(input),
        0 <= count <= seats.len(),
    ensures
        seats_fault(seats, count, persisted_texts()) is None,
    decreases count,
{
    if count > 0 {
        lemma_recorded_seats(input, board, seats, count - 1);
        let cards = input.revealed[count - 1].1;
        assert(seats[count - 1] == (input.revealed[count - 1].0, cards_text(cards, cards.len())));
        assert(are_cards(cards));
        different_cards_read_back(cards);
        crate::cards::written_cards_are_found(cards, 0);
    }
}

/// The cards of a hand that were written down are read again, with the same cards on the
/// board and in each hand.
pub proof fn recorded_cards_read_back(
    input: ShowdownView,
    record: SettlementShowdownInputRecord,
    read: ShowdownView,
)
    requires
        shows_cards(input),
        cards_differ(input),
        records_showdown(input, record.board_cards@, recorded_seats(record.revealed_hole_cards@)),
        is_showdown_of(read, record.board_cards@, recorded_seats(record.revealed_hole_cards@)),
    ensures
        showdown_fault(
            record.board_cards@,
            recorded_seats(record.revealed_hole_cards@),
            persisted_texts(),
        ) is None,
        same_cards(input, read),
{
    let seats = recorded_seats(record.revealed_hole_cards@);
    different_cards_read_back(input.board);
    lemma_recorded_seats(input, record.board_cards@, seats, seats.len() as int);
    assert forall|i: int| 0 <= i < input.revealed.len() implies (#[trigger] input.revealed[i]).0
        == read.revealed[i].0 by {
        assert(seats[i].0 == input.revealed[i].0);
        assert(read.revealed[i].0 == seats[i].0);
    }
    assert forall|i: int, card: Card| 0 <= i < input.revealed.len() implies (
    #[trigger] input.revealed[i].1.contains(card) <==> read.revealed[i].1.contains(card)) by {
        let cards = input.revealed[i].1;
        assert(seats[i].1 == cards_text(cards, cards.len()));
        assert(are_cards(cards));
        different_cards_read_back(cards);
        assert(read.revealed[i].0 == seats[i].0);
        assert(read.revealed[i].1.contains(card) <==> cards.contains(card));
    }
}

/// A hand of a room.
#[derive(Debug, Clone, Copy, PartialEq, Eq, Structural)]
pub struct RoomHand {
    pub room_id: RoomId,
    pub hand_id: HandId,
}

impl View for RoomHand {
    type V = RoomHand;

    open spec fn view(&self) -> RoomHand {
        *self
    }
}

impl Key for RoomHand {
    fn is(&self, other: &RoomHand) -> (same: bool) {
        *self == *other
    }
}

/// The cards of hands and the addresses of seats, in memory.
#[derive(Debug)]
pub struct InMemoryShowdownInputProvider {
    showdown_inputs: Table<RoomHand, ShowdownInput>,
    seat_addresses: Table<RoomHand, HashMap<SeatId, String>>,
}

impl InMemoryShowdownInputProvider {
    pub closed spec fn inputs(self) -> Seq<(RoomHand, ShowdownInput)> {
        self.showdown_inputs.rows()
    }

    pub closed spec fn addresses(self) -> Seq<(RoomHand, HashMap<SeatId, String>)> {
        self.seat_addresses.rows()
    }

    pub fn new() -> (provider: InMemoryShowdownInputProvider)
        ensures
            provider.inputs().len() == 0,
            provider.addresses().len() == 0,
    {
        InMemoryShowdownInputProvider {
            showdown_inputs: Table::new(),
            seat_addresses: Table::new(),
        }
    }

    /// Keeps the cards of a hand.
    pub fn upsert_showdown_input(&mut self, room_id: RoomId, hand_id: HandId, input: ShowdownInput)
        ensures
            final(self).inputs() == upserted(
                old(self).inputs(),
                RoomHand { room_id: room_id, hand_id: hand_id },
                input,
            ),
            final(self).addresses() == old(self).addresses(),
    {
        self.showdown_inputs.upsert(RoomHand { room_id: room_id, hand_id: hand_id }, input);
    }

    /// Keeps the addresses that the seats of a hand are paid at.
    pub fn upsert_seat_addresses(
        &mut self,
        room_id: RoomId,
        hand_id: HandId,
        addresses: HashMap<SeatId, String>,
    )
        ensures
            final(self).addresses() == upserted(
                old(self).addresses(),
                RoomHand { room_id: room_id, hand_id: hand_id },
                addresses,
            ),
            final(self).inputs() == old(self).inputs(),
    {
        self.seat_addresses.upsert(RoomHand { room_id: room_id, hand_id: hand_id }, addresses);
    }

    /// The cards of a hand.
    pub fn get_showdown_input(&self, room_id: RoomId, hand_id: HandId) -> (input: Option<
        &ShowdownInput,
    >)
        ensures
            match input {
                Some(input) => lookup(
                    self.inputs(),
                    RoomHand { room_id: room_id, hand_id: hand_id },
                ) == Some(*input),
                None => lookup(
                    self.inputs(),
                    RoomHand { room_id: room_id, hand_id: hand_id },
                ) is None,
            },
    {
        self.showdown_inputs.get(&RoomHand { room_id: room_id, hand_id: hand_id })
    }

    /// The addresses that the seats of a hand are paid at.
    pub fn get_settlement_seat_addresses(&self, room_id: RoomId, hand_id: HandId) -> (addresses:
        Option<&HashMap<SeatId, String>>)
        ensures
            match addresses {
                Some(addresses) => lookup(
                    self.addresses(),
                    RoomHand { room_id: room_id, hand_id: hand_id },
                ) == Some(*addresses),
                None => lookup(
                    self.addresses(),
                    RoomHand { room_id: room_id, hand_id: hand_id },
                ) is None,
            },
    {
        self.seat_addresses.get(&RoomHand { room_id: room_id, hand_id: hand_id })
    }
}

/// The addresses of the seats below `bound`, in the order of the seats.
pub open spec fn addresses_below(addresses: Map<SeatId, String>, bound: nat) -> Seq<
    (SeatId, String),
>
    decreases bound,
{
    if bound == 0 {
        Seq::empty()
    } else {
        let front = addresses_below(addresses, (bound - 1) as nat);
        let seat_id = (bound - 1) as u8;
        if addresses.contains_key(seat_id) {
            front.push((seat_id, addresses[seat_id]))
        } else {
            front
        }
    }
}

/// The addresses that were given for a hand, in the order of the seats.
pub open spec fn given_addresses(addresses: Option<HashMap<SeatId, String>>) -> Seq<
    (SeatId, String),
> {
    match addresses {
        Some(addresses) => addresses_below(addresses@, 256),
        None => Seq::empty(),
    }
}

/// The cards of hands, from memory or else from a record.
#[derive(Debug)]
pub struct AppRoomShowdownInputProvider {
    inner: InMemoryShowdownInputProvider,
}

/// Whether cards come from a record: one of this room that can be read.
pub open spec fn comes_from_record(
    record: Option<SettlementShowdownInputRecord>,
    room_id: RoomId,
    found: Result<Option<ShowdownInput>, String>,
) -> bool {
    match record {
        None => found is Ok && found->Ok_0 is None,
        Some(record) => if record.room_id != room_id {
            found is Ok && found->Ok_0 is None
        } else {
            match showdown_fault(
                record.board_cards@,
                recorded_seats(record.revealed_hole_cards@),
                persisted_texts(),
            ) {
                Some(fault) => found is Err && found->Err_0@ == fault,
                None => found is Ok && found->Ok_0 is Some && is_showdown_of(
                    found->Ok_0->0@,
                    record.board_cards@,
                    recorded_seats(record.revealed_hole_cards@),
                ),
            }
        },
    }
}

impl AppRoomShowdownInputProvider {
    pub closed spec fn memory(self) -> InMemoryShowdownInputProvider {
        self.inner
    }

    pub fn new() -> (provider: AppRoomShowdownInputProvider)
        ensures
            provider.memory().inputs().len() == 0,
            provider.memory().addresses().len() == 0,
    {
        AppRoomShowdownInputProvider { inner: InMemoryShowdownInputProvider::new() }
    }

    /// Keeps the cards of a hand, and hands out the record that is to be written of them.
    pub fn upsert_showdown_input(
        &mut self,
        room_id: RoomId,
        hand_id: HandId,
        input: ShowdownInput,
    ) -> (record: SettlementShowdownInputRecord)
        requires
            shows_cards(input@),
        ensures
            final(self).memory().inputs() == upserted(
                old(self).memory().inputs(),
                RoomHand { room_id: room_id, hand_id: hand_id },
                input,
            ),
            final(self).memory().addresses() == old(self).memory().addresses(),
            record.room_id == room_id,
            record.hand_id == hand_id,
            record.source@ == "admin_ops_http"@,
            is_time_ordered(record.trace_id.0),
            records_showdown(
                input@,
                record.board_cards@,
                recorded_seats(record.revealed_hole_cards@),
            ),
    {
        let record = showdown_input_to_record(room_id, hand_id, &input);
        self.inner.upsert_showdown_input(room_id, hand_id, input);
        record
    }

    /// The cards of a hand: those in memory, or else those of the record that was found, which
    /// are then kept in memory too.
    pub fn get_showdown_input(
        &mut self,
        room_id: RoomId,
        hand_id: HandId,
        record: &Option<SettlementShowdownInputRecord>,
    ) -> (found: Result<Option<ShowdownInput>, String>)
        ensures
            final(self).memory().addresses() == old(self).memory().addresses(),
            match lookup(
                old(self).memory().inputs(),
                RoomHand { room_id: room_id, hand_id: hand_id },
            ) {
                Some(known) => {
                    &&& found is Ok
                    &&& found->Ok_0 is Some
                    &&& found->Ok_0->0@ == known@
                    &&& final(self).memory().inputs() == old(self).memory().inputs()
                },
                None => {
                    &&& comes_from_record(*record, room_id, found)
                    &&& found is Ok && found->Ok_0 is Some ==> exists|kept: ShowdownInput|
                        {
                            &&& kept@ == found->Ok_0->0@
                            &&& final(self).memory().inputs() == #[trigger] upserted(
                                old(self).memory().inputs(),
                                RoomHand { room_id: room_id, hand_id: hand_id },
                                kept,
                            )
                        }
                    &&& !(found is Ok && found->Ok_0 is Some) ==> final(self).memory().inputs()
                        == old(self).memory().inputs()
                },
            },
    {
        match self.inner.get_showdown_input(room_id, hand_id) {
            Some(known) => {
                return Ok(Some(known.clone()));
            },
            None => {},
        }
        match record {
            None => Ok(None),
            Some(record) => {
                if record.room_id != room_id {
                    return Ok(None);
                }
                match showdown_input_from_record(record) {
                    Err(fault) => Err(fault),
                    Ok(input) => {
                        let kept = input.clone();
                        self.inner.upsert_showdown_input(room_id, hand_id, kept);
                        Ok(Some(input))
                    },
                }
            },
        }
    }

    /// The addresses that the seats of a hand are paid at, in the order of the seats: those that
    /// were given for the hand, or else those that the seats are tied to.
    pub fn get_settlement_seat_addresses(
        &self,
        rooms: &AppRoomService,
        room_id: RoomId,
        hand_id: HandId,
    ) -> (addresses: Vec<(SeatId, String)>)
        ensures
            addresses@ == ({
                let given = given_addresses(
                    lookup(
                        self.memory().addresses(),
                        RoomHand { room_id: room_id, hand_id: hand_id },
                    ),
                );
                if given.len() > 0 {
                    given
                } else {
                    bound_below(rooms.addresses(), room_id, 256)
                }
            }),
    {
        broadcast use vstd::std_specs::hash::group_hash_axioms;

        let found = self.inner.get_settlement_seat_addresses(room_id, hand_id);
        match found {
            Some(given) => {
                let mut addresses: Vec<(SeatId, String)> = Vec::new();
                let mut next: u16 = 0;
                while next < 256
                    invariant
                        next <= 256,
                        addresses@ == addresses_below(given@, next as nat),
                    decreases 256 - next,
                {
                    broadcast use vstd::std_specs::hash::group_hash_axioms;

                    let seat_id: u8 = next as u8;
                    match given.get(&seat_id) {
                        Some(address) => {
                            addresses.push((seat_id, address.clone()));
                        },
                        None => {},
                    }
                    next = next + 1;
                }
                if addresses.len() > 0 {
                    return addresses;
                }
            },
            None => {},
        }
        rooms.bound_seat_addresses(room_id)
    }
}

} // verus!
