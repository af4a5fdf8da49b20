//! Cards as texts.
use vstd::prelude::*;
use vstd::string::StringExecFns;

use crate::engine::state::Card;

verus! {

/// The value that a letter or digit stands for, from two to ace.
pub open spec fn card_value(c: char) -> Option<int> {
    if '2' <= c && c <= '9' {
        Some(c as u32 - '2' as u32)
    } else if c == 'T' || c == 't' {
        Some(8)
    } else if c == 'J' || c == 'j' {
        Some(9)
    } else if c == 'Q' || c == 'q' {
        Some(10)
    } else if c == 'K' || c == 'k' {
        Some(11)
    } else if c == 'A' || c == 'a' {
        Some(12)
    } else {
        None
    }
}

/// The suit that a letter stands for: spades, clubs, hearts, diamonds.
pub open spec fn card_suit(c: char) -> Option<int> {
    if c == 'S' || c == 's' {
        Some(0)
    } else if c == 'C' || c == 'c' {
        Some(1)
    } else if c == 'H' || c == 'h' {
        Some(2)
    } else if c == 'D' || c == 'd' {
        Some(3)
    } else {
        None
    }
}

/// The letter or digit of a value.
pub open spec fn value_char(value: int) -> char {
    if value < 8 {
        ('2' as u32 + value) as char
    } else if value == 8 {
        'T'
    } else if value == 9 {
        'J'
    } else if value == 10 {
        'Q'
    } else if value == 11 {
        'K'
    } else {
        'A'
    }
}

/// The letter of a suit.
pub open spec fn suit_char(suit: int) -> char {
    if suit == 0 {
        's'
    } else if suit == 1 {
        'c'
    } else if suit == 2 {
        'h'
    } else {
        'd'
    }
}

/// The text of a card: its value and its suit.
pub open spec fn card_text(card: Card) -> Seq<char> {
    seq![value_char(card as int % 13), suit_char(card as int / 13)]
}

/// What is wrong with the text of some cards.
pub ghost enum CardsFault {
    Value,
    Suit,
    Twice(Card),
}

impl CardsFault {
    pub open spec fn message(self) -> Seq<char> {
        match self {
            CardsFault::Value => "Unable to parse value"@,
            CardsFault::Suit => "Unable to parse suit"@,
            CardsFault::Twice(card) => "Card already added to hand "@ + card_text(card),
        }
    }
}

/// The card that stands at place `k` of a text, two characters to a card.
pub open spec fn card_at(text: Seq<char>, k: int) -> Result<Card, CardsFault> {
    match card_value(text[2 * k]) {
        None => Err(CardsFault::Value),
        Some(value) => if 2 * k + 1 < text.len() && card_suit(text[2 * k + 1]) is Some {
            Ok((card_suit(text[2 * k + 1])->0 * 13 + value) as u8)
        } else {
            Err(CardsFault::Suit)
        },
    }
}

/// The number of cards in a text; a character without a second one counts as a card.
pub open spec fn cards_in(text: Seq<char>) -> int {
    (text.len() as int + 1) / 2
}

/// Whether a card is one of the first `count` in a text.
pub open spec fn holds_card(text: Seq<char>, count: int, card: Card) -> bool {
    exists|k: int| 0 <= k < count && #[trigger] card_at(text, k) == Ok::<Card, CardsFault>(card)
}

/// What is wrong with the first of the first `count` cards that something is wrong with.
pub open spec fn cards_fault(text: Seq<char>, count: int) -> Option<CardsFault>
    decreases count,
{
    if count <= 0 {
        None
    } else {
        match cards_fault(text, count - 1) {
            Some(fault) => Some(fault),
            None => match card_at(text, count - 1) {
                Err(fault) => Some(fault),
                Ok(card) => if holds_card(text, count - 1, card) {
                    Some(CardsFault::Twice(card))
                } else {
                    None
                },
            },
        }
    }
}

/// Whether a card comes before another: by value, then by suit.
pub open spec fn card_before(a: Card, b: Card) -> bool {
    a % 13 < b % 13 || (a % 13 == b % 13 && a < b)
}

/// Whether cards are the cards of a text, in their order.
pub open spec fn are_cards_of(cards: Seq<Card>, text: Seq<char>) -> bool {
    &&& cards.len() == cards_in(text)
    &&& forall|card: Card| #[trigger] cards.contains(card) <==> holds_card(text, cards_in(text), card)
    &&& forall|i: int, j: int|
        #![trigger cards[i], cards[j]]
        0 <= i < j < cards.len() ==> card_before(cards[i], cards[j])
    &&& forall|i: int| 0 <= i < cards.len() ==> #[trigger] cards[i] < 52
}

/// Reads cards with `rs_poker::core::FlatHand::new_from_str`: two characters to a card, in
/// capital or small letters, each card once. The cards are claimed to come in their order, and
/// a fault to be that of the first card that has one.
#[verifier::external_body]
fn read_cards(text: &str) -> (read: Result<Vec<Card>, String>)
    ensures
        read is Ok <==> cards_fault(text@, cards_in(text@)) is None,
        read is Ok ==> are_cards_of(read->Ok_0@, text@),
        read is Err ==> read->Err_0@ == cards_fault(text@, cards_in(text@))->0.message(),
{
    match rs_poker::core::FlatHand::new_from_str(text) {
        Ok(hand) => Ok(hand.iter().copied().map(u8::from).collect()),
        Err(error) => Err(error.to_string()),
    }
}

/// Writes a card with the `Display` of `rs_poker::core::Card`: its value, then its suit.
#[verifier::external_body]
fn write_card(card: Card) -> (text: String)
    requires
        card < 52,
    ensures
        text@ == card_text(card),
{
    rs_poker::core::Card::from(card).to_string()
}

/// The cards that a text names, in their order, or what is wrong with the text.
pub fn parse_cards(text: &str) -> (read: Result<Vec<Card>, String>)
    ensures
        read is Ok <==> cards_fault(text@, cards_in(text@)) is None,
        read is Ok ==> are_cards_of(read->Ok_0@, text@),
        read is Err ==> read->Err_0@ == cards_fault(text@, cards_in(text@))->0.message(),
{
    read_cards(text)
}

/// The texts of the first `count` cards, one behind the other.
pub open spec fn cards_text(cards: Seq<Card>, count: nat) -> Seq<char>
    decreases count,
{
    if count == 0 {
        Seq::empty()
    } else {
        cards_text(cards, (count - 1) as nat) + card_text(cards[count - 1])
    }
}

/// Whether these are cards of the deck.
pub open spec fn are_cards(cards: Seq<Card>) -> bool {
    forall|i: int| 0 <= i < cards.len() ==> #[trigger] cards[i] < 52
}

/// The text of some cards, without anything between them.
pub fn cards_to_compact_string(cards: &Vec<Card>) -> (text: String)
    requires
        are_cards(cards@),
    ensures
        text@ == cards_text(cards@, cards@.len()),
{
    let mut text = String::new();
    let mut i: usize = 0;
    while i < cards.len()
        invariant
            i <= cards.len(),
            are_cards(cards@),
            text@ == cards_text(cards@, i as nat),
        decreases cards.len() - i,
    {
        text.append(write_card(cards[i]).as_str());
        i = i + 1;
    }
    text
}

proof fn lemma_cards_text(cards: Seq<Card>, count: nat)
    requires
        are_cards(cards),
        count <= cards.len(),
    ensures
        cards_text(cards, count).len() == 2 * count,
        forall|k: int|
            #![trigger cards[k]]
            0 <= k < count ==> cards_text(cards, count)[2 * k] == value_char(cards[k] as int % 13)
                && cards_text(cards, count)[2 * k + 1] == suit_char(cards[k] as int / 13),
    decreases count,
{
    if count > 0 {
        lemma_cards_text(cards, (count - 1) as nat);
        let front = cards_text(cards, (count - 1) as nat);
        assert forall|k: int|
            #![trigger cards[k]]
            0 <= k < count implies cards_text(cards, count)[2 * k] == value_char(
            cards[k] as int % 13,
        ) && cards_text(cards, count)[2 * k + 1] == suit_char(cards[k] as int / 13) by {
            if k < count - 1 {
                assert(front[2 * k] == value_char(cards[k] as int % 13));
            }
        }
    }
}

/// Each card in the text of some cards is the card that was written there.
pub proof fn written_cards_are_found(cards: Seq<Card>, k: int)
    requires
        are_cards(cards),
        0 <= k < cards.len(),
    ensures
        cards_in(cards_text(cards, cards.len())) == cards.len(),
        card_at(cards_text(cards, cards.len()), k) == Ok::<Card, CardsFault>(cards[k]),
{
    lemma_cards_text(cards, cards.len());
    let card = cards[k];
    assert(card < 52);
    assert(card_value(value_char(card as int % 13)) == Some(card as int % 13));
    assert(card_suit(suit_char(card as int / 13)) == Some(card as int / 13));
}

/// The text of different cards is read as those cards.
pub proof fn different_cards_read_back(cards: Seq<Card>)
    requires
        are_cards(cards),
        cards.no_duplicates(),
    ensures
        cards_fault(cards_text(cards, cards.len()), cards_in(cards_text(cards, cards.len()))) is None,
        forall|read: Seq<Card>, card: Card|
            are_cards_of(read, cards_text(cards, cards.len())) ==> (#[trigger] read.contains(card)
                <==> #[trigger] cards.contains(card)),
{
    let text = cards_text(cards, cards.len());
    lemma_cards_text(cards, cards.len());
    assert forall|k: int| 0 <= k < cards.len() implies #[trigger] card_at(text, k) == Ok::<
        Card,
        CardsFault,
    >(cards[k]) by {
        written_cards_are_found(cards, k);
    }
    lemma_no_fault(text, cards, cards.len() as int);
    assert forall|read: Seq<Card>, card: Card| are_cards_of(read, text) implies (
    #[trigger] read.contains(card) <==> #[trigger] cards.contains(card)) by {
        if cards.contains(card) {
            let k = choose|k: int| 0 <= k < cards.len() && cards[k] == card;
            assert(card_at(text, k) == Ok::<Card, CardsFault>(card));
            assert(holds_card(text, cards_in(text), card));
        }
        if read.contains(card) {
            let k = choose|k: int|
                0 <= k < cards_in(text) && #[trigger] card_at(text, k) == Ok::<Card, CardsFault>(
                    card,
                );
            assert(cards[k] == card);
        }
    }
}

proof fn lemma_no_fault(text: Seq<char>, cards: Seq<Card>, count: int)
    requires
        0 <= count <= cards.len(),
        cards.no_duplicates(),
        forall|k: int|
            0 <= k < cards.len() ==> #[trigger] card_at(text, k) == Ok::<Card, CardsFault>(cards[k]),
    ensures
        cards_fault(text, count) is None,
    decreases count,
{
    if count > 0 {
        lemma_no_fault(text, cards, count - 1);
        let card = cards[count - 1];
        assert(card_at(text, count - 1) == Ok::<Card, CardsFault>(card));
        if holds_card(text, count - 1, card) {
            let k = choose|k: int|
                0 <= k < count - 1 && #[trigger] card_at(text, k) == Ok::<Card, CardsFault>(card);
            assert(cards[k] == cards[count - 1]);
        }
    }
}

} // verus!
