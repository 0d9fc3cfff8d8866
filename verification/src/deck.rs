//! The deck: its fixed composition, the canonical listing of its cards, and
//! shuffling.

use crate::card::{Card, CardKind, Color};
use std::collections::VecDeque;
use vstd::multiset::Multiset;
use vstd::prelude::*;

verus! {

/// Number of cards in a complete deck.
pub const DECK_SIZE: usize = 108;

/// Two copies of one coloured card.
pub open spec fn pair(color: Color, kind: CardKind) -> Seq<Card> {
    seq![Card { color: Some(color), kind }, Card { color: Some(color), kind }]
}

/// The cards of one colour: one zero, then two of every other coloured kind.
pub open spec fn suit(color: Color) -> Seq<Card> {
    seq![Card { color: Some(color), kind: CardKind::Zero }]
        + pair(color, CardKind::One)
        + pair(color, CardKind::Two)
        + pair(color, CardKind::Three)
        + pair(color, CardKind::Four)
        + pair(color, CardKind::Five)
        + pair(color, CardKind::Six)
        + pair(color, CardKind::Seven)
        + pair(color, CardKind::Eight)
        + pair(color, CardKind::Nine)
        + pair(color, CardKind::Skip)
        + pair(color, CardKind::Reverse)
        + pair(color, CardKind::DrawTwo)
}

/// Four copies of one colourless card.
pub open spec fn quad(kind: CardKind) -> Seq<Card> {
    seq![
        Card { color: None, kind },
        Card { color: None, kind },
        Card { color: None, kind },
        Card { color: None, kind },
    ]
}

/// The complete deck in its canonical order.
pub open spec fn standard_order() -> Seq<Card> {
    suit(Color::Red) + suit(Color::Blue) + suit(Color::Green) + suit(Color::Yellow)
        + quad(CardKind::Wild) + quad(CardKind::DrawFour)
}

/// The fixed composition of the deck, as a bag of cards.
pub open spec fn full_composition() -> Multiset<Card> {
    standard_order().to_multiset()
}

/// A sequence of cards that holds exactly the cards of a complete deck.
pub open spec fn is_full_deck(cards: Seq<Card>) -> bool {
    cards.to_multiset() == full_composition()
}

/// How many copies of `card` a complete deck holds.
pub open spec fn copies(card: Card) -> nat {
    match card.color {
        None => if card.kind.is_wild_family() { 4 } else { 0 },
        Some(_) => if card.kind.is_wild_family() {
            0
        } else if card.kind == CardKind::Zero {
            1
        } else {
            2
        },
    }
}

/// Appends two copies of one coloured card.
fn push_pair(deck: &mut Vec<Card>, color: Color, kind: CardKind)
    ensures
        final(deck)@ == old(deck)@ + pair(color, kind),
{
    deck.push(Card { color: Some(color), kind });
    deck.push(Card { color: Some(color), kind });
}

/// Appends the cards of one colour.
fn push_suit(deck: &mut Vec<Card>, color: Color)
    ensures
        final(deck)@ == old(deck)@ + suit(color),
{
    deck.push(Card { color: Some(color), kind: CardKind::Zero });
    push_pair(deck, color, CardKind::One);
    push_pair(deck, color, CardKind::Two);
    push_pair(deck, color, CardKind::Three);
    push_pair(deck, color, CardKind::Four);
    push_pair(deck, color, CardKind::Five);
    push_pair(deck, color, CardKind::Six);
    push_pair(deck, color, CardKind::Seven);
    push_pair(deck, color, CardKind::Eight);
    push_pair(deck, color, CardKind::Nine);
    push_pair(deck, color, CardKind::Skip);
    push_pair(deck, color, CardKind::Reverse);
    push_pair(deck, color, CardKind::DrawTwo);
}

/// Appends four copies of one colourless card.
fn push_quad(deck: &mut Vec<Card>, kind: CardKind)
    ensures
        final(deck)@ == old(deck)@ + quad(kind),
{
    deck.push(Card { color: None, kind });
    deck.push(Card { color: None, kind });
    deck.push(Card { color: None, kind });
    deck.push(Card { color: None, kind });
}

/// The complete deck, unshuffled, in its canonical order.
pub fn standard_deck() -> (deck: Vec<Card>)
    ensures
        deck@ == standard_order(),
        deck@.len() == DECK_SIZE,
{
    let mut deck: Vec<Card> = Vec::new();
    push_suit(&mut deck, Color::Red);
    push_suit(&mut deck, Color::Blue);
    push_suit(&mut deck, Color::Green);
    push_suit(&mut deck, Color::Yellow);
    push_quad(&mut deck, CardKind::Wild);
    push_quad(&mut deck, CardKind::DrawFour);
    deck
}

/// The generator of random numbers that `rand` keeps for each thread.
/// Nothing is known of what is inside.
#[verifier::external_type_specification]
#[verifier::external_body]
pub struct ExThreadRng(rand::rngs::ThreadRng);

/// Hands out the calling thread's generator, by `rand::thread_rng`. Nothing is
/// claimed of the generator. It is seeded from the operating system when a
/// thread first asks for it, and `rand` aborts that call if the seeding
/// fails.
#[verifier::external_body]
fn thread_generator() -> rand::rngs::ThreadRng {
    rand::thread_rng()
}

/// Shuffles the cards in place with `rand::seq::SliceRandom::shuffle`. The
/// shuffle does nothing but swap items of the slice, so the list holds the
/// same cards afterwards, each as often as before. Nothing is claimed of
/// their order.
#[verifier::external_body]
fn shuffle_cards(cards: &mut Vec<Card>, rng: &mut rand::rngs::ThreadRng)
    ensures
        final(cards)@.to_multiset() == old(cards)@.to_multiset(),
        final(cards)@.len() == old(cards)@.len(),
{
    rand::seq::SliceRandom::shuffle(cards.as_mut_slice(), rng);
}

/// Moves the cards of `cards` into a pile, the first card at the front.
pub fn into_pile(cards: Vec<Card>) -> (pile: VecDeque<Card>)
    ensures
        pile@ == cards@,
{
    let mut pile: VecDeque<Card> = VecDeque::new();
    let mut i: usize = 0;
    while i < cards.len()
        invariant
            i <= cards.len(),
            pile@ == cards@.take(i as int),
        decreases cards.len() - i,
    {
        pile.push_back(cards[i]);
        i = i + 1;
    }
    pile
}

/// Takes all cards off a pile, the front card first.
fn take_all(pile: &mut VecDeque<Card>) -> (cards: Vec<Card>)
    ensures
        cards@ == old(pile)@,
        final(pile)@.len() == 0,
{
    let ghost whole = pile@;
    let mut cards: Vec<Card> = Vec::new();
    while pile.len() > 0
        invariant
            cards@ + pile@ == whole,
        decreases pile.len(),
    {
        let ghost rest = pile@;
        let card = pile.pop_front().unwrap();
        cards.push(card);
        proof {
            assert(cards@ + pile@ =~= whole) by {
                assert(rest =~= seq![card] + pile@);
            }
        }
    }
    proof {
        assert(cards@ =~= cards@ + pile@);
    }
    cards
}

/// Randomises the order of an existing pile in place. No card is added, lost
/// or duplicated.
pub fn reshuffle(pile: &mut VecDeque<Card>)
    ensures
        final(pile)@.to_multiset() == old(pile)@.to_multiset(),
        final(pile)@.len() == old(pile)@.len(),
{
    let mut cards = take_all(pile);
    let mut rng = thread_generator();
    shuffle_cards(&mut cards, &mut rng);
    *pile = into_pile(cards);
}

/// A complete deck in random order.
pub fn build_full_deck() -> (deck: VecDeque<Card>)
    ensures
        is_full_deck(deck@),
        deck@.len() == DECK_SIZE,
{
    let mut deck = standard_deck();
    let mut rng = thread_generator();
    shuffle_cards(&mut deck, &mut rng);
    into_pile(deck)
}

/// Number of distinct colour and kind combinations.
pub const CODES: usize = 75;

/// The number of a colour; colourless is zero.
pub open spec fn color_code(color: Option<Color>) -> int {
    match color {
        None => 0,
        Some(Color::Red) => 1,
        Some(Color::Blue) => 2,
        Some(Color::Green) => 3,
        Some(Color::Yellow) => 4,
    }
}

/// The number of a kind.
pub open spec fn kind_code(kind: CardKind) -> int {
    match kind {
        CardKind::Zero => 0,
        CardKind::One => 1,
        CardKind::Two => 2,
        CardKind::Three => 3,
        CardKind::Four => 4,
        CardKind::Five => 5,
        CardKind::Six => 6,
        CardKind::Seven => 7,
        CardKind::Eight => 8,
        CardKind::Nine => 9,
        CardKind::Skip => 10,
        CardKind::Reverse => 11,
        CardKind::DrawTwo => 12,
        CardKind::DrawFour => 13,
        CardKind::Wild => 14,
    }
}

/// A number below `CODES` that identifies the card.
pub open spec fn code(card: Card) -> int {
    color_code(card.color) * 15 + kind_code(card.kind)
}

/// The colour with number `c`.
pub open spec fn color_of(c: int) -> Option<Color> {
    if c == 0 {
        None
    } else if c == 1 {
        Some(Color::Red)
    } else if c == 2 {
        Some(Color::Blue)
    } else if c == 3 {
        Some(Color::Green)
    } else {
        Some(Color::Yellow)
    }
}

/// The kind with number `k`.
pub open spec fn kind_of(k: int) -> CardKind {
    if k == 0 {
        CardKind::Zero
    } else if k == 1 {
        CardKind::One
    } else if k == 2 {
        CardKind::Two
    } else if k == 3 {
        CardKind::Three
    } else if k == 4 {
        CardKind::Four
    } else if k == 5 {
        CardKind::Five
    } else if k == 6 {
        CardKind::Six
    } else if k == 7 {
        CardKind::Seven
    } else if k == 8 {
        CardKind::Eight
    } else if k == 9 {
        CardKind::Nine
    } else if k == 10 {
        CardKind::Skip
    } else if k == 11 {
        CardKind::Reverse
    } else if k == 12 {
        CardKind::DrawTwo
    } else if k == 13 {
        CardKind::DrawFour
    } else {
        CardKind::Wild
    }
}

/// The card that `code` maps to `c`.
pub open spec fn card_of(c: int) -> Card {
    Card { color: color_of(c / 15), kind: kind_of(c % 15) }
}

/// `code` numbers the cards one to one onto the numbers below `CODES`.
pub proof fn lemma_code_bijective()
    ensures
        forall|card: Card| 0 <= #[trigger] code(card) < CODES && card_of(code(card)) == card,
        forall|c: int| 0 <= c < CODES ==> code(#[trigger] card_of(c)) == c,
{
}

/// The executable form of `code`.
pub fn card_code(card: Card) -> (c: usize)
    ensures
        c == code(card),
        c < CODES,
{
    let color: usize = match card.color {
        None => 0,
        Some(Color::Red) => 1,
        Some(Color::Blue) => 2,
        Some(Color::Green) => 3,
        Some(Color::Yellow) => 4,
    };
    let kind: usize = match card.kind {
        CardKind::Zero => 0,
        CardKind::One => 1,
        CardKind::Two => 2,
        CardKind::Three => 3,
        CardKind::Four => 4,
        CardKind::Five => 5,
        CardKind::Six => 6,
        CardKind::Seven => 7,
        CardKind::Eight => 8,
        CardKind::Nine => 9,
        CardKind::Skip => 10,
        CardKind::Reverse => 11,
        CardKind::DrawTwo => 12,
        CardKind::DrawFour => 13,
        CardKind::Wild => 14,
    };
    color * 15 + kind
}

/// The colour with the given number, counting the four colours from one.
pub fn color_from_code(c: usize) -> (color: Option<Color>)
    ensures
        color == if 1 <= c <= 4 {
            color_of(c as int)
        } else {
            None
        },
{
    if c == 1 {
        Some(Color::Red)
    } else if c == 2 {
        Some(Color::Blue)
    } else if c == 3 {
        Some(Color::Green)
    } else if c == 4 {
        Some(Color::Yellow)
    } else {
        None
    }
}

/// The card with the given code, if the code is one.
pub fn card_from_code(c: usize) -> (card: Option<Card>)
    ensures
        card == if c < CODES {
            Some(card_of(c as int))
        } else {
            None
        },
        card matches Some(found) ==> code(found) == c,
{
    if c >= CODES {
        return None;
    }
    let k = c % 15;
    let kind = if k == 0 {
        CardKind::Zero
    } else if k == 1 {
        CardKind::One
    } else if k == 2 {
        CardKind::Two
    } else if k == 3 {
        CardKind::Three
    } else if k == 4 {
        CardKind::Four
    } else if k == 5 {
        CardKind::Five
    } else if k == 6 {
        CardKind::Six
    } else if k == 7 {
        CardKind::Seven
    } else if k == 8 {
        CardKind::Eight
    } else if k == 9 {
        CardKind::Nine
    } else if k == 10 {
        CardKind::Skip
    } else if k == 11 {
        CardKind::Reverse
    } else if k == 12 {
        CardKind::DrawTwo
    } else if k == 13 {
        CardKind::DrawFour
    } else {
        CardKind::Wild
    };
    proof {
        lemma_code_bijective();
    }
    Some(Card { color: color_from_code(c / 15), kind })
}

/// Counts the cards of a list by their code.
pub fn tally(cards: &Vec<Card>) -> (counts: Vec<usize>)
    ensures
        counts@.len() == CODES,
        forall|card: Card| counts@[#[trigger] code(card)] == cards@.to_multiset().count(card),
{
    let mut counts: Vec<usize> = Vec::new();
    let mut k: usize = 0;
    while k < CODES
        invariant
            k <= CODES,
            counts@.len() == k,
            forall|j: int| 0 <= j < k ==> counts@[j] == 0,
        decreases CODES - k,
    {
        counts.push(0);
        k = k + 1;
    }
    proof {
        lemma_code_bijective();
        assert(cards@.take(0) =~= Seq::<Card>::empty());
        Seq::<Card>::empty().to_multiset_ensures();
        vstd::multiset::lemma_multiset_empty_len(Seq::<Card>::empty().to_multiset());
    }
    let mut i: usize = 0;
    while i < cards.len()
        invariant
            i <= cards.len(),
            counts@.len() == CODES,
            forall|j: int| 0 <= j < CODES ==> counts@[j] <= i,
            forall|card: Card| counts@[#[trigger] code(card)] == cards@.take(i as int).to_multiset().count(card),
        decreases cards.len() - i,
    {
        let c = card_code(cards[i]);
        let ghost before = cards@.take(i as int);
        proof {
            lemma_code_bijective();
            assert(cards@.take(i + 1) == before.push(cards@[i as int]));
            vstd::seq_lib::to_multiset_build(before, cards@[i as int]);
        }
        let n = counts[c];
        counts.set(c, n + 1);
        i = i + 1;
    }
    proof {
        assert(cards@.take(cards@.len() as int) == cards@);
    }
    counts
}

/// Whether a list of cards holds exactly the cards of a complete deck, in any
/// order.
pub fn is_complete(cards: &Vec<Card>) -> (ok: bool)
    ensures
        ok == is_full_deck(cards@),
{
    let found = tally(cards);
    let standard = standard_deck();
    let wanted = tally(&standard);
    let mut k: usize = 0;
    while k < CODES
        invariant
            k <= CODES,
            found@.len() == CODES,
            wanted@.len() == CODES,
            forall|card: Card| found@[#[trigger] code(card)] == cards@.to_multiset().count(card),
            forall|card: Card| wanted@[#[trigger] code(card)] == full_composition().count(card),
            forall|j: int| 0 <= j < k ==> found@[j] == wanted@[j],
        decreases CODES - k,
    {
        if found[k] != wanted[k] {
            proof {
                lemma_code_bijective();
                assert(code(card_of(k as int)) == k);
            }
            return false;
        }
        k = k + 1;
    }
    proof {
        lemma_code_bijective();
        assert forall|card: Card|
            cards@.to_multiset().count(card) == full_composition().count(card) by {
            assert(found@[code(card)] == wanted@[code(card)]);
        }
        assert(cards@.to_multiset() =~= full_composition());
    }
    true
}

/// Counting in a list that is made of two is counting in each.
proof fn lemma_count_concat(a: Seq<Card>, b: Seq<Card>, card: Card)
    ensures
        (a + b).to_multiset().count(card) == a.to_multiset().count(card) + b.to_multiset().count(
            card,
        ),
{
    vstd::seq_lib::lemma_multiset_commutative(a, b);
}

/// A list of one card holds that card once and no other.
proof fn lemma_single_count(one: Card, card: Card)
    ensures
        seq![one].to_multiset().count(card) == if card == one { 1nat } else { 0nat },
{
    let e = Seq::<Card>::empty();
    e.to_multiset_ensures();
    vstd::multiset::lemma_multiset_empty_len(e.to_multiset());
    vstd::seq_lib::to_multiset_build(e, one);
}

/// A pair holds its card twice and no other.
proof fn lemma_pair_count(color: Color, kind: CardKind, card: Card)
    ensures
        pair(color, kind).to_multiset().count(card) == if card == (Card {
            color: Some(color),
            kind,
        }) { 2nat } else { 0nat },
{
    let one = Card { color: Some(color), kind };
    lemma_single_count(one, card);
    lemma_count_concat(seq![one], seq![one], card);
    assert(pair(color, kind) =~= seq![one] + seq![one]);
}

/// Four of a kind hold their card four times and no other.
proof fn lemma_quad_count(kind: CardKind, card: Card)
    ensures
        quad(kind).to_multiset().count(card) == if card == (Card { color: None, kind }) {
            4nat
        } else {
            0nat
        },
{
    let one = Card { color: None, kind };
    let two = seq![one] + seq![one];
    lemma_single_count(one, card);
    lemma_count_concat(seq![one], seq![one], card);
    lemma_count_concat(two, two, card);
    assert(quad(kind) =~= two + two);
}

/// A suit holds the cards of its colour as often as the deck does, and no
/// card of another colour.
proof fn lemma_suit_count(color: Color, card: Card)
    ensures
        suit(color).to_multiset().count(card) == if card.color == Some(color) {
            copies(card)
        } else {
            0nat
        },
{
    let s0 = seq![Card { color: Some(color), kind: CardKind::Zero }];
    let s1 = s0 + pair(color, CardKind::One);
    let s2 = s1 + pair(color, CardKind::Two);
    let s3 = s2 + pair(color, CardKind::Three);
    let s4 = s3 + pair(color, CardKind::Four);
    let s5 = s4 + pair(color, CardKind::Five);
    let s6 = s5 + pair(color, CardKind::Six);
    let s7 = s6 + pair(color, CardKind::Seven);
    let s8 = s7 + pair(color, CardKind::Eight);
    let s9 = s8 + pair(color, CardKind::Nine);
    let s10 = s9 + pair(color, CardKind::Skip);
    let s11 = s10 + pair(color, CardKind::Reverse);
    lemma_single_count(Card { color: Some(color), kind: CardKind::Zero }, card);
    lemma_pair_count(color, CardKind::One, card);
    lemma_pair_count(color, CardKind::Two, card);
    lemma_pair_count(color, CardKind::Three, card);
    lemma_pair_count(color, CardKind::Four, card);
    lemma_pair_count(color, CardKind::Five, card);
    lemma_pair_count(color, CardKind::Six, card);
    lemma_pair_count(color, CardKind::Seven, card);
    lemma_pair_count(color, CardKind::Eight, card);
    lemma_pair_count(color, CardKind::Nine, card);
    lemma_pair_count(color, CardKind::Skip, card);
    lemma_pair_count(color, CardKind::Reverse, card);
    lemma_pair_count(color, CardKind::DrawTwo, card);
    lemma_count_concat(s0, pair(color, CardKind::One), card);
    lemma_count_concat(s1, pair(color, CardKind::Two), card);
    lemma_count_concat(s2, pair(color, CardKind::Three), card);
    lemma_count_concat(s3, pair(color, CardKind::Four), card);
    lemma_count_concat(s4, pair(color, CardKind::Five), card);
    lemma_count_concat(s5, pair(color, CardKind::Six), card);
    lemma_count_concat(s6, pair(color, CardKind::Seven), card);
    lemma_count_concat(s7, pair(color, CardKind::Eight), card);
    lemma_count_concat(s8, pair(color, CardKind::Nine), card);
    lemma_count_concat(s9, pair(color, CardKind::Skip), card);
    lemma_count_concat(s10, pair(color, CardKind::Reverse), card);
    lemma_count_concat(s11, pair(color, CardKind::DrawTwo), card);
}

/// A complete deck holds every card exactly `copies` times.
pub proof fn lemma_composition_counts(card: Card)
    ensures
        full_composition().count(card) == copies(card),
{
    let r = suit(Color::Red);
    let rb = r + suit(Color::Blue);
    let rbg = rb + suit(Color::Green);
    let all = rbg + suit(Color::Yellow);
    let w = all + quad(CardKind::Wild);
    lemma_suit_count(Color::Red, card);
    lemma_suit_count(Color::Blue, card);
    lemma_suit_count(Color::Green, card);
    lemma_suit_count(Color::Yellow, card);
    lemma_quad_count(CardKind::Wild, card);
    lemma_quad_count(CardKind::DrawFour, card);
    lemma_count_concat(r, suit(Color::Blue), card);
    lemma_count_concat(rb, suit(Color::Green), card);
    lemma_count_concat(rbg, suit(Color::Yellow), card);
    lemma_count_concat(all, quad(CardKind::Wild), card);
    lemma_count_concat(w, quad(CardKind::DrawFour), card);
    match card.color {
        None => {},
        Some(Color::Red) => {},
        Some(Color::Blue) => {},
        Some(Color::Green) => {},
        Some(Color::Yellow) => {},
    }
}

/// Every card of a complete deck is colourless exactly when it belongs to the
/// wild family.
pub proof fn lemma_deck_cards_are_printed(card: Card)
    requires
        full_composition().count(card) > 0,
    ensures
        card.printed(),
{
    lemma_composition_counts(card);
}

/// A complete deck has `DECK_SIZE` cards.
pub proof fn lemma_composition_size()
    ensures
        full_composition().len() == DECK_SIZE,
        standard_order().len() == DECK_SIZE,
{
    standard_order().to_multiset_ensures();
}

} // verus!
