use std::collections::VecDeque;
use uno_game::card::{Card, CardKind, Color};
use uno_game::deck::{
    build_full_deck, card_code, into_pile, is_complete, reshuffle, standard_deck, tally, CODES,
    DECK_SIZE,
};

const COLORS: [Option<Color>; 5] =
    [None, Some(Color::Red), Some(Color::Blue), Some(Color::Green), Some(Color::Yellow)];

const KINDS: [CardKind; 15] = [
    CardKind::Zero,
    CardKind::One,
    CardKind::Two,
    CardKind::Three,
    CardKind::Four,
    CardKind::Five,
    CardKind::Six,
    CardKind::Seven,
    CardKind::Eight,
    CardKind::Nine,
    CardKind::Skip,
    CardKind::Reverse,
    CardKind::DrawTwo,
    CardKind::DrawFour,
    CardKind::Wild,
];

fn count(cards: &[Card], card: Card) -> usize {
    cards.iter().filter(|c| **c == card).count()
}

#[test]
fn standard_deck_has_108_cards() {
    assert_eq!(DECK_SIZE, 108);
    assert_eq!(standard_deck().len(), 108);
}

#[test]
fn standard_deck_composition() {
    let deck = standard_deck();
    for color in [Color::Red, Color::Blue, Color::Green, Color::Yellow] {
        for kind in KINDS {
            let expected = match kind {
                CardKind::Zero => 1,
                CardKind::Wild | CardKind::DrawFour => 0,
                _ => 2,
            };
            assert_eq!(count(&deck, Card::new(Some(color), kind)), expected);
        }
    }
    for kind in KINDS {
        let expected = match kind {
            CardKind::Wild | CardKind::DrawFour => 4,
            _ => 0,
        };
        assert_eq!(count(&deck, Card::new(None, kind)), expected);
    }
}

#[test]
fn standard_deck_starts_with_the_red_suit() {
    let deck = standard_deck();
    assert_eq!(deck[0], Card::new(Some(Color::Red), CardKind::Zero));
    assert_eq!(deck[1], Card::new(Some(Color::Red), CardKind::One));
    assert_eq!(deck[2], Card::new(Some(Color::Red), CardKind::One));
    assert_eq!(deck[24], Card::new(Some(Color::Red), CardKind::DrawTwo));
    assert_eq!(deck[25], Card::new(Some(Color::Blue), CardKind::Zero));
    assert_eq!(deck[100], Card::new(None, CardKind::Wild));
    assert_eq!(deck[107], Card::new(None, CardKind::DrawFour));
}

#[test]
fn full_deck_is_complete() {
    let deck: Vec<Card> = build_full_deck().into_iter().collect();
    assert_eq!(deck.len(), 108);
    assert!(is_complete(&deck));
}

#[test]
fn full_deck_is_shuffled() {
    let standard = standard_deck();
    let first: Vec<Card> = build_full_deck().into_iter().collect();
    let second: Vec<Card> = build_full_deck().into_iter().collect();
    assert!(first != standard || second != standard);
    assert_ne!(first, second);
}

#[test]
fn reshuffle_keeps_the_cards() {
    let mut pile: VecDeque<Card> = into_pile(standard_deck());
    reshuffle(&mut pile);
    let after: Vec<Card> = pile.into_iter().collect();
    assert_eq!(after.len(), 108);
    assert!(is_complete(&after));
    assert_ne!(after, standard_deck());
}

#[test]
fn reshuffle_of_small_piles() {
    let mut empty: VecDeque<Card> = VecDeque::new();
    reshuffle(&mut empty);
    assert!(empty.is_empty());
    let only = Card::new(Some(Color::Green), CardKind::Seven);
    let mut one: VecDeque<Card> = into_pile(vec![only]);
    reshuffle(&mut one);
    assert_eq!(one.len(), 1);
    assert_eq!(one[0], only);
}

#[test]
fn into_pile_keeps_the_order() {
    let deck = standard_deck();
    let pile = into_pile(standard_deck());
    assert_eq!(pile.len(), deck.len());
    for i in 0..deck.len() {
        assert_eq!(pile[i], deck[i]);
    }
}

#[test]
fn incomplete_decks_are_recognised() {
    let mut missing = standard_deck();
    missing.pop();
    assert!(!is_complete(&missing));

    let mut swapped = standard_deck();
    swapped[0] = Card::new(Some(Color::Red), CardKind::One);
    assert!(!is_complete(&swapped));

    let mut extra = standard_deck();
    extra.push(Card::new(None, CardKind::Wild));
    assert!(!is_complete(&extra));

    let mut odd = standard_deck();
    odd[5] = Card::new(None, CardKind::Five);
    assert!(!is_complete(&odd));

    assert!(!is_complete(&Vec::new()));
}

#[test]
fn any_order_of_the_deck_is_complete() {
    let mut deck = standard_deck();
    deck.reverse();
    assert!(is_complete(&deck));
    deck.swap(3, 90);
    assert!(is_complete(&deck));
}

#[test]
fn codes_are_distinct_and_in_range() {
    assert_eq!(CODES, 75);
    let mut seen = vec![false; CODES];
    for color in COLORS {
        for kind in KINDS {
            let code = card_code(Card::new(color, kind));
            assert!(code < CODES);
            assert!(!seen[code]);
            seen[code] = true;
        }
    }
    assert_eq!(card_code(Card::new(None, CardKind::Zero)), 0);
    assert_eq!(card_code(Card::new(Some(Color::Red), CardKind::Zero)), 15);
    assert_eq!(card_code(Card::new(Some(Color::Yellow), CardKind::Wild)), 74);
}

#[test]
fn tally_counts_by_code() {
    let red_five = Card::new(Some(Color::Red), CardKind::Five);
    let wild = Card::new(None, CardKind::Wild);
    let counts = tally(&vec![red_five, wild, red_five]);
    assert_eq!(counts.len(), 75);
    assert_eq!(counts[card_code(red_five)], 2);
    assert_eq!(counts[card_code(wild)], 1);
    assert_eq!(counts.iter().sum::<usize>(), 3);
}

#[test]
fn matches_is_reflexive() {
    for color in COLORS {
        for kind in KINDS {
            let card = Card::new(color, kind);
            assert!(uno_game::card::matches(card, card));
        }
    }
}

#[test]
fn matches_when_either_card_is_colorless() {
    for color in COLORS {
        for kind in KINDS {
            let card = Card::new(color, kind);
            for wild_kind in [CardKind::Wild, CardKind::DrawFour] {
                let wild = Card::new(None, wild_kind);
                assert!(uno_game::card::matches(card, wild));
                assert!(uno_game::card::matches(wild, card));
            }
        }
    }
}

#[test]
fn matches_on_color_or_kind() {
    let red_five = Card::new(Some(Color::Red), CardKind::Five);
    assert!(uno_game::card::matches(red_five, Card::new(Some(Color::Red), CardKind::Skip)));
    assert!(uno_game::card::matches(red_five, Card::new(Some(Color::Blue), CardKind::Five)));
    assert!(!uno_game::card::matches(red_five, Card::new(Some(Color::Blue), CardKind::Six)));
    let blue_five = Card::new(Some(Color::Blue), CardKind::Five);
    assert!(!uno_game::card::matches(blue_five, Card::new(Some(Color::Green), CardKind::Three)));
}

#[test]
fn matches_agrees_with_the_rule_on_every_pair() {
    for c1 in COLORS {
        for k1 in KINDS {
            for c2 in COLORS {
                for k2 in KINDS {
                    let expected = c1.is_none() || c2.is_none() || c1 == c2 || k1 == k2;
                    assert_eq!(uno_game::card::matches(Card::new(c1, k1), Card::new(c2, k2)), expected);
                }
            }
        }
    }
}

#[test]
fn kinds_that_force_a_draw() {
    assert_eq!(CardKind::DrawTwo.forced_cards(), 2);
    assert_eq!(CardKind::DrawFour.forced_cards(), 4);
    assert_eq!(CardKind::Skip.forced_cards(), 0);
    assert_eq!(CardKind::Five.forced_cards(), 0);
    assert!(CardKind::Wild.wild_family());
    assert!(CardKind::DrawFour.wild_family());
    assert!(!CardKind::DrawTwo.wild_family());
}
