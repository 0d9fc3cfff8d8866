//! Cards: their colours and kinds, and the rule that says which card may be
//! laid on which.

use vstd::prelude::*;

verus! {

/// One of the four suit colours.
#[derive(Clone, Copy, Debug, PartialEq, Eq, Structural)]
pub enum Color {
    Red,
    Blue,
    Green,
    Yellow,
}

/// What a card does when it is played.
#[derive(Clone, Copy, Debug, PartialEq, Eq, Structural)]
pub enum CardKind {
    Zero,
    One,
    Two,
    Three,
    Four,
    Five,
    Six,
    Seven,
    Eight,
    Nine,
    Skip,
    Reverse,
    DrawTwo,
    DrawFour,
    Wild,
}

/// A single card. `color` is `None` for a colourless card.
#[derive(Clone, Copy, Debug, PartialEq, Eq, Structural)]
pub struct Card {
    pub color: Option<Color>,
    pub kind: CardKind,
}

impl CardKind {
    /// The two kinds that are printed without a colour.
    pub open spec fn is_wild_family(self) -> bool {
        self == CardKind::Wild || self == CardKind::DrawFour
    }

    /// How many cards the next player is forced to draw when this kind is played.
    pub open spec fn forced_draw(self) -> nat {
        match self {
            CardKind::DrawTwo => 2,
            CardKind::DrawFour => 4,
            _ => 0,
        }
    }

    /// Whether the kind is printed without a colour.
    pub fn wild_family(self) -> (r: bool)
        ensures
            r == self.is_wild_family(),
    {
        match self {
            CardKind::Wild | CardKind::DrawFour => true,
            _ => false,
        }
    }

    /// How many cards the next player is forced to draw when this kind is
    /// played.
    pub fn forced_cards(self) -> (n: usize)
        ensures
            n == self.forced_draw(),
    {
        match self {
            CardKind::DrawTwo => 2,
            CardKind::DrawFour => 4,
            _ => 0,
        }
    }
}

impl Card {
    /// A card as it is printed: wild-family cards have no colour, all others have one.
    pub open spec fn printed(self) -> bool {
        self.color is None <==> self.kind.is_wild_family()
    }

    /// `proposed` may be laid on `self`: either card is colourless, or the two
    /// share a colour or a kind.
    pub open spec fn accepts(self, proposed: Card) -> bool {
        ||| proposed.color is None
        ||| self.color is None
        ||| proposed.color == self.color
        ||| proposed.kind == self.kind
    }

    /// The card of this colour and kind.
    pub fn new(color: Option<Color>, kind: CardKind) -> (c: Card)
        ensures
            c == (Card { color, kind }),
    {
        Card { color, kind }
    }
}

/// Legality of laying `proposed` on `current`. Only the two cards are consulted.
pub fn matches(current: Card, proposed: Card) -> (ok: bool)
    ensures
        ok == current.accepts(proposed),
{
    if proposed.color.is_none() || current.color.is_none() {
        true
    } else {
        proposed.color == current.color || proposed.kind == current.kind
    }
}

/// Every card may be laid on itself.
pub proof fn lemma_matches_reflexive(c: Card)
    ensures
        c.accepts(c),
{
}

/// A colourless card on either side makes the pair legal.
pub proof fn lemma_matches_colorless(current: Card, proposed: Card)
    requires
        current.color is None || proposed.color is None,
    ensures
        current.accepts(proposed),
{
}

} // verus!
