//! Turn order: the direction of play and whose turn follows a played card.

use crate::card::CardKind;
use vstd::arithmetic::div_mod::{
    lemma_add_mod_noop, lemma_mod_multiples_vanish, lemma_mod_self_0, lemma_mod_twice,
    lemma_small_mod,
};
use vstd::prelude::*;

verus! {

/// The direction in which the turn passes round the table.
#[derive(Clone, Copy, Debug, PartialEq, Eq, Structural)]
pub enum Direction {
    Forward,
    Backward,
}

impl Direction {
    /// The change of seat that one step in this direction makes.
    pub open spec fn delta(self) -> int {
        match self {
            Direction::Forward => 1,
            Direction::Backward => -1,
        }
    }

    /// The opposite direction.
    pub open spec fn flipped(self) -> Direction {
        match self {
            Direction::Forward => Direction::Backward,
            Direction::Backward => Direction::Forward,
        }
    }

    /// The opposite direction.
    pub fn flip(self) -> (d: Direction)
        ensures
            d == self.flipped(),
    {
        match self {
            Direction::Forward => Direction::Backward,
            Direction::Backward => Direction::Forward,
        }
    }
}

/// The seat reached from `seat` by moving `offset` places round a table of
/// `seats` seats.
pub open spec fn seat_after(seat: int, offset: int, seats: int) -> int {
    (seat + offset) % seats
}

/// Whether a card of this kind passes over the next player. A skip or a
/// forced draw does; with two players a reverse does the same.
pub open spec fn passes_over(kind: CardKind, seats: int) -> bool {
    match kind {
        CardKind::Skip | CardKind::DrawTwo | CardKind::DrawFour => true,
        CardKind::Reverse => seats == 2,
        _ => false,
    }
}

/// The direction of play once a card of this kind has been played.
pub open spec fn direction_after(kind: CardKind, direction: Direction) -> Direction {
    if kind == CardKind::Reverse {
        direction.flipped()
    } else {
        direction
    }
}

/// The seat whose turn it is once the player at `active` has played a card of
/// this kind.
pub open spec fn turn_after(active: int, direction: Direction, kind: CardKind, seats: int) -> int {
    let delta = direction_after(kind, direction).delta();
    seat_after(active, if passes_over(kind, seats) { 2 * delta } else { delta }, seats)
}

/// The seat next to `active` in the direction of play: the player who takes
/// the cards of a forced draw.
pub open spec fn neighbour(active: int, direction: Direction, seats: int) -> int {
    seat_after(active, direction.delta(), seats)
}

/// One place round the table.
pub fn step(seat: usize, direction: Direction, seats: usize) -> (next: usize)
    requires
        seat < seats,
    ensures
        next == seat_after(seat as int, direction.delta(), seats as int),
        next < seats,
{
    match direction {
        Direction::Forward => {
            if seat + 1 == seats {
                proof {
                    lemma_mod_self_0(seats as int);
                }
                0
            } else {
                proof {
                    lemma_small_mod((seat + 1) as nat, seats as nat);
                }
                seat + 1
            }
        },
        Direction::Backward => {
            if seat == 0 {
                proof {
                    lemma_mod_multiples_vanish(-1, seats as int - 1, seats as int);
                    lemma_small_mod((seats - 1) as nat, seats as nat);
                }
                seats - 1
            } else {
                proof {
                    lemma_small_mod((seat - 1) as nat, seats as nat);
                }
                seat - 1
            }
        },
    }
}

/// What follows from a played card for the order of play.
#[derive(Clone, Copy, Debug, PartialEq, Eq, Structural)]
pub struct Resolution {
    /// Direction of play after the card.
    pub direction: Direction,
    /// Seat whose turn it is after the card.
    pub next_turn: usize,
    /// Seat that takes the forced cards, if the card forces any.
    pub victim: usize,
    /// Number of cards that `victim` must take.
    pub forced: usize,
}

/// Decides how a card of `kind`, played from seat `active`, changes the
/// direction of play, who must draw, and whose turn is next.
pub fn resolve(kind: CardKind, active: usize, direction: Direction, seats: usize) -> (r: Resolution)
    requires
        active < seats,
    ensures
        r.direction == direction_after(kind, direction),
        r.next_turn == turn_after(active as int, direction, kind, seats as int),
        r.victim == neighbour(active as int, direction, seats as int),
        r.forced == kind.forced_draw(),
        r.next_turn < seats,
        r.victim < seats,
{
    let victim = step(active, direction, seats);
    let after = match kind {
        CardKind::Reverse => direction.flip(),
        _ => direction,
    };
    let one = step(active, after, seats);
    let two_places = match kind {
        CardKind::Skip | CardKind::DrawTwo | CardKind::DrawFour => true,
        CardKind::Reverse => seats == 2,
        _ => false,
    };
    let next_turn = if two_places {
        proof {
            lemma_two_places(active as int, after.delta(), seats as int);
        }
        step(one, after, seats)
    } else {
        one
    };
    Resolution { direction: after, next_turn, victim, forced: kind.forced_cards() }
}

/// Two single places make one move of two places.
proof fn lemma_two_places(seat: int, delta: int, seats: int)
    requires
        0 < seats,
    ensures
        seat_after(seat_after(seat, delta, seats), delta, seats) == seat_after(seat, 2 * delta, seats),
{
    lemma_add_mod_noop(seat + delta, delta, seats);
    lemma_mod_twice(seat + delta, seats);
    lemma_add_mod_noop((seat + delta) % seats, delta, seats);
}

/// With two players, the player who lays a skip or a reverse is next again.
pub proof fn lemma_two_players_play_again(active: int, direction: Direction, kind: CardKind)
    requires
        0 <= active < 2,
        kind == CardKind::Skip || kind == CardKind::Reverse,
    ensures
        turn_after(active, direction, kind, 2) == active,
{
}

} // verus!
