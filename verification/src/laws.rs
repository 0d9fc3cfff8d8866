//! Properties of the game that hold whatever the players do.

use crate::card::{Card, CardKind, Color};
use crate::game::{GameError, PlayerId};
use crate::state::{lemma_dealt_wf, lemma_join_wf, lemma_play_wf, GameView};
use vstd::prelude::*;

verus! {

/// One move as a player submits it.
pub struct Play {
    pub player: PlayerId,
    pub card: Card,
    pub chosen_color: Option<Color>,
}

/// The state after one submitted move: the move is carried out if it is
/// accepted, and changes nothing if it is refused.
pub open spec fn after_move(s: GameView, m: Play) -> GameView {
    if s.play_error(m.player, m.card, m.chosen_color) is None {
        s.after_play(m.player, m.card, m.chosen_color)
    } else {
        s
    }
}

/// The state after one request to draw `n` cards: the cards are dealt if the
/// request is accepted, and nothing changes if it is refused.
pub open spec fn after_draw_request(s: GameView, player: PlayerId, n: int) -> GameView {
    if s.draw_error(player, n) is None {
        s.after_draw(player, n)
    } else {
        s
    }
}

/// The state after one request to join: the player is seated and dealt a
/// hand if the request is accepted, and nothing changes if it is refused.
pub open spec fn after_join_request(s: GameView, name: Seq<char>) -> GameView {
    if s.join_error(name) is None {
        s.after_join(name)
    } else {
        s
    }
}

/// Something that is asked of the game.
pub enum Event {
    Join { name: Seq<char> },
    Draw { player: PlayerId, n: nat },
    Move(Play),
}

/// The state after one event.
pub open spec fn after_event(s: GameView, e: Event) -> GameView {
    match e {
        Event::Join { name } => after_join_request(s, name),
        Event::Draw { player, n } => after_draw_request(s, player, n as int),
        Event::Move(m) => after_move(s, m),
    }
}

/// The state after a series of events, taken in order.
pub open spec fn after_events(s: GameView, events: Seq<Event>) -> GameView
    decreases events.len(),
{
    if events.len() == 0 {
        s
    } else {
        after_event(after_events(s, events.drop_last()), events.last())
    }
}

/// Whatever is asked of the game, in whatever order, accepted or not: the
/// draw pile, the hands and the current card together hold exactly the cards
/// of the one deck. This holds in particular of every series of moves.
pub proof fn lemma_events_conserve_cards(s: GameView, events: Seq<Event>)
    requires
        s.wf(),
    ensures
        after_events(s, events).wf(),
        after_events(s, events).conserved(),
    decreases events.len(),
{
    if events.len() > 0 {
        lemma_events_conserve_cards(s, events.drop_last());
        let before = after_events(s, events.drop_last());
        match events.last() {
            Event::Join { name } => {
                if before.join_error(name) is None {
                    lemma_join_wf(before, name);
                }
            },
            Event::Draw { player, n } => {
                if before.draw_error(player, n as int) is None && n > 0 {
                    lemma_dealt_wf(before, player.0 as int, n as int);
                }
            },
            Event::Move(m) => {
                if before.play_error(m.player, m.card, m.chosen_color) is None {
                    lemma_play_wf(before, m.player, m.card, m.chosen_color);
                }
            },
        }
    }
}

/// A move from anyone but the player whose turn it is is refused as out of
/// turn, whatever the card, and leaves the state as it was.
pub proof fn lemma_out_of_turn_is_refused(s: GameView, m: Play)
    requires
        !s.is_turn_of(m.player),
    ensures
        s.play_error(m.player, m.card, m.chosen_color) == Some(GameError::NotYourTurn),
        after_move(s, m) == s,
{
}

/// With two players, an accepted skip or reverse gives the turn back to the
/// player who laid it.
pub proof fn lemma_two_players_turn_returns(s: GameView, m: Play)
    requires
        s.wf(),
        s.players.len() == 2,
        s.play_error(m.player, m.card, m.chosen_color) is None,
        m.card.kind == CardKind::Skip || m.card.kind == CardKind::Reverse,
    ensures
        after_move(s, m).active_turn == s.active_turn,
        after_move(s, m).is_turn_of(m.player),
{
    crate::turn::lemma_two_players_play_again(m.player.0 as int, s.direction, m.card.kind);
    lemma_play_wf(s, m.player, m.card, m.chosen_color);
}

/// Drawing no card is accepted for anyone, hands out nothing and changes
/// nothing.
pub proof fn lemma_draw_nothing(s: GameView, player: PlayerId)
    ensures
        s.draw_error(player, 0) is None,
        after_draw_request(s, player, 0) == s,
        s.draw_pile.take(0) == Seq::<Card>::empty(),
{
}

/// The cards that are in no hand: the draw pile and the current card.
pub open spec fn cards_outside_hands(s: GameView) -> nat {
    s.draw_pile.len() + 1
}

/// A request for more cards than there are outside the hands is refused as
/// exhausting the deck, and changes nothing.
pub proof fn lemma_draw_too_many(s: GameView, player: PlayerId, n: int)
    requires
        n > cards_outside_hands(s),
    ensures
        s.draw_error(player, n) == Some(GameError::DeckExhausted),
        after_draw_request(s, player, n) == s,
{
}

} // verus!
