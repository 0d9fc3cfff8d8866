//! The shared game and the operations that are allowed to change it.
//!
//! A player keeps the seat taken at joining for the whole game. When a
//! player's connection is lost the game waits for that player: the seat and
//! the hand stay, and the turn does not pass on.

use crate::card::{Card, Color};
use crate::deck::{build_full_deck, into_pile, is_complete, is_full_deck};
use crate::state::{
    lemma_committed_wf, lemma_dealt_wf, lemma_hand_without, lemma_initial_wf, lemma_play_wf,
    lemma_with_player_wf, GameView, PlayerSummaryView, PlayerView, SnapshotView,
};
use crate::turn::{resolve, Direction};
use std::collections::VecDeque;
use vstd::prelude::*;

verus! {

/// Number of players that a game admits unless told otherwise.
pub const DEFAULT_MAX_PLAYERS: usize = 10;

/// Number of cards dealt to a player who joins.
pub const HAND_SIZE: usize = 7;

/// Identifies a player. The number is the seat taken at joining.
#[derive(Clone, Copy, Debug, PartialEq, Eq, Structural)]
pub struct PlayerId(pub usize);

/// Why an operation was refused. A refused operation changes nothing.
#[derive(Clone, Copy, Debug, PartialEq, Eq, Structural)]
pub enum GameError {
    /// The move came from a player whose turn it is not.
    NotYourTurn,
    /// The card may not be laid on the current card.
    IllegalCard,
    /// The player does not hold the card.
    CardNotHeld,
    /// A colourless card was played without naming a colour.
    MissingColor,
    /// The join request carried no usable name, or came at the wrong time.
    MalformedJoin,
    /// The game already has as many players as it admits.
    CapacityExceeded,
    /// The draw pile holds fewer cards than are needed.
    DeckExhausted,
    /// No player has this identifier.
    UnknownPlayer,
    /// The game has a winner; no further moves are taken.
    GameFinished,
    /// The cards handed over are not those of a complete deck.
    InvalidDeck,
}

impl GameError {
    /// The words in which the refusal is reported to the client.
    pub open spec fn text(self) -> Seq<char> {
        match self {
            GameError::NotYourTurn => "It is not your turn!"@,
            GameError::IllegalCard => "That card does not work on the current card!"@,
            GameError::CardNotHeld => "You do not hold that card!"@,
            GameError::MissingColor => "Name a colour for that card!"@,
            GameError::MalformedJoin => "Player not provided"@,
            GameError::CapacityExceeded => "The game is full"@,
            GameError::DeckExhausted => "The draw pile does not hold enough cards"@,
            GameError::UnknownPlayer => "There is no such player"@,
            GameError::GameFinished => "The game is over"@,
            GameError::InvalidDeck => "The cards are not those of a complete deck"@,
        }
    }

    /// The words in which the refusal is reported to the client.
    pub fn message(&self) -> (m: &'static str)
        ensures
            m@ == self.text(),
    {
        match self {
            GameError::NotYourTurn => "It is not your turn!",
            GameError::IllegalCard => "That card does not work on the current card!",
            GameError::CardNotHeld => "You do not hold that card!",
            GameError::MissingColor => "Name a colour for that card!",
            GameError::MalformedJoin => "Player not provided",
            GameError::CapacityExceeded => "The game is full",
            GameError::DeckExhausted => "The draw pile does not hold enough cards",
            GameError::UnknownPlayer => "There is no such player",
            GameError::GameFinished => "The game is over",
            GameError::InvalidDeck => "The cards are not those of a complete deck",
        }
    }
}

/// How the game stands after an accepted move.
#[derive(Clone, Copy, Debug, PartialEq, Eq, Structural)]
pub enum PlayOutcome {
    /// The game goes on.
    Continues,
    /// The player laid the last card of the hand and has won.
    GameOver(PlayerId),
}

/// A participant: identity, seat and the cards held.
struct Player {
    id: PlayerId,
    name: String,
    turn_index: usize,
    hand: Vec<Card>,
}

impl View for Player {
    type V = PlayerView;

    closed spec fn view(&self) -> PlayerView {
        PlayerView {
            id: self.id,
            name: self.name@,
            turn_index: self.turn_index as int,
            hand: self.hand@,
        }
    }
}

/// What the other clients may see of a player.
pub struct PlayerSummary {
    pub id: PlayerId,
    pub name: String,
    pub turn_index: usize,
    pub hand_size: usize,
}

impl View for PlayerSummary {
    type V = PlayerSummaryView;

    open spec fn view(&self) -> PlayerSummaryView {
        PlayerSummaryView {
            id: self.id,
            name: self.name@,
            turn_index: self.turn_index as int,
            hand_size: self.hand_size as int,
        }
    }
}

/// A copy of the public part of the game state, independent of the game it
/// was taken from.
pub struct Snapshot {
    pub players: Vec<PlayerSummary>,
    pub current_card: Card,
    pub active_color: Option<Color>,
    pub active_turn: usize,
    pub direction: Direction,
    pub draw_pile_size: usize,
    pub winner: Option<PlayerId>,
}

impl View for Snapshot {
    type V = SnapshotView;

    open spec fn view(&self) -> SnapshotView {
        SnapshotView {
            players: self.players@.map_values(|p: PlayerSummary| p@),
            current_card: self.current_card,
            active_color: self.active_color,
            active_turn: self.active_turn as int,
            direction: self.direction,
            draw_pile_size: self.draw_pile_size as int,
            winner: self.winner,
        }
    }
}

/// The game state: players, draw pile, current card and whose turn it is.
pub struct Game {
    players: Vec<Player>,
    draw_pile: VecDeque<Card>,
    current_card: Card,
    active_color: Option<Color>,
    active_turn: usize,
    direction: Direction,
    max_players: usize,
    winner: Option<PlayerId>,
}

impl View for Game {
    type V = GameView;

    closed spec fn view(&self) -> GameView {
        GameView {
            players: self.players@.map_values(|p: Player| p@),
            draw_pile: self.draw_pile@,
            current_card: self.current_card,
            active_color: self.active_color,
            active_turn: self.active_turn as int,
            direction: self.direction,
            max_players: self.max_players as int,
            winner: self.winner,
        }
    }
}

/// The index of the first card of `hand` that equals `card`.
pub fn find_card(hand: &Vec<Card>, card: Card) -> (r: Option<usize>)
    ensures
        match r {
            Some(i) => hand@.index_of_first(card) == Some(i as int),
            None => hand@.index_of_first(card) is None,
        },
{
    let mut i: usize = 0;
    while i < hand.len()
        invariant
            i <= hand.len(),
            forall|j: int| 0 <= j < i ==> hand@[j] != card,
        decreases hand.len() - i,
    {
        if hand[i] == card {
            proof {
                hand@.index_of_first_ensures(card);
            }
            return Some(i);
        }
        i = i + 1;
    }
    proof {
        hand@.index_of_first_ensures(card);
    }
    None
}

/// A copy of a list of cards.
fn copy_cards(cards: &Vec<Card>) -> (copy: Vec<Card>)
    ensures
        copy@ == cards@,
{
    let mut copy: Vec<Card> = Vec::new();
    let mut i: usize = 0;
    while i < cards.len()
        invariant
            i <= cards.len(),
            copy@ == cards@.take(i as int),
        decreases cards.len() - i,
    {
        copy.push(cards[i]);
        i = i + 1;
    }
    copy
}

impl Game {
    /// Starts a game on a complete deck: turns over the first card and
    /// keeps the others as the draw pile.
    fn start(pile: VecDeque<Card>, max_players: usize) -> (game: Game)
        requires
            is_full_deck(pile@),
        ensures
            game@ == GameView::initial(pile@, max_players as int),
            game@.wf(),
    {
        let mut pile = pile;
        proof {
            crate::deck::lemma_composition_size();
            pile@.to_multiset_ensures();
            lemma_initial_wf(pile@, max_players as int);
        }
        let current = pile.pop_front().unwrap();
        Game {
            players: Vec::new(),
            draw_pile: pile,
            current_card: current,
            active_color: current.color,
            active_turn: 0,
            direction: Direction::Forward,
            max_players,
            winner: None,
        }
    }

    /// A new game on a freshly shuffled deck that admits
    /// `DEFAULT_MAX_PLAYERS` players. The first card of the deck is turned
    /// over as the current card.
    pub fn new() -> (game: Game)
        ensures
            game@.wf(),
            is_full_deck(seq![game@.current_card] + game@.draw_pile),
            game@ == GameView::initial(
                seq![game@.current_card] + game@.draw_pile,
                DEFAULT_MAX_PLAYERS as int,
            ),
    {
        Game::with_max_players(DEFAULT_MAX_PLAYERS)
    }

    /// A new game on a freshly shuffled deck that admits `max_players`
    /// players.
    pub fn with_max_players(max_players: usize) -> (game: Game)
        ensures
            game@.wf(),
            is_full_deck(seq![game@.current_card] + game@.draw_pile),
            game@ == GameView::initial(
                seq![game@.current_card] + game@.draw_pile,
                max_players as int,
            ),
    {
        let deck = build_full_deck();
        let game = Game::start(deck, max_players);
        proof {
            assert(seq![game@.current_card] + game@.draw_pile =~= deck@);
        }
        game
    }

    /// A new game on the given deck, in the given order: the first card is
    /// turned over, the others are the draw pile. Refused unless the cards
    /// are exactly those of a complete deck.
    pub fn from_deck(deck: Vec<Card>, max_players: usize) -> (r: Result<Game, GameError>)
        ensures
            match r {
                Ok(game) => is_full_deck(deck@) && game@.wf() && game@ == GameView::initial(
                    deck@,
                    max_players as int,
                ),
                Err(e) => !is_full_deck(deck@) && e == GameError::InvalidDeck,
            },
    {
        if is_complete(&deck) {
            Ok(Game::start(into_pile(deck), max_players))
        } else {
            Err(GameError::InvalidDeck)
        }
    }

    /// Admits a player under `name` at the next free seat, with an empty
    /// hand. Refused when the game is full.
    pub fn add_player(&mut self, name: String) -> (r: Result<PlayerId, GameError>)
        requires
            old(self)@.wf(),
        ensures
            final(self)@.wf(),
            match r {
                Ok(id) => {
                    &&& old(self)@.players.len() < old(self)@.max_players
                    &&& id == PlayerId(old(self)@.players.len() as usize)
                    &&& final(self)@ == old(self)@.with_player(name@)
                },
                Err(e) => {
                    &&& e == GameError::CapacityExceeded
                    &&& old(self)@.players.len() >= old(self)@.max_players
                    &&& final(self)@ == old(self)@
                },
            },
    {
        let seat = self.players.len();
        if seat >= self.max_players {
            return Err(GameError::CapacityExceeded);
        }
        let id = PlayerId(seat);
        let ghost before = self@;
        self.players.push(Player { id, name, turn_index: seat, hand: Vec::new() });
        proof {
            assert(self@ =~= before.with_player(name@));
            lemma_with_player_wf(before, name@);
        }
        Ok(id)
    }

    /// Moves the first `n` cards of the draw pile to the hand at `seat`.
    fn deal(&mut self, seat: usize, n: usize) -> (drawn: Vec<Card>)
        requires
            seat < old(self)@.players.len(),
            n <= old(self)@.draw_pile.len(),
        ensures
            final(self)@ == old(self)@.dealt(seat as int, n as int),
            drawn@ == old(self)@.draw_pile.take(n as int),
    {
        let ghost before = self@;
        let ghost hand = before.players[seat as int].hand;
        let mut drawn: Vec<Card> = Vec::new();
        let mut k: usize = 0;
        while k < n
            invariant
                k <= n <= before.draw_pile.len(),
                seat < before.players.len(),
                hand == before.players[seat as int].hand,
                drawn@ == before.draw_pile.take(k as int),
                self.players@.len() == before.players.len(),
                self@ == before.dealt(seat as int, k as int),
            decreases n - k,
        {
            let ghost now = self@;
            let card = self.draw_pile.pop_front().unwrap();
            self.players[seat].hand.push(card);
            drawn.push(card);
            k = k + 1;
            proof {
                let pile = before.draw_pile;
                let goal = before.dealt(seat as int, k as int);
                assert(pile.skip(k as int) =~= pile.skip(k - 1).subrange(
                    1,
                    pile.skip(k - 1).len() as int,
                ));
                assert(now.players[seat as int].hand == hand + pile.take(k - 1));
                assert forall|j: int| 0 <= j < goal.players.len() implies self@.players[j]
                    =~= goal.players[j] by {
                    if j != seat {
                        assert(self@.players[j] == now.players[j]);
                    }
                }
            }
        }
        drawn
    }

    /// Moves the first `n` cards of the draw pile to the player's hand and
    /// returns them in the order drawn. Drawing no card always succeeds and
    /// changes nothing. Refused when the pile holds fewer than `n` cards (the
    /// current card is never drawn), or when there is no such player.
    pub fn draw_cards(&mut self, player: PlayerId, n: usize) -> (r: Result<Vec<Card>, GameError>)
        requires
            old(self)@.wf(),
        ensures
            final(self)@.wf(),
            match r {
                Ok(drawn) => {
                    &&& old(self)@.draw_error(player, n as int) is None
                    &&& drawn@ == old(self)@.draw_pile.take(n as int)
                    &&& final(self)@ == old(self)@.after_draw(player, n as int)
                },
                Err(e) => {
                    &&& old(self)@.draw_error(player, n as int) == Some(e)
                    &&& final(self)@ == old(self)@
                },
            },
    {
        if n == 0 {
            return Ok(Vec::new());
        }
        if n > self.draw_pile.len() {
            return Err(GameError::DeckExhausted);
        }
        if player.0 >= self.players.len() {
            return Err(GameError::UnknownPlayer);
        }
        proof {
            lemma_dealt_wf(self@, player.0 as int, n as int);
        }
        Ok(self.deal(player.0, n))
    }

    /// Takes one move from a player. The move is checked and carried out in
    /// one step: the card must come from the player whose turn it is, name a
    /// colour if it has none, fit the current card and be in the hand. An
    /// accepted card becomes the current card, its effect is applied and the
    /// turn passes on. A refused move changes nothing.
    pub fn apply_play(
        &mut self,
        player: PlayerId,
        card: Card,
        chosen_color: Option<Color>,
    ) -> (r: Result<PlayOutcome, GameError>)
        requires
            old(self)@.wf(),
        ensures
            final(self)@.wf(),
            match r {
                Ok(outcome) => {
                    &&& old(self)@.play_error(player, card, chosen_color) is None
                    &&& final(self)@ == old(self)@.after_play(player, card, chosen_color)
                    &&& outcome == old(self)@.outcome_of(player, card)
                    &&& outcome == PlayOutcome::GameOver(player) <==> old(
                        self,
                    )@.players[player.0 as int].hand.len() == 1
                },
                Err(e) => {
                    &&& old(self)@.play_error(player, card, chosen_color) == Some(e)
                    &&& final(self)@ == old(self)@
                },
            },
    {
        let seat = player.0;
        let seats = self.players.len();
        if seat >= seats || seat != self.active_turn {
            return Err(GameError::NotYourTurn);
        }
        if self.winner.is_some() {
            return Err(GameError::GameFinished);
        }
        if card.color.is_none() && chosen_color.is_none() {
            return Err(GameError::MissingColor);
        }
        let top = Card { color: self.active_color, kind: self.current_card.kind };
        if !crate::card::matches(top, card) {
            return Err(GameError::IllegalCard);
        }
        let found = find_card(&self.players[seat].hand, card);
        proof {
            self@.players[seat as int].hand.index_of_first_ensures(card);
        }
        let index = match found {
            Some(i) => i,
            None => {
                return Err(GameError::CardNotHeld);
            },
        };
        let forced = card.kind.forced_cards();
        if forced > 0 && forced - 1 > self.draw_pile.len() {
            return Err(GameError::DeckExhausted);
        }
        let ghost before = self@;
        proof {
            lemma_hand_without(before.players[seat as int].hand, card);
            lemma_committed_wf(before, seat as int, card, chosen_color);
            lemma_play_wf(before, player, card, chosen_color);
        }
        let turn = resolve(card.kind, seat, self.direction, seats);
        self.players[seat].hand.remove(index);
        let emptied = self.players[seat].hand.len() == 0;
        self.draw_pile.push_back(self.current_card);
        self.current_card = card;
        self.active_color = match card.color {
            Some(color) => Some(color),
            None => chosen_color,
        };
        self.winner = if emptied {
            Some(player)
        } else {
            None
        };
        if turn.forced > 0 {
            self.deal(turn.victim, turn.forced);
        }
        self.direction = turn.direction;
        self.active_turn = turn.next_turn;
        proof {
            assert(self@ =~= before.after_play(player, card, chosen_color));
        }
        if emptied {
            Ok(PlayOutcome::GameOver(player))
        } else {
            Ok(PlayOutcome::Continues)
        }
    }

    /// Admits a player and deals the first hand, in one step. Refused, with
    /// nothing changed, when the name is empty, the game is full, or the
    /// draw pile cannot supply a hand.
    pub fn join(&mut self, name: String) -> (r: Result<(PlayerId, Vec<Card>), GameError>)
        requires
            old(self)@.wf(),
        ensures
            final(self)@.wf(),
            match r {
                Ok((id, hand)) => {
                    &&& old(self)@.join_error(name@) is None
                    &&& id == PlayerId(old(self)@.players.len() as usize)
                    &&& hand@ == old(self)@.draw_pile.take(HAND_SIZE as int)
                    &&& final(self)@ == old(self)@.after_join(name@)
                },
                Err(e) => {
                    &&& old(self)@.join_error(name@) == Some(e)
                    &&& final(self)@ == old(self)@
                },
            },
    {
        if name.as_str().is_empty() {
            return Err(GameError::MalformedJoin);
        }
        if self.players.len() >= self.max_players {
            return Err(GameError::CapacityExceeded);
        }
        if self.draw_pile.len() < HAND_SIZE {
            return Err(GameError::DeckExhausted);
        }
        match self.add_player(name) {
            Ok(id) => {
                proof {
                    lemma_dealt_wf(self@, id.0 as int, HAND_SIZE as int);
                }
                let hand = self.deal(id.0, HAND_SIZE);
                Ok((id, hand))
            },
            Err(e) => Err(e),
        }
    }

    /// Randomises the order of the draw pile. Nothing else changes, and the
    /// pile holds the same cards as before.
    pub fn reshuffle(&mut self)
        requires
            old(self)@.wf(),
        ensures
            final(self)@.wf(),
            final(self)@.draw_pile.to_multiset() == old(self)@.draw_pile.to_multiset(),
            final(self)@ == (GameView { draw_pile: final(self)@.draw_pile, ..old(self)@ }),
    {
        crate::deck::reshuffle(&mut self.draw_pile);
    }

    /// A copy of what every client may see of the game.
    pub fn snapshot(&self) -> (snap: Snapshot)
        ensures
            snap@ == self@.public_face(),
    {
        let mut players: Vec<PlayerSummary> = Vec::new();
        let mut i: usize = 0;
        while i < self.players.len()
            invariant
                i <= self.players.len(),
                players@.len() == i,
                forall|j: int|
                    0 <= j < i ==> (#[trigger] players@[j])@ == self@.public_face().players[j],
            decreases self.players.len() - i,
        {
            let p = &self.players[i];
            players.push(
                PlayerSummary {
                    id: p.id,
                    name: p.name.clone(),
                    turn_index: p.turn_index,
                    hand_size: p.hand.len(),
                },
            );
            i = i + 1;
        }
        Snapshot {
            players,
            current_card: self.current_card,
            active_color: self.active_color,
            active_turn: self.active_turn,
            direction: self.direction,
            draw_pile_size: self.draw_pile.len(),
            winner: self.winner,
        }
    }

    /// A copy of the draw pile, the next card to be dealt first.
    pub fn draw_pile(&self) -> (pile: Vec<Card>)
        ensures
            pile@ == self@.draw_pile,
    {
        let mut pile: Vec<Card> = Vec::new();
        let mut i: usize = 0;
        while i < self.draw_pile.len()
            invariant
                i <= self.draw_pile.len(),
                pile@ == self.draw_pile@.take(i as int),
            decreases self.draw_pile.len() - i,
        {
            pile.push(self.draw_pile[i]);
            i = i + 1;
        }
        pile
    }

    /// A copy of the cards that a player holds, for that player's eyes only.
    pub fn hand_of(&self, player: PlayerId) -> (r: Option<Vec<Card>>)
        ensures
            match r {
                Some(hand) => player.0 < self@.players.len() && hand@ == self@.players[player.0 as int].hand,
                None => player.0 >= self@.players.len(),
            },
    {
        if player.0 < self.players.len() {
            Some(copy_cards(&self.players[player.0].hand))
        } else {
            None
        }
    }
}

} // verus!
