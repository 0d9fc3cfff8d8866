//! The state of a game as a mathematical value, the steps that lead from
//! one state to the next, and the proof that every step keeps the state in
//! order.
//!
//! A card that is played replaces the current card; the card that it
//! replaces goes under the draw pile at once. So every card of the deck is at
//! all times in the draw pile, in a hand, or the current card, and a draw
//! can only fail for want of cards in the pile.

use crate::card::{Card, Color};
use crate::deck::{full_composition, is_full_deck};
use crate::game::{GameError, PlayOutcome, PlayerId, HAND_SIZE};
use crate::turn::{direction_after, neighbour, turn_after, Direction};
use vstd::multiset::Multiset;
use vstd::prelude::*;

verus! {

/// The mathematical content of a `Player`.
#[verifier::ext_equal]
pub struct PlayerView {
    pub id: PlayerId,
    pub name: Seq<char>,
    pub turn_index: int,
    pub hand: Seq<Card>,
}

impl PlayerView {
    /// The same player holding `hand`.
    pub open spec fn with_hand(self, hand: Seq<Card>) -> PlayerView {
        PlayerView { hand, ..self }
    }

    /// The player who takes seat `seat` under `name`, before any card is dealt.
    pub open spec fn seated(seat: int, name: Seq<char>) -> PlayerView {
        PlayerView { id: PlayerId(seat as usize), name, turn_index: seat, hand: Seq::empty() }
    }
}

/// All cards held by the players, as one bag.
pub open spec fn hands_bag(players: Seq<PlayerView>) -> Multiset<Card>
    decreases players.len(),
{
    if players.len() == 0 {
        Multiset::empty()
    } else {
        hands_bag(players.drop_last()).add(players.last().hand.to_multiset())
    }
}

/// The mathematical content of a `PlayerSummary`.
#[verifier::ext_equal]
pub struct PlayerSummaryView {
    pub id: PlayerId,
    pub name: Seq<char>,
    pub turn_index: int,
    pub hand_size: int,
}

/// The mathematical content of a `Snapshot`.
#[verifier::ext_equal]
pub struct SnapshotView {
    pub players: Seq<PlayerSummaryView>,
    pub current_card: Card,
    pub active_color: Option<Color>,
    pub active_turn: int,
    pub direction: Direction,
    pub draw_pile_size: int,
    pub winner: Option<PlayerId>,
}

/// The mathematical content of a `Game`.
#[verifier::ext_equal]
pub struct GameView {
    /// The players, in the order of their seats.
    pub players: Seq<PlayerView>,
    /// The draw pile; the first card is the next to be dealt.
    pub draw_pile: Seq<Card>,
    /// The card that was played last.
    pub current_card: Card,
    /// The colour that the next card is judged against: that of the current
    /// card, or the colour named when a colourless card was played.
    pub active_color: Option<Color>,
    /// The seat whose turn it is.
    pub active_turn: int,
    /// The direction in which the turn passes on.
    pub direction: Direction,
    /// The number of players that the game admits.
    pub max_players: int,
    /// The player who has laid the last card of a hand, once there is one.
    pub winner: Option<PlayerId>,
}

impl GameView {
    /// Every card of the game, wherever it is.
    pub open spec fn cards(self) -> Multiset<Card> {
        self.draw_pile.to_multiset().add(hands_bag(self.players)).insert(self.current_card)
    }

    /// No card was made, lost or duplicated.
    pub open spec fn conserved(self) -> bool {
        self.cards() == full_composition()
    }

    /// Each player sits at the seat that the identifier names.
    pub open spec fn seated_in_order(self) -> bool {
        forall|i: int|
            0 <= i < self.players.len() ==> {
                &&& (#[trigger] self.players[i]).turn_index == i
                &&& self.players[i].id == PlayerId(i as usize)
            }
    }

    /// The invariant of the game state.
    pub open spec fn wf(self) -> bool {
        &&& self.conserved()
        &&& self.seated_in_order()
        &&& self.players.len() <= self.max_players <= usize::MAX
        &&& 0 <= self.active_turn <= usize::MAX
        &&& self.players.len() > 0 ==> self.active_turn < self.players.len()
        &&& self.players.len() == 0 ==> self.active_turn == 0
        &&& self.current_card.color is Some ==> self.active_color == self.current_card.color
        &&& self.winner matches Some(id) ==> id.0 < self.players.len()
    }

    /// The state of a new game that starts from `deck`: the first card is
    /// turned over, the rest is the draw pile.
    pub open spec fn initial(deck: Seq<Card>, max_players: int) -> GameView {
        GameView {
            players: Seq::empty(),
            draw_pile: deck.drop_first(),
            current_card: deck.first(),
            active_color: deck.first().color,
            active_turn: 0,
            direction: Direction::Forward,
            max_players,
            winner: None,
        }
    }

    /// The card that a proposed card is judged against: the current card in
    /// the colour that is in force.
    pub open spec fn top(self) -> Card {
        Card { color: self.active_color, kind: self.current_card.kind }
    }

    /// The player exists and it is that player's turn.
    pub open spec fn is_turn_of(self, player: PlayerId) -> bool {
        player.0 < self.players.len() && player.0 == self.active_turn
    }

    /// The state after a player called `name` has taken the next free seat.
    pub open spec fn with_player(self, name: Seq<char>) -> GameView {
        GameView {
            players: self.players.push(PlayerView::seated(self.players.len() as int, name)),
            ..self
        }
    }

    /// The state after the first `n` cards of the draw pile have gone to the
    /// hand of the player at `seat`, in the order in which they lay.
    pub open spec fn dealt(self, seat: int, n: int) -> GameView {
        GameView {
            players: self.players.update(
                seat,
                self.players[seat].with_hand(self.players[seat].hand + self.draw_pile.take(n)),
            ),
            draw_pile: self.draw_pile.skip(n),
            ..self
        }
    }

    /// Why a request to draw `n` cards is refused, if it is.
    pub open spec fn draw_error(self, player: PlayerId, n: int) -> Option<GameError> {
        if n == 0 {
            None
        } else if n > self.draw_pile.len() {
            Some(GameError::DeckExhausted)
        } else if player.0 >= self.players.len() {
            Some(GameError::UnknownPlayer)
        } else {
            None
        }
    }

    /// The state after an accepted request to draw `n` cards.
    pub open spec fn after_draw(self, player: PlayerId, n: int) -> GameView {
        if n == 0 {
            self
        } else {
            self.dealt(player.0 as int, n)
        }
    }

    /// Why a move is refused, if it is. The checks are made in this order:
    /// the turn, whether the game is over, the colour choice, legality, the
    /// hand, and the cards needed for a forced draw.
    pub open spec fn play_error(
        self,
        player: PlayerId,
        card: Card,
        chosen_color: Option<Color>,
    ) -> Option<GameError> {
        if !self.is_turn_of(player) {
            Some(GameError::NotYourTurn)
        } else if self.winner is Some {
            Some(GameError::GameFinished)
        } else if card.color is None && chosen_color is None {
            Some(GameError::MissingColor)
        } else if !self.top().accepts(card) {
            Some(GameError::IllegalCard)
        } else if !self.players[player.0 as int].hand.contains(card) {
            Some(GameError::CardNotHeld)
        } else if card.kind.forced_draw() > self.draw_pile.len() + 1 {
            Some(GameError::DeckExhausted)
        } else {
            None
        }
    }

    /// The state once the player at `seat` has laid `card`: the card leaves
    /// the hand and becomes the current card, and the card that it replaces
    /// goes under the draw pile. A player whose hand is then empty has won.
    pub open spec fn committed(self, seat: int, card: Card, chosen_color: Option<Color>) -> GameView {
        let rest = self.players[seat].hand.remove_value(card);
        GameView {
            players: self.players.update(seat, self.players[seat].with_hand(rest)),
            draw_pile: self.draw_pile.push(self.current_card),
            current_card: card,
            active_color: if card.color is Some {
                card.color
            } else {
                chosen_color
            },
            winner: if rest.len() == 0 {
                Some(PlayerId(seat as usize))
            } else {
                None
            },
            ..self
        }
    }

    /// The state after an accepted move: the card is laid, the next player
    /// takes the cards that it forces, and the turn passes on.
    pub open spec fn after_play(
        self,
        player: PlayerId,
        card: Card,
        chosen_color: Option<Color>,
    ) -> GameView {
        let seat = player.0 as int;
        let seats = self.players.len() as int;
        let laid = self.committed(seat, card, chosen_color);
        let forced = card.kind.forced_draw() as int;
        let drawn = if forced > 0 {
            laid.dealt(neighbour(seat, self.direction, seats), forced)
        } else {
            laid
        };
        GameView {
            active_turn: turn_after(seat, self.direction, card.kind, seats),
            direction: direction_after(card.kind, self.direction),
            ..drawn
        }
    }

    /// Why a request to join is refused, if it is.
    pub open spec fn join_error(self, name: Seq<char>) -> Option<GameError> {
        if name.len() == 0 {
            Some(GameError::MalformedJoin)
        } else if self.players.len() >= self.max_players {
            Some(GameError::CapacityExceeded)
        } else if self.draw_pile.len() < HAND_SIZE {
            Some(GameError::DeckExhausted)
        } else {
            None
        }
    }

    /// The state after a player called `name` has joined and been dealt a
    /// hand.
    pub open spec fn after_join(self, name: Seq<char>) -> GameView {
        self.with_player(name).dealt(self.players.len() as int, HAND_SIZE as int)
    }

    /// What every client may see of the game: of each player the name, the
    /// seat and the number of cards held, but not the cards.
    pub open spec fn public_face(self) -> SnapshotView {
        SnapshotView {
            players: self.players.map_values(
                |p: PlayerView|
                    PlayerSummaryView {
                        id: p.id,
                        name: p.name,
                        turn_index: p.turn_index,
                        hand_size: p.hand.len() as int,
                    },
            ),
            current_card: self.current_card,
            active_color: self.active_color,
            active_turn: self.active_turn,
            direction: self.direction,
            draw_pile_size: self.draw_pile.len() as int,
            winner: self.winner,
        }
    }

    /// What an accepted move reports: the game is over when the card was the
    /// last of the hand.
    pub open spec fn outcome_of(self, player: PlayerId, card: Card) -> PlayOutcome {
        if self.players[player.0 as int].hand.remove_value(card).len() == 0 {
            PlayOutcome::GameOver(player)
        } else {
            PlayOutcome::Continues
        }
    }
}

/// One more player adds the hand of that player to the cards held.
pub proof fn lemma_hands_push(players: Seq<PlayerView>, p: PlayerView)
    ensures
        hands_bag(players.push(p)) == hands_bag(players).add(p.hand.to_multiset()),
{
    assert(players.push(p).drop_last() =~= players);
}

/// Changing one hand changes the cards held by just the difference.
pub proof fn lemma_hands_update(players: Seq<PlayerView>, i: int, p: PlayerView)
    requires
        0 <= i < players.len(),
    ensures
        hands_bag(players.update(i, p)).add(players[i].hand.to_multiset()) == hands_bag(
            players,
        ).add(p.hand.to_multiset()),
    decreases players.len(),
{
    broadcast use vstd::multiset::group_multiset_axioms;

    let updated = players.update(i, p);
    let rest = players.drop_last();
    assert(hands_bag(updated) == hands_bag(updated.drop_last()).add(
        updated.last().hand.to_multiset(),
    ));
    if i == players.len() - 1 {
        assert(updated.drop_last() =~= rest);
    } else {
        lemma_hands_update(rest, i, p);
        assert(updated.drop_last() =~= rest.update(i, p));
        let added = p.hand.to_multiset();
        let last = players.last().hand.to_multiset();
        assert(hands_bag(rest).add(added).add(last) =~= hands_bag(rest).add(last).add(added));
    }
}

/// A deck that is complete makes a well-formed new game.
pub proof fn lemma_initial_wf(deck: Seq<Card>, max_players: int)
    requires
        is_full_deck(deck),
        0 <= max_players <= usize::MAX,
    ensures
        GameView::initial(deck, max_players).wf(),
{
    crate::deck::lemma_composition_size();
    deck.to_multiset_ensures();
    let s = GameView::initial(deck, max_players);
    assert(deck.drop_first() =~= deck.remove(0));
    assert(s.cards() =~= deck.to_multiset());
}

/// A player who takes a seat brings no cards.
pub proof fn lemma_with_player_wf(s: GameView, name: Seq<char>)
    requires
        s.wf(),
        s.players.len() < s.max_players,
    ensures
        s.with_player(name).wf(),
{
    let seated = PlayerView::seated(s.players.len() as int, name);
    lemma_hands_push(s.players, seated);
    seated.hand.to_multiset_ensures();
    vstd::multiset::lemma_multiset_empty_len(seated.hand.to_multiset());
    assert(s.with_player(name).cards() =~= s.cards());
}

/// A player who joins is seated and dealt a hand from the draw pile; no card
/// is made or lost.
pub proof fn lemma_join_wf(s: GameView, name: Seq<char>)
    requires
        s.wf(),
        s.join_error(name) is None,
    ensures
        s.after_join(name).wf(),
{
    lemma_with_player_wf(s, name);
    lemma_dealt_wf(s.with_player(name), s.players.len() as int, HAND_SIZE as int);
}

/// Dealing cards moves them from the draw pile to a hand and changes nothing
/// else.
pub proof fn lemma_dealt_wf(s: GameView, seat: int, n: int)
    requires
        s.wf(),
        0 <= seat < s.players.len(),
        0 <= n <= s.draw_pile.len(),
    ensures
        s.dealt(seat, n).wf(),
{
    broadcast use vstd::multiset::group_multiset_axioms;

    let t = s.dealt(seat, n);
    let hand = s.players[seat].hand;
    let taken = s.draw_pile.take(n);
    vstd::seq_lib::lemma_multiset_commutative(taken, s.draw_pile.skip(n));
    assert(taken + s.draw_pile.skip(n) =~= s.draw_pile);
    vstd::seq_lib::lemma_multiset_commutative(hand, taken);
    lemma_hands_update(s.players, seat, t.players[seat]);
    assert forall|c: Card|
        hands_bag(t.players).count(c) == hands_bag(s.players).count(c) + taken.to_multiset().count(
            c,
        ) by {
        let left = hands_bag(t.players).add(hand.to_multiset());
        let right = hands_bag(s.players).add((hand + taken).to_multiset());
        assert(left.count(c) == right.count(c));
    }
    assert(t.cards() =~= s.cards());
}

/// A hand that holds a card is one card shorter without it, and holds the
/// same cards but for one copy of that card.
pub proof fn lemma_hand_without(hand: Seq<Card>, card: Card)
    requires
        hand.contains(card),
    ensures
        hand.remove_value(card).len() == hand.len() - 1,
        hand.remove_value(card).to_multiset() == hand.to_multiset().remove(card),
{
    hand.index_of_first_ensures(card);
    let i = hand.index_of_first(card).unwrap();
    vstd::seq_lib::to_multiset_remove(hand, i);
}

/// Laying a card moves it from the hand to the top and the old top under the
/// pile; no card is made or lost.
pub proof fn lemma_committed_wf(s: GameView, seat: int, card: Card, chosen_color: Option<Color>)
    requires
        s.wf(),
        0 <= seat < s.players.len(),
        s.players[seat].hand.contains(card),
    ensures
        s.committed(seat, card, chosen_color).wf(),
        s.committed(seat, card, chosen_color).players.len() == s.players.len(),
{
    broadcast use vstd::multiset::group_multiset_axioms;

    let t = s.committed(seat, card, chosen_color);
    let hand = s.players[seat].hand;
    let rest = hand.remove_value(card);
    lemma_hand_without(hand, card);
    vstd::seq_lib::to_multiset_build(s.draw_pile, s.current_card);
    hand.to_multiset_ensures();
    lemma_hands_update(s.players, seat, t.players[seat]);
    assert forall|c: Card|
        hands_bag(t.players).count(c) + hand.to_multiset().count(c) == hands_bag(s.players).count(
            c,
        ) + rest.to_multiset().count(c) by {
        let left = hands_bag(t.players).add(hand.to_multiset());
        let right = hands_bag(s.players).add(rest.to_multiset());
        assert(left.count(c) == right.count(c));
    }
    assert forall|c: Card| t.cards().count(c) == s.cards().count(c) by {
        assert(t.draw_pile.to_multiset().count(c) == s.draw_pile.to_multiset().insert(
            s.current_card,
        ).count(c));
        assert(rest.to_multiset().count(c) == hand.to_multiset().remove(card).count(c));
    }
    assert(t.cards() =~= s.cards());
}

/// An accepted move leaves the game well formed; in particular the cards in
/// the draw pile, in the hands and on top are still those of the one deck.
pub proof fn lemma_play_wf(s: GameView, player: PlayerId, card: Card, chosen_color: Option<Color>)
    requires
        s.wf(),
        s.play_error(player, card, chosen_color) is None,
    ensures
        s.after_play(player, card, chosen_color).wf(),
        s.after_play(player, card, chosen_color).conserved(),
{
    let seat = player.0 as int;
    let seats = s.players.len() as int;
    let laid = s.committed(seat, card, chosen_color);
    let forced = card.kind.forced_draw() as int;
    let victim = neighbour(seat, s.direction, seats);
    lemma_committed_wf(s, seat, card, chosen_color);
    vstd::arithmetic::div_mod::lemma_mod_bound(seat + s.direction.delta(), seats);
    let delta = direction_after(card.kind, s.direction).delta();
    vstd::arithmetic::div_mod::lemma_mod_bound(seat + delta, seats);
    vstd::arithmetic::div_mod::lemma_mod_bound(seat + 2 * delta, seats);
    if forced > 0 {
        lemma_dealt_wf(laid, victim, forced);
    }
}

} // verus!
