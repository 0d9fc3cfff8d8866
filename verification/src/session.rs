//! One client's conversation with the game, as a state machine: the host
//! reads a request from the connection, hands it to `handle`, and sends back
//! the reply. Everything that is decided is decided here; the host only
//! moves bytes.
//!
//! A connection that is lost ends the session and leaves the game as it is:
//! the player keeps seat and hand, and the game waits at that seat.

use crate::card::{Card, Color};
use crate::game::{Game, GameError, PlayOutcome, PlayerId, Snapshot};
use crate::state::{GameView, SnapshotView};
use vstd::prelude::*;

verus! {

/// Where a client stands in its conversation with the server.
#[derive(Clone, Copy, Debug, PartialEq, Eq, Structural)]
pub enum Session {
    /// Connected, not yet a player.
    AwaitingJoin,
    /// Joined as this player.
    Playing(PlayerId),
    /// The conversation is over.
    Closed,
}

/// What a client may send.
pub enum Request {
    /// Asks to become a player under this name.
    Join { name: String },
    /// Submits a card, naming a colour if the card has none.
    Play { card: Card, chosen_color: Option<Color> },
    /// The connection was lost or delivered something unreadable.
    Disconnected,
}

/// The mathematical content of a `Request`.
pub enum RequestView {
    Join { name: Seq<char> },
    Play { card: Card, chosen_color: Option<Color> },
    Disconnected,
}

impl View for Request {
    type V = RequestView;

    open spec fn view(&self) -> RequestView {
        match *self {
            Request::Join { name } => RequestView::Join { name: name@ },
            Request::Play { card, chosen_color } => RequestView::Play { card, chosen_color },
            Request::Disconnected => RequestView::Disconnected,
        }
    }
}

/// What one client is shown: the public part of the game and its own cards.
pub struct ClientState {
    pub snapshot: Snapshot,
    pub hand: Vec<Card>,
}

/// The mathematical content of a `ClientState`.
#[verifier::ext_equal]
pub struct ClientStateView {
    pub snapshot: SnapshotView,
    pub hand: Seq<Card>,
}

impl View for ClientState {
    type V = ClientStateView;

    open spec fn view(&self) -> ClientStateView {
        ClientStateView { snapshot: self.snapshot@, hand: self.hand@ }
    }
}

/// What the server answers.
pub enum Reply {
    /// The client is now this player; the state holds the hand dealt.
    Welcome { id: PlayerId, state: ClientState },
    /// The move was carried out.
    Accepted { state: ClientState },
    /// The request was refused and nothing changed; the client may try again.
    Rejected { error: GameError },
    /// The move was carried out and ended the game.
    GameOver { winner: PlayerId, state: ClientState },
    /// Nothing more is sent on this connection.
    Closed,
}

/// The mathematical content of a `Reply`.
pub enum ReplyView {
    Welcome { id: PlayerId, state: ClientStateView },
    Accepted { state: ClientStateView },
    Rejected { error: GameError },
    GameOver { winner: PlayerId, state: ClientStateView },
    Closed,
}

impl View for Reply {
    type V = ReplyView;

    open spec fn view(&self) -> ReplyView {
        match *self {
            Reply::Welcome { id, state } => ReplyView::Welcome { id, state: state@ },
            Reply::Accepted { state } => ReplyView::Accepted { state: state@ },
            Reply::Rejected { error } => ReplyView::Rejected { error },
            Reply::GameOver { winner, state } => ReplyView::GameOver { winner, state: state@ },
            Reply::Closed => ReplyView::Closed,
        }
    }
}

/// What `player` is shown of the game.
pub open spec fn seen_by(s: GameView, player: PlayerId) -> ClientStateView {
    ClientStateView { snapshot: s.public_face(), hand: s.players[player.0 as int].hand }
}

/// What follows from a request: the next state of the session, the next
/// state of the game, and the reply.
pub open spec fn transition(session: Session, s: GameView, request: RequestView) -> (
    Session,
    GameView,
    ReplyView,
) {
    match (session, request) {
        (Session::Closed, _) => (Session::Closed, s, ReplyView::Closed),
        (_, RequestView::Disconnected) => (Session::Closed, s, ReplyView::Closed),
        (Session::AwaitingJoin, RequestView::Join { name }) => match s.join_error(name) {
            Some(error) => (Session::AwaitingJoin, s, ReplyView::Rejected { error }),
            None => {
                let id = PlayerId(s.players.len() as usize);
                let joined = s.after_join(name);
                (Session::Playing(id), joined, ReplyView::Welcome { id, state: seen_by(joined, id) })
            },
        },
        (Session::AwaitingJoin, RequestView::Play { .. }) => (
            Session::AwaitingJoin,
            s,
            ReplyView::Rejected { error: GameError::MalformedJoin },
        ),
        (Session::Playing(id), RequestView::Join { .. }) => (
            Session::Playing(id),
            s,
            ReplyView::Rejected { error: GameError::MalformedJoin },
        ),
        (Session::Playing(id), RequestView::Play { card, chosen_color }) => match s.play_error(
            id,
            card,
            chosen_color,
        ) {
            Some(error) => (Session::Playing(id), s, ReplyView::Rejected { error }),
            None => {
                let played = s.after_play(id, card, chosen_color);
                let state = seen_by(played, id);
                match s.outcome_of(id, card) {
                    PlayOutcome::Continues => (
                        Session::Playing(id),
                        played,
                        ReplyView::Accepted { state },
                    ),
                    PlayOutcome::GameOver(winner) => (
                        Session::Playing(id),
                        played,
                        ReplyView::GameOver { winner, state },
                    ),
                }
            },
        },
    }
}

/// What `player` is shown of the game, if there is such a player.
pub fn client_state(game: &Game, player: PlayerId) -> (r: Option<ClientState>)
    ensures
        match r {
            Some(state) => player.0 < game@.players.len() && state@ == seen_by(game@, player),
            None => player.0 >= game@.players.len(),
        },
{
    match game.hand_of(player) {
        Some(hand) => Some(ClientState { snapshot: game.snapshot(), hand }),
        None => None,
    }
}

/// What `player`, who is in the game, is shown of it.
fn shown_to(game: &Game, player: PlayerId) -> (state: ClientState)
    requires
        player.0 < game@.players.len(),
    ensures
        state@ == seen_by(game@, player),
{
    ClientState { snapshot: game.snapshot(), hand: game.hand_of(player).unwrap() }
}

/// Takes one request of a client and says what to answer.
pub fn handle(session: Session, game: &mut Game, request: Request) -> (r: (Session, Reply))
    requires
        old(game)@.wf(),
    ensures
        final(game)@.wf(),
        (r.0, final(game)@, r.1@) == transition(session, old(game)@, request@),
{
    match session {
        Session::Closed => (Session::Closed, Reply::Closed),
        Session::AwaitingJoin => match request {
            Request::Disconnected => (Session::Closed, Reply::Closed),
            Request::Play { .. } => (
                Session::AwaitingJoin,
                Reply::Rejected { error: GameError::MalformedJoin },
            ),
            Request::Join { name } => match game.join(name) {
                Err(error) => (Session::AwaitingJoin, Reply::Rejected { error }),
                Ok((id, _)) => {
                    let state = shown_to(game, id);
                    (Session::Playing(id), Reply::Welcome { id, state })
                },
            },
        },
        Session::Playing(id) => match request {
            Request::Disconnected => (Session::Closed, Reply::Closed),
            Request::Join { .. } => (
                Session::Playing(id),
                Reply::Rejected { error: GameError::MalformedJoin },
            ),
            Request::Play { card, chosen_color } => match game.apply_play(id, card, chosen_color) {
                Err(error) => (Session::Playing(id), Reply::Rejected { error }),
                Ok(outcome) => {
                    let state = shown_to(game, id);
                    match outcome {
                        PlayOutcome::Continues => (Session::Playing(id), Reply::Accepted { state }),
                        PlayOutcome::GameOver(winner) => (
                            Session::Playing(id),
                            Reply::GameOver { winner, state },
                        ),
                    }
                },
            },
        },
    }
}

} // verus!
