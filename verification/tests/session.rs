use uno_game::card::{Card, CardKind, Color};
use uno_game::deck::standard_deck;
use uno_game::game::{Game, GameError, PlayerId};
use uno_game::session::{client_state, handle, Reply, Request, Session};

fn card(color: Color, kind: CardKind) -> Card {
    Card::new(Some(color), kind)
}

fn fresh_game(front: &[Card]) -> Game {
    let mut rest = standard_deck();
    for wanted in front {
        let at = rest.iter().position(|c| c == wanted);
        match at {
            Some(i) => {
                rest.remove(i);
            }
            None => panic!("the deck has no such card left"),
        }
    }
    let mut deck = front.to_vec();
    deck.extend(rest);
    match Game::from_deck(deck, 4) {
        Ok(game) => game,
        Err(e) => panic!("deck refused: {:?}", e),
    }
}

fn join_as(game: &mut Game, name: &str) -> (Session, PlayerId, Vec<Card>) {
    let (session, reply) =
        handle(Session::AwaitingJoin, game, Request::Join { name: name.to_string() });
    match reply {
        Reply::Welcome { id, state } => (session, id, state.hand),
        _ => panic!("join was not welcomed"),
    }
}

fn sizes(game: &Game) -> (usize, Vec<usize>, Card, usize) {
    let snap = game.snapshot();
    (
        snap.draw_pile_size,
        snap.players.iter().map(|p| p.hand_size).collect(),
        snap.current_card,
        snap.active_turn,
    )
}

#[test]
fn join_welcomes_with_a_hand() {
    let mut game = fresh_game(&[card(Color::Red, CardKind::Five)]);
    let (session, reply) =
        handle(Session::AwaitingJoin, &mut game, Request::Join { name: "A".to_string() });
    assert_eq!(session, Session::Playing(PlayerId(0)));
    match reply {
        Reply::Welcome { id, state } => {
            assert_eq!(id, PlayerId(0));
            assert_eq!(state.hand.len(), 7);
            assert_eq!(state.hand, game.hand_of(id).unwrap());
            assert_eq!(state.snapshot.players.len(), 1);
            assert_eq!(state.snapshot.players[0].name, "A");
            assert_eq!(state.snapshot.players[0].hand_size, 7);
            assert_eq!(state.snapshot.current_card, card(Color::Red, CardKind::Five));
            assert_eq!(state.snapshot.draw_pile_size, 100);
        }
        _ => panic!("join was not welcomed"),
    }
}

#[test]
fn second_client_gets_the_next_seat() {
    let mut game = fresh_game(&[]);
    let (_, a, _) = join_as(&mut game, "A");
    let (session, b, hand_b) = join_as(&mut game, "B");
    assert_eq!(a, PlayerId(0));
    assert_eq!(b, PlayerId(1));
    assert_eq!(session, Session::Playing(PlayerId(1)));
    assert_eq!(hand_b, standard_deck()[8..15].to_vec());
}

#[test]
fn join_without_a_name_may_be_tried_again() {
    let mut game = fresh_game(&[]);
    let before = sizes(&game);
    let (session, reply) =
        handle(Session::AwaitingJoin, &mut game, Request::Join { name: String::new() });
    assert_eq!(session, Session::AwaitingJoin);
    assert!(matches!(reply, Reply::Rejected { error: GameError::MalformedJoin }));
    assert_eq!(sizes(&game), before);
    let (session, _, _) = join_as(&mut game, "A");
    assert_eq!(session, Session::Playing(PlayerId(0)));
}

#[test]
fn join_into_a_full_game_is_rejected() {
    let mut game = match Game::from_deck(standard_deck(), 1) {
        Ok(game) => game,
        Err(e) => panic!("deck refused: {:?}", e),
    };
    join_as(&mut game, "A");
    let (session, reply) =
        handle(Session::AwaitingJoin, &mut game, Request::Join { name: "B".to_string() });
    assert_eq!(session, Session::AwaitingJoin);
    assert!(matches!(reply, Reply::Rejected { error: GameError::CapacityExceeded }));
    assert_eq!(game.snapshot().players.len(), 1);
}

#[test]
fn move_before_joining_is_rejected() {
    let mut game = fresh_game(&[]);
    let before = sizes(&game);
    let request = Request::Play { card: card(Color::Red, CardKind::One), chosen_color: None };
    let (session, reply) = handle(Session::AwaitingJoin, &mut game, request);
    assert_eq!(session, Session::AwaitingJoin);
    assert!(matches!(reply, Reply::Rejected { error: GameError::MalformedJoin }));
    assert_eq!(sizes(&game), before);
}

#[test]
fn joining_twice_is_rejected() {
    let mut game = fresh_game(&[]);
    let (session, id, _) = join_as(&mut game, "A");
    let before = sizes(&game);
    let (session, reply) = handle(session, &mut game, Request::Join { name: "A".to_string() });
    assert_eq!(session, Session::Playing(id));
    assert!(matches!(reply, Reply::Rejected { error: GameError::MalformedJoin }));
    assert_eq!(sizes(&game), before);
}

#[test]
fn accepted_move_shows_the_new_state() {
    let blue_five = card(Color::Blue, CardKind::Five);
    let mut game = fresh_game(&[card(Color::Red, CardKind::Five), blue_five]);
    let (a, _, hand_a) = join_as(&mut game, "A");
    let (b, _, _) = join_as(&mut game, "B");
    let (a, reply) = handle(a, &mut game, Request::Play { card: blue_five, chosen_color: None });
    assert_eq!(a, Session::Playing(PlayerId(0)));
    match reply {
        Reply::Accepted { state } => {
            assert_eq!(state.snapshot.current_card, blue_five);
            assert_eq!(state.snapshot.active_turn, 1);
            assert_eq!(state.hand, hand_a[1..].to_vec());
            assert_eq!(state.snapshot.players[0].hand_size, 6);
            assert_eq!(state.snapshot.players[1].hand_size, 7);
        }
        _ => panic!("move was not accepted"),
    }
    let before = sizes(&game);
    let request = Request::Play { card: card(Color::Green, CardKind::Three), chosen_color: None };
    let (b, reply) = handle(b, &mut game, request);
    assert_eq!(b, Session::Playing(PlayerId(1)));
    assert!(matches!(reply, Reply::Rejected { error: GameError::IllegalCard }));
    assert_eq!(sizes(&game), before);
    assert_eq!(game.snapshot().active_turn, 1);
}

#[test]
fn out_of_turn_move_is_rejected() {
    let mut game = fresh_game(&[card(Color::Red, CardKind::Five)]);
    join_as(&mut game, "A");
    let (b, _, hand_b) = join_as(&mut game, "B");
    let before = sizes(&game);
    let (b, reply) = handle(b, &mut game, Request::Play { card: hand_b[0], chosen_color: None });
    assert_eq!(b, Session::Playing(PlayerId(1)));
    assert!(matches!(reply, Reply::Rejected { error: GameError::NotYourTurn }));
    assert_eq!(sizes(&game), before);
}

#[test]
fn winning_move_is_announced() {
    let red_one = card(Color::Red, CardKind::One);
    let mut game = fresh_game(&[card(Color::Red, CardKind::Five), red_one]);
    let a = game.add_player("A".to_string()).unwrap();
    game.draw_cards(a, 1).unwrap();
    join_as(&mut game, "B");
    let (session, reply) = handle(
        Session::Playing(a),
        &mut game,
        Request::Play { card: red_one, chosen_color: None },
    );
    assert_eq!(session, Session::Playing(a));
    match reply {
        Reply::GameOver { winner, state } => {
            assert_eq!(winner, a);
            assert_eq!(state.hand, Vec::new());
            assert_eq!(state.snapshot.winner, Some(a));
        }
        _ => panic!("the game did not end"),
    }
}

#[test]
fn lost_connection_leaves_the_game_waiting() {
    let mut game = fresh_game(&[card(Color::Red, CardKind::Five)]);
    let (a, id_a, hand_a) = join_as(&mut game, "A");
    let (b, _, hand_b) = join_as(&mut game, "B");
    let before = sizes(&game);
    let (a, reply) = handle(a, &mut game, Request::Disconnected);
    assert_eq!(a, Session::Closed);
    assert!(matches!(reply, Reply::Closed));
    assert_eq!(sizes(&game), before);
    assert_eq!(game.snapshot().players.len(), 2);
    assert_eq!(game.snapshot().active_turn, 0);
    assert_eq!(game.hand_of(id_a).unwrap(), hand_a);
    let (_, reply) = handle(b, &mut game, Request::Play { card: hand_b[0], chosen_color: None });
    assert!(matches!(reply, Reply::Rejected { error: GameError::NotYourTurn }));
    assert_eq!(game.snapshot().active_turn, 0);
}

#[test]
fn lost_connection_before_joining_closes() {
    let mut game = fresh_game(&[]);
    let before = sizes(&game);
    let (session, reply) = handle(Session::AwaitingJoin, &mut game, Request::Disconnected);
    assert_eq!(session, Session::Closed);
    assert!(matches!(reply, Reply::Closed));
    assert_eq!(sizes(&game), before);
}

#[test]
fn closed_session_stays_closed() {
    let mut game = fresh_game(&[]);
    let before = sizes(&game);
    let (session, reply) =
        handle(Session::Closed, &mut game, Request::Join { name: "A".to_string() });
    assert_eq!(session, Session::Closed);
    assert!(matches!(reply, Reply::Closed));
    let request = Request::Play { card: card(Color::Red, CardKind::One), chosen_color: None };
    let (session, reply) = handle(Session::Closed, &mut game, request);
    assert_eq!(session, Session::Closed);
    assert!(matches!(reply, Reply::Closed));
    assert_eq!(sizes(&game), before);
}

#[test]
fn client_state_shows_only_the_own_hand() {
    let mut game = fresh_game(&[]);
    let (_, a, hand_a) = join_as(&mut game, "A");
    let (_, b, hand_b) = join_as(&mut game, "B");
    let seen_a = client_state(&game, a).unwrap();
    let seen_b = client_state(&game, b).unwrap();
    assert_eq!(seen_a.hand, hand_a);
    assert_eq!(seen_b.hand, hand_b);
    assert_eq!(seen_a.snapshot.players[1].hand_size, 7);
    assert_eq!(seen_b.snapshot.players[0].hand_size, 7);
    assert!(client_state(&game, PlayerId(2)).is_none());
}
