use uno_game::card::CardKind;
use uno_game::turn::{resolve, step, Direction};

#[test]
fn step_wraps_round_the_table() {
    assert_eq!(step(0, Direction::Forward, 4), 1);
    assert_eq!(step(3, Direction::Forward, 4), 0);
    assert_eq!(step(0, Direction::Backward, 4), 3);
    assert_eq!(step(2, Direction::Backward, 4), 1);
    assert_eq!(step(0, Direction::Forward, 1), 0);
    assert_eq!(step(0, Direction::Backward, 1), 0);
}

#[test]
fn flip_turns_the_direction_round() {
    assert_eq!(Direction::Forward.flip(), Direction::Backward);
    assert_eq!(Direction::Backward.flip(), Direction::Forward);
}

#[test]
fn number_card_passes_the_turn_on() {
    let r = resolve(CardKind::Seven, 1, Direction::Forward, 4);
    assert_eq!(r.next_turn, 2);
    assert_eq!(r.direction, Direction::Forward);
    assert_eq!(r.forced, 0);
    let r = resolve(CardKind::Wild, 0, Direction::Backward, 4);
    assert_eq!(r.next_turn, 3);
    assert_eq!(r.direction, Direction::Backward);
}

#[test]
fn skip_passes_over_one_player() {
    let r = resolve(CardKind::Skip, 3, Direction::Forward, 4);
    assert_eq!(r.next_turn, 1);
    assert_eq!(r.forced, 0);
    let r = resolve(CardKind::Skip, 0, Direction::Backward, 4);
    assert_eq!(r.next_turn, 2);
}

#[test]
fn reverse_flips_the_direction() {
    let r = resolve(CardKind::Reverse, 1, Direction::Forward, 4);
    assert_eq!(r.direction, Direction::Backward);
    assert_eq!(r.next_turn, 0);
    let r = resolve(CardKind::Reverse, 1, Direction::Backward, 3);
    assert_eq!(r.direction, Direction::Forward);
    assert_eq!(r.next_turn, 2);
}

#[test]
fn two_players_skip_and_reverse_return_the_turn() {
    for active in 0..2 {
        for direction in [Direction::Forward, Direction::Backward] {
            assert_eq!(resolve(CardKind::Skip, active, direction, 2).next_turn, active);
            assert_eq!(resolve(CardKind::Reverse, active, direction, 2).next_turn, active);
            assert_eq!(resolve(CardKind::Five, active, direction, 2).next_turn, 1 - active);
        }
    }
}

#[test]
fn forced_draws_name_the_neighbour() {
    let r = resolve(CardKind::DrawTwo, 3, Direction::Forward, 4);
    assert_eq!(r.victim, 0);
    assert_eq!(r.forced, 2);
    assert_eq!(r.next_turn, 1);
    let r = resolve(CardKind::DrawFour, 0, Direction::Backward, 5);
    assert_eq!(r.victim, 4);
    assert_eq!(r.forced, 4);
    assert_eq!(r.next_turn, 3);
}

#[test]
fn a_single_player_keeps_the_turn() {
    for kind in [CardKind::One, CardKind::Skip, CardKind::Reverse, CardKind::DrawTwo] {
        let r = resolve(kind, 0, Direction::Forward, 1);
        assert_eq!(r.next_turn, 0);
        assert_eq!(r.victim, 0);
    }
}
