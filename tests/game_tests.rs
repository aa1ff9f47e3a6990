use skate::game::{Game, Player, TurnOutcome};
use skate::chance::CHANCE_SCALE;
use skate::trick::ParseError;

#[test]
fn new_match() {
    let g = Game::new();
    assert_eq!(g.letters(Player::One), 0);
    assert_eq!(g.letters(Player::Two), 0);
    assert_eq!(g.score(Player::One), "");
    assert_eq!(g.setter(), Player::One);
    assert_eq!(g.winner(), None);
}

#[test]
fn setters_land_and_matchers_miss() {
    let tricks = [
        "ollie", "nollie", "fakie", "switch", "ollie kickflip", "nollie kickflip",
        "fakie kickflip", "switch kickflip", "ollie heelflip",
    ];
    let mut g = Game::new();
    let mut second_scores = Vec::new();
    for (i, t) in tricks.iter().enumerate() {
        assert_eq!(g.winner(), None);
        let setter = g.setter();
        assert_eq!(setter, if i % 2 == 0 { Player::One } else { Player::Two });
        g.record_attempt(t.to_string(), true, false);
        if setter == Player::One {
            second_scores.push(g.score(Player::Two).to_string());
        }
    }
    assert_eq!(second_scores, vec!["S", "SK", "SKA", "SKAT", "SKATE"]);
    assert_eq!(g.score(Player::One), "SKAT");
    assert_eq!(g.winner(), Some(Player::One));
    // the turn does not pass once the match is over
    assert_eq!(g.setter(), Player::One);
}

#[test]
fn missed_set_gives_no_letter() {
    let mut g = Game::new();
    g.record_attempt("ollie".to_string(), false, false);
    assert_eq!(g.letters(Player::Two), 0);
    assert_eq!(g.setter(), Player::Two);
    assert!(!g.has_landed(&"ollie".to_string()));
}

#[test]
fn matched_trick_gives_no_letter() {
    let mut g = Game::new();
    g.record_attempt("ollie".to_string(), true, true);
    assert_eq!(g.letters(Player::Two), 0);
    assert!(g.has_landed(&"ollie".to_string()));
    assert_eq!(g.setter(), Player::Two);
}

#[test]
fn letters_stop_at_the_whole_word() {
    let mut g = Game::new();
    for _ in 0..7 {
        g.add_letter(Player::Two);
    }
    assert_eq!(g.letters(Player::Two), 5);
    assert_eq!(g.score(Player::Two), "SKATE");
    assert_eq!(g.winner(), Some(Player::One));
    g.add_letter(Player::One);
    assert_eq!(g.score(Player::One), "S");
}

#[test]
fn play_turn_rejects_bad_phrases() {
    let mut g = Game::new();
    assert_eq!(g.play_turn("kickflip"), TurnOutcome::Invalid(ParseError::MissingStance));
    assert_eq!(g.setter(), Player::One);
}

#[test]
fn play_turn_refuses_a_trick_set_before() {
    let mut g = Game::new();
    let mut landed = false;
    for _ in 0..200 {
        match g.play_turn("Ollie") {
            TurnOutcome::Attempted { setter_landed: true, chance, .. } => {
                assert_eq!(chance, CHANCE_SCALE / 100 * 95);
                landed = true;
                break;
            }
            TurnOutcome::Attempted { .. } => {}
            other => panic!("unexpected {:?}", other),
        }
    }
    assert!(landed);
    assert!(g.has_landed(&"ollie".to_string()));
    let setter = g.setter();
    assert_eq!(g.play_turn("OLLIE"), TurnOutcome::AlreadyLanded);
    assert_eq!(g.setter(), setter);
}
