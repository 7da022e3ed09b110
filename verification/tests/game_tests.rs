use word_game::error::AppError;
use word_game::game::Game;
use word_game::game::Guess;
use word_game::game::Outcome;

#[test]
fn a_new_game_holds_its_creator_alone() {
    let game = Game::new("alice");
    assert_eq!(game.players(), vec!["alice".to_string()]);
    assert!(!game.is_won());
}

#[test]
fn a_game_code_is_a_hyphenated_uuid() {
    let game = Game::new("alice");
    assert_eq!(game.code().chars().count(), 36);
}

#[test]
fn two_games_get_distinct_codes() {
    let a = Game::new("alice");
    let b = Game::new("alice");
    assert_ne!(a.code(), b.code());
}

#[test]
fn add_player_assigns_the_next_slot() {
    let mut game = Game::new("alice");
    assert_eq!(game.add_player("bob"), Ok(1));
    assert_eq!(game.players(), vec!["alice".to_string(), "bob".to_string()]);
}

#[test]
fn a_third_player_is_refused() {
    let mut game = Game::new("alice");
    assert_eq!(game.add_player("bob"), Ok(1));
    assert_eq!(game.add_player("carol"), Err(AppError::GameFull));
    assert_eq!(game.players().len(), 2);
}

#[test]
fn a_guess_by_a_non_member_is_refused() {
    let mut game = Game::new("alice");
    game.add_player("bob").unwrap();
    assert_eq!(game.add_guess("mallory", "sun"), Err(AppError::PlayerNotInGame));
}

#[test]
fn the_first_guess_of_a_round_is_pending() {
    let mut game = Game::new("alice");
    game.add_player("bob").unwrap();
    assert_eq!(game.add_guess("alice", "sun"), Ok(Outcome::Pending));
}

#[test]
fn a_second_guess_in_the_same_round_is_refused() {
    let mut game = Game::new("alice");
    game.add_player("bob").unwrap();
    assert_eq!(game.add_guess("alice", "sun"), Ok(Outcome::Pending));
    assert_eq!(game.add_guess("alice", "moon"), Err(AppError::DuplicateGuess));
}

#[test]
fn different_guesses_continue_the_game() {
    let mut game = Game::new("alice");
    game.add_player("bob").unwrap();
    assert_eq!(game.add_guess("alice", "cat"), Ok(Outcome::Pending));
    assert_eq!(game.add_guess("bob", "dog"), Ok(Outcome::Continue));
    assert!(!game.is_won());
    // the round is over, so the same player may guess again: a new round opens
    assert_eq!(game.add_guess("alice", "sun"), Ok(Outcome::Pending));
}

#[test]
fn matching_guesses_win_ignoring_case_and_outer_whitespace() {
    let mut game = Game::new("alice");
    game.add_player("bob").unwrap();
    assert_eq!(game.add_guess("alice", "Cat"), Ok(Outcome::Pending));
    assert_eq!(game.add_guess("bob", "  cat "), Ok(Outcome::Won));
    assert!(game.is_won());
}

#[test]
fn slot_order_does_not_matter_for_a_round() {
    let mut game = Game::new("alice");
    game.add_player("bob").unwrap();
    assert_eq!(game.add_guess("bob", "sun"), Ok(Outcome::Pending));
    assert_eq!(game.add_guess("alice", "sun"), Ok(Outcome::Won));
}

#[test]
fn a_complete_round_compares_its_two_guesses() {
    assert!(Guess(Some("Cat".to_string()), Some("  cat ".to_string())).is_match());
    assert!(!Guess(Some("cat".to_string()), Some("dog".to_string())).is_match());
}

#[test]
fn an_incomplete_round_is_no_match() {
    assert!(!Guess(Some("cat".to_string()), None).is_match());
    assert!(!Guess(None, Some("cat".to_string())).is_match());
    assert!(!Guess(None, None).is_match());
}

#[test]
fn internal_whitespace_stays_significant() {
    let mut game = Game::new("alice");
    game.add_player("bob").unwrap();
    assert_eq!(game.add_guess("alice", "ice cream"), Ok(Outcome::Pending));
    assert_eq!(game.add_guess("bob", "icecream"), Ok(Outcome::Continue));
}
