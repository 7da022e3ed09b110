use word_game::database::DatabaseFactory;
use word_game::database::DatabaseType;
use word_game::error::AppError;
use word_game::game::Outcome;
use word_game::player::PlayerStatus;
use word_game::word_game::WordGame;

fn fresh() -> WordGame {
    WordGame::new(DatabaseFactory::create(DatabaseType::InMemory))
}

#[test]
fn a_brand_new_username_starts_new() {
    let mut game = fresh();
    assert!(!game.has_player("alice"));
    let p = game.get_player("alice").unwrap();
    assert!(matches!(p.status, PlayerStatus::New));
    assert!(p.display_name.is_none());
    assert!(game.has_player("alice"));
}

#[test]
fn get_player_returns_the_existing_record() {
    let mut game = fresh();
    game.get_player("alice").unwrap();
    game.change_player_to_introducing("alice").unwrap();
    let p = game.get_player("alice").unwrap();
    assert!(matches!(p.status, PlayerStatus::Introducing));
}

#[test]
fn introduction_round_trips_to_the_lobby() {
    let mut game = fresh();
    game.get_player("alice").unwrap();
    let p = game.change_player_to_introducing("alice").unwrap();
    assert!(matches!(p.status, PlayerStatus::Introducing));
    let p = game.introduce_player("alice", "Al").unwrap();
    assert!(matches!(p.status, PlayerStatus::InLobby));
    assert_eq!(p.display_name, Some("Al".to_string()));
}

#[test]
fn change_to_introducing_is_idempotent() {
    let mut game = fresh();
    let first = game.change_player_to_introducing("alice").unwrap();
    let second = game.change_player_to_introducing("alice").unwrap();
    assert!(matches!(first.status, PlayerStatus::Introducing));
    assert!(matches!(second.status, PlayerStatus::Introducing));
    assert_eq!(first.display_name, second.display_name);
}

#[test]
fn introducing_an_unknown_player_is_refused() {
    let mut game = fresh();
    assert!(matches!(game.introduce_player("ghost", "G"), Err(AppError::PlayerNotFound)));
}

#[test]
fn creating_a_game_needs_an_existing_player() {
    let mut game = fresh();
    assert!(matches!(game.new_game("ghost"), Err(AppError::PlayerNotFound)));
}

#[test]
fn creating_a_game_puts_the_creator_in_it() {
    let mut game = fresh();
    game.get_player("alice").unwrap();
    let code = game.new_game("alice").unwrap();
    assert_eq!(code.chars().count(), 36);
    assert_eq!(game.get_players_in_game(&code).unwrap(), vec!["alice".to_string()]);
    let p = game.get_player("alice").unwrap();
    match p.status {
        PlayerStatus::InGame { game_id } => assert_eq!(game_id, code),
        other => panic!("expected InGame, got {:?}", other),
    }
}

#[test]
fn joining_needs_an_existing_player_and_game() {
    let mut game = fresh();
    assert!(matches!(game.join_game("ghost", "nowhere"), Err(AppError::PlayerNotFound)));
    game.get_player("bob").unwrap();
    assert!(matches!(game.join_game("bob", "nowhere"), Err(AppError::GameNotFound)));
}

#[test]
fn a_third_join_always_fails_with_game_full() {
    let mut game = fresh();
    game.get_player("alice").unwrap();
    let code = game.new_game("alice").unwrap();
    game.get_player("bob").unwrap();
    assert!(game.join_game("bob", &code).is_ok());
    game.get_player("carol").unwrap();
    assert!(matches!(game.join_game("carol", &code), Err(AppError::GameFull)));
    assert_eq!(game.get_players_in_game(&code).unwrap().len(), 2);
}

#[test]
fn guessing_in_an_unknown_game_is_refused() {
    let mut game = fresh();
    assert!(matches!(game.submit_guess("alice", "nowhere", "sun"), Err(AppError::GameNotFound)));
}

#[test]
fn guessing_by_a_non_member_is_refused() {
    let mut game = fresh();
    game.get_player("alice").unwrap();
    let code = game.new_game("alice").unwrap();
    game.get_player("mallory").unwrap();
    assert!(matches!(game.submit_guess("mallory", &code, "sun"), Err(AppError::PlayerNotInGame)));
}

#[test]
fn guessing_twice_in_an_open_round_is_refused() {
    let mut game = fresh();
    game.get_player("alice").unwrap();
    let code = game.new_game("alice").unwrap();
    game.get_player("bob").unwrap();
    game.join_game("bob", &code).unwrap();
    assert_eq!(game.submit_guess("alice", &code, "sun"), Ok(Outcome::Pending));
    assert!(matches!(game.submit_guess("alice", &code, "moon"), Err(AppError::DuplicateGuess)));
}

#[test]
fn guessing_in_a_won_game_is_refused() {
    let mut game = fresh();
    game.get_player("alice").unwrap();
    let code = game.new_game("alice").unwrap();
    game.get_player("bob").unwrap();
    game.join_game("bob", &code).unwrap();
    game.submit_guess("alice", &code, "sun").unwrap();
    assert_eq!(game.submit_guess("bob", &code, "Sun"), Ok(Outcome::Won));
    assert!(matches!(game.submit_guess("alice", &code, "sun"), Err(AppError::GameComplete)));
}

#[test]
fn winners_return_to_the_lobby() {
    let mut game = fresh();
    game.get_player("alice").unwrap();
    let code = game.new_game("alice").unwrap();
    game.get_player("bob").unwrap();
    game.join_game("bob", &code).unwrap();
    game.submit_guess("alice", &code, "star").unwrap();
    assert_eq!(game.submit_guess("bob", &code, " STAR "), Ok(Outcome::Won));
    let alice = game.get_player("alice").unwrap();
    let bob = game.get_player("bob").unwrap();
    assert!(matches!(alice.status, PlayerStatus::InLobby));
    assert!(matches!(bob.status, PlayerStatus::InLobby));
    assert_eq!(game.is_game_complete(&code), Ok(true));
}

#[test]
fn an_end_to_end_game() {
    let mut game = fresh();
    game.get_player("alice").unwrap();
    let code = game.new_game("alice").unwrap();
    game.get_player("bob").unwrap();
    game.join_game("bob", &code).unwrap();
    assert_eq!(
        game.get_players_in_game(&code).unwrap(),
        vec!["alice".to_string(), "bob".to_string()]
    );
    assert_eq!(game.submit_guess("alice", &code, "sun"), Ok(Outcome::Pending));
    assert_eq!(game.submit_guess("bob", &code, "moon"), Ok(Outcome::Continue));
    assert_eq!(game.submit_guess("alice", &code, "star"), Ok(Outcome::Pending));
    assert_eq!(game.submit_guess("bob", &code, "Star"), Ok(Outcome::Won));
}

#[test]
fn return_to_lobby_is_unconditional() {
    let mut game = fresh();
    let p = game.return_to_lobby("wanderer").unwrap();
    assert!(matches!(p.status, PlayerStatus::InLobby));
}

#[test]
fn save_player_persists_a_record() {
    let mut game = fresh();
    let mut p = game.get_player("alice").unwrap();
    p.set_display_name("Alice");
    game.save_player(&p).unwrap();
    let loaded = game.get_player("alice").unwrap();
    assert_eq!(loaded.display_name, Some("Alice".to_string()));
}

#[test]
fn find_game_reports_unknown_codes() {
    let game = fresh();
    assert!(matches!(game.find_game("nowhere"), Err(AppError::GameNotFound)));
}

#[test]
fn the_debug_snapshot_lists_every_record() {
    let mut game = fresh();
    game.get_player("alice").unwrap();
    game.get_player("bob").unwrap();
    game.new_game("alice").unwrap();
    let (players, games) = game.debug();
    assert_eq!(players.len(), 2);
    assert_eq!(games.len(), 1);
}

#[test]
fn error_messages_name_the_failure() {
    assert_eq!(AppError::GameFull.message(), "Game is full");
    assert_eq!(AppError::PlayerNotFound.message(), "Could not find player");
}
