use word_game::database::DatabaseFactory;
use word_game::database::DatabaseType;
use word_game::error::AppError;
use word_game::session::handle_message;
use word_game::session::Reply;
use word_game::session::ReplyKind;
use word_game::word_game::WordGame;

fn fresh() -> WordGame {
    WordGame::new(DatabaseFactory::create(DatabaseType::InMemory))
}

fn create_game_for(game: &mut WordGame, username: &str) -> String {
    handle_message(game, username, "hello");
    handle_message(game, username, username);
    let replies = handle_message(game, username, "/createGame");
    match replies.into_iter().next() {
        Some(Reply { kind: ReplyKind::GameCreated { game_id }, .. }) => game_id,
        other => panic!("expected GameCreated, got {:?}", other),
    }
}

#[test]
fn a_stranger_is_asked_for_their_name() {
    let mut game = fresh();
    let replies = handle_message(&mut game, "alice@host", "hi there");
    assert_eq!(replies.len(), 1);
    assert_eq!(replies[0].to, "alice@host");
    assert!(matches!(replies[0].kind, ReplyKind::AskName));
}

#[test]
fn the_next_message_becomes_the_display_name() {
    let mut game = fresh();
    handle_message(&mut game, "alice@host", "hi there");
    let replies = handle_message(&mut game, "alice@host", "Alice");
    assert_eq!(replies.len(), 1);
    match &replies[0].kind {
        ReplyKind::Welcome { shown_name } => assert_eq!(shown_name, "Alice"),
        other => panic!("expected Welcome, got {:?}", other),
    }
}

#[test]
fn a_lobby_player_can_create_a_game() {
    let mut game = fresh();
    let code = create_game_for(&mut game, "alice");
    assert_eq!(code.chars().count(), 36);
}

#[test]
fn chatter_in_the_lobby_is_ignored() {
    let mut game = fresh();
    handle_message(&mut game, "alice", "hi");
    handle_message(&mut game, "alice", "Alice");
    let replies = handle_message(&mut game, "alice", "how are you?");
    assert!(replies.is_empty());
}

#[test]
fn a_join_without_a_code_is_answered() {
    let mut game = fresh();
    handle_message(&mut game, "alice", "hi");
    handle_message(&mut game, "alice", "Alice");
    let replies = handle_message(&mut game, "alice", "/join");
    assert_eq!(replies.len(), 1);
    assert!(matches!(replies[0].kind, ReplyKind::NeedGameId));
}

#[test]
fn a_join_with_a_bad_code_reports_the_reason() {
    let mut game = fresh();
    handle_message(&mut game, "alice", "hi");
    handle_message(&mut game, "alice", "Alice");
    let replies = handle_message(&mut game, "alice", "/join nowhere");
    assert_eq!(replies.len(), 1);
    assert!(matches!(
        replies[0].kind,
        ReplyKind::JoinFailed { error: AppError::GameNotFound }
    ));
}

#[test]
fn a_join_tells_the_earlier_member() {
    let mut game = fresh();
    let code = create_game_for(&mut game, "alice");
    handle_message(&mut game, "bob", "hi");
    handle_message(&mut game, "bob", "Bob");
    let body = format!("/join {}", code);
    let replies = handle_message(&mut game, "bob", &body);
    assert_eq!(replies.len(), 2);
    assert_eq!(replies[0].to, "bob");
    assert!(matches!(replies[0].kind, ReplyKind::Joined));
    assert_eq!(replies[1].to, "alice");
    match &replies[1].kind {
        ReplyKind::PlayerJoined { shown_name } => assert_eq!(shown_name, "Bob"),
        other => panic!("expected PlayerJoined, got {:?}", other),
    }
}

#[test]
fn a_winning_guess_notifies_both_members() {
    let mut game = fresh();
    let code = create_game_for(&mut game, "alice");
    handle_message(&mut game, "bob", "hi");
    handle_message(&mut game, "bob", "Bob");
    let body = format!("/join {}", code);
    handle_message(&mut game, "bob", &body);

    assert!(handle_message(&mut game, "alice", "/guess sun").is_empty());
    assert!(handle_message(&mut game, "bob", "/guess moon").is_empty());
    assert!(handle_message(&mut game, "alice", "/guess Star").is_empty());
    let replies = handle_message(&mut game, "bob", "/guess star");
    assert_eq!(replies.len(), 2);
    assert_eq!(replies[0].to, "alice");
    assert!(matches!(replies[0].kind, ReplyKind::Win));
    assert_eq!(replies[1].to, "bob");
    assert!(matches!(replies[1].kind, ReplyKind::Win));
}

#[test]
fn a_guess_without_a_word_is_answered() {
    let mut game = fresh();
    let code = create_game_for(&mut game, "alice");
    handle_message(&mut game, "bob", "hi");
    handle_message(&mut game, "bob", "Bob");
    let body = format!("/join {}", code);
    handle_message(&mut game, "bob", &body);
    let replies = handle_message(&mut game, "bob", "/guess");
    assert_eq!(replies.len(), 1);
    assert!(matches!(replies[0].kind, ReplyKind::NeedGuess));
}

#[test]
fn a_duplicate_guess_is_silently_ignored() {
    let mut game = fresh();
    let code = create_game_for(&mut game, "alice");
    handle_message(&mut game, "bob", "hi");
    handle_message(&mut game, "bob", "Bob");
    let body = format!("/join {}", code);
    handle_message(&mut game, "bob", &body);
    assert!(handle_message(&mut game, "alice", "/guess sun").is_empty());
    assert!(handle_message(&mut game, "alice", "/guess moon").is_empty());
}
