use word_game::domain::Player;
use word_game::repository::InMemoryPlayerRepository;
use word_game::repository::PlayerRepository;

#[test]
fn it_should_return_an_empty_vec_when_empty() {
    let expected = vec![];
    let repo = InMemoryPlayerRepository::new();

    let actual = repo.get_all();

    assert_eq!(actual, expected)
}

#[test]
fn it_should_return_player_on_save() {
    let player = Player::new("id", "username");
    let expected = player.clone();
    let mut repo = InMemoryPlayerRepository::new();

    let actual = repo.save(player);

    assert_eq!(actual, expected);
}

#[test]
fn it_can_add_a_player() {
    let player = Player::new("id", "username");
    let expected = vec![player.clone()];
    let mut repo = InMemoryPlayerRepository::new();

    repo.save(player);
    let actual = repo.get_all();

    assert_eq!(actual, expected);
}

#[test]
fn it_can_get_a_player_by_id() {
    let id = "id-123";
    let player = Player::new(id, "username-123");
    let expected = Some(player.clone());
    let mut repo = InMemoryPlayerRepository::new();
    repo.save(player);

    let actual = repo.get(id);

    assert_eq!(actual, expected);
}

#[test]
fn it_returns_none_for_an_unknown_id() {
    let repo = InMemoryPlayerRepository::new();

    assert_eq!(repo.get("missing"), None);
}

#[test]
fn it_overwrites_a_record_saved_under_the_same_id() {
    let mut repo = InMemoryPlayerRepository::new();
    repo.save(Player::new("id-1", "old-name"));
    repo.save(Player::new("id-1", "new-name"));

    assert_eq!(repo.get_all().len(), 1);
    assert_eq!(repo.get("id-1"), Some(Player::new("id-1", "new-name")));
}

#[test]
fn it_can_delete_a_player_by_id() {
    let mut repo = InMemoryPlayerRepository::new();
    let player = Player::new("id-9", "username-9");
    repo.save(player.clone());

    assert_eq!(repo.delete("id-9"), Some(player));
    assert_eq!(repo.get_all(), vec![]);
    assert_eq!(repo.delete("id-9"), None);
}

#[test]
fn it_exposes_the_id_of_a_record() {
    let player = Player::new("id-7", "username-7");
    assert_eq!(player.id(), "id-7".to_string());
}
