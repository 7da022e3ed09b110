use word_game::text::guess_texts_match;
use word_game::text::read_second_token;
use word_game::text::text_starts_with;

#[test]
fn matching_ignores_ascii_case() {
    assert!(guess_texts_match("Cat", "cAT"));
    assert!(guess_texts_match("STAR", "star"));
}

#[test]
fn matching_trims_outer_whitespace() {
    assert!(guess_texts_match("Cat", "  cat "));
    assert!(guess_texts_match("\tmoon\n", "moon"));
}

#[test]
fn different_words_do_not_match() {
    assert!(!guess_texts_match("cat", "dog"));
    assert!(!guess_texts_match("cat", "cats"));
}

#[test]
fn internal_whitespace_and_punctuation_count() {
    assert!(!guess_texts_match("ice cream", "icecream"));
    assert!(!guess_texts_match("cat!", "cat"));
}

#[test]
fn empty_and_all_whitespace_guesses_match_each_other() {
    assert!(guess_texts_match("", "   "));
    assert!(!guess_texts_match("", "cat"));
}

#[test]
fn non_ascii_guesses_compare_exactly() {
    assert!(guess_texts_match("Äpfel", "Äpfel"));
    assert!(!guess_texts_match("Äpfel", "äpfel"));
}

#[test]
fn command_prefixes_are_recognised() {
    assert!(text_starts_with("/join abc", "/join"));
    assert!(text_starts_with("/createGame", "/createGame"));
    assert!(!text_starts_with("/jo", "/join"));
    assert!(!text_starts_with("join abc", "/join"));
}

#[test]
fn the_second_token_is_the_command_argument() {
    assert_eq!(read_second_token("/join abc"), Some("abc".to_string()));
    assert_eq!(read_second_token("  /guess   word  "), Some("word".to_string()));
    assert_eq!(read_second_token("/join"), None);
    assert_eq!(read_second_token(""), None);
    assert_eq!(read_second_token("   "), None);
    assert_eq!(read_second_token("/guess two words"), Some("two".to_string()));
}
