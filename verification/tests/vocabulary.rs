use lemmatizer::text::same_text;
use lemmatizer::vocabulary::{
    all_known, is_known_word, is_valid_status, part_status, status_or_new, PartStatus, IGNORED,
    KNOWN, LEARNING, NEW,
};

fn part(name: &str, is_known: bool, count: i64) -> PartStatus {
    PartStatus { part: name.to_string(), is_known, count }
}

#[test]
fn same_text_compares_character_by_character() {
    assert!(same_text("", ""));
    assert!(same_text("known", "known"));
    assert!(!same_text("known", "Known"));
    assert!(!same_text("known", "know"));
    assert!(!same_text("know", "known"));
    assert!(same_text("كتب", "كتب"));
}

#[test]
fn the_four_states_are_valid() {
    assert_eq!([NEW, LEARNING, KNOWN, IGNORED], ["new", "learning", "known", "ignored"]);
    for status in [NEW, LEARNING, KNOWN, IGNORED] {
        assert!(is_valid_status(status));
    }
}

#[test]
fn nothing_else_is_a_valid_state() {
    for status in ["", "New", "known ", " known", "unknown", "learnt", "new,known"] {
        assert!(!is_valid_status(status));
    }
}

#[test]
fn an_unseen_lemma_is_new() {
    assert_eq!(status_or_new(None), "new");
    assert_eq!(status_or_new(Some("learning".to_string())), "learning");
    assert_eq!(status_or_new(Some("odd".to_string())), "odd");
}

#[test]
fn an_unseen_part_is_unknown_and_uncounted() {
    assert_eq!(part_status("ktb".to_string(), None), part("ktb", false, 0));
}

#[test]
fn a_stored_part_reports_its_row() {
    assert_eq!(part_status("ktb".to_string(), Some((true, 7))), part("ktb", true, 7));
    assert_eq!(part_status("ha".to_string(), Some((false, 2))), part("ha", false, 2));
}

#[test]
fn a_word_is_known_when_all_its_parts_are() {
    assert!(all_known(&vec![part("ktb", true, 3), part("ha", true, 1)]));
    assert!(!all_known(&vec![part("ktb", true, 3), part("ha", false, 1)]));
    assert!(!all_known(&vec![part("ktb", false, 0)]));
    assert!(all_known(&vec![]));
}

#[test]
fn a_word_is_known_unless_named_unknown() {
    let unknown = vec!["running".to_string(), "cats".to_string()];
    assert!(!is_known_word("cats", &unknown));
    assert!(!is_known_word("running", &unknown));
    assert!(is_known_word("cat", &unknown));
    assert!(is_known_word("Cats", &unknown));
    assert!(is_known_word("cats", &vec![]));
}
