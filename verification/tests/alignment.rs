use lemmatizer::alignment::{build_alignment, pair_tokens, LemmatizeResult, PART_DELIMITER};

fn entry(word: &str, lemma: &str, parts: &[&str]) -> (String, String, Vec<String>) {
    (word.to_string(), lemma.to_string(), parts.iter().map(|p| p.to_string()).collect())
}

#[test]
fn the_delimiter_is_a_plus() {
    assert_eq!(PART_DELIMITER, '+');
}

#[test]
fn pairs_tokens_by_position() {
    let result = build_alignment("cats running", "cat run");
    assert_eq!(result.lemmatized_text, "cat run");
    assert_eq!(
        result.word_lemma_map,
        vec![entry("cats", "cat", &["cat"]), entry("running", "run", &["run"])]
    );
}

#[test]
fn splits_each_lemma_into_its_parts() {
    let result = build_alignment("كتبها", "ktb+ha");
    assert_eq!(result.word_lemma_map, vec![entry("كتبها", "ktb+ha", &["ktb", "ha"])]);
}

#[test]
fn a_lemma_without_delimiter_is_its_only_part() {
    let result = build_alignment("cat", "cat");
    assert_eq!(result.word_lemma_map[0].2, vec!["cat".to_string()]);
}

#[test]
fn equal_counts_give_one_entry_per_token() {
    let result = build_alignment("a b c d e", "v w x y z");
    assert_eq!(result.word_lemma_map.len(), 5);
    let words: Vec<&str> = result.word_lemma_map.iter().map(|e| e.0.as_str()).collect();
    let lemmas: Vec<&str> = result.word_lemma_map.iter().map(|e| e.1.as_str()).collect();
    assert_eq!(words, vec!["a", "b", "c", "d", "e"]);
    assert_eq!(lemmas, vec!["v", "w", "x", "y", "z"]);
}

#[test]
fn pairing_goes_by_position_and_not_by_text() {
    let result = build_alignment("run cat", "cat run");
    assert_eq!(
        result.word_lemma_map,
        vec![entry("run", "cat", &["cat"]), entry("cat", "run", &["run"])]
    );
}

#[test]
fn differing_counts_give_an_empty_alignment() {
    let fewer = build_alignment("cats running fast", "cat run");
    assert_eq!(fewer.word_lemma_map, vec![]);
    assert_eq!(fewer.lemmatized_text, "cat run");
    let more = build_alignment("cats", "cat run");
    assert_eq!(more.word_lemma_map, vec![]);
    assert_eq!(more.lemmatized_text, "cat run");
}

#[test]
fn white_space_between_tokens_does_not_count() {
    let result = build_alignment("  cats \t running ", "cat   run");
    assert_eq!(
        result.word_lemma_map,
        vec![entry("cats", "cat", &["cat"]), entry("running", "run", &["run"])]
    );
    assert_eq!(result.lemmatized_text, "cat   run");
}

#[test]
fn nothing_aligned_with_nothing_is_empty() {
    let result = build_alignment("", "");
    assert_eq!(result, LemmatizeResult { lemmatized_text: String::new(), word_lemma_map: vec![] });
}

fn strings(items: &[&str]) -> Vec<String> {
    items.iter().map(|s| s.to_string()).collect()
}

#[test]
fn as_many_lemmas_as_words_pair_up_in_order() {
    let map = pair_tokens(&strings(&["cats", "running"]), &strings(&["cat", "run"]));
    assert_eq!(map, vec![entry("cats", "cat", &["cat"]), entry("running", "run", &["run"])]);
}

#[test]
fn pairing_splits_every_lemma() {
    let map = pair_tokens(&strings(&["وكتبها", "x"]), &strings(&["w+ktb+ha", "+"]));
    assert_eq!(
        map,
        vec![entry("وكتبها", "w+ktb+ha", &["w", "ktb", "ha"]), entry("x", "+", &["", ""])]
    );
}

#[test]
fn fewer_or_more_lemmas_than_words_pair_with_nothing() {
    assert_eq!(pair_tokens(&strings(&["a", "b"]), &strings(&["a"])), vec![]);
    assert_eq!(pair_tokens(&strings(&["a"]), &strings(&["a", "b"])), vec![]);
    assert_eq!(pair_tokens(&strings(&[]), &strings(&["a"])), vec![]);
    assert_eq!(pair_tokens(&strings(&["a"]), &strings(&[])), vec![]);
}

#[test]
fn no_words_and_no_lemmas_pair_into_nothing() {
    assert_eq!(pair_tokens(&strings(&[]), &strings(&[])), vec![]);
}
