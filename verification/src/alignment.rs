//! Positional alignment of the tokens of a request with the tokens of the
//! analyzer's answer.
//!
//! The pairing is by position alone: token `i` of the request goes with
//! token `i` of the answer. Where the two token counts differ, nothing can
//! be paired and the alignment is empty; the answer's text is still handed
//! back, so only the per-token structure is lost.

use crate::text::{fields, split_on, split_whitespace, tokens};
use vstd::prelude::*;
use vstd::string::StringExecFns;

verus! {

/// The character that separates the parts of a lemma in the analyzer's
/// answer.
pub const PART_DELIMITER: char = '+';

/// What one request yields: the answer's text, and the alignment of the
/// request's tokens with the answer's. Each entry of `word_lemma_map` holds
/// a token of the request, the lemma at the same position of the answer,
/// and that lemma's parts.
#[derive(Debug, PartialEq, Eq)]
pub struct LemmatizeResult {
    pub lemmatized_text: String,
    pub word_lemma_map: Vec<(String, String, Vec<String>)>,
}

/// One aligned token, as plain sequences: the word, its lemma, and the
/// lemma's parts.
pub type Entry = (Seq<char>, Seq<char>, Seq<Seq<char>>);

/// The mathematical content of a [`LemmatizeResult`].
pub struct LemmatizeResultView {
    pub lemmatized_text: Seq<char>,
    pub word_lemma_map: Seq<Entry>,
}

impl View for LemmatizeResult {
    type V = LemmatizeResultView;

    open spec fn view(&self) -> LemmatizeResultView {
        LemmatizeResultView {
            lemmatized_text: self.lemmatized_text@,
            word_lemma_map: self.word_lemma_map.deep_view(),
        }
    }
}

/// The entry for `word` aligned with `lemma`.
pub open spec fn entry(word: Seq<char>, lemma: Seq<char>) -> Entry {
    (word, lemma, fields(lemma, PART_DELIMITER))
}

/// `words` paired with `lemmas` by position; empty where their numbers
/// differ.
pub open spec fn paired(words: Seq<Seq<char>>, lemmas: Seq<Seq<char>>) -> Seq<Entry> {
    if words.len() == lemmas.len() {
        Seq::new(words.len(), |i: int| entry(words[i], lemmas[i]))
    } else {
        Seq::empty()
    }
}

/// The result for a request whose filtered text is `filtered_text` and whose
/// answer is `response`.
pub open spec fn alignment(filtered_text: Seq<char>, response: Seq<char>) -> LemmatizeResultView {
    LemmatizeResultView {
        lemmatized_text: response,
        word_lemma_map: paired(tokens(filtered_text), tokens(response)),
    }
}

/// Pairs `words` with `lemmas` by position, and splits each lemma into its
/// parts.
///
/// Where there are as many lemmas as words, the result has one entry for
/// each word, in order: the word, the lemma at the same position, and that
/// lemma's parts. Where the numbers differ, the result is empty.
pub fn pair_tokens(words: &Vec<String>, lemmas: &Vec<String>) -> (map: Vec<
    (String, String, Vec<String>),
>)
    ensures
        map.deep_view() == paired(words.deep_view(), lemmas.deep_view()),
        words@.len() == lemmas@.len() ==> map@.len() == words@.len(),
        words@.len() != lemmas@.len() ==> map@.len() == 0,
{
    let mut map: Vec<(String, String, Vec<String>)> = Vec::new();
    if words.len() == lemmas.len() {
        let n: usize = words.len();
        let mut i: usize = 0;
        while i < n
            invariant
                i <= n,
                n == words@.len(),
                n == lemmas@.len(),
                map@.len() == i,
                forall|k: int|
                    0 <= k < i ==> #[trigger] map.deep_view()[k] == entry(
                        words.deep_view()[k],
                        lemmas.deep_view()[k],
                    ),
            decreases n - i,
        {
            let ghost before = map.deep_view();
            let parts = split_on(lemmas[i].as_str(), PART_DELIMITER);
            let word = words[i].clone();
            let lemma = lemmas[i].clone();
            map.push((word, lemma, parts));
            assert(map.deep_view() =~= before.push(
                entry(words.deep_view()[i as int], lemmas.deep_view()[i as int]),
            ));
            i += 1;
        }
    }
    map
}

/// Aligns the tokens of `filtered_text` with the tokens of `response`.
///
/// Where both have the same number of tokens, the alignment has one entry
/// per token, in the order of the request. Where they differ, the alignment
/// is empty. Either way `response` is returned unchanged as the result's
/// text; a mismatch is not an error.
pub fn build_alignment(filtered_text: &str, response: &str) -> (result: LemmatizeResult)
    ensures
        result@ == alignment(filtered_text@, response@),
        result@.lemmatized_text == response@,
        tokens(filtered_text@).len() == tokens(response@).len() ==> ({
            &&& result@.word_lemma_map.len() == tokens(filtered_text@).len()
            &&& forall|i: int|
                0 <= i < tokens(filtered_text@).len() ==> {
                    &&& (#[trigger] result@.word_lemma_map[i]).0 == tokens(filtered_text@)[i]
                    &&& result@.word_lemma_map[i].1 == tokens(response@)[i]
                    &&& result@.word_lemma_map[i].2 == fields(tokens(response@)[i], PART_DELIMITER)
                }
        }),
        tokens(filtered_text@).len() != tokens(response@).len() ==> result@.word_lemma_map.len()
            == 0,
{
    let words = split_whitespace(filtered_text);
    let lemmas = split_whitespace(response);
    let map = pair_tokens(&words, &lemmas);
    LemmatizeResult { lemmatized_text: String::from_str(response), word_lemma_map: map }
}

} // verus!
