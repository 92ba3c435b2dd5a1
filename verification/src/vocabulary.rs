//! The rules by which a service that keeps a learner's vocabulary reads
//! what its store holds: which learning states there are, what holds of a
//! lemma or a part that the store has not seen, and when a word counts as
//! known.

use crate::text::same_text;
use vstd::prelude::*;
use vstd::string::StringExecFns;

verus! {

/// The learning state of a lemma that the store has not seen.
pub const NEW: &'static str = "new";

/// The learning state of a lemma that is being learnt.
pub const LEARNING: &'static str = "learning";

/// The learning state of a lemma that has been learnt.
pub const KNOWN: &'static str = "known";

/// The learning state of a lemma that the learner has set aside.
pub const IGNORED: &'static str = "ignored";

/// Whether `status` names a learning state.
pub open spec fn is_status(status: Seq<char>) -> bool {
    status == NEW@ || status == LEARNING@ || status == KNOWN@ || status == IGNORED@
}

/// Whether `status` names a learning state: `new`, `learning`, `known` or
/// `ignored`, written exactly so.
pub fn is_valid_status(status: &str) -> (valid: bool)
    ensures
        valid == is_status(status@),
{
    same_text(status, NEW) || same_text(status, LEARNING) || same_text(status, KNOWN) || same_text(
        status,
        IGNORED,
    )
}

/// The learning state to report for a lemma: the stored one, or `new` for
/// a lemma that the store does not hold.
pub fn status_or_new(stored: Option<String>) -> (status: String)
    ensures
        status@ == match stored {
            Some(text) => text@,
            None => NEW@,
        },
{
    match stored {
        Some(text) => text,
        None => String::from_str(NEW),
    }
}

/// What the store knows of one part of a lemma.
#[derive(Debug, PartialEq, Eq)]
pub struct PartStatus {
    pub part: String,
    pub is_known: bool,
    pub count: i64,
}

/// What to report of `part`, given the row that the store holds for it, if
/// any, as whether it is known and how often it was seen. A part without a
/// row is unknown and was never seen.
pub fn part_status(part: String, stored: Option<(bool, i64)>) -> (status: PartStatus)
    ensures
        status.part == part,
        status.is_known == match stored {
            Some(row) => row.0,
            None => false,
        },
        status.count == match stored {
            Some(row) => row.1,
            None => 0,
        },
{
    match stored {
        Some(row) => PartStatus { part, is_known: row.0, count: row.1 },
        None => PartStatus { part, is_known: false, count: 0 },
    }
}

/// Whether a word is known: every one of its lemma's parts is.
pub fn all_known(parts: &Vec<PartStatus>) -> (known: bool)
    ensures
        known == forall|i: int| 0 <= i < parts@.len() ==> (#[trigger] parts@[i]).is_known,
{
    let n: usize = parts.len();
    let mut i: usize = 0;
    while i < n
        invariant
            i <= n,
            n == parts@.len(),
            forall|k: int| 0 <= k < i ==> (#[trigger] parts@[k]).is_known,
        decreases n - i,
    {
        if !parts[i].is_known {
            return false;
        }
        i += 1;
    }
    true
}

/// Whether a learner who has named `unknown_words` knows `word`: it is
/// not among them.
pub fn is_known_word(word: &str, unknown_words: &Vec<String>) -> (known: bool)
    ensures
        known == !unknown_words.deep_view().contains(word@),
{
    let n: usize = unknown_words.len();
    let mut i: usize = 0;
    while i < n
        invariant
            i <= n,
            n == unknown_words@.len(),
            forall|k: int| 0 <= k < i ==> unknown_words.deep_view()[k] != word@,
        decreases n - i,
    {
        if same_text(unknown_words[i].as_str(), word) {
            assert(unknown_words.deep_view()[i as int] == word@);
            return false;
        }
        i += 1;
    }
    true
}

} // verus!
