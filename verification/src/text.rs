//! Characters, what the Unicode tables say of them, and the text operations
//! built on that: filtering, trimming, substring search and splitting.
//!
//! What is a letter, a numeric character or white space is for the standard
//! library's Unicode tables to say. The three predicates below name what it
//! says without spelling the tables out, and [`classify`] is the one place
//! that asks. Everything else works on glyphs, that is on characters that
//! carry their classes with them, and is specified and proved whatever the
//! classes are; the operations on plain text classify and then do the same.
//! What follows from the definitions here is proved in [`crate::text_laws`].

use crate::text_laws::{law_undelimited_is_one_field, lemma_retained_one_more};
use vstd::prelude::*;

verus! {

/// Whether `c` is alphabetic, as `char::is_alphabetic` reports it.
pub uninterp spec fn unicode_alphabetic(c: char) -> bool;

/// Whether `c` is numeric, as `char::is_numeric` reports it.
pub uninterp spec fn unicode_numeric(c: char) -> bool;

/// Whether `c` is white space, as `char::is_whitespace` reports it.
pub uninterp spec fn unicode_white_space(c: char) -> bool;

/// `char::is_alphabetic` depends on the character alone: it looks the
/// character up in the Unicode `Alphabetic` table. Nothing else is claimed.
pub assume_specification[ char::is_alphabetic ](c: char) -> (b: bool)
    ensures
        b == unicode_alphabetic(c),
;

/// `char::is_numeric` depends on the character alone: it looks the
/// character up in the Unicode tables of the general categories `Nd`, `Nl`
/// and `No`. Nothing else is claimed.
pub assume_specification[ char::is_numeric ](c: char) -> (b: bool)
    ensures
        b == unicode_numeric(c),
;

/// `char::is_whitespace` depends on the character alone: it looks the
/// character up in the Unicode `White_Space` table. Nothing else is claimed.
pub assume_specification[ char::is_whitespace ](c: char) -> (b: bool)
    ensures
        b == unicode_white_space(c),
;

/// `String::push` appends the given character to the end of the string.
pub assume_specification[ String::push ](s: &mut String, c: char)
    ensures
        final(s)@ == old(s)@.push(c),
;

/// A character together with its classes.
///
/// [`classify`] makes the glyph of a character as the Unicode tables have
/// it. A glyph made by hand may say otherwise: the operations on glyphs go
/// by what the glyph says.
#[derive(Debug, Clone, Copy, PartialEq, Eq, Structural)]
pub struct Glyph {
    pub character: char,
    pub alphabetic: bool,
    pub numeric: bool,
    pub white_space: bool,
}

/// The glyph of `c` as the Unicode tables have it.
pub open spec fn glyph(c: char) -> Glyph {
    Glyph {
        character: c,
        alphabetic: unicode_alphabetic(c),
        numeric: unicode_numeric(c),
        white_space: unicode_white_space(c),
    }
}

/// The glyphs of the characters of `s`, as the Unicode tables have them.
pub open spec fn glyphs(s: Seq<char>) -> Seq<Glyph> {
    Seq::new(s.len(), |i: int| glyph(s[i]))
}

/// The characters of `gs`, without their classes.
pub open spec fn characters(gs: Seq<Glyph>) -> Seq<char> {
    Seq::new(gs.len(), |i: int| gs[i].character)
}

/// Whether filtering keeps `g`: letters and white space always, numeric
/// characters only where `keep_digits` is set.
pub open spec fn is_kept(g: Glyph, keep_digits: bool) -> bool {
    g.alphabetic || g.white_space || (keep_digits && g.numeric)
}

/// `is_kept` as a predicate on glyphs.
pub open spec fn kept(keep_digits: bool) -> spec_fn(Glyph) -> bool {
    |g: Glyph| is_kept(g, keep_digits)
}

/// The characters of the glyphs of `gs` that filtering keeps.
pub open spec fn retained(gs: Seq<Glyph>, keep_digits: bool) -> Seq<char> {
    characters(gs.filter(kept(keep_digits)))
}

/// `s` without the characters that filtering strips.
pub open spec fn filtered(s: Seq<char>, keep_digits: bool) -> Seq<char> {
    retained(glyphs(s), keep_digits)
}

/// `gs` without its leading white space.
pub open spec fn trim_start(gs: Seq<Glyph>) -> Seq<Glyph>
    decreases gs.len(),
{
    if gs.len() > 0 && gs[0].white_space {
        trim_start(gs.drop_first())
    } else {
        gs
    }
}

/// `gs` without its trailing white space.
pub open spec fn trim_end(gs: Seq<Glyph>) -> Seq<Glyph>
    decreases gs.len(),
{
    if gs.len() > 0 && gs.last().white_space {
        trim_end(gs.drop_last())
    } else {
        gs
    }
}

/// The characters of `gs` without its leading and trailing white space.
pub open spec fn trimmed_glyphs(gs: Seq<Glyph>) -> Seq<char> {
    characters(trim_end(trim_start(gs)))
}

/// `s` without its leading and trailing white space.
pub open spec fn trimmed(s: Seq<char>) -> Seq<char> {
    trimmed_glyphs(glyphs(s))
}

/// The number of glyphs of `gs` before its first white space, or all of
/// them where it has none.
pub open spec fn word_len(gs: Seq<Glyph>) -> nat
    decreases gs.len(),
{
    if gs.len() == 0 || gs[0].white_space {
        0
    } else {
        1 + word_len(gs.drop_first())
    }
}

/// The tokens of `gs`: the characters of its maximal runs of glyphs that
/// are not white space, from left to right.
pub open spec fn tokens_of(gs: Seq<Glyph>) -> Seq<Seq<char>>
    decreases gs.len(),
{
    if gs.len() == 0 {
        Seq::empty()
    } else if gs[0].white_space {
        tokens_of(gs.drop_first())
    } else {
        let n = word_len(gs) as int;
        if n < gs.len() {
            seq![characters(gs.take(n))] + tokens_of(gs.skip(n))
        } else {
            seq![characters(gs)]
        }
    }
}

/// The tokens of `s`: its maximal runs of characters that are not white
/// space, from left to right.
pub open spec fn tokens(s: Seq<char>) -> Seq<Seq<char>> {
    tokens_of(glyphs(s))
}

/// Whether `s` holds nothing but white space.
pub open spec fn is_blank(s: Seq<char>) -> bool {
    forall|i: int| 0 <= i < s.len() ==> unicode_white_space(#[trigger] s[i])
}

/// Whether `w` could be a token: it is not empty and holds no white space.
pub open spec fn is_word(w: Seq<char>) -> bool {
    w.len() > 0 && forall|j: int| 0 <= j < w.len() ==> !unicode_white_space(#[trigger] w[j])
}

/// Whether `needle` stands in `haystack` at position `i`.
pub open spec fn occurs_at(haystack: Seq<char>, needle: Seq<char>, i: int) -> bool {
    0 <= i && i + needle.len() <= haystack.len() && haystack.subrange(i, i + needle.len())
        == needle
}

/// Whether `needle` stands somewhere in `haystack`.
pub open spec fn has_infix(haystack: Seq<char>, needle: Seq<char>) -> bool {
    exists|i: int| occurs_at(haystack, needle, i)
}

/// The number of characters of `s` before the first `delimiter`, or all of
/// them where it has none.
pub open spec fn field_len(s: Seq<char>, delimiter: char) -> nat
    decreases s.len(),
{
    if s.len() == 0 || s[0] == delimiter {
        0
    } else {
        1 + field_len(s.drop_first(), delimiter)
    }
}

/// The fields of `s`: what stands before, between and after its
/// delimiters, from left to right. Two delimiters in a row, or one at
/// either end, make an empty field.
pub open spec fn fields(s: Seq<char>, delimiter: char) -> Seq<Seq<char>>
    decreases s.len(),
{
    let n = field_len(s, delimiter) as int;
    if n < s.len() {
        seq![s.take(n)] + fields(s.skip(n + 1), delimiter)
    } else {
        seq![s]
    }
}

/// The characters of `s`, in order.
pub fn chars_of(s: &str) -> (chars: Vec<char>)
    ensures
        chars@ == s@,
{
    let mut chars: Vec<char> = Vec::new();
    for c in it: s.chars()
        invariant
            chars@ == it.seq().take(it.index()),
            it.seq() == s@,
    {
        chars.push(c);
    }
    chars
}

/// Looks `c` up in the Unicode tables.
pub fn classify(c: char) -> (g: Glyph)
    ensures
        g == glyph(c),
{
    Glyph {
        character: c,
        alphabetic: c.is_alphabetic(),
        numeric: c.is_numeric(),
        white_space: c.is_whitespace(),
    }
}

/// The glyphs of the characters of `text`, in order.
pub fn classify_text(text: &str) -> (gs: Vec<Glyph>)
    ensures
        gs@ == glyphs(text@),
{
    let mut gs: Vec<Glyph> = Vec::new();
    for c in it: text.chars()
        invariant
            gs@ == glyphs(it.seq().take(it.index())),
            it.seq() == text@,
    {
        gs.push(classify(c));
    }
    gs
}

/// The characters of `gs` from `from` up to `to`, as a string.
fn string_of(gs: &Vec<Glyph>, from: usize, to: usize) -> (out: String)
    requires
        from <= to <= gs@.len(),
    ensures
        out@ == characters(gs@.subrange(from as int, to as int)),
{
    let mut out = String::new();
    let mut i: usize = from;
    while i < to
        invariant
            from <= i <= to <= gs@.len(),
            out@ == characters(gs@.subrange(from as int, i as int)),
        decreases to - i,
    {
        out.push(gs[i].character);
        i += 1;
    }
    out
}

/// Whether `a` and `b` hold the same characters.
pub fn same_text(a: &str, b: &str) -> (same: bool)
    ensures
        same == (a@ == b@),
{
    let left = chars_of(a);
    let right = chars_of(b);
    if left.len() != right.len() {
        return false;
    }
    let n: usize = left.len();
    let mut i: usize = 0;
    while i < n
        invariant
            i <= n,
            n == left@.len(),
            n == right@.len(),
            left@ == a@,
            right@ == b@,
            forall|k: int| 0 <= k < i ==> left@[k] == right@[k],
        decreases n - i,
    {
        if left[i] != right[i] {
            return false;
        }
        i += 1;
    }
    assert(left@ =~= right@);
    true
}

/// The characters of the glyphs that are letters or white space or, where
/// `keep_digits` is set, numeric, in order.
pub fn filter_glyphs(gs: &Vec<Glyph>, keep_digits: bool) -> (out: String)
    ensures
        out@ == retained(gs@, keep_digits),
{
    let mut out = String::new();
    let n: usize = gs.len();
    let mut i: usize = 0;
    assert(out@ =~= retained(gs@.take(0), keep_digits)) by {
        reveal(Seq::filter);
    }
    while i < n
        invariant
            i <= n,
            n == gs@.len(),
            out@ == retained(gs@.take(i as int), keep_digits),
        decreases n - i,
    {
        let g = gs[i];
        proof {
            assert(gs@.take(i + 1) == gs@.take(i as int).push(g));
            lemma_retained_one_more(gs@.take(i as int), g, keep_digits);
        }
        if g.alphabetic || g.white_space || (keep_digits && g.numeric) {
            out.push(g.character);
        }
        i += 1;
    }
    assert(gs@.take(n as int) == gs@);
    out
}

/// Strips from `text` every character that is neither a letter nor white
/// space nor, where `keep_digits` is set, numeric. What is kept stays in
/// order.
pub fn filter_text(text: &str, keep_digits: bool) -> (out: String)
    ensures
        out@ == filtered(text@, keep_digits),
{
    let gs = classify_text(text);
    filter_glyphs(&gs, keep_digits)
}

/// The characters of `gs` without its leading and trailing white space.
pub fn trim_glyphs(gs: &Vec<Glyph>) -> (out: String)
    ensures
        out@ == trimmed_glyphs(gs@),
{
    let n: usize = gs.len();
    let mut a: usize = 0;
    assert(gs@.skip(0) == gs@);
    while a < n && gs[a].white_space
        invariant
            a <= n,
            n == gs@.len(),
            trim_start(gs@) == trim_start(gs@.skip(a as int)),
        decreases n - a,
    {
        assert(gs@.skip(a as int).drop_first() == gs@.skip(a + 1));
        a += 1;
    }
    let mut b: usize = n;
    while b > a && gs[b - 1].white_space
        invariant
            a <= b <= n,
            n == gs@.len(),
            trim_end(trim_start(gs@)) == trim_end(gs@.subrange(a as int, b as int)),
        decreases b,
    {
        assert(gs@.subrange(a as int, b as int).drop_last() == gs@.subrange(a as int, b - 1));
        b -= 1;
    }
    string_of(gs, a, b)
}

/// Removes leading and trailing white space.
pub fn trim(text: &str) -> (out: String)
    ensures
        out@ == trimmed(text@),
{
    let gs = classify_text(text);
    trim_glyphs(&gs)
}

/// Whether `needle` stands in `haystack` at position `i`.
fn matches_at(haystack: &Vec<char>, needle: &Vec<char>, i: usize) -> (found: bool)
    requires
        i + needle@.len() <= haystack@.len(),
    ensures
        found == occurs_at(haystack@, needle@, i as int),
{
    let len: usize = needle.len();
    let total: usize = haystack.len();
    let mut j: usize = 0;
    while j < len
        invariant
            j <= len,
            len == needle@.len(),
            total == haystack@.len(),
            i + len <= total,
            forall|k: int| 0 <= k < j ==> haystack@[i + k] == needle@[k],
        decreases len - j,
    {
        if haystack[i + j] != needle[j] {
            return false;
        }
        j += 1;
    }
    assert(haystack@.subrange(i as int, i + len) =~= needle@);
    true
}

/// Whether `needle` occurs in `haystack` as a contiguous run of characters.
/// The empty needle occurs in every haystack.
pub fn contains(haystack: &str, needle: &str) -> (found: bool)
    ensures
        found == has_infix(haystack@, needle@),
{
    let h = chars_of(haystack);
    let p = chars_of(needle);
    if p.len() == 0 {
        assert(occurs_at(h@, p@, 0)) by {
            assert(h@.subrange(0, 0) =~= p@);
        }
        return true;
    }
    if p.len() > h.len() {
        return false;
    }
    let total: usize = h.len();
    let last: usize = total - p.len();
    let mut i: usize = 0;
    while i <= last
        invariant
            h@ == haystack@,
            p@ == needle@,
            0 < p@.len() <= h@.len(),
            total == h@.len(),
            last == total - p@.len(),
            i <= last + 1,
            forall|k: int| 0 <= k < i ==> !occurs_at(h@, p@, k),
        decreases last + 1 - i,
    {
        if matches_at(&h, &p, i) {
            return true;
        }
        i += 1;
    }
    false
}

/// The tokens of `gs`: it is split on runs of white space. Leading and
/// trailing white space yields no token, so no token is empty.
pub fn split_glyphs(gs: &Vec<Glyph>) -> (out: Vec<String>)
    ensures
        out.deep_view() == tokens_of(gs@),
{
    let n: usize = gs.len();
    let mut out: Vec<String> = Vec::new();
    let mut i: usize = 0;
    assert(gs@.skip(0) == gs@);
    while i < n
        invariant
            i <= n,
            n == gs@.len(),
            out.deep_view() + tokens_of(gs@.skip(i as int)) == tokens_of(gs@),
        decreases n - i,
    {
        if gs[i].white_space {
            assert(gs@.skip(i as int).drop_first() == gs@.skip(i + 1));
            i += 1;
        } else {
            let start: usize = i;
            let ghost rest = gs@.skip(start as int);
            while i < n && !gs[i].white_space
                invariant
                    start <= i <= n,
                    n == gs@.len(),
                    word_len(rest) == (i - start) + word_len(gs@.skip(i as int)),
                    rest == gs@.skip(start as int),
                decreases n - i,
            {
                assert(gs@.skip(i as int).drop_first() == gs@.skip(i + 1));
                i += 1;
            }
            let word = string_of(gs, start, i);
            assert(rest.take(i - start) == gs@.subrange(start as int, i as int));
            assert(rest.skip(i - start) == gs@.skip(i as int));
            out.push(word);
        }
    }
    out
}

/// Splits `text` on runs of white space. Leading and trailing white space
/// yields no token, so no token is empty.
pub fn split_whitespace(text: &str) -> (out: Vec<String>)
    ensures
        out.deep_view() == tokens(text@),
{
    let gs = classify_text(text);
    split_glyphs(&gs)
}

/// Splits `text` at every `delimiter`. A text without the delimiter
/// yields itself as its only field; two delimiters in a row, or one at
/// either end, yield an empty field.
pub fn split_on(text: &str, delimiter: char) -> (out: Vec<String>)
    ensures
        out.deep_view() == fields(text@, delimiter),
        !text@.contains(delimiter) ==> out.deep_view() == seq![text@],
{
    proof {
        if !text@.contains(delimiter) {
            law_undelimited_is_one_field(text@, delimiter);
        }
    }
    let chars = chars_of(text);
    let n: usize = chars.len();
    let mut out: Vec<String> = Vec::new();
    let mut field = String::new();
    let mut i: usize = 0;
    let ghost mut start: int = 0;
    assert(chars@.skip(0) == chars@);
    while i < n
        invariant
            0 <= start <= i <= n,
            n == chars@.len(),
            field@ == chars@.subrange(start, i as int),
            field_len(chars@.skip(start), delimiter) == (i - start) + field_len(
                chars@.skip(i as int),
                delimiter,
            ),
            out.deep_view() + fields(chars@.skip(start), delimiter) == fields(chars@, delimiter),
        decreases n - i,
    {
        let ghost rest = chars@.skip(start);
        assert(chars@.skip(i as int).drop_first() == chars@.skip(i + 1));
        if chars[i] == delimiter {
            assert(rest.take(i - start) == chars@.subrange(start, i as int));
            assert(rest.skip(i - start + 1) == chars@.skip(i + 1));
            out.push(field);
            field = String::new();
            i += 1;
            proof {
                start = i as int;
            }
        } else {
            field.push(chars[i]);
            i += 1;
        }
    }
    out.push(field);
    out
}

} // verus!
