//! What holds of filtering, trimming and splitting, whatever the text.

use crate::text::{
    characters, field_len, fields, filtered, glyph, glyphs, is_blank, is_kept, is_word, kept,
    retained, tokens, tokens_of, trim_end, trim_start, trimmed, unicode_white_space, word_len,
    Glyph,
};
use vstd::prelude::*;

verus! {

/// To classify a text and to take a part of it can be done in either
/// order, and the characters of the glyphs of a text are the text.
pub proof fn lemma_glyphs_of_parts(s: Seq<char>)
    ensures
        characters(glyphs(s)) == s,
        glyphs(s).len() == s.len(),
        forall|i: int| 0 <= i < s.len() ==> #[trigger] glyphs(s)[i] == glyph(s[i]),
        forall|a: int, b: int|
            0 <= a <= b <= s.len() ==> #[trigger] glyphs(s).subrange(a, b) == glyphs(
                s.subrange(a, b),
            ),
        forall|a: int, b: int|
            0 <= a <= b <= s.len() ==> #[trigger] characters(glyphs(s).subrange(a, b))
                == s.subrange(a, b),
{
    assert(characters(glyphs(s)) =~= s);
    assert forall|a: int, b: int| 0 <= a <= b <= s.len() implies #[trigger] glyphs(s).subrange(
        a,
        b,
    ) == glyphs(s.subrange(a, b)) by {
        assert(glyphs(s).subrange(a, b) =~= glyphs(s.subrange(a, b)));
    }
    assert forall|a: int, b: int| 0 <= a <= b <= s.len() implies #[trigger] characters(
        glyphs(s).subrange(a, b),
    ) == s.subrange(a, b) by {
        assert(characters(glyphs(s).subrange(a, b)) =~= s.subrange(a, b));
    }
}

/// What filtering makes of one more glyph: its character is kept at the
/// end, or it is dropped.
pub proof fn lemma_retained_one_more(gs: Seq<Glyph>, g: Glyph, keep_digits: bool)
    ensures
        retained(gs.push(g), keep_digits) == if is_kept(g, keep_digits) {
            retained(gs, keep_digits).push(g.character)
        } else {
            retained(gs, keep_digits)
        },
{
    reveal(Seq::filter);
    let before = gs.filter(kept(keep_digits));
    assert(gs.push(g).drop_last() == gs);
    if is_kept(g, keep_digits) {
        assert(characters(before.push(g)) =~= characters(before).push(g.character));
    }
}

/// What filtering makes of one more character.
proof fn lemma_filtered_one_more(s: Seq<char>, c: char, keep_digits: bool)
    ensures
        filtered(s.push(c), keep_digits) == if is_kept(glyph(c), keep_digits) {
            filtered(s, keep_digits).push(c)
        } else {
            filtered(s, keep_digits)
        },
{
    assert(glyphs(s.push(c)) =~= glyphs(s).push(glyph(c)));
    lemma_retained_one_more(glyphs(s), glyph(c), keep_digits);
}

/// Law: what filtering leaves is clean. Every character of a filtered text
/// is one that filtering keeps.
pub proof fn law_filtered_is_clean(s: Seq<char>, keep_digits: bool)
    ensures
        forall|i: int|
            0 <= i < filtered(s, keep_digits).len() ==> is_kept(
                glyph(#[trigger] filtered(s, keep_digits)[i]),
                keep_digits,
            ),
    decreases s.len(),
{
    if s.len() == 0 {
        reveal(Seq::filter);
    } else {
        law_filtered_is_clean(s.drop_last(), keep_digits);
        lemma_filtered_one_more(s.drop_last(), s.last(), keep_digits);
        assert(s.drop_last().push(s.last()) == s);
    }
}

/// Law: filtering leaves clean text alone. A text that holds nothing but
/// characters that filtering keeps comes back unchanged.
pub proof fn law_filter_keeps_clean_text(s: Seq<char>, keep_digits: bool)
    requires
        forall|i: int| 0 <= i < s.len() ==> is_kept(glyph(#[trigger] s[i]), keep_digits),
    ensures
        filtered(s, keep_digits) == s,
    decreases s.len(),
{
    if s.len() == 0 {
        reveal(Seq::filter);
        assert(filtered(s, keep_digits) =~= s);
    } else {
        law_filter_keeps_clean_text(s.drop_last(), keep_digits);
        lemma_filtered_one_more(s.drop_last(), s.last(), keep_digits);
        assert(s.drop_last().push(s.last()) == s);
    }
}

/// Law: filtering is idempotent. To filter a filtered text changes nothing.
pub proof fn law_filter_is_idempotent(s: Seq<char>, keep_digits: bool)
    ensures
        filtered(filtered(s, keep_digits), keep_digits) == filtered(s, keep_digits),
{
    law_filtered_is_clean(s, keep_digits);
    law_filter_keeps_clean_text(filtered(s, keep_digits), keep_digits);
}

/// Where the leading white space of `gs` ends.
pub proof fn lemma_trim_start(gs: Seq<Glyph>) -> (a: int)
    ensures
        0 <= a <= gs.len(),
        trim_start(gs) == gs.skip(a),
        forall|i: int| 0 <= i < a ==> (#[trigger] gs[i]).white_space,
        a < gs.len() ==> !gs[a].white_space,
    decreases gs.len(),
{
    if gs.len() > 0 && gs[0].white_space {
        let rest = gs.drop_first();
        let b: int = lemma_trim_start(rest);
        assert(rest.skip(b) == gs.skip(b + 1));
        assert forall|i: int| 0 <= i < b + 1 implies (#[trigger] gs[i]).white_space by {
            if i > 0 {
                assert(gs[i] == rest[i - 1]);
            }
        }
        b + 1
    } else {
        assert(gs.skip(0) == gs);
        0
    }
}

/// Where the trailing white space of `gs` begins.
pub proof fn lemma_trim_end(gs: Seq<Glyph>) -> (b: int)
    ensures
        0 <= b <= gs.len(),
        trim_end(gs) == gs.take(b),
        forall|i: int| b <= i < gs.len() ==> (#[trigger] gs[i]).white_space,
        b > 0 ==> !gs[b - 1].white_space,
    decreases gs.len(),
{
    if gs.len() > 0 && gs.last().white_space {
        let rest = gs.drop_last();
        let b: int = lemma_trim_end(rest);
        assert(rest.take(b) == gs.take(b));
        assert forall|i: int| b <= i < gs.len() implies (#[trigger] gs[i]).white_space by {
            if i < rest.len() {
                assert(gs[i] == rest[i]);
            }
        }
        b
    } else {
        assert(gs.take(gs.len() as int) == gs);
        gs.len() as int
    }
}

/// Where the trimmed text lies in `s`.
pub proof fn lemma_trimmed(s: Seq<char>) -> (bounds: (int, int))
    ensures
        0 <= bounds.0 <= bounds.1 <= s.len(),
        trimmed(s) == s.subrange(bounds.0, bounds.1),
        forall|i: int| 0 <= i < bounds.0 ==> unicode_white_space(#[trigger] s[i]),
        forall|i: int| bounds.1 <= i < s.len() ==> unicode_white_space(#[trigger] s[i]),
        bounds.0 < bounds.1 ==> !unicode_white_space(s[bounds.0]) && !unicode_white_space(
            s[bounds.1 - 1],
        ),
{
    let gs = glyphs(s);
    lemma_glyphs_of_parts(s);
    let a: int = lemma_trim_start(gs);
    let rest = gs.skip(a);
    let b: int = lemma_trim_end(rest);
    assert(rest.take(b) == gs.subrange(a, a + b));
    assert forall|i: int| 0 <= i < a implies unicode_white_space(#[trigger] s[i]) by {
        assert(gs[i].white_space);
    }
    assert forall|i: int| a + b <= i < s.len() implies unicode_white_space(#[trigger] s[i]) by {
        assert(rest[i - a].white_space);
    }
    if b > 0 {
        assert(rest[b - 1] == gs[a + b - 1]);
        assert(rest[0] == gs[a]);
    }
    (a, a + b)
}

/// Law: trimming takes white space from the two ends and nothing else.
/// The text is white space, then the trimmed text, then white space.
pub proof fn law_trimmed_is_the_text_between_white_space(s: Seq<char>)
    ensures
        exists|a: int, b: int|
            0 <= a <= b <= s.len() && #[trigger] s.subrange(a, b) == trimmed(s) && is_blank(
                s.take(a),
            ) && is_blank(s.skip(b)),
{
    let (a, b) = lemma_trimmed(s);
    assert(is_blank(s.take(a)));
    assert(is_blank(s.skip(b))) by {
        assert forall|i: int| 0 <= i < s.skip(b).len() implies unicode_white_space(
            #[trigger] s.skip(b)[i],
        ) by {
            assert(s.skip(b)[i] == s[b + i]);
        }
    }
}

/// Law: a trimmed text neither begins nor ends with white space.
pub proof fn law_trimmed_has_no_white_space_at_its_ends(s: Seq<char>)
    ensures
        trimmed(s).len() > 0 ==> !unicode_white_space(trimmed(s).first()) && !unicode_white_space(
            trimmed(s).last(),
        ),
{
    lemma_trimmed(s);
}

/// The first `word_len(gs)` glyphs of `gs` are no white space, and the one
/// after them, if there is one, is.
pub proof fn lemma_word_len(gs: Seq<Glyph>)
    ensures
        word_len(gs) <= gs.len(),
        forall|j: int| 0 <= j < word_len(gs) ==> !(#[trigger] gs[j]).white_space,
        word_len(gs) < gs.len() ==> gs[word_len(gs) as int].white_space,
    decreases gs.len(),
{
    if gs.len() > 0 && !gs[0].white_space {
        let rest = gs.drop_first();
        lemma_word_len(rest);
        assert forall|j: int| 0 <= j < word_len(gs) implies !(#[trigger] gs[j]).white_space by {
            if j > 0 {
                assert(gs[j] == rest[j - 1]);
            }
        }
    }
}

/// Glyphs without white space among them make one token, and glyphs that
/// are all white space make none.
pub proof fn lemma_tokens_of_one_run(gs: Seq<Glyph>)
    ensures
        gs.len() > 0 && (forall|i: int| 0 <= i < gs.len() ==> !(#[trigger] gs[i]).white_space)
            ==> tokens_of(gs) == seq![characters(gs)],
        (forall|i: int| 0 <= i < gs.len() ==> (#[trigger] gs[i]).white_space) ==> tokens_of(gs)
            == Seq::<Seq<char>>::empty(),
    decreases gs.len(),
{
    lemma_word_len(gs);
    if gs.len() > 0 && gs[0].white_space {
        let rest = gs.drop_first();
        lemma_tokens_of_one_run(rest);
        if forall|i: int| 0 <= i < gs.len() ==> (#[trigger] gs[i]).white_space {
            assert forall|i: int| 0 <= i < rest.len() implies (#[trigger] rest[i]).white_space by {
                assert(rest[i] == gs[i + 1]);
            }
        }
    }
}

/// Law: every token is a word. No token is empty and none holds white
/// space.
pub proof fn law_tokens_are_words(s: Seq<char>)
    ensures
        forall|i: int| 0 <= i < tokens(s).len() ==> is_word(#[trigger] tokens(s)[i]),
    decreases s.len(),
{
    let gs = glyphs(s);
    lemma_glyphs_of_parts(s);
    if s.len() > 0 {
        if gs[0].white_space {
            assert(gs.drop_first() == glyphs(s.drop_first()));
            law_tokens_are_words(s.drop_first());
            assert(tokens(s) == tokens(s.drop_first()));
        } else {
            lemma_word_len(gs);
            let n: int = word_len(gs) as int;
            let first = s.subrange(0, n);
            assert(gs.take(n) == gs.subrange(0, n));
            assert(is_word(first)) by {
                assert forall|j: int| 0 <= j < n implies !unicode_white_space(
                    #[trigger] first[j],
                ) by {
                    assert(!gs[j].white_space);
                }
            }
            if n < s.len() {
                assert(gs.skip(n) == glyphs(s.skip(n)));
                law_tokens_are_words(s.skip(n));
                assert(tokens(s) == seq![first] + tokens(s.skip(n)));
                assert forall|i: int| 0 <= i < tokens(s).len() implies is_word(
                    #[trigger] tokens(s)[i],
                ) by {
                    if i > 0 {
                        assert(tokens(s)[i] == tokens(s.skip(n))[i - 1]);
                    }
                }
            } else {
                assert(first == s);
                assert(tokens(s) == seq![s]);
            }
        }
    } else {
        assert(tokens(s).len() == 0);
    }
}

/// Law: a word is its own and only token.
pub proof fn law_word_is_one_token(w: Seq<char>)
    requires
        is_word(w),
    ensures
        tokens(w) == seq![w],
{
    lemma_glyphs_of_parts(w);
    lemma_tokens_of_one_run(glyphs(w));
    assert forall|i: int| 0 <= i < glyphs(w).len() implies !(
    #[trigger] glyphs(w)[i]).white_space by {
        assert(!unicode_white_space(w[i]));
    }
}

/// Law: a text is blank exactly when nothing is left of it after trimming,
/// and exactly when it has no token.
pub proof fn law_blank_text_has_no_token(s: Seq<char>)
    ensures
        is_blank(s) <==> trimmed(s).len() == 0,
        is_blank(s) <==> tokens(s).len() == 0,
{
    let gs = glyphs(s);
    lemma_glyphs_of_parts(s);
    let (a, b) = lemma_trimmed(s);
    if is_blank(s) {
        if a < b {
            assert(unicode_white_space(s[a]));
        }
        lemma_tokens_of_one_run(gs);
        assert forall|i: int| 0 <= i < gs.len() implies (#[trigger] gs[i]).white_space by {
            assert(unicode_white_space(s[i]));
        }
    } else {
        let i: int = choose|i: int| 0 <= i < s.len() && !unicode_white_space(s[i]);
        assert(a <= i < b);
        lemma_some_token(gs, i);
    }
}

/// Glyphs with one that is no white space have a token.
proof fn lemma_some_token(gs: Seq<Glyph>, i: int)
    requires
        0 <= i < gs.len(),
        !gs[i].white_space,
    ensures
        tokens_of(gs).len() > 0,
    decreases gs.len(),
{
    if gs[0].white_space {
        let rest = gs.drop_first();
        assert(rest[i - 1] == gs[i]);
        lemma_some_token(rest, i - 1);
    }
}

/// White space after `x` ends the word that `x` begins with, whatever
/// follows.
proof fn lemma_word_len_before_white_space(x: Seq<Glyph>, g: Glyph, y: Seq<Glyph>)
    requires
        g.white_space,
    ensures
        word_len(x + seq![g] + y) == word_len(x),
    decreases x.len(),
{
    let s = x + seq![g] + y;
    if x.len() > 0 && !x[0].white_space {
        assert(s.drop_first() == x.drop_first() + seq![g] + y);
        lemma_word_len_before_white_space(x.drop_first(), g, y);
    }
}

/// White space separates, whatever the classes are: the tokens of two
/// runs of glyphs with a white space glyph between them are the tokens of
/// the first, then those of the second.
pub proof fn lemma_tokens_split_at_white_space(x: Seq<Glyph>, g: Glyph, y: Seq<Glyph>)
    requires
        g.white_space,
    ensures
        tokens_of(x + seq![g] + y) == tokens_of(x) + tokens_of(y),
    decreases x.len(),
{
    let s = x + seq![g] + y;
    if x.len() == 0 {
        assert(s[0] == g);
        assert(s.drop_first() == y);
        assert(tokens_of(x) + tokens_of(y) == tokens_of(y));
    } else if x[0].white_space {
        assert(s[0] == x[0]);
        assert(s.drop_first() == x.drop_first() + seq![g] + y);
        lemma_tokens_split_at_white_space(x.drop_first(), g, y);
    } else {
        assert(s[0] == x[0]);
        lemma_word_len(x);
        lemma_word_len_before_white_space(x, g, y);
        let n: int = word_len(x) as int;
        assert(s.take(n) == x.take(n));
        if n < x.len() {
            assert(s.skip(n) == x.skip(n) + seq![g] + y);
            lemma_tokens_split_at_white_space(x.skip(n), g, y);
            assert(tokens_of(s) == seq![characters(x.take(n))] + (tokens_of(x.skip(n))
                + tokens_of(y)));
            assert(tokens_of(s) == tokens_of(x) + tokens_of(y));
        } else {
            let rest = s.skip(n);
            assert(x.take(n) == x);
            assert(rest[0] == g);
            assert(rest.drop_first() == y);
            assert(tokens_of(rest) == tokens_of(y));
        }
    }
}

/// Law: white space separates. The tokens of two texts with a white space
/// character between them are the tokens of the first, then those of the
/// second.
///
/// Together with the laws that a blank text has no token and that a word
/// is its own only token, this tells the tokens of every text.
pub proof fn law_tokens_split_at_white_space(x: Seq<char>, c: char, y: Seq<char>)
    requires
        unicode_white_space(c),
    ensures
        tokens(x + seq![c] + y) == tokens(x) + tokens(y),
{
    assert(glyphs(x + seq![c] + y) =~= glyphs(x) + seq![glyph(c)] + glyphs(y));
    lemma_tokens_split_at_white_space(glyphs(x), glyph(c), glyphs(y));
}

/// The first `field_len(s, delimiter)` characters of `s` are not the
/// delimiter, and the one after them, if there is one, is.
pub proof fn lemma_field_len(s: Seq<char>, delimiter: char)
    ensures
        field_len(s, delimiter) <= s.len(),
        forall|j: int| 0 <= j < field_len(s, delimiter) ==> #[trigger] s[j] != delimiter,
        field_len(s, delimiter) < s.len() ==> s[field_len(s, delimiter) as int] == delimiter,
    decreases s.len(),
{
    if s.len() > 0 && s[0] != delimiter {
        let rest = s.drop_first();
        lemma_field_len(rest, delimiter);
        assert forall|j: int| 0 <= j < field_len(s, delimiter) implies #[trigger] s[j]
            != delimiter by {
            if j > 0 {
                assert(s[j] == rest[j - 1]);
            }
        }
    }
}

/// Law: a text without the delimiter is its own and only field.
pub proof fn law_undelimited_is_one_field(s: Seq<char>, delimiter: char)
    requires
        !s.contains(delimiter),
    ensures
        fields(s, delimiter) == seq![s],
{
    lemma_field_len(s, delimiter);
}

/// Law: no field holds the delimiter.
pub proof fn law_fields_hold_no_delimiter(s: Seq<char>, delimiter: char)
    ensures
        forall|i: int|
            0 <= i < fields(s, delimiter).len() ==> !(#[trigger] fields(s, delimiter)[i]).contains(
                delimiter,
            ),
    decreases s.len(),
{
    lemma_field_len(s, delimiter);
    let n: int = field_len(s, delimiter) as int;
    if n < s.len() {
        law_fields_hold_no_delimiter(s.skip(n + 1), delimiter);
        assert forall|i: int| 0 <= i < fields(s, delimiter).len() implies !(#[trigger] fields(
            s,
            delimiter,
        )[i]).contains(delimiter) by {
            if i > 0 {
                assert(fields(s, delimiter)[i] == fields(s.skip(n + 1), delimiter)[i - 1]);
            }
        }
    }
}

/// A delimiter after `x` ends the field that `x` begins with, whatever
/// follows.
proof fn lemma_field_len_before_delimiter(x: Seq<char>, delimiter: char, y: Seq<char>)
    ensures
        field_len(x + seq![delimiter] + y, delimiter) == field_len(x, delimiter),
    decreases x.len(),
{
    let s = x + seq![delimiter] + y;
    if x.len() > 0 && x[0] != delimiter {
        assert(s.drop_first() == x.drop_first() + seq![delimiter] + y);
        lemma_field_len_before_delimiter(x.drop_first(), delimiter, y);
    }
}

/// Law: the delimiter separates. The fields of two texts with a delimiter
/// between them are the fields of the first, then those of the second.
///
/// Together with the law that a text without the delimiter is its own
/// only field, this tells the fields of every text.
pub proof fn law_fields_split_at_delimiter(x: Seq<char>, delimiter: char, y: Seq<char>)
    ensures
        fields(x + seq![delimiter] + y, delimiter) == fields(x, delimiter) + fields(y, delimiter),
    decreases x.len(),
{
    let s = x + seq![delimiter] + y;
    lemma_field_len(x, delimiter);
    lemma_field_len_before_delimiter(x, delimiter, y);
    let n: int = field_len(x, delimiter) as int;
    assert(s.take(n) == x.take(n));
    if n < x.len() {
        assert(s.skip(n + 1) == x.skip(n + 1) + seq![delimiter] + y);
        law_fields_split_at_delimiter(x.skip(n + 1), delimiter, y);
    } else {
        assert(x.take(n) == x);
        assert(s.skip(n + 1) == y);
    }
}

} // verus!
