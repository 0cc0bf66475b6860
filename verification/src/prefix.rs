//! What stands before the scanner's position does not matter: every scan of
//! a text behind a prefix is the scan of the text alone, moved by the length
//! of the prefix.

use crate::grammar::{
    alias_phase, enumerators, expect_at, fields_phase, has_literal_at, ident_end, is_space,
    lemma_enumerators_are_runs, lemma_ident_end, lemma_skip_space_bounds, lemma_space_end,
    optional_at, parse_text, skip_space, space_end, tag_phase, Failure,
};
use vstd::prelude::*;

verus! {

/// A position of a phase's result, moved by `by`; a failure stays as it is.
pub open spec fn moved<T>(r: Result<(T, int), Failure>, by: int) -> Result<(T, int), Failure> {
    match r {
        Ok((value, pos)) => Ok((value, pos + by)),
        Err(failure) => Err(failure),
    }
}

/// A run of blanks behind a prefix ends where it ends without the prefix.
pub proof fn lemma_space_end_behind(prefix: Seq<char>, text: Seq<char>, pos: int)
    requires
        0 <= pos,
    ensures
        space_end(prefix + text, prefix.len() + pos) == prefix.len() + space_end(text, pos),
    decreases text.len() - pos,
{
    if pos < text.len() {
        assert((prefix + text)[prefix.len() + pos] == text[pos]);
        if is_space(text[pos]) {
            lemma_space_end_behind(prefix, text, pos + 1);
        }
    }
}

/// Skipping blanks behind a prefix leads where it leads without the prefix.
pub proof fn lemma_skip_space_behind(prefix: Seq<char>, text: Seq<char>, pos: int)
    requires
        0 <= pos,
    ensures
        skip_space(prefix + text, prefix.len() + pos) == prefix.len() + skip_space(text, pos),
{
    lemma_space_end_behind(prefix, text, pos);
}

/// An identifier behind a prefix ends where it ends without the prefix.
pub proof fn lemma_ident_end_behind(prefix: Seq<char>, text: Seq<char>, pos: int, delim: char)
    requires
        0 <= pos,
    ensures
        ident_end(prefix + text, prefix.len() + pos, delim) == prefix.len() + ident_end(
            text,
            pos,
            delim,
        ),
    decreases text.len() - pos,
{
    if pos < text.len() {
        assert((prefix + text)[prefix.len() + pos] == text[pos]);
        if !is_space(text[pos]) && text[pos] != delim {
            lemma_ident_end_behind(prefix, text, pos + 1, delim);
        }
    }
}

/// A piece of a text behind a prefix is the same piece of the text alone.
pub proof fn lemma_subrange_behind(prefix: Seq<char>, text: Seq<char>, from: int, to: int)
    requires
        0 <= from <= to <= text.len(),
    ensures
        (prefix + text).subrange(prefix.len() + from, prefix.len() + to) == text.subrange(from, to),
{
    assert((prefix + text).subrange(prefix.len() + from, prefix.len() + to) =~= text.subrange(
        from,
        to,
    ));
}

/// A literal stands behind a prefix where it stands without the prefix.
pub proof fn lemma_literal_behind(
    prefix: Seq<char>,
    text: Seq<char>,
    pos: int,
    literal: Seq<char>,
)
    requires
        0 <= pos,
    ensures
        has_literal_at(prefix + text, prefix.len() + pos, literal) == has_literal_at(
            text,
            pos,
            literal,
        ),
{
    if pos + literal.len() <= text.len() {
        lemma_subrange_behind(prefix, text, pos, pos + literal.len());
    }
}

/// An expected literal behind a prefix is found, or missed with the same
/// failure, as without the prefix.
pub proof fn lemma_expect_behind(prefix: Seq<char>, text: Seq<char>, pos: int, literal: Seq<char>)
    requires
        0 <= pos,
    ensures
        expect_at(prefix + text, prefix.len() + pos, literal) == match expect_at(
            text,
            pos,
            literal,
        ) {
            Ok(behind) => Ok::<int, Failure>(prefix.len() + behind),
            Err(failure) => Err::<int, Failure>(failure),
        },
{
    lemma_literal_behind(prefix, text, pos, literal);
    if pos <= text.len() {
        lemma_subrange_behind(prefix, text, pos, text.len() as int);
    }
}

/// The enumerators listed behind a prefix are those listed without it.
pub proof fn lemma_enumerators_behind(prefix: Seq<char>, text: Seq<char>, pos: int)
    requires
        0 <= pos,
    ensures
        enumerators(prefix + text, prefix.len() + pos) == (
            enumerators(text, pos).0,
            prefix.len() + enumerators(text, pos).1,
        ),
    decreases text.len() - pos,
{
    let whole = prefix + text;
    let n = prefix.len() as int;
    if pos < text.len() {
        assert(whole[n + pos] == text[pos]);
        if text[pos] != '}' && !is_space(text[pos]) {
            let end = ident_end(text, pos, ',');
            lemma_ident_end(text, pos, ',');
            lemma_ident_end_behind(prefix, text, pos, ',');
            lemma_subrange_behind(prefix, text, pos, end);
            let behind = skip_space(text, end);
            lemma_skip_space_bounds(text, end);
            lemma_skip_space_behind(prefix, text, end);
            if behind < text.len() {
                assert(whole[n + behind] == text[behind]);
                if text[behind] == ',' {
                    let next = skip_space(text, behind + 1);
                    lemma_skip_space_bounds(text, behind + 1);
                    lemma_skip_space_behind(prefix, text, behind + 1);
                    lemma_enumerators_behind(prefix, text, next);
                }
            }
        }
    }
}

/// The second phase behind a prefix gives what it gives without it.
pub proof fn lemma_fields_behind(prefix: Seq<char>, text: Seq<char>, pos: int)
    requires
        0 <= pos,
    ensures
        fields_phase(prefix + text, prefix.len() + pos) == moved(
            fields_phase(text, pos),
            prefix.len() as int,
        ),
{
    reveal_strlit("{");
    let open = skip_space(text, pos);
    lemma_space_end(text, if pos <= text.len() {
        pos
    } else {
        0
    });
    lemma_skip_space_behind(prefix, text, pos);
    lemma_expect_behind(prefix, text, open, "{"@);
    if has_literal_at(text, open, "{"@) {
        let first = skip_space(text, open + 1);
        lemma_skip_space_behind(prefix, text, open + 1);
        lemma_skip_space_bounds(text, open + 1);
        lemma_enumerators_behind(prefix, text, first);
    }
}

/// The third phase behind a prefix gives what it gives without it.
pub proof fn lemma_alias_behind(prefix: Seq<char>, text: Seq<char>, pos: int)
    requires
        0 <= pos,
    ensures
        alias_phase(prefix + text, prefix.len() + pos) == alias_phase(text, pos),
{
    reveal_strlit("}");
    let close = skip_space(text, pos);
    lemma_space_end(text, if pos <= text.len() {
        pos
    } else {
        0
    });
    lemma_skip_space_behind(prefix, text, pos);
    lemma_expect_behind(prefix, text, close, "}"@);
    if has_literal_at(text, close, "}"@) {
        let begin = skip_space(text, close + 1);
        lemma_skip_space_behind(prefix, text, close + 1);
        lemma_skip_space_bounds(text, close + 1);
        lemma_ident_end(text, begin, ';');
        lemma_ident_end_behind(prefix, text, begin, ';');
        lemma_subrange_behind(prefix, text, begin, ident_end(text, begin, ';'));
    }
}

/// `typedef` is accepted and ignored: put directly before a text that does
/// not itself begin with it, blanks apart, it changes nothing of what the
/// text parses to, neither the declaration nor the failure.
pub proof fn lemma_typedef_changes_nothing(text: Seq<char>)
    requires
        !has_literal_at(text, skip_space(text, 0), "typedef"@),
    ensures
        parse_text("typedef"@ + text) == parse_text(text),
{
    reveal_strlit("typedef");
    reveal_strlit("enum");
    reveal_strlit("{");
    let prefix = "typedef"@;
    let whole = prefix + text;
    let keyword = skip_space(text, 0);
    lemma_space_end(text, 0);
    assert(whole[0] == 't');
    assert(skip_space(whole, 0) == 0) by {
        assert(space_end(whole, 0) == 0);
    }
    assert(whole.subrange(0, 7) =~= prefix);
    assert(optional_at(whole, 0, prefix) == 7);
    lemma_skip_space_behind(prefix, text, 0);
    assert(skip_space(whole, 7) == 7 + keyword);
    assert(skip_space(text, keyword) == keyword) by {
        if keyword < text.len() {
            lemma_space_end(text, keyword);
        }
    }
    lemma_expect_behind(prefix, text, keyword, "enum"@);
    if has_literal_at(text, keyword, "enum"@) {
        let begin = skip_space(text, keyword + 4);
        lemma_skip_space_behind(prefix, text, keyword + 4);
        lemma_skip_space_bounds(text, keyword + 4);
        let end = ident_end(text, begin, '{');
        lemma_ident_end(text, begin, '{');
        lemma_ident_end_behind(prefix, text, begin, '{');
        lemma_subrange_behind(prefix, text, begin, end);
        assert(tag_phase(whole, 0) == moved(tag_phase(text, 0), 7));
        lemma_fields_behind(prefix, text, end);
        match fields_phase(text, end) {
            Ok((variants, behind_list)) => {
                let open = skip_space(text, end);
                lemma_skip_space_bounds(text, end);
                lemma_skip_space_bounds(text, open + 1);
                lemma_enumerators_are_runs(text, skip_space(text, open + 1));
                lemma_alias_behind(prefix, text, behind_list);
            },
            Err(failure) => {},
        }
    }
}

} // verus!
