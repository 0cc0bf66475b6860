//! The written form of a declaration, and the proof that the grammar reads
//! back from it what was written.

use crate::grammar::{
    alias_phase, enumerators, expect_at, fields_phase, has_literal_at, ident_end, is_run, is_space,
    optional_at, parse_text, skip_space, space_end, tag_phase, Declaration, Failure, MAX_VARIANTS,
};
use vstd::prelude::*;

verus! {

/// A text that the scanner reads as one enumerator: a run up to a comma that
/// is not empty and does not begin with the closing brace.
pub open spec fn is_enumerator(name: Seq<char>) -> bool {
    &&& is_run(name, ',')
    &&& name.len() > 0
    &&& name[0] != '}'
}

/// The enumerators as they stand between the braces: separated by a comma
/// and a space.
pub open spec fn list_text(variants: Seq<Seq<char>>) -> Seq<char>
    decreases variants.len(),
{
    if variants.len() == 0 {
        Seq::empty()
    } else if variants.len() == 1 {
        variants[0]
    } else {
        variants[0] + ", "@ + list_text(variants.drop_first())
    }
}

/// An identifier ends at `end` where no blank and no `delim` stands before
/// `end`, and one of them, or the end of the text, at `end`.
pub proof fn lemma_ident_end_is(text: Seq<char>, pos: int, end: int, delim: char)
    requires
        0 <= pos <= end <= text.len(),
        forall|i: int| pos <= i < end ==> !is_space(#[trigger] text[i]) && text[i] != delim,
        end < text.len() ==> is_space(text[end]) || text[end] == delim,
    ensures
        ident_end(text, pos, delim) == end,
    decreases end - pos,
{
    if pos < end {
        lemma_ident_end_is(text, pos + 1, end, delim);
    }
}

/// Skipping blanks from `pos` leads to `end` where only blanks stand before
/// `end`, and a character that is no blank at `end`.
pub proof fn lemma_skip_space_is(text: Seq<char>, pos: int, end: int)
    requires
        0 <= pos <= end < text.len(),
        forall|i: int| pos <= i < end ==> is_space(#[trigger] text[i]),
        !is_space(text[end]),
    ensures
        skip_space(text, pos) == end,
        space_end(text, pos) == end,
    decreases end - pos,
{
    if pos < end {
        lemma_skip_space_is(text, pos + 1, end);
    }
}

/// The character of `text` that a piece standing at `pos` puts at `pos + i`.
pub proof fn lemma_literal_char(text: Seq<char>, pos: int, literal: Seq<char>, i: int)
    requires
        has_literal_at(text, pos, literal),
        0 <= i < literal.len(),
    ensures
        text[pos + i] == literal[i],
{
    assert(text.subrange(pos, pos + literal.len())[i] == text[pos + i]);
}

/// The written list begins with its first enumerator.
pub proof fn lemma_list_text_first(variants: Seq<Seq<char>>)
    requires
        variants.len() > 0,
    ensures
        list_text(variants).len() >= variants[0].len(),
        list_text(variants).subrange(0, variants[0].len() as int) == variants[0],
{
    if variants.len() == 1 {
        assert(list_text(variants).subrange(0, variants[0].len() as int) =~= variants[0]);
    } else {
        let rest = list_text(variants.drop_first());
        assert((variants[0] + ", "@ + rest).subrange(0, variants[0].len() as int) =~= variants[0]);
    }
}

/// A written list of names is read back as it was written. The list stands
/// at `pos`; behind it stands a blank and `}`, or, with a trailing comma, a
/// comma, a blank and `}`. The scan stops on that `}`.
pub proof fn lemma_enumerators_written(
    text: Seq<char>,
    pos: int,
    variants: Seq<Seq<char>>,
    trailing_comma: bool,
)
    requires
        variants.len() > 0,
        forall|k: int| 0 <= k < variants.len() ==> is_enumerator(#[trigger] variants[k]),
        has_literal_at(text, pos, list_text(variants)),
        has_literal_at(
            text,
            pos + list_text(variants).len(),
            if trailing_comma {
                ", }"@
            } else {
                " }"@
            },
        ),
    ensures
        enumerators(text, pos) == (
            variants,
            pos + list_text(variants).len() + if trailing_comma {
                2int
            } else {
                1int
            },
        ),
    decreases variants.len(),
{
    reveal_strlit(", }");
    reveal_strlit(" }");
    reveal_strlit(", ");
    let first = variants[0];
    let whole = list_text(variants);
    let tail = if trailing_comma {
        ", }"@
    } else {
        " }"@
    };
    let q = pos + whole.len();
    let n = first.len() as int;
    let end = pos + n;
    lemma_list_text_first(variants);
    assert forall|i: int| pos <= i < end implies !is_space(#[trigger] text[i]) && text[i]
        != ',' by {
        lemma_literal_char(text, pos, whole, i - pos);
        assert(whole.subrange(0, first.len() as int)[i - pos] == whole[i - pos]);
        assert(!is_space(first[i - pos]) && first[i - pos] != ',');
    }
    assert(text[pos] != '}' && !is_space(text[pos])) by {
        lemma_literal_char(text, pos, whole, 0);
        assert(whole.subrange(0, first.len() as int)[0] == whole[0]);
        assert(!is_space(first[0]));
    }
    assert(text.subrange(pos, end) =~= first) by {
        assert forall|i: int| 0 <= i < first.len() implies text.subrange(pos, end)[i]
            == first[i] by {
            lemma_literal_char(text, pos, whole, i);
            assert(whole.subrange(0, first.len() as int)[i] == whole[i]);
        }
    }
    if variants.len() == 1 {
        assert(end == q);
        lemma_literal_char(text, q, tail, 0);
        lemma_literal_char(text, q, tail, 1);
        if trailing_comma {
            lemma_literal_char(text, q, tail, 2);
            lemma_ident_end_is(text, pos, q, ',');
            lemma_skip_space_is(text, q, q);
            lemma_skip_space_is(text, q + 1, q + 2);
            assert(enumerators(text, q + 2) == (Seq::<Seq<char>>::empty(), q + 2));
            assert(seq![first] + Seq::<Seq<char>>::empty() =~= variants);
        } else {
            lemma_ident_end_is(text, pos, q, ',');
            lemma_skip_space_is(text, q, q + 1);
            assert(seq![first] =~= variants);
        }
    } else {
        let rest = variants.drop_first();
        let rest_text = list_text(rest);
        assert(whole == first + ", "@ + rest_text);
        lemma_literal_char(text, pos, whole, n);
        lemma_literal_char(text, pos, whole, n + 1);
        lemma_literal_char(text, pos, whole, n + 2);
        lemma_list_text_first(rest);
        assert(rest_text.subrange(0, rest[0].len() as int)[0] == rest_text[0]);
        assert(is_enumerator(rest[0]));
        assert(!is_space(rest[0][0]));
        assert(text[end] == ',');
        assert(text[end + 1] == ' ');
        assert(text[end + 2] == rest_text[0]);
        lemma_ident_end_is(text, pos, end, ',');
        lemma_skip_space_is(text, end, end);
        lemma_skip_space_is(text, end + 1, end + 2);
        assert(text.subrange(end + 2, end + 2 + rest_text.len()) =~= rest_text) by {
            assert forall|i: int| 0 <= i < rest_text.len() implies text.subrange(
                end + 2,
                end + 2 + rest_text.len(),
            )[i] == rest_text[i] by {
                lemma_literal_char(text, pos, whole, n + 2 + i);
            }
        }
        assert forall|k: int| 0 <= k < rest.len() implies is_enumerator(#[trigger] rest[k]) by {
            assert(rest[k] == variants[k + 1]);
        }
        lemma_enumerators_written(text, end + 2, rest, trailing_comma);
        assert(seq![first] + rest =~= variants);
    }
}

/// How a declaration begins: with `typedef` or without it.
pub open spec fn head_text(typedef: bool) -> Seq<char> {
    if typedef {
        "typedef enum "@
    } else {
        "enum "@
    }
}

/// The tag and the blank behind it; nothing for an anonymous enumeration.
pub open spec fn tag_text(tag: Seq<char>) -> Seq<char> {
    if tag.len() > 0 {
        tag + " "@
    } else {
        Seq::empty()
    }
}

/// What stands between the last enumerator and the closing brace.
pub open spec fn gap_text(trailing_comma: bool) -> Seq<char> {
    if trailing_comma {
        ", "@
    } else {
        " "@
    }
}

/// The blank and the alias behind it; nothing where there is no alias.
pub open spec fn alias_text(alias: Seq<char>) -> Seq<char> {
    if alias.len() > 0 {
        " "@ + alias
    } else {
        Seq::empty()
    }
}

/// A declaration as one writes it on one line, such as
/// `typedef enum Color { RED, GREEN } Color;` or `enum { X, Y, };`.
pub open spec fn written(decl: Declaration, typedef: bool, trailing_comma: bool) -> Seq<char> {
    head_text(typedef) + tag_text(decl.tag) + "{ "@ + list_text(decl.variants) + gap_text(
        trailing_comma,
    ) + "}"@ + alias_text(decl.alias) + ";"@
}

/// What can be written and read back: a tag without a blank or `{`, an
/// alias without a blank or `;`, and enumerators that the scanner reads as
/// such. Before a trailing comma there must be an enumerator.
pub open spec fn is_writable(decl: Declaration, trailing_comma: bool) -> bool {
    &&& is_run(decl.tag, '{')
    &&& is_run(decl.alias, ';')
    &&& forall|k: int| 0 <= k < decl.variants.len() ==> is_enumerator(#[trigger] decl.variants[k])
    &&& trailing_comma ==> decl.variants.len() > 0
}

/// The first phase reads the tag from a text that begins as a written
/// declaration does, and stops right behind the tag.
pub proof fn lemma_tag_written(text: Seq<char>, typedef: bool, tag: Seq<char>)
    requires
        is_run(tag, '{'),
        has_literal_at(text, 0, head_text(typedef) + tag_text(tag) + "{"@),
    ensures
        tag_phase(text, 0) == Ok::<(Seq<char>, int), Failure>(
            (tag, (head_text(typedef).len() + tag.len()) as int),
        ),
{
    reveal_strlit("typedef enum ");
    reveal_strlit("typedef");
    reveal_strlit("enum ");
    reveal_strlit("enum");
    reveal_strlit(" ");
    reveal_strlit("{");
    let piece = head_text(typedef) + tag_text(tag) + "{"@;
    let a: int = if typedef {
        8
    } else {
        0
    };
    let b = a + 5;
    let n = tag.len() as int;
    assert(b == head_text(typedef).len());
    assert forall|i: int| 0 <= i < piece.len() implies text[i] == piece[i] by {
        lemma_literal_char(text, 0, piece, i);
    }
    lemma_skip_space_is(text, 0, 0);
    if typedef {
        assert(text.subrange(0, 7) =~= "typedef"@);
        lemma_skip_space_is(text, 7, 8);
    } else {
        assert(!has_literal_at(text, 0, "typedef"@)) by {
            if has_literal_at(text, 0, "typedef"@) {
                lemma_literal_char(text, 0, "typedef"@, 0);
            }
        }
    }
    assert(skip_space(text, optional_at(text, skip_space(text, 0), "typedef"@)) == a);
    assert(text.subrange(a, a + 4) =~= "enum"@);
    assert(expect_at(text, a, "enum"@) == Ok::<int, Failure>(a + 4));
    assert(text[b] == piece[b]);
    assert(!is_space(text[b])) by {
        if n > 0 {
            assert(!is_space(tag[0]));
        }
    }
    lemma_skip_space_is(text, a + 4, b);
    assert forall|i: int| b <= i < b + n implies !is_space(#[trigger] text[i]) && text[i]
        != '{' by {
        assert(text[i] == piece[i]);
        assert(!is_space(tag[i - b]) && tag[i - b] != '{');
    }
    assert(text[b + n] == piece[b + n]);
    lemma_ident_end_is(text, b, b + n, '{');
    assert(text.subrange(b, b + n) =~= tag) by {
        assert forall|i: int| 0 <= i < n implies text.subrange(b, b + n)[i] == tag[i] by {
            assert(text[b + i] == piece[b + i]);
        }
    }
}

/// The second phase reads the enumerators from a written list that opens at
/// `open`, where `start` is that position or a blank right before it, and
/// stops on the closing brace.
pub proof fn lemma_fields_written(
    text: Seq<char>,
    start: int,
    open: int,
    variants: Seq<Seq<char>>,
    trailing_comma: bool,
)
    requires
        forall|k: int| 0 <= k < variants.len() ==> is_enumerator(#[trigger] variants[k]),
        trailing_comma ==> variants.len() > 0,
        0 <= start,
        start == open || (start + 1 == open && text[start] == ' '),
        has_literal_at(
            text,
            open,
            "{ "@ + list_text(variants) + gap_text(trailing_comma) + "}"@,
        ),
    ensures
        fields_phase(text, start) == if variants.len() <= MAX_VARIANTS {
            Ok::<(Seq<Seq<char>>, int), Failure>(
                (variants, open + 2 + list_text(variants).len() + gap_text(trailing_comma).len()),
            )
        } else {
            Err::<(Seq<Seq<char>>, int), Failure>(Failure::TooManyVariants)
        },
{
    reveal_strlit("{ ");
    reveal_strlit("{");
    reveal_strlit(", }");
    reveal_strlit(" }");
    reveal_strlit(", ");
    reveal_strlit(" ");
    reveal_strlit("}");
    let list = list_text(variants);
    let gap = gap_text(trailing_comma);
    let piece = "{ "@ + list + gap + "}"@;
    assert forall|i: int| 0 <= i < piece.len() implies text[open + i] == piece[i] by {
        lemma_literal_char(text, open, piece, i);
    }
    assert(text[open] == piece[0]);
    lemma_skip_space_is(text, start, open);
    assert(text.subrange(open, open + 1) =~= "{"@);
    assert(expect_at(text, open, "{"@) == Ok::<int, Failure>(open + 1));
    assert(text[open + 1] == piece[1]);
    assert(text[open + 2] == piece[2]);
    if variants.len() == 0 {
        assert(text[open + 3] == piece[3]);
        lemma_skip_space_is(text, open + 1, open + 3);
        assert(variants =~= Seq::<Seq<char>>::empty());
    } else {
        let tail = if trailing_comma {
            ", }"@
        } else {
            " }"@
        };
        lemma_list_text_first(variants);
        assert(list.subrange(0, variants[0].len() as int)[0] == list[0]);
        assert(is_enumerator(variants[0]));
        assert(!is_space(variants[0][0]));
        lemma_skip_space_is(text, open + 1, open + 2);
        assert(text.subrange(open + 2, open + 2 + list.len()) =~= list) by {
            assert forall|i: int| 0 <= i < list.len() implies text.subrange(
                open + 2,
                open + 2 + list.len(),
            )[i] == list[i] by {
                assert(text[open + 2 + i] == piece[2 + i]);
            }
        }
        let q = open + 2 + list.len();
        assert(text.subrange(q, q + tail.len()) =~= tail) by {
            assert forall|i: int| 0 <= i < tail.len() implies text.subrange(
                q,
                q + tail.len(),
            )[i] == tail[i] by {
                assert(text[q + i] == piece[2 + list.len() + i]);
            }
        }
        lemma_enumerators_written(text, open + 2, variants, trailing_comma);
    }
}

/// The third phase reads the alias from a text that ends as a written
/// declaration does, from the closing brace at `close` on.
pub proof fn lemma_alias_written(text: Seq<char>, close: int, alias: Seq<char>)
    requires
        is_run(alias, ';'),
        has_literal_at(text, close, "}"@ + alias_text(alias) + ";"@),
    ensures
        alias_phase(text, close) == Ok::<Seq<char>, Failure>(alias),
{
    reveal_strlit("}");
    reveal_strlit(" ");
    reveal_strlit(";");
    let piece = "}"@ + alias_text(alias) + ";"@;
    let n = alias.len() as int;
    assert forall|i: int| 0 <= i < piece.len() implies text[close + i] == piece[i] by {
        lemma_literal_char(text, close, piece, i);
    }
    assert(text[close] == piece[0]);
    lemma_skip_space_is(text, close, close);
    assert(text.subrange(close, close + 1) =~= "}"@);
    assert(expect_at(text, close, "}"@) == Ok::<int, Failure>(close + 1));
    let begin = if n > 0 {
        close + 2
    } else {
        close + 1
    };
    assert(text[close + 1] == piece[1]);
    assert(text[begin] == piece[begin - close]);
    assert(!is_space(text[begin])) by {
        if n > 0 {
            assert(!is_space(alias[0]));
        }
    }
    lemma_skip_space_is(text, close + 1, begin);
    assert forall|i: int| begin <= i < begin + n implies !is_space(#[trigger] text[i])
        && text[i] != ';' by {
        assert(text[i] == piece[i - close]);
        assert(!is_space(alias[i - begin]) && alias[i - begin] != ';');
    }
    assert(text[begin + n] == piece[begin + n - close]);
    lemma_ident_end_is(text, begin, begin + n, ';');
    assert(text.subrange(begin, begin + n) =~= alias) by {
        assert forall|i: int| 0 <= i < n implies text.subrange(begin, begin + n)[i]
            == alias[i] by {
            assert(text[begin + i] == piece[begin + i - close]);
        }
    }
}

/// Reading back what was written: the written form of a declaration, with or
/// without `typedef`, with or without a comma behind the last enumerator,
/// parses to that declaration, tag, alias and enumerators in their order.
/// With more than `MAX_VARIANTS` enumerators it is refused for that reason.
pub proof fn lemma_parse_written(decl: Declaration, typedef: bool, trailing_comma: bool)
    requires
        is_writable(decl, trailing_comma),
    ensures
        decl.variants.len() <= MAX_VARIANTS ==> parse_text(written(decl, typedef, trailing_comma))
            == Ok::<Declaration, Failure>(decl),
        decl.variants.len() > MAX_VARIANTS ==> parse_text(written(decl, typedef, trailing_comma))
            == Err::<Declaration, Failure>(Failure::TooManyVariants),
{
    reveal_strlit("{ ");
    reveal_strlit("{");
    reveal_strlit(" ");
    reveal_strlit("}");
    reveal_strlit(";");
    let text = written(decl, typedef, trailing_comma);
    let head = head_text(typedef);
    let tag_part = tag_text(decl.tag);
    let list = list_text(decl.variants);
    let gap = gap_text(trailing_comma);
    let alias_part = alias_text(decl.alias);
    let open = (head.len() + tag_part.len()) as int;
    let close: int = open + 2 + list.len() + gap.len();
    let behind_tag = (head.len() + decl.tag.len()) as int;
    assert(text.subrange(0, open + 1) =~= head + tag_part + "{"@);
    assert(text.subrange(open, close + 1) =~= "{ "@ + list + gap + "}"@);
    assert(text.subrange(close, close + 1 + alias_part.len() + 1) =~= "}"@ + alias_part + ";"@);
    lemma_tag_written(text, typedef, decl.tag);
    assert(behind_tag == open || (behind_tag + 1 == open && text[behind_tag] == ' '));
    lemma_fields_written(text, behind_tag, open, decl.variants, trailing_comma);
    lemma_alias_written(text, close, decl.alias);
}

/// A leading `typedef` changes nothing of what a written declaration parses
/// to.
pub proof fn lemma_typedef_is_ignored(decl: Declaration, trailing_comma: bool)
    requires
        is_writable(decl, trailing_comma),
    ensures
        parse_text(written(decl, true, trailing_comma)) == parse_text(
            written(decl, false, trailing_comma),
        ),
{
    lemma_parse_written(decl, true, trailing_comma);
    lemma_parse_written(decl, false, trailing_comma);
}

/// A comma behind the last enumerator changes nothing of what a written
/// declaration parses to.
pub proof fn lemma_trailing_comma_is_ignored(decl: Declaration, typedef: bool)
    requires
        is_writable(decl, true),
    ensures
        parse_text(written(decl, typedef, true)) == parse_text(written(decl, typedef, false)),
{
    lemma_parse_written(decl, typedef, true);
    lemma_parse_written(decl, typedef, false);
}

/// The capacity is a sharp bound: a written declaration parses exactly when
/// it holds no more than `MAX_VARIANTS` enumerators, and one that holds more
/// is refused for that reason and no other.
pub proof fn lemma_capacity_is_sharp(decl: Declaration, typedef: bool, trailing_comma: bool)
    requires
        is_writable(decl, trailing_comma),
    ensures
        parse_text(written(decl, typedef, trailing_comma)) is Ok <==> decl.variants.len()
            <= MAX_VARIANTS,
        parse_text(written(decl, typedef, trailing_comma)) is Err ==> parse_text(
            written(decl, typedef, trailing_comma),
        ) == Err::<Declaration, Failure>(Failure::TooManyVariants),
{
    lemma_parse_written(decl, typedef, trailing_comma);
}

} // verus!
