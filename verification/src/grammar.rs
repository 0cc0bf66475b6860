//! The accepted text, as functions on sequences of characters.
//!
//! A position is an index into the text, counted in characters. Every function
//! here is total: a position past the end scans nothing.

use vstd::prelude::*;

verus! {

/// The characters that separate tokens: space, tab and newline.
pub open spec fn is_space(c: char) -> bool {
    c == ' ' || c == '\t' || c == '\n'
}

/// The end of the run of blanks that starts at `pos`: the first position at or
/// after `pos` that holds no blank, or the length of the text.
pub open spec fn space_end(text: Seq<char>, pos: int) -> int
    decreases text.len() - pos,
{
    if 0 <= pos < text.len() && is_space(text[pos]) {
        space_end(text, pos + 1)
    } else {
        pos
    }
}

/// Where the scanner stands after skipping blanks from `pos`: at the first
/// character that is no blank. Where only blanks are left, or nothing at all,
/// it stays at `pos`.
pub open spec fn skip_space(text: Seq<char>, pos: int) -> int {
    let end = space_end(text, pos);
    if end < text.len() {
        end
    } else {
        pos
    }
}

/// The end of the identifier that starts at `pos`: the first position at or
/// after `pos` that holds a blank or `delim`, or the length of the text.
pub open spec fn ident_end(text: Seq<char>, pos: int, delim: char) -> int
    decreases text.len() - pos,
{
    if 0 <= pos < text.len() && !is_space(text[pos]) && text[pos] != delim {
        ident_end(text, pos + 1, delim)
    } else {
        pos
    }
}

/// A text that the scanner reads in one run up to `delim`: it holds no blank
/// and no `delim`. The empty text is one.
pub open spec fn is_run(name: Seq<char>, delim: char) -> bool {
    forall|i: int| 0 <= i < name.len() ==> !is_space(#[trigger] name[i]) && name[i] != delim
}

/// Whether `literal` stands in `text` at `pos`.
pub open spec fn has_literal_at(text: Seq<char>, pos: int, literal: Seq<char>) -> bool {
    &&& 0 <= pos
    &&& pos + literal.len() <= text.len()
    &&& text.subrange(pos, pos + literal.len()) == literal
}

/// `space_end` stops inside the text, on the first character that is no blank.
pub proof fn lemma_space_end(text: Seq<char>, pos: int)
    requires
        0 <= pos <= text.len(),
    ensures
        pos <= space_end(text, pos) <= text.len(),
        forall|i: int| pos <= i < space_end(text, pos) ==> is_space(#[trigger] text[i]),
        space_end(text, pos) < text.len() ==> !is_space(text[space_end(text, pos)]),
    decreases text.len() - pos,
{
    if pos < text.len() && is_space(text[pos]) {
        lemma_space_end(text, pos + 1);
    }
}

/// `ident_end` stops inside the text, on the first blank or `delim`.
pub proof fn lemma_ident_end(text: Seq<char>, pos: int, delim: char)
    requires
        0 <= pos <= text.len(),
    ensures
        pos <= ident_end(text, pos, delim) <= text.len(),
        forall|i: int|
            pos <= i < ident_end(text, pos, delim) ==> !is_space(#[trigger] text[i]) && text[i]
                != delim,
        ident_end(text, pos, delim) < text.len() ==> is_space(text[ident_end(text, pos, delim)])
            || text[ident_end(text, pos, delim)] == delim,
    decreases text.len() - pos,
{
    if pos < text.len() && !is_space(text[pos]) && text[pos] != delim {
        lemma_ident_end(text, pos + 1, delim);
    }
}

/// Skipping blanks never moves backwards and never leaves the text.
pub proof fn lemma_skip_space_bounds(text: Seq<char>, pos: int)
    requires
        0 <= pos <= text.len(),
    ensures
        pos <= skip_space(text, pos) <= text.len(),
{
    lemma_space_end(text, pos);
}

/// The most enumerators that one declaration may hold.
pub const MAX_VARIANTS: usize = 50;

/// What a declaration says: the name after `enum`, the name after the closing
/// brace, and the enumerators in the order in which they were written. Either
/// name may be empty.
pub struct Declaration {
    pub tag: Seq<char>,
    pub alias: Seq<char>,
    pub variants: Seq<Seq<char>>,
}

/// Why a text is refused, or why a declaration cannot be rendered.
pub enum Failure {
    /// `expected` does not stand where it must; `found` is the text from that
    /// position to the end.
    Malformed { expected: Seq<char>, found: Seq<char> },
    /// The list holds more than `MAX_VARIANTS` enumerators.
    TooManyVariants,
    /// Neither a tag nor an alias names the enumeration.
    NoName,
}

/// The text from `pos` to the end; nothing where `pos` lies past the end.
pub open spec fn rest_from(text: Seq<char>, pos: int) -> Seq<char> {
    if 0 <= pos <= text.len() {
        text.subrange(pos, text.len() as int)
    } else {
        Seq::empty()
    }
}

/// A literal that must stand at `pos`: the position behind it, or the failure
/// that names it.
pub open spec fn expect_at(text: Seq<char>, pos: int, literal: Seq<char>) -> Result<int, Failure> {
    if has_literal_at(text, pos, literal) {
        Ok(pos + literal.len())
    } else {
        Err(Failure::Malformed { expected: literal, found: rest_from(text, pos) })
    }
}

/// A literal that may stand at `pos`: the position behind it where it does,
/// `pos` where it does not.
pub open spec fn optional_at(text: Seq<char>, pos: int, literal: Seq<char>) -> int {
    if has_literal_at(text, pos, literal) {
        pos + literal.len()
    } else {
        pos
    }
}

/// The first phase, from `start`: blanks, an optional `typedef`, blanks, the
/// keyword `enum`, blanks, and the tag, which runs up to a blank or `{` and
/// may be empty. Gives the tag and the position behind it.
pub open spec fn tag_phase(text: Seq<char>, start: int) -> Result<(Seq<char>, int), Failure> {
    let keyword = skip_space(text, optional_at(text, skip_space(text, start), "typedef"@));
    match expect_at(text, keyword, "enum"@) {
        Ok(behind) => {
            let begin = skip_space(text, behind);
            let end = ident_end(text, begin, '{');
            Ok((text.subrange(begin, end), end))
        },
        Err(failure) => Err(failure),
    }
}

/// The enumerators listed from `pos`, and the position at which the list
/// stops.
///
/// The list is over at the end of the text, at `}` and at a blank. Otherwise
/// an enumerator runs up to a blank or a comma (it may be empty, before a
/// comma). Behind it blanks are skipped; a comma there is consumed, blanks are
/// skipped again and the list goes on; anything else ends the list with this
/// enumerator, and the scanner stays where the blanks ended. A list that
/// breaks off early is taken as it stands: what follows it is for the next
/// phase to accept or refuse.
pub open spec fn enumerators(text: Seq<char>, pos: int) -> (Seq<Seq<char>>, int)
    decreases text.len() - pos,
    via enumerators_decreases
{
    if 0 <= pos < text.len() && text[pos] != '}' && !is_space(text[pos]) {
        let end = ident_end(text, pos, ',');
        let name = text.subrange(pos, end);
        let behind = skip_space(text, end);
        if behind < text.len() && text[behind] == ',' {
            let rest = enumerators(text, skip_space(text, behind + 1));
            (seq![name] + rest.0, rest.1)
        } else {
            (seq![name], behind)
        }
    } else {
        (Seq::empty(), pos)
    }
}

#[via_fn]
proof fn enumerators_decreases(text: Seq<char>, pos: int) {
    if 0 <= pos < text.len() {
        lemma_ident_end(text, pos, ',');
        let end = ident_end(text, pos, ',');
        lemma_skip_space_bounds(text, end);
        let behind = skip_space(text, end);
        if behind < text.len() {
            lemma_skip_space_bounds(text, behind + 1);
        }
    }
}

/// The second phase, from `start`: blanks, `{`, blanks, and the enumerators.
/// Gives them with the position at which the list stopped, or refuses a list
/// that is longer than `MAX_VARIANTS`.
pub open spec fn fields_phase(text: Seq<char>, start: int) -> Result<(Seq<Seq<char>>, int), Failure> {
    match expect_at(text, skip_space(text, start), "{"@) {
        Ok(behind) => {
            let list = enumerators(text, skip_space(text, behind));
            if list.0.len() > MAX_VARIANTS {
                Err(Failure::TooManyVariants)
            } else {
                Ok(list)
            }
        },
        Err(failure) => Err(failure),
    }
}

/// The third phase, from `start`: blanks, `}`, blanks, and the alias, which
/// runs up to a blank or `;` and may be empty.
pub open spec fn alias_phase(text: Seq<char>, start: int) -> Result<Seq<char>, Failure> {
    match expect_at(text, skip_space(text, start), "}"@) {
        Ok(behind) => {
            let begin = skip_space(text, behind);
            Ok(text.subrange(begin, ident_end(text, begin, ';')))
        },
        Err(failure) => Err(failure),
    }
}

/// What a whole text declares: the three phases one after the other, each
/// from where the one before it stopped. The first failure ends the parse.
pub open spec fn parse_text(text: Seq<char>) -> Result<Declaration, Failure> {
    match tag_phase(text, 0) {
        Ok((tag, behind_tag)) => match fields_phase(text, behind_tag) {
            Ok((variants, behind_list)) => match alias_phase(text, behind_list) {
                Ok(alias) => Ok(Declaration { tag, alias, variants }),
                Err(failure) => Err(failure),
            },
            Err(failure) => Err(failure),
        },
        Err(failure) => Err(failure),
    }
}

/// The text between a position and the end of the identifier that starts
/// there is one run.
pub proof fn lemma_ident_is_run(text: Seq<char>, pos: int, delim: char)
    requires
        0 <= pos <= text.len(),
    ensures
        is_run(text.subrange(pos, ident_end(text, pos, delim)), delim),
{
    lemma_ident_end(text, pos, delim);
    let name = text.subrange(pos, ident_end(text, pos, delim));
    assert forall|i: int| 0 <= i < name.len() implies !is_space(#[trigger] name[i]) && name[i]
        != delim by {
        assert(name[i] == text[pos + i]);
    }
}

/// No enumerator of a list holds a blank or a comma, and the list stops
/// inside the text.
pub proof fn lemma_enumerators_are_runs(text: Seq<char>, pos: int)
    requires
        0 <= pos <= text.len(),
    ensures
        forall|k: int|
            0 <= k < enumerators(text, pos).0.len() ==> is_run(
                #[trigger] enumerators(text, pos).0[k],
                ',',
            ),
        pos <= enumerators(text, pos).1 <= text.len(),
    decreases text.len() - pos,
{
    if pos < text.len() && text[pos] != '}' && !is_space(text[pos]) {
        let end = ident_end(text, pos, ',');
        lemma_ident_end(text, pos, ',');
        lemma_ident_is_run(text, pos, ',');
        lemma_skip_space_bounds(text, end);
        let behind = skip_space(text, end);
        if behind < text.len() && text[behind] == ',' {
            let next = skip_space(text, behind + 1);
            lemma_skip_space_bounds(text, behind + 1);
            lemma_enumerators_are_runs(text, next);
        }
    }
}

/// What holds of every declaration that a text parses to: it holds no more
/// than `MAX_VARIANTS` enumerators, and none of its names holds a character
/// that ends it. The tag holds no blank and no `{`, an enumerator no blank
/// and no comma, the alias no blank and no `;`.
pub proof fn lemma_parsed_names(text: Seq<char>)
    requires
        parse_text(text) is Ok,
    ensures
        parse_text(text)->Ok_0.variants.len() <= MAX_VARIANTS,
        is_run(parse_text(text)->Ok_0.tag, '{'),
        is_run(parse_text(text)->Ok_0.alias, ';'),
        forall|k: int|
            0 <= k < parse_text(text)->Ok_0.variants.len() ==> is_run(
                #[trigger] parse_text(text)->Ok_0.variants[k],
                ',',
            ),
{
    reveal_strlit("enum");
    reveal_strlit("{");
    reveal_strlit("}");
    lemma_space_end(text, 0);
    let typedef = optional_at(text, skip_space(text, 0), "typedef"@);
    lemma_space_end(text, typedef);
    let keyword = skip_space(text, typedef);
    let begin = skip_space(text, keyword + 4);
    lemma_skip_space_bounds(text, keyword + 4);
    lemma_ident_end(text, begin, '{');
    lemma_ident_is_run(text, begin, '{');
    let behind_tag = ident_end(text, begin, '{');
    lemma_skip_space_bounds(text, behind_tag);
    let open = skip_space(text, behind_tag);
    lemma_skip_space_bounds(text, open + 1);
    let first = skip_space(text, open + 1);
    lemma_enumerators_are_runs(text, first);
    let behind_list = enumerators(text, first).1;
    lemma_skip_space_bounds(text, behind_list);
    let close = skip_space(text, behind_list);
    lemma_skip_space_bounds(text, close + 1);
    lemma_ident_is_run(text, skip_space(text, close + 1), ';');
}

} // verus!
