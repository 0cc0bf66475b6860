//! The scanner: three phases over one text, each starting where the one
//! before it stopped.

use crate::grammar::{
    alias_phase, enumerators, expect_at, fields_phase, has_literal_at, ident_end, is_space,
    lemma_ident_end, lemma_skip_space_bounds, optional_at, parse_text, skip_space, space_end,
    tag_phase, Declaration, Failure, MAX_VARIANTS,
};
use crate::source::Source;
use vstd::prelude::*;
use vstd::string::*;

verus! {

/// Why a text was refused, or why a declaration cannot be rendered.
#[derive(Debug, PartialEq, Eq)]
pub enum EnumError {
    /// A token that must stand at the scanner's position does not. `expected`
    /// is that token, `found` the text from the position to the end.
    MalformedDeclaration { expected: String, found: String },
    /// The list holds more than `MAX_VARIANTS` enumerators.
    VariantCapacityExceeded,
    /// The declaration has neither a tag nor an alias.
    EmptyDisplayName,
}

impl View for EnumError {
    type V = Failure;

    open spec fn view(&self) -> Failure {
        match self {
            EnumError::MalformedDeclaration { expected, found } => Failure::Malformed {
                expected: expected@,
                found: found@,
            },
            EnumError::VariantCapacityExceeded => Failure::TooManyVariants,
            EnumError::EmptyDisplayName => Failure::NoName,
        }
    }
}

/// One parsed declaration. It holds at most `MAX_VARIANTS` enumerators.
#[derive(Debug, PartialEq, Eq)]
pub struct CEnum {
    tag: String,
    alias: String,
    variants: Vec<String>,
}

impl View for CEnum {
    type V = Declaration;

    closed spec fn view(&self) -> Declaration {
        Declaration {
            tag: self.tag@,
            alias: self.alias@,
            variants: self.variants.deep_view(),
        }
    }
}

impl Default for CEnum {
    /// The declaration that says nothing: no tag, no alias, no enumerators.
    fn default() -> (decl: CEnum)
        ensures
            decl@ == (Declaration {
                tag: Seq::empty(),
                alias: Seq::empty(),
                variants: Seq::empty(),
            }),
    {
        let variants: Vec<String> = Vec::new();
        assert(variants.deep_view() =~= Seq::<Seq<char>>::empty());
        CEnum { tag: String::new(), alias: String::new(), variants }
    }
}

/// Whether `c` separates tokens.
pub fn is_space_char(c: char) -> (b: bool)
    ensures
        b == is_space(c),
{
    c == ' ' || c == '\t' || c == '\n'
}

impl CEnum {
    #[verifier::type_invariant]
    spec fn within_capacity(&self) -> bool {
        self.variants@.len() <= MAX_VARIANTS
    }

    /// The name behind `enum`; empty for an anonymous enumeration.
    pub fn tag(&self) -> (tag: &str)
        ensures
            tag@ == self@.tag,
    {
        self.tag.as_str()
    }

    /// The name behind the closing brace; empty where there is none.
    pub fn alias(&self) -> (alias: &str)
        ensures
            alias@ == self@.alias,
    {
        self.alias.as_str()
    }

    /// The enumerators, in the order of the declaration.
    pub fn variants(&self) -> (variants: &[String])
        ensures
            variants.deep_view() == self@.variants,
            variants@.len() <= MAX_VARIANTS,
    {
        proof {
            use_type_invariant(self);
        }
        let variants = self.variants.as_slice();
        assert(variants.deep_view() =~= self.variants.deep_view());
        variants
    }

    /// Skips the blanks at `start`. Where only blanks are left the scanner
    /// does not move.
    pub fn skip_ws(source: &Source, start: usize) -> (next: usize)
        ensures
            next == skip_space(source@, start as int),
    {
        let len = source.len();
        let mut end = start;
        while end < len && is_space_char(source.at(end))
            invariant
                len == source@.len(),
                start <= end,
                end <= len || end == start,
                space_end(source@, end as int) == space_end(source@, start as int),
            decreases len - end,
        {
            end += 1;
        }
        if end < len {
            end
        } else {
            start
        }
    }

    /// Finds the end of the identifier at `start`: the next blank or `delim`,
    /// or the end of the text.
    pub fn scan_ident(source: &Source, start: usize, delim: char) -> (end: usize)
        ensures
            end == ident_end(source@, start as int, delim),
    {
        let len = source.len();
        let mut end = start;
        while end < len && !is_space_char(source.at(end)) && source.at(end) != delim
            invariant
                len == source@.len(),
                start <= end,
                end <= len || end == start,
                ident_end(source@, end as int, delim) == ident_end(source@, start as int, delim),
            decreases len - end,
        {
            end += 1;
        }
        end
    }

    /// Whether `literal` stands at `start`.
    pub fn at_literal(source: &Source, start: usize, literal: &str) -> (found: bool)
        ensures
            found == has_literal_at(source@, start as int, literal@),
    {
        let len = source.len();
        let n = literal.unicode_len();
        if start > len || n > len - start {
            return false;
        }
        let mut i: usize = 0;
        while i < n
            invariant
                len == source@.len(),
                n == literal@.len(),
                start + n <= len,
                i <= n,
                forall|j: int| 0 <= j < i ==> source@[start + j] == literal@[j],
            decreases n - i,
        {
            if source.at(start + i) != literal.get_char(i) {
                assert(source@.subrange(start as int, start + n)[i as int] != literal@[i as int]);
                return false;
            }
            i += 1;
        }
        assert(source@.subrange(start as int, start + n) =~= literal@);
        true
    }

    /// Steps over `expected` where it stands at `start`, and stays at `start`
    /// where it does not.
    pub fn optional(source: &Source, start: usize, expected: &str) -> (next: usize)
        ensures
            next == optional_at(source@, start as int, expected@),
    {
        let len = source.len();
        if Self::at_literal(source, start, expected) {
            start + expected.unicode_len()
        } else {
            start
        }
    }

    /// Steps over `expected`, which must stand at `start`. Where it does not,
    /// the error names it and carries the text that stands there instead.
    pub fn expect(source: &Source, start: usize, expected: &str) -> (r: Result<usize, EnumError>)
        ensures
            match r {
                Ok(next) => expect_at(source@, start as int, expected@) == Ok::<int, Failure>(
                    next as int,
                ),
                Err(e) => expect_at(source@, start as int, expected@) == Err::<int, Failure>(e@),
            },
    {
        let len = source.len();
        if Self::at_literal(source, start, expected) {
            Ok(start + expected.unicode_len())
        } else {
            let found = if start <= len {
                source.slice(start, len)
            } else {
                String::new()
            };
            Err(EnumError::MalformedDeclaration { expected: String::from_str(expected), found })
        }
    }

    /// The first phase: an optional `typedef`, the keyword `enum`, and the
    /// tag, which may be empty. Gives the tag and the position behind it.
    pub fn parse_tag(source: &Source, start: usize) -> (r: Result<(String, usize), EnumError>)
        ensures
            match r {
                Ok((tag, next)) => tag_phase(source@, start as int) == Ok::<
                    (Seq<char>, int),
                    Failure,
                >((tag@, next as int)),
                Err(e) => tag_phase(source@, start as int) == Err::<(Seq<char>, int), Failure>(e@),
            },
    {
        let mut next = Self::skip_ws(source, start);
        next = Self::optional(source, next, "typedef");
        next = Self::skip_ws(source, next);
        match Self::expect(source, next, "enum") {
            Ok(behind) => {
                let begin = Self::skip_ws(source, behind);
                let end = Self::scan_ident(source, begin, '{');
                proof {
                    lemma_skip_space_bounds(source@, behind as int);
                    lemma_ident_end(source@, begin as int, '{');
                }
                Ok((source.slice(begin, end), end))
            },
            Err(e) => Err(e),
        }
    }

    /// The second phase: `{` and the enumerators behind it, in the order in
    /// which they stand. Gives them with the position at which the list
    /// stopped. A list of more than `MAX_VARIANTS` enumerators is refused.
    pub fn parse_fields(source: &Source, start: usize) -> (r: Result<
        (Vec<String>, usize),
        EnumError,
    >)
        ensures
            match r {
                Ok((names, next)) => fields_phase(source@, start as int) == Ok::<
                    (Seq<Seq<char>>, int),
                    Failure,
                >((names.deep_view(), next as int)),
                Err(e) => fields_phase(source@, start as int) == Err::<
                    (Seq<Seq<char>>, int),
                    Failure,
                >(e@),
            },
    {
        let open = Self::skip_ws(source, start);
        let behind = match Self::expect(source, open, "{") {
            Ok(behind) => behind,
            Err(e) => {
                return Err(e);
            },
        };
        let len = source.len();
        let first = Self::skip_ws(source, behind);
        proof {
            lemma_skip_space_bounds(source@, behind as int);
        }
        let mut next = first;
        let mut names: Vec<String> = Vec::new();
        assert(names.deep_view() + enumerators(source@, first as int).0 =~= enumerators(
            source@,
            first as int,
        ).0);
        loop
            invariant
                len == source@.len(),
                expect_at(source@, open as int, "{"@) == Ok::<int, Failure>(behind as int),
                open == skip_space(source@, start as int),
                first == skip_space(source@, behind as int),
                next <= len,
                names@.len() <= MAX_VARIANTS,
                enumerators(source@, first as int).0 == names.deep_view() + enumerators(
                    source@,
                    next as int,
                ).0,
                enumerators(source@, first as int).1 == enumerators(source@, next as int).1,
            decreases len - next,
        {
            if !(next < len && source.at(next) != '}' && !is_space_char(source.at(next))) {
                assert(names.deep_view() + Seq::<Seq<char>>::empty() =~= names.deep_view());
                return Ok((names, next));
            }
            let end = Self::scan_ident(source, next, ',');
            proof {
                lemma_ident_end(source@, next as int, ',');
                lemma_skip_space_bounds(source@, end as int);
            }
            if names.len() == MAX_VARIANTS {
                return Err(EnumError::VariantCapacityExceeded);
            }
            let ghost before = names.deep_view();
            let name = source.slice(next, end);
            names.push(name);
            assert(names.deep_view() =~= before.push(name@));
            let comma = Self::skip_ws(source, end);
            if comma < len && source.at(comma) == ',' {
                let ghost rest = enumerators(source@, skip_space(source@, comma + 1)).0;
                assert(names.deep_view() + rest =~= before + (seq![name@] + rest));
                proof {
                    lemma_skip_space_bounds(source@, comma + 1);
                }
                next = Self::skip_ws(source, comma + 1);
            } else {
                assert(names.deep_view() =~= before + seq![name@]);
                return Ok((names, comma));
            }
        }
    }

    /// The third phase: `}` and the alias behind it, which may be empty.
    pub fn parse_alias_at(source: &Source, start: usize) -> (r: Result<String, EnumError>)
        ensures
            match r {
                Ok(alias) => alias_phase(source@, start as int) == Ok::<Seq<char>, Failure>(
                    alias@,
                ),
                Err(e) => alias_phase(source@, start as int) == Err::<Seq<char>, Failure>(e@),
            },
    {
        let close = Self::skip_ws(source, start);
        match Self::expect(source, close, "}") {
            Ok(behind) => {
                let begin = Self::skip_ws(source, behind);
                let end = Self::scan_ident(source, begin, ';');
                proof {
                    lemma_skip_space_bounds(source@, behind as int);
                    lemma_ident_end(source@, begin as int, ';');
                }
                Ok(source.slice(begin, end))
            },
            Err(e) => Err(e),
        }
    }

    /// The third phase on a text of its own: `}` must be the first thing
    /// behind the blanks at `start`, a position counted in characters.
    pub fn parse_alias(source: &str, start: u32) -> (r: Result<String, EnumError>)
        ensures
            match r {
                Ok(alias) => alias_phase(source@, start as int) == Ok::<Seq<char>, Failure>(
                    alias@,
                ),
                Err(e) => alias_phase(source@, start as int) == Err::<Seq<char>, Failure>(e@),
            },
    {
        let buffer = Source::new(source);
        Self::parse_alias_at(&buffer, start as usize)
    }

    /// Parses one declaration: the tag, the enumerators and the alias, each
    /// phase from where the one before it stopped. The first phase that fails
    /// ends the parse with its error.
    pub fn parse(source: &str) -> (r: Result<CEnum, EnumError>)
        ensures
            match r {
                Ok(decl) => parse_text(source@) == Ok::<Declaration, Failure>(decl@),
                Err(e) => parse_text(source@) == Err::<Declaration, Failure>(e@),
            },
    {
        let buffer = Source::new(source);
        let (tag, behind_tag) = match Self::parse_tag(&buffer, 0) {
            Ok(found) => found,
            Err(e) => {
                return Err(e);
            },
        };
        let (variants, behind_list) = match Self::parse_fields(&buffer, behind_tag) {
            Ok(found) => found,
            Err(e) => {
                return Err(e);
            },
        };
        let alias = match Self::parse_alias_at(&buffer, behind_list) {
            Ok(found) => found,
            Err(e) => {
                return Err(e);
            },
        };
        Ok(CEnum { tag, alias, variants })
    }
}

} // verus!
