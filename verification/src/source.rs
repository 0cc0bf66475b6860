//! The text buffer that the scanner reads.

use vstd::prelude::*;
use vstd::std_specs::iter::IteratorSpec;
use vstd::string::*;

verus! {

/// A text held both as the string it came from and as its characters, so that
/// a character is read in constant time and a piece is cut out by position.
pub struct Source<'a> {
    text: &'a str,
    chars: Vec<char>,
}

impl<'a> View for Source<'a> {
    type V = Seq<char>;

    closed spec fn view(&self) -> Seq<char> {
        self.chars@
    }
}

impl<'a> Source<'a> {
    #[verifier::type_invariant]
    spec fn consistent(&self) -> bool {
        self.chars@ == self.text@
    }

    /// Reads `text` into a buffer that holds the same characters.
    pub fn new(text: &'a str) -> (source: Source<'a>)
        ensures
            source@ == text@,
    {
        let mut chars: Vec<char> = Vec::new();
        let mut iter = text.chars();
        proof {
            broadcast use vstd::string::group_string_axioms;
        }
        assert(iter.remaining() == text@);
        loop
            invariant
                iter.obeys_prophetic_iter_laws(),
                chars@ + iter.remaining() == text@,
            decreases text@.len() - chars@.len(),
        {
            proof {
                broadcast use vstd::string::group_string_axioms;
            }
            let ghost before = iter.remaining();
            match iter.next() {
                Some(c) => {
                    chars.push(c);
                    assert(chars@ + iter.remaining() =~= text@) by {
                        assert(before =~= seq![c] + before.drop_first());
                    }
                },
                None => {
                    assert(chars@ =~= text@);
                    return Source { text, chars };
                },
            }
        }
    }

    /// The number of characters.
    pub fn len(&self) -> (n: usize)
        ensures
            n == self@.len(),
    {
        self.chars.len()
    }

    /// The character at position `i`.
    pub fn at(&self, i: usize) -> (c: char)
        requires
            i < self@.len(),
        ensures
            c == self@[i as int],
    {
        self.chars[i]
    }

    /// The characters from `from` up to, not including, `to`.
    pub fn slice(&self, from: usize, to: usize) -> (piece: String)
        requires
            from <= to <= self@.len(),
        ensures
            piece@ == self@.subrange(from as int, to as int),
    {
        proof {
            use_type_invariant(self);
        }
        String::from_str(self.text.substring_char(from, to))
    }
}

} // verus!
