//! The lines of a file that are handed to the parser.

use crate::options::{Options, OptionsView};
use vstd::prelude::*;
use vstd::string::*;

verus! {

/// The lines numbered `start` to `end`, both included. Lines are counted
/// from 1; numbers for which the file has no line select nothing.
pub open spec fn line_window(lines: Seq<Seq<char>>, start: int, end: int) -> Seq<Seq<char>> {
    let first = if start < 1 {
        0
    } else {
        start - 1
    };
    let last = if end > lines.len() {
        lines.len() as int
    } else {
        end
    };
    if first < last {
        lines.subrange(first, last)
    } else {
        Seq::empty()
    }
}

/// The first line that `options` asks for: line 1 where none is given.
pub open spec fn first_line(options: OptionsView) -> int {
    match options.start {
        Some(line) => line as int,
        None => 1,
    }
}

/// The last line that `options` asks for: the last of `count` lines where
/// none is given.
pub open spec fn last_line(options: OptionsView, count: int) -> int {
    match options.end {
        Some(line) => line as int,
        None => count,
    }
}

/// The text that `options` selects from `lines`: the lines of the window,
/// one behind the other with nothing between them.
pub open spec fn selected_text(options: OptionsView, lines: Seq<Seq<char>>) -> Seq<char> {
    line_window(lines, first_line(options), last_line(options, lines.len() as int)).flatten()
}

impl Options {
    /// Joins the lines that the options select from `lines`, the lines of
    /// the file without their line ends.
    pub fn select(&self, lines: &[String]) -> (text: String)
        ensures
            text@ == selected_text(self@, lines.deep_view()),
    {
        let count = lines.len();
        let first: usize = match self.start {
            Some(line) => if line < 1 {
                0
            } else {
                (line - 1) as usize
            },
            None => 0,
        };
        let last: usize = match self.end {
            Some(line) => if line as usize > count {
                count
            } else {
                line as usize
            },
            None => count,
        };
        let mut text = String::new();
        if first >= last {
            assert(text@ =~= Seq::<Seq<char>>::empty().flatten());
            return text;
        }
        let ghost window = lines.deep_view().subrange(first as int, last as int);
        let mut i: usize = first;
        assert(window.take(0) =~= Seq::<Seq<char>>::empty());
        assert(text@ =~= window.take(0).flatten());
        while i < last
            invariant
                first <= i <= last <= lines@.len(),
                window == lines.deep_view().subrange(first as int, last as int),
                text@ == window.take(i - first).flatten(),
            decreases last - i,
        {
            text.append(lines[i].as_str());
            proof {
                assert(lines@[i as int]@ == window[i - first]);
                assert(window.take(i + 1 - first) =~= window.take(i - first).push(
                    window[i - first],
                ));
                window.take(i - first).lemma_flatten_push(window[i - first]);
            }
            i += 1;
        }
        assert(window.take(last - first) =~= window);
        text
    }
}

} // verus!
