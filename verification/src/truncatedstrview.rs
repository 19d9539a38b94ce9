//! Views of a string through a window that may be too narrow for it.
use std::fmt;

use vstd::prelude::*;

use crate::columns::{columns, lemma_columns_concat, lemma_columns_one, str_width};
use crate::output::{
    advance, begin, emitted, finish, lemma_emitted_nothing, regroup3, text_if, write_if, Write,
};
use crate::text::{byte_len, is_piece, lemma_piece_between, piece, str_bytes, str_piece};
use crate::truncate::{ellipsized, fit_prefix, lemma_ellipsized_fits, longest_prefix};

verus! {

/// The part of a string that a view shows.
#[derive(Debug, Copy, Clone, PartialEq, Eq)]
pub struct TruncatedRange {
    /// The byte offset where the part begins. An ellipsis stands for what comes before it.
    pub start: usize,
    /// The byte offset where the part ends. An ellipsis stands for what comes after it.
    pub end: usize,
    /// The columns that the part takes, with its ellipses.
    pub used_space: isize,
}

/// A view of a string.
#[derive(Debug, Copy, Clone, PartialEq, Eq)]
pub struct TruncatedStrView {
    /// What is shown, if there is room for anything.
    pub range: Option<TruncatedRange>,
}

/// A string as it is seen through a view of it.
pub struct TruncatedStrSlice<'a, 'b> {
    pub s: &'a str,
    pub truncated_view: &'b TruncatedStrView,
}

/// The beginning of a text as it is shown in `space` columns: the text if it fits, and otherwise
/// as much as there is room for and an ellipsis. There is none where not even the ellipsis fits.
pub open spec fn start_text(s: Seq<char>, space: int) -> Option<Seq<char>> {
    if columns(s) <= space || space >= 1 {
        Some(ellipsized(s, space))
    } else {
        None
    }
}

/// The view that shows the beginning of a text in `space` columns.
pub open spec fn start_view(s: Seq<char>, space: int) -> TruncatedStrView {
    TruncatedStrView {
        range: match start_text(s, space) {
            None => None,
            Some(text) => Some(
                TruncatedRange {
                    start: 0,
                    end: byte_len(
                        if columns(s) <= space {
                            s
                        } else {
                            longest_prefix(s, space - 1)
                        },
                    ) as usize,
                    used_space: columns(text) as isize,
                },
            ),
        },
    }
}

impl TruncatedStrView {
    /// Whether this can be a view of a text: its range is a piece of the text.
    pub open spec fn is_view_of(self, s: Seq<char>) -> bool {
        self.range matches Some(range) ==> is_piece(s, range.start as int, range.end as int)
    }

    /// What the view shows of a text.
    pub open spec fn shown(self, s: Seq<char>) -> Seq<char> {
        match self.range {
            None => Seq::empty(),
            Some(range) => {
                text_if(range.start > 0, seq!['…']) + piece(
                    s,
                    range.start as int,
                    range.end as int,
                ) + text_if(range.end < byte_len(s), seq!['…'])
            },
        }
    }

    /// Whether the view shows the beginning of a text in `space` columns.
    pub open spec fn shows_start(self, s: Seq<char>, space: int) -> bool {
        &&& self.is_view_of(s)
        &&& self.range is Some <==> start_text(s, space) is Some
        &&& self.range matches Some(range) ==> {
            let text = start_text(s, space)->0;
            &&& self.shown(s) == text
            &&& range.used_space == columns(text)
            &&& 0 <= range.used_space <= space
        }
    }

    /// Whether the view shows nothing of its text, but takes up space with an ellipsis.
    pub open spec fn elided(self) -> bool {
        self.range matches Some(range) && range.start == range.end && range.used_space > 0
    }

    /// Makes a view of the beginning of a string in `available_space` columns.
    pub fn init_start(s: &str, available_space: isize) -> (view: TruncatedStrView)
        ensures
            view == start_view(s@, available_space as int),
            view.shows_start(s@, available_space as int),
    {
        let width: usize = str_width(s);
        proof {
            lemma_piece_between(Seq::empty(), s@, Seq::empty());
            assert(Seq::<char>::empty() + s@ + Seq::<char>::empty() =~= s@);
            assert(Seq::<char>::empty() + s@ =~= s@);
        }
        if width as i128 <= available_space as i128 {
            let view = TruncatedStrView {
                range: Some(
                    TruncatedRange { start: 0, end: str_bytes(s), used_space: width as isize },
                ),
            };
            assert(view.shown(s@) =~= s@);
            return view;
        }
        if available_space < 1 {
            return TruncatedStrView { range: None };
        }
        let (_, end, used) = fit_prefix(s, available_space as i128 - 1);
        proof {
            lemma_ellipsized_fits(s@, available_space as int);
            lemma_columns_concat(longest_prefix(s@, available_space - 1), seq!['…']);
            lemma_columns_one('…');
        }
        let view = TruncatedStrView {
            range: Some(TruncatedRange { start: 0, end, used_space: (used + 1) as isize }),
        };
        assert(view.shown(s@) =~= ellipsized(s@, available_space as int));
        view
    }

    /// The columns that the view takes, or nothing if there is no room for it.
    pub fn used_space(&self) -> (r: Option<isize>)
        ensures
            r == match self.range {
                Some(range) => Some(range.used_space),
                None => None,
            },
    {
        match self.range {
            Some(range) => Some(range.used_space),
            None => None,
        }
    }

    /// Whether all that there is to see is an ellipsis.
    pub fn is_completely_elided(&self) -> (r: bool)
        ensures
            r == self.elided(),
    {
        match self.range {
            Some(range) => range.start == range.end && range.used_space > 0,
            None => false,
        }
    }
}

impl<'a, 'b> TruncatedStrSlice<'a, 'b> {
    /// Prints what the view shows of the string.
    pub fn write_to<W: Write>(&self, buf: &mut W) -> (r: fmt::Result)
        requires
            self.truncated_view.is_view_of(self.s@),
        ensures
            emitted(
                old(buf).sink(),
                final(buf).sink(),
                r is Ok,
                self.truncated_view.shown(self.s@),
            ),
    {
        let range = match self.truncated_view.range {
            None => {
                proof {
                    lemma_emitted_nothing(buf.sink());
                }
                return Ok(());
            },
            Some(range) => range,
        };
        let shown = str_piece(self.s, range.start, range.end);
        let ghost before = text_if(range.start > 0, seq!['…']);
        let ghost after = text_if(range.end < byte_len(self.s@), seq!['…']);
        let ghost mut p = begin(buf.sink(), before + shown@ + after);
        let r = write_if(buf, range.start > 0, '…');
        proof {
            regroup3(before, shown@, after);
            p = advance(p, buf.sink(), r is Ok, before, shown@ + after);
        }
        r?;
        let r = buf.write_str(shown);
        proof {
            p = advance(p, buf.sink(), r is Ok, shown@, after);
        }
        r?;
        let r = write_if(buf, range.end < str_bytes(self.s), '…');
        proof {
            finish(p, buf.sink(), r is Ok, after);
        }
        r
    }
}

} // verus!
