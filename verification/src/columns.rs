//! How many columns of a terminal a text takes, and where it may be cut.
use vstd::prelude::*;

verus! {

/// The columns of a character outside printable ASCII, as the `unicode-width` crate has them in
/// its tables (UAX #11, ambiguous characters as narrow).
pub uninterp spec fn table_columns(c: char) -> nat;

/// The extended grapheme clusters of a text, in order, as the `unicode-segmentation` crate finds
/// them (UAX #29).
pub uninterp spec fn grapheme_clusters(s: Seq<char>) -> Seq<Seq<char>>;

/// Whether a character is printable ASCII or the ellipsis.
pub open spec fn is_simple(c: char) -> bool {
    (' ' <= c && c <= '~') || c == '…'
}

/// Whether all characters of a text are printable ASCII or the ellipsis.
pub open spec fn is_simple_text(s: Seq<char>) -> bool {
    forall|i: int| 0 <= i < s.len() ==> is_simple(#[trigger] s[i])
}

/// The columns that a character takes: one for printable ASCII and for the ellipsis, none for a
/// control character.
pub open spec fn char_columns(c: char) -> nat {
    if is_simple(c) {
        1
    } else if (c as u32) < 0xa0 {
        0
    } else {
        table_columns(c)
    }
}

/// The columns that a text takes.
#[verifier::opaque]
pub open spec fn columns(s: Seq<char>) -> nat
    decreases s.len(),
{
    if s.len() == 0 {
        0
    } else {
        columns(s.drop_last()) + char_columns(s.last())
    }
}

/// The texts of a list, one after the other.
pub open spec fn joined(parts: Seq<Seq<char>>) -> Seq<char>
    decreases parts.len(),
{
    if parts.len() == 0 {
        Seq::empty()
    } else {
        joined(parts.drop_last()) + parts.last()
    }
}

/// The characters of a text, each as a text of its own.
pub open spec fn singles(s: Seq<char>) -> Seq<Seq<char>> {
    Seq::new(s.len(), |i: int| seq![s[i]])
}

/// The parts between which a text may be cut: its characters, where all of them are printable
/// ASCII or the ellipsis, and otherwise its extended grapheme clusters. These make up the text. One
/// that they did not make up would be a single part.
pub open spec fn text_clusters(s: Seq<char>) -> Seq<Seq<char>> {
    if is_simple_text(s) {
        singles(s)
    } else if joined(grapheme_clusters(s)) == s {
        grapheme_clusters(s)
    } else {
        seq![s]
    }
}

/// The texts of a list of strings.
pub open spec fn texts(parts: Seq<&str>) -> Seq<Seq<char>> {
    parts.map_values(|p: &str| p@)
}

/// Calls `unicode_width::UnicodeWidthStr::width`, which adds up the widths of the characters. A
/// control character counts for nothing, a printable ASCII character for one column, and the
/// ellipsis, whose width is ambiguous, for one too. What the tables of the crate hold for the
/// other characters is not said here: it is named by `table_columns`.
#[verifier::external_body]
pub(crate) fn str_width(s: &str) -> (w: usize)
    ensures
        w == columns(s@),
        s@.len() == 1 && s@[0] as u32 >= 0xa0 && s@[0] != '…' ==> w == table_columns(s@[0]),
{
    unicode_width::UnicodeWidthStr::width(s)
}

/// Calls `unicode_segmentation::UnicodeSegmentation::graphemes` for the extended clusters. They
/// are pieces of the string that follow one another from its start to its end, and none of them is
/// empty. A string of printable ASCII characters and ellipses is divided between any two of them.
/// Where another string is divided is not said here: it is named by `grapheme_clusters`.
#[verifier::external_body]
pub(crate) fn graphemes<'a>(s: &'a str) -> (parts: Vec<&'a str>)
    ensures
        texts(parts@) == grapheme_clusters(s@),
        joined(texts(parts@)) == s@,
        forall|i: int| 0 <= i < parts.len() ==> (#[trigger] parts[i])@.len() > 0,
        is_simple_text(s@) ==> texts(parts@) == singles(s@),
{
    unicode_segmentation::UnicodeSegmentation::graphemes(s, true).collect()
}

/// The parts between which a text may be cut make up the text.
pub proof fn lemma_clusters_joined(s: Seq<char>)
    ensures
        joined(text_clusters(s)) == s,
{
    lemma_singles_joined(s);
    reveal_with_fuel(joined, 2);
    assert(seq![s].drop_last() =~= Seq::empty());
    assert(Seq::<char>::empty() + s =~= s);
}

/// A text is divided between any two of its characters where all of them are printable ASCII or the
/// ellipsis, and otherwise as its grapheme clusters have it.
pub proof fn lemma_clusters_found(s: Seq<char>)
    ensures
        (forall|i: int| 0 <= i < s.len() ==> (' ' <= #[trigger] s[i] && s[i] <= '~') || s[i] == '…')
            ==> text_clusters(s).len() == s.len() && (forall|i: int|
            0 <= i < s.len() ==> #[trigger] text_clusters(s)[i] == seq![s[i]]),
        (exists|i: int|
            0 <= i < s.len() && !(' ' <= #[trigger] s[i] && s[i] <= '~') && s[i] != '…') && joined(
            grapheme_clusters(s),
        ) == s ==> text_clusters(s) == grapheme_clusters(s),
{
    if exists|i: int|
        0 <= i < s.len() && !(' ' <= #[trigger] s[i] && s[i] <= '~') && s[i] != '…' {
        let i = choose|i: int|
            0 <= i < s.len() && !(' ' <= #[trigger] s[i] && s[i] <= '~') && s[i] != '…';
        assert(!is_simple(s[i]));
    }
}

/// The characters of a text make up the text.
proof fn lemma_singles_joined(s: Seq<char>)
    ensures
        joined(singles(s)) == s,
    decreases s.len(),
{
    if s.len() > 0 {
        lemma_singles_joined(s.drop_last());
        assert(singles(s).drop_last() =~= singles(s.drop_last()));
        assert(s.drop_last() + seq![s.last()] =~= s);
    }
}

/// A text of printable ASCII and ellipses takes a column for each character.
pub proof fn lemma_simple_columns(s: Seq<char>)
    requires
        is_simple_text(s),
    ensures
        columns(s) == s.len(),
    decreases s.len(),
{
    reveal(columns);
    if s.len() > 0 {
        assert(is_simple(s[s.len() - 1]));
        assert forall|i: int| 0 <= i < s.drop_last().len() implies is_simple(
            #[trigger] s.drop_last()[i],
        ) by {
            assert(is_simple(s[i]));
        }
        lemma_simple_columns(s.drop_last());
    }
}

/// Two texts side by side take the columns of both.
pub broadcast proof fn lemma_columns_concat(a: Seq<char>, b: Seq<char>)
    ensures
        #[trigger] columns(a + b) == columns(a) + columns(b),
    decreases b.len(),
{
    reveal(columns);
    if b.len() == 0 {
        assert(a + b =~= a);
    } else {
        lemma_columns_concat(a, b.drop_last());
        assert((a + b).drop_last() =~= a + b.drop_last());
    }
}

/// A text of one character takes the columns of that character.
pub broadcast proof fn lemma_columns_one(c: char)
    ensures
        #[trigger] columns(seq![c]) == char_columns(c),
{
    reveal_with_fuel(columns, 2);
    assert(seq![c].drop_last() =~= Seq::<char>::empty());
}

/// No text, no columns.
pub broadcast proof fn lemma_columns_none(s: Seq<char>)
    requires
        s.len() == 0,
    ensures
        #[trigger] columns(s) == 0,
{
    reveal(columns);
}

/// How columns add up.
pub broadcast group group_columns {
    lemma_columns_concat,
    lemma_columns_one,
    lemma_columns_none,
}

} // verus!
