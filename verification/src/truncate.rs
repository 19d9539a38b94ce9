//! Cutting a text on its right so that it fits in a number of columns.
use vstd::prelude::*;

use crate::columns::{
    columns, graphemes, group_columns, is_simple, is_simple_text, joined, lemma_clusters_joined,
    lemma_columns_concat, lemma_columns_none, lemma_simple_columns, singles, str_width,
    text_clusters, texts,
};
use crate::text::{
    byte_len, is_piece, lemma_byte_len_positive, lemma_encode_concat, lemma_piece_between, piece,
    str_bytes, str_piece,
};

verus! {

/// What is left of a string that has to fit in a number of columns.
#[derive(Debug, PartialEq, Eq)]
pub enum TruncationResult<'a> {
    /// The string fits as it is. Holds its columns.
    NoTruncation(isize),
    /// Only this prefix fits, followed by the replacement. Holds the columns of both together.
    Truncated(&'a str, isize),
    /// Not even the first grapheme cluster fits beside the replacement.
    DoesntFit,
}

/// How many of the texts of a list, from the first on, fit side by side in `space` columns.
pub open spec fn fitting(parts: Seq<Seq<char>>, space: int) -> nat
    decreases parts.len(),
{
    if parts.len() == 0 || columns(joined(parts)) <= space {
        parts.len()
    } else {
        fitting(parts.drop_last(), space)
    }
}

/// How many grapheme clusters of a text, from the first on, fit in `space` columns.
pub open spec fn clusters_fitting(s: Seq<char>, space: int) -> nat {
    fitting(text_clusters(s), space)
}

/// The longest prefix of a text, cut between grapheme clusters, that fits in `space` columns.
pub open spec fn longest_prefix(s: Seq<char>, space: int) -> Seq<char> {
    joined(text_clusters(s).take(clusters_fitting(s, space) as int))
}

/// A text cut on its right to `space` columns: the text itself where it fits, and otherwise as
/// much of it as leaves a column for the ellipsis that follows.
pub open spec fn ellipsized(s: Seq<char>, space: int) -> Seq<char> {
    if columns(s) <= space {
        s
    } else {
        longest_prefix(s, space - 1) + seq!['…']
    }
}

/// The columns that a text with these grapheme clusters needs when it may be cut: those of its
/// first cluster and of an ellipsis, or of the text itself where there is no second cluster.
pub open spec fn required_columns(s: Seq<char>, parts: Seq<Seq<char>>) -> nat {
    if parts.len() <= 1 {
        columns(s)
    } else {
        columns(parts[0]) + 1
    }
}

/// The columns that a text needs when it may be cut.
pub open spec fn min_columns(s: Seq<char>) -> nat {
    required_columns(s, text_clusters(s))
}

/// Finds how much of a string fits in `available_space` columns, with `replacement` in the place
/// of what is cut off.
pub fn truncate_right_to_fit<'a>(
    s: &'a str,
    available_space: isize,
    replacement: &str,
) -> (r: TruncationResult<'a>)
    ensures
        match r {
            TruncationResult::NoTruncation(width) => {
                &&& columns(s@) <= available_space
                &&& width == columns(s@)
            },
            TruncationResult::Truncated(prefix, width) => {
                let room = available_space - columns(replacement@);
                &&& columns(s@) > available_space
                &&& clusters_fitting(s@, room) > 0
                &&& prefix@ == longest_prefix(s@, room)
                &&& width == columns(prefix@) + columns(replacement@)
                &&& width <= available_space
            },
            TruncationResult::DoesntFit => {
                &&& columns(s@) > available_space
                &&& clusters_fitting(s@, available_space - columns(replacement@)) == 0
            },
        },
{
    let width: usize = str_width(s);
    if width as i128 <= available_space as i128 {
        return TruncationResult::NoTruncation(width as isize);
    }
    let replacement_width: usize = str_width(replacement);
    let room: i128 = available_space as i128 - replacement_width as i128;
    let (clusters, end, used) = fit_prefix(s, room);
    if clusters == 0 {
        return TruncationResult::DoesntFit;
    }
    TruncationResult::Truncated(str_piece(s, 0, end), (used + replacement_width as i128) as isize)
}

/// The fewest columns in which something of a string can be shown: its first grapheme cluster and
/// an ellipsis, or the string itself if it has one cluster or none.
pub fn min_required_columns_for_str(s: &str) -> (n: i128)
    ensures
        n == min_columns(s@),
        n <= usize::MAX + 1,
{
    required_columns_for_clusters(s, &graphemes(s))
}

/// The fewest columns in which something of a string with these grapheme clusters can be shown.
pub fn required_columns_for_clusters(s: &str, clusters: &Vec<&str>) -> (n: i128)
    ensures
        n == required_columns(s@, texts(clusters@)),
        n <= usize::MAX + 1,
{
    if clusters.len() <= 1 {
        str_width(s) as i128
    } else {
        str_width(clusters[0]) as i128 + 1
    }
}

/// Finds how many of the grapheme clusters of a string, from the first on, fit in `room` columns.
/// Returns their number, the byte offset where they end, and the columns that they take.
pub(crate) fn fit_prefix(s: &str, room: i128) -> (r: (usize, usize, i128))
    requires
        room <= isize::MAX,
    ensures
        r.0 == clusters_fitting(s@, room as int),
        is_piece(s@, 0, r.1 as int),
        piece(s@, 0, r.1 as int) == longest_prefix(s@, room as int),
        r.1 == byte_len(longest_prefix(s@, room as int)),
        room >= 0 && columns(s@) > room ==> r.1 < byte_len(s@),
        r.2 == columns(longest_prefix(s@, room as int)),
        r.0 > 0 ==> r.2 <= room,
{
    let clusters = graphemes(s);
    let total: usize = str_bytes(s);
    let (count, end, used) = fit_clusters(&clusters, room);
    proof {
        let parts = texts(clusters@);
        lemma_joined_prefix(parts, count as int);
        if count < parts.len() {
            assert(parts[count as int] == clusters[count as int]@);
            lemma_joined_not_empty(parts.skip(count as int));
        } else {
            assert(parts.take(count as int) =~= parts);
        }
    }
    (count, end, used)
}

/// Walks over the parts of a string as long as they fit in `room` columns. Returns their number,
/// the bytes and the columns that they take.
pub fn fit_clusters(clusters: &Vec<&str>, room: i128) -> (r: (usize, usize, i128))
    requires
        byte_len(joined(texts(clusters@))) <= usize::MAX,
        room <= isize::MAX,
    ensures
        r.0 == fitting(texts(clusters@), room as int),
        r.0 <= clusters.len(),
        r.1 == byte_len(joined(texts(clusters@).take(r.0 as int))),
        r.2 == columns(joined(texts(clusters@).take(r.0 as int))),
        r.0 > 0 ==> r.2 <= room,
{
    let ghost parts = texts(clusters@);
    let mut count: usize = 0;
    let mut end: usize = 0;
    let mut used: i128 = 0;
    proof {
        lemma_columns_none(Seq::empty());
        assert(parts.take(0) =~= Seq::empty());
        assert(parts.take(parts.len() as int) =~= parts);
    }
    while count < clusters.len()
        invariant
            parts.take(parts.len() as int) == parts,
            parts == texts(clusters@),
            count <= parts.len() == clusters.len(),
            end == byte_len(joined(parts.take(count as int))),
            used == columns(joined(parts.take(count as int))),
            count > 0 ==> used <= room,
            count == 0 ==> used == 0,
            room <= isize::MAX,
            byte_len(joined(parts)) <= usize::MAX,
        ensures
            count == fitting(parts, room as int),
        decreases clusters.len() - count,
    {
        let width: usize = str_width(clusters[count]);
        proof {
            assert(parts.take(count + 1).drop_last() =~= parts.take(count as int));
            assert(parts.take(count + 1).last() == clusters[count as int]@);
            lemma_columns_concat(joined(parts.take(count as int)), clusters[count as int]@);
        }
        if used + width as i128 > room {
            proof {
                lemma_fitting_stops(parts, room as int, count as int);
            }
            break;
        }
        proof {
            lemma_joined_prefix(parts, count + 1);
            lemma_encode_concat(joined(parts.take(count as int)), clusters[count as int]@);
        }
        end = end + str_bytes(clusters[count]);
        used = used + width as i128;
        count = count + 1;
    }
    (count, end, used)
}

/// A list of texts is joined from the joins of its two parts.
proof fn lemma_joined_split(parts: Seq<Seq<char>>, k: int)
    requires
        0 <= k <= parts.len(),
    ensures
        joined(parts) == joined(parts.take(k)) + joined(parts.skip(k)),
    decreases parts.len() - k,
{
    if k == parts.len() {
        assert(parts.take(k) =~= parts);
        assert(joined(parts) =~= joined(parts) + joined(parts.skip(k)));
    } else {
        lemma_joined_split(parts.drop_last(), k);
        assert(parts.drop_last().take(k) =~= parts.take(k));
        assert(parts.skip(k).drop_last() =~= parts.drop_last().skip(k));
        assert(parts.skip(k).last() == parts.last());
        assert(joined(parts) =~= joined(parts.take(k)) + joined(parts.skip(k)));
    }
}

/// The first texts of a list are the piece of the whole that their bytes make up.
proof fn lemma_joined_prefix(parts: Seq<Seq<char>>, k: int)
    requires
        0 <= k <= parts.len(),
    ensures
        is_piece(joined(parts), 0, byte_len(joined(parts.take(k))) as int),
        piece(joined(parts), 0, byte_len(joined(parts.take(k))) as int) == joined(parts.take(k)),
        byte_len(joined(parts)) == byte_len(joined(parts.take(k))) + byte_len(
            joined(parts.skip(k)),
        ),
        columns(joined(parts)) == columns(joined(parts.take(k))) + columns(joined(parts.skip(k))),
{
    let none = Seq::<char>::empty();
    let head = joined(parts.take(k));
    let tail = joined(parts.skip(k));
    lemma_joined_split(parts, k);
    lemma_piece_between(none, head, tail);
    lemma_columns_concat(head, tail);
    assert(none + head =~= head);
}

/// Texts of which the first is not empty are not empty together.
proof fn lemma_joined_not_empty(parts: Seq<Seq<char>>)
    requires
        parts.len() > 0,
        parts[0].len() > 0,
    ensures
        byte_len(joined(parts)) > 0,
{
    lemma_joined_split(parts, 1);
    assert(parts.take(1).drop_last() =~= Seq::empty());
    lemma_byte_len_positive(joined(parts));
}

/// Where the next text no longer fits, those before it are the ones that fit.
proof fn lemma_fitting_stops(parts: Seq<Seq<char>>, space: int, k: int)
    requires
        0 <= k < parts.len(),
        columns(joined(parts.take(k + 1))) > space,
        k > 0 ==> columns(joined(parts.take(k))) <= space,
    ensures
        fitting(parts, space) == k,
    decreases parts.len(),
{
    lemma_joined_prefix(parts, k + 1);
    let shorter = parts.drop_last();
    if k == shorter.len() {
        reveal_with_fuel(fitting, 2);
        assert(parts.take(k) =~= shorter);
    } else {
        assert(shorter.take(k) =~= parts.take(k));
        assert(shorter.take(k + 1) =~= parts.take(k + 1));
        lemma_fitting_stops(shorter, space, k);
    }
}

/// As many texts as fit do fit, if there are any.
pub proof fn lemma_fitting_fits(parts: Seq<Seq<char>>, space: int)
    ensures
        fitting(parts, space) <= parts.len(),
        fitting(parts, space) > 0 ==> columns(
            joined(parts.take(fitting(parts, space) as int)),
        ) <= space,
        fitting(parts, space) == 0 ==> joined(parts.take(fitting(parts, space) as int)).len() == 0,
    decreases parts.len(),
{
    if parts.len() == 0 || columns(joined(parts)) <= space {
        assert(parts.take(parts.len() as int) =~= parts);
    } else {
        lemma_fitting_fits(parts.drop_last(), space);
        let k = fitting(parts.drop_last(), space) as int;
        assert(parts.drop_last().take(k) =~= parts.take(k));
    }
}

/// Where the first text fits, one at least fits.
pub proof fn lemma_fitting_first(parts: Seq<Seq<char>>, space: int)
    requires
        parts.len() > 0,
        columns(parts[0]) <= space,
    ensures
        fitting(parts, space) > 0,
    decreases parts.len(),
{
    if parts.len() == 1 {
        reveal_with_fuel(joined, 2);
        assert(joined(parts) =~= parts[0]);
    } else {
        lemma_fitting_first(parts.drop_last(), space);
    }
}

/// A text that is given the fewest columns that it needs, or more, can be shown: it fits, or its
/// first grapheme cluster fits beside an ellipsis.
pub proof fn lemma_min_columns_suffice(s: Seq<char>, space: int)
    requires
        space >= min_columns(s),
    ensures
        columns(s) <= space || clusters_fitting(s, space - 1) > 0,
{
    if text_clusters(s).len() > 1 {
        lemma_fitting_first(text_clusters(s), space - 1);
    }
}

/// A text cut to a number of columns takes no more than these, as long as they are enough for the
/// text or for an ellipsis.
pub proof fn lemma_ellipsized_fits(s: Seq<char>, space: int)
    requires
        columns(s) <= space || space >= 1,
    ensures
        columns(ellipsized(s, space)) <= space,
{
    broadcast use group_columns;

    lemma_fitting_fits(text_clusters(s), space - 1);
}

/// The longest prefix of a text in a number of columns is the text up to one of the places where it
/// may be cut, fits there, and would no longer fit with the part that follows.
pub proof fn lemma_longest_prefix(s: Seq<char>, space: int)
    requires
        space >= 0,
    ensures
        exists|k: int|
            {
                &&& 0 <= k <= text_clusters(s).len()
                &&& longest_prefix(s, space) == joined(#[trigger] text_clusters(s).take(k))
                &&& k < text_clusters(s).len() ==> columns(joined(text_clusters(s).take(k + 1)))
                    > space
            },
        columns(longest_prefix(s, space)) <= space,
        longest_prefix(s, space).is_prefix_of(s),
        byte_len(longest_prefix(s, space)) <= byte_len(s),
{
    let parts = text_clusters(s);
    let k = fitting(parts, space) as int;
    lemma_clusters_joined(s);
    lemma_fitting_fits(parts, space);
    lemma_fitting_most(parts, space);
    lemma_joined_split(parts, k);
    lemma_joined_prefix(parts, k);
    lemma_columns_none(Seq::empty());
    if k == 0 {
        assert(joined(parts.take(k)) =~= Seq::empty());
    }
    assert(longest_prefix(s, space) == joined(parts.take(k)));
}

/// Where not all texts fit, the next one after those that do does not.
pub proof fn lemma_fitting_most(parts: Seq<Seq<char>>, space: int)
    ensures
        fitting(parts, space) < parts.len() ==> columns(
            joined(parts.take(fitting(parts, space) as int + 1)),
        ) > space,
    decreases parts.len(),
{
    if parts.len() > 0 && columns(joined(parts)) > space {
        let shorter = parts.drop_last();
        let k = fitting(shorter, space) as int;
        lemma_fitting_fits(shorter, space);
        lemma_fitting_most(shorter, space);
        if k < shorter.len() {
            assert(shorter.take(k + 1) =~= parts.take(k + 1));
        } else {
            assert(parts.take(k + 1) =~= parts);
        }
    }
}

/// A text that fits is not cut. One that does not fit is cut to the longest prefix that leaves a
/// column for the ellipsis after it.
pub proof fn lemma_ellipsized(s: Seq<char>, space: int)
    requires
        space >= 1,
    ensures
        columns(s) <= space ==> ellipsized(s, space) == s,
        columns(s) > space ==> {
            &&& ellipsized(s, space).len() >= 1
            &&& ellipsized(s, space).last() == '…'
            &&& ellipsized(s, space).drop_last() == longest_prefix(s, space - 1)
            &&& columns(ellipsized(s, space)) <= space
        },
{
    lemma_ellipsized_fits(s, space);
    assert((longest_prefix(s, space - 1) + seq!['…']).drop_last() =~= longest_prefix(s, space - 1));
}

/// A text of printable ASCII and ellipses can be cut after any number of characters.
pub proof fn lemma_simple_prefix(s: Seq<char>, space: int)
    requires
        is_simple_text(s),
        0 <= space <= s.len(),
    ensures
        clusters_fitting(s, space) == space,
        longest_prefix(s, space) == s.take(space),
{
    let parts = text_clusters(s);
    lemma_simple_joined(s, space);
    if space < s.len() {
        lemma_simple_joined(s, space + 1);
        lemma_fitting_stops(parts, space, space);
    } else {
        assert(parts.take(space) =~= parts);
    }
}

/// The first characters of a text of printable ASCII and ellipses.
proof fn lemma_simple_joined(s: Seq<char>, k: int)
    requires
        is_simple_text(s),
        0 <= k <= s.len(),
    ensures
        joined(text_clusters(s).take(k)) == s.take(k),
        columns(s.take(k)) == k,
{
    let head = s.take(k);
    assert forall|i: int| 0 <= i < head.len() implies is_simple(#[trigger] head[i]) by {
        assert(is_simple(s[i]));
    }
    assert(text_clusters(s).take(k) =~= singles(head));
    lemma_clusters_joined(head);
    lemma_simple_columns(head);
}

/// A text of printable ASCII and ellipses that does not fit is cut so that it fills the columns
/// that there are.
pub proof fn lemma_simple_ellipsized(s: Seq<char>, space: int)
    requires
        is_simple_text(s),
        space >= 1,
    ensures
        ellipsized(s, space) == if s.len() <= space {
            s
        } else {
            s.take(space - 1) + seq!['…']
        },
        min_columns(s) == if s.len() <= 2 {
            s.len()
        } else {
            2
        },
{
    lemma_simple_columns(s);
    if s.len() > space {
        lemma_simple_prefix(s, space - 1);
    }
    if s.len() > 1 {
        assert(is_simple(s[0]));
        lemma_simple_columns(seq![s[0]]);
    }
}

} // verus!
