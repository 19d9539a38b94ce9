//! Previews of one container in different numbers of columns.
//!
//! More room never makes a preview shorter. It may well make one of its elements so much longer
//! that less is left for those after it, but an element grows by more than the room does only where
//! it takes all, or all but one, of the columns that there are.
use vstd::prelude::*;

use crate::columns::{
    columns, group_columns, joined, lemma_clusters_joined, lemma_columns_none, text_clusters,
};
use crate::flatjson::{FlatJson, OptionIndex, Row};
use crate::identifier::is_identifier;
use crate::preview::{
    element_needs, element_text, element_value_text, elements_text, key_label, lemma_columns_quoted,
    lemma_element_fits, lemma_element_value_fits, lemma_elements_fit, lemma_separators,
    preview_text, quote_columns, value_preview_text, weight,
};
use crate::truncate::{
    ellipsized, fitting, lemma_ellipsized_fits, lemma_fitting_first, lemma_fitting_fits,
    longest_prefix, min_columns,
};

verus! {

/// More room never gives a shorter preview.
pub proof fn lemma_preview_grows(
    flatjson: FlatJson,
    row: Row,
    a: int,
    b: int,
    quoted_object_keys: bool,
)
    requires
        flatjson.wf(),
        flatjson.describes(row),
        row.value is OpenContainer,
        a <= b,
    ensures
        columns(preview_text(flatjson, row, a, quoted_object_keys)) <= columns(
            preview_text(flatjson, row, b, quoted_object_keys),
        ),
    decreases b - a,
{
    if a < b {
        lemma_preview_grows(flatjson, row, a, b - 1, quoted_object_keys);
        lemma_preview_step(flatjson, row, b - 1, quoted_object_keys);
    }
}

/// A list of texts takes the columns of its first at least.
proof fn lemma_joined_first(parts: Seq<Seq<char>>)
    requires
        parts.len() > 0,
    ensures
        columns(joined(parts)) >= columns(parts[0]),
    decreases parts.len(),
{
    broadcast use group_columns;

    if parts.len() > 1 {
        lemma_joined_first(parts.drop_last());
    }
}

/// The columns of as many texts of a list as fit.
spec fn fitting_columns(parts: Seq<Seq<char>>, space: int) -> nat {
    columns(joined(parts.take(fitting(parts, space) as int)))
}

/// A column more for a list of texts: where more of them fit, they fill all that there are.
proof fn lemma_fitting_step(parts: Seq<Seq<char>>, space: int)
    ensures
        ({
            let before = fitting_columns(parts, space);
            let after = fitting_columns(parts, space + 1);
            before <= after && (after == before || after == space + 1)
        }),
    decreases parts.len(),
{
    broadcast use group_columns;

    lemma_fitting_fits(parts, space);
    if parts.len() > 0 && columns(joined(parts)) > space {
        if columns(joined(parts)) <= space + 1 {
            assert(parts.take(parts.len() as int) =~= parts);
        } else {
            let shorter = parts.drop_last();
            lemma_fitting_step(shorter, space);
            lemma_fitting_fits(shorter, space);
            lemma_fitting_fits(shorter, space + 1);
            assert(shorter.take(fitting(shorter, space) as int) =~= parts.take(
                fitting(parts, space) as int,
            ));
            assert(shorter.take(fitting(shorter, space + 1) as int) =~= parts.take(
                fitting(parts, space + 1) as int,
            ));
        }
    }
}

/// A column more for a text that may be cut: where it takes more columns, it fills all that there
/// are.
proof fn lemma_ellipsized_step(s: Seq<char>, space: int)
    requires
        columns(s) <= space || space >= 1,
    ensures
        ({
            let before = columns(ellipsized(s, space));
            let after = columns(ellipsized(s, space + 1));
            before <= after && (after == before || after == space + 1)
        }),
{
    broadcast use group_columns;

    lemma_separators();
    lemma_ellipsized_fits(s, space);
    lemma_fitting_step(text_clusters(s), space - 1);
}

/// A text in the fewest columns that it needs leaves one of them at most.
proof fn lemma_ellipsized_least(s: Seq<char>)
    ensures
        min_columns(s) <= columns(ellipsized(s, min_columns(s) as int)) + 1,
        columns(s) <= min_columns(s) || min_columns(s) >= 1,
{
    broadcast use group_columns;

    lemma_separators();
    lemma_clusters_joined(s);
    let parts = text_clusters(s);
    if parts.len() > 1 {
        let room = columns(parts[0]) as int;
        let head = parts.take(fitting(parts, room) as int);
        lemma_joined_first(parts);
        lemma_fitting_first(parts, room);
        lemma_fitting_fits(parts, room);
        lemma_joined_first(head);
        assert(head[0] == parts[0]);
        if columns(s) > min_columns(s) {
            assert(longest_prefix(s, room) == joined(head));
        }
    }
}

/// A column more for a value: it takes no fewer columns, and at most one more unless it takes all
/// that there were.
proof fn lemma_value_step(flatjson: FlatJson, row: Row, space: int)
    ensures
        ({
            let before = columns(value_preview_text(flatjson, row, space));
            let after = columns(value_preview_text(flatjson, row, space + 1));
            before <= after && (after <= before + 1 || after >= space)
        }),
{
    let value = flatjson.value_text(row);
    let quoted = row.value is String;
    let room = space - quote_columns(quoted);
    lemma_columns_none(Seq::empty());
    lemma_ellipsized_least(value);
    lemma_columns_quoted(quoted, ellipsized(value, room));
    lemma_columns_quoted(quoted, ellipsized(value, room + 1));
    if room >= min_columns(value) {
        lemma_ellipsized_step(value, room);
    }
}

/// The columns of a key and the colon after it.
proof fn lemma_key_columns(key: Seq<char>, space: int, quoted_object_keys: bool)
    ensures
        ({
            let quotes = quote_columns(quoted_object_keys || !is_identifier(key));
            columns(key_label(key, space, quoted_object_keys)) == quotes + columns(
                ellipsized(key, space - 1 - quotes - 2),
            ) + 2
        }),
{
    broadcast use group_columns;

    lemma_separators();
    let quoted = quoted_object_keys || !is_identifier(key);
    lemma_columns_quoted(quoted, ellipsized(key, space - 1 - quote_columns(quoted) - 2));
}

/// An element with a key takes the columns of the key and of the value, or one for the value where
/// that has no room.
proof fn lemma_keyed_columns(
    flatjson: FlatJson,
    row: Row,
    space: int,
    quoted_object_keys: bool,
    is_only_child: bool,
)
    requires
        flatjson.wf(),
        flatjson.describes(row),
        flatjson.key_text(row) is Some,
        space >= element_needs(flatjson.key_text(row), quoted_object_keys),
    ensures
        ({
            let label = columns(
                key_label(flatjson.key_text(row)->0, space, quoted_object_keys),
            );
            let value = columns(
                element_value_text(
                    flatjson,
                    row,
                    space - label,
                    quoted_object_keys,
                    is_only_child,
                ),
            );
            columns(element_text(flatjson, row, space, quoted_object_keys, is_only_child)) == label
                + if value == 0 {
                1
            } else {
                value as int
            }
        }),
{
    broadcast use group_columns;

    lemma_separators();
}

/// A column more for the value of an element: it takes no fewer columns, and, unless it is the only
/// element, at most one more where it does not take all that there were.
proof fn lemma_element_value_step(
    flatjson: FlatJson,
    row: Row,
    space: int,
    quoted_object_keys: bool,
    is_only_child: bool,
)
    requires
        flatjson.wf(),
        flatjson.describes(row),
    ensures
        ({
            let before = columns(
                element_value_text(flatjson, row, space, quoted_object_keys, is_only_child),
            );
            let after = columns(
                element_value_text(flatjson, row, space + 1, quoted_object_keys, is_only_child),
            );
            before <= after && (is_only_child || after <= before + 1 || after >= space)
        }),
    decreases weight(flatjson, row.spec_first_child()), 2int,
{
    if is_only_child && row.value is OpenContainer {
        lemma_preview_step(flatjson, row, space, quoted_object_keys);
    } else {
        lemma_value_step(flatjson, row, space);
    }
}

/// A column more for an element: it takes no fewer columns, and, unless it is the only one, at most
/// one more where it does not take all that there were.
proof fn lemma_element_step(
    flatjson: FlatJson,
    row: Row,
    space: int,
    quoted_object_keys: bool,
    is_only_child: bool,
)
    requires
        flatjson.wf(),
        flatjson.describes(row),
    ensures
        ({
            let before = columns(
                element_text(flatjson, row, space, quoted_object_keys, is_only_child),
            );
            let after = columns(
                element_text(flatjson, row, space + 1, quoted_object_keys, is_only_child),
            );
            before <= after && (is_only_child || after <= before + 1 || after >= space)
        }),
    decreases weight(flatjson, row.spec_first_child()), 3int,
{
    lemma_separators();
    lemma_columns_none(Seq::empty());
    let needs = element_needs(flatjson.key_text(row), quoted_object_keys);
    match flatjson.key_text(row) {
        None => {
            lemma_element_value_step(flatjson, row, space, quoted_object_keys, is_only_child);
            lemma_element_value_fits(flatjson, row, space + 1, quoted_object_keys, is_only_child);
        },
        Some(key) => {
            let quotes = quote_columns(quoted_object_keys || !is_identifier(key));
            lemma_ellipsized_least(key);
            lemma_key_columns(key, space, quoted_object_keys);
            lemma_key_columns(key, space + 1, quoted_object_keys);
            if space + 1 >= needs {
                lemma_keyed_columns(
                    flatjson,
                    row,
                    space + 1,
                    quoted_object_keys,
                    is_only_child,
                );
            }
            if space >= needs {
                lemma_keyed_columns(flatjson, row, space, quoted_object_keys, is_only_child);
                lemma_element_fits(flatjson, row, space, quoted_object_keys, is_only_child);
                lemma_ellipsized_step(key, space - 1 - quotes - 2);
                lemma_element_value_step(
                    flatjson,
                    row,
                    space - columns(key_label(key, space, quoted_object_keys)),
                    quoted_object_keys,
                    is_only_child,
                );
            }
        },
    }
}

/// A column more for the elements of a container: they take no fewer columns.
proof fn lemma_elements_step(
    flatjson: FlatJson,
    child: OptionIndex,
    space: int,
    quoted_object_keys: bool,
    is_first_child: bool,
)
    requires
        flatjson.wf(),
        child matches OptionIndex::Index(index) ==> flatjson.has_element(index),
        space >= 1,
    ensures
        columns(elements_text(flatjson, child, space, quoted_object_keys, is_first_child))
            <= columns(
            elements_text(flatjson, child, space + 1, quoted_object_keys, is_first_child),
        ),
    decreases weight(flatjson, child), 0int,
{
    broadcast use group_columns;

    lemma_separators();
    if let OptionIndex::Index(index) = child {
        let row = flatjson.rows()[index as int];
        let more = row.next_sibling is Index;
        let is_only_child = is_first_child && !more;
        let room = if more {
            space - 3
        } else {
            space
        };
        lemma_elements_fit(flatjson, child, space, quoted_object_keys, is_first_child);
        lemma_elements_fit(flatjson, child, space + 1, quoted_object_keys, is_first_child);
        lemma_element_step(flatjson, row, room, quoted_object_keys, is_only_child);
        let before = columns(element_text(flatjson, row, room, quoted_object_keys, is_only_child));
        let after = columns(
            element_text(flatjson, row, room + 1, quoted_object_keys, is_only_child),
        );
        if before > 0 && more {
            lemma_element_fits(
                flatjson,
                row,
                room,
                quoted_object_keys,
                is_only_child,
            );
            lemma_element_fits(
                flatjson,
                row,
                room + 1,
                quoted_object_keys,
                is_only_child,
            );
            if after == before {
                lemma_elements_step(
                    flatjson,
                    row.next_sibling,
                    space - before - 2,
                    quoted_object_keys,
                    false,
                );
            } else {
                lemma_elements_fit(
                    flatjson,
                    row.next_sibling,
                    space + 1 - after - 2,
                    quoted_object_keys,
                    false,
                );
            }
        }
    }
}

/// A column more for a preview: it takes no fewer columns.
proof fn lemma_preview_step(flatjson: FlatJson, row: Row, space: int, quoted_object_keys: bool)
    requires
        flatjson.wf(),
        flatjson.describes(row),
        row.value is OpenContainer,
    ensures
        columns(preview_text(flatjson, row, space, quoted_object_keys)) <= columns(
            preview_text(flatjson, row, space + 1, quoted_object_keys),
        ),
    decreases weight(flatjson, row.spec_first_child()), 1int,
{
    broadcast use group_columns;

    if space >= 3 {
        lemma_elements_step(
            flatjson,
            row.spec_first_child(),
            space - 2,
            quoted_object_keys,
            true,
        );
    }
}

} // verus!
