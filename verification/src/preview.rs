//! What a preview of a container shows.
//!
//! A preview is one line: the elements of the container, as many as there is room for, between its
//! braces. An element that is itself a container is shown without its contents, unless it is the
//! only one.
use vstd::prelude::*;

use crate::columns::{columns, group_columns};
use crate::flatjson::{FlatJson, OptionIndex, Row};
use crate::identifier::is_identifier;
use crate::output::text_if;
use crate::truncate::{ellipsized, lemma_ellipsized_fits, min_columns};

verus! {

/// A quote, as it stands on each side of a text that is quoted.
pub open spec fn quote(quoted: bool) -> Seq<char> {
    text_if(quoted, seq!['"'])
}

/// The columns of the quotes on both sides of a text.
pub open spec fn quote_columns(quoted: bool) -> int {
    if quoted {
        2
    } else {
        0
    }
}

/// The preview of a container in `space` columns. It is empty where there is no room for the two
/// braces and something between them.
pub open spec fn preview_text(
    flatjson: FlatJson,
    row: Row,
    space: int,
    quoted_object_keys: bool,
) -> Seq<char>
    decreases weight(flatjson, row.spec_first_child()), 1int,
    when flatjson.wf() && flatjson.describes(row) && row.value is OpenContainer
{
    if space < 3 {
        Seq::empty()
    } else {
        let container_type = row.value.spec_container_type()->0;
        seq![container_type.spec_open_char()] + elements_text(
            flatjson,
            row.spec_first_child(),
            space - 2,
            quoted_object_keys,
            true,
        ) + seq![container_type.spec_close_char()]
    }
}

/// The elements of a container from `child` on, with the separators between them, in `space`
/// columns. An ellipsis stands for the elements from the first one on for which there is no room
/// beside the ellipsis for those after it.
pub open spec fn elements_text(
    flatjson: FlatJson,
    child: OptionIndex,
    space: int,
    quoted_object_keys: bool,
    is_first_child: bool,
) -> Seq<char>
    decreases weight(flatjson, child), 0int,
    when flatjson.wf() && (child matches OptionIndex::Index(index) ==> flatjson.has_element(index))
{
    match child {
        OptionIndex::Nil => Seq::empty(),
        OptionIndex::Index(index) => {
            let row = flatjson.rows()[index as int];
            let more = row.next_sibling is Index;
            let element = element_text(
                flatjson,
                row,
                if more {
                    space - 3
                } else {
                    space
                },
                quoted_object_keys,
                is_first_child && !more,
            );
            if columns(element) == 0 {
                element + seq!['…']
            } else if more {
                element + (", "@ + elements_text(
                    flatjson,
                    row.next_sibling,
                    space - columns(element) - 2,
                    quoted_object_keys,
                    false,
                ))
            } else {
                element
            }
        },
    }
}

/// The key of an element and the colon after it, in as many columns as leave one for the value.
pub open spec fn quoted_key(key: Seq<char>, space: int, quoted: bool) -> Seq<char> {
    quote(quoted) + ellipsized(key, space - 1 - quote_columns(quoted) - 2) + quote(quoted) + ": "@
}

/// The key of an element and the colon after it. A key is quoted where all keys are, and where it
/// is not an identifier.
pub open spec fn key_label(key: Seq<char>, space: int, quoted_object_keys: bool) -> Seq<char> {
    quoted_key(key, space, quoted_object_keys || !is_identifier(key))
}

/// The columns that an element needs at least: one for its value, and the shortest form of its key
/// if it has one.
pub open spec fn element_needs(key: Option<Seq<char>>, quoted_object_keys: bool) -> int {
    match key {
        None => 1,
        Some(key) => 1 + quote_columns(quoted_object_keys || !is_identifier(key)) + min_columns(key)
            + 2,
    }
}

/// An element of a container in `space` columns. It is empty where there is no room for it. Beside
/// a key there is always something: an ellipsis, if there is no room for the value.
pub open spec fn element_text(
    flatjson: FlatJson,
    row: Row,
    space: int,
    quoted_object_keys: bool,
    is_only_child: bool,
) -> Seq<char>
    decreases weight(flatjson, row.spec_first_child()), 3int,
    when flatjson.wf() && flatjson.describes(row)
{
    let key = flatjson.key_text(row);
    if space < element_needs(key, quoted_object_keys) {
        Seq::empty()
    } else {
        match key {
            None => element_value_text(flatjson, row, space, quoted_object_keys, is_only_child),
            Some(key) => {
                let label = key_label(key, space, quoted_object_keys);
                let value = element_value_text(
                    flatjson,
                    row,
                    space - columns(label),
                    quoted_object_keys,
                    is_only_child,
                );
                label + value + text_if(columns(value) == 0, seq!['…'])
            },
        }
    }
}

/// The value of an element in `space` columns: a preview, if it is a container and the only
/// element.
pub open spec fn element_value_text(
    flatjson: FlatJson,
    row: Row,
    space: int,
    quoted_object_keys: bool,
    is_only_child: bool,
) -> Seq<char>
    decreases weight(flatjson, row.spec_first_child()), 2int,
    when flatjson.wf() && flatjson.describes(row)
{
    if is_only_child && row.value is OpenContainer {
        preview_text(flatjson, row, space, quoted_object_keys)
    } else {
        value_preview_text(flatjson, row, space)
    }
}

/// A value in `space` columns. It is empty where there is no room for its shortest form, or where
/// it is a container and would have to be cut.
pub open spec fn value_preview_text(flatjson: FlatJson, row: Row, space: int) -> Seq<char> {
    let value = flatjson.value_text(row);
    let quoted = row.value is String;
    let room = space - quote_columns(quoted);
    if room < min_columns(value) || (row.value is OpenContainer && columns(value) > room) {
        Seq::empty()
    } else {
        quote(quoted) + ellipsized(value, room) + quote(quoted)
    }
}

/// How many rows there are from a row on.
pub open spec fn weight(flatjson: FlatJson, child: OptionIndex) -> int {
    match child {
        OptionIndex::Nil => 0,
        OptionIndex::Index(index) => flatjson.rows().len() - index,
    }
}

/// The columns of the texts that stand between the parts of a preview.
pub proof fn lemma_separators()
    ensures
        columns(": "@) == 2,
        columns(", "@) == 2,
        columns(seq!['…']) == 1,
        columns(quote(true)) == 1,
        columns(quote(false)) == 0,
{
    broadcast use group_columns;

    reveal_strlit(": ");
    reveal_strlit(", ");
    assert(": "@ =~= seq![':'] + seq![' ']);
    assert(", "@ =~= seq![','] + seq![' ']);
}

/// Quotes add their columns to those of the text between them.
pub proof fn lemma_columns_quoted(quoted: bool, text: Seq<char>)
    ensures
        columns(quote(quoted) + text + quote(quoted)) == columns(text) + quote_columns(quoted),
{
    broadcast use group_columns;

    lemma_separators();
}

/// A key and what follows it leave a column for the value, where there is room for the shortest
/// form of an element.
pub proof fn lemma_key_label_fits(key: Seq<char>, space: int, quoted_object_keys: bool)
    requires
        space >= element_needs(Some(key), quoted_object_keys),
    ensures
        columns(key_label(key, space, quoted_object_keys)) < space,
{
    broadcast use group_columns;

    lemma_separators();
    let quoted = quoted_object_keys || !is_identifier(key);
    lemma_ellipsized_fits(key, space - 1 - quote_columns(quoted) - 2);
}

/// A value that is shown takes no more columns than there are.
pub proof fn lemma_value_preview_fits(flatjson: FlatJson, row: Row, space: int)
    ensures
        ({
            let used = columns(value_preview_text(flatjson, row, space));
            used == 0 || used <= space
        }),
{
    broadcast use group_columns;

    lemma_separators();
    let value = flatjson.value_text(row);
    let room = space - quote_columns(row.value is String);
    if room >= min_columns(value) {
        lemma_ellipsized_fits(value, room);
    }
}

/// A preview takes no more columns than there are, and three at least: the braces and something
/// between them. There is none in fewer columns than that.
pub proof fn lemma_preview_fits(
    flatjson: FlatJson,
    row: Row,
    space: int,
    quoted_object_keys: bool,
)
    requires
        flatjson.wf(),
        flatjson.describes(row),
        row.value is OpenContainer,
    ensures
        ({
            let used = columns(preview_text(flatjson, row, space, quoted_object_keys));
            if space < 3 {
                used == 0
            } else {
                3 <= used <= space
            }
        }),
    decreases weight(flatjson, row.spec_first_child()), 1int,
{
    broadcast use group_columns;

    if space >= 3 {
        lemma_elements_fit(flatjson, row.spec_first_child(), space - 2, quoted_object_keys, true);
    }
}

/// The elements of a container take no more columns than there are, and one at least if there are
/// any.
pub proof fn lemma_elements_fit(
    flatjson: FlatJson,
    child: OptionIndex,
    space: int,
    quoted_object_keys: bool,
    is_first_child: bool,
)
    requires
        flatjson.wf(),
        child matches OptionIndex::Index(index) ==> flatjson.has_element(index),
        space >= 1,
    ensures
        columns(elements_text(flatjson, child, space, quoted_object_keys, is_first_child)) <= space,
        child is Index ==> columns(
            elements_text(flatjson, child, space, quoted_object_keys, is_first_child),
        ) >= 1,
    decreases weight(flatjson, child), 0int,
{
    broadcast use group_columns;

    lemma_separators();
    if let OptionIndex::Index(index) = child {
        let row = flatjson.rows()[index as int];
        let more = row.next_sibling is Index;
        let room = if more {
            space - 3
        } else {
            space
        };
        let is_only_child = is_first_child && !more;
        lemma_element_fits(flatjson, row, room, quoted_object_keys, is_only_child);
        let element = element_text(flatjson, row, room, quoted_object_keys, is_only_child);
        if columns(element) > 0 && more {
            lemma_elements_fit(
                flatjson,
                row.next_sibling,
                space - columns(element) - 2,
                quoted_object_keys,
                false,
            );
        }
    }
}

/// An element that is shown takes no more columns than there are.
pub proof fn lemma_element_fits(
    flatjson: FlatJson,
    row: Row,
    space: int,
    quoted_object_keys: bool,
    is_only_child: bool,
)
    requires
        flatjson.wf(),
        flatjson.describes(row),
    ensures
        ({
            let used = columns(
                element_text(flatjson, row, space, quoted_object_keys, is_only_child),
            );
            used == 0 || used <= space
        }),
    decreases weight(flatjson, row.spec_first_child()), 3int,
{
    broadcast use group_columns;

    lemma_separators();
    let key = flatjson.key_text(row);
    if space >= element_needs(key, quoted_object_keys) {
        let room = match key {
            None => space,
            Some(key) => space - columns(key_label(key, space, quoted_object_keys)),
        };
        if let Some(key) = key {
            lemma_key_label_fits(key, space, quoted_object_keys);
        }
        lemma_element_value_fits(flatjson, row, room, quoted_object_keys, is_only_child);
    }
}

/// The value of an element that is shown takes no more columns than there are.
pub proof fn lemma_element_value_fits(
    flatjson: FlatJson,
    row: Row,
    space: int,
    quoted_object_keys: bool,
    is_only_child: bool,
)
    requires
        flatjson.wf(),
        flatjson.describes(row),
    ensures
        ({
            let used = columns(
                element_value_text(flatjson, row, space, quoted_object_keys, is_only_child),
            );
            used == 0 || used <= space
        }),
    decreases weight(flatjson, row.spec_first_child()), 2int,
{
    if is_only_child && row.value is OpenContainer {
        lemma_preview_fits(flatjson, row, space, quoted_object_keys);
    } else {
        lemma_value_preview_fits(flatjson, row, space);
    }
}

} // verus!
