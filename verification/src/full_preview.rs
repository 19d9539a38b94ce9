//! Previews that have all the room they need, and previews that do not.
//!
//! A preview shows a container whole where there is room for that, and has an ellipsis in it where
//! there is not.
use vstd::prelude::*;

use crate::columns::{
    columns, group_columns, is_simple_text, lemma_columns_none, lemma_simple_columns,
};
use crate::flatjson::{FlatJson, OptionIndex, Row};
use crate::identifier::is_identifier;
use crate::preview::{
    element_text, element_value_text, elements_text, key_label, lemma_separators, preview_text,
    quote, quote_columns, value_preview_text, weight,
};
use crate::truncate::{ellipsized, lemma_simple_ellipsized, min_columns};

verus! {

/// The preview of a container of which nothing has to be cut.
pub open spec fn full_preview(flatjson: FlatJson, row: Row, quoted_object_keys: bool) -> Seq<char>
    decreases weight(flatjson, row.spec_first_child()), 1int,
    when flatjson.wf() && flatjson.describes(row) && row.value is OpenContainer
{
    let container_type = row.value.spec_container_type()->0;
    seq![container_type.spec_open_char()] + full_elements(
        flatjson,
        row.spec_first_child(),
        quoted_object_keys,
        true,
    ) + seq![container_type.spec_close_char()]
}

/// The elements of a container from `child` on, with the separators between them.
pub open spec fn full_elements(
    flatjson: FlatJson,
    child: OptionIndex,
    quoted_object_keys: bool,
    is_first_child: bool,
) -> Seq<char>
    decreases weight(flatjson, child), 0int,
    when flatjson.wf() && (child matches OptionIndex::Index(index) ==> flatjson.has_element(index))
{
    match child {
        OptionIndex::Nil => Seq::empty(),
        OptionIndex::Index(index) => {
            let row = flatjson.rows()[index as int];
            let more = row.next_sibling is Index;
            let element = full_element(flatjson, row, quoted_object_keys, is_first_child && !more);
            if more {
                element + (", "@ + full_elements(
                    flatjson,
                    row.next_sibling,
                    quoted_object_keys,
                    false,
                ))
            } else {
                element
            }
        },
    }
}

/// The key of an element and the colon after it.
pub open spec fn full_key_label(key: Seq<char>, quoted_object_keys: bool) -> Seq<char> {
    let quoted = quoted_object_keys || !is_identifier(key);
    quote(quoted) + key + quote(quoted) + ": "@
}

/// An element of a container.
pub open spec fn full_element(
    flatjson: FlatJson,
    row: Row,
    quoted_object_keys: bool,
    is_only_child: bool,
) -> Seq<char>
    decreases weight(flatjson, row.spec_first_child()), 3int,
    when flatjson.wf() && flatjson.describes(row)
{
    let value = full_value(flatjson, row, quoted_object_keys, is_only_child);
    match flatjson.key_text(row) {
        None => value,
        Some(key) => full_key_label(key, quoted_object_keys) + value,
    }
}

/// The value of an element: its full preview, if it is a container and the only element.
pub open spec fn full_value(
    flatjson: FlatJson,
    row: Row,
    quoted_object_keys: bool,
    is_only_child: bool,
) -> Seq<char>
    decreases weight(flatjson, row.spec_first_child()), 2int,
    when flatjson.wf() && flatjson.describes(row)
{
    if is_only_child && row.value is OpenContainer {
        full_preview(flatjson, row, quoted_object_keys)
    } else {
        let quoted = row.value is String;
        quote(quoted) + flatjson.value_text(row) + quote(quoted)
    }
}

/// Whether the shortest form of a text is no wider than the text. It is so unless all that follows
/// the first grapheme cluster takes no columns at all.
pub open spec fn can_shorten(s: Seq<char>) -> bool {
    min_columns(s) <= columns(s)
}

/// A text of printable ASCII and ellipses can be shortened.
pub proof fn lemma_simple_can_shorten(s: Seq<char>)
    requires
        is_simple_text(s),
    ensures
        can_shorten(s),
{
    lemma_simple_columns(s);
    lemma_simple_ellipsized(s, 1);
}

/// Whether a row holds what can be seen: its key and its value can be shortened, and its value
/// takes a column, unless it is a string, whose quotes do.
pub open spec fn is_visible(flatjson: FlatJson, row: Row) -> bool {
    &&& flatjson.key_text(row) matches Some(key) ==> can_shorten(key)
    &&& can_shorten(flatjson.value_text(row))
    &&& row.value is String || columns(flatjson.value_text(row)) >= 1
}

/// Whether every row that can be an element holds what can be seen.
pub open spec fn all_visible(flatjson: FlatJson) -> bool {
    forall|i: int|
        0 <= i < flatjson.rows().len() && !(flatjson.rows()[i].value is CloseContainer)
            ==> is_visible(flatjson, #[trigger] flatjson.rows()[i])
}

/// A preview that has room for all of a container shows all of it.
pub proof fn lemma_preview_complete(
    flatjson: FlatJson,
    row: Row,
    space: int,
    quoted_object_keys: bool,
)
    requires
        flatjson.wf(),
        flatjson.describes(row),
        row.value is OpenContainer,
        all_visible(flatjson),
        columns(full_preview(flatjson, row, quoted_object_keys)) <= space,
    ensures
        preview_text(flatjson, row, space, quoted_object_keys) == full_preview(
            flatjson,
            row,
            quoted_object_keys,
        ),
        columns(full_preview(flatjson, row, quoted_object_keys)) >= 3,
    decreases weight(flatjson, row.spec_first_child()), 1int,
{
    broadcast use group_columns;

    lemma_elements_complete(
        flatjson,
        row.spec_first_child(),
        space - 2,
        quoted_object_keys,
        true,
    );
}

/// Elements that have room are shown whole.
proof fn lemma_elements_complete(
    flatjson: FlatJson,
    child: OptionIndex,
    space: int,
    quoted_object_keys: bool,
    is_first_child: bool,
)
    requires
        flatjson.wf(),
        child matches OptionIndex::Index(index) && flatjson.has_element(index),
        all_visible(flatjson),
        columns(full_elements(flatjson, child, quoted_object_keys, is_first_child)) <= space,
    ensures
        elements_text(flatjson, child, space, quoted_object_keys, is_first_child) == full_elements(
            flatjson,
            child,
            quoted_object_keys,
            is_first_child,
        ),
        columns(full_elements(flatjson, child, quoted_object_keys, is_first_child)) >= 1,
    decreases weight(flatjson, child), 0int,
{
    broadcast use group_columns;

    lemma_separators();
    let row = flatjson.rows()[child->Index_0 as int];
    let more = row.next_sibling is Index;
    let is_only_child = is_first_child && !more;
    let element = full_element(flatjson, row, quoted_object_keys, is_only_child);
    let rest = full_elements(flatjson, row.next_sibling, quoted_object_keys, false);
    if more {
        lemma_elements_complete(
            flatjson,
            row.next_sibling,
            space - columns(element) - 2,
            quoted_object_keys,
            false,
        );
        lemma_element_complete(flatjson, row, space - 3, quoted_object_keys, is_only_child);
    } else {
        lemma_element_complete(flatjson, row, space, quoted_object_keys, is_only_child);
    }
}

/// An element that has room is shown whole.
proof fn lemma_element_complete(
    flatjson: FlatJson,
    row: Row,
    space: int,
    quoted_object_keys: bool,
    is_only_child: bool,
)
    requires
        flatjson.wf(),
        flatjson.describes(row),
        is_visible(flatjson, row),
        all_visible(flatjson),
        columns(full_element(flatjson, row, quoted_object_keys, is_only_child)) <= space,
    ensures
        element_text(flatjson, row, space, quoted_object_keys, is_only_child) == full_element(
            flatjson,
            row,
            quoted_object_keys,
            is_only_child,
        ),
        columns(full_element(flatjson, row, quoted_object_keys, is_only_child)) >= 1,
    decreases weight(flatjson, row.spec_first_child()), 3int,
{
    broadcast use group_columns;

    lemma_separators();
    let value = full_value(flatjson, row, quoted_object_keys, is_only_child);
    match flatjson.key_text(row) {
        None => {
            lemma_value_complete(flatjson, row, space, quoted_object_keys, is_only_child);
        },
        Some(key) => {
            let label = full_key_label(key, quoted_object_keys);
            lemma_value_complete(
                flatjson,
                row,
                space - columns(label),
                quoted_object_keys,
                is_only_child,
            );
            assert(key_label(key, space, quoted_object_keys) == label);
            assert(label + value + Seq::<char>::empty() =~= label + value);
        },
    }
}

/// The value of an element that has room is shown whole.
proof fn lemma_value_complete(
    flatjson: FlatJson,
    row: Row,
    space: int,
    quoted_object_keys: bool,
    is_only_child: bool,
)
    requires
        flatjson.wf(),
        flatjson.describes(row),
        is_visible(flatjson, row),
        all_visible(flatjson),
        columns(full_value(flatjson, row, quoted_object_keys, is_only_child)) <= space,
    ensures
        element_value_text(flatjson, row, space, quoted_object_keys, is_only_child) == full_value(
            flatjson,
            row,
            quoted_object_keys,
            is_only_child,
        ),
        columns(full_value(flatjson, row, quoted_object_keys, is_only_child)) >= 1,
    decreases weight(flatjson, row.spec_first_child()), 2int,
{
    broadcast use group_columns;

    lemma_separators();
    if is_only_child && row.value is OpenContainer {
        lemma_preview_complete(flatjson, row, space, quoted_object_keys);
    }
}

/// A preview that does not show all of a container has an ellipsis in it, unless there is no room
/// for any preview.
pub proof fn lemma_preview_marks_cuts(
    flatjson: FlatJson,
    row: Row,
    space: int,
    quoted_object_keys: bool,
)
    requires
        flatjson.wf(),
        flatjson.describes(row),
        row.value is OpenContainer,
        space >= 3,
        preview_text(flatjson, row, space, quoted_object_keys) != full_preview(
            flatjson,
            row,
            quoted_object_keys,
        ),
    ensures
        preview_text(flatjson, row, space, quoted_object_keys).contains('…'),
    decreases weight(flatjson, row.spec_first_child()), 1int,
{
    let child = row.spec_first_child();
    let container_type = row.value.spec_container_type()->0;
    let open = seq![container_type.spec_open_char()];
    let close = seq![container_type.spec_close_char()];
    let elements = elements_text(flatjson, child, space - 2, quoted_object_keys, true);
    lemma_elements_mark_cuts(flatjson, child, space - 2, quoted_object_keys, true);
    lemma_contains_between(open, elements, close, '…');
}

/// A text holds what a part of it holds.
proof fn lemma_contains_between(a: Seq<char>, b: Seq<char>, c: Seq<char>, x: char)
    requires
        b.contains(x),
    ensures
        (a + b + c).contains(x),
{
    let i = choose|i: int| 0 <= i < b.len() && b[i] == x;
    assert((a + b + c)[a.len() + i] == x);
}

/// Elements that are not all shown whole have an ellipsis among them.
proof fn lemma_elements_mark_cuts(
    flatjson: FlatJson,
    child: OptionIndex,
    space: int,
    quoted_object_keys: bool,
    is_first_child: bool,
)
    requires
        flatjson.wf(),
        child matches OptionIndex::Index(index) ==> flatjson.has_element(index),
        elements_text(flatjson, child, space, quoted_object_keys, is_first_child) != full_elements(
            flatjson,
            child,
            quoted_object_keys,
            is_first_child,
        ),
    ensures
        elements_text(flatjson, child, space, quoted_object_keys, is_first_child).contains('…'),
    decreases weight(flatjson, child), 0int,
{
    let none = Seq::<char>::empty();
    let row = flatjson.rows()[child->Index_0 as int];
    let more = row.next_sibling is Index;
    let is_only_child = is_first_child && !more;
    let room = if more {
        space - 3
    } else {
        space
    };
    let element = element_text(flatjson, row, room, quoted_object_keys, is_only_child);
    let left = space - columns(element) - 2;
    let rest = elements_text(flatjson, row.next_sibling, left, quoted_object_keys, false);
    let text = elements_text(flatjson, child, space, quoted_object_keys, is_first_child);
    if columns(element) == 0 {
        assert(text[element.len() as int] == '…');
    } else if element != full_element(flatjson, row, quoted_object_keys, is_only_child) {
        lemma_element_marks_cuts(flatjson, row, room, quoted_object_keys, is_only_child);
        lemma_contains_between(none, element, ", "@ + rest, '…');
        lemma_contains_between(none, element, none, '…');
        assert(none + element + (", "@ + rest) =~= element + (", "@ + rest));
        assert(none + element + none =~= element);
    } else {
        lemma_elements_mark_cuts(flatjson, row.next_sibling, left, quoted_object_keys, false);
        lemma_contains_between(element + ", "@, rest, none, '…');
        assert(element + ", "@ + rest + none =~= element + (", "@ + rest));
    }
}

/// An element that is shown, but not whole, has an ellipsis in it.
proof fn lemma_element_marks_cuts(
    flatjson: FlatJson,
    row: Row,
    space: int,
    quoted_object_keys: bool,
    is_only_child: bool,
)
    requires
        flatjson.wf(),
        flatjson.describes(row),
        columns(element_text(flatjson, row, space, quoted_object_keys, is_only_child)) > 0,
        element_text(flatjson, row, space, quoted_object_keys, is_only_child) != full_element(
            flatjson,
            row,
            quoted_object_keys,
            is_only_child,
        ),
    ensures
        element_text(flatjson, row, space, quoted_object_keys, is_only_child).contains('…'),
    decreases weight(flatjson, row.spec_first_child()), 3int,
{
    let none = Seq::<char>::empty();
    lemma_columns_none(none);
    match flatjson.key_text(row) {
        None => {
            lemma_value_marks_cuts(flatjson, row, space, quoted_object_keys, is_only_child);
        },
        Some(key) => {
            let label = key_label(key, space, quoted_object_keys);
            let room = space - columns(label);
            let value = element_value_text(
                flatjson,
                row,
                room,
                quoted_object_keys,
                is_only_child,
            );
            let text = element_text(flatjson, row, space, quoted_object_keys, is_only_child);
            if columns(value) == 0 {
                assert(text.last() == '…');
            } else {
                assert(text =~= label + value);
                assert(label + value + none =~= text);
                assert(none + label + value =~= text);
                if value != full_value(flatjson, row, quoted_object_keys, is_only_child) {
                    lemma_value_marks_cuts(flatjson, row, room, quoted_object_keys, is_only_child);
                    lemma_contains_between(label, value, none, '…');
                } else {
                    lemma_key_marks_cuts(key, space, quoted_object_keys);
                    lemma_contains_between(none, label, value, '…');
                }
            }
        },
    }
}

/// A key that is not shown whole has an ellipsis in it.
proof fn lemma_key_marks_cuts(key: Seq<char>, space: int, quoted_object_keys: bool)
    requires
        key_label(key, space, quoted_object_keys) != full_key_label(key, quoted_object_keys),
    ensures
        key_label(key, space, quoted_object_keys).contains('…'),
{
    let quoted = quoted_object_keys || !is_identifier(key);
    let shown = ellipsized(key, space - 1 - quote_columns(quoted) - 2);
    let after = quote(quoted) + ": "@;
    assert(shown[shown.len() - 1] == '…');
    lemma_contains_between(quote(quoted), shown, after, '…');
    assert(quote(quoted) + shown + after =~= key_label(key, space, quoted_object_keys));
}

/// The value of an element that is shown, but not whole, has an ellipsis in it.
proof fn lemma_value_marks_cuts(
    flatjson: FlatJson,
    row: Row,
    space: int,
    quoted_object_keys: bool,
    is_only_child: bool,
)
    requires
        flatjson.wf(),
        flatjson.describes(row),
        columns(element_value_text(flatjson, row, space, quoted_object_keys, is_only_child)) > 0,
        element_value_text(flatjson, row, space, quoted_object_keys, is_only_child) != full_value(
            flatjson,
            row,
            quoted_object_keys,
            is_only_child,
        ),
    ensures
        element_value_text(flatjson, row, space, quoted_object_keys, is_only_child).contains('…'),
    decreases weight(flatjson, row.spec_first_child()), 2int,
{
    broadcast use group_columns;

    if is_only_child && row.value is OpenContainer {
        lemma_preview_marks_cuts(flatjson, row, space, quoted_object_keys);
    } else {
        let quoted = row.value is String;
        let shown = ellipsized(flatjson.value_text(row), space - quote_columns(quoted));
        assert(value_preview_text(flatjson, row, space) == quote(quoted) + shown + quote(quoted));
        assert(shown[shown.len() - 1] == '…');
        lemma_contains_between(quote(quoted), shown, quote(quoted), '…');
    }
}

} // verus!
