//! What a preview looks like: its braces, its elements, their keys and their values.
//!
//! Each rule says of every container what its preview shows, in terms of what its rows hold.
use vstd::prelude::*;

use crate::columns::{
    columns, group_columns, is_simple_text, joined, lemma_clusters_joined, lemma_simple_columns,
    text_clusters,
};
use crate::flatjson::{ContainerType, FlatJson, OptionIndex, Row, Value};
use crate::identifier::is_identifier;
use crate::preview::{
    element_text, element_value_text, elements_text, key_label, lemma_columns_quoted,
    lemma_preview_fits, lemma_separators, preview_text, quote, value_preview_text, weight,
};
use crate::text::piece;
use crate::truncate::{ellipsized, lemma_simple_ellipsized, min_columns};

verus! {

/// A preview starts and ends with the braces of its container, and there is none in fewer columns
/// than the braces and one more.
pub proof fn lemma_preview_braces(
    flatjson: FlatJson,
    row: Row,
    container_type: ContainerType,
    space: int,
    quoted_object_keys: bool,
)
    requires
        flatjson.wf(),
        flatjson.describes(row),
        row.value matches Value::OpenContainer { container_type: t, .. } && t == container_type,
    ensures
        ({
            let preview = preview_text(flatjson, row, space, quoted_object_keys);
            let first_child = row.value->OpenContainer_first_child;
            let elements = elements_text(
                flatjson,
                OptionIndex::Index(first_child),
                space - 2,
                quoted_object_keys,
                true,
            );
            &&& space < 3 ==> preview.len() == 0
            &&& space >= 3 && container_type is Object ==> preview == seq!['{'] + elements
                + seq!['}']
            &&& space >= 3 && container_type is Array ==> preview == seq!['['] + elements
                + seq![']']
        }),
{
}

/// The elements of a container stand in their order, with a comma and a space between any two. An
/// element that others follow is given all columns but the three for the separator and an ellipsis
/// in their place, and the last one all of them. An ellipsis stands in the place of the first one
/// that takes no columns, and of all that follow it.
pub proof fn lemma_elements_in_turn(
    flatjson: FlatJson,
    index: usize,
    space: int,
    quoted_object_keys: bool,
    is_first_child: bool,
)
    requires
        flatjson.wf(),
        flatjson.has_element(index),
    ensures
        ({
            let row = flatjson.rows()[index as int];
            let text = elements_text(
                flatjson,
                OptionIndex::Index(index),
                space,
                quoted_object_keys,
                is_first_child,
            );
            match row.next_sibling {
                OptionIndex::Nil => {
                    let last = element_text(
                        flatjson,
                        row,
                        space,
                        quoted_object_keys,
                        is_first_child,
                    );
                    &&& columns(last) > 0 ==> text == last
                    &&& columns(last) == 0 ==> text == last + seq!['…']
                },
                OptionIndex::Index(next) => {
                    let element = element_text(
                        flatjson,
                        row,
                        space - 3,
                        quoted_object_keys,
                        false,
                    );
                    &&& columns(element) > 0 ==> text == element + seq![',', ' '] + elements_text(
                        flatjson,
                        OptionIndex::Index(next),
                        space - 2 - columns(element),
                        quoted_object_keys,
                        false,
                    )
                    &&& columns(element) == 0 ==> text == element + seq!['…']
                },
            }
        }),
{
    reveal_strlit(", ");
    assert(", "@ =~= seq![',', ' ']);
    let row = flatjson.rows()[index as int];
    if let OptionIndex::Index(next) = row.next_sibling {
        let element = element_text(flatjson, row, space - 3, quoted_object_keys, false);
        let rest = elements_text(
            flatjson,
            OptionIndex::Index(next),
            space - 2 - columns(element),
            quoted_object_keys,
            false,
        );
        assert(space - 2 - columns(element) == space - columns(element) - 2);
        assert(element + seq![',', ' '] + rest =~= element + (seq![',', ' '] + rest));
    }
}

/// An element without a key is its value, in one column at least. The contents of a container are
/// shown where it is the only element of another, whether or not keys are quoted.
pub proof fn lemma_element_without_key(
    flatjson: FlatJson,
    row: Row,
    space: int,
    quoted_object_keys: bool,
    is_only_child: bool,
)
    requires
        flatjson.wf(),
        flatjson.describes(row),
        row.key_range is None,
    ensures
        ({
            let text = element_text(flatjson, row, space, quoted_object_keys, is_only_child);
            &&& space < 1 ==> text.len() == 0
            &&& space >= 1 && is_only_child && row.value is OpenContainer ==> text == preview_text(
                flatjson,
                row,
                space,
                quoted_object_keys,
            )
            &&& space >= 1 && !(is_only_child && row.value is OpenContainer) ==> text
                == value_preview_text(flatjson, row, space)
        }),
{
}

/// An element with a key is the key, a colon, a space and its value. The key has quotes around it
/// where all keys do, and where it is not an identifier. It is whole where it leaves a column for
/// the value, and is otherwise cut so that it does. The value has the columns that are left, and an
/// ellipsis in its place where it takes none of them. The contents of a container are shown where
/// it is the only element of another, whether or not keys are quoted. There is no element where the
/// shortest form of its key does not leave a column.
pub proof fn lemma_element_with_key(
    flatjson: FlatJson,
    row: Row,
    key: Seq<char>,
    space: int,
    quoted_object_keys: bool,
    is_only_child: bool,
)
    requires
        flatjson.wf(),
        flatjson.describes(row),
        row.key_range matches Some(range) && key == piece(
            flatjson.text(),
            range.start + 1,
            range.end - 1,
        ),
    ensures
        ({
            let text = element_text(flatjson, row, space, quoted_object_keys, is_only_child);
            let bare = !quoted_object_keys && is_identifier(key);
            let room = if bare {
                space - 3
            } else {
                space - 5
            };
            let shown = if columns(key) <= room {
                key
            } else {
                ellipsized(key, room)
            };
            let label = if bare {
                shown + seq![':', ' ']
            } else {
                seq!['"'] + shown + seq!['"', ':', ' ']
            };
            let left = if bare {
                space - columns(shown) - 2
            } else {
                space - columns(shown) - 4
            };
            let value = if is_only_child && row.value is OpenContainer {
                preview_text(flatjson, row, left, quoted_object_keys)
            } else {
                value_preview_text(flatjson, row, left)
            };
            &&& room < min_columns(key) ==> text.len() == 0
            &&& room >= min_columns(key) && columns(value) > 0 ==> text == label + value
            &&& room >= min_columns(key) && columns(value) == 0 ==> text == label + value + seq![
                '…',
            ]
        }),
{
    broadcast use group_columns;

    lemma_separators();
    reveal_strlit(": ");
    assert(": "@ =~= seq![':', ' ']);
    let bare = !quoted_object_keys && is_identifier(key);
    let room = if bare {
        space - 3
    } else {
        space - 5
    };
    let shown = ellipsized(key, room);
    let none = Seq::<char>::empty();
    lemma_columns_quoted(!bare, shown);
    if bare {
        assert(key_label(key, space, quoted_object_keys) =~= shown + seq![':', ' ']);
    } else {
        assert(key_label(key, space, quoted_object_keys) =~= seq!['"'] + shown + seq![
            '"',
            ':',
            ' ',
        ]);
    }
    if room >= min_columns(key) {
        let label = key_label(key, space, quoted_object_keys);
        let left = space - columns(label);
        let value = element_value_text(flatjson, row, left, quoted_object_keys, is_only_child);
        assert(columns(label) == columns(quote(!bare) + shown + quote(!bare)) + 2);
        assert(label + value + none =~= label + value);
    }
}

/// A container among others, whose contents are not shown, is an ellipsis between its braces, and
/// is not cut.
pub proof fn lemma_closed_container(
    flatjson: FlatJson,
    row: Row,
    container_type: ContainerType,
    space: int,
)
    requires
        row.value matches Value::OpenContainer { container_type: t, .. } && t == container_type,
    ensures
        ({
            let text = value_preview_text(flatjson, row, space);
            &&& space >= 3 && container_type is Object ==> text == seq!['{', '…', '}']
            &&& space >= 3 && container_type is Array ==> text == seq!['[', '…', ']']
            &&& space < 3 ==> text.len() == 0
        }),
{
    let value = flatjson.value_text(row);
    assert(is_simple_text(value));
    lemma_simple_columns(value);
    lemma_simple_ellipsized(value, 3);
    if space >= 3 {
        assert(Seq::<char>::empty() + value + Seq::<char>::empty() =~= value);
    }
}

/// A value that is not a container is whole where it fits, a string with its quotes counted, and is
/// otherwise cut to the columns that there are. There is none where its shortest form does not fit.
pub proof fn lemma_plain_element(flatjson: FlatJson, row: Row, space: int)
    requires
        !(row.value is OpenContainer),
    ensures
        ({
            let text = value_preview_text(flatjson, row, space);
            if row.value is String {
                let value = piece(flatjson.text(), row.range.start + 1, row.range.end - 1);
                let room = space - 2;
                let shown = if columns(value) <= room {
                    value
                } else {
                    ellipsized(value, room)
                };
                &&& room >= min_columns(value) ==> text == seq!['"'] + shown + seq!['"']
                &&& room < min_columns(value) ==> text.len() == 0
            } else {
                let value = piece(flatjson.text(), row.range.start as int, row.range.end as int);
                let shown = if columns(value) <= space {
                    value
                } else {
                    ellipsized(value, space)
                };
                &&& space >= min_columns(value) ==> text == shown
                &&& space < min_columns(value) ==> text.len() == 0
            }
        }),
{
    let value = flatjson.value_text(row);
    if !(row.value is String) {
        let shown = ellipsized(value, space);
        assert(Seq::<char>::empty() + shown + Seq::<char>::empty() =~= shown);
    }
}

/// The shortest form of a text is its first grapheme cluster and an ellipsis, or the text itself if
/// it has no second cluster.
pub proof fn lemma_shortest_form(s: Seq<char>)
    ensures
        text_clusters(s).len() <= 1 ==> min_columns(s) == columns(s),
        text_clusters(s).len() > 1 ==> min_columns(s) == columns(text_clusters(s)[0]) + 1,
        min_columns(s) <= columns(s) + 1,
{
    lemma_clusters_joined(s);
    if text_clusters(s).len() > 1 {
        lemma_first_part(text_clusters(s));
    }
}

/// A list of texts takes the columns of its first at least.
proof fn lemma_first_part(parts: Seq<Seq<char>>)
    requires
        parts.len() > 0,
    ensures
        columns(joined(parts)) >= columns(parts[0]),
    decreases parts.len(),
{
    broadcast use group_columns;

    if parts.len() > 1 {
        lemma_first_part(parts.drop_last());
    }
}

/// The preview of a container whose only element is another container, without a key, holds the
/// preview of that one between its braces, whether or not keys are quoted.
pub proof fn lemma_only_container(
    flatjson: FlatJson,
    row: Row,
    container_type: ContainerType,
    space: int,
    quoted_object_keys: bool,
)
    requires
        flatjson.wf(),
        flatjson.describes(row),
        row.value matches Value::OpenContainer { container_type: t, first_child, .. } && t
            == container_type && ({
            let child = flatjson.rows()[first_child as int];
            child.value is OpenContainer && child.next_sibling is Nil && child.key_range is None
        }),
        space >= 5,
    ensures
        ({
            let child = flatjson.rows()[row.value->OpenContainer_first_child as int];
            let inner = preview_text(flatjson, child, space - 2, quoted_object_keys);
            &&& 3 <= columns(inner) <= space - 2
            &&& container_type is Object ==> preview_text(flatjson, row, space, quoted_object_keys)
                == seq!['{'] + inner + seq!['}']
            &&& container_type is Array ==> preview_text(flatjson, row, space, quoted_object_keys)
                == seq!['['] + inner + seq![']']
        }),
{
    let index = row.value->OpenContainer_first_child;
    let child = flatjson.rows()[index as int];
    lemma_preview_braces(flatjson, row, container_type, space, quoted_object_keys);
    lemma_elements_in_turn(flatjson, index, space - 2, quoted_object_keys, true);
    lemma_element_without_key(flatjson, child, space - 2, quoted_object_keys, true);
    lemma_preview_fits(flatjson, child, space - 2, quoted_object_keys);
}

/// The preview of a container whose only element is another container, with a key, holds the key
/// and the preview of that one between its braces, whether or not keys are quoted, where there is
/// room for the key and for the shortest such preview.
pub proof fn lemma_only_container_with_key(
    flatjson: FlatJson,
    row: Row,
    container_type: ContainerType,
    key: Seq<char>,
    space: int,
    quoted_object_keys: bool,
)
    requires
        flatjson.wf(),
        flatjson.describes(row),
        row.value matches Value::OpenContainer { container_type: t, first_child, .. } && t
            == container_type && ({
            let child = flatjson.rows()[first_child as int];
            child.value is OpenContainer && child.next_sibling is Nil && (child.key_range matches
                Some(range) && key == piece(flatjson.text(), range.start + 1, range.end - 1))
        }),
        quoted_object_keys || !is_identifier(key) ==> space >= columns(key) + 9,
        space >= columns(key) + 7,
    ensures
        ({
            let child = flatjson.rows()[row.value->OpenContainer_first_child as int];
            let bare = !quoted_object_keys && is_identifier(key);
            let label = if bare {
                key + seq![':', ' ']
            } else {
                seq!['"'] + key + seq!['"', ':', ' ']
            };
            let left = if bare {
                space - columns(key) - 4
            } else {
                space - columns(key) - 6
            };
            let inner = preview_text(flatjson, child, left, quoted_object_keys);
            &&& 3 <= columns(inner) <= left
            &&& container_type is Object ==> preview_text(flatjson, row, space, quoted_object_keys)
                == seq!['{'] + label + inner + seq!['}']
            &&& container_type is Array ==> preview_text(flatjson, row, space, quoted_object_keys)
                == seq!['['] + label + inner + seq![']']
        }),
{
    broadcast use group_columns;

    let index = row.value->OpenContainer_first_child;
    let child = flatjson.rows()[index as int];
    let bare = !quoted_object_keys && is_identifier(key);
    let label = if bare {
        key + seq![':', ' ']
    } else {
        seq!['"'] + key + seq!['"', ':', ' ']
    };
    let left = if bare {
        space - columns(key) - 4
    } else {
        space - columns(key) - 6
    };
    let inner = preview_text(flatjson, child, left, quoted_object_keys);
    lemma_shortest_form(key);
    lemma_preview_braces(flatjson, row, container_type, space, quoted_object_keys);
    lemma_elements_in_turn(flatjson, index, space - 2, quoted_object_keys, true);
    lemma_element_with_key(flatjson, child, key, space - 2, quoted_object_keys, true);
    lemma_preview_fits(flatjson, child, left, quoted_object_keys);
    assert(seq!['{'] + (label + inner) + seq!['}'] =~= seq!['{'] + label + inner + seq!['}']);
    assert(seq!['['] + (label + inner) + seq![']'] =~= seq!['['] + label + inner + seq![']']);
}

/// Texts one after the other, with a comma and a space between any two.
pub open spec fn listed(parts: Seq<Seq<char>>) -> Seq<char>
    decreases parts.len(),
{
    if parts.len() == 0 {
        Seq::empty()
    } else if parts.len() == 1 {
        parts[0]
    } else {
        parts[0] + seq![',', ' '] + listed(parts.drop_first())
    }
}

/// Whether these are the rows of all elements of a container from a row on, in their order.
pub open spec fn are_elements(flatjson: FlatJson, first: usize, rows: Seq<Row>) -> bool
    decreases rows.len(),
{
    &&& rows.len() > 0
    &&& flatjson.has_element(first)
    &&& rows[0] == flatjson.rows()[first as int]
    &&& match rows[0].next_sibling {
        OptionIndex::Nil => rows.len() == 1,
        OptionIndex::Index(next) => are_elements(flatjson, next, rows.drop_first()),
    }
}

/// A preview that has room for all elements of a container lists them all: each key, with quotes
/// where keys are to be quoted and where it is not an identifier, and each value, a string with its
/// quotes and a container as an ellipsis between its braces. Which elements there are, and their
/// values, does not depend on whether keys are quoted. The contents of a container that is the only
/// element are shown too, and are not spoken of here.
pub proof fn lemma_preview_lists_elements(
    flatjson: FlatJson,
    row: Row,
    container_type: ContainerType,
    rows: Seq<Row>,
    shown: Seq<Seq<char>>,
    space: int,
    quoted_object_keys: bool,
)
    requires
        flatjson.wf(),
        flatjson.describes(row),
        row.value matches Value::OpenContainer { container_type: t, first_child, .. } && t
            == container_type && are_elements(flatjson, first_child, rows),
        rows.len() > 1 || !(rows[0].value is OpenContainer),
        shown.len() == rows.len(),
        forall|i: int| 0 <= i < rows.len() ==> #[trigger] shown[i] == ({
            let element = rows[i];
            let value = match element.value {
                Value::OpenContainer { container_type: ContainerType::Object, .. } => seq![
                    '{',
                    '…',
                    '}',
                ],
                Value::OpenContainer { container_type: ContainerType::Array, .. } => seq![
                    '[',
                    '…',
                    ']',
                ],
                Value::String => seq!['"'] + piece(
                    flatjson.text(),
                    element.range.start + 1,
                    element.range.end - 1,
                ) + seq!['"'],
                _ => piece(
                    flatjson.text(),
                    element.range.start as int,
                    element.range.end as int,
                ),
            };
            match element.key_range {
                None => value,
                Some(range) => {
                    let key = piece(flatjson.text(), range.start + 1, range.end - 1);
                    if !quoted_object_keys && is_identifier(key) {
                        key + seq![':', ' '] + value
                    } else {
                        seq!['"'] + key + seq!['"', ':', ' '] + value
                    }
                },
            }
        }),
        forall|i: int| 0 <= i < rows.len() ==> {
            let element = #[trigger] rows[i];
            let value = flatjson.value_text(element);
            &&& min_columns(value) <= columns(value)
            &&& element.value is String || columns(value) >= 1
            &&& flatjson.key_text(element) matches Some(key) ==> min_columns(key) <= columns(key)
        },
        columns(listed(shown)) + 2 <= space,
    ensures
        container_type is Object ==> preview_text(flatjson, row, space, quoted_object_keys)
            == seq!['{'] + listed(shown) + seq!['}'],
        container_type is Array ==> preview_text(flatjson, row, space, quoted_object_keys)
            == seq!['['] + listed(shown) + seq![']'],
        columns(preview_text(flatjson, row, space, quoted_object_keys)) == columns(listed(shown))
            + 2,
{
    broadcast use group_columns;

    let index = row.value->OpenContainer_first_child;
    lemma_elements_listed(flatjson, index, rows, shown, space - 2, quoted_object_keys, true);
    lemma_preview_braces(flatjson, row, container_type, space, quoted_object_keys);
}

/// Elements that have room are listed.
proof fn lemma_elements_listed(
    flatjson: FlatJson,
    index: usize,
    rows: Seq<Row>,
    shown: Seq<Seq<char>>,
    space: int,
    quoted_object_keys: bool,
    is_first_child: bool,
)
    requires
        flatjson.wf(),
        are_elements(flatjson, index, rows),
        !is_first_child || rows.len() > 1 || !(rows[0].value is OpenContainer),
        shown.len() == rows.len(),
        forall|i: int| 0 <= i < rows.len() ==> #[trigger] shown[i] == whole_element(
            flatjson,
            rows[i],
            quoted_object_keys,
        ),
        forall|i: int| 0 <= i < rows.len() ==> can_be_whole(flatjson, #[trigger] rows[i]),
        columns(listed(shown)) <= space,
    ensures
        elements_text(
            flatjson,
            OptionIndex::Index(index),
            space,
            quoted_object_keys,
            is_first_child,
        ) == listed(shown),
        columns(listed(shown)) >= 1,
    decreases rows.len(),
{
    broadcast use group_columns;

    lemma_separators();
    reveal_strlit(", ");
    assert(", "@ =~= seq![',', ' ']);
    let row = rows[0];
    lemma_elements_in_turn(flatjson, index, space, quoted_object_keys, is_first_child);
    assert(shown[0] == whole_element(flatjson, row, quoted_object_keys));
    assert(can_be_whole(flatjson, rows[0]));
    match row.next_sibling {
        OptionIndex::Nil => {
            lemma_element_whole(flatjson, row, space, quoted_object_keys, is_first_child);
        },
        OptionIndex::Index(next) => {
            let others = rows.drop_first();
            let rest = shown.drop_first();
            assert forall|i: int| 0 <= i < others.len() implies #[trigger] rest[i]
                == whole_element(flatjson, others[i], quoted_object_keys) by {
                assert(rest[i] == shown[i + 1]);
            }
            assert forall|i: int| 0 <= i < others.len() implies can_be_whole(
                flatjson,
                #[trigger] others[i],
            ) by {
                assert(others[i] == rows[i + 1]);
            }
            reveal_with_fuel(are_elements, 2);
            assert(columns(listed(shown)) == columns(shown[0]) + 2 + columns(listed(rest)));
            lemma_elements_listed(
                flatjson,
                next,
                others,
                rest,
                space - 2 - columns(shown[0]),
                quoted_object_keys,
                false,
            );
            lemma_element_whole(flatjson, row, space - 3, quoted_object_keys, false);
        },
    }
}

/// An element whose contents are not shown, and of which nothing is cut.
spec fn whole_element(flatjson: FlatJson, element: Row, quoted_object_keys: bool) -> Seq<char> {
    let value = match element.value {
        Value::OpenContainer { container_type: ContainerType::Object, .. } => seq!['{', '…', '}'],
        Value::OpenContainer { container_type: ContainerType::Array, .. } => seq!['[', '…', ']'],
        Value::String => seq!['"'] + piece(
            flatjson.text(),
            element.range.start + 1,
            element.range.end - 1,
        ) + seq!['"'],
        _ => piece(flatjson.text(), element.range.start as int, element.range.end as int),
    };
    match element.key_range {
        None => value,
        Some(range) => {
            let key = piece(flatjson.text(), range.start + 1, range.end - 1);
            if !quoted_object_keys && is_identifier(key) {
                key + seq![':', ' '] + value
            } else {
                seq!['"'] + key + seq!['"', ':', ' '] + value
            }
        },
    }
}

/// The key and the value of an element are no shorter than their shortest forms, and there is
/// something of it to see.
spec fn can_be_whole(flatjson: FlatJson, element: Row) -> bool {
    let value = flatjson.value_text(element);
    &&& min_columns(value) <= columns(value)
    &&& element.value is String || columns(value) >= 1
    &&& flatjson.key_text(element) matches Some(key) ==> min_columns(key) <= columns(key)
}

/// An element that has room is whole.
proof fn lemma_element_whole(
    flatjson: FlatJson,
    row: Row,
    space: int,
    quoted_object_keys: bool,
    is_only_child: bool,
)
    requires
        flatjson.wf(),
        flatjson.describes(row),
        !(row.value is CloseContainer),
        can_be_whole(flatjson, row),
        !is_only_child || !(row.value is OpenContainer),
        columns(whole_element(flatjson, row, quoted_object_keys)) <= space,
    ensures
        element_text(flatjson, row, space, quoted_object_keys, is_only_child) == whole_element(
            flatjson,
            row,
            quoted_object_keys,
        ),
        columns(whole_element(flatjson, row, quoted_object_keys)) >= 1,
{
    broadcast use group_columns;

    lemma_separators();
    let text = whole_element(flatjson, row, quoted_object_keys);
    let value = whole_element(flatjson, Row { key_range: None, ..row }, quoted_object_keys);
    lemma_whole_value(flatjson, row, columns(value) as int);
    match row.key_range {
        None => {
            lemma_whole_value(flatjson, row, space);
            lemma_element_without_key(flatjson, row, space, quoted_object_keys, is_only_child);
        },
        Some(range) => {
            let key = piece(flatjson.text(), range.start + 1, range.end - 1);
            let bare = !quoted_object_keys && is_identifier(key);
            lemma_element_with_key(flatjson, row, key, space, quoted_object_keys, is_only_child);
            assert(seq![':', ' '] =~= seq![':'] + seq![' ']);
            assert(seq!['"', ':', ' '] =~= seq!['"'] + (seq![':'] + seq![' ']));
            if bare {
                assert(columns(text) == columns(key) + 2 + columns(value));
                lemma_whole_value(flatjson, row, space - columns(key) - 2);
            } else {
                assert(columns(text) == columns(key) + 4 + columns(value));
                lemma_whole_value(flatjson, row, space - columns(key) - 4);
            }
        },
    }
}

/// A value that has room is whole, and takes a column.
proof fn lemma_whole_value(flatjson: FlatJson, row: Row, space: int)
    requires
        !(row.value is CloseContainer),
        can_be_whole(flatjson, row),
        columns(whole_element(flatjson, Row { key_range: None, ..row }, true)) <= space,
    ensures
        value_preview_text(flatjson, row, space) == whole_element(
            flatjson,
            Row { key_range: None, ..row },
            true,
        ),
        columns(whole_element(flatjson, Row { key_range: None, ..row }, true)) >= 1,
{
    broadcast use group_columns;

    lemma_separators();
    let value = flatjson.value_text(row);
    if let Value::OpenContainer { container_type, .. } = row.value {
        assert(is_simple_text(value));
        lemma_simple_columns(value);
        lemma_closed_container(flatjson, row, container_type, space);
    } else {
        lemma_plain_element(flatjson, row, space);
        lemma_columns_quoted(true, value);
    }
}

/// Whether keys are to be quoted makes a difference only for those that are identifiers.
pub proof fn lemma_quoting_only_identifiers(flatjson: FlatJson, row: Row, space: int)
    requires
        flatjson.wf(),
        flatjson.describes(row),
        row.value is OpenContainer,
        forall|i: int|
            0 <= i < flatjson.rows().len() ==> ({
                let key = #[trigger] flatjson.rows()[i].key_range;
                key matches Some(range) ==> !is_identifier(
                    piece(flatjson.text(), range.start + 1, range.end - 1),
                )
            }),
    ensures
        preview_text(flatjson, row, space, true) == preview_text(flatjson, row, space, false),
    decreases weight(flatjson, row.spec_first_child()), 1int,
{
    if space >= 3 {
        lemma_elements_same_quoting(flatjson, row.spec_first_child(), space - 2, true);
    }
}

/// Elements without keys that are identifiers are the same whether or not keys are quoted.
proof fn lemma_elements_same_quoting(
    flatjson: FlatJson,
    child: OptionIndex,
    space: int,
    is_first_child: bool,
)
    requires
        flatjson.wf(),
        child matches OptionIndex::Index(index) ==> flatjson.has_element(index),
        forall|i: int|
            0 <= i < flatjson.rows().len() ==> ({
                let key = #[trigger] flatjson.rows()[i].key_range;
                key matches Some(range) ==> !is_identifier(
                    piece(flatjson.text(), range.start + 1, range.end - 1),
                )
            }),
    ensures
        elements_text(flatjson, child, space, true, is_first_child) == elements_text(
            flatjson,
            child,
            space,
            false,
            is_first_child,
        ),
    decreases weight(flatjson, child), 0int,
{
    if let OptionIndex::Index(index) = child {
        let row = flatjson.rows()[index as int];
        let more = row.next_sibling is Index;
        let room = if more {
            space - 3
        } else {
            space
        };
        let is_only_child = is_first_child && !more;
        let element = element_text(flatjson, row, room, true, is_only_child);
        assert(flatjson.rows()[index as int].key_range == row.key_range);
        if is_only_child && row.value is OpenContainer {
            let left = match flatjson.key_text(row) {
                None => room,
                Some(key) => room - columns(key_label(key, room, true)),
            };
            lemma_quoting_only_identifiers(flatjson, row, left);
        }
        assert(element == element_text(flatjson, row, room, false, is_only_child));
        lemma_elements_same_quoting(
            flatjson,
            row.next_sibling,
            space - columns(element) - 2,
            false,
        );
    }
}

} // verus!
