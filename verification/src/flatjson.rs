//! A JSON document as a list of rows, one for each line of its pretty-printed text.
use std::ops::Range;

use vstd::prelude::*;

use crate::text::{is_piece, piece, str_piece};

verus! {

/// The index of a row, or none.
#[derive(Debug, Copy, Clone, PartialEq, Eq, Structural)]
pub enum OptionIndex {
    Nil,
    Index(usize),
}

impl OptionIndex {
    pub fn is_nil(&self) -> (r: bool)
        ensures
            r == (*self is Nil),
    {
        match self {
            OptionIndex::Nil => true,
            OptionIndex::Index(_) => false,
        }
    }

    pub fn is_some(&self) -> (r: bool)
        ensures
            r == (*self is Index),
    {
        !self.is_nil()
    }
}

/// The two kinds of containers.
#[derive(Debug, Copy, Clone, PartialEq, Eq, Structural)]
pub enum ContainerType {
    Object,
    Array,
}

impl ContainerType {
    /// The character that opens a container.
    pub open spec fn spec_open_char(self) -> char {
        match self {
            ContainerType::Object => '{',
            ContainerType::Array => '[',
        }
    }

    /// The character that closes a container.
    pub open spec fn spec_close_char(self) -> char {
        match self {
            ContainerType::Object => '}',
            ContainerType::Array => ']',
        }
    }

    /// A container of which nothing is shown.
    pub open spec fn spec_collapsed_preview(self) -> Seq<char> {
        seq![self.spec_open_char(), '…', self.spec_close_char()]
    }

    /// The character that opens a container.
    pub fn open_char(&self) -> (r: char)
        ensures
            r == self.spec_open_char(),
    {
        match self {
            ContainerType::Object => '{',
            ContainerType::Array => '[',
        }
    }

    /// The character that closes a container.
    pub fn close_char(&self) -> (r: char)
        ensures
            r == self.spec_close_char(),
    {
        match self {
            ContainerType::Object => '}',
            ContainerType::Array => ']',
        }
    }

    /// A container of which nothing is shown.
    pub fn collapsed_preview(&self) -> (r: &'static str)
        ensures
            r@ == self.spec_collapsed_preview(),
    {
        match self {
            ContainerType::Object => {
                proof {
                    reveal_strlit("{…}");
                    assert("{…}"@ =~= seq!['{', '…', '}']);
                }
                "{…}"
            },
            ContainerType::Array => {
                proof {
                    reveal_strlit("[…]");
                    assert("[…]"@ =~= seq!['[', '…', ']']);
                }
                "[…]"
            },
        }
    }
}

/// What stands on a row.
#[derive(Debug, Copy, Clone, PartialEq, Eq)]
pub enum Value {
    Null,
    Boolean,
    Number,
    String,
    EmptyObject,
    EmptyArray,
    /// The start of a container that is not empty.
    OpenContainer {
        container_type: ContainerType,
        collapsed: bool,
        /// The row of the first element.
        first_child: usize,
        /// The row where the container ends.
        close_index: usize,
    },
    /// The end of a container.
    CloseContainer {
        container_type: ContainerType,
        collapsed: bool,
        /// The row where the container starts.
        open_index: usize,
    },
}

impl Value {
    /// Whether this is the start or the end of a container.
    pub fn is_container(&self) -> (r: bool)
        ensures
            r == (*self is OpenContainer || *self is CloseContainer),
    {
        match self {
            Value::OpenContainer { .. } => true,
            Value::CloseContainer { .. } => true,
            _ => false,
        }
    }

    /// The kind of the container, if this is the start or the end of one.
    pub open spec fn spec_container_type(self) -> Option<ContainerType> {
        match self {
            Value::OpenContainer { container_type, .. } => Some(container_type),
            Value::CloseContainer { container_type, .. } => Some(container_type),
            _ => None,
        }
    }

    /// Whether this is the start or the end of a collapsed container.
    pub open spec fn spec_collapsed(self) -> bool {
        match self {
            Value::OpenContainer { collapsed, .. } => collapsed,
            Value::CloseContainer { collapsed, .. } => collapsed,
            _ => false,
        }
    }

    /// The kind of the container, if this is the start or the end of one.
    pub fn container_type(&self) -> (r: Option<ContainerType>)
        ensures
            r == self.spec_container_type(),
    {
        match self {
            Value::OpenContainer { container_type, .. } => Some(*container_type),
            Value::CloseContainer { container_type, .. } => Some(*container_type),
            _ => None,
        }
    }

    /// The same start or end of a container, collapsed.
    pub open spec fn spec_to_collapsed(self) -> Value {
        match self {
            Value::OpenContainer { container_type, first_child, close_index, .. } =>
                Value::OpenContainer { container_type, collapsed: true, first_child, close_index },
            Value::CloseContainer { container_type, open_index, .. } =>
                Value::CloseContainer { container_type, collapsed: true, open_index },
            _ => self,
        }
    }

    /// The same start or end of a container, collapsed.
    fn to_collapsed(self) -> (r: Value)
        ensures
            r == self.spec_to_collapsed(),
    {
        match self {
            Value::OpenContainer { container_type, first_child, close_index, .. } =>
                Value::OpenContainer { container_type, collapsed: true, first_child, close_index },
            Value::CloseContainer { container_type, open_index, .. } =>
                Value::CloseContainer { container_type, collapsed: true, open_index },
            _ => self,
        }
    }
}

/// A row of a document.
#[derive(Debug)]
pub struct Row {
    /// The next element of the container that this row is in.
    pub next_sibling: OptionIndex,
    /// Where the value stands in the pretty-printed text.
    pub range: Range<usize>,
    /// Where the key, with its quotes, stands in the pretty-printed text, if the row has one.
    pub key_range: Option<Range<usize>>,
    pub value: Value,
}

impl Row {
    /// The first element, if this row starts a container.
    pub open spec fn spec_first_child(self) -> OptionIndex {
        match self.value {
            Value::OpenContainer { first_child, .. } => OptionIndex::Index(first_child),
            _ => OptionIndex::Nil,
        }
    }

    /// Whether the row starts or ends a container.
    pub fn is_container(&self) -> (r: bool)
        ensures
            r == (self.value is OpenContainer || self.value is CloseContainer),
    {
        self.value.is_container()
    }

    /// Whether the row starts a container.
    pub fn is_opening_of_container(&self) -> (r: bool)
        ensures
            r == (self.value is OpenContainer),
    {
        match self.value {
            Value::OpenContainer { .. } => true,
            _ => false,
        }
    }

    /// Whether the row starts or ends a collapsed container.
    pub fn is_collapsed(&self) -> (r: bool)
        ensures
            r == self.value.spec_collapsed(),
    {
        match self.value {
            Value::OpenContainer { collapsed, .. } => collapsed,
            Value::CloseContainer { collapsed, .. } => collapsed,
            _ => false,
        }
    }

    /// Whether the row is anything but the start or the end of a collapsed container.
    pub fn is_expanded(&self) -> (r: bool)
        ensures
            r == !self.value.spec_collapsed(),
    {
        !self.is_collapsed()
    }

    /// The first element, if this row starts a container.
    pub fn first_child(&self) -> (r: OptionIndex)
        ensures
            r == self.spec_first_child(),
    {
        match self.value {
            Value::OpenContainer { first_child, .. } => OptionIndex::Index(first_child),
            _ => OptionIndex::Nil,
        }
    }
}

/// A document: its rows and its pretty-printed text.
#[derive(Debug)]
pub struct FlatJson(pub Vec<Row>, pub String);

impl FlatJson {
    /// The rows.
    pub open spec fn rows(self) -> Seq<Row> {
        self.0@
    }

    /// The pretty-printed text.
    pub open spec fn text(self) -> Seq<char> {
        self.1@
    }

    /// The row can be an element of a container.
    pub open spec fn has_element(self, index: usize) -> bool {
        index < self.rows().len() && !(self.rows()[index as int].value is CloseContainer)
    }

    /// What the row says of the document is so: its ranges are pieces of the text, and the rows
    /// that it names are elements.
    pub open spec fn describes(self, row: Row) -> bool {
        &&& row.key_range matches Some(key) ==> key.start + 2 <= key.end && is_piece(
            self.text(),
            key.start + 1,
            key.end - 1,
        )
        &&& match row.value {
            Value::OpenContainer { first_child, .. } => self.has_element(first_child),
            Value::CloseContainer { .. } => true,
            Value::String => row.range.start + 2 <= row.range.end && is_piece(
                self.text(),
                row.range.start + 1,
                row.range.end - 1,
            ),
            _ => is_piece(self.text(), row.range.start as int, row.range.end as int),
        }
        &&& row.next_sibling matches OptionIndex::Index(next) ==> self.has_element(next)
    }

    /// The rows fit the text and each other, and elements come after their container and after
    /// the elements before them.
    pub open spec fn wf(self) -> bool {
        forall|i: int|
            0 <= i < self.rows().len() ==> {
                let row = #[trigger] self.rows()[i];
                &&& self.describes(row)
                &&& row.spec_first_child() matches OptionIndex::Index(child) ==> i < child
                &&& row.next_sibling matches OptionIndex::Index(next) ==> i < next
            }
    }

    /// The key of a row, without its quotes.
    pub open spec fn key_text(self, row: Row) -> Option<Seq<char>> {
        match row.key_range {
            Some(key) => Some(piece(self.text(), key.start + 1, key.end - 1)),
            None => None,
        }
    }

    /// The value of a row: a container as if nothing of it could be shown, and a string without
    /// its quotes.
    pub open spec fn value_text(self, row: Row) -> Seq<char> {
        match row.value {
            Value::OpenContainer { container_type, .. } => container_type.spec_collapsed_preview(),
            Value::String => piece(self.text(), row.range.start + 1, row.range.end - 1),
            _ => piece(self.text(), row.range.start as int, row.range.end as int),
        }
    }

    /// A row by its index.
    pub fn row(&self, index: usize) -> (r: &Row)
        requires
            index < self.rows().len(),
        ensures
            *r == self.rows()[index as int],
    {
        &self.0[index]
    }

    /// The key of a row, without its quotes.
    pub fn key<'a>(&'a self, row: &Row) -> (r: Option<&'a str>)
        requires
            self.describes(*row),
        ensures
            r is Some <==> self.key_text(*row) is Some,
            r matches Some(key) ==> key@ == self.key_text(*row)->0,
    {
        match &row.key_range {
            Some(key) => Some(str_piece(self.1.as_str(), key.start + 1, key.end - 1)),
            None => None,
        }
    }

    /// Collapses the container that starts or ends at a row.
    pub fn collapse(&mut self, index: usize)
        requires
            index < old(self).rows().len(),
            match old(self).rows()[index as int].value {
                Value::OpenContainer { close_index, .. } => close_index < old(self).rows().len(),
                Value::CloseContainer { open_index, .. } => open_index < old(self).rows().len(),
                _ => true,
            },
        ensures
            final(self).text() == old(self).text(),
            final(self).rows().len() == old(self).rows().len(),
            forall|i: int|
                0 <= i < old(self).rows().len() ==> {
                    let before = old(self).rows()[i];
                    #[trigger] final(self).rows()[i] == if i == index || (match old(
                        self,
                    ).rows()[index as int].value {
                        Value::OpenContainer { close_index, .. } => i == close_index,
                        Value::CloseContainer { open_index, .. } => i == open_index,
                        _ => false,
                    }) {
                        Row { value: before.value.spec_to_collapsed(), ..before }
                    } else {
                        before
                    }
                },
            old(self).wf() ==> final(self).wf(),
    {
        let value = self.0[index].value;
        self.0[index].value = value.to_collapsed();
        match value {
            Value::OpenContainer { close_index, .. } => {
                let pair = self.0[close_index].value;
                self.0[close_index].value = pair.to_collapsed();
            },
            Value::CloseContainer { open_index, .. } => {
                let pair = self.0[open_index].value;
                self.0[open_index].value = pair.to_collapsed();
            },
            _ => {},
        }
        proof {
            if old(self).wf() {
                lemma_same_kinds_keep_wf(*old(self), *self);
            }
        }
    }
}

/// Collapsing the start or the end of a container changes nothing of it but that it is collapsed,
/// and changes nothing at all of any other value.
pub proof fn lemma_collapsed_value(value: Value)
    ensures
        match value {
            Value::OpenContainer { container_type, first_child, close_index, .. } => {
                value.spec_to_collapsed() == (Value::OpenContainer {
                    container_type,
                    collapsed: true,
                    first_child,
                    close_index,
                })
            },
            Value::CloseContainer { container_type, open_index, .. } => {
                value.spec_to_collapsed() == (Value::CloseContainer {
                    container_type,
                    collapsed: true,
                    open_index,
                })
            },
            _ => value.spec_to_collapsed() == value,
        },
{
}

/// A document is well formed if what its rows name is in it: the keys and the values in its text,
/// and the elements of each container further on among its rows.
pub proof fn lemma_well_formed(flatjson: FlatJson)
    requires
        forall|i: int|
            0 <= i < flatjson.rows().len() ==> {
                let row = #[trigger] flatjson.rows()[i];
                &&& row.key_range matches Some(key) ==> key.start + 2 <= key.end && is_piece(
                    flatjson.text(),
                    key.start + 1,
                    key.end - 1,
                )
                &&& row.value is String ==> row.range.start + 2 <= row.range.end && is_piece(
                    flatjson.text(),
                    row.range.start + 1,
                    row.range.end - 1,
                )
                &&& !(row.value is String) ==> is_piece(
                    flatjson.text(),
                    row.range.start as int,
                    row.range.end as int,
                )
                &&& row.value matches Value::OpenContainer { first_child, .. } ==> i < first_child
                    < flatjson.rows().len() && !(flatjson.rows()[first_child as int].value
                    is CloseContainer)
                &&& row.next_sibling matches OptionIndex::Index(next) ==> i < next
                    < flatjson.rows().len() && !(flatjson.rows()[next as int].value
                    is CloseContainer)
            },
    ensures
        flatjson.wf(),
{
}

/// Rows that differ from those of a document only in whether containers are collapsed fit its text
/// and each other as those do.
proof fn lemma_same_kinds_keep_wf(before: FlatJson, after: FlatJson)
    requires
        before.wf(),
        after.text() == before.text(),
        after.rows().len() == before.rows().len(),
        forall|i: int|
            0 <= i < before.rows().len() ==> {
                let row = before.rows()[i];
                ||| #[trigger] after.rows()[i] == row
                ||| after.rows()[i] == (Row { value: row.value.spec_to_collapsed(), ..row })
            },
    ensures
        after.wf(),
{
    assert forall|i: int| 0 <= i < after.rows().len() implies {
        let row = #[trigger] after.rows()[i];
        &&& after.describes(row)
        &&& row.spec_first_child() matches OptionIndex::Index(child) ==> i < child
        &&& row.next_sibling matches OptionIndex::Index(next) ==> i < next
    } by {
        let row = before.rows()[i];
        assert(before.describes(row));
        if let OptionIndex::Index(child) = row.spec_first_child() {
            assert(before.has_element(child));
            assert(after.has_element(child));
        }
        if let OptionIndex::Index(next) = row.next_sibling {
            assert(before.has_element(next));
            assert(after.has_element(next));
        }
    }
}

} // verus!
