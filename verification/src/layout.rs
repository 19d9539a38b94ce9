//! What holds of every line, whatever stands on it.
use vstd::prelude::*;

use crate::columns::{columns, group_columns};
use crate::flatjson::{FlatJson, Row, Value};
use crate::lineprinter::{comma_columns, LineLabel, LinePrinter, LineValue};
use crate::output::text_if;
use crate::preview::{
    lemma_columns_quoted, lemma_preview_fits, lemma_separators, quote, quote_columns,
};
use crate::text::{byte_len, lemma_byte_len_positive};
use crate::truncate::lemma_ellipsized_fits;
use crate::truncatedstrview::start_text;
use crate::tuicontrol::{Color, TUIControl};

verus! {

/// A value takes no more columns than there are.
pub proof fn lemma_value_fits<'a, TUI: TUIControl>(line: LinePrinter<'a, TUI>, space: int)
    requires
        line.value_valid(),
        line.value is Value ==> line.cached_view() is None,
    ensures
        0 <= line.value_columns(space),
        line.value_columns(space) == 0 || line.value_columns(space) <= space,
{
    match line.value {
        LineValue::Container { flatjson, row } => {
            if row.value is OpenContainer && line.is_previewed(*row) {
                lemma_preview_fits(
                    *flatjson,
                    *row,
                    space - comma_columns(line.preview_comma(*row)),
                    line.mode is Line,
                );
            }
        },
        LineValue::Value { s, quotes, .. } => {
            let room = line.plain_room(quotes, space);
            if start_text(s@, room) is Some {
                lemma_ellipsized_fits(s@, room);
            }
        },
    }
}

/// A line takes no more columns than the screen has: after the indentation there is room for the
/// label and for the value, as far as they are shown.
pub proof fn lemma_line_fits<'a, TUI: TUIControl>(line: LinePrinter<'a, TUI>)
    requires
        line.reaches_value(),
        line.value_valid(),
        line.value is Value ==> line.cached_view() is None,
        line.width <= isize::MAX,
        0 <= line.label_depth() <= isize::MAX,
    ensures
        line.value_columns(line.value_room()) != 0 ==> line.label_depth() + line.label_columns(
            line.line_room(),
        ) + line.value_columns(line.value_room()) <= line.width,
        line.label is Some ==> line.label_depth() + line.label_columns(line.line_room())
            < line.width,
{
    line.lemma_label_leaves_room(line.line_room());
    lemma_value_fits(line, line.value_room());
}

/// A long value is cut before its label is: the label is shown whole wherever it fits with a column
/// to spare.
pub proof fn lemma_value_cut_first<'a, TUI: TUIControl>(
    line: LinePrinter<'a, TUI>,
    label: LineLabel<'a>,
    space: int,
)
    requires
        line.label == Some(label),
        columns(label.text()) + line.label_style(label).spec_width() + 2 < space,
    ensures
        line.label_shown(space) == Some(
            line.label_style(label).spec_left() + label.text() + line.label_style(
                label,
            ).spec_right(),
        ),
{
}

/// A value that fits is printed whole.
pub proof fn lemma_value_whole<'a, TUI: TUIControl>(
    line: LinePrinter<'a, TUI>,
    s: &'a str,
    quotes: bool,
    color: Color,
    space: int,
)
    requires
        line.value == (LineValue::Value { s, quotes, color }),
        line.cached_view() is None,
        byte_len(s@) <= usize::MAX,
        columns(s@) + quote_columns(quotes) + comma_columns(line.trailing_comma) <= space,
    ensures
        line.value_text(space) == line.tui.fg_color_text(color) + (quote(quotes) + s@ + quote(
            quotes,
        )) + line.comma_text(line.trailing_comma),
        line.value_columns(space) == columns(s@) + quote_columns(quotes) + comma_columns(
            line.trailing_comma,
        ),
{
    broadcast use group_columns;

    if s@.len() > 0 {
        lemma_byte_len_positive(s@);
    }
}

/// In line mode, the brace that starts an expanded container is always shown after a label, however
/// long the label is.
pub proof fn lemma_open_brace_after_label<'a, TUI: TUIControl>(line: LinePrinter<'a, TUI>)
    requires
        line.mode is Line,
        line.label is Some,
        line.reaches_value(),
        line.value matches LineValue::Container { row, .. } && row.value matches
            Value::OpenContainer { collapsed, .. } && !collapsed,
    ensures
        line.value matches LineValue::Container { row, .. } && line.after_label_text()
            == line.brace_controls() + seq![row.value.spec_container_type()->0.spec_open_char()],
{
    line.lemma_label_leaves_room(line.line_room());
    let text = line.value_text(line.value_room());
    assert(text + Seq::<char>::empty() =~= text);
}

/// Whether the label of a line, if it has one, and the value are shown.
pub open spec fn shows_value<'a, TUI: TUIControl>(line: LinePrinter<'a, TUI>) -> bool {
    line.reaches_value() && line.value_columns(line.value_room()) != 0
}

/// A line ends with its value where the value is shown, and with a `>` where it is not.
pub proof fn lemma_line_end<'a, TUI: TUIControl>(line: LinePrinter<'a, TUI>)
    ensures
        shows_value(line) ==> line.after_label_text() == line.value_text(line.value_room()),
        !shows_value(line) ==> line.line_text().len() > 0 && line.line_text().last() == '>',
{
    reveal_strlit(">");
    let text = line.value_text(line.value_room());
    assert(text + Seq::<char>::empty() =~= text);
}

/// Whether changes of style leave nothing in the text.
pub open spec fn prints_no_styles<TUI: TUIControl>(tui: TUI) -> bool {
    &&& tui.reset_style_text().len() == 0
    &&& tui.bold_text().len() == 0
    &&& forall|color: Color| (#[trigger] tui.fg_color_text(color)).len() == 0
    &&& forall|color: Color| (#[trigger] tui.bg_color_text(color)).len() == 0
}

/// Whether two lines differ at most in how they are focused.
pub open spec fn same_but_focus<'a, TUI: TUIControl>(
    a: LinePrinter<'a, TUI>,
    b: LinePrinter<'a, TUI>,
) -> bool {
    b == (LinePrinter {
        focused: b.focused,
        focused_because_matching_container_pair: b.focused_because_matching_container_pair,
        ..a
    })
}

/// Whether a line is focused determines the style in which it is printed, but neither what is
/// printed of its label and its value nor the columns that they take.
pub proof fn lemma_focus_is_style<'a, TUI: TUIControl>(
    a: LinePrinter<'a, TUI>,
    b: LinePrinter<'a, TUI>,
    space: int,
)
    requires
        same_but_focus(a, b),
    ensures
        a.label_shown(space) == b.label_shown(space),
        a.label_columns(space) == b.label_columns(space),
        a.value_columns(space) == b.value_columns(space),
        a.reaches_value() == b.reaches_value(),
        prints_no_styles(a.tui) ==> a.label_text(space) == b.label_text(space) && a.value_text(
            space,
        ) == b.value_text(space),
{
    if prints_no_styles(a.tui) {
        lemma_unstyled(a, space);
        lemma_unstyled(b, space);
    }
}

/// Whether a line is focused determines the style in which the start or the end of a container is
/// printed, but neither what is printed of it nor the columns that it takes.
pub proof fn lemma_container_focus_is_style<'a, TUI: TUIControl>(
    a: LinePrinter<'a, TUI>,
    b: LinePrinter<'a, TUI>,
    flatjson: FlatJson,
    row: Row,
    space: int,
)
    requires
        same_but_focus(a, b),
    ensures
        a.container_columns(flatjson, row, space) == b.container_columns(flatjson, row, space),
        prints_no_styles(a.tui) ==> a.container_text(flatjson, row, space) == b.container_text(
            flatjson,
            row,
            space,
        ),
{
    if prints_no_styles(a.tui) {
        assert(a.container_text(flatjson, row, space) =~= b.container_text(flatjson, row, space));
    }
}

/// The brace that starts an expanded container needs one column, and is printed in the same way
/// however many there are, and whether or not there is to be a comma after the container.
pub proof fn lemma_open_brace_needs_one_column<'a, TUI: TUIControl>(
    line: LinePrinter<'a, TUI>,
    row: Row,
    a: int,
    b: int,
    comma: bool,
)
    ensures
        a >= 1 ==> line.open_brace_text(row, a) == line.brace_controls()
            + seq![row.value.spec_container_type()->0.spec_open_char()],
        a <= 0 ==> line.open_brace_text(row, a).len() == 0,
        a >= 1 && b >= 1 ==> line.open_brace_text(row, a) == line.open_brace_text(row, b),
        (LinePrinter { trailing_comma: comma, ..line }).open_brace_text(row, a)
            == line.open_brace_text(row, a),
{
}

/// What is seen of a value, without the styles.
pub open spec fn value_seen<'a, TUI: TUIControl>(line: LinePrinter<'a, TUI>, space: int) -> Seq<
    char,
> {
    match line.value {
        LineValue::Container { flatjson, row } => if !(row.value is OpenContainer) {
            text_if(
                line.value_columns(space) > 0,
                seq![row.value.spec_container_type()->0.spec_close_char()] + text_if(
                    line.trailing_comma,
                    seq![','],
                ),
            )
        } else if line.is_previewed(*row) {
            line.container_preview(*flatjson, *row, space) + text_if(
                line.shows_preview_comma(*row, space),
                seq![','],
            )
        } else {
            text_if(
                line.value_columns(space) > 0,
                seq![row.value.spec_container_type()->0.spec_open_char()],
            )
        },
        LineValue::Value { s, quotes, .. } => text_if(
            line.shows_plain(s@, quotes, space),
            text_if(quotes, seq!['"']) + line.plain_view_text(s@, line.plain_room(quotes, space))
                + text_if(quotes, seq!['"']) + text_if(line.trailing_comma, seq![',']),
        ),
    }
}

/// Without styles, what is printed is what is seen.
proof fn lemma_unstyled<'a, TUI: TUIControl>(line: LinePrinter<'a, TUI>, space: int)
    requires
        prints_no_styles(line.tui),
    ensures
        line.value_text(space) == value_seen(line, space),
        line.label_text(space) == match line.label_shown(space) {
            Some(shown) => shown + ": "@,
            None => Seq::empty(),
        },
{
    assert(line.value_text(space) =~= value_seen(line, space));
    if let Some(shown) = line.label_shown(space) {
        assert(line.label_text(space) =~= shown + ": "@);
    }
}

/// The columns that are counted for a label and for a value are those that are printed, if there
/// are no styles.
pub proof fn lemma_columns_are_printed<'a, TUI: TUIControl>(
    line: LinePrinter<'a, TUI>,
    space: int,
)
    requires
        prints_no_styles(line.tui),
        line.value_valid(),
        line.value is Value ==> line.cached_view() is None,
    ensures
        columns(line.label_text(space)) == line.label_columns(space),
        columns(line.value_text(space)) == line.value_columns(space),
{
    broadcast use group_columns;

    lemma_separators();
    lemma_unstyled(line, space);
    if let LineValue::Value { s, quotes, .. } = line.value {
        lemma_columns_quoted(quotes, line.plain_view_text(s@, line.plain_room(quotes, space)));
    }
}

/// A line that is printed again with the view of its value that an earlier print has kept is
/// printed as before.
pub proof fn lemma_kept_view_reprints<'a, TUI: TUIControl>(
    line: LinePrinter<'a, TUI>,
    again: LinePrinter<'a, TUI>,
    space: int,
)
    requires
        line.value is Value,
        line.cached_view() is None,
        space <= isize::MAX,
        line.keeps_start(space),
        again == (LinePrinter { cached_formatted_value: again.cached_formatted_value, ..line }),
        again.cached_view() == Some(line.kept_view(space)),
    ensures
        again.value_valid(),
        again.value_text(space) == line.value_text(space),
        again.value_columns(space) == line.value_columns(space),
        again.kept_view(space) == line.kept_view(space),
{
}

} // verus!
