//! Printing a line of the viewer.
use std::collections::hash_map::Entry;
use std::fmt;

use vstd::prelude::*;
use vstd::std_specs::hash::EntrySpecFns;

use crate::columns::{columns, group_columns, lemma_columns_concat, lemma_columns_one};
use crate::flatjson::{FlatJson, OptionIndex, Row, Value};
use crate::identifier::{is_identifier, is_js_identifier};
use crate::output::{
    advance, begin, emitted, finish, lemma_emitted_nothing, regroup3, regroup4, regroup5, text_if,
    write_if, Write,
};
use crate::preview::{
    element_text, element_value_text, elements_text, key_label, lemma_columns_quoted,
    lemma_element_fits, lemma_key_label_fits, lemma_preview_fits, lemma_separators,
    lemma_value_preview_fits, preview_text, quote, quote_columns, quoted_key, value_preview_text,
    weight,
};
use crate::text::str_piece;
use crate::truncate::{
    ellipsized, lemma_ellipsized_fits, lemma_min_columns_suffice, min_columns,
    min_required_columns_for_str, truncate_right_to_fit, TruncationResult,
};
use crate::truncatedstrview::{start_text, start_view, TruncatedStrSlice, TruncatedStrView};
use crate::tuicontrol::{Color, TUIControl};
use crate::viewer::Mode;

verus! {

/// What marks the focused line in line mode.
pub const FOCUSED_LINE: &'static str = "▶ ";

/// What marks a collapsed container in data mode, when it is focused.
pub const FOCUSED_COLLAPSED_CONTAINER: &'static str = "▶ ";

/// What marks an expanded container in data mode, when it is focused.
pub const FOCUSED_EXPANDED_CONTAINER: &'static str = "▼ ";

/// What marks a collapsed container in data mode.
pub const COLLAPSED_CONTAINER: &'static str = "▷ ";

/// What marks an expanded container in data mode.
pub const EXPANDED_CONTAINER: &'static str = "▽ ";

/// The columns that are kept for the mark at the start of a line.
pub const INDICATOR_WIDTH: usize = 2;

/// The color of a key.
pub const LABEL_COLOR: Color = Color::LightBlue;

/// The color of the key of the focused line.
pub const FOCUSED_LABEL_COLOR: Color = Color::Blue;

/// What the key of the focused line stands on.
pub const FOCUSED_LABEL_BG_COLOR: Color = Color::LightWhite;

/// The color of what matters less.
pub const DIMMED: Color = Color::LightBlack;

/// What stands before a value: a key of an object or an index of an array.
#[derive(Debug, Copy, Clone)]
pub enum LineLabel<'a> {
    Key { key: &'a str },
    Index { index: &'a str },
}

/// What stands around the text of a label.
#[derive(Debug, Copy, Clone, PartialEq, Eq, Structural)]
pub enum LabelStyle {
    Plain,
    Quote,
    Square,
}

impl LabelStyle {
    /// What stands on the left of the label.
    pub open spec fn spec_left(self) -> Seq<char> {
        match self {
            LabelStyle::Plain => Seq::empty(),
            LabelStyle::Quote => seq!['"'],
            LabelStyle::Square => seq!['['],
        }
    }

    /// What stands on the right of the label.
    pub open spec fn spec_right(self) -> Seq<char> {
        match self {
            LabelStyle::Plain => Seq::empty(),
            LabelStyle::Quote => seq!['"'],
            LabelStyle::Square => seq![']'],
        }
    }

    /// The columns of both.
    pub open spec fn spec_width(self) -> int {
        match self {
            LabelStyle::Plain => 0,
            _ => 2,
        }
    }

    /// What stands on the left of the label.
    pub fn left(&self) -> (r: &'static str)
        ensures
            r@ == self.spec_left(),
    {
        proof {
            reveal_strlit("");
            reveal_strlit("\"");
            reveal_strlit("[");
            assert(""@ =~= Seq::empty());
            assert("\""@ =~= seq!['"']);
            assert("["@ =~= seq!['[']);
        }
        match self {
            LabelStyle::Plain => "",
            LabelStyle::Quote => "\"",
            LabelStyle::Square => "[",
        }
    }

    /// What stands on the right of the label.
    pub fn right(&self) -> (r: &'static str)
        ensures
            r@ == self.spec_right(),
    {
        proof {
            reveal_strlit("");
            reveal_strlit("\"");
            reveal_strlit("]");
            assert(""@ =~= Seq::empty());
            assert("\""@ =~= seq!['"']);
            assert("]"@ =~= seq![']']);
        }
        match self {
            LabelStyle::Plain => "",
            LabelStyle::Quote => "\"",
            LabelStyle::Square => "]",
        }
    }

    /// The columns of what stands on both sides.
    pub fn width(&self) -> (r: isize)
        ensures
            r == self.spec_width(),
            r == columns(self.spec_left()) + columns(self.spec_right()),
    {
        broadcast use group_columns;

        match self {
            LabelStyle::Plain => 0,
            _ => 2,
        }
    }
}

/// The value on a line.
#[derive(Debug)]
pub enum LineValue<'a> {
    /// The start or the end of a container.
    Container { flatjson: &'a FlatJson, row: &'a Row },
    /// Any other value.
    Value { s: &'a str, quotes: bool, color: Color },
}

/// A line of the viewer, to be printed.
pub struct LinePrinter<'a, TUI: TUIControl> {
    pub mode: Mode,
    pub tui: TUI,
    pub depth: usize,
    pub width: usize,
    pub tab_size: usize,
    // Line-by-line formatting options
    pub focused: bool,
    pub focused_because_matching_container_pair: bool,
    pub trailing_comma: bool,
    // Stuff to actually print out
    pub label: Option<LineLabel<'a>>,
    pub value: LineValue<'a>,
    /// The place where the view of the value is kept from one print to the next.
    pub cached_formatted_value: Option<Entry<'a, usize, TruncatedStrView>>,
}

impl<'a> LineLabel<'a> {
    /// The text of the label.
    pub open spec fn text(self) -> Seq<char> {
        match self {
            LineLabel::Key { key } => key@,
            LineLabel::Index { index } => index@,
        }
    }
}

/// What marks a container in data mode.
pub open spec fn container_mark(focused: bool, collapsed: bool) -> Seq<char> {
    match (focused, collapsed) {
        (true, true) => FOCUSED_COLLAPSED_CONTAINER@,
        (true, false) => FOCUSED_EXPANDED_CONTAINER@,
        (false, true) => COLLAPSED_CONTAINER@,
        (false, false) => EXPANDED_CONTAINER@,
    }
}

/// The columns of the comma after a value, if there is to be one.
pub open spec fn comma_columns(comma: bool) -> int {
    if comma {
        1
    } else {
        0
    }
}

/// The number of a column as it is handed to the terminal, which has 16 bits for it.
pub open spec fn cursor_column(column: int) -> u16 {
    (column % 0x10000) as u16
}

/// The number of a column as it is handed to the terminal.
fn to_cursor_column(column: usize) -> (r: u16)
    ensures
        r == cursor_column(column as int),
{
    let r = column as u16;
    assert(r == column % 0x10000) by (bit_vector)
        requires
            r == column as u16,
    ;
    r
}

/// A line.
impl<'a, TUI: TUIControl> LinePrinter<'a, TUI> {
    /// The columns by which the line is indented.
    pub open spec fn indentation(&self) -> int {
        self.depth * self.tab_size
    }

    /// The columns before the label.
    pub open spec fn label_depth(&self) -> int {
        INDICATOR_WIDTH + self.indentation()
    }

    /// The columns for the label and the value. A width or a depth beyond the largest `isize` wraps
    /// around to a negative one.
    pub open spec fn line_room(&self) -> int {
        (self.width as isize) - (self.label_depth() as usize as isize)
    }

    /// The columns that the label leaves for the value.
    pub open spec fn value_room(&self) -> int {
        self.line_room() - self.label_columns(self.line_room())
    }

    /// Whether it comes to the value: there is no label, or there is room for it.
    pub open spec fn reaches_value(&self) -> bool {
        self.label is None || self.label_columns(self.line_room()) != 0
    }

    /// What marks the focused line in line mode.
    pub open spec fn focused_line_text(&self) -> Seq<char> {
        text_if(self.focused, self.tui.position_cursor_text(1) + FOCUSED_LINE@)
    }

    /// What marks a container in data mode, if there is room to the right of the mark.
    pub open spec fn container_mark_text(&self) -> Seq<char> {
        match self.value {
            LineValue::Container { row, .. } => text_if(
                self.width > self.label_depth(),
                self.tui.position_cursor_text(cursor_column(1 + self.indentation()))
                    + container_mark(self.focused, row.value.spec_collapsed()),
            ),
            LineValue::Value { .. } => Seq::empty(),
        }
    }

    /// What is printed before the label to mark the line.
    pub open spec fn mark_text(&self) -> Seq<char> {
        match self.mode {
            Mode::Line => self.focused_line_text(),
            Mode::Data => self.container_mark_text(),
        }
    }

    /// What is printed in the last column of the screen, if the label or the value has no room.
    pub open spec fn truncated_text(&self) -> Seq<char> {
        self.tui.position_cursor_text(cursor_column(self.width as int)) + (if self.focused {
            self.tui.reset_style_text() + self.tui.bold_text()
        } else {
            self.tui.fg_color_text(DIMMED)
        }) + ">"@
    }

    /// What is printed after the label: the value, or a sign that there is no room for it, or for
    /// the label before it.
    pub open spec fn after_label_text(&self) -> Seq<char> {
        if self.reaches_value() {
            self.value_text(self.value_room()) + text_if(
                self.value_columns(self.value_room()) == 0,
                self.truncated_text(),
            )
        } else {
            self.truncated_text()
        }
    }

    /// All that is printed of the line.
    pub open spec fn line_text(&self) -> Seq<char> {
        self.tui.reset_style_text() + self.mark_text() + self.tui.position_cursor_text(
            cursor_column(1 + self.label_depth()),
        ) + self.label_text(self.line_room()) + self.after_label_text()
    }

    /// The line can be printed: its columns can be counted, it is not the end of a container in
    /// data mode, and its value is valid unless there is no room even for an empty label before it.
    pub open spec fn line_ready(&self) -> bool {
        &&& 1 + self.label_depth() <= usize::MAX
        &&& isize::MIN <= self.line_room() <= isize::MAX
        &&& self.mode is Data ==> (self.value matches LineValue::Container { row, .. } ==> row.value
            is OpenContainer)
        &&& match self.label {
            None => self.value_ready(self.line_room()),
            Some(label) => {
                let room = self.label_room(label, self.line_room());
                room >= isize::MIN && (room >= 0 ==> self.value_valid())
            },
        }
    }

    /// The line after it was printed.
    pub open spec fn after_line(self) -> Self {
        if self.reaches_value() {
            self.after_value()
        } else {
            self
        }
    }

    /// Prints the line. It fails exactly when a write to the sink did, and writes nothing after
    /// that. The value may or may not have been reached by then.
    pub fn print_line<W: Write>(&mut self, buf: &mut W) -> (r: fmt::Result)
        requires
            old(self).line_ready(),
        ensures
            emitted(old(buf).sink(), final(buf).sink(), r is Ok, old(self).line_text()),
            r is Err <==> final(buf).sink().failures.len() > old(buf).sink().failures.len(),
            r is Err ==> final(buf).sink().failures == old(buf).sink().failures.push(
                final(buf).sink().written,
            ),
            *final(self) == old(self).after_line() || (r is Err && *final(self) == *old(self)),
            old(self).value is Value && final(self).cached_formatted_value is None ==> (old(
                self,
            ).cached_formatted_value matches Some(entry) ==> entry.final_value() == Some(
                old(self).kept_view(old(self).value_room()),
            )),
            r is Ok && old(self).reaches_value() ==> old(self).keeps_start(
                old(self).value_room(),
            ),
    {
        let ghost text = self.line_text();
        let ghost mut p = begin(buf.sink(), text);
        let ghost reset = self.tui.reset_style_text();
        let ghost mark = self.mark_text();
        let ghost position = self.tui.position_cursor_text(cursor_column(1 + self.label_depth()));
        let ghost label = self.label_text(self.line_room());
        let ghost after = self.after_label_text();
        proof {
            regroup5(reset, mark, position, label, after);
            self.lemma_label_leaves_room(self.line_room());
        }
        let r = self.tui.reset_style(buf);
        proof {
            p = advance(p, buf.sink(), r is Ok, reset, mark + (position + (label + after)));
        }
        r?;

        let r = self.print_focus_and_container_indicators(buf);
        proof {
            p = advance(p, buf.sink(), r is Ok, mark, position + (label + after));
        }
        r?;

        let label_depth: usize = INDICATOR_WIDTH + self.depth * self.tab_size;
        let r = self.tui.position_cursor(buf, to_cursor_column(1 + label_depth));
        proof {
            p = advance(p, buf.sink(), r is Ok, position, label + after);
        }
        r?;

        let mut available_space: isize = self.width as isize - label_depth as isize;

        let r = self.fill_in_label(buf, available_space);
        proof {
            p = advance(p, buf.sink(), r is Ok, label, after);
        }
        let space_used_for_label: isize = r?;
        available_space = available_space - space_used_for_label;

        let r = if self.label.is_some() && space_used_for_label == 0 {
            self.print_truncated_indicator(buf)
        } else {
            self.print_value(buf, available_space)
        };
        proof {
            finish(p, buf.sink(), r is Ok, after);
        }
        r
    }

    /// Prints the value, or a sign that there is no room for it.
    fn print_value<W: Write>(&mut self, buf: &mut W, available_space: isize) -> (r: fmt::Result)
        requires
            old(self).value_ready(available_space as int),
        ensures
            emitted(
                old(buf).sink(),
                final(buf).sink(),
                r is Ok,
                old(self).value_text(available_space as int) + text_if(
                    old(self).value_columns(available_space as int) == 0,
                    old(self).truncated_text(),
                ),
            ),
            *final(self) == old(self).after_value(),
            old(self).value is Value ==> (old(self).cached_formatted_value matches Some(entry)
                ==> entry.final_value() == Some(old(self).kept_view(available_space as int))),
            old(self).keeps_start(available_space as int),
    {
        let ghost value = self.value_text(available_space as int);
        let ghost sign = text_if(
            self.value_columns(available_space as int) == 0,
            self.truncated_text(),
        );
        let ghost mut p = begin(buf.sink(), value + sign);
        let r = self.fill_in_value(buf, available_space);
        proof {
            p = advance(p, buf.sink(), r is Ok, value, sign);
        }
        let space_used_for_value: isize = r?;
        let ghost before = buf.sink();
        let r = if space_used_for_value == 0 {
            self.print_truncated_indicator(buf)
        } else {
            Ok(())
        };
        proof {
            lemma_emitted_nothing(before);
            finish(p, buf.sink(), r is Ok, sign);
        }
        r
    }

    /// Marks the line as its mode has it.
    fn print_focus_and_container_indicators<W: Write>(&self, buf: &mut W) -> (r: fmt::Result)
        requires
            1 + self.label_depth() <= usize::MAX,
            self.mode is Data ==> (self.value matches LineValue::Container { row, .. } ==> row.value
                is OpenContainer),
        ensures
            emitted(old(buf).sink(), final(buf).sink(), r is Ok, self.mark_text()),
    {
        match self.mode {
            Mode::Line => self.print_focused_line_indicator(buf),
            Mode::Data => self.print_container_indicator(buf),
        }
    }

    /// Marks the line if it is focused.
    fn print_focused_line_indicator<W: Write>(&self, buf: &mut W) -> (r: fmt::Result)
        ensures
            emitted(old(buf).sink(), final(buf).sink(), r is Ok, self.focused_line_text()),
    {
        let ghost mut p = begin(buf.sink(), self.focused_line_text());
        if self.focused {
            let r = self.tui.position_cursor(buf, 1);
            proof {
                p = advance(
                    p,
                    buf.sink(),
                    r is Ok,
                    self.tui.position_cursor_text(1),
                    FOCUSED_LINE@,
                );
            }
            r?;
            let r = buf.write_str(FOCUSED_LINE);
            proof {
                finish(p, buf.sink(), r is Ok, FOCUSED_LINE@);
            }
            r
        } else {
            Ok(())
        }
    }

    /// Marks the line if it is a container, as an expanded or a collapsed one.
    fn print_container_indicator<W: Write>(&self, buf: &mut W) -> (r: fmt::Result)
        requires
            self.label_depth() <= usize::MAX,
            self.value matches LineValue::Container { row, .. } ==> row.value is OpenContainer,
        ensures
            emitted(old(buf).sink(), final(buf).sink(), r is Ok, self.container_mark_text()),
    {
        let ghost mut p = begin(buf.sink(), self.container_mark_text());
        let collapsed = match &self.value {
            LineValue::Container { row, .. } => row.is_collapsed(),
            _ => return Ok(()),
        };

        // Make sure there's enough room for the indicator
        if self.width <= INDICATOR_WIDTH + self.depth * self.tab_size {
            return Ok(());
        }
        let container_indicator_col: usize = 1 + self.depth * self.tab_size;
        let ghost position = self.tui.position_cursor_text(cursor_column(1 + self.indentation()));
        let ghost mark = container_mark(self.focused, collapsed);
        let r = self.tui.position_cursor(buf, to_cursor_column(container_indicator_col));
        proof {
            p = advance(p, buf.sink(), r is Ok, position, mark);
        }
        r?;

        let r = match (self.focused, collapsed) {
            (true, true) => buf.write_str(FOCUSED_COLLAPSED_CONTAINER),
            (true, false) => buf.write_str(FOCUSED_EXPANDED_CONTAINER),
            (false, true) => buf.write_str(COLLAPSED_CONTAINER),
            (false, false) => buf.write_str(EXPANDED_CONTAINER),
        };
        proof {
            finish(p, buf.sink(), r is Ok, mark);
        }
        r
    }

    /// Prints the sign that there is no room in the last column of the screen.
    fn print_truncated_indicator<W: Write>(&self, buf: &mut W) -> (r: fmt::Result)
        ensures
            emitted(old(buf).sink(), final(buf).sink(), r is Ok, self.truncated_text()),
    {
        let ghost position = self.tui.position_cursor_text(cursor_column(self.width as int));
        let ghost style = if self.focused {
            self.tui.reset_style_text() + self.tui.bold_text()
        } else {
            self.tui.fg_color_text(DIMMED)
        };
        let ghost mut p = begin(buf.sink(), self.truncated_text());
        let r = self.tui.position_cursor(buf, to_cursor_column(self.width));
        proof {
            regroup3(position, style, ">"@);
            p = advance(p, buf.sink(), r is Ok, position, style + ">"@);
        }
        r?;
        if self.focused {
            proof {
                regroup3(self.tui.reset_style_text(), self.tui.bold_text(), ">"@);
            }
            let r = self.tui.reset_style(buf);
            proof {
                p = advance(
                    p,
                    buf.sink(),
                    r is Ok,
                    self.tui.reset_style_text(),
                    self.tui.bold_text() + ">"@,
                );
            }
            r?;
            let r = self.tui.bold(buf);
            proof {
                p = advance(p, buf.sink(), r is Ok, self.tui.bold_text(), ">"@);
            }
            r?;
        } else {
            let r = self.tui.fg_color(buf, DIMMED);
            proof {
                p = advance(p, buf.sink(), r is Ok, style, ">"@);
            }
            r?;
        }
        let r = buf.write_str(">");
        proof {
            finish(p, buf.sink(), r is Ok, ">"@);
        }
        r
    }
}

/// Prints what a view shows of a label, with the signs of its style around it.
fn write_styled<W: Write>(
    buf: &mut W,
    style: LabelStyle,
    s: &str,
    truncated_view: &TruncatedStrView,
) -> (r: fmt::Result)
    requires
        truncated_view.is_view_of(s@),
    ensures
        emitted(
            old(buf).sink(),
            final(buf).sink(),
            r is Ok,
            style.spec_left() + truncated_view.shown(s@) + style.spec_right(),
        ),
{
    let ghost left = style.spec_left();
    let ghost text = truncated_view.shown(s@);
    let ghost right = style.spec_right();
    let ghost mut p = begin(buf.sink(), left + text + right);
    let r = buf.write_str(style.left());
    proof {
        regroup3(left, text, right);
        p = advance(p, buf.sink(), r is Ok, left, text + right);
    }
    r?;
    let r = TruncatedStrSlice { s, truncated_view }.write_to(buf);
    proof {
        p = advance(p, buf.sink(), r is Ok, text, right);
    }
    r?;
    let r = buf.write_str(style.right());
    proof {
        finish(p, buf.sink(), r is Ok, right);
    }
    r
}

/// A label.
impl<'a, TUI: TUIControl> LinePrinter<'a, TUI> {
    /// What stands around a label: brackets around an index, and quotes around a key in line mode
    /// or if it is not an identifier.
    pub open spec fn label_style(&self, label: LineLabel<'a>) -> LabelStyle {
        match label {
            LineLabel::Key { key } => if self.mode is Line || !is_identifier(key@) {
                LabelStyle::Quote
            } else {
                LabelStyle::Plain
            },
            LineLabel::Index { .. } => LabelStyle::Square,
        }
    }

    /// The controls that start a style.
    pub open spec fn style_text(&self, fg: Option<Color>, bg: Option<Color>, bold: bool) -> Seq<
        char,
    > {
        (match fg {
            Some(color) => self.tui.fg_color_text(color),
            None => Seq::empty(),
        }) + (match bg {
            Some(color) => self.tui.bg_color_text(color),
            None => Seq::empty(),
        }) + text_if(bold, self.tui.bold_text())
    }

    /// The controls before a label.
    pub open spec fn label_controls(&self, label: LineLabel<'a>) -> Seq<char> {
        match (label, self.focused) {
            (LineLabel::Key { .. }, true) => self.style_text(
                Some(FOCUSED_LABEL_COLOR),
                Some(FOCUSED_LABEL_BG_COLOR),
                false,
            ),
            (LineLabel::Key { .. }, false) => self.style_text(Some(LABEL_COLOR), None, false),
            (LineLabel::Index { .. }, true) => self.style_text(None, None, true),
            (LineLabel::Index { .. }, false) => self.style_text(Some(DIMMED), None, false),
        }
    }

    /// The columns for the text of a label: those that are not needed for what stands around it,
    /// for the colon and the space after it, and for one character of the value.
    pub open spec fn label_room(&self, label: LineLabel<'a>, space: int) -> int {
        space - self.label_style(label).spec_width() - 2 - 1
    }

    /// The label as it is shown in `space` columns, without the colon after it. There is none
    /// where the line has no label, or no room for it.
    pub open spec fn label_shown(&self, space: int) -> Option<Seq<char>> {
        match self.label {
            None => None,
            Some(label) => match start_text(label.text(), self.label_room(label, space)) {
                None => None,
                Some(text) => Some(
                    self.label_style(label).spec_left() + text + self.label_style(
                        label,
                    ).spec_right(),
                ),
            },
        }
    }

    /// All that is printed of the label in `space` columns.
    pub open spec fn label_text(&self, space: int) -> Seq<char> {
        match self.label_shown(space) {
            None => Seq::empty(),
            Some(shown) => self.label_controls(self.label->0) + shown + self.tui.reset_style_text()
                + ": "@,
        }
    }

    /// The columns that the label takes, with the colon and the space after it.
    pub open spec fn label_columns(&self, space: int) -> int {
        match self.label_shown(space) {
            None => 0,
            Some(shown) => columns(shown) + columns(": "@) as int,
        }
    }

    /// A label that is shown takes columns, and leaves one at least of those that there are.
    pub proof fn lemma_label_leaves_room(&self, space: int)
        ensures
            self.label_shown(space) is Some ==> 2 <= self.label_columns(space) < space
                && self.label_room(self.label->0, space) >= 0,
            self.label_shown(space) is None ==> self.label_columns(space) == 0,
    {
        broadcast use group_columns;

        lemma_separators();
        if let Some(label) = self.label {
            let room = self.label_room(label, space);
            if start_text(label.text(), room) is Some {
                lemma_ellipsized_fits(label.text(), room);
            }
        }
    }

    /// The columns for the text of the label can be counted.
    pub open spec fn label_ready(&self, space: int) -> bool {
        self.label matches Some(label) ==> self.label_room(label, space) >= isize::MIN
    }

    /// Starts the style of a label.
    fn start_label<W: Write>(
        &self,
        buf: &mut W,
        fg_label_color: Option<Color>,
        bg_label_color: Option<Color>,
        label_bolded: bool,
    ) -> (r: fmt::Result)
        ensures
            emitted(
                old(buf).sink(),
                final(buf).sink(),
                r is Ok,
                self.style_text(fg_label_color, bg_label_color, label_bolded),
            ),
    {
        let ghost fg = match fg_label_color {
            Some(color) => self.tui.fg_color_text(color),
            None => Seq::empty(),
        };
        let ghost bg = match bg_label_color {
            Some(color) => self.tui.bg_color_text(color),
            None => Seq::empty(),
        };
        let ghost bold = text_if(label_bolded, self.tui.bold_text());
        let ghost mut p = begin(
            buf.sink(),
            self.style_text(fg_label_color, bg_label_color, label_bolded),
        );
        let r = self.tui.maybe_fg_color(buf, fg_label_color);
        proof {
            regroup3(fg, bg, bold);
            p = advance(p, buf.sink(), r is Ok, fg, bg + bold);
        }
        r?;
        let r = self.tui.maybe_bg_color(buf, bg_label_color);
        proof {
            p = advance(p, buf.sink(), r is Ok, bg, bold);
        }
        r?;
        let ghost before = buf.sink();
        let r = if label_bolded {
            self.tui.bold(buf)
        } else {
            Ok(())
        };
        proof {
            lemma_emitted_nothing(before);
            finish(p, buf.sink(), r is Ok, bold);
        }
        r
    }

    /// Prints the label, if there is one, in at most `available_space` columns, of which it leaves
    /// one. Returns the columns that it takes: none, if it has no room.
    pub fn fill_in_label<W: Write>(&self, buf: &mut W, mut available_space: isize) -> (r: Result<
        isize,
        fmt::Error,
    >)
        requires
            self.label_ready(available_space as int),
        ensures
            emitted(
                old(buf).sink(),
                final(buf).sink(),
                r is Ok,
                self.label_text(available_space as int),
            ),
            r matches Ok(used) ==> used == self.label_columns(available_space as int),
    {
        let ghost space = available_space as int;
        let ghost mut p = begin(buf.sink(), self.label_text(space));
        let label_style: LabelStyle;
        let label_ref: &str;

        let mut fg_label_color: Option<Color> = None;
        let mut bg_label_color: Option<Color> = None;
        let mut label_bolded = false;

        let mut used_space: isize = 0;

        match self.label {
            None => return Ok(0),
            Some(LineLabel::Key { key }) => {
                // Quote keys in line mode or if they're not valid JS identifiers.
                let should_be_quoted = self.mode == Mode::Line || !is_js_identifier(key);
                label_style = if should_be_quoted {
                    LabelStyle::Quote
                } else {
                    LabelStyle::Plain
                };

                label_ref = key;

                if self.focused {
                    fg_label_color = Some(FOCUSED_LABEL_COLOR);
                    bg_label_color = Some(FOCUSED_LABEL_BG_COLOR);
                } else {
                    fg_label_color = Some(LABEL_COLOR);
                }
            },
            Some(LineLabel::Index { index }) => {
                label_style = LabelStyle::Square;
                label_ref = index;

                if self.focused {
                    label_bolded = true;
                } else {
                    fg_label_color = Some(DIMMED);
                }
            },
        }
        let ghost label = self.label->0;
        assert(label_style == self.label_style(label));

        // Remove two characters for either "" or [].
        if label_style != LabelStyle::Plain {
            available_space = available_space - 2;
        }
        // Remove two characters for ": "
        available_space = available_space - 2;

        // Remove one character for either ">" or a single character of the value.
        available_space = available_space - 1;

        let truncated_view = TruncatedStrView::init_start(label_ref, available_space);
        let space_used_for_label: isize = match truncated_view.used_space() {
            Some(space_used_for_label) => space_used_for_label,
            None => return Ok(0),
        };
        used_space = used_space + space_used_for_label;
        let ghost text = start_text(label.text(), self.label_room(label, space))->0;
        let ghost left = label_style.spec_left();
        let ghost right = label_style.spec_right();
        proof {
            lemma_separators();
            lemma_columns_concat(left, text);
            lemma_columns_concat(left + text, right);
        }
        let ghost controls = self.label_controls(label);
        let ghost reset = self.tui.reset_style_text();
        let ghost shown = left + text + right;
        proof {
            regroup4(controls, shown, reset, ": "@);
        }

        // Actually print out the label!
        let r = self.start_label(buf, fg_label_color, bg_label_color, label_bolded);
        proof {
            p = advance(p, buf.sink(), r is Ok, controls, shown + (reset + ": "@));
        }
        r?;

        let r = write_styled(buf, label_style, label_ref, &truncated_view);
        proof {
            p = advance(p, buf.sink(), r is Ok, shown, reset + ": "@);
        }
        r?;

        let r = self.tui.reset_style(buf);
        proof {
            p = advance(p, buf.sink(), r is Ok, reset, ": "@);
        }
        r?;
        let r = buf.write_str(": ");
        proof {
            finish(p, buf.sink(), r is Ok, ": "@);
        }
        r?;

        used_space = used_space + label_style.width();
        used_space = used_space + 2;

        Ok(used_space)
    }
}

/// Prints what a view shows of a value, with quotes around it if it is quoted.
fn write_quoted_view<W: Write>(
    buf: &mut W,
    quoted: bool,
    s: &str,
    truncated_view: &TruncatedStrView,
) -> (r: fmt::Result)
    requires
        truncated_view.is_view_of(s@),
    ensures
        emitted(
            old(buf).sink(),
            final(buf).sink(),
            r is Ok,
            quote(quoted) + truncated_view.shown(s@) + quote(quoted),
        ),
{
    let ghost text = truncated_view.shown(s@);
    let ghost mut p = begin(buf.sink(), quote(quoted) + text + quote(quoted));
    let r = write_if(buf, quoted, '"');
    proof {
        regroup3(quote(quoted), text, quote(quoted));
        p = advance(p, buf.sink(), r is Ok, quote(quoted), text + quote(quoted));
    }
    r?;
    let r = TruncatedStrSlice { s, truncated_view }.write_to(buf);
    proof {
        p = advance(p, buf.sink(), r is Ok, text, quote(quoted));
    }
    r?;
    let r = write_if(buf, quoted, '"');
    proof {
        finish(p, buf.sink(), r is Ok, quote(quoted));
    }
    r
}

/// A value that is not a container.
impl<'a, TUI: TUIControl> LinePrinter<'a, TUI> {
    /// The comma after a value, if there is to be one.
    pub open spec fn comma_text(&self, comma: bool) -> Seq<char> {
        text_if(comma, self.tui.reset_style_text() + seq![','])
    }

    /// The view of the value that was kept from an earlier print.
    pub open spec fn cached_view(&self) -> Option<TruncatedStrView> {
        match self.cached_formatted_value {
            None => None,
            Some(entry) => entry.value(),
        }
    }

    /// The columns for the text of a value: those that are not needed for its quotes and for the
    /// comma after it.
    pub open spec fn plain_room(&self, quotes: bool, space: int) -> int {
        space - quote_columns(quotes) - comma_columns(self.trailing_comma)
    }

    /// The view of a value in `room` columns: the one that was kept, or else one of its beginning.
    pub open spec fn plain_view(&self, s: Seq<char>, room: int) -> TruncatedStrView {
        match self.cached_view() {
            Some(view) => view,
            None => start_view(s, room),
        }
    }

    /// What the view of a value in `room` columns shows.
    pub open spec fn plain_view_text(&self, s: Seq<char>, room: int) -> Seq<char> {
        match self.cached_view() {
            Some(view) => view.shown(s),
            None => match start_text(s, room) {
                Some(text) => text,
                None => Seq::empty(),
            },
        }
    }

    /// The columns that the view of a value in `room` columns takes.
    pub open spec fn plain_view_columns(&self, s: Seq<char>, room: int) -> int {
        match self.cached_view() {
            Some(view) => view.range->0.used_space as int,
            None => columns(start_text(s, room)->0) as int,
        }
    }

    /// Whether a value is shown that has this view: there is room for something, and it would not
    /// be an ellipsis by itself.
    pub open spec fn shows_view(&self, view: TruncatedStrView, quotes: bool) -> bool {
        view.range is Some && !(view.elided() && !quotes && !self.trailing_comma)
    }

    /// Whether a value is shown in `space` columns.
    pub open spec fn shows_plain(&self, s: Seq<char>, quotes: bool, space: int) -> bool {
        self.shows_view(self.plain_view(s, self.plain_room(quotes, space)), quotes)
    }

    /// All that is printed of a value in `space` columns.
    pub open spec fn plain_text(&self, s: Seq<char>, quotes: bool, color: Color, space: int) -> Seq<
        char,
    > {
        if self.shows_plain(s, quotes, space) {
            self.tui.fg_color_text(color) + (quote(quotes) + self.plain_view_text(
                s,
                self.plain_room(quotes, space),
            ) + quote(quotes)) + self.comma_text(self.trailing_comma)
        } else {
            Seq::empty()
        }
    }

    /// The columns that a value takes, with the comma after it.
    pub open spec fn plain_columns(&self, s: Seq<char>, quotes: bool, space: int) -> int {
        if self.shows_plain(s, quotes, space) {
            self.plain_view_columns(s, self.plain_room(quotes, space)) + quote_columns(quotes)
                + comma_columns(self.trailing_comma)
        } else {
            0
        }
    }

    /// A view that was kept is one of this value, and its columns can be counted.
    pub open spec fn plain_valid(&self, s: Seq<char>, quotes: bool) -> bool {
        self.cached_view() matches Some(view) ==> self.shows_view(view, quotes) ==> {
            &&& view.is_view_of(s)
            &&& view.range->0.used_space + quote_columns(quotes) + comma_columns(
                self.trailing_comma,
            ) <= isize::MAX
        }
    }

    /// All that is printed of the value in `space` columns.
    pub open spec fn value_text(&self, space: int) -> Seq<char> {
        match self.value {
            LineValue::Container { flatjson, row } => self.container_text(*flatjson, *row, space),
            LineValue::Value { s, quotes, color } => self.plain_text(s@, quotes, color, space),
        }
    }

    /// The columns that the value takes.
    pub open spec fn value_columns(&self, space: int) -> int {
        match self.value {
            LineValue::Container { flatjson, row } => self.container_columns(
                *flatjson,
                *row,
                space,
            ),
            LineValue::Value { s, quotes, .. } => self.plain_columns(s@, quotes, space),
        }
    }

    /// The value is one that can stand on a line.
    pub open spec fn value_valid(&self) -> bool {
        match self.value {
            LineValue::Container { flatjson, row } => self.container_valid(*flatjson, *row),
            LineValue::Value { s, quotes, .. } => self.plain_valid(s@, quotes),
        }
    }

    /// The columns that are taken off before the value is cut to those that remain.
    pub open spec fn value_reserve(&self) -> int {
        match self.value {
            LineValue::Container { row, .. } => comma_columns(
                self.is_previewed(*row) && self.preview_comma(*row),
            ),
            LineValue::Value { quotes, .. } => quote_columns(quotes) + comma_columns(
                self.trailing_comma,
            ),
        }
    }

    /// The value can be printed in `space` columns: what is left for it can be counted.
    pub open spec fn value_ready(&self, space: int) -> bool {
        self.value_valid() && space - self.value_reserve() >= isize::MIN
    }

    /// The line after its value was printed: the place where the view of a value is kept was used
    /// up, unless the value is a container, which needs none.
    pub open spec fn after_value(self) -> Self {
        match self.value {
            LineValue::Container { .. } => self,
            LineValue::Value { .. } => LinePrinter { cached_formatted_value: None, ..self },
        }
    }

    /// Unless it was kept from an earlier print, the view that is kept when the value is printed in
    /// `space` columns is one of the beginning of the value.
    pub open spec fn keeps_start(&self, space: int) -> bool {
        self.value matches LineValue::Value { s, quotes, .. } ==> self.cached_view() is None
            ==> self.kept_view(space).shows_start(s@, self.plain_room(quotes, space))
    }

    /// The view that is kept when the value is printed, unless it is a container.
    pub open spec fn kept_view(&self, space: int) -> TruncatedStrView
        recommends
            self.value is Value,
    {
        self.plain_view(self.value->s@, self.plain_room(self.value->quotes, space))
    }

    /// Prints the value in at most `available_space` columns. Returns the columns that it takes:
    /// none, if it has no room.
    pub fn fill_in_value<W: Write>(
        &mut self,
        buf: &mut W,
        mut available_space: isize,
    ) -> (r: Result<isize, fmt::Error>)
        requires
            old(self).value_ready(available_space as int),
        ensures
            emitted(
                old(buf).sink(),
                final(buf).sink(),
                r is Ok,
                old(self).value_text(available_space as int),
            ),
            r matches Ok(used) ==> used == old(self).value_columns(available_space as int),
            *final(self) == old(self).after_value(),
            old(self).value is Value ==> (old(self).cached_formatted_value matches Some(entry)
                ==> entry.final_value() == Some(old(self).kept_view(available_space as int))),
            old(self).keeps_start(available_space as int),
    {
        let ghost space = available_space as int;
        // Object values are sufficiently complicated that we'll handle them in a separate
        // function.
        let (value_ref, quoted, color) = match self.value {
            LineValue::Container { flatjson, row } => {
                return self.fill_in_container_value(buf, available_space, flatjson, row);
            },
            LineValue::Value { s, quotes, color } => (s, quotes, color),
        };
        let ghost text = self.value_text(space);
        let ghost shown = quote(quoted) + self.plain_view_text(
            value_ref@,
            self.plain_room(quoted, space),
        ) + quote(quoted);
        let ghost mut p = begin(buf.sink(), text);

        let mut used_space: isize = 0;

        if quoted {
            available_space = available_space - 2;
        }
        if self.trailing_comma {
            available_space = available_space - 1;
        }
        // - if no entry, then init_start
        // - if entry, but vacant, then init_start
        // - if entry with value, then value
        let truncated_view = match self.cached_formatted_value.take() {
            None => TruncatedStrView::init_start(value_ref, available_space),
            Some(Entry::Occupied(entry)) => *entry.get(),
            Some(Entry::Vacant(entry)) => *entry.insert(
                TruncatedStrView::init_start(value_ref, available_space),
            ),
        };
        let space_used_for_value: isize = match truncated_view.used_space() {
            Some(space_used_for_value) => space_used_for_value,
            None => return Ok(0),
        };
        used_space = used_space + space_used_for_value;

        // If we are just going to show a single ellipsis, we want to show a '>' instead.
        if truncated_view.is_completely_elided() && !quoted && !self.trailing_comma {
            return Ok(0);
        }
        // Print out the value.
        let ghost fg = self.tui.fg_color_text(color);
        let ghost comma = self.comma_text(self.trailing_comma);
        proof {
            regroup3(fg, shown, comma);
        }
        let r = self.tui.fg_color(buf, color);
        proof {
            p = advance(p, buf.sink(), r is Ok, fg, shown + comma);
        }
        r?;
        if quoted {
            used_space = used_space + 2;
        }
        let r = write_quoted_view(buf, quoted, value_ref, &truncated_view);
        proof {
            p = advance(p, buf.sink(), r is Ok, shown, comma);
        }
        r?;
        if self.trailing_comma {
            used_space = used_space + 1;
        }
        let r = self.print_comma(buf, self.trailing_comma);
        proof {
            finish(p, buf.sink(), r is Ok, comma);
        }
        r?;
        Ok(used_space)
    }

    /// Prints the comma after a value, if there is to be one.
    fn print_comma<W: Write>(&self, buf: &mut W, comma: bool) -> (r: fmt::Result)
        ensures
            emitted(old(buf).sink(), final(buf).sink(), r is Ok, self.comma_text(comma)),
    {
        let ghost mut p = begin(buf.sink(), self.comma_text(comma));
        if comma {
            let r = self.tui.reset_style(buf);
            proof {
                p = advance(p, buf.sink(), r is Ok, self.tui.reset_style_text(), seq![',']);
            }
            r?;
            let r = buf.write_char(',');
            proof {
                finish(p, buf.sink(), r is Ok, seq![',']);
            }
            r
        } else {
            Ok(())
        }
    }
}

/// The start or the end of a container.
impl<'a, TUI: TUIControl> LinePrinter<'a, TUI> {
    /// The control before the brace of a container.
    pub open spec fn brace_controls(&self) -> Seq<char> {
        text_if(
            self.focused || self.focused_because_matching_container_pair,
            self.tui.bold_text(),
        )
    }

    /// All that is printed of the start of a container in `space` columns, if it is but a brace.
    pub open spec fn open_brace_text(&self, row: Row, space: int) -> Seq<char> {
        text_if(
            space > 0,
            self.brace_controls() + seq![row.value.spec_container_type()->0.spec_open_char()],
        )
    }

    /// All that is printed of the end of a container in `space` columns.
    pub open spec fn close_brace_text(&self, row: Row, space: int) -> Seq<char> {
        text_if(
            space >= 1 + comma_columns(self.trailing_comma),
            self.brace_controls() + seq![row.value.spec_container_type()->0.spec_close_char()]
                + self.comma_text(self.trailing_comma),
        )
    }

    /// Whether a comma is to follow the preview of a container. In data mode, none follows that of
    /// an expanded one.
    pub open spec fn preview_comma(&self, row: Row) -> bool {
        self.trailing_comma && (self.mode is Line || row.value.spec_collapsed())
    }

    /// Whether a comma follows the preview of a container in `space` columns: there is to be one,
    /// and there is room for it beside the shortest preview.
    pub open spec fn shows_preview_comma(&self, row: Row, space: int) -> bool {
        self.preview_comma(row) && space >= 4
    }

    /// The preview of a container in `space` columns, of which one is kept for the comma, if there
    /// is to be one.
    pub open spec fn container_preview(&self, flatjson: FlatJson, row: Row, space: int) -> Seq<
        char,
    > {
        preview_text(
            flatjson,
            row,
            space - comma_columns(self.preview_comma(row)),
            self.mode is Line,
        )
    }

    /// All that is printed of a container in `space` columns, if it is a preview.
    pub open spec fn container_preview_text(
        &self,
        flatjson: FlatJson,
        row: Row,
        space: int,
    ) -> Seq<char> {
        text_if(!self.focused, self.tui.fg_color_text(DIMMED)) + self.container_preview(
            flatjson,
            row,
            space,
        ) + self.comma_text(self.shows_preview_comma(row, space))
    }

    /// Whether the start of a container is shown by a preview. In line mode, an expanded container
    /// starts with a brace.
    pub open spec fn is_previewed(&self, row: Row) -> bool {
        self.mode is Data || row.value.spec_collapsed()
    }

    /// All that is printed of the start or the end of a container in `space` columns.
    pub open spec fn container_text(&self, flatjson: FlatJson, row: Row, space: int) -> Seq<char> {
        if !(row.value is OpenContainer) {
            self.close_brace_text(row, space)
        } else if self.is_previewed(row) {
            self.container_preview_text(flatjson, row, space)
        } else {
            self.open_brace_text(row, space)
        }
    }

    /// The columns that the start or the end of a container takes.
    pub open spec fn container_columns(&self, flatjson: FlatJson, row: Row, space: int) -> int {
        if !(row.value is OpenContainer) {
            if space >= 1 + comma_columns(self.trailing_comma) {
                1 + comma_columns(self.trailing_comma)
            } else {
                0
            }
        } else if self.is_previewed(row) {
            columns(self.container_preview(flatjson, row, space)) + comma_columns(
                self.shows_preview_comma(row, space),
            )
        } else if space > 0 {
            1
        } else {
            0
        }
    }

    /// The row is the start or the end of a container that can stand on a line. Where a container
    /// is collapsed, and in data mode, its end does not.
    pub open spec fn container_valid(&self, flatjson: FlatJson, row: Row) -> bool {
        match row.value {
            Value::OpenContainer { .. } => self.is_previewed(row) ==> flatjson.wf()
                && flatjson.describes(row),
            Value::CloseContainer { collapsed, .. } => self.mode is Line && !collapsed,
            _ => false,
        }
    }

    /// Prints the start or the end of a container. What is printed depends on the mode, on whether
    /// it is the start or the end, and on whether the container is expanded or collapsed. Whether
    /// the line is focused determines the style, but not what is printed.
    ///
    /// Mode | Start/End |   State   |     Displayed
    /// -----+-----------+-----------+---------------------------
    /// Line |   Start   | Expanded  | Open char
    /// Line |   Start   | Collapsed | Preview + trailing comma?
    /// Line |    End    | Expanded  | Close char + trailing comma?
    /// Line |    End    | Collapsed | IMPOSSIBLE
    /// Data |   Start   | Expanded  | Preview
    /// Data |   Start   | Collapsed | Preview + trailing comma?
    /// Data |    End    | Expanded  | IMPOSSIBLE
    /// Data |    End    | Collapsed | IMPOSSIBLE
    pub fn fill_in_container_value<W: Write>(
        &self,
        buf: &mut W,
        available_space: isize,
        flatjson: &FlatJson,
        row: &Row,
    ) -> (r: Result<isize, fmt::Error>)
        requires
            self.container_valid(*flatjson, *row),
            available_space - comma_columns(self.is_previewed(*row) && self.preview_comma(*row))
                >= isize::MIN,
        ensures
            emitted(
                old(buf).sink(),
                final(buf).sink(),
                r is Ok,
                self.container_text(*flatjson, *row, available_space as int),
            ),
            r matches Ok(used) ==> used == self.container_columns(
                *flatjson,
                *row,
                available_space as int,
            ),
    {
        match (self.mode, row.is_opening_of_container(), row.is_expanded()) {
            (Mode::Line, true, true) => self.fill_in_container_open_char(buf, available_space, row),
            (Mode::Line, false, true) => self.fill_in_container_close_char(
                buf,
                available_space,
                row,
            ),
            (Mode::Line, true, false) | (Mode::Data, true, _) => self.fill_in_container_preview(
                buf,
                available_space,
                flatjson,
                row,
            ),
            // Can't focus the closing of a collapsed container, nor one in data mode.
            (Mode::Line, false, false) | (Mode::Data, false, _) => {
                assert(false);
                Ok(0)
            },
        }
    }

    /// Prints the brace that starts a container, if there is room for it.
    pub fn fill_in_container_open_char<W: Write>(
        &self,
        buf: &mut W,
        available_space: isize,
        row: &Row,
    ) -> (r: Result<isize, fmt::Error>)
        requires
            row.value.spec_container_type() is Some,
        ensures
            emitted(
                old(buf).sink(),
                final(buf).sink(),
                r is Ok,
                self.open_brace_text(*row, available_space as int),
            ),
            r matches Ok(used) ==> used == if available_space > 0 {
                1int
            } else {
                0
            },
    {
        let ghost mut p = begin(buf.sink(), self.open_brace_text(*row, available_space as int));
        if available_space > 0 {
            let container_type = row.value.container_type().unwrap();
            let ghost brace = seq![container_type.spec_open_char()];
            let r = self.start_brace(buf);
            proof {
                p = advance(p, buf.sink(), r is Ok, self.brace_controls(), brace);
            }
            r?;
            let r = buf.write_char(container_type.open_char());
            proof {
                finish(p, buf.sink(), r is Ok, brace);
            }
            r?;
            Ok(1)
        } else {
            Ok(0)
        }
    }

    /// Prints the brace that ends a container, and the comma after it, if there is room for both.
    pub fn fill_in_container_close_char<W: Write>(
        &self,
        buf: &mut W,
        available_space: isize,
        row: &Row,
    ) -> (r: Result<isize, fmt::Error>)
        requires
            row.value.spec_container_type() is Some,
        ensures
            emitted(
                old(buf).sink(),
                final(buf).sink(),
                r is Ok,
                self.close_brace_text(*row, available_space as int),
            ),
            r matches Ok(used) ==> used == if available_space >= 1 + comma_columns(
                self.trailing_comma,
            ) {
                1 + comma_columns(self.trailing_comma)
            } else {
                0
            },
    {
        let ghost mut p = begin(buf.sink(), self.close_brace_text(*row, available_space as int));
        let needed_space: isize = if self.trailing_comma {
            2
        } else {
            1
        };
        if available_space >= needed_space {
            let container_type = row.value.container_type().unwrap();
            let ghost brace = seq![container_type.spec_close_char()];
            let r = self.start_brace(buf);
            proof {
                regroup3(self.brace_controls(), brace, self.comma_text(self.trailing_comma));
                p = advance(
                    p,
                    buf.sink(),
                    r is Ok,
                    self.brace_controls(),
                    brace + self.comma_text(self.trailing_comma),
                );
            }
            r?;
            let r = buf.write_char(container_type.close_char());
            proof {
                p = advance(p, buf.sink(), r is Ok, brace, self.comma_text(self.trailing_comma));
            }
            r?;
            let r = self.print_comma(buf, self.trailing_comma);
            proof {
                finish(p, buf.sink(), r is Ok, self.comma_text(self.trailing_comma));
            }
            r?;
            Ok(needed_space)
        } else {
            Ok(0)
        }
    }

    /// Starts bold text where a brace is to be bold.
    fn start_brace<W: Write>(&self, buf: &mut W) -> (r: fmt::Result)
        ensures
            emitted(old(buf).sink(), final(buf).sink(), r is Ok, self.brace_controls()),
    {
        proof {
            lemma_emitted_nothing(buf.sink());
        }
        if self.focused || self.focused_because_matching_container_pair {
            self.tui.bold(buf)
        } else {
            Ok(())
        }
    }

    /// Prints the preview of a container, and the comma after it, if there is to be one. Where
    /// there is no room for a preview, nothing is shown.
    pub fn fill_in_container_preview<W: Write>(
        &self,
        buf: &mut W,
        mut available_space: isize,
        flatjson: &FlatJson,
        row: &Row,
    ) -> (r: Result<isize, fmt::Error>)
        requires
            flatjson.wf(),
            flatjson.describes(*row),
            row.value is OpenContainer,
            available_space - comma_columns(self.preview_comma(*row)) >= isize::MIN,
        ensures
            emitted(
                old(buf).sink(),
                final(buf).sink(),
                r is Ok,
                self.container_preview_text(*flatjson, *row, available_space as int),
            ),
            r matches Ok(used) ==> used == columns(
                self.container_preview(*flatjson, *row, available_space as int),
            ) + comma_columns(self.shows_preview_comma(*row, available_space as int)),
    {
        let wants_comma = self.trailing_comma && (self.mode == Mode::Line || row.is_collapsed());
        // The comma is shown only if there is room for a preview before it.
        let comma = wants_comma && available_space >= 4;
        let ghost space = available_space as int;
        let ghost preview = self.container_preview(*flatjson, *row, space);
        let ghost mut p = begin(
            buf.sink(),
            self.container_preview_text(*flatjson, *row, space),
        );
        proof {
            lemma_preview_fits(
                *flatjson,
                *row,
                space - comma_columns(wants_comma),
                self.mode is Line,
            );
        }
        if wants_comma {
            available_space = available_space - 1;
        }
        let ghost controls = text_if(!self.focused, self.tui.fg_color_text(DIMMED));
        let ghost before = buf.sink();
        let r = if !self.focused {
            self.tui.fg_color(buf, DIMMED)
        } else {
            Ok(())
        };
        proof {
            lemma_emitted_nothing(before);
            regroup3(controls, preview, self.comma_text(comma));
            p = advance(p, buf.sink(), r is Ok, controls, preview + self.comma_text(comma));
        }
        r?;
        let quoted_object_keys = self.mode == Mode::Line;
        let r = Self::generate_container_preview(
            buf,
            flatjson,
            row,
            available_space,
            quoted_object_keys,
        );
        proof {
            p = advance(p, buf.sink(), r is Ok, preview, self.comma_text(comma));
        }
        let mut used_space: isize = r?;

        if comma {
            used_space = used_space + 1;
        }
        let r = self.print_comma(buf, comma);
        proof {
            finish(p, buf.sink(), r is Ok, self.comma_text(comma));
        }
        r?;
        Ok(used_space)
    }
}

/// Prints a text, with an ellipsis after it if it was cut, and with quotes around it if it is
/// quoted.
fn write_quoted<W: Write>(buf: &mut W, quoted: bool, text: &str, truncated: bool) -> (r:
    fmt::Result)
    ensures
        emitted(
            old(buf).sink(),
            final(buf).sink(),
            r is Ok,
            quote(quoted) + if truncated {
                text@ + seq!['…']
            } else {
                text@
            } + quote(quoted),
        ),
{
    let ghost shown = if truncated {
        text@ + seq!['…']
    } else {
        text@
    };
    let ghost ellipsis = text_if(truncated, seq!['…']);
    let ghost mut p = begin(buf.sink(), quote(quoted) + shown + quote(quoted));
    proof {
        assert(shown =~= text@ + ellipsis);
        regroup4(quote(quoted), text@, ellipsis, quote(quoted));
        regroup3(quote(quoted), text@, ellipsis);
    }
    let r = write_if(buf, quoted, '"');
    proof {
        p = advance(p, buf.sink(), r is Ok, quote(quoted), text@ + (ellipsis + quote(quoted)));
    }
    r?;
    let r = buf.write_str(text);
    proof {
        p = advance(p, buf.sink(), r is Ok, text@, ellipsis + quote(quoted));
    }
    r?;
    let r = write_if(buf, truncated, '…');
    proof {
        p = advance(p, buf.sink(), r is Ok, ellipsis, quote(quoted));
    }
    r?;
    let r = write_if(buf, quoted, '"');
    proof {
        finish(p, buf.sink(), r is Ok, quote(quoted));
    }
    r
}

/// Prints the key of an element that is being previewed, cut so that a column is left for the
/// value. Returns the columns that it takes.
fn fill_in_key_preview<W: Write>(
    buf: &mut W,
    key: &str,
    available_space: isize,
    quoted: bool,
) -> (r: Result<isize, fmt::Error>)
    requires
        available_space - 1 - quote_columns(quoted) - 2 >= min_columns(key@),
    ensures
        emitted(
            old(buf).sink(),
            final(buf).sink(),
            r is Ok,
            quoted_key(key@, available_space as int, quoted),
        ),
        r matches Ok(used) ==> used == columns(quoted_key(key@, available_space as int, quoted)),
{
    let ghost text = quoted_key(key@, available_space as int, quoted);
    let ghost mut p = begin(buf.sink(), text);
    let mut space_available_for_key: isize = available_space - 1;
    if quoted {
        space_available_for_key = space_available_for_key - 2;
    }
    space_available_for_key = space_available_for_key - 2;
    let ghost space = space_available_for_key as int;

    let mut key_ref = key;
    let mut key_truncated = false;
    let mut used_space: isize = 0;
    proof {
        lemma_separators();
        reveal_strlit("…");
        assert("…"@ =~= seq!['…']);
        lemma_min_columns_suffice(key@, space);
        lemma_ellipsized_fits(key@, space);
    }
    match truncate_right_to_fit(key, space_available_for_key, "…") {
        TruncationResult::NoTruncation(width) => {
            used_space = used_space + width;
        },
        TruncationResult::Truncated(key_prefix, width) => {
            used_space = used_space + width;
            key_ref = key_prefix;
            key_truncated = true;
            proof {
                lemma_columns_concat(key_prefix@, seq!['…']);
            }
        },
        // There is room for the shortest form of the key.
        TruncationResult::DoesntFit => {
            assert(false);
        },
    }
    assert(used_space == columns(ellipsized(key@, space)));

    let r = write_quoted(buf, quoted, key_ref, key_truncated);
    let ghost shown = quote(quoted) + ellipsized(key@, space) + quote(quoted);
    proof {
        lemma_columns_quoted(quoted, ellipsized(key@, space));
        p = advance(p, buf.sink(), r is Ok, shown, ": "@);
    }
    r?;
    if quoted {
        used_space = used_space + 2;
    }

    let r = buf.write_str(": ");
    proof {
        finish(p, buf.sink(), r is Ok, ": "@);
    }
    r?;
    Ok(used_space + 2)
}

/// Previews of containers.
impl<'a, TUI: TUIControl> LinePrinter<'a, TUI> {
    /// Prints the preview of a container: the elements, as many as there is room for, between its
    /// braces. Returns the columns that it takes: none, if it has no room.
    pub fn generate_container_preview<W: Write>(
        buf: &mut W,
        flatjson: &FlatJson,
        row: &Row,
        available_space: isize,
        quoted_object_keys: bool,
    ) -> (r: Result<isize, fmt::Error>)
        requires
            flatjson.wf(),
            flatjson.describes(*row),
            row.value is OpenContainer,
        ensures
            emitted(
                old(buf).sink(),
                final(buf).sink(),
                r is Ok,
                preview_text(*flatjson, *row, available_space as int, quoted_object_keys),
            ),
            r matches Ok(used) ==> used == columns(
                preview_text(*flatjson, *row, available_space as int, quoted_object_keys),
            ),
        decreases weight(*flatjson, row.spec_first_child()), 1int,
    {
        let ghost text = preview_text(*flatjson, *row, available_space as int, quoted_object_keys);
        let ghost mut p = begin(buf.sink(), text);
        proof {
            lemma_preview_fits(*flatjson, *row, available_space as int, quoted_object_keys);
        }

        // Minimum amount of space required == 3: […]
        if available_space < 3 {
            return Ok(0);
        }
        let container_type = row.value.container_type().unwrap();
        let ghost open = seq![container_type.spec_open_char()];
        let ghost close = seq![container_type.spec_close_char()];
        let mut remaining: isize = available_space - 2;
        let mut num_printed: isize = 0;

        let r = buf.write_char(container_type.open_char());
        proof {
            lemma_columns_one(container_type.spec_open_char());
            lemma_columns_one(container_type.spec_close_char());
            regroup3(
                open,
                elements_text(
                    *flatjson,
                    row.spec_first_child(),
                    available_space - 2,
                    quoted_object_keys,
                    true,
                ),
                close,
            );
            p = advance(
                p,
                buf.sink(),
                r is Ok,
                open,
                elements_text(
                    *flatjson,
                    row.spec_first_child(),
                    available_space - 2,
                    quoted_object_keys,
                    true,
                ) + close,
            );
        }
        r?;
        num_printed = num_printed + 1;

        let mut next_sibling = row.first_child();
        let mut is_first_child: bool = true;
        loop
            invariant_except_break
                next_sibling matches OptionIndex::Index(index) ==> flatjson.has_element(index),
                next_sibling is Index ==> remaining >= 1,
                p.left == elements_text(
                    *flatjson,
                    next_sibling,
                    remaining as int,
                    quoted_object_keys,
                    is_first_child,
                ) + close,
                next_sibling is Index ==> weight(*flatjson, next_sibling) <= weight(
                    *flatjson,
                    row.spec_first_child(),
                ),
            invariant
                flatjson.wf(),
                p.ok(),
                p.now == buf.sink(),
                p.start == old(buf).sink(),
                p.total() == text,
                text == preview_text(
                    *flatjson,
                    *row,
                    available_space as int,
                    quoted_object_keys,
                ),
                num_printed == columns(p.done),
                columns(text) <= isize::MAX,
            ensures
                p.left == close,
            decreases weight(*flatjson, next_sibling),
        {
            let child = match next_sibling {
                OptionIndex::Nil => {
                    assert(p.left =~= close);
                    break;
                },
                OptionIndex::Index(child) => child,
            };
            let element = flatjson.row(child);
            next_sibling = element.next_sibling;

            // If there are still more elements, we'll print out ", …" at the end.
            let space_needed_at_end_of_container: isize = if next_sibling.is_some() {
                3
            } else {
                0
            };
            let space_available_for_elem: isize = remaining
                - space_needed_at_end_of_container;
            let is_only_child = is_first_child && next_sibling.is_nil();
            let ghost shown = element_text(
                *flatjson,
                *element,
                space_available_for_elem as int,
                quoted_object_keys,
                is_only_child,
            );
            let ghost rest = elements_text(
                *flatjson,
                next_sibling,
                remaining - columns(shown) - 2,
                quoted_object_keys,
                false,
            );
            let ghost tail = if columns(shown) == 0 {
                seq!['…']
            } else {
                ", "@ + rest
            };
            let ghost ends = columns(shown) != 0 && next_sibling is Nil;
            proof {
                lemma_separators();
                lemma_element_fits(
                    *flatjson,
                    *element,
                    space_available_for_elem as int,
                    quoted_object_keys,
                    is_only_child,
                );
                regroup3(shown, tail, close);
                regroup3(", "@, rest, close);
            }

            let r = Self::fill_in_container_elem_preview(
                buf,
                flatjson,
                element,
                space_available_for_elem,
                quoted_object_keys,
                is_only_child,
            );
            proof {
                p = advance(
                    p,
                    buf.sink(),
                    r is Ok,
                    shown,
                    if ends {
                        close
                    } else {
                        tail + close
                    },
                );
            }
            let used_space: isize = r?;

            if used_space == 0 {
                // No room for anything else, let's close out the object. If we're not the first
                // child, the previous elem will have printed the ", " separator.
                let r = buf.write_char('…');
                proof {
                    p = advance(p, buf.sink(), r is Ok, seq!['…'], close);
                }
                r?;
                num_printed = num_printed + 1;
                break;
            } else if next_sibling.is_some() {
                // Successfully printed elem out, let's print a separator.
                let r = buf.write_str(", ");
                proof {
                    p = advance(p, buf.sink(), r is Ok, ", "@, rest + close);
                }
                r?;
                remaining = remaining - 2;
                num_printed = num_printed + 2;
            }
            remaining = remaining - used_space;
            num_printed = num_printed + used_space;
            is_first_child = false;
        }

        let r = buf.write_char(container_type.close_char());
        proof {
            finish(p, buf.sink(), r is Ok, close);
        }
        r?;
        Ok(num_printed + 1)
    }

    /// Prints an element of a container that is being previewed: its key, if it has one, and its
    /// value. Returns the columns that it takes: none, if it has no room.
    fn fill_in_container_elem_preview<W: Write>(
        buf: &mut W,
        flatjson: &FlatJson,
        row: &Row,
        mut available_space: isize,
        quoted_object_keys: bool,
        is_only_child: bool,
    ) -> (r: Result<isize, fmt::Error>)
        requires
            flatjson.wf(),
            flatjson.describes(*row),
            !(row.value is CloseContainer),
        ensures
            emitted(
                old(buf).sink(),
                final(buf).sink(),
                r is Ok,
                element_text(
                    *flatjson,
                    *row,
                    available_space as int,
                    quoted_object_keys,
                    is_only_child,
                ),
            ),
            r matches Ok(used) ==> used == columns(
                element_text(
                    *flatjson,
                    *row,
                    available_space as int,
                    quoted_object_keys,
                    is_only_child,
                ),
            ),
        decreases weight(*flatjson, row.spec_first_child()), 3int,
    {
        let ghost space = available_space as int;
        let ghost text = element_text(*flatjson, *row, space, quoted_object_keys, is_only_child);
        let ghost mut p = begin(buf.sink(), text);
        proof {
            lemma_separators();
            lemma_element_fits(*flatjson, *row, space, quoted_object_keys, is_only_child);
        }

        // One character required for the value.
        let mut required_characters: i128 = 1;
        let mut quoted_object_key = quoted_object_keys;
        let key_ref = flatjson.key(row);
        if let Some(key) = key_ref {
            if quoted_object_keys || !is_js_identifier(key) {
                required_characters = required_characters + 2;
                quoted_object_key = true;
            }
            // Need to display the key
            required_characters = required_characters + min_required_columns_for_str(key);
            // Two characters required for the ": "
            required_characters = required_characters + 2;
        }
        if (available_space as i128) < required_characters {
            return Ok(0);
        }
        // Let's print out the object key
        let key = match key_ref {
            Some(key) => key,
            None => {
                return Self::fill_in_elem_value_preview(
                    buf,
                    flatjson,
                    row,
                    available_space,
                    quoted_object_keys,
                    is_only_child,
                );
            },
        };
        let ghost label = key_label(key@, space, quoted_object_keys);
        let ghost value = element_value_text(
            *flatjson,
            *row,
            space - columns(label),
            quoted_object_keys,
            is_only_child,
        );
        let ghost tail = text_if(columns(value) == 0, seq!['…']);
        proof {
            lemma_key_label_fits(key@, space, quoted_object_keys);
            regroup3(label, value, tail);
        }
        let r = fill_in_key_preview(buf, key, available_space, quoted_object_key);
        proof {
            p = advance(p, buf.sink(), r is Ok, label, value + tail);
        }
        let mut used_space: isize = r?;
        available_space = available_space - used_space;

        let r = Self::fill_in_elem_value_preview(
            buf,
            flatjson,
            row,
            available_space,
            quoted_object_keys,
            is_only_child,
        );
        proof {
            p = advance(p, buf.sink(), r is Ok, value, tail);
        }
        let space_used_for_value: isize = r?;
        used_space = used_space + space_used_for_value;

        // Make sure to print out ellipsis for the value if we printed out an object key, but
        // couldn't print out the value. Space was already allocated for this at the start of the
        // function.
        let r = write_if(buf, space_used_for_value == 0, '…');
        proof {
            finish(p, buf.sink(), r is Ok, tail);
        }
        r?;
        if space_used_for_value == 0 {
            used_space = used_space + 1;
        }
        Ok(used_space)
    }

    /// Prints the value of an element that is being previewed: a preview of it, if it is a
    /// container and the only element. Returns the columns that it takes: none, if it has no room.
    fn fill_in_elem_value_preview<W: Write>(
        buf: &mut W,
        flatjson: &FlatJson,
        row: &Row,
        available_space: isize,
        quoted_object_keys: bool,
        is_only_child: bool,
    ) -> (r: Result<isize, fmt::Error>)
        requires
            flatjson.wf(),
            flatjson.describes(*row),
            !(row.value is CloseContainer),
        ensures
            emitted(
                old(buf).sink(),
                final(buf).sink(),
                r is Ok,
                element_value_text(
                    *flatjson,
                    *row,
                    available_space as int,
                    quoted_object_keys,
                    is_only_child,
                ),
            ),
            r matches Ok(used) ==> used == columns(
                element_value_text(
                    *flatjson,
                    *row,
                    available_space as int,
                    quoted_object_keys,
                    is_only_child,
                ),
            ),
        decreases weight(*flatjson, row.spec_first_child()), 2int,
    {
        if is_only_child && row.value.is_container() {
            Self::generate_container_preview(
                buf,
                flatjson,
                row,
                available_space,
                quoted_object_keys,
            )
        } else {
            Self::fill_in_value_preview(buf, flatjson, row, available_space)
        }
    }

    /// Prints a value in a preview. Returns the columns that it takes: none, if it has no room.
    fn fill_in_value_preview<W: Write>(
        buf: &mut W,
        flatjson: &FlatJson,
        row: &Row,
        mut available_space: isize,
    ) -> (r: Result<isize, fmt::Error>)
        requires
            flatjson.describes(*row),
            !(row.value is CloseContainer),
        ensures
            emitted(
                old(buf).sink(),
                final(buf).sink(),
                r is Ok,
                value_preview_text(*flatjson, *row, available_space as int),
            ),
            r matches Ok(used) ==> used == columns(
                value_preview_text(*flatjson, *row, available_space as int),
            ),
    {
        let ghost text = value_preview_text(*flatjson, *row, available_space as int);
        proof {
            lemma_emitted_nothing(buf.sink());
            lemma_separators();
            lemma_value_preview_fits(*flatjson, *row, available_space as int);
            reveal_strlit("…");
            assert("…"@ =~= seq!['…']);
        }
        let mut quoted = false;
        let mut can_be_truncated = true;

        let mut value_ref: &str = match &row.value {
            Value::OpenContainer { container_type, .. } => {
                can_be_truncated = false;
                container_type.collapsed_preview()
            },
            Value::String => {
                quoted = true;
                str_piece(flatjson.1.as_str(), row.range.start + 1, row.range.end - 1)
            },
            _ => str_piece(flatjson.1.as_str(), row.range.start, row.range.end),
        };
        let ghost value = value_ref@;
        assert(value == flatjson.value_text(*row));

        let mut required_characters: i128 = min_required_columns_for_str(value_ref);
        if quoted {
            required_characters = required_characters + 2;
        }
        if (available_space as i128) < required_characters {
            return Ok(0);
        }
        if quoted {
            available_space = available_space - 2;
        }
        let mut value_truncated = false;
        let mut used_space: isize = if quoted {
            2
        } else {
            0
        };

        match truncate_right_to_fit(value_ref, available_space, "…") {
            TruncationResult::NoTruncation(width) => {
                used_space = used_space + width;
            },
            TruncationResult::Truncated(value_prefix, width) => {
                if can_be_truncated {
                    proof {
                        lemma_columns_concat(value_prefix@, seq!['…']);
                    }
                    used_space = used_space + width;
                    value_ref = value_prefix;
                    value_truncated = true;
                } else {
                    return Ok(0);
                }
            },
            TruncationResult::DoesntFit => {
                proof {
                    lemma_min_columns_suffice(value_ref@, available_space as int);
                }
                return Ok(0);
            },
        }
        proof {
            lemma_columns_quoted(quoted, ellipsized(value, available_space as int));
        }
        write_quoted(buf, quoted, value_ref, value_truncated)?;
        Ok(used_space)
    }
}

} // verus!
