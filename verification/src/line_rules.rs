//! What a line looks like: its label, its value, its marks, and how they stand side by side.
//!
//! Each rule says of every line what is printed for it, in terms of what the line holds.
use vstd::prelude::*;
use vstd::std_specs::hash::EntrySpecFns;

use crate::columns::{columns, group_columns};
use crate::flatjson::{ContainerType, FlatJson, Row, Value};
use crate::lineprinter::{container_mark, LineLabel, LinePrinter, LineValue};
use crate::preview::{lemma_preview_fits, lemma_separators, preview_text};
use crate::text::{byte_len, is_piece, lemma_byte_len_positive, piece};
use crate::truncate::{ellipsized, lemma_ellipsized_fits, lemma_longest_prefix, longest_prefix};
use crate::tuicontrol::{Color, TUIControl};
use crate::viewer::Mode;

verus! {

/// The label for a key. It has quotes around it exactly in line mode and where the key is not an
/// identifier: a letter, `_` or `$`, and after that only these and digits. It is whole where it
/// leaves a column for the value, with the colon and the space counted, and is otherwise cut so
/// that it does. There is no label where not even an ellipsis for the key leaves that column.
pub proof fn lemma_key_label<'a, TUI: TUIControl>(
    line: LinePrinter<'a, TUI>,
    key: &'a str,
    space: int,
)
    requires
        line.label == Some(LineLabel::Key { key }),
    ensures
        ({
            let bare = line.mode is Data && key@.len() > 0 && (forall|i: int|
                0 <= i < key@.len() ==> {
                    ||| #[trigger] key@[i] == '_'
                    ||| key@[i] == '$'
                    ||| 'a' <= key@[i] && key@[i] <= 'z'
                    ||| 'A' <= key@[i] && key@[i] <= 'Z'
                    ||| i > 0 && '0' <= key@[i] && key@[i] <= '9'
                });
            let around = if bare {
                0int
            } else {
                2
            };
            let room = space - around - 3;
            let style = if line.focused {
                line.tui.fg_color_text(Color::Blue) + line.tui.bg_color_text(Color::LightWhite)
            } else {
                line.tui.fg_color_text(Color::LightBlue)
            };
            let end = line.tui.reset_style_text() + seq![':', ' '];
            let shown = if columns(key@) <= room {
                key@
            } else {
                ellipsized(key@, room)
            };
            &&& columns(key@) <= room || room >= 1 ==> {
                &&& bare ==> line.label_text(space) == style + shown + end
                &&& !bare ==> line.label_text(space) == style + seq!['"'] + shown + seq!['"'] + end
                &&& line.label_columns(space) == around + columns(shown) + 2
                &&& line.label_columns(space) < space
            }
            &&& columns(key@) > room && room < 1 ==> {
                &&& line.label_text(space).len() == 0
                &&& line.label_columns(space) == 0
            }
        }),
{
    broadcast use group_columns;

    lemma_separators();
    reveal_strlit(": ");
    line.lemma_label_leaves_room(space);
    assert(": "@ =~= seq![':', ' ']);
    if let Some(shown) = line.label_shown(space) {
        let room = line.label_room(line.label->0, space);
        let text = ellipsized(key@, room);
        let style = if line.focused {
            line.tui.fg_color_text(Color::Blue) + line.tui.bg_color_text(Color::LightWhite)
        } else {
            line.tui.fg_color_text(Color::LightBlue)
        };
        let end = line.tui.reset_style_text() + seq![':', ' '];
        assert(style + Seq::<char>::empty() =~= style);
        assert(line.label_controls(line.label->0) =~= style);
        if shown == Seq::<char>::empty() + text + Seq::<char>::empty() {
            assert(line.label_text(space) =~= style + text + end);
        }
        if shown == seq!['"'] + text + seq!['"'] {
            assert(line.label_text(space) =~= style + seq!['"'] + text + seq!['"'] + end);
        }
    }
}

/// The label for an index stands in brackets, in either mode. It is cut and left out as a key is.
pub proof fn lemma_index_label<'a, TUI: TUIControl>(
    line: LinePrinter<'a, TUI>,
    index: &'a str,
    space: int,
)
    requires
        line.label == Some(LineLabel::Index { index }),
    ensures
        ({
            let room = space - 5;
            let style = if line.focused {
                line.tui.bold_text()
            } else {
                line.tui.fg_color_text(Color::LightBlack)
            };
            let end = line.tui.reset_style_text() + seq![':', ' '];
            let shown = if columns(index@) <= room {
                index@
            } else {
                ellipsized(index@, room)
            };
            &&& columns(index@) <= room || room >= 1 ==> {
                &&& line.label_text(space) == style + seq!['['] + shown + seq![']'] + end
                &&& line.label_columns(space) == columns(shown) + 4
                &&& line.label_columns(space) < space
            }
            &&& columns(index@) > room && room < 1 ==> {
                &&& line.label_text(space).len() == 0
                &&& line.label_columns(space) == 0
            }
        }),
{
    broadcast use group_columns;

    lemma_separators();
    reveal_strlit(": ");
    line.lemma_label_leaves_room(space);
    assert(": "@ =~= seq![':', ' ']);
    if line.label_shown(space) is Some {
        let room = line.label_room(line.label->0, space);
        let text = ellipsized(index@, room);
        let style = if line.focused {
            line.tui.bold_text()
        } else {
            line.tui.fg_color_text(Color::LightBlack)
        };
        let end = line.tui.reset_style_text() + seq![':', ' '];
        assert(line.label_controls(line.label->0) =~= style);
        assert(line.label_text(space) =~= style + seq!['['] + text + seq![']'] + end);
    }
}

/// A line without a label has nothing before its value, and all columns for it.
pub proof fn lemma_no_label<'a, TUI: TUIControl>(line: LinePrinter<'a, TUI>, space: int)
    requires
        line.label is None,
    ensures
        line.label_text(space).len() == 0,
        line.label_columns(space) == 0,
{
}

/// A value of which no view was kept. It is whole where it fits with its quotes and its comma. It
/// is otherwise cut to the columns that these leave, and left out only where not even an ellipsis
/// fits there, or where it would be a lone ellipsis without quotes and comma.
pub proof fn lemma_plain_value<'a, TUI: TUIControl>(
    line: LinePrinter<'a, TUI>,
    s: &'a str,
    quotes: bool,
    color: Color,
    space: int,
)
    requires
        line.value == (LineValue::Value { s, quotes, color }),
        line.cached_formatted_value is None || line.cached_formatted_value->0.value() is None,
        byte_len(s@) <= usize::MAX,
        space <= isize::MAX,
    ensures
        ({
            let around = if quotes {
                2int
            } else {
                0
            };
            let after = if line.trailing_comma {
                1int
            } else {
                0
            };
            let room = space - around - after;
            let shown = if columns(s@) <= room {
                s@
            } else {
                ellipsized(s@, room)
            };
            let fits = columns(s@) <= room;
            let lone = !fits && shown == seq!['…'] && !quotes && !line.trailing_comma;
            let start = line.tui.fg_color_text(color);
            let comma = line.tui.reset_style_text() + seq![','];
            &&& (fits || room >= 1) && !lone ==> {
                &&& quotes && line.trailing_comma ==> line.value_text(space) == start + seq!['"']
                    + shown + seq!['"'] + comma
                &&& quotes && !line.trailing_comma ==> line.value_text(space) == start + seq!['"']
                    + shown + seq!['"']
                &&& !quotes && line.trailing_comma ==> line.value_text(space) == start + shown
                    + comma
                &&& !quotes && !line.trailing_comma ==> line.value_text(space) == start + shown
                &&& line.value_columns(space) == columns(shown) + around + after
                &&& line.value_columns(space) <= space
            }
            &&& !fits && room < 1 || lone ==> {
                &&& line.value_text(space).len() == 0
                &&& line.value_columns(space) == 0
            }
        }),
{
    broadcast use group_columns;

    let room = line.plain_room(quotes, space);
    let text = ellipsized(s@, room);
    let start = line.tui.fg_color_text(color);
    let comma = line.tui.reset_style_text() + seq![','];
    if columns(s@) <= room || room >= 1 {
        lemma_ellipsized_fits(s@, room);
        if columns(s@) > room {
            let prefix = longest_prefix(s@, room - 1);
            lemma_longest_prefix(s@, room - 1);
            if prefix.len() == 0 {
                assert(text =~= seq!['…']);
            } else {
                assert(text.len() > 1);
                lemma_byte_len_positive(prefix);
            }
        } else if s@.len() > 0 {
            lemma_byte_len_positive(s@);
        }
    }
    if line.shows_plain(s@, quotes, space) {
        let printed = line.value_text(space);
        if quotes && line.trailing_comma {
            assert(printed =~= start + seq!['"'] + text + seq!['"'] + comma);
        } else if quotes {
            assert(printed =~= start + seq!['"'] + text + seq!['"']);
        } else if line.trailing_comma {
            assert(printed =~= start + text + comma);
        } else {
            assert(printed =~= start + text);
        }
    }
}

/// A quoted value is shown wherever a column is left beside its quotes and its comma.
pub proof fn lemma_quoted_value_shown<'a, TUI: TUIControl>(
    line: LinePrinter<'a, TUI>,
    s: &'a str,
    color: Color,
    space: int,
)
    requires
        line.value == (LineValue::Value { s, quotes: true, color }),
        line.cached_formatted_value is None || line.cached_formatted_value->0.value() is None,
        byte_len(s@) <= usize::MAX,
        3 <= space <= isize::MAX,
        line.trailing_comma ==> space >= 4,
    ensures
        line.value_columns(space) >= 2,
        line.trailing_comma ==> line.value_columns(space) >= 3,
        line.value_text(space).len() > 0,
{
    lemma_plain_value(line, s, true, color, space);
}

/// A value of which a view was kept is shown through that view, whatever room there is: the part
/// from one offset to the other, with an ellipsis on each side where there is more of it.
pub proof fn lemma_kept_value<'a, TUI: TUIControl>(
    line: LinePrinter<'a, TUI>,
    s: &'a str,
    quotes: bool,
    color: Color,
    space: int,
)
    requires
        line.value == (LineValue::Value { s, quotes, color }),
        line.cached_formatted_value is Some,
        line.cached_formatted_value->0.value() is Some,
    ensures
        ({
            let view = line.cached_formatted_value->0.value()->0;
            let start = line.tui.fg_color_text(color);
            let comma = line.tui.reset_style_text() + seq![','];
            match view.range {
                None => line.value_text(space).len() == 0 && line.value_columns(space) == 0,
                Some(range) => {
                    let part = piece(s@, range.start as int, range.end as int);
                    let before = if range.start > 0 {
                        seq!['…']
                    } else {
                        Seq::empty()
                    };
                    let after = if range.end < byte_len(s@) {
                        seq!['…']
                    } else {
                        Seq::empty()
                    };
                    let shown = before + part + after;
                    if range.start == range.end && range.used_space > 0 && !quotes
                        && !line.trailing_comma {
                        line.value_text(space).len() == 0 && line.value_columns(space) == 0
                    } else {
                        &&& quotes && line.trailing_comma ==> line.value_text(space) == start
                            + seq!['"'] + shown + seq!['"'] + comma && line.value_columns(space)
                            == range.used_space + 3
                        &&& quotes && !line.trailing_comma ==> line.value_text(space) == start
                            + seq!['"'] + shown + seq!['"'] && line.value_columns(space)
                            == range.used_space + 2
                        &&& !quotes && line.trailing_comma ==> line.value_text(space) == start
                            + shown + comma && line.value_columns(space) == range.used_space + 1
                        &&& !quotes && !line.trailing_comma ==> line.value_text(space) == start
                            + shown && line.value_columns(space) == range.used_space
                    }
                },
            }
        }),
{
    let view = line.cached_formatted_value->0.value()->0;
    let start = line.tui.fg_color_text(color);
    let comma = line.tui.reset_style_text() + seq![','];
    if line.shows_plain(s@, quotes, space) {
        let range = view.range->0;
        let part = piece(s@, range.start as int, range.end as int);
        let before = if range.start > 0 {
            seq!['…']
        } else {
            Seq::empty()
        };
        let after = if range.end < byte_len(s@) {
            seq!['…']
        } else {
            Seq::empty()
        };
        let shown = before + part + after;
        assert(view.shown(s@) =~= shown);
        let printed = line.value_text(space);
        if quotes && line.trailing_comma {
            assert(printed =~= start + seq!['"'] + shown + seq!['"'] + comma);
        } else if quotes {
            assert(printed =~= start + seq!['"'] + shown + seq!['"']);
        } else if line.trailing_comma {
            assert(printed =~= start + shown + comma);
        } else {
            assert(printed =~= start + shown);
        }
    }
}

/// The view that is kept of a value of which none was kept before is one of its beginning: all of
/// it, or as much as leaves a column for an ellipsis. One that was kept before stays.
pub proof fn lemma_view_kept<'a, TUI: TUIControl>(
    line: LinePrinter<'a, TUI>,
    s: &'a str,
    quotes: bool,
    color: Color,
    space: int,
)
    requires
        line.value == (LineValue::Value { s, quotes, color }),
        byte_len(s@) <= usize::MAX,
        space <= isize::MAX,
    ensures
        ({
            let around = if quotes {
                2int
            } else {
                0
            };
            let after = if line.trailing_comma {
                1int
            } else {
                0
            };
            let room = space - around - after;
            let kept = line.kept_view(space).range;
            if line.cached_formatted_value is None || line.cached_formatted_value->0.value()
                is None {
                if columns(s@) <= room {
                    kept matches Some(range) && range.start == 0 && range.end == byte_len(s@)
                        && range.used_space == columns(s@)
                } else if room >= 1 {
                    kept matches Some(range) && range.start == 0 && range.end == byte_len(
                        longest_prefix(s@, room - 1),
                    ) && range.used_space == columns(longest_prefix(s@, room - 1)) + 1
                } else {
                    kept is None
                }
            } else {
                line.kept_view(space) == line.cached_formatted_value->0.value()->0
            }
        }),
{
    broadcast use group_columns;

    let room = line.plain_room(quotes, space);
    lemma_separators();
    if columns(s@) <= room || room >= 1 {
        lemma_ellipsized_fits(s@, room);
    }
    if room >= 1 {
        lemma_longest_prefix(s@, room - 1);
    }
}

/// In line mode, an expanded container starts with its brace, if there is a column for it. A comma
/// belongs to its end.
pub proof fn lemma_expanded_start<'a, TUI: TUIControl>(
    line: LinePrinter<'a, TUI>,
    flatjson: &'a FlatJson,
    row: &'a Row,
    container_type: ContainerType,
    space: int,
)
    requires
        line.mode is Line,
        line.value == (LineValue::Container { flatjson, row }),
        row.value matches Value::OpenContainer { container_type: t, collapsed, .. } && t
            == container_type && !collapsed,
    ensures
        ({
            let brace = if container_type is Object {
                seq!['{']
            } else {
                seq!['[']
            };
            let bold = line.focused || line.focused_because_matching_container_pair;
            &&& space >= 1 && bold ==> line.value_text(space) == line.tui.bold_text() + brace
            &&& space >= 1 && !bold ==> line.value_text(space) == brace
            &&& space >= 1 ==> line.value_columns(space) == 1
            &&& space < 1 ==> line.value_text(space).len() == 0 && line.value_columns(space) == 0
        }),
{
    if space >= 1 {
        let brace = seq![container_type.spec_open_char()];
        if line.focused || line.focused_because_matching_container_pair {
            assert(line.value_text(space) =~= line.tui.bold_text() + brace);
        } else {
            assert(line.value_text(space) =~= brace);
        }
    }
}

/// The end of a container is its brace and the comma after it, if there are columns for both.
pub proof fn lemma_container_end<'a, TUI: TUIControl>(
    line: LinePrinter<'a, TUI>,
    flatjson: &'a FlatJson,
    row: &'a Row,
    container_type: ContainerType,
    space: int,
)
    requires
        line.value == (LineValue::Container { flatjson, row }),
        row.value matches Value::CloseContainer { container_type: t, .. } && t == container_type,
    ensures
        ({
            let brace = if container_type is Object {
                seq!['}']
            } else {
                seq![']']
            };
            let bold = if line.focused || line.focused_because_matching_container_pair {
                line.tui.bold_text()
            } else {
                Seq::empty()
            };
            let needed = if line.trailing_comma {
                2int
            } else {
                1
            };
            &&& space >= needed ==> {
                &&& line.trailing_comma ==> line.value_text(space) == bold + brace
                    + line.tui.reset_style_text() + seq![',']
                &&& !line.trailing_comma ==> line.value_text(space) == bold + brace
                &&& line.value_columns(space) == needed
            }
            &&& space < needed ==> {
                &&& line.value_text(space).len() == 0
                &&& line.value_columns(space) == 0
            }
        }),
{
    let brace = seq![container_type.spec_close_char()];
    let bold = line.brace_controls();
    if line.value_columns(space) > 0 {
        if line.trailing_comma {
            assert(line.value_text(space) =~= bold + brace + line.tui.reset_style_text()
                + seq![',']);
        } else {
            assert(line.value_text(space) =~= bold + brace);
        }
    }
}

/// In data mode, and where it is collapsed, a container is shown by a preview of it, dimmed unless
/// the line is focused. Its keys are all quoted in line mode, and in data mode only where they have
/// to be. A comma follows it in line mode, and in data mode if it is collapsed, and takes a column
/// of those that there are. There is none where no column is left for a preview before it.
pub proof fn lemma_container_preview<'a, TUI: TUIControl>(
    line: LinePrinter<'a, TUI>,
    flatjson: &'a FlatJson,
    row: &'a Row,
    collapsed: bool,
    space: int,
)
    requires
        line.value == (LineValue::Container { flatjson, row }),
        row.value matches Value::OpenContainer { collapsed: c, .. } && c == collapsed,
        line.mode is Data || collapsed,
        flatjson.wf(),
        flatjson.describes(*row),
    ensures
        ({
            let dimmed = if line.focused {
                Seq::empty()
            } else {
                line.tui.fg_color_text(Color::LightBlack)
            };
            let comma = line.trailing_comma && (line.mode == Mode::Line || collapsed);
            let preview = preview_text(
                *flatjson,
                *row,
                if comma {
                    space - 1
                } else {
                    space
                },
                line.mode == Mode::Line,
            );
            &&& comma && space >= 4 ==> {
                &&& line.value_text(space) == dimmed + preview + line.tui.reset_style_text()
                    + seq![',']
                &&& line.value_columns(space) == columns(preview) + 1
                &&& 4 <= line.value_columns(space) <= space
            }
            &&& !comma && space >= 3 ==> {
                &&& line.value_text(space) == dimmed + preview
                &&& line.value_columns(space) == columns(preview)
                &&& 3 <= line.value_columns(space) <= space
            }
            &&& space < 3 || (comma && space < 4) ==> {
                &&& line.value_text(space) == dimmed
                &&& line.value_columns(space) == 0
            }
        }),
{
    broadcast use group_columns;

    let comma = line.trailing_comma && (line.mode == Mode::Line || collapsed);
    let room = if comma {
        space - 1
    } else {
        space
    };
    let dimmed = if line.focused {
        Seq::empty()
    } else {
        line.tui.fg_color_text(Color::LightBlack)
    };
    let preview = preview_text(*flatjson, *row, room, line.mode == Mode::Line);
    lemma_preview_fits(*flatjson, *row, room, line.mode == Mode::Line);
    if comma && space >= 4 {
        assert(line.value_text(space) =~= dimmed + preview + line.tui.reset_style_text()
            + seq![',']);
    } else {
        assert(line.value_text(space) =~= dimmed + preview);
        assert(room < 3 ==> dimmed + preview =~= dimmed);
    }
}

/// A line in data mode starts with a reset of the style and, where it is the start of a container,
/// object or array, and the screen reaches beyond its indentation, with the mark for a container in
/// its state, in the two columns before the label. It then goes on at the label. Any other line has
/// no mark.
pub proof fn lemma_data_line_start<'a, TUI: TUIControl>(line: LinePrinter<'a, TUI>)
    requires
        line.mode is Data,
    ensures
        ({
            let indentation = line.depth * line.tab_size;
            let reset = line.tui.reset_style_text();
            let label_column = line.tui.position_cursor_text(
                ((3 + indentation) % 0x10000) as u16,
            );
            let mark_column = line.tui.position_cursor_text(
                ((1 + indentation) % 0x10000) as u16,
            );
            let room = (line.width as isize) - ((2 + indentation) as usize as isize);
            let rest = line.label_text(room) + line.after_label_text();
            match line.value {
                LineValue::Container { row, .. } => {
                    let collapsed = match row.value {
                        Value::OpenContainer { collapsed, .. } => collapsed,
                        Value::CloseContainer { collapsed, .. } => collapsed,
                        _ => false,
                    };
                    let mark = if line.focused {
                        if collapsed {
                            seq!['▶', ' ']
                        } else {
                            seq!['▼', ' ']
                        }
                    } else {
                        if collapsed {
                            seq!['▷', ' ']
                        } else {
                            seq!['▽', ' ']
                        }
                    };
                    &&& line.width > 2 + indentation ==> line.line_text() == reset + mark_column
                        + mark + label_column + rest
                    &&& line.width <= 2 + indentation ==> line.line_text() == reset + label_column
                        + rest
                },
                LineValue::Value { .. } => line.line_text() == reset + label_column + rest,
            }
        }),
{
    reveal_strlit("▶ ");
    reveal_strlit("▼ ");
    reveal_strlit("▷ ");
    reveal_strlit("▽ ");
    assert("▶ "@ =~= seq!['▶', ' ']);
    assert("▼ "@ =~= seq!['▼', ' ']);
    assert("▷ "@ =~= seq!['▷', ' ']);
    assert("▽ "@ =~= seq!['▽', ' ']);
    let reset = line.tui.reset_style_text();
    let label_column = line.tui.position_cursor_text(
        ((3 + line.depth * line.tab_size) % 0x10000) as u16,
    );
    let rest = line.label_text(line.line_room()) + line.after_label_text();
    let mark = line.mark_text();
    assert(line.line_text() =~= reset + mark + label_column + rest);
    if mark.len() == 0 {
        assert(line.line_text() =~= reset + label_column + rest);
    } else if let LineValue::Container { row, .. } = line.value {
        let sign = container_mark(line.focused, row.value.spec_collapsed());
        let mark_column = line.tui.position_cursor_text(
            ((1 + line.depth * line.tab_size) % 0x10000) as u16,
        );
        if line.width > 2 + line.depth * line.tab_size {
            assert(line.line_text() =~= reset + mark_column + sign + label_column + rest);
        }
    }
}

/// A line in line mode starts with a reset of the style and, if it is focused, with the mark for
/// that in the first two columns. It then goes on at the label.
pub proof fn lemma_line_mode_start<'a, TUI: TUIControl>(line: LinePrinter<'a, TUI>)
    requires
        line.mode is Line,
    ensures
        ({
            let indentation = line.depth * line.tab_size;
            let reset = line.tui.reset_style_text();
            let label_column = line.tui.position_cursor_text(
                ((3 + indentation) % 0x10000) as u16,
            );
            let room = (line.width as isize) - ((2 + indentation) as usize as isize);
            let rest = line.label_text(room) + line.after_label_text();
            &&& line.focused ==> line.line_text() == reset + line.tui.position_cursor_text(1)
                + seq!['▶', ' '] + label_column + rest
            &&& !line.focused ==> line.line_text() == reset + label_column + rest
        }),
{
    reveal_strlit("▶ ");
    assert("▶ "@ =~= seq!['▶', ' ']);
    let reset = line.tui.reset_style_text();
    let label_column = line.tui.position_cursor_text(
        ((3 + line.depth * line.tab_size) % 0x10000) as u16,
    );
    let rest = line.label_text(line.line_room()) + line.after_label_text();
    if line.focused {
        assert(line.line_text() =~= reset + line.tui.position_cursor_text(1) + seq!['▶', ' ']
            + label_column + rest);
    } else {
        assert(line.line_text() =~= reset + label_column + rest);
    }
}

/// After the label comes the value, in the columns that the label leaves. Where it takes none of
/// them, or where there was no room for the label, a `>` stands in the last column of the screen,
/// bold on a focused line and dimmed on any other.
pub proof fn lemma_line_rest<'a, TUI: TUIControl>(line: LinePrinter<'a, TUI>)
    ensures
        ({
            let room = (line.width as isize) - ((2 + line.depth * line.tab_size) as usize as isize);
            let used = line.label_columns(room);
            let style = if line.focused {
                line.tui.reset_style_text() + line.tui.bold_text()
            } else {
                line.tui.fg_color_text(Color::LightBlack)
            };
            let sign = line.tui.position_cursor_text((line.width % 0x10000) as u16) + style
                + seq!['>'];
            let value = line.value_text(room - used);
            if line.label is Some && used == 0 {
                line.after_label_text() == sign
            } else if line.value_columns(room - used) == 0 {
                line.after_label_text() == value + sign
            } else {
                line.after_label_text() == value
            }
        }),
{
    reveal_strlit(">");
    assert(">"@ =~= seq!['>']);
    let value = line.value_text(line.value_room());
    assert(value + Seq::<char>::empty() =~= value);
}

/// Printing a line changes nothing of it but that the place for the view of its value is used up,
/// if the line has a value that is not a container and there is room to come to it.
pub proof fn lemma_print_keeps_line<'a, TUI: TUIControl>(line: LinePrinter<'a, TUI>)
    ensures
        ({
            let room = (line.width as isize) - ((2 + line.depth * line.tab_size) as usize as isize);
            if line.value is Value && (line.label is None || line.label_columns(room) != 0) {
                line.after_line() == (LinePrinter { cached_formatted_value: None, ..line })
            } else {
                line.after_line() == line
            }
        }),
{
}

/// A label and a value can be printed in any number of columns from which those for what stands
/// around them can be taken off.
pub proof fn lemma_parts_ready<'a, TUI: TUIControl>(line: LinePrinter<'a, TUI>, space: int)
    requires
        space >= isize::MIN + 5,
        match line.value {
            LineValue::Value { s, .. } => {
                ||| line.cached_formatted_value is None
                ||| line.cached_formatted_value->0.value() is None
            },
            LineValue::Container { flatjson, row } => {
                &&& flatjson.wf()
                &&& flatjson.describes(*row)
                &&& row.value is OpenContainer
            },
        },
    ensures
        line.label_ready(space),
        line.value_ready(space),
{
}

/// A line can be printed if its width and its indentation can be counted, and if it holds a plain
/// value of which no view was kept.
pub proof fn lemma_plain_line_ready<'a, TUI: TUIControl>(line: LinePrinter<'a, TUI>)
    requires
        line.width <= isize::MAX,
        0 <= line.depth * line.tab_size <= isize::MAX - 8,
        line.value is Value,
        line.cached_formatted_value is None || line.cached_formatted_value->0.value() is None,
    ensures
        line.line_ready(),
{
}

/// A line can be printed if its width and its indentation can be counted, and if it holds the start
/// of a container of a well-formed document, or, in line mode, the end of an expanded one.
pub proof fn lemma_container_line_ready<'a, TUI: TUIControl>(
    line: LinePrinter<'a, TUI>,
    flatjson: &'a FlatJson,
    row: &'a Row,
)
    requires
        line.width <= isize::MAX,
        0 <= line.depth * line.tab_size <= isize::MAX - 8,
        line.value == (LineValue::Container { flatjson, row }),
        flatjson.wf(),
        flatjson.describes(*row),
        row.value is OpenContainer || (line.mode is Line && (row.value matches
            Value::CloseContainer { collapsed, .. } && !collapsed)),
    ensures
        line.line_ready(),
{
}

/// A view that was kept can be used again wherever it is one of the value and its columns can be
/// counted.
pub proof fn lemma_kept_line_ready<'a, TUI: TUIControl>(
    line: LinePrinter<'a, TUI>,
    s: &'a str,
    quotes: bool,
    color: Color,
)
    requires
        line.width <= isize::MAX,
        0 <= line.depth * line.tab_size <= isize::MAX - 8,
        line.value == (LineValue::Value { s, quotes, color }),
        line.cached_formatted_value is Some,
        line.cached_formatted_value->0.value() matches Some(view) && (view.range matches Some(range)
            ==> range.used_space <= isize::MAX - 3 && is_piece(
            s@,
            range.start as int,
            range.end as int,
        )),
    ensures
        line.line_ready(),
{
}

} // verus!
