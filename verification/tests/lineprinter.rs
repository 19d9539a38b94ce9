//! Lines, labels, values and previews as they are printed.
use std::collections::hash_map::Entry;
use std::collections::HashMap;
use std::fmt;
use std::ops::Range;

use unicode_width::UnicodeWidthStr;

use lineprinter::flatjson::{ContainerType, FlatJson, OptionIndex, Row, Value};
use lineprinter::identifier::is_js_identifier;
use lineprinter::lineprinter::{
    LabelStyle, LineLabel, LinePrinter, LineValue, COLLAPSED_CONTAINER, DIMMED, EXPANDED_CONTAINER,
    FOCUSED_COLLAPSED_CONTAINER, FOCUSED_EXPANDED_CONTAINER, FOCUSED_LABEL_BG_COLOR,
    FOCUSED_LABEL_COLOR, FOCUSED_LINE, LABEL_COLOR,
};
use lineprinter::output::{write_if, Sink, Write};
use lineprinter::text::{str_bytes, str_piece};
use lineprinter::truncate::{
    fit_clusters, min_required_columns_for_str, required_columns_for_clusters,
    truncate_right_to_fit, TruncationResult,
};
use lineprinter::truncatedstrview::{TruncatedRange, TruncatedStrSlice, TruncatedStrView};
use lineprinter::tuicontrol::{Color, EmptyControl, TUIControl, VisibleEscapes};
use lineprinter::viewer::Mode;

const OBJECT: &'static str = r#"{
        "1": 1,
        "2": [
            3,
            "4"
        ],
        "6": {
            "7": null,
            "8": true,
            "9": 9
        },
        "11": 11
    }"#;

/// Reads JSON into rows. The text of the document is made up of its keys and values only.
struct Parser<'a> {
    json: &'a str,
    position: usize,
    rows: Vec<Row>,
    text: String,
}

impl<'a> Parser<'a> {
    fn peek(&mut self) -> Option<u8> {
        let bytes = self.json.as_bytes();
        while self.position < bytes.len() && bytes[self.position].is_ascii_whitespace() {
            self.position += 1;
        }
        bytes.get(self.position).copied()
    }

    fn expect(&mut self, byte: u8) -> Result<(), String> {
        if self.peek() == Some(byte) {
            self.position += 1;
            Ok(())
        } else {
            Err(format!("expected {} at {}", byte as char, self.position))
        }
    }

    fn string(&mut self) -> Result<Range<usize>, String> {
        self.expect(b'"')?;
        let bytes = self.json.as_bytes();
        let start = self.position - 1;
        while self.position < bytes.len() && bytes[self.position] != b'"' {
            self.position += if bytes[self.position] == b'\\' { 2 } else { 1 };
        }
        self.expect(b'"')?;
        Ok(self.add_text(start, self.position))
    }

    fn add_text(&mut self, start: usize, end: usize) -> Range<usize> {
        let from = self.text.len();
        self.text.push_str(&self.json[start..end]);
        from..self.text.len()
    }

    fn add_row(
        &mut self,
        key_range: Option<Range<usize>>,
        range: Range<usize>,
        value: Value,
    ) -> usize {
        self.rows.push(Row {
            next_sibling: OptionIndex::Nil,
            range,
            key_range,
            value,
        });
        self.rows.len() - 1
    }

    fn value(&mut self, key_range: Option<Range<usize>>) -> Result<usize, String> {
        match self.peek() {
            Some(b'{') => self.container(key_range, ContainerType::Object, b'}'),
            Some(b'[') => self.container(key_range, ContainerType::Array, b']'),
            Some(b'"') => {
                let range = self.string()?;
                Ok(self.add_row(key_range, range, Value::String))
            }
            Some(byte) => {
                let value = match byte {
                    b'n' => Value::Null,
                    b't' | b'f' => Value::Boolean,
                    _ => Value::Number,
                };
                let bytes = self.json.as_bytes();
                let start = self.position;
                while self.position < bytes.len()
                    && (bytes[self.position].is_ascii_alphanumeric()
                        || b"+-.".contains(&bytes[self.position]))
                {
                    self.position += 1;
                }
                let range = self.add_text(start, self.position);
                Ok(self.add_row(key_range, range, value))
            }
            None => Err("unexpected end".to_owned()),
        }
    }

    fn container(
        &mut self,
        key_range: Option<Range<usize>>,
        container_type: ContainerType,
        close: u8,
    ) -> Result<usize, String> {
        self.position += 1;
        let start = self.text.len();
        self.text.push(container_type.open_char());
        if self.peek() == Some(close) {
            self.position += 1;
            self.text.push(container_type.close_char());
            let value = match container_type {
                ContainerType::Object => Value::EmptyObject,
                ContainerType::Array => Value::EmptyArray,
            };
            return Ok(self.add_row(key_range, start..start + 2, value));
        }
        let open_index = self.add_row(key_range, start..start + 1, Value::Null);
        let mut previous: Option<usize> = None;
        loop {
            let key = match container_type {
                ContainerType::Object => {
                    let key = self.string()?;
                    self.expect(b':')?;
                    Some(key)
                }
                ContainerType::Array => None,
            };
            let child = self.value(key)?;
            if let Some(previous) = previous {
                self.rows[previous].next_sibling = OptionIndex::Index(child);
            }
            previous = Some(child);
            if self.peek() == Some(b',') {
                self.position += 1;
            } else {
                break;
            }
        }
        self.expect(close)?;
        let close_start = self.text.len();
        self.text.push(container_type.close_char());
        let close_index = self.add_row(
            None,
            close_start..close_start + 1,
            Value::CloseContainer {
                container_type,
                collapsed: false,
                open_index,
            },
        );
        self.rows[open_index].value = Value::OpenContainer {
            container_type,
            collapsed: false,
            first_child: open_index + 1,
            close_index,
        };
        Ok(open_index)
    }
}

fn parse_top_level_json2(json: String) -> Result<FlatJson, String> {
    let mut parser = Parser {
        json: &json,
        position: 0,
        rows: Vec::new(),
        text: String::new(),
    };
    parser.value(None)?;
    Ok(FlatJson(parser.rows, parser.text))
}

fn default_line<'a, TUI: Default + TUIControl>() -> LinePrinter<'a, TUI> {
    LinePrinter {
        mode: Mode::Data,
        tui: TUI::default(),
        depth: 0,
        width: 100,
        tab_size: 2,
        focused: false,
        focused_because_matching_container_pair: false,
        trailing_comma: false,
        label: None,
        value: LineValue::Value {
            s: "hello",
            quotes: true,
            color: Color::White,
        },
        cached_formatted_value: None,
    }
}

#[test]
fn test_line_mode_focus_indicators() -> std::fmt::Result {
    let mut line: LinePrinter<'_, VisibleEscapes> = LinePrinter {
        mode: Mode::Line,
        tui: VisibleEscapes::position_only(),
        depth: 1,
        value: LineValue::Value {
            s: "null",
            quotes: false,
            color: Color::White,
        },
        ..default_line()
    };

    let mut buf = String::new();
    line.print_line(&mut buf)?;

    assert_eq!(format!("_C(5)_null"), buf);

    line.focused = true;
    line.depth = 3;
    line.tab_size = 1;

    buf.clear();
    line.print_line(&mut buf)?;

    assert_eq!(format!("_C(1)_{}_C(6)_null", FOCUSED_LINE), buf);

    Ok(())
}

#[test]
fn test_data_mode_focus_indicators() -> std::fmt::Result {
    let mut fj = parse_top_level_json2(OBJECT.to_owned()).unwrap();
    let mut line: LinePrinter<'_, VisibleEscapes> = LinePrinter {
        tui: VisibleEscapes::position_only(),
        value: LineValue::Container {
            flatjson: &fj,
            row: fj.row(0),
        },
        ..default_line()
    };

    let mut buf = String::new();
    line.depth = 1;
    line.print_line(&mut buf)?;

    let expected_prefix = format!("_C(3)_{}_C(5)_{{", EXPANDED_CONTAINER);
    assert_starts_with(&buf, &expected_prefix);

    line.focused = true;

    buf.clear();
    line.print_line(&mut buf)?;

    let expected_prefix = format!("_C(3)_{}_C(5)_{{", FOCUSED_EXPANDED_CONTAINER);
    assert_starts_with(&buf, &expected_prefix);

    fj.collapse(0);
    // Need to create a new LinePrinter so I can modify fj on the line above.
    line = LinePrinter {
        tui: VisibleEscapes::position_only(),
        depth: 2,
        tab_size: 4,
        value: LineValue::Container {
            flatjson: &fj,
            row: fj.row(0),
        },
        ..default_line()
    };

    buf.clear();
    line.print_line(&mut buf)?;

    let expected_prefix = format!("_C(9)_{}_C(11)_{{", COLLAPSED_CONTAINER);
    assert_starts_with(&buf, &expected_prefix);

    line.focused = true;

    buf.clear();
    line.print_line(&mut buf)?;

    let expected_prefix = format!("_C(9)_{}_C(11)_{{", FOCUSED_COLLAPSED_CONTAINER);
    assert_starts_with(&buf, &expected_prefix);

    Ok(())
}

#[test]
fn test_fill_key_label_basic() -> std::fmt::Result {
    let mut line: LinePrinter<'_, VisibleEscapes> = LinePrinter {
        mode: Mode::Line,
        label: Some(LineLabel::Key { key: "hello" }),
        ..default_line()
    };

    let mut buf = String::new();
    let used_space = line.fill_in_label(&mut buf, 100)?;

    assert_eq!(format!("_FG({:?})_\"hello\"_R_: ", LABEL_COLOR), buf);
    assert_eq!(9, used_space);

    line.focused = true;
    line.mode = Mode::Data;
    line.label = Some(LineLabel::Key { key: "hello" });

    buf.clear();
    let used_space = line.fill_in_label(&mut buf, 100)?;

    assert_eq!(
        format!(
            "_FG({:?})__BG({:?})_hello_R_: ",
            FOCUSED_LABEL_COLOR, FOCUSED_LABEL_BG_COLOR
        ),
        buf
    );
    assert_eq!(7, used_space);

    // Non JS identifiers (including empty-string) get quoted.
    line.label = Some(LineLabel::Key { key: "" });

    buf.clear();
    let used_space = line.fill_in_label(&mut buf, 100)?;

    assert_eq!(
        format!(
            "_FG({:?})__BG({:?})_\"\"_R_: ",
            FOCUSED_LABEL_COLOR, FOCUSED_LABEL_BG_COLOR
        ),
        buf
    );
    assert_eq!(4, used_space);

    Ok(())
}

#[test]
fn test_fill_index_label_basic() -> std::fmt::Result {
    let mut line: LinePrinter<'_, VisibleEscapes> = LinePrinter {
        label: Some(LineLabel::Index { index: "12345" }),
        ..default_line()
    };

    let mut buf = String::new();

    let used_space = line.fill_in_label(&mut buf, 100)?;
    assert_eq!(format!("_FG({:?})_[12345]_R_: ", DIMMED), buf);
    assert_eq!(9, used_space);

    line.focused = true;
    buf.clear();
    let used_space = line.fill_in_label(&mut buf, 100)?;

    assert_eq!("_B_[12345]_R_: ", buf);
    assert_eq!(9, used_space);

    Ok(())
}

#[test]
fn test_fill_label_not_enough_space() -> std::fmt::Result {
    let mut line: LinePrinter<'_, EmptyControl> = default_line();
    line.mode = Mode::Line;
    line.label = Some(LineLabel::Key { key: "hello" });

    // QUOTED STRING KEY

    // Minimum space is: '"h…": ', which has a length of 6, plus extra space for value char.
    let mut buf = String::new();

    let used_space = line.fill_in_label(&mut buf, 7)?;
    assert_eq!("\"h…\": ", buf);
    assert_eq!(6, used_space);

    buf.clear();

    // Elide the whole key
    let used_space = line.fill_in_label(&mut buf, 6)?;
    assert_eq!("\"…\": ", buf);
    assert_eq!(5, used_space);

    buf.clear();

    // Can't fit at all
    let used_space = line.fill_in_label(&mut buf, 5)?;
    assert_eq!("", buf);
    assert_eq!(0, used_space);

    // UNQUOTED STRING KEY

    // Minimum space is: "h…: ", which has a length of 4, plus extra space for value char.
    line.mode = Mode::Data;
    line.label = Some(LineLabel::Key { key: "hello" });

    buf.clear();

    let used_space = line.fill_in_label(&mut buf, 5)?;
    assert_eq!("h…: ", buf);
    assert_eq!(4, used_space);

    buf.clear();

    // Elide the whole key.
    let used_space = line.fill_in_label(&mut buf, 4)?;
    assert_eq!("…: ", buf);
    assert_eq!(3, used_space);

    buf.clear();

    // Not enough room, returns 0.
    let used_space = line.fill_in_label(&mut buf, 3)?;
    assert_eq!("", buf);
    assert_eq!(0, used_space);

    // ARRAY INDEX

    // Minimum space is: "[…5]: ", which has a length of 6, plus extra space for value char.
    line.label = Some(LineLabel::Index { index: "12345" });

    buf.clear();

    let used_space = line.fill_in_label(&mut buf, 7)?;
    assert_eq!("[1…]: ", buf);
    assert_eq!(6, used_space);

    buf.clear();

    // Not enough room, returns 0.
    let used_space = line.fill_in_label(&mut buf, 6)?;
    assert_eq!("[…]: ", buf);
    assert_eq!(5, used_space);

    buf.clear();

    // Not enough room, returns 0.
    let used_space = line.fill_in_label(&mut buf, 5)?;
    assert_eq!("", buf);
    assert_eq!(0, used_space);

    Ok(())
}

#[test]
fn test_fill_value_basic() -> std::fmt::Result {
    let color = Color::Black;
    let mut line: LinePrinter<'_, VisibleEscapes> = LinePrinter {
        value: LineValue::Value {
            s: "hello",
            quotes: true,
            color,
        },
        ..default_line()
    };

    let mut buf = String::new();
    let used_space = line.fill_in_value(&mut buf, 100)?;

    assert_eq!("_FG(Black)_\"hello\"", buf);
    assert_eq!(7, used_space);

    line.trailing_comma = true;
    line.value = LineValue::Value {
        s: "null",
        quotes: false,
        color,
    };

    buf.clear();
    let used_space = line.fill_in_value(&mut buf, 100)?;

    assert_eq!("_FG(Black)_null_R_,", buf);
    assert_eq!(5, used_space);

    Ok(())
}

#[test]
fn test_fill_value_not_enough_space() -> std::fmt::Result {
    let mut line: LinePrinter<'_, EmptyControl> = default_line();
    let color = Color::Black;

    // QUOTED VALUE

    // Minimum space is: '"h…"', which has a length of 4.
    line.value = LineValue::Value {
        s: "hello",
        quotes: true,
        color,
    };

    let mut buf = String::new();

    let used_space = line.fill_in_value(&mut buf, 4)?;
    assert_eq!("\"h…\"", buf);
    assert_eq!(4, used_space);

    buf.clear();

    // Not enough room, returns 0.
    let used_space = line.fill_in_value(&mut buf, 3)?;
    assert_eq!("\"…\"", buf);
    assert_eq!(3, used_space);

    buf.clear();

    // Not enough room, returns 0.
    let used_space = line.fill_in_value(&mut buf, 2)?;
    assert_eq!("", buf);
    assert_eq!(0, used_space);

    // QUOTED EMPTY STRING

    line.value = LineValue::Value {
        s: "",
        quotes: true,
        color,
    };

    buf.clear();
    let used_space = line.fill_in_value(&mut buf, 2)?;
    assert_eq!("\"\"", buf);
    assert_eq!(2, used_space);

    buf.clear();
    let used_space = line.fill_in_value(&mut buf, 1)?;
    assert_eq!("", buf);
    assert_eq!(0, used_space);

    // UNQUOTED VALUE, TRAILING COMMA

    // Minimum space is: 't…,', which has a length of 3.
    line.trailing_comma = true;
    line.value = LineValue::Value {
        s: "true",
        quotes: false,
        color,
    };

    buf.clear();

    let used_space = line.fill_in_value(&mut buf, 3)?;
    assert_eq!("t…,", buf);
    assert_eq!(3, used_space);

    buf.clear();

    let used_space = line.fill_in_value(&mut buf, 2)?;
    assert_eq!("…,", buf);
    assert_eq!(2, used_space);

    buf.clear();

    // Not enough room, returns 0.
    let used_space = line.fill_in_value(&mut buf, 1)?;
    assert_eq!("", buf);
    assert_eq!(0, used_space);

    // UNQUOTED VALUE, NO TRAILING COMMA
    line.trailing_comma = false;

    buf.clear();

    // Don't print just an ellipsis, print '>' instead.
    let used_space = line.fill_in_value(&mut buf, 1)?;
    assert_eq!("", buf);
    assert_eq!(0, used_space);

    Ok(())
}

#[test]
fn test_generate_object_preview() -> std::fmt::Result {
    let json = r#"{"a": 1, "d": {"x": true}, "b c": null}"#;
    //            {"a": 1, "d": {…}, "b c": null}
    //           01234567890123456789012345678901 (31 characters)
    //            {a: 1, d: {…}, "b c": null}
    //           0123456789012345678901234567 (27 characters)
    let fj = parse_top_level_json2(json.to_owned()).unwrap();

    for (available_space, used_space, quoted_object_keys, expected) in vec![
        (50, 31, true, r#"{"a": 1, "d": {…}, "b c": null}"#),
        (50, 27, false, r#"{a: 1, d: {…}, "b c": null}"#),
        (26, 26, false, r#"{a: 1, d: {…}, "b c": nu…}"#),
        (25, 25, false, r#"{a: 1, d: {…}, "b c": n…}"#),
        (24, 24, false, r#"{a: 1, d: {…}, "b c": …}"#),
        (23, 23, false, r#"{a: 1, d: {…}, "b…": …}"#),
        (22, 17, false, r#"{a: 1, d: {…}, …}"#),
        (16, 15, false, r#"{a: 1, d: …, …}"#),
        (14, 9, false, r#"{a: 1, …}"#),
        (8, 3, false, r#"{…}"#),
        (2, 0, false, r#""#),
    ]
    .into_iter()
    {
        let (buf, used) = generate_container_preview(&fj, available_space, quoted_object_keys)?;
        assert_eq!(
            expected,
            buf,
            "expected preview with {} available columns (used up {} columns)",
            available_space,
            UnicodeWidthStr::width(buf.as_str()),
        );
        assert_eq!(used_space, used);
    }

    Ok(())
}

#[test]
fn test_generate_array_preview() -> fmt::Result {
    let json = r#"[1, {"x": true}, null, "hello", true]"#;
    //            [1, {…}, null, "hello", true]
    //           012345678901234567890123456789 (29 characters)
    let fj = parse_top_level_json2(json.to_owned()).unwrap();

    for (available_space, used_space, expected) in vec![
        (50, 29, r#"[1, {…}, null, "hello", true]"#),
        (28, 28, r#"[1, {…}, null, "hello", tr…]"#),
        (27, 27, r#"[1, {…}, null, "hello", t…]"#),
        (26, 26, r#"[1, {…}, null, "hello", …]"#),
        (25, 25, r#"[1, {…}, null, "hel…", …]"#),
        (24, 24, r#"[1, {…}, null, "he…", …]"#),
        (23, 23, r#"[1, {…}, null, "h…", …]"#),
        (22, 17, r#"[1, {…}, null, …]"#),
        (16, 16, r#"[1, {…}, nu…, …]"#),
        (15, 15, r#"[1, {…}, n…, …]"#),
        (14, 11, r#"[1, {…}, …]"#),
        (10, 6, r#"[1, …]"#),
        (5, 3, r#"[…]"#),
        (2, 0, r#""#),
    ]
    .into_iter()
    {
        let quoted_object_keys = false;
        let (buf, used) = generate_container_preview(&fj, available_space, quoted_object_keys)?;
        assert_eq!(
            expected,
            buf,
            "expected preview with {} available columns (used up {} columns)",
            available_space,
            UnicodeWidthStr::width(buf.as_str()),
        );
        assert_eq!(used_space, used);
    }

    Ok(())
}

#[test]
fn test_generate_container_preview_single_container_child() -> fmt::Result {
    let json = r#"{"a": [1, {"x": true}, null, "hello", true]}"#;
    //            {a: [1, {…}, null, "hello", true]}
    //           01234567890123456789012345678901234 (34 characters)
    let fj = parse_top_level_json2(json.to_owned()).unwrap();

    let (buf, used) = generate_container_preview(&fj, 34, false)?;
    assert_eq!(r#"{a: [1, {…}, null, "hello", true]}"#, buf);
    assert_eq!(34, used);

    let (buf, used) = generate_container_preview(&fj, 33, false)?;
    assert_eq!(r#"{a: [1, {…}, null, "hello", tr…]}"#, buf);
    assert_eq!(33, used);

    let json = r#"[{"a": 1, "d": {"x": true}, "b c": null}]"#;
    //            [{a: 1, d: {…}, "b c": null}]
    //           012345678901234567890123456789 (29 characters)
    let fj = parse_top_level_json2(json.to_owned()).unwrap();

    let (buf, used) = generate_container_preview(&fj, 29, false)?;
    assert_eq!(r#"[{a: 1, d: {…}, "b c": null}]"#, buf);
    assert_eq!(29, used);

    let (buf, used) = generate_container_preview(&fj, 28, false)?;
    assert_eq!(r#"[{a: 1, d: {…}, "b c": nu…}]"#, buf);
    assert_eq!(28, used);

    Ok(())
}

fn generate_container_preview(
    flatjson: &FlatJson,
    available_space: isize,
    quoted_object_keys: bool,
) -> Result<(String, isize), fmt::Error> {
    let mut buf = String::new();
    let used = LinePrinter::<EmptyControl>::generate_container_preview(
        &mut buf,
        flatjson,
        flatjson.row(0),
        available_space,
        quoted_object_keys,
    )?;
    Ok((buf, used))
}

fn assert_starts_with(s: &str, prefix: &str) {
    assert!(
        s.starts_with(prefix),
        "Expected {} to start with {}",
        s,
        prefix,
    );
}

/// Takes a number of characters, and no more.
struct Limited {
    text: String,
    room: usize,
}

impl Write for Limited {
    // Stands for what is known of the sink in proofs, and is not there to be called.
    fn sink(&self) -> Sink {
        unreachable!()
    }

    fn write_str(&mut self, s: &str) -> fmt::Result {
        for c in s.chars() {
            self.write_char(c)?;
        }
        Ok(())
    }

    fn write_char(&mut self, c: char) -> fmt::Result {
        if self.room == 0 {
            return Err(fmt::Error);
        }
        self.room -= 1;
        self.text.push(c);
        Ok(())
    }
}

fn printed<TUI: TUIControl>(line: &mut LinePrinter<'_, TUI>) -> String {
    let mut buf = String::new();
    line.print_line(&mut buf).unwrap();
    buf
}

fn value<TUI: TUIControl>(line: &mut LinePrinter<'_, TUI>, space: isize) -> (String, isize) {
    let mut buf = String::new();
    let used = line.fill_in_value(&mut buf, space).unwrap();
    (buf, used)
}

fn label<TUI: TUIControl>(line: &LinePrinter<'_, TUI>, space: isize) -> (String, isize) {
    let mut buf = String::new();
    let used = line.fill_in_label(&mut buf, space).unwrap();
    (buf, used)
}

fn preview(json: &str, space: isize) -> String {
    let fj = parse_top_level_json2(json.to_owned()).unwrap();
    let (buf, used) = generate_container_preview(&fj, space, false).unwrap();
    assert_eq!(UnicodeWidthStr::width(buf.as_str()) as isize, used);
    buf
}

#[test]
fn print_fails_where_the_sink_does() {
    let fj = parse_top_level_json2(OBJECT.to_owned()).unwrap();
    for focused in vec![false, true] {
        for width in vec![3, 12, 60] {
            let new_line = || -> LinePrinter<'_, VisibleEscapes> {
                LinePrinter {
                    width,
                    focused,
                    label: Some(LineLabel::Key { key: "some key" }),
                    value: LineValue::Container {
                        flatjson: &fj,
                        row: fj.row(0),
                    },
                    ..default_line()
                }
            };
            let whole = printed(&mut new_line());
            let length = whole.chars().count();
            for room in 0..length {
                let mut buf = Limited {
                    text: String::new(),
                    room,
                };
                assert_eq!(Err(fmt::Error), new_line().print_line(&mut buf));
                assert_eq!(whole.chars().take(room).collect::<String>(), buf.text);
            }
            let mut buf = Limited {
                text: String::new(),
                room: length,
            };
            assert_eq!(Ok(()), new_line().print_line(&mut buf));
            assert_eq!(whole, buf.text);
        }
    }
}

#[test]
fn whole_lines() {
    let mut line: LinePrinter<'_, VisibleEscapes> = LinePrinter {
        mode: Mode::Line,
        depth: 1,
        trailing_comma: true,
        label: Some(LineLabel::Key { key: "ab" }),
        value: LineValue::Value {
            s: "12",
            quotes: false,
            color: Color::Magenta,
        },
        ..default_line()
    };
    assert_eq!(
        "_R__C(5)__FG(LightBlue)_\"ab\"_R_: _FG(Magenta)_12_R_,",
        printed(&mut line)
    );

    line.focused = true;
    assert_eq!(
        "_R__C(1)_▶ _C(5)__FG(Blue)__BG(LightWhite)_\"ab\"_R_: _FG(Magenta)_12_R_,",
        printed(&mut line)
    );

    line.mode = Mode::Data;
    line.label = Some(LineLabel::Index { index: "7" });
    assert_eq!(
        "_R__C(5)__B_[7]_R_: _FG(Magenta)_12_R_,",
        printed(&mut line)
    );
}

#[test]
fn lines_without_room_end_with_a_sign() {
    // The label has no room.
    let mut line: LinePrinter<'_, VisibleEscapes> = LinePrinter {
        width: 7,
        label: Some(LineLabel::Index { index: "38" }),
        value: LineValue::Value {
            s: "true",
            quotes: false,
            color: Color::Yellow,
        },
        ..default_line()
    };
    assert_eq!("_R__C(3)__C(7)__FG(LightBlack)_>", printed(&mut line));
    line.focused = true;
    assert_eq!("_R__C(3)__C(7)__R__B_>", printed(&mut line));

    // The label is all that has room.
    line.focused = false;
    line.width = 8;
    assert_eq!(
        "_R__C(3)__FG(LightBlack)_[…]_R_: _C(8)__FG(LightBlack)_>",
        printed(&mut line)
    );

    // The value has room.
    line.width = 10;
    assert_eq!(
        "_R__C(3)__FG(LightBlack)_[38]_R_: _FG(Yellow)_t…",
        printed(&mut line)
    );

    // There is no label, and no room for the value.
    line.label = None;
    line.width = 3;
    assert_eq!("_R__C(3)__C(3)__FG(LightBlack)_>", printed(&mut line));
    line.width = 0;
    line.depth = 20;
    assert_eq!("_R__C(43)__C(0)__FG(LightBlack)_>", printed(&mut line));
}

#[test]
fn collapsed_containers_without_room_end_with_a_sign() {
    let mut fj = parse_top_level_json2("[1, 2]".to_owned()).unwrap();
    fj.collapse(0);
    for (width, expected) in vec![
        (10, "_C(11)__C(10)_>"),
        (13, "_C(11)__C(13)_>"),
        (14, "_C(11)_[…],"),
        (17, "_C(11)_[1, 2],"),
    ] {
        let mut line: LinePrinter<'_, VisibleEscapes> = LinePrinter {
            mode: Mode::Line,
            tui: VisibleEscapes::position_only(),
            depth: 4,
            tab_size: 2,
            width,
            trailing_comma: true,
            value: LineValue::Container {
                flatjson: &fj,
                row: fj.row(0),
            },
            ..default_line()
        };
        assert_eq!(expected, printed(&mut line));
    }
}

#[test]
fn columns_are_handed_over_in_sixteen_bits() {
    let mut line: LinePrinter<'_, VisibleEscapes> = LinePrinter {
        tui: VisibleEscapes::position_only(),
        depth: 0x8000,
        width: 0x10000 + 7,
        ..default_line()
    };
    assert_eq!("_C(3)_\"he…\"", printed(&mut line));
    line.width = 0x10000 + 3;
    assert_eq!("_C(3)__C(3)_>", printed(&mut line));
}

#[test]
fn container_marks_need_room() {
    let fj = parse_top_level_json2(OBJECT.to_owned()).unwrap();
    let mut line: LinePrinter<'_, VisibleEscapes> = LinePrinter {
        tui: VisibleEscapes::position_only(),
        depth: 2,
        width: 7,
        value: LineValue::Container {
            flatjson: &fj,
            row: fj.row(0),
        },
        ..default_line()
    };
    assert_eq!("_C(5)_▽ _C(7)__C(7)_>", printed(&mut line));
    line.width = 6;
    assert_eq!("_C(7)__C(6)_>", printed(&mut line));
}

#[test]
fn open_brace_follows_long_labels() {
    let fj = parse_top_level_json2(OBJECT.to_owned()).unwrap();
    let mut line: LinePrinter<'_, EmptyControl> = LinePrinter {
        mode: Mode::Line,
        width: 20,
        label: Some(LineLabel::Key {
            key: "really_long_key_here",
        }),
        value: LineValue::Container {
            flatjson: &fj,
            row: fj.row(0),
        },
        ..default_line()
    };
    assert_eq!("\"really_long_…\": {", printed(&mut line));
    line.width = 8;
    assert_eq!("\"…\": {", printed(&mut line));
    line.width = 7;
    assert_eq!(">", printed(&mut line));
}

#[test]
fn starts_and_ends_of_containers() {
    let mut fj = parse_top_level_json2(r#"[1, 22]"#.to_owned()).unwrap();
    let last = fj.0.len() - 1;
    {
        let mut line: LinePrinter<'_, VisibleEscapes> = LinePrinter {
            mode: Mode::Line,
            trailing_comma: true,
            value: LineValue::Container {
                flatjson: &fj,
                row: fj.row(0),
            },
            ..default_line()
        };
        assert_eq!(("[".to_owned(), 1), value(&mut line, 1));
        assert_eq!(("".to_owned(), 0), value(&mut line, 0));
        line.focused_because_matching_container_pair = true;
        assert_eq!(("_B_[".to_owned(), 1), value(&mut line, 1));

        line.value = LineValue::Container {
            flatjson: &fj,
            row: fj.row(last),
        };
        assert_eq!(("_B_]_R_,".to_owned(), 2), value(&mut line, 2));
        assert_eq!(("".to_owned(), 0), value(&mut line, 1));
        line.trailing_comma = false;
        line.focused_because_matching_container_pair = false;
        assert_eq!(("]".to_owned(), 1), value(&mut line, 1));
        assert_eq!(("".to_owned(), 0), value(&mut line, 0));

        // An expanded container has a preview in data mode, and no comma after it.
        line.mode = Mode::Data;
        line.trailing_comma = true;
        line.value = LineValue::Container {
            flatjson: &fj,
            row: fj.row(0),
        };
        assert_eq!(
            ("_FG(LightBlack)_[1, 22]".to_owned(), 7),
            value(&mut line, 7)
        );
        line.focused = true;
        assert_eq!(("[1, 22]".to_owned(), 7), value(&mut line, 7));
        assert_eq!(("[1, …]".to_owned(), 6), value(&mut line, 6));
    }

    fj.collapse(0);
    for mode in vec![Mode::Line, Mode::Data] {
        let mut line: LinePrinter<'_, VisibleEscapes> = LinePrinter {
            mode,
            trailing_comma: true,
            value: LineValue::Container {
                flatjson: &fj,
                row: fj.row(0),
            },
            ..default_line()
        };
        assert_eq!(
            ("_FG(LightBlack)_[1, 22]_R_,".to_owned(), 8),
            value(&mut line, 8)
        );
        assert_eq!(
            ("_FG(LightBlack)_[1, …]_R_,".to_owned(), 7),
            value(&mut line, 7)
        );
        assert_eq!(
            ("_FG(LightBlack)_[…]_R_,".to_owned(), 4),
            value(&mut line, 4)
        );
        // There is no comma where there is no room for a preview.
        assert_eq!(("_FG(LightBlack)_".to_owned(), 0), value(&mut line, 3));
        assert_eq!(("_FG(LightBlack)_".to_owned(), 0), value(&mut line, 0));
    }
}

#[test]
fn braces_and_previews_by_themselves() {
    let mut fj = parse_top_level_json2(r#"{"a": 1}"#.to_owned()).unwrap();
    fj.collapse(0);
    for focused in vec![false, true] {
        for trailing_comma in vec![false, true] {
            let line: LinePrinter<'_, VisibleEscapes> = LinePrinter {
                mode: Mode::Line,
                focused,
                trailing_comma,
                ..default_line()
            };
            let bold = if focused { "_B_" } else { "" };
            let dimmed = if focused { "" } else { "_FG(LightBlack)_" };
            let comma = if trailing_comma { "_R_," } else { "" };
            for (space, used) in vec![(-1, 0), (0, 0), (1, 1), (100, 1)] {
                let mut buf = String::new();
                assert_eq!(
                    Ok(used),
                    line.fill_in_container_open_char(&mut buf, space, fj.row(0))
                );
                assert_eq!(
                    if used == 0 {
                        String::new()
                    } else {
                        format!("{}{{", bold)
                    },
                    buf
                );
            }

            let mut buf = String::new();
            let used = if trailing_comma { 2 } else { 1 };
            assert_eq!(
                Ok(used),
                line.fill_in_container_close_char(&mut buf, used, fj.row(2))
            );
            assert_eq!(format!("{}}}{}", bold, comma), buf);

            let mut buf = String::new();
            let used = if trailing_comma { 9 } else { 8 };
            assert_eq!(
                Ok(used),
                line.fill_in_container_preview(&mut buf, used, &fj, fj.row(0))
            );
            assert_eq!(format!("{}{{\"a\": 1}}{}", dimmed, comma), buf);

            let mut buf = String::new();
            assert_eq!(
                Ok(used),
                line.fill_in_container_value(&mut buf, used, &fj, fj.row(0))
            );
            assert_eq!(format!("{}{{\"a\": 1}}{}", dimmed, comma), buf);
        }
    }
}

#[test]
fn focus_changes_only_the_style() {
    let mut fj = parse_top_level_json2(OBJECT.to_owned()).unwrap();
    for collapsed in vec![false, true] {
        if collapsed {
            fj.collapse(0);
        }
        for mode in vec![Mode::Line, Mode::Data] {
            for space in 0..60 {
                let mut line: LinePrinter<'_, EmptyControl> = LinePrinter {
                    mode,
                    label: Some(LineLabel::Key { key: "key" }),
                    value: LineValue::Container {
                        flatjson: &fj,
                        row: fj.row(0),
                    },
                    ..default_line()
                };
                let expected = (label(&line, space), value(&mut line, space));
                line.focused = true;
                line.focused_because_matching_container_pair = true;
                assert_eq!(expected, (label(&line, space), value(&mut line, space)));
            }
        }
    }
}

#[test]
fn lines_fit_on_the_screen() {
    let fj = parse_top_level_json2(OBJECT.to_owned()).unwrap();
    for width in 0..60 {
        for depth in 0..4 {
            let mut line: LinePrinter<'_, EmptyControl> = LinePrinter {
                width,
                depth,
                label: Some(LineLabel::Key { key: "日本 語" }),
                value: LineValue::Container {
                    flatjson: &fj,
                    row: fj.row(0),
                },
                ..default_line()
            };
            let space = width as isize - 2 - 2 * depth as isize;
            let (label_text, label_used) = label(&line, space);
            assert_eq!(
                UnicodeWidthStr::width(label_text.as_str()) as isize,
                label_used
            );
            assert!(label_used == 0 || label_used < space);
            let (text, used) = value(&mut line, space - label_used);
            assert_eq!(UnicodeWidthStr::width(text.as_str()) as isize, used);
            assert!(used == 0 || label_used + used <= space);
            let whole = printed(&mut line);
            if label_used == 0 || used == 0 {
                assert!(whole.ends_with('>'));
            } else {
                assert!(whole.ends_with(&format!("{}{}", label_text, text)));
            }
        }
    }
}

#[test]
fn previews_are_whole_or_show_where_they_are_cut() {
    for json in vec![
        OBJECT,
        r#"{"": "", "a b": [], "c": {}, "d": -1.5e3}"#,
        r#"[[[["nested"]]]]"#,
        r#"{"日本": "語", "é": null}"#,
        r#"{"k": "hello", "l": [1, 2], "mm": 12345, "日本語": "日本語", "n": ""}"#,
        "[\"a\u{200b}b\u{200b}\", {\"c\u{200b}\": 1}, \"e\u{301}e\u{301}\"]",
    ] {
        let whole = preview(json, 1000);
        let columns = UnicodeWidthStr::width(whole.as_str()) as isize;
        for space in 0..columns {
            let cut = preview(json, space);
            if space < 3 {
                assert_eq!("", cut);
            } else {
                assert_ne!(whole, cut);
                assert!(cut.contains('…'));
                assert!(UnicodeWidthStr::width(cut.as_str()) as isize <= space);
            }
        }
        for space in columns..columns + 5 {
            assert_eq!(whole, preview(json, space));
        }
        // More room never gives a shorter preview.
        for space in 0..columns {
            let before = UnicodeWidthStr::width(preview(json, space).as_str());
            let after = UnicodeWidthStr::width(preview(json, space + 1).as_str());
            assert!(before <= after);
        }
    }
    assert_eq!(
        r#"{"1": 1, "2": […], "6": {…}, "11": 11}"#,
        preview(OBJECT, 1000)
    );
    assert_eq!(
        r#"{"": "", "a b": [], c: {}, d: -1.5e3}"#,
        preview(r#"{"": "", "a b": [], "c": {}, "d": -1.5e3}"#, 1000)
    );
    assert_eq!(r#"[[[["nested"]]]]"#, preview(r#"[[[["nested"]]]]"#, 1000));
}

#[test]
fn previews_have_no_room_for_what_takes_no_columns() {
    // The key would fit, but what follows its first character cannot be seen.
    let json = "{\"a\u{200b}\": 1}";
    assert_eq!("{\"a\u{200b}\": 1}", preview(json, 9));
    assert_eq!("{…}", preview(json, 8));
}

#[test]
fn views_are_kept() {
    let mut views: HashMap<usize, TruncatedStrView> = HashMap::new();
    let mut line: LinePrinter<'_, EmptyControl> = LinePrinter {
        cached_formatted_value: Some(views.entry(4)),
        ..default_line()
    };
    let first = value(&mut line, 5);
    assert_eq!(("\"he…\"".to_owned(), 5), first);
    assert!(line.cached_formatted_value.is_none());
    drop(line);
    assert_eq!(
        Some(&TruncatedStrView {
            range: Some(TruncatedRange {
                start: 0,
                end: 2,
                used_space: 3
            })
        }),
        views.get(&4)
    );

    // The same view is used again, whatever room there is.
    for space in vec![5, 100] {
        let mut line: LinePrinter<'_, EmptyControl> = LinePrinter {
            cached_formatted_value: Some(views.entry(4)),
            ..default_line()
        };
        assert_eq!(first, value(&mut line, space));
    }

    // A view of the middle of a value.
    views.insert(
        4,
        TruncatedStrView {
            range: Some(TruncatedRange {
                start: 1,
                end: 3,
                used_space: 4,
            }),
        },
    );
    let mut line: LinePrinter<'_, EmptyControl> = LinePrinter {
        cached_formatted_value: Some(views.entry(4)),
        ..default_line()
    };
    assert_eq!("\"…el…\"", printed(&mut line));
    assert_eq!("\"hello\"", printed(&mut line));
    drop(line);

    // There is a view, but no room.
    views.insert(4, TruncatedStrView { range: None });
    let mut line: LinePrinter<'_, EmptyControl> = LinePrinter {
        cached_formatted_value: Some(views.entry(4)),
        ..default_line()
    };
    assert_eq!(("".to_owned(), 0), value(&mut line, 100));
    drop(line);

    // A line whose value is not reached keeps its place.
    let mut line: LinePrinter<'_, EmptyControl> = LinePrinter {
        width: 3,
        label: Some(LineLabel::Index { index: "1" }),
        cached_formatted_value: Some(views.entry(5)),
        ..default_line()
    };
    assert_eq!(">", printed(&mut line));
    assert!(matches!(
        line.cached_formatted_value,
        Some(Entry::Vacant(_))
    ));
}

#[test]
fn values_are_cut_before_labels() {
    let mut line: LinePrinter<'_, EmptyControl> = LinePrinter {
        label: Some(LineLabel::Key { key: "key" }),
        value: LineValue::Value {
            s: "long text here",
            quotes: true,
            color: Color::White,
        },
        ..default_line()
    };
    line.width = 2 + 21;
    assert_eq!("key: \"long text here\"", printed(&mut line));
    line.width = 2 + 20;
    assert_eq!("key: \"long text he…\"", printed(&mut line));
    line.width = 2 + 8;
    assert_eq!("key: \"…\"", printed(&mut line));
    line.width = 2 + 6;
    assert_eq!("key: >", printed(&mut line));
    line.width = 2 + 5;
    assert_eq!("k…: >", printed(&mut line));
}

#[test]
fn identifiers() {
    for key in vec!["a", "Z", "_", "$", "a1", "_0$aZ9"] {
        assert!(is_js_identifier(key), "{}", key);
    }
    for key in vec!["", "1", "1a", "a-b", "a b", " a", "a\n", "é", "aé"] {
        assert!(!is_js_identifier(key), "{}", key);
    }
}

#[test]
fn cuts_between_grapheme_clusters() {
    // An accent stays with its letter.
    let s = "e\u{301}e\u{301}e\u{301}";
    assert_eq!(2, min_required_columns_for_str(s));
    assert_eq!(
        TruncationResult::NoTruncation(3),
        truncate_right_to_fit(s, 3, "…")
    );
    assert_eq!(
        TruncationResult::Truncated("e\u{301}", 2),
        truncate_right_to_fit(s, 2, "…")
    );
    assert_eq!(
        TruncationResult::DoesntFit,
        truncate_right_to_fit(s, 1, "…")
    );

    // Wide characters take two columns.
    let s = "日本";
    assert_eq!(3, min_required_columns_for_str(s));
    assert_eq!(
        TruncationResult::NoTruncation(4),
        truncate_right_to_fit(s, 4, "…")
    );
    assert_eq!(
        TruncationResult::Truncated("日", 3),
        truncate_right_to_fit(s, 3, "…")
    );
    assert_eq!(
        TruncationResult::DoesntFit,
        truncate_right_to_fit(s, 2, "…")
    );
    assert_eq!(
        TruncationResult::DoesntFit,
        truncate_right_to_fit(s, 3, "...")
    );

    // Printable ASCII and ellipses can be cut anywhere.
    let s: String = (' '..='~').chain(vec!['…', '…', 'a', '…']).collect();
    for n in 2..s.chars().count() {
        let prefix: String = s.chars().take(n - 1).collect();
        assert_eq!(
            TruncationResult::Truncated(prefix.as_str(), n as isize),
            truncate_right_to_fit(&s, n as isize, "…")
        );
    }

    // The clusters can also be given.
    let clusters = vec!["a", "日", "b"];
    assert_eq!((0, 0, 0), fit_clusters(&clusters, 0));
    assert_eq!((1, 1, 1), fit_clusters(&clusters, 2));
    assert_eq!((2, 4, 3), fit_clusters(&clusters, 3));
    assert_eq!((3, 5, 4), fit_clusters(&clusters, 100));
    assert_eq!((0, 0, 0), fit_clusters(&vec![], -1));
    assert_eq!(2, required_columns_for_clusters("a日b", &clusters));
    assert_eq!(4, required_columns_for_clusters("a日b", &vec!["a日b"]));

    assert_eq!(0, min_required_columns_for_str(""));
    assert_eq!(1, min_required_columns_for_str("a"));
    assert_eq!(2, min_required_columns_for_str("ab"));
    assert_eq!(0, min_required_columns_for_str("\u{7}"));
}

#[test]
fn views_of_the_start() {
    let view = TruncatedStrView::init_start("日本", 3);
    assert_eq!(Some(3), view.used_space());
    assert!(!view.is_completely_elided());
    let mut buf = String::new();
    let slice = TruncatedStrSlice {
        s: "日本",
        truncated_view: &view,
    };
    slice.write_to(&mut buf).unwrap();
    assert_eq!("日…", buf);

    let view = TruncatedStrView::init_start("日本", 2);
    assert_eq!(Some(1), view.used_space());
    assert!(view.is_completely_elided());

    let view = TruncatedStrView::init_start("日本", 0);
    assert_eq!(None, view.used_space());
    assert!(!view.is_completely_elided());
    let mut buf = String::new();
    let slice = TruncatedStrSlice {
        s: "日本",
        truncated_view: &view,
    };
    slice.write_to(&mut buf).unwrap();
    assert_eq!("", buf);

    let view = TruncatedStrView::init_start("", 0);
    assert_eq!(Some(0), view.used_space());
    assert!(!view.is_completely_elided());
}

#[test]
fn pieces() {
    assert_eq!("本", str_piece("日本語", 3, 6));
    assert_eq!("", str_piece("日本語", 9, 9));
    assert_eq!(9, str_bytes("日本語"));
}

#[test]
fn styles_of_labels() {
    for (style, left, right, width) in vec![
        (LabelStyle::Plain, "", "", 0),
        (LabelStyle::Quote, "\"", "\"", 2),
        (LabelStyle::Square, "[", "]", 2),
    ] {
        assert_eq!(left, style.left());
        assert_eq!(right, style.right());
        assert_eq!(width, style.width());
    }
}

#[test]
fn sinks() {
    let mut buf = String::from("a");
    assert_eq!(Ok(()), buf.write_str("bc"));
    assert_eq!(Ok(()), Write::write_char(&mut buf, 'é'));
    assert_eq!(Ok(()), write_if(&mut buf, false, '-'));
    assert_eq!(Ok(()), write_if(&mut buf, true, '+'));
    assert_eq!("abcé+", buf);

    let mut buf = Limited {
        text: String::new(),
        room: 0,
    };
    assert_eq!(Ok(()), write_if(&mut buf, false, '-'));
    assert_eq!(Err(fmt::Error), write_if(&mut buf, true, '-'));
}

#[test]
fn visible_escapes() {
    let mut buf = String::new();
    let tui = VisibleEscapes::default();
    tui.reset_style(&mut buf).unwrap();
    tui.bold(&mut buf).unwrap();
    tui.position_cursor(&mut buf, 65535).unwrap();
    tui.fg_color(&mut buf, Color::LightCyan).unwrap();
    tui.bg_color(&mut buf, Color::Red).unwrap();
    tui.maybe_fg_color(&mut buf, None).unwrap();
    tui.maybe_bg_color(&mut buf, Some(Color::Green)).unwrap();
    assert_eq!("_R__B__C(65535)__FG(LightCyan)__BG(Red)__BG(Green)_", buf);
    for color in vec![Color::Black, Color::LightWhite, Color::Yellow] {
        assert_eq!(format!("{:?}", color), color.name());
    }

    let mut buf = String::new();
    let tui = VisibleEscapes::position_only();
    tui.reset_style(&mut buf).unwrap();
    tui.bold(&mut buf).unwrap();
    tui.position_cursor(&mut buf, 0).unwrap();
    tui.fg_color(&mut buf, Color::LightCyan).unwrap();
    assert_eq!("_C(0)_", buf);

    let mut buf = String::new();
    let tui = EmptyControl::default();
    tui.reset_style(&mut buf).unwrap();
    tui.bold(&mut buf).unwrap();
    tui.position_cursor(&mut buf, 7).unwrap();
    tui.fg_color(&mut buf, Color::LightCyan).unwrap();
    tui.bg_color(&mut buf, Color::LightCyan).unwrap();
    assert_eq!("", buf);
}

#[test]
fn rows_of_a_document() {
    let mut fj = parse_top_level_json2(r#"{"a": [1], "b": "x"}"#.to_owned()).unwrap();
    assert!(fj.row(0).is_container());
    assert!(fj.row(0).is_opening_of_container());
    assert!(fj.row(0).is_expanded());
    assert_eq!(OptionIndex::Index(1), fj.row(0).first_child());
    assert_eq!(None, fj.key(fj.row(0)));
    assert_eq!(Some("a"), fj.key(fj.row(1)));
    assert_eq!(OptionIndex::Index(4), fj.row(1).next_sibling);
    assert!(fj.row(1).next_sibling.is_some());
    assert_eq!(OptionIndex::Nil, fj.row(2).first_child());
    assert!(!fj.row(2).is_container());
    assert!(fj.row(3).is_container());
    assert!(!fj.row(3).is_opening_of_container());
    assert!(fj.row(4).next_sibling.is_nil());
    assert_eq!(None, fj.row(4).value.container_type());

    // A container is collapsed at both of its ends.
    fj.collapse(3);
    assert!(fj.row(1).is_collapsed());
    assert!(fj.row(3).is_collapsed());
    assert!(fj.row(0).is_expanded());
    fj.collapse(2);
    assert!(fj.row(2).is_expanded());
    fj.collapse(0);
    assert!(fj.row(0).is_collapsed());
    assert!(fj.row(5).is_collapsed());
}
