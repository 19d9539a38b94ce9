//! Control of the terminal: the cursor's position and the style of the text.
use std::fmt;

use vstd::prelude::*;

use crate::output::{
    advance, begin, emitted, finish, lemma_emitted_nothing, regroup3, text_if, Write,
};

verus! {

/// The colors of a terminal.
#[derive(Debug, Copy, Clone, PartialEq, Eq, Structural)]
pub enum Color {
    Black,
    Red,
    Green,
    Yellow,
    Blue,
    Magenta,
    Cyan,
    White,
    LightBlack,
    LightRed,
    LightGreen,
    LightYellow,
    LightBlue,
    LightMagenta,
    LightCyan,
    LightWhite,
}

impl Color {
    /// The name of the color.
    pub open spec fn spec_name(self) -> Seq<char> {
        match self {
            Color::Black => "Black"@,
            Color::Red => "Red"@,
            Color::Green => "Green"@,
            Color::Yellow => "Yellow"@,
            Color::Blue => "Blue"@,
            Color::Magenta => "Magenta"@,
            Color::Cyan => "Cyan"@,
            Color::White => "White"@,
            Color::LightBlack => "LightBlack"@,
            Color::LightRed => "LightRed"@,
            Color::LightGreen => "LightGreen"@,
            Color::LightYellow => "LightYellow"@,
            Color::LightBlue => "LightBlue"@,
            Color::LightMagenta => "LightMagenta"@,
            Color::LightCyan => "LightCyan"@,
            Color::LightWhite => "LightWhite"@,
        }
    }

    /// The name of the color.
    pub fn name(self) -> (r: &'static str)
        ensures
            r@ == self.spec_name(),
    {
        match self {
            Color::Black => "Black",
            Color::Red => "Red",
            Color::Green => "Green",
            Color::Yellow => "Yellow",
            Color::Blue => "Blue",
            Color::Magenta => "Magenta",
            Color::Cyan => "Cyan",
            Color::White => "White",
            Color::LightBlack => "LightBlack",
            Color::LightRed => "LightRed",
            Color::LightGreen => "LightGreen",
            Color::LightYellow => "LightYellow",
            Color::LightBlue => "LightBlue",
            Color::LightMagenta => "LightMagenta",
            Color::LightCyan => "LightCyan",
            Color::LightWhite => "LightWhite",
        }
    }
}

/// What a terminal is told in order to place the cursor or to change the style of the text.
///
/// Each method prints the text that the specification function of the same name gives.
pub trait TUIControl {
    /// Ends all styles.
    spec fn reset_style_text(&self) -> Seq<char>;

    /// Starts bold text.
    spec fn bold_text(&self) -> Seq<char>;

    /// Moves the cursor to a column of the current row. The leftmost column has the number 1.
    spec fn position_cursor_text(&self, col: u16) -> Seq<char>;

    /// Starts text in a color.
    spec fn fg_color_text(&self, color: Color) -> Seq<char>;

    /// Starts text on a color.
    spec fn bg_color_text(&self, color: Color) -> Seq<char>;

    /// Ends all styles.
    fn reset_style<W: Write>(&self, buf: &mut W) -> (r: fmt::Result)
        ensures
            emitted(old(buf).sink(), final(buf).sink(), r is Ok, self.reset_style_text()),
    ;

    /// Starts bold text.
    fn bold<W: Write>(&self, buf: &mut W) -> (r: fmt::Result)
        ensures
            emitted(old(buf).sink(), final(buf).sink(), r is Ok, self.bold_text()),
    ;

    /// Moves the cursor to a column of the current row.
    fn position_cursor<W: Write>(&self, buf: &mut W, col: u16) -> (r: fmt::Result)
        ensures
            emitted(old(buf).sink(), final(buf).sink(), r is Ok, self.position_cursor_text(col)),
    ;

    /// Starts text in a color.
    fn fg_color<W: Write>(&self, buf: &mut W, color: Color) -> (r: fmt::Result)
        ensures
            emitted(old(buf).sink(), final(buf).sink(), r is Ok, self.fg_color_text(color)),
    ;

    /// Starts text on a color.
    fn bg_color<W: Write>(&self, buf: &mut W, color: Color) -> (r: fmt::Result)
        ensures
            emitted(old(buf).sink(), final(buf).sink(), r is Ok, self.bg_color_text(color)),
    ;

    /// Starts text in a color, if there is one.
    fn maybe_fg_color<W: Write>(&self, buf: &mut W, color: Option<Color>) -> (r: fmt::Result)
        ensures
            emitted(
                old(buf).sink(),
                final(buf).sink(),
                r is Ok,
                match color {
                    Some(color) => self.fg_color_text(color),
                    None => Seq::empty(),
                },
            ),
    {
        proof {
            lemma_emitted_nothing(buf.sink());
        }
        match color {
            Some(color) => self.fg_color(buf, color),
            None => Ok(()),
        }
    }

    /// Starts text on a color, if there is one.
    fn maybe_bg_color<W: Write>(&self, buf: &mut W, color: Option<Color>) -> (r: fmt::Result)
        ensures
            emitted(
                old(buf).sink(),
                final(buf).sink(),
                r is Ok,
                match color {
                    Some(color) => self.bg_color_text(color),
                    None => Seq::empty(),
                },
            ),
    {
        proof {
            lemma_emitted_nothing(buf.sink());
        }
        match color {
            Some(color) => self.bg_color(buf, color),
            None => Ok(()),
        }
    }
}

/// Prints no controls at all.
#[derive(Debug, Copy, Clone)]
pub struct EmptyControl {}

impl Default for EmptyControl {
    fn default() -> (r: EmptyControl) {
        EmptyControl {  }
    }
}

impl TUIControl for EmptyControl {
    open spec fn reset_style_text(&self) -> Seq<char> {
        Seq::empty()
    }

    open spec fn bold_text(&self) -> Seq<char> {
        Seq::empty()
    }

    open spec fn position_cursor_text(&self, col: u16) -> Seq<char> {
        Seq::empty()
    }

    open spec fn fg_color_text(&self, color: Color) -> Seq<char> {
        Seq::empty()
    }

    open spec fn bg_color_text(&self, color: Color) -> Seq<char> {
        Seq::empty()
    }

    fn reset_style<W: Write>(&self, buf: &mut W) -> (r: fmt::Result)
        ensures
            r is Ok,
            *final(buf) == *old(buf),
    {
        proof {
            lemma_emitted_nothing(buf.sink());
        }
        Ok(())
    }

    fn bold<W: Write>(&self, buf: &mut W) -> (r: fmt::Result)
        ensures
            r is Ok,
            *final(buf) == *old(buf),
    {
        proof {
            lemma_emitted_nothing(buf.sink());
        }
        Ok(())
    }

    fn position_cursor<W: Write>(&self, buf: &mut W, col: u16) -> (r: fmt::Result)
        ensures
            r is Ok,
            *final(buf) == *old(buf),
    {
        proof {
            lemma_emitted_nothing(buf.sink());
        }
        Ok(())
    }

    fn fg_color<W: Write>(&self, buf: &mut W, color: Color) -> (r: fmt::Result)
        ensures
            r is Ok,
            *final(buf) == *old(buf),
    {
        proof {
            lemma_emitted_nothing(buf.sink());
        }
        Ok(())
    }

    fn bg_color<W: Write>(&self, buf: &mut W, color: Color) -> (r: fmt::Result)
        ensures
            r is Ok,
            *final(buf) == *old(buf),
    {
        proof {
            lemma_emitted_nothing(buf.sink());
        }
        Ok(())
    }
}

/// Prints controls in a form that a reader can see.
#[derive(Debug, Copy, Clone)]
pub struct VisibleEscapes {
    /// Whether to print where the cursor is moved.
    pub position: bool,
    /// Whether to print changes of style.
    pub style: bool,
}

impl Default for VisibleEscapes {
    fn default() -> (r: VisibleEscapes)
        ensures
            r == (VisibleEscapes { position: true, style: true }),
    {
        VisibleEscapes { position: true, style: true }
    }
}

impl VisibleEscapes {
    /// Prints only where the cursor is moved.
    pub fn position_only() -> (r: VisibleEscapes)
        ensures
            r == (VisibleEscapes { position: true, style: false }),
    {
        VisibleEscapes { position: true, style: false }
    }
}

/// The decimal digits of a number.
pub open spec fn decimal(n: nat) -> Seq<char>
    decreases n,
{
    if n < 10 {
        seq![('0' as nat + n) as char]
    } else {
        decimal(n / 10) + seq![('0' as nat + n % 10) as char]
    }
}

impl TUIControl for VisibleEscapes {
    open spec fn reset_style_text(&self) -> Seq<char> {
        text_if(self.style, "_R_"@)
    }

    open spec fn bold_text(&self) -> Seq<char> {
        text_if(self.style, "_B_"@)
    }

    open spec fn position_cursor_text(&self, col: u16) -> Seq<char> {
        text_if(self.position, "_C("@ + decimal(col as nat) + ")_"@)
    }

    open spec fn fg_color_text(&self, color: Color) -> Seq<char> {
        text_if(self.style, "_FG("@ + color.spec_name() + ")_"@)
    }

    open spec fn bg_color_text(&self, color: Color) -> Seq<char> {
        text_if(self.style, "_BG("@ + color.spec_name() + ")_"@)
    }

    fn reset_style<W: Write>(&self, buf: &mut W) -> (r: fmt::Result) {
        proof {
            lemma_emitted_nothing(buf.sink());
        }
        if self.style {
            buf.write_str("_R_")
        } else {
            Ok(())
        }
    }

    fn bold<W: Write>(&self, buf: &mut W) -> (r: fmt::Result) {
        proof {
            lemma_emitted_nothing(buf.sink());
        }
        if self.style {
            buf.write_str("_B_")
        } else {
            Ok(())
        }
    }

    fn position_cursor<W: Write>(&self, buf: &mut W, col: u16) -> (r: fmt::Result) {
        proof {
            lemma_emitted_nothing(buf.sink());
        }
        if self.position {
            let digits = decimal_string(col);
            write_between(buf, "_C(", digits.as_str(), ")_")
        } else {
            Ok(())
        }
    }

    fn fg_color<W: Write>(&self, buf: &mut W, color: Color) -> (r: fmt::Result) {
        proof {
            lemma_emitted_nothing(buf.sink());
        }
        if self.style {
            write_between(buf, "_FG(", color.name(), ")_")
        } else {
            Ok(())
        }
    }

    fn bg_color<W: Write>(&self, buf: &mut W, color: Color) -> (r: fmt::Result) {
        proof {
            lemma_emitted_nothing(buf.sink());
        }
        if self.style {
            write_between(buf, "_BG(", color.name(), ")_")
        } else {
            Ok(())
        }
    }
}

/// Each color is called by its own name, and a light one by that of the color with `Light` before
/// it.
pub proof fn lemma_color_names(color: Color)
    ensures
        color == Color::Black ==> color.spec_name() == seq!['B', 'l', 'a', 'c', 'k'],
        color == Color::Red ==> color.spec_name() == seq!['R', 'e', 'd'],
        color == Color::Green ==> color.spec_name() == seq!['G', 'r', 'e', 'e', 'n'],
        color == Color::Yellow ==> color.spec_name() == seq!['Y', 'e', 'l', 'l', 'o', 'w'],
        color == Color::Blue ==> color.spec_name() == seq!['B', 'l', 'u', 'e'],
        color == Color::Magenta ==> color.spec_name() == seq!['M', 'a', 'g', 'e', 'n', 't', 'a'],
        color == Color::Cyan ==> color.spec_name() == seq!['C', 'y', 'a', 'n'],
        color == Color::White ==> color.spec_name() == seq!['W', 'h', 'i', 't', 'e'],
        color == Color::LightBlack ==> color.spec_name() == seq!['L', 'i', 'g', 'h', 't']
            + Color::Black.spec_name(),
        color == Color::LightRed ==> color.spec_name() == seq!['L', 'i', 'g', 'h', 't']
            + Color::Red.spec_name(),
        color == Color::LightGreen ==> color.spec_name() == seq!['L', 'i', 'g', 'h', 't']
            + Color::Green.spec_name(),
        color == Color::LightYellow ==> color.spec_name() == seq!['L', 'i', 'g', 'h', 't']
            + Color::Yellow.spec_name(),
        color == Color::LightBlue ==> color.spec_name() == seq!['L', 'i', 'g', 'h', 't']
            + Color::Blue.spec_name(),
        color == Color::LightMagenta ==> color.spec_name() == seq!['L', 'i', 'g', 'h', 't']
            + Color::Magenta.spec_name(),
        color == Color::LightCyan ==> color.spec_name() == seq!['L', 'i', 'g', 'h', 't']
            + Color::Cyan.spec_name(),
        color == Color::LightWhite ==> color.spec_name() == seq!['L', 'i', 'g', 'h', 't']
            + Color::White.spec_name(),
{
    reveal_strlit("Black");
    reveal_strlit("Red");
    reveal_strlit("Green");
    reveal_strlit("Yellow");
    reveal_strlit("Blue");
    reveal_strlit("Magenta");
    reveal_strlit("Cyan");
    reveal_strlit("White");
    reveal_strlit("LightBlack");
    reveal_strlit("LightRed");
    reveal_strlit("LightGreen");
    reveal_strlit("LightYellow");
    reveal_strlit("LightBlue");
    reveal_strlit("LightMagenta");
    reveal_strlit("LightCyan");
    reveal_strlit("LightWhite");
    assert("Black"@ =~= seq!['B', 'l', 'a', 'c', 'k']);
    assert("Red"@ =~= seq!['R', 'e', 'd']);
    assert("Green"@ =~= seq!['G', 'r', 'e', 'e', 'n']);
    assert("Yellow"@ =~= seq!['Y', 'e', 'l', 'l', 'o', 'w']);
    assert("Blue"@ =~= seq!['B', 'l', 'u', 'e']);
    assert("Magenta"@ =~= seq!['M', 'a', 'g', 'e', 'n', 't', 'a']);
    assert("Cyan"@ =~= seq!['C', 'y', 'a', 'n']);
    assert("White"@ =~= seq!['W', 'h', 'i', 't', 'e']);
    assert("LightBlack"@ =~= seq!['L', 'i', 'g', 'h', 't'] + "Black"@);
    assert("LightRed"@ =~= seq!['L', 'i', 'g', 'h', 't'] + "Red"@);
    assert("LightGreen"@ =~= seq!['L', 'i', 'g', 'h', 't'] + "Green"@);
    assert("LightYellow"@ =~= seq!['L', 'i', 'g', 'h', 't'] + "Yellow"@);
    assert("LightBlue"@ =~= seq!['L', 'i', 'g', 'h', 't'] + "Blue"@);
    assert("LightMagenta"@ =~= seq!['L', 'i', 'g', 'h', 't'] + "Magenta"@);
    assert("LightCyan"@ =~= seq!['L', 'i', 'g', 'h', 't'] + "Cyan"@);
    assert("LightWhite"@ =~= seq!['L', 'i', 'g', 'h', 't'] + "White"@);
}

/// A number has its last digit at the end and the digits of a tenth of it before that, and no zero
/// at the start unless it is zero.
pub proof fn lemma_decimal(n: nat)
    ensures
        decimal(n).len() > 0,
        decimal(n).last() as int == '0' as int + n % 10,
        n < 10 ==> decimal(n).len() == 1,
        n >= 10 ==> decimal(n).drop_last() == decimal(n / 10),
        n > 0 ==> decimal(n)[0] != '0',
    decreases n,
{
    if n >= 10 {
        lemma_decimal(n / 10);
        assert(decimal(n).drop_last() =~= decimal(n / 10));
    }
}

/// Controls that are not printed leave nothing in the text.
pub proof fn lemma_empty_control(tui: EmptyControl, color: Color, col: u16)
    ensures
        tui.reset_style_text().len() == 0,
        tui.bold_text().len() == 0,
        tui.position_cursor_text(col).len() == 0,
        tui.fg_color_text(color).len() == 0,
        tui.bg_color_text(color).len() == 0,
{
}

/// Controls that are printed can be told apart, and say what they are for.
pub proof fn lemma_visible_escapes(tui: VisibleEscapes, color: Color, col: u16)
    ensures
        tui.style ==> {
            &&& tui.reset_style_text() == seq!['_', 'R', '_']
            &&& tui.bold_text() == seq!['_', 'B', '_']
            &&& tui.fg_color_text(color) == seq!['_', 'F', 'G', '('] + color.spec_name() + seq![
                ')',
                '_',
            ]
            &&& tui.bg_color_text(color) == seq!['_', 'B', 'G', '('] + color.spec_name() + seq![
                ')',
                '_',
            ]
        },
        !tui.style ==> {
            &&& tui.reset_style_text().len() == 0
            &&& tui.bold_text().len() == 0
            &&& tui.fg_color_text(color).len() == 0
            &&& tui.bg_color_text(color).len() == 0
        },
        tui.position ==> tui.position_cursor_text(col) == seq!['_', 'C', '('] + decimal(col as nat)
            + seq![')', '_'],
        !tui.position ==> tui.position_cursor_text(col).len() == 0,
{
    reveal_strlit("_R_");
    reveal_strlit("_B_");
    reveal_strlit("_C(");
    reveal_strlit("_FG(");
    reveal_strlit("_BG(");
    reveal_strlit(")_");
    assert("_R_"@ =~= seq!['_', 'R', '_']);
    assert("_B_"@ =~= seq!['_', 'B', '_']);
    assert("_C("@ =~= seq!['_', 'C', '(']);
    assert("_FG("@ =~= seq!['_', 'F', 'G', '(']);
    assert("_BG("@ =~= seq!['_', 'B', 'G', '(']);
    assert(")_"@ =~= seq![')', '_']);
}

/// Writes a number in decimal digits.
fn decimal_string(n: u16) -> (r: String)
    ensures
        r@ == decimal(n as nat),
    decreases n,
{
    let mut digits = if n < 10 {
        String::new()
    } else {
        decimal_string(n / 10)
    };
    let digit: u8 = '0' as u8 + (n % 10) as u8;
    let ghost before = digits@;
    digits.push(digit as char);
    assert(digits@ =~= before + seq![digit as char]);
    assert(digits@ =~= decimal(n as nat));
    digits
}

/// Prints a text with another before it and one after it.
fn write_between<W: Write>(buf: &mut W, left: &str, text: &str, right: &str) -> (r: fmt::Result)
    ensures
        emitted(old(buf).sink(), final(buf).sink(), r is Ok, left@ + text@ + right@),
{
    let ghost mut p = begin(buf.sink(), left@ + text@ + right@);
    let r = buf.write_str(left);
    proof {
        regroup3(left@, text@, right@);
        p = advance(p, buf.sink(), r is Ok, left@, text@ + right@);
    }
    r?;
    let r = buf.write_str(text);
    proof {
        p = advance(p, buf.sink(), r is Ok, text@, right@);
    }
    r?;
    let r = buf.write_str(right);
    proof {
        finish(p, buf.sink(), r is Ok, right@);
    }
    r
}

} // verus!
