use vstd::prelude::*;

use crate::text::{chars_to_string, decimal, digit_char, push_decimal};

verus! {

/// Terminal color: the default color, one of the sixteen named colors,
/// an entry of the 256-color palette, or a 24-bit truecolor value.
#[derive(Debug, Clone, Copy, PartialEq, Eq, Structural)]
pub enum Color {
    Default,
    Named(NamedColor),
    Indexed(u8),
    Rgb(u8, u8, u8),
}

/// The sixteen ANSI named colors, in palette order.
#[derive(Debug, Clone, Copy, PartialEq, Eq, Structural)]
pub enum NamedColor {
    Black,
    Red,
    Green,
    Yellow,
    Blue,
    Magenta,
    Cyan,
    White,
    BrightBlack,
    BrightRed,
    BrightGreen,
    BrightYellow,
    BrightBlue,
    BrightMagenta,
    BrightCyan,
    BrightWhite,
}

/// Character cell attributes (bold, italic, underline, etc.)
#[derive(Debug, Clone, Copy, PartialEq, Eq, Structural)]
pub struct CellAttributes {
    pub bold: bool,
    pub dim: bool,
    pub italic: bool,
    pub underline: bool,
    pub blink: bool,
    pub reverse: bool,
    pub hidden: bool,
    pub strikethrough: bool,
}

/// A single terminal cell containing a character and its display attributes
#[derive(Debug, Clone, Copy, PartialEq, Eq, Structural)]
pub struct TerminalCell {
    pub c: char,
    pub fg: Color,
    pub bg: Color,
    pub attrs: CellAttributes,
    /// Whether this cell holds the first half of a wide character (emoji, CJK, etc.)
    pub wide: bool,
}

/// Cursor position and visibility state
#[derive(Debug, Clone, Copy, PartialEq, Eq, Structural)]
pub struct Cursor {
    pub x: usize,
    pub y: usize,
    pub visible: bool,
    pub shape: CursorShape,
}

/// Saved cursor state (for DECSC/DECRC)
#[derive(Debug, Clone, Copy, PartialEq, Eq, Structural)]
pub struct SavedCursorState {
    pub cursor: Cursor,
    pub attrs: CellAttributes,
    pub fg: Color,
    pub bg: Color,
}

#[derive(Debug, Clone, Copy, PartialEq, Eq, Structural)]
pub enum CursorShape {
    Block,
    Underline,
    Bar,
}

/// VT100 character set designation
#[derive(Debug, Clone, Copy, PartialEq, Eq, Structural)]
pub enum CharacterSet {
    Ascii,
    DecSpecialGraphics,
}

/// The name under which a named color is reported: its variant name.
pub open spec fn color_name(n: NamedColor) -> Seq<char> {
    match n {
        NamedColor::Black => "Black"@,
        NamedColor::Red => "Red"@,
        NamedColor::Green => "Green"@,
        NamedColor::Yellow => "Yellow"@,
        NamedColor::Blue => "Blue"@,
        NamedColor::Magenta => "Magenta"@,
        NamedColor::Cyan => "Cyan"@,
        NamedColor::White => "White"@,
        NamedColor::BrightBlack => "BrightBlack"@,
        NamedColor::BrightRed => "BrightRed"@,
        NamedColor::BrightGreen => "BrightGreen"@,
        NamedColor::BrightYellow => "BrightYellow"@,
        NamedColor::BrightBlue => "BrightBlue"@,
        NamedColor::BrightMagenta => "BrightMagenta"@,
        NamedColor::BrightCyan => "BrightCyan"@,
        NamedColor::BrightWhite => "BrightWhite"@,
    }
}

/// The name of a named color, as a string.
pub(crate) fn named_color_name(n: &NamedColor) -> (s: String)
    ensures
        s@ == color_name(*n),
{
    let name: &str = match n {
        NamedColor::Black => "Black",
        NamedColor::Red => "Red",
        NamedColor::Green => "Green",
        NamedColor::Yellow => "Yellow",
        NamedColor::Blue => "Blue",
        NamedColor::Magenta => "Magenta",
        NamedColor::Cyan => "Cyan",
        NamedColor::White => "White",
        NamedColor::BrightBlack => "BrightBlack",
        NamedColor::BrightRed => "BrightRed",
        NamedColor::BrightGreen => "BrightGreen",
        NamedColor::BrightYellow => "BrightYellow",
        NamedColor::BrightBlue => "BrightBlue",
        NamedColor::BrightMagenta => "BrightMagenta",
        NamedColor::BrightCyan => "BrightCyan",
        NamedColor::BrightWhite => "BrightWhite",
    };
    name.to_owned()
}

/// A hexadecimal digit in lower case.
pub open spec fn hex_digit(d: nat) -> char {
    if d < 10 {
        digit_char(d)
    } else {
        ((87 + d) as u32) as char
    }
}

/// A byte as two lower-case hexadecimal digits.
pub open spec fn hex2(b: u8) -> Seq<char> {
    seq![hex_digit((b / 16) as nat), hex_digit((b % 16) as nat)]
}

/// How a color is written: `default`, the name of a named color,
/// `idx:` and the palette index, or `#` and six hexadecimal digits.
pub open spec fn color_text(c: Color) -> Seq<char> {
    match c {
        Color::Default => seq!['d', 'e', 'f', 'a', 'u', 'l', 't'],
        Color::Named(n) => color_name(n),
        Color::Indexed(i) => seq!['i', 'd', 'x', ':'] + decimal(i as nat),
        Color::Rgb(r, g, b) => seq!['#'] + hex2(r) + hex2(g) + hex2(b),
    }
}

fn hex_digit_exec(d: u8) -> (c: char)
    requires
        d < 16,
    ensures
        c == hex_digit(d as nat),
{
    let digits = vec!['0', '1', '2', '3', '4', '5', '6', '7', '8', '9', 'a', 'b', 'c', 'd', 'e', 'f'];
    let c = digits[d as usize];
    assert(c == hex_digit(d as nat)) by {
        assert(digits@ =~= Seq::new(16, |i: int| hex_digit(i as nat)));
    }
    c
}

fn push_hex2(out: &mut Vec<char>, b: u8)
    ensures
        final(out)@ == old(out)@ + hex2(b),
{
    out.push(hex_digit_exec(b / 16));
    out.push(hex_digit_exec(b % 16));
    assert(out@ =~= old(out)@ + hex2(b));
}

impl Color {
    /// The color as text (`default`, `Red`, `idx:196`, `#ff8800`).
    pub fn to_string(&self) -> (s: String)
        ensures
            s@ == color_text(*self),
    {
        match self {
            Color::Default => {
                let s = chars_to_string(&vec!['d', 'e', 'f', 'a', 'u', 'l', 't']);
                assert(s@ =~= color_text(*self));
                s
            },
            Color::Named(n) => named_color_name(n),
            Color::Indexed(i) => {
                let mut out = vec!['i', 'd', 'x', ':'];
                push_decimal(&mut out, *i as usize);
                assert(out@ =~= color_text(*self));
                chars_to_string(&out)
            },
            Color::Rgb(r, g, b) => {
                let mut out = vec!['#'];
                push_hex2(&mut out, *r);
                push_hex2(&mut out, *g);
                push_hex2(&mut out, *b);
                assert(out@ =~= color_text(*self));
                chars_to_string(&out)
            },
        }
    }
}

/// Attributes with every flag cleared.
pub open spec fn plain_attrs() -> CellAttributes {
    CellAttributes {
        bold: false,
        dim: false,
        italic: false,
        underline: false,
        blink: false,
        reverse: false,
        hidden: false,
        strikethrough: false,
    }
}

/// A blank cell: a space in the default colors with no attributes.
pub open spec fn blank_cell() -> TerminalCell {
    TerminalCell { c: ' ', fg: Color::Default, bg: Color::Default, attrs: plain_attrs(), wide: false }
}

/// The cell that the erase operations leave behind: a space, white on the
/// given background, with no attributes.
pub open spec fn erased_cell(bg: Color) -> TerminalCell {
    TerminalCell {
        c: ' ',
        fg: Color::Named(NamedColor::White),
        bg,
        attrs: plain_attrs(),
        wide: false,
    }
}

/// The cursor of a fresh terminal: top-left, visible, block-shaped.
pub open spec fn home_cursor() -> Cursor {
    Cursor { x: 0, y: 0, visible: true, shape: CursorShape::Block }
}

impl Default for Color {
    fn default() -> (c: Color)
        ensures
            c == Color::Default,
    {
        Color::Default
    }
}

impl Default for CharacterSet {
    fn default() -> (c: CharacterSet)
        ensures
            c == CharacterSet::Ascii,
    {
        CharacterSet::Ascii
    }
}

impl Default for CellAttributes {
    fn default() -> (a: CellAttributes)
        ensures
            a == plain_attrs(),
    {
        CellAttributes {
            bold: false,
            dim: false,
            italic: false,
            underline: false,
            blink: false,
            reverse: false,
            hidden: false,
            strikethrough: false,
        }
    }
}

impl Default for TerminalCell {
    fn default() -> (cell: TerminalCell)
        ensures
            cell == blank_cell(),
    {
        TerminalCell {
            c: ' ',
            fg: Color::Default,
            bg: Color::Default,
            attrs: CellAttributes::default(),
            wide: false,
        }
    }
}

impl Default for Cursor {
    fn default() -> (cursor: Cursor)
        ensures
            cursor == home_cursor(),
    {
        Cursor { x: 0, y: 0, visible: true, shape: CursorShape::Block }
    }
}

impl TerminalCell {
    /// Turns the cell back into a blank cell.
    pub fn reset(&mut self)
        ensures
            *final(self) == blank_cell(),
    {
        self.c = ' ';
        self.fg = Color::Default;
        self.bg = Color::Default;
        self.attrs = CellAttributes::default();
        self.wide = false;
    }
}

} // verus!
