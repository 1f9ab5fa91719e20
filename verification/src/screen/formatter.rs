use vstd::prelude::*;

use crate::terminal::cell::{color_name, named_color_name, plain_attrs, CellAttributes, Color, TerminalCell};
use crate::text::chars_to_string;

verus! {

/// A cell in the compact form of the structured screen output: its
/// character as a string, and only what differs from the defaults.
#[derive(Debug)]
pub struct CellInfo {
    pub c: String,
    pub fg: Option<ColorInfo>,
    pub bg: Option<ColorInfo>,
    pub attrs: Option<AttrsInfo>,
    pub wide: bool,
}

/// A color in the structured screen output; a named color is given by its
/// name.
#[derive(Debug, Clone, PartialEq, Eq)]
pub enum ColorInfo {
    Default,
    Named(String),
    Indexed(u8),
    Rgb(u8, u8, u8),
}

/// The attribute flags of a cell in the structured screen output.
#[derive(Debug, Clone, Copy, PartialEq, Eq, Structural)]
pub struct AttrsInfo {
    pub bold: bool,
    pub dim: bool,
    pub italic: bool,
    pub underline: bool,
    pub blink: bool,
    pub reverse: bool,
    pub hidden: bool,
    pub strikethrough: bool,
}

/// The mathematical form of a `ColorInfo`: the name of a named color as a
/// sequence of characters.
pub enum ColorInfoView {
    Default,
    Named(Seq<char>),
    Indexed(u8),
    Rgb(u8, u8, u8),
}

impl View for ColorInfo {
    type V = ColorInfoView;

    open spec fn view(&self) -> ColorInfoView {
        match self {
            ColorInfo::Default => ColorInfoView::Default,
            ColorInfo::Named(s) => ColorInfoView::Named(s@),
            ColorInfo::Indexed(i) => ColorInfoView::Indexed(*i),
            ColorInfo::Rgb(r, g, b) => ColorInfoView::Rgb(*r, *g, *b),
        }
    }
}

/// How a color is reported.
pub open spec fn color_info(c: Color) -> ColorInfoView {
    match c {
        Color::Default => ColorInfoView::Default,
        Color::Named(n) => ColorInfoView::Named(color_name(n)),
        Color::Indexed(i) => ColorInfoView::Indexed(i),
        Color::Rgb(r, g, b) => ColorInfoView::Rgb(r, g, b),
    }
}

/// How a set of attribute flags is reported: flag for flag.
pub open spec fn attrs_info(a: CellAttributes) -> AttrsInfo {
    AttrsInfo {
        bold: a.bold,
        dim: a.dim,
        italic: a.italic,
        underline: a.underline,
        blink: a.blink,
        reverse: a.reverse,
        hidden: a.hidden,
        strikethrough: a.strikethrough,
    }
}

impl ColorInfo {
    /// The report of a color.
    pub fn from_color(color: &Color) -> (info: ColorInfo)
        ensures
            info@ == color_info(*color),
    {
        match color {
            Color::Default => ColorInfo::Default,
            Color::Named(n) => ColorInfo::Named(named_color_name(n)),
            Color::Indexed(i) => ColorInfo::Indexed(*i),
            Color::Rgb(r, g, b) => ColorInfo::Rgb(*r, *g, *b),
        }
    }
}

impl AttrsInfo {
    /// The report of a set of attribute flags.
    pub fn from_attrs(attrs: &CellAttributes) -> (info: AttrsInfo)
        ensures
            info == attrs_info(*attrs),
    {
        AttrsInfo {
            bold: attrs.bold,
            dim: attrs.dim,
            italic: attrs.italic,
            underline: attrs.underline,
            blink: attrs.blink,
            reverse: attrs.reverse,
            hidden: attrs.hidden,
            strikethrough: attrs.strikethrough,
        }
    }
}

/// Convert a TerminalCell to a compact CellInfo (omits defaults)
pub fn cell_to_info(cell: &TerminalCell) -> (info: CellInfo)
    ensures
        info.c@ == seq![cell.c],
        info.fg is Some <==> cell.fg != Color::Default,
        info.fg matches Some(f) ==> f@ == color_info(cell.fg),
        info.bg is Some <==> cell.bg != Color::Default,
        info.bg matches Some(b) ==> b@ == color_info(cell.bg),
        info.attrs == (if cell.attrs != plain_attrs() { Some(attrs_info(cell.attrs)) } else { None::<AttrsInfo> }),
        info.wide == cell.wide,
{
    let fg = if cell.fg != Color::Default {
        Some(ColorInfo::from_color(&cell.fg))
    } else {
        None
    };
    let bg = if cell.bg != Color::Default {
        Some(ColorInfo::from_color(&cell.bg))
    } else {
        None
    };
    let attrs = if cell.attrs != CellAttributes::default() {
        Some(AttrsInfo::from_attrs(&cell.attrs))
    } else {
        None
    };
    let c = chars_to_string(&vec![cell.c]);
    CellInfo { c, fg, bg, attrs, wide: cell.wide }
}

} // verus!
