use vstd::prelude::*;

use super::cell::{CharacterSet, Color, Cursor, CursorShape, NamedColor};
use super::grid::TerminalGrid;
use super::model::{last_index, min_nat, plain_pen, DecModes, GridView, Pen};
use crate::text::{chars_to_string, decimal, push_decimal};

verus! {

/// The parameters of a control sequence, each a list of sub-parameters.
pub open spec fn params_view(params: Seq<Vec<u16>>) -> Seq<Seq<u16>> {
    params.map_values(|p: Vec<u16>| p@)
}

/// Whether every parameter has at least one value (as the escape-sequence
/// parser delivers them).
pub open spec fn params_nonempty(ps: Seq<Seq<u16>>) -> bool {
    forall|k: int| 0 <= k < ps.len() ==> (#[trigger] ps[k]).len() > 0
}

/// The first value of parameter `k`, if there is one.
pub open spec fn param(ps: Seq<Seq<u16>>, k: int) -> Option<u16> {
    if 0 <= k < ps.len() && ps[k].len() > 0 {
        Some(ps[k][0])
    } else {
        None
    }
}

/// Parameter `k`, with `default` standing for a missing or zero value.
pub open spec fn param_or(ps: Seq<Seq<u16>>, k: int, default: u16) -> u16 {
    match param(ps, k) {
        Some(v) => if v == 0 {
            default
        } else {
            v
        },
        None => default,
    }
}

/// The selector parameter of J, K, n, q and t (0 when missing).
pub open spec fn mode_param(ps: Seq<Seq<u16>>) -> u16 {
    match param(ps, 0) {
        Some(v) => v,
        None => 0,
    }
}

/// Named color `k` (0..8) of the standard palette.
pub open spec fn ansi_color(k: int) -> NamedColor {
    if k == 0 { NamedColor::Black }
    else if k == 1 { NamedColor::Red }
    else if k == 2 { NamedColor::Green }
    else if k == 3 { NamedColor::Yellow }
    else if k == 4 { NamedColor::Blue }
    else if k == 5 { NamedColor::Magenta }
    else if k == 6 { NamedColor::Cyan }
    else { NamedColor::White }
}

/// Named color `k` (0..8) of the bright palette.
pub open spec fn bright_color(k: int) -> NamedColor {
    if k == 0 { NamedColor::BrightBlack }
    else if k == 1 { NamedColor::BrightRed }
    else if k == 2 { NamedColor::BrightGreen }
    else if k == 3 { NamedColor::BrightYellow }
    else if k == 4 { NamedColor::BrightBlue }
    else if k == 5 { NamedColor::BrightMagenta }
    else if k == 6 { NamedColor::BrightCyan }
    else { NamedColor::BrightWhite }
}

/// The index after the SGR parameter group that starts at `i`: the
/// extended colors 38 and 48 take `5;n` or `2;r;g;b` after them.
pub open spec fn sgr_next(ps: Seq<Seq<u16>>, i: int) -> int {
    let p = ps[i][0];
    if p == 38 || p == 48 {
        if i + 1 < ps.len() {
            let sel = ps[i + 1][0];
            if sel == 2 {
                if i + 5 <= ps.len() { i + 5 } else { ps.len() as int }
            } else if sel == 5 {
                if i + 3 <= ps.len() { i + 3 } else { ps.len() as int }
            } else {
                i + 2
            }
        } else {
            i + 1
        }
    } else {
        i + 1
    }
}

/// The color that an extended color group (38 or 48) at `i` selects, if it
/// is complete.
pub open spec fn sgr_extended_color(ps: Seq<Seq<u16>>, i: int) -> Option<Color> {
    if i + 1 < ps.len() {
        let sel = ps[i + 1][0];
        if sel == 2 && i + 5 <= ps.len() {
            Some(Color::Rgb(ps[i + 2][0] as u8, ps[i + 3][0] as u8, ps[i + 4][0] as u8))
        } else if sel == 5 && i + 3 <= ps.len() {
            Some(Color::Indexed(ps[i + 2][0] as u8))
        } else {
            None
        }
    } else {
        None
    }
}

/// The pen after the SGR parameter group at `i`.
pub open spec fn sgr_apply(pen: Pen, ps: Seq<Seq<u16>>, i: int) -> Pen {
    let p = ps[i][0];
    let a = pen.attrs;
    if p == 0 { plain_pen() }
    else if p == 1 { Pen { attrs: super::cell::CellAttributes { bold: true, ..a }, ..pen } }
    else if p == 2 { Pen { attrs: super::cell::CellAttributes { dim: true, ..a }, ..pen } }
    else if p == 3 { Pen { attrs: super::cell::CellAttributes { italic: true, ..a }, ..pen } }
    else if p == 4 { Pen { attrs: super::cell::CellAttributes { underline: true, ..a }, ..pen } }
    else if p == 5 { Pen { attrs: super::cell::CellAttributes { blink: true, ..a }, ..pen } }
    else if p == 7 { Pen { attrs: super::cell::CellAttributes { reverse: true, ..a }, ..pen } }
    else if p == 8 { Pen { attrs: super::cell::CellAttributes { hidden: true, ..a }, ..pen } }
    else if p == 9 { Pen { attrs: super::cell::CellAttributes { strikethrough: true, ..a }, ..pen } }
    else if p == 22 { Pen { attrs: super::cell::CellAttributes { bold: false, dim: false, ..a }, ..pen } }
    else if p == 23 { Pen { attrs: super::cell::CellAttributes { italic: false, ..a }, ..pen } }
    else if p == 24 { Pen { attrs: super::cell::CellAttributes { underline: false, ..a }, ..pen } }
    else if p == 25 { Pen { attrs: super::cell::CellAttributes { blink: false, ..a }, ..pen } }
    else if p == 27 { Pen { attrs: super::cell::CellAttributes { reverse: false, ..a }, ..pen } }
    else if p == 28 { Pen { attrs: super::cell::CellAttributes { hidden: false, ..a }, ..pen } }
    else if p == 29 { Pen { attrs: super::cell::CellAttributes { strikethrough: false, ..a }, ..pen } }
    else if 30 <= p <= 37 { Pen { fg: Color::Named(ansi_color(p - 30)), ..pen } }
    else if p == 38 {
        match sgr_extended_color(ps, i) {
            Some(c) => Pen { fg: c, ..pen },
            None => pen,
        }
    }
    else if p == 39 { Pen { fg: Color::Default, ..pen } }
    else if 40 <= p <= 47 { Pen { bg: Color::Named(ansi_color(p - 40)), ..pen } }
    else if p == 48 {
        match sgr_extended_color(ps, i) {
            Some(c) => Pen { bg: c, ..pen },
            None => pen,
        }
    }
    else if p == 49 { Pen { bg: Color::Default, ..pen } }
    else if 90 <= p <= 97 { Pen { fg: Color::Named(bright_color(p - 90)), ..pen } }
    else if 100 <= p <= 107 { Pen { bg: Color::Named(bright_color(p - 100)), ..pen } }
    else { pen }
}

/// The pen after the SGR parameter groups from index `i` on.
pub open spec fn sgr_run(pen: Pen, ps: Seq<Seq<u16>>, i: int) -> Pen
    decreases ps.len() - i,
    when 0 <= i
{
    if i >= ps.len() {
        pen
    } else {
        sgr_run(sgr_apply(pen, ps, i), ps, sgr_next(ps, i))
    }
}

/// Select Graphic Rendition: the pen after `CSI params m` (no parameters
/// at all resets it).
pub open spec fn sgr(pen: Pen, ps: Seq<Seq<u16>>) -> Pen {
    if ps.len() == 0 {
        plain_pen()
    } else {
        sgr_run(pen, ps, 0)
    }
}

/// Setting (`on`) or resetting one ANSI mode (`CSI n h` / `CSI n l`).
pub open spec fn ansi_mode(g: GridView, code: u16, on: bool) -> GridView {
    if code == 4 {
        g.with_modes(DecModes { insert_mode: on, ..g.modes })
    } else if code == 20 {
        g.with_modes(DecModes { lnm_mode: on, ..g.modes })
    } else {
        g
    }
}

/// The ANSI modes of the first `n` parameters, in order.
pub open spec fn ansi_modes(g: GridView, ps: Seq<Seq<u16>>, n: nat, on: bool) -> GridView
    decreases n,
{
    if n == 0 {
        g
    } else {
        ansi_mode(ansi_modes(g, ps, (n - 1) as nat, on), ps[n - 1][0], on)
    }
}

/// The plain flag modes among the DEC private modes: the modes after
/// setting (`on`) or resetting the one that `code` names.
#[verifier::opaque]
pub open spec fn dec_flag(m: DecModes, code: u16, on: bool) -> Option<DecModes> {
    if code == 1 { Some(DecModes { application_cursor_keys: on, ..m }) }
    else if code == 7 { Some(DecModes { auto_wrap_mode: on, ..m }) }
    else if code == 1000 { Some(DecModes { mouse_normal_tracking: on, ..m }) }
    else if code == 1002 { Some(DecModes { mouse_button_tracking: on, ..m }) }
    else if code == 1003 { Some(DecModes { mouse_any_event_tracking: on, ..m }) }
    else if code == 1004 { Some(DecModes { focus_event_mode: on, ..m }) }
    else if code == 1005 { Some(DecModes { mouse_utf8_mode: on, ..m }) }
    else if code == 1006 { Some(DecModes { mouse_sgr_mode: on, ..m }) }
    else if code == 1015 { Some(DecModes { mouse_urxvt_mode: on, ..m }) }
    else if code == 2004 { Some(DecModes { bracketed_paste_mode: on, ..m }) }
    else { None }
}

/// Setting (`on`) or resetting one DEC private mode (`CSI ? n h` / `CSI ? n l`).
pub open spec fn dec_mode(g: GridView, code: u16, on: bool) -> GridView {
    if let Some(m) = dec_flag(g.modes, code, on) { g.with_modes(m) }
    else if code == 6 { g.set_origin_mode(on) }
    else if code == 25 { g.with_cursor(Cursor { visible: on, ..g.cur.cursor }) }
    else { dec_screen_mode(g, code, on) }
}

/// The DEC private modes that switch screens (47, 1047, 1049), save or
/// restore the cursor (1048) or synchronize output (2026); other codes
/// change nothing.
#[verifier::opaque]
pub open spec fn dec_screen_mode(g: GridView, code: u16, on: bool) -> GridView {
    if code == 47 || code == 1047 || code == 1049 {
        if on { g.use_alt_screen() } else { g.use_main_screen() }
    }
    else if code == 1048 {
        if on { g.save_cursor() } else { g.restore_cursor() }
    }
    else if code == 2026 {
        if on { g.begin_synchronized_output() } else { g.end_synchronized_output() }
    }
    else { g }
}

/// The DEC private modes of the first `n` parameters, in order.
pub open spec fn dec_modes(g: GridView, ps: Seq<Seq<u16>>, n: nat, on: bool) -> GridView
    decreases n,
{
    if n == 0 {
        g
    } else {
        dec_mode(dec_modes(g, ps, (n - 1) as nat, on), ps[n - 1][0], on)
    }
}

/// `ESC [ ? 6 2 ; 0 c`: primary device attributes (VT220).
pub open spec fn primary_device_attributes() -> Seq<char> {
    seq!['\x1b', '[', '?', '6', '2', ';', '0', 'c']
}

/// `ESC [ > 0 ; 0 ; 0 c`: secondary device attributes.
pub open spec fn secondary_device_attributes() -> Seq<char> {
    seq!['\x1b', '[', '>', '0', ';', '0', ';', '0', 'c']
}

/// `ESC [ 0 n`: status report "terminal OK".
pub open spec fn status_ok() -> Seq<char> {
    seq!['\x1b', '[', '0', 'n']
}

/// `ESC [ ? row ; col R`: the DEC form of the cursor position report.
pub open spec fn dec_cursor_position_report(row: nat, col: nat) -> Seq<char> {
    seq!['\x1b', '[', '?'] + decimal(row) + seq![';'] + decimal(col) + seq!['R']
}

/// `ESC [ kind ; rows ; cols t`: a window size report.
pub open spec fn size_report(kind: char, rows: nat, cols: nat) -> Seq<char> {
    seq!['\x1b', '[', kind, ';'] + decimal(rows) + seq![';'] + decimal(cols) + seq!['t']
}

pub open spec fn push_response(g: GridView, r: Seq<char>) -> GridView {
    g.with_responses(g.responses.push(r))
}

/// Cursor movement sequences: CUU, CUD, CUF, CUB, CNL, CPL, CHA, CUP, HVP, VPA.
pub open spec fn is_move_final(c: char) -> bool {
    c == 'A' || c == 'B' || c == 'C' || c == 'D' || c == 'E' || c == 'F' || c == 'G' || c == 'H'
        || c == 'f' || c == 'd'
}

/// Editing sequences: ED, EL, DCH, ICH, ECH, IL, DL, SU, SD.
pub open spec fn is_edit_final(c: char) -> bool {
    c == 'J' || c == 'K' || c == 'P' || c == '@' || c == 'X' || c == 'L' || c == 'T' || c == 'M'
        || c == 'S'
}

/// CUU, CUD, CUF, CUB, CNL and CPL by `n`.
pub open spec fn relative_move(g: GridView, n: u16, c: char) -> GridView {
    if c == 'A' { g.move_cursor(0, -(n as int)) }
    else if c == 'B' { g.move_cursor(0, n as int) }
    else if c == 'C' { g.move_cursor(n as int, 0) }
    else if c == 'D' { g.move_cursor(-(n as int), 0) }
    else if c == 'E' { g.move_cursor(0, n as int).with_cursor_x(0) }
    else { g.move_cursor(0, -(n as int)).with_cursor_x(0) }
}

pub open spec fn csi_move(g: GridView, ps: Seq<Seq<u16>>, c: char) -> GridView {
    let n = param_or(ps, 0, 1);
    if c == 'A' || c == 'B' || c == 'C' || c == 'D' || c == 'E' || c == 'F' { relative_move(g, n, c) }
    else if c == 'G' {
        g.with_cursor_x(min_nat((n - 1) as nat, last_index(g.screen.cols)))
    }
    else if c == 'H' || c == 'f' {
        g.goto_origin_aware((param_or(ps, 1, 1) - 1) as nat, (n - 1) as nat)
    }
    else {
        let y = (n - 1) as nat;
        if g.modes.origin_mode {
            g.with_cursor_y(min_nat(g.cur.top + y, g.cur.bottom))
        } else {
            g.with_cursor_y(min_nat(y, last_index(g.screen.rows_count)))
        }
    }
}

pub open spec fn csi_edit(g: GridView, ps: Seq<Seq<u16>>, c: char) -> GridView {
    let n = param_or(ps, 0, 1);
    if c == 'J' {
        let mode = mode_param(ps);
        if mode == 0 { g.erase_to_eos() }
        else if mode == 1 { g.erase_from_bos() }
        else if mode == 2 || mode == 3 { g.clear_screen() }
        else { g }
    }
    else if c == 'K' {
        let mode = mode_param(ps);
        if mode == 0 { g.erase_to_eol() }
        else if mode == 1 { g.erase_to_bol() }
        else if mode == 2 { g.clear_line() }
        else { g }
    }
    else if c == 'P' { g.delete_chars(n as nat) }
    else if c == '@' { g.insert_chars(n as nat) }
    else if c == 'X' { g.erase_chars(n as nat) }
    else if c == 'L' || c == 'T' { g.scroll_down(n as nat) }
    else { g.scroll_up(n as nat) }
}

pub open spec fn csi_other(g: GridView, ps: Seq<Seq<u16>>, c: char) -> GridView {
    let n = param_or(ps, 0, 1);
    if c == 'c' { push_response(g, primary_device_attributes()) }
    else if c == 'h' { ansi_modes(g, ps, ps.len(), true) }
    else if c == 'l' { ansi_modes(g, ps, ps.len(), false) }
    else if c == 'n' {
        let mode = mode_param(ps);
        if mode == 5 { push_response(g, status_ok()) }
        else if mode == 6 {
            push_response(g, super::model::cursor_position_report(g.report_position().0, g.report_position().1))
        }
        else { g }
    }
    else if c == 'm' { g.with_pen(sgr(g.pen, ps)) }
    else if c == 'r' {
        let top = n;
        let bottom = param_or(ps, 1, g.screen.rows_count as u16);
        g.set_scroll_region((top - 1) as nat, if bottom >= 1 { (bottom - 1) as nat } else { 0 })
    }
    else if c == 's' { g.save_cursor() }
    else if c == 'u' { g.restore_cursor_position() }
    else if c == 't' {
        let mode = mode_param(ps);
        if mode == 18 { push_response(g, size_report('8', g.screen.rows_count, g.screen.cols)) }
        else if mode == 19 { push_response(g, size_report('9', g.screen.rows_count, g.screen.cols)) }
        else { g }
    }
    else { g }
}

/// A control sequence without intermediates.
pub open spec fn csi_plain(g: GridView, ps: Seq<Seq<u16>>, c: char) -> GridView {
    if is_move_final(c) {
        csi_move(g, ps, c)
    } else if is_edit_final(c) {
        csi_edit(g, ps, c)
    } else {
        csi_other(g, ps, c)
    }
}

/// A control sequence with the `?` intermediate.
pub open spec fn csi_private(g: GridView, ps: Seq<Seq<u16>>, c: char) -> GridView {
    if c == 'h' { dec_modes(g, ps, ps.len(), true) }
    else if c == 'l' { dec_modes(g, ps, ps.len(), false) }
    else if c == 'n' {
        let mode = mode_param(ps);
        if mode == 6 {
            push_response(g, dec_cursor_position_report(g.report_position().0, g.report_position().1))
        }
        else if mode == 15 { push_response(g, seq!['\x1b', '[', '?', '1', '3', 'n']) }
        else if mode == 25 { push_response(g, seq!['\x1b', '[', '?', '2', '1', 'n']) }
        else if mode == 26 { push_response(g, seq!['\x1b', '[', '?', '2', '7', ';', '1', 'n']) }
        else { g }
    }
    else { g }
}

/// The shape that `CSI n SP q` (DECSCUSR) selects.
pub open spec fn cursor_shape_for(n: u16) -> CursorShape {
    if n == 3 || n == 4 {
        CursorShape::Underline
    } else if n == 5 || n == 6 {
        CursorShape::Bar
    } else {
        CursorShape::Block
    }
}

/// The effect of a control sequence (CSI) on the grid.
pub open spec fn csi(g: GridView, ps: Seq<Seq<u16>>, inter: Seq<u8>, ignore: bool, c: char) -> GridView {
    if ignore {
        g
    } else if inter.len() == 0 {
        csi_plain(g, ps, c)
    } else if inter.len() == 1 && inter[0] == 62 {
        if c == 'c' { push_response(g, secondary_device_attributes()) } else { g }
    } else if inter.len() == 1 && inter[0] == 63 {
        csi_private(g, ps, c)
    } else if inter.len() == 1 && inter[0] == 32 {
        if c == 'q' {
            g.with_cursor(Cursor { shape: cursor_shape_for(mode_param(ps)), ..g.cur.cursor })
        } else {
            g
        }
    } else {
        g
    }
}

/// The effect of an escape sequence (ESC) on the grid.
pub open spec fn esc(g: GridView, inter: Seq<u8>, byte: u8) -> GridView {
    if inter.len() == 0 {
        if byte == 0x44 { g.put_char('\n') }
        else if byte == 0x4d { g.reverse_linefeed() }
        else if byte == 0x45 { g.next_line() }
        else if byte == 0x37 { g.save_cursor() }
        else if byte == 0x38 { g.restore_cursor() }
        else if byte == 0x63 { g.reset() }
        else { g }
    } else if inter.len() == 1 && (inter[0] == 0x28 || inter[0] == 0x29) {
        let set = if byte == 0x30 {
            Some(CharacterSet::DecSpecialGraphics)
        } else if byte == 0x42 || byte == 0x41 {
            Some(CharacterSet::Ascii)
        } else {
            None
        };
        match set {
            Some(cs) => if inter[0] == 0x28 {
                g.with_charsets(super::model::Charsets { g0: cs, ..g.charsets })
            } else {
                g.with_charsets(super::model::Charsets { g1: cs, ..g.charsets })
            },
            None => g,
        }
    } else {
        g
    }
}

/// The effect of a C0 control byte on the grid.
pub open spec fn execute_byte(g: GridView, byte: u8) -> GridView {
    if byte == 0x0a || byte == 0x0b { g.put_char('\n') }
    else if byte == 0x0d { g.put_char('\r') }
    else if byte == 0x09 { g.put_char('\t') }
    else if byte == 0x08 { g.put_char('\x08') }
    else if byte == 0x07 { GridView { bell_pending: true, ..g } }
    else if byte == 0x0c { g.clear_screen().goto(0, 0) }
    else if byte == 0x0e { g.with_charsets(super::model::Charsets { use_g0: false, ..g.charsets }) }
    else if byte == 0x0f { g.with_charsets(super::model::Charsets { use_g0: true, ..g.charsets }) }
    else { g }
}

/// Whether moving the cursor by a sequence's largest count stays within
/// `isize` (the grid is small enough for every cursor movement).
pub open spec fn room_for_moves(g: GridView) -> bool {
    g.screen.cols + 65536 <= isize::MAX && g.screen.rows_count + 65536 <= isize::MAX
}

/// ANSI escape sequence handler: applies what the escape-sequence parser
/// recognizes to a grid.
pub struct AnsiHandler<'a> {
    pub grid: &'a mut TerminalGrid,
}

/// The first value of parameter `k`, if there is one.
fn param_value(params: &Vec<Vec<u16>>, k: usize) -> (r: Option<u16>)
    ensures
        r == param(params_view(params@), k as int),
{
    if k < params.len() && params[k].len() > 0 {
        Some(params[k][0])
    } else {
        None
    }
}

/// The selector parameter (0 when missing).
fn mode_value(params: &Vec<Vec<u16>>) -> (r: u16)
    ensures
        r == mode_param(params_view(params@)),
{
    match param_value(params, 0) {
        Some(v) => v,
        None => 0,
    }
}

fn named_color(k: u16) -> (c: NamedColor)
    requires
        k < 8,
    ensures
        c == ansi_color(k as int),
{
    if k == 0 { NamedColor::Black }
    else if k == 1 { NamedColor::Red }
    else if k == 2 { NamedColor::Green }
    else if k == 3 { NamedColor::Yellow }
    else if k == 4 { NamedColor::Blue }
    else if k == 5 { NamedColor::Magenta }
    else if k == 6 { NamedColor::Cyan }
    else { NamedColor::White }
}

fn bright_named_color(k: u16) -> (c: NamedColor)
    requires
        k < 8,
    ensures
        c == bright_color(k as int),
{
    if k == 0 { NamedColor::BrightBlack }
    else if k == 1 { NamedColor::BrightRed }
    else if k == 2 { NamedColor::BrightGreen }
    else if k == 3 { NamedColor::BrightYellow }
    else if k == 4 { NamedColor::BrightBlue }
    else if k == 5 { NamedColor::BrightMagenta }
    else if k == 6 { NamedColor::BrightCyan }
    else { NamedColor::BrightWhite }
}

proof fn lemma_params_nonempty(params: Seq<Vec<u16>>)
    requires
        params_nonempty(params_view(params)),
    ensures
        forall|k: int| 0 <= k < params.len() ==> (#[trigger] params[k])@.len() > 0,
{
    assert forall|k: int| 0 <= k < params.len() implies (#[trigger] params[k])@.len() > 0 by {
        assert(params_view(params)[k] == params[k]@);
    }
}

/// The extended color group (38 or 48) at `i`, if it is complete.
fn extended_color(params: &Vec<Vec<u16>>, i: usize) -> (r: Option<Color>)
    requires
        params_nonempty(params_view(params@)),
        i < params.len(),
    ensures
        r == sgr_extended_color(params_view(params@), i as int),
{
    let ghost ps = params_view(params@);
    proof {
        lemma_params_nonempty(params@);
    }
    let n = params.len();
    if n - i > 1 {
        let sel = params[i + 1][0];
        assert(sel == ps[i + 1][0]);
        if sel == 2 && n - i >= 5 {
            assert(ps[i as int + 2] == params@[i as int + 2]@);
            assert(ps[i as int + 3] == params@[i as int + 3]@);
            assert(ps[i as int + 4] == params@[i as int + 4]@);
            Some(Color::Rgb(
                #[verifier::truncate] (params[i + 2][0] as u8),
                #[verifier::truncate] (params[i + 3][0] as u8),
                #[verifier::truncate] (params[i + 4][0] as u8),
            ))
        } else if sel == 5 && n - i >= 3 {
            assert(ps[i as int + 2] == params@[i as int + 2]@);
            Some(Color::Indexed(#[verifier::truncate] (params[i + 2][0] as u8)))
        } else {
            None
        }
    } else {
        None
    }
}

/// The index after the SGR parameter group at `i`.
fn next_group(params: &Vec<Vec<u16>>, i: usize) -> (r: usize)
    requires
        params_nonempty(params_view(params@)),
        i < params.len(),
    ensures
        r == sgr_next(params_view(params@), i as int),
        i < r <= params.len(),
{
    let ghost ps = params_view(params@);
    proof {
        lemma_params_nonempty(params@);
    }
    let n = params.len();
    let p = params[i][0];
    assert(p == ps[i as int][0]);
    if p == 38 || p == 48 {
        if n - i > 1 {
            let sel = params[i + 1][0];
            assert(sel == ps[i + 1][0]);
            if sel == 2 {
                if n - i >= 5 { i + 5 } else { n }
            } else if sel == 5 {
                if n - i >= 3 { i + 3 } else { n }
            } else {
                i + 2
            }
        } else {
            i + 1
        }
    } else {
        i + 1
    }
}

/// The attributes after an attribute code (1..29) of SGR.
fn apply_attribute(a: super::cell::CellAttributes, p: u16) -> (r: super::cell::CellAttributes)
    requires
        1 <= p <= 29,
    ensures
        r == sgr_apply(Pen { attrs: a, fg: Color::Default, bg: Color::Default }, seq![seq![p]], 0).attrs,
{
    if p == 1 { super::cell::CellAttributes { bold: true, ..a } }
    else if p == 2 { super::cell::CellAttributes { dim: true, ..a } }
    else if p == 3 { super::cell::CellAttributes { italic: true, ..a } }
    else if p == 4 { super::cell::CellAttributes { underline: true, ..a } }
    else if p == 5 { super::cell::CellAttributes { blink: true, ..a } }
    else if p == 7 { super::cell::CellAttributes { reverse: true, ..a } }
    else if p == 8 { super::cell::CellAttributes { hidden: true, ..a } }
    else if p == 9 { super::cell::CellAttributes { strikethrough: true, ..a } }
    else if p == 22 { super::cell::CellAttributes { bold: false, dim: false, ..a } }
    else if p == 23 { super::cell::CellAttributes { italic: false, ..a } }
    else if p == 24 { super::cell::CellAttributes { underline: false, ..a } }
    else if p == 25 { super::cell::CellAttributes { blink: false, ..a } }
    else if p == 27 { super::cell::CellAttributes { reverse: false, ..a } }
    else if p == 28 { super::cell::CellAttributes { hidden: false, ..a } }
    else if p == 29 { super::cell::CellAttributes { strikethrough: false, ..a } }
    else { a }
}

/// The pen after the SGR parameter group at `i`.
#[verifier::spinoff_prover]
#[verifier::rlimit(40)]
fn apply_group(pen: Pen, params: &Vec<Vec<u16>>, i: usize) -> (r: Pen)
    requires
        params_nonempty(params_view(params@)),
        i < params.len(),
    ensures
        r == sgr_apply(pen, params_view(params@), i as int),
{
    let ghost ps = params_view(params@);
    proof {
        lemma_params_nonempty(params@);
    }
    let p = params[i][0];
    assert(p == ps[i as int][0]);
    if p == 0 {
        Pen { attrs: super::cell::CellAttributes::default(), fg: Color::Default, bg: Color::Default }
    } else if 1 <= p && p <= 29 {
        Pen { attrs: apply_attribute(pen.attrs, p), ..pen }
    } else if 30 <= p && p <= 37 {
        Pen { fg: Color::Named(named_color(p - 30)), ..pen }
    } else if p == 38 {
        match extended_color(params, i) {
            Some(c) => Pen { fg: c, ..pen },
            None => pen,
        }
    } else if p == 39 {
        Pen { fg: Color::Default, ..pen }
    } else if 40 <= p && p <= 47 {
        Pen { bg: Color::Named(named_color(p - 40)), ..pen }
    } else if p == 48 {
        match extended_color(params, i) {
            Some(c) => Pen { bg: c, ..pen },
            None => pen,
        }
    } else if p == 49 {
        Pen { bg: Color::Default, ..pen }
    } else if 90 <= p && p <= 97 {
        Pen { fg: Color::Named(bright_named_color(p - 90)), ..pen }
    } else if 100 <= p && p <= 107 {
        Pen { bg: Color::Named(bright_named_color(p - 100)), ..pen }
    } else {
        pen
    }
}

/// The modes after setting or resetting a plain flag mode.
fn dec_flag_exec(m: DecModes, code: u16, on: bool) -> (r: Option<DecModes>)
    ensures
        r == dec_flag(m, code, on),
        r matches Some(m2) ==> m2.synchronized_output == m.synchronized_output
            && m2.origin_mode == m.origin_mode,
{
    reveal(dec_flag);
    if code == 1 { Some(DecModes { application_cursor_keys: on, ..m }) }
    else if code == 7 { Some(DecModes { auto_wrap_mode: on, ..m }) }
    else if code == 1000 { Some(DecModes { mouse_normal_tracking: on, ..m }) }
    else if code == 1002 { Some(DecModes { mouse_button_tracking: on, ..m }) }
    else if code == 1003 { Some(DecModes { mouse_any_event_tracking: on, ..m }) }
    else if code == 1004 { Some(DecModes { focus_event_mode: on, ..m }) }
    else if code == 1005 { Some(DecModes { mouse_utf8_mode: on, ..m }) }
    else if code == 1006 { Some(DecModes { mouse_sgr_mode: on, ..m }) }
    else if code == 1015 { Some(DecModes { mouse_urxvt_mode: on, ..m }) }
    else if code == 2004 { Some(DecModes { bracketed_paste_mode: on, ..m }) }
    else { None }
}

/// Queues a reply made of the given characters.
fn respond(grid: &mut TerminalGrid, chars: &Vec<char>)
    ensures
        final(grid)@ == push_response(old(grid)@, chars@),
{
    let r = chars_to_string(chars);
    grid.queue_response(r);
}

/// Moves the cursor by a count taken from a sequence.
fn move_by(grid: &mut TerminalGrid, dx: isize, dy: isize)
    requires
        old(grid)@.wf(),
        room_for_moves(old(grid)@),
        -65535 <= dx <= 65535,
        -65535 <= dy <= 65535,
    ensures
        final(grid)@ == old(grid)@.move_cursor(dx as int, dy as int),
        final(grid)@.wf(),
{
    grid.move_cursor(dx, dy);
}

/// Moves the cursor to column 0 of its row (the row and visibility are kept).
fn cursor_to_column(grid: &mut TerminalGrid, x: usize)
    requires
        old(grid)@.wf(),
        x <= last_index(old(grid)@.screen.cols),
    ensures
        final(grid)@ == old(grid)@.with_cursor_x(x as nat),
        final(grid)@.wf(),
{
    let c = grid.cursor();
    grid.set_cursor(x, c.y, c.visible);
}

fn set_ansi_modes(grid: &mut TerminalGrid, params: &Vec<Vec<u16>>, on: bool)
    requires
        old(grid)@.wf(),
        params_nonempty(params_view(params@)),
    ensures
        final(grid)@ == ansi_modes(old(grid)@, params_view(params@), params@.len(), on),
        final(grid)@.wf(),
{
    let ghost ps = params_view(params@);
    proof {
        lemma_params_nonempty(params@);
    }
    let mut i: usize = 0;
    while i < params.len()
        invariant
            i <= params.len(),
            ps == params_view(params@),
            forall|k: int| 0 <= k < params@.len() ==> (#[trigger] params@[k])@.len() > 0,
            grid@ == ansi_modes(old(grid)@, ps, i as nat, on),
            grid@.wf(),
        decreases params.len() - i,
    {
        let code = params[i][0];
        assert(code == ps[i as int][0]);
        set_ansi_mode(grid, code, on);
        i = i + 1;
    }
}

#[verifier::spinoff_prover]
fn set_dec_mode(grid: &mut TerminalGrid, code: u16, on: bool)
    requires
        old(grid)@.wf(),
    ensures
        final(grid)@ == dec_mode(old(grid)@, code, on),
        final(grid)@.wf(),
{
    let m = grid.modes();
    if let Some(m2) = dec_flag_exec(m, code, on) {
        grid.set_modes(m2);
    } else if code == 6 {
        grid.set_origin_mode(on);
    } else if code == 25 {
        let c = grid.cursor();
        grid.set_cursor_style(on, c.shape);
    } else {
        set_screen_mode(grid, code, on);
    }
}

/// The DEC private modes that switch screens, save the cursor or
/// synchronize output.
#[verifier::spinoff_prover]
fn set_screen_mode(grid: &mut TerminalGrid, code: u16, on: bool)
    requires
        old(grid)@.wf(),
    ensures
        final(grid)@ == dec_screen_mode(old(grid)@, code, on),
        final(grid)@.wf(),
{
    reveal(dec_screen_mode);
    if code == 47 || code == 1047 || code == 1049 {
        if on {
            grid.use_alt_screen();
        } else {
            grid.use_main_screen();
        }
    } else if code == 1048 {
        if on {
            grid.save_cursor();
        } else {
            grid.restore_cursor();
        }
    } else if code == 2026 {
        if on {
            grid.begin_synchronized_output();
        } else {
            grid.end_synchronized_output();
        }
    }
}

fn set_ansi_mode(grid: &mut TerminalGrid, code: u16, on: bool)
    requires
        old(grid)@.wf(),
    ensures
        final(grid)@ == ansi_mode(old(grid)@, code, on),
        final(grid)@.wf(),
{
    let m = grid.modes();
    if code == 4 {
        grid.set_modes(DecModes { insert_mode: on, ..m });
    } else if code == 20 {
        grid.set_modes(DecModes { lnm_mode: on, ..m });
    }
}

fn set_dec_modes(grid: &mut TerminalGrid, params: &Vec<Vec<u16>>, on: bool)
    requires
        old(grid)@.wf(),
        params_nonempty(params_view(params@)),
    ensures
        final(grid)@ == dec_modes(old(grid)@, params_view(params@), params@.len(), on),
        final(grid)@.wf(),
{
    let ghost ps = params_view(params@);
    proof {
        lemma_params_nonempty(params@);
    }
    let mut i: usize = 0;
    while i < params.len()
        invariant
            i <= params.len(),
            ps == params_view(params@),
            forall|k: int| 0 <= k < params@.len() ==> (#[trigger] params@[k])@.len() > 0,
            grid@ == dec_modes(old(grid)@, ps, i as nat, on),
            grid@.wf(),
        decreases params.len() - i,
    {
        let code = params[i][0];
        assert(code == ps[i as int][0]);
        set_dec_mode(grid, code, on);
        i = i + 1;
    }
}

/// A window size report `ESC [ kind ; rows ; cols t`.
fn report_size(grid: &mut TerminalGrid, kind: char)
    ensures
        final(grid)@ == push_response(
            old(grid)@,
            size_report(kind, old(grid)@.screen.rows_count, old(grid)@.screen.cols),
        ),
{
    let rows = grid.rows();
    let cols = grid.cols();
    let mut out: Vec<char> = vec!['\x1b', '[', kind, ';'];
    push_decimal(&mut out, rows);
    out.push(';');
    push_decimal(&mut out, cols);
    out.push('t');
    assert(out@ =~= size_report(kind, rows as nat, cols as nat));
    respond(grid, &out);
}

/// A cursor movement sequence.
#[verifier::spinoff_prover]
#[verifier::rlimit(40)]
fn run_move(grid: &mut TerminalGrid, params: &Vec<Vec<u16>>, c: char)
    requires
        old(grid)@.wf(),
        room_for_moves(old(grid)@),
        is_move_final(c),
    ensures
        final(grid)@ == csi_move(old(grid)@, params_view(params@), c),
        final(grid)@.wf(),
{
    let n = AnsiHandler::param_with_default(params, 0, 1);
    let nn = n as usize;
    if c == 'A' || c == 'B' || c == 'C' || c == 'D' || c == 'E' || c == 'F' {
        csi_relative_move(grid, n, c);
    } else if c == 'G' {
        let last = grid.cols().saturating_sub(1);
        let x = if nn - 1 < last { nn - 1 } else { last };
        cursor_to_column(grid, x);
    } else if c == 'H' || c == 'f' {
        let col = AnsiHandler::param_with_default(params, 1, 1) as usize;
        grid.goto_origin_aware(col - 1, nn - 1);
    } else {
        let y = nn - 1;
        let cur = grid.cursor();
        if grid.modes().origin_mode {
            let top = grid.scroll_region_top();
            let bottom = grid.scroll_region_bottom();
            let t = top + y;
            let ny = if t < bottom { t } else { bottom };
            grid.set_cursor(cur.x, ny, cur.visible);
        } else {
            let last = grid.rows().saturating_sub(1);
            let ny = if y < last { y } else { last };
            grid.set_cursor(cur.x, ny, cur.visible);
        }
    }
}

/// A relative cursor movement (CUU, CUD, CUF, CUB, CNL, CPL) by `n`.
#[verifier::spinoff_prover]
#[verifier::rlimit(40)]
fn csi_relative_move(grid: &mut TerminalGrid, n: u16, c: char)
    requires
        old(grid)@.wf(),
        room_for_moves(old(grid)@),
        c == 'A' || c == 'B' || c == 'C' || c == 'D' || c == 'E' || c == 'F',
    ensures
        final(grid)@ == relative_move(old(grid)@, n, c),
        final(grid)@.wf(),
{
    let ni = n as isize;
    if c == 'A' {
        move_by(grid, 0, -ni);
    } else if c == 'B' {
        move_by(grid, 0, ni);
    } else if c == 'C' {
        move_by(grid, ni, 0);
    } else if c == 'D' {
        move_by(grid, -ni, 0);
    } else if c == 'E' {
        move_by(grid, 0, ni);
        cursor_to_column(grid, 0);
    } else {
        move_by(grid, 0, -ni);
        cursor_to_column(grid, 0);
    }
}

/// An editing sequence.
#[verifier::spinoff_prover]
#[verifier::rlimit(40)]
fn run_edit(grid: &mut TerminalGrid, params: &Vec<Vec<u16>>, c: char)
    requires
        old(grid)@.wf(),
        is_edit_final(c),
    ensures
        final(grid)@ == csi_edit(old(grid)@, params_view(params@), c),
        final(grid)@.wf(),
{
    let n = AnsiHandler::param_with_default(params, 0, 1);
    let nn = n as usize;
    if c == 'J' {
        let mode = mode_value(params);
        if mode == 0 {
            grid.erase_to_eos();
        } else if mode == 1 {
            grid.erase_from_bos();
        } else if mode == 2 || mode == 3 {
            grid.clear_screen();
        }
    } else if c == 'K' {
        let mode = mode_value(params);
        if mode == 0 {
            grid.erase_to_eol();
        } else if mode == 1 {
            grid.erase_to_bol();
        } else if mode == 2 {
            grid.clear_line();
        }
    } else if c == 'P' {
        grid.delete_chars(nn);
    } else if c == '@' {
        grid.insert_chars(nn);
    } else if c == 'X' {
        grid.erase_chars(nn);
    } else if c == 'L' || c == 'T' {
        grid.scroll_down(nn);
    } else {
        grid.scroll_up(nn);
    }
}

/// Modes, reports, rendition and the scroll region.
#[verifier::spinoff_prover]
#[verifier::rlimit(40)]
fn run_other(grid: &mut TerminalGrid, params: &Vec<Vec<u16>>, c: char)
    requires
        old(grid)@.wf(),
        c == 'm' || c == 'h' || c == 'l' ==> params_nonempty(params_view(params@)),
    ensures
        final(grid)@ == csi_other(old(grid)@, params_view(params@), c),
        final(grid)@.wf(),
{
    let n = AnsiHandler::param_with_default(params, 0, 1);
    let nn = n as usize;
    if c == 'c' {
        let out = vec!['\x1b', '[', '?', '6', '2', ';', '0', 'c'];
        assert(out@ =~= primary_device_attributes());
        respond(grid, &out);
    } else if c == 'h' {
        set_ansi_modes(grid, params, true);
    } else if c == 'l' {
        set_ansi_modes(grid, params, false);
    } else if c == 'n' {
        let mode = mode_value(params);
        if mode == 5 {
            let out = vec!['\x1b', '[', '0', 'n'];
            assert(out@ =~= status_ok());
            respond(grid, &out);
        } else if mode == 6 {
            grid.queue_cursor_position_report();
        }
    } else if c == 'm' {
        handle_sgr(grid, params);
    } else if c == 'r' {
        let rows16 = #[verifier::truncate] (grid.rows() as u16);
        let bottom = AnsiHandler::param_with_default(params, 1, rows16);
        let b: usize = if bottom >= 1 { (bottom - 1) as usize } else { 0 };
        grid.set_scroll_region(nn - 1, b);
    } else if c == 's' {
        grid.save_cursor_position();
    } else if c == 'u' {
        grid.restore_cursor_position();
    } else if c == 't' {
        let mode = mode_value(params);
        if mode == 18 {
            report_size(grid, '8');
        } else if mode == 19 {
            report_size(grid, '9');
        }
    }
}

/// A control sequence without intermediates.
fn run_plain(grid: &mut TerminalGrid, params: &Vec<Vec<u16>>, c: char)
    requires
        old(grid)@.wf(),
        room_for_moves(old(grid)@),
        c == 'm' || c == 'h' || c == 'l' ==> params_nonempty(params_view(params@)),
    ensures
        final(grid)@ == csi_plain(old(grid)@, params_view(params@), c),
        final(grid)@.wf(),
{
    if c == 'A' || c == 'B' || c == 'C' || c == 'D' || c == 'E' || c == 'F' || c == 'G'
        || c == 'H' || c == 'f' || c == 'd' {
        run_move(grid, params, c);
    } else if c == 'J' || c == 'K' || c == 'P' || c == '@' || c == 'X' || c == 'L' || c == 'T'
        || c == 'M' || c == 'S' {
        run_edit(grid, params, c);
    } else {
        run_other(grid, params, c);
    }
}

/// A control sequence with the `?` intermediate.
fn run_private(grid: &mut TerminalGrid, params: &Vec<Vec<u16>>, c: char)
    requires
        old(grid)@.wf(),
        c == 'h' || c == 'l' ==> params_nonempty(params_view(params@)),
    ensures
        final(grid)@ == csi_private(old(grid)@, params_view(params@), c),
        final(grid)@.wf(),
{
    if c == 'h' {
        set_dec_modes(grid, params, true);
    } else if c == 'l' {
        set_dec_modes(grid, params, false);
    } else if c == 'n' {
        let mode = mode_value(params);
        if mode == 6 {
            let cur = grid.cursor();
            let top = grid.scroll_region_top();
            let (row, col) = if grid.modes().origin_mode {
                (cur.y.saturating_sub(top) + 1, cur.x + 1)
            } else {
                (cur.y + 1, cur.x + 1)
            };
            let mut out: Vec<char> = vec!['\x1b', '[', '?'];
            push_decimal(&mut out, row);
            out.push(';');
            push_decimal(&mut out, col);
            out.push('R');
            assert(out@ =~= dec_cursor_position_report(row as nat, col as nat));
            respond(grid, &out);
        } else if mode == 15 {
            let out = vec!['\x1b', '[', '?', '1', '3', 'n'];
            respond(grid, &out);
        } else if mode == 25 {
            let out = vec!['\x1b', '[', '?', '2', '1', 'n'];
            respond(grid, &out);
        } else if mode == 26 {
            let out = vec!['\x1b', '[', '?', '2', '7', ';', '1', 'n'];
            respond(grid, &out);
        }
    }
}

/// Select Graphic Rendition.
fn handle_sgr(grid: &mut TerminalGrid, params: &Vec<Vec<u16>>)
    requires
        old(grid)@.wf(),
        params_nonempty(params_view(params@)),
    ensures
        final(grid)@ == old(grid)@.with_pen(sgr(old(grid)@.pen, params_view(params@))),
        final(grid)@.wf(),
{
    let ghost ps = params_view(params@);
    if params.len() == 0 {
        grid.set_pen(Pen { attrs: super::cell::CellAttributes::default(), fg: Color::Default, bg: Color::Default });
        return;
    }
    let ghost pen0 = grid@.pen;
    let mut pen = grid.pen();
    let mut i: usize = 0;
    while i < params.len()
        invariant
            params_nonempty(ps),
            ps == params_view(params@),
            i <= params.len(),
            sgr_run(pen0, ps, 0) == sgr_run(pen, ps, i as int),
        decreases params.len() - i,
    {
        let next = next_group(params, i);
        pen = apply_group(pen, params, i);
        i = next;
    }
    grid.set_pen(pen);
}


impl<'a> AnsiHandler<'a> {
    pub fn new(grid: &'a mut TerminalGrid) -> (h: Self)
        ensures
            *h.grid == *old(grid),
            *final(grid) == *final(h.grid),
    {
        AnsiHandler { grid }
    }

    fn parse_param_with_default(param: Option<&Vec<u16>>, default: u16) -> (v: u16)
        ensures
            v == match param {
                Some(p) => if p@.len() > 0 && p@[0] != 0 { p@[0] } else { default },
                None => default,
            },
    {
        match param {
            Some(p) => {
                if p.len() > 0 && p[0] != 0 {
                    p[0]
                } else {
                    default
                }
            },
            None => default,
        }
    }

    /// Parameter `k` with `default` for a missing or zero value.
    fn param_with_default(params: &Vec<Vec<u16>>, k: usize, default: u16) -> (v: u16)
        ensures
            v == param_or(params_view(params@), k as int, default),
    {
        let p = if k < params.len() { Some(&params[k]) } else { None };
        Self::parse_param_with_default(p, default)
    }

    /// Prints a character.
    pub fn print(&mut self, c: char)
        requires
            old(self).grid@.wf(),
            !old(self).grid@.put_char_overflows(c),
        ensures
            final(self).grid@ == old(self).grid@.put_char(c),
            final(self).grid@.wf(),
    {
        apply_print(self.grid, c);
    }

    /// Executes a C0 control byte.
    pub fn execute(&mut self, byte: u8)
        requires
            old(self).grid@.wf(),
        ensures
            final(self).grid@ == execute_byte(old(self).grid@, byte),
            final(self).grid@.wf(),
    {
        apply_execute(self.grid, byte);
    }

    /// Executes an escape sequence.
    pub fn esc_dispatch(&mut self, intermediates: &[u8], ignore: bool, byte: u8)
        requires
            old(self).grid@.wf(),
        ensures
            final(self).grid@ == esc(old(self).grid@, intermediates@, byte),
            final(self).grid@.wf(),
    {
        apply_esc(self.grid, intermediates, ignore, byte);
    }

    /// Executes a control sequence (CSI).
    pub fn csi_dispatch(&mut self, params: &Vec<Vec<u16>>, intermediates: &[u8], ignore: bool, c: char)
        requires
            old(self).grid@.wf(),
            room_for_moves(old(self).grid@),
            c == 'm' || c == 'h' || c == 'l' ==> params_nonempty(params_view(params@)),
        ensures
            final(self).grid@ == csi(old(self).grid@, params_view(params@), intermediates@, ignore, c),
            final(self).grid@.wf(),
    {
        apply_csi(self.grid, params, intermediates, ignore, c);
    }
}

/// Prints a character on `grid`.
pub fn apply_print(grid: &mut TerminalGrid, c: char)
    requires
        old(grid)@.wf(),
        !old(grid)@.put_char_overflows(c),
    ensures
        final(grid)@ == old(grid)@.put_char(c),
        final(grid)@.wf(),
{
    grid.put_char(c);
}

/// Executes a C0 control byte on `grid`.
pub fn apply_execute(grid: &mut TerminalGrid, byte: u8)
    requires
        old(grid)@.wf(),
    ensures
        final(grid)@ == execute_byte(old(grid)@, byte),
        final(grid)@.wf(),
{
    if byte == 0x0a || byte == 0x0b {
        grid.put_char('\n');
    } else if byte == 0x0d {
        grid.put_char('\r');
    } else if byte == 0x09 {
        grid.put_char('\t');
    } else if byte == 0x08 {
        grid.put_char('\x08');
    } else if byte == 0x07 {
        grid.set_bell_pending(true);
    } else if byte == 0x0c {
        grid.clear_screen();
        grid.goto(0, 0);
    } else if byte == 0x0e {
        grid.shift_out();
    } else if byte == 0x0f {
        grid.shift_in();
    }
}

/// Executes an escape sequence on `grid`.
pub fn apply_esc(grid: &mut TerminalGrid, intermediates: &[u8], ignore: bool, byte: u8)
    requires
        old(grid)@.wf(),
    ensures
        final(grid)@ == esc(old(grid)@, intermediates@, byte),
        final(grid)@.wf(),
{
    if intermediates.len() == 0 {
        if byte == 0x44 {
            grid.put_char('\n');
        } else if byte == 0x4d {
            grid.reverse_linefeed();
        } else if byte == 0x45 {
            grid.next_line();
        } else if byte == 0x37 {
            grid.save_cursor();
        } else if byte == 0x38 {
            grid.restore_cursor();
        } else if byte == 0x63 {
            grid.reset();
        }
    } else if intermediates.len() == 1 && (intermediates[0] == 0x28 || intermediates[0] == 0x29) {
        let set = if byte == 0x30 {
            Some(CharacterSet::DecSpecialGraphics)
        } else if byte == 0x42 || byte == 0x41 {
            Some(CharacterSet::Ascii)
        } else {
            None
        };
        if let Some(cs) = set {
            if intermediates[0] == 0x28 {
                grid.set_charset_g0(cs);
            } else {
                grid.set_charset_g1(cs);
            }
        }
    }
}

/// Executes a control sequence (CSI) on `grid`.
pub fn apply_csi(grid: &mut TerminalGrid, params: &Vec<Vec<u16>>, intermediates: &[u8], ignore: bool, c: char)
    requires
        old(grid)@.wf(),
        room_for_moves(old(grid)@),
        c == 'm' || c == 'h' || c == 'l' ==> params_nonempty(params_view(params@)),
    ensures
        final(grid)@ == csi(old(grid)@, params_view(params@), intermediates@, ignore, c),
        final(grid)@.wf(),
{
    if ignore {
        return;
    }
    if intermediates.len() == 0 {
        run_plain(grid, params, c);
    } else if intermediates.len() == 1 && intermediates[0] == 62 {
        if c == 'c' {
            let out = vec!['\x1b', '[', '>', '0', ';', '0', ';', '0', 'c'];
            assert(out@ =~= secondary_device_attributes());
            respond(grid, &out);
        }
    } else if intermediates.len() == 1 && intermediates[0] == 63 {
        run_private(grid, params, c);
    } else if intermediates.len() == 1 && intermediates[0] == 32 {
        if c == 'q' {
            let shape_code = mode_value(params);
            let shape = if shape_code == 3 || shape_code == 4 {
                CursorShape::Underline
            } else if shape_code == 5 || shape_code == 6 {
                CursorShape::Bar
            } else {
                CursorShape::Block
            };
            let cur = grid.cursor();
            grid.set_cursor_style(cur.visible, shape);
        }
    }
}

} // verus!
