//! The mathematical model of a terminal grid and of every operation on it.
use vstd::prelude::*;

use super::cell::{
    blank_cell, erased_cell, home_cursor, plain_attrs, CellAttributes, CharacterSet, Color,
    Cursor, SavedCursorState, TerminalCell,
};

verus! {

/// The pen: attributes and colors given to newly written characters.
#[derive(Debug, Clone, Copy, PartialEq, Eq, Structural)]
pub struct Pen {
    pub attrs: CellAttributes,
    pub fg: Color,
    pub bg: Color,
}

/// The DEC private and ANSI modes that a grid keeps.
#[derive(Debug, Clone, Copy, PartialEq, Eq, Structural)]
pub struct DecModes {
    pub application_cursor_keys: bool,
    pub bracketed_paste_mode: bool,
    pub focus_event_mode: bool,
    pub synchronized_output: bool,
    pub mouse_normal_tracking: bool,
    pub mouse_button_tracking: bool,
    pub mouse_any_event_tracking: bool,
    pub mouse_utf8_mode: bool,
    pub mouse_sgr_mode: bool,
    pub mouse_urxvt_mode: bool,
    /// Line Feed/New Line Mode (LNM)
    pub lnm_mode: bool,
    /// Auto-wrap mode (DECAWM)
    pub auto_wrap_mode: bool,
    /// Insert/Replace mode (IRM)
    pub insert_mode: bool,
    /// Origin mode (DECOM)
    pub origin_mode: bool,
}

/// The G0 and G1 character set designations and which one is active.
#[derive(Debug, Clone, Copy, PartialEq, Eq, Structural)]
pub struct Charsets {
    pub g0: CharacterSet,
    pub g1: CharacterSet,
    pub use_g0: bool,
}

pub open spec fn plain_pen() -> Pen {
    Pen { attrs: plain_attrs(), fg: Color::Default, bg: Color::Default }
}

/// The modes of a freshly created (or fully reset) terminal.
pub open spec fn initial_modes() -> DecModes {
    DecModes {
        application_cursor_keys: false,
        bracketed_paste_mode: false,
        focus_event_mode: false,
        synchronized_output: false,
        mouse_normal_tracking: false,
        mouse_button_tracking: false,
        mouse_any_event_tracking: false,
        mouse_utf8_mode: false,
        mouse_sgr_mode: false,
        mouse_urxvt_mode: false,
        lnm_mode: false,
        auto_wrap_mode: true,
        insert_mode: false,
        origin_mode: false,
    }
}

pub open spec fn ascii_charsets() -> Charsets {
    Charsets { g0: CharacterSet::Ascii, g1: CharacterSet::Ascii, use_g0: true }
}

/// The visible screen and its change tracking.
pub ghost struct ScreenView {
    /// Visible rows, top to bottom.
    pub rows: Seq<Seq<TerminalCell>>,
    pub cols: nat,
    pub rows_count: nat,
    /// Rows changed since the last read.
    pub dirty_rows: Seq<bool>,
    pub dirty_flag: bool,
    /// Counter of content changes (wraps around).
    pub generation: u64,
}

/// Lines kept outside the visible screen.
pub ghost struct HistoryView {
    /// Lines that scrolled off the top, oldest first.
    pub scrollback: Seq<Seq<TerminalCell>>,
    pub max_scrollback: nat,
    /// The main screen while the alternate screen is in use.
    pub alt_screen: Option<Seq<Seq<TerminalCell>>>,
    /// The screen as it was when synchronized output began.
    pub sync_snapshot: Option<Seq<Seq<TerminalCell>>>,
    pub sync_cursor_snapshot: Option<Cursor>,
}

/// Cursor, saved cursor, scroll region and tab stops.
pub ghost struct CursorView {
    pub cursor: Cursor,
    pub saved: Option<SavedCursorState>,
    pub wrap_pending: bool,
    pub top: nat,
    pub bottom: nat,
    pub tab_stops: Seq<bool>,
}

/// The mathematical state of a terminal grid.
pub ghost struct GridView {
    pub screen: ScreenView,
    pub history: HistoryView,
    pub cur: CursorView,
    pub pen: Pen,
    pub modes: DecModes,
    pub charsets: Charsets,
    /// Replies queued for the program (DSR and other queries), oldest first.
    pub responses: Seq<Seq<char>>,
    pub bell_pending: bool,
}

/// The largest index below `n`, or 0 when `n` is 0.
pub open spec fn last_index(n: nat) -> nat {
    if n == 0 {
        0
    } else {
        (n - 1) as nat
    }
}

pub open spec fn min_nat(a: nat, b: nat) -> nat {
    if a <= b {
        a
    } else {
        b
    }
}

/// A row of `cols` blank cells.
pub open spec fn blank_row(cols: nat) -> Seq<TerminalCell> {
    Seq::new(cols, |i: int| blank_cell())
}

/// A screen of `rows` blank rows of `cols` cells.
pub open spec fn blank_screen(rows: nat, cols: nat) -> Seq<Seq<TerminalCell>> {
    Seq::new(rows, |j: int| blank_row(cols))
}

/// Default tab stops: every eighth column.
pub open spec fn default_tab_stops(cols: nat) -> Seq<bool> {
    Seq::new(cols, |i: int| i % 8 == 0)
}

pub open spec fn rows_view(rows: Seq<Vec<TerminalCell>>) -> Seq<Seq<TerminalCell>> {
    rows.map_values(|r: Vec<TerminalCell>| r@)
}

pub open spec fn strings_view(strings: Seq<String>) -> Seq<Seq<char>> {
    strings.map_values(|s: String| s@)
}

/// The generation counter after one more change (it wraps around).
pub open spec fn next_generation(g: u64) -> u64 {
    if g == u64::MAX {
        0
    } else {
        (g + 1) as u64
    }
}

/// Indices `i` below `n` at which `s[i]` holds, in increasing order.
pub open spec fn true_indices(s: Seq<bool>, n: nat) -> Seq<usize>
    decreases n,
{
    if n == 0 {
        Seq::empty()
    } else if s[n - 1] {
        true_indices(s, (n - 1) as nat).push((n - 1) as usize)
    } else {
        true_indices(s, (n - 1) as nat)
    }
}

/// `row` with the cells at columns `from..to` erased to `erased_cell(bg)`.
pub open spec fn erase_cells(row: Seq<TerminalCell>, from: int, to: int, bg: Color) -> Seq<
    TerminalCell,
> {
    Seq::new(row.len(), |i: int| if from <= i < to { erased_cell(bg) } else { row[i] })
}

/// `row` shortened to, or padded with blank cells up to, `cols` cells.
pub open spec fn fit_row(row: Seq<TerminalCell>, cols: nat) -> Seq<TerminalCell> {
    Seq::new(cols, |i: int| if i < row.len() { row[i] } else { blank_cell() })
}

/// `screen` with every row fitted to `cols` cells, then shortened to or
/// padded with blank rows up to `rows` rows.
pub open spec fn fit_screen(screen: Seq<Seq<TerminalCell>>, rows: nat, cols: nat) -> Seq<
    Seq<TerminalCell>,
> {
    Seq::new(
        rows,
        |j: int|
            if j < screen.len() {
                fit_row(screen[j], cols)
            } else {
                blank_row(cols)
            },
    )
}

/// The first tab stop at column `k` or after it, else the last column.
pub open spec fn next_tab_stop(stops: Seq<bool>, k: int, cols: nat) -> nat
    decreases cols - k,
{
    if k >= cols || k < 0 {
        last_index(cols)
    } else if stops[k] {
        k as nat
    } else {
        next_tab_stop(stops, k + 1, cols)
    }
}

/// Whether std's `char::is_control` holds: general category Cc, the code
/// points U+0000..U+001F and U+007F..U+009F.
pub open spec fn is_control(c: char) -> bool {
    (c as u32) < 0x20 || (0x7f <= (c as u32) && (c as u32) < 0xa0)
}

pub open spec fn is_ascii(c: char) -> bool {
    (c as u32) < 0x80
}

/// The column width that the `unicode-width` crate gives `c`
/// (`UnicodeWidthChar::width`): `None` for control characters.
pub uninterp spec fn unicode_char_width(c: char) -> Option<usize>;

/// The number of columns a printable character takes on the grid: one for
/// ASCII, else its Unicode width, with no width counted as zero.
pub open spec fn printed_width(c: char) -> nat {
    if is_ascii(c) {
        1
    } else {
        match unicode_char_width(c) {
            Some(w) => w as nat,
            None => 0,
        }
    }
}

/// The DEC special graphics character set (line drawing).
#[verifier::opaque]
pub open spec fn dec_special_graphics(c: char) -> char {
    if c == '_' { ' ' }
    else if c == '`' { '◆' }
    else if c == 'a' { '▒' }
    else if c == 'b' { '␉' }
    else if c == 'c' { '␌' }
    else if c == 'd' { '␍' }
    else if c == 'e' { '␊' }
    else if c == 'f' { '°' }
    else if c == 'g' { '±' }
    else if c == 'h' { '␤' }
    else if c == 'i' { '␋' }
    else if c == 'j' { '┘' }
    else if c == 'k' { '┐' }
    else if c == 'l' { '┌' }
    else if c == 'm' { '└' }
    else if c == 'n' { '┼' }
    else if c == 'o' { '⎺' }
    else if c == 'p' { '⎻' }
    else if c == 'q' { '─' }
    else if c == 'r' { '⎼' }
    else if c == 's' { '⎽' }
    else if c == 't' { '├' }
    else if c == 'u' { '┤' }
    else if c == 'v' { '┴' }
    else if c == 'w' { '┬' }
    else if c == 'x' { '│' }
    else if c == 'y' { '≤' }
    else if c == 'z' { '≥' }
    else if c == '{' { 'π' }
    else if c == '|' { '≠' }
    else if c == '}' { '£' }
    else if c == '~' { '·' }
    else { c }
}

impl GridView {
    /// Structural consistency of a grid: every row and the per-row and
    /// per-column tables have the grid's size, the scroll region and the
    /// cursors lie on the screen, and the scrollback respects its limit.
    pub open spec fn wf(self) -> bool {
        &&& self.screen.rows.len() == self.screen.rows_count
        &&& forall|j: int|
            0 <= j < self.screen.rows_count ==> (#[trigger] self.screen.rows[j]).len()
                == self.screen.cols
        &&& self.screen.dirty_rows.len() == self.screen.rows_count
        &&& self.cur.tab_stops == default_tab_stops(self.screen.cols)
        &&& self.cur.top <= self.cur.bottom
        &&& self.cur.bottom <= last_index(self.screen.rows_count)
        &&& self.cur.cursor.x <= last_index(self.screen.cols)
        &&& self.cur.cursor.y <= last_index(self.screen.rows_count)
        &&& (self.cur.saved matches Some(s) ==> s.cursor.x <= last_index(self.screen.cols)
            && s.cursor.y <= last_index(self.screen.rows_count))
        &&& self.history.scrollback.len() <= self.history.max_scrollback
        &&& self.screen.cols <= isize::MAX
        &&& self.screen.rows_count <= isize::MAX
    }

    pub open spec fn cols(self) -> nat {
        self.screen.cols
    }

    pub open spec fn rows_count(self) -> nat {
        self.screen.rows_count
    }

    pub open spec fn cursor(self) -> Cursor {
        self.cur.cursor
    }

    // ---- field updates ----
    pub open spec fn with_rows(self, rows: Seq<Seq<TerminalCell>>) -> GridView {
        GridView { screen: ScreenView { rows, ..self.screen }, ..self }
    }

    pub open spec fn with_cursor(self, cursor: Cursor) -> GridView {
        GridView { cur: CursorView { cursor, ..self.cur }, ..self }
    }

    pub open spec fn with_cursor_x(self, x: nat) -> GridView {
        self.with_cursor(Cursor { x: x as usize, ..self.cur.cursor })
    }

    pub open spec fn with_cursor_y(self, y: nat) -> GridView {
        self.with_cursor(Cursor { y: y as usize, ..self.cur.cursor })
    }

    pub open spec fn with_cursor_xy(self, x: nat, y: nat) -> GridView {
        self.with_cursor(Cursor { x: x as usize, y: y as usize, ..self.cur.cursor })
    }

    pub open spec fn with_wrap_pending(self, b: bool) -> GridView {
        GridView { cur: CursorView { wrap_pending: b, ..self.cur }, ..self }
    }

    pub open spec fn with_saved(self, saved: Option<SavedCursorState>) -> GridView {
        GridView { cur: CursorView { saved, ..self.cur }, ..self }
    }

    pub open spec fn with_region(self, top: nat, bottom: nat) -> GridView {
        GridView { cur: CursorView { top, bottom, ..self.cur }, ..self }
    }

    pub open spec fn with_pen(self, pen: Pen) -> GridView {
        GridView { pen, ..self }
    }

    pub open spec fn with_modes(self, modes: DecModes) -> GridView {
        GridView { modes, ..self }
    }

    pub open spec fn with_charsets(self, charsets: Charsets) -> GridView {
        GridView { charsets, ..self }
    }

    pub open spec fn with_responses(self, responses: Seq<Seq<char>>) -> GridView {
        GridView { responses, ..self }
    }

    pub open spec fn with_history(self, history: HistoryView) -> GridView {
        GridView { history, ..self }
    }

    // ---- change tracking ----
    pub open spec fn mark_dirty(self, row: nat) -> GridView {
        GridView {
            screen: ScreenView {
                dirty_rows: if row < self.screen.dirty_rows.len() {
                    self.screen.dirty_rows.update(row as int, true)
                } else {
                    self.screen.dirty_rows
                },
                dirty_flag: true,
                ..self.screen
            },
            ..self
        }
    }

    pub open spec fn mark_all_dirty(self) -> GridView {
        GridView {
            screen: ScreenView {
                dirty_rows: Seq::new(self.screen.dirty_rows.len(), |i: int| true),
                dirty_flag: true,
                ..self.screen
            },
            ..self
        }
    }

    /// The grid after its change tracking is read and cleared.
    pub open spec fn take_dirty(self) -> GridView {
        GridView {
            screen: ScreenView {
                dirty_rows: Seq::new(self.screen.dirty_rows.len(), |i: int| false),
                dirty_flag: false,
                ..self.screen
            },
            ..self
        }
    }

    pub open spec fn bump(self) -> GridView {
        GridView {
            screen: ScreenView { generation: next_generation(self.screen.generation), ..self.screen },
            ..self
        }
    }

    // ---- reading ----
    pub open spec fn active_charset(self) -> CharacterSet {
        if self.charsets.use_g0 {
            self.charsets.g0
        } else {
            self.charsets.g1
        }
    }

    /// `c` as the active character set displays it.
    pub open spec fn map_char(self, c: char) -> char {
        match self.active_charset() {
            CharacterSet::Ascii => c,
            CharacterSet::DecSpecialGraphics => dec_special_graphics(c),
        }
    }

    /// The cell at column `x` of row `y`, if there is one.
    pub open spec fn cell(self, x: int, y: int) -> Option<TerminalCell> {
        if 0 <= y < self.screen.rows.len() && 0 <= x < self.screen.rows[y].len() {
            Some(self.screen.rows[y][x])
        } else {
            None
        }
    }

    /// The grid with the cell at (`x`, `y`) replaced, where there is one.
    pub open spec fn write_cell(self, x: int, y: int, cell: TerminalCell) -> GridView {
        if 0 <= y < self.screen.rows.len() && 0 <= x < self.screen.rows[y].len() {
            self.with_rows(self.screen.rows.update(y, self.screen.rows[y].update(x, cell)))
        } else {
            self
        }
    }

    /// The (1-based) row and column that a cursor position report gives; in
    /// origin mode the row counts from the scroll region's top.
    pub open spec fn report_position(self) -> (nat, nat) {
        let c = self.cur.cursor;
        if self.modes.origin_mode {
            (
                (if c.y >= self.cur.top {
                    (c.y - self.cur.top) as nat
                } else {
                    0nat
                }) + 1,
                (c.x + 1) as nat,
            )
        } else {
            ((c.y + 1) as nat, (c.x + 1) as nat)
        }
    }

    // ---- scrolling ----
    /// One step of scrolling up: the region's top line leaves the screen
    /// (into the scrollback unless the alternate screen is in use, keeping
    /// at most `max_scrollback` lines) and a blank line enters at the
    /// region's bottom.
    pub open spec fn scroll_up_once(self) -> GridView {
        let top = self.cur.top;
        let n = self.screen.rows_count;
        if top < n {
            let line = self.screen.rows[top as int];
            let rows1 = self.screen.rows.remove(top as int);
            let history = if self.history.alt_screen is None {
                let sb = self.history.scrollback.push(line);
                HistoryView {
                    scrollback: if sb.len() > self.history.max_scrollback {
                        sb.drop_first()
                    } else {
                        sb
                    },
                    ..self.history
                }
            } else {
                self.history
            };
            let pos = min_nat(self.cur.bottom, (n - 1) as nat);
            self.with_rows(rows1.insert(pos as int, blank_row(self.screen.cols))).with_history(
                history,
            )
        } else {
            self
        }
    }

    pub open spec fn scroll_up_steps(self, n: nat) -> GridView
        decreases n,
    {
        if n == 0 {
            self
        } else {
            self.scroll_up_steps((n - 1) as nat).scroll_up_once()
        }
    }

    /// Scrolls the region up `n` lines.
    pub open spec fn scroll_up(self, n: nat) -> GridView {
        self.scroll_up_steps(n).bump().mark_all_dirty()
    }

    /// One step of scrolling down: the region's bottom line is dropped and a
    /// blank line enters at the region's top.
    pub open spec fn scroll_down_once(self) -> GridView {
        if self.cur.bottom < self.screen.rows_count {
            self.with_rows(
                self.screen.rows.remove(self.cur.bottom as int).insert(
                    self.cur.top as int,
                    blank_row(self.screen.cols),
                ),
            )
        } else {
            self
        }
    }

    pub open spec fn scroll_down_steps(self, n: nat) -> GridView
        decreases n,
    {
        if n == 0 {
            self
        } else {
            self.scroll_down_steps((n - 1) as nat).scroll_down_once()
        }
    }

    /// Scrolls the region down `n` lines.
    pub open spec fn scroll_down(self, n: nat) -> GridView {
        self.scroll_down_steps(n).bump().mark_all_dirty()
    }

    // ---- erasing ----
    /// Row `y` with columns `from..to` erased (nothing when there is no row `y`).
    pub open spec fn erase_in_row(self, y: nat, from: int, to: int) -> GridView {
        if y < self.screen.rows.len() {
            self.with_rows(
                self.screen.rows.update(
                    y as int,
                    erase_cells(self.screen.rows[y as int], from, to, self.pen.bg),
                ),
            )
        } else {
            self
        }
    }

    /// Rows `from..to` erased completely and marked dirty.
    pub open spec fn erase_rows(self, from: int, to: int) -> GridView {
        let rows = self.screen.rows;
        GridView {
            screen: ScreenView {
                rows: Seq::new(
                    rows.len(),
                    |j: int|
                        if from <= j < to {
                            erase_cells(rows[j], 0, rows[j].len() as int, self.pen.bg)
                        } else {
                            rows[j]
                        },
                ),
                dirty_rows: Seq::new(
                    self.screen.dirty_rows.len(),
                    |j: int|
                        if from <= j < to {
                            true
                        } else {
                            self.screen.dirty_rows[j]
                        },
                ),
                dirty_flag: if from < to {
                    true
                } else {
                    self.screen.dirty_flag
                },
                ..self.screen
            },
            ..self
        }
    }

    pub open spec fn clear_screen(self) -> GridView {
        self.erase_rows(0, self.screen.rows.len() as int).bump().mark_all_dirty()
    }

    pub open spec fn clear_line(self) -> GridView {
        let y = self.cur.cursor.y as nat;
        if y < self.screen.rows.len() {
            self.erase_in_row(y, 0, self.screen.rows[y as int].len() as int).bump().mark_dirty(y)
        } else {
            self
        }
    }

    pub open spec fn erase_to_eol(self) -> GridView {
        let y = self.cur.cursor.y as nat;
        if y < self.screen.rows.len() {
            self.erase_in_row(y, self.cur.cursor.x as int, self.screen.cols as int).bump().mark_dirty(y)
        } else {
            self
        }
    }

    pub open spec fn erase_to_bol(self) -> GridView {
        let y = self.cur.cursor.y as nat;
        if y < self.screen.rows.len() {
            self.erase_in_row(y, 0, self.cur.cursor.x + 1).bump().mark_dirty(y)
        } else {
            self
        }
    }

    pub open spec fn erase_to_eos(self) -> GridView {
        self.erase_to_eol().erase_rows(
            self.cur.cursor.y + 1,
            self.screen.rows_count as int,
        ).bump()
    }

    pub open spec fn erase_from_bos(self) -> GridView {
        self.erase_rows(0, self.cur.cursor.y as int).erase_to_bol().bump()
    }

    pub open spec fn delete_chars(self, n: nat) -> GridView {
        let y = self.cur.cursor.y as nat;
        if y < self.screen.rows.len() {
            let row = self.screen.rows[y as int];
            let start = self.cur.cursor.x as int;
            let end = self.screen.cols as int;
            let k = if n < end - start { n as int } else if end >= start { end - start } else { 0 };
            let new_row = Seq::new(
                row.len(),
                |i: int|
                    if i < start {
                        row[i]
                    } else if i < end - k {
                        row[i + k]
                    } else if i < end {
                        erased_cell(self.pen.bg)
                    } else {
                        row[i]
                    },
            );
            self.with_rows(self.screen.rows.update(y as int, new_row)).bump().mark_dirty(y)
        } else {
            self
        }
    }

    pub open spec fn insert_chars(self, n: nat) -> GridView {
        let y = self.cur.cursor.y as nat;
        if y < self.screen.rows.len() {
            let row = self.screen.rows[y as int];
            let start = self.cur.cursor.x as int;
            let end = self.screen.cols as int;
            let k = if n < end - start { n as int } else if end >= start { end - start } else { 0 };
            let new_row = Seq::new(
                row.len(),
                |i: int|
                    if i < start {
                        row[i]
                    } else if i < start + k {
                        erased_cell(self.pen.bg)
                    } else if i < end {
                        row[i - k]
                    } else {
                        row[i]
                    },
            );
            self.with_rows(self.screen.rows.update(y as int, new_row)).bump().mark_dirty(y)
        } else {
            self
        }
    }

    pub open spec fn erase_chars(self, n: nat) -> GridView {
        let y = self.cur.cursor.y as nat;
        if y < self.screen.rows.len() {
            let x = self.cur.cursor.x as int;
            let to = if x + n < self.screen.cols { x + n } else { self.screen.cols as int };
            self.erase_in_row(y, x, to).bump().mark_dirty(y)
        } else {
            self
        }
    }

    // ---- cursor movement ----
    pub open spec fn goto(self, x: nat, y: nat) -> GridView {
        self.with_wrap_pending(false).with_cursor_xy(
            min_nat(x, last_index(self.screen.cols)),
            min_nat(y, last_index(self.screen.rows_count)),
        )
    }

    pub open spec fn goto_origin_aware(self, x: nat, y: nat) -> GridView {
        if self.modes.origin_mode {
            self.with_wrap_pending(false).with_cursor_xy(
                min_nat(x, last_index(self.screen.cols)),
                min_nat(self.cur.top + y, self.cur.bottom),
            )
        } else {
            self.goto(x, y)
        }
    }

    pub open spec fn move_cursor(self, dx: int, dy: int) -> GridView {
        let nx = self.cur.cursor.x + dx;
        let ny = self.cur.cursor.y + dy;
        self.goto(
            if nx < 0 { 0 } else { nx as nat },
            if ny < 0 { 0 } else { ny as nat },
        )
    }

    pub open spec fn set_origin_mode(self, enabled: bool) -> GridView {
        self.with_modes(DecModes { origin_mode: enabled, ..self.modes }).with_cursor_xy(
            0,
            if enabled { self.cur.top } else { 0 },
        )
    }

    pub open spec fn saved_state(self) -> SavedCursorState {
        SavedCursorState {
            cursor: self.cur.cursor,
            attrs: self.pen.attrs,
            fg: self.pen.fg,
            bg: self.pen.bg,
        }
    }

    pub open spec fn save_cursor(self) -> GridView {
        self.with_saved(Some(self.saved_state()))
    }

    pub open spec fn restore_cursor_position(self) -> GridView {
        match self.cur.saved {
            Some(s) => self.with_cursor(s.cursor),
            None => self,
        }
    }

    pub open spec fn restore_cursor(self) -> GridView {
        match self.cur.saved {
            Some(s) => self.with_cursor(s.cursor).with_pen(
                Pen { attrs: s.attrs, fg: s.fg, bg: s.bg },
            ),
            None => self,
        }
    }

    pub open spec fn set_scroll_region(self, top: nat, bottom: nat) -> GridView {
        let n = self.screen.rows_count;
        let t = min_nat(top, if n >= 2 { (n - 2) as nat } else { 0 });
        let b = min_nat(bottom, last_index(n));
        let g = if t < b {
            self.with_region(t, b)
        } else {
            self.with_region(0, last_index(n))
        };
        g.with_cursor_xy(0, if g.modes.origin_mode { g.cur.top } else { 0 })
    }

    pub open spec fn set_cursor(self, x: nat, y: nat, visible: bool) -> GridView {
        self.with_cursor(
            Cursor {
                x: min_nat(x, last_index(self.screen.cols)) as usize,
                y: min_nat(y, last_index(self.screen.rows_count)) as usize,
                visible,
                ..self.cur.cursor
            },
        )
    }

    pub open spec fn carriage_return(self) -> GridView {
        self.with_wrap_pending(false).with_cursor_x(0)
    }

    pub open spec fn linefeed(self) -> GridView {
        let g0 = self.with_wrap_pending(false);
        let g = if g0.modes.lnm_mode { g0.with_cursor_x(0) } else { g0 };
        let y = g.cur.cursor.y;
        if y == g.cur.bottom {
            g.scroll_up(1)
        } else if y + 1 < g.screen.rows_count {
            g.with_cursor_y((y + 1) as nat)
        } else {
            g
        }
    }

    pub open spec fn reverse_linefeed(self) -> GridView {
        let y = self.cur.cursor.y;
        if y == self.cur.top {
            self.scroll_down(1)
        } else if y > 0 {
            self.with_cursor_y((y - 1) as nat)
        } else {
            self
        }
    }

    pub open spec fn next_line(self) -> GridView {
        self.carriage_return().linefeed()
    }

    pub open spec fn tab(self) -> GridView {
        self.with_wrap_pending(false).with_cursor_x(
            next_tab_stop(self.cur.tab_stops, self.cur.cursor.x + 1, self.screen.cols),
        )
    }

    pub open spec fn backspace(self) -> GridView {
        let g = self.with_wrap_pending(false);
        if g.cur.cursor.x > 0 {
            g.with_cursor_x((g.cur.cursor.x - 1) as nat)
        } else {
            g
        }
    }

    // ---- printing ----
    /// Moves to the start of the next line, scrolling when the cursor is on
    /// the last row.
    pub open spec fn wrap_line(self) -> GridView {
        let y = self.cur.cursor.y;
        if y + 1 == self.screen.rows_count {
            self.scroll_up(1).with_cursor_x(0)
        } else {
            self.with_cursor_xy(0, (y + 1) as nat)
        }
    }

    /// The cell that printing `c` with the pen makes.
    pub open spec fn pen_cell(self, c: char, wide: bool) -> TerminalCell {
        TerminalCell { c, fg: self.pen.fg, bg: self.pen.bg, attrs: self.pen.attrs, wide }
    }

    /// Advances the cursor `n` columns after printing; at the right margin
    /// the cursor stays on the last column and, with auto-wrap, the next
    /// character wraps.
    pub open spec fn advance_after_print(self, n: nat) -> GridView {
        let nx = self.cur.cursor.x + n;
        if nx >= self.screen.cols {
            let g = self.with_cursor_x(last_index(self.screen.cols));
            if self.modes.auto_wrap_mode {
                g.with_wrap_pending(true)
            } else {
                g
            }
        } else {
            self.with_cursor_x(nx as nat)
        }
    }

    pub open spec fn put_wide(self, m: char, pen: Pen) -> GridView {
        if self.cur.cursor.x + 1 >= self.screen.cols && !self.modes.auto_wrap_mode {
            self
        } else {
            let g = if self.cur.cursor.x + 1 >= self.screen.cols {
                self.wrap_line()
            } else {
                self
            };
            let x = g.cur.cursor.x as int;
            let y = g.cur.cursor.y as int;
            g.write_cell(x, y, TerminalCell { c: m, fg: pen.fg, bg: pen.bg, attrs: pen.attrs, wide: true })
                .write_cell(x + 1, y, TerminalCell { c: ' ', fg: pen.fg, bg: pen.bg, attrs: pen.attrs, wide: false })
                .mark_dirty(y as nat)
                .advance_after_print(2)
                .bump()
        }
    }

    pub open spec fn put_narrow(self, m: char, pen: Pen) -> GridView {
        let x = self.cur.cursor.x as int;
        let y = self.cur.cursor.y as int;
        if x < self.screen.cols {
            self.write_cell(x, y, TerminalCell { c: m, fg: pen.fg, bg: pen.bg, attrs: pen.attrs, wide: false })
                .mark_dirty(y as nat)
                .advance_after_print(1)
                .bump()
        } else {
            self.bump()
        }
    }

    /// Writing one character: control characters move the cursor (line
    /// feed, carriage return, tab, backspace) or are ignored; a printable
    /// character is mapped through the active character set and written
    /// with the pen, taking one or two columns by its width (characters of
    /// width zero are dropped), wrapping first when a wrap is pending.
    pub open spec fn put_char(self, c: char) -> GridView {
        if self.cur.cursor.y >= self.screen.rows_count {
            self
        } else if c == '\n' {
            self.linefeed()
        } else if c == '\r' {
            self.carriage_return()
        } else if c == '\t' {
            self.tab()
        } else if c == '\x08' {
            self.backspace()
        } else if is_control(c) {
            self
        } else {
            self.print_mapped(self.map_char(c))
        }
    }

    /// Writing a printable character, already mapped through the active
    /// character set.
    pub open spec fn print_mapped(self, m: char) -> GridView {
        let w = printed_width(m);
        if w == 0 {
            self
        } else {
            let g = if self.cur.wrap_pending && self.modes.auto_wrap_mode {
                self.with_wrap_pending(false).wrap_line()
            } else {
                self
            };
            if w == 2 {
                g.put_wide(m, self.pen)
            } else {
                g.put_narrow(m, self.pen)
            }
        }
    }

    /// Whether writing `c` would move the cursor past a grid that has no
    /// columns at all (the one case in which the write cannot be done).
    pub open spec fn put_char_overflows(self, c: char) -> bool {
        &&& self.screen.cols == 0
        &&& self.cur.cursor.y < self.screen.rows_count
        &&& !is_control(c)
        &&& printed_width(self.map_char(c)) == 2
        &&& self.modes.auto_wrap_mode
    }

    // ---- screens ----
    pub open spec fn use_alt_screen(self) -> GridView {
        if self.history.alt_screen is None {
            let g = self.save_cursor();
            let g = g.with_history(HistoryView { alt_screen: Some(self.screen.rows), ..g.history });
            g.clear_screen().with_cursor(home_cursor()).bump().mark_all_dirty()
        } else {
            self
        }
    }

    pub open spec fn use_main_screen(self) -> GridView {
        match self.history.alt_screen {
            Some(main) => {
                let cols = self.screen.cols;
                let n = self.screen.rows_count;
                let g = self.with_rows(fit_screen(main, n, cols)).with_history(
                    HistoryView { alt_screen: None, ..self.history },
                ).restore_cursor();
                g.with_cursor_xy(
                    min_nat(g.cur.cursor.x as nat, last_index(cols)),
                    min_nat(g.cur.cursor.y as nat, last_index(n)),
                ).with_region(0, last_index(n)).bump().mark_all_dirty()
            },
            None => self,
        }
    }

    pub open spec fn begin_synchronized_output(self) -> GridView {
        if self.modes.synchronized_output {
            self
        } else {
            self.with_modes(DecModes { synchronized_output: true, ..self.modes }).with_history(
                HistoryView {
                    sync_snapshot: Some(self.screen.rows),
                    sync_cursor_snapshot: Some(self.cur.cursor),
                    ..self.history
                },
            )
        }
    }

    pub open spec fn end_synchronized_output(self) -> GridView {
        self.with_modes(DecModes { synchronized_output: false, ..self.modes }).with_history(
            HistoryView { sync_snapshot: None, sync_cursor_snapshot: None, ..self.history },
        ).bump().mark_all_dirty()
    }

    /// Full reset (RIS): blank screen, home cursor, plain pen, full-screen
    /// scroll region, no saved cursor, no alternate screen, no scrollback,
    /// initial modes and character sets, no queued responses.
    pub open spec fn reset(self) -> GridView {
        let g = self.clear_screen();
        GridView {
            cur: CursorView {
                cursor: home_cursor(),
                saved: None,
                wrap_pending: false,
                top: 0,
                bottom: last_index(g.screen.rows_count),
                ..g.cur
            },
            pen: plain_pen(),
            history: HistoryView {
                scrollback: Seq::empty(),
                alt_screen: None,
                sync_snapshot: None,
                sync_cursor_snapshot: None,
                ..g.history
            },
            modes: initial_modes(),
            charsets: ascii_charsets(),
            responses: Seq::empty(),
            ..g
        }.mark_all_dirty()
    }
}

/// Scrolling changes only the screen's rows and the scrollback: every
/// other part of the grid is kept.
pub proof fn lemma_scroll_up_steps_frame(g: GridView, n: nat)
    ensures
        ({
            let h = g.scroll_up_steps(n);
            &&& h.screen.cols == g.screen.cols
            &&& h.screen.rows_count == g.screen.rows_count
            &&& h.screen.dirty_rows == g.screen.dirty_rows
            &&& h.screen.dirty_flag == g.screen.dirty_flag
            &&& h.screen.generation == g.screen.generation
            &&& h.history.max_scrollback == g.history.max_scrollback
            &&& h.history.alt_screen == g.history.alt_screen
            &&& h.history.sync_snapshot == g.history.sync_snapshot
            &&& h.history.sync_cursor_snapshot == g.history.sync_cursor_snapshot
            &&& h.cur == g.cur
            &&& h.pen == g.pen
            &&& h.modes == g.modes
            &&& h.charsets == g.charsets
            &&& h.responses == g.responses
            &&& h.bell_pending == g.bell_pending
        }),
    decreases n,
{
    if n > 0 {
        lemma_scroll_up_steps_frame(g, (n - 1) as nat);
    }
}

/// Scrolling down changes only the screen's rows.
pub proof fn lemma_scroll_down_steps_frame(g: GridView, n: nat)
    ensures
        ({
            let h = g.scroll_down_steps(n);
            &&& h.screen.cols == g.screen.cols
            &&& h.screen.rows_count == g.screen.rows_count
            &&& h.screen.dirty_rows == g.screen.dirty_rows
            &&& h.screen.dirty_flag == g.screen.dirty_flag
            &&& h.screen.generation == g.screen.generation
            &&& h.history == g.history
            &&& h.cur == g.cur
            &&& h.pen == g.pen
            &&& h.modes == g.modes
            &&& h.charsets == g.charsets
            &&& h.responses == g.responses
            &&& h.bell_pending == g.bell_pending
        }),
    decreases n,
{
    if n > 0 {
        lemma_scroll_down_steps_frame(g, (n - 1) as nat);
    }
}

/// `ESC [ row ; col R`
pub open spec fn cursor_position_report(row: nat, col: nat) -> Seq<char> {
    seq!['\x1b', '['] + crate::text::decimal(row) + seq![';'] + crate::text::decimal(col) + seq!['R']
}

/// The state of a freshly created grid.
pub open spec fn initial_grid(cols: nat, rows: nat, max_scrollback: nat) -> GridView {
    GridView {
        screen: ScreenView {
            rows: blank_screen(rows, cols),
            cols,
            rows_count: rows,
            dirty_rows: Seq::new(rows, |i: int| false),
            dirty_flag: false,
            generation: 0,
        },
        history: HistoryView {
            scrollback: Seq::empty(),
            max_scrollback,
            alt_screen: None,
            sync_snapshot: None,
            sync_cursor_snapshot: None,
        },
        cur: CursorView {
            cursor: home_cursor(),
            saved: None,
            wrap_pending: false,
            top: 0,
            bottom: last_index(rows),
            tab_stops: default_tab_stops(cols),
        },
        pen: plain_pen(),
        modes: initial_modes(),
        charsets: ascii_charsets(),
        responses: Seq::empty(),
        bell_pending: false,
    }
}

} // verus!
