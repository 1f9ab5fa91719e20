use std::collections::VecDeque;
use vstd::prelude::*;

use super::cell::{
    blank_cell, erased_cell, home_cursor, plain_attrs, CellAttributes, CharacterSet, Color,
    Cursor, CursorShape, NamedColor, SavedCursorState, TerminalCell,
};
use super::model::{
    ascii_charsets, dec_special_graphics, blank_row, blank_screen, cursor_position_report, default_tab_stops,
    erase_cells, fit_row, fit_screen, initial_grid, initial_modes, is_ascii, is_control,
    last_index, min_nat, next_generation, next_tab_stop, plain_pen, printed_width, rows_view,
    strings_view, true_indices, unicode_char_width, lemma_scroll_up_steps_frame,
    lemma_scroll_down_steps_frame, Charsets, CursorView, DecModes, GridView,
    HistoryView, Pen, ScreenView,
};
use crate::text::{chars_to_string, decimal, push_decimal};

verus! {

/// The visible screen and its change tracking.
struct Screen {
    rows: Vec<Vec<TerminalCell>>,
    cols: usize,
    rows_count: usize,
    dirty_rows: Vec<bool>,
    dirty_flag: bool,
    generation: u64,
}

impl View for Screen {
    type V = ScreenView;

    closed spec fn view(&self) -> ScreenView {
        ScreenView {
            rows: rows_view(self.rows@),
            cols: self.cols as nat,
            rows_count: self.rows_count as nat,
            dirty_rows: self.dirty_rows@,
            dirty_flag: self.dirty_flag,
            generation: self.generation,
        }
    }
}

/// Scrollback, the saved main screen and the synchronized-output snapshot.
struct History {
    scrollback: VecDeque<Vec<TerminalCell>>,
    max_scrollback: usize,
    alt_screen: Option<Vec<Vec<TerminalCell>>>,
    sync_snapshot: Option<Vec<Vec<TerminalCell>>>,
    sync_cursor_snapshot: Option<Cursor>,
}

impl View for History {
    type V = HistoryView;

    closed spec fn view(&self) -> HistoryView {
        HistoryView {
            scrollback: rows_view(self.scrollback@),
            max_scrollback: self.max_scrollback as nat,
            alt_screen: match self.alt_screen {
                Some(s) => Some(rows_view(s@)),
                None => None,
            },
            sync_snapshot: match self.sync_snapshot {
                Some(s) => Some(rows_view(s@)),
                None => None,
            },
            sync_cursor_snapshot: self.sync_cursor_snapshot,
        }
    }
}

/// Cursor, saved cursor, scroll region and tab stops.
struct CursorState {
    cursor: Cursor,
    saved: Option<SavedCursorState>,
    wrap_pending: bool,
    top: usize,
    bottom: usize,
    tab_stops: Vec<bool>,
}

impl View for CursorState {
    type V = CursorView;

    closed spec fn view(&self) -> CursorView {
        CursorView {
            cursor: self.cursor,
            saved: self.saved,
            wrap_pending: self.wrap_pending,
            top: self.top as nat,
            bottom: self.bottom as nat,
            tab_stops: self.tab_stops@,
        }
    }
}

/// Terminal grid with scrollback buffer and dirty tracking
pub struct TerminalGrid {
    screen: Screen,
    history: History,
    cur: CursorState,
    pen: Pen,
    modes: DecModes,
    charsets: Charsets,
    /// Response queue for DSR and other queries
    response_queue: Vec<String>,
    /// Bell character received
    bell_pending: bool,
}

impl View for TerminalGrid {
    type V = GridView;

    closed spec fn view(&self) -> GridView {
        GridView {
            screen: self.screen@,
            history: self.history@,
            cur: self.cur@,
            pen: self.pen,
            modes: self.modes,
            charsets: self.charsets,
            responses: strings_view(self.response_queue@),
            bell_pending: self.bell_pending,
        }
    }
}

proof fn lemma_rows_view_update(v: Seq<Vec<TerminalCell>>, i: int, r: Vec<TerminalCell>)
    requires
        0 <= i < v.len(),
    ensures
        rows_view(v.update(i, r)) == rows_view(v).update(i, r@),
{
    assert(rows_view(v.update(i, r)) =~= rows_view(v).update(i, r@));
}

proof fn lemma_rows_view_remove(v: Seq<Vec<TerminalCell>>, i: int)
    requires
        0 <= i < v.len(),
    ensures
        rows_view(v.remove(i)) == rows_view(v).remove(i),
{
    assert(rows_view(v.remove(i)) =~= rows_view(v).remove(i));
}

proof fn lemma_rows_view_insert(v: Seq<Vec<TerminalCell>>, i: int, r: Vec<TerminalCell>)
    requires
        0 <= i <= v.len(),
    ensures
        rows_view(v.insert(i, r)) == rows_view(v).insert(i, r@),
{
    assert(rows_view(v.insert(i, r)) =~= rows_view(v).insert(i, r@));
}

proof fn lemma_rows_view_push(v: Seq<Vec<TerminalCell>>, r: Vec<TerminalCell>)
    ensures
        rows_view(v.push(r)) == rows_view(v).push(r@),
{
    assert(rows_view(v.push(r)) =~= rows_view(v).push(r@));
}

proof fn lemma_rows_view_drop_first(v: Seq<Vec<TerminalCell>>)
    requires
        v.len() > 0,
    ensures
        rows_view(v.subrange(1, v.len() as int)) == rows_view(v).drop_first(),
{
    assert(rows_view(v.subrange(1, v.len() as int)) =~= rows_view(v).drop_first());
}

/// A row of `cols` blank cells.
fn new_blank_row(cols: usize) -> (r: Vec<TerminalCell>)
    ensures
        r@ == blank_row(cols as nat),
{
    let mut r: Vec<TerminalCell> = Vec::new();
    let mut i: usize = 0;
    while i < cols
        invariant
            i <= cols,
            r@ == blank_row(i as nat),
        decreases cols - i,
    {
        r.push(TerminalCell::default());
        i = i + 1;
        assert(r@ =~= blank_row(i as nat));
    }
    r
}

/// A copy of a row.
fn clone_row(row: &Vec<TerminalCell>) -> (r: Vec<TerminalCell>)
    ensures
        r@ == row@,
{
    let mut r: Vec<TerminalCell> = Vec::new();
    let mut i: usize = 0;
    while i < row.len()
        invariant
            i <= row.len(),
            r@ == row@.subrange(0, i as int),
        decreases row.len() - i,
    {
        r.push(row[i]);
        i = i + 1;
        assert(r@ =~= row@.subrange(0, i as int));
    }
    assert(row@.subrange(0, row.len() as int) =~= row@);
    r
}

/// A copy of a screen.
fn clone_rows(rows: &Vec<Vec<TerminalCell>>) -> (r: Vec<Vec<TerminalCell>>)
    ensures
        rows_view(r@) == rows_view(rows@),
{
    let mut r: Vec<Vec<TerminalCell>> = Vec::new();
    let mut j: usize = 0;
    while j < rows.len()
        invariant
            j <= rows.len(),
            rows_view(r@) == rows_view(rows@).subrange(0, j as int),
        decreases rows.len() - j,
    {
        let row = clone_row(&rows[j]);
        proof {
            lemma_rows_view_push(r@, row);
        }
        r.push(row);
        j = j + 1;
        assert(rows_view(r@) =~= rows_view(rows@).subrange(0, j as int));
    }
    assert(rows_view(rows@).subrange(0, rows.len() as int) =~= rows_view(rows@));
    r
}

/// Erases the cells at columns `from..to` of `row`.
fn erase_row_cells(row: &mut Vec<TerminalCell>, from: usize, to: usize, bg: Color)
    requires
        from <= to <= old(row)@.len(),
    ensures
        final(row)@ == erase_cells(old(row)@, from as int, to as int, bg),
{
    let mut x = from;
    while x < to
        invariant
            from <= x <= to,
            to <= row@.len(),
            row@ == erase_cells(old(row)@, from as int, x as int, bg),
        decreases to - x,
    {
        row.set(x, TerminalCell {
            c: ' ',
            fg: Color::Named(NamedColor::White),
            bg,
            attrs: CellAttributes::default(),
            wide: false,
        });
        x = x + 1;
        assert(row@ =~= erase_cells(old(row)@, from as int, x as int, bg));
    }
}

/// Whether `c` is a control character (general category Cc), as std's
/// `char::is_control` decides it.
fn is_control_char(c: char) -> (b: bool)
    ensures
        b == is_control(c),
{
    let u = c as u32;
    u < 0x20 || (0x7f <= u && u < 0xa0)
}

/// The column width of `c` by `unicode_width::UnicodeWidthChar::width`.
/// The claim: the result is the crate's width of `c`; characters below
/// U+0020 and from U+007F to U+009F are control characters and have none;
/// the other ASCII characters are one column wide; every character from
/// U+00A0 on has a width.
#[verifier::external_body]
fn char_width(c: char) -> (w: Option<usize>)
    ensures
        w == unicode_char_width(c),
        (c as u32) < 0x20 ==> w is None,
        0x20 <= (c as u32) < 0x7f ==> w == Some(1usize),
        0x7f <= (c as u32) < 0xa0 ==> w is None,
        (c as u32) >= 0xa0 ==> w is Some,
{
    unicode_width::UnicodeWidthChar::width(c)
}

impl TerminalGrid {
    /// The empty grid of `cols` columns and `rows` rows, keeping at most
    /// `max_scrollback` lines of scrollback.
    pub fn new(cols: usize, rows: usize, max_scrollback: usize) -> (g: Self)
        requires
            cols <= isize::MAX,
            rows <= isize::MAX,
        ensures
            g@ == initial_grid(cols as nat, rows as nat, max_scrollback as nat),
            g@.wf(),
    {
        let mut tab_stops: Vec<bool> = Vec::new();
        let mut i: usize = 0;
        while i < cols
            invariant
                i <= cols,
                tab_stops@ == default_tab_stops(i as nat),
            decreases cols - i,
        {
            tab_stops.push(i % 8 == 0);
            i = i + 1;
            assert(tab_stops@ =~= default_tab_stops(i as nat));
        }
        let mut screen: Vec<Vec<TerminalCell>> = Vec::new();
        let mut dirty_rows: Vec<bool> = Vec::new();
        let mut j: usize = 0;
        while j < rows
            invariant
                j <= rows,
                rows_view(screen@) == blank_screen(j as nat, cols as nat),
                dirty_rows@ == Seq::new(j as nat, |i: int| false),
            decreases rows - j,
        {
            let r = new_blank_row(cols);
            proof {
                lemma_rows_view_push(screen@, r);
            }
            screen.push(r);
            dirty_rows.push(false);
            j = j + 1;
            assert(rows_view(screen@) =~= blank_screen(j as nat, cols as nat));
            assert(dirty_rows@ =~= Seq::new(j as nat, |i: int| false));
        }
        let bottom: usize = if rows == 0 { 0 } else { rows - 1 };
        let g = TerminalGrid {
            screen: Screen {
                rows: screen,
                cols,
                rows_count: rows,
                dirty_rows,
                dirty_flag: false,
                generation: 0,
            },
            history: History {
                scrollback: VecDeque::new(),
                max_scrollback,
                alt_screen: None,
                sync_snapshot: None,
                sync_cursor_snapshot: None,
            },
            cur: CursorState {
                cursor: Cursor::default(),
                saved: None,
                wrap_pending: false,
                top: 0,
                bottom,
                tab_stops,
            },
            pen: Pen { attrs: CellAttributes::default(), fg: Color::Default, bg: Color::Default },
            modes: DecModes {
                application_cursor_keys: false,
                bracketed_paste_mode: false,
                focus_event_mode: false,
                synchronized_output: false,
                mouse_normal_tracking: false,
                mouse_button_tracking: false,
                mouse_any_event_tracking: false,
                mouse_utf8_mode: false,
                mouse_sgr_mode: false,
                mouse_urxvt_mode: false,
                lnm_mode: false,
                auto_wrap_mode: true,
                insert_mode: false,
                origin_mode: false,
            },
            charsets: Charsets {
                g0: CharacterSet::Ascii,
                g1: CharacterSet::Ascii,
                use_g0: true,
            },
            response_queue: Vec::new(),
            bell_pending: false,
        };
        assert(g@.responses =~= Seq::empty());
        assert(g@.history.scrollback =~= Seq::empty());
        g
    }

    pub fn cols(&self) -> (n: usize)
        ensures
            n == self@.screen.cols,
    {
        self.screen.cols
    }

    pub fn rows(&self) -> (n: usize)
        ensures
            n == self@.screen.rows_count,
    {
        self.screen.rows_count
    }

    pub fn scroll_region_top(&self) -> (n: usize)
        ensures
            n == self@.cur.top,
    {
        self.cur.top
    }

    pub fn scroll_region_bottom(&self) -> (n: usize)
        ensures
            n == self@.cur.bottom,
    {
        self.cur.bottom
    }

    pub fn scrollback_len(&self) -> (n: usize)
        ensures
            n == self@.history.scrollback.len(),
    {
        self.history.scrollback.len()
    }

    pub fn generation(&self) -> (n: u64)
        ensures
            n == self@.screen.generation,
    {
        self.screen.generation
    }

    /// The cursor.
    pub fn cursor(&self) -> (c: Cursor)
        ensures
            c == self@.cur.cursor,
    {
        self.cur.cursor
    }

    /// The pen (attributes and colors for new characters).
    pub fn pen(&self) -> (p: Pen)
        ensures
            p == self@.pen,
    {
        self.pen
    }

    /// The DEC private and ANSI modes.
    pub fn modes(&self) -> (m: DecModes)
        ensures
            m == self@.modes,
    {
        self.modes
    }

    /// The character set designations.
    pub fn charsets(&self) -> (c: Charsets)
        ensures
            c == self@.charsets,
    {
        self.charsets
    }

    /// Whether a bell arrived since the flag was last cleared.
    pub fn bell_pending(&self) -> (b: bool)
        ensures
            b == self@.bell_pending,
    {
        self.bell_pending
    }

    pub fn set_bell_pending(&mut self, b: bool)
        ensures
            final(self)@ == (GridView { bell_pending: b, ..old(self)@ }),
    {
        self.bell_pending = b;
    }

    pub fn set_pen(&mut self, pen: Pen)
        ensures
            final(self)@ == old(self)@.with_pen(pen),
    {
        self.pen = pen;
    }

    /// Sets the modes that are plain flags; synchronized output and origin
    /// mode keep their values (they have operations of their own).
    pub fn set_modes(&mut self, modes: DecModes)
        ensures
            final(self)@ == old(self)@.with_modes(
                DecModes {
                    synchronized_output: old(self)@.modes.synchronized_output,
                    origin_mode: old(self)@.modes.origin_mode,
                    ..modes
                },
            ),
    {
        let sync = self.modes.synchronized_output;
        let origin = self.modes.origin_mode;
        self.modes = DecModes { synchronized_output: sync, origin_mode: origin, ..modes };
    }

    /// Sets the cursor's visibility and shape (its position is kept).
    pub fn set_cursor_style(&mut self, visible: bool, shape: CursorShape)
        ensures
            final(self)@ == old(self)@.with_cursor(
                Cursor { visible, shape, ..old(self)@.cur.cursor },
            ),
    {
        self.cur.cursor.visible = visible;
        self.cur.cursor.shape = shape;
    }

    /// Get all visible rows
    pub fn get_rows(&self) -> (r: &[Vec<TerminalCell>])
        ensures
            rows_view(r@) == self@.screen.rows,
    {
        self.screen.rows.as_slice()
    }

    /// Get scrollback buffer
    pub fn get_scrollback(&self) -> (r: &VecDeque<Vec<TerminalCell>>)
        ensures
            rows_view(r@) == self@.history.scrollback,
    {
        &self.history.scrollback
    }

    /// Indices of the dirty rows, in increasing order.
    fn dirty_indices(&self) -> (r: Vec<usize>)
        ensures
            r@ == true_indices(self@.screen.dirty_rows, self@.screen.dirty_rows.len()),
    {
        let mut r: Vec<usize> = Vec::new();
        let mut i: usize = 0;
        while i < self.screen.dirty_rows.len()
            invariant
                i <= self.screen.dirty_rows.len(),
                r@ == true_indices(self.screen.dirty_rows@, i as nat),
            decreases self.screen.dirty_rows.len() - i,
        {
            if self.screen.dirty_rows[i] {
                r.push(i);
            }
            i = i + 1;
        }
        r
    }

    /// Take dirty rows (returns changed indices and clears tracking)
    pub fn take_dirty_rows(&mut self) -> (dirty: Vec<usize>)
        ensures
            dirty@ == true_indices(old(self)@.screen.dirty_rows, old(self)@.screen.dirty_rows.len()),
            final(self)@ == old(self)@.take_dirty(),
    {
        let dirty = self.dirty_indices();
        let n = self.screen.dirty_rows.len();
        let mut i: usize = 0;
        while i < n
            invariant
                n == self.screen.dirty_rows.len(),
                i <= n,
                forall|k: int| 0 <= k < i ==> !self.screen.dirty_rows@[k],
                self.screen.rows == old(self).screen.rows,
                self.screen.cols == old(self).screen.cols,
                self.screen.rows_count == old(self).screen.rows_count,
                self.screen.dirty_flag == old(self).screen.dirty_flag,
                self.screen.generation == old(self).screen.generation,
                self.history == old(self).history,
                self.cur == old(self).cur,
                self.pen == old(self).pen,
                self.modes == old(self).modes,
                self.charsets == old(self).charsets,
                self.response_queue == old(self).response_queue,
                self.bell_pending == old(self).bell_pending,
            decreases n - i,
        {
            self.screen.dirty_rows.set(i, false);
            i = i + 1;
        }
        self.screen.dirty_flag = false;
        assert(self@.screen.dirty_rows =~= Seq::new(n as nat, |i: int| false));
        dirty
    }

    /// Check if screen has changed since last read
    pub fn is_dirty(&self) -> (b: bool)
        ensures
            b == self@.screen.dirty_flag,
    {
        self.screen.dirty_flag
    }

    /// Get which rows are dirty without clearing
    pub fn peek_dirty_rows(&self) -> (dirty: Vec<usize>)
        ensures
            dirty@ == true_indices(self@.screen.dirty_rows, self@.screen.dirty_rows.len()),
    {
        self.dirty_indices()
    }
}

impl TerminalGrid {
    fn mark_dirty(&mut self, row: usize)
        ensures
            final(self)@ == old(self)@.mark_dirty(row as nat),
    {
        if row < self.screen.dirty_rows.len() {
            self.screen.dirty_rows.set(row, true);
        }
        self.screen.dirty_flag = true;
    }

    fn mark_all_dirty(&mut self)
        ensures
            final(self)@ == old(self)@.mark_all_dirty(),
    {
        let n = self.screen.dirty_rows.len();
        let mut i: usize = 0;
        while i < n
            invariant
                n == self.screen.dirty_rows.len(),
                i <= n,
                forall|k: int| 0 <= k < i ==> self.screen.dirty_rows@[k],
                self.screen.rows == old(self).screen.rows,
                self.screen.cols == old(self).screen.cols,
                self.screen.rows_count == old(self).screen.rows_count,
                self.screen.dirty_flag == old(self).screen.dirty_flag,
                self.screen.generation == old(self).screen.generation,
                self.history == old(self).history,
                self.cur == old(self).cur,
                self.pen == old(self).pen,
                self.modes == old(self).modes,
                self.charsets == old(self).charsets,
                self.response_queue == old(self).response_queue,
                self.bell_pending == old(self).bell_pending,
            decreases n - i,
        {
            self.screen.dirty_rows.set(i, true);
            i = i + 1;
        }
        self.screen.dirty_flag = true;
        assert(self@.screen.dirty_rows =~= Seq::new(n as nat, |i: int| true));
    }

    fn bump_generation(&mut self)
        ensures
            final(self)@ == old(self)@.bump(),
    {
        if self.screen.generation == u64::MAX {
            self.screen.generation = 0;
        } else {
            self.screen.generation = self.screen.generation + 1;
        }
    }

    /// Writes one cell of the screen.
    fn set_cell(&mut self, x: usize, y: usize, cell: TerminalCell)
        requires
            y < old(self)@.screen.rows.len(),
            x < old(self)@.screen.rows[y as int].len(),
        ensures
            final(self)@ == old(self)@.write_cell(x as int, y as int, cell),
    {
        let ghost rows0 = self.screen.rows@;
        self.screen.rows[y].set(x, cell);
        assert(self.screen.rows@ == rows0.update(y as int, self.screen.rows@[y as int]));
        assert(self.screen.rows@[y as int]@ == rows0[y as int]@.update(x as int, cell));
        proof {
            lemma_rows_view_update(rows0, y as int, self.screen.rows@[y as int]);
        }
    }

    /// Get the currently active character set
    pub fn active_charset(&self) -> (cs: CharacterSet)
        ensures
            cs == self@.active_charset(),
    {
        if self.charsets.use_g0 {
            self.charsets.g0
        } else {
            self.charsets.g1
        }
    }

    /// Map a character through the active character set
    pub fn map_char(&self, c: char) -> (m: char)
        ensures
            m == self@.map_char(c),
    {
        proof {
            reveal(dec_special_graphics);
        }
        match self.active_charset() {
            CharacterSet::Ascii => c,
            CharacterSet::DecSpecialGraphics => match c {
                '_' => ' ',
                '`' => '◆',
                'a' => '▒',
                'b' => '␉',
                'c' => '␌',
                'd' => '␍',
                'e' => '␊',
                'f' => '°',
                'g' => '±',
                'h' => '␤',
                'i' => '␋',
                'j' => '┘',
                'k' => '┐',
                'l' => '┌',
                'm' => '└',
                'n' => '┼',
                'o' => '⎺',
                'p' => '⎻',
                'q' => '─',
                'r' => '⎼',
                's' => '⎽',
                't' => '├',
                'u' => '┤',
                'v' => '┴',
                'w' => '┬',
                'x' => '│',
                'y' => '≤',
                'z' => '≥',
                '{' => 'π',
                '|' => '≠',
                '}' => '£',
                '~' => '·',
                _ => c,
            },
        }
    }

    pub fn set_charset_g0(&mut self, charset: CharacterSet)
        ensures
            final(self)@ == old(self)@.with_charsets(Charsets { g0: charset, ..old(self)@.charsets }),
    {
        self.charsets.g0 = charset;
    }

    pub fn set_charset_g1(&mut self, charset: CharacterSet)
        ensures
            final(self)@ == old(self)@.with_charsets(Charsets { g1: charset, ..old(self)@.charsets }),
    {
        self.charsets.g1 = charset;
    }

    pub fn shift_in(&mut self)
        ensures
            final(self)@ == old(self)@.with_charsets(Charsets { use_g0: true, ..old(self)@.charsets }),
    {
        self.charsets.use_g0 = true;
    }

    pub fn shift_out(&mut self)
        ensures
            final(self)@ == old(self)@.with_charsets(Charsets { use_g0: false, ..old(self)@.charsets }),
    {
        self.charsets.use_g0 = false;
    }

    pub fn queue_response(&mut self, response: String)
        ensures
            final(self)@ == old(self)@.with_responses(old(self)@.responses.push(response@)),
    {
        self.response_queue.push(response);
        assert(strings_view(self.response_queue@) =~= old(self)@.responses.push(response@));
    }

    pub fn take_responses(&mut self) -> (r: Vec<String>)
        ensures
            strings_view(r@) == old(self)@.responses,
            final(self)@ == old(self)@.with_responses(Seq::empty()),
    {
        let mut r: Vec<String> = Vec::new();
        std::mem::swap(&mut r, &mut self.response_queue);
        assert(strings_view(self.response_queue@) =~= Seq::empty());
        r
    }

    pub fn queue_cursor_position_report(&mut self)
        requires
            old(self)@.wf(),
        ensures
            final(self)@ == old(self)@.with_responses(
                old(self)@.responses.push(
                    cursor_position_report(
                        old(self)@.report_position().0,
                        old(self)@.report_position().1,
                    ),
                ),
            ),
    {
        let (row, col) = if self.modes.origin_mode {
            let row = (self.cur.cursor.y.saturating_sub(self.cur.top)) + 1;
            let col = self.cur.cursor.x + 1;
            (row, col)
        } else {
            let row = self.cur.cursor.y + 1;
            let col = self.cur.cursor.x + 1;
            (row, col)
        };
        let mut out: Vec<char> = Vec::new();
        out.push('\x1b');
        out.push('[');
        push_decimal(&mut out, row);
        out.push(';');
        push_decimal(&mut out, col);
        out.push('R');
        let response = chars_to_string(&out);
        assert(response@ =~= cursor_position_report(row as nat, col as nat));
        self.queue_response(response);
    }

    pub fn get_cell(&self, x: usize, y: usize) -> (r: Option<&TerminalCell>)
        ensures
            r matches Some(c) ==> self@.cell(x as int, y as int) == Some(*c),
            r is None ==> self@.cell(x as int, y as int) is None,
    {
        if y < self.screen.rows.len() && x < self.screen.rows[y].len() {
            Some(&self.screen.rows[y][x])
        } else {
            None
        }
    }

    pub fn get_render_cell(&self, x: usize, y: usize) -> (r: Option<&TerminalCell>)
        ensures
            ({
                let screen = match self@.history.sync_snapshot {
                    Some(s) => s,
                    None => self@.screen.rows,
                };
                &&& r matches Some(c) ==> 0 <= y < screen.len() && 0 <= x < screen[y as int].len()
                    && screen[y as int][x as int] == *c
                &&& r is None ==> !(0 <= y < screen.len() && 0 <= x < screen[y as int].len())
            }),
    {
        match &self.history.sync_snapshot {
            Some(snapshot) => {
                if y < snapshot.len() && x < snapshot[y].len() {
                    Some(&snapshot[y][x])
                } else {
                    None
                }
            },
            None => self.get_cell(x, y),
        }
    }

    pub fn get_render_cursor(&self) -> (c: &Cursor)
        ensures
            *c == match self@.history.sync_cursor_snapshot {
                Some(s) => s,
                None => self@.cur.cursor,
            },
    {
        match &self.history.sync_cursor_snapshot {
            Some(cursor) => cursor,
            None => &self.cur.cursor,
        }
    }

    pub fn get_cell_mut(&mut self, x: usize, y: usize) -> (r: Option<&mut TerminalCell>)
        ensures
            r is Some <==> old(self)@.cell(x as int, y as int) is Some,
            r matches Some(c) ==> old(self)@.cell(x as int, y as int) == Some(*c)
                && final(self)@ == old(self)@.write_cell(x as int, y as int, *final(c)),
            r is None ==> final(self)@ == old(self)@,
    {
        if y < self.screen.rows.len() && x < self.screen.rows[y].len() {
            let ghost rows0 = self.screen.rows@;
            let row = &mut self.screen.rows[y];
            assert(*row == rows0[y as int]);
            let ghost frow = *final(row);
            proof {
                lemma_rows_view_update(rows0, y as int, frow);
            }
            let r = &mut row[x];
            assert(*r == rows0[y as int]@[x as int]);
            assert(frow@ == rows0[y as int]@.update(x as int, *final(r)));
            Some(r)
        } else {
            None
        }
    }

    pub fn get_scrollback_line(&self, idx: usize) -> (r: Option<&Vec<TerminalCell>>)
        ensures
            r matches Some(line) ==> idx < self@.history.scrollback.len()
                && line@ == self@.history.scrollback[idx as int],
            r is None ==> idx >= self@.history.scrollback.len(),
    {
        if idx < self.history.scrollback.len() {
            Some(&self.history.scrollback[idx])
        } else {
            None
        }
    }

    pub fn begin_synchronized_output(&mut self)
        ensures
            final(self)@ == old(self)@.begin_synchronized_output(),
    {
        if !self.modes.synchronized_output {
            self.modes.synchronized_output = true;
            self.history.sync_snapshot = Some(clone_rows(&self.screen.rows));
            self.history.sync_cursor_snapshot = Some(self.cur.cursor);
        }
    }

    pub fn end_synchronized_output(&mut self)
        ensures
            final(self)@ == old(self)@.end_synchronized_output(),
    {
        self.modes.synchronized_output = false;
        self.history.sync_snapshot = None;
        self.history.sync_cursor_snapshot = None;
        self.bump_generation();
        self.mark_all_dirty();
    }
}

impl TerminalGrid {
    #[verifier::spinoff_prover]
    #[verifier::rlimit(40)]
    fn scroll_up_once(&mut self)
        requires
            old(self)@.wf(),
        ensures
            final(self)@ == old(self)@.scroll_up_once(),
            final(self)@.wf(),
    {
        let ghost g0 = self@;
        if self.cur.top < self.screen.rows_count {
            let ghost rows0 = self.screen.rows@;
            let line = self.screen.rows.remove(self.cur.top);
            proof {
                lemma_rows_view_remove(rows0, self.cur.top as int);
            }
            if self.history.alt_screen.is_none() {
                let ghost sb0 = self.history.scrollback@;
                self.history.scrollback.push_back(line);
                proof {
                    lemma_rows_view_push(sb0, line);
                }
                if self.history.scrollback.len() > self.history.max_scrollback {
                    let ghost sb1 = self.history.scrollback@;
                    let _ = self.history.scrollback.pop_front();
                    proof {
                        lemma_rows_view_drop_first(sb1);
                    }
                }
            }
            let last = self.screen.rows_count - 1;
            let pos = if self.cur.bottom < last { self.cur.bottom } else { last };
            let ghost rows1 = self.screen.rows@;
            let blank = new_blank_row(self.screen.cols);
            self.screen.rows.insert(pos, blank);
            proof {
                lemma_rows_view_insert(rows1, pos as int, blank);
            }
            assert(self@.screen.rows =~= g0.scroll_up_once().screen.rows);
            assert(self@.history == g0.scroll_up_once().history);
            assert forall|j: int| 0 <= j < self@.screen.rows_count implies
                (#[trigger] self@.screen.rows[j]).len() == self@.screen.cols by {
                if j < pos {
                    assert(self@.screen.rows[j] == g0.screen.rows.remove(g0.cur.top as int)[j]);
                } else if j > pos {
                    assert(self@.screen.rows[j] == g0.screen.rows.remove(g0.cur.top as int)[j - 1]);
                }
            }
        }
    }

    fn scroll_down_once(&mut self)
        requires
            old(self)@.wf(),
        ensures
            final(self)@ == old(self)@.scroll_down_once(),
            final(self)@.wf(),
    {
        let ghost g0 = self@;
        if self.cur.bottom < self.screen.rows_count {
            let ghost rows0 = self.screen.rows@;
            let _ = self.screen.rows.remove(self.cur.bottom);
            proof {
                lemma_rows_view_remove(rows0, self.cur.bottom as int);
            }
            let ghost rows1 = self.screen.rows@;
            let blank = new_blank_row(self.screen.cols);
            self.screen.rows.insert(self.cur.top, blank);
            proof {
                lemma_rows_view_insert(rows1, self.cur.top as int, blank);
            }
            assert(self@.screen.rows =~= g0.scroll_down_once().screen.rows);
            assert forall|j: int| 0 <= j < self@.screen.rows_count implies
                (#[trigger] self@.screen.rows[j]).len() == self@.screen.cols by {
                let r1 = g0.screen.rows.remove(g0.cur.bottom as int);
                if j < g0.cur.top {
                    assert(self@.screen.rows[j] == r1[j]);
                } else if j > g0.cur.top {
                    assert(self@.screen.rows[j] == r1[j - 1]);
                }
            }
        }
    }

    pub fn scroll_up(&mut self, n: usize)
        requires
            old(self)@.wf(),
        ensures
            final(self)@ == old(self)@.scroll_up(n as nat),
            final(self)@.wf(),
            final(self)@.screen.cols == old(self)@.screen.cols,
            final(self)@.screen.rows_count == old(self)@.screen.rows_count,
            final(self)@.cur == old(self)@.cur,
            final(self)@.pen == old(self)@.pen,
            final(self)@.modes == old(self)@.modes,
            final(self)@.charsets == old(self)@.charsets,
            final(self)@.responses == old(self)@.responses,
            final(self)@.bell_pending == old(self)@.bell_pending,
    {
        proof {
            lemma_scroll_up_steps_frame(old(self)@, n as nat);
        }
        let mut i: usize = 0;
        while i < n
            invariant
                i <= n,
                self@ == old(self)@.scroll_up_steps(i as nat),
                self@.wf(),
            decreases n - i,
        {
            self.scroll_up_once();
            i = i + 1;
        }
        self.bump_generation();
        self.mark_all_dirty();
    }

    pub fn scroll_down(&mut self, n: usize)
        requires
            old(self)@.wf(),
        ensures
            final(self)@ == old(self)@.scroll_down(n as nat),
            final(self)@.wf(),
            final(self)@.screen.cols == old(self)@.screen.cols,
            final(self)@.screen.rows_count == old(self)@.screen.rows_count,
            final(self)@.history == old(self)@.history,
            final(self)@.cur == old(self)@.cur,
            final(self)@.pen == old(self)@.pen,
            final(self)@.modes == old(self)@.modes,
            final(self)@.charsets == old(self)@.charsets,
            final(self)@.responses == old(self)@.responses,
            final(self)@.bell_pending == old(self)@.bell_pending,
    {
        proof {
            lemma_scroll_down_steps_frame(old(self)@, n as nat);
        }
        let mut i: usize = 0;
        while i < n
            invariant
                i <= n,
                self@ == old(self)@.scroll_down_steps(i as nat),
                self@.wf(),
            decreases n - i,
        {
            self.scroll_down_once();
            i = i + 1;
        }
        self.bump_generation();
        self.mark_all_dirty();
    }
}

impl TerminalGrid {
    /// Erases columns `from..to` of row `y`.
    fn erase_in_row(&mut self, y: usize, from: usize, to: usize)
        requires
            old(self)@.wf(),
            y < old(self)@.screen.rows_count,
            from <= to <= old(self)@.screen.cols,
        ensures
            final(self)@ == old(self)@.erase_in_row(y as nat, from as int, to as int),
            final(self)@.wf(),
    {
        let ghost rows0 = self.screen.rows@;
        let bg = self.pen.bg;
        erase_row_cells(&mut self.screen.rows[y], from, to, bg);
        proof {
            lemma_rows_view_update(rows0, y as int, self.screen.rows@[y as int]);
        }
        assert(self.screen.rows@ == rows0.update(y as int, self.screen.rows@[y as int]));
        assert forall|j: int| 0 <= j < self@.screen.rows_count implies
            (#[trigger] self@.screen.rows[j]).len() == self@.screen.cols by {
            if j != y {
                assert(self@.screen.rows[j] == old(self)@.screen.rows[j]);
            }
        }
    }

    /// Erases rows `from..to` completely and marks them dirty.
    fn erase_rows(&mut self, from: usize, to: usize)
        requires
            old(self)@.wf(),
            from <= to <= old(self)@.screen.rows_count,
        ensures
            final(self)@ == old(self)@.erase_rows(from as int, to as int),
            final(self)@.wf(),
    {
        let mut j = from;
        assert(old(self)@.erase_rows(from as int, from as int) == old(self)@) by {
            let e = old(self)@.erase_rows(from as int, from as int);
            assert(e.screen.rows =~= old(self)@.screen.rows);
            assert(e.screen.dirty_rows =~= old(self)@.screen.dirty_rows);
        }
        while j < to
            invariant
                from <= j <= to,
                to <= self@.screen.rows_count,
                old(self)@.wf(),
                self@ == old(self)@.erase_rows(from as int, j as int),
                self@.wf(),
            decreases to - j,
        {
            let cols = self.screen.cols;
            self.erase_in_row(j, 0, cols);
            self.mark_dirty(j);
            j = j + 1;
            let ghost e = old(self)@.erase_rows(from as int, j as int);
            assert(self@.screen.rows =~= e.screen.rows);
            assert(self@.screen.dirty_rows =~= e.screen.dirty_rows);
        }
    }

    pub fn clear_screen(&mut self)
        requires
            old(self)@.wf(),
        ensures
            final(self)@ == old(self)@.clear_screen(),
            final(self)@.wf(),
    {
        let n = self.screen.rows_count;
        self.erase_rows(0, n);
        self.bump_generation();
        self.mark_all_dirty();
    }

    pub fn clear_line(&mut self)
        requires
            old(self)@.wf(),
        ensures
            final(self)@ == old(self)@.clear_line(),
            final(self)@.wf(),
    {
        let y = self.cur.cursor.y;
        if y < self.screen.rows.len() {
            let cols = self.screen.cols;
            self.erase_in_row(y, 0, cols);
            self.bump_generation();
            self.mark_dirty(y);
        }
    }

    pub fn erase_to_eol(&mut self)
        requires
            old(self)@.wf(),
        ensures
            final(self)@ == old(self)@.erase_to_eol(),
            final(self)@.wf(),
    {
        let y = self.cur.cursor.y;
        if y < self.screen.rows.len() {
            let x = self.cur.cursor.x;
            let cols = self.screen.cols;
            let from = if x < cols { x } else { cols };
            self.erase_in_row(y, from, cols);
            assert(self@ == old(self)@.erase_in_row(y as nat, x as int, cols as int)) by {
                assert(erase_cells(old(self)@.screen.rows[y as int], from as int, cols as int, self.pen.bg)
                    =~= erase_cells(old(self)@.screen.rows[y as int], x as int, cols as int, self.pen.bg));
            }
            self.bump_generation();
            self.mark_dirty(y);
        }
    }

    pub fn erase_to_bol(&mut self)
        requires
            old(self)@.wf(),
        ensures
            final(self)@ == old(self)@.erase_to_bol(),
            final(self)@.wf(),
    {
        let y = self.cur.cursor.y;
        if y < self.screen.rows.len() {
            let x = self.cur.cursor.x;
            let cols = self.screen.cols;
            let to = if x < cols { x + 1 } else { cols };
            self.erase_in_row(y, 0, to);
            assert(self@ == old(self)@.erase_in_row(y as nat, 0, x + 1)) by {
                assert(erase_cells(old(self)@.screen.rows[y as int], 0, to as int, self.pen.bg)
                    =~= erase_cells(old(self)@.screen.rows[y as int], 0, x + 1, self.pen.bg));
            }
            self.bump_generation();
            self.mark_dirty(y);
        }
    }

    pub fn erase_to_eos(&mut self)
        requires
            old(self)@.wf(),
        ensures
            final(self)@ == old(self)@.erase_to_eos(),
            final(self)@.wf(),
    {
        self.erase_to_eol();
        let y = self.cur.cursor.y;
        let n = self.screen.rows_count;
        if y < n {
            self.erase_rows(y + 1, n);
        } else {
            assert(self@.erase_rows(y + 1, n as int) == self@) by {
                let e = self@.erase_rows(y + 1, n as int);
                assert(e.screen.rows =~= self@.screen.rows);
                assert(e.screen.dirty_rows =~= self@.screen.dirty_rows);
            }
        }
        self.bump_generation();
    }

    pub fn erase_from_bos(&mut self)
        requires
            old(self)@.wf(),
        ensures
            final(self)@ == old(self)@.erase_from_bos(),
            final(self)@.wf(),
    {
        let y = self.cur.cursor.y;
        self.erase_rows(0, y);
        self.erase_to_bol();
        self.bump_generation();
    }
}

impl TerminalGrid {
    /// Replaces row `y` of the screen.
    fn set_row(&mut self, y: usize, row: Vec<TerminalCell>)
        requires
            old(self)@.wf(),
            y < old(self)@.screen.rows_count,
            row@.len() == old(self)@.screen.cols,
        ensures
            final(self)@ == old(self)@.with_rows(old(self)@.screen.rows.update(y as int, row@)),
            final(self)@.wf(),
    {
        let ghost rows0 = self.screen.rows@;
        self.screen.rows.set(y, row);
        proof {
            lemma_rows_view_update(rows0, y as int, row);
        }
        assert forall|j: int| 0 <= j < self@.screen.rows_count implies
            (#[trigger] self@.screen.rows[j]).len() == self@.screen.cols by {
            if j != y {
                assert(self@.screen.rows[j] == old(self)@.screen.rows[j]);
            }
        }
    }

    pub fn delete_chars(&mut self, n: usize)
        requires
            old(self)@.wf(),
        ensures
            final(self)@ == old(self)@.delete_chars(n as nat),
            final(self)@.wf(),
    {
        let y = self.cur.cursor.y;
        if y < self.screen.rows.len() {
            let start = self.cur.cursor.x;
            let end = self.screen.cols;
            let avail = end.saturating_sub(start);
            let k = if n < avail { n } else { avail };
            let bg = self.pen.bg;
            let ghost old_row = self@.screen.rows[y as int];
            let mut new_row: Vec<TerminalCell> = Vec::new();
            let mut i: usize = 0;
            while i < end
                invariant
                    y < self.screen.rows.len(),
                    self@ == old(self)@,
                    old(self)@.wf(),
                    old_row == self@.screen.rows[y as int],
                    old_row.len() == end,
                    end == self@.screen.cols,
                    start <= end || end == 0,
                    k <= end,
                    k == 0 || start + k <= end,
                    i <= end,
                    new_row@.len() == i,
                    forall|m: int| 0 <= m < i ==> #[trigger] new_row@[m] == (
                        if m < start { old_row[m] }
                        else if m < end - k { old_row[m + k] }
                        else { erased_cell(bg) }),
                decreases end - i,
            {
                let cell = if i < start {
                    self.screen.rows[y][i]
                } else if i < end - k {
                    self.screen.rows[y][i + k]
                } else {
                    TerminalCell {
                        c: ' ',
                        fg: Color::Named(NamedColor::White),
                        bg,
                        attrs: CellAttributes::default(),
                        wide: false,
                    }
                };
                new_row.push(cell);
                i = i + 1;
            }
            let ghost expect = old(self)@.delete_chars(n as nat).screen.rows[y as int];
            assert(new_row@ =~= expect);
            self.set_row(y, new_row);
            self.bump_generation();
            self.mark_dirty(y);
            assert(self@.screen.rows =~= old(self)@.delete_chars(n as nat).screen.rows);
        }
    }

    pub fn insert_chars(&mut self, n: usize)
        requires
            old(self)@.wf(),
        ensures
            final(self)@ == old(self)@.insert_chars(n as nat),
            final(self)@.wf(),
    {
        let y = self.cur.cursor.y;
        if y < self.screen.rows.len() {
            let start = self.cur.cursor.x;
            let end = self.screen.cols;
            let avail = end.saturating_sub(start);
            let k = if n < avail { n } else { avail };
            let bg = self.pen.bg;
            let ghost old_row = self@.screen.rows[y as int];
            let mut new_row: Vec<TerminalCell> = Vec::new();
            let mut i: usize = 0;
            while i < end
                invariant
                    y < self.screen.rows.len(),
                    self@ == old(self)@,
                    old(self)@.wf(),
                    old_row == self@.screen.rows[y as int],
                    old_row.len() == end,
                    end == self@.screen.cols,
                    start <= end || end == 0,
                    k <= end,
                    k == 0 || start + k <= end,
                    i <= end,
                    new_row@.len() == i,
                    forall|m: int| 0 <= m < i ==> #[trigger] new_row@[m] == (
                        if m < start { old_row[m] }
                        else if m < start + k { erased_cell(bg) }
                        else { old_row[m - k] }),
                decreases end - i,
            {
                let cell = if i < start {
                    self.screen.rows[y][i]
                } else if i < start + k {
                    TerminalCell {
                        c: ' ',
                        fg: Color::Named(NamedColor::White),
                        bg,
                        attrs: CellAttributes::default(),
                        wide: false,
                    }
                } else {
                    self.screen.rows[y][i - k]
                };
                new_row.push(cell);
                i = i + 1;
            }
            let ghost expect = old(self)@.insert_chars(n as nat).screen.rows[y as int];
            assert(new_row@ =~= expect);
            self.set_row(y, new_row);
            self.bump_generation();
            self.mark_dirty(y);
            assert(self@.screen.rows =~= old(self)@.insert_chars(n as nat).screen.rows);
        }
    }

    pub fn erase_chars(&mut self, n: usize)
        requires
            old(self)@.wf(),
            old(self)@.cur.cursor.x + n <= usize::MAX,
        ensures
            final(self)@ == old(self)@.erase_chars(n as nat),
            final(self)@.wf(),
    {
        let y = self.cur.cursor.y;
        if y < self.screen.rows.len() {
            let x = self.cur.cursor.x;
            let cols = self.screen.cols;
            let to = if x + n < cols { x + n } else { cols };
            let from = if x < to { x } else { to };
            self.erase_in_row(y, from, to);
            assert(self@ == old(self)@.erase_in_row(y as nat, x as int, to as int)) by {
                assert(erase_cells(old(self)@.screen.rows[y as int], from as int, to as int, self.pen.bg)
                    =~= erase_cells(old(self)@.screen.rows[y as int], x as int, to as int, self.pen.bg));
            }
            self.bump_generation();
            self.mark_dirty(y);
        }
    }

    pub fn goto(&mut self, x: usize, y: usize)
        requires
            old(self)@.wf(),
        ensures
            final(self)@ == old(self)@.goto(x as nat, y as nat),
            final(self)@.wf(),
    {
        self.cur.wrap_pending = false;
        let lx = self.screen.cols.saturating_sub(1);
        let ly = self.screen.rows_count.saturating_sub(1);
        self.cur.cursor.x = if x < lx { x } else { lx };
        self.cur.cursor.y = if y < ly { y } else { ly };
    }

    pub fn goto_origin_aware(&mut self, x: usize, y: usize)
        requires
            old(self)@.wf(),
            old(self)@.modes.origin_mode ==> old(self)@.cur.top + y <= usize::MAX,
        ensures
            final(self)@ == old(self)@.goto_origin_aware(x as nat, y as nat),
            final(self)@.wf(),
    {
        self.cur.wrap_pending = false;
        if self.modes.origin_mode {
            let t = self.cur.top + y;
            let actual_y = if t < self.cur.bottom { t } else { self.cur.bottom };
            let lx = self.screen.cols.saturating_sub(1);
            self.cur.cursor.x = if x < lx { x } else { lx };
            self.cur.cursor.y = actual_y;
        } else {
            self.goto(x, y);
        }
    }

    pub fn move_cursor(&mut self, dx: isize, dy: isize)
        requires
            old(self)@.wf(),
            isize::MIN <= old(self)@.cur.cursor.x + dx <= isize::MAX,
            isize::MIN <= old(self)@.cur.cursor.y + dy <= isize::MAX,
        ensures
            final(self)@ == old(self)@.move_cursor(dx as int, dy as int),
            final(self)@.wf(),
    {
        self.cur.wrap_pending = false;
        let nx = self.cur.cursor.x as isize + dx;
        let ny = self.cur.cursor.y as isize + dy;
        let new_x: usize = if nx < 0 { 0 } else { nx as usize };
        let new_y: usize = if ny < 0 { 0 } else { ny as usize };
        self.goto(new_x, new_y);
    }

    pub fn set_origin_mode(&mut self, enabled: bool)
        requires
            old(self)@.wf(),
        ensures
            final(self)@ == old(self)@.set_origin_mode(enabled),
            final(self)@.wf(),
    {
        let y = if enabled { self.cur.top } else { 0 };
        let cursor = Cursor { x: 0, y, ..self.cur.cursor };
        self.modes = DecModes { origin_mode: enabled, ..self.modes };
        self.cur.cursor = cursor;
    }

    pub fn save_cursor_position(&mut self)
        requires
            old(self)@.wf(),
        ensures
            final(self)@ == old(self)@.save_cursor(),
            final(self)@.wf(),
    {
        self.cur.saved = Some(SavedCursorState {
            cursor: self.cur.cursor,
            attrs: self.pen.attrs,
            fg: self.pen.fg,
            bg: self.pen.bg,
        });
    }

    pub fn restore_cursor_position(&mut self)
        requires
            old(self)@.wf(),
        ensures
            final(self)@ == old(self)@.restore_cursor_position(),
            final(self)@.wf(),
    {
        if let Some(saved) = self.cur.saved {
            self.cur.cursor = saved.cursor;
        }
    }

    pub fn save_cursor(&mut self)
        requires
            old(self)@.wf(),
        ensures
            final(self)@ == old(self)@.save_cursor(),
            final(self)@.wf(),
    {
        self.cur.saved = Some(SavedCursorState {
            cursor: self.cur.cursor,
            attrs: self.pen.attrs,
            fg: self.pen.fg,
            bg: self.pen.bg,
        });
    }

    pub fn restore_cursor(&mut self)
        requires
            old(self)@.wf(),
        ensures
            final(self)@ == old(self)@.restore_cursor(),
            final(self)@.wf(),
    {
        if let Some(saved) = self.cur.saved {
            self.cur.cursor = saved.cursor;
            self.pen = Pen { attrs: saved.attrs, fg: saved.fg, bg: saved.bg };
        }
    }

    #[verifier::spinoff_prover]
    #[verifier::rlimit(40)]
    pub fn set_scroll_region(&mut self, top: usize, bottom: usize)
        requires
            old(self)@.wf(),
        ensures
            final(self)@ == old(self)@.set_scroll_region(top as nat, bottom as nat),
            final(self)@.wf(),
    {
        let n = self.screen.rows_count;
        let t_max = n.saturating_sub(2);
        let b_max = n.saturating_sub(1);
        let ghost g = old(self)@.set_scroll_region(top as nat, bottom as nat);
        let top2 = if top < t_max { top } else { t_max };
        let bottom2 = if bottom < b_max { bottom } else { b_max };
        let (t, b) = if top2 < bottom2 { (top2, bottom2) } else { (0, b_max) };
        assert(t == g.cur.top && b == g.cur.bottom);
        let y = if self.modes.origin_mode { t } else { 0 };
        assert(y == g.cur.cursor.y);
        let cursor = Cursor { x: 0, y, ..self.cur.cursor };
        assert(cursor == g.cur.cursor);
        self.cur.top = t;
        self.cur.bottom = b;
        self.cur.cursor = cursor;
    }

    pub fn set_cursor(&mut self, x: usize, y: usize, visible: bool)
        requires
            old(self)@.wf(),
        ensures
            final(self)@ == old(self)@.set_cursor(x as nat, y as nat, visible),
            final(self)@.wf(),
    {
        let lx = self.screen.cols.saturating_sub(1);
        let ly = self.screen.rows_count.saturating_sub(1);
        self.cur.cursor.x = if x < lx { x } else { lx };
        self.cur.cursor.y = if y < ly { y } else { ly };
        self.cur.cursor.visible = visible;
    }
}

impl TerminalGrid {
    fn carriage_return(&mut self)
        requires
            old(self)@.wf(),
        ensures
            final(self)@ == old(self)@.carriage_return(),
            final(self)@.wf(),
    {
        self.cur.wrap_pending = false;
        self.cur.cursor.x = 0;
    }

    #[verifier::spinoff_prover]
    #[verifier::rlimit(40)]
    fn linefeed(&mut self)
        requires
            old(self)@.wf(),
        ensures
            final(self)@ == old(self)@.linefeed(),
            final(self)@.wf(),
    {
        let ghost g0 = old(self)@.with_wrap_pending(false);
        let ghost g = if g0.modes.lnm_mode { g0.with_cursor_x(0) } else { g0 };
        let x = if self.modes.lnm_mode { 0 } else { self.cur.cursor.x };
        self.cur.wrap_pending = false;
        self.cur.cursor.x = x;
        assert(self@ == g);
        if self.cur.cursor.y == self.cur.bottom {
            self.scroll_up(1);
        } else if self.cur.cursor.y + 1 < self.screen.rows_count {
            self.cur.cursor.y = self.cur.cursor.y + 1;
        }
    }

    pub fn reverse_linefeed(&mut self)
        requires
            old(self)@.wf(),
        ensures
            final(self)@ == old(self)@.reverse_linefeed(),
            final(self)@.wf(),
    {
        if self.cur.cursor.y == self.cur.top {
            self.scroll_down(1);
        } else if self.cur.cursor.y > 0 {
            self.cur.cursor.y = self.cur.cursor.y - 1;
        }
    }

    pub fn next_line(&mut self)
        requires
            old(self)@.wf(),
        ensures
            final(self)@ == old(self)@.next_line(),
            final(self)@.wf(),
    {
        self.carriage_return();
        self.linefeed();
    }

    fn tab(&mut self)
        requires
            old(self)@.wf(),
        ensures
            final(self)@ == old(self)@.tab(),
            final(self)@.wf(),
    {
        self.cur.wrap_pending = false;
        let cols = self.screen.cols;
        let mut x = self.cur.cursor.x + 1;
        let ghost start = x as int;
        while x < cols
            invariant
                start == old(self)@.cur.cursor.x + 1,
                cols == self@.screen.cols,
                self@.cur.tab_stops == default_tab_stops(cols as nat),
                start <= x,
                next_tab_stop(self@.cur.tab_stops, start, cols as nat)
                    == next_tab_stop(self@.cur.tab_stops, x as int, cols as nat),
                self@ == old(self)@.with_wrap_pending(false),
                old(self)@.wf(),
            decreases cols - x,
        {
            if self.cur.tab_stops[x] {
                assert(next_tab_stop(self@.cur.tab_stops, x as int, cols as nat) == x);
                self.cur.cursor.x = x;
                return;
            }
            x = x + 1;
        }
        self.cur.cursor.x = cols.saturating_sub(1);
    }

    fn backspace(&mut self)
        requires
            old(self)@.wf(),
        ensures
            final(self)@ == old(self)@.backspace(),
            final(self)@.wf(),
    {
        self.cur.wrap_pending = false;
        if self.cur.cursor.x > 0 {
            self.cur.cursor.x = self.cur.cursor.x - 1;
        }
    }

    #[verifier::spinoff_prover]
    #[verifier::rlimit(40)]
    fn wrap_line(&mut self)
        requires
            old(self)@.wf(),
            old(self)@.cur.cursor.y < old(self)@.screen.rows_count,
        ensures
            final(self)@ == old(self)@.wrap_line(),
            final(self)@.wf(),
            final(self)@.screen.cols == old(self)@.screen.cols,
            final(self)@.screen.rows_count == old(self)@.screen.rows_count,
            final(self)@.cur.cursor.y < final(self)@.screen.rows_count,
            final(self)@.cur.cursor.x == 0,
            final(self)@.pen == old(self)@.pen,
            final(self)@.modes == old(self)@.modes,
            final(self)@.charsets == old(self)@.charsets,
    {
        if self.cur.cursor.y + 1 == self.screen.rows_count {
            self.scroll_up(1);
            self.cur.cursor.x = 0;
        } else {
            self.cur.cursor.x = 0;
            self.cur.cursor.y = self.cur.cursor.y + 1;
        }
    }

    /// Writes a cell where the grid has one (nothing otherwise).
    fn write_cell(&mut self, x: usize, y: usize, cell: TerminalCell)
        requires
            old(self)@.wf(),
        ensures
            final(self)@ == old(self)@.write_cell(x as int, y as int, cell),
            final(self)@.wf(),
    {
        if y < self.screen.rows.len() && x < self.screen.rows[y].len() {
            self.set_cell(x, y, cell);
            assert forall|j: int| 0 <= j < self@.screen.rows_count implies
                (#[trigger] self@.screen.rows[j]).len() == self@.screen.cols by {
                if j != y {
                    assert(self@.screen.rows[j] == old(self)@.screen.rows[j]);
                }
            }
        }
    }

    #[verifier::spinoff_prover]
    #[verifier::rlimit(40)]
    fn advance_after_print(&mut self, n: usize)
        requires
            old(self)@.wf(),
            n <= 2,
            old(self)@.screen.cols > 0,
        ensures
            final(self)@ == old(self)@.advance_after_print(n as nat),
            final(self)@.wf(),
    {
        let nx = self.cur.cursor.x + n;
        let cols = self.screen.cols;
        let (x, wrap) = if nx >= cols {
            (cols - 1, self.modes.auto_wrap_mode || self.cur.wrap_pending)
        } else {
            (nx, self.cur.wrap_pending)
        };
        self.cur.cursor.x = x;
        self.cur.wrap_pending = wrap;
    }

    #[verifier::spinoff_prover]
    #[verifier::rlimit(40)]
    fn put_wide(&mut self, m: char, pen: Pen)
        requires
            old(self)@.wf(),
            old(self)@.cur.cursor.y < old(self)@.screen.rows_count,
            !(old(self)@.screen.cols == 0 && old(self)@.modes.auto_wrap_mode),
        ensures
            final(self)@ == old(self)@.put_wide(m, pen),
            final(self)@.wf(),
    {
        if self.cur.cursor.x + 1 >= self.screen.cols {
            if self.modes.auto_wrap_mode {
                self.wrap_line();
            } else {
                return;
            }
        }
        let x = self.cur.cursor.x;
        let y = self.cur.cursor.y;
        assert(self@.screen.cols > 0);
        self.write_cell(x, y, TerminalCell { c: m, fg: pen.fg, bg: pen.bg, attrs: pen.attrs, wide: true });
        self.write_cell(x + 1, y, TerminalCell { c: ' ', fg: pen.fg, bg: pen.bg, attrs: pen.attrs, wide: false });
        self.mark_dirty(y);
        self.advance_after_print(2);
        self.bump_generation();
    }

    #[verifier::spinoff_prover]
    #[verifier::rlimit(40)]
    fn put_narrow(&mut self, m: char, pen: Pen)
        requires
            old(self)@.wf(),
            old(self)@.cur.cursor.y < old(self)@.screen.rows_count,
        ensures
            final(self)@ == old(self)@.put_narrow(m, pen),
            final(self)@.wf(),
    {
        let x = self.cur.cursor.x;
        let y = self.cur.cursor.y;
        if x < self.screen.cols {
            self.write_cell(x, y, TerminalCell { c: m, fg: pen.fg, bg: pen.bg, attrs: pen.attrs, wide: false });
            self.mark_dirty(y);
            self.advance_after_print(1);
        }
        self.bump_generation();
    }

    /// Write a character at the current cursor position
    #[verifier::spinoff_prover]
    #[verifier::rlimit(40)]
    pub fn put_char(&mut self, c: char)
        requires
            old(self)@.wf(),
            !old(self)@.put_char_overflows(c),
        ensures
            final(self)@ == old(self)@.put_char(c),
            final(self)@.wf(),
    {
        if self.cur.cursor.y >= self.screen.rows_count {
            return;
        }
        if c == '\n' {
            self.linefeed();
        } else if c == '\r' {
            self.carriage_return();
        } else if c == '\t' {
            self.tab();
        } else if c == '\x08' {
            self.backspace();
        } else if is_control_char(c) {
        } else {
            let m = self.map_char(c);
            let w: usize = if (m as u32) < 0x80 {
                1
            } else {
                match char_width(m) {
                    Some(w) => w,
                    None => 0,
                }
            };
            if w == 0 {
                return;
            }
            let pen = self.pen;
            if self.cur.wrap_pending && self.modes.auto_wrap_mode {
                self.cur.wrap_pending = false;
                self.wrap_line();
            }
            if w == 2 {
                self.put_wide(m, pen);
            } else {
                self.put_narrow(m, pen);
            }
        }
    }

    pub fn use_alt_screen(&mut self)
        requires
            old(self)@.wf(),
        ensures
            final(self)@ == old(self)@.use_alt_screen(),
            final(self)@.wf(),
    {
        if self.history.alt_screen.is_none() {
            self.save_cursor();
            self.history.alt_screen = Some(clone_rows(&self.screen.rows));
            self.clear_screen();
            self.cur.cursor = Cursor::default();
            self.bump_generation();
            self.mark_all_dirty();
        }
    }

    #[verifier::spinoff_prover]
    #[verifier::rlimit(40)]
    pub fn use_main_screen(&mut self)
        requires
            old(self)@.wf(),
        ensures
            final(self)@ == old(self)@.use_main_screen(),
            final(self)@.wf(),
    {
        if let Some(main_screen) = self.history.alt_screen.take() {
            let current_cols = self.screen.cols;
            let current_rows = self.screen.rows_count;
            let fitted = fit_screen_exec(&main_screen, current_rows, current_cols);
            let ghost main_view = rows_view(main_screen@);
            self.screen.rows = fitted;
            assert forall|j: int| 0 <= j < self@.screen.rows_count implies
                (#[trigger] self@.screen.rows[j]).len() == self@.screen.cols by {}
            assert(self@ == old(self)@.with_rows(fit_screen(main_view, current_rows as nat, current_cols as nat)).with_history(
                HistoryView { alt_screen: None, ..old(self)@.history }));
            self.restore_cursor();
            let lx = current_cols.saturating_sub(1);
            let ly = current_rows.saturating_sub(1);
            let x = if self.cur.cursor.x < lx { self.cur.cursor.x } else { lx };
            let y = if self.cur.cursor.y < ly { self.cur.cursor.y } else { ly };
            self.cur.cursor = Cursor { x, y, ..self.cur.cursor };
            self.cur.top = 0;
            self.cur.bottom = ly;
            self.bump_generation();
            self.mark_all_dirty();
        }
    }

    /// Full reset (RIS)
    pub fn reset(&mut self)
        requires
            old(self)@.wf(),
        ensures
            final(self)@ == old(self)@.reset(),
            final(self)@.wf(),
    {
        self.clear_screen();
        let bottom = self.screen.rows_count.saturating_sub(1);
        self.cur.cursor = Cursor::default();
        self.cur.saved = None;
        self.cur.wrap_pending = false;
        self.cur.top = 0;
        self.cur.bottom = bottom;
        self.pen = Pen { attrs: CellAttributes::default(), fg: Color::Default, bg: Color::Default };
        self.history.alt_screen = None;
        self.history.scrollback.clear();
        self.history.sync_snapshot = None;
        self.history.sync_cursor_snapshot = None;
        self.modes = DecModes {
            application_cursor_keys: false,
            bracketed_paste_mode: false,
            focus_event_mode: false,
            synchronized_output: false,
            mouse_normal_tracking: false,
            mouse_button_tracking: false,
            mouse_any_event_tracking: false,
            mouse_utf8_mode: false,
            mouse_sgr_mode: false,
            mouse_urxvt_mode: false,
            lnm_mode: false,
            auto_wrap_mode: true,
            insert_mode: false,
            origin_mode: false,
        };
        self.charsets = Charsets { g0: CharacterSet::Ascii, g1: CharacterSet::Ascii, use_g0: true };
        self.response_queue.clear();
        assert(self@.history.scrollback =~= Seq::empty());
        assert(strings_view(self.response_queue@) =~= Seq::empty());
        self.mark_all_dirty();
    }
}

/// `screen` fitted to `rows` rows of `cols` cells.
fn fit_screen_exec(screen: &Vec<Vec<TerminalCell>>, rows: usize, cols: usize) -> (r: Vec<
    Vec<TerminalCell>,
>)
    ensures
        rows_view(r@) == fit_screen(rows_view(screen@), rows as nat, cols as nat),
{
    let mut r: Vec<Vec<TerminalCell>> = Vec::new();
    let mut j: usize = 0;
    while j < rows
        invariant
            j <= rows,
            rows_view(r@) == fit_screen(rows_view(screen@), rows as nat, cols as nat).subrange(0, j as int),
        decreases rows - j,
    {
        let mut row: Vec<TerminalCell> = Vec::new();
        let mut i: usize = 0;
        while i < cols
            invariant
                i <= cols,
                j < rows,
                row@.len() == i,
                forall|k: int| 0 <= k < i ==> #[trigger] row@[k] == (
                    if j < screen@.len() { fit_row(screen@[j as int]@, cols as nat)[k] }
                    else { blank_row(cols as nat)[k] }),
            decreases cols - i,
        {
            let cell = if j < screen.len() && i < screen[j].len() {
                screen[j][i]
            } else {
                TerminalCell::default()
            };
            row.push(cell);
            i = i + 1;
        }
        proof {
            lemma_rows_view_push(r@, row);
        }
        assert(row@ =~= fit_screen(rows_view(screen@), rows as nat, cols as nat)[j as int]);
        r.push(row);
        j = j + 1;
        assert(rows_view(r@) =~= fit_screen(rows_view(screen@), rows as nat, cols as nat).subrange(0, j as int));
    }
    assert(fit_screen(rows_view(screen@), rows as nat, cols as nat).subrange(0, rows as int)
        =~= fit_screen(rows_view(screen@), rows as nat, cols as nat));
    r
}

} // verus!
