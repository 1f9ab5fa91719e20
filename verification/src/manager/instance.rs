use vstd::prelude::*;

use crate::input::mouse::{sgr_mouse_move, sgr_mouse_press, sgr_mouse_release, sgr_report, MouseAction, MouseResult, MouseState};
use crate::screen::reader::{
    clamp, header_digits, last_lines, last_n_lines, push_digit_row, read_region_text, read_rows_text,
    read_screen_text, region_text, render_scrollback, rows_text, screen_text, scrolled_lines,
    plain_screen_text, show_screen_text,
};
use crate::status::events::{EventQueue, EventView, TerminalEvent, events_view, pushed, pushed_all};
use crate::status::query::{detected_state, TerminalState, TerminalStatus};
use crate::terminal::grid::TerminalGrid;
use crate::terminal::cell::TerminalCell;
use crate::terminal::model::{rows_view, true_indices, GridView};
use crate::terminal::selection::{lemma_word_scan_bounds, scan_left, scan_right, Position, Selection, SelectionState, SelectionType};
use crate::text::{chars_equal, chars_of, chars_to_string, contains_text, lowercase, occurs_in, to_lowercase_chars};

verus! {

/// One terminal as the agent sees it: its screen, the mouse, the current
/// selection, how far it is scrolled back, its events and its process
/// state. The process behind it is driven from outside; what it reports
/// comes in as plain values.
pub struct TerminalInstance {
    id: String,
    grid: TerminalGrid,
    mouse_state: MouseState,
    selection: Option<Selection>,
    scroll_offset: usize,
    event_queue: EventQueue,
    process_state: TerminalState,
    prev_state: TerminalState,
    created_at: String,
    running_command: Option<String>,
}

/// The mathematical state of a terminal instance.
pub ghost struct InstanceView {
    pub id: Seq<char>,
    pub grid: GridView,
    pub mouse: MouseState,
    pub selection: Option<Selection>,
    pub scroll_offset: nat,
    pub events: Seq<EventView>,
    pub event_capacity: nat,
    pub process_state: TerminalState,
    pub prev_state: TerminalState,
    /// When the terminal was made (RFC 3339).
    pub created_at: Seq<char>,
    /// The foreground process as last seen.
    pub running_command: Option<Seq<char>>,
}

impl View for TerminalInstance {
    type V = InstanceView;

    closed spec fn view(&self) -> InstanceView {
        InstanceView {
            id: self.id@,
            grid: self.grid@,
            mouse: self.mouse_state,
            selection: self.selection,
            scroll_offset: self.scroll_offset as nat,
            events: self.event_queue@,
            event_capacity: self.event_queue.capacity(),
            process_state: self.process_state,
            prev_state: self.prev_state,
            created_at: self.created_at@,
            running_command: text_view(self.running_command),
        }
    }
}

/// Whether a grid can back a terminal instance: it is consistent, its
/// columns fit a mouse coordinate, and the scrollback limit plus the rows
/// fit a `usize`. Screen positions of an instance are 16-bit (mouse
/// actions, selections and word expansion carry `u16` columns, and the
/// end of a word selection is the column after the last word cell), so a
/// row of more than 65535 columns could not be addressed; line indices of
/// the scrolled-back view run up to the scrollback limit plus the rows.
pub open spec fn grid_fits_instance(g: GridView) -> bool {
    &&& g.wf()
    &&& g.screen.cols <= 65535
    &&& g.history.max_scrollback + g.screen.rows_count <= usize::MAX
}

/// The row of the screen header used when scrolled back: always three
/// digit rows (hundreds, tens, units).
pub open spec fn full_column_header(cols: nat) -> Seq<char> {
    seq![' ', ' ', ' '] + header_digits(cols, 100) + seq!['\n'] + seq![' ', ' ', ' '] + header_digits(
        cols,
        10,
    ) + seq!['\n'] + seq![' ', ' ', ' '] + header_digits(cols, 1) + seq!['\n']
}

/// The screen as it shows when scrolled back `offset` lines: the full
/// header, then the numbered lines from the scrollback and the screen.
pub open spec fn scrollback_screen_text(g: GridView, offset: nat) -> Seq<char> {
    full_column_header(g.screen.cols) + scrolled_lines(
        g.history.scrollback,
        g.screen.rows,
        offset,
        g.screen.cols,
        true,
        g.screen.rows_count,
    )
}

/// `s` without its trailing spaces.
pub open spec fn trim_spaces(s: Seq<char>) -> Seq<char>
    decreases s.len(),
{
    if s.len() > 0 && s.last() == ' ' {
        trim_spaces(s.drop_last())
    } else {
        s
    }
}

/// Whether the cell at (`x`, `y`) is the blank that follows a wide
/// character (the second half of its two columns).
pub open spec fn is_wide_spacer(g: GridView, x: int, y: int) -> bool {
    &&& x > 0
    &&& g.cell(x - 1, y) matches Some(prev) && prev.wide
    &&& g.cell(x, y) matches Some(cell) && cell.c == ' '
}

/// The characters of the cells of row `row` in columns `c1..c2` that exist,
/// a wide character once: the blank after it is left out, and so is a wide
/// cell that holds a space.
pub open spec fn selected_cells(g: GridView, row: int, c1: int, c2: int) -> Seq<char>
    decreases c2 - c1,
{
    if c2 <= c1 {
        Seq::empty()
    } else {
        let prev = selected_cells(g, row, c1, c2 - 1);
        match g.cell(c2 - 1, row) {
            Some(cell) => if (!cell.wide || cell.c != ' ') && !is_wide_spacer(g, c2 - 1, row) {
                prev.push(cell.c)
            } else {
                prev
            },
            None => prev,
        }
    }
}

/// The scroll offset one page further back, at most the whole scrollback.
pub open spec fn paged_up(v: InstanceView) -> nat {
    clamp(v.scroll_offset + v.grid.screen.rows_count, v.grid.history.scrollback.len())
}

/// The scroll offset one page nearer the live screen, at least 0.
pub open spec fn paged_down(v: InstanceView) -> nat {
    if v.scroll_offset >= v.grid.screen.rows_count {
        (v.scroll_offset - v.grid.screen.rows_count) as nat
    } else {
        0
    }
}

/// Paging back and forth: a page down undoes a page up that the
/// scrollback had room for; paging down never moves further back, and
/// paging up never goes past the oldest scrollback line.
pub proof fn lemma_paging_round_trip(v: InstanceView)
    ensures
        v.scroll_offset + v.grid.screen.rows_count <= v.grid.history.scrollback.len() ==> paged_down(
            InstanceView { scroll_offset: paged_up(v), ..v },
        ) == v.scroll_offset,
        paged_down(v) <= v.scroll_offset,
        paged_up(v) <= v.grid.history.scrollback.len(),
{
}

/// The text of the selected rows `s.row..r`: the first row from the start
/// column, the last row through the end column, each row but the last with
/// its trailing spaces cut and a newline.
pub open spec fn selection_rows_text(g: GridView, s: Position, e: Position, cols: nat, r: int) -> Seq<char>
    decreases r - s.row,
{
    if r <= s.row {
        Seq::empty()
    } else {
        let y = r - 1;
        let prev = selection_rows_text(g, s, e, cols, y);
        let c1 = if y == s.row { s.col as int } else { 0 };
        let c2 = if y == e.row { e.col + 1 } else { cols as int };
        let line = prev + selected_cells(g, y, c1, c2);
        if y != e.row {
            trim_spaces(line).push('\n')
        } else {
            line
        }
    }
}

/// The text a selection covers, without trailing spaces.
pub open spec fn selection_text(g: GridView, sel: Selection) -> Seq<char> {
    let (s, e) = sel.normalized();
    trim_spaces(selection_rows_text(g, s, e, g.screen.cols, e.row + 1))
}

/// The complete character selection between two cells given by `usize`
/// coordinates (each cut to 16 bits).
pub open spec fn range_selection(start_col: usize, start_row: usize, end_col: usize, end_row: usize) -> Selection {
    Selection {
        start: Position { col: start_col as u16, row: start_row as u16 },
        end: Position { col: end_col as u16, row: end_row as u16 },
        selection_type: SelectionType::Character,
        state: SelectionState::Complete,
    }
}

/// Cuts the trailing spaces of `v`.
fn trim_trailing_spaces(v: &mut Vec<char>)
    ensures
        final(v)@ == trim_spaces(old(v)@),
{
    while v.len() > 0 && v[v.len() - 1] == ' '
        invariant
            trim_spaces(v@) == trim_spaces(old(v)@),
        decreases v@.len(),
    {
        let ghost before = v@;
        v.pop();
        assert(v@ =~= before.drop_last());
    }
}

/// The characters of row `row` in columns `c1..c2`, as `selected_cells`
/// gives them.
fn push_selected_cells(out: &mut Vec<char>, grid: &TerminalGrid, row: usize, c1: usize, c2: usize)
    ensures
        final(out)@ == old(out)@ + selected_cells(grid@, row as int, c1 as int, c2 as int),
{
    let ghost base = out@;
    if c2 <= c1 {
        assert(selected_cells(grid@, row as int, c1 as int, c2 as int) =~= Seq::<char>::empty());
        return;
    }
    let mut col = c1;
    assert(selected_cells(grid@, row as int, c1 as int, c1 as int) =~= Seq::<char>::empty());
    while col < c2
        invariant
            c1 <= col <= c2,
            out@ == base + selected_cells(grid@, row as int, c1 as int, col as int),
        decreases c2 - col,
    {
        if let Some(cell) = grid.get_cell(col, row) {
            let after_wide = col > 0 && cell.c == ' ' && match grid.get_cell(col - 1, row) {
                Some(prev) => prev.wide,
                None => false,
            };
            if (!cell.wide || cell.c != ' ') && !after_wide {
                out.push(cell.c);
            }
        }
        col = col + 1;
        assert(out@ =~= base + selected_cells(grid@, row as int, c1 as int, col as int));
    }
}

/// The text of a selection on a grid.
fn extract_selection_text(grid: &TerminalGrid, sel: &Selection) -> (s: String)
    requires
        grid@.wf(),
    ensures
        s@ == selection_text(grid@, *sel),
{
    let (start, end) = sel.normalized_bounds();
    let cols = grid.cols();
    let mut text: Vec<char> = Vec::new();
    let mut row: usize = start.row as usize;
    let last: usize = end.row as usize;
    while row <= last
        invariant
            start.row <= row,
            last == end.row,
            row <= last + 1 || row == start.row,
            cols == grid@.screen.cols,
            (start, end) == sel.normalized(),
            text@ == selection_rows_text(grid@, start, end, cols as nat, row as int),
        decreases last + 1 - row,
    {
        let col_start: usize = if row == start.row as usize { start.col as usize } else { 0 };
        let col_end: usize = if row == last { end.col as usize + 1 } else { cols };
        push_selected_cells(&mut text, grid, row, col_start, col_end);
        if row != last {
            trim_trailing_spaces(&mut text);
            text.push('\n');
        }
        row = row + 1;
    }
    proof {
        if start.row > end.row {
            assert(selection_rows_text(grid@, start, end, cols as nat, end.row + 1) =~= Seq::<char>::empty());
        }
    }
    trim_trailing_spaces(&mut text);
    chars_to_string(&text)
}

impl TerminalInstance {
    /// Consistency: the grid can back an instance, the event queue keeps its
    /// bound, and the scroll offset stays within the scrollback limit.
    pub closed spec fn wf(&self) -> bool {
        &&& grid_fits_instance(self.grid@)
        &&& self.event_queue.wf()
        &&& self.scroll_offset <= self.grid@.history.max_scrollback
    }

    /// A fresh instance on `grid`, made at `created_at`: mouse at the
    /// origin, nothing selected, not scrolled back, no events (a hundred at
    /// most are kept), running, no foreground process seen yet.
    pub fn new(id: String, grid: TerminalGrid, created_at: String) -> (t: Self)
        requires
            grid_fits_instance(grid@),
        ensures
            t.wf(),
            t@ == (InstanceView {
                id: id@,
                grid: grid@,
                mouse: MouseState { col: 0, row: 0 },
                selection: None,
                scroll_offset: 0,
                events: Seq::empty(),
                event_capacity: 100,
                process_state: TerminalState::Running,
                prev_state: TerminalState::Running,
                created_at: created_at@,
                running_command: None,
            }),
    {
        TerminalInstance {
            id,
            grid,
            mouse_state: MouseState { col: 0, row: 0 },
            selection: None,
            scroll_offset: 0,
            event_queue: EventQueue::default(),
            process_state: TerminalState::Running,
            prev_state: TerminalState::Running,
            created_at,
            running_command: None,
        }
    }

    /// When the terminal was made (RFC 3339).
    pub fn created_at(&self) -> (s: &String)
        ensures
            s@ == self@.created_at,
    {
        &self.created_at
    }

    /// The foreground process as the last tick saw it.
    pub fn running_command(&self) -> (s: Option<String>)
        ensures
            text_view(s) == self@.running_command,
    {
        match &self.running_command {
            Some(name) => Some(name.clone()),
            None => None,
        }
    }

    /// The terminal's grid.
    pub fn grid(&self) -> (g: &TerminalGrid)
        ensures
            g@ == self@.grid,
    {
        &self.grid
    }

    /// The terminal's grid, to feed output into; everything else stays.
    pub fn grid_mut(&mut self) -> (g: &mut TerminalGrid)
        ensures
            g@ == old(self)@.grid,
            final(self)@ == (InstanceView { grid: final(g)@, ..old(self)@ }),
            final(self).wf() <== old(self).wf() && grid_fits_instance(final(g)@)
                && final(g)@.history.max_scrollback == old(self)@.grid.history.max_scrollback,
    {
        &mut self.grid
    }

    /// The terminal's identifier.
    pub fn id(&self) -> (s: &String)
        ensures
            s@ == self@.id,
    {
        &self.id
    }

    pub fn cols(&self) -> (n: usize)
        ensures
            n == self@.grid.screen.cols,
    {
        self.grid.cols()
    }

    pub fn rows(&self) -> (n: usize)
        ensures
            n == self@.grid.screen.rows_count,
    {
        self.grid.rows()
    }

    pub fn state(&self) -> (s: TerminalState)
        ensures
            s == self@.process_state,
    {
        self.process_state
    }

    /// The current selection, if any.
    pub fn selection(&self) -> (s: Option<Selection>)
        ensures
            s == self@.selection,
    {
        self.selection
    }

    /// How many lines the view is scrolled back.
    pub fn scroll_offset(&self) -> (n: usize)
        ensures
            n == self@.scroll_offset,
    {
        self.scroll_offset
    }

    /// The mouse position.
    pub fn mouse_state(&self) -> (m: MouseState)
        ensures
            m == self@.mouse,
    {
        self.mouse_state
    }

    /// Read full screen with coordinate overlay
    pub fn read_screen(&mut self) -> (s: String)
        requires
            old(self).wf(),
        ensures
            final(self).wf(),
            final(self)@ == (InstanceView { grid: old(self)@.grid.take_dirty(), ..old(self)@ }),
            s@ == if old(self)@.scroll_offset > 0 {
                scrollback_screen_text(old(self)@.grid, old(self)@.scroll_offset)
            } else {
                screen_text(old(self)@.grid)
            },
    {
        // Clear dirty tracking on read
        let _ = self.grid.take_dirty_rows();
        if self.scroll_offset > 0 {
            self.read_scrollback_screen()
        } else {
            read_screen_text(&self.grid)
        }
    }

    /// The screen as plain text, without coordinates.
    pub fn show_screen(&self) -> (s: String)
        ensures
            s@ == plain_screen_text(self@.grid),
    {
        show_screen_text(&self.grid)
    }

    /// Read specific rows
    pub fn read_rows(&self, start: usize, end: usize) -> (s: String)
        requires
            clamp(start as nat, self@.grid.screen.rows_count) <= clamp(end as nat, self@.grid.screen.rows_count),
        ensures
            s@ == rows_text(self@.grid, start as nat, end as nat),
    {
        read_rows_text(&self.grid, start, end)
    }

    /// Read rectangular region
    pub fn read_region(&self, col1: usize, row1: usize, col2: usize, row2: usize) -> (s: String)
        requires
            clamp(col1 as nat, self@.grid.screen.cols) <= clamp(col2 as nat, self@.grid.screen.cols),
            clamp(row1 as nat, self@.grid.screen.rows_count) <= clamp(row2 as nat, self@.grid.screen.rows_count),
        ensures
            s@ == region_text(self@.grid, col1 as nat, row1 as nat, col2 as nat, row2 as nat),
    {
        read_region_text(&self.grid, col1, row1, col2, row2)
    }

    /// Poll and drain events
    pub fn poll_events(&mut self) -> (events: Vec<TerminalEvent>)
        requires
            old(self).wf(),
        ensures
            final(self).wf(),
            events_view(events@) == old(self)@.events,
            final(self)@ == (InstanceView { events: Seq::empty(), ..old(self)@ }),
    {
        self.event_queue.drain()
    }

    /// Select text by range and return it
    pub fn select_range(&mut self, start_col: usize, start_row: usize, end_col: usize, end_row: usize) -> (s: String)
        requires
            old(self).wf(),
        ensures
            final(self).wf(),
            final(self)@ == (InstanceView {
                selection: Some(range_selection(start_col, start_row, end_col, end_row)),
                ..old(self)@
            }),
            s@ == selection_text(
                old(self)@.grid,
                range_selection(start_col, start_row, end_col, end_row),
            ),
    {
        let sel = Selection::from_range(
            Position::new(start_col as u16, start_row as u16),
            Position::new(end_col as u16, end_row as u16),
        );
        let text = extract_selection_text(&self.grid, &sel);
        self.selection = Some(sel);
        text
    }

    /// Scroll page up
    pub fn scroll_page_up(&mut self) -> (offset: usize)
        requires
            old(self).wf(),
        ensures
            final(self).wf(),
            offset == final(self)@.scroll_offset,
            offset == paged_up(old(self)@),
            final(self)@ == (InstanceView { scroll_offset: offset as nat, ..old(self)@ }),
    {
        let max = self.grid.scrollback_len();
        let up = self.scroll_offset + self.grid.rows();
        self.scroll_offset = if up < max { up } else { max };
        self.scroll_offset
    }

    /// Scroll page down
    pub fn scroll_page_down(&mut self) -> (offset: usize)
        requires
            old(self).wf(),
        ensures
            final(self).wf(),
            offset == final(self)@.scroll_offset,
            offset == paged_down(old(self)@),
            final(self)@ == (InstanceView { scroll_offset: offset as nat, ..old(self)@ }),
    {
        self.scroll_offset = self.scroll_offset.saturating_sub(self.grid.rows());
        self.scroll_offset
    }

    fn read_scrollback_screen(&self) -> (s: String)
        requires
            self.wf(),
        ensures
            s@ == scrollback_screen_text(self@.grid, self@.scroll_offset),
    {
        let cols = self.grid.cols();
        let rows = self.grid.rows();
        let mut header: Vec<char> = Vec::new();
        push_digit_row(&mut header, cols, 100);
        push_digit_row(&mut header, cols, 10);
        push_digit_row(&mut header, cols, 1);
        assert(header@ =~= full_column_header(cols as nat));
        let mut output = chars_to_string(&header);
        render_scrollback(
            &mut output,
            self.grid.get_scrollback(),
            self.grid.get_rows(),
            self.scroll_offset,
            cols,
            rows,
            true,
        );
        output
    }
}


/// The names of the shells whose being in the foreground means that the
/// terminal waits for input.
pub open spec fn is_shell_name(name: Seq<char>) -> bool {
    ||| name == seq!['b', 'a', 's', 'h']
    ||| name == seq!['z', 's', 'h']
    ||| name == seq!['s', 'h']
    ||| name == seq!['f', 'i', 's', 'h']
    ||| name == seq!['d', 'a', 's', 'h']
    ||| name == seq!['t', 'c', 's', 'h']
    ||| name == seq!['c', 's', 'h']
}

/// Whether the foreground process, if its name is known, is a shell.
pub open spec fn foreground_is_shell(foreground: Option<Seq<char>>) -> bool {
    match foreground {
        Some(name) => is_shell_name(name),
        None => false,
    }
}

fn is_shell(name: &String) -> (b: bool)
    ensures
        b == is_shell_name(name@),
{
    let chars = chars_of(name.as_str());
    chars_equal(&chars, &vec!['b', 'a', 's', 'h']) || chars_equal(&chars, &vec!['z', 's', 'h'])
        || chars_equal(&chars, &vec!['s', 'h']) || chars_equal(&chars, &vec!['f', 'i', 's', 'h'])
        || chars_equal(&chars, &vec!['d', 'a', 's', 'h']) || chars_equal(&chars, &vec!['t', 'c', 's', 'h'])
        || chars_equal(&chars, &vec!['c', 's', 'h'])
}

/// The events one tick raises, in order: the bell if it rang, the changed
/// rows if there are any, and on a change of process state the change,
/// then the end of the command when the process has just exited, or the
/// wait for input.
pub open spec fn tick_events(v: InstanceView, new_state: TerminalState, exit_code: Option<i32>) -> Seq<EventView> {
    let bell: Seq<EventView> = if v.grid.bell_pending { seq![EventView::Bell] } else { Seq::empty() };
    let dirty = true_indices(v.grid.screen.dirty_rows, v.grid.screen.dirty_rows.len());
    let screen: Seq<EventView> = if dirty.len() > 0 {
        seq![EventView::ScreenChanged { changed_rows: dirty }]
    } else {
        Seq::empty()
    };
    let change: Seq<EventView> = if new_state != v.prev_state {
        seq![EventView::ProcessStateChanged { old: v.prev_state, new: new_state }] + (if new_state
            == TerminalState::Exited && v.process_state != TerminalState::Exited {
            seq![EventView::CommandFinished { exit_code: match exit_code { Some(c) => c, None => -1i32 } }]
        } else {
            Seq::empty()
        }) + (if new_state == TerminalState::WaitingForInput {
            seq![EventView::WaitingForInput]
        } else {
            Seq::empty()
        })
    } else {
        Seq::empty()
    };
    bell + screen + change
}

/// The state after one tick: the bell answered, the events queued, and the
/// detected process state recorded.
pub open spec fn ticked(
    v: InstanceView,
    running: bool,
    exit_code: Option<i32>,
    last_output_ms: Option<u64>,
    foreground: Option<Seq<char>>,
) -> InstanceView {
    let new_state = detected_state(running, exit_code, last_output_ms, foreground_is_shell(foreground));
    InstanceView {
        grid: GridView { bell_pending: false, ..v.grid },
        events: pushed_all(v.events, v.event_capacity, tick_events(v, new_state, exit_code)),
        process_state: new_state,
        prev_state: new_state,
        running_command: foreground,
        ..v
    }
}

/// A state change is reported once: looking at the process again and
/// seeing the same raises no further state event.
pub proof fn lemma_state_change_reported_once(
    v: InstanceView,
    running: bool,
    exit_code: Option<i32>,
    last_output_ms: Option<u64>,
    foreground: Option<Seq<char>>,
)
    ensures
        ({
            let w = ticked(v, running, exit_code, last_output_ms, foreground);
            let again = tick_events(w, w.process_state, exit_code);
            forall|i: int| 0 <= i < again.len() ==> !(#[trigger] again[i] is ProcessStateChanged) && !(again[i] is CommandFinished) && !(again[i] is WaitingForInput)
        }),
{
    let w = ticked(v, running, exit_code, last_output_ms, foreground);
    let again = tick_events(w, w.process_state, exit_code);
    let bell: Seq<EventView> = if w.grid.bell_pending { seq![EventView::Bell] } else { Seq::empty() };
    let dirty = true_indices(w.grid.screen.dirty_rows, w.grid.screen.dirty_rows.len());
    let screen: Seq<EventView> = if dirty.len() > 0 {
        seq![EventView::ScreenChanged { changed_rows: dirty }]
    } else {
        Seq::empty()
    };
    assert(again =~= bell + screen);
}

/// The shells: a tick that sees a live process, no exit code and one of
/// bash, zsh, sh, fish, dash, tcsh or csh in the foreground detects that
/// the terminal waits for input, however long it has been quiet; with any
/// other foreground process (or none) it does not.
pub proof fn lemma_shell_foreground_waits(
    v: InstanceView,
    last_output_ms: Option<u64>,
    name: Seq<char>,
)
    ensures
        ticked(v, true, None, last_output_ms, Some(name)).process_state == TerminalState::WaitingForInput
            <==> (name == seq!['b', 'a', 's', 'h'] || name == seq!['z', 's', 'h'] || name == seq!['s', 'h']
            || name == seq!['f', 'i', 's', 'h'] || name == seq!['d', 'a', 's', 'h'] || name == seq![
            't',
            'c',
            's',
            'h',
        ] || name == seq!['c', 's', 'h']),
        ticked(v, true, None, last_output_ms, None).process_state != TerminalState::WaitingForInput,
{
}

/// What a tick detects: a process that is gone or has an exit code has
/// exited; otherwise a shell in the foreground waits for input; otherwise
/// the terminal is idle after more than 500 ms without output and running
/// before that. The tick answers the bell, records the detected state and
/// the foreground name, and raises the bell first when it rang; when the
/// process has just exited it reports the change of state and then the end
/// of the command with its exit code (-1 when there is none).
pub proof fn lemma_tick_detects(
    v: InstanceView,
    running: bool,
    exit_code: Option<i32>,
    last_output_ms: Option<u64>,
    foreground: Option<Seq<char>>,
)
    ensures
        ({
            let w = ticked(v, running, exit_code, last_output_ms, foreground);
            let st = w.process_state;
            let es = tick_events(v, st, exit_code);
            let quiet = match last_output_ms {
                Some(ms) => ms > 500,
                None => false,
            };
            &&& (!running || exit_code is Some) ==> st == TerminalState::Exited
            &&& (running && exit_code is None && foreground_is_shell(foreground)) ==> st
                == TerminalState::WaitingForInput
            &&& (running && exit_code is None && !foreground_is_shell(foreground) && quiet) ==> st
                == TerminalState::Idle
            &&& (running && exit_code is None && !foreground_is_shell(foreground) && !quiet) ==> st
                == TerminalState::Running
            &&& w.prev_state == st
            &&& w.running_command == foreground
            &&& !w.grid.bell_pending
            &&& v.grid.bell_pending ==> es.len() > 0 && es[0] == EventView::Bell
            &&& (st == TerminalState::Exited && v.prev_state != TerminalState::Exited
                && v.process_state != TerminalState::Exited) ==> {
                &&& es.len() >= 2
                &&& es[es.len() - 2] == EventView::ProcessStateChanged {
                    old: v.prev_state,
                    new: TerminalState::Exited,
                }
                &&& es[es.len() - 1] == EventView::CommandFinished {
                    exit_code: match exit_code {
                        Some(c) => c,
                        None => -1i32,
                    },
                }
            }
        }),
{
}

/// When the state turns to waiting for input, the tick reports the change
/// of state, then the wait, after any bell and changed rows.
pub proof fn lemma_waiting_reported(v: InstanceView, exit_code: Option<i32>)
    requires
        v.prev_state != TerminalState::WaitingForInput,
    ensures
        ({
            let es = tick_events(v, TerminalState::WaitingForInput, exit_code);
            &&& es.len() >= 2
            &&& es[es.len() - 2] == EventView::ProcessStateChanged {
                old: v.prev_state,
                new: TerminalState::WaitingForInput,
            }
            &&& es[es.len() - 1] == EventView::WaitingForInput
        }),
{
}

/// Whether the terminal wants mouse reports, in the SGR encoding.
pub open spec fn reports_mouse(g: GridView) -> bool {
    (g.modes.mouse_normal_tracking || g.modes.mouse_button_tracking || g.modes.mouse_any_event_tracking)
        && g.modes.mouse_sgr_mode
}

/// The press and release reports of a click, when the terminal wants them.
pub open spec fn click_reports(g: GridView, button: nat, col: u16, row: u16) -> Seq<Seq<u8>> {
    if reports_mouse(g) {
        seq![sgr_report(button, col as nat, row as nat, 'M'), sgr_report(button, col as nat, row as nat, 'm')]
    } else {
        Seq::empty()
    }
}

/// The selection of the word at a cell, as a double click makes it.
pub open spec fn word_selection(g: GridView, col: u16, row: u16) -> Selection {
    Selection {
        start: Position { col: scan_left(g, row as int, col as nat) as u16, row },
        end: Position { col: scan_right(g, row as int, col as nat) as u16, row },
        selection_type: SelectionType::Word,
        state: SelectionState::Complete,
    }
}

/// What a mouse action does: the state after it, the position it reports,
/// the text it selects, and the reports to send to the program.
pub ghost struct MouseEffect {
    pub after: InstanceView,
    pub col: u16,
    pub row: u16,
    pub text: Option<Seq<char>>,
    pub writes: Seq<Seq<u8>>,
}

pub open spec fn mouse_effect(v: InstanceView, action: MouseAction) -> MouseEffect {
    let g = v.grid;
    match action {
        MouseAction::LeftClick { col, row } => MouseEffect {
            after: InstanceView { mouse: MouseState { col, row }, ..v },
            col,
            row,
            text: None,
            writes: click_reports(g, 0, col, row),
        },
        MouseAction::RightClick { col, row } => MouseEffect {
            after: InstanceView { mouse: MouseState { col, row }, ..v },
            col,
            row,
            text: None,
            writes: click_reports(g, 2, col, row),
        },
        MouseAction::DoubleClick { col, row } => MouseEffect {
            after: InstanceView {
                mouse: MouseState { col, row },
                selection: Some(word_selection(g, col, row)),
                ..v
            },
            col,
            row,
            text: Some(selection_text(g, word_selection(g, col, row))),
            writes: Seq::empty(),
        },
        MouseAction::MoveTo { col, row } => MouseEffect {
            after: InstanceView { mouse: MouseState { col, row }, ..v },
            col,
            row,
            text: None,
            writes: if reports_mouse(g) && g.modes.mouse_any_event_tracking {
                seq![sgr_report(35, col as nat, row as nat, 'M')]
            } else {
                Seq::empty()
            },
        },
        MouseAction::GetPosition => MouseEffect {
            after: v,
            col: v.mouse.col,
            row: v.mouse.row,
            text: None,
            writes: Seq::empty(),
        },
        MouseAction::SetPosition { col, row } => MouseEffect {
            after: InstanceView { mouse: MouseState { col, row }, ..v },
            col,
            row,
            text: None,
            writes: Seq::empty(),
        },
    }
}

/// Whether the reports of a mouse action can be written: a reported
/// position must have a successor (positions are sent 1-based).
pub open spec fn mouse_reports_fit(g: GridView, action: MouseAction) -> bool {
    match action {
        MouseAction::LeftClick { col, row } => reports_mouse(g) ==> col < u16::MAX && row < u16::MAX,
        MouseAction::RightClick { col, row } => reports_mouse(g) ==> col < u16::MAX && row < u16::MAX,
        MouseAction::MoveTo { col, row } => reports_mouse(g) && g.modes.mouse_any_event_tracking ==> col
            < u16::MAX && row < u16::MAX,
        _ => true,
    }
}

/// Mouse reports: when the terminal asks for SGR reports, a left click
/// sends the press and the release of button 0 at the click's position,
/// a right click those of button 2, and a move (with any-event tracking)
/// the motion report of button 35; when it does not ask, clicks send
/// nothing. Every action but asking for the position moves the mouse
/// there.
pub proof fn lemma_mouse_reports(v: InstanceView, col: u16, row: u16)
    ensures
        reports_mouse(v.grid) ==> mouse_effect(v, MouseAction::LeftClick { col, row }).writes == seq![
            sgr_report(0, col as nat, row as nat, 'M'),
            sgr_report(0, col as nat, row as nat, 'm'),
        ],
        reports_mouse(v.grid) ==> mouse_effect(v, MouseAction::RightClick { col, row }).writes == seq![
            sgr_report(2, col as nat, row as nat, 'M'),
            sgr_report(2, col as nat, row as nat, 'm'),
        ],
        reports_mouse(v.grid) && v.grid.modes.mouse_any_event_tracking ==> mouse_effect(
            v,
            MouseAction::MoveTo { col, row },
        ).writes == seq![sgr_report(35, col as nat, row as nat, 'M')],
        !reports_mouse(v.grid) ==> mouse_effect(v, MouseAction::LeftClick { col, row }).writes.len() == 0
            && mouse_effect(v, MouseAction::RightClick { col, row }).writes.len() == 0
            && mouse_effect(v, MouseAction::MoveTo { col, row }).writes.len() == 0,
        mouse_effect(v, MouseAction::LeftClick { col, row }).after.mouse == (MouseState { col, row }),
        mouse_effect(v, MouseAction::RightClick { col, row }).after.mouse == (MouseState { col, row }),
        mouse_effect(v, MouseAction::DoubleClick { col, row }).after.mouse == (MouseState { col, row }),
        mouse_effect(v, MouseAction::MoveTo { col, row }).after.mouse == (MouseState { col, row }),
        mouse_effect(v, MouseAction::SetPosition { col, row }).after.mouse == (MouseState { col, row }),
        mouse_effect(v, MouseAction::GetPosition).after == v,
        mouse_effect(v, MouseAction::GetPosition).col == v.mouse.col,
        mouse_effect(v, MouseAction::GetPosition).row == v.mouse.row,
{
}

pub open spec fn text_view(t: Option<String>) -> Option<Seq<char>> {
    match t {
        Some(s) => Some(s@),
        None => None,
    }
}

pub open spec fn bytes_views(w: Seq<Vec<u8>>) -> Seq<Seq<u8>> {
    w.map_values(|b: Vec<u8>| b@)
}

/// The characters of a line, in order.
pub open spec fn line_chars(cells: Seq<TerminalCell>) -> Seq<char> {
    cells.map_values(|c: TerminalCell| c.c)
}

/// Whether a line holds the text, ignoring case.
pub open spec fn line_matches(cells: Seq<TerminalCell>, needle: Seq<char>) -> bool {
    occurs_in(lowercase(line_chars(cells)), lowercase(needle))
}

/// The last of the first `k` scrollback lines that holds the text.
pub open spec fn last_match(lines: Seq<Seq<TerminalCell>>, needle: Seq<char>, k: nat) -> Option<nat>
    decreases k,
{
    if k == 0 {
        None
    } else if line_matches(lines[k - 1], needle) {
        Some((k - 1) as nat)
    } else {
        last_match(lines, needle, (k - 1) as nat)
    }
}

/// The search finds the most recent line: the line it picks holds the
/// text and no later one among the first `k` does; when it picks none, no
/// line among the first `k` holds the text.
pub proof fn lemma_last_match(lines: Seq<Seq<TerminalCell>>, needle: Seq<char>, k: nat)
    requires
        k <= lines.len(),
    ensures
        last_match(lines, needle, k) matches Some(i) ==> i < k && line_matches(lines[i as int], needle)
            && forall|j: int| i < j < k ==> !line_matches(#[trigger] lines[j], needle),
        last_match(lines, needle, k) is None ==> forall|j: int| 0 <= j < k ==> !line_matches(
            #[trigger] lines[j],
            needle,
        ),
    decreases k,
{
    if k > 0 {
        lemma_last_match(lines, needle, (k - 1) as nat);
    }
}

/// Where a search leaves the view: scrolled back to show the most recent
/// scrollback line that holds the text, else at the live screen when the
/// screen holds it, else where it was; and whether it was found.
pub open spec fn search_result(v: InstanceView, needle: Seq<char>) -> (nat, bool) {
    let sb = v.grid.history.scrollback;
    match last_match(sb, needle, sb.len()) {
        Some(i) => ((sb.len() - i) as nat, true),
        None => if exists|j: int| 0 <= j < v.grid.screen.rows.len() && line_matches(#[trigger] v.grid.screen.rows[j], needle) {
            (0, true)
        } else {
            (v.scroll_offset, false)
        },
    }
}

fn cells_chars(cells: &Vec<TerminalCell>) -> (v: Vec<char>)
    ensures
        v@ == line_chars(cells@),
{
    let mut v: Vec<char> = Vec::new();
    let mut i: usize = 0;
    while i < cells.len()
        invariant
            i <= cells@.len(),
            v@ == line_chars(cells@.subrange(0, i as int)),
        decreases cells@.len() - i,
    {
        v.push(cells[i].c);
        i = i + 1;
        assert(v@ =~= line_chars(cells@.subrange(0, i as int)));
    }
    assert(cells@.subrange(0, cells@.len() as int) =~= cells@);
    v
}

fn line_holds(cells: &Vec<TerminalCell>, needle_lower: &Vec<char>, Ghost(needle): Ghost<Seq<char>>) -> (b: bool)
    requires
        needle_lower@ == lowercase(needle),
    ensures
        b == line_matches(cells@, needle),
{
    let chars = cells_chars(cells);
    let lower = to_lowercase_chars(&chars);
    contains_text(&lower, needle_lower)
}

impl TerminalInstance {
    /// Process state and events after the process was looked at: `running`,
    /// `exit_code`, the milliseconds since the last output and the name of
    /// the foreground process are what the process showed.
    #[verifier::spinoff_prover]
    #[verifier::rlimit(60)]
    pub fn tick(
        &mut self,
        running: bool,
        exit_code: Option<i32>,
        last_output_ms: Option<u64>,
        foreground: Option<String>,
    )
        requires
            old(self).wf(),
        ensures
            final(self).wf(),
            final(self)@ == ticked(old(self)@, running, exit_code, last_output_ms, text_view(foreground)),
    {
        let ghost v0 = self@;
        let ghost cap = self@.event_capacity;
        let ghost mut sent: Seq<EventView> = Seq::empty();
        let was_alive = self.process_state != TerminalState::Exited;
        // Check for bell
        if self.grid.bell_pending() {
            self.grid.set_bell_pending(false);
            self.event_queue.push(TerminalEvent::Bell);
            proof {
                sent = sent.push(EventView::Bell);
                assert(sent.drop_last() =~= Seq::<EventView>::empty());
                assert(pushed_all(v0.events, cap, Seq::<EventView>::empty()) == v0.events);
                assert(self.event_queue@ == pushed(v0.events, cap, EventView::Bell));
            }
        } else {
            assert(pushed_all(v0.events, cap, sent) == v0.events);
        }
        assert(self.event_queue@ == pushed_all(v0.events, cap, sent));
        // Check dirty rows for screen changed event
        let dirty = self.grid.peek_dirty_rows();
        if dirty.len() > 0 {
            let ghost d = dirty@;
            let ghost before = sent;
            self.event_queue.push(TerminalEvent::ScreenChanged { changed_rows: dirty });
            proof {
                sent = sent.push(EventView::ScreenChanged { changed_rows: d });
                assert(sent.drop_last() =~= before);
            }
            assert(self.event_queue@ == pushed_all(v0.events, cap, sent));
        }
        assert(self.event_queue@ == pushed_all(v0.events, cap, sent));
        // Detect process state
        let is_shell_fg = match &foreground {
            Some(name) => is_shell(name),
            None => false,
        };
        let new_state = TerminalState::detect(running, exit_code, last_output_ms, is_shell_fg);
        // Emit state change event
        if new_state != self.prev_state {
            let ghost before = sent;
            self.event_queue.push(TerminalEvent::ProcessStateChanged { old: self.prev_state, new: new_state });
            proof {
                sent = sent.push(EventView::ProcessStateChanged { old: v0.prev_state, new: new_state });
                assert(sent.drop_last() =~= before);
            }
            assert(self.event_queue@ == pushed_all(v0.events, cap, sent));
            if new_state == TerminalState::Exited && was_alive {
                let code = match exit_code {
                    Some(c) => c,
                    None => -1,
                };
                let ghost before = sent;
                self.event_queue.push(TerminalEvent::CommandFinished { exit_code: code });
                proof {
                    sent = sent.push(EventView::CommandFinished { exit_code: code });
                    assert(sent.drop_last() =~= before);
                }
                assert(self.event_queue@ == pushed_all(v0.events, cap, sent));
            }
            if new_state == TerminalState::WaitingForInput {
                let ghost before = sent;
                self.event_queue.push(TerminalEvent::WaitingForInput);
                proof {
                    sent = sent.push(EventView::WaitingForInput);
                    assert(sent.drop_last() =~= before);
                }
                assert(self.event_queue@ == pushed_all(v0.events, cap, sent));
            }
            self.prev_state = new_state;
        }
        self.process_state = new_state;
        self.running_command = foreground;
        assert(sent =~= tick_events(v0, new_state, exit_code));
        assert(self.grid@ == GridView { bell_pending: false, ..v0.grid });
        assert(is_shell_fg == foreground_is_shell(text_view(foreground)));
        assert(new_state == detected_state(running, exit_code, last_output_ms, foreground_is_shell(text_view(foreground))));
        assert(self@.events == pushed_all(v0.events, v0.event_capacity, tick_events(v0, new_state, exit_code)));
        assert(self@.prev_state == new_state);
        assert(self@.event_capacity == v0.event_capacity);
    }

    /// Send a mouse action; the result says where the mouse is and what a
    /// double click selected, and the byte strings are the reports to send
    /// to the program, in order.
    pub fn send_mouse(&mut self, action: MouseAction) -> (r: (MouseResult, Vec<Vec<u8>>))
        requires
            old(self).wf(),
            mouse_reports_fit(old(self)@.grid, action),
        ensures
            final(self).wf(),
            final(self)@ == mouse_effect(old(self)@, action).after,
            r.0.mouse_col == mouse_effect(old(self)@, action).col,
            r.0.mouse_row == mouse_effect(old(self)@, action).row,
            text_view(r.0.selected_text) == mouse_effect(old(self)@, action).text,
            bytes_views(r.1@) == mouse_effect(old(self)@, action).writes,
    {
        let modes = self.grid.modes();
        let has_mouse_tracking = modes.mouse_normal_tracking || modes.mouse_button_tracking
            || modes.mouse_any_event_tracking;
        let uses_sgr = modes.mouse_sgr_mode;
        let mut writes: Vec<Vec<u8>> = Vec::new();
        match action {
            MouseAction::LeftClick { col, row } => {
                self.mouse_state.set(col, row);
                if has_mouse_tracking && uses_sgr {
                    writes.push(sgr_mouse_press(0, col, row));
                    writes.push(sgr_mouse_release(0, col, row));
                }
                assert(bytes_views(writes@) =~= click_reports(self.grid@, 0, col, row));
                (MouseResult { mouse_col: col, mouse_row: row, selected_text: None }, writes)
            },
            MouseAction::RightClick { col, row } => {
                self.mouse_state.set(col, row);
                if has_mouse_tracking && uses_sgr {
                    writes.push(sgr_mouse_press(2, col, row));
                    writes.push(sgr_mouse_release(2, col, row));
                }
                assert(bytes_views(writes@) =~= click_reports(self.grid@, 2, col, row));
                (MouseResult { mouse_col: col, mouse_row: row, selected_text: None }, writes)
            },
            MouseAction::DoubleClick { col, row } => {
                self.mouse_state.set(col, row);
                // Select word at position
                let mut sel = Selection::new(Position::new(col, row), SelectionType::Word);
                proof {
                    lemma_word_scan_bounds(self.grid@, row as int, col as nat);
                }
                sel.expand_to_word(&self.grid);
                sel.complete();
                // Extract selected text
                let text = extract_selection_text(&self.grid, &sel);
                self.selection = Some(sel);
                assert(bytes_views(writes@) =~= Seq::<Seq<u8>>::empty());
                (MouseResult { mouse_col: col, mouse_row: row, selected_text: Some(text) }, writes)
            },
            MouseAction::MoveTo { col, row } => {
                self.mouse_state.set(col, row);
                if has_mouse_tracking && uses_sgr && modes.mouse_any_event_tracking {
                    writes.push(sgr_mouse_move(col, row));
                }
                assert(bytes_views(writes@) =~= mouse_effect(old(self)@, action).writes);
                (MouseResult { mouse_col: col, mouse_row: row, selected_text: None }, writes)
            },
            MouseAction::GetPosition => {
                assert(bytes_views(writes@) =~= Seq::<Seq<u8>>::empty());
                (
                    MouseResult {
                        mouse_col: self.mouse_state.col,
                        mouse_row: self.mouse_state.row,
                        selected_text: None,
                    },
                    writes,
                )
            },
            MouseAction::SetPosition { col, row } => {
                self.mouse_state.set(col, row);
                assert(bytes_views(writes@) =~= Seq::<Seq<u8>>::empty());
                (MouseResult { mouse_col: col, mouse_row: row, selected_text: None }, writes)
            },
        }
    }

    /// Search scrollback for text, jump to page containing it
    pub fn scroll_to_text(&mut self, text: &str) -> (r: (usize, bool))
        requires
            old(self).wf(),
        ensures
            final(self).wf(),
            r.0 == search_result(old(self)@, text@).0,
            r.1 == search_result(old(self)@, text@).1,
            final(self)@ == (InstanceView { scroll_offset: r.0 as nat, ..old(self)@ }),
    {
        let needle = chars_of(text);
        let needle_lower = to_lowercase_chars(&needle);
        let scrollback = self.grid.get_scrollback();
        let ghost sb = self@.grid.history.scrollback;
        let len = scrollback.len();
        // Search from most recent scrollback line backwards
        let mut k: usize = len;
        while k > 0
            invariant
                k <= len,
                len == sb.len(),
                rows_view(scrollback@) == sb,
                needle_lower@ == lowercase(text@),
                last_match(sb, text@, len as nat) == last_match(sb, text@, k as nat),
                self@ == old(self)@,
                self.wf(),
                sb == self@.grid.history.scrollback,
            decreases k,
        {
            let line = &scrollback[k - 1];
            assert(line@ == sb[k - 1]);
            if line_holds(line, &needle_lower, Ghost(text@)) {
                // Calculate scroll offset to show this line
                self.scroll_offset = len - (k - 1);
                return (self.scroll_offset, true);
            }
            k = k - 1;
        }
        // Also search visible screen
        let screen = self.grid.get_rows();
        let ghost rows = self@.grid.screen.rows;
        let mut j: usize = 0;
        while j < screen.len()
            invariant
                j <= screen@.len(),
                rows_view(screen@) == rows,
                needle_lower@ == lowercase(text@),
                forall|i: int| 0 <= i < j ==> !line_matches(#[trigger] rows[i], text@),
                self@ == old(self)@,
                self.wf(),
                rows == self@.grid.screen.rows,
                last_match(self@.grid.history.scrollback, text@, self@.grid.history.scrollback.len()) is None,
            decreases screen@.len() - j,
        {
            let line = &screen[j];
            assert(line@ == rows[j as int]);
            if line_holds(line, &needle_lower, Ghost(text@)) {
                self.scroll_offset = 0;
                return (0, true);
            }
            j = j + 1;
        }
        (self.scroll_offset, false)
    }

    /// Get lightweight status; `exit_code` and `running_command` are what
    /// the process showed.
    pub fn get_status(&self, last_n: usize, exit_code: Option<i32>, running_command: Option<String>) -> (st: TerminalStatus)
        requires
            self.wf(),
        ensures
            st.state == self@.process_state,
            st.exit_code == exit_code,
            text_view(st.running_command) == text_view(running_command),
            st.last_lines@.map_values(|s: String| s@) == last_lines(self@.grid.screen.rows, last_n as nat),
            st.cursor_pos == (self@.grid.cur.cursor.x, self@.grid.cur.cursor.y),
            st.cursor_visible == self@.grid.cur.cursor.visible,
            st.mouse_pos == (self@.mouse.col, self@.mouse.row),
            st.dirty == self@.grid.screen.dirty_flag,
            st.changed_rows@ == true_indices(self@.grid.screen.dirty_rows, self@.grid.screen.dirty_rows.len()),
            st.pending_events == self@.events.len(),
            st.size == (self@.grid.screen.cols as usize, self@.grid.screen.rows_count as usize),
            st.scrollback_lines == self@.grid.history.scrollback.len(),
            st.has_new_content == self@.grid.screen.dirty_flag,
    {
        let last_lines = last_n_lines(&self.grid, last_n);
        let dirty_rows = self.grid.peek_dirty_rows();
        let cursor = self.grid.cursor();
        let dirty = self.grid.is_dirty();
        TerminalStatus {
            state: self.process_state,
            exit_code,
            running_command,
            last_lines,
            cursor_pos: (cursor.x, cursor.y),
            cursor_visible: cursor.visible,
            mouse_pos: (self.mouse_state.col, self.mouse_state.row),
            dirty,
            changed_rows: dirty_rows,
            pending_events: self.event_queue.len(),
            size: (self.grid.cols(), self.grid.rows()),
            scrollback_lines: self.grid.scrollback_len(),
            has_new_content: dirty,
        }
    }
}

} // verus!
