use vstd::prelude::*;

use super::cell::TerminalCell;
use super::ansi_handler::{
    ansi_modes, csi, csi_plain, dec_mode, dec_modes, dec_screen_mode, esc, execute_byte, is_edit_final,
    is_move_final, param_or,
};
use super::model::{
    is_control, last_index, lemma_scroll_down_steps_frame, lemma_scroll_up_steps_frame, min_nat,
    printed_width, true_indices, fit_screen, Charsets, GridView, HistoryView, Pen,
};
use super::selection::{Position, Selection, SelectionType};

verus! {

/// The indices listed for a table of flags are exactly the set ones, in
/// increasing order.
pub proof fn lemma_true_indices(s: Seq<bool>, n: nat)
    requires
        n <= s.len(),
        n <= usize::MAX + 1,
    ensures
        forall|i: int|
            0 <= i < true_indices(s, n).len() ==> #[trigger] true_indices(s, n)[i] < n && s[true_indices(
                s,
                n,
            )[i] as int],
        forall|i: int, j: int|
            0 <= i < j < true_indices(s, n).len() ==> #[trigger] true_indices(s, n)[i]
                < #[trigger] true_indices(s, n)[j],
        forall|k: int|
            0 <= k < n && #[trigger] s[k] ==> exists|i: int|
                0 <= i < true_indices(s, n).len() && #[trigger] true_indices(s, n)[i] == k,
    decreases n,
{
    if n > 0 {
        let m = (n - 1) as nat;
        lemma_true_indices(s, m);
        let prev = true_indices(s, m);
        if s[m as int] {
            let cur = true_indices(s, n);
            assert(cur == prev.push(m as usize));
            assert forall|k: int| 0 <= k < n && #[trigger] s[k] implies exists|i: int|
                0 <= i < cur.len() && #[trigger] cur[i] == k by {
                if k == m {
                    assert(cur[prev.len() as int] == k);
                } else {
                    let i = choose|i: int| 0 <= i < prev.len() && #[trigger] prev[i] == k;
                    assert(cur[i] == k);
                }
            }
        } else {
            let cur = true_indices(s, n);
            assert(cur == prev);
            assert forall|k: int| 0 <= k < n && #[trigger] s[k] implies exists|i: int|
                0 <= i < cur.len() && #[trigger] cur[i] == k by {
                assert(k < m);
            }
        }
    }
}

/// A table with no flag set lists no index.
pub proof fn lemma_true_indices_none(len: nat, n: nat)
    requires
        n <= len,
    ensures
        true_indices(Seq::new(len, |i: int| false), n) == Seq::<usize>::empty(),
    decreases n,
{
    if n > 0 {
        lemma_true_indices_none(len, (n - 1) as nat);
    }
}

/// Incremental reads: the dirty rows that are listed are exactly the rows
/// changed since the last read, in increasing order; taking them clears
/// the tracking, so that a second look finds none and the screen reports
/// itself clean, while the screen's content stays as it was.
pub proof fn lemma_take_dirty_rows(g: GridView)
    requires
        g.wf(),
    ensures
        ({
            let listed = true_indices(g.screen.dirty_rows, g.screen.dirty_rows.len());
            &&& forall|i: int| 0 <= i < listed.len() ==> g.screen.dirty_rows[#[trigger] listed[i] as int]
            &&& forall|i: int, j: int| 0 <= i < j < listed.len() ==> #[trigger] listed[i] < #[trigger] listed[j]
            &&& forall|k: int|
                0 <= k < g.screen.dirty_rows.len() && #[trigger] g.screen.dirty_rows[k] ==> exists|i: int|
                    0 <= i < listed.len() && #[trigger] listed[i] == k
        }),
        true_indices(g.take_dirty().screen.dirty_rows, g.take_dirty().screen.dirty_rows.len())
            == Seq::<usize>::empty(),
        !g.take_dirty().screen.dirty_flag,
        g.take_dirty().screen.rows == g.screen.rows,
        g.take_dirty().wf(),
{
    let n = g.screen.dirty_rows.len();
    lemma_true_indices(g.screen.dirty_rows, n);
    lemma_true_indices_none(n, n);
}

/// A printable character of width one, written where no wrap is pending,
/// is read back from the cell under the cursor, in the pen's colors and
/// attributes, as the active character set shows it.
pub proof fn lemma_put_char_then_read(g: GridView, c: char)
    requires
        g.wf(),
        g.screen.cols > 0,
        g.screen.rows_count > 0,
        !is_control(c),
        printed_width(g.map_char(c)) == 1,
        !(g.cur.wrap_pending && g.modes.auto_wrap_mode),
    ensures
        g.put_char(c).cell(g.cur.cursor.x as int, g.cur.cursor.y as int) == Some(
            g.pen_cell(g.map_char(c), false),
        ),
        g.put_char(c).wf(),
{
    let x = g.cur.cursor.x as int;
    let y = g.cur.cursor.y as int;
    let m = g.map_char(c);
    assert(g.screen.rows[y].len() == g.screen.cols);
    let w = g.write_cell(x, y, g.pen_cell(m, false));
    assert(w.screen.rows[y][x] == g.pen_cell(m, false));
    let h = g.put_char(c);
    assert(h.screen.rows == w.screen.rows);
    assert forall|j: int| 0 <= j < h.screen.rows_count implies (#[trigger] h.screen.rows[j]).len()
        == h.screen.cols by {
        assert(g.screen.rows[j].len() == g.screen.cols);
    }
}

/// Leaving the alternate screen brings back the main screen exactly as it
/// was kept, whatever was drawn on the alternate screen, as long as the
/// size stayed the same.
pub proof fn lemma_main_screen_restored(h: GridView)
    requires
        h.wf(),
        h.history.alt_screen is Some,
        h.history.alt_screen.unwrap().len() == h.screen.rows_count,
        forall|j: int|
            0 <= j < h.screen.rows_count ==> (#[trigger] h.history.alt_screen.unwrap()[j]).len()
                == h.screen.cols,
    ensures
        h.use_main_screen().screen.rows == h.history.alt_screen.unwrap(),
        h.use_main_screen().history.alt_screen is None,
        h.use_main_screen().wf(),
{
    let main = h.history.alt_screen.unwrap();
    let r = h.use_main_screen().screen.rows;
    assert forall|j: int| 0 <= j < main.len() implies r[j] == main[j] by {
        assert(r[j] =~= main[j]);
    }
    assert(r =~= main);
}

/// Entering the alternate screen keeps the main screen aside, and leaving
/// it again restores the screen, the cursor and the pen as they were.
pub proof fn lemma_alt_screen_round_trip(g: GridView)
    requires
        g.wf(),
        g.history.alt_screen is None,
    ensures
        g.use_alt_screen().history.alt_screen == Some(g.screen.rows),
        g.use_alt_screen().use_main_screen().screen.rows == g.screen.rows,
        g.use_alt_screen().use_main_screen().cur.cursor == g.cur.cursor,
        g.use_alt_screen().use_main_screen().pen == g.pen,
        g.use_alt_screen().use_main_screen().history.alt_screen is None,
{
    let h = g.use_alt_screen();
    assert(h.wf()) by {
        assert forall|j: int| 0 <= j < h.screen.rows_count implies (#[trigger] h.screen.rows[j]).len()
            == h.screen.cols by {
            assert(g.screen.rows[j].len() == g.screen.cols);
        }
    }
    assert(h.history.alt_screen == Some(g.screen.rows));
    lemma_main_screen_restored(h);
    let k = h.use_main_screen();
    assert(k.cur.cursor.x == min_nat(g.cur.cursor.x as nat, last_index(g.screen.cols)));
    assert(k.cur.cursor == g.cur.cursor);
}

/// Restoring the cursor after it was saved gives back the cursor and the
/// pen that were saved, whatever happened meanwhile that kept the saved
/// state.
pub proof fn lemma_restore_after_save(g: GridView, h: GridView)
    requires
        h.cur.saved == g.save_cursor().cur.saved,
    ensures
        h.restore_cursor().cur.cursor == g.cur.cursor,
        h.restore_cursor().pen == g.pen,
        g.save_cursor().restore_cursor() == g.save_cursor(),
{
}

/// A selection's ends come out of normalization as the same two positions,
/// start first: in reading order, and for a block selection (or ends
/// within the first thousand columns) by row, then column. Which end was
/// the anchor does not change what the selection contains.
pub proof fn lemma_selection_symmetric(s: Selection, p: Position)
    ensures
        s.normalized() == (s.start, s.end) || s.normalized() == (s.end, s.start),
        s.selection_type != SelectionType::Block ==> s.normalized().0.linear() <= s.normalized().1.linear(),
        s.selection_type == SelectionType::Block || (s.start.col < 1000 && s.end.col < 1000)
            ==> Selection::row_major_le(s.normalized().0, s.normalized().1),
        (Selection { start: s.end, end: s.start, ..s }).spec_contains(p) == s.spec_contains(p),
{
}

/// What a selection covers: a block selection the cells whose column lies
/// between the ends' columns and whose row lies between the ends' rows; any
/// other selection (on rows of fewer than a thousand columns) the cells
/// between its ends in reading order, row first, then column, both ends
/// included.
pub proof fn lemma_selection_contains(s: Selection, p: Position)
    ensures
        s.selection_type == SelectionType::Block ==> (s.spec_contains(p) <==> ((s.start.col <= p.col <= s.end.col
            || s.end.col <= p.col <= s.start.col) && (s.start.row <= p.row <= s.end.row || s.end.row <= p.row
            <= s.start.row))),
        s.selection_type != SelectionType::Block && s.start.col < 1000 && s.end.col < 1000 && p.col < 1000
            ==> (s.spec_contains(p) <==> ((Selection::row_major_le(s.start, p) && Selection::row_major_le(
            p,
            s.end,
        )) || (Selection::row_major_le(s.end, p) && Selection::row_major_le(p, s.start)))),
{
    if s.selection_type != SelectionType::Block && s.start.col < 1000 && s.end.col < 1000 && p.col < 1000 {
        lemma_linear_order(s.start, p);
        lemma_linear_order(p, s.end);
        lemma_linear_order(s.end, p);
        lemma_linear_order(p, s.start);
        lemma_linear_order(s.start, s.end);
        lemma_linear_order(s.end, s.start);
    }
}

proof fn lemma_linear_order(a: Position, b: Position)
    requires
        a.col < 1000,
        b.col < 1000,
    ensures
        a.linear() <= b.linear() <==> Selection::row_major_le(a, b),
{
    if a.row < b.row {
        assert(a.row * 1000 + 1000 <= b.row * 1000) by (nonlinear_arith)
            requires a.row < b.row;
    } else if a.row > b.row {
        assert(b.row * 1000 + 1000 <= a.row * 1000) by (nonlinear_arith)
            requires b.row < a.row;
    }
}

/// Whether `a` keeps what `b` holds aside: its size, the main screen and
/// the saved cursor kept during the alternate screen, and the frame frozen
/// for synchronized output.
pub open spec fn keeps_frames(a: GridView, b: GridView) -> bool {
    &&& same_size(a, b)
    &&& a.history.alt_screen == b.history.alt_screen
    &&& a.cur.saved == b.cur.saved
    &&& a.modes.synchronized_output == b.modes.synchronized_output
    &&& a.history.sync_snapshot == b.history.sync_snapshot
    &&& a.history.sync_cursor_snapshot == b.history.sync_cursor_snapshot
}

/// Whether two grids have the same number of columns and rows.
pub open spec fn same_size(a: GridView, b: GridView) -> bool {
    a.screen.cols == b.screen.cols && a.screen.rows_count == b.screen.rows_count
}

proof fn lemma_scroll_up_size(h: GridView, n: nat)
    ensures
        same_size(h.scroll_up(n), h),
        h.scroll_up(n).history.alt_screen == h.history.alt_screen,
        h.scroll_up(n).cur == h.cur,
        h.scroll_up(n).modes == h.modes,
        h.scroll_up(n).history.sync_snapshot == h.history.sync_snapshot,
        h.scroll_up(n).history.sync_cursor_snapshot == h.history.sync_cursor_snapshot,
        h.scroll_up(n).pen == h.pen,
{
    lemma_scroll_up_steps_frame(h, n);
}

proof fn lemma_scroll_down_size(h: GridView, n: nat)
    ensures
        same_size(h.scroll_down(n), h),
        h.scroll_down(n).history == h.history,
        h.scroll_down(n).cur == h.cur,
        h.scroll_down(n).modes == h.modes,
        h.scroll_down(n).pen == h.pen,
{
    lemma_scroll_down_steps_frame(h, n);
}

proof fn lemma_linefeed_size(h: GridView)
    ensures
        keeps_frames(h.linefeed(), h),
{
    let g0 = h.with_wrap_pending(false);
    let g = if g0.modes.lnm_mode { g0.with_cursor_x(0) } else { g0 };
    lemma_scroll_up_size(g, 1);
}

proof fn lemma_wrap_line_size(h: GridView)
    ensures
        keeps_frames(h.wrap_line(), h),
{
    lemma_scroll_up_size(h, 1);
}

proof fn lemma_write_cell_frames(g: GridView, x: int, y: int, cell: TerminalCell)
    ensures
        keeps_frames(g.write_cell(x, y, cell), g),
{
}

proof fn lemma_after_print_frames(g: GridView, y: nat, n: nat)
    ensures
        keeps_frames(g.mark_dirty(y).advance_after_print(n).bump(), g),
{
}

proof fn lemma_frames_trans(a: GridView, b: GridView, c: GridView)
    requires
        keeps_frames(a, b),
        keeps_frames(b, c),
    ensures
        keeps_frames(a, c),
{
}

proof fn lemma_put_wide_size(h: GridView, m: char, pen: super::model::Pen)
    ensures
        keeps_frames(h.put_wide(m, pen), h),
{
    if !(h.cur.cursor.x + 1 >= h.screen.cols && !h.modes.auto_wrap_mode) {
        let g = if h.cur.cursor.x + 1 >= h.screen.cols {
            lemma_wrap_line_size(h);
            h.wrap_line()
        } else {
            h
        };
        let x = g.cur.cursor.x as int;
        let y = g.cur.cursor.y as int;
        let g1 = g.write_cell(x, y, TerminalCell { c: m, fg: pen.fg, bg: pen.bg, attrs: pen.attrs, wide: true });
        lemma_write_cell_frames(g, x, y, TerminalCell { c: m, fg: pen.fg, bg: pen.bg, attrs: pen.attrs, wide: true });
        let g2 = g1.write_cell(x + 1, y, TerminalCell { c: ' ', fg: pen.fg, bg: pen.bg, attrs: pen.attrs, wide: false });
        lemma_write_cell_frames(g1, x + 1, y, TerminalCell { c: ' ', fg: pen.fg, bg: pen.bg, attrs: pen.attrs, wide: false });
        lemma_after_print_frames(g2, y as nat, 2);
        lemma_frames_trans(g2, g1, g);
        lemma_frames_trans(g2.mark_dirty(y as nat).advance_after_print(2).bump(), g2, g);
        lemma_frames_trans(g2.mark_dirty(y as nat).advance_after_print(2).bump(), g, h);
        assert(h.put_wide(m, pen) == g2.mark_dirty(y as nat).advance_after_print(2).bump());
    }
}

proof fn lemma_print_mapped_size(g: GridView, m: char)
    ensures
        keeps_frames(g.print_mapped(m), g),
{
    let g1 = if g.cur.wrap_pending && g.modes.auto_wrap_mode {
        lemma_wrap_line_size(g.with_wrap_pending(false));
        g.with_wrap_pending(false).wrap_line()
    } else {
        g
    };
    lemma_put_wide_size(g1, m, g.pen);
    lemma_put_narrow_size(g1, m, g.pen);
    if printed_width(m) != 0 {
        if printed_width(m) == 2 {
            lemma_frames_trans(g1.put_wide(m, g.pen), g1, g);
        } else {
            lemma_frames_trans(g1.put_narrow(m, g.pen), g1, g);
        }
    }
}

proof fn lemma_put_narrow_size(h: GridView, m: char, pen: super::model::Pen)
    ensures
        keeps_frames(h.put_narrow(m, pen), h),
{
    let x = h.cur.cursor.x as int;
    let y = h.cur.cursor.y as int;
    if x < h.screen.cols {
        let cell = TerminalCell { c: m, fg: pen.fg, bg: pen.bg, attrs: pen.attrs, wide: false };
        lemma_write_cell_frames(h, x, y, cell);
        lemma_after_print_frames(h.write_cell(x, y, cell), y as nat, 1);
        lemma_frames_trans(h.write_cell(x, y, cell).mark_dirty(y as nat).advance_after_print(1).bump(), h.write_cell(x, y, cell), h);
    }
}

/// Writing a character keeps the grid's size.
pub proof fn lemma_put_char_keeps_size(g: GridView, c: char)
    ensures
        same_size(g.put_char(c), g),
        keeps_frames(g.put_char(c), g),
{
    lemma_linefeed_size(g);
    lemma_print_mapped_size(g, g.map_char(c));
}

proof fn lemma_reverse_linefeed_size(h: GridView)
    ensures
        keeps_frames(h.reverse_linefeed(), h),
{
    lemma_scroll_down_size(h, 1);
}

proof fn lemma_next_line_size(h: GridView)
    ensures
        keeps_frames(h.next_line(), h),
{
    lemma_linefeed_size(h.carriage_return());
}

proof fn lemma_dec_mode_keeps_size(g: GridView, code: u16, on: bool)
    ensures
        same_size(dec_mode(g, code, on), g),
{
    reveal(dec_screen_mode);
}

proof fn lemma_dec_modes_keep_size(g: GridView, ps: Seq<Seq<u16>>, n: nat, on: bool)
    ensures
        same_size(dec_modes(g, ps, n, on), g),
    decreases n,
{
    if n > 0 {
        lemma_dec_modes_keep_size(g, ps, (n - 1) as nat, on);
        lemma_dec_mode_keeps_size(dec_modes(g, ps, (n - 1) as nat, on), ps[n - 1][0], on);
    }
}

proof fn lemma_ansi_modes_keep_size(g: GridView, ps: Seq<Seq<u16>>, n: nat, on: bool)
    ensures
        same_size(ansi_modes(g, ps, n, on), g),
    decreases n,
{
    if n > 0 {
        lemma_ansi_modes_keep_size(g, ps, (n - 1) as nat, on);
    }
}

proof fn lemma_csi_plain_keeps_size(g: GridView, ps: Seq<Seq<u16>>, c: char)
    ensures
        same_size(csi_plain(g, ps, c), g),
{
    let n = param_or(ps, 0, 1);
    if is_move_final(c) {
    } else if is_edit_final(c) {
        lemma_scroll_up_size(g, n as nat);
        lemma_scroll_down_size(g, n as nat);
    } else {
        lemma_ansi_modes_keep_size(g, ps, ps.len(), true);
        lemma_ansi_modes_keep_size(g, ps, ps.len(), false);
    }
}

/// A control sequence never changes the grid's size, and one that the
/// parser marked as ignored leaves the grid exactly as it was.
pub proof fn lemma_csi_keeps_size(g: GridView, ps: Seq<Seq<u16>>, inter: Seq<u8>, ignore: bool, c: char)
    ensures
        same_size(csi(g, ps, inter, ignore, c), g),
        ignore ==> csi(g, ps, inter, ignore, c) == g,
{
    lemma_csi_plain_keeps_size(g, ps, c);
    lemma_dec_modes_keep_size(g, ps, ps.len(), true);
    lemma_dec_modes_keep_size(g, ps, ps.len(), false);
}

/// Escape sequences and control bytes never change the grid's size.
#[verifier::spinoff_prover]
#[verifier::rlimit(80)]
pub proof fn lemma_esc_and_controls_keep_size(g: GridView, inter: Seq<u8>, byte: u8)
    ensures
        same_size(esc(g, inter, byte), g),
        same_size(execute_byte(g, byte), g),
{
    lemma_put_char_keeps_size(g, '\n');
    lemma_put_char_keeps_size(g, '\r');
    lemma_put_char_keeps_size(g, '\t');
    lemma_put_char_keeps_size(g, '\x08');
    lemma_reverse_linefeed_size(g);
    lemma_next_line_size(g);
}

/// A grid operation, as the grid's methods perform them.
pub ghost enum GridOp {
    PutChar(char),
    ScrollUp(nat),
    ScrollDown(nat),
    ClearScreen,
    ClearLine,
    EraseToEol,
    EraseToBol,
    EraseToEos,
    EraseFromBos,
    DeleteChars(nat),
    InsertChars(nat),
    EraseChars(nat),
    Goto(nat, nat),
    GotoOriginAware(nat, nat),
    MoveCursor(int, int),
    SetOriginMode(bool),
    SaveCursor,
    RestoreCursor,
    RestoreCursorPosition,
    SetScrollRegion(nat, nat),
    SetCursor(nat, nat, bool),
    ReverseLinefeed,
    NextLine,
    UseAltScreen,
    UseMainScreen,
    BeginSync,
    EndSync,
    TakeDirty,
    Reset,
    SetPen(Pen),
    SetCharsets(Charsets),
    SetBell(bool),
    QueueResponse(Seq<char>),
}

/// One step of `apply_op`, kept opaque so that a proof about one step
/// does not unfold the others (`reveal` it where needed).
#[verifier::opaque]
pub open spec fn step_put_char(g: GridView, c: char) -> GridView {
    g.put_char(c)
}

/// One step of `apply_op`, kept opaque so that a proof about one step
/// does not unfold the others (`reveal` it where needed).
#[verifier::opaque]
pub open spec fn step_scroll_up(g: GridView, n: nat) -> GridView {
    g.scroll_up(n)
}

/// One step of `apply_op`, kept opaque so that a proof about one step
/// does not unfold the others (`reveal` it where needed).
#[verifier::opaque]
pub open spec fn step_scroll_down(g: GridView, n: nat) -> GridView {
    g.scroll_down(n)
}

/// One step of `apply_op`, kept opaque so that a proof about one step
/// does not unfold the others (`reveal` it where needed).
#[verifier::opaque]
pub open spec fn step_clear_screen(g: GridView) -> GridView {
    g.clear_screen()
}

/// One step of `apply_op`, kept opaque so that a proof about one step
/// does not unfold the others (`reveal` it where needed).
#[verifier::opaque]
pub open spec fn step_clear_line(g: GridView) -> GridView {
    g.clear_line()
}

/// One step of `apply_op`, kept opaque so that a proof about one step
/// does not unfold the others (`reveal` it where needed).
#[verifier::opaque]
pub open spec fn step_erase_to_eol(g: GridView) -> GridView {
    g.erase_to_eol()
}

/// One step of `apply_op`, kept opaque so that a proof about one step
/// does not unfold the others (`reveal` it where needed).
#[verifier::opaque]
pub open spec fn step_erase_to_bol(g: GridView) -> GridView {
    g.erase_to_bol()
}

/// One step of `apply_op`, kept opaque so that a proof about one step
/// does not unfold the others (`reveal` it where needed).
#[verifier::opaque]
pub open spec fn step_erase_to_eos(g: GridView) -> GridView {
    g.erase_to_eos()
}

/// One step of `apply_op`, kept opaque so that a proof about one step
/// does not unfold the others (`reveal` it where needed).
#[verifier::opaque]
pub open spec fn step_erase_from_bos(g: GridView) -> GridView {
    g.erase_from_bos()
}

/// One step of `apply_op`, kept opaque so that a proof about one step
/// does not unfold the others (`reveal` it where needed).
#[verifier::opaque]
pub open spec fn step_delete_chars(g: GridView, n: nat) -> GridView {
    g.delete_chars(n)
}

/// One step of `apply_op`, kept opaque so that a proof about one step
/// does not unfold the others (`reveal` it where needed).
#[verifier::opaque]
pub open spec fn step_insert_chars(g: GridView, n: nat) -> GridView {
    g.insert_chars(n)
}

/// One step of `apply_op`, kept opaque so that a proof about one step
/// does not unfold the others (`reveal` it where needed).
#[verifier::opaque]
pub open spec fn step_erase_chars(g: GridView, n: nat) -> GridView {
    g.erase_chars(n)
}

/// One step of `apply_op`, kept opaque so that a proof about one step
/// does not unfold the others (`reveal` it where needed).
#[verifier::opaque]
pub open spec fn step_goto(g: GridView, x: nat, y: nat) -> GridView {
    g.goto(x, y)
}

/// One step of `apply_op`, kept opaque so that a proof about one step
/// does not unfold the others (`reveal` it where needed).
#[verifier::opaque]
pub open spec fn step_goto_origin_aware(g: GridView, x: nat, y: nat) -> GridView {
    g.goto_origin_aware(x, y)
}

/// One step of `apply_op`, kept opaque so that a proof about one step
/// does not unfold the others (`reveal` it where needed).
#[verifier::opaque]
pub open spec fn step_move_cursor(g: GridView, dx: int, dy: int) -> GridView {
    g.move_cursor(dx, dy)
}

/// One step of `apply_op`, kept opaque so that a proof about one step
/// does not unfold the others (`reveal` it where needed).
#[verifier::opaque]
pub open spec fn step_set_origin_mode(g: GridView, b: bool) -> GridView {
    g.set_origin_mode(b)
}

/// One step of `apply_op`, kept opaque so that a proof about one step
/// does not unfold the others (`reveal` it where needed).
#[verifier::opaque]
pub open spec fn step_save_cursor(g: GridView) -> GridView {
    g.save_cursor()
}

/// One step of `apply_op`, kept opaque so that a proof about one step
/// does not unfold the others (`reveal` it where needed).
#[verifier::opaque]
pub open spec fn step_restore_cursor(g: GridView) -> GridView {
    g.restore_cursor()
}

/// One step of `apply_op`, kept opaque so that a proof about one step
/// does not unfold the others (`reveal` it where needed).
#[verifier::opaque]
pub open spec fn step_restore_cursor_position(g: GridView) -> GridView {
    g.restore_cursor_position()
}

/// One step of `apply_op`, kept opaque so that a proof about one step
/// does not unfold the others (`reveal` it where needed).
#[verifier::opaque]
pub open spec fn step_set_scroll_region(g: GridView, t: nat, b: nat) -> GridView {
    g.set_scroll_region(t, b)
}

/// One step of `apply_op`, kept opaque so that a proof about one step
/// does not unfold the others (`reveal` it where needed).
#[verifier::opaque]
pub open spec fn step_set_cursor(g: GridView, x: nat, y: nat, v: bool) -> GridView {
    g.set_cursor(x, y, v)
}

/// One step of `apply_op`, kept opaque so that a proof about one step
/// does not unfold the others (`reveal` it where needed).
#[verifier::opaque]
pub open spec fn step_reverse_linefeed(g: GridView) -> GridView {
    g.reverse_linefeed()
}

/// One step of `apply_op`, kept opaque so that a proof about one step
/// does not unfold the others (`reveal` it where needed).
#[verifier::opaque]
pub open spec fn step_next_line(g: GridView) -> GridView {
    g.next_line()
}

/// One step of `apply_op`, kept opaque so that a proof about one step
/// does not unfold the others (`reveal` it where needed).
#[verifier::opaque]
pub open spec fn step_use_alt_screen(g: GridView) -> GridView {
    g.use_alt_screen()
}

/// One step of `apply_op`, kept opaque so that a proof about one step
/// does not unfold the others (`reveal` it where needed).
#[verifier::opaque]
pub open spec fn step_use_main_screen(g: GridView) -> GridView {
    g.use_main_screen()
}

/// One step of `apply_op`, kept opaque so that a proof about one step
/// does not unfold the others (`reveal` it where needed).
#[verifier::opaque]
pub open spec fn step_begin_sync(g: GridView) -> GridView {
    g.begin_synchronized_output()
}

/// One step of `apply_op`, kept opaque so that a proof about one step
/// does not unfold the others (`reveal` it where needed).
#[verifier::opaque]
pub open spec fn step_end_sync(g: GridView) -> GridView {
    g.end_synchronized_output()
}

/// One step of `apply_op`, kept opaque so that a proof about one step
/// does not unfold the others (`reveal` it where needed).
#[verifier::opaque]
pub open spec fn step_take_dirty(g: GridView) -> GridView {
    g.take_dirty()
}

/// One step of `apply_op`, kept opaque so that a proof about one step
/// does not unfold the others (`reveal` it where needed).
#[verifier::opaque]
pub open spec fn step_reset(g: GridView) -> GridView {
    g.reset()
}

/// One step of `apply_op`, kept opaque so that a proof about one step
/// does not unfold the others (`reveal` it where needed).
#[verifier::opaque]
pub open spec fn step_set_pen(g: GridView, p: Pen) -> GridView {
    g.with_pen(p)
}

/// One step of `apply_op`, kept opaque so that a proof about one step
/// does not unfold the others (`reveal` it where needed).
#[verifier::opaque]
pub open spec fn step_set_charsets(g: GridView, c: Charsets) -> GridView {
    g.with_charsets(c)
}

/// One step of `apply_op`, kept opaque so that a proof about one step
/// does not unfold the others (`reveal` it where needed).
#[verifier::opaque]
pub open spec fn step_set_bell(g: GridView, b: bool) -> GridView {
    GridView { bell_pending: b, ..g }
}

/// One step of `apply_op`, kept opaque so that a proof about one step
/// does not unfold the others (`reveal` it where needed).
#[verifier::opaque]
pub open spec fn step_queue_response(g: GridView, r: Seq<char>) -> GridView {
    g.with_responses(g.responses.push(r))
}

/// The grid after one operation (`save_cursor_position` is `SaveCursor`):
/// the operation of the same name on the grid's state (`GridView`), each
/// behind its step function.
pub open spec fn apply_op(g: GridView, op: GridOp) -> GridView {
    match op {
        GridOp::PutChar(c) => step_put_char(g, c),
        GridOp::ScrollUp(n) => step_scroll_up(g, n),
        GridOp::ScrollDown(n) => step_scroll_down(g, n),
        GridOp::ClearScreen => step_clear_screen(g),
        GridOp::ClearLine => step_clear_line(g),
        GridOp::EraseToEol => step_erase_to_eol(g),
        GridOp::EraseToBol => step_erase_to_bol(g),
        GridOp::EraseToEos => step_erase_to_eos(g),
        GridOp::EraseFromBos => step_erase_from_bos(g),
        GridOp::DeleteChars(n) => step_delete_chars(g, n),
        GridOp::InsertChars(n) => step_insert_chars(g, n),
        GridOp::EraseChars(n) => step_erase_chars(g, n),
        GridOp::Goto(x, y) => step_goto(g, x, y),
        GridOp::GotoOriginAware(x, y) => step_goto_origin_aware(g, x, y),
        GridOp::MoveCursor(dx, dy) => step_move_cursor(g, dx, dy),
        GridOp::SetOriginMode(b) => step_set_origin_mode(g, b),
        GridOp::SaveCursor => step_save_cursor(g),
        GridOp::RestoreCursor => step_restore_cursor(g),
        GridOp::RestoreCursorPosition => step_restore_cursor_position(g),
        GridOp::SetScrollRegion(t, b) => step_set_scroll_region(g, t, b),
        GridOp::SetCursor(x, y, v) => step_set_cursor(g, x, y, v),
        GridOp::ReverseLinefeed => step_reverse_linefeed(g),
        GridOp::NextLine => step_next_line(g),
        GridOp::UseAltScreen => step_use_alt_screen(g),
        GridOp::UseMainScreen => step_use_main_screen(g),
        GridOp::BeginSync => step_begin_sync(g),
        GridOp::EndSync => step_end_sync(g),
        GridOp::TakeDirty => step_take_dirty(g),
        GridOp::Reset => step_reset(g),
        GridOp::SetPen(p) => step_set_pen(g, p),
        GridOp::SetCharsets(c) => step_set_charsets(g, c),
        GridOp::SetBell(b) => step_set_bell(g, b),
        GridOp::QueueResponse(r) => step_queue_response(g, r),
    }
}

/// The grid after the operations, in order.
pub open spec fn apply_ops(g: GridView, ops: Seq<GridOp>) -> GridView
    decreases ops.len(),
{
    if ops.len() == 0 {
        g
    } else {
        apply_op(apply_ops(g, ops.drop_last()), ops.last())
    }
}

/// What an operation keeps: the size always; the main screen and saved
/// cursor held during the alternate screen unless it saves the cursor,
/// leaves the alternate screen or resets; the frozen frame of synchronized
/// output unless it ends it or resets.
pub open spec fn op_keeps(g: GridView, op: GridOp) -> bool {
    let h = apply_op(g, op);
    &&& same_size(h, g)
    &&& g.history.alt_screen is Some && !(op is SaveCursor || op is UseMainScreen || op is Reset) ==> {
        &&& h.history.alt_screen == g.history.alt_screen
        &&& h.cur.saved == g.cur.saved
    }
    &&& g.modes.synchronized_output && !(op is EndSync || op is Reset) ==> {
        &&& h.modes.synchronized_output
        &&& h.history.sync_snapshot == g.history.sync_snapshot
        &&& h.history.sync_cursor_snapshot == g.history.sync_cursor_snapshot
    }
}

proof fn lemma_frames_put_char(g: GridView, c: char)
    ensures
        op_keeps(g, GridOp::PutChar(c)),
{
    reveal(step_put_char);
    lemma_put_char_keeps_size(g, c);
}

proof fn lemma_frames_scroll_up(g: GridView, n: nat)
    ensures
        op_keeps(g, GridOp::ScrollUp(n)),
{
    reveal(step_scroll_up);
    lemma_scroll_up_size(g, n);
}

proof fn lemma_frames_scroll_down(g: GridView, n: nat)
    ensures
        op_keeps(g, GridOp::ScrollDown(n)),
{
    reveal(step_scroll_down);
    lemma_scroll_down_size(g, n);
}

proof fn lemma_frames_clear_screen(g: GridView)
    ensures
        op_keeps(g, GridOp::ClearScreen),
{
    reveal(step_clear_screen);
    
}

proof fn lemma_frames_clear_line(g: GridView)
    ensures
        op_keeps(g, GridOp::ClearLine),
{
    reveal(step_clear_line);
    
}

proof fn lemma_frames_erase_to_eol(g: GridView)
    ensures
        op_keeps(g, GridOp::EraseToEol),
{
    reveal(step_erase_to_eol);
    
}

proof fn lemma_frames_erase_to_bol(g: GridView)
    ensures
        op_keeps(g, GridOp::EraseToBol),
{
    reveal(step_erase_to_bol);
    
}

proof fn lemma_frames_erase_to_eos(g: GridView)
    ensures
        op_keeps(g, GridOp::EraseToEos),
{
    reveal(step_erase_to_eos);
    
}

#[verifier::rlimit(40)]
proof fn lemma_frames_erase_from_bos(g: GridView)
    ensures
        op_keeps(g, GridOp::EraseFromBos),
{
    reveal(step_erase_from_bos);
    let y = g.cur.cursor.y as int;
    let a = g.erase_rows(0, y);
    assert(keeps_frames(a, g));
    let b = a.erase_to_bol();
    assert(keeps_frames(b, a));
    lemma_frames_trans(b, a, g);
    assert(keeps_frames(b.bump(), b));
    lemma_frames_trans(b.bump(), b, g);
}

proof fn lemma_frames_delete_chars(g: GridView, n: nat)
    ensures
        op_keeps(g, GridOp::DeleteChars(n)),
{
    reveal(step_delete_chars);
    
}

proof fn lemma_frames_insert_chars(g: GridView, n: nat)
    ensures
        op_keeps(g, GridOp::InsertChars(n)),
{
    reveal(step_insert_chars);
    
}

proof fn lemma_frames_erase_chars(g: GridView, n: nat)
    ensures
        op_keeps(g, GridOp::EraseChars(n)),
{
    reveal(step_erase_chars);
    
}

proof fn lemma_frames_goto(g: GridView, x: nat, y: nat)
    ensures
        op_keeps(g, GridOp::Goto(x, y)),
{
    reveal(step_goto);
    
}

proof fn lemma_frames_goto_origin_aware(g: GridView, x: nat, y: nat)
    ensures
        op_keeps(g, GridOp::GotoOriginAware(x, y)),
{
    reveal(step_goto_origin_aware);
    
}

proof fn lemma_frames_move_cursor(g: GridView, dx: int, dy: int)
    ensures
        op_keeps(g, GridOp::MoveCursor(dx, dy)),
{
    reveal(step_move_cursor);
    
}

proof fn lemma_frames_set_origin_mode(g: GridView, b: bool)
    ensures
        op_keeps(g, GridOp::SetOriginMode(b)),
{
    reveal(step_set_origin_mode);
    
}

proof fn lemma_frames_save_cursor(g: GridView)
    ensures
        op_keeps(g, GridOp::SaveCursor),
{
    reveal(step_save_cursor);
    
}

proof fn lemma_frames_restore_cursor(g: GridView)
    ensures
        op_keeps(g, GridOp::RestoreCursor),
{
    reveal(step_restore_cursor);
    
}

proof fn lemma_frames_restore_cursor_position(g: GridView)
    ensures
        op_keeps(g, GridOp::RestoreCursorPosition),
{
    reveal(step_restore_cursor_position);
    
}

proof fn lemma_frames_set_scroll_region(g: GridView, t: nat, b: nat)
    ensures
        op_keeps(g, GridOp::SetScrollRegion(t, b)),
{
    reveal(step_set_scroll_region);
    
}

proof fn lemma_frames_set_cursor(g: GridView, x: nat, y: nat, v: bool)
    ensures
        op_keeps(g, GridOp::SetCursor(x, y, v)),
{
    reveal(step_set_cursor);
    
}

proof fn lemma_frames_reverse_linefeed(g: GridView)
    ensures
        op_keeps(g, GridOp::ReverseLinefeed),
{
    reveal(step_reverse_linefeed);
    lemma_reverse_linefeed_size(g);
}

proof fn lemma_frames_next_line(g: GridView)
    ensures
        op_keeps(g, GridOp::NextLine),
{
    reveal(step_next_line);
    lemma_next_line_size(g);
}

proof fn lemma_frames_use_alt_screen(g: GridView)
    ensures
        op_keeps(g, GridOp::UseAltScreen),
{
    reveal(step_use_alt_screen);
    
}

#[verifier::rlimit(40)]
proof fn lemma_frames_use_main_screen(g: GridView)
    ensures
        op_keeps(g, GridOp::UseMainScreen),
{
    reveal(step_use_main_screen);
    if let Some(main) = g.history.alt_screen {
        let cols = g.screen.cols;
        let n = g.screen.rows_count;
        let g1 = g.with_rows(fit_screen(main, n, cols));
        assert(same_size(g1, g) && g1.modes == g.modes && g1.history.sync_snapshot == g.history.sync_snapshot
            && g1.history.sync_cursor_snapshot == g.history.sync_cursor_snapshot);
        let g2 = g1.with_history(HistoryView { alt_screen: None, ..g1.history }).restore_cursor();
        assert(same_size(g2, g) && g2.modes == g.modes && g2.history.sync_snapshot == g.history.sync_snapshot
            && g2.history.sync_cursor_snapshot == g.history.sync_cursor_snapshot);
        let g3 = g2.with_cursor_xy(
            min_nat(g2.cur.cursor.x as nat, last_index(cols)),
            min_nat(g2.cur.cursor.y as nat, last_index(n)),
        ).with_region(0, last_index(n));
        assert(same_size(g3, g) && g3.modes == g.modes && g3.history == g2.history);
        assert(g.use_main_screen() == g3.bump().mark_all_dirty());
    }
}

proof fn lemma_frames_begin_sync(g: GridView)
    ensures
        op_keeps(g, GridOp::BeginSync),
{
    reveal(step_begin_sync);
    
}

proof fn lemma_frames_end_sync(g: GridView)
    ensures
        op_keeps(g, GridOp::EndSync),
{
    reveal(step_end_sync);
    
}

proof fn lemma_frames_take_dirty(g: GridView)
    ensures
        op_keeps(g, GridOp::TakeDirty),
{
    reveal(step_take_dirty);
    
}

proof fn lemma_frames_reset(g: GridView)
    ensures
        op_keeps(g, GridOp::Reset),
{
    reveal(step_reset);
    
}

proof fn lemma_frames_set_pen(g: GridView, p: Pen)
    ensures
        op_keeps(g, GridOp::SetPen(p)),
{
    reveal(step_set_pen);
    
}

proof fn lemma_frames_set_charsets(g: GridView, c: Charsets)
    ensures
        op_keeps(g, GridOp::SetCharsets(c)),
{
    reveal(step_set_charsets);
    
}

proof fn lemma_frames_set_bell(g: GridView, b: bool)
    ensures
        op_keeps(g, GridOp::SetBell(b)),
{
    reveal(step_set_bell);
    
}

proof fn lemma_frames_queue_response(g: GridView, r: Seq<char>)
    ensures
        op_keeps(g, GridOp::QueueResponse(r)),
{
    reveal(step_queue_response);
    
}

proof fn lemma_op_frames(g: GridView, op: GridOp)
    ensures
        op_keeps(g, op),
{
    match op {
        GridOp::PutChar(c) => lemma_frames_put_char(g, c),
        GridOp::ScrollUp(n) => lemma_frames_scroll_up(g, n),
        GridOp::ScrollDown(n) => lemma_frames_scroll_down(g, n),
        GridOp::ClearScreen => lemma_frames_clear_screen(g),
        GridOp::ClearLine => lemma_frames_clear_line(g),
        GridOp::EraseToEol => lemma_frames_erase_to_eol(g),
        GridOp::EraseToBol => lemma_frames_erase_to_bol(g),
        GridOp::EraseToEos => lemma_frames_erase_to_eos(g),
        GridOp::EraseFromBos => lemma_frames_erase_from_bos(g),
        GridOp::DeleteChars(n) => lemma_frames_delete_chars(g, n),
        GridOp::InsertChars(n) => lemma_frames_insert_chars(g, n),
        GridOp::EraseChars(n) => lemma_frames_erase_chars(g, n),
        GridOp::Goto(x, y) => lemma_frames_goto(g, x, y),
        GridOp::GotoOriginAware(x, y) => lemma_frames_goto_origin_aware(g, x, y),
        GridOp::MoveCursor(dx, dy) => lemma_frames_move_cursor(g, dx, dy),
        GridOp::SetOriginMode(b) => lemma_frames_set_origin_mode(g, b),
        GridOp::SaveCursor => lemma_frames_save_cursor(g),
        GridOp::RestoreCursor => lemma_frames_restore_cursor(g),
        GridOp::RestoreCursorPosition => lemma_frames_restore_cursor_position(g),
        GridOp::SetScrollRegion(t, b) => lemma_frames_set_scroll_region(g, t, b),
        GridOp::SetCursor(x, y, v) => lemma_frames_set_cursor(g, x, y, v),
        GridOp::ReverseLinefeed => lemma_frames_reverse_linefeed(g),
        GridOp::NextLine => lemma_frames_next_line(g),
        GridOp::UseAltScreen => lemma_frames_use_alt_screen(g),
        GridOp::UseMainScreen => lemma_frames_use_main_screen(g),
        GridOp::BeginSync => lemma_frames_begin_sync(g),
        GridOp::EndSync => lemma_frames_end_sync(g),
        GridOp::TakeDirty => lemma_frames_take_dirty(g),
        GridOp::Reset => lemma_frames_reset(g),
        GridOp::SetPen(p) => lemma_frames_set_pen(g, p),
        GridOp::SetCharsets(c) => lemma_frames_set_charsets(g, c),
        GridOp::SetBell(b) => lemma_frames_set_bell(g, b),
        GridOp::QueueResponse(r) => lemma_frames_queue_response(g, r),
    }
}

proof fn lemma_ops_frames(g: GridView, ops: Seq<GridOp>)
    ensures
        same_size(apply_ops(g, ops), g),
        g.history.alt_screen is Some && (forall|i: int|
            0 <= i < ops.len() ==> !(#[trigger] ops[i] is SaveCursor || ops[i] is UseMainScreen
                || ops[i] is Reset)) ==> {
            &&& apply_ops(g, ops).history.alt_screen == g.history.alt_screen
            &&& apply_ops(g, ops).cur.saved == g.cur.saved
        },
        g.modes.synchronized_output && (forall|i: int|
            0 <= i < ops.len() ==> !(#[trigger] ops[i] is EndSync || ops[i] is Reset)) ==> {
            &&& apply_ops(g, ops).modes.synchronized_output
            &&& apply_ops(g, ops).history.sync_snapshot == g.history.sync_snapshot
            &&& apply_ops(g, ops).history.sync_cursor_snapshot == g.history.sync_cursor_snapshot
        },
    decreases ops.len(),
{
    if ops.len() > 0 {
        let prev = ops.drop_last();
        lemma_ops_frames(g, prev);
        lemma_op_frames(apply_ops(g, prev), ops.last());
        assert(apply_ops(g, ops) == apply_op(apply_ops(g, prev), ops.last()));
        assert forall|i: int| 0 <= i < prev.len() implies prev[i] == ops[i] by {}
        assert(ops.last() == ops[ops.len() - 1]);
    }
}

/// Leaving the alternate screen restores the screen, the cursor and the
/// pen as they were when it was entered, whatever was done on the
/// alternate screen meanwhile short of saving the cursor, leaving the
/// alternate screen or resetting; the scroll region becomes the whole
/// screen and every row is marked changed.
pub proof fn lemma_alt_screen_session(g: GridView, ops: Seq<GridOp>)
    requires
        g.wf(),
        g.history.alt_screen is None,
        forall|i: int|
            0 <= i < ops.len() ==> !(#[trigger] ops[i] is SaveCursor || ops[i] is UseMainScreen
                || ops[i] is Reset),
    ensures
        ({
            let h = apply_ops(g.use_alt_screen(), ops).use_main_screen();
            &&& h.screen.rows == g.screen.rows
            &&& h.cur.cursor == g.cur.cursor
            &&& h.pen == g.pen
            &&& h.cur.top == 0
            &&& h.cur.bottom == last_index(g.screen.rows_count)
            &&& h.history.alt_screen is None
            &&& h.screen.dirty_flag
            &&& forall|j: int| 0 <= j < h.screen.dirty_rows.len() ==> #[trigger] h.screen.dirty_rows[j]
        }),
{
    let a = g.use_alt_screen();
    assert(a.history.alt_screen == Some(g.screen.rows));
    assert(a.cur.saved == Some(g.saved_state()));
    lemma_ops_frames(a, ops);
    let x = apply_ops(a, ops);
    let h = x.use_main_screen();
    let r = h.screen.rows;
    assert forall|j: int| 0 <= j < g.screen.rows.len() implies r[j] == g.screen.rows[j] by {
        assert(g.screen.rows[j].len() == g.screen.cols);
        assert(r[j] =~= g.screen.rows[j]);
    }
    assert(r =~= g.screen.rows);
}

/// While synchronized output is on, what is rendered stays the frame
/// frozen when it began (screen and cursor), whatever is written
/// meanwhile, short of ending it or resetting.
pub proof fn lemma_frozen_frame(g: GridView, ops: Seq<GridOp>)
    requires
        !g.modes.synchronized_output,
        forall|i: int| 0 <= i < ops.len() ==> !(#[trigger] ops[i] is EndSync || ops[i] is Reset),
    ensures
        apply_ops(g.begin_synchronized_output(), ops).modes.synchronized_output,
        apply_ops(g.begin_synchronized_output(), ops).history.sync_snapshot == Some(g.screen.rows),
        apply_ops(g.begin_synchronized_output(), ops).history.sync_cursor_snapshot == Some(g.cur.cursor),
{
    lemma_ops_frames(g.begin_synchronized_output(), ops);
}

} // verus!
