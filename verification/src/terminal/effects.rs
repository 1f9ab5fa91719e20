use vstd::prelude::*;

use super::ansi_handler::{csi, execute_byte, sgr, sgr_run};
use super::model::{last_index, lemma_scroll_up_steps_frame};
use super::cell::{CellAttributes, Color, NamedColor, TerminalCell};
use super::model::{DecModes, Pen, GridView};

verus! {

/// A cell left by erasing: a space, white on the pen's background, with no
/// attribute set.
pub open spec fn is_erased(cell: TerminalCell, bg: Color) -> bool {
    &&& cell.c == ' '
    &&& cell.fg == Color::Named(NamedColor::White)
    &&& cell.bg == bg
    &&& !cell.wide
    &&& cell.attrs == (CellAttributes {
        bold: false,
        dim: false,
        italic: false,
        underline: false,
        blink: false,
        reverse: false,
        hidden: false,
        strikethrough: false,
    })
}

/// A cell of a fresh line: a space in the default colors with no
/// attribute set.
pub open spec fn is_blank(cell: TerminalCell) -> bool {
    &&& cell.c == ' '
    &&& cell.fg == Color::Default
    &&& cell.bg == Color::Default
    &&& !cell.wide
    &&& cell.attrs == (CellAttributes {
        bold: false,
        dim: false,
        italic: false,
        underline: false,
        blink: false,
        reverse: false,
        hidden: false,
        strikethrough: false,
    })
}

/// Erasing to the end of the screen (`CSI J`, `CSI 0 J`): the cursor row
/// is erased from the cursor on, every row below it is erased entirely,
/// the part of the cursor row before the cursor and every row above stay
/// as they were, and the cursor does not move.
pub proof fn lemma_erase_to_eos(g: GridView)
    requires
        g.wf(),
        g.screen.rows_count > 0,
    ensures
        ({
            let h = g.erase_to_eos();
            let x = g.cur.cursor.x as int;
            let y = g.cur.cursor.y as int;
            &&& h.screen.rows.len() == g.screen.rows.len()
            &&& h.cur == g.cur
            &&& forall|j: int| 0 <= j < h.screen.rows.len() ==> (#[trigger] h.screen.rows[j]).len() == g.screen.cols
            &&& forall|i: int| x <= i < g.screen.cols ==> is_erased(#[trigger] h.screen.rows[y][i], g.pen.bg)
            &&& forall|i: int| 0 <= i < x ==> #[trigger] h.screen.rows[y][i] == g.screen.rows[y][i]
            &&& forall|j: int, i: int|
                y < j < g.screen.rows_count && 0 <= i < g.screen.cols ==> is_erased(
                    #[trigger] h.screen.rows[j][i],
                    g.pen.bg,
                )
            &&& forall|j: int| 0 <= j < y ==> #[trigger] h.screen.rows[j] == g.screen.rows[j]
        }),
{
    let y = g.cur.cursor.y as int;
    assert(g.screen.rows[y].len() == g.screen.cols);
    let h = g.erase_to_eos();
    assert forall|j: int| 0 <= j < h.screen.rows.len() implies (#[trigger] h.screen.rows[j]).len() == g.screen.cols by {
        assert(g.screen.rows[j].len() == g.screen.cols);
    }
    assert forall|j: int, i: int|
        y < j < g.screen.rows_count && 0 <= i < g.screen.cols implies is_erased(
            #[trigger] h.screen.rows[j][i],
            g.pen.bg,
        ) by {
        assert(g.screen.rows[j].len() == g.screen.cols);
    }
}

/// A reverse line feed (`ESC M`) on the top row of the scroll region
/// scrolls the region down: a blank row enters at the region's top, the
/// region's other rows each move one row down (its bottom row is dropped),
/// the rows outside the region stay, and the cursor stays. Elsewhere above
/// the top row the cursor moves up one row and the screen stays.
pub proof fn lemma_reverse_linefeed(g: GridView)
    requires
        g.wf(),
        g.screen.rows_count > 0,
    ensures
        ({
            let h = g.reverse_linefeed();
            let top = g.cur.top as int;
            let bottom = g.cur.bottom as int;
            g.cur.cursor.y == g.cur.top ==> {
                &&& h.cur.cursor == g.cur.cursor
                &&& h.screen.rows.len() == g.screen.rows.len()
                &&& h.screen.rows[top].len() == g.screen.cols
                &&& forall|i: int| 0 <= i < g.screen.cols ==> is_blank(#[trigger] h.screen.rows[top][i])
                &&& forall|j: int| top < j <= bottom ==> #[trigger] h.screen.rows[j] == g.screen.rows[j - 1]
                &&& forall|j: int|
                    0 <= j < g.screen.rows_count && (j < top || bottom < j) ==> #[trigger] h.screen.rows[j]
                        == g.screen.rows[j]
            }
        }),
        g.cur.cursor.y != g.cur.top && g.cur.cursor.y > 0 ==> {
            &&& g.reverse_linefeed().cur.cursor.y == g.cur.cursor.y - 1
            &&& g.reverse_linefeed().cur.cursor.x == g.cur.cursor.x
            &&& g.reverse_linefeed().screen.rows == g.screen.rows
        },
{
    if g.cur.cursor.y == g.cur.top {
        let once = g.scroll_down_once();
        assert(g.scroll_down_steps(1) == g.scroll_down_steps(0).scroll_down_once());
        assert(g.scroll_down_steps(0) == g);
        let top = g.cur.top as int;
        let bottom = g.cur.bottom as int;
        let r = g.screen.rows.remove(bottom).insert(top, super::model::blank_row(g.screen.cols));
        assert(once.screen.rows == r);
    }
}

/// Select Graphic Rendition with one code: 30-37 set the foreground and
/// 40-47 the background to black, red, green, yellow, blue, magenta, cyan
/// or white; 90-97 and 100-107 to their bright forms; every other part of
/// the pen stays.
pub proof fn lemma_sgr_colors(pen: Pen, p: u16)
    ensures
        ({
            let r = sgr(pen, seq![seq![p]]);
            let k = if 30 <= p <= 37 { p - 30 } else if 40 <= p <= 47 { p - 40 } else if 90 <= p <= 97 {
                p - 90
            } else {
                p - 100
            };
            let named = if k == 0 {
                NamedColor::Black
            } else if k == 1 {
                NamedColor::Red
            } else if k == 2 {
                NamedColor::Green
            } else if k == 3 {
                NamedColor::Yellow
            } else if k == 4 {
                NamedColor::Blue
            } else if k == 5 {
                NamedColor::Magenta
            } else if k == 6 {
                NamedColor::Cyan
            } else {
                NamedColor::White
            };
            let bright = if k == 0 {
                NamedColor::BrightBlack
            } else if k == 1 {
                NamedColor::BrightRed
            } else if k == 2 {
                NamedColor::BrightGreen
            } else if k == 3 {
                NamedColor::BrightYellow
            } else if k == 4 {
                NamedColor::BrightBlue
            } else if k == 5 {
                NamedColor::BrightMagenta
            } else if k == 6 {
                NamedColor::BrightCyan
            } else {
                NamedColor::BrightWhite
            };
            &&& 30 <= p <= 37 ==> r == Pen { fg: Color::Named(named), ..pen }
            &&& 40 <= p <= 47 ==> r == Pen { bg: Color::Named(named), ..pen }
            &&& 90 <= p <= 97 ==> r == Pen { fg: Color::Named(bright), ..pen }
            &&& 100 <= p <= 107 ==> r == Pen { bg: Color::Named(bright), ..pen }
        }),
{
    let ps = seq![seq![p]];
    reveal_with_fuel(sgr_run, 2);
}

/// `CSI p m` with one color code changes only the pen, as `sgr` does with
/// that code, and leaves the screen and cursor as they were.
pub proof fn lemma_csi_sgr_changes_pen(g: GridView, p: u16)
    ensures
        csi(g, seq![seq![p]], Seq::empty(), false, 'm') == (GridView { pen: sgr(g.pen, seq![seq![p]]), ..g }),
{
}

/// Erasing within the cursor row (`CSI K`, `CSI 1 K`, `CSI 2 K`): to the
/// end of the line erases from the cursor on, to the beginning erases up to
/// and including the cursor, the whole line erases every cell; the rest of
/// the row, every other row and the cursor stay.
pub proof fn lemma_erase_in_line(g: GridView)
    requires
        g.wf(),
        g.screen.rows_count > 0,
    ensures
        ({
            let x = g.cur.cursor.x as int;
            let y = g.cur.cursor.y as int;
            let eol = g.erase_to_eol();
            let bol = g.erase_to_bol();
            let all = g.clear_line();
            &&& eol.cur == g.cur && bol.cur == g.cur && all.cur == g.cur
            &&& eol.screen.rows.len() == g.screen.rows.len() && bol.screen.rows.len() == g.screen.rows.len()
                && all.screen.rows.len() == g.screen.rows.len()
            &&& eol.screen.rows[y].len() == g.screen.cols && bol.screen.rows[y].len() == g.screen.cols
                && all.screen.rows[y].len() == g.screen.cols
            &&& forall|i: int| 0 <= i < g.screen.cols ==> (#[trigger] eol.screen.rows[y][i] == if i < x {
                g.screen.rows[y][i]
            } else {
                eol.screen.rows[y][i]
            }) && (i >= x ==> is_erased(eol.screen.rows[y][i], g.pen.bg))
            &&& forall|i: int| 0 <= i < g.screen.cols ==> (#[trigger] bol.screen.rows[y][i] == if i > x {
                g.screen.rows[y][i]
            } else {
                bol.screen.rows[y][i]
            }) && (i <= x ==> is_erased(bol.screen.rows[y][i], g.pen.bg))
            &&& forall|i: int| 0 <= i < g.screen.cols ==> is_erased(#[trigger] all.screen.rows[y][i], g.pen.bg)
            &&& forall|j: int| 0 <= j < g.screen.rows_count && j != y ==> #[trigger] eol.screen.rows[j]
                == g.screen.rows[j] && bol.screen.rows[j] == g.screen.rows[j] && all.screen.rows[j]
                == g.screen.rows[j]
        }),
{
    let y = g.cur.cursor.y as int;
    assert(g.screen.rows[y].len() == g.screen.cols);
}

/// Erasing the display: the whole screen (`CSI 2 J`) erases every cell;
/// from the beginning (`CSI 1 J`) erases every row above the cursor and the
/// cursor row up to and including the cursor, leaving the rest; the cursor
/// stays.
pub proof fn lemma_erase_display(g: GridView)
    requires
        g.wf(),
        g.screen.rows_count > 0,
        g.screen.cols > 0,
    ensures
        ({
            let x = g.cur.cursor.x as int;
            let y = g.cur.cursor.y as int;
            let all = g.clear_screen();
            let bos = g.erase_from_bos();
            &&& all.cur == g.cur && bos.cur == g.cur
            &&& all.screen.rows.len() == g.screen.rows.len() && bos.screen.rows.len() == g.screen.rows.len()
            &&& forall|j: int| 0 <= j < g.screen.rows_count ==> (#[trigger] all.screen.rows[j]).len() == g.screen.cols
            &&& forall|j: int, i: int|
                0 <= j < g.screen.rows_count && 0 <= i < g.screen.cols ==> is_erased(
                    #[trigger] all.screen.rows[j][i],
                    g.pen.bg,
                )
            &&& forall|j: int, i: int|
                0 <= j < y && 0 <= i < g.screen.cols ==> is_erased(#[trigger] bos.screen.rows[j][i], g.pen.bg)
            &&& forall|i: int| 0 <= i <= x ==> is_erased(#[trigger] bos.screen.rows[y][i], g.pen.bg)
            &&& forall|i: int| x < i < g.screen.cols ==> #[trigger] bos.screen.rows[y][i] == g.screen.rows[y][i]
            &&& forall|j: int| y < j < g.screen.rows_count ==> #[trigger] bos.screen.rows[j] == g.screen.rows[j]
        }),
{
    let y = g.cur.cursor.y as int;
    assert(g.screen.rows[y].len() == g.screen.cols);
    assert forall|j: int| 0 <= j < g.screen.rows_count implies (#[trigger] g.clear_screen().screen.rows[j]).len()
        == g.screen.cols by {
        assert(g.screen.rows[j].len() == g.screen.cols);
    }
    assert forall|j: int, i: int|
        0 <= j < g.screen.rows_count && 0 <= i < g.screen.cols implies is_erased(
            #[trigger] g.clear_screen().screen.rows[j][i],
            g.pen.bg,
        ) by {
        assert(g.screen.rows[j].len() == g.screen.cols);
    }
    assert forall|j: int, i: int|
        0 <= j < y && 0 <= i < g.screen.cols implies is_erased(
            #[trigger] g.erase_from_bos().screen.rows[j][i],
            g.pen.bg,
        ) by {
        assert(g.screen.rows[j].len() == g.screen.cols);
    }
}

/// Deleting, inserting and erasing characters at the cursor (`CSI P`,
/// `CSI @`, `CSI X`), with `k` the count cut to the cells from the cursor
/// to the end of the row: deleting shifts the rest of the row left by `k`
/// and erases the last `k` cells; inserting erases `k` cells at the cursor
/// and shifts the rest right by `k` (the last `k` cells fall off); erasing
/// erases `k` cells at the cursor. Cells before the cursor, other rows and
/// the cursor stay.
pub proof fn lemma_edit_chars(g: GridView, n: nat)
    requires
        g.wf(),
        g.screen.rows_count > 0,
    ensures
        ({
            let x = g.cur.cursor.x as int;
            let y = g.cur.cursor.y as int;
            let cols = g.screen.cols as int;
            let k = if x + n <= cols { n as int } else { cols - x };
            let row = g.screen.rows[y];
            let del = g.delete_chars(n).screen.rows;
            let ins = g.insert_chars(n).screen.rows;
            let era = g.erase_chars(n).screen.rows;
            &&& g.delete_chars(n).cur == g.cur && g.insert_chars(n).cur == g.cur && g.erase_chars(n).cur == g.cur
            &&& del[y].len() == cols && ins[y].len() == cols && era[y].len() == cols
            &&& forall|i: int| 0 <= i < x ==> #[trigger] del[y][i] == row[i] && ins[y][i] == row[i] && era[y][i] == row[i]
            &&& forall|i: int| x <= i < cols - k ==> #[trigger] del[y][i] == row[i + k]
            &&& forall|i: int| cols - k <= i < cols ==> is_erased(#[trigger] del[y][i], g.pen.bg)
            &&& forall|i: int| x <= i < x + k ==> is_erased(#[trigger] ins[y][i], g.pen.bg) && is_erased(era[y][i], g.pen.bg)
            &&& forall|i: int| x + k <= i < cols ==> #[trigger] ins[y][i] == row[i - k] && era[y][i] == row[i]
            &&& forall|j: int| 0 <= j < g.screen.rows_count && j != y ==> #[trigger] del[j] == g.screen.rows[j]
                && ins[j] == g.screen.rows[j] && era[j] == g.screen.rows[j]
        }),
{
    let y = g.cur.cursor.y as int;
    assert(g.screen.rows[y].len() == g.screen.cols);
}

/// Line feed (`LF`, with line-feed/new-line mode off): below the region's
/// bottom row it moves the cursor one row down (staying on the last row);
/// on the region's bottom row it scrolls the region up: each region row
/// takes the text of the row below it, a blank row enters at the bottom,
/// other rows stay, the cursor stays, and on the main screen the line that
/// left the top becomes the newest scrollback line.
pub proof fn lemma_linefeed(g: GridView)
    requires
        g.wf(),
        g.screen.rows_count > 0,
        !g.modes.lnm_mode,
    ensures
        ({
            let h = g.linefeed();
            let y = g.cur.cursor.y as int;
            let top = g.cur.top as int;
            let bottom = g.cur.bottom as int;
            &&& h.cur.cursor.x == g.cur.cursor.x
            &&& !h.cur.wrap_pending
            &&& y != bottom ==> h.screen.rows == g.screen.rows && h.cur.cursor.y == (if y + 1 < g.screen.rows_count {
                y + 1
            } else {
                y
            })
            &&& y == bottom ==> {
                &&& h.cur.cursor.y == y
                &&& h.screen.rows.len() == g.screen.rows.len()
                &&& forall|j: int| top <= j < bottom ==> #[trigger] h.screen.rows[j] == g.screen.rows[j + 1]
                &&& h.screen.rows[bottom].len() == g.screen.cols
                &&& forall|i: int| 0 <= i < g.screen.cols ==> is_blank(#[trigger] h.screen.rows[bottom][i])
                &&& forall|j: int|
                    0 <= j < g.screen.rows_count && (j < top || bottom < j) ==> #[trigger] h.screen.rows[j]
                        == g.screen.rows[j]
                &&& g.history.alt_screen is None && g.history.max_scrollback > 0 ==> h.history.scrollback.last()
                    == g.screen.rows[top]
                &&& g.history.alt_screen is Some ==> h.history.scrollback == g.history.scrollback
            }
        }),
{
    let g0 = g.with_wrap_pending(false);
    if g.cur.cursor.y == g.cur.bottom {
        assert(g0.scroll_up_steps(1) == g0.scroll_up_steps(0).scroll_up_once());
        assert(g0.scroll_up_steps(0) == g0);
        let top = g.cur.top as int;
        let bottom = g.cur.bottom as int;
        let rows1 = g.screen.rows.remove(top);
        let r = rows1.insert(bottom, super::model::blank_row(g.screen.cols));
        assert(g0.scroll_up_once().screen.rows == r);
    }
}

/// Moving the cursor: a carriage return goes to column 0, a backspace one
/// column left (not past column 0), a tab to the next multiple of eight
/// or the last column; `goto` goes to the position asked for, cut to the
/// screen. The screen stays.
pub proof fn lemma_cursor_moves(g: GridView, x: nat, y: nat)
    requires
        g.wf(),
        g.screen.rows_count > 0,
        g.screen.cols > 0,
    ensures
        g.carriage_return().cur.cursor.x == 0 && g.carriage_return().cur.cursor.y == g.cur.cursor.y,
        g.backspace().cur.cursor.x == (if g.cur.cursor.x > 0 { g.cur.cursor.x - 1 } else { 0 }),
        g.backspace().cur.cursor.y == g.cur.cursor.y,
        ({
            let t = g.tab().cur.cursor.x;
            &&& g.cur.cursor.x < t || t == g.screen.cols - 1
            &&& t < g.screen.cols
            &&& (t % 8 == 0 || t == g.screen.cols - 1)
            &&& forall|i: int| g.cur.cursor.x < i < t ==> !on_tab_column(i)
        }),
        g.goto(x, y).cur.cursor.x == (if x < g.screen.cols { x } else { (g.screen.cols - 1) as nat }),
        g.goto(x, y).cur.cursor.y == (if y < g.screen.rows_count { y } else { (g.screen.rows_count - 1) as nat }),
        g.carriage_return().screen.rows == g.screen.rows && g.backspace().screen.rows == g.screen.rows
            && g.tab().screen.rows == g.screen.rows && g.goto(x, y).screen.rows == g.screen.rows,
{
    lemma_next_tab(g.cur.tab_stops, g.cur.cursor.x + 1, g.screen.cols);
}

/// Whether column `i` is one of the default tab stops.
pub open spec fn on_tab_column(i: int) -> bool {
    i % 8 == 0
}

proof fn lemma_next_tab(stops: Seq<bool>, k: int, cols: nat)
    requires
        stops == super::model::default_tab_stops(cols),
        cols > 0,
        0 <= k,
    ensures
        ({
            let t = super::model::next_tab_stop(stops, k, cols);
            &&& k <= t || t == cols - 1
            &&& t < cols
            &&& (t % 8 == 0 || t == cols - 1)
            &&& forall|i: int| k <= i < t ==> !on_tab_column(i)
        }),
    decreases cols - k,
{
    if k < cols && !stops[k] {
        assert(!on_tab_column(k));
        lemma_next_tab(stops, k + 1, cols);
    }
}

/// Cursor movement sequences move by the count (1 when it is missing or
/// 0) and stop at the screen's edges: `CSI n A` up, `B` down, `C` right,
/// `D` left; `CSI r ; c H` (outside origin mode) goes to row `r`, column
/// `c`, counted from 1 and cut to the screen. The screen stays.
pub proof fn lemma_csi_cursor_moves(g: GridView, a: u16, b: u16)
    requires
        g.wf(),
        g.screen.rows_count > 0,
        g.screen.cols > 0,
        !g.modes.origin_mode,
    ensures
        ({
            let n: int = if a == 0 { 1 } else { a as int };
            let m: int = if b == 0 { 1 } else { b as int };
            let x = g.cur.cursor.x as int;
            let y = g.cur.cursor.y as int;
            let rows = g.screen.rows_count as int;
            let cols = g.screen.cols as int;
            let e: Seq<u8> = Seq::empty();
            let up = csi(g, seq![seq![a]], e, false, 'A').cur.cursor;
            let down = csi(g, seq![seq![a]], e, false, 'B').cur.cursor;
            let right = csi(g, seq![seq![a]], e, false, 'C').cur.cursor;
            let left = csi(g, seq![seq![a]], e, false, 'D').cur.cursor;
            let pos = csi(g, seq![seq![a], seq![b]], e, false, 'H').cur.cursor;
            &&& up.y == (if y - n >= 0 { y - n } else { 0 }) && up.x == x
            &&& down.y == (if y + n <= rows - 1 { y + n } else { rows - 1 }) && down.x == x
            &&& right.x == (if x + n <= cols - 1 { x + n } else { cols - 1 }) && right.y == y
            &&& left.x == (if x - n >= 0 { x - n } else { 0 }) && left.y == y
            &&& pos.y == (if n - 1 <= rows - 1 { n - 1 } else { rows - 1 })
            &&& pos.x == (if m - 1 <= cols - 1 { m - 1 } else { cols - 1 })
            &&& csi(g, seq![seq![a], seq![b]], e, false, 'H').screen.rows == g.screen.rows
        }),
{
}

/// Select Graphic Rendition: code 0 (or no code) resets the pen; 1, 2, 3,
/// 4, 5, 7, 8 and 9 set bold, dim, italic, underline, blink, reverse,
/// hidden and strikethrough; 22 clears bold and dim; 39 and 49 restore the
/// default foreground and background; `38;5;n` and `48;5;n` select palette
/// entry `n`, `38;2;r;g;b` and `48;2;r;g;b` a true color; codes apply in
/// order.
pub proof fn lemma_sgr_attributes(pen: Pen, p: u16, q: u16, r: u8, gr: u8, b: u8)
    ensures
        ({
            let plain = CellAttributes {
                bold: false,
                dim: false,
                italic: false,
                underline: false,
                blink: false,
                reverse: false,
                hidden: false,
                strikethrough: false,
            };
            let a = pen.attrs;
            let one = sgr(pen, seq![seq![p]]);
            &&& sgr(pen, Seq::empty()) == (Pen { attrs: plain, fg: Color::Default, bg: Color::Default })
            &&& p == 0 ==> one == (Pen { attrs: plain, fg: Color::Default, bg: Color::Default })
            &&& p == 1 ==> one == Pen { attrs: CellAttributes { bold: true, ..a }, ..pen }
            &&& p == 2 ==> one == Pen { attrs: CellAttributes { dim: true, ..a }, ..pen }
            &&& p == 3 ==> one == Pen { attrs: CellAttributes { italic: true, ..a }, ..pen }
            &&& p == 4 ==> one == Pen { attrs: CellAttributes { underline: true, ..a }, ..pen }
            &&& p == 5 ==> one == Pen { attrs: CellAttributes { blink: true, ..a }, ..pen }
            &&& p == 7 ==> one == Pen { attrs: CellAttributes { reverse: true, ..a }, ..pen }
            &&& p == 8 ==> one == Pen { attrs: CellAttributes { hidden: true, ..a }, ..pen }
            &&& p == 9 ==> one == Pen { attrs: CellAttributes { strikethrough: true, ..a }, ..pen }
            &&& p == 22 ==> one == Pen { attrs: CellAttributes { bold: false, dim: false, ..a }, ..pen }
            &&& p == 39 ==> one == Pen { fg: Color::Default, ..pen }
            &&& p == 49 ==> one == Pen { bg: Color::Default, ..pen }
            &&& sgr(pen, seq![seq![38], seq![5], seq![q]]) == Pen { fg: Color::Indexed(q as u8), ..pen }
            &&& sgr(pen, seq![seq![48], seq![5], seq![q]]) == Pen { bg: Color::Indexed(q as u8), ..pen }
            &&& sgr(pen, seq![seq![38], seq![2], seq![r as u16], seq![gr as u16], seq![b as u16]])
                == Pen { fg: Color::Rgb(r, gr, b), ..pen }
            &&& sgr(pen, seq![seq![48], seq![2], seq![r as u16], seq![gr as u16], seq![b as u16]])
                == Pen { bg: Color::Rgb(r, gr, b), ..pen }
            &&& sgr(pen, seq![seq![1], seq![31]]) == Pen {
                attrs: CellAttributes { bold: true, ..a },
                fg: Color::Named(NamedColor::Red),
                ..pen
            }
        }),
{
    reveal_with_fuel(sgr_run, 3);
    assert((r as u16) as u8 == r && (gr as u16) as u8 == gr && (b as u16) as u8 == b) by (bit_vector);
}

/// A printable character of width one, with no wrap pending, moves
/// the cursor one column right; on the last column the cursor stays there
/// and, with auto-wrap on, the next character wraps.
pub proof fn lemma_put_char_advances(g: GridView, c: char)
    requires
        g.wf(),
        g.screen.cols > 0,
        g.screen.rows_count > 0,
        !super::model::is_control(c),
        super::model::printed_width(g.map_char(c)) == 1,
        !g.cur.wrap_pending,
    ensures
        g.cur.cursor.x + 1 < g.screen.cols ==> g.put_char(c).cur.cursor.x == g.cur.cursor.x + 1
            && !g.put_char(c).cur.wrap_pending,
        g.cur.cursor.x + 1 == g.screen.cols ==> g.put_char(c).cur.cursor.x == g.cur.cursor.x
            && g.put_char(c).cur.wrap_pending == g.modes.auto_wrap_mode,
        g.put_char(c).cur.cursor.y == g.cur.cursor.y,
{
}

/// Whether `row` is a blank line of `cols` cells.
pub open spec fn is_blank_line(row: Seq<TerminalCell>, cols: nat) -> bool {
    &&& row.len() == cols
    &&& forall|i: int| 0 <= i < cols ==> is_blank(#[trigger] row[i])
}

proof fn lemma_blank_row_is_blank(cols: nat)
    ensures
        is_blank_line(super::model::blank_row(cols), cols),
{
}

proof fn lemma_scroll_up_steps_shift(g: GridView, k: nat)
    requires
        g.wf(),
        g.screen.rows_count > 0,
    ensures
        ({
            let h = g.scroll_up_steps(k);
            let top = g.cur.top as int;
            let bottom = g.cur.bottom as int;
            &&& h.screen.rows.len() == g.screen.rows.len()
            &&& forall|j: int| top <= j <= bottom && j + k <= bottom ==> #[trigger] h.screen.rows[j] == g.screen.rows[j + k]
            &&& forall|j: int| top <= j <= bottom && j + k > bottom ==> is_blank_line(#[trigger] h.screen.rows[j], g.screen.cols)
            &&& forall|j: int| 0 <= j < g.screen.rows_count && (j < top || bottom < j) ==> #[trigger] h.screen.rows[j]
                == g.screen.rows[j]
        }),
    decreases k,
{
    if k > 0 {
        let k1 = (k - 1) as nat;
        lemma_scroll_up_steps_shift(g, k1);
        lemma_scroll_up_steps_frame(g, k1);
        lemma_blank_row_is_blank(g.screen.cols);
        let p = g.scroll_up_steps(k1);
        let top = g.cur.top as int;
        let bottom = g.cur.bottom as int;
        let rows1 = p.screen.rows.remove(top);
        rows1.insert_ensures(bottom, super::model::blank_row(g.screen.cols));
        p.screen.rows.remove_ensures(top);
        assert(g.scroll_up_steps(k) == p.scroll_up_once());
    }
}

proof fn lemma_scroll_down_steps_shift(g: GridView, k: nat)
    requires
        g.wf(),
        g.screen.rows_count > 0,
    ensures
        ({
            let h = g.scroll_down_steps(k);
            let top = g.cur.top as int;
            let bottom = g.cur.bottom as int;
            &&& h.screen.rows.len() == g.screen.rows.len()
            &&& forall|j: int| top <= j <= bottom && top + k <= j ==> #[trigger] h.screen.rows[j] == g.screen.rows[j - k]
            &&& forall|j: int| top <= j <= bottom && j < top + k ==> is_blank_line(#[trigger] h.screen.rows[j], g.screen.cols)
            &&& forall|j: int| 0 <= j < g.screen.rows_count && (j < top || bottom < j) ==> #[trigger] h.screen.rows[j]
                == g.screen.rows[j]
        }),
    decreases k,
{
    if k > 0 {
        let k1 = (k - 1) as nat;
        lemma_scroll_down_steps_shift(g, k1);
        super::model::lemma_scroll_down_steps_frame(g, k1);
        lemma_blank_row_is_blank(g.screen.cols);
        let p = g.scroll_down_steps(k1);
        let top = g.cur.top as int;
        let bottom = g.cur.bottom as int;
        let rows1 = p.screen.rows.remove(bottom);
        rows1.insert_ensures(top, super::model::blank_row(g.screen.cols));
        p.screen.rows.remove_ensures(bottom);
        assert(g.scroll_down_steps(k) == p.scroll_down_once());
    }
}

/// Scrolling the region by `n` lines (`CSI n S` up, `CSI n T` down; a
/// missing or zero count is 1): scrolling up gives each region row the
/// text of the row `n` below it and blank lines at the region's bottom;
/// scrolling down gives each region row the text of the row `n` above it
/// and blank lines at the region's top. Rows outside the region and the
/// cursor stay.
pub proof fn lemma_csi_scroll(g: GridView, a: u16)
    requires
        g.wf(),
        g.screen.rows_count > 0,
    ensures
        ({
            let n: int = if a == 0 { 1 } else { a as int };
            let e: Seq<u8> = Seq::empty();
            let up = csi(g, seq![seq![a]], e, false, 'S');
            let down = csi(g, seq![seq![a]], e, false, 'T');
            let top = g.cur.top as int;
            let bottom = g.cur.bottom as int;
            &&& up.cur.cursor == g.cur.cursor && down.cur.cursor == g.cur.cursor
            &&& up.screen.rows.len() == g.screen.rows.len() && down.screen.rows.len() == g.screen.rows.len()
            &&& forall|j: int| top <= j <= bottom && j + n <= bottom ==> #[trigger] up.screen.rows[j] == g.screen.rows[j + n]
            &&& forall|j: int| top <= j <= bottom && j + n > bottom ==> is_blank_line(#[trigger] up.screen.rows[j], g.screen.cols)
            &&& forall|j: int| top <= j <= bottom && top + n <= j ==> #[trigger] down.screen.rows[j] == g.screen.rows[j - n]
            &&& forall|j: int| top <= j <= bottom && j < top + n ==> is_blank_line(#[trigger] down.screen.rows[j], g.screen.cols)
            &&& forall|j: int| 0 <= j < g.screen.rows_count && (j < top || bottom < j) ==>
                #[trigger] up.screen.rows[j] == g.screen.rows[j] && down.screen.rows[j] == g.screen.rows[j]
        }),
{
    let n: nat = if a == 0 { 1 } else { a as nat };
    lemma_scroll_up_steps_shift(g, n);
    lemma_scroll_down_steps_shift(g, n);
    lemma_scroll_up_steps_frame(g, n);
    super::model::lemma_scroll_down_steps_frame(g, n);
}

/// Setting the scroll region (`CSI t ; b r`, counted from 1): rows `t`
/// to `b` become the region when `t` is above `b` on the screen, and the
/// whole screen when `t` is not above `b` and not the last row; the cursor goes home (to the region's top in
/// origin mode). The screen stays.
pub proof fn lemma_csi_scroll_region(g: GridView, a: u16, b: u16)
    requires
        g.wf(),
        g.screen.rows_count > 0,
        1 <= a <= g.screen.rows_count,
        1 <= b <= g.screen.rows_count,
    ensures
        ({
            let e: Seq<u8> = Seq::empty();
            let h = csi(g, seq![seq![a], seq![b]], e, false, 'r');
            let last = g.screen.rows_count - 1;
            &&& a < b ==> h.cur.top == a - 1 && h.cur.bottom == b - 1
            &&& a >= b && a < g.screen.rows_count ==> h.cur.top == 0 && h.cur.bottom == last
            &&& h.cur.cursor.x == 0
            &&& h.cur.cursor.y == (if g.modes.origin_mode { h.cur.top as int } else { 0 })
            &&& h.screen.rows == g.screen.rows
        }),
{
    lemma_csi_r_sets_region(g, a, b);
    let t = (a - 1) as nat;
    let bt = (b - 1) as nat;
    let h = g.set_scroll_region(t, bt);
    assert(h.screen.rows == g.screen.rows);
}

proof fn lemma_csi_r_sets_region(g: GridView, a: u16, b: u16)
    requires
        1 <= a,
        1 <= b,
    ensures
        csi(g, seq![seq![a], seq![b]], Seq::empty(), false, 'r') == g.set_scroll_region(
            (a - 1) as nat,
            (b - 1) as nat,
        ),
{
    let ps = seq![seq![a], seq![b]];
    assert(super::ansi_handler::param_or(ps, 0, 1) == a);
    assert(super::ansi_handler::param_or(ps, 1, g.screen.rows_count as u16) == b);
}

/// In origin mode, `CSI r ; c H` counts rows from the scroll region's top
/// and stops at its bottom (a missing or zero count is 1); the column is
/// cut to the screen.
pub proof fn lemma_csi_origin_goto(g: GridView, r: u16, c: u16)
    requires
        g.wf(),
        g.screen.rows_count > 0,
        g.screen.cols > 0,
        g.modes.origin_mode,
    ensures
        ({
            let e: Seq<u8> = Seq::empty();
            let m = csi(g, seq![seq![r], seq![c]], e, false, 'H');
            let n: int = if r == 0 { 1 } else { r as int };
            let k: int = if c == 0 { 1 } else { c as int };
            &&& m.cur.cursor.y == (if g.cur.top + n - 1 <= g.cur.bottom { g.cur.top + n - 1 } else { g.cur.bottom as int })
            &&& m.cur.cursor.x == (if k - 1 <= g.screen.cols - 1 { k - 1 } else { g.screen.cols - 1 })
            &&& m.screen.rows == g.screen.rows
        }),
{
    lemma_csi_h_goes(g, r, c);
}

proof fn lemma_csi_h_goes(g: GridView, r: u16, c: u16)
    ensures
        csi(g, seq![seq![r], seq![c]], Seq::empty(), false, 'H') == g.goto_origin_aware(
            ((if c == 0 { 1 } else { c as int }) - 1) as nat,
            ((if r == 0 { 1 } else { r as int }) - 1) as nat,
        ),
{
    let ps = seq![seq![r], seq![c]];
    assert(super::ansi_handler::param_or(ps, 0, 1) == (if r == 0 { 1 } else { r }));
    assert(super::ansi_handler::param_or(ps, 1, 1) == (if c == 0 { 1 } else { c }));
}

/// Setting (`CSI ? n h`, `on`) or resetting (`CSI ? n l`) a DEC private
/// mode flag: 1 application cursor keys, 7 auto-wrap, 1000 normal mouse
/// tracking, 1002 button tracking, 1003 any-event tracking, 1004 focus
/// events, 1005 UTF-8 mouse, 1006 SGR mouse, 1015 urxvt mouse, 2004
/// bracketed paste; the other flags stay. `CSI 4 h` / `CSI 4 l` set or
/// reset insert mode and `CSI 20 h` / `CSI 20 l` line-feed/new-line mode.
pub proof fn lemma_mode_flags(g: GridView, p: u16, on: bool)
    ensures
        ({
            let m = g.modes;
            let f: char = if on { 'h' } else { 'l' };
            let h = csi(g, seq![seq![p]], seq![63u8], false, f).modes;
            let a = csi(g, seq![seq![p]], Seq::empty(), false, f).modes;
            &&& p == 1 ==> h == DecModes { application_cursor_keys: on, ..m }
            &&& p == 7 ==> h == DecModes { auto_wrap_mode: on, ..m }
            &&& p == 1000 ==> h == DecModes { mouse_normal_tracking: on, ..m }
            &&& p == 1002 ==> h == DecModes { mouse_button_tracking: on, ..m }
            &&& p == 1003 ==> h == DecModes { mouse_any_event_tracking: on, ..m }
            &&& p == 1004 ==> h == DecModes { focus_event_mode: on, ..m }
            &&& p == 1005 ==> h == DecModes { mouse_utf8_mode: on, ..m }
            &&& p == 1006 ==> h == DecModes { mouse_sgr_mode: on, ..m }
            &&& p == 1015 ==> h == DecModes { mouse_urxvt_mode: on, ..m }
            &&& p == 2004 ==> h == DecModes { bracketed_paste_mode: on, ..m }
            &&& p == 4 ==> a == DecModes { insert_mode: on, ..m }
            &&& p == 20 ==> a == DecModes { lnm_mode: on, ..m }
        }),
{
    lemma_private_mode_one(g, p, on);
    lemma_ansi_mode_one(g, p, on);
    reveal(super::ansi_handler::dec_flag);
}

proof fn lemma_private_mode_one(g: GridView, p: u16, on: bool)
    ensures
        csi(g, seq![seq![p]], seq![63u8], false, if on { 'h' } else { 'l' }) == super::ansi_handler::dec_mode(
            g,
            p,
            on,
        ),
{
    let ps = seq![seq![p]];
    assert(super::ansi_handler::dec_modes(g, ps, 0, on) == g);
}

proof fn lemma_ansi_mode_one(g: GridView, p: u16, on: bool)
    ensures
        csi(g, seq![seq![p]], Seq::empty(), false, if on { 'h' } else { 'l' }) == super::ansi_handler::ansi_mode(
            g,
            p,
            on,
        ),
{
    let ps = seq![seq![p]];
    assert(super::ansi_handler::ansi_modes(g, ps, 0, on) == g);
}

/// Printing writes with the pen: a character of width one, with no wrap
/// pending, fills the cursor cell with the (mapped) character in the pen's
/// colors and attributes, not wide; a character of width two, with room
/// for both columns, fills the cursor cell with it marked wide and the
/// next cell with a space in the pen's colors, and moves two columns right
/// (to the last column, where the next character wraps with auto-wrap on,
/// when it reaches the edge). Every other cell stays.
pub proof fn lemma_print_writes_pen(g: GridView, c: char)
    requires
        g.wf(),
        g.screen.cols > 0,
        g.screen.rows_count > 0,
        !super::model::is_control(c),
        !g.cur.wrap_pending,
    ensures
        ({
            let h = g.put_char(c);
            let m = g.map_char(c);
            let w = super::model::printed_width(m);
            let x = g.cur.cursor.x as int;
            let y = g.cur.cursor.y as int;
            let pen = g.pen;
            &&& w == 1 ==> h.screen.rows[y][x] == (TerminalCell {
                c: m,
                fg: pen.fg,
                bg: pen.bg,
                attrs: pen.attrs,
                wide: false,
            })
            &&& w == 1 ==> forall|j: int, i: int|
                0 <= j < g.screen.rows_count && 0 <= i < g.screen.cols && (j != y || i != x)
                    ==> #[trigger] h.screen.rows[j][i] == g.screen.rows[j][i]
            &&& (w == 2 && x + 1 < g.screen.cols) ==> {
                &&& h.screen.rows[y][x] == (TerminalCell {
                    c: m,
                    fg: pen.fg,
                    bg: pen.bg,
                    attrs: pen.attrs,
                    wide: true,
                })
                &&& h.screen.rows[y][x + 1] == (TerminalCell {
                    c: ' ',
                    fg: pen.fg,
                    bg: pen.bg,
                    attrs: pen.attrs,
                    wide: false,
                })
                &&& h.cur.cursor.y == y
                &&& h.cur.cursor.x == (if x + 2 < g.screen.cols { x + 2 } else { g.screen.cols - 1 })
                &&& forall|j: int, i: int|
                    0 <= j < g.screen.rows_count && 0 <= i < g.screen.cols && (j != y || (i != x && i != x + 1))
                        ==> #[trigger] h.screen.rows[j][i] == g.screen.rows[j][i]
            }
        }),
{
    let y = g.cur.cursor.y as int;
    assert(g.screen.rows[y].len() == g.screen.cols);
}

/// The escape sequences that move by lines: `ESC D` (index) is a line
/// feed, `ESC M` (reverse index) a reverse line feed, and `ESC E` (next
/// line) a carriage return followed by a line feed.
pub proof fn lemma_esc_line_moves(g: GridView)
    requires
        g.wf(),
        g.screen.rows_count > 0,
    ensures
        super::ansi_handler::esc(g, Seq::empty(), 0x44) == g.linefeed(),
        super::ansi_handler::esc(g, Seq::empty(), 0x4d) == g.reverse_linefeed(),
        super::ansi_handler::esc(g, Seq::empty(), 0x45) == g.carriage_return().linefeed(),
{
}

/// The control characters: BEL rings the bell and changes nothing else;
/// LF and VT are line feeds; CR returns to column 0 on the same row; FF
/// erases every cell and puts the cursor home; SO makes G1 the active
/// character set and SI makes G0 active again.
pub proof fn lemma_control_bytes(g: GridView)
    requires
        g.wf(),
        g.screen.rows_count > 0,
        g.screen.cols > 0,
    ensures
        ({
            let bel = execute_byte(g, 0x07);
            let cr = execute_byte(g, 0x0d);
            let ff = execute_byte(g, 0x0c);
            &&& bel.bell_pending && bel.screen == g.screen && bel.cur == g.cur && bel.pen == g.pen
            &&& execute_byte(g, 0x0a) == g.linefeed() && execute_byte(g, 0x0b) == g.linefeed()
            &&& cr.cur.cursor.x == 0 && cr.cur.cursor.y == g.cur.cursor.y && cr.screen.rows == g.screen.rows
            &&& ff.cur.cursor.x == 0 && ff.cur.cursor.y == 0
            &&& ff.screen.rows.len() == g.screen.rows_count
            &&& forall|j: int, i: int|
                0 <= j < g.screen.rows_count && 0 <= i < g.screen.cols ==> is_erased(
                    #[trigger] ff.screen.rows[j][i],
                    g.pen.bg,
                )
            &&& execute_byte(g, 0x0e).active_charset() == g.charsets.g1
            &&& execute_byte(g, 0x0f).active_charset() == g.charsets.g0
        }),
{
    lemma_erase_display(g);
}

} // verus!
