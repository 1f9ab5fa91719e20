use std::collections::VecDeque;
use vstd::prelude::*;

use crate::terminal::cell::TerminalCell;
use crate::terminal::grid::TerminalGrid;
use crate::terminal::model::{rows_view, GridView};
use crate::text::{chars_to_string, decimal2, digit_char, push_decimal2};

verus! {

/// The digit of every column number `c` below `cols` at the place `div`
/// (1, 10 or 100).
pub open spec fn header_digits(cols: nat, div: nat) -> Seq<char> {
    Seq::new(cols, |c: int| digit_char(((c / div as int) % 10) as nat))
}

/// The column-number header: three rows of digits (hundreds only when
/// there are more than 100 columns), each indented by three spaces.
pub open spec fn column_header(cols: nat) -> Seq<char> {
    (if cols > 100 {
        seq![' ', ' ', ' '] + header_digits(cols, 100) + seq!['\n']
    } else {
        Seq::empty()
    }) + seq![' ', ' ', ' '] + header_digits(cols, 10) + seq!['\n'] + seq![' ', ' ', ' ']
        + header_digits(cols, 1) + seq!['\n']
}

/// The index past the last non-space cell among the first `k` cells.
pub open spec fn trim_end_from(row: Seq<TerminalCell>, k: nat) -> nat
    decreases k,
{
    if k == 0 {
        0
    } else if row[k - 1].c != ' ' {
        k
    } else {
        trim_end_from(row, (k - 1) as nat)
    }
}

/// The index past the last non-space cell among the first `cols` cells
/// (0 when they are all spaces).
pub open spec fn trim_end(row: Seq<TerminalCell>, cols: nat) -> nat {
    trim_end_from(row, if cols <= row.len() { cols } else { row.len() })
}

/// The characters of the first `end` cells of `row`.
pub open spec fn row_text(row: Seq<TerminalCell>, end: nat) -> Seq<char> {
    Seq::new(if end <= row.len() { end } else { row.len() }, |i: int| row[i].c)
}

/// A row with its number: `NN text` with trailing spaces cut, or just
/// `NN` for a blank row.
pub open spec fn numbered_line(y: nat, row: Seq<TerminalCell>, cols: nat) -> Seq<char> {
    let t = trim_end(row, cols);
    if t == 0 {
        decimal2(y) + seq!['\n']
    } else {
        decimal2(y) + seq![' '] + row_text(row, t) + seq!['\n']
    }
}

/// The marker for blank rows `s..=e` (a lone row is shown by its number).
pub open spec fn empty_range(s: nat, e: nat) -> Seq<char> {
    if s == e {
        decimal2(s) + seq!['\n']
    } else {
        seq!['·', '·', '·', ' ', '(', 'r', 'o', 'w', 's', ' '] + decimal2(s) + seq!['-'] + decimal2(e)
            + seq![' ', 'e', 'm', 'p', 't', 'y', ')', '\n']
    }
}

/// Trimming a row: among the first `k` cells, those from the trimmed end
/// on are all spaces, and the cell just before it is not.
pub proof fn lemma_trim_end(row: Seq<TerminalCell>, k: nat)
    requires
        k <= row.len(),
    ensures
        trim_end_from(row, k) <= k,
        forall|i: int| trim_end_from(row, k) <= i < k ==> (#[trigger] row[i]).c == ' ',
        trim_end_from(row, k) > 0 ==> row[trim_end_from(row, k) - 1].c != ' ',
    decreases k,
{
    if k > 0 && row[k - 1].c == ' ' {
        lemma_trim_end(row, (k - 1) as nat);
    }
}

/// The full-screen listing of the first `n` rows: non-blank rows are
/// numbered, and every run of blank rows becomes one marker; the second
/// component is the start of the run of blank rows still open.
pub open spec fn screen_scan(rows: Seq<Seq<TerminalCell>>, cols: nat, n: nat) -> (Seq<char>, Option<nat>)
    decreases n,
{
    if n == 0 {
        (Seq::empty(), None)
    } else {
        let (out, open) = screen_scan(rows, cols, (n - 1) as nat);
        let y = (n - 1) as nat;
        let t = trim_end(rows[y as int], cols);
        if t == 0 {
            (out, if open is None { Some(y) } else { open })
        } else {
            let out2 = match open {
                Some(s) => out + empty_range(s, (y - 1) as nat),
                None => out,
            };
            (out2 + decimal2(y) + seq![' '] + row_text(rows[y as int], t) + seq!['\n'], None)
        }
    }
}

/// The full screen as text with the coordinate overlay.
pub open spec fn screen_text(g: GridView) -> Seq<char> {
    let n = if g.screen.rows_count <= g.screen.rows.len() { g.screen.rows_count } else { g.screen.rows.len() };
    let (out, open) = screen_scan(g.screen.rows, g.screen.cols, n);
    column_header(g.screen.cols) + out + match open {
        Some(s) => empty_range(s, (g.screen.rows_count - 1) as nat),
        None => Seq::empty(),
    }
}

/// The numbered lines of the rows `from..k` that exist.
pub open spec fn numbered_lines(rows: Seq<Seq<TerminalCell>>, cols: nat, from: nat, k: nat) -> Seq<char>
    decreases k,
{
    if k <= from {
        Seq::empty()
    } else {
        numbered_lines(rows, cols, from, (k - 1) as nat) + if k - 1 < rows.len() {
            numbered_line((k - 1) as nat, rows[k - 1], cols)
        } else {
            Seq::empty()
        }
    }
}

pub open spec fn clamp(v: nat, max: nat) -> nat {
    if v <= max { v } else { max }
}

/// Rows `start..end` (clamped to the screen) with the coordinate overlay.
pub open spec fn rows_text(g: GridView, start: nat, end: nat) -> Seq<char> {
    column_header(g.screen.cols) + numbered_lines(
        g.screen.rows,
        g.screen.cols,
        clamp(start, g.screen.rows_count),
        clamp(end, g.screen.rows_count),
    )
}

/// The characters of columns `c1..c2` of `row` that exist.
pub open spec fn region_cells(row: Seq<TerminalCell>, c1: nat, c2: nat) -> Seq<char> {
    let e = if c2 <= row.len() { c2 } else { row.len() };
    Seq::new(if c1 <= e { (e - c1) as nat } else { 0 }, |i: int| row[c1 + i].c)
}

pub open spec fn region_lines(rows: Seq<Seq<TerminalCell>>, c1: nat, c2: nat, r1: nat, k: nat) -> Seq<char>
    decreases k,
{
    if k <= r1 {
        Seq::empty()
    } else {
        region_lines(rows, c1, c2, r1, (k - 1) as nat) + if k - 1 < rows.len() {
            decimal2((k - 1) as nat) + seq![' '] + region_cells(rows[k - 1], c1, c2) + seq!['\n']
        } else {
            Seq::empty()
        }
    }
}

/// The rectangle of columns `col1..col2` and rows `row1..row2` (clamped to
/// the screen), each row numbered.
pub open spec fn region_text(g: GridView, col1: nat, row1: nat, col2: nat, row2: nat) -> Seq<char> {
    region_lines(
        g.screen.rows,
        clamp(col1, g.screen.cols),
        clamp(col2, g.screen.cols),
        clamp(row1, g.screen.rows_count),
        clamp(row2, g.screen.rows_count),
    )
}

pub open spec fn plain_lines(rows: Seq<Seq<TerminalCell>>, cols: nat, k: nat) -> Seq<char>
    decreases k,
{
    if k == 0 {
        Seq::empty()
    } else {
        plain_lines(rows, cols, (k - 1) as nat) + row_text(rows[k - 1], cols) + seq!['\n']
    }
}

/// The screen as plain text: every row's first `cols` characters and a
/// newline.
pub open spec fn plain_screen_text(g: GridView) -> Seq<char> {
    plain_lines(g.screen.rows, g.screen.cols, clamp(g.screen.rows_count, g.screen.rows.len()))
}

/// A line's text with trailing spaces cut.
pub open spec fn line_text(cells: Seq<TerminalCell>) -> Seq<char> {
    row_text(cells, trim_end(cells, cells.len()))
}

/// The texts of the non-blank rows among the first `k` rows, top to
/// bottom, each with its trailing spaces cut.
pub open spec fn nonempty_lines(rows: Seq<Seq<TerminalCell>>, k: nat) -> Seq<Seq<char>>
    decreases k,
{
    if k == 0 {
        Seq::empty()
    } else {
        let prev = nonempty_lines(rows, (k - 1) as nat);
        let t = line_text(rows[k - 1]);
        if t.len() > 0 {
            prev.push(t)
        } else {
            prev
        }
    }
}

/// The last `n` non-empty lines of the screen, top to bottom (all of them
/// when there are fewer).
pub open spec fn last_lines(rows: Seq<Seq<TerminalCell>>, n: nat) -> Seq<Seq<char>> {
    let all = nonempty_lines(rows, rows.len());
    if n >= all.len() {
        all
    } else {
        all.subrange(all.len() - n, all.len() as int)
    }
}

/// The last lines of the screen: there are `n` of them, or every non-empty
/// line when there are fewer; each is non-empty and ends in a character
/// other than a space, and they are the last of the non-empty lines in
/// their order.
pub proof fn lemma_last_lines(rows: Seq<Seq<TerminalCell>>, n: nat)
    ensures
        ({
            let all = nonempty_lines(rows, rows.len());
            let r = last_lines(rows, n);
            &&& r.len() == (if n <= all.len() { n } else { all.len() })
            &&& forall|i: int| 0 <= i < r.len() ==> #[trigger] r[i] == all[all.len() - r.len() + i]
            &&& forall|i: int| 0 <= i < r.len() ==> (#[trigger] r[i]).len() > 0 && r[i].last() != ' '
        }),
{
    lemma_nonempty_lines(rows, rows.len());
}

/// Each of the non-empty lines is non-empty and ends in a character other
/// than a space.
pub proof fn lemma_nonempty_lines(rows: Seq<Seq<TerminalCell>>, k: nat)
    requires
        k <= rows.len(),
    ensures
        forall|i: int| 0 <= i < nonempty_lines(rows, k).len() ==> (#[trigger] nonempty_lines(rows, k)[i]).len() > 0
            && nonempty_lines(rows, k)[i].last() != ' ',
        nonempty_lines(rows, k).len() <= k,
    decreases k,
{
    if k > 0 {
        lemma_nonempty_lines(rows, (k - 1) as nat);
        let cells = rows[k - 1];
        lemma_trim_end(cells, cells.len());
    }
}

pub open spec fn changed_lines(rows: Seq<Seq<TerminalCell>>, cols: nat, idx: Seq<usize>, k: nat) -> Seq<char>
    decreases k,
{
    if k == 0 {
        Seq::empty()
    } else {
        changed_lines(rows, cols, idx, (k - 1) as nat) + if idx[k - 1] < rows.len() {
            numbered_line(idx[k - 1] as nat, rows[idx[k - 1] as int], cols)
        } else {
            Seq::empty()
        }
    }
}

/// The line shown at screen row `y` when scrolled back `offset` lines.
pub open spec fn scrolled_line(
    scrollback: Seq<Seq<TerminalCell>>,
    screen: Seq<Seq<TerminalCell>>,
    offset: nat,
    cols: nat,
    y: nat,
) -> Seq<char> {
    let start = if offset <= scrollback.len() { (scrollback.len() - offset) as nat } else { 0 };
    let idx = start + y;
    if idx < scrollback.len() {
        row_text(scrollback[idx as int], cols)
    } else if idx - scrollback.len() < screen.len() {
        row_text(screen[idx - scrollback.len()], cols)
    } else {
        Seq::empty()
    }
}

pub open spec fn scrolled_lines(
    scrollback: Seq<Seq<TerminalCell>>,
    screen: Seq<Seq<TerminalCell>>,
    offset: nat,
    cols: nat,
    with_coords: bool,
    k: nat,
) -> Seq<char>
    decreases k,
{
    if k == 0 {
        Seq::empty()
    } else {
        scrolled_lines(scrollback, screen, offset, cols, with_coords, (k - 1) as nat) + (if with_coords {
            decimal2((k - 1) as nat) + seq![' ']
        } else {
            Seq::empty()
        }) + scrolled_line(scrollback, screen, offset, cols, (k - 1) as nat) + seq!['\n']
    }
}

pub open spec fn scrollback_lines(scrollback: Seq<Seq<TerminalCell>>, start: nat, k: nat) -> Seq<char>
    decreases k,
{
    if k <= start {
        Seq::empty()
    } else {
        scrollback_lines(scrollback, start, (k - 1) as nat) + line_text(scrollback[k - 1]) + seq!['\n']
    }
}

/// Appends characters to a string.
fn append_chars(output: &mut String, chars: &Vec<char>)
    ensures
        final(output)@ == old(output)@ + chars@,
{
    let s = chars_to_string(chars);
    output.append(s.as_str());
}

fn digit_of(v: usize) -> (c: char)
    ensures
        c == digit_char((v % 10) as nat),
{
    let d = v % 10;
    let c: char = if d == 0 { '0' } else if d == 1 { '1' } else if d == 2 { '2' } else if d == 3 {
        '3'
    } else if d == 4 { '4' } else if d == 5 { '5' } else if d == 6 { '6' } else if d == 7 {
        '7'
    } else if d == 8 { '8' } else { '9' };
    c
}

/// Appends the digits of the column numbers below `cols` at place `div`.
pub(crate) fn push_digit_row(out: &mut Vec<char>, cols: usize, div: usize)
    requires
        div == 1 || div == 10 || div == 100,
    ensures
        final(out)@ == old(out)@ + seq![' ', ' ', ' '] + header_digits(cols as nat, div as nat) + seq!['\n'],
{
    out.push(' ');
    out.push(' ');
    out.push(' ');
    let ghost base = out@;
    let mut c: usize = 0;
    while c < cols
        invariant
            c <= cols,
            div == 1 || div == 10 || div == 100,
            out@ == base + header_digits(c as nat, div as nat),
        decreases cols - c,
    {
        out.push(digit_of(c / div));
        c = c + 1;
        assert(out@ =~= base + header_digits(c as nat, div as nat));
    }
    out.push('\n');
    assert(out@ =~= old(out)@ + seq![' ', ' ', ' '] + header_digits(cols as nat, div as nat) + seq!['\n']);
}

fn push_header(out: &mut Vec<char>, cols: usize)
    ensures
        final(out)@ == old(out)@ + column_header(cols as nat),
{
    let ghost o = out@;
    if cols > 100 {
        push_digit_row(out, cols, 100);
    }
    push_digit_row(out, cols, 10);
    push_digit_row(out, cols, 1);
    assert(out@ =~= o + column_header(cols as nat));
}

/// Write the column-number header into the output string.
/// Skips the hundreds row when all columns < 100 (i.e., 80-col terminals).
pub fn write_column_header(output: &mut String, cols: usize)
    ensures
        final(output)@ == old(output)@ + column_header(cols as nat),
{
    let mut out: Vec<char> = Vec::new();
    push_header(&mut out, cols);
    assert(out@ =~= column_header(cols as nat));
    append_chars(output, &out);
}

/// Find the index past the last non-whitespace cell (0 if row is all spaces)
fn trim_end_index(row: &[TerminalCell], cols: usize) -> (r: usize)
    ensures
        r == trim_end(row@, cols as nat),
        r <= cols,
        r <= row@.len(),
{
    let mut k: usize = if cols < row.len() { cols } else { row.len() };
    while k > 0
        invariant
            k <= cols,
            k <= row@.len(),
            trim_end(row@, cols as nat) == trim_end_from(row@, k as nat),
        decreases k,
    {
        if row[k - 1].c != ' ' {
            return k;
        }
        k = k - 1;
    }
    0
}

/// Appends the characters of the first `end` cells of `row`.
fn push_row_cells(out: &mut Vec<char>, row: &[TerminalCell], end: usize)
    ensures
        final(out)@ == old(out)@ + row_text(row@, end as nat),
{
    let ghost base = out@;
    let n = if end < row.len() { end } else { row.len() };
    let mut i: usize = 0;
    while i < n
        invariant
            i <= n,
            n <= row@.len(),
            out@ == base + row_text(row@, i as nat),
        decreases n - i,
    {
        out.push(row[i].c);
        i = i + 1;
        assert(out@ =~= base + row_text(row@, i as nat));
    }
    assert(row_text(row@, n as nat) =~= row_text(row@, end as nat));
}

/// Emit collapsed empty-row marker
fn emit_empty_range(out: &mut Vec<char>, start: usize, end: usize)
    ensures
        final(out)@ == old(out)@ + empty_range(start as nat, end as nat),
{
    let ghost base = out@;
    if start == end {
        push_decimal2(out, start);
        out.push('\n');
    } else {
        let prefix = vec!['·', '·', '·', ' ', '(', 'r', 'o', 'w', 's', ' '];
        crate::text::push_chars(out, &prefix);
        push_decimal2(out, start);
        out.push('-');
        push_decimal2(out, end);
        let suffix = vec![' ', 'e', 'm', 'p', 't', 'y', ')', '\n'];
        crate::text::push_chars(out, &suffix);
    }
    assert(out@ =~= base + empty_range(start as nat, end as nat));
}

/// Appends a numbered row (`NN text`, or `NN` for a blank row).
fn push_numbered_line(out: &mut Vec<char>, y: usize, row: &[TerminalCell], cols: usize)
    ensures
        final(out)@ == old(out)@ + numbered_line(y as nat, row@, cols as nat),
{
    let ghost base = out@;
    let trim = trim_end_index(row, cols);
    if trim == 0 {
        push_decimal2(out, y);
        out.push('\n');
    } else {
        push_decimal2(out, y);
        out.push(' ');
        push_row_cells(out, row, trim);
        out.push('\n');
    }
    assert(out@ =~= base + numbered_line(y as nat, row@, cols as nat));
}

/// Read the full screen as text with coordinate overlay.
/// Trims trailing whitespace per row and collapses consecutive empty rows.
pub fn read_screen_text(grid: &TerminalGrid) -> (s: String)
    ensures
        s@ == screen_text(grid@),
{
    let cols = grid.cols();
    let rows = grid.rows();
    let screen_rows = grid.get_rows();
    let ghost rv = rows_view(screen_rows@);
    let mut header: Vec<char> = Vec::new();
    push_header(&mut header, cols);
    let mut out: Vec<char> = Vec::new();
    let mut empty_start: Option<usize> = None;
    let n = if rows < screen_rows.len() { rows } else { screen_rows.len() };
    let mut y: usize = 0;
    while y < n
        invariant
            y <= n,
            n <= screen_rows@.len(),
            n <= rows,
            rv == rows_view(screen_rows@),
            rv == grid@.screen.rows,
            cols == grid@.screen.cols,
            (out@, match empty_start { Some(v) => Some(v as nat), None => None })
                == screen_scan(rv, cols as nat, y as nat),
            empty_start matches Some(v) ==> v < y,
        decreases n - y,
    {
        let row = &screen_rows[y];
        assert(row@ == rv[y as int]);
        let end = trim_end_index(row.as_slice(), cols);
        if end == 0 {
            if empty_start.is_none() {
                empty_start = Some(y);
            }
        } else {
            if let Some(start) = empty_start {
                emit_empty_range(&mut out, start, y - 1);
                empty_start = None;
            }
            push_decimal2(&mut out, y);
            out.push(' ');
            push_row_cells(&mut out, row.as_slice(), end);
            out.push('\n');
        }
        y = y + 1;
        proof {
            let prev = screen_scan(rv, cols as nat, (y - 1) as nat);
            assert(screen_scan(rv, cols as nat, y as nat).0 =~= out@);
        }
    }
    if let Some(start) = empty_start {
        emit_empty_range(&mut out, start, rows - 1);
    }
    crate::text::push_chars(&mut header, &out);
    let s = chars_to_string(&header);
    assert(s@ =~= screen_text(grid@));
    s
}

/// Read specific rows as text with coordinate overlay (trimmed)
pub fn read_rows_text(grid: &TerminalGrid, start_row: usize, end_row: usize) -> (s: String)
    requires
        clamp(start_row as nat, grid@.screen.rows_count) <= clamp(end_row as nat, grid@.screen.rows_count),
    ensures
        s@ == rows_text(grid@, start_row as nat, end_row as nat),
{
    let cols = grid.cols();
    let rows = grid.rows();
    let start = if start_row < rows { start_row } else { rows };
    let end = if end_row < rows { end_row } else { rows };
    let mut out: Vec<char> = Vec::new();
    push_header(&mut out, cols);
    let ghost base = out@;
    let screen_rows = grid.get_rows();
    let ghost rv = rows_view(screen_rows@);
    let mut y = start;
    while y < end
        invariant
            start <= y <= end,
            rv == rows_view(screen_rows@),
            rv == grid@.screen.rows,
            cols == grid@.screen.cols,
            out@ == base + numbered_lines(rv, cols as nat, start as nat, y as nat),
        decreases end - y,
    {
        if y < screen_rows.len() {
            let row = &screen_rows[y];
            assert(row@ == rv[y as int]);
            push_numbered_line(&mut out, y, row.as_slice(), cols);
        }
        y = y + 1;
        assert(out@ =~= base + numbered_lines(rv, cols as nat, start as nat, y as nat));
    }
    let s = chars_to_string(&out);
    assert(s@ =~= rows_text(grid@, start_row as nat, end_row as nat));
    s
}

/// Read a rectangular region
pub fn read_region_text(grid: &TerminalGrid, col1: usize, row1: usize, col2: usize, row2: usize) -> (s: String)
    requires
        clamp(col1 as nat, grid@.screen.cols) <= clamp(col2 as nat, grid@.screen.cols),
        clamp(row1 as nat, grid@.screen.rows_count) <= clamp(row2 as nat, grid@.screen.rows_count),
    ensures
        s@ == region_text(grid@, col1 as nat, row1 as nat, col2 as nat, row2 as nat),
{
    let cols = grid.cols();
    let rows = grid.rows();
    let c1 = if col1 < cols { col1 } else { cols };
    let c2 = if col2 < cols { col2 } else { cols };
    let r1 = if row1 < rows { row1 } else { rows };
    let r2 = if row2 < rows { row2 } else { rows };
    let mut out: Vec<char> = Vec::new();
    let screen_rows = grid.get_rows();
    let ghost rv = rows_view(screen_rows@);
    let mut y = r1;
    while y < r2
        invariant
            r1 <= y <= r2,
            c1 <= c2,
            rv == rows_view(screen_rows@),
            rv == grid@.screen.rows,
            out@ == region_lines(rv, c1 as nat, c2 as nat, r1 as nat, y as nat),
        decreases r2 - y,
    {
        if y < screen_rows.len() {
            let row = &screen_rows[y];
            assert(row@ == rv[y as int]);
            push_decimal2(&mut out, y);
            out.push(' ');
            let ghost mid = out@;
            let mut x = c1;
            while x < c2
                invariant
                    c1 <= x <= c2,
                    row@ == rv[y as int],
                    out@ == mid + region_cells(row@, c1 as nat, if x <= row@.len() { x as nat } else { row@.len() }),
                decreases c2 - x,
            {
                if x < row.len() {
                    out.push(row[x].c);
                }
                x = x + 1;
                assert(out@ =~= mid + region_cells(row@, c1 as nat, if x <= row@.len() { x as nat } else { row@.len() }));
            }
            assert(region_cells(row@, c1 as nat, if c2 <= row@.len() { c2 as nat } else { row@.len() })
                =~= region_cells(row@, c1 as nat, c2 as nat));
            out.push('\n');
        }
        y = y + 1;
        assert(out@ =~= region_lines(rv, c1 as nat, c2 as nat, r1 as nat, y as nat));
    }
    chars_to_string(&out)
}

/// Read the full screen as clean text (no coordinate overlay, for human display)
pub fn show_screen_text(grid: &TerminalGrid) -> (s: String)
    ensures
        s@ == plain_screen_text(grid@),
{
    let cols = grid.cols();
    let rows = grid.rows();
    let screen_rows = grid.get_rows();
    let ghost rv = rows_view(screen_rows@);
    let n = if rows < screen_rows.len() { rows } else { screen_rows.len() };
    let mut out: Vec<char> = Vec::new();
    let mut y: usize = 0;
    while y < n
        invariant
            y <= n,
            n <= screen_rows@.len(),
            rv == rows_view(screen_rows@),
            rv == grid@.screen.rows,
            cols == grid@.screen.cols,
            out@ == plain_lines(rv, cols as nat, y as nat),
        decreases n - y,
    {
        let row = &screen_rows[y];
        assert(row@ == rv[y as int]);
        push_row_cells(&mut out, row.as_slice(), cols);
        out.push('\n');
        y = y + 1;
        assert(out@ =~= plain_lines(rv, cols as nat, y as nat));
    }
    chars_to_string(&out)
}

/// Render scrollback content into output, optionally with coordinate overlay
pub fn render_scrollback(
    output: &mut String,
    scrollback: &VecDeque<Vec<TerminalCell>>,
    screen: &[Vec<TerminalCell>],
    scroll_offset: usize,
    cols: usize,
    rows: usize,
    with_coords: bool,
)
    requires
        rows == 0 || (if scroll_offset <= scrollback@.len() { scrollback@.len() - scroll_offset } else { 0int })
            + rows - 1 <= usize::MAX,
    ensures
        final(output)@ == old(output)@ + scrolled_lines(
            rows_view(scrollback@),
            rows_view(screen@),
            scroll_offset as nat,
            cols as nat,
            with_coords,
            rows as nat,
        ),
{
    let ghost sb = rows_view(scrollback@);
    let ghost sc = rows_view(screen@);
    let scrollback_len = scrollback.len();
    let start_line = scrollback_len.saturating_sub(scroll_offset);
    let mut out: Vec<char> = Vec::new();
    let mut y: usize = 0;
    while y < rows
        invariant
            y <= rows,
            scrollback_len == scrollback@.len(),
            start_line == (if scroll_offset <= scrollback@.len() { scrollback@.len() - scroll_offset } else { 0int }),
            rows == 0 || start_line + rows - 1 <= usize::MAX,
            sb == rows_view(scrollback@),
            sc == rows_view(screen@),
            out@ == scrolled_lines(sb, sc, scroll_offset as nat, cols as nat, with_coords, y as nat),
        decreases rows - y,
    {
        let line_idx = start_line + y;
        if with_coords {
            push_decimal2(&mut out, y);
            out.push(' ');
        }
        let ghost mid = out@;
        if line_idx < scrollback_len {
            let line = &scrollback[line_idx];
            assert(line@ == sb[line_idx as int]);
            push_row_cells(&mut out, line.as_slice(), cols);
        } else {
            let screen_idx = line_idx - scrollback_len;
            if screen_idx < screen.len() {
                let row = &screen[screen_idx];
                assert(row@ == sc[screen_idx as int]);
                push_row_cells(&mut out, row.as_slice(), cols);
            }
        }
        assert(out@ =~= mid + scrolled_line(sb, sc, scroll_offset as nat, cols as nat, y as nat));
        out.push('\n');
        y = y + 1;
        assert(out@ =~= scrolled_lines(sb, sc, scroll_offset as nat, cols as nat, with_coords, y as nat));
    }
    append_chars(output, &out);
}

/// A line's text with trailing spaces cut.
fn line_to_string(cells: &[TerminalCell]) -> (s: String)
    ensures
        s@ == line_text(cells@),
{
    let end = trim_end_index(cells, cells.len());
    let mut out: Vec<char> = Vec::new();
    push_row_cells(&mut out, cells, end);
    assert(out@ =~= line_text(cells@));
    chars_to_string(&out)
}

/// Get the last N non-empty lines from the visible screen
pub fn last_n_lines(grid: &TerminalGrid, n: usize) -> (lines: Vec<String>)
    ensures
        lines@.map_values(|s: String| s@) == last_lines(grid@.screen.rows, n as nat),
{
    let screen_rows = grid.get_rows();
    let ghost rv = rows_view(screen_rows@);
    let len = screen_rows.len();
    let mut all: Vec<String> = Vec::new();
    let mut i: usize = 0;
    while i < len
        invariant
            i <= len,
            len == screen_rows@.len(),
            rv == rows_view(screen_rows@),
            all@.map_values(|s: String| s@) == nonempty_lines(rv, i as nat),
        decreases len - i,
    {
        let text = line_to_string(screen_rows[i].as_slice());
        assert(screen_rows@[i as int]@ == rv[i as int]);
        let ghost before = all@;
        if text.unicode_len() > 0 {
            all.push(text);
            assert(all@.map_values(|s: String| s@) =~= before.map_values(|s: String| s@).push(text@));
        }
        i = i + 1;
    }
    assert(rv == grid@.screen.rows);
    if n >= all.len() {
        return all;
    }
    let ghost full = all@;
    let at = all.len() - n;
    let lines = all.split_off(at);
    assert(lines@.map_values(|s: String| s@) =~= full.map_values(|s: String| s@).subrange(at as int, full.len() as int));
    lines
}

/// Read only the specified dirty rows as text with coordinate overlay
pub fn read_changed_rows_text(grid: &TerminalGrid, dirty_indices: &[usize]) -> (s: String)
    ensures
        s@ == column_header(grid@.screen.cols) + changed_lines(
            grid@.screen.rows,
            grid@.screen.cols,
            dirty_indices@,
            dirty_indices@.len(),
        ),
{
    let cols = grid.cols();
    let mut out: Vec<char> = Vec::new();
    push_header(&mut out, cols);
    let ghost base = out@;
    let screen_rows = grid.get_rows();
    let ghost rv = rows_view(screen_rows@);
    let mut k: usize = 0;
    while k < dirty_indices.len()
        invariant
            k <= dirty_indices@.len(),
            rv == rows_view(screen_rows@),
            rv == grid@.screen.rows,
            cols == grid@.screen.cols,
            out@ == base + changed_lines(rv, cols as nat, dirty_indices@, k as nat),
        decreases dirty_indices@.len() - k,
    {
        let y = dirty_indices[k];
        if y < screen_rows.len() {
            let row = &screen_rows[y];
            assert(row@ == rv[y as int]);
            push_numbered_line(&mut out, y, row.as_slice(), cols);
        }
        k = k + 1;
        assert(out@ =~= base + changed_lines(rv, cols as nat, dirty_indices@, k as nat));
    }
    chars_to_string(&out)
}

/// Append scrollback lines directly to output as plain text (trimmed)
pub fn append_scrollback_lines(
    output: &mut String,
    scrollback: &VecDeque<Vec<TerminalCell>>,
    start: usize,
    end: usize,
)
    ensures
        final(output)@ == old(output)@ + scrollback_lines(
            rows_view(scrollback@),
            start as nat,
            clamp(end as nat, scrollback@.len()),
        ),
{
    let ghost sb = rows_view(scrollback@);
    let stop = if end < scrollback.len() { end } else { scrollback.len() };
    let mut out: Vec<char> = Vec::new();
    let mut i = start;
    if i > stop {
        i = stop;
    }
    let ghost first = i;
    assert(scrollback_lines(sb, start as nat, first as nat) =~= Seq::empty());
    while i < stop
        invariant
            first <= i <= stop,
            stop <= scrollback@.len(),
            sb == rows_view(scrollback@),
            first == start || first == stop,
            i < stop ==> start <= i,
            out@ == scrollback_lines(sb, start as nat, i as nat),
        decreases stop - i,
    {
        let line = &scrollback[i];
        assert(line@ == sb[i as int]);
        let ghost before = out@;
        let end = trim_end_index(line.as_slice(), line.len());
        push_row_cells(&mut out, line.as_slice(), end);
        assert(start <= i);
        assert(out@ == before + line_text(sb[i as int]));
        out.push('\n');
        i = i + 1;
        assert(out@ =~= scrollback_lines(sb, start as nat, i as nat));
    }
    append_chars(output, &out);
}

} // verus!
