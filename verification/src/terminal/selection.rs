use vstd::prelude::*;

use super::grid::TerminalGrid;
use super::model::GridView;

verus! {

/// Selection type determines how text is selected
#[derive(Debug, Clone, Copy, PartialEq, Eq, Structural)]
pub enum SelectionType {
    Character,
    Word,
    Line,
    Block,
}

/// Selection state machine
#[derive(Debug, Clone, Copy, PartialEq, Eq, Structural)]
pub enum SelectionState {
    Active,
    Complete,
}

/// Represents a position in the terminal grid
#[derive(Debug, Clone, Copy, PartialEq, Eq, Structural)]
pub struct Position {
    pub col: u16,
    pub row: u16,
}

impl Position {
    pub fn new(col: u16, row: u16) -> (p: Self)
        ensures
            p == (Position { col, row }),
    {
        Position { col, row }
    }

    /// The position's place in reading order (rows of a thousand columns).
    pub open spec fn linear(self) -> int {
        self.row * 1000 + self.col
    }
}

/// Represents a text selection in the terminal
#[derive(Debug, Clone, Copy, PartialEq, Eq, Structural)]
pub struct Selection {
    pub start: Position,
    pub end: Position,
    pub selection_type: SelectionType,
    pub state: SelectionState,
}

/// Whether std's `char::is_alphanumeric` holds of `c` (Unicode Alphabetic
/// or Numeric).
pub uninterp spec fn char_is_alphanumeric(c: char) -> bool;

/// `char::is_alphanumeric` (std). The claim: the result is the name above;
/// for ASCII characters it holds exactly of the letters and digits.
#[verifier::external_body]
fn is_alphanumeric(c: char) -> (b: bool)
    ensures
        b == char_is_alphanumeric(c),
        (c as u32) < 0x80 ==> (b <==> (('a' <= c && c <= 'z') || ('A' <= c && c <= 'Z') || ('0' <= c
            && c <= '9'))),
{
    c.is_alphanumeric()
}

/// Characters that belong to a word when a selection expands to one.
pub open spec fn is_word_char(ch: char) -> bool {
    char_is_alphanumeric(ch) || ch == '_' || ch == '-'
}

fn word_char(ch: char) -> (b: bool)
    ensures
        b == is_word_char(ch),
{
    is_alphanumeric(ch) || ch == '_' || ch == '-'
}

/// Whether the grid holds a word character at (`col`, `row`).
pub open spec fn word_at(g: GridView, col: int, row: int) -> bool {
    match g.cell(col, row) {
        Some(cell) => is_word_char(cell.c),
        None => false,
    }
}

/// The leftmost column that the word cells just left of `col` reach.
pub open spec fn scan_left(g: GridView, row: int, col: nat) -> nat
    decreases col,
{
    if col > 0 && word_at(g, col - 1, row) {
        scan_left(g, row, (col - 1) as nat)
    } else {
        col
    }
}

/// The first column at or after `col` that holds no word character.
pub open spec fn scan_right(g: GridView, row: int, col: nat) -> nat
    decreases 65536 - col,
{
    if col <= 65535 && word_at(g, col as int, row) {
        scan_right(g, row, col + 1)
    } else {
        col
    }
}

proof fn lemma_scan_right_ge(g: GridView, row: int, col: nat)
    ensures
        col <= scan_right(g, row, col),
    decreases 65536 - col,
{
    if col <= 65535 && word_at(g, col as int, row) {
        lemma_scan_right_ge(g, row, col + 1);
    }
}

/// Expanding to a word never leaves the row: the scan to the left stops at
/// or before the column it starts from, and the scan to the right stops at
/// the column it starts from or within the row.
pub proof fn lemma_word_scan_bounds(g: GridView, row: int, col: nat)
    requires
        g.wf(),
    ensures
        scan_left(g, row, col) <= col,
        col <= scan_right(g, row, col),
        scan_right(g, row, col) <= if col <= g.screen.cols { g.screen.cols } else { col },
    decreases 65536 - col,
{
    lemma_scan_left_le(g, row, col);
    lemma_scan_right_ge(g, row, col);
    if col <= 65535 && word_at(g, col as int, row) {
        assert(0 <= row < g.screen.rows.len() && col < g.screen.rows[row].len());
        assert(g.screen.rows[row].len() == g.screen.cols);
        lemma_word_scan_bounds(g, row, col + 1);
    }
}

proof fn lemma_scan_left_le(g: GridView, row: int, col: nat)
    ensures
        scan_left(g, row, col) <= col,
    decreases col,
{
    if col > 0 && word_at(g, col - 1, row) {
        lemma_scan_left_le(g, row, (col - 1) as nat);
    }
}

impl Selection {
    /// Whether `a` comes no later than `b`, row first, then column.
    pub open spec fn row_major_le(a: Position, b: Position) -> bool {
        a.row < b.row || (a.row == b.row && a.col <= b.col)
    }

    /// The selection with its ends in order: a block selection by row, then
    /// column; the others in reading order.
    pub open spec fn normalized(self) -> (Position, Position) {
        match self.selection_type {
            SelectionType::Block => if Self::row_major_le(self.start, self.end) {
                (self.start, self.end)
            } else {
                (self.end, self.start)
            },
            _ => if self.start.linear() <= self.end.linear() {
                (self.start, self.end)
            } else {
                (self.end, self.start)
            },
        }
    }

    /// Whether `pos` lies in the selection: within the rectangle for a block
    /// selection, else between the ends in reading order.
    pub open spec fn spec_contains(self, pos: Position) -> bool {
        let (start, end) = self.normalized();
        match self.selection_type {
            SelectionType::Block => {
                let min_col = if start.col <= end.col { start.col } else { end.col };
                let max_col = if start.col <= end.col { end.col } else { start.col };
                let min_row = if start.row <= end.row { start.row } else { end.row };
                let max_row = if start.row <= end.row { end.row } else { start.row };
                min_col <= pos.col <= max_col && min_row <= pos.row <= max_row
            },
            _ => start.linear() <= pos.linear() <= end.linear(),
        }
    }

    pub fn new(start: Position, selection_type: SelectionType) -> (s: Self)
        ensures
            s == (Selection { start, end: start, selection_type, state: SelectionState::Active }),
    {
        Selection { start, end: start, selection_type, state: SelectionState::Active }
    }

    /// Create a range selection from start to end
    pub fn from_range(start: Position, end: Position) -> (s: Self)
        ensures
            s == (Selection {
                start,
                end,
                selection_type: SelectionType::Character,
                state: SelectionState::Complete,
            }),
    {
        Selection {
            start,
            end,
            selection_type: SelectionType::Character,
            state: SelectionState::Complete,
        }
    }

    pub fn update_end(&mut self, end: Position)
        ensures
            *final(self) == (Selection { end, ..*old(self) }),
    {
        self.end = end;
    }

    pub fn complete(&mut self)
        ensures
            *final(self) == (Selection { state: SelectionState::Complete, ..*old(self) }),
    {
        self.state = SelectionState::Complete;
    }

    /// Check if a position is within the selection
    pub fn contains(&self, pos: Position) -> (b: bool)
        ensures
            b == self.spec_contains(pos),
    {
        let (start, end) = self.normalized_bounds();
        match self.selection_type {
            SelectionType::Block => {
                let min_col = if start.col <= end.col { start.col } else { end.col };
                let max_col = if start.col <= end.col { end.col } else { start.col };
                let min_row = if start.row <= end.row { start.row } else { end.row };
                let max_row = if start.row <= end.row { end.row } else { start.row };
                pos.col >= min_col && pos.col <= max_col && pos.row >= min_row && pos.row <= max_row
            },
            _ => {
                let start_idx = (start.row as usize * 1000) + start.col as usize;
                let end_idx = (end.row as usize * 1000) + end.col as usize;
                let pos_idx = (pos.row as usize * 1000) + pos.col as usize;
                pos_idx >= start_idx && pos_idx <= end_idx
            },
        }
    }

    /// Get normalized bounds (ensures start <= end)
    pub fn normalized_bounds(&self) -> (r: (Position, Position))
        ensures
            r == self.normalized(),
    {
        match self.selection_type {
            SelectionType::Block => {
                let ordered = self.start.row < self.end.row || (self.start.row == self.end.row
                    && self.start.col <= self.end.col);
                if ordered {
                    (self.start, self.end)
                } else {
                    (self.end, self.start)
                }
            },
            _ => {
                let start_idx = (self.start.row as usize * 1000) + self.start.col as usize;
                let end_idx = (self.end.row as usize * 1000) + self.end.col as usize;
                if start_idx <= end_idx {
                    (self.start, self.end)
                } else {
                    (self.end, self.start)
                }
            },
        }
    }

    /// Expand selection to word boundaries: the start moves left and the
    /// end right over the word characters of the grid next to them.
    pub fn expand_to_word(&mut self, grid: &TerminalGrid)
        requires
            scan_right(grid@, old(self).end.row as int, old(self).end.col as nat) <= 65535,
        ensures
            *final(self) == (Selection {
                selection_type: SelectionType::Word,
                start: Position {
                    col: scan_left(grid@, old(self).start.row as int, old(self).start.col as nat)
                        as u16,
                    row: old(self).start.row,
                },
                end: Position {
                    col: scan_right(grid@, old(self).end.row as int, old(self).end.col as nat)
                        as u16,
                    row: old(self).end.row,
                },
                ..*old(self)
            }),
    {
        self.selection_type = SelectionType::Word;
        let mut start = self.start;
        while start.col > 0
            invariant
                start.row == old(self).start.row,
                scan_left(grid@, start.row as int, start.col as nat) == scan_left(
                    grid@,
                    old(self).start.row as int,
                    old(self).start.col as nat,
                ),
            ensures
                start.row == old(self).start.row,
                start.col == scan_left(grid@, old(self).start.row as int, old(self).start.col as nat),
            decreases start.col,
        {
            let prev_pos = Position::new(start.col - 1, start.row);
            match grid.get_cell(prev_pos.col as usize, prev_pos.row as usize) {
                Some(cell) => {
                    if word_char(cell.c) {
                        start = prev_pos;
                    } else {
                        assert(!word_at(grid@, start.col - 1, start.row as int));
                        break;
                    }
                },
                None => {
                    assert(!word_at(grid@, start.col - 1, start.row as int));
                    break;
                },
            }
        }
        let mut end = self.end;
        proof {
            lemma_scan_right_ge(grid@, end.row as int, end.col as nat);
        }
        loop
            invariant
                end.row == old(self).end.row,
                end.col <= scan_right(grid@, end.row as int, end.col as nat),
                scan_right(grid@, end.row as int, end.col as nat) == scan_right(
                    grid@,
                    old(self).end.row as int,
                    old(self).end.col as nat,
                ),
                scan_right(grid@, end.row as int, end.col as nat) <= 65535,
            ensures
                end.row == old(self).end.row,
                end.col == scan_right(grid@, old(self).end.row as int, old(self).end.col as nat),
            decreases 65535 - end.col,
        {
            match grid.get_cell(end.col as usize, end.row as usize) {
                Some(cell) => {
                    if word_char(cell.c) {
                        proof {
                            lemma_scan_right_ge(grid@, end.row as int, (end.col + 1) as nat);
                        }
                        end.col = end.col + 1;
                    } else {
                        break;
                    }
                },
                None => {
                    break;
                },
            }
        }
        self.start = start;
        self.end = end;
    }

    /// Expand selection to line boundaries
    pub fn expand_to_line(&mut self, width: u16)
        ensures
            *final(self) == (Selection {
                selection_type: SelectionType::Line,
                start: Position {
                    col: 0,
                    row: (Selection { selection_type: SelectionType::Line, ..*old(self) }).normalized().0.row,
                },
                end: Position {
                    col: if width >= 1 { (width - 1) as u16 } else { 0 },
                    row: (Selection { selection_type: SelectionType::Line, ..*old(self) }).normalized().1.row,
                },
                ..*old(self)
            }),
    {
        self.selection_type = SelectionType::Line;
        let (start, end) = self.normalized_bounds();
        self.start = Position::new(0, start.row);
        self.end = Position::new(width.saturating_sub(1), end.row);
    }

    pub fn is_empty(&self) -> (b: bool)
        ensures
            b == (self.start == self.end),
    {
        self.start == self.end
    }
}

} // verus!
