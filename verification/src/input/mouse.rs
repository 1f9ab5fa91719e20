use vstd::prelude::*;

use crate::text::{ascii, decimal, push_decimal_bytes};

verus! {

/// Mouse action that can be performed by the AI agent
#[derive(Debug, Clone)]
pub enum MouseAction {
    LeftClick { col: u16, row: u16 },
    RightClick { col: u16, row: u16 },
    DoubleClick { col: u16, row: u16 },
    MoveTo { col: u16, row: u16 },
    GetPosition,
    SetPosition { col: u16, row: u16 },
}

/// Current mouse state
#[derive(Debug, Clone, Copy, PartialEq, Eq, Structural)]
pub struct MouseState {
    pub col: u16,
    pub row: u16,
}

impl Default for MouseState {
    fn default() -> (m: Self)
        ensures
            m.col == 0,
            m.row == 0,
    {
        Self { col: 0, row: 0 }
    }
}

impl MouseState {
    pub fn set(&mut self, col: u16, row: u16)
        ensures
            final(self).col == col,
            final(self).row == row,
    {
        self.col = col;
        self.row = row;
    }
}

/// An SGR mouse report: `ESC [ < button ; col ; row` and the final byte,
/// with the column and row given 1-based.
pub open spec fn sgr_report(button: nat, col: nat, row: nat, last: char) -> Seq<u8> {
    ascii(seq!['\x1b', '[', '<'] + decimal(button) + seq![';'] + decimal(col + 1) + seq![';']
        + decimal(row + 1) + seq![last])
}

/// The layout of a report for one-digit values: `ESC`, `[`, `<`, the
/// button's digit, `;`, the 1-based column's digit, `;`, the 1-based row's
/// digit and the final byte.
pub proof fn lemma_sgr_report_layout(button: nat, col: nat, row: nat, last: char)
    requires
        button < 10,
        col < 9,
        row < 9,
        (last as u32) < 128,
    ensures
        sgr_report(button, col, row, last) == seq![
            27u8,
            91u8,
            60u8,
            (48 + button) as u8,
            59u8,
            (49 + col) as u8,
            59u8,
            (49 + row) as u8,
            last as u8,
        ],
{
    let parts = seq!['\x1b', '[', '<'] + decimal(button) + seq![';'] + decimal(col + 1) + seq![';']
        + decimal(row + 1) + seq![last];
    assert(parts =~= seq!['\x1b', '[', '<', crate::text::digit_char(button), ';', crate::text::digit_char(col + 1), ';', crate::text::digit_char(row + 1), last]);
    assert(ascii(parts) =~= seq![
        27u8,
        91u8,
        60u8,
        (48 + button) as u8,
        59u8,
        (49 + col) as u8,
        59u8,
        (49 + row) as u8,
        last as u8,
    ]);
}

fn sgr_sequence(button: u8, col: u16, row: u16, last: u8) -> (bytes: Vec<u8>)
    requires
        col < u16::MAX,
        row < u16::MAX,
        last == 'M' as u8 || last == 'm' as u8,
    ensures
        bytes@ == sgr_report(button as nat, col as nat, row as nat, if last == 'M' as u8 { 'M' } else { 'm' }),
{
    let mut out: Vec<u8> = vec![0x1bu8, 0x5bu8, 0x3cu8];
    push_decimal_bytes(&mut out, button as usize);
    out.push(0x3bu8);
    push_decimal_bytes(&mut out, (col + 1) as usize);
    out.push(0x3bu8);
    push_decimal_bytes(&mut out, (row + 1) as usize);
    out.push(last);
    let ghost fin = if last == 'M' as u8 { 'M' } else { 'm' };
    let ghost parts = seq!['\x1b', '[', '<'] + decimal(button as nat) + seq![';'] + decimal((col + 1) as nat)
        + seq![';'] + decimal((row + 1) as nat) + seq![fin];
    assert(out@ =~= ascii(parts));
    out
}

/// Generate SGR mouse escape sequences for terminals that have requested mouse tracking
pub fn sgr_mouse_press(button: u8, col: u16, row: u16) -> (bytes: Vec<u8>)
    requires
        col < u16::MAX,
        row < u16::MAX,
    ensures
        bytes@ == sgr_report(button as nat, col as nat, row as nat, 'M'),
{
    // SGR format: CSI < button ; col ; row M (press) or m (release)
    // button: 0 = left, 1 = middle, 2 = right
    // col/row are 1-based
    sgr_sequence(button, col, row, 0x4du8)
}

pub fn sgr_mouse_release(button: u8, col: u16, row: u16) -> (bytes: Vec<u8>)
    requires
        col < u16::MAX,
        row < u16::MAX,
    ensures
        bytes@ == sgr_report(button as nat, col as nat, row as nat, 'm'),
{
    sgr_sequence(button, col, row, 0x6du8)
}

pub fn sgr_mouse_move(col: u16, row: u16) -> (bytes: Vec<u8>)
    requires
        col < u16::MAX,
        row < u16::MAX,
    ensures
        bytes@ == sgr_report(35, col as nat, row as nat, 'M'),
{
    // Button 35 = motion with no buttons
    sgr_sequence(35, col, row, 0x4du8)
}

/// Result of a mouse action
#[derive(Debug, Clone)]
pub struct MouseResult {
    pub mouse_col: u16,
    pub mouse_row: u16,
    pub selected_text: Option<String>,
}

} // verus!
