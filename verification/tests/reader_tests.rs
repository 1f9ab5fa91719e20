use std::collections::VecDeque;

use npcterm39::screen::reader::{
    append_scrollback_lines, last_n_lines, read_changed_rows_text, read_region_text, read_rows_text,
    read_screen_text, render_scrollback, show_screen_text, write_column_header,
};
use npcterm39::terminal::cell::TerminalCell;
use npcterm39::terminal::grid::TerminalGrid;

fn grid_with_rows(cols: usize, rows: usize, lines: &[(usize, &str)]) -> TerminalGrid {
    let mut grid = TerminalGrid::new(cols, rows, 10);
    for (y, text) in lines {
        grid.goto(0, *y);
        for c in text.chars() {
            grid.put_char(c);
        }
    }
    grid
}

fn cells(text: &str) -> Vec<TerminalCell> {
    text.chars()
        .map(|c| {
            let mut cell = TerminalCell::default();
            cell.c = c;
            cell
        })
        .collect()
}

#[test]
fn column_header_for_narrow_screen() {
    let mut out = String::new();
    write_column_header(&mut out, 12);
    assert_eq!(out, "   000000000011\n   012345678901\n");
}

#[test]
fn column_header_for_wide_screen_has_hundreds_row() {
    let mut out = String::from(">");
    write_column_header(&mut out, 102);
    let lines: Vec<&str> = out.split('\n').collect();
    assert_eq!(lines.len(), 4);
    assert_eq!(lines[0], format!(">   {}11", "0".repeat(100)));
    assert!(lines[1].starts_with("   0000000000111111111122"));
    assert!(lines[1].ends_with("999999999900"));
    assert!(lines[2].ends_with("678901"));
}

#[test]
fn screen_text_numbers_rows_and_collapses_blank_runs() {
    let grid = grid_with_rows(5, 5, &[(0, "hi"), (3, "x y")]);
    assert_eq!(
        read_screen_text(&grid),
        "   00000\n   01234\n00 hi\n··· (rows 01-02 empty)\n03 x y\n04\n"
    );
}

#[test]
fn screen_text_of_blank_screen() {
    let grid = TerminalGrid::new(3, 2, 10);
    assert_eq!(read_screen_text(&grid), "   000\n   012\n··· (rows 00-01 empty)\n");
}

#[test]
fn rows_text_clamps_to_the_screen() {
    let grid = grid_with_rows(5, 3, &[(0, "hi"), (2, "z")]);
    assert_eq!(read_rows_text(&grid, 0, 2), "   00000\n   01234\n00 hi\n01\n");
    assert_eq!(read_rows_text(&grid, 2, 50), "   00000\n   01234\n02 z\n");
}

#[test]
fn region_text_keeps_the_columns_asked_for() {
    let grid = grid_with_rows(6, 3, &[(0, "abcdef"), (1, "ghijkl")]);
    assert_eq!(read_region_text(&grid, 1, 0, 4, 2), "00 bcd\n01 hij\n");
    assert_eq!(read_region_text(&grid, 4, 1, 99, 99), "01 kl\n02   \n");
}

#[test]
fn show_screen_is_plain_text() {
    let grid = grid_with_rows(3, 2, &[(1, "ok")]);
    assert_eq!(show_screen_text(&grid), "   \nok \n");
}

#[test]
fn last_lines_of_the_screen() {
    let grid = grid_with_rows(5, 3, &[(0, "one"), (1, "two  ")]);
    assert_eq!(last_n_lines(&grid, 2), vec!["one".to_string(), "two".to_string()]);
    assert_eq!(last_n_lines(&grid, 1), vec!["two".to_string()]);
    assert_eq!(last_n_lines(&grid, 9), vec!["one".to_string(), "two".to_string()]);
    assert!(last_n_lines(&grid, 0).is_empty());
    let gaps = grid_with_rows(5, 4, &[(0, "a"), (2, "b")]);
    assert_eq!(last_n_lines(&gaps, 2), vec!["a".to_string(), "b".to_string()]);
    let one = grid_with_rows(1, 2, &[(0, "x")]);
    assert_eq!(last_n_lines(&one, 1), vec!["x".to_string()]);
    let blank = TerminalGrid::new(4, 3, 10);
    assert!(last_n_lines(&blank, 5).is_empty());
}

#[test]
fn changed_rows_text_lists_the_given_rows() {
    let grid = grid_with_rows(4, 3, &[(0, "ab"), (2, "cd")]);
    assert_eq!(
        read_changed_rows_text(&grid, &[2, 0, 7, 1]),
        "   0000\n   0123\n02 cd\n00 ab\n01\n"
    );
}

#[test]
fn scrollback_is_rendered_above_the_screen() {
    let mut scrollback: VecDeque<Vec<TerminalCell>> = VecDeque::new();
    scrollback.push_back(cells("old1"));
    scrollback.push_back(cells("old2"));
    let screen = vec![cells("new1"), cells("new2")];
    let mut out = String::new();
    render_scrollback(&mut out, &scrollback, &screen, 1, 3, 3, true);
    assert_eq!(out, "00 old\n01 new\n02 new\n");
    let mut plain = String::new();
    render_scrollback(&mut plain, &scrollback, &screen, 5, 4, 5, false);
    assert_eq!(plain, "old1\nold2\nnew1\nnew2\n\n");
}

#[test]
fn scrollback_lines_are_trimmed() {
    let mut scrollback: VecDeque<Vec<TerminalCell>> = VecDeque::new();
    scrollback.push_back(cells("a  "));
    scrollback.push_back(cells("   "));
    scrollback.push_back(cells(" b "));
    let mut out = String::from("#");
    append_scrollback_lines(&mut out, &scrollback, 1, 10);
    assert_eq!(out, "#\n b\n");
    let mut none = String::new();
    append_scrollback_lines(&mut none, &scrollback, 5, 2);
    assert_eq!(none, "");
}
