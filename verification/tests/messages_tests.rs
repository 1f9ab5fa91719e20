use npcterm39::terminal::cell::{CellAttributes, Color, NamedColor, TerminalCell};
use npcterm39::web::messages::{cells_to_spans, is_default_attrs, is_default_color, row_to_ws_row};

fn cell(c: char, fg: Color, bold: bool) -> TerminalCell {
    let mut cell = TerminalCell::default();
    cell.c = c;
    cell.fg = fg;
    cell.attrs.bold = bold;
    cell
}

#[test]
fn runs_of_one_style_become_one_span() {
    let red = Color::Named(NamedColor::Red);
    let row = vec![
        cell('a', Color::Default, false),
        cell('b', Color::Default, false),
        cell('c', red, false),
        cell('d', red, false),
        cell('e', red, true),
        cell('f', Color::Default, false),
    ];
    let spans = cells_to_spans(&row);
    let texts: Vec<&str> = spans.iter().map(|s| s.text.as_str()).collect();
    assert_eq!(texts, vec!["ab", "cd", "e", "f"]);
    assert_eq!(spans[1].fg, red);
    assert!(spans[2].attrs.bold);
    assert_eq!(spans[3].fg, Color::Default);
    let joined: String = spans.iter().map(|s| s.text.clone()).collect();
    assert_eq!(joined, "abcdef");
}

#[test]
fn empty_and_uniform_rows() {
    assert!(cells_to_spans(&[]).is_empty());
    let row = vec![TerminalCell::default(); 80];
    let spans = cells_to_spans(&row);
    assert_eq!(spans.len(), 1);
    assert_eq!(spans[0].text, " ".repeat(80));
}

#[test]
fn row_keeps_its_index() {
    let row = vec![cell('x', Color::Indexed(3), false)];
    let ws = row_to_ws_row(17, &row);
    assert_eq!(ws.row, 17);
    assert_eq!(ws.spans.len(), 1);
    assert_eq!(ws.spans[0].fg, Color::Indexed(3));
}

#[test]
fn default_style_checks() {
    assert!(is_default_color(&Color::Default));
    assert!(!is_default_color(&Color::Rgb(0, 0, 0)));
    assert!(is_default_attrs(&CellAttributes::default()));
    let mut a = CellAttributes::default();
    a.hidden = true;
    assert!(!is_default_attrs(&a));
}

use npcterm39::manager::registry::TerminalRegistry;
use npcterm39::terminal::grid::TerminalGrid;
use npcterm39::web::messages::{build_snapshot, changed_ws_rows, screen_ws_rows, WsServerMessage};

fn grid_with(text: &str) -> TerminalGrid {
    let mut grid = TerminalGrid::new(4, 3, 10);
    for c in text.chars() {
        grid.put_char(c);
    }
    grid
}

#[test]
fn every_screen_row_is_compressed() {
    let grid = grid_with("ab\r\ncd");
    let rows = screen_ws_rows(&grid);
    assert_eq!(rows.len(), 3);
    assert_eq!(rows[1].row, 1);
    assert_eq!(rows[1].spans[0].text, "cd  ");
}

#[test]
fn changed_rows_keep_the_listed_order() {
    let grid = grid_with("ab\r\ncd\r\nef");
    let rows = changed_ws_rows(&grid, &[2, 9, 0]);
    let got: Vec<(usize, String)> = rows.iter().map(|r| (r.row, r.spans[0].text.clone())).collect();
    assert_eq!(got, vec![(2, "ef  ".to_string()), (0, "ab  ".to_string())]);
}

#[test]
fn snapshot_of_a_registered_terminal() {
    let mut reg = TerminalRegistry::default();
    let id = reg.create(grid_with("hi"), String::new()).unwrap();
    match build_snapshot(&reg, &id) {
        Some(WsServerMessage::ScreenSnapshot { terminal_id, cols, rows, screen_rows, cursor, .. }) => {
            assert_eq!(terminal_id, id);
            assert_eq!((cols, rows), (4, 3));
            assert_eq!(screen_rows.len(), 3);
            assert_eq!(screen_rows[0].spans[0].text, "hi  ");
            assert_eq!((cursor.x, cursor.y), (2, 0));
        }
        _ => panic!("no snapshot"),
    }
    assert!(build_snapshot(&reg, "zz").is_none());
}
