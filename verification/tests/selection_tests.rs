use npcterm39::terminal::grid::TerminalGrid;
use npcterm39::terminal::selection::{Position, Selection, SelectionState, SelectionType};

#[test]
fn test_selection_contains() {
    let mut sel = Selection::new(Position::new(5, 0), SelectionType::Character);
    sel.update_end(Position::new(10, 0));

    assert!(sel.contains(Position::new(5, 0)));
    assert!(sel.contains(Position::new(7, 0)));
    assert!(sel.contains(Position::new(10, 0)));
    assert!(!sel.contains(Position::new(4, 0)));
    assert!(!sel.contains(Position::new(11, 0)));
}

#[test]
fn test_from_range() {
    let sel = Selection::from_range(Position::new(2, 0), Position::new(10, 0));
    assert_eq!(sel.state, SelectionState::Complete);
    assert!(sel.contains(Position::new(5, 0)));
    assert!(!sel.contains(Position::new(1, 0)));
}

#[test]
fn test_normalized_bounds() {
    let mut sel = Selection::new(Position::new(10, 0), SelectionType::Character);
    sel.update_end(Position::new(5, 0));

    let (start, end) = sel.normalized_bounds();
    assert_eq!(start.col, 5);
    assert_eq!(end.col, 10);
}

#[test]
fn selection_content_does_not_depend_on_anchor_order() {
    let a = Selection::from_range(Position::new(5, 2), Position::new(3, 0));
    let b = Selection::from_range(Position::new(3, 0), Position::new(5, 2));
    for row in 0..4u16 {
        for col in 0..80u16 {
            let p = Position::new(col, row);
            assert_eq!(a.contains(p), b.contains(p));
        }
    }
    assert!(a.contains(Position::new(70, 1)));
    assert!(!a.contains(Position::new(2, 0)));
    assert!(!a.contains(Position::new(6, 2)));
}

#[test]
fn block_selection_is_a_rectangle() {
    let mut sel = Selection::new(Position::new(8, 4), SelectionType::Block);
    sel.update_end(Position::new(2, 1));
    assert!(sel.contains(Position::new(2, 1)));
    assert!(sel.contains(Position::new(5, 3)));
    assert!(!sel.contains(Position::new(9, 2)));
    assert!(!sel.contains(Position::new(5, 0)));
    let (s, e) = sel.normalized_bounds();
    assert_eq!((s.col, s.row, e.col, e.row), (2, 1, 8, 4));
    let mut same_row = Selection::new(Position::new(9, 2), SelectionType::Block);
    same_row.update_end(Position::new(3, 2));
    let (s, e) = same_row.normalized_bounds();
    assert_eq!((s.col, e.col), (3, 9));
}

#[test]
fn complete_and_is_empty() {
    let mut sel = Selection::new(Position::new(1, 1), SelectionType::Character);
    assert_eq!(sel.state, SelectionState::Active);
    assert!(sel.is_empty());
    sel.update_end(Position::new(2, 1));
    assert!(!sel.is_empty());
    sel.complete();
    assert_eq!(sel.state, SelectionState::Complete);
}

fn grid_with(text: &str) -> TerminalGrid {
    let mut grid = TerminalGrid::new(20, 2, 10);
    for c in text.chars() {
        grid.put_char(c);
    }
    grid
}

#[test]
fn expand_to_word_covers_word_characters() {
    let grid = grid_with("foo bar_baz-1 x");
    let mut sel = Selection::new(Position::new(6, 0), SelectionType::Character);
    sel.expand_to_word(&grid);
    assert_eq!(sel.selection_type, SelectionType::Word);
    assert_eq!(sel.start, Position::new(4, 0));
    assert_eq!(sel.end, Position::new(13, 0));
}

#[test]
fn expand_to_word_on_a_space_stays_put() {
    let grid = grid_with("foo bar");
    let mut sel = Selection::new(Position::new(3, 0), SelectionType::Character);
    sel.expand_to_word(&grid);
    assert_eq!(sel.start, Position::new(0, 0));
    assert_eq!(sel.end, Position::new(3, 0));
}

#[test]
fn expand_to_word_treats_letters_of_any_script_as_word() {
    let grid = grid_with("x éλ y");
    let mut sel = Selection::new(Position::new(3, 0), SelectionType::Character);
    sel.expand_to_word(&grid);
    assert_eq!(sel.start, Position::new(2, 0));
    assert_eq!(sel.end, Position::new(4, 0));
}

#[test]
fn expand_to_line_spans_the_width() {
    let mut sel = Selection::new(Position::new(7, 3), SelectionType::Character);
    sel.update_end(Position::new(2, 1));
    sel.expand_to_line(20);
    assert_eq!(sel.selection_type, SelectionType::Line);
    assert_eq!(sel.start, Position::new(0, 1));
    assert_eq!(sel.end, Position::new(19, 3));
    let mut zero = Selection::new(Position::new(0, 0), SelectionType::Character);
    zero.expand_to_line(0);
    assert_eq!(zero.end, Position::new(0, 0));
}

#[test]
fn expand_to_line_orders_a_reversed_block() {
    let mut sel = Selection::new(Position::new(5, 3), SelectionType::Block);
    sel.update_end(Position::new(1, 1));
    sel.expand_to_line(10);
    assert_eq!(sel.start, Position::new(0, 1));
    assert_eq!(sel.end, Position::new(9, 3));
}
