use npcterm39::terminal::cell::{CharacterSet, Color, NamedColor, TerminalCell};
use npcterm39::terminal::grid::TerminalGrid;

fn write(grid: &mut TerminalGrid, text: &str) {
    for c in text.chars() {
        grid.put_char(c);
    }
}

fn row_text(grid: &TerminalGrid, y: usize) -> String {
    grid.get_rows()[y].iter().map(|c| c.c).collect()
}

#[test]
fn new_grid_is_blank_and_clean() {
    let grid = TerminalGrid::new(10, 3, 100);
    assert_eq!(grid.cols(), 10);
    assert_eq!(grid.rows(), 3);
    assert_eq!(grid.get_cell(9, 2), Some(&TerminalCell::default()));
    assert_eq!(grid.get_cell(10, 0), None);
    assert_eq!(grid.get_cell(0, 3), None);
    assert_eq!((grid.cursor().x, grid.cursor().y), (0, 0));
    assert_eq!(grid.scrollback_len(), 0);
    assert_eq!(grid.scroll_region_top(), 0);
    assert_eq!(grid.scroll_region_bottom(), 2);
    assert!(!grid.is_dirty());
    assert!(grid.peek_dirty_rows().is_empty());
}

#[test]
fn written_character_is_read_back_under_the_cursor() {
    let mut grid = TerminalGrid::new(10, 3, 100);
    write(&mut grid, "Hi");
    assert_eq!(grid.get_cell(0, 0).unwrap().c, 'H');
    assert_eq!(grid.get_cell(1, 0).unwrap().c, 'i');
    assert_eq!(grid.cursor().x, 2);
    assert!(grid.generation() > 0);
}

#[test]
fn dirty_rows_are_listed_once_then_cleared() {
    let mut grid = TerminalGrid::new(10, 4, 100);
    grid.goto(0, 2);
    write(&mut grid, "x");
    grid.goto(0, 0);
    write(&mut grid, "y");
    assert!(grid.is_dirty());
    assert_eq!(grid.peek_dirty_rows(), vec![0, 2]);
    assert_eq!(grid.take_dirty_rows(), vec![0, 2]);
    assert!(grid.peek_dirty_rows().is_empty());
    assert!(!grid.is_dirty());
    assert_eq!(grid.get_cell(0, 2).unwrap().c, 'x');
}

#[test]
fn wide_character_takes_two_cells() {
    let mut grid = TerminalGrid::new(10, 2, 100);
    write(&mut grid, "中a");
    let first = grid.get_cell(0, 0).unwrap();
    assert_eq!(first.c, '中');
    assert!(first.wide);
    assert_eq!(grid.get_cell(1, 0).unwrap().c, ' ');
    assert!(!grid.get_cell(1, 0).unwrap().wide);
    assert_eq!(grid.get_cell(2, 0).unwrap().c, 'a');
    assert_eq!(grid.cursor().x, 3);
}

#[test]
fn zero_width_character_is_dropped() {
    let mut grid = TerminalGrid::new(10, 2, 100);
    write(&mut grid, "e\u{0301}");
    assert_eq!(grid.cursor().x, 1);
    assert_eq!(grid.get_cell(1, 0).unwrap().c, ' ');
}

#[test]
fn control_characters_move_the_cursor() {
    let mut grid = TerminalGrid::new(20, 3, 100);
    write(&mut grid, "ab\r\ncd\tX\x08Y");
    assert_eq!(row_text(&grid, 0).trim_end(), "ab");
    assert_eq!(grid.get_cell(8, 1).unwrap().c, 'Y');
    assert_eq!((grid.cursor().x, grid.cursor().y), (9, 1));
}

#[test]
fn line_wraps_at_the_right_margin() {
    let mut grid = TerminalGrid::new(3, 2, 100);
    write(&mut grid, "abcd");
    assert_eq!(row_text(&grid, 0), "abc");
    assert_eq!(row_text(&grid, 1), "d  ");
    assert_eq!((grid.cursor().x, grid.cursor().y), (1, 1));
}

#[test]
fn scrolling_moves_lines_into_bounded_scrollback() {
    let mut grid = TerminalGrid::new(4, 2, 2);
    write(&mut grid, "top");
    grid.scroll_up(1);
    assert_eq!(grid.scrollback_len(), 1);
    assert_eq!(grid.get_scrollback_line(0).unwrap()[0].c, 't');
    assert_eq!(row_text(&grid, 0), "    ");
    grid.scroll_up(5);
    assert_eq!(grid.scrollback_len(), 2);
    assert!(grid.get_scrollback_line(2).is_none());
}

#[test]
fn scroll_down_inserts_blank_line_at_top() {
    let mut grid = TerminalGrid::new(3, 3, 10);
    write(&mut grid, "abc");
    grid.scroll_down(1);
    assert_eq!(row_text(&grid, 0), "   ");
    assert_eq!(row_text(&grid, 1), "abc");
    assert_eq!(grid.scrollback_len(), 0);
}

#[test]
fn alternate_screen_round_trip_restores_main_screen() {
    let mut grid = TerminalGrid::new(6, 2, 10);
    write(&mut grid, "main");
    grid.use_alt_screen();
    assert_eq!(row_text(&grid, 0), "      ");
    assert_eq!(grid.cursor().x, 0);
    write(&mut grid, "alt");
    grid.use_main_screen();
    assert_eq!(row_text(&grid, 0), "main  ");
    assert_eq!((grid.cursor().x, grid.cursor().y), (4, 0));
}

#[test]
fn save_and_restore_cursor() {
    let mut grid = TerminalGrid::new(10, 5, 10);
    grid.goto(3, 1);
    grid.save_cursor();
    grid.goto(0, 4);
    grid.restore_cursor();
    assert_eq!((grid.cursor().x, grid.cursor().y), (3, 1));
    grid.goto(100, 100);
    assert_eq!((grid.cursor().x, grid.cursor().y), (9, 4));
    grid.restore_cursor_position();
    assert_eq!((grid.cursor().x, grid.cursor().y), (3, 1));
}

#[test]
fn move_cursor_clamps_to_the_screen() {
    let mut grid = TerminalGrid::new(10, 5, 10);
    grid.goto(2, 2);
    grid.move_cursor(-5, 1);
    assert_eq!((grid.cursor().x, grid.cursor().y), (0, 3));
    grid.move_cursor(20, 20);
    assert_eq!((grid.cursor().x, grid.cursor().y), (9, 4));
}

#[test]
fn scroll_region_is_kept_valid() {
    let mut grid = TerminalGrid::new(10, 5, 10);
    grid.set_scroll_region(1, 3);
    assert_eq!((grid.scroll_region_top(), grid.scroll_region_bottom()), (1, 3));
    grid.set_scroll_region(3, 1);
    assert_eq!((grid.scroll_region_top(), grid.scroll_region_bottom()), (0, 4));
    grid.set_origin_mode(true);
    grid.set_scroll_region(2, 4);
    assert_eq!(grid.cursor().y, 2);
    grid.goto_origin_aware(1, 1);
    assert_eq!((grid.cursor().x, grid.cursor().y), (1, 3));
}

#[test]
fn erasing_leaves_spaces() {
    let mut grid = TerminalGrid::new(5, 2, 10);
    write(&mut grid, "abcde");
    grid.goto(2, 0);
    grid.erase_to_eol();
    assert_eq!(row_text(&grid, 0), "ab   ");
    assert_eq!(grid.get_cell(3, 0).unwrap().fg, Color::Named(NamedColor::White));
    grid.goto(0, 0);
    write(&mut grid, "xyz");
    grid.goto(1, 0);
    grid.erase_to_bol();
    assert_eq!(row_text(&grid, 0), "  z  ");
    grid.clear_line();
    assert_eq!(row_text(&grid, 0), "     ");
}

#[test]
fn insert_and_delete_characters_shift_the_row() {
    let mut grid = TerminalGrid::new(5, 1, 10);
    write(&mut grid, "abcde");
    grid.goto(1, 0);
    grid.delete_chars(2);
    assert_eq!(row_text(&grid, 0), "ade  ");
    grid.insert_chars(1);
    assert_eq!(row_text(&grid, 0), "a de ");
    grid.erase_chars(10);
    assert_eq!(row_text(&grid, 0), "a    ");
}

#[test]
fn cursor_position_report_is_one_based() {
    let mut grid = TerminalGrid::new(10, 5, 10);
    grid.goto(4, 2);
    grid.queue_cursor_position_report();
    assert_eq!(grid.take_responses(), vec!["\x1b[3;5R".to_string()]);
    assert!(grid.take_responses().is_empty());
}

#[test]
fn dec_special_graphics_maps_line_drawing() {
    let mut grid = TerminalGrid::new(10, 2, 10);
    grid.set_charset_g0(CharacterSet::DecSpecialGraphics);
    assert_eq!(grid.map_char('q'), '─');
    assert_eq!(grid.map_char('A'), 'A');
    grid.shift_out();
    assert_eq!(grid.active_charset(), CharacterSet::Ascii);
    assert_eq!(grid.map_char('q'), 'q');
    grid.shift_in();
    assert_eq!(grid.active_charset(), CharacterSet::DecSpecialGraphics);
}

#[test]
fn reset_returns_to_a_blank_screen() {
    let mut grid = TerminalGrid::new(5, 3, 10);
    write(&mut grid, "abc");
    grid.scroll_up(1);
    grid.set_scroll_region(1, 2);
    grid.reset();
    assert_eq!(row_text(&grid, 0), "     ");
    assert_eq!(grid.scrollback_len(), 0);
    assert_eq!((grid.cursor().x, grid.cursor().y), (0, 0));
    assert_eq!((grid.scroll_region_top(), grid.scroll_region_bottom()), (0, 2));
}

#[test]
fn synchronized_output_renders_the_snapshot() {
    let mut grid = TerminalGrid::new(5, 2, 10);
    write(&mut grid, "a");
    grid.begin_synchronized_output();
    write(&mut grid, "b");
    assert_eq!(grid.get_render_cursor().x, 1);
    assert_eq!(grid.cursor().x, 2);
    assert_eq!(grid.get_render_cell(1, 0).unwrap().c, ' ');
    assert_eq!(grid.get_cell(1, 0).unwrap().c, 'b');
    grid.end_synchronized_output();
    assert_eq!(grid.get_render_cell(1, 0).unwrap().c, 'b');
    assert_eq!(grid.get_render_cursor().x, 2);
}

#[test]
fn cell_reset_gives_a_blank_cell() {
    let mut grid = TerminalGrid::new(3, 1, 10);
    write(&mut grid, "q");
    let cell = grid.get_cell_mut(0, 0).unwrap();
    cell.reset();
    assert_eq!(grid.get_cell(0, 0), Some(&TerminalCell::default()));
}
