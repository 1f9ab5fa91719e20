use npcterm39::terminal::ansi_handler::{apply_csi, apply_esc, apply_execute, apply_print, AnsiHandler};
use npcterm39::terminal::cell::{Color, CursorShape, NamedColor};
use npcterm39::terminal::grid::TerminalGrid;

fn csi(grid: &mut TerminalGrid, params: &[&[u16]], inter: &[u8], c: char) {
    let ps: Vec<Vec<u16>> = params.iter().map(|p| p.to_vec()).collect();
    let mut h = AnsiHandler::new(grid);
    h.csi_dispatch(&ps, inter, false, c);
}

fn print(grid: &mut TerminalGrid, text: &str) {
    let mut h = AnsiHandler::new(grid);
    for c in text.chars() {
        h.print(c);
    }
}

#[test]
fn cursor_position_is_one_based() {
    let mut grid = TerminalGrid::new(10, 5, 10);
    csi(&mut grid, &[&[2], &[3]], &[], 'H');
    assert_eq!((grid.cursor().x, grid.cursor().y), (2, 1));
    csi(&mut grid, &[], &[], 'H');
    assert_eq!((grid.cursor().x, grid.cursor().y), (0, 0));
    csi(&mut grid, &[&[3]], &[], 'B');
    csi(&mut grid, &[&[4]], &[], 'C');
    assert_eq!((grid.cursor().x, grid.cursor().y), (4, 3));
    csi(&mut grid, &[&[0]], &[], 'A');
    assert_eq!(grid.cursor().y, 2);
    csi(&mut grid, &[&[7]], &[], 'G');
    assert_eq!(grid.cursor().x, 6);
    csi(&mut grid, &[&[99]], &[], 'd');
    assert_eq!(grid.cursor().y, 4);
}

#[test]
fn sgr_sets_the_pen_for_printed_cells() {
    let mut grid = TerminalGrid::new(10, 2, 10);
    csi(&mut grid, &[&[1], &[31]], &[], 'm');
    print(&mut grid, "x");
    let cell = *grid.get_cell(0, 0).unwrap();
    assert_eq!(cell.fg, Color::Named(NamedColor::Red));
    assert!(cell.attrs.bold);
    csi(&mut grid, &[&[38], &[5], &[200], &[48], &[2], &[1], &[2], &[3]], &[], 'm');
    print(&mut grid, "y");
    let cell = *grid.get_cell(1, 0).unwrap();
    assert_eq!(cell.fg, Color::Indexed(200));
    assert_eq!(cell.bg, Color::Rgb(1, 2, 3));
    csi(&mut grid, &[&[0]], &[], 'm');
    print(&mut grid, "z");
    let cell = *grid.get_cell(2, 0).unwrap();
    assert_eq!(cell.fg, Color::Default);
    assert!(!cell.attrs.bold);
    csi(&mut grid, &[&[95], &[22]], &[], 'm');
    assert_eq!(grid.pen().fg, Color::Named(NamedColor::BrightMagenta));
}

#[test]
fn device_status_reports_are_queued() {
    let mut grid = TerminalGrid::new(10, 5, 10);
    csi(&mut grid, &[&[3], &[4]], &[], 'H');
    csi(&mut grid, &[&[6]], &[], 'n');
    csi(&mut grid, &[&[5]], &[], 'n');
    assert_eq!(grid.take_responses(), vec!["\x1b[3;4R".to_string(), "\x1b[0n".to_string()]);
}

#[test]
fn erase_display_clears_the_screen() {
    let mut grid = TerminalGrid::new(4, 2, 10);
    print(&mut grid, "abcdefg");
    csi(&mut grid, &[&[2]], &[], 'J');
    assert!(grid.get_rows().iter().all(|r| r.iter().all(|c| c.c == ' ')));
}

#[test]
fn alternate_screen_mode_through_private_sequences() {
    let mut grid = TerminalGrid::new(5, 2, 10);
    print(&mut grid, "main");
    csi(&mut grid, &[&[1049]], &[b'?'], 'h');
    assert_eq!(grid.get_cell(0, 0).unwrap().c, ' ');
    print(&mut grid, "alt");
    csi(&mut grid, &[&[1049]], &[b'?'], 'l');
    assert_eq!(grid.get_cell(0, 0).unwrap().c, 'm');
    assert_eq!(grid.cursor().x, 4);
}

#[test]
fn escape_sequences_save_and_restore_the_cursor() {
    let mut grid = TerminalGrid::new(10, 5, 10);
    grid.goto(5, 3);
    {
        let mut h = AnsiHandler::new(&mut grid);
        h.esc_dispatch(&[], false, b'7');
        h.execute(b'\r');
        h.execute(b'\n');
        h.esc_dispatch(&[], false, b'8');
    }
    assert_eq!((grid.cursor().x, grid.cursor().y), (5, 3));
}

#[test]
fn bell_and_charset_designation() {
    let mut grid = TerminalGrid::new(10, 2, 10);
    {
        let mut h = AnsiHandler::new(&mut grid);
        h.execute(0x07);
        h.esc_dispatch(&[b'('], false, b'0');
        h.print('q');
    }
    assert!(grid.bell_pending());
    assert_eq!(grid.get_cell(0, 0).unwrap().c, '─');
}

#[test]
fn cursor_shape_and_visibility() {
    let mut grid = TerminalGrid::new(10, 2, 10);
    csi(&mut grid, &[&[5]], &[b' '], 'q');
    assert_eq!(grid.cursor().shape, CursorShape::Bar);
    csi(&mut grid, &[&[25]], &[b'?'], 'l');
    assert!(!grid.cursor().visible);
    csi(&mut grid, &[&[25]], &[b'?'], 'h');
    assert!(grid.cursor().visible);
}

#[test]
fn scroll_region_sequence() {
    let mut grid = TerminalGrid::new(10, 6, 10);
    csi(&mut grid, &[&[2], &[4]], &[], 'r');
    assert_eq!((grid.scroll_region_top(), grid.scroll_region_bottom()), (1, 3));
    assert_eq!((grid.cursor().x, grid.cursor().y), (0, 0));
}

#[test]
fn sequences_applied_to_a_grid_directly() {
    let mut grid = TerminalGrid::new(10, 4, 10);
    apply_print(&mut grid, 'a');
    apply_execute(&mut grid, b'\n');
    apply_csi(&mut grid, &vec![vec![1], vec![5]], &[], false, 'H');
    assert_eq!((grid.cursor().x, grid.cursor().y), (4, 0));
    apply_csi(&mut grid, &vec![vec![3], vec![3]], &[], true, 'H');
    assert_eq!((grid.cursor().x, grid.cursor().y), (4, 0));
    apply_esc(&mut grid, &[], false, b'D');
    assert_eq!(grid.cursor().y, 1);
    assert_eq!(grid.get_cell(0, 0).unwrap().c, 'a');
    assert_eq!((grid.cols(), grid.rows()), (10, 4));
}
