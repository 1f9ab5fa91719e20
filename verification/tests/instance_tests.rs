use npcterm39::input::mouse::MouseAction;
use npcterm39::manager::instance::TerminalInstance;
use npcterm39::status::events::TerminalEvent;
use npcterm39::status::query::TerminalState;
use npcterm39::terminal::grid::TerminalGrid;

fn instance(cols: usize, rows: usize) -> TerminalInstance {
    TerminalInstance::new("a0".to_string(), TerminalGrid::new(cols, rows, 10), "2026-01-01T00:00:00+00:00".to_string())
}

fn write(inst: &mut TerminalInstance, text: &str) {
    for c in text.chars() {
        inst.grid_mut().put_char(c);
    }
}

fn kinds(events: &[TerminalEvent]) -> Vec<String> {
    events
        .iter()
        .map(|e| match e {
            TerminalEvent::CommandFinished { exit_code } => format!("finished {}", exit_code),
            TerminalEvent::WaitingForInput => "waiting".to_string(),
            TerminalEvent::Bell => "bell".to_string(),
            TerminalEvent::ProcessStateChanged { old, new } => {
                format!("{}->{}", old.to_string(), new.to_string())
            }
            TerminalEvent::ScreenChanged { changed_rows } => format!("screen {:?}", changed_rows),
        })
        .collect()
}

#[test]
fn fresh_instance() {
    let inst = instance(80, 24);
    assert_eq!(inst.id(), "a0");
    assert_eq!((inst.cols(), inst.rows()), (80, 24));
    assert_eq!(inst.state(), TerminalState::Running);
    assert_eq!(inst.scroll_offset(), 0);
    assert!(inst.selection().is_none());
    assert_eq!(inst.created_at(), "2026-01-01T00:00:00+00:00");
    assert!(inst.running_command().is_none());
    let status = inst.get_status(3, None, None);
    assert_eq!(status.pending_events, 0);
    assert_eq!(status.size, (80, 24));
    assert!(!status.dirty && !status.has_new_content);
}

#[test]
fn tick_reports_bell_and_changed_rows() {
    let mut inst = instance(10, 3);
    inst.grid_mut().set_bell_pending(true);
    inst.grid_mut().goto(0, 1);
    write(&mut inst, "x");
    inst.tick(true, None, Some(10), Some("vim".to_string()));
    assert!(!inst.grid().bell_pending());
    assert_eq!(inst.state(), TerminalState::Running);
    assert_eq!(kinds(&inst.poll_events()), vec!["bell", "screen [1]"]);
    assert_eq!(inst.running_command(), Some("vim".to_string()));
    assert!(inst.poll_events().is_empty());
}

#[test]
fn tick_detects_the_shell_waiting_for_input() {
    let mut inst = instance(10, 3);
    inst.tick(true, None, None, Some("zsh".to_string()));
    assert_eq!(inst.state(), TerminalState::WaitingForInput);
    assert_eq!(kinds(&inst.poll_events()), vec!["running->waiting_for_input", "waiting"]);
    inst.tick(true, None, None, Some("zsh".to_string()));
    assert!(inst.poll_events().is_empty());
    inst.tick(true, None, Some(2000), Some("zshell".to_string()));
    assert_eq!(inst.state(), TerminalState::Idle);
    assert_eq!(kinds(&inst.poll_events()), vec!["waiting_for_input->idle"]);
}

#[test]
fn tick_reports_the_end_of_the_command() {
    let mut inst = instance(10, 3);
    inst.tick(false, Some(3), None, None);
    assert_eq!(inst.state(), TerminalState::Exited);
    assert_eq!(kinds(&inst.poll_events()), vec!["running->exited", "finished 3"]);
    let mut other = instance(10, 3);
    other.tick(true, Some(0), None, None);
    other.tick(false, None, None, None);
    assert_eq!(kinds(&other.poll_events()), vec!["running->exited", "finished 0"]);
    let mut unknown = instance(10, 3);
    unknown.tick(false, None, None, None);
    assert_eq!(kinds(&unknown.poll_events()), vec!["running->exited", "finished -1"]);
}

#[test]
fn clicks_are_reported_only_when_asked_for() {
    let mut inst = instance(10, 3);
    let (result, writes) = inst.send_mouse(MouseAction::LeftClick { col: 3, row: 1 });
    assert_eq!((result.mouse_col, result.mouse_row), (3, 1));
    assert!(result.selected_text.is_none());
    assert!(writes.is_empty());
    let mut modes = inst.grid().modes();
    modes.mouse_normal_tracking = true;
    modes.mouse_sgr_mode = true;
    inst.grid_mut().set_modes(modes);
    let (_, writes) = inst.send_mouse(MouseAction::RightClick { col: 4, row: 2 });
    assert_eq!(writes, vec![b"\x1b[<2;5;3M".to_vec(), b"\x1b[<2;5;3m".to_vec()]);
    let (_, moves) = inst.send_mouse(MouseAction::MoveTo { col: 1, row: 1 });
    assert!(moves.is_empty());
    modes.mouse_any_event_tracking = true;
    inst.grid_mut().set_modes(modes);
    let (_, moves) = inst.send_mouse(MouseAction::MoveTo { col: 1, row: 1 });
    assert_eq!(moves, vec![b"\x1b[<35;2;2M".to_vec()]);
    let (pos, _) = inst.send_mouse(MouseAction::GetPosition);
    assert_eq!((pos.mouse_col, pos.mouse_row), (1, 1));
    inst.send_mouse(MouseAction::SetPosition { col: 9, row: 0 });
    assert_eq!((inst.mouse_state().col, inst.mouse_state().row), (9, 0));
}

#[test]
fn double_click_selects_the_word() {
    let mut inst = instance(20, 2);
    write(&mut inst, "hello world");
    let (result, writes) = inst.send_mouse(MouseAction::DoubleClick { col: 7, row: 0 });
    assert_eq!(result.selected_text, Some("world".to_string()));
    assert!(writes.is_empty());
    let sel = inst.selection().unwrap();
    assert_eq!((sel.start.col, sel.end.col), (6, 11));
}

#[test]
fn select_range_across_rows() {
    let mut inst = instance(6, 3);
    write(&mut inst, "ab\r\ncd   \r\n  ef");
    assert_eq!(inst.select_range(0, 0, 1, 0), "ab");
    assert_eq!(inst.select_range(1, 0, 0, 1), "b\nc");
    assert_eq!(inst.select_range(5, 2, 0, 0), "ab\ncd\n  ef");
    assert_eq!(inst.select_range(4, 2, 4, 2), "");
    assert!(inst.selection().is_some());
}

#[test]
fn paging_through_the_scrollback() {
    let mut inst = instance(5, 2);
    write(&mut inst, "l1\r\nl2\r\nl3\r\nl4\r\nl5");
    assert_eq!(inst.grid().scrollback_len(), 3);
    assert_eq!(inst.scroll_page_up(), 2);
    assert_eq!(inst.scroll_page_up(), 3);
    assert_eq!(inst.scroll_page_down(), 1);
    assert_eq!(inst.scroll_page_down(), 0);
    assert_eq!(inst.scroll_page_down(), 0);
}

#[test]
fn reading_a_scrolled_back_screen() {
    let mut inst = instance(5, 2);
    write(&mut inst, "l1\r\nl2\r\nl3");
    assert_eq!(inst.scroll_page_up(), 1);
    let text = inst.read_screen();
    assert_eq!(text, "   00000\n   00000\n   01234\n00 l1   \n01 l2   \n");
    assert!(!inst.grid().is_dirty());
    inst.scroll_page_down();
    assert_eq!(inst.read_screen(), "   00000\n   01234\n00 l2\n01 l3\n");
}

#[test]
fn searching_scrolls_to_the_latest_match() {
    let mut inst = instance(8, 2);
    write(&mut inst, "Error a\r\nok\r\nERROR b\r\nlast\r\nnow");
    assert_eq!(inst.grid().scrollback_len(), 3);
    assert_eq!(inst.scroll_to_text("error"), (1, true));
    assert_eq!(inst.scroll_offset(), 1);
    assert_eq!(inst.scroll_to_text("NOW"), (0, true));
    assert_eq!(inst.scroll_page_up(), 2);
    assert_eq!(inst.scroll_to_text("missing"), (2, false));
    assert_eq!(inst.scroll_to_text("a"), (3, true));
}

#[test]
fn status_reports_screen_and_process() {
    let mut inst = instance(6, 3);
    write(&mut inst, "top\r\nnext");
    let st = inst.get_status(2, Some(1), Some("bash".to_string()));
    assert_eq!(st.state, TerminalState::Running);
    assert_eq!(st.exit_code, Some(1));
    assert_eq!(st.running_command, Some("bash".to_string()));
    assert_eq!(st.last_lines, vec!["top".to_string(), "next".to_string()]);
    assert_eq!(st.cursor_pos, (4, 1));
    assert!(st.cursor_visible);
    assert!(st.dirty && st.has_new_content);
    assert_eq!(st.changed_rows, vec![0, 1]);
    assert_eq!(st.scrollback_lines, 0);
    let _ = inst.read_screen();
    assert!(!inst.get_status(1, None, None).dirty);
}

#[test]
fn reading_rows_and_regions_through_the_instance() {
    let plain = instance(3, 1);
    assert_eq!(plain.show_screen(), "   \n");
    let mut inst = instance(6, 3);
    write(&mut inst, "abcdef\r\nghi");
    assert_eq!(inst.read_rows(1, 2), "   000000\n   012345\n01 ghi\n");
    assert_eq!(inst.read_region(2, 0, 4, 2), "00 cd\n01 i \n");
}

#[test]
fn selecting_wide_characters_keeps_them_whole() {
    let mut inst = instance(10, 2);
    write(&mut inst, "中文 ok");
    assert_eq!(inst.select_range(0, 0, 9, 0), "中文 ok");
    assert_eq!(inst.select_range(1, 0, 3, 0), "文");
    let (result, _) = inst.send_mouse(MouseAction::DoubleClick { col: 0, row: 0 });
    assert_eq!(result.selected_text, Some("中".to_string()));
}
