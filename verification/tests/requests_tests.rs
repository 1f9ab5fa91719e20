use npcterm39::input::mouse::MouseAction;
use npcterm39::mcp::requests::{mouse_action, read_max_lines, scroll_action, terminal_size, ScrollAction};

#[test]
fn named_sizes() {
    assert_eq!(terminal_size(Some("120x40")), (120, 40));
    assert_eq!(terminal_size(Some("160x40")), (160, 40));
    assert_eq!(terminal_size(Some("200x50")), (200, 50));
    assert_eq!(terminal_size(Some("80x24")), (80, 24));
    assert_eq!(terminal_size(Some("huge")), (80, 24));
    assert_eq!(terminal_size(None), (80, 24));
}

#[test]
fn mouse_requests() {
    assert!(matches!(
        mouse_action("left_click", Some(3), Some(4)),
        Ok(MouseAction::LeftClick { col: 3, row: 4 })
    ));
    assert!(matches!(mouse_action("move", None, Some(2)), Ok(MouseAction::MoveTo { col: 0, row: 2 })));
    assert!(matches!(
        mouse_action("double_click", Some(65537), None),
        Ok(MouseAction::DoubleClick { col: 1, row: 0 })
    ));
    assert!(matches!(mouse_action("get_position", Some(9), Some(9)), Ok(MouseAction::GetPosition)));
    assert!(matches!(mouse_action("right_click", Some(1), Some(1)), Ok(MouseAction::RightClick { .. })));
    assert!(matches!(mouse_action("set_position", Some(5), Some(6)), Ok(MouseAction::SetPosition { col: 5, row: 6 })));
    match mouse_action("wiggle", None, None) {
        Err(msg) => assert_eq!(msg, "Unknown action: wiggle"),
        Ok(_) => panic!("accepted an unknown action"),
    }
}

#[test]
fn changes_line_limit() {
    assert_eq!(read_max_lines(None), 50);
    assert_eq!(read_max_lines(Some(0)), 1);
    assert_eq!(read_max_lines(Some(120)), 120);
    assert_eq!(read_max_lines(Some(999)), 200);
}

#[test]
fn scroll_requests() {
    assert_eq!(scroll_action("page_up", None), Ok(ScrollAction::PageUp));
    assert_eq!(scroll_action("page_down", Some("x")), Ok(ScrollAction::PageDown));
    assert_eq!(scroll_action("search", Some("err")), Ok(ScrollAction::Search("err".to_string())));
    assert_eq!(scroll_action("search", Some("")), Err("Missing 'text' for search".to_string()));
    assert_eq!(scroll_action("search", None), Err("Missing 'text' for search".to_string()));
    assert_eq!(scroll_action("jump", None), Err("Unknown scroll action: jump".to_string()));
}
