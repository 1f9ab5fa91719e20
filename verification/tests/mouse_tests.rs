use npcterm39::input::mouse::{sgr_mouse_move, sgr_mouse_press, sgr_mouse_release, MouseState};

#[test]
fn press_report_is_one_based() {
    assert_eq!(sgr_mouse_press(0, 4, 9), b"\x1b[<0;5;10M".to_vec());
    assert_eq!(sgr_mouse_press(2, 119, 39), b"\x1b[<2;120;40M".to_vec());
}

#[test]
fn release_report_ends_in_lowercase_m() {
    assert_eq!(sgr_mouse_release(2, 0, 0), b"\x1b[<2;1;1m".to_vec());
    assert_eq!(sgr_mouse_release(255, 65533, 9999), b"\x1b[<255;65534;10000m".to_vec());
}

#[test]
fn motion_report_uses_button_35() {
    assert_eq!(sgr_mouse_move(79, 23), b"\x1b[<35;80;24M".to_vec());
}

#[test]
fn mouse_state_default_and_set() {
    let mut m = MouseState::default();
    assert_eq!((m.col, m.row), (0, 0));
    m.set(12, 7);
    assert_eq!((m.col, m.row), (12, 7));
}
