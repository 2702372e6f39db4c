use frost::pane::{
    encode_sgr_mouse, log_pane_dims, window_to_grid_coords, window_to_pty_coords, KeyModifiers, MouseButton,
    MouseEventKind, LOG_PANE_INNER_X, LOG_PANE_INNER_Y, MIN_PTY_COLS, MIN_PTY_ROWS,
};
use frost::selection::GridPoint;

#[test]
fn log_pane_dims_typical_terminal() {
    let (cols, rows) = log_pane_dims(120, 30);
    assert_eq!(cols, 88);
    assert_eq!(rows, 25);
}

#[test]
fn log_pane_dims_clamps_to_minimum_on_tiny_terminal() {
    let (cols, rows) = log_pane_dims(10, 4);
    assert_eq!(cols, MIN_PTY_COLS);
    assert_eq!(rows, MIN_PTY_ROWS);
}

#[test]
fn log_pane_dims_large_terminal() {
    let (cols, rows) = log_pane_dims(220, 60);
    assert_eq!(cols, 220 - 30 - 2);
    assert_eq!(rows, 60 - 3 - 2);
}

#[test]
fn log_pane_dims_zero_dimensions_clamp() {
    let (cols, rows) = log_pane_dims(0, 0);
    assert_eq!(cols, MIN_PTY_COLS);
    assert_eq!(rows, MIN_PTY_ROWS);
}

#[test]
fn window_to_pty_coords_inside_pane_is_one_based() {
    let cell = window_to_pty_coords(LOG_PANE_INNER_X, LOG_PANE_INNER_Y, 80, 24);
    assert_eq!(cell, Some((1, 1)));
    let cell = window_to_pty_coords(LOG_PANE_INNER_X + 4, LOG_PANE_INNER_Y + 2, 80, 24);
    assert_eq!(cell, Some((5, 3)));
}

#[test]
fn window_to_pty_coords_outside_pane_is_none() {
    assert_eq!(window_to_pty_coords(5, 5, 80, 24), None);
    assert_eq!(window_to_pty_coords(LOG_PANE_INNER_X + 80, LOG_PANE_INNER_Y, 80, 24), None);
    assert_eq!(window_to_pty_coords(LOG_PANE_INNER_X, LOG_PANE_INNER_Y + 24, 80, 24), None);
}

#[test]
fn window_to_grid_coords_is_zero_based() {
    assert_eq!(
        window_to_grid_coords(LOG_PANE_INNER_X + 4, LOG_PANE_INNER_Y + 2, 80, 24),
        Some(GridPoint { row: 2, col: 4 })
    );
    assert_eq!(window_to_grid_coords(0, 0, 80, 24), None);
}

#[test]
fn log_pane_dims_just_above_minimum() {
    assert_eq!(log_pane_dims(53, 11), (21, 6));
    assert_eq!(log_pane_dims(52, 10), (20, 5));
}

#[test]
fn encode_sgr_mouse_left_press_no_mods() {
    let bytes = encode_sgr_mouse(MouseEventKind::Down(MouseButton::Left), KeyModifiers::none(), 1, 1).unwrap();
    assert_eq!(bytes, b"\x1B[<0;1;1M");
}

#[test]
fn encode_sgr_mouse_left_release_is_lowercase_m() {
    let bytes = encode_sgr_mouse(MouseEventKind::Up(MouseButton::Left), KeyModifiers::none(), 5, 3).unwrap();
    assert_eq!(bytes, b"\x1B[<0;5;3m");
}

#[test]
fn encode_sgr_mouse_right_with_ctrl_shift() {
    let mut mods = KeyModifiers::none();
    mods.shift = true;
    mods.control = true;
    let bytes = encode_sgr_mouse(MouseEventKind::Down(MouseButton::Right), mods, 10, 7).unwrap();
    assert_eq!(bytes, b"\x1B[<22;10;7M");
}

#[test]
fn encode_sgr_mouse_drag_adds_32() {
    let bytes = encode_sgr_mouse(MouseEventKind::Drag(MouseButton::Left), KeyModifiers::none(), 4, 2).unwrap();
    assert_eq!(bytes, b"\x1B[<32;4;2M");
}

#[test]
fn encode_sgr_mouse_wheel_up_is_64() {
    let bytes = encode_sgr_mouse(MouseEventKind::ScrollUp, KeyModifiers::none(), 12, 8).unwrap();
    assert_eq!(bytes, b"\x1B[<64;12;8M");
}

#[test]
fn encode_sgr_mouse_wheel_down_is_65() {
    let bytes = encode_sgr_mouse(MouseEventKind::ScrollDown, KeyModifiers::none(), 12, 8).unwrap();
    assert_eq!(bytes, b"\x1B[<65;12;8M");
}

#[test]
fn encode_sgr_mouse_alt_and_motion() {
    let mut mods = KeyModifiers::none();
    mods.alt = true;
    let bytes = encode_sgr_mouse(MouseEventKind::Moved, mods, 100, 200).unwrap();
    assert_eq!(bytes, b"\x1B[<43;100;200M");
    let bytes = encode_sgr_mouse(MouseEventKind::ScrollRight, KeyModifiers::none(), 1, 1).unwrap();
    assert_eq!(bytes, b"\x1B[<67;1;1M");
}
