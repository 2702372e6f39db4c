//! Geometry of the log pane and the SGR encoding of mouse events that are
//! forwarded to a child process.
use vstd::prelude::*;
use crate::selection::GridPoint;
use crate::text::{decimal, push_decimal};

verus! {

/// Width of the sidebar to the left of the log pane.
pub const SIDEBAR_WIDTH: u16 = 30;
/// Height of the command bar below the log pane.
pub const COMMAND_BAR_HEIGHT: u16 = 3;
/// Border cells around the log pane, both sides together.
pub const PANE_BORDER: u16 = 2;
/// Smallest PTY width ever handed to a child.
pub const MIN_PTY_COLS: u16 = 20;
/// Smallest PTY height ever handed to a child.
pub const MIN_PTY_ROWS: u16 = 5;
/// Window column of the log pane's first inner cell.
pub const LOG_PANE_INNER_X: u16 = SIDEBAR_WIDTH + 1;
/// Window row of the log pane's first inner cell.
pub const LOG_PANE_INNER_Y: u16 = 1;

/// `a - b`, floored at zero.
pub open spec fn sat_sub(a: int, b: int) -> int {
    if a > b { a - b } else { 0 }
}

/// The larger of two integers.
pub open spec fn max_int(a: int, b: int) -> int {
    if a >= b { a } else { b }
}

/// The PTY columns matching the log pane of a terminal `w` cells wide.
pub open spec fn pane_cols(w: int) -> int {
    max_int(sat_sub(sat_sub(w, SIDEBAR_WIDTH as int), PANE_BORDER as int), MIN_PTY_COLS as int)
}

/// The PTY rows matching the log pane of a terminal `h` cells high.
pub open spec fn pane_rows(h: int) -> int {
    max_int(sat_sub(sat_sub(h, COMMAND_BAR_HEIGHT as int), PANE_BORDER as int), MIN_PTY_ROWS as int)
}

/// The PTY dimensions `(cols, rows)` that fit the inner area of the log pane
/// for a terminal `terminal_width` by `terminal_height`: the width less the
/// sidebar and border, the height less the command bar and border, never
/// below the minimums.
pub fn log_pane_dims(terminal_width: u16, terminal_height: u16) -> (r: (u16, u16))
    ensures
        r.0 == pane_cols(terminal_width as int),
        r.1 == pane_rows(terminal_height as int),
        r.0 >= MIN_PTY_COLS,
        r.1 >= MIN_PTY_ROWS,
{
    let c1 = if terminal_width > SIDEBAR_WIDTH { terminal_width - SIDEBAR_WIDTH } else { 0 };
    let c2 = if c1 > PANE_BORDER { c1 - PANE_BORDER } else { 0 };
    let cols = if c2 >= MIN_PTY_COLS { c2 } else { MIN_PTY_COLS };
    let r1 = if terminal_height > COMMAND_BAR_HEIGHT { terminal_height - COMMAND_BAR_HEIGHT } else { 0 };
    let r2 = if r1 > PANE_BORDER { r1 - PANE_BORDER } else { 0 };
    let rows = if r2 >= MIN_PTY_ROWS { r2 } else { MIN_PTY_ROWS };
    (cols, rows)
}

/// The 1-based PTY cell under window cell `(col, row)`, if it is inside a
/// log pane of `pane_cols` by `pane_rows` cells.
pub open spec fn pty_cell(col: int, row: int, pane_cols: int, pane_rows: int) -> Option<(int, int)> {
    if col < LOG_PANE_INNER_X || row < LOG_PANE_INNER_Y
        || col - LOG_PANE_INNER_X >= pane_cols || row - LOG_PANE_INNER_Y >= pane_rows {
        None
    } else {
        Some((col - LOG_PANE_INNER_X + 1, row - LOG_PANE_INNER_Y + 1))
    }
}

/// A window cell maps to a PTY cell inside the pane, 1-based, and each
/// PTY cell comes from exactly one window cell.
pub proof fn law_pty_cell_in_pane(col: int, row: int, pane_cols: int, pane_rows: int)
    ensures
        pty_cell(col, row, pane_cols, pane_rows) matches Some(c) ==> 1 <= c.0 <= pane_cols && 1 <= c.1 <= pane_rows,
        forall|x: int, y: int| 1 <= x <= pane_cols && 1 <= y <= pane_rows ==> #[trigger] pty_cell(
            x + LOG_PANE_INNER_X - 1,
            y + LOG_PANE_INNER_Y - 1,
            pane_cols,
            pane_rows,
        ) == Some((x, y)),
{
}

/// Translate a window-absolute mouse position into a 1-based PTY cell, or
/// `None` when it falls outside the log pane's inner area.
pub fn window_to_pty_coords(window_col: u16, window_row: u16, pane_cols: u16, pane_rows: u16) -> (r:
    Option<(u16, u16)>)
    ensures
        match pty_cell(window_col as int, window_row as int, pane_cols as int, pane_rows as int) {
            Some(p) => r matches Some(q) && q.0 == p.0 && q.1 == p.1,
            None => r is None,
        },
{
    if window_col < LOG_PANE_INNER_X || window_row < LOG_PANE_INNER_Y {
        return None;
    }
    let pty_col = window_col - LOG_PANE_INNER_X;
    let pty_row = window_row - LOG_PANE_INNER_Y;
    if pty_col >= pane_cols || pty_row >= pane_rows {
        return None;
    }
    Some((pty_col + 1, pty_row + 1))
}

/// The same translation as [`window_to_pty_coords`] but 0-based, as the
/// grid row and column the renderer uses.
pub fn window_to_grid_coords(window_col: u16, window_row: u16, pane_cols: u16, pane_rows: u16) -> (r:
    Option<GridPoint>)
    ensures
        match pty_cell(window_col as int, window_row as int, pane_cols as int, pane_rows as int) {
            Some(p) => r matches Some(g) && g.row == p.1 - 1 && g.col == p.0 - 1,
            None => r is None,
        },
{
    match window_to_pty_coords(window_col, window_row, pane_cols, pane_rows) {
        Some((x, y)) => Some(GridPoint { row: (y - 1) as usize, col: (x - 1) as usize }),
        None => None,
    }
}

/// A mouse button.
#[derive(Debug, Clone, Copy, PartialEq, Eq, Structural)]
pub enum MouseButton {
    Left,
    Right,
    Middle,
}

/// What a mouse event did.
#[derive(Debug, Clone, Copy, PartialEq, Eq, Structural)]
pub enum MouseEventKind {
    Down(MouseButton),
    Up(MouseButton),
    Drag(MouseButton),
    Moved,
    ScrollDown,
    ScrollUp,
    ScrollLeft,
    ScrollRight,
}

/// The modifier keys held during a key or mouse event.
#[derive(Debug, Clone, Copy, PartialEq, Eq, Structural)]
pub struct KeyModifiers {
    pub shift: bool,
    pub control: bool,
    pub alt: bool,
    pub super_key: bool,
    pub hyper: bool,
    pub meta: bool,
}

impl KeyModifiers {
    /// No modifier held.
    pub fn none() -> (m: Self)
        ensures
            m.is_none_spec(),
    {
        KeyModifiers { shift: false, control: false, alt: false, super_key: false, hyper: false, meta: false }
    }

    pub open spec fn is_none_spec(self) -> bool {
        !self.shift && !self.control && !self.alt && !self.super_key && !self.hyper && !self.meta
    }

    /// Whether no modifier is held.
    pub fn is_empty(&self) -> (b: bool)
        ensures
            b == self.is_none_spec(),
    {
        !self.shift && !self.control && !self.alt && !self.super_key && !self.hyper && !self.meta
    }

    /// Shift alone.
    pub fn shift_only() -> (m: Self)
        ensures
            m.shift,
            !m.control && !m.alt && !m.super_key && !m.hyper && !m.meta,
    {
        KeyModifiers { shift: true, control: false, alt: false, super_key: false, hyper: false, meta: false }
    }

    /// Shift alone, as a value.
    pub open spec fn shift_spec() -> Self {
        KeyModifiers { shift: true, control: false, alt: false, super_key: false, hyper: false, meta: false }
    }

    /// Whether exactly Shift is held.
    pub fn is_shift_only(&self) -> (b: bool)
        ensures
            b == (*self == Self::shift_spec()),
    {
        self.shift && !self.control && !self.alt && !self.super_key && !self.hyper && !self.meta
    }

    /// Control alone.
    pub fn control_only() -> (m: Self)
        ensures
            m.control,
            !m.shift && !m.alt && !m.super_key && !m.hyper && !m.meta,
    {
        KeyModifiers { shift: false, control: true, alt: false, super_key: false, hyper: false, meta: false }
    }
}

/// A mouse event at window cell `(column, row)`.
#[derive(Debug, Clone, Copy, PartialEq, Eq, Structural)]
pub struct MouseEvent {
    pub kind: MouseEventKind,
    pub column: u16,
    pub row: u16,
    pub modifiers: KeyModifiers,
}

/// The SGR button number of a mouse button.
pub open spec fn button_base(b: MouseButton) -> int {
    match b {
        MouseButton::Left => 0,
        MouseButton::Middle => 1,
        MouseButton::Right => 2,
    }
}

/// The SGR "Cb" value of an event kind without modifiers, and whether it is
/// a press (as opposed to a release).
pub open spec fn kind_base(kind: MouseEventKind) -> (int, bool) {
    match kind {
        MouseEventKind::Down(b) => (button_base(b), true),
        MouseEventKind::Up(b) => (button_base(b), false),
        MouseEventKind::Drag(b) => (button_base(b) + 32, true),
        MouseEventKind::Moved => (35, true),
        MouseEventKind::ScrollUp => (64, true),
        MouseEventKind::ScrollDown => (65, true),
        MouseEventKind::ScrollLeft => (66, true),
        MouseEventKind::ScrollRight => (67, true),
    }
}

/// The full SGR "Cb" value: the kind's base plus 4 for shift, 8 for alt and
/// 16 for control.
pub open spec fn sgr_code(kind: MouseEventKind, mods: KeyModifiers) -> int {
    kind_base(kind).0 + (if mods.shift { 4int } else { 0 }) + (if mods.alt { 8int } else { 0 })
        + (if mods.control { 16int } else { 0 })
}

/// The button number of a mouse button: left 0, middle 1, right 2.
pub fn mouse_button_base(b: MouseButton) -> (r: u8)
    ensures
        r == button_base(b),
{
    match b {
        MouseButton::Left => 0,
        MouseButton::Middle => 1,
        MouseButton::Right => 2,
    }
}

/// The SGR "Cb" parameter (button, motion and modifier bits) of a mouse
/// event, with whether it reports a press or motion (`true`) or a release.
pub fn sgr_mouse_button_code(kind: MouseEventKind, mods: KeyModifiers) -> (r: Option<(u16, bool)>)
    ensures
        r matches Some(p) && p.0 == sgr_code(kind, mods) && p.1 == kind_base(kind).1,
{
    let (base, is_press): (u8, bool) = match kind {
        MouseEventKind::Down(b) => (mouse_button_base(b), true),
        MouseEventKind::Up(b) => (mouse_button_base(b), false),
        MouseEventKind::Drag(b) => (mouse_button_base(b) + 32, true),
        MouseEventKind::Moved => (35, true),
        MouseEventKind::ScrollUp => (64, true),
        MouseEventKind::ScrollDown => (65, true),
        MouseEventKind::ScrollLeft => (66, true),
        MouseEventKind::ScrollRight => (67, true),
    };
    let mut code: u16 = base as u16;
    if mods.shift {
        code += 4;
    }
    if mods.alt {
        code += 8;
    }
    if mods.control {
        code += 16;
    }
    Some((code, is_press))
}

/// The SGR (DEC 1006) bytes of a mouse event at 1-based cell `(col, row)`:
/// `ESC [ < Cb ; col ; row` then `M` for a press or motion, `m` for a release.
pub open spec fn sgr_bytes(kind: MouseEventKind, mods: KeyModifiers, col: nat, row: nat) -> Seq<u8> {
    seq![0x1Bu8, 0x5Bu8, 0x3Cu8] + decimal(sgr_code(kind, mods) as nat) + seq![0x3Bu8] + decimal(col)
        + seq![0x3Bu8] + decimal(row) + seq![if kind_base(kind).1 { 0x4Du8 } else { 0x6Du8 }]
}

/// Encode a mouse event for a child PTY in SGR form.
pub fn encode_sgr_mouse(kind: MouseEventKind, mods: KeyModifiers, col_1based: u16, row_1based: u16) -> (r:
    Option<Vec<u8>>)
    ensures
        r matches Some(v) && v@ == sgr_bytes(kind, mods, col_1based as nat, row_1based as nat),
{
    let (code, is_press) = match sgr_mouse_button_code(kind, mods) {
        Some(p) => p,
        None => return None,
    };
    let mut out: Vec<u8> = Vec::new();
    out.push(0x1B);
    out.push(0x5B);
    out.push(0x3C);
    push_decimal(&mut out, code as u64);
    out.push(0x3B);
    push_decimal(&mut out, col_1based as u64);
    out.push(0x3B);
    push_decimal(&mut out, row_1based as u64);
    out.push(if is_press { 0x4D } else { 0x6D });
    assert(out@ =~= sgr_bytes(kind, mods, col_1based as nat, row_1based as nat));
    Some(out)
}

} // verus!
