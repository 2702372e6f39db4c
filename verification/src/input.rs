//! Keyboard input: which action a key press means in each part of the UI,
//! and the bytes a key sends to a child process.
use vstd::prelude::*;
use vstd::utf8::encode_scalar;
use crate::pane::{KeyModifiers, MouseEvent};
use crate::text::{decimal, push_decimal};

verus! {

/// A key on the keyboard.
#[derive(Debug, Clone, Copy, PartialEq, Eq, Structural)]
pub enum KeyCode {
    Backspace,
    Enter,
    Left,
    Right,
    Up,
    Down,
    Home,
    End,
    PageUp,
    PageDown,
    Tab,
    BackTab,
    Delete,
    Insert,
    F(u8),
    Char(char),
    Null,
    Esc,
    /// Any other key (lock keys, media keys, modifier keys, …).
    Other,
}

/// A key press: the key and the modifiers held.
#[derive(Debug, Clone, Copy, PartialEq, Eq, Structural)]
pub struct KeyEvent {
    pub code: KeyCode,
    pub modifiers: KeyModifiers,
}

/// A terminal event.
#[derive(Debug)]
pub enum Event {
    Key(KeyEvent),
    Mouse(MouseEvent),
    Paste(String),
    Resize(u16, u16),
    /// Focus changes and anything else.
    Other,
}

/// Which pane has the keyboard.
#[derive(Debug, Clone, Copy, PartialEq, Eq, Structural)]
pub enum Focus {
    Sidebar,
    LogViewer,
}

/// A dialog drawn over the panes.
#[derive(Debug, Clone, Copy, PartialEq, Eq, Structural)]
pub enum Overlay {
    Palette,
    Search,
    ThemeDialog,
}

/// What the UI should do.
#[derive(Debug)]
pub enum Action {
    Tick,
    Quit,
    Resize { width: u16, height: u16 },
    Up,
    Down,
    Toggle,
    ScrollUp,
    ScrollDown,
    ScrollBottom,
    ScrollTop,
    ToggleFocus,
    OpenPalette,
    OpenSearch,
    CloseOverlay,
    Confirm,
    FilterChar(char),
    FilterBackspace,
    FilterClear,
    WriteInput(Vec<u8>),
    Paste(String),
    Mouse(MouseEvent),
    CopySelection,
}

/// An action as plain values.
pub enum ActionView {
    Tick,
    Quit,
    Resize { width: u16, height: u16 },
    Up,
    Down,
    Toggle,
    ScrollUp,
    ScrollDown,
    ScrollBottom,
    ScrollTop,
    ToggleFocus,
    OpenPalette,
    OpenSearch,
    CloseOverlay,
    Confirm,
    FilterChar(char),
    FilterBackspace,
    FilterClear,
    WriteInput(Seq<u8>),
    Paste(Seq<char>),
    Mouse(MouseEvent),
    CopySelection,
}

impl View for Action {
    type V = ActionView;

    open spec fn view(&self) -> ActionView {
        match *self {
            Action::Tick => ActionView::Tick,
            Action::Quit => ActionView::Quit,
            Action::Resize { width, height } => ActionView::Resize { width, height },
            Action::Up => ActionView::Up,
            Action::Down => ActionView::Down,
            Action::Toggle => ActionView::Toggle,
            Action::ScrollUp => ActionView::ScrollUp,
            Action::ScrollDown => ActionView::ScrollDown,
            Action::ScrollBottom => ActionView::ScrollBottom,
            Action::ScrollTop => ActionView::ScrollTop,
            Action::ToggleFocus => ActionView::ToggleFocus,
            Action::OpenPalette => ActionView::OpenPalette,
            Action::OpenSearch => ActionView::OpenSearch,
            Action::CloseOverlay => ActionView::CloseOverlay,
            Action::Confirm => ActionView::Confirm,
            Action::FilterChar(c) => ActionView::FilterChar(c),
            Action::FilterBackspace => ActionView::FilterBackspace,
            Action::FilterClear => ActionView::FilterClear,
            Action::WriteInput(b) => ActionView::WriteInput(b@),
            Action::Paste(t) => ActionView::Paste(t@),
            Action::Mouse(m) => ActionView::Mouse(m),
            Action::CopySelection => ActionView::CopySelection,
        }
    }
}

/// An optional action as plain values.
pub open spec fn opt_action(a: Option<Action>) -> Option<ActionView> {
    match a {
        Some(x) => Some(x@),
        None => None,
    }
}

/// The bytes a key sends to a child process: a control character for
/// Ctrl+letter (the low five bits of the character), `ESC` then the
/// character's low byte for Alt+character, the UTF-8 encoding of a plain
/// character, and the xterm sequences of the named keys.
pub open spec fn key_bytes(code: KeyCode, mods: KeyModifiers) -> Option<Seq<u8>> {
    match code {
        KeyCode::Char(c) => if mods.control {
            Some(seq![((c as int) % 32) as u8])
        } else if mods.alt {
            Some(seq![0x1Bu8, ((c as int) % 256) as u8])
        } else {
            Some(encode_scalar(c as u32))
        },
        KeyCode::Enter => Some(seq![0x0Du8]),
        KeyCode::Backspace => Some(seq![0x7Fu8]),
        KeyCode::Tab => Some(seq![0x09u8]),
        KeyCode::Esc => Some(seq![0x1Bu8]),
        KeyCode::Home => Some(seq![0x1Bu8, 0x5Bu8, 0x48u8]),
        KeyCode::End => Some(seq![0x1Bu8, 0x5Bu8, 0x46u8]),
        KeyCode::PageUp => Some(seq![0x1Bu8, 0x5Bu8, 0x35u8, 0x7Eu8]),
        KeyCode::PageDown => Some(seq![0x1Bu8, 0x5Bu8, 0x36u8, 0x7Eu8]),
        KeyCode::Up => Some(seq![0x1Bu8, 0x5Bu8, 0x41u8]),
        KeyCode::Down => Some(seq![0x1Bu8, 0x5Bu8, 0x42u8]),
        KeyCode::Right => Some(seq![0x1Bu8, 0x5Bu8, 0x43u8]),
        KeyCode::Left => Some(seq![0x1Bu8, 0x5Bu8, 0x44u8]),
        KeyCode::F(n) => if n == 1 {
            Some(seq![0x1Bu8, 0x4Fu8, 0x50u8])
        } else if n == 2 {
            Some(seq![0x1Bu8, 0x4Fu8, 0x51u8])
        } else if n == 3 {
            Some(seq![0x1Bu8, 0x4Fu8, 0x52u8])
        } else if n == 4 {
            Some(seq![0x1Bu8, 0x4Fu8, 0x53u8])
        } else if 5 <= n <= 12 {
            Some(seq![0x1Bu8, 0x5Bu8] + decimal((n + 7) as nat) + seq![0x7Eu8])
        } else {
            None
        },
        KeyCode::Insert => Some(seq![0x1Bu8, 0x5Bu8, 0x32u8, 0x7Eu8]),
        KeyCode::Delete => Some(seq![0x1Bu8, 0x5Bu8, 0x33u8, 0x7Eu8]),
        _ => None,
    }
}

/// The cursor keys send the xterm sequences `ESC [ A`, `ESC [ B`,
/// `ESC [ C` and `ESC [ D` for Up, Down, Right and Left, whatever modifiers
/// are held; with the log focused and no dialog open, each is forwarded to
/// the child as exactly those bytes.
pub proof fn law_cursor_keys(m: KeyModifiers)
    ensures
        key_bytes(KeyCode::Up, m) == Some(seq![0x1Bu8, '[' as u8, 'A' as u8]),
        key_bytes(KeyCode::Down, m) == Some(seq![0x1Bu8, '[' as u8, 'B' as u8]),
        key_bytes(KeyCode::Right, m) == Some(seq![0x1Bu8, '[' as u8, 'C' as u8]),
        key_bytes(KeyCode::Left, m) == Some(seq![0x1Bu8, '[' as u8, 'D' as u8]),
        key_action(KeyEvent { code: KeyCode::Right, modifiers: m }, None, Focus::LogViewer) == Some(
            ActionView::WriteInput(seq![0x1Bu8, '[' as u8, 'C' as u8]),
        ),
        key_action(KeyEvent { code: KeyCode::Left, modifiers: m }, None, Focus::LogViewer) == Some(
            ActionView::WriteInput(seq![0x1Bu8, '[' as u8, 'D' as u8]),
        ),
{
    assert(seq![0x1Bu8, 0x5Bu8, 0x41u8] =~= seq![0x1Bu8, '[' as u8, 'A' as u8]);
    assert(seq![0x1Bu8, 0x5Bu8, 0x42u8] =~= seq![0x1Bu8, '[' as u8, 'B' as u8]);
    assert(seq![0x1Bu8, 0x5Bu8, 0x43u8] =~= seq![0x1Bu8, '[' as u8, 'C' as u8]);
    assert(seq![0x1Bu8, 0x5Bu8, 0x44u8] =~= seq![0x1Bu8, '[' as u8, 'D' as u8]);
}

/// The UTF-8 encoding of a character.
pub fn encode_char(c: char) -> (r: Vec<u8>)
    ensures
        r@ == encode_scalar(c as u32),
{
    let v: u32 = c as u32;
    let mut out: Vec<u8> = Vec::new();
    if v <= 0x7F {
        out.push((v & 0x7F) as u8);
    } else if v <= 0x7FF {
        out.push(0xC0 | ((v >> 6) & 0x1F) as u8);
        out.push(0x80 | (v & 0x3F) as u8);
    } else if v <= 0xFFFF {
        out.push(0xE0 | ((v >> 12) & 0x0F) as u8);
        out.push(0x80 | ((v >> 6) & 0x3F) as u8);
        out.push(0x80 | (v & 0x3F) as u8);
    } else {
        out.push(0xF0 | ((v >> 18) & 0x7) as u8);
        out.push(0x80 | ((v >> 12) & 0x3F) as u8);
        out.push(0x80 | ((v >> 6) & 0x3F) as u8);
        out.push(0x80 | (v & 0x3F) as u8);
    }
    assert(out@ =~= encode_scalar(c as u32));
    out
}

/// The bytes a key press sends to a child process, if it sends any.
pub fn key_to_bytes(key: KeyEvent) -> (r: Option<Vec<u8>>)
    ensures
        match key_bytes(key.code, key.modifiers) {
            Some(b) => r matches Some(v) && v@ == b,
            None => r is None,
        },
{
    let mods = key.modifiers;
    match key.code {
        KeyCode::Char(c) => {
            if mods.control {
                Some(vec![((c as u32) % 32) as u8])
            } else if mods.alt {
                Some(vec![0x1B, ((c as u32) % 256) as u8])
            } else {
                Some(encode_char(c))
            }
        },
        KeyCode::Enter => Some(vec![0x0D]),
        KeyCode::Backspace => Some(vec![0x7F]),
        KeyCode::Tab => Some(vec![0x09]),
        KeyCode::Esc => Some(vec![0x1B]),
        KeyCode::Home => Some(vec![0x1B, 0x5B, 0x48]),
        KeyCode::End => Some(vec![0x1B, 0x5B, 0x46]),
        KeyCode::PageUp => Some(vec![0x1B, 0x5B, 0x35, 0x7E]),
        KeyCode::PageDown => Some(vec![0x1B, 0x5B, 0x36, 0x7E]),
        KeyCode::Up => Some(vec![0x1B, 0x5B, 0x41]),
        KeyCode::Down => Some(vec![0x1B, 0x5B, 0x42]),
        KeyCode::Right => Some(vec![0x1B, 0x5B, 0x43]),
        KeyCode::Left => Some(vec![0x1B, 0x5B, 0x44]),
        KeyCode::F(n) => {
            if n == 1 {
                Some(vec![0x1B, 0x4F, 0x50])
            } else if n == 2 {
                Some(vec![0x1B, 0x4F, 0x51])
            } else if n == 3 {
                Some(vec![0x1B, 0x4F, 0x52])
            } else if n == 4 {
                Some(vec![0x1B, 0x4F, 0x53])
            } else if n >= 5 && n <= 12 {
                let mut out: Vec<u8> = vec![0x1B, 0x5B];
                push_decimal(&mut out, (n + 7) as u64);
                out.push(0x7E);
                assert(out@ =~= seq![0x1Bu8, 0x5Bu8] + decimal((n + 7) as nat) + seq![0x7Eu8]);
                Some(out)
            } else {
                None
            }
        },
        KeyCode::Insert => Some(vec![0x1B, 0x5B, 0x32, 0x7E]),
        KeyCode::Delete => Some(vec![0x1B, 0x5B, 0x33, 0x7E]),
        _ => None,
    }
}

/// `code` is the character `c`.
pub open spec fn is_char(code: KeyCode, c: char) -> bool {
    code == KeyCode::Char(c)
}

/// What a key means while the sidebar has the focus: Ctrl+C / Ctrl+Q or a
/// plain `q` quit; arrows or plain `k`/`j` move; Enter or space toggles;
/// PageUp/PageDown/End scroll the log; Tab switches focus; Ctrl+P opens
/// the palette; a plain `/` opens the search.
pub open spec fn sidebar_action(key: KeyEvent) -> Option<ActionView> {
    let (code, m) = (key.code, key.modifiers);
    if (is_char(code, 'c') || is_char(code, 'q')) && m.control {
        Some(ActionView::Quit)
    } else if is_char(code, 'q') && m.is_none_spec() {
        Some(ActionView::Quit)
    } else if (code == KeyCode::Up || is_char(code, 'k')) && m.is_none_spec() {
        Some(ActionView::Up)
    } else if (code == KeyCode::Down || is_char(code, 'j')) && m.is_none_spec() {
        Some(ActionView::Down)
    } else if code == KeyCode::Enter || is_char(code, ' ') {
        Some(ActionView::Toggle)
    } else if code == KeyCode::PageUp {
        Some(ActionView::ScrollUp)
    } else if code == KeyCode::PageDown {
        Some(ActionView::ScrollDown)
    } else if code == KeyCode::End {
        Some(ActionView::ScrollBottom)
    } else if code == KeyCode::Tab {
        Some(ActionView::ToggleFocus)
    } else if is_char(code, 'p') && m.control {
        Some(ActionView::OpenPalette)
    } else if is_char(code, '/') && m.is_none_spec() {
        Some(ActionView::OpenSearch)
    } else {
        None
    }
}

/// What a key means while the log has the focus: Ctrl+C goes to the child
/// as ETX (0x03, its interrupt), Ctrl+Q quits, Tab and Esc return to the
/// sidebar, Ctrl+P opens the palette, and every other key is forwarded to
/// the child as its bytes (if it has any).
pub open spec fn log_viewer_action(key: KeyEvent) -> Option<ActionView> {
    let (code, m) = (key.code, key.modifiers);
    if is_char(code, 'c') && m.control {
        Some(ActionView::WriteInput(seq![0x03u8]))
    } else if is_char(code, 'q') && m.control {
        Some(ActionView::Quit)
    } else if code == KeyCode::Tab || code == KeyCode::Esc {
        Some(ActionView::ToggleFocus)
    } else if is_char(code, 'p') && m.control {
        Some(ActionView::OpenPalette)
    } else {
        match key_bytes(code, m) {
            Some(b) => Some(ActionView::WriteInput(b)),
            None => None,
        }
    }
}

/// What a key means while a dialog is open: Esc closes it, Enter confirms,
/// arrows, plain `k`/`j` and PageUp/PageDown move, Backspace and Ctrl+U
/// edit the filter, and a character typed plain or with Shift extends it.
pub open spec fn overlay_action(key: KeyEvent) -> Option<ActionView> {
    let (code, m) = (key.code, key.modifiers);
    if code == KeyCode::Esc {
        Some(ActionView::CloseOverlay)
    } else if code == KeyCode::Enter {
        Some(ActionView::Confirm)
    } else if (code == KeyCode::Up || is_char(code, 'k')) && m.is_none_spec() {
        Some(ActionView::Up)
    } else if (code == KeyCode::Down || is_char(code, 'j')) && m.is_none_spec() {
        Some(ActionView::Down)
    } else if code == KeyCode::PageUp {
        Some(ActionView::Up)
    } else if code == KeyCode::PageDown {
        Some(ActionView::Down)
    } else if code == KeyCode::Backspace {
        Some(ActionView::FilterBackspace)
    } else if is_char(code, 'u') && m.control {
        Some(ActionView::FilterClear)
    } else {
        match code {
            KeyCode::Char(c) => if m.is_none_spec() || m == KeyModifiers::shift_spec() {
                Some(ActionView::FilterChar(c))
            } else {
                None
            },
            _ => None,
        }
    }
}

/// What a key means: dialogs take every key while open, then the focused
/// pane.
pub open spec fn key_action(key: KeyEvent, overlay: Option<Overlay>, focus: Focus) -> Option<ActionView> {
    if overlay is Some {
        overlay_action(key)
    } else if focus == Focus::LogViewer {
        log_viewer_action(key)
    } else {
        sidebar_action(key)
    }
}

fn is_ch(code: KeyCode, c: char) -> (b: bool)
    ensures
        b == is_char(code, c),
{
    match code {
        KeyCode::Char(x) => x == c,
        _ => false,
    }
}

fn is_code(code: KeyCode, other: KeyCode) -> (b: bool)
    ensures
        b == (code == other),
{
    match (code, other) {
        (KeyCode::Backspace, KeyCode::Backspace) => true,
        (KeyCode::Enter, KeyCode::Enter) => true,
        (KeyCode::Left, KeyCode::Left) => true,
        (KeyCode::Right, KeyCode::Right) => true,
        (KeyCode::Up, KeyCode::Up) => true,
        (KeyCode::Down, KeyCode::Down) => true,
        (KeyCode::Home, KeyCode::Home) => true,
        (KeyCode::End, KeyCode::End) => true,
        (KeyCode::PageUp, KeyCode::PageUp) => true,
        (KeyCode::PageDown, KeyCode::PageDown) => true,
        (KeyCode::Tab, KeyCode::Tab) => true,
        (KeyCode::BackTab, KeyCode::BackTab) => true,
        (KeyCode::Delete, KeyCode::Delete) => true,
        (KeyCode::Insert, KeyCode::Insert) => true,
        (KeyCode::F(a), KeyCode::F(b)) => a == b,
        (KeyCode::Char(a), KeyCode::Char(b)) => a == b,
        (KeyCode::Null, KeyCode::Null) => true,
        (KeyCode::Esc, KeyCode::Esc) => true,
        (KeyCode::Other, KeyCode::Other) => true,
        _ => false,
    }
}

fn handle_sidebar_key(key: KeyEvent) -> (r: Option<Action>)
    ensures
        opt_action(r) == sidebar_action(key),
{
    let code = key.code;
    let m = key.modifiers;
    let none = m.is_empty();
    if (is_ch(code, 'c') || is_ch(code, 'q')) && m.control {
        Some(Action::Quit)
    } else if is_ch(code, 'q') && none {
        Some(Action::Quit)
    } else if (is_code(code, KeyCode::Up) || is_ch(code, 'k')) && none {
        Some(Action::Up)
    } else if (is_code(code, KeyCode::Down) || is_ch(code, 'j')) && none {
        Some(Action::Down)
    } else if is_code(code, KeyCode::Enter) || is_ch(code, ' ') {
        Some(Action::Toggle)
    } else if is_code(code, KeyCode::PageUp) {
        Some(Action::ScrollUp)
    } else if is_code(code, KeyCode::PageDown) {
        Some(Action::ScrollDown)
    } else if is_code(code, KeyCode::End) {
        Some(Action::ScrollBottom)
    } else if is_code(code, KeyCode::Tab) {
        Some(Action::ToggleFocus)
    } else if is_ch(code, 'p') && m.control {
        Some(Action::OpenPalette)
    } else if is_ch(code, '/') && none {
        Some(Action::OpenSearch)
    } else {
        None
    }
}

fn handle_log_viewer_key(key: KeyEvent) -> (r: Option<Action>)
    ensures
        opt_action(r) == log_viewer_action(key),
{
    let code = key.code;
    let m = key.modifiers;
    if is_ch(code, 'c') && m.control {
        let mut etx: Vec<u8> = Vec::new();
        etx.push(0x03);
        assert(etx@ =~= seq![0x03u8]);
        return Some(Action::WriteInput(etx));
    }
    if is_ch(code, 'q') && m.control {
        return Some(Action::Quit);
    }
    if is_code(code, KeyCode::Tab) {
        return Some(Action::ToggleFocus);
    }
    if is_code(code, KeyCode::Esc) {
        return Some(Action::ToggleFocus);
    }
    if is_ch(code, 'p') && m.control {
        return Some(Action::OpenPalette);
    }
    match key_to_bytes(key) {
        Some(bytes) => Some(Action::WriteInput(bytes)),
        None => None,
    }
}

fn handle_overlay_key(key: KeyEvent) -> (r: Option<Action>)
    ensures
        opt_action(r) == overlay_action(key),
{
    let code = key.code;
    let m = key.modifiers;
    let none = m.is_empty();
    if is_code(code, KeyCode::Esc) {
        Some(Action::CloseOverlay)
    } else if is_code(code, KeyCode::Enter) {
        Some(Action::Confirm)
    } else if (is_code(code, KeyCode::Up) || is_ch(code, 'k')) && none {
        Some(Action::Up)
    } else if (is_code(code, KeyCode::Down) || is_ch(code, 'j')) && none {
        Some(Action::Down)
    } else if is_code(code, KeyCode::PageUp) {
        Some(Action::Up)
    } else if is_code(code, KeyCode::PageDown) {
        Some(Action::Down)
    } else if is_code(code, KeyCode::Backspace) {
        Some(Action::FilterBackspace)
    } else if is_ch(code, 'u') && m.control {
        Some(Action::FilterClear)
    } else {
        match code {
            KeyCode::Char(c) => {
                if none || m.is_shift_only() {
                    Some(Action::FilterChar(c))
                } else {
                    None
                }
            },
            _ => None,
        }
    }
}

/// The action of a key press, given the open dialog and the focused pane.
pub fn handle_key(key: KeyEvent, overlay: Option<Overlay>, focus: Focus) -> (r: Option<Action>)
    ensures
        opt_action(r) == key_action(key, overlay, focus),
{
    if overlay.is_some() {
        return handle_overlay_key(key);
    }
    match focus {
        Focus::LogViewer => handle_log_viewer_key(key),
        Focus::Sidebar => handle_sidebar_key(key),
    }
}

/// The action of a terminal event: a key as [`handle_key`] maps it, a
/// resize as a resize, nothing for the rest.
pub fn handle_event(event: Event, overlay: Option<Overlay>, focus: Focus) -> (r: Option<Action>)
    ensures
        opt_action(r) == match event {
            Event::Key(k) => key_action(k, overlay, focus),
            Event::Resize(w, h) => Some(ActionView::Resize { width: w, height: h }),
            _ => None,
        },
{
    match event {
        Event::Key(key) => handle_key(key, overlay, focus),
        Event::Resize(width, height) => Some(Action::Resize { width, height }),
        _ => None,
    }
}

} // verus!
