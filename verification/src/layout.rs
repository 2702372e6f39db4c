//! What the panes show: which rows fit the window, where the cursor goes,
//! and the text of sidebar and dialog rows.
use vstd::prelude::*;
use crate::pane::sat_sub;
use crate::sidebar::TreeItemKind;
use crate::text::{chars_of, decimal, push_decimal};
use crate::color::string_from_chars;

verus! {

/// The first row shown of `len` rows in a window `height` rows high that is
/// scrolled `scroll` rows up from the bottom.
pub open spec fn window_start(len: int, height: int, scroll: int) -> int {
    if len > height {
        sat_sub(len, height + scroll)
    } else {
        0
    }
}

/// The first log row shown in a pane `height` rows high, scrolled `scroll`
/// rows up from the bottom of `len` rows.
pub fn log_window_start(len: usize, height: usize, scroll: usize) -> (r: usize)
    requires
        len > height ==> height + scroll <= usize::MAX,
    ensures
        r == window_start(len as int, height as int, scroll as int),
{
    if len > height {
        len.saturating_sub(height + scroll)
    } else {
        0
    }
}

/// The first sidebar row shown in a pane `height` rows high so that the
/// selected row (clamped to the last row) stays in view.
pub open spec fn sidebar_start(len: int, selected: int, height: int) -> int {
    let sel = if selected <= sat_sub(len, 1) { selected } else { sat_sub(len, 1) };
    if len > height {
        if sel <= len - height { sel } else { len - height }
    } else {
        0
    }
}

/// The sidebar window always shows the selected row (clamped to the last
/// row), and never runs past the last row.
pub proof fn law_selected_row_visible(len: int, selected: int, height: int)
    requires
        len > 0,
        height > 0,
        selected >= 0,
    ensures
        ({
            let sel = if selected <= len - 1 { selected } else { len - 1 };
            let start = sidebar_start(len, selected, height);
            &&& 0 <= start <= sel < start + height
            &&& (len > height ==> start + height <= len)
        }),
{
}

/// With the log at the bottom, the last row is the last one shown; scrolled
/// up, the window never starts before the first row.
pub proof fn law_log_window(len: int, height: int, scroll: int)
    requires
        len >= 0,
        height >= 0,
        scroll >= 0,
    ensures
        0 <= window_start(len, height, scroll),
        len > height ==> window_start(len, height, 0) + height == len,
        window_start(len, height, scroll) <= window_start(len, height, 0),
{
}

/// The first sidebar row shown.
pub fn sidebar_window_start(len: usize, selected: usize, height: usize) -> (r: usize)
    ensures
        r == sidebar_start(len as int, selected as int, height as int),
{
    let last = len.saturating_sub(1);
    let sel = if selected <= last { selected } else { last };
    if len > height {
        let max_start = len - height;
        if sel <= max_start { sel } else { max_start }
    } else {
        0
    }
}

/// Where the emulator's cursor is drawn in a log pane whose outer area is
/// `(x, y, width, height)`: the buffer row of the cursor (history rows plus
/// its screen row) relative to the first row shown, when that is inside the
/// pane.
pub open spec fn cursor_spot(
    area: (u16, u16, u16, u16),
    len: int,
    history: int,
    cursor_row: int,
    cursor_col: usize,
    scroll: int,
) -> Option<(int, int)> {
    let visible = sat_sub(area.3 as int, 2);
    let start = window_start(len, visible, scroll);
    let relative = sat_sub(history + cursor_row, start);
    if relative < visible {
        Some((area.0 + 1 + (cursor_col as u16), area.1 + 1 + relative))
    } else {
        None
    }
}

/// The window cell of the emulator's cursor in the log pane, if shown.
pub fn cursor_cell(
    area: (u16, u16, u16, u16),
    len: usize,
    history: usize,
    cursor_row: usize,
    cursor_col: usize,
    scroll: usize,
) -> (r: Option<(u16, u16)>)
    requires
        area.1 + area.3 <= u16::MAX,
        history + cursor_row <= usize::MAX,
        len > sat_sub(area.3 as int, 2) ==> sat_sub(area.3 as int, 2) + scroll <= usize::MAX,
        area.0 + 1 + (cursor_col as u16) <= u16::MAX,
    ensures
        match cursor_spot(area, len as int, history as int, cursor_row as int, cursor_col, scroll as int) {
            Some(c) => r matches Some(p) && p.0 == c.0 && p.1 == c.1,
            None => r is None,
        },
{
    let (x, y, _w, h) = area;
    let visible = h.saturating_sub(2) as usize;
    let start = log_window_start(len, visible, scroll);
    let buffer_row = history + cursor_row;
    let relative = buffer_row.saturating_sub(start);
    if relative < visible {
        let cx = x + 1 + cursor_col as u16;
        let cy = y + 1 + relative as u16;
        Some((cx, cy))
    } else {
        None
    }
}

/// A rectangle `width` by `height` centred in `area`, cut to fit it.
pub open spec fn centered(area: (u16, u16, u16, u16), width: u16, height: u16) -> (int, int, int, int) {
    (
        area.0 + sat_sub(area.2 as int, width as int) / 2,
        area.1 + sat_sub(area.3 as int, height as int) / 2,
        if width <= area.2 { width as int } else { area.2 as int },
        if height <= area.3 { height as int } else { area.3 as int },
    )
}

/// A dialog rectangle centred in `area` as `(x, y, width, height)`.
pub fn center_rect(area: (u16, u16, u16, u16), width: u16, height: u16) -> (r: (u16, u16, u16, u16))
    requires
        area.0 + area.2 <= u16::MAX,
        area.1 + area.3 <= u16::MAX,
    ensures
        r.0 == centered(area, width, height).0,
        r.1 == centered(area, width, height).1,
        r.2 == centered(area, width, height).2,
        r.3 == centered(area, width, height).3,
{
    let (x, y, w, h) = area;
    let cx = x + w.saturating_sub(width) / 2;
    let cy = y + h.saturating_sub(height) / 2;
    (cx, cy, if width <= w { width } else { w }, if height <= h { height } else { h })
}

/// The title of the log pane.
pub open spec fn log_title_text(focused: bool, scrolled: bool) -> Seq<char> {
    if focused {
        " Log (interactive) "@
    } else if scrolled {
        " Log (scrolled) "@
    } else {
        " Log "@
    }
}

/// The title of the log pane: interactive when focused, else scrolled
/// when scrolled.
pub fn log_title(focused: bool, scrolled: bool) -> (r: &'static str)
    ensures
        r@ == log_title_text(focused, scrolled),
{
    if focused {
        " Log (interactive) "
    } else if scrolled {
        " Log (scrolled) "
    } else {
        " Log "
    }
}

/// The foreground and background a cell is drawn with: swapped when it is
/// reversed or selected, but not both.
pub fn cell_colors<T: Copy>(fg: T, bg: T, reverse: bool, selected: bool) -> (r: (T, T))
    ensures
        r == if reverse != selected { (bg, fg) } else { (fg, bg) },
{
    if reverse != selected { (bg, fg) } else { (fg, bg) }
}

/// The glyph a cell shows: a space when hidden, so only its background
/// paints.
pub fn cell_glyph(c: char, hidden: bool) -> (r: char)
    ensures
        r == if hidden { ' ' } else { c },
{
    if hidden { ' ' } else { c }
}

/// The cells of a grid row that are drawn, in order: every cell but the
/// spacers (marked `true`) that stand for the second half of a wide
/// character.
pub fn drawn_cells<T: Copy>(cells: &Vec<(T, bool)>) -> (r: Vec<T>)
    ensures
        r@ == cells@.filter(|c: (T, bool)| !c.1).map_values(|c: (T, bool)| c.0),
{
    let mut out: Vec<T> = Vec::new();
    let mut i: usize = 0;
    while i < cells.len()
        invariant
            i <= cells@.len(),
            out@ == cells@.take(i as int).filter(|c: (T, bool)| !c.1).map_values(|c: (T, bool)| c.0),
        decreases cells@.len() - i,
    {
        let ghost prev = out@;
        proof {
            assert(cells@.take(i + 1) =~= cells@.take(i as int).push(cells@[i as int]));
            cells@.take(i as int).lemma_filter_push(cells@[i as int], |c: (T, bool)| !c.1);
        }
        if !cells[i].1 {
            out.push(cells[i].0);
            let ghost f = cells@.take(i as int).filter(|c: (T, bool)| !c.1);
            assert(f.push(cells@[i as int]).map_values(|c: (T, bool)| c.0) =~= f.map_values(|c: (T, bool)| c.0).push(
                cells@[i as int].0,
            ));
        }
        i = i + 1;
    }
    assert(cells@.take(cells@.len() as int) =~= cells@);
    out
}

/// The command bar: shortcuts on the left, the number of live processes on
/// the right.
#[derive(Debug)]
pub struct CommandBar {
    pub running_count: usize,
}

/// The label of the running count: `Running: ` and the count in decimal.
pub open spec fn running_label(n: nat) -> Seq<u8> {
    "Running: "@.map_values(|c: char| c as u8) + decimal(n)
}

impl CommandBar {
    /// The running-count label, as ASCII bytes.
    pub fn running_label(&self) -> (r: Vec<u8>)
        ensures
            r@ == running_label(self.running_count as nat),
    {
        let mut out: Vec<u8> = Vec::new();
        out.push(0x52);
        out.push(0x75);
        out.push(0x6E);
        out.push(0x6E);
        out.push(0x69);
        out.push(0x6E);
        out.push(0x67);
        out.push(0x3A);
        out.push(0x20);
        push_decimal(&mut out, self.running_count as u64);
        proof {
            reveal_strlit("Running: ");
        }
        assert(out@ =~= running_label(self.running_count as nat));
        out
    }

    /// Where the running-count label starts on a row of `inner_width` cells
    /// from `inner_x`: flush right, or nowhere when it does not fit.
    pub fn label_x(&self, inner_x: u16, inner_width: u16) -> (r: Option<u16>)
        requires
            running_label(self.running_count as nat).len() <= inner_x + inner_width,
        ensures
            ({
                let x = inner_x + inner_width - running_label(self.running_count as nat).len();
                if x >= inner_x {
                    r == Some(x as u16)
                } else {
                    r is None
                }
            }),
    {
        let len = self.running_label().len();
        let end = inner_x as usize + inner_width as usize;
        let x = end - len;
        if x >= inner_x as usize {
            Some(x as u16)
        } else {
            None
        }
    }
}

/// Most characters of a window title shown after a sidebar row.
pub const TITLE_MAX: usize = 24;

/// The suffix a child's window title adds to its sidebar row: nothing for
/// no or an empty title, else ` — ` and the title, cut to its first
/// [`TITLE_MAX`] characters and an ellipsis when longer.
pub open spec fn title_suffix(title: Option<Seq<char>>) -> Seq<char> {
    match title {
        Some(t) => if t.len() == 0 {
            Seq::empty()
        } else if t.len() > TITLE_MAX {
            " — "@ + t.take(TITLE_MAX as int) + "…"@
        } else {
            " — "@ + t
        },
        None => Seq::empty(),
    }
}

/// `n` copies of `s` in a row.
pub open spec fn repeat(s: Seq<char>, n: nat) -> Seq<char>
    decreases n,
{
    if n == 0 {
        Seq::empty()
    } else {
        repeat(s, (n - 1) as nat) + s
    }
}

/// The marker before a row's name: an open or closed triangle for a
/// project or app (open when unfolded), blank for a process row.
pub open spec fn row_marker(kind: TreeItemKind, unfolded: bool) -> Seq<char> {
    match kind {
        TreeItemKind::Project | TreeItemKind::App => if unfolded { "▼ "@ } else { "▶ "@ },
        _ => "  "@,
    }
}

/// The text of a sidebar row: two spaces per level of depth, the marker,
/// the status text, the name and the title suffix.
pub open spec fn sidebar_row(
    depth: nat,
    kind: TreeItemKind,
    unfolded: bool,
    status: Seq<char>,
    name: Seq<char>,
    title: Option<Seq<char>>,
) -> Seq<char> {
    repeat("  "@, depth) + row_marker(kind, unfolded) + status + name + title_suffix(title)
}

/// Appends the characters of `s` to `out`.
fn push_str(out: &mut Vec<char>, s: &str)
    ensures
        final(out)@ == old(out)@ + s@,
{
    let v = chars_of(s);
    let mut k: usize = 0;
    let ghost start = out@;
    while k < v.len()
        invariant
            k <= v@.len(),
            v@ == s@,
            out@ == start + v@.take(k as int),
        decreases v@.len() - k,
    {
        out.push(v[k]);
        k = k + 1;
        assert(out@ =~= start + v@.take(k as int));
    }
    assert(v@.take(v@.len() as int) =~= v@);
}

/// The text of a sidebar row.
pub fn sidebar_row_text(
    depth: usize,
    kind: TreeItemKind,
    unfolded: bool,
    status: &str,
    name: &str,
    title: Option<&str>,
) -> (r: String)
    ensures
        r@ == sidebar_row(depth as nat, kind, unfolded, status@, name@, match title {
            Some(t) => Some(t@),
            None => None,
        }),
{
    let mut out: Vec<char> = Vec::new();
    let mut d: usize = 0;
    while d < depth
        invariant
            d <= depth,
            out@ == repeat("  "@, d as nat),
        decreases depth - d,
    {
        push_str(&mut out, "  ");
        d = d + 1;
    }
    let marker = match kind {
        TreeItemKind::Project | TreeItemKind::App => if unfolded { "▼ " } else { "▶ " },
        _ => "  ",
    };
    push_str(&mut out, marker);
    push_str(&mut out, status);
    push_str(&mut out, name);
    match title {
        Some(t) => {
            let tv = chars_of(t);
            if tv.len() > 0 {
                push_str(&mut out, " — ");
                if tv.len() > TITLE_MAX {
                    let mut k: usize = 0;
                    let ghost start = out@;
                    while k < TITLE_MAX
                        invariant
                            k <= TITLE_MAX < tv@.len(),
                            out@ == start + tv@.take(k as int),
                        decreases TITLE_MAX - k,
                    {
                        out.push(tv[k]);
                        k = k + 1;
                        assert(out@ =~= start + tv@.take(k as int));
                    }
                    push_str(&mut out, "…");
                } else {
                    push_str(&mut out, t);
                }
            }
        },
        None => {},
    }
    proof {
        reveal_strlit(" — ");
        reveal_strlit("");
    }
    assert(out@ =~= sidebar_row(depth as nat, kind, unfolded, status@, name@, match title {
        Some(t) => Some(t@),
        None => None,
    }));
    string_from_chars(&out)
}

/// The text of a theme row: a dot before the active theme.
pub open spec fn theme_row(theme: Seq<char>, active: bool) -> Seq<char> {
    (if active { "● "@ } else { "  "@ }) + theme
}

/// The text of a theme row.
pub fn theme_row_text(theme: &str, active: bool) -> (r: String)
    ensures
        r@ == theme_row(theme@, active),
{
    let mut out: Vec<char> = Vec::new();
    push_str(&mut out, if active { "● " } else { "  " });
    push_str(&mut out, theme);
    string_from_chars(&out)
}

} // verus!
