//! The dashboard's decisions: how each action changes the UI state, and
//! what is left for the shell around it to do with the processes.
//!
//! The shell owns the child processes and the screen.  It hands every
//! action to [`AppState::route`], which updates the state and answers with
//! a [`Route`] naming the work that needs process data or process I/O; the
//! functions below then decide that work from the data the shell read.
use vstd::prelude::*;
use crate::input::{Action, ActionView, Focus, Overlay};
use crate::pane::{log_pane_dims, pane_cols, pane_rows};
use crate::selection::Selection;
use crate::sidebar::{item_views, TreeItem, TreeItemKind, TreeItemView};
use crate::text::{chars_of, split_bounds, split_on, text_eq, views};
use crate::color::string_from_chars;
use crate::flatten::RuntimeCommand;
use crate::process::{info_views, is_live, InfoView, MouseModes, ProcessInfo, ProcessStatus};
use crate::palette::{default_entries, default_items, filter_items, item_entry, Palette, PaletteAction, PaletteItem};
use crate::search::{search_items, SearchDialog};
use crate::theme_dialog::{theme_items, ThemeDialog};
use crate::text::{filter_matches, strip_suffix_char};
use crate::theme::join_with;
use crate::pane::{encode_sgr_mouse, pty_cell, sat_sub, sgr_bytes, window_to_grid_coords, window_to_pty_coords, MouseButton, MouseEvent, MouseEventKind};
use crate::selection::{GridPoint, RowRange};
use crate::config::FrostConfig;
use crate::keyed::keys_of;
use vstd::utf8::encode_utf8;

verus! {

/// The key of a process as strings: project, app, subcommand.
pub type ProcessKey = (String, String, String);

/// A process key's text.
pub open spec fn key_view(k: ProcessKey) -> (Seq<char>, Seq<char>, Seq<char>) {
    (k.0@, k.1@, k.2@)
}

/// An optional process key's text.
pub open spec fn opt_key_view(k: Option<ProcessKey>) -> Option<(Seq<char>, Seq<char>, Seq<char>)> {
    match k {
        Some(k) => Some(key_view(k)),
        None => None,
    }
}

/// The UI state of the dashboard.
#[derive(Debug)]
pub struct AppState {
    /// Set when the user asks to quit.
    pub should_quit: bool,
    /// Ticks seen so far.
    pub tick_count: u64,
    /// Terminal size `(width, height)`; `(0, 0)` until known.
    pub terminal_size: (u16, u16),
    /// Which pane has the keyboard.
    pub focus: Focus,
    /// The dialog drawn over the panes, if any.
    pub overlay: Option<Overlay>,
    /// The dialog's filter text.
    pub filter_text: String,
    /// The selected row of the dialog's list.
    pub overlay_selected: usize,
    /// The selected sidebar row.
    pub selected_index: usize,
    /// The process whose log is shown.
    pub selected_process: Option<ProcessKey>,
    /// The text selection in the log, in buffer coordinates.
    pub selection: Option<Selection>,
    /// How many rows the log is scrolled up from the bottom.
    pub log_scroll: usize,
    /// How many processes are starting or running.
    pub running_count: usize,
    /// The PTY size last sent to the processes.
    pub last_pty_dims: (u16, u16),
}

/// The state as plain values.
pub struct AppStateView {
    pub should_quit: bool,
    pub tick_count: u64,
    pub terminal_size: (u16, u16),
    pub focus: Focus,
    pub overlay: Option<Overlay>,
    pub filter_text: Seq<char>,
    pub overlay_selected: usize,
    pub selected_index: usize,
    pub selected_process: Option<(Seq<char>, Seq<char>, Seq<char>)>,
    pub selection: Option<Selection>,
    pub log_scroll: usize,
    pub running_count: usize,
    pub last_pty_dims: (u16, u16),
}

impl View for AppState {
    type V = AppStateView;

    open spec fn view(&self) -> AppStateView {
        AppStateView {
            should_quit: self.should_quit,
            tick_count: self.tick_count,
            terminal_size: self.terminal_size,
            focus: self.focus,
            overlay: self.overlay,
            filter_text: self.filter_text@,
            overlay_selected: self.overlay_selected,
            selected_index: self.selected_index,
            selected_process: opt_key_view(self.selected_process),
            selection: self.selection,
            log_scroll: self.log_scroll,
            running_count: self.running_count,
            last_pty_dims: self.last_pty_dims,
        }
    }
}

/// The PTY size for a terminal size: the log pane's inner area, or 80x24
/// while the size is unknown (either side 0).
pub open spec fn pty_dims(size: (u16, u16)) -> (int, int) {
    if size.0 == 0 || size.1 == 0 {
        (80, 24)
    } else {
        (pane_cols(size.0 as int), pane_rows(size.1 as int))
    }
}

/// Rows scrolled per step: half the pane, at least one.
pub open spec fn scroll_step(size: (u16, u16)) -> int {
    let half = pty_dims(size).1 / 2;
    if half >= 1 { half } else { 1 }
}

/// The smaller of two integers.
pub open spec fn min_int(a: int, b: int) -> int {
    if a <= b { a } else { b }
}

/// `v` with the dialog closed: no overlay, empty filter, first row.
pub open spec fn closed_overlay(v: AppStateView) -> AppStateView {
    AppStateView { overlay: None, filter_text: Seq::empty(), overlay_selected: 0, ..v }
}

/// `v` with dialog `o` opened on an empty filter and its first row.
pub open spec fn opened_overlay(v: AppStateView, o: Overlay) -> AppStateView {
    AppStateView { overlay: Some(o), filter_text: Seq::empty(), overlay_selected: 0, ..v }
}

/// What the shell still has to do after [`AppState::route`].
#[derive(Debug)]
pub enum Route {
    /// Nothing: the state change was all.
    Done,
    /// Recount the live processes ([`running_count`]).
    Refresh,
    /// Send the new PTY size `(cols, rows)` to every live process.
    ResizeProcesses(u16, u16),
    /// The selected row changed: apply [`AppState::select_row`].
    SelectionMoved,
    /// Toggle the selected row ([`toggle_plan`]).
    Toggle,
    /// Scroll up by a step, capped by the history size.
    ScrollUp,
    /// Scroll to the top of the history.
    ScrollTop,
    /// Write these bytes to the selected process.
    Write(Vec<u8>),
    /// Paste this text into the selected process ([`paste_payload`]).
    Paste(String),
    /// Handle this mouse event ([`AppState::route_mouse`]).
    Mouse(crate::pane::MouseEvent),
    /// Copy the selection to the clipboard ([`selection_text`]).
    Copy,
    /// Confirm the dialog ([`AppState::confirm_overlay`]).
    Confirm,
}

/// The state and route an action leads to while a dialog is open.
pub open spec fn overlay_step(v: AppStateView, a: ActionView) -> (AppStateView, bool) {
    match a {
        ActionView::CloseOverlay | ActionView::Quit => (closed_overlay(v), false),
        ActionView::Up => (
            AppStateView {
                overlay_selected: if v.overlay_selected > 0 { (v.overlay_selected - 1) as usize } else { 0 },
                ..v
            },
            false,
        ),
        ActionView::Down => (AppStateView { overlay_selected: (v.overlay_selected + 1) as usize, ..v }, false),
        ActionView::Confirm => (v, true),
        ActionView::FilterChar(c) => (AppStateView { filter_text: v.filter_text.push(c), overlay_selected: 0, ..v }, false),
        ActionView::FilterBackspace => (
            AppStateView {
                filter_text: if v.filter_text.len() > 0 { v.filter_text.drop_last() } else { v.filter_text },
                overlay_selected: 0,
                ..v
            },
            false,
        ),
        ActionView::FilterClear => (AppStateView { filter_text: Seq::empty(), overlay_selected: 0, ..v }, false),
        _ => (v, false),
    }
}


/// The state an action leads to while no dialog is open, for a sidebar of
/// `rows` rows.
pub open spec fn main_step(v: AppStateView, a: ActionView, rows: nat) -> AppStateView {
    match a {
        ActionView::Quit => AppStateView { should_quit: true, ..v },
        ActionView::Tick => AppStateView { tick_count: (v.tick_count + 1) as u64, ..v },
        ActionView::Resize { width, height } => {
            let dims = (pane_cols(width as int) as u16, pane_rows(height as int) as u16);
            AppStateView { terminal_size: (width, height), last_pty_dims: dims, ..v }
        },
        ActionView::Up => AppStateView {
            selected_index: if v.selected_index > 0 { (v.selected_index - 1) as usize } else { v.selected_index },
            ..v
        },
        ActionView::Down => AppStateView {
            selected_index: if v.selected_index + 1 < rows { (v.selected_index + 1) as usize } else { v.selected_index },
            ..v
        },
        ActionView::ScrollDown => AppStateView {
            log_scroll: if v.log_scroll >= scroll_step(v.terminal_size) {
                (v.log_scroll - scroll_step(v.terminal_size)) as usize
            } else {
                0
            },
            ..v
        },
        ActionView::ScrollBottom => AppStateView { log_scroll: 0, ..v },
        ActionView::ToggleFocus => AppStateView {
            focus: match v.focus {
                Focus::Sidebar => Focus::LogViewer,
                Focus::LogViewer => Focus::Sidebar,
            },
            ..v
        },
        ActionView::OpenPalette => opened_overlay(v, Overlay::Palette),
        ActionView::OpenSearch => opened_overlay(v, Overlay::Search),
        _ => v,
    }
}

/// The route an action takes while no dialog is open, from state `v`.
pub open spec fn main_route(v: AppStateView, a: ActionView, r: Route) -> bool {
    match a {
        ActionView::Tick => r is Refresh,
        ActionView::Resize { width, height } => {
            let dims = (pane_cols(width as int) as u16, pane_rows(height as int) as u16);
            if dims == v.last_pty_dims {
                r is Done
            } else {
                r matches Route::ResizeProcesses(c, h) && c == dims.0 && h == dims.1
            }
        },
        ActionView::Up | ActionView::Down => r is SelectionMoved,
        ActionView::Toggle => r is Toggle,
        ActionView::ScrollUp => r is ScrollUp,
        ActionView::ScrollTop => r is ScrollTop,
        ActionView::ToggleFocus => if v.focus == Focus::Sidebar {
            r is SelectionMoved
        } else {
            r is Done
        },
        ActionView::WriteInput(bytes) => r matches Route::Write(b) && b@ == bytes,
        ActionView::Paste(text) => r matches Route::Paste(t) && t@ == text,
        ActionView::Mouse(m) => r matches Route::Mouse(e) && e == m,
        ActionView::CopySelection => r is Copy,
        _ => r is Done,
    }
}


/// The characters of `v` from `lo` to `hi`, as a string.
fn sub_string(v: &Vec<char>, lo: usize, hi: usize) -> (r: String)
    requires
        lo <= hi <= v@.len(),
    ensures
        r@ == v@.subrange(lo as int, hi as int),
{
    let mut out: Vec<char> = Vec::new();
    let mut k: usize = lo;
    while k < hi
        invariant
            lo <= k <= hi <= v@.len(),
            out@ == v@.subrange(lo as int, k as int),
        decreases hi - k,
    {
        out.push(v[k]);
        k = k + 1;
        assert(out@ =~= v@.subrange(lo as int, k as int));
    }
    string_from_chars(&out)
}

/// The process key a sidebar path names: its three `/`-separated parts,
/// when there are exactly three.
pub open spec fn path_key(path: Seq<char>) -> Option<(Seq<char>, Seq<char>, Seq<char>)> {
    let parts = split_on(path, '/');
    if parts.len() == 3 {
        Some((parts[0], parts[1], parts[2]))
    } else {
        None
    }
}

/// The process key a sidebar path names.
pub fn key_of_path(path: &str) -> (r: Option<ProcessKey>)
    ensures
        opt_key_view(r) == path_key(path@),
{
    let v = chars_of(path);
    let b = split_bounds(&v, '/');
    if b.len() != 3 {
        return None;
    }
    let p = sub_string(&v, b[0].0, b[0].1);
    let a = sub_string(&v, b[1].0, b[1].1);
    let c = sub_string(&v, b[2].0, b[2].1);
    Some((p, a, c))
}

/// Whether a row kind stands for a process (a terminal or a sub-command).
pub open spec fn is_process_row(k: TreeItemKind) -> bool {
    k == TreeItemKind::Terminal || k == TreeItemKind::Subcommand
}

/// The process key of row `idx`, if that row exists, stands for a process
/// and has a three-part path.
pub open spec fn row_key(items: Seq<TreeItemView>, idx: int) -> Option<(Seq<char>, Seq<char>, Seq<char>)> {
    if 0 <= idx < items.len() && is_process_row(items[idx].kind) {
        path_key(items[idx].path)
    } else {
        None
    }
}

/// The state after selecting the process of the current row: a new key
/// replaces the shown process and drops the text selection; a row without
/// a process changes nothing.
pub open spec fn selected_row_state(v: AppStateView, items: Seq<TreeItemView>) -> AppStateView {
    match row_key(items, v.selected_index as int) {
        Some(k) => AppStateView {
            selected_process: Some(k),
            selection: if v.selected_process == Some(k) { v.selection } else { None },
            ..v
        },
        None => v,
    }
}

/// What toggling a sidebar row does.
#[derive(Debug)]
pub enum TogglePlan {
    /// No row there, or a process row whose path is not three parts.
    Nothing,
    /// Fold or unfold a project or app row with this path.
    Fold(String),
    /// A terminal row: start a shell there when none is live.
    Terminal(ProcessKey),
    /// A sub-command row: run its command in the row's shell.
    Subcommand(ProcessKey),
}

/// Whether `plan` is what toggling row `idx` of `items` does.
pub open spec fn toggle_plan_of(items: Seq<TreeItemView>, idx: int, plan: TogglePlan) -> bool {
    if 0 <= idx < items.len() {
        let it = items[idx];
        match it.kind {
            TreeItemKind::Project | TreeItemKind::App => plan matches TogglePlan::Fold(p) && p@ == it.path,
            TreeItemKind::Terminal => match path_key(it.path) {
                Some(k) => plan matches TogglePlan::Terminal(q) && key_view(q) == k,
                None => plan is Nothing,
            },
            TreeItemKind::Subcommand => match path_key(it.path) {
                Some(k) => plan matches TogglePlan::Subcommand(q) && key_view(q) == k,
                None => plan is Nothing,
            },
        }
    } else {
        plan is Nothing
    }
}

/// What toggling row `idx` of the sidebar does.
pub fn toggle_plan(items: &Vec<TreeItem>, idx: usize) -> (plan: TogglePlan)
    ensures
        toggle_plan_of(item_views(items@), idx as int, plan),
{
    if idx >= items.len() {
        return TogglePlan::Nothing;
    }
    let it = &items[idx];
    assert(item_views(items@)[idx as int] == it@);
    match it.kind {
        TreeItemKind::Project | TreeItemKind::App => TogglePlan::Fold(it.path.clone()),
        TreeItemKind::Terminal => match key_of_path(it.path.as_str()) {
            Some(k) => TogglePlan::Terminal(k),
            None => TogglePlan::Nothing,
        },
        TreeItemKind::Subcommand => match key_of_path(it.path.as_str()) {
            Some(k) => TogglePlan::Subcommand(k),
            None => TogglePlan::Nothing,
        },
    }
}

/// A set of unfolded paths with `p` folded when it was unfolded and
/// unfolded when it was folded.
pub open spec fn toggled(s: Set<Seq<char>>, p: Seq<char>) -> Set<Seq<char>> {
    if s.contains(p) {
        s.remove(p)
    } else {
        s.insert(p)
    }
}

/// Toggling a path twice leaves the set of unfolded paths as it was.
pub proof fn law_toggle_twice(s: Set<Seq<char>>, p: Seq<char>)
    ensures
        toggled(toggled(s, p), p) == s,
{
    if s.contains(p) {
        assert(toggled(toggled(s, p), p) =~= s);
    } else {
        assert(toggled(toggled(s, p), p) =~= s);
    }
}

/// Folds an unfolded path, unfolds a folded one: the set of unfolded paths
/// loses `path` when it had it and gains it otherwise.
pub fn toggle_expanded(expanded: &mut Vec<String>, path: &str)
    ensures
        views(old(expanded)@).contains(path@) ==> views(final(expanded)@) == views(old(expanded)@).filter(
            |x: Seq<char>| x != path@,
        ),
        !views(old(expanded)@).contains(path@) ==> views(final(expanded)@) == views(old(expanded)@).push(path@),
        views(final(expanded)@).to_set() == toggled(views(old(expanded)@).to_set(), path@),
{
    let ghost old_views = views(expanded@);
    if crate::text::contains_text_in(expanded, path) {
        let mut kept: Vec<String> = Vec::new();
        let mut i: usize = 0;
        while i < expanded.len()
            invariant
                i <= expanded@.len(),
                old_views == views(expanded@),
                views(kept@) == old_views.take(i as int).filter(|x: Seq<char>| x != path@),
            decreases expanded@.len() - i,
        {
            proof {
                assert(old_views.take(i + 1) =~= old_views.take(i as int).push(old_views[i as int]));
                old_views.take(i as int).lemma_filter_push(old_views[i as int], |x: Seq<char>| x != path@);
            }
            if !text_eq(expanded[i].as_str(), path) {
                let ghost prev = kept@;
                kept.push(expanded[i].clone());
                assert(views(kept@) =~= views(prev).push(expanded@[i as int]@));
            }
            i = i + 1;
        }
        assert(old_views.take(old_views.len() as int) =~= old_views);
        *expanded = kept;
        proof {
            broadcast use vstd::seq_lib::group_filter_ensures;
            let pred = |x: Seq<char>| x != path@;
            let f = old_views.filter(pred);
            assert forall|x: Seq<char>| #[trigger] f.to_set().contains(x) == old_views.to_set().remove(path@).contains(x) by {
                if old_views.to_set().remove(path@).contains(x) {
                    let k = choose|k: int| 0 <= k < old_views.len() && old_views[k] == x;
                    old_views.lemma_filter_contains(pred, k);
                }
                if f.to_set().contains(x) {
                    old_views.lemma_filter_contains_rev(pred, x);
                }
            }
            assert(f.to_set() =~= old_views.to_set().remove(path@));
        }
    } else {
        let ghost prev = expanded@;
        expanded.push(path.to_string());
        proof {
            assert(views(expanded@) =~= old_views.push(path@));
            old_views.lemma_push_to_set_commute(path@);
        }
    }
}

/// Whether a runtime command belongs to app `a` of project `p`.
pub open spec fn cmd_of_app(c: RuntimeCommand, p: Seq<char>, a: Seq<char>) -> bool {
    c.project_name@ == p && c.app_name@ == a
}

/// Whether a runtime command is sub-command `s` of app `a` of project `p`.
pub open spec fn cmd_is(c: RuntimeCommand, p: Seq<char>, a: Seq<char>, s: Seq<char>) -> bool {
    cmd_of_app(c, p, a) && c.subcommand_name@ == s
}

/// `i` is the first command of app `a` of project `p`.
pub open spec fn first_of_app(cmds: Seq<RuntimeCommand>, p: Seq<char>, a: Seq<char>, i: int) -> bool {
    0 <= i < cmds.len() && cmd_of_app(cmds[i], p, a) && forall|j: int| 0 <= j < i ==> !cmd_of_app(#[trigger] cmds[j], p, a)
}

/// `i` is the first command that is sub-command `s` of app `a` of project `p`.
pub open spec fn first_is(cmds: Seq<RuntimeCommand>, p: Seq<char>, a: Seq<char>, s: Seq<char>, i: int) -> bool {
    0 <= i < cmds.len() && cmd_is(cmds[i], p, a, s) && forall|j: int| 0 <= j < i ==> !cmd_is(#[trigger] cmds[j], p, a, s)
}

/// The first command of an app, if any.
pub fn find_app_command(cmds: &Vec<RuntimeCommand>, project: &str, app: &str) -> (r: Option<usize>)
    ensures
        match r {
            Some(i) => first_of_app(cmds@, project@, app@, i as int),
            None => forall|j: int| 0 <= j < cmds@.len() ==> !cmd_of_app(#[trigger] cmds@[j], project@, app@),
        },
{
    let mut i: usize = 0;
    while i < cmds.len()
        invariant
            i <= cmds@.len(),
            forall|j: int| 0 <= j < i ==> !cmd_of_app(#[trigger] cmds@[j], project@, app@),
        decreases cmds@.len() - i,
    {
        if text_eq(cmds[i].project_name.as_str(), project) && text_eq(cmds[i].app_name.as_str(), app) {
            return Some(i);
        }
        i = i + 1;
    }
    None
}

/// The first command that is the given sub-command of an app, if any.
pub fn find_command(cmds: &Vec<RuntimeCommand>, project: &str, app: &str, subcommand: &str) -> (r: Option<usize>)
    ensures
        match r {
            Some(i) => first_is(cmds@, project@, app@, subcommand@, i as int),
            None => forall|j: int| 0 <= j < cmds@.len() ==> !cmd_is(#[trigger] cmds@[j], project@, app@, subcommand@),
        },
{
    let mut i: usize = 0;
    while i < cmds.len()
        invariant
            i <= cmds@.len(),
            forall|j: int| 0 <= j < i ==> !cmd_is(#[trigger] cmds@[j], project@, app@, subcommand@),
        decreases cmds@.len() - i,
    {
        if text_eq(cmds[i].project_name.as_str(), project) && text_eq(cmds[i].app_name.as_str(), app)
            && text_eq(cmds[i].subcommand_name.as_str(), subcommand) {
            return Some(i);
        }
        i = i + 1;
    }
    None
}

/// The working directory of an app's shell: that of its first command, or
/// `.` when it has none.
pub open spec fn app_dir(cmds: Seq<RuntimeCommand>, p: Seq<char>, a: Seq<char>) -> Seq<char> {
    if exists|i: int| first_of_app(cmds, p, a, i) {
        cmds[choose|i: int| first_of_app(cmds, p, a, i)].workdir@
    } else {
        "."@
    }
}

/// The working directory of a row's shell: that of the row's own
/// sub-command, else that of the app's first command, else `.`.
pub open spec fn row_dir(cmds: Seq<RuntimeCommand>, p: Seq<char>, a: Seq<char>, s: Seq<char>) -> Seq<char> {
    if exists|i: int| first_is(cmds, p, a, s, i) {
        cmds[choose|i: int| first_is(cmds, p, a, s, i)].workdir@
    } else {
        app_dir(cmds, p, a)
    }
}

proof fn lemma_first_unique_app(cmds: Seq<RuntimeCommand>, p: Seq<char>, a: Seq<char>, i: int, j: int)
    requires
        first_of_app(cmds, p, a, i),
        first_of_app(cmds, p, a, j),
    ensures
        i == j,
{
    if i < j {
        assert(!cmd_of_app(cmds[i], p, a));
    }
    if j < i {
        assert(!cmd_of_app(cmds[j], p, a));
    }
}

proof fn lemma_first_unique_is(cmds: Seq<RuntimeCommand>, p: Seq<char>, a: Seq<char>, s: Seq<char>, i: int, j: int)
    requires
        first_is(cmds, p, a, s, i),
        first_is(cmds, p, a, s, j),
    ensures
        i == j,
{
    if i < j {
        assert(!cmd_is(cmds[i], p, a, s));
    }
    if j < i {
        assert(!cmd_is(cmds[j], p, a, s));
    }
}

/// The working directory of an app's shell.
pub fn app_workdir(cmds: &Vec<RuntimeCommand>, project: &str, app: &str) -> (r: String)
    ensures
        r@ == app_dir(cmds@, project@, app@),
{
    match find_app_command(cmds, project, app) {
        Some(i) => {
            proof {
                let c = choose|c: int| first_of_app(cmds@, project@, app@, c);
                lemma_first_unique_app(cmds@, project@, app@, i as int, c);
            }
            cmds[i].workdir.clone()
        },
        None => ".".to_string(),
    }
}

/// The working directory of a row's shell.
pub fn row_workdir(cmds: &Vec<RuntimeCommand>, project: &str, app: &str, subcommand: &str) -> (r: String)
    ensures
        r@ == row_dir(cmds@, project@, app@, subcommand@),
{
    match find_command(cmds, project, app, subcommand) {
        Some(i) => {
            proof {
                let c = choose|c: int| first_is(cmds@, project@, app@, subcommand@, c);
                lemma_first_unique_is(cmds@, project@, app@, subcommand@, i as int, c);
            }
            cmds[i].workdir.clone()
        },
        None => app_workdir(cmds, project, app),
    }
}

/// Whether a row with a process in this status needs a shell spawned:
/// unless one is starting or running.
pub fn needs_shell(status: Option<ProcessStatus>) -> (r: bool)
    ensures
        r == !(status matches Some(s) && is_live(s)),
{
    match status {
        Some(s) => !s.is_live(),
        None => true,
    }
}

/// Whether toggling a terminal row in this status starts a shell: when it
/// is stopped, crashed or unknown.
pub fn terminal_needs_start(status: Option<ProcessStatus>) -> (r: bool)
    ensures
        r == match status {
            Some(s) => s == ProcessStatus::Stopped || s == ProcessStatus::Crashed,
            None => true,
        },
{
    match status {
        Some(ProcessStatus::Stopped) | Some(ProcessStatus::Crashed) | None => true,
        _ => false,
    }
}

/// The line typed into a shell to run a command: the command with a
/// newline, unless it already ends in one.
pub open spec fn command_line_text(cmd: Seq<char>) -> Seq<char> {
    if cmd.len() > 0 && cmd.last() == '\n' {
        cmd
    } else {
        cmd.push('\n')
    }
}

/// Typing a command line twice over adds nothing: a line already ends in
/// a newline.
pub proof fn law_command_line_idempotent(cmd: Seq<char>)
    ensures
        command_line_text(command_line_text(cmd)) == command_line_text(cmd),
{
}

/// The line typed into a shell to run a command.
pub fn command_line(cmd: &str) -> (r: String)
    ensures
        r@ == command_line_text(cmd@),
{
    let mut v = chars_of(cmd);
    if v.len() > 0 && v[v.len() - 1] == '\n' {
        return cmd.to_string();
    }
    v.push('\n');
    string_from_chars(&v)
}

/// The live records of a list.
pub open spec fn live_rows(s: Seq<InfoView>) -> Seq<InfoView> {
    s.filter(|v: InfoView| is_live(v.status))
}

/// How many processes are starting or running.
pub fn running_count(list: &Vec<ProcessInfo>) -> (n: usize)
    ensures
        n == live_rows(info_views(list@)).len(),
{
    let ghost all = info_views(list@);
    let mut n: usize = 0;
    let mut i: usize = 0;
    while i < list.len()
        invariant
            i <= list@.len(),
            all == info_views(list@),
            n == live_rows(all.take(i as int)).len(),
            n <= i,
        decreases list@.len() - i,
    {
        proof {
            assert(all.take(i + 1).drop_last() =~= all.take(i as int));
            reveal(Seq::filter);
            assert(all.take(i + 1).last() == list@[i as int]@);
        }
        if list[i].status.is_live() {
            n = n + 1;
        }
        i = i + 1;
    }
    assert(all.take(list@.len() as int) =~= all);
    n
}

/// The keys of the live processes of a list, in order.
pub fn live_keys(list: &Vec<ProcessInfo>) -> (r: Vec<ProcessKey>)
    ensures
        r@.map_values(|k: ProcessKey| key_view(k)) == live_rows(info_views(list@)).map_values(
            |v: InfoView| (v.project, v.app, v.subcommand),
        ),
{
    let ghost all = info_views(list@);
    let mut out: Vec<ProcessKey> = Vec::new();
    let mut i: usize = 0;
    while i < list.len()
        invariant
            i <= list@.len(),
            all == info_views(list@),
            out@.map_values(|k: ProcessKey| key_view(k)) == live_rows(all.take(i as int)).map_values(
                |v: InfoView| (v.project, v.app, v.subcommand),
            ),
        decreases list@.len() - i,
    {
        let ghost prev = out@;
        proof {
            assert(all.take(i + 1).drop_last() =~= all.take(i as int));
            reveal(Seq::filter);
            assert(all.take(i + 1).last() == list@[i as int]@);
        }
        if list[i].status.is_live() {
            let e = &list[i];
            out.push((e.project.clone(), e.app.clone(), e.subcommand.clone()));
            proof {
                let f = |v: InfoView| (v.project, v.app, v.subcommand);
                assert(live_rows(all.take(i + 1)) == live_rows(all.take(i as int)).push(all[i as int]));
                assert(out@.map_values(|k: ProcessKey| key_view(k)) =~= prev.map_values(|k: ProcessKey| key_view(k)).push(
                    f(all[i as int]),
                ));
                assert(live_rows(all.take(i + 1)).map_values(f) =~= live_rows(all.take(i as int)).map_values(f).push(
                    f(all[i as int]),
                ));
            }
        } else {
            assert(live_rows(all.take(i + 1)) == live_rows(all.take(i as int)));
        }
        i = i + 1;
    }
    assert(all.take(list@.len() as int) =~= all);
    out
}


/// The palette entries shown for a filter.
pub open spec fn palette_entries(filter: Seq<char>) -> Seq<(Seq<char>, PaletteAction)> {
    if filter.len() == 0 {
        default_entries()
    } else {
        default_entries().filter(|e: (Seq<char>, PaletteAction)| filter_matches(e.0, filter))
    }
}

/// Filtering commutes with mapping: keeping the items whose image passes
/// `p` and mapping them gives the passing images.
proof fn lemma_filter_map_commute<A, B>(s: Seq<A>, f: spec_fn(A) -> B, p: spec_fn(B) -> bool)
    ensures
        s.filter(|a: A| p(f(a))).map_values(f) == s.map_values(f).filter(p),
    decreases s.len(),
{
    let q = |a: A| p(f(a));
    if s.len() > 0 {
        let d = s.drop_last();
        lemma_filter_map_commute(d, f, p);
        assert(s =~= d.push(s.last()));
        d.lemma_filter_push(s.last(), q);
        assert(s.map_values(f) =~= d.map_values(f).push(f(s.last())));
        d.map_values(f).lemma_filter_push(f(s.last()), p);
        if q(s.last()) {
            assert(d.filter(q).push(s.last()).map_values(f) =~= d.filter(q).map_values(f).push(f(s.last())));
        }
    } else {
        reveal(Seq::filter);
        assert(s.filter(q) =~= Seq::<A>::empty());
        assert(s.map_values(f) =~= Seq::<B>::empty());
        assert(s.map_values(f).filter(p) =~= Seq::<B>::empty());
    }
}

/// The default palette filtered by `filter` holds the entries
/// [`palette_entries`] names.
proof fn lemma_palette_entries(items: Seq<PaletteItem>, filter: Seq<char>)
    requires
        items.map_values(|it: PaletteItem| item_entry(it)) == default_entries(),
    ensures
        filter_items(items, filter).map_values(|it: PaletteItem| item_entry(it)) == palette_entries(filter),
{
    if filter.len() > 0 {
        let f = |it: PaletteItem| item_entry(it);
        let p = |e: (Seq<char>, PaletteAction)| filter_matches(e.0, filter);
        lemma_filter_map_commute(items, f, p);
        assert((|it: PaletteItem| filter_matches(it.label@, filter)) =~= (|a: PaletteItem| p(f(a))));
    }
}

/// The index of the first row with this path.
pub open spec fn first_path(items: Seq<TreeItemView>, path: Seq<char>, i: int) -> bool {
    0 <= i < items.len() && items[i].path == path && forall|j: int| 0 <= j < i ==> (#[trigger] items[j]).path != path
}

/// What confirming a dialog leaves for the shell to do.
#[derive(Debug)]
pub enum Confirmed {
    /// Nothing more.
    Nothing,
    /// The sidebar selection moved: apply [`AppState::select_row`].
    Reselect,
    /// Switch to this theme.
    SetTheme(String),
}

/// Whether `r` and the state `w` are what confirming the open dialog of
/// `v` leads to, with sidebar rows `items` and theme ids `themes`.
pub open spec fn confirmed(
    v: AppStateView,
    items: Seq<TreeItemView>,
    tree: Seq<TreeItem>,
    themes: Seq<String>,
    w: AppStateView,
    r: Confirmed,
) -> bool {
    match v.overlay {
        Some(Overlay::Palette) => {
            let f = palette_entries(v.filter_text);
            if v.overlay_selected < f.len() && f[v.overlay_selected as int].1 == PaletteAction::SwitchTheme {
                w == opened_overlay(v, Overlay::ThemeDialog) && r is Nothing
            } else if v.overlay_selected < f.len() && f[v.overlay_selected as int].1 == PaletteAction::Quit {
                w == closed_overlay(AppStateView { should_quit: true, ..v }) && r is Nothing
            } else {
                w == closed_overlay(v) && r is Nothing
            }
        },
        Some(Overlay::Search) => {
            let f = search_items(tree, v.filter_text);
            if v.overlay_selected < f.len() {
                let path = f[v.overlay_selected as int].path@;
                if exists|i: int| first_path(items, path, i) {
                    let i = choose|i: int| first_path(items, path, i);
                    w == closed_overlay(AppStateView { selected_index: i as usize, ..v }) && r is Reselect
                } else {
                    w == closed_overlay(v) && r is Nothing
                }
            } else {
                w == closed_overlay(v) && r is Nothing
            }
        },
        Some(Overlay::ThemeDialog) => {
            let f = theme_items(themes, v.filter_text);
            w == closed_overlay(v) && if v.overlay_selected < f.len() {
                r matches Confirmed::SetTheme(t) && t@ == f[v.overlay_selected as int]@
            } else {
                r is Nothing
            }
        },
        None => w == v && r is Nothing,
    }
}

/// The index of the first row with a path.
fn find_path(items: &Vec<TreeItem>, path: &str) -> (r: Option<usize>)
    ensures
        match r {
            Some(i) => first_path(item_views(items@), path@, i as int),
            None => !exists|i: int| first_path(item_views(items@), path@, i),
        },
{
    let ghost iv = item_views(items@);
    let mut i: usize = 0;
    while i < items.len()
        invariant
            i <= items@.len(),
            iv == item_views(items@),
            forall|j: int| 0 <= j < i ==> (#[trigger] iv[j]).path != path@,
        decreases items@.len() - i,
    {
        assert(iv[i as int] == items@[i as int]@);
        if text_eq(items[i].path.as_str(), path) {
            return Some(i);
        }
        i = i + 1;
    }
    None
}

/// Where the row of a mouse event lands in the log buffer: the pane shows
/// `rows` rows ending `scroll` rows above the bottom of `history + rows`.
pub open spec fn buffer_point(p: GridPoint, rows: int, history: int, scroll: int) -> GridPoint {
    GridPoint { row: (sat_sub(history + rows, rows + scroll) + p.row) as usize, col: p.col }
}

/// The bytes a mouse event is forwarded as, when the selected process
/// reports the mouse in SGR form and the event is inside the log pane.
pub open spec fn mouse_forward(v: AppStateView, e: MouseEvent, modes: MouseModes) -> Option<Seq<u8>> {
    let dims = pty_dims(v.terminal_size);
    if v.selected_process is Some && (modes.report_click || modes.drag || modes.motion) && modes.sgr {
        match pty_cell(e.column as int, e.row as int, dims.0, dims.1) {
            Some(c) => Some(sgr_bytes(e.kind, e.modifiers, c.0 as nat, c.1 as nat)),
            None => None,
        }
    } else {
        None
    }
}

/// The state after a mouse event the selected process does not take: a
/// left press starts a selection at the cell (or extends it with shift),
/// a left drag extends it, the wheel scrolls the log (no further up than
/// `history` rows).
pub open spec fn mouse_state(v: AppStateView, e: MouseEvent, history: int) -> AppStateView {
    let dims = pty_dims(v.terminal_size);
    let cell = pty_cell(e.column as int, e.row as int, dims.0, dims.1);
    if v.selected_process is None {
        v
    } else {
        match cell {
            Some(c) => {
                let point = buffer_point(
                    GridPoint { row: (c.1 - 1) as usize, col: (c.0 - 1) as usize },
                    dims.1,
                    history,
                    v.log_scroll as int,
                );
                match e.kind {
                    MouseEventKind::Down(MouseButton::Left) => AppStateView {
                        selection: if e.modifiers.shift && v.selection is Some {
                            Some(Selection { head: point, ..v.selection.unwrap() })
                        } else {
                            Some(Selection { anchor: point, head: point })
                        },
                        ..v
                    },
                    MouseEventKind::Drag(MouseButton::Left) => AppStateView {
                        selection: match v.selection {
                            Some(s) => Some(Selection { head: point, ..s }),
                            None => None,
                        },
                        ..v
                    },
                    MouseEventKind::ScrollUp => AppStateView {
                        log_scroll: min_int(v.log_scroll + scroll_step(v.terminal_size), history) as usize,
                        ..v
                    },
                    MouseEventKind::ScrollDown => AppStateView {
                        log_scroll: sat_sub(v.log_scroll as int, scroll_step(v.terminal_size)) as usize,
                        ..v
                    },
                    _ => v,
                }
            },
            None => v,
        }
    }
}

/// The text of one highlighted row range of a line: the columns from the
/// start to the end (cut at the line's last column), without the trailing
/// spaces the grid pads with.
pub open spec fn row_piece(line: Seq<char>, r: RowRange) -> Seq<char> {
    let last = sat_sub(line.len() as int, 1);
    let end = if (r.end_col as int) < last { r.end_col as int } else { last };
    let cut = if r.start_col <= end { line.subrange(r.start_col as int, end + 1) } else { Seq::empty() };
    strip_suffix_char(cut, ' ')
}

/// The pieces copied for a list of row ranges: one per range, up to the
/// first range below the last line.
pub open spec fn copied_rows(ranges: Seq<RowRange>, lines: Seq<Seq<char>>) -> Seq<Seq<char>>
    decreases ranges.len(),
{
    if ranges.len() == 0 {
        Seq::empty()
    } else {
        let prev = copied_rows(ranges.drop_last(), lines);
        if prev.len() == ranges.len() - 1 && (ranges.last().row as int) < lines.len() {
            prev.push(row_piece(lines[ranges.last().row as int], ranges.last()))
        } else {
            prev
        }
    }
}

/// The text a selection copies out of the lines of a log: the pieces of
/// its rows joined by newlines; nothing from an empty log.
pub open spec fn selection_text_of(sel: Selection, lines: Seq<Seq<char>>) -> Seq<char> {
    if lines.len() == 0 {
        Seq::empty()
    } else {
        join_with(copied_rows(sel.ranges(lines[0].len()), lines), "\n"@)
    }
}

proof fn lemma_copied_rows_stop(ranges: Seq<RowRange>, lines: Seq<Seq<char>>, i: int)
    requires
        0 <= i < ranges.len(),
        copied_rows(ranges.take(i), lines).len() == i,
        ranges[i].row >= lines.len(),
    ensures
        copied_rows(ranges, lines) == copied_rows(ranges.take(i), lines),
    decreases ranges.len(),
{
    let d = ranges.drop_last();
    if ranges.len() == i + 1 {
        assert(d =~= ranges.take(i));
    } else {
        assert(d.take(i) =~= ranges.take(i));
        lemma_copied_rows_stop(d, lines, i);
    }
}

/// The characters of `line` from `lo` through `hi`, less trailing spaces.
fn piece(line: &Vec<char>, r: RowRange) -> (out: Vec<char>)
    requires
        !(line@.len() == 0 && r.start_col == 0),
    ensures
        out@ == row_piece(line@, r),
{
    let last = line.len().saturating_sub(1);
    let end = if r.end_col < last { r.end_col } else { last };
    let mut out: Vec<char> = Vec::new();
    if r.start_col <= end {
        assert(end < line.len());
        let mut c: usize = r.start_col;
        while c <= end
            invariant
                r.start_col <= c <= end + 1,
                end < line@.len(),
                end < usize::MAX,
                out@ == line@.subrange(r.start_col as int, c as int),
            decreases end + 1 - c,
        {
            out.push(line[c]);
            c = c + 1;
            assert(out@ =~= line@.subrange(r.start_col as int, c as int));
        }
    } else {
        assert(out@ =~= Seq::<char>::empty());
    }
    let ghost cut = out@;
    while out.len() > 0 && out[out.len() - 1] == ' '
        invariant
            strip_suffix_char(out@, ' ') == strip_suffix_char(cut, ' '),
        decreases out@.len(),
    {
        out.pop();
    }
    out
}

/// The text a selection copies from the log's lines.
pub fn selection_text(sel: Selection, lines: &Vec<Vec<char>>) -> (r: String)
    requires
        lines@.len() > 0 ==> forall|k: int|
            0 <= k < sel.ranges(lines@[0]@.len()).len() && (sel.ranges(lines@[0]@.len())[k].row as int)
                < lines@.len() && lines@[sel.ranges(lines@[0]@.len())[k].row as int]@.len() == 0
                ==> sel.ranges(lines@[0]@.len())[k].start_col > 0,
    ensures
        r@ == selection_text_of(sel, lines@.map_values(|l: Vec<char>| l@)),
{
    let ghost lv = lines@.map_values(|l: Vec<char>| l@);
    if lines.len() == 0 {
        return String::new();
    }
    let cols = lines[0].len();
    let ranges = sel.iter_row_ranges(cols);
    let mut buf: Vec<char> = Vec::new();
    let mut i: usize = 0;
    assert(ranges@.take(ranges@.len() as int) =~= ranges@);
    assert(ranges@.take(0) =~= Seq::<RowRange>::empty());
    while i < ranges.len()
        invariant_except_break
            copied_rows(ranges@.take(i as int), lv).len() == i,
        invariant
            i <= ranges@.len(),
            ranges@ == sel.ranges(cols as nat),
            cols == lines@[0]@.len(),
            lv == lines@.map_values(|l: Vec<char>| l@),
            lines@.len() > 0,
            forall|k: int|
                0 <= k < ranges@.len() && (ranges@[k].row as int) < lines@.len() && lines@[ranges@[k].row as int]@.len()
                    == 0 ==> ranges@[k].start_col > 0,
            buf@ == join_with(copied_rows(ranges@.take(i as int), lv), "\n"@),
            ranges@.take(ranges@.len() as int) == ranges@,
        ensures
            buf@ == join_with(copied_rows(ranges@, lv), "\n"@),
        decreases ranges@.len() - i,
    {
        let rr = ranges[i];
        assert(ranges@.take(i + 1).drop_last() =~= ranges@.take(i as int));
        if rr.row >= lines.len() {
            proof {
                lemma_copied_rows_stop(ranges@, lv, i as int);
            }
            break;
        }
        let pc = piece(&lines[rr.row], rr);
        let ghost prev = copied_rows(ranges@.take(i as int), lv);
        if i > 0 {
            buf.push('\n');
        }
        let mut k: usize = 0;
        let ghost before = buf@;
        while k < pc.len()
            invariant
                k <= pc@.len(),
                buf@ == before + pc@.take(k as int),
            decreases pc@.len() - k,
        {
            buf.push(pc[k]);
            k = k + 1;
            assert(buf@ =~= before + pc@.take(k as int));
        }
        proof {
            reveal_strlit("\n");
            assert(pc@.take(pc@.len() as int) =~= pc@);
            assert(lv[rr.row as int] == lines@[rr.row as int]@);
            let t = ranges@.take(i + 1);
            assert(t.last() == rr);
            assert(t.drop_last() =~= ranges@.take(i as int));
            let next = copied_rows(t, lv);
            assert(next == prev.push(pc@));
            assert(next.drop_last() =~= prev);
            if i > 0 {
                assert(buf@ =~= join_with(prev, "\n"@) + "\n"@ + pc@);
            } else {
                assert(buf@ =~= pc@);
                assert(next =~= seq![pc@]);
            }
        }
        i = i + 1;
    }
    assert(ranges@.take(ranges@.len() as int) =~= ranges@);
    string_from_chars(&buf)
}

/// The bytes of a paste: the text as UTF-8, between `ESC [200~` and
/// `ESC [201~` when the child asked for bracketed paste.
pub open spec fn paste_bytes(text: Seq<char>, bracketed: bool) -> Seq<u8> {
    if bracketed {
        seq![0x1Bu8, 0x5Bu8, 0x32u8, 0x30u8, 0x30u8, 0x7Eu8] + encode_utf8(text) + seq![
            0x1Bu8,
            0x5Bu8,
            0x32u8,
            0x30u8,
            0x31u8,
            0x7Eu8,
        ]
    } else {
        encode_utf8(text)
    }
}

/// The bytes a paste sends to the child.
pub fn paste_payload(text: &str, bracketed: bool) -> (r: Vec<u8>)
    ensures
        r@ == paste_bytes(text@, bracketed),
{
    let bytes = text.as_bytes();
    let mut out: Vec<u8> = Vec::new();
    if bracketed {
        out.push(0x1B);
        out.push(0x5B);
        out.push(0x32);
        out.push(0x30);
        out.push(0x30);
        out.push(0x7E);
    }
    let ghost start = out@;
    let mut i: usize = 0;
    while i < bytes.len()
        invariant
            i <= bytes@.len(),
            bytes@ == encode_utf8(text@),
            out@ == start + bytes@.take(i as int),
        decreases bytes@.len() - i,
    {
        out.push(bytes[i]);
        i = i + 1;
        assert(out@ =~= start + bytes@.take(i as int));
    }
    assert(bytes@.take(bytes@.len() as int) =~= bytes@);
    if bracketed {
        out.push(0x1B);
        out.push(0x5B);
        out.push(0x32);
        out.push(0x30);
        out.push(0x31);
        out.push(0x7E);
    }
    assert(out@ =~= paste_bytes(text@, bracketed));
    out
}

/// `project/app`, the key an app's shell is known by at start-up.
pub open spec fn app_path(c: RuntimeCommand) -> Seq<char> {
    c.project_name@ + "/"@ + c.app_name@
}

/// The shells started at start-up: one per app, in the order the apps'
/// first commands come, each as `(project, app, working directory)`.
pub open spec fn startup_shells(cmds: Seq<RuntimeCommand>) -> Seq<(Seq<char>, Seq<char>, Seq<char>)>
    decreases cmds.len(),
{
    if cmds.len() == 0 {
        Seq::empty()
    } else {
        let prev = startup_shells(cmds.drop_last());
        let c = cmds.last();
        if exists|j: int| 0 <= j < cmds.len() - 1 && app_path(#[trigger] cmds[j]) == app_path(c) {
            prev
        } else {
            prev.push((c.project_name@, c.app_name@, c.workdir@))
        }
    }
}

/// `project/app` of a command, as a string.
fn app_path_string(c: &RuntimeCommand) -> (r: String)
    ensures
        r@ == app_path(*c),
{
    let mut v = chars_of(c.project_name.as_str());
    v.push('/');
    let a = chars_of(c.app_name.as_str());
    let mut k: usize = 0;
    let ghost pre = v@;
    while k < a.len()
        invariant
            k <= a@.len(),
            v@ == pre + a@.take(k as int),
        decreases a@.len() - k,
    {
        v.push(a[k]);
        k = k + 1;
        assert(v@ =~= pre + a@.take(k as int));
    }
    assert(a@.take(a@.len() as int) =~= a@);
    proof {
        reveal_strlit("/");
    }
    assert(v@ =~= app_path(*c));
    string_from_chars(&v)
}

/// The shells to start at start-up: one per app, `(project, app, working
/// directory)` of the app's first command.
pub fn startup_terminals(cmds: &Vec<RuntimeCommand>) -> (r: Vec<ProcessKey>)
    ensures
        r@.map_values(|k: ProcessKey| key_view(k)) == startup_shells(cmds@),
{
    let mut seen: Vec<String> = Vec::new();
    let mut out: Vec<ProcessKey> = Vec::new();
    let mut i: usize = 0;
    while i < cmds.len()
        invariant
            i <= cmds@.len(),
            forall|x: Seq<char>| views(seen@).contains(x) <==> exists|j: int| 0 <= j < i && app_path(#[trigger] cmds@[j]) == x,
            out@.map_values(|k: ProcessKey| key_view(k)) == startup_shells(cmds@.take(i as int)),
        decreases cmds@.len() - i,
    {
        let c = &cmds[i];
        let key = app_path_string(c);
        let ghost t = cmds@.take(i + 1);
        proof {
            assert(t.drop_last() =~= cmds@.take(i as int));
            assert(t.last() == cmds@[i as int]);
            assert forall|j: int| 0 <= j < t.len() - 1 implies #[trigger] t[j] == cmds@[j] by {}
        }
        if crate::text::contains_text_in(&seen, key.as_str()) {
            proof {
                let j = choose|j: int| 0 <= j < i && app_path(#[trigger] cmds@[j]) == key@;
                assert(app_path(t[j]) == app_path(t.last()));
                assert forall|x: Seq<char>| views(seen@).contains(x) <==> exists|j: int| 0 <= j < i + 1 && app_path(
                    #[trigger] cmds@[j],
                ) == x by {
                    if exists|j: int| 0 <= j < i + 1 && app_path(#[trigger] cmds@[j]) == x {
                        let k = choose|k: int| 0 <= k < i + 1 && app_path(#[trigger] cmds@[k]) == x;
                        if k < i {
                        } else {
                            assert(app_path(cmds@[k]) == key@);
                        }
                    }
                }
            }
        } else {
            let ghost prev = out@;
            let ghost prev_seen = views(seen@);
            proof {
                assert forall|j: int| 0 <= j < t.len() - 1 implies app_path(#[trigger] t[j]) != app_path(t.last()) by {
                    assert(t[j] == cmds@[j]);
                    if app_path(cmds@[j]) == key@ {
                        assert(views(seen@).contains(key@));
                    }
                }
            }
            seen.push(key);
            out.push((c.project_name.clone(), c.app_name.clone(), c.workdir.clone()));
            proof {
                assert(views(seen@) =~= prev_seen.push(app_path(*c)));
                assert(out@.map_values(|k: ProcessKey| key_view(k)) =~= prev.map_values(|k: ProcessKey| key_view(k)).push(
                    (c.project_name@, c.app_name@, c.workdir@),
                ));
                assert forall|x: Seq<char>| views(seen@).contains(x) <==> exists|j: int| 0 <= j < i + 1 && app_path(
                    #[trigger] cmds@[j],
                ) == x by {
                    if views(seen@).contains(x) {
                        let m = choose|m: int| 0 <= m < views(seen@).len() && views(seen@)[m] == x;
                        if m < prev_seen.len() {
                            assert(prev_seen[m] == x);
                            assert(prev_seen.contains(x));
                        } else {
                            assert(app_path(cmds@[i as int]) == x);
                        }
                    }
                    if exists|j: int| 0 <= j < i + 1 && app_path(#[trigger] cmds@[j]) == x {
                        let k = choose|k: int| 0 <= k < i + 1 && app_path(#[trigger] cmds@[k]) == x;
                        if k < i {
                            assert(prev_seen.contains(x));
                            let m = choose|m: int| 0 <= m < prev_seen.len() && prev_seen[m] == x;
                            assert(views(seen@)[m] == x);
                        } else {
                            assert(views(seen@)[prev_seen.len() as int] == x);
                        }
                    }
                }
            }
        }
        i = i + 1;
    }
    assert(cmds@.take(cmds@.len() as int) =~= cmds@);
    out
}

/// The paths unfolded at start-up: every project, and every app that has
/// a command.
pub open spec fn startup_expanded(config: FrostConfig, cmds: Seq<RuntimeCommand>) -> Set<Seq<char>> {
    keys_of(config.projects@).to_set().union(Set::new(|x: Seq<char>| exists|j: int| 0 <= j < cmds.len() && app_path(#[trigger] cmds[j]) == x))
}

/// The paths unfolded at start-up.
pub fn initial_expanded(config: &FrostConfig, cmds: &Vec<RuntimeCommand>) -> (r: Vec<String>)
    ensures
        views(r@).to_set() == startup_expanded(*config, cmds@),
{
    let mut out: Vec<String> = Vec::new();
    let mut i: usize = 0;
    while i < config.projects.len()
        invariant
            i <= config.projects@.len(),
            views(out@) == keys_of(config.projects@).take(i as int),
        decreases config.projects@.len() - i,
    {
        let ghost prev = out@;
        out.push(config.projects[i].0.clone());
        assert(views(out@) =~= views(prev).push(config.projects@[i as int].0@));
        assert(keys_of(config.projects@).take(i + 1) =~= keys_of(config.projects@).take(i as int).push(
            config.projects@[i as int].0@,
        ));
        i = i + 1;
    }
    assert(keys_of(config.projects@).take(config.projects@.len() as int) =~= keys_of(config.projects@));
    let ghost base = views(out@);
    let mut j: usize = 0;
    while j < cmds.len()
        invariant
            j <= cmds@.len(),
            base == keys_of(config.projects@),
            views(out@).len() >= base.len(),
            views(out@).take(base.len() as int) == base,
            forall|x: Seq<char>| #[trigger] views(out@).contains(x) <==> (base.contains(x) || exists|k: int|
                0 <= k < j && app_path(#[trigger] cmds@[k]) == x),
        decreases cmds@.len() - j,
    {
        let key = app_path_string(&cmds[j]);
        let ghost prev = views(out@);
        out.push(key);
        proof {
            assert(views(out@) =~= prev.push(app_path(cmds@[j as int])));
            assert(views(out@).take(base.len() as int) =~= prev.take(base.len() as int));
            assert forall|x: Seq<char>| #[trigger] views(out@).contains(x) <==> (base.contains(x) || exists|k: int|
                0 <= k < j + 1 && app_path(#[trigger] cmds@[k]) == x) by {
                let cur = views(out@);
                if cur.contains(x) {
                    let m = choose|m: int| 0 <= m < cur.len() && cur[m] == x;
                    if m < prev.len() {
                        assert(prev[m] == x);
                        assert(prev.contains(x));
                    } else {
                        assert(app_path(cmds@[j as int]) == x);
                    }
                }
                if exists|k: int| 0 <= k < j + 1 && app_path(#[trigger] cmds@[k]) == x {
                    let k = choose|k: int| 0 <= k < j + 1 && app_path(#[trigger] cmds@[k]) == x;
                    if k < j {
                        assert(prev.contains(x));
                        let m = choose|m: int| 0 <= m < prev.len() && prev[m] == x;
                        assert(cur[m] == x);
                    } else {
                        assert(cur[prev.len() as int] == x);
                    }
                }
                if base.contains(x) {
                    let m = choose|m: int| 0 <= m < base.len() && base[m] == x;
                    assert(prev.take(base.len() as int)[m] == prev[m]);
                    assert(prev[m] == x);
                    assert(prev.contains(x));
                    assert(cur[m] == x);
                }
            }
        }
        j = j + 1;
    }
    assert(views(out@).to_set() =~= startup_expanded(*config, cmds@));
    out
}

/// The first terminal row, if any.
pub fn first_terminal(items: &Vec<TreeItem>) -> (r: Option<usize>)
    ensures
        match r {
            Some(i) => i < items@.len() && items@[i as int].kind == TreeItemKind::Terminal
                && forall|j: int| 0 <= j < i ==> (#[trigger] items@[j]).kind != TreeItemKind::Terminal,
            None => forall|j: int| 0 <= j < items@.len() ==> (#[trigger] items@[j]).kind != TreeItemKind::Terminal,
        },
{
    let mut i: usize = 0;
    while i < items.len()
        invariant
            i <= items@.len(),
            forall|j: int| 0 <= j < i ==> (#[trigger] items@[j]).kind != TreeItemKind::Terminal,
        decreases items@.len() - i,
    {
        if items[i].kind == TreeItemKind::Terminal {
            return Some(i);
        }
        i = i + 1;
    }
    None
}

/// Switching focus twice with no dialog open returns to the same state.
pub proof fn law_focus_twice(v: AppStateView, rows: nat)
    ensures
        main_step(main_step(v, ActionView::ToggleFocus, rows), ActionView::ToggleFocus, rows) == v,
{
}

/// Opening a dialog and closing it again leaves the state as it was
/// before, but for the filter and the dialog's selection being reset.
pub proof fn law_open_then_close(v: AppStateView, o: Overlay)
    ensures
        overlay_step(opened_overlay(v, o), ActionView::CloseOverlay).0 == closed_overlay(v),
{
}

/// In an open dialog, clearing the filter leaves it empty whatever was
/// typed before, and goes back to the dialog's first row; nothing else
/// changes. So typing a character and then clearing ends where clearing
/// at once does, and clearing twice is clearing once.
pub proof fn law_filter_clear_empties(v: AppStateView, c: char)
    ensures
        overlay_step(v, ActionView::FilterClear).0.filter_text.len() == 0,
        overlay_step(v, ActionView::FilterClear).0.overlay_selected == 0,
        overlay_step(v, ActionView::FilterClear).0.overlay == v.overlay,
        overlay_step(v, ActionView::FilterClear).0.selected_index == v.selected_index,
        overlay_step(overlay_step(v, ActionView::FilterChar(c)).0, ActionView::FilterClear).0 == overlay_step(
            v,
            ActionView::FilterClear,
        ).0,
        overlay_step(overlay_step(v, ActionView::FilterClear).0, ActionView::FilterClear).0 == overlay_step(
            v,
            ActionView::FilterClear,
        ).0,
        !overlay_step(v, ActionView::FilterClear).1,
{
}

impl AppState {
    /// The state at start-up for a terminal of `size`: sidebar focused,
    /// nothing selected, and the PTY size of `size` taken as already sent.
    pub fn new(size: (u16, u16)) -> (s: AppState)
        ensures
            s@ == (AppStateView {
                should_quit: false,
                tick_count: 0,
                terminal_size: size,
                focus: Focus::Sidebar,
                overlay: None,
                filter_text: Seq::empty(),
                overlay_selected: 0,
                selected_index: 0,
                selected_process: None,
                selection: None,
                log_scroll: 0,
                running_count: 0,
                last_pty_dims: (pane_cols(size.0 as int) as u16, pane_rows(size.1 as int) as u16),
            }),
    {
        let dims = log_pane_dims(size.0, size.1);
        AppState {
            should_quit: false,
            tick_count: 0,
            terminal_size: size,
            focus: Focus::Sidebar,
            overlay: None,
            filter_text: String::new(),
            overlay_selected: 0,
            selected_index: 0,
            selected_process: None,
            selection: None,
            log_scroll: 0,
            running_count: 0,
            last_pty_dims: dims,
        }
    }

    /// The PTY size the log pane currently calls for.
    pub fn current_pty_dims(&self) -> (r: (u16, u16))
        ensures
            r.0 == pty_dims(self.terminal_size).0,
            r.1 == pty_dims(self.terminal_size).1,
    {
        let (w, h) = self.terminal_size;
        if w == 0 || h == 0 {
            (80, 24)
        } else {
            log_pane_dims(w, h)
        }
    }

    /// Rows scrolled per step: half the pane, at least one.
    pub fn scroll_step(&self) -> (r: usize)
        ensures
            r == scroll_step(self.terminal_size),
    {
        let (_, rows) = self.current_pty_dims();
        let half = rows as usize / 2;
        if half >= 1 { half } else { 1 }
    }

    /// Scroll up one step, no further than `cap` rows.
    pub fn scroll_up(&mut self, cap: usize)
        ensures
            final(self)@ == (AppStateView {
                log_scroll: min_int(old(self).log_scroll + scroll_step(old(self).terminal_size), cap as int) as usize,
                ..old(self)@
            }),
    {
        let step = self.scroll_step();
        let up = self.log_scroll.saturating_add(step);
        self.log_scroll = if up <= cap { up } else { cap };
    }

    /// Scroll to the top: `cap` rows up.
    pub fn scroll_top(&mut self, cap: usize)
        ensures
            final(self)@ == (AppStateView { log_scroll: cap, ..old(self)@ }),
    {
        self.log_scroll = cap;
    }

    /// Closes the dialog.
    fn close_overlay(&mut self)
        ensures
            final(self)@ == closed_overlay(old(self)@),
    {
        self.overlay = None;
        self.filter_text = String::new();
        self.overlay_selected = 0;
    }

    /// Opens dialog `o`.
    fn open_overlay(&mut self, o: Overlay)
        ensures
            final(self)@ == opened_overlay(old(self)@, o),
    {
        self.overlay = Some(o);
        self.filter_text = String::new();
        self.overlay_selected = 0;
    }

    /// An action while a dialog is open.
    fn route_overlay(&mut self, action: Action) -> (r: Route)
        requires
            action@ is Down ==> old(self).overlay_selected < usize::MAX,
        ensures
            final(self)@ == overlay_step(old(self)@, action@).0,
            (r is Confirm) == overlay_step(old(self)@, action@).1,
            r is Done || r is Confirm,
    {
        match action {
            Action::CloseOverlay | Action::Quit => {
                self.close_overlay();
                Route::Done
            },
            Action::Up => {
                if self.overlay_selected > 0 {
                    self.overlay_selected = self.overlay_selected - 1;
                }
                Route::Done
            },
            Action::Down => {
                self.overlay_selected = self.overlay_selected + 1;
                Route::Done
            },
            Action::Confirm => Route::Confirm,
            Action::FilterChar(c) => {
                let mut chars = crate::text::chars_of(self.filter_text.as_str());
                chars.push(c);
                self.filter_text = crate::color::string_from_chars(&chars);
                self.overlay_selected = 0;
                Route::Done
            },
            Action::FilterBackspace => {
                let mut chars = crate::text::chars_of(self.filter_text.as_str());
                if chars.len() > 0 {
                    chars.pop();
                }
                self.filter_text = crate::color::string_from_chars(&chars);
                self.overlay_selected = 0;
                Route::Done
            },
            Action::FilterClear => {
                self.filter_text = String::new();
                self.overlay_selected = 0;
                Route::Done
            },
            _ => Route::Done,
        }
    }
    /// Applies an action to the state, for a sidebar of `rows` rows.  While
    /// a dialog is open the action goes to the dialog; otherwise it moves
    /// the selection, scrolls, switches focus or opens a dialog, and names
    /// the rest for the shell.
    pub fn route(&mut self, action: Action, rows: usize) -> (r: Route)
        requires
            old(self).overlay is Some && action@ is Down ==> old(self).overlay_selected < usize::MAX,
            old(self).overlay is None && action@ is Tick ==> old(self).tick_count < u64::MAX,
        ensures
            old(self).overlay is Some ==> final(self)@ == overlay_step(old(self)@, action@).0
                && (r is Confirm) == overlay_step(old(self)@, action@).1 && (r is Done || r is Confirm),
            old(self).overlay is None ==> final(self)@ == main_step(old(self)@, action@, rows as nat)
                && main_route(old(self)@, action@, r),
    {
        if self.overlay.is_some() {
            return self.route_overlay(action);
        }
        match action {
            Action::Quit => {
                self.should_quit = true;
                Route::Done
            },
            Action::Tick => {
                self.tick_count = self.tick_count + 1;
                Route::Refresh
            },
            Action::Resize { width, height } => {
                self.terminal_size = (width, height);
                let dims = log_pane_dims(width, height);
                if dims.0 == self.last_pty_dims.0 && dims.1 == self.last_pty_dims.1 {
                    Route::Done
                } else {
                    self.last_pty_dims = dims;
                    Route::ResizeProcesses(dims.0, dims.1)
                }
            },
            Action::Up => {
                if self.selected_index > 0 {
                    self.selected_index = self.selected_index - 1;
                }
                Route::SelectionMoved
            },
            Action::Down => {
                if rows > 0 && self.selected_index < rows - 1 {
                    self.selected_index = self.selected_index + 1;
                }
                Route::SelectionMoved
            },
            Action::Toggle => Route::Toggle,
            Action::ScrollUp => Route::ScrollUp,
            Action::ScrollDown => {
                let step = self.scroll_step();
                self.log_scroll = self.log_scroll.saturating_sub(step);
                Route::Done
            },
            Action::ScrollBottom => {
                self.log_scroll = 0;
                Route::Done
            },
            Action::ScrollTop => Route::ScrollTop,
            Action::ToggleFocus => {
                match self.focus {
                    Focus::Sidebar => {
                        self.focus = Focus::LogViewer;
                        Route::SelectionMoved
                    },
                    Focus::LogViewer => {
                        self.focus = Focus::Sidebar;
                        Route::Done
                    },
                }
            },
            Action::WriteInput(bytes) => Route::Write(bytes),
            Action::Paste(text) => Route::Paste(text),
            Action::Mouse(m) => Route::Mouse(m),
            Action::CopySelection => Route::Copy,
            Action::OpenPalette => {
                self.open_overlay(Overlay::Palette);
                Route::Done
            },
            Action::OpenSearch => {
                self.open_overlay(Overlay::Search);
                Route::Done
            },
            _ => Route::Done,
        }
    }
    /// Selects the process of the current row, if it has one: a different
    /// process drops the text selection.  Answers whether a process row is
    /// selected, in which case the shell makes sure it has a live shell.
    pub fn select_row(&mut self, items: &Vec<TreeItem>) -> (r: bool)
        ensures
            final(self)@ == selected_row_state(old(self)@, item_views(items@)),
            r == (row_key(item_views(items@), old(self).selected_index as int) is Some),
    {
        let idx = self.selected_index;
        if idx >= items.len() {
            return false;
        }
        let it = &items[idx];
        assert(item_views(items@)[idx as int] == it@);
        if it.kind != TreeItemKind::Terminal && it.kind != TreeItemKind::Subcommand {
            return false;
        }
        match key_of_path(it.path.as_str()) {
            Some(k) => {
                let same = match &self.selected_process {
                    Some(cur) => text_eq(cur.0.as_str(), k.0.as_str()) && text_eq(cur.1.as_str(), k.1.as_str())
                        && text_eq(cur.2.as_str(), k.2.as_str()),
                    None => false,
                };
                if !same {
                    self.selection = None;
                }
                self.selected_process = Some(k);
                true
            },
            None => false,
        }
    }
    /// Confirms the open dialog, given the sidebar rows and the theme ids.
    /// The palette runs its selected command (switching to the theme
    /// dialog, or quitting); the search selects the first sidebar row with
    /// the chosen path; the theme dialog names the chosen theme.  The
    /// dialog then closes, except when the palette opens the theme dialog.
    pub fn confirm_overlay(&mut self, items: Vec<TreeItem>, themes: Vec<String>) -> (r: Confirmed)
        ensures
            confirmed(old(self)@, item_views(items@), items@, themes@, final(self)@, r),
    {
        match self.overlay {
            Some(Overlay::Palette) => {
                let palette = Palette { items: default_items(), selected: self.overlay_selected, filter: self.filter_text.clone() };
                proof {
                    lemma_palette_entries(palette.items@, palette.filter@);
                    let f = filter_items(palette.items@, palette.filter@);
                    if self.overlay_selected < f.len() {
                        assert(f.map_values(|it: PaletteItem| item_entry(it))[self.overlay_selected as int]
                            == item_entry(f[self.overlay_selected as int]));
                    }
                }
                match palette.selected_action() {
                    Some(PaletteAction::SwitchTheme) => {
                        self.open_overlay(Overlay::ThemeDialog);
                        return Confirmed::Nothing;
                    },
                    Some(PaletteAction::Quit) => {
                        self.should_quit = true;
                    },
                    _ => {},
                }
                self.close_overlay();
                Confirmed::Nothing
            },
            Some(Overlay::Search) => {
                let dialog = SearchDialog { items, selected: self.overlay_selected, filter: self.filter_text.clone() };
                let mut r = Confirmed::Nothing;
                match dialog.selected_item() {
                    Some(item) => {
                        match find_path(&dialog.items, item.path.as_str()) {
                            Some(idx) => {
                                proof {
                                    let iv = item_views(dialog.items@);
                                    let c = choose|c: int| first_path(iv, item.path@, c);
                                    if c < idx {
                                        assert(iv[c].path != item.path@);
                                    }
                                    if idx < c {
                                        assert(iv[idx as int].path != item.path@);
                                    }
                                }
                                self.selected_index = idx;
                                r = Confirmed::Reselect;
                            },
                            None => {},
                        }
                    },
                    None => {},
                }
                self.close_overlay();
                r
            },
            Some(Overlay::ThemeDialog) => {
                let dialog = ThemeDialog {
                    themes,
                    selected: self.overlay_selected,
                    filter: self.filter_text.clone(),
                    active_theme: String::new(),
                };
                let chosen = dialog.selected_theme();
                self.close_overlay();
                match chosen {
                    Some(t) => Confirmed::SetTheme(t),
                    None => Confirmed::Nothing,
                }
            },
            None => Confirmed::Nothing,
        }
    }

    /// Handles a mouse event given the selected process's mouse modes and
    /// history size.  When the process reports the mouse in SGR form and
    /// the event is in the log pane, answers the bytes to forward to it;
    /// otherwise the event drives the local selection and scrolling.
    pub fn route_mouse(&mut self, event: MouseEvent, modes: MouseModes, history: usize) -> (r: Option<Vec<u8>>)
        requires
            history + pty_dims(old(self).terminal_size).1 <= usize::MAX,
            old(self).log_scroll + pty_dims(old(self).terminal_size).1 <= usize::MAX,
        ensures
            match mouse_forward(old(self)@, event, modes) {
                Some(b) => r matches Some(v) && v@ == b && final(self)@ == old(self)@,
                None => r is None && final(self)@ == mouse_state(old(self)@, event, history as int),
            },
    {
        if self.selected_process.is_none() {
            return None;
        }
        let (cols, rows) = self.current_pty_dims();
        let in_pane_pty = window_to_pty_coords(event.column, event.row, cols, rows);
        let in_pane_screen = window_to_grid_coords(event.column, event.row, cols, rows);
        if modes.reporting() && modes.sgr {
            match in_pane_pty {
                Some((x, y)) => match encode_sgr_mouse(event.kind, event.modifiers, x, y) {
                    Some(bytes) => return Some(bytes),
                    None => {},
                },
                None => {},
            }
        }
        let point = match in_pane_screen {
            Some(p) => {
                let visible = rows as usize;
                let total = history + visible;
                let start = total.saturating_sub(visible + self.log_scroll);
                GridPoint { row: start + p.row, col: p.col }
            },
            None => return None,
        };
        match event.kind {
            MouseEventKind::Down(MouseButton::Left) => {
                if event.modifiers.shift {
                    match self.selection {
                        Some(sel) => {
                            let mut s = sel;
                            s.extend_to(point);
                            self.selection = Some(s);
                        },
                        None => {
                            self.selection = Some(Selection::at(point));
                        },
                    }
                } else {
                    self.selection = Some(Selection::at(point));
                }
            },
            MouseEventKind::Drag(MouseButton::Left) => {
                match self.selection {
                    Some(sel) => {
                        let mut s = sel;
                        s.extend_to(point);
                        self.selection = Some(s);
                    },
                    None => {},
                }
            },
            MouseEventKind::ScrollUp => self.scroll_up(history),
            MouseEventKind::ScrollDown => {
                let step = self.scroll_step();
                self.log_scroll = self.log_scroll.saturating_sub(step);
            },
            _ => {},
        }
        None
    }
}

} // verus!
