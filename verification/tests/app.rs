use frost::app::{
    app_workdir, command_line, first_terminal, initial_expanded, key_of_path, live_keys, needs_shell, paste_payload,
    row_workdir, running_count, selection_text, startup_terminals, terminal_needs_start, toggle_expanded, toggle_plan,
    AppState, Confirmed, Route, TogglePlan,
};
use frost::config::{AppConfig, FrostConfig, ProjectConfig};
use frost::flatten::RuntimeCommand;
use frost::input::{Action, Focus, Overlay};
use frost::pane::{KeyModifiers, MouseButton, MouseEvent, MouseEventKind, LOG_PANE_INNER_X, LOG_PANE_INNER_Y};
use frost::process::{MouseModes, ProcessInfo, ProcessStatus};
use frost::selection::{GridPoint, Selection};
use frost::sidebar::{TreeItem, TreeItemKind};

fn item(kind: TreeItemKind, name: &str, path: &str, depth: usize) -> TreeItem {
    TreeItem { kind, name: name.to_string(), path: path.to_string(), depth }
}

fn tree() -> Vec<TreeItem> {
    vec![
        item(TreeItemKind::Project, "p", "p", 0),
        item(TreeItemKind::App, "a", "p/a", 1),
        item(TreeItemKind::Terminal, "terminal", "p/a/terminal", 2),
        item(TreeItemKind::Subcommand, "dev", "p/a/dev", 2),
    ]
}

fn cmd(p: &str, a: &str, s: &str, command: &str, workdir: &str) -> RuntimeCommand {
    RuntimeCommand {
        project_name: p.to_string(),
        app_name: a.to_string(),
        subcommand_name: s.to_string(),
        command: command.to_string(),
        workdir: workdir.to_string(),
        is_default: false,
        env: vec![],
    }
}

fn info(p: &str, a: &str, s: &str, status: ProcessStatus) -> ProcessInfo {
    ProcessInfo {
        project: p.to_string(),
        app: a.to_string(),
        subcommand: s.to_string(),
        status,
        pid: Some(1),
        generation_id: 1,
    }
}

#[test]
fn new_state_takes_the_pane_size_as_sent() {
    let s = AppState::new((120, 30));
    assert_eq!(s.last_pty_dims, (88, 25));
    assert_eq!(s.focus, Focus::Sidebar);
    assert!(s.overlay.is_none());
    assert_eq!(s.current_pty_dims(), (88, 25));
    assert_eq!(AppState::new((0, 0)).current_pty_dims(), (80, 24));
    assert_eq!(s.scroll_step(), 12);
}

#[test]
fn resize_to_same_pane_size_is_deduplicated() {
    let mut s = AppState::new((120, 30));
    assert!(matches!(s.route(Action::Resize { width: 120, height: 30 }, 0), Route::Done));
    match s.route(Action::Resize { width: 130, height: 30 }, 0) {
        Route::ResizeProcesses(c, r) => assert_eq!((c, r), (98, 25)),
        _ => panic!("expected a resize"),
    }
    assert_eq!(s.terminal_size, (130, 30));
    assert!(matches!(s.route(Action::Resize { width: 130, height: 30 }, 0), Route::Done));
}

#[test]
fn navigation_stays_within_rows() {
    let mut s = AppState::new((120, 30));
    assert!(matches!(s.route(Action::Up, 4), Route::SelectionMoved));
    assert_eq!(s.selected_index, 0);
    for _ in 0..10 {
        s.route(Action::Down, 4);
    }
    assert_eq!(s.selected_index, 3);
}

#[test]
fn focus_toggles_and_asks_for_the_process() {
    let mut s = AppState::new((120, 30));
    assert!(matches!(s.route(Action::ToggleFocus, 0), Route::SelectionMoved));
    assert_eq!(s.focus, Focus::LogViewer);
    assert!(matches!(s.route(Action::ToggleFocus, 0), Route::Done));
    assert_eq!(s.focus, Focus::Sidebar);
}

#[test]
fn overlay_filter_editing() {
    let mut s = AppState::new((120, 30));
    s.route(Action::OpenPalette, 0);
    assert_eq!(s.overlay, Some(Overlay::Palette));
    s.route(Action::FilterChar('q'), 0);
    s.route(Action::FilterChar('u'), 0);
    assert_eq!(s.filter_text, "qu");
    s.route(Action::Down, 0);
    assert_eq!(s.overlay_selected, 1);
    s.route(Action::FilterBackspace, 0);
    assert_eq!(s.filter_text, "q");
    assert_eq!(s.overlay_selected, 0);
    s.route(Action::Up, 0);
    assert_eq!(s.overlay_selected, 0);
    assert!(matches!(s.route(Action::Confirm, 0), Route::Confirm));
    s.route(Action::Quit, 0);
    assert!(s.overlay.is_none());
    assert!(!s.should_quit);
    assert_eq!(s.filter_text, "");
}

#[test]
fn quit_and_tick() {
    let mut s = AppState::new((120, 30));
    assert!(matches!(s.route(Action::Tick, 0), Route::Refresh));
    assert_eq!(s.tick_count, 1);
    s.route(Action::Quit, 0);
    assert!(s.should_quit);
}

#[test]
fn scrolling_is_capped_and_floored() {
    let mut s = AppState::new((120, 30));
    assert!(matches!(s.route(Action::ScrollUp, 0), Route::ScrollUp));
    s.scroll_up(100);
    assert_eq!(s.log_scroll, 12);
    s.scroll_up(20);
    assert_eq!(s.log_scroll, 20);
    s.route(Action::ScrollDown, 0);
    assert_eq!(s.log_scroll, 8);
    s.route(Action::ScrollDown, 0);
    assert_eq!(s.log_scroll, 0);
    s.scroll_top(77);
    assert_eq!(s.log_scroll, 77);
    s.route(Action::ScrollBottom, 0);
    assert_eq!(s.log_scroll, 0);
}

#[test]
fn passthrough_routes_carry_their_data() {
    let mut s = AppState::new((120, 30));
    match s.route(Action::WriteInput(vec![1, 2]), 0) {
        Route::Write(b) => assert_eq!(b, vec![1, 2]),
        _ => panic!("expected a write"),
    }
    match s.route(Action::Paste("hi".to_string()), 0) {
        Route::Paste(t) => assert_eq!(t, "hi"),
        _ => panic!("expected a paste"),
    }
    assert!(matches!(s.route(Action::CopySelection, 0), Route::Copy));
    assert!(matches!(s.route(Action::Toggle, 0), Route::Toggle));
}

#[test]
fn path_keys_need_three_parts() {
    let k = key_of_path("p/a/dev").unwrap();
    assert_eq!(k, ("p".to_string(), "a".to_string(), "dev".to_string()));
    assert!(key_of_path("p/a").is_none());
    assert!(key_of_path("p/a/b/c").is_none());
    let k = key_of_path("//").unwrap();
    assert_eq!(k, (String::new(), String::new(), String::new()));
}

#[test]
fn selecting_a_row_switches_process_and_drops_selection() {
    let items = tree();
    let mut s = AppState::new((120, 30));
    s.selected_index = 0;
    assert!(!s.select_row(&items));
    assert!(s.selected_process.is_none());
    s.selected_index = 2;
    assert!(s.select_row(&items));
    assert_eq!(s.selected_process, Some(("p".to_string(), "a".to_string(), "terminal".to_string())));
    s.selection = Some(Selection::at(GridPoint { row: 0, col: 0 }));
    assert!(s.select_row(&items));
    assert!(s.selection.is_some());
    s.selected_index = 3;
    assert!(s.select_row(&items));
    assert!(s.selection.is_none());
    s.selected_index = 9;
    assert!(!s.select_row(&items));
}

#[test]
fn toggle_plans_by_row_kind() {
    let items = tree();
    assert!(matches!(toggle_plan(&items, 0), TogglePlan::Fold(p) if p == "p"));
    assert!(matches!(toggle_plan(&items, 1), TogglePlan::Fold(p) if p == "p/a"));
    assert!(matches!(toggle_plan(&items, 2), TogglePlan::Terminal(k) if k.2 == "terminal"));
    assert!(matches!(toggle_plan(&items, 3), TogglePlan::Subcommand(k) if k.2 == "dev"));
    assert!(matches!(toggle_plan(&items, 4), TogglePlan::Nothing));
}

#[test]
fn toggling_twice_restores_the_unfolded_set() {
    let mut ex = vec!["p".to_string(), "p/a".to_string()];
    toggle_expanded(&mut ex, "p/a");
    assert_eq!(ex, vec!["p".to_string()]);
    toggle_expanded(&mut ex, "p/a");
    assert_eq!(ex, vec!["p".to_string(), "p/a".to_string()]);
}

#[test]
fn shell_workdirs_fall_back() {
    let cmds = vec![cmd("p", "a", "build", "make", "/a/build"), cmd("p", "a", "dev", "run", "/a/dev")];
    assert_eq!(row_workdir(&cmds, "p", "a", "dev"), "/a/dev");
    assert_eq!(row_workdir(&cmds, "p", "a", "terminal"), "/a/build");
    assert_eq!(app_workdir(&cmds, "p", "a"), "/a/build");
    assert_eq!(app_workdir(&cmds, "p", "zzz"), ".");
    assert_eq!(row_workdir(&cmds, "q", "a", "dev"), ".");
}

#[test]
fn shells_start_only_when_needed() {
    assert!(needs_shell(None));
    assert!(needs_shell(Some(ProcessStatus::Stopped)));
    assert!(needs_shell(Some(ProcessStatus::Stopping)));
    assert!(!needs_shell(Some(ProcessStatus::Running)));
    assert!(!needs_shell(Some(ProcessStatus::Starting)));
    assert!(terminal_needs_start(None));
    assert!(terminal_needs_start(Some(ProcessStatus::Crashed)));
    assert!(!terminal_needs_start(Some(ProcessStatus::Stopping)));
    assert!(!terminal_needs_start(Some(ProcessStatus::Running)));
}

#[test]
fn command_lines_end_in_one_newline() {
    assert_eq!(command_line("pnpm dev"), "pnpm dev\n");
    assert_eq!(command_line("pnpm dev\n"), "pnpm dev\n");
    assert_eq!(command_line(""), "\n");
    assert_eq!(command_line(&command_line("x")), command_line("x"));
}

#[test]
fn live_processes_are_counted_and_listed() {
    let list = vec![
        info("p", "a", "x", ProcessStatus::Running),
        info("p", "a", "y", ProcessStatus::Stopped),
        info("p", "b", "z", ProcessStatus::Starting),
        info("p", "b", "w", ProcessStatus::Crashed),
    ];
    assert_eq!(running_count(&list), 2);
    let keys = live_keys(&list);
    assert_eq!(keys.len(), 2);
    assert_eq!(keys[0].2, "x");
    assert_eq!(keys[1].2, "z");
}

#[test]
fn confirming_the_palette() {
    let mut s = AppState::new((120, 30));
    s.route(Action::OpenPalette, 0);
    // Row 0 is "Switch Theme".
    assert!(matches!(s.confirm_overlay(tree(), vec![]), Confirmed::Nothing));
    assert_eq!(s.overlay, Some(Overlay::ThemeDialog));
    s.route(Action::CloseOverlay, 0);
    s.route(Action::OpenPalette, 0);
    s.route(Action::FilterChar('q'), 0);
    s.confirm_overlay(tree(), vec![]);
    assert!(s.should_quit);
    assert!(s.overlay.is_none());
}

#[test]
fn confirming_the_search_selects_the_row() {
    let mut s = AppState::new((120, 30));
    s.route(Action::OpenSearch, 0);
    for c in "dev".chars() {
        s.route(Action::FilterChar(c), 0);
    }
    assert!(matches!(s.confirm_overlay(tree(), vec![]), Confirmed::Reselect));
    assert_eq!(s.selected_index, 3);
    assert!(s.overlay.is_none());
}

#[test]
fn confirming_the_theme_dialog_names_the_theme() {
    let mut s = AppState::new((120, 30));
    s.overlay = Some(Overlay::ThemeDialog);
    s.overlay_selected = 1;
    match s.confirm_overlay(vec![], vec!["aura".to_string(), "nord".to_string()]) {
        Confirmed::SetTheme(t) => assert_eq!(t, "nord"),
        _ => panic!("expected a theme"),
    }
    assert!(s.overlay.is_none());
    s.overlay = Some(Overlay::ThemeDialog);
    s.overlay_selected = 5;
    assert!(matches!(s.confirm_overlay(vec![], vec!["aura".to_string()]), Confirmed::Nothing));
}

fn mouse(kind: MouseEventKind, column: u16, row: u16, shift: bool) -> MouseEvent {
    let mut modifiers = KeyModifiers::none();
    modifiers.shift = shift;
    MouseEvent { kind, column, row, modifiers }
}

#[test]
fn mouse_is_forwarded_when_the_child_reports_it() {
    let mut s = AppState::new((120, 30));
    s.selected_process = Some(("p".to_string(), "a".to_string(), "s".to_string()));
    let modes = MouseModes { report_click: true, sgr: true, ..MouseModes::none() };
    let ev = mouse(MouseEventKind::Down(MouseButton::Left), LOG_PANE_INNER_X, LOG_PANE_INNER_Y, false);
    assert_eq!(s.route_mouse(ev, modes, 0).unwrap(), b"\x1B[<0;1;1M".to_vec());
    assert!(s.selection.is_none());
}

#[test]
fn mouse_drives_local_selection_and_scroll() {
    let mut s = AppState::new((120, 30));
    s.selected_process = Some(("p".to_string(), "a".to_string(), "s".to_string()));
    let modes = MouseModes::none();
    let down = mouse(MouseEventKind::Down(MouseButton::Left), LOG_PANE_INNER_X + 2, LOG_PANE_INNER_Y + 1, false);
    assert!(s.route_mouse(down, modes, 100).is_none());
    // 100 history rows above a 25-row pane: screen row 1 is buffer row 101.
    assert_eq!(s.selection, Some(Selection::at(GridPoint { row: 101, col: 2 })));
    let drag = mouse(MouseEventKind::Drag(MouseButton::Left), LOG_PANE_INNER_X + 5, LOG_PANE_INNER_Y + 3, false);
    s.route_mouse(drag, modes, 100);
    assert_eq!(s.selection.unwrap().head, GridPoint { row: 103, col: 5 });
    let wheel = mouse(MouseEventKind::ScrollUp, LOG_PANE_INNER_X, LOG_PANE_INNER_Y, false);
    s.route_mouse(wheel, modes, 100);
    assert_eq!(s.log_scroll, 12);
    let outside = mouse(MouseEventKind::ScrollUp, 0, 0, false);
    s.route_mouse(outside, modes, 100);
    assert_eq!(s.log_scroll, 12);
}

#[test]
fn copied_text_trims_padding_and_joins_rows() {
    let lines: Vec<Vec<char>> = vec!["  ab   ".chars().collect(), "cdef   ".chars().collect(), "gh     ".chars().collect()];
    let mut sel = Selection::at(GridPoint { row: 0, col: 1 });
    sel.extend_to(GridPoint { row: 1, col: 2 });
    assert_eq!(selection_text(sel, &lines), " ab\ncde");
    let below = Selection::at(GridPoint { row: 7, col: 0 });
    assert_eq!(selection_text(below, &lines), "");
    assert_eq!(selection_text(sel, &vec![]), "");
    let mut tail = Selection::at(GridPoint { row: 2, col: 0 });
    tail.extend_to(GridPoint { row: 5, col: 1 });
    assert_eq!(selection_text(tail, &lines), "gh");
}

#[test]
fn paste_is_bracketed_on_request() {
    assert_eq!(paste_payload("hé", false), "hé".as_bytes().to_vec());
    assert_eq!(paste_payload("x", true), b"\x1B[200~x\x1B[201~".to_vec());
}

#[test]
fn one_shell_per_app_at_startup() {
    let cmds = vec![cmd("p", "a", "dev", "x", "/1"), cmd("p", "a", "build", "y", "/2"), cmd("p", "b", "dev", "z", "/3")];
    let starts = startup_terminals(&cmds);
    assert_eq!(
        starts,
        vec![
            ("p".to_string(), "a".to_string(), "/1".to_string()),
            ("p".to_string(), "b".to_string(), "/3".to_string()),
        ]
    );
    let config = FrostConfig {
        projects: vec![(
            "p".to_string(),
            ProjectConfig {
                workdir: None,
                icon: None,
                apps: vec![("a".to_string(), AppConfig { workdir: None, default: None, command: Some("x".to_string()), commands: None, icon: None })],
            },
        )],
    };
    let ex = initial_expanded(&config, &cmds);
    assert!(ex.contains(&"p".to_string()));
    assert!(ex.contains(&"p/a".to_string()));
    assert!(ex.contains(&"p/b".to_string()));
}

#[test]
fn first_terminal_row() {
    assert_eq!(first_terminal(&tree()), Some(2));
    assert_eq!(first_terminal(&vec![]), None);
}
