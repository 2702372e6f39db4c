use frost::layout::{
    drawn_cells, CommandBar, cell_colors, cell_glyph, center_rect, cursor_cell, log_title, log_window_start, sidebar_row_text,
    sidebar_window_start, theme_row_text,
};
use frost::sidebar::TreeItemKind;
use frost::system_theme::{ramp_index, system_theme_plan, SystemSource};

#[test]
fn log_window_follows_the_bottom() {
    assert_eq!(log_window_start(100, 20, 0), 80);
    assert_eq!(log_window_start(100, 20, 30), 50);
    assert_eq!(log_window_start(100, 20, 500), 0);
    assert_eq!(log_window_start(10, 20, 5), 0);
}

#[test]
fn sidebar_window_keeps_selection_visible() {
    assert_eq!(sidebar_window_start(50, 3, 10), 3);
    assert_eq!(sidebar_window_start(50, 45, 10), 40);
    assert_eq!(sidebar_window_start(50, 99, 10), 40);
    assert_eq!(sidebar_window_start(5, 3, 10), 0);
}

#[test]
fn cursor_lands_inside_the_pane() {
    // Pane at (30, 0), 90 wide, 27 high: 25 visible rows.
    assert_eq!(cursor_cell((30, 0, 90, 27), 30, 5, 3, 4, 0), Some((35, 4)));
    // Scrolled far up: cursor below the pane.
    assert_eq!(cursor_cell((30, 0, 90, 27), 130, 105, 24, 0, 50), None);
}

#[test]
fn dialogs_are_centred() {
    assert_eq!(center_rect((0, 0, 100, 40), 40, 16), (30, 12, 40, 16));
    assert_eq!(center_rect((5, 5, 20, 10), 40, 16), (5, 5, 20, 10));
}

#[test]
fn log_titles() {
    assert_eq!(log_title(true, true), " Log (interactive) ");
    assert_eq!(log_title(false, true), " Log (scrolled) ");
    assert_eq!(log_title(false, false), " Log ");
}

#[test]
fn selection_xor_reverse() {
    assert_eq!(cell_colors(1, 2, false, false), (1, 2));
    assert_eq!(cell_colors(1, 2, true, false), (2, 1));
    assert_eq!(cell_colors(1, 2, false, true), (2, 1));
    assert_eq!(cell_colors(1, 2, true, true), (1, 2));
    assert_eq!(cell_glyph('A', true), ' ');
    assert_eq!(cell_glyph('A', false), 'A');
}

#[test]
fn sidebar_rows() {
    assert_eq!(sidebar_row_text(0, TreeItemKind::Project, true, "", "web", None), "▼ web");
    assert_eq!(sidebar_row_text(1, TreeItemKind::App, false, "", "api", None), "  ▶ api");
    assert_eq!(sidebar_row_text(2, TreeItemKind::Subcommand, false, "● ", "dev", Some("")), "      ● dev");
    assert_eq!(
        sidebar_row_text(2, TreeItemKind::Terminal, false, "", "terminal", Some("vim main.rs")),
        "      terminal — vim main.rs"
    );
    let long = "abcdefghijklmnopqrstuvwxyz";
    assert_eq!(
        sidebar_row_text(0, TreeItemKind::Terminal, false, "", "t", Some(long)),
        "  t — abcdefghijklmnopqrstuvwx…"
    );
}

#[test]
fn theme_rows() {
    assert_eq!(theme_row_text("nord", true), "● nord");
    assert_eq!(theme_row_text("nord", false), "  nord");
}

#[test]
fn ramp_indices_clamp() {
    assert_eq!(ramp_index(12, 3), 3);
    assert_eq!(ramp_index(12, 11), 11);
    assert_eq!(ramp_index(12, 40), 11);
    assert_eq!(ramp_index(1, 0), 0);
}

#[test]
fn system_theme_table() {
    let dark = system_theme_plan(true);
    let light = system_theme_plan(false);
    assert_eq!(dark.len(), 53);
    assert_eq!(dark[0], ("primary".to_string(), SystemSource::Ansi(4)));
    let panel = |t: &Vec<(String, SystemSource)>| t.iter().find(|e| e.0 == "backgroundPanel").unwrap().1;
    assert_eq!(panel(&dark), SystemSource::Ramp(1));
    assert_eq!(panel(&light), SystemSource::Ramp(10));
    assert!(dark.iter().any(|e| e.0 == "background" && e.1 == SystemSource::Transparent));
    assert!(dark.iter().any(|e| e.0 == "thinkingOpacity" && e.1 == SystemSource::ThinkingOpacity));
}

#[test]
fn spacer_cells_are_not_drawn() {
    let cells = vec![('中', false), (' ', true), ('x', false), ('y', false), (' ', true)];
    assert_eq!(drawn_cells(&cells), vec!['中', 'x', 'y']);
    let none: Vec<(char, bool)> = vec![];
    assert!(drawn_cells(&none).is_empty());
}

#[test]
fn running_count_label_is_flush_right() {
    let bar = CommandBar { running_count: 12 };
    assert_eq!(bar.running_label(), b"Running: 12".to_vec());
    assert_eq!(bar.label_x(1, 78), Some(68));
    assert_eq!(bar.label_x(1, 11), Some(1));
    assert_eq!(bar.label_x(5, 8), None);
    assert_eq!(CommandBar { running_count: 0 }.running_label(), b"Running: 0".to_vec());
}

const RED: (u8, u8, u8) = (255, 0, 0);
const WHITE: (u8, u8, u8) = (255, 255, 255);

#[test]
fn reverse_swaps_fg_and_bg() {
    let (fg, bg) = cell_colors(WHITE, RED, true, false);
    assert_eq!(fg, RED);
    assert_eq!(bg, WHITE);
}

#[test]
fn selection_swaps_fg_and_bg_for_normal_cell() {
    let (fg, bg) = cell_colors(WHITE, RED, false, true);
    assert_eq!(fg, RED);
    assert_eq!(bg, WHITE);
}

#[test]
fn selection_xor_reverse_is_identity() {
    let (fg, bg) = cell_colors(WHITE, RED, true, true);
    assert_eq!(fg, WHITE);
    assert_eq!(bg, RED);
}
