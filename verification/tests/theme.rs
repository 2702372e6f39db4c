use frost::color::{ansi_to_rgba, indexed_to_rgb, parse_css_rgba, parse_hex, Alpha, Color};
use frost::theme::{resolve_color, resolve_theme, resolve_theme_safe, NumberValue, ThemeDefValue, ThemeJson, ThemeMode, ThemeValue};

fn rgb(c: &Color) -> (u8, u8, u8) {
    (c.r, c.g, c.b)
}

fn alpha_byte(c: &Color) -> Option<u8> {
    match c.alpha {
        Alpha::Byte(a) => Some(a),
        Alpha::Text(_) => None,
    }
}

#[test]
fn test_parse_hex() {
    let c = parse_hex("#ff0000").unwrap();
    assert_eq!((rgb(&c), alpha_byte(&c)), ((255, 0, 0), Some(255)));
    let c = parse_hex("#00ff00").unwrap();
    assert_eq!((rgb(&c), alpha_byte(&c)), ((0, 255, 0), Some(255)));
    let c = parse_hex("#0000ff").unwrap();
    assert_eq!((rgb(&c), alpha_byte(&c)), ((0, 0, 255), Some(255)));
    let c = parse_hex("#fff").unwrap();
    assert_eq!((rgb(&c), alpha_byte(&c)), ((255, 255, 255), Some(255)));
    let c = parse_hex("#f00").unwrap();
    assert_eq!((rgb(&c), alpha_byte(&c)), ((255, 0, 0), Some(255)));
    let c = parse_hex("#ff000080").unwrap();
    assert_eq!((rgb(&c), alpha_byte(&c)), ((255, 0, 0), Some(128)));
}

#[test]
fn parse_hex_rejects_malformed_input() {
    let e = parse_hex("#12345").unwrap_err();
    assert_eq!(e.0, "Invalid hex color: #12345");
    assert!(parse_hex("ff0000").is_err());
    assert!(parse_hex("#gg0000").is_err());
}

#[test]
fn test_ansi_to_rgba() {
    let c = ansi_to_rgba(0);
    assert_eq!((rgb(&c), alpha_byte(&c)), ((0, 0, 0), Some(255)));
    let c = ansi_to_rgba(15);
    assert_eq!((rgb(&c), alpha_byte(&c)), ((255, 255, 255), Some(255)));
}

#[test]
fn ansi_cube_and_grayscale() {
    // 16 + 36*1 + 6*2 + 3 = 67: cube (1, 2, 3).
    let c = ansi_to_rgba(67);
    assert_eq!(rgb(&c), (51, 102, 153));
    let c = ansi_to_rgba(232);
    assert_eq!(rgb(&c), (0, 0, 0));
    let c = ansi_to_rgba(243);
    assert_eq!(rgb(&c), (122, 122, 122));
    let c = ansi_to_rgba(255);
    assert_eq!(rgb(&c), (255, 255, 255));
}

#[test]
fn xterm_indexed_palette() {
    assert_eq!(indexed_to_rgb(1), (205, 0, 0));
    assert_eq!(indexed_to_rgb(12), (92, 92, 255));
    assert_eq!(indexed_to_rgb(16), (0, 0, 0));
    assert_eq!(indexed_to_rgb(17), (0, 0, 95));
    assert_eq!(indexed_to_rgb(231), (255, 255, 255));
    assert_eq!(indexed_to_rgb(232), (8, 8, 8));
    assert_eq!(indexed_to_rgb(255), (238, 238, 238));
}

#[test]
fn css_rgba_parses_components() {
    let c = parse_css_rgba("rgb(10, 20, 30)").unwrap();
    assert_eq!((rgb(&c), alpha_byte(&c)), ((10, 20, 30), Some(255)));
    let c = parse_css_rgba("rgba(1,2,3,0.5)").unwrap();
    assert_eq!(rgb(&c), (1, 2, 3));
    match &c.alpha {
        Alpha::Text(t) => assert_eq!(t, "0.5"),
        Alpha::Byte(_) => panic!("alpha should keep its text"),
    }
    assert!(parse_css_rgba("rgb(1,2)").is_err());
    assert!(parse_css_rgba("rgb(300,2,3)").is_err());
}

#[test]
fn test_resolve_color_basic() {
    let defs: Vec<(String, ThemeDefValue)> = Vec::new();
    let theme: Vec<(String, ThemeValue)> = Vec::new();
    let mut chain: Vec<String> = Vec::new();
    let value = ThemeValue::String("#ff0000".to_string());
    let c = resolve_color(&value, &defs, &theme, ThemeMode::Dark, &mut chain).unwrap();
    assert_eq!((rgb(&c), alpha_byte(&c)), ((255, 0, 0), Some(255)));
}

#[test]
fn test_resolve_color_variant() {
    let defs: Vec<(String, ThemeDefValue)> = Vec::new();
    let theme: Vec<(String, ThemeValue)> = Vec::new();
    let mut chain: Vec<String> = Vec::new();
    let value = ThemeValue::Variant { dark: "#000000".to_string(), light: "#ffffff".to_string() };
    let c = resolve_color(&value, &defs, &theme, ThemeMode::Dark, &mut chain).unwrap();
    assert_eq!((rgb(&c), alpha_byte(&c)), ((0, 0, 0), Some(255)));
    let c = resolve_color(&value, &defs, &theme, ThemeMode::Light, &mut chain).unwrap();
    assert_eq!((rgb(&c), alpha_byte(&c)), ((255, 255, 255), Some(255)));
}

#[test]
fn test_resolve_color_reference() {
    let defs = vec![("myRed".to_string(), ThemeDefValue::String("#ff0000".to_string()))];
    let theme: Vec<(String, ThemeValue)> = Vec::new();
    let mut chain: Vec<String> = Vec::new();
    let value = ThemeValue::String("myRed".to_string());
    let c = resolve_color(&value, &defs, &theme, ThemeMode::Dark, &mut chain).unwrap();
    assert_eq!((rgb(&c), alpha_byte(&c)), ((255, 0, 0), Some(255)));
}

#[test]
fn resolve_color_reports_cycles_and_missing_names() {
    let defs: Vec<(String, ThemeDefValue)> = Vec::new();
    let theme = vec![
        ("a".to_string(), ThemeValue::String("b".to_string())),
        ("b".to_string(), ThemeValue::String("a".to_string())),
    ];
    let mut chain: Vec<String> = Vec::new();
    let e = resolve_color(&ThemeValue::String("a".to_string()), &defs, &theme, ThemeMode::Dark, &mut chain).unwrap_err();
    assert_eq!(e.0, "Circular reference detected: a -> b -> a");
    assert!(chain.is_empty());
    let e = resolve_color(&ThemeValue::String("nowhere".to_string()), &defs, &theme, ThemeMode::Dark, &mut chain)
        .unwrap_err();
    assert_eq!(e.0, "Missing reference: nowhere");
}

#[test]
fn resolve_color_numbers_and_transparent() {
    let defs: Vec<(String, ThemeDefValue)> = Vec::new();
    let theme: Vec<(String, ThemeValue)> = Vec::new();
    let mut chain: Vec<String> = Vec::new();
    let n = ThemeValue::Number(NumberValue { ansi: 9, text: "9".to_string() });
    let c = resolve_color(&n, &defs, &theme, ThemeMode::Dark, &mut chain).unwrap();
    assert_eq!(rgb(&c), (255, 0, 0));
    let t = ThemeValue::String("transparent".to_string());
    let c = resolve_color(&t, &defs, &theme, ThemeMode::Dark, &mut chain).unwrap();
    assert_eq!(alpha_byte(&c), Some(0));
    let t = ThemeValue::String("none".to_string());
    let c = resolve_color(&t, &defs, &theme, ThemeMode::Dark, &mut chain).unwrap();
    assert_eq!(alpha_byte(&c), Some(0));
}

pub fn full_theme(color: &str) -> ThemeJson {
    let names = [
        "primary", "secondary", "accent", "error", "warning", "success", "info", "text", "textMuted", "background",
        "backgroundPanel", "backgroundElement", "border", "borderActive", "borderSubtle", "diffAdded", "diffRemoved",
        "diffContext", "diffHunkHeader", "diffHighlightAdded", "diffHighlightRemoved", "diffAddedBg", "diffRemovedBg",
        "diffContextBg", "diffLineNumber", "diffAddedLineNumberBg", "diffRemovedLineNumberBg", "markdownText",
        "markdownHeading", "markdownLink", "markdownLinkText", "markdownCode", "markdownBlockQuote", "markdownEmph",
        "markdownStrong", "markdownHorizontalRule", "markdownListItem", "markdownListEnumeration", "markdownImage",
        "markdownImageText", "markdownCodeBlock", "syntaxComment", "syntaxKeyword", "syntaxFunction", "syntaxVariable",
        "syntaxString", "syntaxNumber", "syntaxType", "syntaxOperator", "syntaxPunctuation",
    ];
    let theme = names.iter().map(|n| (n.to_string(), ThemeValue::String(color.to_string()))).collect();
    ThemeJson { schema: None, defs: None, theme }
}

#[test]
fn resolve_theme_fills_every_token() {
    let mut tj = full_theme("#102030");
    tj.theme[0] = ("primary".to_string(), ThemeValue::String("accentDef".to_string()));
    tj.defs = Some(vec![("accentDef".to_string(), ThemeDefValue::String("#abcdef".to_string()))]);
    let t = resolve_theme(&tj, ThemeMode::Dark).unwrap();
    assert_eq!(rgb(&t.primary), (0xab, 0xcd, 0xef));
    assert_eq!(rgb(&t.syntax_punctuation), (0x10, 0x20, 0x30));
    // The optional tokens fall back.
    assert_eq!(rgb(&t.selected_list_item_text), (0x10, 0x20, 0x30));
    assert_eq!(rgb(&t.background_menu), (0x10, 0x20, 0x30));
    assert!(t.thinking_opacity.is_none());
}

#[test]
fn resolve_theme_fails_on_missing_token() {
    let mut tj = full_theme("#102030");
    tj.theme.remove(3);
    let e = resolve_theme(&tj, ThemeMode::Light).unwrap_err();
    assert_eq!(e.0, "Missing theme token: error");
    assert!(resolve_theme_safe(&tj, ThemeMode::Light).is_none());
}
