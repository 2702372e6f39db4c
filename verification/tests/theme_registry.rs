use frost::state::{AppState, FrostState, CURRENT_VERSION};
use frost::theme::{ThemeJson, ThemeMode, ThemeValue};
use frost::theme_registry::ThemeRegistry;
use frost::theme_store::{Changed, PersistedThemeState, ThemeStore};

fn names() -> Vec<&'static str> {
    vec![
        "primary", "secondary", "accent", "error", "warning", "success", "info", "text", "textMuted", "background",
        "backgroundPanel", "backgroundElement", "border", "borderActive", "borderSubtle", "diffAdded", "diffRemoved",
        "diffContext", "diffHunkHeader", "diffHighlightAdded", "diffHighlightRemoved", "diffAddedBg", "diffRemovedBg",
        "diffContextBg", "diffLineNumber", "diffAddedLineNumberBg", "diffRemovedLineNumberBg", "markdownText",
        "markdownHeading", "markdownLink", "markdownLinkText", "markdownCode", "markdownBlockQuote", "markdownEmph",
        "markdownStrong", "markdownHorizontalRule", "markdownListItem", "markdownListEnumeration", "markdownImage",
        "markdownImageText", "markdownCodeBlock", "syntaxComment", "syntaxKeyword", "syntaxFunction", "syntaxVariable",
        "syntaxString", "syntaxNumber", "syntaxType", "syntaxOperator", "syntaxPunctuation",
    ]
}

fn theme(color: &str) -> ThemeJson {
    let theme = names().iter().map(|n| (n.to_string(), ThemeValue::String(color.to_string()))).collect();
    ThemeJson { schema: Some(color.to_string()), defs: None, theme }
}

fn broken() -> ThemeJson {
    ThemeJson { schema: None, defs: None, theme: vec![] }
}

fn registry() -> ThemeRegistry {
    ThemeRegistry::new(vec![
        ("opencode".to_string(), theme("#111111")),
        ("nord".to_string(), theme("#222222")),
        ("bad".to_string(), broken()),
    ])
}

#[test]
fn registry_get_and_has() {
    let r = registry();
    assert!(r.has("nord"));
    assert!(!r.has("dracula"));
    assert_eq!(r.get("nord").unwrap().schema.as_deref(), Some("#222222"));
    assert!(!r.has("system"));
    assert_eq!(r.get_ids(), vec!["bad".to_string(), "nord".to_string(), "opencode".to_string()]);
}

#[test]
fn later_entries_replace_earlier_ones() {
    let r = ThemeRegistry::new(vec![("a".to_string(), theme("#000001")), ("a".to_string(), theme("#000002"))]);
    assert_eq!(r.get_all().len(), 1);
    assert_eq!(r.get("a").unwrap().schema.as_deref(), Some("#000002"));
}

#[test]
fn system_theme_is_offered_as_system() {
    let mut r = registry();
    r.set_system_theme(Some(theme("#333333")));
    assert!(r.has("system"));
    assert_eq!(r.get("system").unwrap().schema.as_deref(), Some("#333333"));
    assert_eq!(r.get_ids(), vec!["bad".to_string(), "nord".to_string(), "opencode".to_string(), "system".to_string()]);
    r.set_system_theme(None);
    assert!(r.get_system_theme().is_none());
}

#[test]
fn upsert_merge_remove() {
    let mut r = registry();
    r.upsert("nord".to_string(), theme("#444444"));
    assert_eq!(r.get("nord").unwrap().schema.as_deref(), Some("#444444"));
    r.upsert("zen".to_string(), theme("#555555"));
    assert!(r.has("zen"));
    r.merge(vec![("zen".to_string(), theme("#666666")), ("new".to_string(), theme("#777777"))]);
    assert_eq!(r.get("zen").unwrap().schema.as_deref(), Some("#666666"));
    assert!(r.has("new"));
    assert!(r.remove("zen"));
    assert!(!r.remove("zen"));
    assert!(!r.has("zen"));
}

#[test]
fn store_switches_only_to_known_themes() {
    let mut s = ThemeStore::new(registry());
    assert_eq!(s.get_active(), "opencode");
    assert_eq!(s.set("nope"), Changed { notify: false, persist: false });
    assert_eq!(s.get_active(), "opencode");
    assert_eq!(s.set("opencode"), Changed { notify: false, persist: false });
    assert_eq!(s.set("nord"), Changed { notify: true, persist: true });
    assert_eq!(s.get_active(), "nord");
}

#[test]
fn store_mode_and_lock() {
    let mut s = ThemeStore::new(registry());
    assert_eq!(s.get_mode(), ThemeMode::Dark);
    assert_eq!(s.set_mode(ThemeMode::Dark), Changed { notify: false, persist: false });
    assert_eq!(s.set_mode(ThemeMode::Light), Changed { notify: true, persist: false });
    assert_eq!(s.lock_mode(ThemeMode::Dark), Changed { notify: true, persist: true });
    assert_eq!(s.get_lock(), Some(ThemeMode::Dark));
    assert_eq!(s.get_mode(), ThemeMode::Dark);
    assert_eq!(s.set_mode(ThemeMode::Light), Changed { notify: true, persist: true });
    assert_eq!(s.unlock(), Changed { notify: true, persist: true });
    assert_eq!(s.unlock(), Changed { notify: false, persist: false });
    assert_eq!(s.get_mode(), ThemeMode::Light);
}

#[test]
fn store_resolves_and_keeps_the_active_theme() {
    let mut s = ThemeStore::new(registry());
    let t = s.get_resolved().unwrap();
    assert_eq!((t.primary.r, t.primary.g, t.primary.b), (0x11, 0x11, 0x11));
    let again = s.get_resolved().unwrap();
    assert_eq!(again.text.r, 0x11);
    s.set("bad");
    assert!(s.get_resolved().is_none());
    s.set("nord");
    assert_eq!(s.get_resolved().unwrap().primary.r, 0x22);
}

#[test]
fn persisted_state_round_trip() {
    let mut s = ThemeStore::new(registry()).with_persist_path("/tmp/theme.json".to_string());
    assert_eq!(s.persist_path().as_deref(), Some("/tmp/theme.json"));
    s.set("nord");
    s.lock_mode(ThemeMode::Light);
    let p = s.persisted_state();
    assert_eq!(p.active, "nord");
    assert_eq!(p.lock, Some(ThemeMode::Light));
    assert_eq!(p.mode, Some(ThemeMode::Light));
    let mut t = ThemeStore::new(registry());
    t.apply_persisted(p);
    assert_eq!(t.get_active(), "nord");
    assert_eq!(t.get_mode(), ThemeMode::Light);
    assert_eq!(t.get_lock(), Some(ThemeMode::Light));
    let mut u = ThemeStore::new(registry());
    u.apply_persisted(PersistedThemeState { active: "gone".to_string(), mode: Some(ThemeMode::Light), lock: None });
    assert_eq!(u.get_active(), "opencode");
    assert_eq!(u.get_mode(), ThemeMode::Light);
    assert_eq!(u.get_lock(), None);
    assert!(ThemeStore::new(registry()).persisted_state().mode.is_none());
}

#[test]
fn frost_state_updates() {
    let mut st = FrostState::default();
    assert_eq!(st.version, CURRENT_VERSION);
    st.set_last_project("portfolio".to_string());
    assert_eq!(st.last_project.as_deref(), Some("portfolio"));
    st.set_expanded_apps(vec!["portfolio/frontend".to_string()]);
    assert_eq!(st.expanded_apps, vec!["portfolio/frontend".to_string()]);
    st.update_app("web".to_string(), AppState { status: "running".to_string() });
    st.update_app("web".to_string(), AppState { status: "stopped".to_string() });
    st.update_app("api".to_string(), AppState { status: "running".to_string() });
    assert_eq!(st.apps.len(), 2);
    assert_eq!(st.apps[0].1.status, "stopped");
}
