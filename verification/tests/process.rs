use frost::process::{MouseModes, ProcessStatus, ProcessTable};

#[test]
fn start_records_starting_with_generation() {
    let mut t = ProcessTable::new();
    assert_eq!(t.next_generation_id(), 1);
    let g = t.begin_start();
    assert_eq!(g, 1);
    t.record_started("proj", "app", "dev", 4242, g);
    let info = t.get_info("proj", "app", "dev").unwrap();
    assert_eq!(info.status, ProcessStatus::Starting);
    assert_eq!(info.generation_id, g);
    assert_eq!(info.pid, Some(4242));
    assert_eq!(info.project, "proj");
    assert!(t.contains("proj", "app", "dev"));
    assert!(!t.contains("proj", "app", "build"));
}

#[test]
fn restart_gets_a_newer_generation_and_replaces_the_record() {
    let mut t = ProcessTable::new();
    let g1 = t.begin_start();
    t.record_started("p", "a", "s", 1, g1);
    assert!(t.mark_stopping("p", "a", "s"));
    assert_eq!(t.get_info("p", "a", "s").unwrap().status, ProcessStatus::Stopping);
    let g2 = t.begin_start();
    assert!(g2 > g1);
    t.record_started("p", "a", "s", 2, g2);
    assert_eq!(t.list().len(), 1);
    let info = t.get_info("p", "a", "s").unwrap();
    assert_eq!(info.generation_id, g2);
    assert_eq!(info.pid, Some(2));
    assert_eq!(info.status, ProcessStatus::Starting);
}

#[test]
fn remove_forgets_only_that_key() {
    let mut t = ProcessTable::new();
    let g = t.begin_start();
    t.record_started("p", "a", "x", 1, g);
    let g = t.begin_start();
    t.record_started("p", "a", "y", 2, g);
    t.remove("p", "a", "x");
    assert!(t.get_info("p", "a", "x").is_none());
    assert!(t.get_info("p", "a", "y").is_some());
    t.remove("p", "a", "zzz");
    assert_eq!(t.list().len(), 1);
}

#[test]
fn stopping_an_unknown_process_reports_it() {
    let mut t = ProcessTable::new();
    assert!(!t.mark_stopping("p", "a", "s"));
    assert!(t.list().is_empty());
}

#[test]
fn status_names() {
    assert_eq!(ProcessStatus::Stopped.as_str(), "stopped");
    assert_eq!(ProcessStatus::Starting.as_str(), "starting");
    assert_eq!(ProcessStatus::Running.as_str(), "running");
    assert_eq!(ProcessStatus::Stopping.as_str(), "stopping");
    assert_eq!(ProcessStatus::Crashed.as_str(), "crashed");
    assert!(ProcessStatus::Running.is_live());
    assert!(ProcessStatus::Starting.is_live());
    assert!(!ProcessStatus::Crashed.is_live());
}

#[test]
fn mouse_modes_reporting() {
    let none = MouseModes::none();
    assert!(!none.reporting());
    let sgr_only = MouseModes { sgr: true, ..MouseModes::none() };
    assert!(!sgr_only.reporting());
    let click = MouseModes { report_click: true, ..MouseModes::none() };
    assert!(click.reporting());
    let motion = MouseModes { motion: true, ..MouseModes::none() };
    assert!(motion.reporting());
}

#[test]
fn later_start_of_another_key_is_newer() {
    let mut t = ProcessTable::new();
    let g1 = t.begin_start();
    t.record_started("p", "web", "dev", 10, g1);
    let g2 = t.begin_start();
    t.record_started("p", "api", "serve", 11, g2);
    assert!(g1 < g2);
    let first = t.get_info("p", "web", "dev").unwrap();
    let second = t.get_info("p", "api", "serve").unwrap();
    assert_eq!(second.status, ProcessStatus::Starting);
    assert_eq!(second.generation_id, g2);
    assert!(first.generation_id < second.generation_id);
    assert_eq!(t.next_generation_id(), g2 + 1);
}
