use frost::config::{find_config, validate_config, AppConfig, ConfigError, FrostConfig, ProjectConfig, SubCommand};
use frost::flatten::{flatten_config, resolve_workdir};

fn sub(cmd: &str) -> SubCommand {
    SubCommand { command: cmd.to_string(), workdir: None, env: None }
}

fn portfolio() -> FrostConfig {
    let frontend = AppConfig {
        workdir: Some("./frontend".to_string()),
        default: Some("dev".to_string()),
        command: None,
        commands: Some(vec![("dev".to_string(), sub("bun dev")), ("build".to_string(), sub("bun run build"))]),
        icon: None,
    };
    let api = AppConfig { workdir: None, default: None, command: Some("bun serve".to_string()), commands: None, icon: None };
    FrostConfig {
        projects: vec![(
            "portfolio".to_string(),
            ProjectConfig {
                workdir: Some("../portfolio".to_string()),
                icon: None,
                apps: vec![("frontend".to_string(), frontend), ("api".to_string(), api)],
            },
        )],
    }
}

fn no_canonical(_: &str) -> Option<String> {
    None
}

#[test]
fn test_flatten_config() {
    let config = portfolio();
    assert!(validate_config(&config).is_ok());
    let commands = flatten_config(&config, "/work/site/frost.toml", "/work", &no_canonical);
    assert_eq!(commands.len(), 3);

    let dev = commands.iter().find(|c| c.subcommand_name == "dev").unwrap();
    assert_eq!(dev.project_name, "portfolio");
    assert_eq!(dev.app_name, "frontend");
    assert_eq!(dev.command, "bun dev");
    assert!(dev.is_default);
    assert!(dev.workdir.contains("frontend"));

    let build = commands.iter().find(|c| c.subcommand_name == "build").unwrap();
    assert!(!build.is_default);

    let api = commands.iter().find(|c| c.app_name == "api").unwrap();
    assert_eq!(api.subcommand_name, "default");
    assert_eq!(api.command, "bun serve");
    assert!(api.is_default);
}

#[test]
fn flatten_resolves_workdirs_project_app_subcommand() {
    let config = portfolio();
    let commands = flatten_config(&config, "/work/site/frost.toml", "/work", &no_canonical);
    let dev = commands.iter().find(|c| c.subcommand_name == "dev").unwrap();
    assert_eq!(dev.workdir, "/work/site/../portfolio/./frontend");
    let api = commands.iter().find(|c| c.app_name == "api").unwrap();
    assert_eq!(api.workdir, "/work/site/../portfolio");
}

#[test]
fn resolve_workdir_cases() {
    let canon = |p: &str| if p == "/a/b" { Some("/c".to_string()) } else { None };
    assert_eq!(resolve_workdir("/a", None, &canon), "/a");
    assert_eq!(resolve_workdir("/a", Some("/abs"), &canon), "/abs");
    assert_eq!(resolve_workdir("/a", Some("b"), &canon), "/c");
    assert_eq!(resolve_workdir("/a", Some("x"), &canon), "/a/x");
}

#[test]
fn test_find_config_walks_up() {
    let present = vec!["/tmp/t1/frost.toml".to_string()];
    let found = find_config("/tmp/t1/a/b/c", &present).unwrap();
    assert_eq!(found, "/tmp/t1/frost.toml");
}

#[test]
fn find_config_prefers_toml_and_nearest() {
    let present = vec!["/x/frost.json".to_string(), "/x/frost.toml".to_string(), "/x/y/frost.json".to_string()];
    assert_eq!(find_config("/x/y", &present).unwrap(), "/x/y/frost.json");
    assert_eq!(find_config("/x", &present).unwrap(), "/x/frost.toml");
    assert!(find_config("/z", &present).is_none());
}

#[test]
fn test_validation_missing_commands() {
    let config = FrostConfig {
        projects: vec![(
            "portfolio".to_string(),
            ProjectConfig {
                workdir: None,
                icon: None,
                apps: vec![(
                    "frontend".to_string(),
                    AppConfig { workdir: Some("./frontend".to_string()), default: None, command: None, commands: None, icon: None },
                )],
            },
        )],
    };
    let result = validate_config(&config);
    assert!(result.is_err());
    match result {
        Err(ConfigError::Validation(m)) => {
            assert_eq!(m, "App 'frontend' in project 'portfolio' must have either 'command' or 'commands'")
        },
        _ => panic!("expected a validation error"),
    }
}

#[test]
fn validation_errors_in_order() {
    let empty = FrostConfig { projects: vec![] };
    match validate_config(&empty) {
        Err(ConfigError::Validation(m)) => assert_eq!(m, "Config must have at least one project"),
        _ => panic!("expected a validation error"),
    }
    let no_apps = FrostConfig { projects: vec![("p".to_string(), ProjectConfig { workdir: None, icon: None, apps: vec![] })] };
    match validate_config(&no_apps) {
        Err(ConfigError::Validation(m)) => assert_eq!(m, "Project 'p' must have at least one app"),
        _ => panic!("expected a validation error"),
    }
    let blank_sub = FrostConfig {
        projects: vec![(
            "p".to_string(),
            ProjectConfig {
                workdir: None,
                icon: None,
                apps: vec![(
                    "a".to_string(),
                    AppConfig { workdir: None, default: None, command: None, commands: Some(vec![("s".to_string(), sub("  "))]), icon: None },
                )],
            },
        )],
    };
    match validate_config(&blank_sub) {
        Err(ConfigError::Validation(m)) => {
            assert_eq!(m, "Sub-command 's' in app 'a' project 'p' must have a non-empty command")
        },
        _ => panic!("expected a validation error"),
    }
    let blank_cmd = FrostConfig {
        projects: vec![(
            "p".to_string(),
            ProjectConfig {
                workdir: None,
                icon: None,
                apps: vec![(
                    "a".to_string(),
                    AppConfig { workdir: None, default: None, command: Some("\t".to_string()), commands: None, icon: None },
                )],
            },
        )],
    };
    match validate_config(&blank_cmd) {
        Err(ConfigError::Validation(m)) => assert_eq!(m, "App 'a' in project 'p' must have a non-empty command"),
        _ => panic!("expected a validation error"),
    }
}

#[test]
fn distinct_keys_checked_at_every_level() {
    assert!(portfolio().keys_are_distinct());
    let plain = || AppConfig { workdir: None, default: None, command: Some("run".to_string()), commands: None, icon: None };
    let project = |apps: Vec<(String, AppConfig)>| ProjectConfig { workdir: None, icon: None, apps };
    let mut twice = portfolio();
    twice.projects.push(("portfolio".to_string(), project(vec![("web".to_string(), plain())])));
    assert!(!twice.keys_are_distinct());
    let mut apps_twice = portfolio();
    apps_twice.projects[0].1.apps.push(("api".to_string(), plain()));
    assert!(!apps_twice.keys_are_distinct());
    let mut subs_twice = portfolio();
    subs_twice.projects[0].1.apps[0].1.commands = Some(vec![("dev".to_string(), sub("a")), ("dev".to_string(), sub("b"))]);
    assert!(!subs_twice.keys_are_distinct());
    let mut other = portfolio();
    other.projects.push(("blog".to_string(), project(vec![("api".to_string(), plain())])));
    assert!(other.keys_are_distinct());
}

#[test]
fn relative_workdir_joins_with_one_separator() {
    let canon = |_: &str| None;
    assert_eq!(resolve_workdir("/a/", Some("x"), &canon), "/a/x");
    assert_eq!(resolve_workdir("", Some("x"), &canon), "x");
    assert_eq!(resolve_workdir("/a", Some("x/y"), &canon), "/a/x/y");
}
