use frost::config::{AppConfig, FrostConfig, ProjectConfig, SubCommand};
use frost::sidebar::{build_visible_tree, TreeItem, TreeItemKind};

fn app(commands: Option<Vec<(String, SubCommand)>>) -> AppConfig {
    AppConfig { workdir: None, default: None, command: Some("run".to_string()), commands, icon: None }
}

fn two_projects() -> FrostConfig {
    let dev = SubCommand { command: "bun dev".to_string(), workdir: None, env: None };
    FrostConfig {
        projects: vec![
            ("site".to_string(), ProjectConfig { workdir: None, icon: None, apps: vec![("web".to_string(), app(Some(vec![("dev".to_string(), dev)])))] }),
            ("blog".to_string(), ProjectConfig { workdir: None, icon: None, apps: vec![("api".to_string(), app(None))] }),
        ],
    }
}

fn rows(items: &[TreeItem]) -> Vec<(TreeItemKind, String, String, usize)> {
    items.iter().map(|t| (t.kind, t.name.clone(), t.path.clone(), t.depth)).collect()
}

fn is_subsequence<T: PartialEq>(a: &[T], b: &[T]) -> bool {
    let mut it = b.iter();
    a.iter().all(|x| it.any(|y| y == x))
}

#[test]
fn folded_tree_shows_projects_in_name_order() {
    let tree = rows(&build_visible_tree(&two_projects(), &vec![]));
    assert_eq!(
        tree,
        vec![
            (TreeItemKind::Project, "blog".to_string(), "blog".to_string(), 0),
            (TreeItemKind::Project, "site".to_string(), "site".to_string(), 0),
        ]
    );
}

#[test]
fn unfolding_an_app_shows_terminal_and_subcommands() {
    let expanded = vec!["site".to_string(), "site/web".to_string()];
    let tree = rows(&build_visible_tree(&two_projects(), &expanded));
    assert_eq!(
        tree,
        vec![
            (TreeItemKind::Project, "blog".to_string(), "blog".to_string(), 0),
            (TreeItemKind::Project, "site".to_string(), "site".to_string(), 0),
            (TreeItemKind::App, "web".to_string(), "site/web".to_string(), 1),
            (TreeItemKind::Terminal, "terminal".to_string(), "site/web/terminal".to_string(), 2),
            (TreeItemKind::Subcommand, "dev".to_string(), "site/web/dev".to_string(), 2),
        ]
    );
}

#[test]
fn unfolding_more_only_adds_rows() {
    let config = two_projects();
    let fewer = rows(&build_visible_tree(&config, &vec!["site".to_string()]));
    let more = rows(&build_visible_tree(&config, &vec!["site".to_string(), "site/web".to_string(), "blog".to_string()]));
    assert!(fewer.len() < more.len());
    assert!(is_subsequence(&fewer, &more));
    let projects = |r: &Vec<(TreeItemKind, String, String, usize)>| {
        r.iter().filter(|x| x.0 == TreeItemKind::Project).cloned().collect::<Vec<_>>()
    };
    assert_eq!(projects(&fewer), projects(&more));
}
