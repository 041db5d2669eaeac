use awesometree::config::{
    allocate_tag_index, config_entry, config_path, config_without, state_path, Config, Defaults, Workspace,
    WorkspaceState,
};

fn ws(name: &str, repo: &str, branch: &str) -> Workspace {
    Workspace {
        name: name.into(),
        repo: repo.into(),
        branch: branch.into(),
        path: String::new(),
        gui: vec![],
        layout: String::new(),
    }
}

fn st(tag: i32, active: bool) -> WorkspaceState {
    WorkspaceState { tag_index: tag, dir: "/d".into(), active }
}

#[test]
fn paths_under_home() {
    assert_eq!(config_path("/h"), "/h/.config/workspaces.toml");
    assert_eq!(state_path("/h"), "/h/.local/state/workspaces.json");
}

#[test]
fn names_and_active_names() {
    let cfg = Config {
        defaults: Defaults { repo: "~/r".into(), branch: "main".into() },
        workspaces: vec![ws("a", "", ""), ws("b", "", ""), ws("c", "", "")],
    };
    assert_eq!(cfg.all_names(), vec!["a", "b", "c"]);
    let state = vec![("c".to_string(), st(10, true)), ("a".to_string(), st(11, false))];
    assert_eq!(cfg.active_names(&state), vec!["c"]);
    assert!(cfg.find_workspace("b").is_some());
    assert!(cfg.find_workspace("z").is_none());
}

#[test]
fn resolve_fields() {
    let d = Defaults { repo: "~/repo".into(), branch: "main".into() };
    let w = ws("feat/x", "", "");
    assert_eq!(w.resolve_repo(&d, "/h"), "/h/repo");
    assert_eq!(w.resolve_branch(&d), "main");
    assert_eq!(w.resolve_layout(), "tile");
    assert_eq!(w.resolve_dir("/h", "/cwd"), "/cwd");
    let w2 = ws("feat/x", "/own", "dev");
    assert_eq!(w2.resolve_repo(&d, "/h"), "/own");
    assert_eq!(w2.resolve_branch(&d), "dev");
    assert_eq!(w2.resolve_dir("/h", "/cwd"), "/h/worktrees/feat-x");
}

#[test]
fn tag_index_allocation() {
    let state = vec![("a".to_string(), st(10, true)), ("b".to_string(), st(12, true))];
    assert_eq!(allocate_tag_index("b", &state), 12);
    assert_eq!(allocate_tag_index("new", &state), 11);
    let full = vec![("a".to_string(), st(10, true)), ("b".to_string(), st(11, true))];
    assert_eq!(allocate_tag_index("c", &full), 12);
    assert_eq!(allocate_tag_index("c", &vec![]), 10);
}

#[test]
fn config_entry_text() {
    assert_eq!(
        config_entry("w", "/r", "main"),
        "\n[[workspace]]\nname = \"w\"\nrepo = \"/r\"\nbranch = \"main\"\n"
    );
}

#[test]
fn remove_entry_from_config_text() {
    let data = "[defaults]\nrepo = \"x\"\n\n[[workspace]]\nname = \"a\"\nrepo = \"/a\"\n\n[[workspace]]\nname = \"b\"\nrepo = \"/b\"\n";
    let out = config_without(data, "a");
    assert_eq!(out, "[defaults]\nrepo = \"x\"\n[[workspace]]\nname = \"b\"\nrepo = \"/b\"\n");
    let out = config_without(data, "b");
    assert_eq!(out, "[defaults]\nrepo = \"x\"\n\n[[workspace]]\nname = \"a\"\nrepo = \"/a\"\n");
    let out = config_without(data, "zzz");
    assert_eq!(out, data);
}
