use awesometree::interop::{
    assemble_launch_prompt, base_dir, context_dir, expand_home, interpolate, merge, merge_json_objects,
    projects_dir, worktree_base, AwesometreeExt, ContextBundle, ContextConfig, Launch, Project, DEFAULT_SCHEMA,
};
use awesometree::json::{json_eq, JsonValue};

const HOME: &str = "/home/user";

fn num(n: &str) -> JsonValue {
    JsonValue::Number(n.to_string())
}

fn obj(entries: Vec<(&str, JsonValue)>) -> JsonValue {
    JsonValue::Object(entries.into_iter().map(|(k, v)| (k.to_string(), v)).collect())
}

fn lookup<'a, V>(table: &'a [(String, V)], key: &str) -> Option<&'a V> {
    table.iter().find(|(k, _)| k == key).map(|(_, v)| v)
}

#[test]
fn interpolate_replaces_placeholders() {
    let result = interpolate("zeditor -n {dir} --project {project}", "curri", "/tmp/ws");
    assert_eq!(result, "zeditor -n /tmp/ws --project curri");
}

#[test]
fn interpolate_no_placeholders() {
    let result = interpolate("echo hello", "proj", "/dir");
    assert_eq!(result, "echo hello");
}

#[test]
fn interpolate_multiple_same_placeholder() {
    let result = interpolate("{dir}/{dir}", "p", "/x");
    assert_eq!(result, "/x//x");
}

#[test]
fn interpolate_project_before_dir() {
    assert_eq!(interpolate("{project}", "{dir}", "/d"), "/d");
    assert_eq!(interpolate("{dir}", "p", "{project}"), "{project}");
}

#[test]
fn expand_home_tilde() {
    let result = expand_home("~/projects/foo", HOME);
    assert!(result.ends_with("projects/foo"));
    assert!(!result.starts_with('~'));
    assert_eq!(result, "/home/user/projects/foo");
}

#[test]
fn expand_home_absolute() {
    let result = expand_home("/absolute/path", HOME);
    assert_eq!(result, "/absolute/path");
}

#[test]
fn context_dir_path() {
    let dir = context_dir("myproj", None, HOME);
    assert!(dir.contains("context/myproj"));
    assert_eq!(dir, "/home/user/.config/project-interop/context/myproj");
}

#[test]
fn projects_dir_path() {
    let dir = projects_dir(None, HOME);
    assert!(dir.contains("projects"));
    assert_eq!(projects_dir(Some("/xdg"), HOME), "/xdg/project-interop/projects");
}

#[test]
fn base_dir_default() {
    let dir = base_dir(None, HOME);
    assert!(dir.contains("project-interop"));
}

#[test]
fn worktree_base_path() {
    let dir = worktree_base(HOME);
    assert!(dir.ends_with("worktrees"));
}

#[test]
fn project_new_sets_defaults() {
    let p = Project::new("myproj", "/repos/myproj", "main");
    assert_eq!(p.name, "myproj");
    assert_eq!(p.repo.as_deref(), Some("/repos/myproj"));
    assert_eq!(p.branch.as_deref(), Some("main"));
    assert_eq!(p.version, "1");
    assert_eq!(p.schema.as_deref(), Some(DEFAULT_SCHEMA));
}

#[test]
fn project_repo_path_some() {
    let p = Project::new("p", "/home/user/repo", "main");
    assert_eq!(p.repo_path(HOME).unwrap(), "/home/user/repo");
    let q = Project::new("p", "~/repo", "main");
    assert_eq!(q.repo_path(HOME).unwrap(), "/home/user/repo");
}

#[test]
fn project_repo_path_none() {
    let p = Project::default();
    assert!(p.repo_path(HOME).is_none());
}

#[test]
fn branch_or_default_with_branch() {
    let p = Project::new("p", "/r", "develop");
    assert_eq!(p.branch_or_default(), "develop");
}

#[test]
fn branch_or_default_without_branch() {
    let p = Project::default();
    assert_eq!(p.branch_or_default(), "master");
}

#[test]
fn awesometree_ext_default() {
    let p = Project::default();
    let ext = p.awesometree_ext();
    assert!(ext.mcp.is_none());
    assert!(ext.apps.is_empty());
    assert!(ext.layout.is_empty());
    assert!(ext.worktree_dir.is_none());
}

#[test]
fn awesometree_ext_roundtrip() {
    let mut p = Project::new("p", "/r", "main");
    let ext = AwesometreeExt {
        mcp: Some("http://localhost:8080".into()),
        apps: vec!["zeditor -n {dir}".into()],
        layout: "max".into(),
        worktree_dir: Some("~/wt".into()),
    };
    p.set_awesometree_ext(&ext);
    let restored = p.awesometree_ext();
    assert_eq!(restored.mcp.as_deref(), Some("http://localhost:8080"));
    assert_eq!(restored.apps, vec!["zeditor -n {dir}"]);
    assert_eq!(restored.layout, "max");
    assert_eq!(restored.worktree_dir.as_deref(), Some("~/wt"));
}

#[test]
fn resolved_mcp_url_interpolates() {
    let mut p = Project::new("proj", "/r", "main");
    let ext = AwesometreeExt { mcp: Some("http://localhost/{project}".into()), ..Default::default() };
    p.set_awesometree_ext(&ext);
    let url = p.resolved_mcp_url("/ws/dir").unwrap();
    assert_eq!(url, "http://localhost/proj");
}

#[test]
fn resolved_mcp_url_none_when_no_ext() {
    let p = Project::new("proj", "/r", "main");
    assert!(p.resolved_mcp_url("/ws/dir").is_none());
}

#[test]
fn merge_basic_overlay() {
    let base = Project::new("proj", "/base/repo", "master");
    let overlay = Project { name: "proj".into(), branch: Some("develop".into()), ..Default::default() };
    let merged = merge(base, overlay).unwrap();
    assert_eq!(merged.repo.as_deref(), Some("/base/repo"));
    assert_eq!(merged.branch.as_deref(), Some("develop"));
}

#[test]
fn merge_name_mismatch_errors() {
    let base = Project::new("proj-a", "/r", "main");
    let overlay = Project::new("proj-b", "/r", "main");
    assert_eq!(
        merge(base, overlay).unwrap_err(),
        "project name mismatch: user-level 'proj-a' vs repo-local 'proj-b'"
    );
}

#[test]
fn merge_empty_overlay_name_ok() {
    let base = Project::new("proj", "/r", "main");
    let overlay = Project::default();
    let merged = merge(base, overlay).unwrap();
    assert_eq!(merged.name, "proj");
    assert_eq!(merged.repo.as_deref(), Some("/r"));
}

#[test]
fn merge_launch_overlay() {
    let base = Project {
        launch: Some(Launch { prompt: Some("base prompt".into()), ..Default::default() }),
        ..Project::new("p", "/r", "main")
    };
    let overlay = Project {
        name: "p".into(),
        launch: Some(Launch { prompt: Some("override prompt".into()), ..Default::default() }),
        ..Default::default()
    };
    let merged = merge(base, overlay).unwrap();
    assert_eq!(merged.launch.unwrap().prompt.unwrap(), "override prompt");
}

#[test]
fn merge_context_extends() {
    let base = Project {
        context: Some(ContextConfig { files: Some(vec!["a.md".into()]), ..Default::default() }),
        ..Project::new("p", "/r", "main")
    };
    let overlay = Project {
        name: "p".into(),
        context: Some(ContextConfig { files: Some(vec!["b.md".into()]), ..Default::default() }),
        ..Default::default()
    };
    let merged = merge(base, overlay).unwrap();
    let files = merged.context.unwrap().files.unwrap();
    assert_eq!(files, vec!["a.md", "b.md"]);
}

#[test]
fn merge_extensions_overlay() {
    let mut base = Project::new("p", "/r", "main");
    base.extensions = Some(vec![("key1".into(), JsonValue::Str("val1".into()))]);
    let mut overlay = Project { name: "p".into(), ..Default::default() };
    overlay.extensions = Some(vec![("key2".into(), JsonValue::Str("val2".into()))]);
    let merged = merge(base, overlay).unwrap();
    let exts = merged.extensions.unwrap();
    assert!(json_eq(lookup(&exts, "key1").unwrap(), &JsonValue::Str("val1".into())));
    assert!(json_eq(lookup(&exts, "key2").unwrap(), &JsonValue::Str("val2".into())));
}

#[test]
fn merge_json_objects_both_objects() {
    let base = obj(vec![("a", num("1")), ("b", num("2"))]);
    let overlay = obj(vec![("b", num("3")), ("c", num("4"))]);
    let result = merge_json_objects(base, overlay);
    assert!(json_eq(&result, &obj(vec![("a", num("1")), ("b", num("3")), ("c", num("4"))])));
}

#[test]
fn merge_json_objects_overlay_wins_non_object() {
    let base = obj(vec![("a", num("1"))]);
    let overlay = JsonValue::Array(vec![num("1"), num("2"), num("3")]);
    let result = merge_json_objects(base, overlay.clone());
    assert!(json_eq(&result, &overlay));
}

#[test]
fn merge_launch_env() {
    let base = Project {
        launch: Some(Launch { env: Some(vec![("A".into(), "1".into())]), ..Default::default() }),
        ..Project::new("p", "/r", "main")
    };
    let overlay = Project {
        name: "p".into(),
        launch: Some(Launch {
            env: Some(vec![("A".into(), "2".into()), ("B".into(), "3".into())]),
            ..Default::default()
        }),
        ..Default::default()
    };
    let merged = merge(base, overlay).unwrap();
    let env = merged.launch.unwrap().env.unwrap();
    assert_eq!(lookup(&env, "A"), Some(&"2".to_string()));
    assert_eq!(lookup(&env, "B"), Some(&"3".to_string()));
}

#[test]
fn merge_tools_overlay() {
    let base = Project { tools: Some(obj(vec![("lint", JsonValue::Str("eslint".into()))])), ..Project::new("p", "/r", "main") };
    let overlay = Project { name: "p".into(), tools: Some(obj(vec![("test", JsonValue::Str("jest".into()))])), ..Default::default() };
    let merged = merge(base, overlay).unwrap();
    let tools = merged.tools.unwrap();
    assert_eq!(tools.get("lint").and_then(|v| v.as_str()), Some("eslint"));
    assert_eq!(tools.get("test").and_then(|v| v.as_str()), Some("jest"));
}

#[test]
fn merge_agents_overlay() {
    let base = Project { agents: Some(obj(vec![("alpha", obj(vec![]))])), ..Project::new("p", "/r", "main") };
    let overlay = Project { name: "p".into(), agents: Some(obj(vec![("beta", obj(vec![]))])), ..Default::default() };
    let merged = merge(base, overlay).unwrap();
    let agents = merged.agents.unwrap();
    assert!(agents.get("alpha").unwrap().is_object());
    assert!(agents.get("beta").unwrap().is_object());
}

#[test]
fn merge_context_max_bytes_override() {
    let base = Project {
        context: Some(ContextConfig { max_bytes: Some(1000), ..Default::default() }),
        ..Project::new("p", "/r", "main")
    };
    let overlay = Project {
        name: "p".into(),
        context: Some(ContextConfig { max_bytes: Some(500), ..Default::default() }),
        ..Default::default()
    };
    let merged = merge(base, overlay).unwrap();
    assert_eq!(merged.context.unwrap().max_bytes, Some(500));
}

#[test]
fn merge_context_repo_includes() {
    let base = Project {
        context: Some(ContextConfig { repo_includes: Some(vec!["*.md".into()]), ..Default::default() }),
        ..Project::new("p", "/r", "main")
    };
    let overlay = Project {
        name: "p".into(),
        context: Some(ContextConfig { repo_includes: Some(vec!["*.rs".into()]), ..Default::default() }),
        ..Default::default()
    };
    let merged = merge(base, overlay).unwrap();
    let includes = merged.context.unwrap().repo_includes.unwrap();
    assert_eq!(includes, vec!["*.md", "*.rs"]);
}

#[test]
fn assemble_launch_prompt_no_launch() {
    let p = Project::default();
    let result = assemble_launch_prompt(&p, "/dir", None).unwrap();
    assert!(result.is_empty());
}

#[test]
fn assemble_launch_prompt_with_inline() {
    let p = Project {
        launch: Some(Launch { prompt: Some("Hello {project} in {dir}".into()), ..Default::default() }),
        ..Project::new("myproj", "/r", "main")
    };
    let result = assemble_launch_prompt(&p, "/my/dir", None).unwrap();
    assert_eq!(result, "Hello myproj in /my/dir");
}

#[test]
fn assemble_launch_prompt_with_file_text() {
    let p = Project {
        launch: Some(Launch {
            prompt: Some("A {project}".into()),
            prompt_file: Some("prompt.md".into()),
            ..Default::default()
        }),
        ..Project::new("myproj", "/r", "main")
    };
    let result = assemble_launch_prompt(&p, "/d", Some("B {dir}")).unwrap();
    assert_eq!(result, "A myproj\nB /d");
}

#[test]
fn context_bundle_dedups_and_truncates() {
    let mut b = ContextBundle::new(10);
    assert!(b.wants("a.md"));
    assert!(!b.add("a.md".into(), "12345".into()));
    assert!(!b.wants("a.md"));
    assert!(b.wants("b.md"));
    assert!(b.add("b.md".into(), "123456".into()));
    assert!(!b.wants("c.md"));
    let entries = b.into_entries();
    assert_eq!(entries.len(), 2);
    assert_eq!(entries[0], ("a.md".to_string(), "12345".to_string()));
    assert_eq!(entries[1], ("__truncated__".to_string(), "Context truncated at 10 bytes".to_string()));
}

use awesometree::interop::{branch_names, catalog, is_descriptor_file, std_lines_exec};

#[test]
fn catalog_keeps_named_version_one_sorted() {
    let mut a = Project::new("zeta", "/r", "main");
    a.version = "1".into();
    let mut b = Project::new("alpha", "/r", "main");
    b.version = "1".into();
    let mut old = Project::new("old", "/r", "main");
    old.version = "0".into();
    let mut unnamed = Project::new("", "/r", "main");
    unnamed.version = "1".into();
    let list = catalog(vec![a, old, unnamed, b]);
    let names: Vec<&str> = list.iter().map(|p| p.name.as_str()).collect();
    assert_eq!(names, vec!["alpha", "zeta"]);
    assert!(is_descriptor_file("app.project.json"));
    assert!(!is_descriptor_file("app.json"));
}

#[test]
fn lines_like_std() {
    for text in ["", "a", "a\n", "a\r\nb", "a\n\nb\n", "x\r", "\r\n", "a\rb\n"] {
        let ours = std_lines_exec(text);
        let std: Vec<String> = text.lines().map(|l| l.to_string()).collect();
        assert_eq!(ours, std, "lines of {text:?}");
    }
}

#[test]
fn branch_names_cleaned_deduped_sorted() {
    let out = "main\norigin/main\norigin/HEAD\nfeature/x\n\norigin/dev\r\nHEAD\n";
    assert_eq!(branch_names(out), vec!["dev".to_string(), "feature/x".to_string(), "main".to_string()]);
    assert!(branch_names("").is_empty());
}

use awesometree::interop::delete;

#[test]
fn delete_nonexistent_project_errors() {
    let result = delete("definitely-not-a-project-12345", false);
    assert!(result.is_err());
    assert_eq!(result.err().unwrap(), "project not found: definitely-not-a-project-12345");
    assert!(delete("present", true).is_ok());
}
