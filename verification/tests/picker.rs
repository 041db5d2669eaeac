use awesometree::picker::{fuzzy_match, parse_create_result, CREATE_SENTINEL, DESTROY_PREFIX};

#[test]
fn fuzzy_match_exact() {
    assert!(fuzzy_match("hello", "hello"));
}

#[test]
fn fuzzy_match_subsequence() {
    assert!(fuzzy_match("hello world", "hlo"));
}

#[test]
fn fuzzy_match_empty_pattern() {
    assert!(fuzzy_match("anything", ""));
}

#[test]
fn fuzzy_match_no_match() {
    assert!(!fuzzy_match("abc", "xyz"));
}

#[test]
fn fuzzy_match_pattern_longer() {
    assert!(!fuzzy_match("ab", "abc"));
}

#[test]
fn fuzzy_match_order_matters() {
    assert!(fuzzy_match("abcdef", "ace"));
    assert!(!fuzzy_match("abcdef", "eca"));
}

#[test]
fn fuzzy_match_repeated_chars() {
    assert!(fuzzy_match("aabbc", "abc"));
}

#[test]
fn parse_create_result_valid() {
    let result = parse_create_result("name\0proj\0/repo\0main\01").unwrap();
    assert_eq!(result.name, "name");
    assert_eq!(result.project, "proj");
    assert_eq!(result.repo_path, "/repo");
    assert_eq!(result.branch, "main");
    assert!(result.is_new_project);
}

#[test]
fn parse_create_result_existing_project() {
    let result = parse_create_result("ws\0proj\0/r\0master\00").unwrap();
    assert!(!result.is_new_project);
}

#[test]
fn parse_create_result_too_few_parts() {
    assert!(parse_create_result("a\0b\0c").is_none());
}

#[test]
fn parse_create_result_empty_fields() {
    let result = parse_create_result("\0\0\0\0").unwrap();
    assert!(result.name.is_empty());
    assert!(result.project.is_empty());
}

#[test]
fn parse_create_result_keeps_rest_in_last_field() {
    let result = parse_create_result("a\0b\0c\0d\01\0x").unwrap();
    assert!(!result.is_new_project);
}

#[test]
fn create_sentinel_is_nul_prefixed() {
    assert!(CREATE_SENTINEL.starts_with('\0'));
}

#[test]
fn destroy_prefix_is_nul_prefixed() {
    assert!(DESTROY_PREFIX.starts_with('\0'));
}

use awesometree::picker::{FormField, PickerAction, PickerItem, PickerMode, PickerState};

fn item(name: &str) -> PickerItem {
    PickerItem { name: name.into(), project: "p".into(), active: false, acp_status: None }
}

fn list_picker() -> PickerState {
    PickerState::new(PickerMode::List { items: vec![item("Alpha-One"), item("beta"), item("alpine")] })
}

#[test]
fn list_picker_filters_case_insensitively() {
    let mut p = list_picker();
    assert_eq!(p.filtered, vec![0, 1, 2]);
    p.set_query("AL".into());
    assert_eq!(p.filtered, vec![0, 2]);
    assert_eq!(p.selected, 0);
    p.set_query("zz".into());
    assert!(p.filtered.is_empty());
    assert_eq!(p.confirm(), PickerAction::Close);
    p.set_query(String::new());
    assert_eq!(p.filtered, vec![0, 1, 2]);
}

#[test]
fn list_picker_selection_wraps() {
    let mut p = list_picker();
    p.select_prev();
    assert_eq!(p.selected, 2);
    p.select_next();
    assert_eq!(p.selected, 0);
    p.tab();
    assert_eq!(p.selected, 1);
    assert_eq!(p.confirm(), PickerAction::Send("beta".into()));
    assert_eq!(p.destroy_selected(), Some(format!("{DESTROY_PREFIX}beta")));
    assert_eq!(p.open_create(), CREATE_SENTINEL);
}

#[test]
fn freeform_picker_sends_query() {
    let mut p = PickerState::new(PickerMode::Freeform { prompt: "name?".into() });
    assert_eq!(p.confirm(), PickerAction::Close);
    p.set_query("new-thing".into());
    assert_eq!(p.confirm(), PickerAction::Send("new-thing".into()));
    assert_eq!(p.destroy_selected(), None);
}

#[test]
fn form_walks_missing_fields_then_sends() {
    let mut p = PickerState::new(PickerMode::CreateForm { projects: vec!["app".into(), "lib".into()] });
    assert_eq!(p.confirm(), PickerAction::Stay);
    assert_eq!(p.form_field, FormField::Name);
    p.set_field(FormField::Name, "feature".into());
    assert_eq!(p.confirm(), PickerAction::Stay);
    assert_eq!(p.form_field, FormField::Project);
    p.select_next();
    assert_eq!(p.project_selected, 1);
    assert_eq!(p.confirm(), PickerAction::Stay);
    assert_eq!(p.project, "lib");
    assert_eq!(p.form_field, FormField::Name);
    assert_eq!(p.confirm(), PickerAction::Send("feature\0lib\0\0master\00".into()));
}

#[test]
fn form_for_new_project_asks_for_repo() {
    let mut p = PickerState::new(PickerMode::CreateForm { projects: vec!["app".into()] });
    p.set_field(FormField::Name, "ws".into());
    p.set_field(FormField::Project, "zzz".into());
    assert!(p.project_filtered.is_empty());
    assert!(p.is_new_project());
    assert_eq!(p.confirm(), PickerAction::Stay);
    assert_eq!(p.form_field, FormField::Repo);
    p.set_field(FormField::Repo, "/src/zzz".into());
    p.set_field(FormField::Branch, "dev".into());
    let line = match p.confirm() {
        PickerAction::Send(l) => l,
        other => panic!("unexpected {other:?}"),
    };
    let back = parse_create_result(&line).unwrap();
    assert_eq!(back.name, "ws");
    assert_eq!(back.project, "zzz");
    assert_eq!(back.repo_path, "/src/zzz");
    assert_eq!(back.branch, "dev");
    assert!(back.is_new_project);
}

#[test]
fn form_tab_order() {
    let mut p = PickerState::new(PickerMode::CreateForm { projects: vec!["app".into()] });
    p.tab();
    assert_eq!(p.form_field, FormField::Project);
    p.set_field(FormField::Project, "app".into());
    p.tab();
    assert_eq!(p.form_field, FormField::Name);
    p.tab_back();
    assert_eq!(p.form_field, FormField::Project);
    p.set_field(FormField::Project, "new".into());
    p.tab();
    assert_eq!(p.form_field, FormField::Repo);
    p.tab();
    assert_eq!(p.form_field, FormField::Branch);
    p.tab();
    assert_eq!(p.form_field, FormField::Name);
    p.tab_back();
    assert_eq!(p.form_field, FormField::Branch);
}

use awesometree::model::lifecycle::WorkSessionState;
use awesometree::model::runtime::{RealizationStatus, WorkSessionRuntime};
use awesometree::model::work_session::{WorkSession, WorkSessionView};
use awesometree::picker::{selection_of, session_items, PickerSelection};

fn view(id: &str, project: Option<&str>, status: Option<RealizationStatus>) -> WorkSessionView {
    WorkSessionView {
        work_session: WorkSession {
            version: "1".into(),
            work_session_id: id.into(),
            display_name: None,
            project_id: project.map(|p| p.to_string()),
            project_snapshot_id: None,
            project_revision: None,
            work_profile_id: None,
            agent_profile_ids: Vec::new(),
            state: WorkSessionState::Open,
            policy: None,
            created_at: None,
            updated_at: None,
            closed_at: None,
        },
        runtime: status.map(|s| {
            let mut rt = WorkSessionRuntime::pending(id, "h");
            rt.realization_status = s;
            rt
        }),
    }
}

#[test]
fn session_items_sorted_by_project_then_id() {
    let list = vec![
        view("b", Some("p2"), Some(RealizationStatus::Ready)),
        view("z", Some("p1"), Some(RealizationStatus::Failed)),
        view("a", Some("p2"), Some(RealizationStatus::Degraded)),
        view("m", None, None),
    ];
    let items = session_items(&list);
    let keys: Vec<(&str, &str, bool)> = items.iter().map(|i| (i.project.as_str(), i.name.as_str(), i.active)).collect();
    assert_eq!(keys, vec![("", "m", false), ("p1", "z", false), ("p2", "a", true), ("p2", "b", true)]);
}

#[test]
fn picker_lines_select_actions() {
    assert_eq!(selection_of(CREATE_SENTINEL), PickerSelection::Create);
    assert_eq!(selection_of(&format!("{DESTROY_PREFIX}ws-1")), PickerSelection::Destroy("ws-1".into()));
    assert_eq!(selection_of("ws-2"), PickerSelection::Open("ws-2".into()));
}
