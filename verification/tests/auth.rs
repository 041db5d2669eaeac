use awesometree::auth::{
    secret_path, usable_secret,
    admit_scoped_token, bearer_credential, check_child_grant, create_child_token, create_scoped_token,
    encode_scoped_token_frame, ensure_session, generate_token, generate_token_at, get_token_by_id, is_expired_at,
    localhost_admin_token, permission_allows, scope_includes_project, scope_is_subset, scoped_token_payload,
    session_matches, split_three, token_only, validate_legacy_token, validate_legacy_token_at, Permission,
    ScopedToken, TokenScope, TokenStore, TOKEN_LIFETIME_SECS,
};
use awesometree::state::AgentInstanceState;

const SECRET: &[u8] = b"0123456789abcdef0123456789abcdef";

fn token(permission: Permission, session_id: Option<&str>) -> ScopedToken {
    ScopedToken {
        id: "t1".into(),
        subject: "user".into(),
        scope: TokenScope::Global,
        permission,
        session_id: session_id.map(|s| s.to_string()),
        issued_at: "2026-01-01T00:00:00Z".into(),
        expires_at: None,
        parent_token_id: None,
    }
}

#[test]
fn invalid_token_rejected() {
    assert!(!validate_legacy_token("garbage", SECRET));
    assert!(!validate_legacy_token("1:2:3", SECRET));
    assert!(!validate_legacy_token("", SECRET));
}

#[test]
fn token_only_is_valid() {
    let token = token_only(SECRET);
    assert!(validate_legacy_token(&token, SECRET));
}

#[test]
fn generate_and_validate_token() {
    let token = generate_token(SECRET);
    assert!(validate_legacy_token(&token, SECRET));
}

#[test]
fn tampered_token_rejected() {
    let token = generate_token(SECRET);
    let tampered = format!("{token}x");
    assert!(!validate_legacy_token(&tampered, SECRET));
}

#[test]
fn token_has_three_parts() {
    let token = generate_token(SECRET);
    assert_eq!(token.splitn(4, ':').count(), 3);
}

#[test]
fn tampered_legacy_token_rejected() {
    let token = generate_token_at(SECRET, 1_000, 42);
    let tampered = format!("{}x", token);
    assert!(!validate_legacy_token_at(&tampered, SECRET, 1_000));
    assert!(validate_legacy_token_at(&token, SECRET, 1_000));
}

#[test]
fn legacy_token_expires_after_thirty_days() {
    let token = generate_token_at(SECRET, 1_000, 7);
    assert!(validate_legacy_token_at(&token, SECRET, 1_000 + TOKEN_LIFETIME_SECS));
    assert!(!validate_legacy_token_at(&token, SECRET, 1_000 + TOKEN_LIFETIME_SECS + 1));
}

#[test]
fn legacy_token_under_other_secret_rejected() {
    let token = generate_token_at(SECRET, 5, 5);
    assert!(!validate_legacy_token_at(&token, b"another secret", 5));
}

#[test]
fn split_three_keeps_rest_in_last_part() {
    let (a, b, c) = split_three("1:2:3:4").unwrap();
    assert_eq!((a.as_str(), b.as_str(), c.as_str()), ("1", "2", "3:4"));
    assert!(split_three("1:2").is_none());
}

#[test]
fn scope_includes_project_global() {
    assert!(scope_includes_project(&TokenScope::Global, "anything"));
}

#[test]
fn scope_includes_project_listed() {
    let scope = TokenScope::Projects(vec!["myapp".into(), "lib".into()]);
    assert!(scope_includes_project(&scope, "myapp"));
    assert!(scope_includes_project(&scope, "lib"));
    assert!(!scope_includes_project(&scope, "other"));
}

#[test]
fn permission_allows_checks() {
    assert!(permission_allows(&Permission::Admin, &Permission::Admin));
    assert!(permission_allows(&Permission::Admin, &Permission::Project));
    assert!(permission_allows(&Permission::Admin, &Permission::Session));
    assert!(permission_allows(&Permission::Project, &Permission::Project));
    assert!(permission_allows(&Permission::Project, &Permission::Session));
    assert!(!permission_allows(&Permission::Project, &Permission::Admin));
    assert!(permission_allows(&Permission::Session, &Permission::Session));
    assert!(!permission_allows(&Permission::Session, &Permission::Project));
}

#[test]
fn session_matches_for_session_perm() {
    let token = token(Permission::Session, Some("sess-1"));
    let agent_match = AgentInstanceState { session_id: Some("sess-1".into()), ..Default::default() };
    let agent_no_match = AgentInstanceState { session_id: Some("sess-2".into()), ..Default::default() };
    let agent_no_session = AgentInstanceState { session_id: None, ..Default::default() };
    assert!(session_matches(&token, &agent_match));
    assert!(!session_matches(&token, &agent_no_match));
    assert!(!session_matches(&token, &agent_no_session));
}

#[test]
fn session_matches_non_session_perm_always_true() {
    let token = token(Permission::Project, None);
    let agent = AgentInstanceState { session_id: Some("sess-99".into()), ..Default::default() };
    assert!(session_matches(&token, &agent));
}

#[test]
fn localhost_admin_token_is_admin_global() {
    let token = localhost_admin_token();
    assert_eq!(token.permission, Permission::Admin);
    assert_eq!(token.scope, TokenScope::Global);
    assert_eq!(token.subject, "localhost");
    assert_eq!(token.id, "localhost-admin");
}

#[test]
fn resolve_token_from_header_none() {
    assert!(bearer_credential(None).is_none());
    assert!(bearer_credential(Some("garbage")).is_none());
    let cred = bearer_credential(Some("Bearer invalid")).unwrap();
    assert_eq!(cred, "invalid");
    assert!(scoped_token_payload(&cred, SECRET).is_none());
}

#[test]
fn scoped_frame_roundtrip_and_tamper() {
    let json = r#"{"id":"x","subject":"u"}"#;
    let framed = encode_scoped_token_frame(json, SECRET);
    let payload = scoped_token_payload(&framed, SECRET).unwrap();
    assert_eq!(payload, json.as_bytes());
    let mut tampered = framed.clone();
    tampered.insert(0, 'A');
    assert!(scoped_token_payload(&tampered, SECRET).is_none());
    assert!(scoped_token_payload(&framed, b"other").is_none());
}

#[test]
fn expiry_is_checked_against_now() {
    assert!(is_expired_at(Some("2020-01-01T00:00:00Z"), (1_700_000_000, 0)));
    assert!(!is_expired_at(Some("2099-01-01T00:00:00Z"), (1_700_000_000, 0)));
    assert!(!is_expired_at(None, (1_700_000_000, 0)));
    assert!(!is_expired_at(Some("not a date"), (1_700_000_000, 0)));
    let mut t = token(Permission::Admin, None);
    t.expires_at = Some("2020-01-01T00:00:00Z".into());
    assert!(admit_scoped_token(t, (1_700_000_000, 0)).is_none());
    let t2 = token(Permission::Admin, None);
    assert!(admit_scoped_token(t2, (1_700_000_000, 0)).is_some());
}

#[test]
fn get_token_by_id_works() {
    let mut store = TokenStore::new();
    let token = create_scoped_token(&mut store, "user", TokenScope::Global, Permission::Admin, None);
    let found = get_token_by_id(&store, &token.id).unwrap();
    assert_eq!(found.id, token.id);
    assert!(get_token_by_id(&store, "nonexistent").is_none());
    assert_eq!(token.id.len(), 36);
    assert!(token.expires_at.is_none());
}

#[test]
fn created_token_with_expiry_has_expiry() {
    let mut store = TokenStore::new();
    let token = create_scoped_token(&mut store, "user", TokenScope::Global, Permission::Project, Some(3600));
    assert!(token.expires_at.is_some());
    assert_eq!(token.permission, Permission::Project);
}

#[test]
fn ensure_session_creates_session() {
    let mut store = TokenStore::new();
    let mut token = create_scoped_token(&mut store, "user", TokenScope::Global, Permission::Admin, None);
    assert!(token.session_id.is_none());
    let sid = ensure_session(&mut store, &mut token);
    assert!(sid.starts_with("sess-"));
    assert_eq!(sid.len(), 13);
    assert_eq!(token.session_id, Some(sid.clone()));
    let stored = get_token_by_id(&store, &token.id).unwrap();
    assert_eq!(stored.session_id, Some(sid.clone()));
    let sid2 = ensure_session(&mut store, &mut token);
    assert_eq!(sid, sid2);
}

#[test]
fn child_token_inherits_parent() {
    let mut store = TokenStore::new();
    let parent = create_scoped_token(
        &mut store,
        "operator",
        TokenScope::Projects(vec!["myapp".into(), "lib".into()]),
        Permission::Project,
        None,
    );
    let child = create_child_token(&mut store, &parent, None, None).unwrap();
    assert_eq!(child.scope, parent.scope);
    assert_eq!(child.permission, parent.permission);
    assert_eq!(child.parent_token_id, Some(parent.id.clone()));
}

#[test]
fn child_token_narrows_scope() {
    let mut store = TokenStore::new();
    let parent = create_scoped_token(
        &mut store,
        "operator",
        TokenScope::Projects(vec!["myapp".into(), "lib".into()]),
        Permission::Project,
        None,
    );
    let child = create_child_token(&mut store, &parent, Some(TokenScope::Projects(vec!["myapp".into()])), None).unwrap();
    assert_eq!(child.scope, TokenScope::Projects(vec!["myapp".into()]));
}

#[test]
fn child_token_narrows_permission() {
    let mut store = TokenStore::new();
    let parent = create_scoped_token(&mut store, "operator", TokenScope::Global, Permission::Admin, None);
    let child = create_child_token(&mut store, &parent, None, Some(Permission::Session)).unwrap();
    assert_eq!(child.permission, Permission::Session);
}

#[test]
fn child_token_cannot_widen_scope() {
    let mut store = TokenStore::new();
    let parent = create_scoped_token(
        &mut store,
        "operator",
        TokenScope::Projects(vec!["myapp".into()]),
        Permission::Project,
        None,
    );
    let result = create_child_token(
        &mut store,
        &parent,
        Some(TokenScope::Projects(vec!["myapp".into(), "other".into()])),
        None,
    );
    assert!(result.is_err());
}

#[test]
fn child_token_cannot_escalate_permission() {
    let mut store = TokenStore::new();
    let parent = create_scoped_token(&mut store, "operator", TokenScope::Global, Permission::Session, None);
    let result = create_child_token(&mut store, &parent, None, Some(Permission::Admin));
    assert!(result.is_err());
}

#[test]
fn child_cannot_widen_to_global() {
    let mut store = TokenStore::new();
    let parent = create_scoped_token(
        &mut store,
        "operator",
        TokenScope::Projects(vec!["myapp".into()]),
        Permission::Project,
        None,
    );
    let result = create_child_token(&mut store, &parent, Some(TokenScope::Global), None);
    assert!(result.is_err());
}

#[test]
fn child_refusals_name_the_reason() {
    let mut store = TokenStore::new();
    let parent = create_scoped_token(&mut store, "operator", TokenScope::Global, Permission::Project, None);
    let result = create_child_token(&mut store, &parent, None, Some(Permission::Admin));
    assert_eq!(result.unwrap_err(), "child permission Admin exceeds parent Project");
    let narrow = create_scoped_token(&mut store, "operator", TokenScope::Projects(vec!["myapp".into()]), Permission::Admin, None);
    let result = create_child_token(&mut store, &narrow, Some(TokenScope::Global), None);
    assert_eq!(result.unwrap_err(), "child scope exceeds parent scope");
    assert!(check_child_grant(&narrow, Some(TokenScope::Global), None).is_err());
}

#[test]
fn scope_subset_checks() {
    assert!(scope_is_subset(&TokenScope::Global, &TokenScope::Global));
    assert!(scope_is_subset(&TokenScope::Projects(vec!["a".into()]), &TokenScope::Global));
    assert!(!scope_is_subset(&TokenScope::Global, &TokenScope::Projects(vec!["a".into()])));
    assert!(scope_is_subset(
        &TokenScope::Projects(vec!["a".into()]),
        &TokenScope::Projects(vec!["a".into(), "b".into()]),
    ));
    assert!(!scope_is_subset(
        &TokenScope::Projects(vec!["a".into(), "c".into()]),
        &TokenScope::Projects(vec!["a".into(), "b".into()]),
    ));
}

#[test]
fn secret_lives_in_config_dir() {
    assert_eq!(secret_path("/home/u"), "/home/u/.config/awesometree/server.key");
    assert_eq!(secret_path("/home/u/"), "/home/u/.config/awesometree/server.key");
}

#[test]
fn only_a_32_byte_secret_is_used() {
    assert_eq!(usable_secret(Some(vec![7u8; 32])), Some(vec![7u8; 32]));
    assert_eq!(usable_secret(Some(vec![7u8; 31])), None);
    assert_eq!(usable_secret(Some(Vec::new())), None);
    assert_eq!(usable_secret(None), None);
}
