use awesometree::paths::{expand_home, home_dir, path_join};

const HOME: &str = "/home/user";

#[test]
fn home_dir_not_empty() {
    assert_eq!(home_dir(Some("/home/user")), "/home/user");
    assert_eq!(home_dir(None), "/tmp");
}

#[test]
fn expand_home_tilde_prefix() {
    let result = expand_home("~/Documents", HOME);
    assert_eq!(result, path_join(HOME, "Documents"));
    assert_eq!(result, "/home/user/Documents");
}

#[test]
fn expand_home_absolute_unchanged() {
    let result = expand_home("/etc/config", HOME);
    assert_eq!(result, "/etc/config");
}

#[test]
fn expand_home_relative_unchanged() {
    let result = expand_home("relative/path", HOME);
    assert_eq!(result, "relative/path");
}

#[test]
fn expand_home_tilde_only_not_expanded() {
    let result = expand_home("~notslash", HOME);
    assert_eq!(result, "~notslash");
}

#[test]
fn expand_home_empty() {
    let result = expand_home("", HOME);
    assert_eq!(result, "");
}

#[test]
fn join_follows_path_rules() {
    assert_eq!(path_join("/a", "b"), "/a/b");
    assert_eq!(path_join("/a/", "b"), "/a/b");
    assert_eq!(path_join("", "b"), "b");
    assert_eq!(path_join("/a", "/b"), "/b");
}
