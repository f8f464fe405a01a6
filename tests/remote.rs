use shake::{project_name, ShakeError};

#[test]
fn scp_style_uri_names_repo() {
    assert_eq!(project_name("git@github.com:user/repo.git").unwrap(), "repo");
}

#[test]
fn nested_path_names_last_segment() {
    assert_eq!(project_name("host:a/b/c.git").unwrap(), "c");
}

#[test]
fn uri_without_git_suffix() {
    assert_eq!(project_name("host:user/plain").unwrap(), "plain");
}

#[test]
fn repeated_git_suffix_is_stripped() {
    assert_eq!(project_name("host:user/repo.git.git").unwrap(), "repo");
}

#[test]
fn uri_without_colon_is_rejected() {
    assert_eq!(project_name("github.com/user/repo.git"), Err(ShakeError::InvalidUri));
}

#[test]
fn uri_without_slash_after_colon_is_rejected() {
    assert_eq!(project_name("git@github.com:repo.git"), Err(ShakeError::InvalidUri));
}

#[test]
fn slash_before_colon_does_not_count() {
    assert_eq!(project_name("a/b:repo.git"), Err(ShakeError::InvalidUri));
}

#[test]
fn non_ascii_name() {
    assert_eq!(project_name("h:ü/grüße.git").unwrap(), "grüße");
}
