use codex_config_schema::generate::parse_github_owner_repo;

#[test]
fn test_parse_github_owner_repo() {
    // HTTPS with .git
    assert_eq!(
        parse_github_owner_repo("https://github.com/openai/codex.git"),
        Some(("openai".to_string(), "codex".to_string()))
    );

    // HTTPS without .git
    assert_eq!(
        parse_github_owner_repo("https://github.com/openai/codex"),
        Some(("openai".to_string(), "codex".to_string()))
    );

    // SSH with .git
    assert_eq!(
        parse_github_owner_repo("git@github.com:user/repo.git"),
        Some(("user".to_string(), "repo".to_string()))
    );

    // SSH without .git
    assert_eq!(
        parse_github_owner_repo("git@github.com:user/repo"),
        Some(("user".to_string(), "repo".to_string()))
    );

    // Non-GitHub
    assert_eq!(parse_github_owner_repo("https://gitlab.com/user/repo"), None);
    assert_eq!(parse_github_owner_repo("git@gitlab.com:user/repo"), None);
}

#[test]
fn trim_end_matches_removes_every_trailing_repetition() {
    assert_eq!(codex_config_schema::text::trim_end_matches("repo.git.git", ".git"), "repo");
    assert_eq!(codex_config_schema::text::trim_end_matches("repo.git", ""), "repo.git");
    assert_eq!(codex_config_schema::text::trim_end_matches("", ".git"), "");
}
