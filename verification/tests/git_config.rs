use codex_config_schema::git_config::default_branch_from_head;
use codex_config_schema::git_config::gitdir_from_dot_git;
use codex_config_schema::git_config::origin_url_from_config;

#[test]
fn test_read_origin_url_https() {
    let content = r#"[core]
    repositoryformatversion = 0
[remote "origin"]
    url = https://github.com/user/repo.git
    fetch = +refs/heads/*:refs/remotes/origin/*
[branch "main"]
    remote = origin
"#;
    assert_eq!(
        origin_url_from_config(content),
        Some("https://github.com/user/repo.git".to_string())
    );
}

#[test]
fn test_read_origin_url_ssh() {
    let content = r#"[remote "origin"]
    url = git@github.com:user/repo.git
"#;
    assert_eq!(
        origin_url_from_config(content),
        Some("git@github.com:user/repo.git".to_string())
    );
}

#[test]
fn test_read_origin_url_no_origin() {
    let content = r#"[core]
    repositoryformatversion = 0
[remote "upstream"]
    url = https://github.com/other/repo.git
"#;
    assert_eq!(origin_url_from_config(content), None);
}

#[test]
fn test_read_default_branch_main() {
    assert_eq!(
        default_branch_from_head("ref: refs/remotes/origin/main\n"),
        Some("main".to_string())
    );
}

#[test]
fn test_read_default_branch_master() {
    assert_eq!(
        default_branch_from_head("ref: refs/remotes/origin/master\n"),
        Some("master".to_string())
    );
}

#[test]
fn origin_url_value_is_all_text_after_first_equals_trimmed() {
    let content = "[remote \"origin\"]\r\n\turl =  https://x/y?a=b&c=d  \r\n";
    assert_eq!(origin_url_from_config(content), Some("https://x/y?a=b&c=d".to_string()));
}

#[test]
fn origin_url_line_without_equals_gives_none() {
    let content = "[remote \"origin\"]\nurl\nurl = later\n";
    assert_eq!(origin_url_from_config(content), None);
}

#[test]
fn origin_url_section_ends_at_next_header() {
    let content = "[remote \"origin\"]\n fetch = x\n[branch \"main\"]\n url = nope\n";
    assert_eq!(origin_url_from_config(content), None);
    assert_eq!(origin_url_from_config(""), None);
}

#[test]
fn default_branch_needs_the_remote_ref() {
    assert_eq!(default_branch_from_head("abc123\n"), None);
    assert_eq!(default_branch_from_head("  ref: refs/remotes/origin/feature/x  \n"), Some("feature/x".to_string()));
}

#[test]
fn gitdir_file_names_the_directory() {
    assert_eq!(
        gitdir_from_dot_git("gitdir: ../main-repo/.git/worktrees/feature\n"),
        Some("../main-repo/.git/worktrees/feature".to_string())
    );
    assert_eq!(gitdir_from_dot_git("/abs/path\n"), None);
}
