use fmm_bench::sandbox::{
    commit_sha, validate_job_id, validate_repo_url, Sandbox, SandboxError,
};

#[test]
fn test_sandbox_rejects_traversal_job_id() {
    assert!(Sandbox::new("/tmp", "../escape").is_err());
    assert!(Sandbox::new("/tmp", "foo/../bar").is_err());
    assert!(Sandbox::new("/tmp", "").is_err());
}

#[test]
fn test_sandbox_accepts_valid_job_id() {
    let sandbox = Sandbox::new("/tmp", "cmp-abc123-0f3a").unwrap();
    assert_eq!(sandbox.root, "/tmp/fmm-compare-cmp-abc123-0f3a");
    assert_eq!(sandbox.control_dir, "/tmp/fmm-compare-cmp-abc123-0f3a/control");
    assert_eq!(sandbox.fmm_dir, "/tmp/fmm-compare-cmp-abc123-0f3a/fmm");
}

#[test]
fn test_validate_repo_url_https_required() {
    assert!(validate_repo_url("http://github.com/foo/bar").is_err());
    assert!(validate_repo_url("git@github.com:foo/bar.git").is_err());
    assert!(validate_repo_url("ftp://github.com/foo/bar").is_err());
}

#[test]
fn test_validate_repo_url_valid() {
    assert!(validate_repo_url("https://github.com/pmndrs/zustand").is_ok());
    assert!(validate_repo_url("https://gitlab.com/user/project").is_ok());
    assert!(validate_repo_url("https://bitbucket.org/team/repo").is_ok());
}

#[test]
fn test_validate_repo_url_injection() {
    assert!(validate_repo_url("https://github.com/foo;rm -rf /").is_err());
    assert!(validate_repo_url("https://github.com/foo|cat /etc/passwd").is_err());
    assert!(validate_repo_url("https://github.com/../../../etc").is_err());
}

#[test]
fn test_validate_repo_url_invalid_host() {
    assert!(validate_repo_url("https:///no-host").is_err());
    assert!(validate_repo_url("https://noperiod/repo").is_err());
}

#[test]
fn test_validate_job_id_valid() {
    assert!(validate_job_id("cmp-abc-123").is_ok());
    assert!(validate_job_id("simple").is_ok());
    assert!(validate_job_id("with_underscore").is_ok());
}

#[test]
fn test_validate_job_id_invalid() {
    assert!(validate_job_id("").is_err());
    assert!(validate_job_id("../escape").is_err());
    assert!(validate_job_id("has space").is_err());
    assert!(validate_job_id("has;semicolon").is_err());
}

#[test]
fn test_sandbox_auto_cleanup_on_drop() {
    let sandbox = Sandbox::new("/tmp", "drop-test-001").unwrap();
    assert!(sandbox.cleanup_on_drop);
    assert_eq!(sandbox.on_drop().as_deref(), Some("/tmp/fmm-compare-drop-test-001"));
}

#[test]
fn test_sandbox_keep_on_drop() {
    let mut sandbox = Sandbox::new("/tmp", "keep-test-001").unwrap();
    sandbox.keep_on_drop();
    assert!(!sandbox.cleanup_on_drop);
    assert!(sandbox.on_drop().is_none());
    assert_eq!(sandbox.root, "/tmp/fmm-compare-keep-test-001");
}

#[test]
fn each_sandbox_error_has_an_input() {
    assert_eq!(validate_job_id(""), Err(SandboxError::EmptyJobId));
    assert_eq!(validate_job_id("a.b"), Err(SandboxError::InvalidJobId));
    assert_eq!(validate_repo_url("http://a.b/c"), Err(SandboxError::NotHttps));
    assert_eq!(validate_repo_url(""), Err(SandboxError::NotHttps));
    assert_eq!(validate_repo_url("https://"), Err(SandboxError::InvalidHost));
    assert_eq!(validate_repo_url("https://host/a.b"), Err(SandboxError::InvalidHost));
    assert_eq!(validate_repo_url("https://a.b/c..d"), Err(SandboxError::ForbiddenCharacters));
    assert_eq!(validate_repo_url("https://a.b/c\0"), Err(SandboxError::ForbiddenCharacters));
    assert_eq!(validate_repo_url("https://a.b"), Ok(()));
    assert_eq!(Sandbox::new("/tmp", "").unwrap_err(), SandboxError::EmptyJobId);
}

#[test]
fn sandbox_root_is_joined_by_one_slash() {
    assert_eq!(Sandbox::new("/tmp/", "j").unwrap().root, "/tmp/fmm-compare-j");
    assert_eq!(Sandbox::new("", "j").unwrap().root, "fmm-compare-j");
}

#[test]
fn clone_commands_are_one_per_variant() {
    let sandbox = Sandbox::new("/t", "j").unwrap();
    let commands = sandbox.clone_repo("https://github.com/o/r", None).unwrap();
    assert_eq!(
        commands,
        vec![
            vec!["git", "clone", "--depth", "1", "--single-branch", "https://github.com/o/r", "/t/fmm-compare-j/control"],
            vec!["git", "clone", "--depth", "1", "--single-branch", "https://github.com/o/r", "/t/fmm-compare-j/fmm"],
        ]
    );
    let commands = sandbox.clone_repo("https://github.com/o/r", Some("dev")).unwrap();
    assert_eq!(
        commands[0],
        vec!["git", "clone", "--depth", "1", "--single-branch", "--branch", "dev", "https://github.com/o/r", "/t/fmm-compare-j/control"]
    );
    assert_eq!(commands.len(), 2);
    assert_eq!(
        sandbox.clone_repo("git@github.com:o/r.git", None).unwrap_err(),
        SandboxError::NotHttps
    );
}

#[test]
fn pinned_clone_and_reset_run_in_both_checkouts() {
    let sandbox = Sandbox::new("/t", "j").unwrap();
    let steps = sandbox.clone_repo_at_commit("https://github.com/o/r", "abc", Some("dev")).unwrap();
    assert_eq!(steps.len(), 4);
    assert!(steps[0].dir.is_none());
    assert_eq!(steps[0].command.last().unwrap(), "/t/fmm-compare-j/control");
    assert_eq!(steps[1].dir.as_deref(), Some("/t/fmm-compare-j/control"));
    assert_eq!(steps[1].command, vec!["git", "checkout", "abc"]);
    assert_eq!(steps[2].command[5], "--branch");
    assert_eq!(steps[3].dir.as_deref(), Some("/t/fmm-compare-j/fmm"));
    assert!(sandbox.clone_repo_at_commit("https://nohost/x", "abc", None).is_err());

    let steps = sandbox.reset_git_state();
    let shown: Vec<(&str, Vec<&str>)> = steps
        .iter()
        .map(|s| (s.dir.as_deref().unwrap(), s.command.iter().map(|w| w.as_str()).collect()))
        .collect();
    assert_eq!(
        shown,
        vec![
            ("/t/fmm-compare-j/control", vec!["git", "checkout", "."]),
            ("/t/fmm-compare-j/control", vec!["git", "clean", "-fd"]),
            ("/t/fmm-compare-j/fmm", vec!["git", "checkout", "."]),
            ("/t/fmm-compare-j/fmm", vec!["git", "clean", "-fd"]),
        ]
    );
    assert_eq!(commit_sha("  0123abc\n"), "0123abc");
    assert_eq!(commit_sha("\u{a0}\t"), "");
}
