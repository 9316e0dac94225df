use fmm_bench::issue::{
    classify_failure, fetch_arguments, parse_issue_identifier, parse_owner_repo,
    parse_path_with_issues, read_issue, validate_component, FetchError, GitHubIssue, IssueError,
    IssueRef, Part,
};

#[test]
fn parse_owner_repo_hash_format() {
    let r = parse_issue_identifier("srobinson/fmm#42").unwrap();
    assert_eq!(r.owner, "srobinson");
    assert_eq!(r.repo, "fmm");
    assert_eq!(r.number, 42);
}

#[test]
fn parse_https_url_format() {
    let r = parse_issue_identifier("https://github.com/srobinson/fmm/issues/42").unwrap();
    assert_eq!(r.owner, "srobinson");
    assert_eq!(r.repo, "fmm");
    assert_eq!(r.number, 42);
}

#[test]
fn parse_path_format() {
    let r = parse_issue_identifier("srobinson/fmm/issues/42").unwrap();
    assert_eq!(r.owner, "srobinson");
    assert_eq!(r.repo, "fmm");
    assert_eq!(r.number, 42);
}

#[test]
fn parse_with_whitespace() {
    let r = parse_issue_identifier("  srobinson/fmm#42  ").unwrap();
    assert_eq!(r.owner, "srobinson");
    assert_eq!(r.number, 42);
}

#[test]
fn parse_dotted_repo_name() {
    let r = parse_issue_identifier("owner/repo.js#1").unwrap();
    assert_eq!(r.repo, "repo.js");
    assert_eq!(r.number, 1);
}

#[test]
fn parse_invalid_no_number() {
    assert!(parse_issue_identifier("srobinson/fmm").is_err());
}

#[test]
fn parse_invalid_bad_number() {
    assert!(parse_issue_identifier("srobinson/fmm#abc").is_err());
}

#[test]
fn parse_invalid_empty() {
    assert!(parse_issue_identifier("").is_err());
}

#[test]
fn parse_invalid_just_number() {
    assert!(parse_issue_identifier("42").is_err());
}

#[test]
fn parse_invalid_bad_url() {
    assert!(parse_issue_identifier("https://github.com/only-owner").is_err());
}

#[test]
fn issue_ref_display() {
    let r = IssueRef {
        owner: "srobinson".to_string(),
        repo: "fmm".to_string(),
        number: 42,
    };
    assert_eq!(r.to_string(), "srobinson/fmm#42");
    assert_eq!(r.short_id(), "srobinson/fmm#42");
    assert_eq!(r.clone_url(), "https://github.com/srobinson/fmm");
}

#[test]
fn prompt_construction() {
    let issue = GitHubIssue {
        issue_ref: IssueRef {
            owner: "test".to_string(),
            repo: "repo".to_string(),
            number: 1,
        },
        title: "Fix the bug".to_string(),
        body: "The thing is broken.\n\nSteps to reproduce:\n1. Do X\n2. See Y".to_string(),
        state: "OPEN".to_string(),
        labels: vec!["bug".to_string()],
    };

    let prompt = issue.to_prompt();
    assert!(prompt.contains("## Fix the bug"));
    assert!(prompt.contains("The thing is broken."));
    assert!(prompt.contains("Fix this issue."));
    assert!(prompt.contains("commit your changes"));
}

#[test]
fn prompt_identical_for_both_conditions() {
    let issue = GitHubIssue {
        issue_ref: IssueRef {
            owner: "a".to_string(),
            repo: "b".to_string(),
            number: 1,
        },
        title: "Title".to_string(),
        body: "Body".to_string(),
        state: "OPEN".to_string(),
        labels: vec![],
    };

    let first = issue.to_prompt();
    let second = issue.to_prompt();
    assert_eq!(first, second, "Prompt must be identical for both conditions");
}

#[test]
fn validate_component_rejects_injection() {
    assert!(validate_component("foo;bar", Part::Owner).is_err());
    assert!(validate_component("foo/bar", Part::Owner).is_err());
    assert!(validate_component("", Part::Owner).is_err());
    assert!(validate_component("foo bar", Part::Owner).is_err());
}

#[test]
fn validate_component_accepts_valid() {
    assert!(validate_component("srobinson", Part::Owner).is_ok());
    assert!(validate_component("fmm", Part::Repo).is_ok());
    assert!(validate_component("my-repo.js", Part::Repo).is_ok());
    assert!(validate_component("user_name", Part::Owner).is_ok());
}

#[test]
fn prompt_has_the_exact_text() {
    let issue = GitHubIssue {
        issue_ref: IssueRef { owner: "a".to_string(), repo: "b".to_string(), number: 1 },
        title: "T".to_string(),
        body: "B".to_string(),
        state: "OPEN".to_string(),
        labels: vec![],
    };
    assert_eq!(
        issue.to_prompt(),
        "Here is a GitHub issue for this repository:\n\n## T\n\nB\n\n---\n\nFix this issue. Make the minimal changes needed to resolve it.\nDo not modify tests unless the issue specifically requires test changes.\nWhen done, commit your changes with a descriptive message."
    );
}

#[test]
fn each_error_has_an_input() {
    assert_eq!(parse_issue_identifier("a/b#x").unwrap_err(), IssueError::InvalidNumber);
    assert_eq!(parse_issue_identifier("a/b#").unwrap_err(), IssueError::InvalidNumber);
    assert_eq!(
        parse_issue_identifier("a/b#18446744073709551616").unwrap_err(),
        IssueError::InvalidNumber
    );
    assert_eq!(parse_issue_identifier("a#1").unwrap_err(), IssueError::ExpectedOwnerRepo);
    assert_eq!(parse_issue_identifier("a/b/c#1").unwrap_err(), IssueError::ExpectedOwnerRepo);
    assert_eq!(
        parse_issue_identifier("https://github.com/a/b/pull/1").unwrap_err(),
        IssueError::ExpectedIssuePath
    );
    assert_eq!(
        parse_issue_identifier("/b#1").unwrap_err(),
        IssueError::EmptyComponent(Part::Owner)
    );
    assert_eq!(
        parse_issue_identifier("a/#1").unwrap_err(),
        IssueError::EmptyComponent(Part::Repo)
    );
    assert_eq!(
        parse_issue_identifier("a b/c#1").unwrap_err(),
        IssueError::InvalidComponent(Part::Owner)
    );
    assert_eq!(
        parse_issue_identifier("a/c$/issues/1").unwrap_err(),
        IssueError::InvalidComponent(Part::Repo)
    );
    assert_eq!(parse_issue_identifier("nothing").unwrap_err(), IssueError::Unrecognized);
    assert_eq!(
        parse_issue_identifier("a/b/issues/x").unwrap_err(),
        IssueError::InvalidNumber
    );
}

#[test]
fn number_is_read_like_an_unsigned_integer() {
    assert_eq!(parse_issue_identifier("a/b#+7").unwrap().number, 7);
    assert_eq!(parse_issue_identifier("a/b#007").unwrap().number, 7);
    assert_eq!(
        parse_issue_identifier("a/b#18446744073709551615").unwrap().number,
        u64::MAX
    );
    assert!(parse_issue_identifier("a/b#-7").is_err());
    assert!(parse_issue_identifier("a/b#+").is_err());
    assert!(parse_issue_identifier("a/b# 7").is_err());
}

#[test]
fn http_address_and_trailing_path_are_accepted() {
    let r = parse_issue_identifier("http://github.com/o/r/issues/9/extra").unwrap();
    assert_eq!((r.owner.as_str(), r.repo.as_str(), r.number), ("o", "r", 9));
    let r = parse_path_with_issues("o/r/issues/10").unwrap();
    assert_eq!(r.number, 10);
    let (owner, repo) = parse_owner_repo("own/rep").unwrap();
    assert_eq!((owner.as_str(), repo.as_str()), ("own", "rep"));
    assert_eq!(r.repo_slug(), "o/r");
}

#[test]
fn issue_is_read_off_the_tool_output() {
    let r = IssueRef { owner: "o".to_string(), repo: "r".to_string(), number: 5 };
    assert_eq!(
        fetch_arguments(&r),
        vec!["issue", "view", "5", "--repo", "o/r", "--json", "title,body,labels,state"]
    );
    let out = r#"{"title":"T","body":"B","state":"OPEN","labels":[{"name":"bug"},{"id":1},{"name":"ui"},7]}"#;
    let issue = read_issue(r.clone(), true, out, "").unwrap();
    assert_eq!(issue.title, "T");
    assert_eq!(issue.body, "B");
    assert_eq!(issue.state, "OPEN");
    assert_eq!(issue.labels, vec!["bug", "ui"]);
    assert_eq!(issue.issue_ref.number, 5);

    let issue = read_issue(r.clone(), true, r#"{"labels":"none","title":3}"#, "").unwrap();
    assert_eq!(issue.title, "(no title)");
    assert_eq!(issue.body, "");
    assert_eq!(issue.state, "UNKNOWN");
    assert!(issue.labels.is_empty());

    assert_eq!(read_issue(r.clone(), true, "oops", "").unwrap_err(), FetchError::Unreadable);
    assert_eq!(
        read_issue(r.clone(), false, "{}", "GraphQL: Could not resolve to an Issue").unwrap_err(),
        FetchError::NotFound
    );
    assert_eq!(read_issue(r, false, "{}", "network down").unwrap_err(), FetchError::Failed);
    assert_eq!(classify_failure("repository not found"), FetchError::NotFound);
    assert_eq!(classify_failure("Not Found"), FetchError::Failed);
}
