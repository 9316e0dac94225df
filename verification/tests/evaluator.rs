use fmm_bench::evaluator::{
    commit_count, compute_grade, detect_build_command, detect_test_runner, evaluate,
    parse_numstat, uses_committed_diff, RepoFiles,
};

fn no_files() -> RepoFiles {
    RepoFiles {
        has_cargo_toml: false,
        has_go_mod: false,
        has_pyproject_toml: false,
        has_setup_py: false,
        package_json: None,
        has_pnpm_lock: false,
        has_yarn_lock: false,
    }
}

#[test]
fn grade_a_tests_pass() {
    assert_eq!(compute_grade(true, true, true, true), "A");
}

#[test]
fn grade_b_no_tests() {
    assert_eq!(compute_grade(true, false, false, true), "B");
}

#[test]
fn grade_c_tests_fail() {
    assert_eq!(compute_grade(true, true, false, true), "C");
}

#[test]
fn grade_d_build_fails() {
    assert_eq!(compute_grade(true, true, true, false), "D");
}

#[test]
fn grade_f_no_commit() {
    assert_eq!(compute_grade(false, true, true, true), "F");
}

#[test]
fn parse_numstat_basic() {
    let input = "10\t3\tsrc/main.rs\n5\t0\tsrc/lib.rs\n";
    let stats = parse_numstat(input);
    assert_eq!(stats.files_changed, 2);
    assert_eq!(stats.lines_added, 15);
    assert_eq!(stats.lines_removed, 3);
}

#[test]
fn parse_numstat_empty() {
    let stats = parse_numstat("");
    assert_eq!(stats.files_changed, 0);
    assert_eq!(stats.lines_added, 0);
    assert_eq!(stats.lines_removed, 0);
}

#[test]
fn parse_numstat_binary() {
    let input = "-\t-\timage.png\n5\t2\tsrc/app.rs\n";
    let stats = parse_numstat(input);
    assert_eq!(stats.files_changed, 2);
    assert_eq!(stats.lines_added, 5);
    assert_eq!(stats.lines_removed, 2);
}

#[test]
fn detect_cargo_test_runner() {
    let files = RepoFiles { has_cargo_toml: true, ..no_files() };
    let runner = detect_test_runner(&files);
    assert_eq!(runner, Some(vec!["cargo".to_string(), "test".to_string()]));
}

#[test]
fn detect_go_test_runner() {
    let files = RepoFiles { has_go_mod: true, ..no_files() };
    let runner = detect_test_runner(&files);
    assert_eq!(
        runner,
        Some(vec![
            "go".to_string(),
            "test".to_string(),
            "./...".to_string()
        ])
    );
}

#[test]
fn detect_python_test_runner() {
    let files = RepoFiles { has_pyproject_toml: true, ..no_files() };
    let runner = detect_test_runner(&files);
    assert_eq!(
        runner,
        Some(vec![
            "python".to_string(),
            "-m".to_string(),
            "pytest".to_string()
        ])
    );
}

#[test]
fn detect_npm_test_runner() {
    let files = RepoFiles {
        package_json: Some(r#"{"scripts": {"test": "vitest run"}}"#.to_string()),
        ..no_files()
    };
    let runner = detect_test_runner(&files);
    assert_eq!(runner, Some(vec!["npm".to_string(), "test".to_string()]));
}

#[test]
fn detect_pnpm_test_runner() {
    let files = RepoFiles {
        package_json: Some(r#"{"scripts": {"test": "jest"}}"#.to_string()),
        has_pnpm_lock: true,
        ..no_files()
    };
    let runner = detect_test_runner(&files);
    assert_eq!(runner, Some(vec!["pnpm".to_string(), "test".to_string()]));
}

#[test]
fn detect_yarn_test_runner() {
    let files = RepoFiles {
        package_json: Some(r#"{"scripts": {"test": "jest"}}"#.to_string()),
        has_yarn_lock: true,
        ..no_files()
    };
    let runner = detect_test_runner(&files);
    assert_eq!(runner, Some(vec!["yarn".to_string(), "test".to_string()]));
}

#[test]
fn detect_npm_placeholder_skipped() {
    let files = RepoFiles {
        package_json: Some(
            r#"{"scripts": {"test": "echo \"Error: no test specified\" && exit 1"}}"#.to_string(),
        ),
        ..no_files()
    };
    let runner = detect_test_runner(&files);
    assert!(runner.is_none());
}

#[test]
fn detect_no_test_runner() {
    let runner = detect_test_runner(&no_files());
    assert!(runner.is_none());
}

#[test]
fn evaluate_empty_dir() {
    let scores = evaluate("", None, None);
    assert!(!scores.has_commit);
    assert_eq!(scores.files_touched, 0);
    assert_eq!(scores.grade, "F");
}

#[test]
fn evaluate_scores_a_change() {
    let scores = evaluate("1\t2\ta\n", Some(true), None);
    assert!(scores.has_commit && scores.tests_existed && scores.tests_pass);
    assert!(scores.build_passes);
    assert_eq!((scores.files_touched, scores.diff_lines_added, scores.diff_lines_removed), (1, 1, 2));
    assert_eq!(scores.grade, "A");
    assert_eq!(evaluate("1\t2\ta\n", Some(false), Some(true)).grade, "C");
    assert_eq!(evaluate("1\t2\ta\n", None, Some(true)).grade, "B");
    assert_eq!(evaluate("1\t2\ta\n", Some(true), Some(false)).grade, "D");
}

#[test]
fn numstat_passes_over_short_lines_and_stops_at_the_largest_count() {
    let stats = parse_numstat("1\t2\n\n4294967295\t1\ta\n7\t4294967296\tb\r\nx");
    assert_eq!(stats.files_changed, 2);
    assert_eq!(stats.lines_added, u32::MAX);
    assert_eq!(stats.lines_removed, 1);
    let stats = parse_numstat("+3\t-1\ta\tb\tc");
    assert_eq!((stats.files_changed, stats.lines_added, stats.lines_removed), (1, 3, 0));
}

#[test]
fn commit_count_defaults_to_one() {
    assert_eq!(commit_count(" 12\n"), 12);
    assert_eq!(commit_count(""), 1);
    assert_eq!(commit_count("fatal: not a git repository"), 1);
    assert!(uses_committed_diff(2, true, "1\t1\ta"));
    assert!(!uses_committed_diff(1, true, "1\t1\ta"));
    assert!(!uses_committed_diff(2, false, "1\t1\ta"));
    assert!(!uses_committed_diff(2, true, " \n"));
}

#[test]
fn build_command_follows_the_tooling() {
    let cargo = RepoFiles { has_cargo_toml: true, ..no_files() };
    assert_eq!(detect_build_command(&cargo), Some(vec!["cargo".to_string(), "build".to_string()]));
    let go = RepoFiles { has_go_mod: true, ..no_files() };
    assert_eq!(
        detect_build_command(&go),
        Some(vec!["go".to_string(), "build".to_string(), "./...".to_string()])
    );
    let node = RepoFiles {
        package_json: Some(r#"{"scripts": {"build": "tsc"}}"#.to_string()),
        has_yarn_lock: true,
        ..no_files()
    };
    assert_eq!(
        detect_build_command(&node),
        Some(vec!["yarn".to_string(), "run".to_string(), "build".to_string()])
    );
    let python = RepoFiles { has_setup_py: true, ..no_files() };
    assert_eq!(detect_build_command(&python), None);
    let broken = RepoFiles { package_json: Some("{".to_string()), ..no_files() };
    assert_eq!(detect_build_command(&broken), None);
    assert_eq!(detect_test_runner(&broken), None);
    let number = RepoFiles {
        package_json: Some(r#"{"scripts": {"build": 1, "test": 1}}"#.to_string()),
        ..no_files()
    };
    assert_eq!(detect_build_command(&number), None);
    assert_eq!(detect_test_runner(&number), None);
}
