use fmm_bench::orchestrator::{
    branch_name, generate_job_id, issue_task_id, job_id_at, short_sha, should_store,
    task_source, CompareOptions, TaskSource,
};
use fmm_bench::report::ReportFormat;
use fmm_bench::sandbox::validate_job_id;

#[test]
fn test_job_id_generation() {
    let id1 = generate_job_id();

    assert!(id1.starts_with("cmp-"));
    assert!(!id1.is_empty());
    assert!(id1.len() > 10);
}

#[test]
fn test_job_id_format_safe_for_paths() {
    // Job IDs should only contain path-safe characters
    for _ in 0..10 {
        let id = generate_job_id();
        assert!(
            id.chars()
                .all(|c| c.is_ascii_alphanumeric() || c == '-' || c == '_'),
            "Job ID contains unsafe chars: {}",
            id
        );
    }
}

#[test]
fn test_default_options() {
    let opts = CompareOptions::default();
    assert_eq!(opts.runs, 1);
    assert_eq!(f64::from_bits(opts.max_budget_bits), 10.0);
    assert!(opts.use_cache);
    assert!(!opts.quick);
    assert_eq!(opts.task_set, "standard");
    assert_eq!(opts.model, "sonnet");
}

#[test]
fn job_id_is_made_of_the_time() {
    assert_eq!(job_id_at(0, 0), "cmp-0-0000");
    assert_eq!(job_id_at(255, 1_000), "cmp-ff-0001");
    // 999_999 microseconds modulo 65536 is 16959, 0x423f
    assert_eq!(job_id_at(0x65a1b2c3, 999_999_999), "cmp-65a1b2c3-423f");
    assert_eq!(job_id_at(u64::MAX, 65_536_000), "cmp-ffffffffffffffff-0000");
    assert!(validate_job_id(&job_id_at(u64::MAX, u32::MAX)).is_ok());
    assert!(validate_job_id(&generate_job_id()).is_ok());
}

#[test]
fn small_choices() {
    assert_eq!(short_sha("abc123def456"), "abc123de");
    assert_eq!(short_sha("abc"), "abc");
    assert_eq!(issue_task_id(42), "issue-42");
    assert!(should_store(true, true));
    assert!(!should_store(true, false));
    assert!(!should_store(false, true));
    assert_eq!(branch_name(&None), "main");
    assert_eq!(branch_name(&Some("dev".to_string())), "dev");
    let mut opts = CompareOptions::new();
    assert_eq!(opts.format, ReportFormat::Both);
    assert_eq!(task_source(&opts), TaskSource::Standard);
    opts.task_set = "quick".to_string();
    assert_eq!(task_source(&opts), TaskSource::Quick);
    opts.task_set = "tasks.json".to_string();
    assert_eq!(task_source(&opts), TaskSource::File);
    opts.quick = true;
    assert_eq!(task_source(&opts), TaskSource::Quick);
}
