use fmm_bench::cache::{
    entry_file_name, is_entry_file, is_repo_file, report_file_name, report_id, simple_hash,
    total_size, validate_path_component, CacheError, CacheFile, CacheKey, CacheManager,
    CachedResult, DiskOutcome, DiskRead, PathError,
};
use fmm_bench::clock::{
    has_expired, is_expired_at, now, timestamp, Instant, FIRST_SECOND, LAST_SECOND,
};
use fmm_bench::metrics::RunMetrics;
use fmm_bench::runner::RunResult;

fn create_test_result(task_id: &str, variant: &str) -> RunResult {
    let mut m = RunMetrics::new();
    m.tool_calls = 5;
    m.read_calls = 3;
    m.input_tokens = 1000;
    m.output_tokens = 500;
    m.cost_usd_bits = 0.01f64.to_bits();
    m.duration_ms = 1000;
    m.turns = 2;
    m.success = true;
    RunResult::from_metrics(m, "test".to_string(), task_id, variant)
}

fn at(secs: i64) -> Instant {
    Instant { secs, nanos: 0 }
}

fn file(name: &str, modified: i64, size: u64) -> CacheFile {
    CacheFile { name: name.to_string(), modified: at(modified), size }
}

#[test]
fn test_cache_set_and_get() {
    let mut cache = CacheManager::new();

    let key = CacheKey::new("https://github.com/test/repo", "abc123", "task1", "control");
    let result = create_test_result("task1", "control");

    cache.set(key.clone(), result.clone()).unwrap();

    let retrieved = cache.get(&key).unwrap();
    assert_eq!(retrieved.task_id, result.task_id);
    assert_eq!(retrieved.tool_calls, result.tool_calls);
}

#[test]
fn test_cache_key_filename() {
    let key = CacheKey::new("https://github.com/test/repo", "abc123", "task1", "fmm");
    let filename = key.to_filename();
    assert!(filename.contains("abc123"));
    assert!(filename.contains("task1"));
    assert!(filename.contains("fmm"));
}

#[test]
fn test_cache_miss() {
    let cache = CacheManager::new();

    let key = CacheKey::new("https://github.com/test/repo", "abc123", "task1", "control");
    assert!(cache.get(&key).is_none());
}

#[test]
fn test_cache_expiration() {
    let mut cache = CacheManager::new().with_ttl(0);

    let key = CacheKey::new("https://github.com/test/repo", "abc123", "task1", "control");
    let result = create_test_result("task1", "control");

    let stored_at = Instant { secs: 1_700_000_000, nanos: 5 };
    let index = cache.set_at(key.clone(), result, stored_at).unwrap();
    let entry = cache.entry(index).unwrap().clone();

    let later = Instant { secs: 1_700_000_000, nanos: 10_000_005 };
    assert!(cache.get_at(&key, later).is_none());
    assert!(cache.get_at(&key, stored_at).is_some());

    // an entry read back from disk is stale too, and is not taken
    let mut fresh = CacheManager::new();
    assert_eq!(
        fresh.resolve_at(key.clone(), DiskRead::Entry(entry.clone()), later),
        DiskOutcome::Stale
    );
    assert_eq!(fresh.resolve(key.clone(), DiskRead::Entry(entry)), DiskOutcome::Stale);
    assert!(fresh.get_at(&key, later).is_none());
    assert_eq!(fresh.len(), 0);
}

#[test]
fn test_cache_clear_repo_exact_match() {
    let mut cache = CacheManager::new();

    let key1 = CacheKey::new("https://github.com/test/foo", "abc", "t1", "control");
    let key2 = CacheKey::new("https://github.com/test/foobar", "abc", "t1", "control");

    cache
        .set(key1.clone(), create_test_result("t1", "control"))
        .unwrap();
    cache
        .set(key2.clone(), create_test_result("t1", "control"))
        .unwrap();

    // Clear "foo" should NOT clear "foobar" (exact match)
    let prefix = cache.clear_repo("https://github.com/test/foo");

    assert!(cache.contains_key(&key2));
    assert!(!cache.contains_key(&key1));
    assert_eq!(prefix, simple_hash("https://github.com/test/foo"));
    assert!(key1.to_filename().starts_with(&prefix));
}

#[test]
fn test_cache_clear_all() {
    let mut cache = CacheManager::new();

    for i in 0..5 {
        let key = CacheKey::new(
            "https://github.com/test/repo",
            &format!("sha{}", i),
            "t1",
            "control",
        );
        cache.set(key, create_test_result("t1", "control")).unwrap();
    }
    assert_eq!(cache.len(), 5);

    cache.clear_all();
    assert_eq!(cache.len(), 0);
}

#[test]
fn test_cache_eviction() {
    let mut cache = CacheManager::new().with_max_size(0);

    let key = CacheKey::new("https://github.com/test/repo", "abc", "t1", "control");
    // This should not panic even with 0 MB limit
    cache.set(key.clone(), create_test_result("t1", "control")).unwrap();

    let name = entry_file_name(&key);
    let plan = cache.eviction_plan(300, vec![file(&name, 10, 300)]);
    assert_eq!(plan.len(), 1);
    assert_eq!(plan[0].name, name);
    // nothing on disk, nothing to evict
    assert!(cache.eviction_plan(0, vec![]).is_empty());
}

#[test]
fn test_validate_path_component_valid() {
    assert!(validate_path_component("cmp-abc123-0f3a").is_ok());
    assert!(validate_path_component("simple_id").is_ok());
    assert!(validate_path_component("abc123").is_ok());
}

#[test]
fn test_validate_path_component_traversal() {
    assert!(validate_path_component("../etc/passwd").is_err());
    assert!(validate_path_component("foo/../bar").is_err());
}

#[test]
fn test_validate_path_component_empty() {
    assert!(validate_path_component("").is_err());
}

#[test]
fn test_validate_path_component_special_chars() {
    assert!(validate_path_component("foo/bar").is_err());
    assert!(validate_path_component("foo bar").is_err());
    assert!(validate_path_component("foo;bar").is_err());
}

#[test]
fn test_save_report_rejects_traversal_job_id() {
    assert!(report_file_name("../../../etc/evil").is_err());
}

#[test]
fn test_load_report_rejects_traversal_job_id() {
    assert!(report_file_name("../../../etc/passwd").is_err());
}

#[test]
fn validator_names_the_fault() {
    assert_eq!(validate_path_component(""), Err(PathError::Empty));
    assert_eq!(validate_path_component("a.b"), Err(PathError::Invalid));
    assert_eq!(validate_path_component("\u{e9}"), Err(PathError::Invalid));
    assert_eq!(validate_path_component("A-z_09"), Ok(()));
    assert_eq!(report_file_name("test-job-123").unwrap(), "test-job-123.json");
    assert_eq!(report_file_name("").unwrap_err(), PathError::Empty);
}

#[test]
fn hash_is_sixteen_hex_digits_of_the_polynomial() {
    assert_eq!(simple_hash(""), "0000000000000000");
    assert_eq!(simple_hash("a"), "0000000000000061");
    // 97 * 31 + 98
    assert_eq!(simple_hash("ab"), "0000000000000c21");
    // order matters
    assert_ne!(simple_hash("ab"), simple_hash("ba"));
    // two bytes for one character: 0xc3, 0xa9
    assert_eq!(simple_hash("\u{e9}"), format!("{:016x}", 0xc3u64 * 31 + 0xa9));
    let mut expected = 0u64;
    for b in "https://github.com/test/repo".bytes() {
        expected = expected.wrapping_mul(31).wrapping_add(b as u64);
    }
    assert_eq!(simple_hash("https://github.com/test/repo"), format!("{:016x}", expected));
}

#[test]
fn filename_joins_hash_and_parts() {
    let key = CacheKey::new("a", "sha", "task", "fmm");
    assert_eq!(key.to_filename(), "0000000000000061_sha_task_fmm");
    assert_eq!(entry_file_name(&key), "0000000000000061_sha_task_fmm.json");
    assert!(key.matches(&CacheKey::new("a", "sha", "task", "fmm")));
    assert!(!key.matches(&CacheKey::new("a", "sha", "task", "control")));
}

#[test]
fn set_replaces_the_entry_of_the_same_key() {
    let mut cache = CacheManager::new();
    let key = CacheKey::new("r", "c", "t", "v");
    let t0 = at(1_700_000_000);
    assert_eq!(cache.set_at(key.clone(), create_test_result("t", "first"), t0), Ok(0));
    assert_eq!(cache.set_at(key.clone(), create_test_result("t", "second"), t0), Ok(0));
    assert_eq!(cache.len(), 1);
    assert_eq!(cache.get_at(&key, t0).unwrap().variant, "second");
    let other = CacheKey::new("r", "c", "t", "w");
    assert_eq!(cache.set_at(other.clone(), create_test_result("t", "third"), t0), Ok(1));
    assert_eq!(cache.get_at(&key, t0).unwrap().variant, "second");
    assert_eq!(cache.get_at(&other, t0).unwrap().variant, "third");
}

#[test]
fn stored_entry_carries_both_times() {
    let mut cache = CacheManager::new();
    let key = CacheKey::new("r", "c", "t", "v");
    let t0 = Instant { secs: 1_700_000_000, nanos: 0 };
    let index = cache.set_at(key.clone(), create_test_result("t", "v"), t0).unwrap();
    let entry = cache.entry(index).unwrap();
    assert_eq!(entry.cached_at, "2023-11-14T22:13:20+00:00");
    // seven days later
    assert_eq!(entry.expires_at, "2023-11-21T22:13:20+00:00");
    assert!(cache.entry(1).is_none());
    // fresh up to and at the instant of expiry, stale after it
    assert!(cache.get_at(&key, at(1_700_000_000 + 604_800)).is_some());
    assert!(cache.get_at(&key, at(1_700_000_000 + 604_801)).is_none());
}

#[test]
fn promote_takes_a_fresh_entry_under_the_asked_key() {
    let mut cache = CacheManager::new();
    let asked = CacheKey::new("r", "c", "t", "v");
    let entry = CachedResult {
        key: CacheKey::new("other", "c", "t", "v"),
        result: create_test_result("t", "v"),
        cached_at: "2023-11-14T22:13:20+00:00".to_string(),
        expires_at: "2023-11-21T22:13:20+00:00".to_string(),
    };
    assert_eq!(
        cache.resolve_at(asked.clone(), DiskRead::Entry(entry), at(1_700_000_001)),
        DiskOutcome::Hit(0)
    );
    assert!(cache.contains_key(&asked));
    assert_eq!(cache.get_at(&asked, at(1_700_000_001)).unwrap().task_id, "t");
}

#[test]
fn entry_with_unreadable_expiry_has_expired() {
    assert!(is_expired_at("not a time", at(0)));
    assert!(is_expired_at("", at(i64::MIN)));
    assert!(!is_expired_at("2023-11-14T22:13:20+00:00", at(1_700_000_000)));
    assert!(is_expired_at("2023-11-14T22:13:20+00:00", Instant { secs: 1_700_000_000, nanos: 1 }));
    // the same instant in another zone
    assert!(!is_expired_at("2023-11-14T23:13:20+01:00", at(1_700_000_000)));
}

#[test]
fn set_reports_times_out_of_range() {
    let mut cache = CacheManager::new().with_ttl(u64::MAX);
    let key = CacheKey::new("r", "c", "t", "v");
    assert_eq!(
        cache.set_at(key.clone(), create_test_result("t", "v"), at(1)),
        Err(CacheError::TtlOutOfRange)
    );
    let mut cache = CacheManager::new();
    assert_eq!(
        cache.set_at(key.clone(), create_test_result("t", "v"), at(i64::MAX - 604_800)),
        Err(CacheError::TimeOutOfRange)
    );
    assert_eq!(cache.len(), 0);
}

#[test]
fn instants_round_trip_through_text() {
    let t = Instant { secs: 1_700_000_000, nanos: 123_000_000 };
    let mut cache = CacheManager::new().with_ttl(0);
    let key = CacheKey::new("r", "c", "t", "v");
    let index = cache.set_at(key, create_test_result("t", "v"), t).unwrap();
    let text = cache.entry(index).unwrap().expires_at.clone();
    assert_eq!(text, "2023-11-14T22:13:20.123+00:00");
    assert!(!is_expired_at(&text, t));
    assert!(is_expired_at(&text, Instant { secs: 1_700_000_000, nanos: 123_000_001 }));
    assert!(!is_expired_at(&text, Instant { secs: 1_700_000_000, nanos: 122_999_999 }));
    assert!(has_expired(None, t));
    assert!(has_expired(Some(t), Instant { secs: 1_700_000_001, nanos: 0 }));
    assert!(!has_expired(Some(t), Instant { secs: 1_699_999_999, nanos: 999_999_999 }));
    assert!(t.after(&Instant { secs: 1_700_000_000, nanos: 0 }));
    assert!(!t.after(&t));
    assert_eq!(t.checked_add_secs(5), Some(Instant { secs: 1_700_000_005, nanos: 123_000_000 }));
    assert_eq!(at(i64::MAX).checked_add_secs(1), None);
    assert_eq!(at(-5).checked_add_secs(u64::MAX), None);
    assert_eq!(at(-5).checked_add_secs(i64::MAX as u64 + 5), Some(at(i64::MAX)));
}

#[test]
fn insert_keeps_one_entry_per_key() {
    let mut cache = CacheManager::new();
    let entry = CachedResult {
        key: CacheKey::new("r", "c", "t", "v"),
        result: create_test_result("t", "v"),
        cached_at: "2023-11-14T22:13:20+00:00".to_string(),
        expires_at: "2023-11-21T22:13:20+00:00".to_string(),
    };
    assert_eq!(cache.insert(entry.clone()), 0);
    assert_eq!(cache.insert(entry), 0);
    assert_eq!(cache.len(), 1);
}

#[test]
fn eviction_takes_the_oldest_until_four_fifths_of_the_cap() {
    let cache = CacheManager::new().with_max_size(1);
    // within the cap of 1_000_000 bytes: nothing goes
    let files = vec![file("a", 3, 400_000), file("b", 1, 400_000), file("c", 2, 200_000)];
    assert!(cache.eviction_plan(1_000_000, files.clone()).is_empty());
    // beyond it: oldest first, down to 800_000
    let plan = cache.eviction_plan(1_000_001, files.clone());
    let names: Vec<&str> = plan.iter().map(|f| f.name.as_str()).collect();
    assert_eq!(names, vec!["b"]);
    let plan = cache.eviction_plan(1_300_000, files.clone());
    let names: Vec<&str> = plan.iter().map(|f| f.name.as_str()).collect();
    assert_eq!(names, vec!["b", "c"]);
    // files of the same age go in the order listed
    let ties = vec![file("x", 5, 1), file("y", 5, 1), file("z", 4, 1)];
    let plan = cache.eviction_plan(u64::MAX, ties);
    let names: Vec<&str> = plan.iter().map(|f| f.name.as_str()).collect();
    assert_eq!(names, vec!["z", "x", "y"]);
}

#[test]
fn eviction_under_a_cap_of_zero_stops_at_zero() {
    let cache = CacheManager::new().with_max_size(0);
    let files = vec![file("a", 1, 10), file("b", 2, 10), file("c", 3, 10)];
    // 20 bytes are known of: two files bring the count to 0
    let plan = cache.eviction_plan(20, files.clone());
    assert_eq!(plan.len(), 2);
    let plan = cache.eviction_plan(31, files);
    assert_eq!(plan.len(), 3);
}

#[test]
fn directory_size_is_the_sum() {
    assert_eq!(total_size(&vec![]), 0);
    assert_eq!(total_size(&vec![1, 2, 3]), 6);
    assert_eq!(total_size(&vec![u64::MAX, 1]), u64::MAX);
}

#[test]
fn entry_files_end_in_json() {
    assert!(is_entry_file("a.json"));
    assert!(is_entry_file("..json"));
    assert!(!is_entry_file(".json"));
    assert!(!is_entry_file("a.txt"));
    assert!(!is_entry_file("json"));
}

#[test]
fn new_cache_has_the_defaults() {
    let mut cache = CacheManager::new();
    let key = CacheKey::new("r", "c", "t", "v");
    let index = cache.set_at(key, create_test_result("t", "v"), at(0)).unwrap();
    assert_eq!(cache.entry(index).unwrap().expires_at, "1970-01-08T00:00:00+00:00");
    // 100 megabytes
    assert!(cache.eviction_plan(100_000_000, vec![file("a", 1, 1)]).is_empty());
    assert_eq!(cache.eviction_plan(100_000_001, vec![file("a", 1, 1)]).len(), 1);
}

#[test]
fn test_cache_disk_persistence() {
    let key = CacheKey::new("https://github.com/test/repo", "abc123", "task1", "control");
    let result = create_test_result("task1", "control");

    // one session stores the result
    let written = {
        let mut cache = CacheManager::new();
        let index = cache.set(key.clone(), result).unwrap();
        cache.entry(index).unwrap().clone()
    };

    // a fresh session has nothing in memory and takes the entry off the disk
    let mut cache = CacheManager::new();
    assert!(cache.get(&key).is_none());
    assert_eq!(cache.resolve(key.clone(), DiskRead::Entry(written)), DiskOutcome::Hit(0));
    let retrieved = cache.get(&key).unwrap();
    assert_eq!(retrieved.task_id, "task1");
    assert_eq!(retrieved.tool_calls, 5);
}

#[test]
fn unreadable_and_missing_files_are_misses() {
    let mut cache = CacheManager::new();
    let key = CacheKey::new("r", "c", "t", "v");
    assert_eq!(cache.resolve_at(key.clone(), DiskRead::Missing, at(0)), DiskOutcome::Miss);
    assert_eq!(cache.resolve_at(key.clone(), DiskRead::Unreadable, at(0)), DiskOutcome::Miss);
    assert_eq!(cache.resolve(key.clone(), DiskRead::Unreadable), DiskOutcome::Miss);
    assert_eq!(cache.len(), 0);
    let broken = CachedResult {
        key: key.clone(),
        result: create_test_result("t", "v"),
        cached_at: "2023-11-14T22:13:20+00:00".to_string(),
        expires_at: "soon".to_string(),
    };
    assert_eq!(cache.resolve_at(key, DiskRead::Entry(broken), at(0)), DiskOutcome::Stale);
}

#[test]
fn files_are_told_by_their_names() {
    let key = CacheKey::new("https://github.com/test/foo", "abc", "t1", "control");
    let name = entry_file_name(&key);
    assert!(is_repo_file(&name, "https://github.com/test/foo"));
    assert!(!is_repo_file(&name, "https://github.com/test/foobar"));
    assert!(!is_repo_file("", "x"));
    assert_eq!(report_id("job-1.json"), "job-1");
    assert_eq!(report_id("job-1"), "job-1");
    assert_eq!(report_id(".json"), ".json");
    assert_eq!(report_id("a.b.json"), "a.b");
    assert_eq!(report_id(".."), "..");
    assert_eq!(report_id("a."), "a");
    assert_eq!(report_id(""), "");
}

#[test]
fn file_names_are_safe_for_every_key() {
    let hostile = [
        "a/b",
        "..",
        "../../etc/passwd",
        "a\\b",
        "",
        "with space",
        "semi;colon",
        "under_score",
        "\u{e9}t\u{e9}",
        "\u{10ffff}",
        "\0",
        ".",
    ];
    for commit in hostile {
        for task in hostile {
            let key = CacheKey::new("https://github.com/test/repo", commit, task, "v/../w");
            let name = key.to_filename();
            assert!(validate_path_component(&name).is_ok(), "{:?}", name);
            let file = entry_file_name(&key);
            assert!(!file.contains('/') && !file.contains('\\') && !file.contains(".."));
            assert!(is_entry_file(&file));
            assert!(is_repo_file(&file, "https://github.com/test/repo"));
            assert_eq!(name, key.to_filename());
        }
    }
}

#[test]
fn file_names_escape_what_is_not_a_letter_digit_or_hyphen() {
    let name = |commit: &str, task: &str, variant: &str| {
        CacheKey::new("a", commit, task, variant).to_filename()
    };
    assert_eq!(name("abc123", "issue-42", "fmm"), "0000000000000061_abc123_issue-42_fmm");
    assert_eq!(name("a/b", "t", "v"), "0000000000000061_a_00002fb_t_v");
    assert_eq!(name("..", "t", "v"), "0000000000000061__00002e_00002e_t_v");
    assert_eq!(name("c", "find_entry", "v"), "0000000000000061_c_find_00005fentry_v");
    assert_eq!(name("c", "t", "\u{e9}"), "0000000000000061_c_t__0000e9");
    assert_eq!(name("c", "t", "\u{10ffff}"), "0000000000000061_c_t__10ffff");
    assert_eq!(name("", "", ""), "0000000000000061___");
}

#[test]
fn one_changed_part_changes_the_file_name() {
    let parts = ["a", "a_", "a/", "_00002f", "/", "a-b", "a_b", "", "-", "A", "\u{e9}"];
    for x in parts {
        for y in parts {
            if x == y {
                continue;
            }
            let base = CacheKey::new("r", "c", "t", "v").to_filename();
            assert_ne!(
                CacheKey::new("r", x, "t", "v").to_filename(),
                CacheKey::new("r", y, "t", "v").to_filename()
            );
            assert_ne!(
                CacheKey::new("r", "c", x, "v").to_filename(),
                CacheKey::new("r", "c", y, "v").to_filename()
            );
            assert_ne!(
                CacheKey::new("r", "c", "t", x).to_filename(),
                CacheKey::new("r", "c", "t", y).to_filename()
            );
            assert_eq!(base, CacheKey::new("r", "c", "t", "v").to_filename());
        }
    }
}

#[test]
fn a_store_succeeds_exactly_where_both_times_have_a_date() {
    let key = CacheKey::new("r", "c", "t", "v");
    let store = |ttl: u64, at: Instant| {
        CacheManager::new().with_ttl(ttl).set_at(key.clone(), create_test_result("t", "v"), at)
    };
    // the last and the first second with a date
    assert_eq!(store(0, at(LAST_SECOND)), Ok(0));
    assert_eq!(store(0, at(LAST_SECOND + 1)), Err(CacheError::TimeOutOfRange));
    assert_eq!(store(1, at(LAST_SECOND)), Err(CacheError::TimeOutOfRange));
    assert_eq!(store(604_800, at(LAST_SECOND - 604_800)), Ok(0));
    assert_eq!(store(0, at(FIRST_SECOND)), Ok(0));
    assert_eq!(store(0, at(FIRST_SECOND - 1)), Err(CacheError::TimeOutOfRange));
    // a time without a date fails as that, whatever the time to live
    assert_eq!(store(u64::MAX, at(i64::MAX)), Err(CacheError::TimeOutOfRange));
    assert_eq!(store(u64::MAX, at(LAST_SECOND)), Err(CacheError::TtlOutOfRange));
    assert_eq!(
        store(i64::MAX as u64 - LAST_SECOND as u64, at(LAST_SECOND)),
        Err(CacheError::TimeOutOfRange)
    );
    assert_eq!(
        store(i64::MAX as u64 - LAST_SECOND as u64 + 1, at(LAST_SECOND)),
        Err(CacheError::TtlOutOfRange)
    );
    // nanoseconds of a second or more stand for a leap second
    assert_eq!(store(0, Instant { secs: 59, nanos: 1_999_999_999 }), Ok(0));
    assert_eq!(store(0, Instant { secs: -1, nanos: 1_000_000_000 }), Ok(0));
    assert_eq!(
        store(0, Instant { secs: 60, nanos: 1_000_000_000 }),
        Err(CacheError::TimeOutOfRange)
    );
    assert_eq!(
        store(0, Instant { secs: 59, nanos: 2_000_000_000 }),
        Err(CacheError::TimeOutOfRange)
    );
    assert_eq!(store(0, Instant { secs: 60, nanos: 999_999_999 }), Ok(0));
}

#[test]
fn the_clock_is_read_without_fail() {
    let reading = now();
    assert!(reading.secs > 1_600_000_000);
    assert!(timestamp().unwrap().starts_with("20"));
    let stored_at = |secs: i64| {
        let mut cache = CacheManager::new().with_ttl(0);
        let key = CacheKey::new("r", "c", "t", "v");
        let index = cache.set_at(key, create_test_result("t", "v"), at(secs)).unwrap();
        cache.entry(index).unwrap().cached_at.clone()
    };
    assert_eq!(stored_at(0), "1970-01-01T00:00:00+00:00");
    assert_eq!(stored_at(LAST_SECOND), "+262142-12-31T23:59:59+00:00");
    assert_eq!(stored_at(FIRST_SECOND), "-262143-01-01T00:00:00+00:00");
    assert!(reading.nanos < 1_000_000_000);
    let mut cache = CacheManager::new();
    let key = CacheKey::new("r", "c", "t", "v");
    assert_eq!(cache.set(key.clone(), create_test_result("t", "v")), Ok(0));
    assert!(cache.get(&key).is_some());
}
