use fmm_bench::tasks::{default_max_budget, default_max_turns, TaskCategory, TaskSet};

#[test]
fn test_standard_task_set() {
    let tasks = TaskSet::standard();
    assert_eq!(tasks.name, "standard");
    assert!(!tasks.tasks.is_empty());
}

#[test]
fn test_quick_task_set() {
    let tasks = TaskSet::quick();
    assert_eq!(tasks.name, "quick");
    assert!(tasks.tasks.len() < TaskSet::standard().tasks.len());
}

#[test]
fn task_sets_hold_the_built_in_tasks() {
    let standard = TaskSet::standard();
    let ids: Vec<&str> = standard.tasks.iter().map(|t| t.id.as_str()).collect();
    assert_eq!(ids, vec!["find_entry", "architecture", "find_export", "dependencies", "file_count"]);
    assert_eq!(standard.tasks[1].max_turns, 15);
    assert_eq!(f64::from_bits(standard.tasks[1].max_budget_usd_bits), 1.5);
    assert_eq!(f64::from_bits(standard.tasks[0].max_budget_usd_bits), 1.0);
    assert_eq!(standard.tasks[2].category, TaskCategory::Exports);
    assert_eq!(standard.tasks[2].expected_patterns, vec!["export", "public"]);
    assert_eq!(
        standard.tasks[4].prompt,
        "How many source files are in this project? Provide a breakdown by file type or module."
    );
    let quick = TaskSet::quick();
    assert_eq!(quick.tasks.len(), 2);
    assert_eq!(quick.tasks[1].name, "Architecture Overview");
    assert_eq!(quick.description, "Quick benchmark with fewer tasks");
}

#[test]
fn defaults_and_names() {
    assert_eq!(default_max_turns(), 20);
    assert_eq!(f64::from_bits(default_max_budget()), 2.0);
    assert_eq!(TaskCategory::Exploration.to_string(), "exploration");
    assert_eq!(TaskCategory::Understanding.to_string(), "understanding");
    assert_eq!(TaskCategory::Dependencies.to_string(), "dependencies");
    assert_eq!(TaskCategory::Exports.as_str(), "exports");
}
