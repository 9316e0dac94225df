use fmm_bench::metrics::{count_for, parse_stream_json};
use fmm_bench::runner::{
    finish_run, join_words, ClaudeRunner, RunResult, RunnerError, MAX_CONTEXT_SIZE,
    MAX_PROMPT_SIZE,
};
use fmm_bench::tasks::{Task, TaskCategory};

fn task(prompt: String) -> Task {
    Task {
        id: "t".to_string(),
        name: "T".to_string(),
        prompt,
        category: TaskCategory::Exploration,
        expected_patterns: vec![],
        max_turns: 1,
        max_budget_usd_bits: 0.01f64.to_bits(),
    }
}

#[test]
fn test_runner_creation() {
    let runner = ClaudeRunner::new();
    assert!(!runner.allowed_tools.is_empty());
}

#[test]
fn test_parse_stream_json_tool_calls() {
    let output = r#"{"type":"assistant","message":{"content":[{"type":"tool_use","name":"Read","input":{"file_path":"src/main.rs"}},{"type":"tool_use","name":"Glob","input":{"pattern":"**/*.ts"}}]}}
{"type":"result","is_error":false,"result":"done","usage":{"input_tokens":500,"output_tokens":200,"cache_read_input_tokens":50},"total_cost_usd":0.005,"num_turns":1,"duration_ms":1200}"#;

    let parsed = parse_stream_json(output, 1200);
    let result = RunResult::from_metrics(parsed.metrics, parsed.response_text, "test", "control");

    assert_eq!(result.tool_calls, 2);
    assert_eq!(count_for(&result.tools_by_name, "Read"), Some(1));
    assert_eq!(count_for(&result.tools_by_name, "Glob"), Some(1));
    assert_eq!(result.read_calls, 1);
    assert_eq!(result.files_accessed, vec!["src/main.rs"]);
    assert_eq!(result.input_tokens, 500);
    assert_eq!(result.output_tokens, 200);
    assert_eq!(result.cache_read_tokens, 50);
    assert!((f64::from_bits(result.total_cost_usd_bits) - 0.005).abs() < f64::EPSILON);
    assert!(result.success);
    assert!(result.error.is_none());
}

#[test]
fn test_parse_stream_json_multiple_tool_types() {
    let output = r#"{"type":"assistant","message":{"content":[{"type":"tool_use","name":"Read","input":{"file_path":"a.rs"}},{"type":"tool_use","name":"Read","input":{"file_path":"b.rs"}},{"type":"tool_use","name":"Grep","input":{"pattern":"foo"}}]}}
{"type":"assistant","message":{"content":[{"type":"tool_use","name":"Glob","input":{"pattern":"*.rs"}}]}}
{"type":"result","is_error":false,"usage":{"input_tokens":100,"output_tokens":50},"total_cost_usd":0.001,"num_turns":2,"duration_ms":500}"#;

    let parsed = parse_stream_json(output, 500);
    let result = RunResult::from_metrics(parsed.metrics, parsed.response_text, "multi", "fmm");

    assert_eq!(result.tool_calls, 4);
    assert_eq!(count_for(&result.tools_by_name, "Read"), Some(2));
    assert_eq!(count_for(&result.tools_by_name, "Grep"), Some(1));
    assert_eq!(count_for(&result.tools_by_name, "Glob"), Some(1));
    assert_eq!(result.read_calls, 2);
    assert_eq!(result.files_accessed.len(), 2);
    assert!(result.files_accessed.contains(&"a.rs".to_string()));
    assert!(result.files_accessed.contains(&"b.rs".to_string()));
    assert_eq!(result.num_turns, 2);
}

#[test]
fn test_parse_stream_json_error_result() {
    let output = r#"{"type":"result","is_error":true,"subtype":"budget_exceeded","usage":{"input_tokens":100,"output_tokens":50},"total_cost_usd":2.0,"num_turns":5,"duration_ms":10000}"#;

    let parsed = parse_stream_json(output, 10000);
    let result = RunResult::from_metrics(parsed.metrics, parsed.response_text, "fail", "control");

    assert!(!result.success);
    assert_eq!(result.error.as_deref(), Some("budget_exceeded"));
    assert!((f64::from_bits(result.total_cost_usd_bits) - 2.0).abs() < f64::EPSILON);
}

#[test]
fn test_parse_stream_json_no_result_event() {
    let output = r#"{"type":"assistant","message":{"content":[{"type":"text","text":"Hello"}]}}"#;

    let parsed = parse_stream_json(output, 100);
    let result =
        RunResult::from_metrics(parsed.metrics, parsed.response_text, "noresult", "control");

    assert!(!result.success);
    assert_eq!(result.tool_calls, 0);
}

#[test]
fn test_parse_stream_json_malformed_lines() {
    let output = "not valid json\n{broken\n\n{\"type\":\"result\",\"is_error\":false,\"usage\":{\"input_tokens\":10,\"output_tokens\":5},\"total_cost_usd\":0.001,\"num_turns\":1,\"duration_ms\":100}";

    let parsed = parse_stream_json(output, 100);
    let result =
        RunResult::from_metrics(parsed.metrics, parsed.response_text, "malformed", "control");

    assert!(result.success);
    assert_eq!(result.input_tokens, 10);
}

#[test]
fn test_parse_stream_json_text_response() {
    let output = r#"{"type":"assistant","message":{"content":[{"type":"text","text":"The entry point is main.rs"}]}}
{"type":"result","is_error":false,"usage":{"input_tokens":50,"output_tokens":30},"total_cost_usd":0.001,"num_turns":1,"duration_ms":100}"#;

    let parsed = parse_stream_json(output, 100);
    let result = RunResult::from_metrics(parsed.metrics, parsed.response_text, "text", "fmm");

    assert_eq!(result.response, "The entry point is main.rs");
    assert!(result.success);
}

#[test]
fn test_parse_stream_json_empty_output() {
    let parsed = parse_stream_json("", 0);
    let result = RunResult::from_metrics(parsed.metrics, parsed.response_text, "empty", "control");

    assert!(!result.success);
    assert_eq!(result.tool_calls, 0);
    assert_eq!(result.input_tokens, 0);
}

#[test]
fn test_parse_stream_json_view_tracked_as_read() {
    let output = r#"{"type":"assistant","message":{"content":[{"type":"tool_use","name":"View","input":{"path":"src/lib.rs"}}]}}
{"type":"result","is_error":false,"usage":{"input_tokens":10,"output_tokens":5},"total_cost_usd":0.001,"num_turns":1,"duration_ms":100}"#;

    let parsed = parse_stream_json(output, 100);
    let result = RunResult::from_metrics(parsed.metrics, parsed.response_text, "view", "control");

    assert_eq!(result.read_calls, 1);
    assert_eq!(result.files_accessed, vec!["src/lib.rs"]);
}

#[test]
fn test_prompt_size_limit() {
    let runner = ClaudeRunner::new();
    let big_prompt = "x".repeat(MAX_PROMPT_SIZE + 1);
    let err = runner.arguments(&task(big_prompt), "0.01", None).unwrap_err();
    assert_eq!(err, RunnerError::PromptTooLarge);
}

#[test]
fn test_context_size_limit() {
    let runner = ClaudeRunner::new();
    let big_context = "y".repeat(MAX_CONTEXT_SIZE + 1);
    let err = runner
        .arguments(&task("small prompt".to_string()), "0.01", Some(&big_context))
        .unwrap_err();
    assert_eq!(err, RunnerError::ContextTooLarge);
}

#[test]
fn size_limits_count_bytes_and_are_inclusive() {
    let runner = ClaudeRunner::new();
    assert!(runner.arguments(&task("x".repeat(MAX_PROMPT_SIZE)), "1", None).is_ok());
    // 51_201 characters of two bytes each
    let wide = "\u{e9}".repeat(MAX_PROMPT_SIZE / 2 + 1);
    assert_eq!(
        runner.arguments(&task(wide), "1", None).unwrap_err(),
        RunnerError::PromptTooLarge
    );
    let context = "y".repeat(MAX_CONTEXT_SIZE);
    assert!(runner.arguments(&task("p".to_string()), "1", Some(&context)).is_ok());
}

#[test]
fn arguments_are_in_order() {
    let mut runner = ClaudeRunner::new();
    runner.set_model("opus");
    let mut t = task("do it".to_string());
    t.max_turns = 15;
    let args = runner.arguments(&t, "1.5", None).unwrap();
    assert_eq!(
        args,
        vec![
            "-p",
            "do it",
            "--output-format",
            "stream-json",
            "--verbose",
            "--max-turns",
            "15",
            "--max-budget-usd",
            "1.5",
            "--model",
            "opus",
            "--allowedTools",
            "Read,Glob,Grep,LS,Edit,Write,Bash",
            "--setting-sources",
            "",
            "--dangerously-skip-permissions",
            "--no-session-persistence",
        ]
    );
    let mut local = ClaudeRunner::with_local_settings();
    local.allowed_tools.clear();
    local.skip_permissions = false;
    let args = local.arguments(&t, "2", Some("ctx")).unwrap();
    assert_eq!(
        args,
        vec![
            "-p",
            "do it",
            "--output-format",
            "stream-json",
            "--verbose",
            "--max-turns",
            "15",
            "--max-budget-usd",
            "2",
            "--model",
            "sonnet",
            "--setting-sources",
            "local",
            "--append-system-prompt",
            "ctx",
            "--no-session-persistence",
        ]
    );
    assert_eq!(ClaudeRunner::default().model, "sonnet");
    assert_eq!(join_words(&vec![], ","), "");
    assert_eq!(join_words(&vec!["a".to_string()], ","), "a");
    assert_eq!(join_words(&vec!["a".to_string(), "".to_string(), "b".to_string()], ", "), "a, , b");
}

#[test]
fn failed_run_without_transcript_keeps_stderr() {
    let r = finish_run(false, "", "boom", 42, Some(2), "task", "fmm");
    assert!(!r.success);
    assert_eq!(r.error.as_deref(), Some("boom"));
    assert_eq!(r.duration_ms, 42);
    assert_eq!(r.response, "");
    assert_eq!((r.task_id.as_str(), r.variant.as_str()), ("task", "fmm"));
    assert_eq!(r.tool_calls, 0);
}

#[test]
fn failed_run_with_transcript_is_no_success() {
    let ok = r#"{"type":"result","is_error":false,"num_turns":1}"#;
    let r = finish_run(false, ok, "ignored", 42, Some(3), "task", "fmm");
    assert!(!r.success);
    assert_eq!(r.error.as_deref(), Some("CLI exited with status 3"));
    assert_eq!(r.duration_ms, 42);
    let r = finish_run(false, ok, "", 42, None, "task", "fmm");
    assert_eq!(r.error.as_deref(), Some("CLI exited with status -1"));
    let r = finish_run(false, ok, "", 42, Some(i32::MIN), "task", "fmm");
    assert_eq!(r.error.as_deref(), Some("CLI exited with status -2147483648"));
    let named = r#"{"type":"result","is_error":true,"subtype":"max_turns"}"#;
    let r = finish_run(false, named, "", 42, Some(1), "task", "fmm");
    assert_eq!(r.error.as_deref(), Some("max_turns"));
    let r = finish_run(true, ok, "", 42, Some(0), "task", "fmm");
    assert!(r.success);
    assert!(r.error.is_none());
    let r = finish_run(true, "", "", 42, Some(0), "task", "fmm");
    assert!(!r.success);
    assert!(r.error.is_none());
}
