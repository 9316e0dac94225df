use fmm_bench::json::{Json, Number};
use fmm_bench::metrics::{
    count_for, decode_events, detail_for, metrics_of_events, parse_stream_json, RunMetrics,
};

#[test]
fn parse_successful_result() {
    let output = r#"{"type":"assistant","message":{"content":[{"type":"text","text":"Fixed the bug"}]}}
{"type":"result","is_error":false,"result":"Done","total_cost_usd":0.05,"num_turns":3,"usage":{"input_tokens":1000,"output_tokens":500,"cache_read_input_tokens":100,"cache_creation_input_tokens":50},"duration_ms":5000}"#;
    let parsed = parse_stream_json(output, 0);
    assert!(parsed.metrics.success);
    assert_eq!(parsed.response_text, "Fixed the bug");
    assert!((f64::from_bits(parsed.metrics.cost_usd_bits) - 0.05).abs() < f64::EPSILON);
    assert_eq!(parsed.metrics.turns, 3);
    assert_eq!(parsed.metrics.input_tokens, 1000);
    assert_eq!(parsed.metrics.output_tokens, 500);
    assert_eq!(parsed.metrics.cache_read_tokens, 100);
    assert_eq!(parsed.metrics.cache_creation_tokens, 50);
    assert_eq!(parsed.metrics.duration_ms, 5000);
}

#[test]
fn parse_error_result() {
    let output = r#"{"type":"result","is_error":true,"subtype":"budget_exceeded","total_cost_usd":5.0,"num_turns":30,"usage":{"input_tokens":10000,"output_tokens":5000},"duration_ms":60000}"#;
    let parsed = parse_stream_json(output, 0);
    assert!(!parsed.metrics.success);
    assert_eq!(parsed.metrics.error.as_deref(), Some("budget_exceeded"));
    assert!((f64::from_bits(parsed.metrics.cost_usd_bits) - 5.0).abs() < f64::EPSILON);
    assert_eq!(parsed.metrics.turns, 30);
}

#[test]
fn parse_empty_output() {
    let parsed = parse_stream_json("", 0);
    assert!(!parsed.metrics.success);
    assert_eq!(parsed.metrics.turns, 0);
}

#[test]
fn parse_malformed_lines_skipped() {
    let output = "not json\n{broken\n{\"type\":\"result\",\"is_error\":false,\"total_cost_usd\":0.01,\"num_turns\":1,\"usage\":{\"input_tokens\":10,\"output_tokens\":5},\"duration_ms\":100}";
    let parsed = parse_stream_json(output, 100);
    assert!(parsed.metrics.success);
    assert_eq!(parsed.metrics.turns, 1);
    assert_eq!(parsed.metrics.input_tokens, 10);
}

#[test]
fn parse_tool_calls() {
    let output = r#"{"type":"assistant","message":{"content":[{"type":"tool_use","name":"Read","input":{"file_path":"src/main.rs"}},{"type":"tool_use","name":"Glob","input":{"pattern":"**/*.ts"}}]}}
{"type":"result","is_error":false,"result":"done","usage":{"input_tokens":500,"output_tokens":200,"cache_read_input_tokens":50},"total_cost_usd":0.005,"num_turns":1,"duration_ms":1200}"#;

    let parsed = parse_stream_json(output, 1200);
    assert_eq!(parsed.metrics.tool_calls, 2);
    assert_eq!(count_for(&parsed.metrics.tools_by_name, "Read"), Some(1));
    assert_eq!(count_for(&parsed.metrics.tools_by_name, "Glob"), Some(1));
    assert_eq!(parsed.metrics.read_calls, 1);
    assert_eq!(parsed.metrics.files_accessed, vec!["src/main.rs"]);

    let read = detail_for(&parsed.metrics.tool_details, "Read").unwrap();
    assert_eq!(read.count, 1);
    assert_eq!(read.args, vec!["src/main.rs"]);
    let glob = detail_for(&parsed.metrics.tool_details, "Glob").unwrap();
    assert_eq!(glob.args, vec!["**/*.ts"]);
}

#[test]
fn parse_view_tracked_as_read() {
    let output = r#"{"type":"assistant","message":{"content":[{"type":"tool_use","name":"View","input":{"path":"src/lib.rs"}}]}}
{"type":"result","is_error":false,"usage":{"input_tokens":10,"output_tokens":5},"total_cost_usd":0.001,"num_turns":1,"duration_ms":100}"#;

    let parsed = parse_stream_json(output, 100);
    assert_eq!(parsed.metrics.read_calls, 1);
    assert_eq!(parsed.metrics.files_accessed, vec!["src/lib.rs"]);
}

#[test]
fn fallback_duration_used_when_no_duration_ms() {
    let output = r#"{"type":"result","is_error":false,"total_cost_usd":0.01,"num_turns":1,"usage":{"input_tokens":10,"output_tokens":5}}"#;
    let parsed = parse_stream_json(output, 9999);
    assert_eq!(parsed.metrics.duration_ms, 9999);
}

#[test]
fn navigation_efficiency_exploration_then_edit() {
    let output = r#"{"type":"assistant","message":{"content":[{"type":"tool_use","name":"Read","input":{"file_path":"src/a.rs"}}]}}
{"type":"assistant","message":{"content":[{"type":"tool_use","name":"Read","input":{"file_path":"src/b.rs"}}]}}
{"type":"assistant","message":{"content":[{"type":"tool_use","name":"Edit","input":{"file_path":"src/a.rs","old_string":"x","new_string":"y"}}]}}
{"type":"assistant","message":{"content":[{"type":"tool_use","name":"Edit","input":{"file_path":"src/b.rs","old_string":"x","new_string":"y"}}]}}
{"type":"result","is_error":false,"usage":{"input_tokens":100,"output_tokens":50},"total_cost_usd":0.01,"num_turns":4,"duration_ms":1000}"#;

    let parsed = parse_stream_json(output, 1000);
    let nav = &parsed.metrics.navigation;
    assert_eq!(nav.unique_files_read, 2);
    assert_eq!(nav.unique_files_edited, 2);
    assert_eq!(nav.first_edit_turn, 3);
    assert_eq!(nav.exploration_turns, 2);
    assert_eq!(nav.implementation_turns, 2);
}

#[test]
fn navigation_no_edits() {
    let output = r#"{"type":"assistant","message":{"content":[{"type":"tool_use","name":"Read","input":{"file_path":"src/a.rs"}}]}}
{"type":"result","is_error":false,"usage":{"input_tokens":10,"output_tokens":5},"total_cost_usd":0.001,"num_turns":1,"duration_ms":100}"#;

    let parsed = parse_stream_json(output, 100);
    let nav = &parsed.metrics.navigation;
    assert_eq!(nav.first_edit_turn, 0);
    assert_eq!(nav.exploration_turns, 1);
    assert_eq!(nav.implementation_turns, 0);
}

#[test]
fn fmm_sidecar_reads_tracked() {
    let output = r#"{"type":"assistant","message":{"content":[{"type":"tool_use","name":"Read","input":{"file_path":"src/main.rs.fmm"}},{"type":"tool_use","name":"Read","input":{"file_path":"src/lib.rs.fmm"}}]}}
{"type":"result","is_error":false,"usage":{"input_tokens":10,"output_tokens":5},"total_cost_usd":0.001,"num_turns":1,"duration_ms":100}"#;

    let parsed = parse_stream_json(output, 100);
    assert_eq!(parsed.metrics.fmm_usage.sidecars_read, 2);
}

#[test]
fn fmm_mcp_tools_tracked() {
    let output = r#"{"type":"assistant","message":{"content":[{"type":"tool_use","name":"fmm_lookup_export","input":{"name":"createStore"}},{"type":"tool_use","name":"mcp__fmm__search","input":{}}]}}
{"type":"result","is_error":false,"usage":{"input_tokens":10,"output_tokens":5},"total_cost_usd":0.001,"num_turns":1,"duration_ms":100}"#;

    let parsed = parse_stream_json(output, 100);
    assert_eq!(parsed.metrics.fmm_usage.mcp_tool_calls, 2);
    assert!(parsed
        .metrics
        .fmm_usage
        .fmm_tool_names
        .contains(&"fmm_lookup_export".to_string()));
    assert!(parsed
        .metrics
        .fmm_usage
        .fmm_tool_names
        .contains(&"mcp__fmm__search".to_string()));
}

#[test]
fn edit_and_write_tracked_in_details() {
    let output = r#"{"type":"assistant","message":{"content":[{"type":"tool_use","name":"Edit","input":{"file_path":"src/main.rs","old_string":"a","new_string":"b"}},{"type":"tool_use","name":"Write","input":{"file_path":"src/new.rs","content":"fn main() {}"}}]}}
{"type":"result","is_error":false,"usage":{"input_tokens":10,"output_tokens":5},"total_cost_usd":0.001,"num_turns":1,"duration_ms":100}"#;

    let parsed = parse_stream_json(output, 100);
    let edit = detail_for(&parsed.metrics.tool_details, "Edit").unwrap();
    assert_eq!(edit.count, 1);
    assert_eq!(edit.args, vec!["src/main.rs"]);
    let write = detail_for(&parsed.metrics.tool_details, "Write").unwrap();
    assert_eq!(write.count, 1);
    assert_eq!(write.args, vec!["src/new.rs"]);
    assert_eq!(parsed.metrics.navigation.unique_files_edited, 2);
}

#[test]
fn bash_commands_tracked() {
    let output = r#"{"type":"assistant","message":{"content":[{"type":"tool_use","name":"Bash","input":{"command":"npm test"}}]}}
{"type":"result","is_error":false,"usage":{"input_tokens":10,"output_tokens":5},"total_cost_usd":0.001,"num_turns":1,"duration_ms":100}"#;

    let parsed = parse_stream_json(output, 100);
    let bash = detail_for(&parsed.metrics.tool_details, "Bash").unwrap();
    assert_eq!(bash.count, 1);
    assert_eq!(bash.args, vec!["npm test"]);
}

#[test]
fn grep_patterns_tracked() {
    let output = r#"{"type":"assistant","message":{"content":[{"type":"tool_use","name":"Grep","input":{"pattern":"createStore"}}]}}
{"type":"result","is_error":false,"usage":{"input_tokens":10,"output_tokens":5},"total_cost_usd":0.001,"num_turns":1,"duration_ms":100}"#;

    let parsed = parse_stream_json(output, 100);
    let grep = detail_for(&parsed.metrics.tool_details, "Grep").unwrap();
    assert_eq!(grep.args, vec!["createStore"]);
}

#[test]
fn empty_transcript_gives_all_zero_metrics() {
    let parsed = parse_stream_json("", 77);
    let m = &parsed.metrics;
    assert!(!m.success);
    assert_eq!(m.turns, 0);
    assert_eq!(m.tool_calls, 0);
    assert_eq!(m.read_calls, 0);
    assert_eq!(m.input_tokens, 0);
    assert_eq!(m.output_tokens, 0);
    assert_eq!(m.cost_usd_bits, 0);
    assert_eq!(m.duration_ms, 0);
    assert!(m.error.is_none());
    assert!(m.tools_by_name.is_empty());
    assert!(m.tool_details.is_empty());
    assert!(m.files_accessed.is_empty());
    assert_eq!(m.navigation.exploration_turns, 0);
    assert_eq!(m.navigation.implementation_turns, 0);
    assert_eq!(parsed.response_text, "");
}

#[test]
fn new_metrics_are_those_of_an_empty_transcript() {
    let m = RunMetrics::new();
    assert!(!m.success);
    assert_eq!(m.tool_calls, 0);
    assert_eq!(m.turns, 0);
    assert!(m.error.is_none());
    let d = RunMetrics::default();
    assert_eq!(d.duration_ms, 0);
}

#[test]
fn garbage_between_events_loses_no_event() {
    let output = "garbage\n\n   \n{\"type\":\"assistant\",\"message\":{\"content\":[{\"type\":\"tool_use\",\"name\":\"Read\",\"input\":{\"file_path\":\"a\"}}]}}\r\n]]]\n{\"type\":\"assistant\",\"message\":{\"content\":[{\"type\":\"tool_use\",\"name\":\"Read\",\"input\":{\"file_path\":\"a\"}}]}}\n{\"type\":\"unknown\"}\n42\n";
    let events = decode_events(output);
    assert_eq!(events.len(), 4);
    let parsed = parse_stream_json(output, 5);
    assert_eq!(parsed.metrics.tool_calls, 2);
    assert_eq!(parsed.metrics.read_calls, 2);
    assert_eq!(parsed.metrics.files_accessed, vec!["a", "a"]);
    assert_eq!(parsed.metrics.navigation.unique_files_read, 1);
    assert_eq!(parsed.metrics.navigation.exploration_turns, 2);
    assert!(!parsed.metrics.success);
    assert!(parsed.metrics.error.is_none());
}

#[test]
fn last_text_wins_and_result_text_fills_only_an_empty_response() {
    let output = r#"{"type":"assistant","message":{"content":[{"type":"text","text":"first"},{"type":"text","text":"second"}]}}
{"type":"result","is_error":false,"result":"from result"}"#;
    assert_eq!(parse_stream_json(output, 0).response_text, "second");
    let only_result = r#"{"type":"result","is_error":false,"result":"from result"}"#;
    assert_eq!(parse_stream_json(only_result, 0).response_text, "from result");
}

#[test]
fn last_result_event_wins() {
    let output = r#"{"type":"result","is_error":true,"subtype":"first","num_turns":1,"usage":{"input_tokens":7}}
{"type":"result","is_error":false,"subtype":"second","num_turns":2}"#;
    let parsed = parse_stream_json(output, 11);
    assert!(parsed.metrics.success);
    assert!(parsed.metrics.error.is_none());
    assert_eq!(parsed.metrics.turns, 2);
    assert_eq!(parsed.metrics.input_tokens, 7);
    assert_eq!(parsed.metrics.duration_ms, 11);
}

#[test]
fn long_commands_are_cut_to_two_hundred_characters() {
    let long = "x".repeat(201);
    let exact = "y".repeat(200);
    let output = format!(
        "{{\"type\":\"assistant\",\"message\":{{\"content\":[{{\"type\":\"tool_use\",\"name\":\"Bash\",\"input\":{{\"command\":\"{}\"}}}},{{\"type\":\"tool_use\",\"name\":\"Bash\",\"input\":{{\"command\":\"{}\"}}}}]}}}}",
        long, exact
    );
    let parsed = parse_stream_json(&output, 0);
    let bash = detail_for(&parsed.metrics.tool_details, "Bash").unwrap();
    assert_eq!(bash.count, 2);
    assert_eq!(bash.args[0].chars().count(), 200);
    assert_eq!(bash.args[0], format!("{}...", "x".repeat(197)));
    assert_eq!(bash.args[1], exact);
}

#[test]
fn tool_call_without_name_is_counted_only() {
    let output = r#"{"type":"assistant","message":{"content":[{"type":"tool_use","input":{"file_path":"a"}}]}}"#;
    let parsed = parse_stream_json(output, 0);
    assert_eq!(parsed.metrics.tool_calls, 1);
    assert!(parsed.metrics.tools_by_name.is_empty());
    assert_eq!(parsed.metrics.read_calls, 0);
}

#[test]
fn read_prefers_file_path_even_when_it_is_no_string() {
    let output = r#"{"type":"assistant","message":{"content":[{"type":"tool_use","name":"Read","input":{"file_path":7,"path":"p"}}]}}"#;
    let parsed = parse_stream_json(output, 0);
    assert_eq!(parsed.metrics.read_calls, 1);
    assert!(parsed.metrics.files_accessed.is_empty());
    assert_eq!(count_for(&parsed.metrics.tools_by_name, "Read"), Some(1));
    assert_eq!(count_for(&parsed.metrics.tools_by_name, "View"), None);
}

#[test]
fn events_built_by_hand_give_the_same_metrics() {
    let item = Json::Object(vec![
        ("type".to_string(), Json::Str("tool_use".to_string())),
        ("name".to_string(), Json::Str("Write".to_string())),
        (
            "input".to_string(),
            Json::Object(vec![("file_path".to_string(), Json::Str("out.rs".to_string()))]),
        ),
    ]);
    let assistant = Json::Object(vec![
        ("type".to_string(), Json::Str("assistant".to_string())),
        (
            "message".to_string(),
            Json::Object(vec![("content".to_string(), Json::Array(vec![item]))]),
        ),
    ]);
    let result = Json::Object(vec![
        ("type".to_string(), Json::Str("result".to_string())),
        ("is_error".to_string(), Json::Bool(false)),
        (
            "num_turns".to_string(),
            Json::Number(Number { unsigned: Some(1), real_bits: Some(1.0f64.to_bits()) }),
        ),
    ]);
    let parsed = metrics_of_events(&vec![assistant, result], 3);
    assert!(parsed.metrics.success);
    assert_eq!(parsed.metrics.turns, 1);
    assert_eq!(parsed.metrics.duration_ms, 3);
    assert_eq!(parsed.metrics.navigation.first_edit_turn, 1);
    assert_eq!(parsed.metrics.navigation.exploration_turns, 0);
    assert_eq!(parsed.metrics.navigation.implementation_turns, 1);
    assert_eq!(parsed.metrics.navigation.unique_files_edited, 1);
}

#[test]
fn decode_reads_members() {
    let events = decode_events("{\"type\":\"result\",\"n\":3,\"x\":-1,\"f\":1.5,\"b\":true,\"a\":[1,null]}");
    assert_eq!(events.len(), 1);
    let doc = &events[0];
    assert_eq!(doc.get("type").and_then(|v| v.as_str()), Some("result"));
    assert_eq!(doc.get("n").and_then(|v| v.as_u64()), Some(3));
    assert_eq!(doc.get("x").and_then(|v| v.as_u64()), None);
    assert_eq!(doc.get("f").and_then(|v| v.as_u64()), None);
    assert_eq!(doc.get("f").and_then(|v| v.as_real_bits()), Some(1.5f64.to_bits()));
    assert_eq!(doc.get("n").and_then(|v| v.as_real_bits()), Some(3.0f64.to_bits()));
    assert_eq!(doc.get("b").and_then(|v| v.as_bool()), Some(true));
    assert_eq!(doc.get("a").and_then(|v| v.as_array()).map(|a| a.len()), Some(2));
    assert!(doc.get("missing").is_none());
    assert!(doc.get("type").unwrap().get("type").is_none());
    assert!(matches!(doc, Json::Object(_)));
    assert!(matches!(doc.get("a").unwrap().as_array().unwrap()[1], Json::Null));
}

#[test]
fn decode_rejects_garbage() {
    assert!(decode_events("{broken").is_empty());
    assert!(decode_events("").is_empty());
    assert!(decode_events("not json\n{\"a\":1}x\n").is_empty());
    // a duplicated key keeps its last value
    let events = decode_events("{\"k\":1,\"k\":2}");
    assert_eq!(events[0].get("k").and_then(|v| v.as_u64()), Some(2));
}

#[test]
fn result_text_is_the_response_only_where_no_text_was_seen() {
    // a text item counts as seen even where its text is empty
    let output = r#"{"type":"assistant","message":{"content":[{"type":"text","text":""}]}}
{"type":"result","is_error":false,"result":"from result"}"#;
    assert_eq!(parse_stream_json(output, 0).response_text, "");
    // a text item without a string was not seen
    let output = r#"{"type":"assistant","message":{"content":[{"type":"text","text":7},{"type":"text"}]}}
{"type":"result","is_error":false,"result":"from result"}"#;
    assert_eq!(parse_stream_json(output, 0).response_text, "from result");
    // of two result events the last gives the response
    let output = r#"{"type":"result","is_error":false,"result":"first"}
{"type":"result","is_error":false,"result":"second"}"#;
    assert_eq!(parse_stream_json(output, 0).response_text, "second");
    // a result without a text leaves the response as it was
    let output = r#"{"type":"result","is_error":false,"result":"first"}
{"type":"result","is_error":false}"#;
    assert_eq!(parse_stream_json(output, 0).response_text, "first");
    // a text after the result still wins
    let output = r#"{"type":"result","is_error":false,"result":"first"}
{"type":"assistant","message":{"content":[{"type":"text","text":"late"}]}}
{"type":"result","is_error":false,"result":"again"}"#;
    assert_eq!(parse_stream_json(output, 0).response_text, "late");
}
