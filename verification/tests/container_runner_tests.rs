use nuclaw::container_runner::accumulate_output_line;
use nuclaw::container_runner::extract_marked_output;
use nuclaw::container_runner::input_file_name;
use nuclaw::container_runner::json_escape_str;
use nuclaw::container_runner::last_nonblank_line;
use nuclaw::container_runner::output_end_marker;
use nuclaw::container_runner::output_start_marker;
use nuclaw::container_runner::parse_container_output;
use nuclaw::container_runner::parse_marked_content;
use nuclaw::container_runner::render_available_groups_json;
use nuclaw::container_runner::render_current_tasks_json;

#[test]
fn test_parse_marked_output() {
    let output = "Some prefix\n--NANOCLAW_OUTPUT_START--\n{\"status\": \"success\", \"result\": \"test\"}\n--NANOCLAW_OUTPUT_END--\nSome suffix";
    let extracted = extract_marked_output(output);
    assert!(extracted.is_some());
    assert_eq!(
        extracted.unwrap(),
        "\n{\"status\": \"success\", \"result\": \"test\"}\n"
    );
}

#[test]
fn test_extract_marked_output_no_markers() {
    let output = "No markers here";
    let extracted = extract_marked_output(output);
    assert!(extracted.is_none());
}

#[test]
fn test_extract_marked_output_only_start_marker() {
    let output = "--NANOCLAW_OUTPUT_START--\nsome content";
    let extracted = extract_marked_output(output);
    assert!(extracted.is_none());
}

#[test]
fn test_extract_marked_output_reversed_markers() {
    // End marker before start marker should not match
    let output = "--NANOCLAW_OUTPUT_END--\ncontent\n--NANOCLAW_OUTPUT_START--";
    let extracted = extract_marked_output(output);
    assert!(extracted.is_none());
}

#[test]
fn test_extract_marked_output_empty_content() {
    let output = "--NANOCLAW_OUTPUT_START----NANOCLAW_OUTPUT_END--";
    let extracted = extract_marked_output(output);
    assert!(extracted.is_some());
    assert_eq!(extracted.unwrap(), "");
}

#[test]
fn test_parse_container_output_json() {
    let output = r#"{"status": "success", "result": "test result"}"#;
    let result = parse_container_output(output, true, 100);
    assert!(result.is_ok());
    let output = result.unwrap();
    assert_eq!(output.status, "success");
    assert_eq!(output.result, Some("test result".to_string()));
}

#[test]
fn test_parse_container_output_with_session_id() {
    let output = r#"{"status": "success", "result": "test", "new_session_id": "sess_123"}"#;
    let result = parse_container_output(output, true, 100);
    assert!(result.is_ok());
    let output = result.unwrap();
    assert_eq!(output.status, "success");
    assert_eq!(output.new_session_id, Some("sess_123".to_string()));
}

#[test]
fn test_parse_container_output_error() {
    let output = "some error output";
    let result = parse_container_output(output, false, 100);
    assert!(result.is_ok());
    let output = result.unwrap();
    assert_eq!(output.status, "error");
    assert!(output.error.is_some());
}

#[test]
fn test_parse_container_output_marked() {
    let output = "prefix\n--NANOCLAW_OUTPUT_START--\n{\"status\": \"success\", \"result\": \"marked\"}\n--NANOCLAW_OUTPUT_END--\nsuffix";
    let result = parse_container_output(output, true, 100);
    assert!(result.is_ok());
    let parsed = result.unwrap();
    assert_eq!(parsed.status, "success");
    assert_eq!(parsed.result, Some("marked".to_string()));
}

#[test]
fn test_parse_container_output_empty() {
    let output = "";
    let result = parse_container_output(output, true, 100);
    assert!(result.is_ok());
    let parsed = result.unwrap();
    assert_eq!(parsed.status, "success");
    assert_eq!(parsed.result, Some("".to_string()));
}

#[test]
fn test_parse_container_output_empty_failed_exit() {
    let output = "";
    let result = parse_container_output(output, false, 100);
    assert!(result.is_ok());
    let parsed = result.unwrap();
    assert_eq!(parsed.status, "error");
    assert_eq!(parsed.result, None);
    assert_eq!(parsed.error, Some("Container execution failed".to_string()));
}

#[test]
fn test_parse_container_output_wrapped_record_ignores_surroundings() {
    let output = "prefix\n--NANOCLAW_OUTPUT_START--\n{\"status\":\"success\",\"result\":\"ok\"}\n--NANOCLAW_OUTPUT_END--\nsuffix";
    let parsed = parse_container_output(output, true, 5).unwrap();
    assert_eq!(parsed.status, "success");
    assert_eq!(parsed.result, Some("ok".to_string()));
    assert_eq!(parsed.error, None);
}

#[test]
fn test_parse_container_output_reversed_markers_uses_last_line() {
    let output = "--NANOCLAW_OUTPUT_END--\nnoise\n--NANOCLAW_OUTPUT_START--\n{\"status\":\"success\",\"result\":\"tail\"}";
    let parsed = parse_container_output(output, true, 1).unwrap();
    assert_eq!(parsed.status, "success");
    assert_eq!(parsed.result, Some("tail".to_string()));
}

#[test]
fn test_parse_container_output_malformed_marked_falls_to_last_line() {
    // The wrapped section is no record, so the pair decides nothing and
    // the last non-blank line does.
    let output = "--NANOCLAW_OUTPUT_START--\nnot a record\n--NANOCLAW_OUTPUT_END--\n{\"status\":\"success\",\"result\":\"tail\"}";
    let parsed = parse_container_output(output, true, 1).unwrap();
    assert_eq!(parsed.status, "success");
    assert_eq!(parsed.result, Some("tail".to_string()));
}

#[test]
fn test_parse_container_output_malformed_marked_synthesizes_from_whole_output() {
    // No record anywhere: the synthesized result carries the whole raw
    // output, not just the wrapped section.
    let output = "--NANOCLAW_OUTPUT_START--\nnot a record\n--NANOCLAW_OUTPUT_END--";
    let parsed = parse_container_output(output, true, 1).unwrap();
    assert_eq!(parsed.status, "success");
    assert_eq!(parsed.result, Some(output.to_string()));
}

#[test]
fn test_parse_container_output_non_string_member_is_no_record() {
    // A present member of the wrong shape makes the candidate no record;
    // the parser synthesizes instead of returning a half-read record.
    let output = "{\"status\":\"success\",\"result\":5}";
    let parsed = parse_container_output(output, true, 1).unwrap();
    assert_eq!(parsed.status, "success");
    assert_eq!(parsed.result, Some(output.to_string()));
    let output2 = "{\"status\":\"success\",\"result\":null}";
    let parsed2 = parse_container_output(output2, true, 1).unwrap();
    assert_eq!(parsed2.status, "success");
    assert_eq!(parsed2.result, None);
}

#[test]
fn test_parse_marked_content_success() {
    let content = r#"{"status": "success", "result": "test output"}"#;
    let result = parse_marked_content(content, true);
    assert!(result.is_ok());
    let parsed = result.unwrap();
    assert_eq!(parsed.status, "success");
    assert_eq!(parsed.result, Some("test output".to_string()));
}

#[test]
fn test_parse_marked_content_invalid_json() {
    let content = "not valid json";
    let result = parse_marked_content(content, true);
    assert!(result.is_ok());
    let parsed = result.unwrap();
    assert_eq!(parsed.status, "success");
    assert_eq!(parsed.result, Some("not valid json".to_string()));
}

#[test]
fn test_markers_text() {
    assert_eq!(output_start_marker(), "--NANOCLAW_OUTPUT_START--");
    assert_eq!(output_end_marker(), "--NANOCLAW_OUTPUT_END--");
}

#[test]
fn test_last_nonblank_line_picks_last() {
    assert_eq!(last_nonblank_line("a\nb\n  \n"), "b");
    assert_eq!(last_nonblank_line("  one  "), "one");
    assert_eq!(last_nonblank_line("\n\n \n"), "");
    assert_eq!(last_nonblank_line(""), "");
}

#[test]
fn test_accumulate_output_line_appends() {
    let mut buf = String::from("ab");
    let stop = accumulate_output_line(&mut buf, "cd", 10);
    assert!(!stop);
    assert_eq!(buf, "abcd\n");
}

#[test]
fn test_accumulate_output_line_truncates() {
    let mut buf = String::from("ab");
    let stop = accumulate_output_line(&mut buf, "cd", 3);
    assert!(stop);
    assert_eq!(buf, "ab\n[OUTPUT TRUNCATED - exceeded max size]");
}

#[test]
fn test_render_current_tasks_json_plain() {
    let json = render_current_tasks_json(&Some("sched_1".to_string()), "hello", true);
    assert_eq!(
        json,
        "{\"tasks\":[{\"id\":\"sched_1\",\"prompt\":\"hello\",\"is_scheduled\":true}]}"
    );
}

#[test]
fn test_render_current_tasks_json_interactive_escaped() {
    let json = render_current_tasks_json(&None, "say \"hi\"\n", false);
    assert_eq!(
        json,
        "{\"tasks\":[{\"id\":\"interactive\",\"prompt\":\"say \\\"hi\\\"\\n\",\"is_scheduled\":false}]}"
    );
    let value: serde_json::Value = serde_json::from_str(&json).unwrap();
    assert_eq!(
        value["tasks"][0]["prompt"].as_str().unwrap(),
        "say \"hi\"\n"
    );
}

#[test]
fn test_render_available_groups_json() {
    let json = render_available_groups_json("family");
    assert_eq!(
        json,
        "{\"groups\":{\"family\":{\"name\":\"family\",\"registered\":true}}}"
    );
    let value: serde_json::Value = serde_json::from_str(&json).unwrap();
    assert_eq!(value["groups"]["family"]["registered"], serde_json::Value::Bool(true));
}

#[test]
fn test_json_escape_control_chars() {
    assert_eq!(json_escape_str("a\tb"), "a\\tb");
    assert_eq!(json_escape_str("\u{1}"), "\\u0001");
    assert_eq!(json_escape_str("back\\slash"), "back\\\\slash");
}

#[test]
fn test_input_file_name() {
    assert_eq!(input_file_name(&Some("s9".to_string())), "input_s9.json");
    assert_eq!(input_file_name(&None), "input_default.json");
}
