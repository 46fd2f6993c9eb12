use conv_memory::{parse_rollout, ActionKind, FallbackSource, JsonValue};

fn line(second: u32, kind: &str, payload: &str) -> String {
    format!(
        "{{\"timestamp\":\"2025-01-01T00:00:{:02}Z\",\"type\":\"{}\",\"payload\":{}}}\n",
        second, kind, payload
    )
}

#[test]
fn custom_tool_call_and_output_share_one_action() {
    let mut data = String::new();
    data.push_str(&line(
        1,
        "response_item",
        r#"{"type":"custom_tool_call","call_id":"t1","name":"apply_patch","status":"completed","input":"{\"x\":[1,2]}"}"#,
    ));
    data.push_str(&line(
        2,
        "response_item",
        r#"{"type":"custom_tool_call_output","call_id":"t1","output":"patched"}"#,
    ));
    let record = parse_rollout(&data).expect("parse");
    assert_eq!(record.turns.len(), 1);
    let turn = &record.turns[0];
    assert_eq!(turn.actions.len(), 1);
    let action = &turn.actions[0];
    assert_eq!(action.call_id.as_deref(), Some("t1"));
    assert!(matches!(&action.kind, ActionKind::CustomToolCall { name } if name.as_deref() == Some("apply_patch")));
    assert_eq!(action.status.status_text.as_deref(), Some("completed"));
    assert!(action.status.local_status.is_none());
    let arguments = action.arguments.as_ref().expect("arguments");
    assert_eq!(arguments.get("x").and_then(|v| v.as_array()).map(|a| a.len()), Some(2));
    let output = action.output.as_ref().expect("output");
    assert_eq!(output.content.as_deref(), Some("patched"));
    assert!(output.success.is_none());
    assert!(matches!(&output.raw, JsonValue::Text(t) if t == "patched"));
    let fallback = turn.result.fallback.as_ref().expect("fallback");
    assert_eq!(fallback.source, FallbackSource::ToolOutput);
    assert_eq!(fallback.text, "patched");
}

#[test]
fn custom_tool_call_with_bad_input_has_no_arguments() {
    let data = line(
        1,
        "response_item",
        r#"{"type":"custom_tool_call","call_id":"t1","name":"n","input":"not json"}"#,
    );
    let record = parse_rollout(&data).expect("parse");
    let action = &record.turns[0].actions[0];
    assert!(action.arguments.is_none());
    assert!(action.status.status_text.is_none());
}

#[test]
fn local_shell_call_sets_both_status_texts() {
    let data = line(
        1,
        "response_item",
        r#"{"type":"local_shell_call","call_id":"s","status":"in_progress","action":{"command":["ls","-l"],"workdir":"/a","working_directory":"/b","timeout_ms":30,"with_escalated_permissions":false}}"#,
    );
    let record = parse_rollout(&data).expect("parse");
    let action = &record.turns[0].actions[0];
    match &action.kind {
        ActionKind::LocalShellExec { command, workdir, timeout_ms, escalated } => {
            assert_eq!(command, &vec!["ls".to_string(), "-l".to_string()]);
            assert_eq!(workdir.as_deref(), Some("/b"));
            assert_eq!(*timeout_ms, Some(30));
            assert_eq!(*escalated, Some(false));
        }
        other => panic!("unexpected kind {:?}", other),
    }
    assert_eq!(action.status.status_text.as_deref(), Some("in_progress"));
    assert_eq!(action.status.local_status.as_deref(), Some("in_progress"));
    assert!(action.arguments.as_ref().and_then(|a| a.get("command")).is_some());
}

#[test]
fn local_shell_call_without_action_has_null_arguments() {
    let data = line(1, "response_item", r#"{"type":"local_shell_call"}"#);
    let record = parse_rollout(&data).expect("parse");
    let action = &record.turns[0].actions[0];
    assert!(action.call_id.is_none());
    assert!(matches!(action.arguments, Some(JsonValue::Null)));
    assert!(matches!(&action.kind, ActionKind::LocalShellExec { command, .. } if command.is_empty()));
}

#[test]
fn web_search_call_keeps_its_query() {
    let mut data = String::new();
    data.push_str(&line(
        1,
        "response_item",
        r#"{"type":"web_search_call","call_id":"w","status":"done","action":{"query":"rust verus"}}"#,
    ));
    data.push_str(&line(2, "event_msg", r#"{"type":"web_search_end","call_id":"w","query":"rust verus"}"#));
    data.push_str(&line(3, "response_item", r#"{"type":"web_search_call"}"#));
    let record = parse_rollout(&data).expect("parse");
    let actions = &record.turns[0].actions;
    assert_eq!(actions.len(), 2);
    assert!(actions[0].call_id.is_none());
    assert!(matches!(&actions[0].kind, ActionKind::WebSearch { query } if query.is_none()));
    assert!(actions[0].arguments.is_none());
    assert_eq!(actions[1].call_id.as_deref(), Some("w"));
    assert!(matches!(&actions[1].kind, ActionKind::WebSearch { query } if query.as_deref() == Some("rust verus")));
    assert_eq!(actions[1].status.status_text.as_deref(), Some("done"));
    assert_eq!(actions[1].events.len(), 1);
    assert_eq!(actions[1].events[0].kind, "web_search_end");
    assert_eq!(actions[1].events[0].timestamp.unix_seconds, 1_735_689_602);
}

#[test]
fn function_output_that_is_json_gives_content_and_success() {
    let mut data = String::new();
    data.push_str(&line(
        1,
        "response_item",
        r#"{"type":"function_call_output","call_id":"f","output":"{\"content\":\"ok\",\"success\":true}"}"#,
    ));
    data.push_str(&line(
        2,
        "response_item",
        r#"{"type":"function_call_output","call_id":"g","output":"{\"other\":1}"}"#,
    ));
    data.push_str(&line(3, "response_item", r#"{"type":"function_call_output","call_id":"h"}"#));
    let record = parse_rollout(&data).expect("parse");
    let actions = &record.turns[0].actions;
    assert_eq!(actions.len(), 3);
    let first = actions[0].output.as_ref().expect("output");
    assert_eq!(first.content.as_deref(), Some("ok"));
    assert_eq!(first.success, Some(true));
    let second = actions[1].output.as_ref().expect("output");
    assert_eq!(second.content.as_deref(), Some("{\"other\":1}"));
    assert_eq!(second.success, None);
    let third = actions[2].output.as_ref().expect("output");
    assert_eq!(third.content.as_deref(), Some(""));
    assert_eq!(third.raw.get("content").and_then(|v| v.as_str()), Some(""));
    assert!(matches!(&actions[0].kind, ActionKind::Other { kind } if kind.is_none()));
    assert_eq!(record.turns[0].result.fallback.as_ref().map(|f| f.text.as_str()), Some(""));
}

#[test]
fn compacted_record_adds_an_assistant_message() {
    let mut data = String::new();
    data.push_str(&line(1, "compacted", r#"{"message":"summary so far"}"#));
    data.push_str(&line(2, "compacted", r#"{"other":1}"#));
    data.push_str(&line(3, "unknown_kind", r#"{"message":"ignored"}"#));
    let record = parse_rollout(&data).expect("parse");
    assert_eq!(record.turns.len(), 1);
    assert_eq!(record.turns[0].result.assistant_messages, vec!["summary so far"]);
    assert!(record.turns[0].result.fallback.is_none());
    assert_eq!(record.duration_seconds, Some(2));
}

#[test]
fn events_go_to_their_telemetry_lists() {
    let mut data = String::new();
    data.push_str(&line(1, "event_msg", r#"{"type":"plan_update","plan":[]}"#));
    data.push_str(&line(2, "event_msg", r#"{"type":"exec_approval_request"}"#));
    data.push_str(&line(3, "event_msg", r#"{"type":"apply_patch_approval_request"}"#));
    data.push_str(&line(4, "event_msg", r#"{"type":"something_else"}"#));
    data.push_str(&line(5, "event_msg", r#"{"no_type":true}"#));
    data.push_str(&line(6, "event_msg", r#"{"type":"user_message","message":"hi"}"#));
    let record = parse_rollout(&data).expect("parse");
    assert_eq!(record.turns.len(), 0);

    data.push_str(&line(7, "event_msg", r#"{"type":"token_count"}"#));
    let record = parse_rollout(&data).expect("parse");
    assert_eq!(record.turns.len(), 1);
    let telemetry = &record.turns[0].telemetry;
    assert_eq!(telemetry.plan_updates.len(), 1);
    assert_eq!(telemetry.approvals.len(), 2);
    assert_eq!(telemetry.misc_events.len(), 3);
    assert_eq!(telemetry.token_counts.len(), 1);
    assert_eq!(telemetry.approvals[1].timestamp.unix_seconds, 1_735_689_603);
    assert!(record.token_usage.total.is_none());
    assert!(record.turns[0].result.fallback.is_none());
}

#[test]
fn turn_context_reads_its_settings() {
    let mut data = String::new();
    data.push_str(&line(
        1,
        "turn_context",
        r#"{"cwd_path":"/p","approval_policy":"never","sandbox_policy":{"mode":"workspace-write","network_access":true},"model":"m","effort":"high","summary":"auto"}"#,
    ));
    data.push_str(&line(2, "response_item", r#"{"type":"reasoning","summary":[{"text":"a"},{"note":"x"},{"text":"b"}]}"#));
    let record = parse_rollout(&data).expect("parse");
    let turn = &record.turns[0];
    let context = turn.context.as_ref().expect("context");
    assert_eq!(context.cwd.as_deref(), Some("/p"));
    assert_eq!(context.approval_policy.as_deref(), Some("never"));
    assert_eq!(context.sandbox_mode.as_deref(), Some("workspace-write"));
    assert_eq!(context.sandbox_network_access, Some(true));
    assert_eq!(context.model.as_deref(), Some("m"));
    assert_eq!(context.effort.as_deref(), Some("high"));
    assert_eq!(context.summary_style.as_deref(), Some("auto"));
    assert_eq!(context.raw.get("model").and_then(|v| v.as_str()), Some("m"));
    assert_eq!(turn.result.reasoning_summaries, vec!["a", "b"]);
    assert_eq!(turn.result.fallback.as_ref().map(|f| f.text.as_str()), Some("b"));
    assert!(!turn.result.reasoning_encrypted);
}
