use conv_memory::extractor::{
    apply_function_call, handle_custom_tool_output, handle_message, handle_reasoning,
    read_record, record_event,
};
use conv_memory::{
    parse_rollout, ActionKind, ConversationBuilder, FallbackSource, JsonNumber, JsonValue,
    ParseError, Timestamp, TurnBuilder,
};

fn json(text: &str) -> JsonValue {
    JsonValue::parse(text).expect("json")
}

fn at(second: i64) -> Timestamp {
    Timestamp { unix_seconds: second, nanosecond: 0, offset_seconds: 0 }
}

#[test]
fn parses_basic_rollout() {
    let data = r#"
{"timestamp":"2025-01-01T00:00:00.000Z","type":"session_meta","payload":{"id":"urn:uuid:test","cwd":"/tmp"}}
{"timestamp":"2025-01-01T00:00:01.000Z","type":"response_item","payload":{"type":"message","role":"user","content":[{"type":"input_text","text":"hello"}]}}
{"timestamp":"2025-01-01T00:00:02.000Z","type":"response_item","payload":{"type":"reasoning","summary":[{"type":"summary_text","text":"thinking"}]}}
{"timestamp":"2025-01-01T00:00:03.000Z","type":"response_item","payload":{"type":"function_call","name":"shell","call_id":"call-1","arguments":"{\"command\":[\"ls\"]}"}}
{"timestamp":"2025-01-01T00:00:04.000Z","type":"response_item","payload":{"type":"function_call_output","call_id":"call-1","output":"{\"content\":\"done\"}"}}
{"timestamp":"2025-01-01T00:00:05.000Z","type":"event_msg","payload":{"type":"token_count","rate_limits":{"primary":{"used_percent":1,"window_minutes":1,"resets_at":0}}}}
        "#;

    let record = parse_rollout(data).expect("parse");
    assert_eq!(record.turns.len(), 1);
    assert_eq!(record.duration_seconds, Some(5));
    assert!(record.token_usage.total.is_none());
    let turn = &record.turns[0];
    assert_eq!(turn.user_inputs.len(), 1);
    assert_eq!(turn.result.reasoning_summaries.len(), 1);
    assert_eq!(turn.actions.len(), 1);
    assert_eq!(turn.actions[0].call_id.as_deref(), Some("call-1"));
    assert_eq!(turn.telemetry.token_counts.len(), 1);
}

#[test]
fn basic_rollout_has_reasoning_fallback_and_shell_action() {
    let data = r#"{"timestamp":"2025-01-01T00:00:00.000Z","type":"session_meta","payload":{"id":"urn:uuid:test","cwd":"/tmp"}}
{"timestamp":"2025-01-01T00:00:01.000Z","type":"response_item","payload":{"type":"message","role":"user","content":[{"type":"input_text","text":"hello"}]}}
{"timestamp":"2025-01-01T00:00:02.000Z","type":"response_item","payload":{"type":"reasoning","summary":[{"type":"summary_text","text":"thinking"}]}}
{"timestamp":"2025-01-01T00:00:03.000Z","type":"response_item","payload":{"type":"function_call","name":"shell","call_id":"call-1","arguments":"{\"command\":[\"ls\"]}"}}
{"timestamp":"2025-01-01T00:00:04.000Z","type":"response_item","payload":{"type":"function_call_output","call_id":"call-1","output":"{\"content\":\"done\"}"}}
"#;
    let record = parse_rollout(data).expect("parse");
    let turn = &record.turns[0];
    assert_eq!(turn.index, 0);
    assert_eq!(turn.user_inputs[0].text.as_deref(), Some("hello"));
    let fallback = turn.result.fallback.as_ref().expect("fallback");
    assert_eq!(fallback.source, FallbackSource::AssistantReasoning);
    assert_eq!(fallback.text, "thinking");
    match &turn.actions[0].kind {
        ActionKind::LocalShellExec { command, workdir, timeout_ms, escalated } => {
            assert_eq!(command, &vec!["ls".to_string()]);
            assert!(workdir.is_none());
            assert!(timeout_ms.is_none());
            assert!(escalated.is_none());
        }
        other => panic!("unexpected kind {:?}", other),
    }
    let output = turn.actions[0].output.as_ref().expect("output");
    assert_eq!(output.content.as_deref(), Some("done"));
    assert_eq!(turn.actions[0].events.len(), 1);
    assert_eq!(turn.actions[0].events[0].kind, "function_call");
    let started = record.started_at.expect("start");
    assert_eq!(started.unix_seconds, 1_735_689_600);
    assert_eq!(turn.started_at.expect("turn start").unix_seconds, 1_735_689_601);
    assert_eq!(record.ended_at.expect("end").unix_seconds, 1_735_689_604);
    assert_eq!(record.duration_seconds, Some(4));
}

#[test]
fn blank_lines_and_state_records_are_skipped() {
    let data = "\n   \n{\"record_type\":\"state\"}\n\r\n";
    let record = parse_rollout(data).expect("parse");
    assert_eq!(record.turns.len(), 0);
    assert!(record.started_at.is_none());
    assert!(record.duration_seconds.is_none());
    assert!(record.session_meta.is_none());
}

#[test]
fn empty_text_gives_an_empty_record() {
    let record = parse_rollout("").expect("parse");
    assert!(record.turns.is_empty());
    assert!(record.ended_at.is_none());
}

#[test]
fn a_line_that_is_no_json_fails() {
    let err = parse_rollout("{not json}\n").unwrap_err();
    assert!(matches!(err, ParseError::Json(_)));
}

#[test]
fn a_record_without_any_timestamp_fails() {
    let err = parse_rollout("{\"type\":\"session_meta\",\"payload\":{}}\n").unwrap_err();
    assert!(matches!(err, ParseError::MissingField("timestamp")));
}

#[test]
fn a_record_without_type_fails() {
    let err = parse_rollout("{\"timestamp\":\"2025-01-01T00:00:00Z\",\"payload\":{}}\n").unwrap_err();
    assert!(matches!(err, ParseError::MissingField("type")));
}

#[test]
fn a_bad_timestamp_fails_with_its_text() {
    let err = parse_rollout("{\"timestamp\":\"yesterday\",\"type\":\"session_meta\"}\n").unwrap_err();
    match err {
        ParseError::Timestamp(text, _) => assert_eq!(text, "yesterday"),
        other => panic!("unexpected error {:?}", other),
    }
}

#[test]
fn legacy_session_meta_is_kept_whole() {
    let data = "{\"id\":\"abc\",\"timestamp\":\"2025-01-01T00:00:00Z\",\"cwd\":\"/w\"}\n";
    let record = parse_rollout(data).expect("parse");
    let meta = record.session_meta.expect("meta");
    assert_eq!(meta.get("id").and_then(|v| v.as_str()), Some("abc"));
    assert_eq!(meta.get("cwd").and_then(|v| v.as_str()), Some("/w"));
    assert_eq!(record.duration_seconds, Some(0));
}

#[test]
fn a_missing_timestamp_is_inherited_from_the_last_record() {
    let data = r#"{"timestamp":"2025-01-01T00:00:07Z","type":"session_meta","payload":{"id":"x"}}
{"type":"response_item","payload":{"type":"message","role":"user","content":[{"type":"input_text","text":"hi"}]}}
"#;
    let record = parse_rollout(data).expect("parse");
    assert_eq!(record.turns.len(), 1);
    assert_eq!(record.turns[0].started_at.expect("start").unix_seconds, 1_735_689_607);
    assert_eq!(record.duration_seconds, Some(0));
}

#[test]
fn turn_context_followed_by_turn_context_leaves_no_turn() {
    let data = r#"{"timestamp":"2025-01-01T00:00:00Z","type":"turn_context","payload":{"cwd":"/a","model":"m1"}}
{"timestamp":"2025-01-01T00:00:01Z","type":"turn_context","payload":{"cwd":"/b","model":"m2"}}
{"timestamp":"2025-01-01T00:00:02Z","type":"response_item","payload":{"type":"message","role":"user","content":[{"type":"input_text","text":"hi"}]}}
"#;
    let record = parse_rollout(data).expect("parse");
    assert_eq!(record.turns.len(), 1);
    let turn = &record.turns[0];
    assert_eq!(turn.index, 0);
    let context = turn.context.as_ref().expect("context");
    assert_eq!(context.cwd.as_deref(), Some("/b"));
    assert_eq!(context.model.as_deref(), Some("m2"));
    assert_eq!(turn.started_at.expect("start").unix_seconds, 1_735_689_601);
}

#[test]
fn only_turn_contexts_leave_no_turn_at_all() {
    let data = r#"{"timestamp":"2025-01-01T00:00:00Z","type":"turn_context","payload":{"cwd":"/a"}}
{"timestamp":"2025-01-01T00:00:01Z","type":"turn_context","payload":{"cwd":"/b"}}
"#;
    let record = parse_rollout(data).expect("parse");
    assert_eq!(record.turns.len(), 0);
}

#[test]
fn turns_are_numbered_from_zero_without_gaps() {
    let data = r#"{"timestamp":"2025-01-01T00:00:00Z","type":"turn_context","payload":{}}
{"timestamp":"2025-01-01T00:00:01Z","type":"response_item","payload":{"type":"message","role":"user","content":[{"type":"input_text","text":"one"}]}}
{"timestamp":"2025-01-01T00:00:02Z","type":"turn_context","payload":{}}
{"timestamp":"2025-01-01T00:00:03Z","type":"turn_context","payload":{}}
{"timestamp":"2025-01-01T00:00:04Z","type":"response_item","payload":{"type":"message","role":"user","content":[{"type":"input_text","text":"two"}]}}
"#;
    let record = parse_rollout(data).expect("parse");
    assert_eq!(record.turns.len(), 2);
    assert_eq!(record.turns[0].index, 0);
    assert_eq!(record.turns[1].index, 1);
    assert_eq!(record.turns[1].user_inputs[0].text.as_deref(), Some("two"));
}

#[test]
fn reasoning_fallback_survives_later_tool_output() {
    let mut turn = TurnBuilder::open(0, None, None);
    handle_reasoning(&mut turn, &json(r#"{"type":"reasoning","summary":[{"text":"thinking"}]}"#));
    handle_custom_tool_output(&mut turn, &json(r#"{"call_id":"c","output":"done"}"#));
    let record = turn.finish();
    let fallback = record.result.fallback.expect("fallback");
    assert_eq!(fallback.source, FallbackSource::AssistantReasoning);
    assert_eq!(fallback.text, "thinking");
}

#[test]
fn tool_output_is_the_fallback_without_reasoning() {
    let mut turn = TurnBuilder::open(0, None, None);
    record_event(&mut turn, at(1), json(r#"{"type":"agent_message","message":"live"}"#));
    handle_custom_tool_output(&mut turn, &json(r#"{"call_id":"c","output":"done"}"#));
    let record = turn.finish();
    let fallback = record.result.fallback.expect("fallback");
    assert_eq!(fallback.source, FallbackSource::ToolOutput);
    assert_eq!(fallback.text, "done");
    assert_eq!(record.telemetry.misc_events.len(), 1);
}

#[test]
fn live_message_is_the_last_resort_fallback() {
    let mut turn = TurnBuilder::open(0, None, None);
    record_event(&mut turn, at(1), json(r#"{"type":"agent_message","message":"first"}"#));
    record_event(&mut turn, at(2), json(r#"{"type":"agent_reasoning","text":"second"}"#));
    let record = turn.finish();
    let fallback = record.result.fallback.expect("fallback");
    assert_eq!(fallback.source, FallbackSource::EventStream);
    assert_eq!(fallback.text, "second");
}

#[test]
fn an_assistant_message_leaves_no_fallback() {
    let mut turn = TurnBuilder::open(0, None, None);
    handle_reasoning(&mut turn, &json(r#"{"summary":[{"text":"thinking"}]}"#));
    handle_message(
        &mut turn,
        json(r#"{"role":"assistant","content":[{"type":"output_text","text":"hi "},{"content":"there"}]}"#),
    );
    let record = turn.finish();
    assert!(record.result.fallback.is_none());
    assert_eq!(record.result.assistant_messages, vec!["hi there".to_string()]);
}

#[test]
fn user_message_joins_text_and_lists_images() {
    let mut turn = TurnBuilder::open(0, None, None);
    handle_message(
        &mut turn,
        json(
            r#"{"role":"user","content":[{"type":"input_text","text":"a"},{"type":"input_image","image_url":"u1"},{"type":"input_text","text":"b"},{"type":"other","text":"x"}]}"#,
        ),
    );
    handle_message(&mut turn, json(r#"{"role":"user","content":[]}"#));
    let record = turn.finish();
    assert_eq!(record.user_inputs.len(), 2);
    assert_eq!(record.user_inputs[0].text.as_deref(), Some("ab"));
    assert_eq!(record.user_inputs[0].images, vec!["u1".to_string()]);
    assert!(record.user_inputs[1].text.is_none());
    assert!(record.user_inputs[1].images.is_empty());
}

#[test]
fn reasoning_with_content_is_marked_encrypted() {
    let mut turn = TurnBuilder::open(0, None, None);
    handle_reasoning(&mut turn, &json(r#"{"summary":[],"content":"opaque"}"#));
    assert!(turn.reasoning_encrypted);
    assert!(turn.reasoning_summaries.is_empty());
}

#[test]
fn actions_come_out_sorted_by_call_id_with_anonymous_first() {
    let mut turn = TurnBuilder::open(0, None, None);
    apply_function_call(&mut turn, at(1), &json(r#"{"name":"f","call_id":"b"}"#), None);
    apply_function_call(&mut turn, at(2), &json(r#"{"name":"g"}"#), None);
    apply_function_call(&mut turn, at(3), &json(r#"{"name":"h","call_id":"a"}"#), None);
    apply_function_call(&mut turn, at(4), &json(r#"{"name":"i"}"#), None);
    apply_function_call(&mut turn, at(5), &json(r#"{"name":"j","call_id":"b"}"#), None);
    let record = turn.finish();
    let ids: Vec<Option<&str>> = record.actions.iter().map(|a| a.call_id.as_deref()).collect();
    assert_eq!(ids, vec![None, None, Some("a"), Some("b")]);
    let names: Vec<String> = record
        .actions
        .iter()
        .map(|a| match &a.kind {
            ActionKind::FunctionCall { name } => name.clone().unwrap_or_default(),
            _ => String::new(),
        })
        .collect();
    assert_eq!(names, vec!["g", "i", "h", "j"]);
    assert_eq!(record.actions[3].events.len(), 2);
}

#[test]
fn events_of_different_calls_can_be_reordered() {
    let first = r#"{"type":"exec_command_begin","call_id":"x","n":1}"#;
    let second = r#"{"type":"mcp_tool_call_end","callId":"y","n":2}"#;
    let mut one = TurnBuilder::open(0, None, None);
    record_event(&mut one, at(1), json(first));
    record_event(&mut one, at(2), json(second));
    let mut other = TurnBuilder::open(0, None, None);
    record_event(&mut other, at(2), json(second));
    record_event(&mut other, at(1), json(first));
    let one = one.finish();
    let other = other.finish();
    assert_eq!(one.actions.len(), 2);
    assert_eq!(format!("{:?}", one), format!("{:?}", other));
    assert_eq!(one.actions[0].call_id.as_deref(), Some("x"));
    assert_eq!(one.actions[0].events[0].kind, "exec_command_begin");
    assert_eq!(one.actions[1].call_id.as_deref(), Some("y"));
}

#[test]
fn shell_function_call_reads_its_arguments() {
    let mut turn = TurnBuilder::open(0, None, None);
    let args = json(
        r#"{"command":["bash","-lc",7,"ls"],"working_directory":"/w","timeout":9,"with_escalated_permissions":true}"#,
    );
    apply_function_call(
        &mut turn,
        at(1),
        &json(r#"{"name":"container.exec","call_id":"c"}"#),
        Some(args),
    );
    let record = turn.finish();
    match &record.actions[0].kind {
        ActionKind::LocalShellExec { command, workdir, timeout_ms, escalated } => {
            assert_eq!(command, &vec!["bash".to_string(), "-lc".to_string(), "ls".to_string()]);
            assert_eq!(workdir.as_deref(), Some("/w"));
            assert_eq!(*timeout_ms, Some(9));
            assert_eq!(*escalated, Some(true));
        }
        other => panic!("unexpected kind {:?}", other),
    }
    assert!(record.actions[0].arguments.is_some());
}

#[test]
fn token_count_updates_the_usage_summary() {
    let data = r#"{"timestamp":"2025-01-01T00:00:00Z","type":"event_msg","payload":{"type":"token_count","info":{"total_token_usage":{"input_tokens":10,"cachedTokens":3,"output_tokens":5,"total_tokens":15},"model_context_window_tokens":4096}}}
{"timestamp":"2025-01-01T00:00:01Z","type":"event_msg","payload":{"type":"token_count","info":{"last_token_usage":{"input_tokens":1},"model_context_window":8192}}}
"#;
    let record = parse_rollout(data).expect("parse");
    let total = record.token_usage.total.expect("total");
    assert_eq!(total.input_tokens, Some(10));
    assert_eq!(total.cached_input_tokens, Some(3));
    assert_eq!(total.output_tokens, Some(5));
    assert_eq!(total.reasoning_output_tokens, None);
    assert_eq!(total.total_tokens, Some(15));
    assert_eq!(record.token_usage.last.expect("last").input_tokens, Some(1));
    assert_eq!(record.token_usage.model_context_window, Some(8192));
    assert_eq!(record.turns.len(), 1);
    assert_eq!(record.turns[0].telemetry.token_counts.len(), 2);
}

#[test]
fn read_record_keeps_session_meta_payload() {
    let mut builder = ConversationBuilder::default();
    read_record(
        &mut builder,
        json(r#"{"timestamp":"2025-01-01T00:00:00+01:00","type":"session_meta","payload":{"id":"s"}}"#),
    )
    .expect("record");
    let first = builder.first_timestamp.expect("first");
    assert_eq!(first.unix_seconds, 1_735_686_000);
    assert_eq!(first.offset_seconds, 3600);
    let record = builder.finalize();
    let meta = record.session_meta.expect("meta");
    assert_eq!(meta.get("id").and_then(|v| v.as_str()), Some("s"));
}

#[test]
fn json_numbers_keep_their_shape() {
    let value = json(r#"{"a":7,"b":-7,"c":1.5,"d":[true,null]}"#);
    assert_eq!(value.get("a").and_then(|v| v.as_u64()), Some(7));
    assert_eq!(value.get("b").and_then(|v| v.as_u64()), None);
    assert!(matches!(value.get("b"), Some(JsonValue::Number(JsonNumber::Negative(-7)))));
    assert!(matches!(
        value.get("c"),
        Some(JsonValue::Number(JsonNumber::Real(bits))) if *bits == 1.5f64.to_bits()
    ));
    let items = value.get("d").and_then(|v| v.as_array()).expect("array");
    assert_eq!(items.len(), 2);
    assert_eq!(items[0].as_bool(), Some(true));
    assert!(matches!(items[1], JsonValue::Null));
    assert!(value.get("missing").is_none());
    assert!(items[0].get("a").is_none());
    let copy = value.clone();
    assert_eq!(format!("{:?}", copy), format!("{:?}", value));
}
