use conv_memory::storage::{
    approximate_input_tokens, approximate_output_tokens, best_breakdown, conversation_row,
    estimate_token_count, extract_conversation_id, format_fallback, identity_of_path,
    join_assistant_messages, join_user_inputs, token_totals, turn_row,
};
use conv_memory::{
    compute_conversation_stats, parse_rollout, ConversationRecord, ConversationStats,
    FallbackSource, FallbackSummary, JsonValue, RolloutFingerprint, Timestamp,
    TokenUsageBreakdown, TurnRecord, TurnResult, TurnTelemetry, UserInputRecord,
};

fn turn_with(inputs: Vec<Option<&str>>, assistant: Vec<&str>, reasoning: Vec<&str>) -> TurnRecord {
    TurnRecord {
        index: 0,
        started_at: None,
        context: None,
        user_inputs: inputs
            .into_iter()
            .map(|text| UserInputRecord {
                raw: JsonValue::Null,
                text: text.map(|t| t.to_string()),
                images: Vec::new(),
            })
            .collect(),
        result: TurnResult {
            assistant_messages: assistant.into_iter().map(|t| t.to_string()).collect(),
            reasoning_summaries: reasoning.into_iter().map(|t| t.to_string()).collect(),
            ..TurnResult::default()
        },
        actions: Vec::new(),
        telemetry: TurnTelemetry::default(),
    }
}

#[test]
fn token_estimate_counts_whitespace_tokens() {
    assert_eq!(estimate_token_count(""), 0);
    assert_eq!(estimate_token_count(" \n\t "), 0);
    assert_eq!(estimate_token_count("one"), 1);
    assert_eq!(estimate_token_count("  a b\n\nc\td  "), 4);
    assert_eq!(estimate_token_count("\u{a0}x\u{3000}y"), 2);
}

#[test]
fn token_estimates_add_up_over_turns() {
    let mut record = ConversationRecord::default();
    assert_eq!(approximate_input_tokens(&record), None);
    assert_eq!(approximate_output_tokens(&record), None);
    record.turns.push(turn_with(vec![Some("a b"), None, Some("  ")], vec!["x y z"], vec!["r"]));
    let mut second = turn_with(vec![Some("c")], vec![], vec![]);
    second.index = 1;
    second.result.fallback =
        Some(FallbackSummary { source: FallbackSource::ToolOutput, text: "two words".to_string() });
    record.turns.push(second);
    assert_eq!(approximate_input_tokens(&record), Some(3));
    assert_eq!(approximate_output_tokens(&record), Some(6));
}

#[test]
fn token_totals_prefer_what_the_record_states() {
    let mut record = ConversationRecord::default();
    record.turns.push(turn_with(vec![Some("a b")], vec!["x y z"], vec![]));
    let totals = token_totals(&record);
    assert_eq!(totals.input, Some(2));
    assert_eq!(totals.output, Some(3));
    assert_eq!(totals.total, Some(5));
    assert_eq!(totals.cached, None);
    assert_eq!(totals.reasoning, None);

    record.token_usage.last = Some(TokenUsageBreakdown {
        input_tokens: Some(100),
        cached_input_tokens: Some(7),
        output_tokens: None,
        reasoning_output_tokens: Some(9),
        total_tokens: None,
    });
    let totals = token_totals(&record);
    assert_eq!(totals.input, Some(100));
    assert_eq!(totals.output, Some(3));
    assert_eq!(totals.total, Some(103));
    assert_eq!(totals.cached, Some(7));
    assert_eq!(totals.reasoning, Some(9));

    record.token_usage.total = Some(TokenUsageBreakdown {
        input_tokens: Some(1),
        cached_input_tokens: None,
        output_tokens: Some(2),
        reasoning_output_tokens: None,
        total_tokens: Some(50),
    });
    assert_eq!(best_breakdown(&record), record.token_usage.total);
    let totals = token_totals(&record);
    assert_eq!(totals.input, Some(1));
    assert_eq!(totals.output, Some(2));
    assert_eq!(totals.total, Some(50));
    assert_eq!(totals.cached, None);
}

#[test]
fn token_totals_of_an_empty_record_are_missing() {
    let totals = token_totals(&ConversationRecord::default());
    assert_eq!(totals.input, None);
    assert_eq!(totals.output, None);
    assert_eq!(totals.total, None);
}

#[test]
fn texts_are_joined_by_paragraph_breaks() {
    let turn = turn_with(vec![Some("a"), None, Some("b")], vec!["x", "y"], vec![]);
    assert_eq!(join_user_inputs(&turn).as_deref(), Some("a\n\nb"));
    assert_eq!(join_assistant_messages(&turn).as_deref(), Some("x\n\ny"));
    let empty = turn_with(vec![None], vec![], vec![]);
    assert_eq!(join_user_inputs(&empty), None);
    assert_eq!(join_assistant_messages(&empty), None);
}

#[test]
fn fallback_text_carries_the_tag_of_its_source() {
    let text = |source| format_fallback(&FallbackSummary { source, text: "t".to_string() });
    assert_eq!(text(FallbackSource::AssistantReasoning), "[reasoning] t");
    assert_eq!(text(FallbackSource::ToolOutput), "[tool] t");
    assert_eq!(text(FallbackSource::EventStream), "[event] t");
}

#[test]
fn conversation_identity_comes_from_metadata_or_path() {
    let mut record = ConversationRecord::default();
    assert_eq!(extract_conversation_id(&record, "/a/b/rollout-x.jsonl"), "rollout-x");
    record.session_meta = Some(JsonValue::parse(r#"{"conversation_id":"c9"}"#).unwrap());
    assert_eq!(extract_conversation_id(&record, "/a/b/rollout-x.jsonl"), "c9");
    record.session_meta = Some(JsonValue::parse(r#"{"id":"i1","conversation_id":"c9"}"#).unwrap());
    assert_eq!(extract_conversation_id(&record, "/a/b/rollout-x.jsonl"), "i1");
    record.session_meta = Some(JsonValue::parse(r#"{"id":5}"#).unwrap());
    assert_eq!(extract_conversation_id(&record, "alpha.jsonl"), "alpha");
}

#[test]
fn path_identity_is_the_file_stem() {
    assert_eq!(identity_of_path("alpha.jsonl"), "alpha");
    assert_eq!(identity_of_path("/x/y/a.b.c"), "a.b");
    assert_eq!(identity_of_path("/x/y/noext"), "noext");
    assert_eq!(identity_of_path("/x/.hidden"), ".hidden");
    assert_eq!(identity_of_path("/x/name."), "name");
    assert_eq!(identity_of_path("/x/y/"), "/x/y/");
    assert_eq!(identity_of_path(""), "");
}

#[test]
fn conversation_row_holds_the_computed_columns() {
    let data = r#"{"timestamp":"2025-01-01T00:00:00Z","type":"session_meta","payload":{"id":"s1"}}
{"timestamp":"2025-01-01T00:00:09Z","type":"event_msg","payload":{"type":"token_count","info":{"total_token_usage":{"input_tokens":10,"output_tokens":5},"model_context_window":4096}}}
"#;
    let record = parse_rollout(data).unwrap();
    let stats = compute_conversation_stats(&record);
    let fingerprint = RolloutFingerprint { modified_at: None, size_bytes: Some(77), sha256: None };
    let row = conversation_row("/p/rollout-z.jsonl", &record, &fingerprint, &stats, None).unwrap();
    assert_eq!(row.conversation_id, "s1");
    assert_eq!(row.started_at.as_deref(), Some("2025-01-01 0:00:00.0 +00:00:00"));
    assert_eq!(row.ended_at.as_deref(), Some("2025-01-01 0:00:09.0 +00:00:00"));
    assert_eq!(row.rollout_modified_at, None);
    assert_eq!(row.has_live_events, 0);
    assert_eq!(row.commands_json, "[]");
    assert_eq!(row.files_json, "[]");
    assert_eq!(row.questions_json, "[]");
    assert_eq!(row.duration_seconds, Some(9));
    assert_eq!(row.tokens.input, Some(10));
    assert_eq!(row.tokens.output, Some(5));
    assert_eq!(row.tokens.total, Some(15));
    assert_eq!(row.model_context, Some(4096));
    assert_eq!(row.rollout_size_bytes, Some(77));
    assert_eq!(row.search_blob, None);
    let row =
        conversation_row("/p/rollout-z.jsonl", &record, &fingerprint, &stats, Some("forced")).unwrap();
    assert_eq!(row.conversation_id, "forced");
    let mut with_blob = ConversationStats::default();
    with_blob.search_blob = "words".to_string();
    with_blob.has_live_events = true;
    with_blob.commands = vec!["ls".to_string(), "a \"b\"".to_string()];
    with_blob.questions = vec!["why?".to_string()];
    let stamped = RolloutFingerprint {
        modified_at: Some(Timestamp {
            unix_seconds: 1_735_689_600,
            nanosecond: 500_000_000,
            offset_seconds: 3600,
        }),
        size_bytes: None,
        sha256: None,
    };
    let row = conversation_row("/p/rollout-z.jsonl", &record, &stamped, &with_blob, None).unwrap();
    assert_eq!(row.search_blob.as_deref(), Some("words"));
    assert_eq!(row.has_live_events, 1);
    assert_eq!(row.commands_json, "[\"ls\",\"a \\\"b\\\"\"]");
    assert_eq!(row.questions_json, "[\"why?\"]");
    assert_eq!(row.rollout_modified_at.as_deref(), Some("2025-01-01T01:00:00.5+01:00"));
    assert_eq!(row.rollout_size_bytes, None);
}

#[test]
fn turn_row_holds_the_texts_of_the_turn() {
    let mut turn = turn_with(vec![Some("q1"), Some("q2")], vec![], vec!["r"]);
    turn.index = 4;
    turn.started_at =
        Some(Timestamp { unix_seconds: 86_400, nanosecond: 0, offset_seconds: -3600 });
    turn.result.fallback =
        Some(FallbackSummary { source: FallbackSource::AssistantReasoning, text: "r".to_string() });
    let row = turn_row(&turn);
    assert_eq!(row.turn_index, 4);
    assert_eq!(row.started_at.as_deref(), Some("1970-01-01 23:00:00.0 -01:00:00"));
    assert_eq!(row.user_text.as_deref(), Some("q1\n\nq2"));
    assert_eq!(row.assistant_text, None);
    assert_eq!(row.fallback_text.as_deref(), Some("[reasoning] r"));
}
