use conv_memory::extractor::{
    handle_function_output, handle_local_shell_call, handle_message, record_event,
};
use conv_memory::pipeline::{
    check_embedding_count, decide_update, fingerprint_matches, fingerprint_of,
    is_rollout_file_name, EMBED_BATCH_SIZE,
};
use conv_memory::stats::{collect_action_metadata, extract_patch_paths, telemetry_indicates_live};
use conv_memory::summary::render_summaries;
use conv_memory::text_set::sort_texts;
use conv_memory::{
    compute_conversation_stats, parse_rollout, plan_ingest, render_turn_summary, EmbedPlan,
    EmbedStep, EmbeddingError, JsonValue, PipelineError, RolloutFingerprint, Timestamp,
    TurnBuilder, UpdateDecision, UpdateStats,
};

fn json(text: &str) -> JsonValue {
    JsonValue::parse(text).expect("json")
}

fn at(second: i64) -> Timestamp {
    Timestamp { unix_seconds: second, nanosecond: 0, offset_seconds: 0 }
}

fn sample_rollout_with_assistant(text: &str) -> String {
    format!(
        r#"
{{"timestamp":"2025-01-01T00:00:00.000Z","type":"session_meta","payload":{{"id":"urn:uuid:test","cwd":"/tmp"}}}}
{{"timestamp":"2025-01-01T00:00:01.000Z","type":"response_item","payload":{{"type":"message","role":"user","content":[{{"type":"input_text","text":"hello"}}]}}}}
{{"timestamp":"2025-01-01T00:00:02.000Z","type":"response_item","payload":{{"type":"message","role":"assistant","content":[{{"type":"output_text","text":"{text}"}}]}}}}
"#,
        text = text
    )
}

fn sample_rollout() -> String {
    sample_rollout_with_assistant("hi there")
}

#[test]
fn pipeline_stores_rollout_without_embeddings() {
    let contents = sample_rollout();
    let fingerprint = fingerprint_of(contents.as_bytes(), Some(at(10)), Some(contents.len() as u64));
    let plan = plan_ingest("/tmp/rollout-sample.jsonl", &contents, &fingerprint, None).unwrap();
    let count = plan.turns.len() as i64;
    assert_eq!(count, 1);
    assert_eq!(plan.conversation.conversation_id, "urn:uuid:test");
    assert_eq!(plan.turns[0].turn_index, 0);
    assert_eq!(plan.turns[0].user_text.as_deref(), Some("hello"));
    assert_eq!(plan.turns[0].assistant_text.as_deref(), Some("hi there"));
    assert!(plan.turns[0].fallback_text.is_none());
}

#[test]
fn pipeline_processes_directory() {
    let nested = "/data/sessions/2025/10/01";
    let file_path = format!("{}/{}", nested, "rollout-2025-10-01T00-00-00-abc.jsonl");
    let found = vec![
        (format!("{}/notes.txt", nested), "notes.txt"),
        (file_path.clone(), "rollout-2025-10-01T00-00-00-abc.jsonl"),
        ("/data/sessions/rollout-dir/other.jsonl".to_string(), "other.jsonl"),
    ];
    let rollouts = sort_texts(
        found.into_iter().filter(|(_, name)| is_rollout_file_name(name)).map(|(path, _)| path).collect(),
    );
    assert_eq!(rollouts, vec![file_path.clone()]);
    let mut processed = 0usize;
    let mut count = 0i64;
    for path in &rollouts {
        let contents = sample_rollout();
        let fingerprint = fingerprint_of(contents.as_bytes(), None, None);
        let plan = plan_ingest(path, &contents, &fingerprint, None).unwrap();
        count += plan.turns.len() as i64;
        processed += 1;
    }
    assert_eq!(processed, 1);
    assert_eq!(count, 1);
}

#[test]
fn update_dir_skips_unchanged_and_refreshes_modified_files() {
    let path = "/data/rollout-2025-10-01T00-00-00-abc.jsonl";
    let contents = sample_rollout();
    let written = at(1_000);
    let stored = fingerprint_of(contents.as_bytes(), Some(written), Some(contents.len() as u64));
    let first = plan_ingest(path, &contents, &stored, None).unwrap();
    assert_eq!(first.turns.len(), 1);

    let mut stats = UpdateStats::default();
    stats.record(decide_update(Some(&stored), Some(written), Some(contents.len() as u64)));
    assert_eq!(stats.processed, 0);
    assert_eq!(stats.skipped, 1);

    let updated = sample_rollout_with_assistant("updated response");
    let rewritten = Timestamp { unix_seconds: 1_001, nanosecond: 100_000_000, offset_seconds: 0 };
    let mut stats = UpdateStats::default();
    let decision = decide_update(Some(&stored), Some(rewritten), Some(updated.len() as u64));
    stats.record(decision);
    assert_eq!(stats.processed, 1);
    assert_eq!(stats.skipped, 0);

    let fingerprint = fingerprint_of(updated.as_bytes(), Some(rewritten), Some(updated.len() as u64));
    let second = plan_ingest(path, &updated, &fingerprint, None).unwrap();
    assert_eq!(second.conversation.conversation_id, first.conversation.conversation_id);
    assert_eq!(second.turns.len(), 1);
    assert_eq!(second.turns[0].turn_index, first.turns[0].turn_index);
    let assistant = second.turns[0].assistant_text.clone().unwrap();
    assert!(assistant.contains("updated response"));
}

#[test]
fn ingesting_the_same_text_twice_gives_the_same_rows() {
    let contents = sample_rollout();
    let fingerprint = fingerprint_of(contents.as_bytes(), Some(at(5)), Some(3));
    let one = plan_ingest("/x/rollout-a.jsonl", &contents, &fingerprint, None).unwrap();
    let two = plan_ingest("/x/rollout-a.jsonl", &contents, &fingerprint, None).unwrap();
    assert_eq!(format!("{:?}", one), format!("{:?}", two));
    let mut keys: Vec<i64> = one.turns.iter().map(|t| t.turn_index).collect();
    keys.dedup();
    assert_eq!(keys.len(), one.turns.len());
}

#[test]
fn a_transcript_that_cannot_be_read_is_not_ingested() {
    let fingerprint = RolloutFingerprint::default();
    let err = plan_ingest("/x/rollout-a.jsonl", "{", &fingerprint, None).unwrap_err();
    assert!(matches!(err, PipelineError::Parse(_)));
}

#[test]
fn an_identity_override_names_the_conversation() {
    let contents = sample_rollout();
    let fingerprint = RolloutFingerprint::default();
    let plan = plan_ingest("/x/rollout-a.jsonl", &contents, &fingerprint, Some("chosen")).unwrap();
    assert_eq!(plan.conversation.conversation_id, "chosen");
}

#[test]
fn fingerprint_holds_the_sha256_of_the_bytes() {
    let fingerprint = fingerprint_of(b"abc", None, Some(3));
    assert_eq!(
        fingerprint.sha256.as_deref(),
        Some("ba7816bf8f01cfea414140de5dae2223b00361a396177a9cb410ff61f20015ad")
    );
    assert_eq!(fingerprint.size_bytes, Some(3));
    assert!(fingerprint.modified_at.is_none());
}

#[test]
fn fingerprint_matches_on_time_and_size_only() {
    let stored = fingerprint_of(b"abc", Some(at(7)), Some(3));
    assert!(fingerprint_matches(&stored, Some(at(7)), Some(3)));
    let other_offset = Timestamp { unix_seconds: 7, nanosecond: 0, offset_seconds: 3600 };
    assert!(fingerprint_matches(&stored, Some(other_offset), Some(3)));
    assert!(!fingerprint_matches(&stored, Some(at(7)), Some(4)));
    assert!(!fingerprint_matches(&stored, Some(at(8)), Some(3)));
    assert!(!fingerprint_matches(&stored, None, Some(3)));
    assert!(!fingerprint_matches(&stored, Some(at(7)), None));
    let bare = RolloutFingerprint::default();
    assert!(!fingerprint_matches(&bare, Some(at(7)), Some(3)));
    assert_eq!(decide_update(None, Some(at(7)), Some(3)), UpdateDecision::Ingest);
}

#[test]
fn rollout_file_names_start_and_end_as_prescribed() {
    assert!(is_rollout_file_name("rollout-2025.jsonl"));
    assert!(is_rollout_file_name("rollout-.jsonl"));
    assert!(!is_rollout_file_name("rollout-2025.json"));
    assert!(!is_rollout_file_name("xrollout-2025.jsonl"));
    assert!(!is_rollout_file_name("rollout.jsonl"));
    assert!(!is_rollout_file_name(""));
}

#[test]
fn rollouts_are_ingested_in_path_order() {
    let out = sort_texts(vec![
        "/r/b/rollout-1.jsonl".to_string(),
        "/r/a/rollout-2.jsonl".to_string(),
        "/r/a/rollout-1.jsonl".to_string(),
    ]);
    assert_eq!(out, vec!["/r/a/rollout-1.jsonl", "/r/a/rollout-2.jsonl", "/r/b/rollout-1.jsonl"]);
    assert!(sort_texts(Vec::new()).is_empty());
}

fn stats_rollout() -> &'static str {
    r#"{"timestamp":"2025-01-01T00:00:00Z","type":"session_meta","payload":{"id":"s1","workspace":{"cwd":"/ws"}}}
{"timestamp":"2025-01-01T00:00:01Z","type":"turn_context","payload":{"cwd":"/ctx","model":"gpt-x","summary":"LIVE"}}
{"timestamp":"2025-01-01T00:00:02Z","type":"response_item","payload":{"type":"message","role":"user","content":[{"type":"input_text","text":"  How are You?  "}]}}
{"timestamp":"2025-01-01T00:00:03Z","type":"response_item","payload":{"type":"message","role":"assistant","content":[{"type":"output_text","text":"Fine"}]}}
{"timestamp":"2025-01-01T00:00:04Z","type":"response_item","payload":{"type":"function_call","name":"exec_command","call_id":"c1","arguments":"{\"cmd\":\"  ls -la /tmp\",\"command\":[1,\"git\",\"status\"]}"}}
{"timestamp":"2025-01-01T00:00:05Z","type":"response_item","payload":{"type":"function_call","name":"apply_patch","call_id":"c2","arguments":"{\"patch\":\"*** Begin Patch\\n*** Update File: src/b.rs \\n*** Add File: src/a.rs\\n*** Delete File: old.txt\\n*** End Patch\"}"}}
{"timestamp":"2025-01-01T00:00:06Z","type":"response_item","payload":{"type":"function_call","name":"shell","call_id":"c3","arguments":"{\"command\":[\"cargo\",\"test\"]}"}}
{"timestamp":"2025-01-01T00:00:07Z","type":"response_item","payload":{"type":"message","role":"user","content":[{"type":"input_text","text":"Thanks"}]}}
"#
}

#[test]
fn stats_gather_questions_commands_and_files() {
    let record = parse_rollout(stats_rollout()).expect("parse");
    let stats = compute_conversation_stats(&record);
    assert_eq!(stats.cwd.as_deref(), Some("/ws"));
    assert_eq!(stats.model.as_deref(), Some("gpt-x"));
    assert!(stats.has_live_events);
    assert_eq!(stats.turn_count, 1);
    assert_eq!(stats.first_question.as_deref(), Some("How are You?"));
    assert_eq!(stats.last_question.as_deref(), Some("How are You?"));
    assert_eq!(stats.last_user_message.as_deref(), Some("Thanks"));
    assert_eq!(stats.preview.as_deref(), Some("How are You?"));
    assert_eq!(stats.questions, vec!["How are You?"]);
    assert_eq!(stats.commands, vec!["cargo", "git", "ls"]);
    assert_eq!(stats.files_touched, vec!["old.txt", "src/a.rs", "src/b.rs"]);
    assert_eq!(
        stats.search_blob,
        "how are you?\nthanks\nfine\nhow are you?\ncargo\ngit\nls\nold.txt\nsrc/a.rs\nsrc/b.rs"
    );
}

#[test]
fn stats_of_an_empty_record_are_empty() {
    let record = parse_rollout("").expect("parse");
    let stats = compute_conversation_stats(&record);
    assert!(stats.preview.is_none());
    assert!(stats.first_question.is_none());
    assert!(stats.cwd.is_none());
    assert!(!stats.has_live_events);
    assert_eq!(stats.turn_count, 0);
    assert!(stats.commands.is_empty());
    assert_eq!(stats.search_blob, "");
}

#[test]
fn stats_keep_the_five_latest_questions() {
    let mut data = String::new();
    for i in 0..7 {
        data.push_str(&format!(
            "{{\"timestamp\":\"2025-01-01T00:00:0{i}Z\",\"type\":\"response_item\",\"payload\":{{\"type\":\"message\",\"role\":\"user\",\"content\":[{{\"type\":\"input_text\",\"text\":\"q{i}?\"}}]}}}}\n"
        ));
        data.push_str(&format!(
            "{{\"timestamp\":\"2025-01-01T00:00:0{i}Z\",\"type\":\"response_item\",\"payload\":{{\"type\":\"message\",\"role\":\"user\",\"content\":[{{\"type\":\"input_text\",\"text\":\"statement {i}\"}}]}}}}\n"
        ));
    }
    let record = parse_rollout(&data).expect("parse");
    let stats = compute_conversation_stats(&record);
    assert_eq!(stats.questions, vec!["q2?", "q3?", "q4?", "q5?", "q6?"]);
    assert_eq!(stats.first_question.as_deref(), Some("q0?"));
    assert_eq!(stats.last_question.as_deref(), Some("q6?"));
    assert_eq!(stats.last_user_message.as_deref(), Some("statement 6"));
    assert_eq!(stats.preview.as_deref(), Some("q6?"));
    assert!(stats.cwd.is_none());
}

#[test]
fn preview_falls_back_to_the_last_message() {
    let data = r#"{"timestamp":"2025-01-01T00:00:00Z","type":"turn_context","payload":{"cwd":"/ctx"}}
{"timestamp":"2025-01-01T00:00:01Z","type":"response_item","payload":{"type":"message","role":"user","content":[{"type":"input_text","text":"Do it"}]}}
"#;
    let record = parse_rollout(data).expect("parse");
    let stats = compute_conversation_stats(&record);
    assert_eq!(stats.preview.as_deref(), Some("Do it"));
    assert!(stats.last_question.is_none());
    assert!(stats.questions.is_empty());
    assert_eq!(stats.cwd.as_deref(), Some("/ctx"));
    assert_eq!(stats.search_blob, "do it\ndo it");
    assert!(!stats.has_live_events);
}

#[test]
fn patch_paths_are_read_from_the_markers() {
    let patch = "*** Begin Patch\n*** Update File:  a/b.rs  \r\n+x\n*** Add File: c.txt\n***Delete File: no\n*** Delete File: d\n";
    assert_eq!(extract_patch_paths(patch), vec!["a/b.rs", "c.txt", "d"]);
    assert!(extract_patch_paths("").is_empty());
    assert!(extract_patch_paths("*** Update File:x").is_empty());
}

#[test]
fn action_metadata_is_deduplicated_and_sorted() {
    let mut turn = TurnBuilder::open(0, None, None);
    handle_local_shell_call(&mut turn, &json(r#"{"call_id":"1","action":{"command":["make","all"]}}"#));
    handle_local_shell_call(&mut turn, &json(r#"{"call_id":"2","action":{"command":["awk"]}}"#));
    handle_local_shell_call(&mut turn, &json(r#"{"call_id":"3","action":{"command":["make"]}}"#));
    handle_local_shell_call(&mut turn, &json(r#"{"call_id":"4","action":{"command":[""]}}"#));
    let record = turn.finish();
    let mut commands: Vec<String> = Vec::new();
    let mut files: Vec<String> = Vec::new();
    for action in &record.actions {
        collect_action_metadata(action, &mut commands, &mut files);
    }
    assert_eq!(commands, vec!["awk", "make"]);
    assert!(files.is_empty());
}

#[test]
fn live_telemetry_is_recognised() {
    let mut turn = TurnBuilder::open(0, None, None);
    record_event(&mut turn, at(1), json(r#"{"type":"note","kind":"live_state","message":"idle"}"#));
    assert!(!telemetry_indicates_live(&turn.telemetry));
    record_event(&mut turn, at(2), json(r#"{"type":"note","kind":"live_state","message":"now active!"}"#));
    assert!(telemetry_indicates_live(&turn.telemetry));

    let mut turn = TurnBuilder::open(0, None, None);
    record_event(&mut turn, at(1), json(r#"{"type":"note","kind":"live_state"}"#));
    assert!(telemetry_indicates_live(&turn.telemetry));

    let mut turn = TurnBuilder::open(0, None, None);
    record_event(&mut turn, at(1), json(r#"{"type":"listener_event"}"#));
    assert!(telemetry_indicates_live(&turn.telemetry));

    let turn = TurnBuilder::open(0, None, None);
    assert!(!telemetry_indicates_live(&turn.telemetry));
}

#[test]
fn summary_shows_inputs_texts_and_actions() {
    let record = parse_rollout(stats_rollout()).expect("parse");
    let summary = render_turn_summary(&record.turns[0]);
    assert_eq!(
        summary,
        "User:\n#1 How are You?\n\n#2 Thanks\n\nAssistant:\nFine\n\nActions:\n- function_call exec_command (call_id=c1)\n- function_call apply_patch (call_id=c2)\n- shell `cargo test` (call_id=c3)"
    );
    assert_eq!(render_summaries(&record), vec![summary]);
}

#[test]
fn summary_shows_images_status_fallback_and_output() {
    let mut turn = TurnBuilder::open(0, None, None);
    handle_message(
        &mut turn,
        json(r#"{"role":"user","content":[{"type":"input_image","image_url":"u"}]}"#),
    );
    handle_message(&mut turn, json(r#"{"role":"user","content":[]}"#));
    handle_message(
        &mut turn,
        json(
            r#"{"role":"user","content":[{"type":"input_text","text":" look "},{"type":"input_image","image_url":"a"},{"type":"input_image","image_url":"b"}]}"#,
        ),
    );
    handle_local_shell_call(
        &mut turn,
        &json(r#"{"call_id":"s1","status":"completed","action":{"command":["echo","hi"],"workdir":"/w"}}"#),
    );
    handle_function_output(&mut turn, &json(r#"{"call_id":"s1","output":"  result text  "}"#));
    let record = turn.finish();
    assert_eq!(
        render_turn_summary(&record),
        "User:\n#1 [1 image(s)]\n\n#3 look \n[2 image(s)]\n\nAssistant:\n[fallback ToolOutput]   result text  \n\nActions:\n- shell `echo hi` (cwd: /w) (call_id=s1) [status: completed] -> result text"
    );
}

#[test]
fn summary_of_an_empty_turn_says_so() {
    let record = TurnBuilder::open(3, None, None).finish();
    assert_eq!(render_turn_summary(&record), "No transcript recorded for this turn.");
}

#[test]
fn summary_cuts_long_output_after_200_characters() {
    let mut turn = TurnBuilder::open(0, None, None);
    let long = "é".repeat(250);
    let payload = format!("{{\"output\":\"{}\"}}", long);
    handle_function_output(&mut turn, &json(&payload));
    let record = turn.finish();
    let summary = render_turn_summary(&record);
    let expected = format!(
        "Assistant:\n[fallback ToolOutput] {}\n\nActions:\n- other -> {}",
        long,
        "é".repeat(200)
    );
    assert_eq!(summary, expected);
}

#[test]
fn embedding_plan_walks_the_batches() {
    let mut plan = EmbedPlan::new(70);
    assert_eq!(EMBED_BATCH_SIZE, 32);
    assert_eq!(plan.next_step(), EmbedStep::Batch { start: 0, end: 32 });
    assert!(plan.batch_returned(32));
    assert_eq!(plan.next_step(), EmbedStep::Batch { start: 32, end: 64 });
    assert!(plan.batch_returned(32));
    assert_eq!(plan.next_step(), EmbedStep::Batch { start: 64, end: 70 });
    assert!(plan.batch_returned(6));
    assert_eq!(plan.next_step(), EmbedStep::Done);
    assert_eq!(plan.embedded, 70);
    assert!(check_embedding_count(plan.embedded, 70).is_ok());
}

#[test]
fn a_short_batch_is_embedded_one_by_one() {
    let mut plan = EmbedPlan::new(40);
    assert_eq!(plan.next_step(), EmbedStep::Batch { start: 0, end: 32 });
    assert!(!plan.batch_returned(31));
    let mut vectors = 0usize;
    for index in 0..32 {
        assert_eq!(plan.next_step(), EmbedStep::Single { index });
        plan.single_returned();
        vectors += 1;
    }
    assert_eq!(plan.next_step(), EmbedStep::Batch { start: 32, end: 40 });
    assert!(!plan.batch_returned(0));
    for index in 32..40 {
        assert_eq!(plan.next_step(), EmbedStep::Single { index });
        plan.single_returned();
        vectors += 1;
    }
    assert_eq!(plan.next_step(), EmbedStep::Done);
    assert_eq!(vectors, 40);
    assert!(check_embedding_count(vectors, 40).is_ok());
}

#[test]
fn an_empty_plan_is_done_at_once() {
    let mut plan = EmbedPlan::new(0);
    assert_eq!(plan.next_step(), EmbedStep::Done);
    assert!(!plan.batch_returned(0));
    plan.single_returned();
    assert_eq!(plan, EmbedPlan::new(0));
}

#[test]
fn a_missing_vector_fails_the_ingestion() {
    for vectors in [2usize, 4] {
        match check_embedding_count(vectors, 3) {
            Err(PipelineError::Embedding(e)) => assert_eq!(e, EmbeddingError::MissingOutput),
            other => panic!("unexpected outcome {:?}", other),
        }
    }
    assert!(check_embedding_count(0, 0).is_ok());
}

#[test]
fn update_stats_count_by_decision() {
    let mut stats = UpdateStats::default();
    stats.record(UpdateDecision::Ingest);
    stats.record(UpdateDecision::Skip);
    stats.record(UpdateDecision::Ingest);
    assert_eq!(stats, UpdateStats { processed: 2, skipped: 1 });
    let mut full = UpdateStats { processed: usize::MAX, skipped: 0 };
    full.record(UpdateDecision::Ingest);
    assert_eq!(full.processed, usize::MAX);
}
