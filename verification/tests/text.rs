use conv_memory::embedding::EmbeddingModelConfig;
use conv_memory::text::{
    chars_of, concatenate, contains_char, contains_text, count_tokens, decimal_string, ends_with,
    eq_ignore_ascii_case, first_token_of, join, split_lines, starts_with, take_chars, text_less,
    trim,
};
use conv_memory::text_set::{insert_text, sort_texts};
use conv_memory::{EmbeddingError, Timestamp};

fn strings(items: &[&str]) -> Vec<String> {
    items.iter().map(|s| s.to_string()).collect()
}

#[test]
fn trim_removes_whitespace_at_both_ends() {
    assert_eq!(trim("  a b \n"), "a b");
    assert_eq!(trim("\u{2003}x\u{a0}"), "x");
    assert_eq!(trim("   "), "");
    assert_eq!(trim(""), "");
    assert_eq!(trim("x"), "x");
}

#[test]
fn lines_end_at_line_feeds() {
    assert_eq!(split_lines("a\nb\r\n\nc"), strings(&["a", "b", "", "c"]));
    assert_eq!(split_lines("a\n"), strings(&["a"]));
    assert_eq!(split_lines("a\r"), strings(&["a\r"]));
    assert_eq!(split_lines("\n"), strings(&[""]));
    assert!(split_lines("").is_empty());
    assert_eq!(split_lines("é\r\nü"), strings(&["é", "ü"]));
    let text = "x\r\r\ny\n\n";
    let expected: Vec<String> = text.lines().map(String::from).collect();
    assert_eq!(split_lines(text), expected);
}

#[test]
fn tokens_are_runs_without_whitespace() {
    assert_eq!(first_token_of("  ls -la").as_deref(), Some("ls"));
    assert_eq!(first_token_of("ls").as_deref(), Some("ls"));
    assert_eq!(first_token_of(" \t"), None);
    assert_eq!(first_token_of(""), None);
    assert_eq!(count_tokens(&chars_of(" a  bc d ")), 3);
    assert_eq!(count_tokens(&chars_of("")), 0);
}

#[test]
fn decimal_notation_has_no_leading_zeros() {
    assert_eq!(decimal_string(0), "0");
    assert_eq!(decimal_string(7), "7");
    assert_eq!(decimal_string(10), "10");
    assert_eq!(decimal_string(1_234_567_890), "1234567890");
    assert_eq!(decimal_string(u64::MAX), "18446744073709551615");
}

#[test]
fn joining_and_concatenating_keep_the_order() {
    assert_eq!(join(&strings(&["a", "b", "c"]), ", "), "a, b, c");
    assert_eq!(join(&strings(&["a"]), ", "), "a");
    assert_eq!(join(&strings(&[]), ", "), "");
    assert_eq!(join(&strings(&["", ""]), "-"), "-");
    assert_eq!(concatenate(&strings(&["ab", "", "c"])), "abc");
}

#[test]
fn searching_in_texts() {
    assert!(contains_char("what?", '?'));
    assert!(!contains_char("what", '?'));
    assert!(contains_text("is now active!", "active"));
    assert!(contains_text("active", "active"));
    assert!(!contains_text("activ", "active"));
    assert!(contains_text("x", ""));
    assert!(starts_with("rollout-1", "rollout-"));
    assert!(!starts_with("rollout", "rollout-"));
    assert!(ends_with("a.jsonl", ".jsonl"));
    assert!(!ends_with("jsonl", ".jsonl"));
    assert!(eq_ignore_ascii_case("LiVe", "live"));
    assert!(!eq_ignore_ascii_case("lives", "live"));
    assert!(!eq_ignore_ascii_case("Ä", "ä"));
}

#[test]
fn the_first_characters_of_a_text() {
    assert_eq!(take_chars("héllo", 2), "hé");
    assert_eq!(take_chars("hi", 5), "hi");
    assert_eq!(take_chars("hi", 0), "");
}

#[test]
fn texts_are_ordered_by_code_point() {
    assert!(text_less("a", "b"));
    assert!(text_less("a", "ab"));
    assert!(text_less("", "a"));
    assert!(!text_less("a", "a"));
    assert!(!text_less("b", "a"));
    assert!(text_less("Z", "a"));
    for (a, b) in [("z", "é"), ("é", "\u{10000}"), ("\u{ffff}", "\u{10000}"), ("call-1", "call-10")] {
        assert_eq!(text_less(a, b), a < b);
        assert_eq!(text_less(b, a), b < a);
    }
}

#[test]
fn text_sets_stay_sorted_without_duplicates() {
    let mut set: Vec<String> = Vec::new();
    for item in ["m", "a", "z", "m", "b", "a"] {
        insert_text(&mut set, item.to_string());
    }
    assert_eq!(set, strings(&["a", "b", "m", "z"]));
    assert_eq!(sort_texts(strings(&["b", "a", "c", "a"])), strings(&["a", "a", "b", "c"]));
}

#[test]
fn timestamps_are_read_from_rfc3339() {
    let t = Timestamp::parse_rfc3339("2025-01-01T00:00:05.250+02:00").unwrap();
    assert_eq!(t.unix_seconds, 1_735_689_600 - 7200 + 5);
    assert_eq!(t.nanosecond, 250_000_000);
    assert_eq!(t.offset_seconds, 7200);
    assert!(Timestamp::parse_rfc3339("2025-01-01").is_err());
    assert!(Timestamp::parse_rfc3339("").is_err());
    assert_eq!(t.to_rfc3339().as_deref(), Some("2025-01-01T00:00:05.25+02:00"));
    assert_eq!(t.to_display_string().as_deref(), Some("2025-01-01 0:00:05.25 +02:00:00"));
    let again = Timestamp::parse_rfc3339(&t.to_rfc3339().unwrap()).unwrap();
    assert_eq!(again, t);
    let beyond = Timestamp { unix_seconds: i64::MAX, nanosecond: 0, offset_seconds: 0 };
    assert_eq!(beyond.to_rfc3339(), None);
    assert_eq!(beyond.to_display_string(), None);
    let bad_nanos = Timestamp { unix_seconds: 0, nanosecond: 1_000_000_000, offset_seconds: 0 };
    assert_eq!(bad_nanos.to_rfc3339(), None);
    let bad_offset = Timestamp { unix_seconds: 0, nanosecond: 0, offset_seconds: 200_000 };
    assert_eq!(bad_offset.to_display_string(), None);
}

#[test]
fn whole_seconds_between_instants() {
    let at = |s: i64, n: u32| Timestamp { unix_seconds: s, nanosecond: n, offset_seconds: 0 };
    assert_eq!(at(10, 0).seconds_since(&at(4, 0)), 6);
    assert_eq!(at(10, 100).seconds_since(&at(4, 200)), 5);
    assert_eq!(at(10, 200).seconds_since(&at(4, 200)), 6);
    assert_eq!(at(4, 0).seconds_since(&at(10, 0)), 0);
    assert_eq!(at(4, 0).seconds_since(&at(4, 0)), 0);
    assert_eq!(at(-1, 0).seconds_since(&at(-3, 500_000_000)), 1);
    assert_eq!(at(i64::MAX, 999_999_999).seconds_since(&at(i64::MIN, 0)), u64::MAX);
    let east = Timestamp { unix_seconds: 5, nanosecond: 1, offset_seconds: 3600 };
    assert!(east.same_instant(&at(5, 1)));
    assert!(!east.same_instant(&at(5, 2)));
    assert_ne!(east, at(5, 1));
}

#[test]
fn embedding_config_starts_with_defaults() {
    let config = EmbeddingModelConfig::new("models/embed.gguf");
    assert_eq!(config.model_path, "models/embed.gguf");
    assert!(config.gpu_layers.is_none());
    assert!(config.threads.is_none());
    assert!(config.threads_batch.is_none());
    assert_eq!(config.thread_counts(8), (7, 7));
    assert_eq!(config.thread_counts(1), (1, 1));
    assert_eq!(config.thread_counts(0), (1, 1));
    assert_eq!(config.thread_counts(2), (1, 1));
    let mut tuned = config.clone();
    tuned.threads = Some(4);
    assert_eq!(tuned.thread_counts(8), (4, 4));
    tuned.threads_batch = Some(2);
    assert_eq!(tuned.thread_counts(8), (4, 2));
    assert_eq!(EmbeddingError::MissingOutput.message(), "embedding output missing");
    assert_eq!(EmbeddingError::Unavailable.message(), "embedding runtime not available");
}
