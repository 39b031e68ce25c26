use memory_pipeline::buffer::{
    count_chars, cutoff_text, estimate_tokens, estimated_tokens, stale_cutoff, timestamp,
    BufferedMessage,
};
use memory_pipeline::config::PipelineConfig;
use memory_pipeline::pipeline::Pipeline;

fn message(role: &str, content: &str) -> BufferedMessage {
    BufferedMessage::new("m".to_string(), "s1", role, content, "2026-04-05T10:00:00+00:00".to_string())
}

fn is_random_uuid(text: &str) -> bool {
    let chars: Vec<char> = text.chars().collect();
    chars.len() == 36
        && chars.iter().enumerate().all(|(i, c)| match i {
            8 | 13 | 18 | 23 => *c == '-',
            14 => *c == '4',
            19 => matches!(c, '8' | '9' | 'a' | 'b'),
            _ => matches!(c, '0'..='9' | 'a'..='f'),
        })
}

#[test]
fn messages_are_written_as_a_conversation() {
    assert_eq!(BufferedMessage::format_slice(&[]), "");
    assert_eq!(BufferedMessage::format_slice(&[message("user", "hi")]), "user: hi");
    assert_eq!(
        BufferedMessage::format_slice(&[message("user", "hi"), message("assistant", "hello\nyou")]),
        "user: hi\n\nassistant: hello\nyou"
    );
}

#[test]
fn a_conversation_in_two_parts_is_joined_by_a_blank_line() {
    let all = [message("user", "a"), message("assistant", "b"), message("user", "c")];
    assert_eq!(
        BufferedMessage::format_slice(&all),
        format!(
            "{}\n\n{}",
            BufferedMessage::format_slice(&all[..1]),
            BufferedMessage::format_slice(&all[1..])
        )
    );
}

#[test]
fn the_length_of_a_message_is_in_characters() {
    assert_eq!(message("user", "abc").char_count, 3);
    assert_eq!(message("user", "é").char_count, 1);
    assert_eq!(message("user", "é€\u{1f600}").char_count, 3);
    assert_eq!(message("user", "").char_count, 0);
    assert_eq!(count_chars(&[message("user", "abc"), message("user", "é€")]), 5);
    assert_eq!(count_chars(&[]), 0);
    let pipeline = Pipeline::new(PipelineConfig::default(), "main".to_string(), false);
    assert_eq!(pipeline.append_to_buffer("s1", "user", "è").char_count, 1);
}

#[test]
fn four_characters_make_a_token() {
    assert_eq!(estimate_tokens(0), 0);
    assert_eq!(estimate_tokens(3), 0);
    assert_eq!(estimate_tokens(4), 1);
    assert_eq!(estimate_tokens(16387), 4096);
}

#[test]
fn tokens_are_estimated_after_adding_up() {
    assert_eq!(estimated_tokens(&[]), 0);
    assert_eq!(estimated_tokens(&[message("user", "abc"), message("user", "de")]), 1);
    assert_eq!(estimated_tokens(&[message("user", "éééé"), message("user", "éééé")]), 2);
}

#[test]
fn appended_messages_carry_a_fresh_identifier_and_a_time() {
    let pipeline = Pipeline::new(PipelineConfig::default(), "main".to_string(), false);
    let first = pipeline.append_to_buffer("s1", "user", "hi");
    let second = pipeline.append_to_buffer("s1", "user", "hi");
    assert!(is_random_uuid(&first.id));
    assert!(is_random_uuid(&second.id));
    assert_ne!(first.id, second.id);
    assert_eq!(first.session_id, "s1");
    assert_eq!(first.role, "user");
    assert_eq!(first.content, "hi");
    assert_eq!(first.char_count, 2);
    assert!(first.created_at.ends_with("+00:00"));
    assert!(first.created_at.starts_with("20"));
    assert!(first.created_at <= second.created_at || first.created_at.len() != second.created_at.len());
}

#[test]
fn timestamps_are_in_utc_and_agree_with_the_clock() {
    let before = chrono::Utc::now();
    let parsed = chrono::DateTime::parse_from_rfc3339(&timestamp()).unwrap();
    let after = chrono::Utc::now();
    assert!(before <= parsed && parsed <= after);
}

#[test]
fn cutoffs_are_written_by_rfc_3339() {
    assert_eq!(cutoff_text(0, 0, 0), "1970-01-01T00:00:00+00:00");
    assert_eq!(cutoff_text(1_775_383_200, 0, 24), "2026-04-04T10:00:00+00:00");
    assert_eq!(cutoff_text(1_775_383_200, 500_000_000, 0), "2026-04-05T10:00:00.500+00:00");
    assert_eq!(cutoff_text(3600, 0, 2), "1969-12-31T23:00:00+00:00");
}

#[test]
fn the_stale_cutoff_lies_before_now() {
    let cutoff = stale_cutoff(24).unwrap();
    let parsed = chrono::DateTime::parse_from_rfc3339(&cutoff).unwrap();
    let age = chrono::Utc::now().signed_duration_since(parsed);
    assert!(age >= chrono::Duration::hours(24));
    assert!(age < chrono::Duration::hours(25));
    assert!(stale_cutoff(2_315_167_008).is_some());
}

#[test]
fn there_is_no_cutoff_out_of_range() {
    assert!(stale_cutoff(3_000_000_000).is_none());
    assert!(stale_cutoff(i64::MAX as u64).is_none());
    assert!(stale_cutoff(u64::MAX).is_none());
}

#[test]
fn copies_of_a_message_hold_the_same() {
    let original = message("user", "hi");
    let copy = original.clone();
    assert_eq!(copy.id, original.id);
    assert_eq!(copy.session_id, original.session_id);
    assert_eq!(copy.role, original.role);
    assert_eq!(copy.content, original.content);
    assert_eq!(copy.char_count, original.char_count);
    assert_eq!(copy.created_at, original.created_at);
}
