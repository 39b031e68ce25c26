use memory_pipeline::boundary::{BoundaryDetector, BoundaryResult, BoundaryStep, FlushDecision};
use memory_pipeline::buffer::BufferedMessage;
use memory_pipeline::config::PipelineConfig;
use memory_pipeline::prompts::{BOUNDARY_EN, BOUNDARY_IT};
use memory_pipeline::score::Score;

fn message(role: &str, content: &str) -> BufferedMessage {
    BufferedMessage::new("m".to_string(), "s1", role, content, "2026-04-05T10:00:00+00:00".to_string())
}

fn detector(config: PipelineConfig) -> BoundaryDetector {
    BoundaryDetector::new(config, "main".to_string())
}

fn result(should_end: bool, confidence: f64) -> BoundaryResult {
    BoundaryResult {
        reasoning: "because".to_string(),
        should_end,
        confidence: Score { bits: confidence.to_bits() },
        confidence_text: format!("{confidence:.2}"),
        topic_summary: "trip to Rome".to_string(),
    }
}

fn flush_reason(step: BoundaryStep) -> String {
    match step {
        BoundaryStep::Decided(FlushDecision::Flush { reason }) => reason,
        other => panic!("no flush: {other:?}"),
    }
}

#[test]
fn an_empty_buffer_waits() {
    let step = detector(PipelineConfig::default()).should_flush(&[]);
    assert!(matches!(step, BoundaryStep::Decided(FlushDecision::Wait)));
    let none = PipelineConfig { hard_token_limit: 0, hard_message_limit: 0, ..PipelineConfig::default() };
    assert!(matches!(detector(none).should_flush(&[]), BoundaryStep::Decided(FlushDecision::Wait)));
}

#[test]
fn the_token_limit_comes_first() {
    let config = PipelineConfig { hard_token_limit: 2, hard_message_limit: 1, ..PipelineConfig::default() };
    let step = detector(config).should_flush(&[message("user", "12345678")]);
    assert_eq!(flush_reason(step), "hard token limit (2 >= 2)");
}

#[test]
fn the_message_limit_comes_second() {
    let config = PipelineConfig { hard_token_limit: 3, hard_message_limit: 2, ..PipelineConfig::default() };
    let step = detector(config).should_flush(&[message("user", "12345"), message("user", "6789")]);
    assert_eq!(flush_reason(step), "hard message limit (2 >= 2)");
}

#[test]
fn more_messages_never_undo_a_hard_limit() {
    let config = PipelineConfig { hard_token_limit: 2, ..PipelineConfig::default() };
    let mut messages = vec![message("user", "12345678")];
    assert_eq!(flush_reason(detector(config.clone()).should_flush(&messages)), "hard token limit (2 >= 2)");
    messages.push(message("assistant", "1234"));
    assert_eq!(flush_reason(detector(config).should_flush(&messages)), "hard token limit (3 >= 2)");
}

#[test]
fn a_single_message_waits() {
    let step = detector(PipelineConfig::default()).should_flush(&[message("user", "hi")]);
    assert!(matches!(step, BoundaryStep::Decided(FlushDecision::Wait)));
}

#[test]
fn two_messages_are_put_to_the_model() {
    let messages = [message("user", "hi"), message("assistant", "hello"), message("user", "bye")];
    match detector(PipelineConfig::default()).should_flush(&messages) {
        BoundaryStep::Ask(query) => {
            assert_eq!(query.model, "main");
            assert_eq!(query.system, None);
            assert_eq!(
                query.user,
                BOUNDARY_EN
                    .replace("{history}", "user: hi\n\nassistant: hello")
                    .replace("{new_messages}", "user: bye")
            );
        }
        other => panic!("not asked: {other:?}"),
    }
}

#[test]
fn the_question_is_put_in_italian_to_the_extraction_model() {
    let config = PipelineConfig {
        prompt_language: "it".to_string(),
        extraction_model: Some("small".to_string()),
        ..PipelineConfig::default()
    };
    let messages = [message("user", "ciao"), message("user", "{new_messages}")];
    match detector(config).should_flush(&messages) {
        BoundaryStep::Ask(query) => {
            assert_eq!(query.model, "small");
            assert_eq!(
                query.user,
                BOUNDARY_IT
                    .replace("{history}", "user: ciao")
                    .replace("{new_messages}", "user: {new_messages}")
            );
        }
        other => panic!("not asked: {other:?}"),
    }
}

#[test]
fn a_confident_end_flushes() {
    match detector(PipelineConfig::default()).judge(&result(true, 0.85)) {
        FlushDecision::Flush { reason } => {
            assert_eq!(reason, "boundary detected (confidence=0.85): trip to Rome")
        }
        FlushDecision::Wait => panic!("kept waiting"),
    }
    assert!(matches!(
        detector(PipelineConfig::default()).judge(&result(true, 0.6)),
        FlushDecision::Flush { .. }
    ));
}

#[test]
fn a_doubtful_or_absent_end_waits() {
    let detector = detector(PipelineConfig::default());
    assert!(matches!(detector.judge(&result(true, 0.59)), FlushDecision::Wait));
    assert!(matches!(detector.judge(&result(false, 1.0)), FlushDecision::Wait));
    assert!(matches!(detector.judge(&result(true, f64::NAN)), FlushDecision::Wait));
}
