use memory_pipeline::config::PipelineConfig;
use memory_pipeline::pipeline::Pipeline;
use memory_pipeline::score::Score;

fn score(value: f64) -> Score {
    Score { bits: value.to_bits() }
}

#[test]
fn the_defaults_are_those_of_the_documentation() {
    let config = PipelineConfig::default();
    assert!(!config.enabled);
    assert_eq!(config.extraction_model, None);
    assert_eq!(config.prompt_language, "en");
    assert_eq!(f64::from_bits(config.boundary_threshold.bits), 0.6);
    assert_eq!(config.hard_token_limit, 4096);
    assert_eq!(config.hard_message_limit, 30);
    assert_eq!(config.buffer_ttl_hours, 24);
    assert_eq!(config.max_episodic_entries, 5);
    assert_eq!(config.max_facts_entries, 5);
    assert_eq!(config.max_foresight_entries, 3);
    assert_eq!(config.profile_update_interval, 5);
}

#[test]
fn a_pipeline_is_off_unless_it_is_enabled() {
    assert!(!Pipeline::new(PipelineConfig::default(), "main".to_string(), false).is_enabled());
    let on = PipelineConfig { enabled: true, ..PipelineConfig::default() };
    assert!(Pipeline::new(on.clone(), "main".to_string(), true).is_enabled());
}

#[test]
fn scores_compare_as_the_numbers_do() {
    let values = [
        f64::NEG_INFINITY,
        -1.5,
        -1.0,
        -f64::MIN_POSITIVE,
        -0.0,
        0.0,
        f64::MIN_POSITIVE / 2.0,
        0.59,
        0.6,
        1.0,
        1e300,
        f64::INFINITY,
        f64::NAN,
        -f64::NAN,
    ];
    for left in values {
        for right in values {
            assert_eq!(score(left).at_least(score(right)), left >= right, "{left} {right}");
        }
        assert_eq!(score(left).not_a_number(), left.is_nan());
    }
}

#[test]
fn named_scores_are_what_they_say() {
    assert_eq!(f64::from_bits(Score::zero().bits), 0.0);
    assert_eq!(f64::from_bits(Score::minus_one().bits), -1.0);
    assert_eq!(score(-0.0).ordering_key(), 0);
    assert!(score(-1.0).ordering_key() < 0);
    assert!(score(2.0).ordering_key() > score(1.0).ordering_key());
}
