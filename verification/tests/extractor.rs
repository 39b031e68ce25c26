use memory_pipeline::buffer::BufferedMessage;
use memory_pipeline::chat::{
    choose_model, fallback_query, parse_error_message, trimmed_reply_text, ChatQuery,
};
use memory_pipeline::config::PipelineConfig;
use memory_pipeline::extractor::episode::EpisodeExtractor;
use memory_pipeline::extractor::event_log::EventLogExtractor;
use memory_pipeline::extractor::foresight::{ForesightEntry, ForesightExtractor};
use memory_pipeline::extractor::profile;
use memory_pipeline::extractor::{AtomicFact, EpisodeData, EventLogData};
use memory_pipeline::prompts::{
    choose_episode_prompt, choose_event_log_prompt, choose_foresight_prompt, choose_profile_prompt,
    EPISODE_EN, EPISODE_IT, EVENT_LOG_EN, EVENT_LOG_IT, FORESIGHT_EN, FORESIGHT_IT, PROFILE_EN,
    PROFILE_IT,
};
use memory_pipeline::store::SavedEpisode;

fn message(role: &str, content: &str) -> BufferedMessage {
    BufferedMessage::new("m".to_string(), "s1", role, content, "2026-04-05T10:00:00+00:00".to_string())
}

fn italian() -> PipelineConfig {
    PipelineConfig {
        prompt_language: "it".to_string(),
        extraction_model: Some("small".to_string()),
        ..PipelineConfig::default()
    }
}

fn episode(id: &str) -> SavedEpisode {
    SavedEpisode {
        id: id.to_string(),
        subject: format!("subject {id}"),
        episode: format!("story {id}"),
        summary: format!("summary {id}"),
        created_at: "2026-04-05T10:00:00+00:00".to_string(),
    }
}

#[test]
fn the_extraction_model_is_preferred() {
    assert_eq!(choose_model(&PipelineConfig::default(), "main"), "main");
    assert_eq!(choose_model(&italian(), "main"), "small");
}

#[test]
fn a_failed_model_falls_back_to_the_main_one() {
    let query = ChatQuery {
        model: "bad".to_string(),
        system: Some("be brief".to_string()),
        user: "hi".to_string(),
    };
    let again = fallback_query(&query, "main").unwrap();
    assert_eq!(again.model, "main");
    assert_eq!(again.system.as_deref(), Some("be brief"));
    assert_eq!(again.user, "hi");
    assert!(fallback_query(&again, "main").is_none());
    let extractor = EpisodeExtractor::new(italian(), "main".to_string());
    let query = extractor.extract(&[message("user", "hi")]);
    let again = fallback_query(&query, "main").unwrap();
    assert_eq!((query.model.as_str(), again.model.as_str()), ("small", "main"));
    assert_eq!(again.user, query.user);
    let extractor = EpisodeExtractor::new(PipelineConfig::default(), "main".to_string());
    assert!(fallback_query(&extractor.extract(&[message("user", "hi")]), "main").is_none());
}

#[test]
fn replies_are_trimmed() {
    assert_eq!(trimmed_reply_text(None), "");
    assert_eq!(trimmed_reply_text(Some("\n {} ".to_string())), "{}");
}

#[test]
fn parse_errors_name_the_stage_and_the_reply() {
    assert_eq!(
        parse_error_message("Profile", "expected value", "oops"),
        "Profile JSON parse error: expected value\nRaw: oops"
    );
}

#[test]
fn the_narrative_is_asked_for() {
    let messages = [message("user", "hi"), message("assistant", "hello")];
    let query = EpisodeExtractor::new(PipelineConfig::default(), "main".to_string()).extract(&messages);
    assert_eq!(query.model, "main");
    assert_eq!(query.system, None);
    assert_eq!(query.user, EPISODE_EN.replace("{conversation}", "user: hi\n\nassistant: hello"));
    let query = EpisodeExtractor::new(italian(), "main".to_string()).extract(&messages);
    assert_eq!(query.model, "small");
    assert_eq!(query.user, EPISODE_IT.replace("{conversation}", "user: hi\n\nassistant: hello"));
}

#[test]
fn the_facts_are_asked_for() {
    let messages = [message("user", "hi")];
    let query = EventLogExtractor::new(PipelineConfig::default(), "main".to_string()).extract(&messages);
    assert_eq!(query.model, "main");
    assert_eq!(query.system, None);
    assert_eq!(query.user, EVENT_LOG_EN.replace("{conversation}", "user: hi"));
    let query = EventLogExtractor::new(italian(), "main".to_string()).extract(&messages);
    assert_eq!(query.user, EVENT_LOG_IT.replace("{conversation}", "user: hi"));
}

#[test]
fn predictions_are_asked_for() {
    let extractor = ForesightExtractor::new(PipelineConfig::default(), "main".to_string());
    let query = extractor.extract("user: hi", "a {buffer_content} summary");
    assert_eq!(query.model, "main");
    assert_eq!(
        query.system.as_deref(),
        Some("You are a memory foresight engine. Extract behavioral predictions.")
    );
    // What the summary brings in is filled in as well.
    assert_eq!(
        query.user,
        FORESIGHT_EN
            .replace("{episode_summary}", "a {buffer_content} summary")
            .replace("{buffer_content}", "user: hi")
    );
    assert!(query.user.contains("a user: hi summary"));
    let query = ForesightExtractor::new(italian(), "main".to_string()).extract("c", "s");
    assert_eq!(query.model, "small");
    assert_eq!(
        query.user,
        FORESIGHT_IT.replace("{episode_summary}", "s").replace("{buffer_content}", "c")
    );
}

#[test]
fn the_profile_is_asked_for() {
    let episodes = [episode("e1"), episode("e2")];
    let rendered = "[Episode e1] (2026-04-05T10:00:00+00:00)\nSubject: subject e1\nstory e1\n\n---\n[Episode e2] (2026-04-05T10:00:00+00:00)\nSubject: subject e2\nstory e2\n";
    assert_eq!(profile::render_episodes(&episodes), rendered);
    assert_eq!(profile::render_episodes(&[]), "");
    let query = profile::extract("small".to_string(), "{}", &episodes, "en");
    assert_eq!(query.model, "small");
    assert_eq!(
        query.system.as_deref(),
        Some("You are a user profile extraction engine. Analyze episodes and extract structured attributes.")
    );
    assert_eq!(
        query.user,
        PROFILE_EN.replace("{current_profile_json}", "{}").replace("{recent_episodes}", rendered)
    );
    let query = profile::extract("small".to_string(), "{}", &episodes, "it");
    assert_eq!(
        query.user,
        PROFILE_IT.replace("{current_profile_json}", "{}").replace("{recent_episodes}", rendered)
    );
}

#[test]
fn every_prompt_has_its_places() {
    for language in ["en", "it", "fr"] {
        assert!(choose_episode_prompt(language).contains("{conversation}"));
        assert!(choose_event_log_prompt(language).contains("{conversation}"));
        assert!(choose_foresight_prompt(language).contains("{episode_summary}"));
        assert!(choose_foresight_prompt(language).contains("{buffer_content}"));
        assert!(choose_profile_prompt(language).contains("{current_profile_json}"));
        assert!(choose_profile_prompt(language).contains("{recent_episodes}"));
    }
    assert_eq!(choose_profile_prompt("fr"), choose_profile_prompt("en"));
    assert_ne!(choose_profile_prompt("it"), choose_profile_prompt("en"));
}

#[test]
fn copies_of_extracted_data_hold_the_same() {
    let data = EpisodeData {
        subject: "a".to_string(),
        episode: "b".to_string(),
        summary: "c".to_string(),
    };
    let copy = data.clone();
    assert_eq!((copy.subject, copy.episode, copy.summary), (data.subject, data.episode, data.summary));
    let logs = EventLogData {
        atomic_facts: vec![AtomicFact { fact: "f".to_string(), time: Some("t".to_string()) }],
    };
    let copy = logs.clone();
    assert_eq!(copy.atomic_facts.len(), 1);
    assert_eq!(copy.atomic_facts[0].fact, "f");
    assert_eq!(copy.atomic_facts[0].time.as_deref(), Some("t"));
    let entry = ForesightEntry {
        content: "c".to_string(),
        evidence: "e".to_string(),
        start_time: None,
        end_time: Some("2099-12-31".to_string()),
    };
    let copy = entry.clone();
    assert_eq!(copy.content, "c");
    assert_eq!(copy.evidence, "e");
    assert_eq!(copy.start_time, None);
    assert_eq!(copy.end_time.as_deref(), Some("2099-12-31"));
}
