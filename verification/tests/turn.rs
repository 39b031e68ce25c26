use memory_pipeline::boundary::BoundaryResult;
use memory_pipeline::buffer::BufferedMessage;
use memory_pipeline::config::PipelineConfig;
use memory_pipeline::extractor::foresight::ForesightEntry;
use memory_pipeline::extractor::{AtomicFact, EpisodeData, EventLogData};
use memory_pipeline::pipeline::Pipeline;
use memory_pipeline::profile_types::{LeveledAttribute, ProfileData};
use memory_pipeline::prompts::{EPISODE_EN, EVENT_LOG_EN, FORESIGHT_EN, PROFILE_EN};
use memory_pipeline::score::Score;
use memory_pipeline::store::SavedEpisode;
use memory_pipeline::turn::{Action, Event, Turn, TurnEnd};

fn message(role: &str, content: &str) -> BufferedMessage {
    BufferedMessage::new("m".to_string(), "s1", role, content, "2026-04-05T10:00:00+00:00".to_string())
}

fn talk() -> Vec<BufferedMessage> {
    vec![message("user", "hi"), message("assistant", "hello")]
}

fn pipeline(embeds: bool) -> Pipeline {
    let config = PipelineConfig { hard_message_limit: 2, ..PipelineConfig::default() };
    Pipeline::new(config, "main".to_string(), embeds)
}

fn data() -> EpisodeData {
    EpisodeData {
        subject: "greeting".to_string(),
        episode: "They greeted.".to_string(),
        summary: "A greeting.".to_string(),
    }
}

fn saved(id: &str) -> SavedEpisode {
    SavedEpisode {
        id: id.to_string(),
        subject: "greeting".to_string(),
        episode: "They greeted.".to_string(),
        summary: "A greeting.".to_string(),
        created_at: "2026-04-05T10:00:00+00:00".to_string(),
    }
}

fn logs() -> EventLogData {
    EventLogData {
        atomic_facts: vec![AtomicFact { fact: "They greeted.".to_string(), time: None }],
    }
}

fn entry(content: &str) -> ForesightEntry {
    ForesightEntry {
        content: content.to_string(),
        evidence: "said so".to_string(),
        start_time: None,
        end_time: None,
    }
}

fn extracted() -> Event {
    Event::Extracted { episode: Some(data()), event_logs: Some(logs()) }
}

fn run(pipeline: &Pipeline, events: Vec<Event>) -> (Turn, Action) {
    let mut state = pipeline.process_turn("s1", "u1");
    for event in events {
        state = pipeline.advance(state.0, event);
    }
    state
}

fn end_of(pipeline: &Pipeline, events: Vec<Event>) -> TurnEnd {
    match run(pipeline, events).1 {
        Action::Finish(end) => end,
        other => panic!("not finished: {other:?}"),
    }
}

fn up_to_the_episode() -> Vec<Event> {
    vec![Event::MessagesRead(Some(talk())), extracted(), Event::EpisodeSaved(Some(saved("e1")))]
}

fn up_to_the_count() -> Vec<Event> {
    let mut events = up_to_the_episode();
    events.push(Event::ForesightsFound(Some(vec![])));
    events.push(Event::EventLogsSaved(true));
    events
}

fn assert_clears(state: (Turn, Action)) {
    assert_eq!(state.0.session_id, "s1");
    match state.1 {
        Action::ClearBuffer { session_id } => assert_eq!(session_id, "s1"),
        other => panic!("not cleared: {other:?}"),
    }
}

#[test]
fn a_turn_starts_by_reading_the_buffer() {
    let (turn, action) = pipeline(false).process_turn("s1", "u1");
    assert_eq!(turn.session_id, "s1");
    assert_eq!(turn.user_id, "u1");
    assert!(matches!(action, Action::ReadMessages { session_id } if session_id == "s1"));
}

#[test]
fn a_turn_can_end_before_anything_is_extracted() {
    let p = pipeline(false);
    assert_eq!(end_of(&p, vec![Event::MessagesRead(None)]), TurnEnd::ReadFailed);
    assert_eq!(end_of(&p, vec![Event::MessagesRead(Some(vec![]))]), TurnEnd::NothingBuffered);
    assert_eq!(
        end_of(&p, vec![Event::MessagesRead(Some(vec![message("user", "hi")]))]),
        TurnEnd::KeptBuffering
    );
}

#[test]
fn the_model_is_asked_for_a_boundary() {
    let p = Pipeline::new(PipelineConfig::default(), "main".to_string(), false);
    let read = || Event::MessagesRead(Some(talk()));
    let judged = |confidence: f64| {
        Event::BoundaryJudged(Some(BoundaryResult {
            reasoning: String::new(),
            should_end: true,
            confidence: Score { bits: confidence.to_bits() },
            confidence_text: format!("{confidence:.2}"),
            topic_summary: "greeting".to_string(),
        }))
    };
    assert!(matches!(run(&p, vec![read()]).1, Action::AskBoundary(query) if query.model == "main"));
    assert_eq!(end_of(&p, vec![read(), Event::BoundaryJudged(None)]), TurnEnd::BoundaryFailed);
    assert_eq!(end_of(&p, vec![read(), judged(0.5)]), TurnEnd::KeptBuffering);
    match run(&p, vec![read(), judged(0.9)]).1 {
        Action::Extract { reason, episode, event_log } => {
            assert_eq!(reason, "boundary detected (confidence=0.90): greeting");
            assert_eq!(episode.user, EPISODE_EN.replace("{conversation}", "user: hi\n\nassistant: hello"));
            assert_eq!(
                event_log.user,
                EVENT_LOG_EN.replace("{conversation}", "user: hi\n\nassistant: hello")
            );
        }
        other => panic!("nothing extracted: {other:?}"),
    }
}

#[test]
fn a_hard_limit_goes_straight_to_extraction() {
    match run(&pipeline(false), vec![Event::MessagesRead(Some(talk()))]).1 {
        Action::Extract { reason, .. } => assert_eq!(reason, "hard message limit (2 >= 2)"),
        other => panic!("nothing extracted: {other:?}"),
    }
}

#[test]
fn without_an_episode_the_buffer_is_kept() {
    let p = pipeline(false);
    let read = || Event::MessagesRead(Some(talk()));
    let failed = Event::Extracted { episode: None, event_logs: Some(logs()) };
    assert_eq!(end_of(&p, vec![read(), failed]), TurnEnd::EpisodeNotExtracted);
    assert_eq!(
        end_of(&p, vec![read(), extracted(), Event::EpisodeSaved(None)]),
        TurnEnd::EpisodeNotSaved
    );
}

#[test]
fn the_episode_is_saved_for_session_and_user() {
    match run(&pipeline(false), vec![Event::MessagesRead(Some(talk())), extracted()]).1 {
        Action::SaveEpisode { session_id, user_id, data } => {
            assert_eq!((session_id.as_str(), user_id.as_str()), ("s1", "u1"));
            assert_eq!(data.summary, "A greeting.");
        }
        other => panic!("not saved: {other:?}"),
    }
}

#[test]
fn predictions_are_asked_for_once_the_episode_is_saved() {
    match run(&pipeline(false), up_to_the_episode()).1 {
        Action::AskForesight(query) => assert_eq!(
            query.user,
            FORESIGHT_EN
                .replace("{episode_summary}", "A greeting.")
                .replace("{buffer_content}", "user: hi\n\nassistant: hello")
        ),
        other => panic!("not asked: {other:?}"),
    }
}

#[test]
fn predictions_are_saved_under_the_episode() {
    let mut events = up_to_the_episode();
    events.push(Event::ForesightsFound(Some(vec![entry("a"), entry("b")])));
    match run(&pipeline(false), events).1 {
        Action::SaveForesights { drafts } => {
            assert_eq!(drafts.len(), 2);
            assert!(drafts.iter().all(|d| d.episode_id == "e1" && d.user_id == "u1" && d.embedding.is_none()));
            assert_eq!(drafts[0].entry.content, "a");
            assert_eq!(drafts[1].entry.content, "b");
        }
        other => panic!("not saved: {other:?}"),
    }
}

#[test]
fn predictions_are_embedded_where_that_is_set_up() {
    let found = || {
        let mut events = up_to_the_episode();
        events.push(Event::ForesightsFound(Some(vec![entry("a"), entry("b")])));
        events
    };
    let p = pipeline(true);
    assert!(matches!(run(&p, found()).1, Action::EmbedForesights { contents } if contents == vec!["a", "b"]));
    let drafts = |embeddings: Option<Vec<Vec<u8>>>| {
        let mut events = found();
        events.push(Event::Embedded(embeddings));
        match run(&p, events).1 {
            Action::SaveForesights { drafts } => {
                drafts.into_iter().map(|d| (d.entry.content, d.embedding)).collect::<Vec<_>>()
            }
            other => panic!("not saved: {other:?}"),
        }
    };
    assert_eq!(
        drafts(Some(vec![vec![1], vec![2, 3]])),
        vec![("a".to_string(), Some(vec![1])), ("b".to_string(), Some(vec![2, 3]))]
    );
    assert_eq!(drafts(None), vec![("a".to_string(), None), ("b".to_string(), None)]);
    assert_eq!(
        drafts(Some(vec![vec![1]])),
        vec![("a".to_string(), Some(vec![1])), ("b".to_string(), None)]
    );
    assert_eq!(drafts(Some(vec![])), vec![("a".to_string(), None), ("b".to_string(), None)]);
    assert_eq!(
        drafts(Some(vec![vec![1], vec![2], vec![3]])),
        vec![("a".to_string(), Some(vec![1])), ("b".to_string(), Some(vec![2]))]
    );
}

#[test]
fn facts_are_saved_under_the_episode() {
    for found in [None, Some(vec![])] {
        let mut events = up_to_the_episode();
        events.push(Event::ForesightsFound(found));
        match run(&pipeline(false), events).1 {
            Action::SaveEventLogs { episode_id, facts } => {
                assert_eq!(episode_id, "e1");
                assert_eq!(facts.len(), 1);
                assert_eq!(facts[0].fact, "They greeted.");
            }
            other => panic!("not saved: {other:?}"),
        }
    }
}

#[test]
fn failed_saves_of_lesser_things_do_not_block() {
    let p = pipeline(false);
    for done in [true, false] {
        let mut events = up_to_the_episode();
        events.push(Event::ForesightsFound(Some(vec![entry("a")])));
        events.push(Event::ForesightsSaved(done));
        events.push(Event::EventLogsSaved(done));
        assert!(matches!(run(&p, events).1, Action::CountEpisode { user_id } if user_id == "u1"));
    }
    let events = vec![
        Event::MessagesRead(Some(talk())),
        Event::Extracted { episode: Some(data()), event_logs: None },
        Event::EpisodeSaved(Some(saved("e1"))),
        Event::ForesightsFound(None),
    ];
    assert!(matches!(run(&p, events).1, Action::CountEpisode { .. }));
}

#[test]
fn the_profile_is_due_at_multiples_of_the_interval() {
    let p = pipeline(false);
    for (count, due) in [
        (None, false),
        (Some(0), false),
        (Some(-5), false),
        (Some(1), false),
        (Some(4), false),
        (Some(5), true),
        (Some(6), false),
        (Some(10), true),
    ] {
        let mut events = up_to_the_count();
        events.push(Event::EpisodeCounted(count));
        let state = run(&p, events);
        if due {
            assert!(matches!(state.1, Action::FetchEpisodes { user_id, limit: 5 } if user_id == "u1"));
        } else {
            assert_clears(state);
        }
    }
}

fn up_to_the_update() -> Vec<Event> {
    let mut events = up_to_the_count();
    events.push(Event::EpisodeCounted(Some(5)));
    events
}

#[test]
fn without_episodes_there_is_no_update() {
    for episodes in [None, Some(vec![])] {
        let mut events = up_to_the_update();
        events.push(Event::EpisodesFetched(episodes));
        assert_clears(run(&pipeline(false), events));
    }
}

#[test]
fn the_profile_is_asked_for_and_merged() {
    let p = pipeline(false);
    let skill = |level: &str| LeveledAttribute {
        value: "Rust".to_string(),
        level: level.to_string(),
        evidences: vec![],
    };
    let known = ProfileData {
        user_name: Some("Ada".to_string()),
        hard_skills: vec![skill("expert")],
        ..Default::default()
    };
    let mut state = run(&p, up_to_the_update());
    state = p.advance(state.0, Event::EpisodesFetched(Some(vec![saved("e1")])));
    assert!(matches!(&state.1, Action::FetchProfile { user_id } if user_id == "u1"));
    state = p.advance(state.0, Event::ProfileFetched(Some(known)));
    match &state.1 {
        Action::RenderProfile { profile } => assert_eq!(profile.user_name.as_deref(), Some("Ada")),
        other => panic!("not rendered: {other:?}"),
    }
    state = p.advance(state.0, Event::ProfileRendered(Some("{json}".to_string())));
    match &state.1 {
        Action::AskProfile(query) => {
            assert_eq!(query.model, "main");
            assert_eq!(
                query.user,
                PROFILE_EN.replace("{current_profile_json}", "{json}").replace(
                    "{recent_episodes}",
                    "[Episode e1] (2026-04-05T10:00:00+00:00)\nSubject: greeting\nThey greeted.\n"
                )
            );
        }
        other => panic!("not asked: {other:?}"),
    }
    let found = ProfileData { hard_skills: vec![skill("beginner")], ..Default::default() };
    state = p.advance(state.0, Event::ProfileFound(Some(found)));
    match &state.1 {
        Action::SaveProfile { user_id, profile, episode_id } => {
            assert_eq!((user_id.as_str(), episode_id.as_str()), ("u1", "e1"));
            assert_eq!(profile.user_name.as_deref(), Some("Ada"));
            assert_eq!(profile.hard_skills, vec![skill("expert")]);
        }
        other => panic!("not saved: {other:?}"),
    }
    assert_clears(p.advance(state.0, Event::ProfileSaved(false)));
}

#[test]
fn a_missing_profile_counts_as_empty() {
    let mut events = up_to_the_update();
    events.push(Event::EpisodesFetched(Some(vec![saved("e1")])));
    events.push(Event::ProfileFetched(None));
    match run(&pipeline(false), events).1 {
        Action::RenderProfile { profile } => {
            assert_eq!(profile.user_name, None);
            assert!(profile.hard_skills.is_empty());
        }
        other => panic!("not rendered: {other:?}"),
    }
}

#[test]
fn a_failed_update_still_clears_the_buffer() {
    let p = pipeline(false);
    let fetched = || {
        let mut events = up_to_the_update();
        events.push(Event::EpisodesFetched(Some(vec![saved("e1")])));
        events.push(Event::ProfileFetched(None));
        events
    };
    let mut events = fetched();
    events.push(Event::ProfileRendered(None));
    assert_clears(run(&p, events));
    let mut events = fetched();
    events.push(Event::ProfileRendered(Some("{}".to_string())));
    events.push(Event::ProfileFound(None));
    assert_clears(run(&p, events));
}

#[test]
fn a_turn_ends_on_the_answer_to_the_clearing() {
    let p = pipeline(false);
    let counted = || {
        let mut events = up_to_the_count();
        events.push(Event::EpisodeCounted(Some(1)));
        events
    };
    let mut events = counted();
    events.push(Event::BufferCleared(true));
    assert_eq!(end_of(&p, events), TurnEnd::Flushed);
    let mut events = counted();
    events.push(Event::BufferCleared(false));
    assert_eq!(end_of(&p, events), TurnEnd::ClearFailed);
}

#[test]
fn the_longest_turn_takes_fifteen_events() {
    let p = Pipeline::new(PipelineConfig::default(), "main".to_string(), true);
    let events = vec![
        Event::MessagesRead(Some(talk())),
        Event::BoundaryJudged(Some(BoundaryResult {
            reasoning: String::new(),
            should_end: true,
            confidence: Score { bits: 1.0f64.to_bits() },
            confidence_text: "1.00".to_string(),
            topic_summary: String::new(),
        })),
        extracted(),
        Event::EpisodeSaved(Some(saved("e1"))),
        Event::ForesightsFound(Some(vec![entry("a")])),
        Event::Embedded(None),
        Event::ForesightsSaved(true),
        Event::EventLogsSaved(true),
        Event::EpisodeCounted(Some(5)),
        Event::EpisodesFetched(Some(vec![saved("e1")])),
        Event::ProfileFetched(None),
        Event::ProfileRendered(Some("{}".to_string())),
        Event::ProfileFound(Some(ProfileData::default())),
        Event::ProfileSaved(true),
        Event::BufferCleared(true),
    ];
    assert_eq!(events.len(), 15);
    assert_eq!(end_of(&p, events), TurnEnd::Flushed);
}

fn saves_and_clears(pipeline: &Pipeline, events: Vec<Event>) -> (usize, usize) {
    let mut state = pipeline.process_turn("s1", "u1");
    let (mut saves, mut clears) = (0, 0);
    for event in events {
        state = pipeline.advance(state.0, event);
        saves += matches!(state.1, Action::SaveEpisode { .. }) as usize;
        clears += matches!(state.1, Action::ClearBuffer { .. }) as usize;
    }
    (saves, clears)
}

#[test]
fn a_turn_saves_and_clears_once_at_most() {
    let p = pipeline(false);
    let mut events = up_to_the_count();
    events.push(Event::EpisodeCounted(None));
    events.push(Event::BufferCleared(false));
    assert_eq!(saves_and_clears(&p, events), (1, 1));
    let unsaved = vec![
        Event::MessagesRead(Some(talk())),
        extracted(),
        Event::EpisodeSaved(None),
    ];
    assert_eq!(saves_and_clears(&p, unsaved), (1, 0));
    assert_eq!(saves_and_clears(&p, vec![Event::MessagesRead(Some(vec![]))]), (0, 0));
}

#[test]
fn only_some_ends_are_failures() {
    assert!(TurnEnd::ReadFailed.has_failed());
    assert!(TurnEnd::EpisodeNotSaved.has_failed());
    assert!(TurnEnd::ClearFailed.has_failed());
    assert!(!TurnEnd::NothingBuffered.has_failed());
    assert!(!TurnEnd::BoundaryFailed.has_failed());
    assert!(!TurnEnd::KeptBuffering.has_failed());
    assert!(!TurnEnd::EpisodeNotExtracted.has_failed());
    assert!(!TurnEnd::Flushed.has_failed());
}
