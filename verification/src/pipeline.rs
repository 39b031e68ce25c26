//! The pipeline: it leads turns from step to step and builds the block of memories.

use vstd::prelude::*;
use vstd::string::*;

use crate::boundary::{BoundaryDetector, BoundaryResult, BoundaryStep, FlushDecision};
use crate::buffer;
use crate::buffer::BufferedMessage;
use crate::chat;
use crate::config::PipelineConfig;
use crate::extractor::{AtomicFact, EpisodeData, EventLogData};
use crate::extractor::episode::EpisodeExtractor;
use crate::extractor::event_log::EventLogExtractor;
use crate::extractor::foresight::{ForesightEntry, ForesightExtractor};
use crate::extractor::profile;
use crate::formatter;
use crate::formatter::{Formatter, MemoryEntry};
use crate::merger::merge_profiles;
use crate::outside;
use crate::profile_types::ProfileData;
use crate::score::Score;
use crate::store::{ForesightDraft, ForesightRow, SavedEpisode};
use crate::text;
use crate::turn;
use crate::turn::{Action, Event, Rules, Stage, Step, Turn, TurnEnd};

verus! {

/// A stage and what is to be done at it, as characters.
pub open spec fn step_of(step: (Stage, Action)) -> Step {
    Step { stage: step.0@, action: step.1@ }
}

fn finish(end: TurnEnd) -> (step: (Stage, Action))
    ensures
        step_of(step) == turn::end_step(end),
{
    (Stage::Finished, Action::Finish(end))
}

fn clear(session_id: &str) -> (step: (Stage, Action))
    ensures
        step_of(step) == turn::clear_step(session_id@),
{
    (Stage::Clearing, Action::ClearBuffer { session_id: String::from_str(session_id) })
}

fn count(user_id: &str, episode_id: String) -> (step: (Stage, Action))
    ensures
        step_of(step) == turn::count_step(user_id@, episode_id@),
{
    (Stage::Counting { episode_id }, Action::CountEpisode { user_id: String::from_str(user_id) })
}

fn save_event_logs(user_id: &str, episode_id: String, facts: Option<Vec<AtomicFact>>) -> (step: (
    Stage,
    Action,
))
    ensures
        step_of(step) == turn::event_logs_step(user_id@, episode_id@, turn::list_of(facts)),
{
    match facts {
        Some(facts) => {
            let action: Action = Action::SaveEventLogs { episode_id: episode_id.clone(), facts };
            (Stage::SavingEventLogs { episode_id }, action)
        },
        None => count(user_id, episode_id),
    }
}

fn draft(
    user_id: &str,
    episode_id: &str,
    entry: &ForesightEntry,
    embedding: Option<Vec<u8>>,
) -> (draft: ForesightDraft)
    ensures
        draft.episode_id@ == episode_id@,
        draft.user_id@ == user_id@,
        draft.entry@ == entry@,
        draft.embedding == embedding,
{
    ForesightDraft {
        episode_id: String::from_str(episode_id),
        user_id: String::from_str(user_id),
        entry: entry.clone(),
        embedding,
    }
}

fn draft_plain(user_id: &str, episode_id: &str, entries: &[ForesightEntry]) -> (drafts: Vec<
    ForesightDraft,
>)
    ensures
        text::views(drafts@) == turn::plain_drafts(user_id@, episode_id@, text::views(entries@)),
{
    let mut drafts: Vec<ForesightDraft> = Vec::new();
    let ghost all = turn::plain_drafts(user_id@, episode_id@, text::views(entries@));
    for i in 0..entries.len()
        invariant
            all == turn::plain_drafts(user_id@, episode_id@, text::views(entries@)),
            drafts.len() == i,
            forall|k: int| 0 <= k < i ==> (#[trigger] drafts@[k])@ == all[k],
    {
        drafts.push(draft(user_id, episode_id, &entries[i], None));
    }
    assert(text::views(drafts@) =~= all);
    drafts
}

fn draft_embedded(
    user_id: &str,
    episode_id: &str,
    entries: &[ForesightEntry],
    embeddings: &[Vec<u8>],
) -> (drafts: Vec<ForesightDraft>)
    ensures
        text::views(drafts@) == turn::embedded_drafts(
            user_id@,
            episode_id@,
            text::views(entries@),
            text::views(embeddings@),
        ),
{
    let mut drafts: Vec<ForesightDraft> = Vec::new();
    let ghost all = turn::embedded_drafts(
        user_id@,
        episode_id@,
        text::views(entries@),
        text::views(embeddings@),
    );
    for i in 0..entries.len()
        invariant
            all == turn::embedded_drafts(
                user_id@,
                episode_id@,
                text::views(entries@),
                text::views(embeddings@),
            ),
            drafts.len() == i,
            forall|k: int| 0 <= k < i ==> (#[trigger] drafts@[k])@ == all[k],
    {
        let embedding: Option<Vec<u8>> = if i < embeddings.len() {
            let bytes: Vec<u8> = embeddings[i].clone();
            assert(bytes@ =~= embeddings@[i as int]@);
            Some(bytes)
        } else {
            None
        };
        drafts.push(draft(user_id, episode_id, &entries[i], embedding));
    }
    assert(text::views(drafts@) =~= all);
    drafts
}

fn list_contents(entries: &[ForesightEntry]) -> (contents: Vec<String>)
    ensures
        text::views(contents@) == turn::contents(text::views(entries@)),
{
    let mut contents: Vec<String> = Vec::new();
    let ghost all = turn::contents(text::views(entries@));
    for i in 0..entries.len()
        invariant
            all == turn::contents(text::views(entries@)),
            contents.len() == i,
            forall|k: int| 0 <= k < i ==> (#[trigger] contents@[k])@ == all[k],
    {
        contents.push(entries[i].content.clone());
    }
    assert(text::views(contents@) =~= all);
    contents
}

fn save_foresights(
    episode_id: String,
    facts: Option<Vec<AtomicFact>>,
    drafts: Vec<ForesightDraft>,
) -> (step: (Stage, Action))
    ensures
        step_of(step) == turn::save_foresights_step(
            episode_id@,
            turn::list_of(facts),
            text::views(drafts@),
        ),
{
    (Stage::SavingForesights { episode_id, facts }, Action::SaveForesights { drafts })
}

/// Boundary detection, extraction and the block of memories, under one set of settings.
#[derive(Debug)]
pub struct Pipeline {
    config: PipelineConfig,
    default_model: String,
    embeds: bool,
    boundary: BoundaryDetector,
    episode_extractor: EpisodeExtractor,
    event_log_extractor: EventLogExtractor,
    foresight_extractor: ForesightExtractor,
    formatter: Formatter,
}

impl View for Pipeline {
    type V = Rules;

    closed spec fn view(&self) -> Rules {
        Rules {
            config: self.config@,
            default_model: self.default_model@,
            embeds: self.embeds,
        }
    }
}

impl Pipeline {
    /// All parts go by the settings and the main model of the pipeline.
    #[verifier::type_invariant]
    spec fn agrees(self) -> bool {
        &&& self.boundary.config@ == self.config@
        &&& self.boundary.default_model@ == self.default_model@
        &&& self.episode_extractor.config@ == self.config@
        &&& self.episode_extractor.default_model@ == self.default_model@
        &&& self.event_log_extractor.config@ == self.config@
        &&& self.event_log_extractor.default_model@ == self.default_model@
        &&& self.foresight_extractor.config@ == self.config@
        &&& self.foresight_extractor.default_model@ == self.default_model@
        &&& self.formatter.config@ == self.config@
    }

    /// A pipeline with the given settings. `default_model` is the main model, used where the
    /// settings name none for extraction; `embeds` says whether predictions are embedded.
    pub fn new(config: PipelineConfig, default_model: String, embeds: bool) -> (pipeline: Pipeline)
        ensures
            pipeline@ == (Rules { config: config@, default_model: default_model@, embeds }),
    {
        Pipeline {
            boundary: BoundaryDetector::new(config.clone(), default_model.clone()),
            episode_extractor: EpisodeExtractor::new(config.clone(), default_model.clone()),
            event_log_extractor: EventLogExtractor::new(config.clone(), default_model.clone()),
            foresight_extractor: ForesightExtractor::new(config.clone(), default_model.clone()),
            formatter: Formatter::new(config.clone()),
            config,
            default_model,
            embeds,
        }
    }

    /// Whether the pipeline is enabled.
    pub fn is_enabled(&self) -> (answer: bool)
        ensures
            answer == self@.config.enabled,
    {
        self.config.enabled
    }

    /// The message that is to be appended to the buffer of the session.
    pub fn append_to_buffer(&self, session_id: &str, role: &str, content: &str) -> (message:
        BufferedMessage)
        ensures
            outside::is_uuid_text(message.id@),
            buffer::is_timestamp(message.created_at@),
            message@ == buffer::message_for(
                message.id@,
                session_id@,
                role@,
                content@,
                message.created_at@,
            ),
    {
        BufferedMessage::stamped(session_id, role, content)
    }

    /// The block of memories that is put before a question. What could not be fetched is left
    /// out.
    pub fn build_context(
        &self,
        profile: Option<&ProfileData>,
        episodes: &[SavedEpisode],
        recalled: &[MemoryEntry],
        min_relevance: Score,
        foresights: &[ForesightRow],
    ) -> (block: String)
        ensures
            block@ == formatter::memory_block(
                formatter::traits(
                    match profile {
                        Some(known) => Some(known@),
                        None => None,
                    },
                ),
                text::views(episodes@),
                formatter::shown_facts(
                    text::views(recalled@),
                    min_relevance,
                    self@.config.max_facts_entries,
                ),
                text::views(foresights@),
            ),
    {
        proof {
            use_type_invariant(self);
        }
        self.formatter.build_xml_context(profile, episodes, recalled, min_relevance, foresights)
    }

    /// Starts the work on a turn, once the reply has been given.
    pub fn process_turn(&self, session_id: &str, user_id: &str) -> (started: (Turn, Action))
        ensures
            started.0.session_id@ == session_id@,
            started.0.user_id@ == user_id@,
            step_of((started.0.stage, started.1)) == turn::first_step(session_id@),
    {
        let started: Turn = Turn {
            session_id: String::from_str(session_id),
            user_id: String::from_str(user_id),
            stage: Stage::Reading,
        };
        (started, Action::ReadMessages { session_id: String::from_str(session_id) })
    }

    fn decide(&self, messages: Vec<BufferedMessage>, decision: FlushDecision) -> (step: (
        Stage,
        Action,
    ))
        ensures
            step_of(step) == turn::decision_step(self@, text::views(messages@), decision@),
    {
        proof {
            use_type_invariant(self);
        }
        match decision {
            FlushDecision::Wait => finish(TurnEnd::KeptBuffering),
            FlushDecision::Flush { reason } => {
                let action: Action = Action::Extract {
                    reason,
                    episode: self.episode_extractor.extract(&messages),
                    event_log: self.event_log_extractor.extract(&messages),
                };
                (Stage::Extracting { messages }, action)
            },
        }
    }

    fn after_reading(&self, messages: Option<Vec<BufferedMessage>>) -> (step: (Stage, Action))
        requires
            messages matches Some(found) ==> buffer::total_chars(text::views(found@))
                <= usize::MAX,
        ensures
            step_of(step) == turn::reading_step(self@, turn::list_of(messages)),
    {
        proof {
            use_type_invariant(self);
        }
        match messages {
            None => finish(TurnEnd::ReadFailed),
            Some(messages) => {
                if messages.len() == 0 {
                    return finish(TurnEnd::NothingBuffered);
                }
                match self.boundary.should_flush(&messages) {
                    BoundaryStep::Decided(decision) => self.decide(messages, decision),
                    BoundaryStep::Ask(query) => (
                        Stage::AskingBoundary { messages },
                        Action::AskBoundary(query),
                    ),
                }
            },
        }
    }

    fn after_judging(
        &self,
        messages: Vec<BufferedMessage>,
        result: Option<BoundaryResult>,
    ) -> (step: (Stage, Action))
        ensures
            step_of(step) == turn::boundary_judged_step(
                self@,
                text::views(messages@),
                text::view_of(result),
            ),
    {
        proof {
            use_type_invariant(self);
        }
        match result {
            None => finish(TurnEnd::BoundaryFailed),
            Some(result) => {
                let decision: FlushDecision = self.boundary.judge(&result);
                self.decide(messages, decision)
            },
        }
    }

    fn after_extraction(
        &self,
        session_id: &str,
        user_id: &str,
        messages: Vec<BufferedMessage>,
        episode: Option<EpisodeData>,
        event_logs: Option<EventLogData>,
    ) -> (step: (Stage, Action))
        ensures
            step_of(step) == turn::extracted_step(
                session_id@,
                user_id@,
                text::views(messages@),
                text::view_of(episode),
                text::view_of(event_logs),
            ),
    {
        match episode {
            None => finish(TurnEnd::EpisodeNotExtracted),
            Some(data) => {
                let facts: Option<Vec<AtomicFact>> = match event_logs {
                    Some(found) => Some(found.atomic_facts),
                    None => None,
                };
                let stage: Stage = Stage::SavingEpisode {
                    messages,
                    summary: data.summary.clone(),
                    facts,
                };
                let action: Action = Action::SaveEpisode {
                    session_id: String::from_str(session_id),
                    user_id: String::from_str(user_id),
                    data,
                };
                (stage, action)
            },
        }
    }

    fn after_saving_episode(
        &self,
        messages: Vec<BufferedMessage>,
        summary: String,
        facts: Option<Vec<AtomicFact>>,
        saved: Option<SavedEpisode>,
    ) -> (step: (Stage, Action))
        ensures
            step_of(step) == turn::episode_saved_step(
                self@,
                text::views(messages@),
                summary@,
                turn::list_of(facts),
                text::view_of(saved),
            ),
    {
        proof {
            use_type_invariant(self);
        }
        match saved {
            None => finish(TurnEnd::EpisodeNotSaved),
            Some(saved) => {
                let conversation: String = BufferedMessage::format_slice(&messages);
                let action: Action = Action::AskForesight(
                    self.foresight_extractor.extract(&conversation, &summary),
                );
                (Stage::AskingForesight { episode_id: saved.id, facts }, action)
            },
        }
    }

    fn after_foresight(
        &self,
        user_id: &str,
        episode_id: String,
        facts: Option<Vec<AtomicFact>>,
        found: Option<Vec<ForesightEntry>>,
    ) -> (step: (Stage, Action))
        ensures
            step_of(step) == turn::foresights_found_step(
                self@,
                user_id@,
                episode_id@,
                turn::list_of(facts),
                turn::list_of(found),
            ),
    {
        match found {
            Some(entries) => {
                if entries.len() == 0 {
                    return save_event_logs(user_id, episode_id, facts);
                }
                if self.embeds {
                    let action: Action = Action::EmbedForesights {
                        contents: list_contents(&entries),
                    };
                    return (Stage::Embedding { episode_id, facts, entries }, action);
                }
                let drafts: Vec<ForesightDraft> = draft_plain(user_id, &episode_id, &entries);
                save_foresights(episode_id, facts, drafts)
            },
            None => save_event_logs(user_id, episode_id, facts),
        }
    }

    fn after_embedding(
        &self,
        user_id: &str,
        episode_id: String,
        facts: Option<Vec<AtomicFact>>,
        entries: Vec<ForesightEntry>,
        embeddings: Option<Vec<Vec<u8>>>,
    ) -> (step: (Stage, Action))
        ensures
            step_of(step) == turn::embedded_step(
                user_id@,
                episode_id@,
                turn::list_of(facts),
                text::views(entries@),
                turn::list_of(embeddings),
            ),
    {
        let drafts: Vec<ForesightDraft> = match embeddings {
            Some(embeddings) => draft_embedded(user_id, &episode_id, &entries, &embeddings),
            None => draft_plain(user_id, &episode_id, &entries),
        };
        save_foresights(episode_id, facts, drafts)
    }

    fn after_counting(
        &self,
        session_id: &str,
        user_id: &str,
        episode_id: String,
        counted: Option<i64>,
    ) -> (step: (Stage, Action))
        requires
            counted matches Some(number) && number > 0 ==> self@.config.profile_update_interval
                > 0,
        ensures
            step_of(step) == turn::counted_step(
                self@,
                session_id@,
                user_id@,
                episode_id@,
                counted,
            ),
    {
        let interval: usize = self.config.profile_update_interval;
        let number: i64 = match counted {
            Some(number) => number,
            None => 0,
        };
        if number > 0 && number as usize % interval == 0 {
            let action: Action = Action::FetchEpisodes {
                user_id: String::from_str(user_id),
                limit: interval,
            };
            (Stage::FetchingEpisodes { episode_id }, action)
        } else {
            clear(session_id)
        }
    }

    fn after_fetching_episodes(
        &self,
        session_id: &str,
        user_id: &str,
        episode_id: String,
        episodes: Option<Vec<SavedEpisode>>,
    ) -> (step: (Stage, Action))
        ensures
            step_of(step) == turn::episodes_fetched_step(
                session_id@,
                user_id@,
                episode_id@,
                turn::list_of(episodes),
            ),
    {
        match episodes {
            Some(episodes) => {
                if episodes.len() == 0 {
                    return clear(session_id);
                }
                let action: Action = Action::FetchProfile { user_id: String::from_str(user_id) };
                (Stage::FetchingProfile { episode_id, episodes }, action)
            },
            None => clear(session_id),
        }
    }

    fn after_fetching_profile(
        &self,
        episode_id: String,
        episodes: Vec<SavedEpisode>,
        found: Option<ProfileData>,
    ) -> (step: (Stage, Action))
        ensures
            step_of(step) == turn::profile_fetched_step(
                episode_id@,
                text::views(episodes@),
                text::view_of(found),
            ),
    {
        let current: ProfileData = match found {
            Some(known) => known,
            None => ProfileData::default(),
        };
        let action: Action = Action::RenderProfile { profile: current.clone() };
        (Stage::RenderingProfile { episode_id, episodes, current }, action)
    }

    fn after_rendering(
        &self,
        session_id: &str,
        episode_id: String,
        episodes: Vec<SavedEpisode>,
        current: ProfileData,
        json: Option<String>,
    ) -> (step: (Stage, Action))
        ensures
            step_of(step) == turn::profile_rendered_step(
                self@,
                session_id@,
                episode_id@,
                text::views(episodes@),
                current@,
                text::view_of(json),
            ),
    {
        match json {
            Some(json) => {
                let query: chat::ChatQuery = profile::extract(
                    chat::choose_model(&self.config, &self.default_model),
                    &json,
                    &episodes,
                    &self.config.prompt_language,
                );
                (Stage::AskingProfile { episode_id, current }, Action::AskProfile(query))
            },
            None => clear(session_id),
        }
    }

    fn after_profile(
        &self,
        session_id: &str,
        user_id: &str,
        episode_id: String,
        current: ProfileData,
        found: Option<ProfileData>,
    ) -> (step: (Stage, Action))
        ensures
            step_of(step) == turn::profile_found_step(
                session_id@,
                user_id@,
                episode_id@,
                current@,
                text::view_of(found),
            ),
    {
        match found {
            Some(found) => {
                let action: Action = Action::SaveProfile {
                    user_id: String::from_str(user_id),
                    profile: merge_profiles(&current, &found),
                    episode_id,
                };
                (Stage::SavingProfile, action)
            },
            None => clear(session_id),
        }
    }

    /// Takes what came of the action of a turn, and says what is to be done next.
    pub fn advance(&self, current: Turn, event: Event) -> (next: (Turn, Action))
        requires
            turn::answers(current.stage@, event@),
            turn::admissible(self@, event@),
        ensures
            next.0.session_id@ == current.session_id@,
            next.0.user_id@ == current.user_id@,
            step_of((next.0.stage, next.1)) == turn::next_step(self@, current@, event@),
    {
        let session_id: String = current.session_id;
        let user_id: String = current.user_id;
        let step: (Stage, Action) = match (current.stage, event) {
            (Stage::Reading, Event::MessagesRead(messages)) => self.after_reading(messages),
            (Stage::AskingBoundary { messages }, Event::BoundaryJudged(result)) =>
                self.after_judging(messages, result),
            (Stage::Extracting { messages }, Event::Extracted { episode, event_logs }) =>
                self.after_extraction(&session_id, &user_id, messages, episode, event_logs),
            (Stage::SavingEpisode { messages, summary, facts }, Event::EpisodeSaved(saved)) =>
                self.after_saving_episode(messages, summary, facts, saved),
            (Stage::AskingForesight { episode_id, facts }, Event::ForesightsFound(found)) =>
                self.after_foresight(&user_id, episode_id, facts, found),
            (Stage::Embedding { episode_id, facts, entries }, Event::Embedded(embeddings)) =>
                self.after_embedding(&user_id, episode_id, facts, entries, embeddings),
            (Stage::SavingForesights { episode_id, facts }, Event::ForesightsSaved(_)) =>
                save_event_logs(&user_id, episode_id, facts),
            (Stage::SavingEventLogs { episode_id }, Event::EventLogsSaved(_)) => count(
                &user_id,
                episode_id,
            ),
            (Stage::Counting { episode_id }, Event::EpisodeCounted(counted)) =>
                self.after_counting(&session_id, &user_id, episode_id, counted),
            (Stage::FetchingEpisodes { episode_id }, Event::EpisodesFetched(episodes)) =>
                self.after_fetching_episodes(&session_id, &user_id, episode_id, episodes),
            (Stage::FetchingProfile { episode_id, episodes }, Event::ProfileFetched(found)) =>
                self.after_fetching_profile(episode_id, episodes, found),
            (
                Stage::RenderingProfile { episode_id, episodes, current },
                Event::ProfileRendered(json),
            ) => self.after_rendering(&session_id, episode_id, episodes, current, json),
            (Stage::AskingProfile { episode_id, current }, Event::ProfileFound(found)) =>
                self.after_profile(&session_id, &user_id, episode_id, current, found),
            (Stage::SavingProfile, Event::ProfileSaved(_)) => clear(&session_id),
            (Stage::Clearing, Event::BufferCleared(done)) => finish(
                if done {
                    TurnEnd::Flushed
                } else {
                    TurnEnd::ClearFailed
                },
            ),
            _ => vstd::pervasive::unreached(),
        };
        (Turn { session_id, user_id, stage: step.0 }, step.1)
    }
}

} // verus!
