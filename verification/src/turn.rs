//! The course of a turn: what is done after a reply, step by step, and what each outcome leads to.

use vstd::prelude::*;

use crate::boundary;
use crate::boundary::{BoundaryResult, BoundaryResultView, BoundaryStepView, FlushDecisionView};
use crate::buffer;
use crate::buffer::{BufferedMessage, BufferedMessageView};
use crate::chat;
use crate::chat::{ChatQuery, ChatQueryView};
use crate::config::PipelineConfigView;
use crate::extractor;
use crate::extractor::{AtomicFact, AtomicFactView, EpisodeData, EpisodeDataView, EventLogData};
use crate::extractor::foresight::{ForesightEntry, ForesightEntryView};
use crate::merger;
use crate::profile_types;
use crate::profile_types::{ProfileData, ProfileView};
use crate::store::{ForesightDraft, ForesightDraftView, SavedEpisode, SavedEpisodeView};
use crate::text;

verus! {

/// How a turn ends.
#[derive(Debug, Clone, Copy, PartialEq, Eq, Structural)]
pub enum TurnEnd {
    /// The buffer could not be read.
    ReadFailed,
    /// The buffer holds nothing.
    NothingBuffered,
    /// The question for a boundary failed: the buffer is kept.
    BoundaryFailed,
    /// There is no boundary yet: the buffer is kept.
    KeptBuffering,
    /// No episode could be extracted: the buffer is kept.
    EpisodeNotExtracted,
    /// The episode could not be saved: the buffer is kept.
    EpisodeNotSaved,
    /// The episode was saved, but the buffer could not be cleared.
    ClearFailed,
    /// The episode was saved and the buffer was cleared.
    Flushed,
}

/// Whether a turn that ends so has failed.
pub open spec fn is_failure(end: TurnEnd) -> bool {
    end == TurnEnd::ReadFailed || end == TurnEnd::EpisodeNotSaved || end == TurnEnd::ClearFailed
}

impl TurnEnd {
    /// Whether a turn that ends so has failed.
    pub fn has_failed(&self) -> (answer: bool)
        ensures
            answer == is_failure(*self),
    {
        match self {
            TurnEnd::ReadFailed | TurnEnd::EpisodeNotSaved | TurnEnd::ClearFailed => true,
            _ => false,
        }
    }
}

/// Where a turn stands: what it waits for and what it still needs then.
#[derive(Debug)]
pub enum Stage {
    /// Waits for the messages of the buffer.
    Reading,
    /// Waits for the word of the model on a boundary.
    AskingBoundary { messages: Vec<BufferedMessage> },
    /// Waits for the episode and the atomic facts.
    Extracting { messages: Vec<BufferedMessage> },
    /// Waits for the episode to be saved.
    SavingEpisode {
        messages: Vec<BufferedMessage>,
        summary: String,
        facts: Option<Vec<AtomicFact>>,
    },
    /// Waits for predictions.
    AskingForesight { episode_id: String, facts: Option<Vec<AtomicFact>> },
    /// Waits for the embeddings of predictions.
    Embedding {
        episode_id: String,
        facts: Option<Vec<AtomicFact>>,
        entries: Vec<ForesightEntry>,
    },
    /// Waits for predictions to be saved.
    SavingForesights { episode_id: String, facts: Option<Vec<AtomicFact>> },
    /// Waits for atomic facts to be saved.
    SavingEventLogs { episode_id: String },
    /// Waits for the number of episodes of the user.
    Counting { episode_id: String },
    /// Waits for recent episodes of the user.
    FetchingEpisodes { episode_id: String },
    /// Waits for the stored profile of the user.
    FetchingProfile { episode_id: String, episodes: Vec<SavedEpisode> },
    /// Waits for the current profile as JSON.
    RenderingProfile { episode_id: String, episodes: Vec<SavedEpisode>, current: ProfileData },
    /// Waits for a new profile.
    AskingProfile { episode_id: String, current: ProfileData },
    /// Waits for the merged profile to be saved.
    SavingProfile,
    /// Waits for the buffer to be cleared.
    Clearing,
    /// Waits for nothing.
    Finished,
}

/// Where a turn stands, as characters.
#[verifier::ext_equal]
pub enum StageView {
    Reading,
    AskingBoundary { messages: Seq<BufferedMessageView> },
    Extracting { messages: Seq<BufferedMessageView> },
    SavingEpisode {
        messages: Seq<BufferedMessageView>,
        summary: Seq<char>,
        facts: Option<Seq<AtomicFactView>>,
    },
    AskingForesight { episode_id: Seq<char>, facts: Option<Seq<AtomicFactView>> },
    Embedding {
        episode_id: Seq<char>,
        facts: Option<Seq<AtomicFactView>>,
        entries: Seq<ForesightEntryView>,
    },
    SavingForesights { episode_id: Seq<char>, facts: Option<Seq<AtomicFactView>> },
    SavingEventLogs { episode_id: Seq<char> },
    Counting { episode_id: Seq<char> },
    FetchingEpisodes { episode_id: Seq<char> },
    FetchingProfile { episode_id: Seq<char>, episodes: Seq<SavedEpisodeView> },
    RenderingProfile {
        episode_id: Seq<char>,
        episodes: Seq<SavedEpisodeView>,
        current: ProfileView,
    },
    AskingProfile { episode_id: Seq<char>, current: ProfileView },
    SavingProfile,
    Clearing,
    Finished,
}

/// The views of a list that may be missing.
pub open spec fn list_of<T: View>(list: Option<Vec<T>>) -> Option<Seq<T::V>> {
    match list {
        Some(items) => Some(text::views(items@)),
        None => None,
    }
}

impl View for Stage {
    type V = StageView;

    open spec fn view(&self) -> StageView {
        match *self {
            Stage::Reading => StageView::Reading,
            Stage::AskingBoundary { messages } => StageView::AskingBoundary {
                messages: text::views(messages@),
            },
            Stage::Extracting { messages } => StageView::Extracting {
                messages: text::views(messages@),
            },
            Stage::SavingEpisode { messages, summary, facts } => StageView::SavingEpisode {
                messages: text::views(messages@),
                summary: summary@,
                facts: list_of(facts),
            },
            Stage::AskingForesight { episode_id, facts } => StageView::AskingForesight {
                episode_id: episode_id@,
                facts: list_of(facts),
            },
            Stage::Embedding { episode_id, facts, entries } => StageView::Embedding {
                episode_id: episode_id@,
                facts: list_of(facts),
                entries: text::views(entries@),
            },
            Stage::SavingForesights { episode_id, facts } => StageView::SavingForesights {
                episode_id: episode_id@,
                facts: list_of(facts),
            },
            Stage::SavingEventLogs { episode_id } => StageView::SavingEventLogs {
                episode_id: episode_id@,
            },
            Stage::Counting { episode_id } => StageView::Counting { episode_id: episode_id@ },
            Stage::FetchingEpisodes { episode_id } => StageView::FetchingEpisodes {
                episode_id: episode_id@,
            },
            Stage::FetchingProfile { episode_id, episodes } => StageView::FetchingProfile {
                episode_id: episode_id@,
                episodes: text::views(episodes@),
            },
            Stage::RenderingProfile { episode_id, episodes, current } =>
                StageView::RenderingProfile {
                    episode_id: episode_id@,
                    episodes: text::views(episodes@),
                    current: current@,
                },
            Stage::AskingProfile { episode_id, current } => StageView::AskingProfile {
                episode_id: episode_id@,
                current: current@,
            },
            Stage::SavingProfile => StageView::SavingProfile,
            Stage::Clearing => StageView::Clearing,
            Stage::Finished => StageView::Finished,
        }
    }
}

/// What came of an action. A missing value says that the action failed; a question to a model has
/// failed where the main model has failed on it too.
#[derive(Debug)]
pub enum Event {
    MessagesRead(Option<Vec<BufferedMessage>>),
    BoundaryJudged(Option<BoundaryResult>),
    Extracted { episode: Option<EpisodeData>, event_logs: Option<EventLogData> },
    EpisodeSaved(Option<SavedEpisode>),
    ForesightsFound(Option<Vec<ForesightEntry>>),
    Embedded(Option<Vec<Vec<u8>>>),
    ForesightsSaved(bool),
    EventLogsSaved(bool),
    EpisodeCounted(Option<i64>),
    EpisodesFetched(Option<Vec<SavedEpisode>>),
    ProfileFetched(Option<ProfileData>),
    ProfileRendered(Option<String>),
    ProfileFound(Option<ProfileData>),
    ProfileSaved(bool),
    BufferCleared(bool),
}

/// What came of an action, as characters.
#[verifier::ext_equal]
pub enum EventView {
    MessagesRead(Option<Seq<BufferedMessageView>>),
    BoundaryJudged(Option<BoundaryResultView>),
    Extracted { episode: Option<EpisodeDataView>, event_logs: Option<Seq<AtomicFactView>> },
    EpisodeSaved(Option<SavedEpisodeView>),
    ForesightsFound(Option<Seq<ForesightEntryView>>),
    Embedded(Option<Seq<Seq<u8>>>),
    ForesightsSaved(bool),
    EventLogsSaved(bool),
    EpisodeCounted(Option<i64>),
    EpisodesFetched(Option<Seq<SavedEpisodeView>>),
    ProfileFetched(Option<ProfileView>),
    ProfileRendered(Option<Seq<char>>),
    ProfileFound(Option<ProfileView>),
    ProfileSaved(bool),
    BufferCleared(bool),
}

impl View for Event {
    type V = EventView;

    open spec fn view(&self) -> EventView {
        match *self {
            Event::MessagesRead(messages) => EventView::MessagesRead(list_of(messages)),
            Event::BoundaryJudged(result) => EventView::BoundaryJudged(text::view_of(result)),
            Event::Extracted { episode, event_logs } => EventView::Extracted {
                episode: text::view_of(episode),
                event_logs: text::view_of(event_logs),
            },
            Event::EpisodeSaved(saved) => EventView::EpisodeSaved(text::view_of(saved)),
            Event::ForesightsFound(entries) => EventView::ForesightsFound(list_of(entries)),
            Event::Embedded(embeddings) => EventView::Embedded(list_of(embeddings)),
            Event::ForesightsSaved(done) => EventView::ForesightsSaved(done),
            Event::EventLogsSaved(done) => EventView::EventLogsSaved(done),
            Event::EpisodeCounted(count) => EventView::EpisodeCounted(count),
            Event::EpisodesFetched(episodes) => EventView::EpisodesFetched(list_of(episodes)),
            Event::ProfileFetched(profile) => EventView::ProfileFetched(text::view_of(profile)),
            Event::ProfileRendered(json) => EventView::ProfileRendered(text::view_of(json)),
            Event::ProfileFound(profile) => EventView::ProfileFound(text::view_of(profile)),
            Event::ProfileSaved(done) => EventView::ProfileSaved(done),
            Event::BufferCleared(done) => EventView::BufferCleared(done),
        }
    }
}

/// What is to be done next.
#[derive(Debug)]
pub enum Action {
    /// Read the buffered messages of the session, the oldest first.
    ReadMessages { session_id: String },
    /// Ask the model for a boundary.
    AskBoundary(ChatQuery),
    /// Ask the model for the episode and for the atomic facts, side by side.
    Extract { reason: String, episode: ChatQuery, event_log: ChatQuery },
    /// Save the episode.
    SaveEpisode { session_id: String, user_id: String, data: EpisodeData },
    /// Ask the model for predictions.
    AskForesight(ChatQuery),
    /// Embed the contents of the predictions.
    EmbedForesights { contents: Vec<String> },
    /// Save the predictions.
    SaveForesights { drafts: Vec<ForesightDraft> },
    /// Save the atomic facts of the episode.
    SaveEventLogs { episode_id: String, facts: Vec<AtomicFact> },
    /// Count one episode more for the user and say how many there are.
    CountEpisode { user_id: String },
    /// Fetch the most recent episodes of the user.
    FetchEpisodes { user_id: String, limit: usize },
    /// Fetch the stored profile of the user.
    FetchProfile { user_id: String },
    /// Write the profile as indented JSON.
    RenderProfile { profile: ProfileData },
    /// Ask the model for a profile.
    AskProfile(ChatQuery),
    /// Save the merged profile of the user, with the episode that it was updated at.
    SaveProfile { user_id: String, profile: ProfileData, episode_id: String },
    /// Delete the buffered messages of the session.
    ClearBuffer { session_id: String },
    /// Do nothing more.
    Finish(TurnEnd),
}

/// What is to be done next, as characters.
#[verifier::ext_equal]
pub enum ActionView {
    ReadMessages { session_id: Seq<char> },
    AskBoundary(ChatQueryView),
    Extract { reason: Seq<char>, episode: ChatQueryView, event_log: ChatQueryView },
    SaveEpisode { session_id: Seq<char>, user_id: Seq<char>, data: EpisodeDataView },
    AskForesight(ChatQueryView),
    EmbedForesights { contents: Seq<Seq<char>> },
    SaveForesights { drafts: Seq<ForesightDraftView> },
    SaveEventLogs { episode_id: Seq<char>, facts: Seq<AtomicFactView> },
    CountEpisode { user_id: Seq<char> },
    FetchEpisodes { user_id: Seq<char>, limit: nat },
    FetchProfile { user_id: Seq<char> },
    RenderProfile { profile: ProfileView },
    AskProfile(ChatQueryView),
    SaveProfile { user_id: Seq<char>, profile: ProfileView, episode_id: Seq<char> },
    ClearBuffer { session_id: Seq<char> },
    Finish(TurnEnd),
}

impl View for Action {
    type V = ActionView;

    open spec fn view(&self) -> ActionView {
        match *self {
            Action::ReadMessages { session_id } => ActionView::ReadMessages {
                session_id: session_id@,
            },
            Action::AskBoundary(query) => ActionView::AskBoundary(query@),
            Action::Extract { reason, episode, event_log } => ActionView::Extract {
                reason: reason@,
                episode: episode@,
                event_log: event_log@,
            },
            Action::SaveEpisode { session_id, user_id, data } => ActionView::SaveEpisode {
                session_id: session_id@,
                user_id: user_id@,
                data: data@,
            },
            Action::AskForesight(query) => ActionView::AskForesight(query@),
            Action::EmbedForesights { contents } => ActionView::EmbedForesights {
                contents: text::views(contents@),
            },
            Action::SaveForesights { drafts } => ActionView::SaveForesights {
                drafts: text::views(drafts@),
            },
            Action::SaveEventLogs { episode_id, facts } => ActionView::SaveEventLogs {
                episode_id: episode_id@,
                facts: text::views(facts@),
            },
            Action::CountEpisode { user_id } => ActionView::CountEpisode { user_id: user_id@ },
            Action::FetchEpisodes { user_id, limit } => ActionView::FetchEpisodes {
                user_id: user_id@,
                limit: limit as nat,
            },
            Action::FetchProfile { user_id } => ActionView::FetchProfile { user_id: user_id@ },
            Action::RenderProfile { profile } => ActionView::RenderProfile { profile: profile@ },
            Action::AskProfile(query) => ActionView::AskProfile(query@),
            Action::SaveProfile { user_id, profile, episode_id } => ActionView::SaveProfile {
                user_id: user_id@,
                profile: profile@,
                episode_id: episode_id@,
            },
            Action::ClearBuffer { session_id } => ActionView::ClearBuffer {
                session_id: session_id@,
            },
            Action::Finish(end) => ActionView::Finish(end),
        }
    }
}

/// A turn of a session.
#[derive(Debug)]
pub struct Turn {
    pub session_id: String,
    pub user_id: String,
    pub stage: Stage,
}

/// A turn as characters.
#[verifier::ext_equal]
pub struct TurnView {
    pub session_id: Seq<char>,
    pub user_id: Seq<char>,
    pub stage: StageView,
}

impl View for Turn {
    type V = TurnView;

    open spec fn view(&self) -> TurnView {
        TurnView {
            session_id: self.session_id@,
            user_id: self.user_id@,
            stage: self.stage@,
        }
    }
}

/// What a turn goes by: the settings, the main model and whether predictions are embedded.
#[verifier::ext_equal]
pub struct Rules {
    pub config: PipelineConfigView,
    pub default_model: Seq<char>,
    pub embeds: bool,
}

/// A stage and what is to be done at it.
#[verifier::ext_equal]
pub struct Step {
    pub stage: StageView,
    pub action: ActionView,
}

/// The end of a turn.
pub open spec fn end_step(end: TurnEnd) -> Step {
    Step { stage: StageView::Finished, action: ActionView::Finish(end) }
}

/// The start of a turn: the buffer is read.
pub open spec fn first_step(session_id: Seq<char>) -> Step {
    Step {
        stage: StageView::Reading,
        action: ActionView::ReadMessages { session_id },
    }
}

/// After a decision on the buffer: it is kept, or episode and facts are extracted from it.
pub open spec fn decision_step(
    rules: Rules,
    messages: Seq<BufferedMessageView>,
    decision: FlushDecisionView,
) -> Step {
    match decision {
        FlushDecisionView::Wait => end_step(TurnEnd::KeptBuffering),
        FlushDecisionView::Flush { reason } => Step {
            stage: StageView::Extracting { messages },
            action: ActionView::Extract {
                reason,
                episode: extractor::episode::episode_query(
                    rules.config,
                    rules.default_model,
                    messages,
                ),
                event_log: extractor::event_log::event_log_query(
                    rules.config,
                    rules.default_model,
                    messages,
                ),
            },
        },
    }
}

/// After the buffer was read: nothing is done with an empty one.
pub open spec fn reading_step(
    rules: Rules,
    messages: Option<Seq<BufferedMessageView>>,
) -> Step {
    match messages {
        None => end_step(TurnEnd::ReadFailed),
        Some(messages) => if messages.len() == 0 {
            end_step(TurnEnd::NothingBuffered)
        } else {
            match boundary::boundary_step(rules.config, rules.default_model, messages) {
                BoundaryStepView::Decided(decision) => decision_step(rules, messages, decision),
                BoundaryStepView::Ask(query) => Step {
                    stage: StageView::AskingBoundary { messages },
                    action: ActionView::AskBoundary(query),
                },
            }
        },
    }
}

/// After the model was asked for a boundary: the buffer is kept where that failed.
pub open spec fn boundary_judged_step(
    rules: Rules,
    messages: Seq<BufferedMessageView>,
    result: Option<BoundaryResultView>,
) -> Step {
    match result {
        None => end_step(TurnEnd::BoundaryFailed),
        Some(result) => decision_step(
            rules,
            messages,
            boundary::boundary_verdict(rules.config, result),
        ),
    }
}

/// After the extraction: the episode is required, the facts are not.
pub open spec fn extracted_step(
    session_id: Seq<char>,
    user_id: Seq<char>,
    messages: Seq<BufferedMessageView>,
    episode: Option<EpisodeDataView>,
    facts: Option<Seq<AtomicFactView>>,
) -> Step {
    match episode {
        None => end_step(TurnEnd::EpisodeNotExtracted),
        Some(data) => Step {
            stage: StageView::SavingEpisode { messages, summary: data.summary, facts },
            action: ActionView::SaveEpisode {
                session_id,
                user_id,
                data,
            },
        },
    }
}

/// After the episode was saved: predictions are asked for, from the conversation and the summary.
pub open spec fn episode_saved_step(
    rules: Rules,
    messages: Seq<BufferedMessageView>,
    summary: Seq<char>,
    facts: Option<Seq<AtomicFactView>>,
    saved: Option<SavedEpisodeView>,
) -> Step {
    match saved {
        None => end_step(TurnEnd::EpisodeNotSaved),
        Some(saved) => Step {
            stage: StageView::AskingForesight { episode_id: saved.id, facts },
            action: ActionView::AskForesight(
                extractor::foresight::foresight_query(
                    rules.config,
                    rules.default_model,
                    buffer::conversation(messages),
                    summary,
                ),
            ),
        },
    }
}

/// The contents of predictions.
pub open spec fn contents(entries: Seq<ForesightEntryView>) -> Seq<Seq<char>> {
    Seq::new(entries.len(), |i: int| entries[i].content)
}

/// Predictions that are saved without embeddings.
pub open spec fn plain_drafts(
    user_id: Seq<char>,
    episode_id: Seq<char>,
    entries: Seq<ForesightEntryView>,
) -> Seq<ForesightDraftView> {
    Seq::new(
        entries.len(),
        |i: int|
            ForesightDraftView {
                episode_id,
                user_id,
                entry: entries[i],
                embedding: None,
            },
    )
}

/// Predictions that are saved with their embeddings; those for which there is none go without.
pub open spec fn embedded_drafts(
    user_id: Seq<char>,
    episode_id: Seq<char>,
    entries: Seq<ForesightEntryView>,
    embeddings: Seq<Seq<u8>>,
) -> Seq<ForesightDraftView> {
    Seq::new(
        entries.len(),
        |i: int|
            ForesightDraftView {
                episode_id,
                user_id,
                entry: entries[i],
                embedding: if i < embeddings.len() {
                    Some(embeddings[i])
                } else {
                    None
                },
            },
    )
}

/// The predictions are saved.
pub open spec fn save_foresights_step(
    episode_id: Seq<char>,
    facts: Option<Seq<AtomicFactView>>,
    drafts: Seq<ForesightDraftView>,
) -> Step {
    Step {
        stage: StageView::SavingForesights { episode_id, facts },
        action: ActionView::SaveForesights { drafts },
    }
}

/// The episode is counted.
pub open spec fn count_step(user_id: Seq<char>, episode_id: Seq<char>) -> Step {
    Step {
        stage: StageView::Counting { episode_id },
        action: ActionView::CountEpisode { user_id },
    }
}

/// The atomic facts are saved, where they were extracted, before the episode is counted.
pub open spec fn event_logs_step(
    user_id: Seq<char>,
    episode_id: Seq<char>,
    facts: Option<Seq<AtomicFactView>>,
) -> Step {
    match facts {
        Some(facts) => Step {
            stage: StageView::SavingEventLogs { episode_id },
            action: ActionView::SaveEventLogs { episode_id, facts },
        },
        None => count_step(user_id, episode_id),
    }
}

/// After predictions were asked for: none count where that failed.
pub open spec fn foresights_found_step(
    rules: Rules,
    user_id: Seq<char>,
    episode_id: Seq<char>,
    facts: Option<Seq<AtomicFactView>>,
    found: Option<Seq<ForesightEntryView>>,
) -> Step {
    match found {
        Some(entries) => if entries.len() == 0 {
            event_logs_step(user_id, episode_id, facts)
        } else if rules.embeds {
            Step {
                stage: StageView::Embedding { episode_id, facts, entries },
                action: ActionView::EmbedForesights { contents: contents(entries) },
            }
        } else {
            save_foresights_step(episode_id, facts, plain_drafts(user_id, episode_id, entries))
        },
        None => event_logs_step(user_id, episode_id, facts),
    }
}

/// After the embedding: the predictions are saved without embeddings where it failed.
pub open spec fn embedded_step(
    user_id: Seq<char>,
    episode_id: Seq<char>,
    facts: Option<Seq<AtomicFactView>>,
    entries: Seq<ForesightEntryView>,
    embeddings: Option<Seq<Seq<u8>>>,
) -> Step {
    save_foresights_step(
        episode_id,
        facts,
        match embeddings {
            Some(embeddings) => embedded_drafts(user_id, episode_id, entries, embeddings),
            None => plain_drafts(user_id, episode_id, entries),
        },
    )
}

/// The buffer is cleared.
pub open spec fn clear_step(session_id: Seq<char>) -> Step {
    Step {
        stage: StageView::Clearing,
        action: ActionView::ClearBuffer { session_id },
    }
}

/// Whether the profile is updated at this number of episodes.
pub open spec fn profile_is_due(interval: nat, count: Option<i64>) -> bool {
    match count {
        Some(count) => count > 0 && (count as usize) as nat % interval == 0,
        None => false,
    }
}

/// After the episode was counted: at every interval the profile is updated.
pub open spec fn counted_step(
    rules: Rules,
    session_id: Seq<char>,
    user_id: Seq<char>,
    episode_id: Seq<char>,
    count: Option<i64>,
) -> Step {
    if profile_is_due(rules.config.profile_update_interval, count) {
        Step {
            stage: StageView::FetchingEpisodes { episode_id },
            action: ActionView::FetchEpisodes {
                user_id,
                limit: rules.config.profile_update_interval,
            },
        }
    } else {
        clear_step(session_id)
    }
}

/// After recent episodes were fetched: without any there is no update.
pub open spec fn episodes_fetched_step(
    session_id: Seq<char>,
    user_id: Seq<char>,
    episode_id: Seq<char>,
    episodes: Option<Seq<SavedEpisodeView>>,
) -> Step {
    match episodes {
        Some(episodes) => if episodes.len() == 0 {
            clear_step(session_id)
        } else {
            Step {
                stage: StageView::FetchingProfile { episode_id, episodes },
                action: ActionView::FetchProfile { user_id },
            }
        },
        None => clear_step(session_id),
    }
}

/// After the stored profile was fetched: an empty one stands for one that is missing or cannot be
/// read.
pub open spec fn profile_fetched_step(
    episode_id: Seq<char>,
    episodes: Seq<SavedEpisodeView>,
    profile: Option<ProfileView>,
) -> Step {
    let current = match profile {
        Some(profile) => profile,
        None => profile_types::empty_profile(),
    };
    Step {
        stage: StageView::RenderingProfile { episode_id, episodes, current },
        action: ActionView::RenderProfile { profile: current },
    }
}

/// After the current profile was written as JSON: the model is asked.
pub open spec fn profile_rendered_step(
    rules: Rules,
    session_id: Seq<char>,
    episode_id: Seq<char>,
    episodes: Seq<SavedEpisodeView>,
    current: ProfileView,
    json: Option<Seq<char>>,
) -> Step {
    match json {
        Some(json) => Step {
            stage: StageView::AskingProfile { episode_id, current },
            action: ActionView::AskProfile(
                extractor::profile::profile_query(
                    chat::model_name(rules.config, rules.default_model),
                    json,
                    episodes,
                    rules.config.prompt_language,
                ),
            ),
        },
        None => clear_step(session_id),
    }
}

/// After the model was asked for a profile: what it found is merged into the current one.
pub open spec fn profile_found_step(
    session_id: Seq<char>,
    user_id: Seq<char>,
    episode_id: Seq<char>,
    current: ProfileView,
    found: Option<ProfileView>,
) -> Step {
    match found {
        Some(found) => Step {
            stage: StageView::SavingProfile,
            action: ActionView::SaveProfile {
                user_id,
                profile: merger::merged_profile(current, found),
                episode_id,
            },
        },
        None => clear_step(session_id),
    }
}

/// After the buffer was cleared the turn is over.
pub open spec fn cleared_step(done: bool) -> Step {
    end_step(
        if done {
            TurnEnd::Flushed
        } else {
            TurnEnd::ClearFailed
        },
    )
}

/// Whether an event is what a stage waits for.
pub open spec fn answers(stage: StageView, event: EventView) -> bool {
    match stage {
        StageView::Reading => event is MessagesRead,
        StageView::AskingBoundary { .. } => event is BoundaryJudged,
        StageView::Extracting { .. } => event is Extracted,
        StageView::SavingEpisode { .. } => event is EpisodeSaved,
        StageView::AskingForesight { .. } => event is ForesightsFound,
        StageView::Embedding { .. } => event is Embedded,
        StageView::SavingForesights { .. } => event is ForesightsSaved,
        StageView::SavingEventLogs { .. } => event is EventLogsSaved,
        StageView::Counting { .. } => event is EpisodeCounted,
        StageView::FetchingEpisodes { .. } => event is EpisodesFetched,
        StageView::FetchingProfile { .. } => event is ProfileFetched,
        StageView::RenderingProfile { .. } => event is ProfileRendered,
        StageView::AskingProfile { .. } => event is ProfileFound,
        StageView::SavingProfile => event is ProfileSaved,
        StageView::Clearing => event is BufferCleared,
        StageView::Finished => false,
    }
}

/// What follows where an event answers the stage of a turn.
pub open spec fn next_step(rules: Rules, turn: TurnView, event: EventView) -> Step {
    match (turn.stage, event) {
        (StageView::Reading, EventView::MessagesRead(messages)) => reading_step(rules, messages),
        (StageView::AskingBoundary { messages }, EventView::BoundaryJudged(result)) =>
            boundary_judged_step(rules, messages, result),
        (StageView::Extracting { messages }, EventView::Extracted { episode, event_logs }) =>
            extracted_step(turn.session_id, turn.user_id, messages, episode, event_logs),
        (
            StageView::SavingEpisode { messages, summary, facts },
            EventView::EpisodeSaved(saved),
        ) => episode_saved_step(rules, messages, summary, facts, saved),
        (StageView::AskingForesight { episode_id, facts }, EventView::ForesightsFound(found)) =>
            foresights_found_step(rules, turn.user_id, episode_id, facts, found),
        (
            StageView::Embedding { episode_id, facts, entries },
            EventView::Embedded(embeddings),
        ) => embedded_step(turn.user_id, episode_id, facts, entries, embeddings),
        (StageView::SavingForesights { episode_id, facts }, EventView::ForesightsSaved(_)) =>
            event_logs_step(turn.user_id, episode_id, facts),
        (StageView::SavingEventLogs { episode_id }, EventView::EventLogsSaved(_)) => count_step(
            turn.user_id,
            episode_id,
        ),
        (StageView::Counting { episode_id }, EventView::EpisodeCounted(count)) => counted_step(
            rules,
            turn.session_id,
            turn.user_id,
            episode_id,
            count,
        ),
        (StageView::FetchingEpisodes { episode_id }, EventView::EpisodesFetched(episodes)) =>
            episodes_fetched_step(turn.session_id, turn.user_id, episode_id, episodes),
        (
            StageView::FetchingProfile { episode_id, episodes },
            EventView::ProfileFetched(profile),
        ) => profile_fetched_step(episode_id, episodes, profile),
        (
            StageView::RenderingProfile { episode_id, episodes, current },
            EventView::ProfileRendered(json),
        ) => profile_rendered_step(rules, turn.session_id, episode_id, episodes, current, json),
        (StageView::AskingProfile { episode_id, current }, EventView::ProfileFound(found)) =>
            profile_found_step(turn.session_id, turn.user_id, episode_id, current, found),
        (StageView::SavingProfile, EventView::ProfileSaved(_)) => clear_step(turn.session_id),
        (StageView::Clearing, EventView::BufferCleared(done)) => cleared_step(done),
        _ => arbitrary(),
    }
}

/// What an event must meet beyond answering the stage: the lengths of the messages add up to a
/// number of the machine, and a profile can only come due by an interval that is not zero.
pub open spec fn admissible(rules: Rules, event: EventView) -> bool {
    match event {
        EventView::MessagesRead(Some(messages)) => buffer::total_chars(messages) <= usize::MAX,
        EventView::EpisodeCounted(Some(count)) => count > 0
            ==> rules.config.profile_update_interval > 0,
        _ => true,
    }
}

} // verus!
