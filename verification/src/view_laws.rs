//! What the views of the library's types show.

use vstd::prelude::*;

use crate::boundary::{BoundaryResult, FlushDecision, FlushDecisionView};
use crate::buffer::BufferedMessage;
use crate::chat::ChatQuery;
use crate::config::PipelineConfig;
use crate::extractor::{AtomicFact, EpisodeData, EventLogData};
use crate::extractor::foresight::ForesightEntry;
use crate::formatter::MemoryEntry;
use crate::profile_types::{Attribute, LeveledAttribute, ProfileData};
use crate::store::{EventLogRow, ForesightDraft, ForesightRow, SavedEpisode};
use crate::text;
use crate::turn;
use crate::turn::{Action, ActionView, Event, EventView, Turn};

verus! {

/// The view of a `BufferedMessage` shows each field by its own.
pub proof fn buffered_message_fields_are_shown(value: BufferedMessage)
    ensures
        value@.id == value.id@,
        value@.session_id == value.session_id@,
        value@.role == value.role@,
        value@.content == value.content@,
        value@.char_count == value.char_count,
        value@.created_at == value.created_at@,
{
}

/// The view of a `BoundaryResult` shows each field by its own.
pub proof fn boundary_result_fields_are_shown(value: BoundaryResult)
    ensures
        value@.reasoning == value.reasoning@,
        value@.should_end == value.should_end,
        value@.confidence == value.confidence,
        value@.confidence_text == value.confidence_text@,
        value@.topic_summary == value.topic_summary@,
{
}

/// The view of a `ChatQuery` shows each field by its own.
pub proof fn chat_query_fields_are_shown(value: ChatQuery)
    ensures
        value@.model == value.model@,
        value@.system == text::view_of(value.system),
        value@.user == value.user@,
{
}

/// The view of a `PipelineConfig` shows each field by its own.
pub proof fn pipeline_config_fields_are_shown(value: PipelineConfig)
    ensures
        value@.enabled == value.enabled,
        value@.extraction_model == text::view_of(value.extraction_model),
        value@.prompt_language == value.prompt_language@,
        value@.boundary_threshold == value.boundary_threshold,
        value@.hard_token_limit == value.hard_token_limit,
        value@.hard_message_limit == value.hard_message_limit,
        value@.buffer_ttl_hours == value.buffer_ttl_hours,
        value@.max_episodic_entries == value.max_episodic_entries,
        value@.max_facts_entries == value.max_facts_entries,
        value@.max_foresight_entries == value.max_foresight_entries,
        value@.profile_update_interval == value.profile_update_interval,
{
}

/// The view of an `EpisodeData` shows each field by its own.
pub proof fn episode_data_fields_are_shown(value: EpisodeData)
    ensures
        value@.subject == value.subject@,
        value@.episode == value.episode@,
        value@.summary == value.summary@,
{
}

/// The view of an `AtomicFact` shows each field by its own.
pub proof fn atomic_fact_fields_are_shown(value: AtomicFact)
    ensures
        value@.fact == value.fact@,
        value@.time == text::view_of(value.time),
{
}

/// The view of a `ForesightEntry` shows each field by its own.
pub proof fn foresight_entry_fields_are_shown(value: ForesightEntry)
    ensures
        value@.content == value.content@,
        value@.evidence == value.evidence@,
        value@.start_time == text::view_of(value.start_time),
        value@.end_time == text::view_of(value.end_time),
{
}

/// The view of a `MemoryEntry` shows each field by its own.
pub proof fn memory_entry_fields_are_shown(value: MemoryEntry)
    ensures
        value@.content == value.content@,
        value@.score == value.score,
        value@.autosaved == value.autosaved,
{
}

/// The view of a `LeveledAttribute` shows each field by its own.
pub proof fn leveled_attribute_fields_are_shown(value: LeveledAttribute)
    ensures
        value@.value == value.value@,
        value@.level == value.level@,
        value@.evidences == text::views(value.evidences@),
{
}

/// The view of an `Attribute` shows each field by its own.
pub proof fn attribute_fields_are_shown(value: Attribute)
    ensures
        value@.value == value.value@,
        value@.evidences == text::views(value.evidences@),
{
}

/// The view of a `ProfileData` shows each field by its own.
pub proof fn profile_data_fields_are_shown(value: ProfileData)
    ensures
        value@.user_name == text::view_of(value.user_name),
        value@.hard_skills == text::views(value.hard_skills@),
        value@.soft_skills == text::views(value.soft_skills@),
        value@.motivation_system == text::views(value.motivation_system@),
        value@.fear_system == text::views(value.fear_system@),
        value@.value_system == text::views(value.value_system@),
        value@.humor_use == text::views(value.humor_use@),
        value@.colloquialism == text::views(value.colloquialism@),
        value@.personality == text::views(value.personality@),
        value@.way_of_decision_making == text::views(value.way_of_decision_making@),
        value@.interests == text::views(value.interests@),
        value@.user_goal == text::views(value.user_goal@),
        value@.work_responsibility == text::views(value.work_responsibility@),
        value@.working_habit_preference == text::views(value.working_habit_preference@),
        value@.tendency == text::views(value.tendency@),
{
}

/// The view of a `SavedEpisode` shows each field by its own.
pub proof fn saved_episode_fields_are_shown(value: SavedEpisode)
    ensures
        value@.id == value.id@,
        value@.subject == value.subject@,
        value@.episode == value.episode@,
        value@.summary == value.summary@,
        value@.created_at == value.created_at@,
{
}

/// The view of an `EventLogRow` shows each field by its own.
pub proof fn event_log_row_fields_are_shown(value: EventLogRow)
    ensures
        value@.id == value.id@,
        value@.episode_id == value.episode_id@,
        value@.atomic_fact == value.atomic_fact@,
        value@.time_ref == text::view_of(value.time_ref),
        value@.created_at == value.created_at@,
{
}

/// The view of a `ForesightDraft` shows each field by its own.
pub proof fn foresight_draft_fields_are_shown(value: ForesightDraft)
    ensures
        value@.episode_id == value.episode_id@,
        value@.user_id == value.user_id@,
        value@.entry == value.entry@,
        value@.embedding == text::view_of(value.embedding),
{
}

/// The view of a `ForesightRow` shows each field by its own.
pub proof fn foresight_row_fields_are_shown(value: ForesightRow)
    ensures
        value@.id == value.id@,
        value@.episode_id == text::view_of(value.episode_id),
        value@.user_id == text::view_of(value.user_id),
        value@.content == value.content@,
        value@.evidence == value.evidence@,
        value@.start_time == text::view_of(value.start_time),
        value@.end_time == text::view_of(value.end_time),
        value@.created_at == value.created_at@,
        value@.embedding == text::view_of(value.embedding),
{
}

/// The view of a `Turn` shows each field by its own.
pub proof fn turn_fields_are_shown(value: Turn)
    ensures
        value@.session_id == value.session_id@,
        value@.user_id == value.user_id@,
        value@.stage == value.stage@,
{
}

/// The view of an action shows what it is and each of its parts by its own.
pub proof fn actions_are_shown(value: Action)
    ensures
        match value {
            Action::ReadMessages { session_id } => value@ == (ActionView::ReadMessages {
                session_id: session_id@,
            }),
            Action::AskBoundary(query) => value@ == (ActionView::AskBoundary(query@)),
            Action::Extract { reason, episode, event_log } => value@ == (ActionView::Extract {
                reason: reason@,
                episode: episode@,
                event_log: event_log@,
            }),
            Action::SaveEpisode { session_id, user_id, data } => value@
                == (ActionView::SaveEpisode {
                session_id: session_id@,
                user_id: user_id@,
                data: data@,
            }),
            Action::AskForesight(query) => value@ == (ActionView::AskForesight(query@)),
            Action::EmbedForesights { contents } => value@ == (ActionView::EmbedForesights {
                contents: text::views(contents@),
            }),
            Action::SaveForesights { drafts } => value@ == (ActionView::SaveForesights {
                drafts: text::views(drafts@),
            }),
            Action::SaveEventLogs { episode_id, facts } => value@ == (ActionView::SaveEventLogs {
                episode_id: episode_id@,
                facts: text::views(facts@),
            }),
            Action::CountEpisode { user_id } => value@
                == (ActionView::CountEpisode { user_id: user_id@ }),
            Action::FetchEpisodes { user_id, limit } => value@ == (ActionView::FetchEpisodes {
                user_id: user_id@,
                limit: limit as nat,
            }),
            Action::FetchProfile { user_id } => value@
                == (ActionView::FetchProfile { user_id: user_id@ }),
            Action::RenderProfile { profile } => value@
                == (ActionView::RenderProfile { profile: profile@ }),
            Action::AskProfile(query) => value@ == (ActionView::AskProfile(query@)),
            Action::SaveProfile { user_id, profile, episode_id } => value@
                == (ActionView::SaveProfile {
                user_id: user_id@,
                profile: profile@,
                episode_id: episode_id@,
            }),
            Action::ClearBuffer { session_id } => value@ == (ActionView::ClearBuffer {
                session_id: session_id@,
            }),
            Action::Finish(end) => value@ == (ActionView::Finish(end)),
        },
{
}

/// The view of an event shows what it is and each of its parts by its own.
pub proof fn events_are_shown(value: Event)
    ensures
        match value {
            Event::MessagesRead(messages) => value@
                == (EventView::MessagesRead(turn::list_of(messages))),
            Event::BoundaryJudged(result) => value@
                == (EventView::BoundaryJudged(text::view_of(result))),
            Event::Extracted { episode, event_logs } => value@ == (EventView::Extracted {
                episode: text::view_of(episode),
                event_logs: text::view_of(event_logs),
            }),
            Event::EpisodeSaved(saved) => value@ == (EventView::EpisodeSaved(text::view_of(saved))),
            Event::ForesightsFound(entries) => value@
                == (EventView::ForesightsFound(turn::list_of(entries))),
            Event::Embedded(embeddings) => value@
                == (EventView::Embedded(turn::list_of(embeddings))),
            Event::ForesightsSaved(done) => value@ == (EventView::ForesightsSaved(done)),
            Event::EventLogsSaved(done) => value@ == (EventView::EventLogsSaved(done)),
            Event::EpisodeCounted(count) => value@ == (EventView::EpisodeCounted(count)),
            Event::EpisodesFetched(episodes) => value@
                == (EventView::EpisodesFetched(turn::list_of(episodes))),
            Event::ProfileFetched(profile) => value@
                == (EventView::ProfileFetched(text::view_of(profile))),
            Event::ProfileRendered(json) => value@
                == (EventView::ProfileRendered(text::view_of(json))),
            Event::ProfileFound(profile) => value@
                == (EventView::ProfileFound(text::view_of(profile))),
            Event::ProfileSaved(done) => value@ == (EventView::ProfileSaved(done)),
            Event::BufferCleared(done) => value@ == (EventView::BufferCleared(done)),
        },
{
}

/// The view of a list that may be missing shows its items, where it is there.
pub proof fn lists_are_shown<T: View>(items: Vec<T>)
    ensures
        turn::list_of(Some(items)) == Some(text::views(items@)),
        turn::list_of(None::<Vec<T>>) is None,
{
}

/// The view of a decision shows which it is, with its reason.
pub proof fn decisions_are_shown(decision: FlushDecision)
    ensures
        match decision {
            FlushDecision::Flush { reason } => decision@ == (FlushDecisionView::Flush {
                reason: reason@,
            }),
            FlushDecision::Wait => decision@ == FlushDecisionView::Wait,
        },
{
}

/// The view of the facts of a conversation shows each of them, in order.
pub proof fn facts_are_shown(facts: EventLogData)
    ensures
        facts@ == text::views(facts.atomic_facts@),
{
}

} // verus!
