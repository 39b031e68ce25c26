//! What a turn does after each event, told by the events alone.

use vstd::prelude::*;

use crate::boundary;
use crate::boundary::{BoundaryResultView, BoundaryStepView, FlushDecisionView};
use crate::buffer;
use crate::buffer::BufferedMessageView;
use crate::chat;
use crate::extractor;
use crate::extractor::EpisodeDataView;
use crate::extractor::foresight::ForesightEntryView;
use crate::merger_laws;
use crate::profile_types;
use crate::profile_types::ProfileView;
use crate::store::{ForesightDraftView, SavedEpisodeView};
use crate::turn::{ActionView, EventView, Rules, StageView, TurnEnd};
use crate::turn_laws;
use crate::turn_laws::State;

verus! {

/// The messages that were read.
pub open spec fn messages_read(events: Seq<EventView>) -> Seq<BufferedMessageView>
    decreases events.len(),
{
    if events.len() == 0 {
        Seq::empty()
    } else {
        match events.last() {
            EventView::MessagesRead(Some(messages)) => messages,
            _ => messages_read(events.drop_last()),
        }
    }
}

/// The episode that was extracted, where it was.
pub open spec fn episode_extracted(events: Seq<EventView>) -> Option<EpisodeDataView>
    decreases events.len(),
{
    if events.len() == 0 {
        None
    } else {
        match events.last() {
            EventView::Extracted { episode, .. } => episode,
            _ => episode_extracted(events.drop_last()),
        }
    }
}

/// The predictions that were found, where they were.
pub open spec fn foresights_found(events: Seq<EventView>) -> Option<Seq<ForesightEntryView>>
    decreases events.len(),
{
    if events.len() == 0 {
        None
    } else {
        match events.last() {
            EventView::ForesightsFound(found) => found,
            _ => foresights_found(events.drop_last()),
        }
    }
}

/// The episodes that were fetched.
pub open spec fn episodes_fetched(events: Seq<EventView>) -> Seq<SavedEpisodeView>
    decreases events.len(),
{
    if events.len() == 0 {
        Seq::empty()
    } else {
        match events.last() {
            EventView::EpisodesFetched(Some(episodes)) => episodes,
            _ => episodes_fetched(events.drop_last()),
        }
    }
}

/// The profile that was fetched; one of which nothing is known where there was none.
pub open spec fn profile_fetched(events: Seq<EventView>) -> ProfileView
    decreases events.len(),
{
    if events.len() == 0 {
        profile_types::empty_profile()
    } else {
        match events.last() {
            EventView::ProfileFetched(Some(profile)) => profile,
            EventView::ProfileFetched(None) => profile_types::empty_profile(),
            _ => profile_fetched(events.drop_last()),
        }
    }
}

/// What a turn still holds of the events before.
spec fn remembers(user_id: Seq<char>, events: Seq<EventView>, state: State) -> bool {
    match state.turn.stage {
        StageView::AskingBoundary { messages } => messages == messages_read(events),
        StageView::Extracting { messages } => messages == messages_read(events),
        StageView::SavingEpisode { messages, summary, .. } => messages == messages_read(events) && (
        episode_extracted(events) matches Some(data) && data.summary == summary),
        StageView::Embedding { entries, .. } => foresights_found(events) == Some(entries),
        StageView::FetchingProfile { episodes, .. } => episodes == episodes_fetched(events),
        StageView::RenderingProfile { episodes, current, .. } => episodes == episodes_fetched(
            events,
        ) && current == profile_fetched(events),
        StageView::AskingProfile { current, .. } => current == profile_fetched(events),
        _ => true,
    }
}

proof fn every_course_remembers(
    rules: Rules,
    session_id: Seq<char>,
    user_id: Seq<char>,
    events: Seq<EventView>,
)
    requires
        turn_laws::is_course(rules, session_id, user_id, events),
    ensures
        remembers(user_id, events, turn_laws::reached(rules, session_id, user_id, events)),
        turn_laws::tallies(
            session_id,
            user_id,
            events,
            turn_laws::reached(rules, session_id, user_id, events),
        ),
    decreases events.len(),
{
    turn_laws::every_course_tallies(rules, session_id, user_id, events);
    if events.len() > 0 {
        every_course_remembers(rules, session_id, user_id, events.drop_last());
    }
}

/// Whether the action asks for the episode and for the facts of the messages, for the reason of the
/// decision.
pub open spec fn extracts(
    rules: Rules,
    messages: Seq<BufferedMessageView>,
    decision: FlushDecisionView,
    action: ActionView,
) -> bool {
    action matches ActionView::Extract { reason, episode, event_log } && decision == (
    FlushDecisionView::Flush { reason }) && episode == extractor::episode::episode_query(
        rules.config,
        rules.default_model,
        messages,
    )
        && event_log == extractor::event_log::event_log_query(
        rules.config,
        rules.default_model,
        messages,
    )
}

/// A turn begins by reading the buffer of its session. What was read decides: nothing ends the turn,
/// a quarter of the characters or the number of the messages at its limit goes straight to the
/// extraction, one message alone is kept, and of more the model is asked.
pub proof fn what_was_read_decides(
    rules: Rules,
    session_id: Seq<char>,
    user_id: Seq<char>,
    events: Seq<EventView>,
    found: Option<Seq<BufferedMessageView>>,
)
    requires
        turn_laws::is_course(
            rules,
            session_id,
            user_id,
            events.push(EventView::MessagesRead(found)),
        ),
    ensures
        turn_laws::reached(rules, session_id, user_id, Seq::empty()).action == (
        ActionView::ReadMessages { session_id }),
        ({
            let action = turn_laws::reached(
                rules,
                session_id,
                user_id,
                events.push(EventView::MessagesRead(found)),
            ).action;
            match found {
                None => action == ActionView::Finish(TurnEnd::ReadFailed),
                Some(messages) => if messages.len() == 0 {
                    action == ActionView::Finish(TurnEnd::NothingBuffered)
                } else if buffer::total_chars(messages) >= 4 * rules.config.hard_token_limit
                    || messages.len() >= rules.config.hard_message_limit {
                    boundary::boundary_step(rules.config, rules.default_model, messages) matches
                        BoundaryStepView::Decided(decision) && extracts(
                        rules,
                        messages,
                        decision,
                        action,
                    )
                } else if messages.len() == 1 {
                    action == ActionView::Finish(TurnEnd::KeptBuffering)
                } else {
                    action matches ActionView::AskBoundary(query) && boundary::boundary_step(
                        rules.config,
                        rules.default_model,
                        messages,
                    ) == BoundaryStepView::Ask(query)
                },
            }
        }),
{
    assert(events.push(EventView::MessagesRead(found)).drop_last() =~= events);
}

/// The word of the model decides over the messages that were read: an end with enough confidence
/// leads to the extraction, anything else keeps the buffer.
pub proof fn the_word_of_the_model_decides(
    rules: Rules,
    session_id: Seq<char>,
    user_id: Seq<char>,
    events: Seq<EventView>,
    result: BoundaryResultView,
)
    ensures
        ({
            let failed = events.push(EventView::BoundaryJudged(None));
            turn_laws::is_course(rules, session_id, user_id, failed) ==> turn_laws::reached(
                rules,
                session_id,
                user_id,
                failed,
            ).action == ActionView::Finish(TurnEnd::BoundaryFailed)
        }),
        ({
            let judged = events.push(EventView::BoundaryJudged(Some(result)));
            let action = turn_laws::reached(rules, session_id, user_id, judged).action;
            turn_laws::is_course(rules, session_id, user_id, judged) ==> if result.should_end
                && result.confidence.reaches(rules.config.boundary_threshold) {
                extracts(
                    rules,
                    messages_read(events),
                    boundary::boundary_verdict(rules.config, result),
                    action,
                )
            } else {
                action == ActionView::Finish(TurnEnd::KeptBuffering)
            }
        }),
{
    let failed = events.push(EventView::BoundaryJudged(None));
    let judged = events.push(EventView::BoundaryJudged(Some(result)));
    assert(failed.drop_last() =~= events);
    assert(judged.drop_last() =~= events);
    if turn_laws::is_course(rules, session_id, user_id, events) {
        every_course_remembers(rules, session_id, user_id, events);
    }
}

/// The episode that was extracted is saved as it is, for the session and the user; without one the
/// turn ends.
pub proof fn the_extracted_episode_is_saved(
    rules: Rules,
    session_id: Seq<char>,
    user_id: Seq<char>,
    events: Seq<EventView>,
    episode: Option<EpisodeDataView>,
    facts: Option<Seq<extractor::AtomicFactView>>,
)
    requires
        turn_laws::is_course(
            rules,
            session_id,
            user_id,
            events.push(EventView::Extracted { episode, event_logs: facts }),
        ),
    ensures
        turn_laws::reached(
            rules,
            session_id,
            user_id,
            events.push(EventView::Extracted { episode, event_logs: facts }),
        ).action == match episode {
            Some(data) => ActionView::SaveEpisode { session_id, user_id, data },
            None => ActionView::Finish(TurnEnd::EpisodeNotExtracted),
        },
{
    assert(events.push(EventView::Extracted { episode, event_logs: facts }).drop_last()
        =~= events);
    every_course_remembers(rules, session_id, user_id, events);
}

/// Once the episode is saved, predictions are asked for, from the whole conversation that was read
/// and the summary that was extracted; where it could not be saved the turn ends.
pub proof fn predictions_follow_the_saved_episode(
    rules: Rules,
    session_id: Seq<char>,
    user_id: Seq<char>,
    events: Seq<EventView>,
    saved: Option<SavedEpisodeView>,
)
    requires
        turn_laws::is_course(
            rules,
            session_id,
            user_id,
            events.push(EventView::EpisodeSaved(saved)),
        ),
    ensures
        ({
            let action = turn_laws::reached(
                rules,
                session_id,
                user_id,
                events.push(EventView::EpisodeSaved(saved)),
            ).action;
            &&& saved is None ==> action == ActionView::Finish(TurnEnd::EpisodeNotSaved)
            &&& saved is Some ==> (episode_extracted(events) matches Some(data) && action
                == ActionView::AskForesight(
                extractor::foresight::foresight_query(
                    rules.config,
                    rules.default_model,
                    buffer::conversation(messages_read(events)),
                    data.summary,
                ),
            ))
        }),
{
    assert(events.push(EventView::EpisodeSaved(saved)).drop_last() =~= events);
    every_course_remembers(rules, session_id, user_id, events);
}

/// Whether the predictions are drafted one by one, in their order, under the saved episode and for
/// the user.
pub open spec fn drafted(
    episode_id: Option<Seq<char>>,
    user_id: Seq<char>,
    entries: Seq<ForesightEntryView>,
    drafts: Seq<ForesightDraftView>,
) -> bool {
    &&& drafts.len() == entries.len()
    &&& forall|i: int|
        0 <= i < drafts.len() ==> (#[trigger] drafts[i]).entry == entries[i] && Some(
            drafts[i].episode_id,
        ) == episode_id && drafts[i].user_id == user_id
}

/// Whether the facts are saved next, or the episode counted where none were extracted.
pub open spec fn goes_on_to_facts(
    user_id: Seq<char>,
    events: Seq<EventView>,
    action: ActionView,
) -> bool {
    match turn_laws::extracted_facts(events) {
        Some(facts) => action matches ActionView::SaveEventLogs { episode_id, facts: written }
            && written == facts && turn_laws::saved_as(events) == Some(episode_id),
        None => action == (ActionView::CountEpisode { user_id }),
    }
}

/// All predictions that were found are saved, without embeddings, or first embedded, all of them,
/// where that is set up. Where none were found the facts come next.
pub proof fn all_found_predictions_are_kept(
    rules: Rules,
    session_id: Seq<char>,
    user_id: Seq<char>,
    events: Seq<EventView>,
    found: Option<Seq<ForesightEntryView>>,
)
    requires
        turn_laws::is_course(
            rules,
            session_id,
            user_id,
            events.push(EventView::ForesightsFound(found)),
        ),
    ensures
        ({
            let action = turn_laws::reached(
                rules,
                session_id,
                user_id,
                events.push(EventView::ForesightsFound(found)),
            ).action;
            if found is None || found->0.len() == 0 {
                goes_on_to_facts(user_id, events, action)
            } else if rules.embeds {
                action matches ActionView::EmbedForesights { contents } && contents.len()
                    == found->0.len() && forall|i: int|
                    0 <= i < contents.len() ==> #[trigger] contents[i] == found->0[i].content
            } else {
                action matches ActionView::SaveForesights { drafts } && drafted(
                    turn_laws::saved_as(events),
                    user_id,
                    found->0,
                    drafts,
                ) && forall|i: int|
                    0 <= i < drafts.len() ==> (#[trigger] drafts[i]).embedding is None
            }
        }),
{
    assert(events.push(EventView::ForesightsFound(found)).drop_last() =~= events);
    every_course_remembers(rules, session_id, user_id, events);
}

/// Every prediction that was found is saved with the embedding at its place, and without one where
/// there is none there.
pub proof fn embeddings_go_with_their_predictions(
    rules: Rules,
    session_id: Seq<char>,
    user_id: Seq<char>,
    events: Seq<EventView>,
    embeddings: Option<Seq<Seq<u8>>>,
)
    requires
        turn_laws::is_course(
            rules,
            session_id,
            user_id,
            events.push(EventView::Embedded(embeddings)),
        ),
    ensures
        ({
            let action = turn_laws::reached(
                rules,
                session_id,
                user_id,
                events.push(EventView::Embedded(embeddings)),
            ).action;
            foresights_found(events) matches Some(entries) && (action
                matches ActionView::SaveForesights { drafts } && drafted(
                turn_laws::saved_as(events),
                user_id,
                entries,
                drafts,
            ) && forall|i: int|
                0 <= i < drafts.len() ==> (#[trigger] drafts[i]).embedding == if embeddings is Some
                    && i < embeddings->0.len() {
                    Some(embeddings->0[i])
                } else {
                    None
                })
        }),
{
    assert(events.push(EventView::Embedded(embeddings)).drop_last() =~= events);
    every_course_remembers(rules, session_id, user_id, events);
}

/// Behind the predictions come the facts that were extracted, all of them, and behind the facts the
/// episode is counted for the user, whether or not something could be saved.
pub proof fn facts_and_count_follow(
    rules: Rules,
    session_id: Seq<char>,
    user_id: Seq<char>,
    events: Seq<EventView>,
    done: bool,
)
    ensures
        ({
            let next = events.push(EventView::ForesightsSaved(done));
            turn_laws::is_course(rules, session_id, user_id, next) ==> goes_on_to_facts(
                user_id,
                events,
                turn_laws::reached(rules, session_id, user_id, next).action,
            )
        }),
        ({
            let next = events.push(EventView::EventLogsSaved(done));
            turn_laws::is_course(rules, session_id, user_id, next) ==> turn_laws::reached(
                rules,
                session_id,
                user_id,
                next,
            ).action == (ActionView::CountEpisode { user_id })
        }),
{
    assert(events.push(EventView::ForesightsSaved(done)).drop_last() =~= events);
    assert(events.push(EventView::EventLogsSaved(done)).drop_last() =~= events);
    if turn_laws::is_course(rules, session_id, user_id, events) {
        every_course_remembers(rules, session_id, user_id, events);
    }
}

/// At every multiple of the interval as many episodes of the user as the interval says are fetched;
/// at any other number, or without one, the buffer of the session is cleared.
pub proof fn the_count_decides_on_the_profile(
    rules: Rules,
    session_id: Seq<char>,
    user_id: Seq<char>,
    events: Seq<EventView>,
    count: Option<i64>,
)
    requires
        turn_laws::is_course(
            rules,
            session_id,
            user_id,
            events.push(EventView::EpisodeCounted(count)),
        ),
        count matches Some(number) ==> number <= usize::MAX,
    ensures
        ({
            let interval = rules.config.profile_update_interval;
            let due = count matches Some(number) && number > 0 && number as nat % interval == 0;
            turn_laws::reached(
                rules,
                session_id,
                user_id,
                events.push(EventView::EpisodeCounted(count)),
            ).action == if due {
                ActionView::FetchEpisodes { user_id, limit: interval }
            } else {
                ActionView::ClearBuffer { session_id }
            }
        }),
{
    assert(events.push(EventView::EpisodeCounted(count)).drop_last() =~= events);
    every_course_remembers(rules, session_id, user_id, events);
}

/// The profile of the user is looked up where there are episodes, and written as it was fetched, or
/// as one of which nothing is known. Without episodes the buffer of the session is cleared.
pub proof fn the_stored_profile_is_looked_up(
    rules: Rules,
    session_id: Seq<char>,
    user_id: Seq<char>,
    events: Seq<EventView>,
    episodes: Option<Seq<SavedEpisodeView>>,
    profile: Option<ProfileView>,
)
    ensures
        ({
            let next = events.push(EventView::EpisodesFetched(episodes));
            turn_laws::is_course(rules, session_id, user_id, next) ==> turn_laws::reached(
                rules,
                session_id,
                user_id,
                next,
            ).action == if episodes is Some && episodes->0.len() > 0 {
                ActionView::FetchProfile { user_id }
            } else {
                ActionView::ClearBuffer { session_id }
            }
        }),
        ({
            let next = events.push(EventView::ProfileFetched(profile));
            turn_laws::is_course(rules, session_id, user_id, next) ==> turn_laws::reached(
                rules,
                session_id,
                user_id,
                next,
            ).action == (ActionView::RenderProfile {
                profile: if profile is Some {
                    profile->0
                } else {
                    profile_types::empty_profile()
                },
            })
        }),
{
    assert(events.push(EventView::EpisodesFetched(episodes)).drop_last() =~= events);
    assert(events.push(EventView::ProfileFetched(profile)).drop_last() =~= events);
    if turn_laws::is_course(rules, session_id, user_id, events) {
        every_course_remembers(rules, session_id, user_id, events);
    }
}

/// The model is asked for a profile from the one that was fetched, as it was written, and the
/// episodes that were fetched. Where it could not be written the buffer of the session is cleared.
pub proof fn the_profile_is_asked_for(
    rules: Rules,
    session_id: Seq<char>,
    user_id: Seq<char>,
    events: Seq<EventView>,
    json: Option<Seq<char>>,
)
    requires
        turn_laws::is_course(
            rules,
            session_id,
            user_id,
            events.push(EventView::ProfileRendered(json)),
        ),
    ensures
        turn_laws::reached(
            rules,
            session_id,
            user_id,
            events.push(EventView::ProfileRendered(json)),
        ).action == match json {
            Some(written) => ActionView::AskProfile(
                extractor::profile::profile_query(
                    chat::model_name(rules.config, rules.default_model),
                    written,
                    episodes_fetched(events),
                    rules.config.prompt_language,
                ),
            ),
            None => ActionView::ClearBuffer { session_id },
        },
{
    assert(events.push(EventView::ProfileRendered(json)).drop_last() =~= events);
    every_course_remembers(rules, session_id, user_id, events);
}

/// A profile that was found is saved for the user and under the saved episode, absorbed into the one
/// that was fetched: a name that was found takes the place of the one that was known, and every
/// attribute keeps the last ten of the evidences of the fetched profile followed by those of the
/// found one. Where none was found the buffer of the session is cleared.
pub proof fn the_found_profile_is_absorbed(
    rules: Rules,
    session_id: Seq<char>,
    user_id: Seq<char>,
    events: Seq<EventView>,
    found: Option<ProfileView>,
)
    requires
        turn_laws::is_course(
            rules,
            session_id,
            user_id,
            events.push(EventView::ProfileFound(found)),
        ),
    ensures
        ({
            let action = turn_laws::reached(
                rules,
                session_id,
                user_id,
                events.push(EventView::ProfileFound(found)),
            ).action;
            match found {
                Some(profile) => action matches ActionView::SaveProfile {
                    user_id: of,
                    profile: saved,
                    episode_id,
                } && of == user_id && turn_laws::saved_as(events) == Some(episode_id)
                    && merger_laws::profile_absorbed(profile_fetched(events), profile, saved),
                None => action == (ActionView::ClearBuffer { session_id }),
            }
        }),
{
    assert(events.push(EventView::ProfileFound(found)).drop_last() =~= events);
    every_course_remembers(rules, session_id, user_id, events);
    if found is Some {
        merger_laws::profiles_are_absorbed(profile_fetched(events), found->0);
    }
}

/// Behind the profile the buffer of the session is cleared, and the answer to that ends the turn.
pub proof fn the_clearing_ends_the_turn(
    rules: Rules,
    session_id: Seq<char>,
    user_id: Seq<char>,
    events: Seq<EventView>,
    done: bool,
)
    ensures
        ({
            let next = events.push(EventView::ProfileSaved(done));
            turn_laws::is_course(rules, session_id, user_id, next) ==> turn_laws::reached(
                rules,
                session_id,
                user_id,
                next,
            ).action == (ActionView::ClearBuffer { session_id })
        }),
        ({
            let next = events.push(EventView::BufferCleared(done));
            turn_laws::is_course(rules, session_id, user_id, next) ==> turn_laws::reached(
                rules,
                session_id,
                user_id,
                next,
            ).action == ActionView::Finish(
                if done {
                    TurnEnd::Flushed
                } else {
                    TurnEnd::ClearFailed
                },
            )
        }),
{
    assert(events.push(EventView::ProfileSaved(done)).drop_last() =~= events);
    assert(events.push(EventView::BufferCleared(done)).drop_last() =~= events);
    if turn_laws::is_course(rules, session_id, user_id, events) {
        every_course_remembers(rules, session_id, user_id, events);
    }
}

} // verus!
