//! What holds of every course of a turn, whatever succeeds and whatever fails.

use vstd::prelude::*;

use crate::extractor::AtomicFactView;
use crate::store::ForesightDraftView;
use crate::turn;
use crate::turn::{ActionView, EventView, Rules, StageView, TurnEnd, TurnView};

verus! {

/// A turn and what is to be done for it.
#[verifier::ext_equal]
pub struct State {
    pub turn: TurnView,
    pub action: ActionView,
}

/// A turn of which nothing is done yet.
pub open spec fn started(session_id: Seq<char>, user_id: Seq<char>) -> State {
    let step = turn::first_step(session_id);
    State { turn: TurnView { session_id, user_id, stage: step.stage }, action: step.action }
}

/// The turn after one more event.
pub open spec fn after(rules: Rules, state: State, event: EventView) -> State {
    let step = turn::next_step(rules, state.turn, event);
    State { turn: TurnView { stage: step.stage, ..state.turn }, action: step.action }
}

/// The turn after all events.
pub open spec fn reached(
    rules: Rules,
    session_id: Seq<char>,
    user_id: Seq<char>,
    events: Seq<EventView>,
) -> State
    decreases events.len(),
{
    if events.len() == 0 {
        started(session_id, user_id)
    } else {
        after(rules, reached(rules, session_id, user_id, events.drop_last()), events.last())
    }
}

/// Whether the events can follow one another: each answers the stage that the ones before it have
/// led to.
pub open spec fn is_course(
    rules: Rules,
    session_id: Seq<char>,
    user_id: Seq<char>,
    events: Seq<EventView>,
) -> bool
    decreases events.len(),
{
    events.len() > 0 ==> {
        &&& is_course(rules, session_id, user_id, events.drop_last())
        &&& turn::answers(
            reached(rules, session_id, user_id, events.drop_last()).turn.stage,
            events.last(),
        )
        &&& turn::admissible(rules, events.last())
    }
}

/// The identifier under which the episode was saved, where it was.
pub open spec fn saved_as(events: Seq<EventView>) -> Option<Seq<char>>
    decreases events.len(),
{
    if events.len() == 0 {
        None
    } else {
        match events.last() {
            EventView::EpisodeSaved(Some(saved)) => Some(saved.id),
            _ => saved_as(events.drop_last()),
        }
    }
}

/// The atomic facts that were extracted, where they were.
pub open spec fn extracted_facts(events: Seq<EventView>) -> Option<Seq<AtomicFactView>>
    decreases events.len(),
{
    if events.len() == 0 {
        None
    } else {
        match events.last() {
            EventView::Extracted { event_logs, .. } => event_logs,
            _ => extracted_facts(events.drop_last()),
        }
    }
}

/// How many steps a stage has before it at most.
pub open spec fn steps_left(stage: StageView) -> nat {
    match stage {
        StageView::Reading => 15,
        StageView::AskingBoundary { .. } => 14,
        StageView::Extracting { .. } => 13,
        StageView::SavingEpisode { .. } => 12,
        StageView::AskingForesight { .. } => 11,
        StageView::Embedding { .. } => 10,
        StageView::SavingForesights { .. } => 9,
        StageView::SavingEventLogs { .. } => 8,
        StageView::Counting { .. } => 7,
        StageView::FetchingEpisodes { .. } => 6,
        StageView::FetchingProfile { .. } => 5,
        StageView::RenderingProfile { .. } => 4,
        StageView::AskingProfile { .. } => 3,
        StageView::SavingProfile => 2,
        StageView::Clearing => 1,
        StageView::Finished => 0,
    }
}

/// Whether a turn that ends so has asked for its buffer to be cleared.
pub open spec fn has_cleared(end: TurnEnd) -> bool {
    end == TurnEnd::Flushed || end == TurnEnd::ClearFailed
}

/// What a turn has to show for itself: the stage tells whether the episode is saved and under
/// which identifier, and what is to be done is what the stage waits for.
pub open spec fn tallies(
    session_id: Seq<char>,
    user_id: Seq<char>,
    events: Seq<EventView>,
    state: State,
) -> bool {
    let saved = saved_as(events);
    let facts = extracted_facts(events);
    &&& state.turn.session_id == session_id
    &&& state.turn.user_id == user_id
    &&& events.len() + steps_left(state.turn.stage) <= 15
    &&& match state.turn.stage {
        StageView::Reading => saved is None && state.action is ReadMessages,
        StageView::AskingBoundary { .. } => saved is None && state.action is AskBoundary,
        StageView::Extracting { .. } => saved is None && state.action is Extract,
        StageView::SavingEpisode { facts: kept, .. } => saved is None && kept == facts
            && state.action is SaveEpisode,
        StageView::AskingForesight { episode_id, facts: kept } => saved == Some(episode_id)
            && kept == facts && state.action is AskForesight,
        StageView::Embedding { episode_id, facts: kept, .. } => saved == Some(episode_id)
            && kept == facts && state.action is EmbedForesights,
        StageView::SavingForesights { episode_id, facts: kept } => saved == Some(episode_id)
            && kept == facts && (state.action matches ActionView::SaveForesights { drafts }
            && all_belong(drafts, episode_id, user_id)),
        StageView::SavingEventLogs { episode_id } => saved == Some(episode_id) && (
        state.action matches ActionView::SaveEventLogs { episode_id: at, facts: written }
            && at == episode_id && Some(written) == facts),
        StageView::Counting { episode_id } => saved == Some(episode_id)
            && state.action is CountEpisode,
        StageView::FetchingEpisodes { episode_id } => saved == Some(episode_id)
            && state.action is FetchEpisodes,
        StageView::FetchingProfile { episode_id, .. } => saved == Some(episode_id)
            && state.action is FetchProfile,
        StageView::RenderingProfile { episode_id, .. } => saved == Some(episode_id)
            && state.action is RenderProfile,
        StageView::AskingProfile { episode_id, .. } => saved == Some(episode_id)
            && state.action is AskProfile,
        StageView::SavingProfile => saved is Some && (state.action
            matches ActionView::SaveProfile { user_id: of, episode_id, .. } && saved == Some(
            episode_id,
        ) && of == user_id),
        StageView::Clearing => saved is Some && state.action == (ActionView::ClearBuffer {
            session_id,
        }),
        StageView::Finished => state.action matches ActionView::Finish(end) && has_cleared(end) == (
        saved is Some),
    }
}

/// Whether all predictions belong to an episode and a user.
pub open spec fn all_belong(
    drafts: Seq<ForesightDraftView>,
    episode_id: Seq<char>,
    user_id: Seq<char>,
) -> bool {
    forall|i: int|
        0 <= i < drafts.len() ==> (#[trigger] drafts[i]).episode_id == episode_id
            && drafts[i].user_id == user_id
}

pub proof fn every_course_tallies(
    rules: Rules,
    session_id: Seq<char>,
    user_id: Seq<char>,
    events: Seq<EventView>,
)
    requires
        is_course(rules, session_id, user_id, events),
    ensures
        tallies(session_id, user_id, events, reached(rules, session_id, user_id, events)),
    decreases events.len(),
{
    if events.len() > 0 {
        every_course_tallies(rules, session_id, user_id, events.drop_last());
    }
}

/// The buffer of a session is cleared only after an episode was saved from it, and no other buffer
/// is cleared.
pub proof fn only_a_saved_buffer_is_cleared(
    rules: Rules,
    session_id: Seq<char>,
    user_id: Seq<char>,
    events: Seq<EventView>,
)
    requires
        is_course(rules, session_id, user_id, events),
    ensures
        reached(rules, session_id, user_id, events).action matches ActionView::ClearBuffer {
            session_id: cleared,
        } ==> saved_as(events) is Some && cleared == session_id,
{
    every_course_tallies(rules, session_id, user_id, events);
}

proof fn earlier_part(
    rules: Rules,
    session_id: Seq<char>,
    user_id: Seq<char>,
    events: Seq<EventView>,
    count: nat,
)
    requires
        is_course(rules, session_id, user_id, events),
        count <= events.len(),
    ensures
        is_course(rules, session_id, user_id, events.take(count as int)),
        saved_as(events.take(count as int)) is Some ==> saved_as(events) is Some,
    decreases events.len(),
{
    if count == events.len() {
        assert(events.take(count as int) =~= events);
    } else {
        earlier_part(rules, session_id, user_id, events.drop_last(), count);
        assert(events.drop_last().take(count as int) =~= events.take(count as int));
    }
}

/// A turn that ends without an episode saved has at no time asked for the buffer to be cleared:
/// the messages are still there for the next turn.
pub proof fn without_an_episode_the_buffer_is_kept(
    rules: Rules,
    session_id: Seq<char>,
    user_id: Seq<char>,
    events: Seq<EventView>,
    end: TurnEnd,
    count: nat,
)
    requires
        is_course(rules, session_id, user_id, events),
        reached(rules, session_id, user_id, events).action == ActionView::Finish(end),
        !has_cleared(end),
        count <= events.len(),
    ensures
        !(reached(rules, session_id, user_id, events.take(count as int)).action is ClearBuffer),
{
    every_course_tallies(rules, session_id, user_id, events);
    earlier_part(rules, session_id, user_id, events, count);
    only_a_saved_buffer_is_cleared(rules, session_id, user_id, events.take(count as int));
}

/// Once the episode is saved, nothing that fails afterwards keeps the buffer from being cleared:
/// the turn can only end on the answer to that.
pub proof fn after_an_episode_the_buffer_is_cleared(
    rules: Rules,
    session_id: Seq<char>,
    user_id: Seq<char>,
    events: Seq<EventView>,
    end: TurnEnd,
)
    requires
        is_course(rules, session_id, user_id, events),
        saved_as(events) is Some,
        reached(rules, session_id, user_id, events).action == ActionView::Finish(end),
    ensures
        events.len() > 0,
        reached(rules, session_id, user_id, events.drop_last()).action == (
        ActionView::ClearBuffer { session_id }),
        end == TurnEnd::Flushed <==> events.last() == EventView::BufferCleared(true),
        end == TurnEnd::ClearFailed <==> events.last() == EventView::BufferCleared(false),
{
    every_course_tallies(rules, session_id, user_id, events);
    every_course_tallies(rules, session_id, user_id, events.drop_last());
}

/// How many episodes were saved.
pub open spec fn episodes_saved(events: Seq<EventView>) -> nat
    decreases events.len(),
{
    if events.len() == 0 {
        0
    } else {
        episodes_saved(events.drop_last()) + if events.last() matches EventView::EpisodeSaved(
            Some(_),
        ) {
            1nat
        } else {
            0
        }
    }
}

/// How often a course has asked for an episode to be saved, the last action included.
pub open spec fn saves_asked(
    rules: Rules,
    session_id: Seq<char>,
    user_id: Seq<char>,
    events: Seq<EventView>,
) -> nat
    decreases events.len(),
{
    let before = if events.len() == 0 {
        0
    } else {
        saves_asked(rules, session_id, user_id, events.drop_last())
    };
    before + if reached(rules, session_id, user_id, events).action is SaveEpisode {
        1nat
    } else {
        0
    }
}

/// How often a course has asked for the buffer to be cleared, the last action included.
pub open spec fn clears_asked(
    rules: Rules,
    session_id: Seq<char>,
    user_id: Seq<char>,
    events: Seq<EventView>,
) -> nat
    decreases events.len(),
{
    let before = if events.len() == 0 {
        0
    } else {
        clears_asked(rules, session_id, user_id, events.drop_last())
    };
    before + if reached(rules, session_id, user_id, events).action is ClearBuffer {
        1nat
    } else {
        0
    }
}

proof fn every_course_counts(
    rules: Rules,
    session_id: Seq<char>,
    user_id: Seq<char>,
    events: Seq<EventView>,
)
    requires
        is_course(rules, session_id, user_id, events),
    ensures
        episodes_saved(events) == if saved_as(events) is Some {
            1nat
        } else {
            0
        },
        ({
            let stage = reached(rules, session_id, user_id, events).turn.stage;
            let asked = saves_asked(rules, session_id, user_id, events);
            &&& asked <= 1
            &&& steps_left(stage) > 12 ==> asked == 0
            &&& saved_as(events) is Some ==> asked == 1
            &&& clears_asked(rules, session_id, user_id, events) == if steps_left(stage) > 1 {
                0
            } else {
                episodes_saved(events)
            }
        }),
    decreases events.len(),
{
    every_course_tallies(rules, session_id, user_id, events);
    if events.len() > 0 {
        every_course_tallies(rules, session_id, user_id, events.drop_last());
        every_course_counts(rules, session_id, user_id, events.drop_last());
    }
}

/// In one turn one episode is saved at most, and the buffer is cleared once at most: never more
/// often than an episode was saved, and in the end exactly as often.
pub proof fn saved_and_cleared_once_at_most(
    rules: Rules,
    session_id: Seq<char>,
    user_id: Seq<char>,
    events: Seq<EventView>,
)
    requires
        is_course(rules, session_id, user_id, events),
    ensures
        episodes_saved(events) <= saves_asked(rules, session_id, user_id, events) <= 1,
        clears_asked(rules, session_id, user_id, events) <= episodes_saved(events),
        reached(rules, session_id, user_id, events).action is Finish ==> clears_asked(
            rules,
            session_id,
            user_id,
            events,
        ) == episodes_saved(events),
{
    every_course_tallies(rules, session_id, user_id, events);
    every_course_counts(rules, session_id, user_id, events);
}

/// Whatever is written beside the episode carries the identifier under which the episode was
/// saved: the predictions, the facts and the mark on the profile. The facts are those that were
/// extracted.
pub proof fn all_writes_belong_to_the_saved_episode(
    rules: Rules,
    session_id: Seq<char>,
    user_id: Seq<char>,
    events: Seq<EventView>,
)
    requires
        is_course(rules, session_id, user_id, events),
    ensures
        match reached(rules, session_id, user_id, events).action {
            ActionView::SaveForesights { drafts } => saved_as(events) matches Some(saved)
                && all_belong(drafts, saved, user_id),
            ActionView::SaveEventLogs { episode_id, facts } => saved_as(events) == Some(episode_id)
                && extracted_facts(events) == Some(facts),
            ActionView::SaveProfile { user_id: of, episode_id, .. } => saved_as(events) == Some(
                episode_id,
            ) && of == user_id,
            _ => true,
        },
{
    every_course_tallies(rules, session_id, user_id, events);
}

/// A turn takes fifteen events at most, and as long as it has not ended some event can follow.
pub proof fn every_turn_ends(
    rules: Rules,
    session_id: Seq<char>,
    user_id: Seq<char>,
    events: Seq<EventView>,
)
    requires
        is_course(rules, session_id, user_id, events),
    ensures
        events.len() <= 15,
        !(reached(rules, session_id, user_id, events).action is Finish) ==> exists|event: EventView|
            #[trigger] is_course(rules, session_id, user_id, events.push(event)),
{
    every_course_tallies(rules, session_id, user_id, events);
    let event = failure(reached(rules, session_id, user_id, events).turn.stage);
    assert(events.push(event).drop_last() =~= events);
    assert(!(reached(rules, session_id, user_id, events).action is Finish) ==> is_course(
        rules,
        session_id,
        user_id,
        events.push(event),
    ));
}

/// The event that says that the action of a stage has failed.
pub open spec fn failure(stage: StageView) -> EventView {
    match stage {
        StageView::Reading => EventView::MessagesRead(None),
        StageView::AskingBoundary { .. } => EventView::BoundaryJudged(None),
        StageView::Extracting { .. } => EventView::Extracted { episode: None, event_logs: None },
        StageView::SavingEpisode { .. } => EventView::EpisodeSaved(None),
        StageView::AskingForesight { .. } => EventView::ForesightsFound(None),
        StageView::Embedding { .. } => EventView::Embedded(None),
        StageView::SavingForesights { .. } => EventView::ForesightsSaved(false),
        StageView::SavingEventLogs { .. } => EventView::EventLogsSaved(false),
        StageView::Counting { .. } => EventView::EpisodeCounted(None),
        StageView::FetchingEpisodes { .. } => EventView::EpisodesFetched(None),
        StageView::FetchingProfile { .. } => EventView::ProfileFetched(None),
        StageView::RenderingProfile { .. } => EventView::ProfileRendered(None),
        StageView::AskingProfile { .. } => EventView::ProfileFound(None),
        StageView::SavingProfile => EventView::ProfileSaved(false),
        StageView::Clearing => EventView::BufferCleared(false),
        StageView::Finished => EventView::BufferCleared(false),
    }
}

/// Whether the predictions, the facts or the profile could be saved makes no difference to what
/// follows.
pub proof fn lesser_saves_do_not_block(rules: Rules, turn: TurnView)
    ensures
        turn.stage is SavingForesights ==> turn::next_step(
            rules,
            turn,
            EventView::ForesightsSaved(false),
        ) == turn::next_step(rules, turn, EventView::ForesightsSaved(true)),
        turn.stage is SavingEventLogs ==> turn::next_step(
            rules,
            turn,
            EventView::EventLogsSaved(false),
        ) == turn::next_step(rules, turn, EventView::EventLogsSaved(true)),
        turn.stage is SavingProfile ==> turn::next_step(
            rules,
            turn,
            EventView::ProfileSaved(false),
        ) == turn::next_step(rules, turn, EventView::ProfileSaved(true)),
{
}

/// The profile is updated at every `interval` episodes, and not in between.
pub proof fn the_profile_is_due_at_multiples(interval: nat, count: i64)
    requires
        interval > 0,
        count <= usize::MAX,
    ensures
        turn::profile_is_due(interval, Some(count)) <==> exists|times: nat|
            times > 0 && count == #[trigger] (times * interval),
{
    if turn::profile_is_due(interval, Some(count)) {
        let times = (count as nat / interval) as nat;
        vstd::arithmetic::div_mod::lemma_fundamental_div_mod(count as int, interval as int);
        assert(interval * (count as int / interval as int) == times * interval)
            by (nonlinear_arith)
            requires
                times == count as int / interval as int,
        ;
        assert(count == times * interval);
        assert(times > 0) by (nonlinear_arith)
            requires
                count == times * interval,
                count > 0,
        ;
    }
    if exists|times: nat| times > 0 && count == #[trigger] (times * interval) {
        let times = choose|times: nat| times > 0 && count == #[trigger] (times * interval);
        assert(times * interval > 0) by (nonlinear_arith)
            requires
                times > 0,
                interval > 0,
        ;
        vstd::arithmetic::div_mod::lemma_mod_multiples_basic(times as int, interval as int);
    }
}

} // verus!
