//! What holds of every question that is put to a model.

use vstd::prelude::*;

use crate::boundary;
use crate::boundary::{BoundaryResultView, BoundaryStepView, FlushDecisionView};
use crate::buffer;
use crate::buffer::BufferedMessageView;
use crate::buffer_laws;
use crate::chat;
use crate::config;
use crate::config::PipelineConfigView;
use crate::extractor;
use crate::prompts;
use crate::score::Score;
use crate::store::SavedEpisodeView;
use crate::text;
use crate::text_laws;

verus! {

/// Whether a text holds a pattern at one place and nowhere else.
pub open spec fn holds_only_at(full: Seq<char>, at: int, pattern: Seq<char>) -> bool {
    forall|k: int| k != at ==> !(#[trigger] text_laws::holds_at(full, k, pattern))
}

/// The settings where none are given: the pipeline is off, asks the main model in English, and has
/// the limits of the documentation.
pub proof fn settings_are_off_by_default()
    ensures
        ({
            let settings = config::default_config();
            &&& !settings.enabled
            &&& settings.extraction_model is None
            &&& settings.prompt_language == "en"@
            // 0.6
            &&& settings.boundary_threshold.bits == 0x3fe3_3333_3333_3333
            &&& settings.hard_token_limit == 4096
            &&& settings.hard_message_limit == 30
            &&& settings.buffer_ttl_hours == 24
            &&& settings.max_episodic_entries == 5
            &&& settings.max_facts_entries == 5
            &&& settings.max_foresight_entries == 3
            &&& settings.profile_update_interval == 5
        }),
{
}

/// Scores compare as their numbers do: of two that are not negative the one with the larger bits is
/// the larger, of two negative ones the one with the smaller bits, a negative one reaches none that
/// is not unless both are zero, and each reaches itself unless it is not a number.
pub proof fn scores_compare_as_numbers(a: Score, b: Score)
    ensures
        a.reaches(a) <==> !a.is_nan(),
        a.bits <= 0x7ff0_0000_0000_0000 && b.bits <= 0x7ff0_0000_0000_0000 ==> (a.reaches(b)
            <==> a.bits >= b.bits),
        0x8000_0000_0000_0000 <= a.bits <= 0xfff0_0000_0000_0000 && 0x8000_0000_0000_0000 <= b.bits
            <= 0xfff0_0000_0000_0000 ==> (a.reaches(b) <==> a.bits <= b.bits),
        a.bits <= 0x7ff0_0000_0000_0000 && 0x8000_0000_0000_0000 <= b.bits <= 0xfff0_0000_0000_0000
            ==> a.reaches(b) && (b.reaches(a) <==> a.bits == 0 && b.bits == 0x8000_0000_0000_0000),
        a.is_nan() <==> 0x7ff0_0000_0000_0000 < a.bits < 0x8000_0000_0000_0000 || a.bits
            > 0xfff0_0000_0000_0000,
{
}

/// The extraction model is asked where one is set, and the main model where none is.
pub proof fn the_set_model_is_asked(config: PipelineConfigView, default_model: Seq<char>)
    ensures
        config.extraction_model matches Some(model) ==> chat::model_name(config, default_model)
            == model,
        config.extraction_model is None ==> chat::model_name(config, default_model)
            == default_model,
{
}

/// The prompts are in Italian where the language is `it`, and in English for any other.
pub proof fn the_language_chooses_the_prompts(language: Seq<char>)
    ensures
        language == "it"@ ==> {
            &&& prompts::boundary_prompt(language) == prompts::BOUNDARY_IT@
            &&& prompts::episode_prompt(language) == prompts::EPISODE_IT@
            &&& prompts::event_log_prompt(language) == prompts::EVENT_LOG_IT@
            &&& prompts::foresight_prompt(language) == prompts::FORESIGHT_IT@
            &&& prompts::profile_prompt(language) == prompts::PROFILE_IT@
        },
        language != "it"@ ==> {
            &&& prompts::boundary_prompt(language) == prompts::BOUNDARY_EN@
            &&& prompts::episode_prompt(language) == prompts::EPISODE_EN@
            &&& prompts::event_log_prompt(language) == prompts::EVENT_LOG_EN@
            &&& prompts::foresight_prompt(language) == prompts::FORESIGHT_EN@
            &&& prompts::profile_prompt(language) == prompts::PROFILE_EN@
        },
{
}

/// The message for a reply that could not be parsed begins with the stage, ends with the reply, and
/// has what the parser said between.
pub proof fn a_parse_error_tells_stage_error_and_reply(
    stage: Seq<char>,
    error: Seq<char>,
    raw: Seq<char>,
)
    ensures
        ({
            let message = chat::parse_error(stage, error, raw);
            let lead = stage + " JSON parse error: "@;
            let middle = error + "\nRaw: "@;
            &&& message.len() == lead.len() + middle.len() + raw.len()
            &&& message.take(lead.len() as int) == lead
            &&& message.subrange(lead.len() as int, message.len() - raw.len()) == middle
            &&& message.skip(message.len() - raw.len()) == raw
        }),
{
    let message = chat::parse_error(stage, error, raw);
    let lead = stage + " JSON parse error: "@;
    let middle = error + "\nRaw: "@;
    assert(message.take(lead.len() as int) =~= lead);
    assert(message.subrange(lead.len() as int, message.len() - raw.len()) =~= middle);
    assert(message.skip(message.len() - raw.len()) =~= raw);
}

/// The questions for the narrative and for the facts hold the whole conversation of the messages, in
/// the place that the prompt leaves for it, and nothing else of the prompt changes. They go to the
/// model that is set, without a system message.
pub proof fn the_whole_conversation_is_asked_about(
    config: PipelineConfigView,
    default_model: Seq<char>,
    messages: Seq<BufferedMessageView>,
    front: Seq<char>,
    back: Seq<char>,
)
    requires
        holds_only_at(front + "{conversation}"@ + back, front.len() as int, "{conversation}"@),
    ensures
        ({
            let episode = extractor::episode::episode_query(config, default_model, messages);
            let facts = extractor::event_log::event_log_query(config, default_model, messages);
            let model = match config.extraction_model {
                Some(set) => set,
                None => default_model,
            };
            &&& prompts::episode_prompt(config.prompt_language) == front + "{conversation}"@ + back
                ==> episode.user == front + buffer::conversation(messages) + back
            &&& prompts::event_log_prompt(config.prompt_language) == front + "{conversation}"@
                + back ==> facts.user == front + buffer::conversation(messages) + back
            &&& episode.model == model && facts.model == model
            &&& episode.system is None && facts.system is None
        }),
{
    reveal_strlit("{conversation}");
    text_laws::the_only_place_is_replaced(
        front,
        "{conversation}"@,
        back,
        buffer::conversation(messages),
    );
}

proof fn two_places_are_filled(
    front: Seq<char>,
    first: Seq<char>,
    middle: Seq<char>,
    second: Seq<char>,
    back: Seq<char>,
    one: Seq<char>,
    two: Seq<char>,
)
    requires
        first.len() > 0,
        second.len() > 0,
        holds_only_at(
            front + first + (middle + second + back),
            front.len() as int,
            first,
        ),
        holds_only_at(
            (front + one + middle) + second + back,
            (front + one + middle).len() as int,
            second,
        ),
    ensures
        text::replaced(
            text::replaced(front + first + (middle + second + back), first, one),
            second,
            two,
        ) == front + one + middle + two + back,
{
    text_laws::the_only_place_is_replaced(front, first, middle + second + back, one);
    assert(front + one + (middle + second + back) =~= (front + one + middle) + second + back);
    text_laws::the_only_place_is_replaced(front + one + middle, second, back, two);
}

/// The question for a boundary holds the whole conversation before the last message in the place for
/// the history, and the last message with its role and its whole content in the place for what is
/// new.
pub proof fn the_last_message_is_set_against_the_rest(
    config: PipelineConfigView,
    messages: Seq<BufferedMessageView>,
    front: Seq<char>,
    middle: Seq<char>,
    back: Seq<char>,
)
    requires
        messages.len() >= 2,
        prompts::boundary_prompt(config.prompt_language) == front + "{history}"@ + (middle
            + "{new_messages}"@ + back),
        holds_only_at(
            front + "{history}"@ + (middle + "{new_messages}"@ + back),
            front.len() as int,
            "{history}"@,
        ),
        ({
            let filled = front + buffer::conversation(messages.drop_last()) + middle;
            holds_only_at(
                filled + "{new_messages}"@ + back,
                filled.len() as int,
                "{new_messages}"@,
            )
        }),
    ensures
        boundary::boundary_prompt(config, messages) == front + buffer::conversation(
            messages.drop_last(),
        ) + middle + (messages.last().role + ": "@ + messages.last().content) + back,
{
    reveal_strlit("{history}");
    reveal_strlit("{new_messages}");
    buffer_laws::one_message_is_written_whole(messages.last());
    two_places_are_filled(
        front,
        "{history}"@,
        middle,
        "{new_messages}"@,
        back,
        buffer::conversation(messages.drop_last()),
        buffer::conversation(seq![messages.last()]),
    );
}

/// The question for predictions holds the summary in the one place and the whole conversation in the
/// other, with the system message of the foresight engine, and goes to the model that is set.
pub proof fn predictions_are_asked_from_summary_and_conversation(
    config: PipelineConfigView,
    default_model: Seq<char>,
    conversation: Seq<char>,
    summary: Seq<char>,
    front: Seq<char>,
    middle: Seq<char>,
    back: Seq<char>,
)
    requires
        holds_only_at(
            front + "{episode_summary}"@ + (middle + "{buffer_content}"@ + back),
            front.len() as int,
            "{episode_summary}"@,
        ),
        holds_only_at(
            (front + summary + middle) + "{buffer_content}"@ + back,
            (front + summary + middle).len() as int,
            "{buffer_content}"@,
        ),
    ensures
        ({
            let query = extractor::foresight::foresight_query(
                config,
                default_model,
                conversation,
                summary,
            );
            &&& prompts::foresight_prompt(config.prompt_language) == front + "{episode_summary}"@
                + (middle + "{buffer_content}"@ + back) ==> query.user == front + summary + middle
                + conversation + back
            &&& query.system == Some(
                "You are a memory foresight engine. Extract behavioral predictions."@,
            )
            &&& query.model == match config.extraction_model {
                Some(set) => set,
                None => default_model,
            }
        }),
{
    reveal_strlit("{episode_summary}");
    reveal_strlit("{buffer_content}");
    two_places_are_filled(
        front,
        "{episode_summary}"@,
        middle,
        "{buffer_content}"@,
        back,
        summary,
        conversation,
    );
}

/// The question for the profile holds the current profile in the one place and the episodes in the
/// other, with the system message of the profile engine, and goes to the model that is given.
pub proof fn the_profile_is_asked_from_profile_and_episodes(
    model: Seq<char>,
    json: Seq<char>,
    episodes: Seq<SavedEpisodeView>,
    language: Seq<char>,
    front: Seq<char>,
    middle: Seq<char>,
    back: Seq<char>,
)
    requires
        holds_only_at(
            front + "{current_profile_json}"@ + (middle + "{recent_episodes}"@ + back),
            front.len() as int,
            "{current_profile_json}"@,
        ),
        holds_only_at(
            (front + json + middle) + "{recent_episodes}"@ + back,
            (front + json + middle).len() as int,
            "{recent_episodes}"@,
        ),
    ensures
        ({
            let query = extractor::profile::profile_query(model, json, episodes, language);
            &&& prompts::profile_prompt(language) == front + "{current_profile_json}"@ + (middle
                + "{recent_episodes}"@ + back) ==> query.user == front + json + middle
                + extractor::profile::episodes_text(episodes) + back
            &&& query.system == Some(
                "You are a user profile extraction engine. Analyze episodes and extract structured attributes."@,
            )
            &&& query.model == model
        }),
{
    reveal_strlit("{current_profile_json}");
    reveal_strlit("{recent_episodes}");
    two_places_are_filled(
        front,
        "{current_profile_json}"@,
        middle,
        "{recent_episodes}"@,
        back,
        json,
        extractor::profile::episodes_text(episodes),
    );
}

/// Whatever the prompts and the texts hold, a question is the prompt with each of its places
/// exchanged, one kind of place after the other.
pub proof fn questions_are_filled_prompts(
    config: PipelineConfigView,
    default_model: Seq<char>,
    messages: Seq<BufferedMessageView>,
    given: Seq<char>,
    summary: Seq<char>,
    episodes: Seq<SavedEpisodeView>,
)
    requires
        messages.len() > 0,
    ensures
        extractor::episode::episode_query(config, default_model, messages).user == text::replaced(
            prompts::episode_prompt(config.prompt_language),
            "{conversation}"@,
            buffer::conversation(messages),
        ),
        extractor::event_log::event_log_query(config, default_model, messages).user
            == text::replaced(
            prompts::event_log_prompt(config.prompt_language),
            "{conversation}"@,
            buffer::conversation(messages),
        ),
        boundary::boundary_prompt(config, messages) == text::replaced(
            text::replaced(
                prompts::boundary_prompt(config.prompt_language),
                "{history}"@,
                buffer::conversation(messages.take(messages.len() - 1)),
            ),
            "{new_messages}"@,
            messages.last().role + ": "@ + messages.last().content,
        ),
        extractor::foresight::foresight_query(config, default_model, given, summary).user
            == text::replaced(
            text::replaced(
                prompts::foresight_prompt(config.prompt_language),
                "{episode_summary}"@,
                summary,
            ),
            "{buffer_content}"@,
            given,
        ),
        extractor::profile::profile_query(
            default_model,
            given,
            episodes,
            config.prompt_language,
        ).user == text::replaced(
            text::replaced(
                prompts::profile_prompt(config.prompt_language),
                "{current_profile_json}"@,
                given,
            ),
            "{recent_episodes}"@,
            extractor::profile::episodes_text(episodes),
        ),
{
    buffer_laws::one_message_is_written_whole(messages.last());
    assert(messages.take(messages.len() - 1) =~= messages.drop_last());
}

/// An episode stands in the question for a profile with its identifier, its time, its subject and
/// its whole narrative, and a later one stands behind it, after a rule.
pub proof fn episodes_are_written_whole(
    episode: SavedEpisodeView,
    earlier: Seq<SavedEpisodeView>,
)
    ensures
        ({
            let written = "[Episode "@ + episode.id + "] ("@ + episode.created_at
                + ")\nSubject: "@ + episode.subject + "\n"@ + episode.episode + "\n"@;
            &&& extractor::profile::episodes_text(seq![episode]) == written
            &&& earlier.len() > 0 ==> extractor::profile::episodes_text(earlier.push(episode))
                == extractor::profile::episodes_text(earlier) + "\n---\n"@ + written
            &&& extractor::profile::episodes_text(Seq::empty()).len() == 0
        }),
{
    let written = extractor::profile::episode_text(episode);
    let texts = |list: Seq<SavedEpisodeView>|
        Seq::new(list.len(), |i: int| extractor::profile::episode_text(list[i]));
    assert(texts(seq![episode]) =~= seq![written]);
    text_laws::one_part_is_joined_as_it_is(written, "\n---\n"@);
    assert(texts(earlier.push(episode)) =~= texts(earlier).push(written));
    text::joined_push(texts(earlier), written, "\n---\n"@);
    assert(texts(Seq::empty()) =~= Seq::empty());
}

/// What is done with a buffer, by its messages alone: an empty one waits; one whose characters reach
/// four times the token limit is flushed, with the estimate as the reason; else one whose messages
/// reach their limit, with their number as the reason; else one message alone waits, and of more the
/// model is asked, without a system message.
pub proof fn limits_first_then_the_model(
    config: PipelineConfigView,
    default_model: Seq<char>,
    messages: Seq<BufferedMessageView>,
)
    ensures
        ({
            let step = boundary::boundary_step(config, default_model, messages);
            let chars = buffer::total_chars(messages);
            let waits = BoundaryStepView::Decided(FlushDecisionView::Wait);
            if messages.len() == 0 {
                step == waits
            } else if chars >= 4 * config.hard_token_limit {
                step == BoundaryStepView::Decided(
                    FlushDecisionView::Flush {
                        reason: "hard token limit"@ + " ("@ + text::decimal(chars / 4) + " >= "@
                            + text::decimal(config.hard_token_limit) + ")"@,
                    },
                )
            } else if messages.len() >= config.hard_message_limit {
                step == BoundaryStepView::Decided(
                    FlushDecisionView::Flush {
                        reason: "hard message limit"@ + " ("@ + text::decimal(messages.len())
                            + " >= "@ + text::decimal(config.hard_message_limit) + ")"@,
                    },
                )
            } else if messages.len() == 1 {
                step == waits
            } else {
                step matches BoundaryStepView::Ask(query) && query.model == (
                match config.extraction_model {
                    Some(set) => set,
                    None => default_model,
                }) && query.system is None && query.user == boundary::boundary_prompt(
                    config,
                    messages,
                )
            }
        }),
{
}

/// The word of the model flushes the buffer exactly where it sees an end and its confidence reaches
/// the threshold; the reason gives the confidence and the topic.
pub proof fn the_reason_gives_confidence_and_topic(
    config: PipelineConfigView,
    result: BoundaryResultView,
)
    ensures
        boundary::boundary_verdict(config, result) == if result.should_end
            && result.confidence.reaches(config.boundary_threshold) {
            FlushDecisionView::Flush {
                reason: "boundary detected (confidence="@ + result.confidence_text + "): "@
                    + result.topic_summary,
            }
        } else {
            FlushDecisionView::Wait
        },
{
}

} // verus!
