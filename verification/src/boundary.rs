//! Deciding whether the buffer is flushed: by hard limits, and else by asking for a topic boundary.

use vstd::prelude::*;
use vstd::string::*;

use crate::buffer;
use crate::buffer::{BufferedMessage, BufferedMessageView};
use crate::chat;
use crate::chat::{ChatQuery, ChatQueryView};
use crate::config::{PipelineConfig, PipelineConfigView};
use crate::prompts;
use crate::score::Score;
use crate::text;

verus! {

/// What the model says about a boundary.
#[derive(Debug)]
pub struct BoundaryResult {
    pub reasoning: String,
    pub should_end: bool,
    pub confidence: Score,
    /// The confidence with two decimals.
    pub confidence_text: String,
    pub topic_summary: String,
}

/// What the model says, as characters.
#[verifier::ext_equal]
pub struct BoundaryResultView {
    pub reasoning: Seq<char>,
    pub should_end: bool,
    pub confidence: Score,
    pub confidence_text: Seq<char>,
    pub topic_summary: Seq<char>,
}

impl View for BoundaryResult {
    type V = BoundaryResultView;

    open spec fn view(&self) -> BoundaryResultView {
        BoundaryResultView {
            reasoning: self.reasoning@,
            should_end: self.should_end,
            confidence: self.confidence,
            confidence_text: self.confidence_text@,
            topic_summary: self.topic_summary@,
        }
    }
}

/// Whether the buffer is flushed.
#[derive(Debug)]
pub enum FlushDecision {
    /// Flush the buffer: a boundary was detected or a hard limit was hit.
    Flush { reason: String },
    /// Keep accumulating: there is no boundary yet.
    Wait,
}

/// Whether the buffer is flushed, as characters.
#[verifier::ext_equal]
pub enum FlushDecisionView {
    Flush { reason: Seq<char> },
    Wait,
}

impl View for FlushDecision {
    type V = FlushDecisionView;

    open spec fn view(&self) -> FlushDecisionView {
        match self {
            FlushDecision::Flush { reason } => FlushDecisionView::Flush { reason: reason@ },
            FlushDecision::Wait => FlushDecisionView::Wait,
        }
    }
}

/// What comes of looking at the buffer.
#[derive(Debug)]
pub enum BoundaryStep {
    /// The messages alone decide.
    Decided(FlushDecision),
    /// The model has to be asked.
    Ask(ChatQuery),
}

/// What comes of looking at the buffer, as characters.
#[verifier::ext_equal]
pub enum BoundaryStepView {
    Decided(FlushDecisionView),
    Ask(ChatQueryView),
}

impl View for BoundaryStep {
    type V = BoundaryStepView;

    open spec fn view(&self) -> BoundaryStepView {
        match self {
            BoundaryStep::Decided(decision) => BoundaryStepView::Decided(decision@),
            BoundaryStep::Ask(query) => BoundaryStepView::Ask(query@),
        }
    }
}

/// Whether the estimated tokens of the messages reach the hard limit.
pub open spec fn too_many_tokens(
    config: PipelineConfigView,
    messages: Seq<BufferedMessageView>,
) -> bool {
    buffer::estimated(messages) >= config.hard_token_limit
}

/// Whether the number of the messages reaches the hard limit.
pub open spec fn too_many_messages(
    config: PipelineConfigView,
    messages: Seq<BufferedMessageView>,
) -> bool {
    messages.len() >= config.hard_message_limit
}

/// A limit that was hit, with the number that hit it.
pub open spec fn limit_reason(limit: Seq<char>, reached: nat, bound: nat) -> Seq<char> {
    limit + " ("@ + text::decimal(reached) + " >= "@ + text::decimal(bound) + ")"@
}

/// The prompt that asks for a boundary before the last message.
pub open spec fn boundary_prompt(
    config: PipelineConfigView,
    messages: Seq<BufferedMessageView>,
) -> Seq<char> {
    let history = buffer::conversation(messages.drop_last());
    let new = buffer::conversation(seq![messages.last()]);
    text::replaced(
        text::replaced(
            prompts::boundary_prompt(config.prompt_language),
            "{history}"@,
            history,
        ),
        "{new_messages}"@,
        new,
    )
}

/// What comes of looking at the buffer: the hard limits first, in this order, then nothing to ask
/// about fewer than two messages, then the question to the model.
pub open spec fn boundary_step(
    config: PipelineConfigView,
    default_model: Seq<char>,
    messages: Seq<BufferedMessageView>,
) -> BoundaryStepView {
    if messages.len() == 0 {
        BoundaryStepView::Decided(FlushDecisionView::Wait)
    } else if too_many_tokens(config, messages) {
        BoundaryStepView::Decided(
            FlushDecisionView::Flush {
                reason: limit_reason(
                    "hard token limit"@,
                    buffer::estimated(messages),
                    config.hard_token_limit,
                ),
            },
        )
    } else if too_many_messages(config, messages) {
        BoundaryStepView::Decided(
            FlushDecisionView::Flush {
                reason: limit_reason(
                    "hard message limit"@,
                    messages.len(),
                    config.hard_message_limit,
                ),
            },
        )
    } else if messages.len() < 2 {
        BoundaryStepView::Decided(FlushDecisionView::Wait)
    } else {
        BoundaryStepView::Ask(
            ChatQueryView {
                model: chat::model_name(config, default_model),
                system: None,
                user: boundary_prompt(config, messages),
            },
        )
    }
}

/// The decision by what the model says: a flush where it sees an end with enough confidence.
pub open spec fn boundary_verdict(
    config: PipelineConfigView,
    result: BoundaryResultView,
) -> FlushDecisionView {
    if result.should_end && result.confidence.reaches(config.boundary_threshold) {
        FlushDecisionView::Flush {
            reason: "boundary detected (confidence="@ + result.confidence_text + "): "@
                + result.topic_summary,
        }
    } else {
        FlushDecisionView::Wait
    }
}

/// Decides whether the buffer is flushed.
#[derive(Debug)]
pub struct BoundaryDetector {
    pub config: PipelineConfig,
    pub default_model: String,
}

fn limit_text(limit: &str, reached: usize, bound: usize) -> (reason: String)
    ensures
        reason@ == limit_reason(limit@, reached as nat, bound as nat),
{
    let mut reason: String = String::from_str(limit);
    reason.append(" (");
    text::append_decimal(&mut reason, reached);
    reason.append(" >= ");
    text::append_decimal(&mut reason, bound);
    reason.append(")");
    reason
}

impl BoundaryDetector {
    /// A detector with the given settings; the model is `default_model` where they set none.
    pub fn new(config: PipelineConfig, default_model: String) -> (detector: BoundaryDetector)
        ensures
            detector.config@ == config@,
            detector.default_model@ == default_model@,
    {
        BoundaryDetector { config, default_model }
    }

    /// Looks at the buffer: decides by the hard limits, or says what the model is asked.
    pub fn should_flush(&self, messages: &[BufferedMessage]) -> (step: BoundaryStep)
        requires
            buffer::total_chars(text::views(messages@)) <= usize::MAX,
        ensures
            step@ == boundary_step(
                self.config@,
                self.default_model@,
                text::views(messages@),
            ),
    {
        if messages.len() == 0 {
            return BoundaryStep::Decided(FlushDecision::Wait);
        }
        let estimated: usize = buffer::estimated_tokens(messages);
        if estimated >= self.config.hard_token_limit {
            return BoundaryStep::Decided(
                FlushDecision::Flush {
                    reason: limit_text(
                        "hard token limit",
                        estimated,
                        self.config.hard_token_limit,
                    ),
                },
            );
        }
        if messages.len() >= self.config.hard_message_limit {
            return BoundaryStep::Decided(
                FlushDecision::Flush {
                    reason: limit_text(
                        "hard message limit",
                        messages.len(),
                        self.config.hard_message_limit,
                    ),
                },
            );
        }
        if messages.len() < 2 {
            return BoundaryStep::Decided(FlushDecision::Wait);
        }
        BoundaryStep::Ask(
            ChatQuery {
                model: chat::choose_model(&self.config, &self.default_model),
                system: None,
                user: self.prompt(messages),
            },
        )
    }

    fn prompt(&self, messages: &[BufferedMessage]) -> (prompt: String)
        requires
            messages@.len() > 0,
        ensures
            prompt@ == boundary_prompt(self.config@, text::views(messages@)),
    {
        let parts: (&[BufferedMessage], &[BufferedMessage]) = messages.split_at(messages.len() - 1);
        let ghost all = text::views(messages@);
        assert(text::views(parts.0@) =~= all.drop_last());
        assert(text::views(parts.1@) =~= seq![all.last()]);
        let history: String = BufferedMessage::format_slice(parts.0);
        let new_messages: String = BufferedMessage::format_slice(parts.1);
        let template: &'static str = prompts::choose_boundary_prompt(&self.config.prompt_language);
        proof {
            reveal_strlit("{history}");
            reveal_strlit("{new_messages}");
        }
        let with_history: String = text::replace(template, "{history}", &history);
        text::replace(&with_history, "{new_messages}", &new_messages)
    }

    /// Decides by what the model says.
    pub fn judge(&self, result: &BoundaryResult) -> (decision: FlushDecision)
        ensures
            decision@ == boundary_verdict(self.config@, result@),
    {
        if result.should_end && result.confidence.at_least(self.config.boundary_threshold) {
            let mut reason: String = String::from_str("boundary detected (confidence=");
            reason.append(&result.confidence_text);
            reason.append("): ");
            reason.append(&result.topic_summary);
            FlushDecision::Flush { reason }
        } else {
            FlushDecision::Wait
        }
    }
}

/// A buffer that hits a hard limit is flushed without the model being asked, and one that hits
/// none is never flushed without it.
pub proof fn hard_limits_decide_alone(
    config: PipelineConfigView,
    default_model: Seq<char>,
    messages: Seq<BufferedMessageView>,
)
    ensures
        (messages.len() > 0 && (too_many_tokens(config, messages) || too_many_messages(
            config,
            messages,
        ))) <==> (boundary_step(config, default_model, messages) matches BoundaryStepView::Decided(
            FlushDecisionView::Flush { .. },
        )),
{
}

/// The model is asked about two messages or more, and only below both hard limits.
pub proof fn asked_only_below_the_limits(
    config: PipelineConfigView,
    default_model: Seq<char>,
    messages: Seq<BufferedMessageView>,
)
    ensures
        boundary_step(config, default_model, messages) is Ask <==> messages.len() >= 2
            && !too_many_tokens(config, messages) && !too_many_messages(config, messages),
{
}

/// A buffer that hits a hard limit hits one however many messages are added.
pub proof fn hard_limits_stay_hit(
    config: PipelineConfigView,
    messages: Seq<BufferedMessageView>,
    n: int,
)
    requires
        0 <= n <= messages.len(),
    ensures
        too_many_tokens(config, messages.take(n)) ==> too_many_tokens(config, messages),
        too_many_messages(config, messages.take(n)) ==> too_many_messages(config, messages),
{
    buffer::total_chars_grows(messages, n);
    let some = buffer::total_chars(messages.take(n));
    let all = buffer::total_chars(messages);
    assert(some / 4 <= all / 4) by (nonlinear_arith)
        requires
            some <= all,
    ;
}

/// The estimate of a buffer is what the hard token limit is held against: a quarter of all its
/// characters, rounded down once after adding them up, and nothing for an empty buffer.
pub proof fn the_limit_is_held_against_the_estimate(
    config: PipelineConfigView,
    default_model: Seq<char>,
    messages: Seq<BufferedMessageView>,
)
    ensures
        messages.len() == 0 ==> buffer::estimated(messages) == 0,
        4 * buffer::estimated(messages) <= buffer::total_chars(messages) < 4 * (
        buffer::estimated(messages) + 1),
        too_many_tokens(config, messages) <==> buffer::estimated(messages)
            >= config.hard_token_limit,
        messages.len() > 0 && buffer::estimated(messages) >= config.hard_token_limit
            ==> boundary_step(config, default_model, messages) == BoundaryStepView::Decided(
            FlushDecisionView::Flush {
                reason: limit_reason(
                    "hard token limit"@,
                    buffer::estimated(messages),
                    config.hard_token_limit,
                ),
            },
        ),
{
}

/// The model's word counts only where it sees an end and its confidence reaches the threshold.
pub proof fn verdict_needs_confidence(config: PipelineConfigView, result: BoundaryResultView)
    ensures
        boundary_verdict(config, result) is Flush <==> result.should_end
            && result.confidence.reaches(config.boundary_threshold),
{
}

} // verus!
