//! Asking for the atomic facts of a conversation.

use vstd::prelude::*;

use crate::buffer;
use crate::buffer::{BufferedMessage, BufferedMessageView};
use crate::chat;
use crate::chat::{ChatQuery, ChatQueryView};
use crate::config::{PipelineConfig, PipelineConfigView};
use crate::prompts;
use crate::text;

verus! {

/// The question for the atomic facts of the messages.
pub open spec fn event_log_query(
    config: PipelineConfigView,
    default_model: Seq<char>,
    messages: Seq<BufferedMessageView>,
) -> ChatQueryView {
    ChatQueryView {
        model: chat::model_name(config, default_model),
        system: None,
        user: text::replaced(
            prompts::event_log_prompt(config.prompt_language),
            "{conversation}"@,
            buffer::conversation(messages),
        ),
    }
}

/// Asks for the atomic facts of a conversation.
#[derive(Debug)]
pub struct EventLogExtractor {
    pub config: PipelineConfig,
    pub default_model: String,
}

impl EventLogExtractor {
    /// An extractor with the given settings; the model is `default_model` where they set none.
    pub fn new(config: PipelineConfig, default_model: String) -> (extractor: EventLogExtractor)
        ensures
            extractor.config@ == config@,
            extractor.default_model@ == default_model@,
    {
        EventLogExtractor { config, default_model }
    }

    /// Starts an extraction: the question for the atomic facts of the messages.
    pub fn extract(&self, messages: &[BufferedMessage]) -> (query: ChatQuery)
        ensures
            query@ == event_log_query(
                self.config@,
                self.default_model@,
                text::views(messages@),
            ),
    {
        let template: &'static str = prompts::choose_event_log_prompt(&self.config.prompt_language);
        let conversation: String = BufferedMessage::format_slice(messages);
        proof {
            reveal_strlit("{conversation}");
        }
        ChatQuery {
            model: chat::choose_model(&self.config, &self.default_model),
            system: None,
            user: text::replace(template, "{conversation}", &conversation),
        }
    }
}

} // verus!
