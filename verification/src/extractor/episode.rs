//! Asking for the narrative of a conversation.

use vstd::prelude::*;

use crate::buffer;
use crate::buffer::{BufferedMessage, BufferedMessageView};
use crate::chat;
use crate::chat::{ChatQuery, ChatQueryView};
use crate::config::{PipelineConfig, PipelineConfigView};
use crate::prompts;
use crate::text;

verus! {

/// The question for the narrative of the messages.
pub open spec fn episode_query(
    config: PipelineConfigView,
    default_model: Seq<char>,
    messages: Seq<BufferedMessageView>,
) -> ChatQueryView {
    ChatQueryView {
        model: chat::model_name(config, default_model),
        system: None,
        user: text::replaced(
            prompts::episode_prompt(config.prompt_language),
            "{conversation}"@,
            buffer::conversation(messages),
        ),
    }
}

/// Asks for the narrative of a conversation.
#[derive(Debug)]
pub struct EpisodeExtractor {
    pub config: PipelineConfig,
    pub default_model: String,
}

impl EpisodeExtractor {
    /// An extractor with the given settings; the model is `default_model` where they set none.
    pub fn new(config: PipelineConfig, default_model: String) -> (extractor: EpisodeExtractor)
        ensures
            extractor.config@ == config@,
            extractor.default_model@ == default_model@,
    {
        EpisodeExtractor { config, default_model }
    }

    /// Starts an extraction: the question for the narrative of the messages.
    pub fn extract(&self, messages: &[BufferedMessage]) -> (query: ChatQuery)
        ensures
            query@ == episode_query(
                self.config@,
                self.default_model@,
                text::views(messages@),
            ),
    {
        let template: &'static str = prompts::choose_episode_prompt(&self.config.prompt_language);
        let conversation: String = BufferedMessage::format_slice(messages);
        proof {
            reveal_strlit("{conversation}");
        }
        ChatQuery {
            model: chat::choose_model(&self.config, &self.default_model),
            system: None,
            user: text::replace(template, "{conversation}", &conversation),
        }
    }
}

} // verus!
