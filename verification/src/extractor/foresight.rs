//! Asking for predictions about the user.

use vstd::prelude::*;
use vstd::string::*;

use crate::chat;
use crate::chat::{ChatQuery, ChatQueryView};
use crate::config::{PipelineConfig, PipelineConfigView};
use crate::prompts;
use crate::text;

verus! {

/// A prediction, with what supports it and when it holds.
#[derive(Debug)]
pub struct ForesightEntry {
    pub content: String,
    pub evidence: String,
    pub start_time: Option<String>,
    pub end_time: Option<String>,
}

/// A prediction as characters.
#[verifier::ext_equal]
pub struct ForesightEntryView {
    pub content: Seq<char>,
    pub evidence: Seq<char>,
    pub start_time: Option<Seq<char>>,
    pub end_time: Option<Seq<char>>,
}

impl View for ForesightEntry {
    type V = ForesightEntryView;

    open spec fn view(&self) -> ForesightEntryView {
        ForesightEntryView {
            content: self.content@,
            evidence: self.evidence@,
            start_time: text::view_of(self.start_time),
            end_time: text::view_of(self.end_time),
        }
    }
}

impl Clone for ForesightEntry {
    fn clone(&self) -> (copy: Self)
        ensures
            copy@ == self@,
    {
        ForesightEntry {
            content: self.content.clone(),
            evidence: self.evidence.clone(),
            start_time: text::copy_option(&self.start_time),
            end_time: text::copy_option(&self.end_time),
        }
    }
}

/// The question for predictions, from a conversation and the summary of its episode.
pub open spec fn foresight_query(
    config: PipelineConfigView,
    default_model: Seq<char>,
    buffer_content: Seq<char>,
    episode_summary: Seq<char>,
) -> ChatQueryView {
    ChatQueryView {
        model: chat::model_name(config, default_model),
        system: Some("You are a memory foresight engine. Extract behavioral predictions."@),
        user: text::replaced(
            text::replaced(
                prompts::foresight_prompt(config.prompt_language),
                "{episode_summary}"@,
                episode_summary,
            ),
            "{buffer_content}"@,
            buffer_content,
        ),
    }
}

/// Asks for predictions about the user.
#[derive(Debug)]
pub struct ForesightExtractor {
    pub config: PipelineConfig,
    pub default_model: String,
}

impl ForesightExtractor {
    /// An extractor with the given settings; the model is `default_model` where they set none.
    pub fn new(config: PipelineConfig, default_model: String) -> (extractor: ForesightExtractor)
        ensures
            extractor.config@ == config@,
            extractor.default_model@ == default_model@,
    {
        ForesightExtractor { config, default_model }
    }

    /// Starts an extraction: the question for predictions, from a conversation and the summary of
    /// its episode.
    pub fn extract(&self, buffer_content: &str, episode_summary: &str) -> (query: ChatQuery)
        ensures
            query@ == foresight_query(
                self.config@,
                self.default_model@,
                buffer_content@,
                episode_summary@,
            ),
    {
        let template: &'static str = prompts::choose_foresight_prompt(
            &self.config.prompt_language,
        );
        proof {
            reveal_strlit("{episode_summary}");
            reveal_strlit("{buffer_content}");
        }
        let with_summary: String = text::replace(template, "{episode_summary}", episode_summary);
        ChatQuery {
            model: chat::choose_model(&self.config, &self.default_model),
            system: Some(
                String::from_str(
                    "You are a memory foresight engine. Extract behavioral predictions.",
                ),
            ),
            user: text::replace(&with_summary, "{buffer_content}", buffer_content),
        }
    }
}

} // verus!
