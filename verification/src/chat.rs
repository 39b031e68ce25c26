//! What a language model is asked.

use vstd::prelude::*;
use vstd::string::*;

use crate::config::{PipelineConfig, PipelineConfigView};
use crate::text;

verus! {

/// A request to a language model.
#[derive(Debug)]
pub struct ChatQuery {
    pub model: String,
    /// The system message, where there is one.
    pub system: Option<String>,
    pub user: String,
}

/// A request as characters.
#[verifier::ext_equal]
pub struct ChatQueryView {
    pub model: Seq<char>,
    pub system: Option<Seq<char>>,
    pub user: Seq<char>,
}

impl View for ChatQuery {
    type V = ChatQueryView;

    open spec fn view(&self) -> ChatQueryView {
        ChatQueryView {
            model: self.model@,
            system: text::view_of(self.system),
            user: self.user@,
        }
    }
}

/// The model that is asked: the extraction model, or the main model where none is set.
pub open spec fn model_name(config: PipelineConfigView, default_model: Seq<char>) -> Seq<char> {
    match config.extraction_model {
        Some(model) => model,
        None => default_model,
    }
}

/// Chooses the model that is asked.
pub fn choose_model(config: &PipelineConfig, default_model: &str) -> (model: String)
    ensures
        model@ == model_name(config@, default_model@),
{
    match &config.extraction_model {
        Some(model) => model.clone(),
        None => String::from_str(default_model),
    }
}

/// The question that is put once more where the provider fails on it: the same to the main model,
/// and none where the main model was asked already.
pub open spec fn fallback(query: ChatQueryView, default_model: Seq<char>) -> Option<
    ChatQueryView,
> {
    if query.model == default_model {
        None
    } else {
        Some(ChatQueryView { model: default_model, ..query })
    }
}

/// Falls back to the main model where the provider fails on a question.
pub fn fallback_query(query: &ChatQuery, default_model: &str) -> (again: Option<ChatQuery>)
    ensures
        text::view_of(again) == fallback(query@, default_model@),
        query.model@ == default_model@ ==> again is None,
        query.model@ != default_model@ ==> (again matches Some(q) && q@ == (ChatQueryView {
            model: default_model@,
            ..query@
        })),
{
    if text::same_text(&query.model, default_model) {
        None
    } else {
        Some(
            ChatQuery {
                model: String::from_str(default_model),
                system: text::copy_option(&query.system),
                user: query.user.clone(),
            },
        )
    }
}

/// A question falls back once at most, and a question to the model that the settings choose falls
/// back exactly where they name a model other than the main one.
pub proof fn fallback_is_the_last_resort(
    query: ChatQueryView,
    config: PipelineConfigView,
    default_model: Seq<char>,
)
    ensures
        fallback(query, default_model) matches Some(again) ==> fallback(again, default_model)
            is None && again.model == default_model && again.user == query.user && again.system
            == query.system,
        query.model == model_name(config, default_model) ==> (fallback(query, default_model) is Some
            <==> (config.extraction_model is Some && config.extraction_model != Some(
            default_model,
        ))),
{
}

/// The text of a reply without the white space around it: empty where it holds none.
pub fn trimmed_reply_text(answer: Option<String>) -> (result: String)
    ensures
        result@ == text::trimmed(text::or_empty(text::view_of(answer))),
{
    let content: String = text::text_or_empty(answer);
    text::trim(&content)
}

/// The message for a reply that could not be parsed, with what the parser said and the reply.
pub open spec fn parse_error(stage: Seq<char>, error: Seq<char>, raw: Seq<char>) -> Seq<char> {
    stage + " JSON parse error: "@ + error + "\nRaw: "@ + raw
}

/// Puts together the message for a reply that could not be parsed.
pub fn parse_error_message(stage: &str, error: &str, raw: &str) -> (message: String)
    ensures
        message@ == parse_error(stage@, error@, raw@),
{
    let mut message: String = String::from_str(stage);
    message.append(" JSON parse error: ");
    message.append(error);
    message.append("\nRaw: ");
    message.append(raw);
    message
}

} // verus!
