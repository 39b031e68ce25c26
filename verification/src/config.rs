//! The settings of the pipeline.

use vstd::prelude::*;
use vstd::string::*;

use crate::score::Score;
use crate::text;

verus! {

/// The settings of the pipeline.
#[derive(Debug)]
pub struct PipelineConfig {
    pub enabled: bool,
    /// The model for all calls of the pipeline; the main model where there is none.
    pub extraction_model: Option<String>,
    /// The language of the prompts: `it` for Italian, anything else for English.
    pub prompt_language: String,
    /// The confidence from which a detected boundary counts.
    pub boundary_threshold: Score,
    /// The estimated tokens at which the buffer is flushed in any case.
    pub hard_token_limit: usize,
    /// The messages at which the buffer is flushed in any case.
    pub hard_message_limit: usize,
    /// The hours after which the buffer of an abandoned session is deleted.
    pub buffer_ttl_hours: u64,
    pub max_episodic_entries: usize,
    pub max_facts_entries: usize,
    pub max_foresight_entries: usize,
    /// The number of episodes from one update of a profile to the next.
    pub profile_update_interval: usize,
}

/// The settings with their texts as characters.
#[verifier::ext_equal]
pub struct PipelineConfigView {
    pub enabled: bool,
    pub extraction_model: Option<Seq<char>>,
    pub prompt_language: Seq<char>,
    pub boundary_threshold: Score,
    pub hard_token_limit: nat,
    pub hard_message_limit: nat,
    pub buffer_ttl_hours: nat,
    pub max_episodic_entries: nat,
    pub max_facts_entries: nat,
    pub max_foresight_entries: nat,
    pub profile_update_interval: nat,
}

impl View for PipelineConfig {
    type V = PipelineConfigView;

    open spec fn view(&self) -> PipelineConfigView {
        PipelineConfigView {
            enabled: self.enabled,
            extraction_model: text::view_of(self.extraction_model),
            prompt_language: self.prompt_language@,
            boundary_threshold: self.boundary_threshold,
            hard_token_limit: self.hard_token_limit as nat,
            hard_message_limit: self.hard_message_limit as nat,
            buffer_ttl_hours: self.buffer_ttl_hours as nat,
            max_episodic_entries: self.max_episodic_entries as nat,
            max_facts_entries: self.max_facts_entries as nat,
            max_foresight_entries: self.max_foresight_entries as nat,
            profile_update_interval: self.profile_update_interval as nat,
        }
    }
}

/// The settings where none are given: the pipeline is off.
pub open spec fn default_config() -> PipelineConfigView {
    PipelineConfigView {
        enabled: false,
        extraction_model: None,
        prompt_language: "en"@,
        // 0.6
        boundary_threshold: Score { bits: 0x3fe3_3333_3333_3333 },
        hard_token_limit: 4096,
        hard_message_limit: 30,
        buffer_ttl_hours: 24,
        max_episodic_entries: 5,
        max_facts_entries: 5,
        max_foresight_entries: 3,
        profile_update_interval: 5,
    }
}

impl Default for PipelineConfig {
    fn default() -> (config: Self)
        ensures
            config@ == default_config(),
    {
        PipelineConfig {
            enabled: false,
            extraction_model: None,
            prompt_language: String::from_str("en"),
            boundary_threshold: Score { bits: 0x3fe3_3333_3333_3333 },
            hard_token_limit: 4096,
            hard_message_limit: 30,
            buffer_ttl_hours: 24,
            max_episodic_entries: 5,
            max_facts_entries: 5,
            max_foresight_entries: 3,
            profile_update_interval: 5,
        }
    }
}

impl Clone for PipelineConfig {
    fn clone(&self) -> (copy: Self)
        ensures
            copy@ == self@,
    {
        PipelineConfig {
            enabled: self.enabled,
            extraction_model: self.extraction_model.clone(),
            prompt_language: self.prompt_language.clone(),
            boundary_threshold: self.boundary_threshold,
            hard_token_limit: self.hard_token_limit,
            hard_message_limit: self.hard_message_limit,
            buffer_ttl_hours: self.buffer_ttl_hours,
            max_episodic_entries: self.max_episodic_entries,
            max_facts_entries: self.max_facts_entries,
            max_foresight_entries: self.max_foresight_entries,
            profile_update_interval: self.profile_update_interval,
        }
    }
}

} // verus!
