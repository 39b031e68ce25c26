//! What is extracted from a flushed buffer, and the questions that ask for it.

pub mod episode;
pub mod event_log;
pub mod foresight;
pub mod profile;

use vstd::prelude::*;

use crate::text;

verus! {

/// The narrative of a conversation.
#[derive(Debug)]
pub struct EpisodeData {
    pub subject: String,
    pub episode: String,
    pub summary: String,
}

/// A narrative as characters.
#[verifier::ext_equal]
pub struct EpisodeDataView {
    pub subject: Seq<char>,
    pub episode: Seq<char>,
    pub summary: Seq<char>,
}

/// A single atomic fact.
#[derive(Debug)]
pub struct AtomicFact {
    pub fact: String,
    pub time: Option<String>,
}

/// An atomic fact as characters.
#[verifier::ext_equal]
pub struct AtomicFactView {
    pub fact: Seq<char>,
    pub time: Option<Seq<char>>,
}

/// The atomic facts of a conversation.
#[derive(Debug)]
pub struct EventLogData {
    pub atomic_facts: Vec<AtomicFact>,
}

/// All that a flush extracts.
#[derive(Debug)]
pub struct ExtractionResult {
    pub episode: EpisodeData,
    pub event_logs: EventLogData,
    pub foresights: Vec<foresight::ForesightEntry>,
}

impl View for EpisodeData {
    type V = EpisodeDataView;

    open spec fn view(&self) -> EpisodeDataView {
        EpisodeDataView {
            subject: self.subject@,
            episode: self.episode@,
            summary: self.summary@,
        }
    }
}

impl View for AtomicFact {
    type V = AtomicFactView;

    open spec fn view(&self) -> AtomicFactView {
        AtomicFactView { fact: self.fact@, time: text::view_of(self.time) }
    }
}

impl View for EventLogData {
    type V = Seq<AtomicFactView>;

    open spec fn view(&self) -> Seq<AtomicFactView> {
        text::views(self.atomic_facts@)
    }
}

impl Clone for EpisodeData {
    fn clone(&self) -> (copy: Self)
        ensures
            copy@ == self@,
    {
        EpisodeData {
            subject: self.subject.clone(),
            episode: self.episode.clone(),
            summary: self.summary.clone(),
        }
    }
}

impl Clone for AtomicFact {
    fn clone(&self) -> (copy: Self)
        ensures
            copy@ == self@,
    {
        AtomicFact { fact: self.fact.clone(), time: text::copy_option(&self.time) }
    }
}

impl Clone for EventLogData {
    fn clone(&self) -> (copy: Self)
        ensures
            copy@ == self@,
    {
        let mut facts: Vec<AtomicFact> = Vec::new();
        for i in 0..self.atomic_facts.len()
            invariant
                facts.len() == i,
                forall|k: int| 0 <= k < i ==> (#[trigger] facts@[k])@ == self.atomic_facts@[k]@,
        {
            facts.push(self.atomic_facts[i].clone());
        }
        assert(text::views(facts@) =~= self@);
        EventLogData { atomic_facts: facts }
    }
}

} // verus!
