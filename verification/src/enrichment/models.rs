//! Enrichers: what they look for in the output of a command, and what they make of it.
use vstd::prelude::*;

use crate::text;

verus! {

/// How one fact is taken from the output.
#[derive(Debug)]
pub struct ExtractorConfig {
    pub id: String,
    pub extractor_type: String,
    pub pattern: String,
    pub fact_key: String,
    pub priority: i32,
    pub merge_mode: String,
}

/// An enricher with its extractors.
#[derive(Debug)]
pub struct EnricherDescriptor {
    pub id: String,
    pub name: String,
    pub version: String,
    pub match_patterns: Vec<String>,
    pub template: String,
    pub enabled: bool,
    pub extractors: Vec<ExtractorConfig>,
}

/// What an enricher says.
pub struct EnricherView {
    pub id: Seq<char>,
    pub name: Seq<char>,
    pub version: Seq<char>,
    pub match_patterns: Seq<Seq<char>>,
    pub template: Seq<char>,
    pub enabled: bool,
    pub extractors: Seq<ExtractorConfig>,
}

impl View for EnricherDescriptor {
    type V = EnricherView;

    open spec fn view(&self) -> EnricherView {
        EnricherView {
            id: self.id@,
            name: self.name@,
            version: self.version@,
            match_patterns: text::texts(self.match_patterns@),
            template: self.template@,
            enabled: self.enabled,
            extractors: self.extractors@,
        }
    }
}

/// What a rule does when its condition holds.
#[derive(Debug)]
pub enum RuleAction {
    DeriveFact {
        key: String,
        value: String,
        /// The bits of the confidence, a number of single precision.
        confidence_bits: u32,
    },
    SetVerdict(String),
    Recommend(String),
}

/// A rule of an enricher.
#[derive(Debug)]
pub struct RuleConfig {
    pub id: String,
    pub enricher_id: String,
    pub condition: String,
    pub priority: i32,
    pub enabled: bool,
    pub actions: Vec<RuleAction>,
}

/// What is known about a command that ran.
#[derive(Debug)]
pub struct Fact {
    pub key: String,
    pub value: String,
    pub tags: Vec<String>,
    pub source_extractor: String,
}

} // verus!
