//! The data that flows through the memory service: extracted facts, the
//! user request and the user response.

use vstd::prelude::*;

verus! {

/// What kind of fact was extracted from a message.
#[derive(Debug, Clone, Copy, PartialEq, Eq, Structural)]
pub enum FactType {
    /// Something that happened and does not change.
    Event,
    /// A preference, opinion or condition that can change.
    State,
    /// Not a fact worth keeping (written `none` on the wire).
    NotAFact,
}

/// One fact extracted from a user's message.
#[derive(Debug, Clone)]
pub struct ExtractedFact {
    pub fact_type: FactType,
    pub entity: String,
    pub attribute: String,
    pub value: String,
    pub context: String,
    pub change_reason: Option<String>,
    /// The extractor's confidence, a number in `0.0..=1.0`, kept as the bit
    /// pattern of an IEEE-754 single-precision value.
    pub confidence_bits: u32,
}

/// The facts extracted from one message.
#[derive(Debug, Clone)]
pub struct ExtractionResult {
    pub facts: Vec<ExtractedFact>,
}

/// A user's request: a message, the user's id and an optional session.
#[derive(Debug, Clone)]
pub struct Query {
    pub message: String,
    pub id: String,
    pub session_id: Option<String>,
}

/// The answer to a user's request: the session and all of its messages.
#[derive(Debug, Clone)]
pub struct UserResponse {
    pub session_id: String,
    pub messages: Vec<String>,
}

/// The mathematical value of an `ExtractedFact`.
pub struct FactModel {
    pub fact_type: FactType,
    pub entity: Seq<char>,
    pub attribute: Seq<char>,
    pub value: Seq<char>,
    pub context: Seq<char>,
    pub change_reason: Option<Seq<char>>,
    pub confidence_bits: u32,
}

impl Default for FactType {
    /// A fact of no kind.
    fn default() -> (t: FactType)
        ensures
            t == FactType::NotAFact,
    {
        FactType::NotAFact
    }
}

impl Default for ExtractedFact {
    /// A fact of no kind with empty texts, no change reason and confidence
    /// 0.0 (whose bit pattern is 0).
    fn default() -> (f: ExtractedFact)
        ensures
            f@ == (FactModel {
                fact_type: FactType::NotAFact,
                entity: Seq::empty(),
                attribute: Seq::empty(),
                value: Seq::empty(),
                context: Seq::empty(),
                change_reason: None,
                confidence_bits: 0,
            }),
    {
        ExtractedFact {
            fact_type: FactType::NotAFact,
            entity: String::new(),
            attribute: String::new(),
            value: String::new(),
            context: String::new(),
            change_reason: None,
            confidence_bits: 0,
        }
    }
}

impl Default for ExtractionResult {
    /// No facts.
    fn default() -> (r: ExtractionResult)
        ensures
            r.facts@.len() == 0,
    {
        ExtractionResult { facts: Vec::new() }
    }
}

/// The view of an optional string.
pub open spec fn opt_view(o: Option<String>) -> Option<Seq<char>> {
    match o {
        Some(s) => Some(s@),
        None => None,
    }
}

impl View for ExtractedFact {
    type V = FactModel;

    open spec fn view(&self) -> FactModel {
        FactModel {
            fact_type: self.fact_type,
            entity: self.entity@,
            attribute: self.attribute@,
            value: self.value@,
            context: self.context@,
            change_reason: opt_view(self.change_reason),
            confidence_bits: self.confidence_bits,
        }
    }
}

impl ExtractionResult {
    /// The facts, each by its view.
    pub open spec fn fact_views(&self) -> Seq<FactModel> {
        self.facts@.map_values(|f: ExtractedFact| f@)
    }
}

/// A copy of an optional string with the same view.
pub fn clone_opt_string(o: &Option<String>) -> (r: Option<String>)
    ensures
        opt_view(r) == opt_view(*o),
{
    match o {
        Some(s) => Some(s.clone()),
        None => None,
    }
}

} // verus!
