//! Requests in natural language: what a translator is told and what it gives back.

use vstd::prelude::*;

use crate::civil::CivilTime;
use crate::event::Moment;
use crate::model::SongId;
use crate::plan::RawPlan;

verus! {

/// What a translator is told besides the request.
#[derive(Debug)]
pub struct NlContext {
    /// The current song, unless it is a raw stream.
    pub current: Option<SongId>,
    /// The monotonic clock.
    pub now: Moment,
    /// The civil clock.
    pub now_civil: CivilTime,
    /// The offset of local time, in seconds east of UTC.
    pub tz_secs: i32,
    /// How many entries the queue holds.
    pub queue_len: usize,
}

/// Who translated a request.
#[derive(Clone, Copy, Debug, PartialEq, Eq, Structural)]
pub enum NlSource {
    /// The rules.
    Rules,
    /// The local model.
    Llm,
}

/// A translation: plans that are armed in order.
#[derive(Clone, Debug)]
pub struct NlHit {
    /// The plans.
    pub plans: Vec<RawPlan>,
    /// Who translated.
    pub source: NlSource,
}

/// Why a request was not translated.
#[derive(Clone, Debug, PartialEq, Eq)]
pub enum NlError {
    /// It was not understood.
    NotUnderstood,
    /// It leaves something open.
    Ambiguous(String),
    /// There is nothing that it could be about.
    Unresolvable(String),
    /// There is no translator.
    NotAvailable,
}

impl NlError {
    /// The sentence that tells a user of the error.
    pub open spec fn sentence(self) -> Seq<char> {
        match self {
            NlError::NotUnderstood => "not understood"@,
            NlError::Ambiguous(what) => "ambiguous: "@ + what@,
            NlError::Unresolvable(what) => "nothing to act on: "@ + what@,
            NlError::NotAvailable => "nl translator not available"@,
        }
    }

    /// The sentence that tells a user of the error.
    pub fn message(&self) -> (r: String)
        ensures
            r@ == self.sentence(),
    {
        match self {
            NlError::NotUnderstood => "not understood".to_owned(),
            NlError::Ambiguous(what) => {
                let mut s = "ambiguous: ".to_owned();
                s.append(what.as_str());
                s
            },
            NlError::Unresolvable(what) => {
                let mut s = "nothing to act on: ".to_owned();
                s.append(what.as_str());
                s
            },
            NlError::NotAvailable => "nl translator not available".to_owned(),
        }
    }
}

} // verus!
