//! A lighter-weight location record used for bookkeeping.

use vstd::prelude::*;
use crate::model::{Issue, Mark};

verus! {

/// A file together with the begin and end marks of a span.
#[derive(Clone, Debug, PartialEq, Eq)]
pub struct Occurrence {
    pub file: String,
    pub begin: Mark,
    pub end: Mark,
}

/// The spec-level view of an `Occurrence`.
pub struct OccurrenceV {
    pub file: Seq<char>,
    pub begin: Mark,
    pub end: Mark,
}

impl View for Occurrence {
    type V = OccurrenceV;

    open spec fn view(&self) -> OccurrenceV {
        OccurrenceV { file: self.file@, begin: self.begin, end: self.end }
    }
}

impl Occurrence {
    /// The occurrence of an issue: its file and its span's two marks.
    pub fn of_issue(issue: &Issue) -> (r: Occurrence)
        ensures
            r@.file == issue.location.path@,
            r@.begin == issue.location.position.begin,
            r@.end == issue.location.position.end,
    {
        Occurrence {
            file: issue.location.path.clone(),
            begin: issue.location.position.begin,
            end: issue.location.position.end,
        }
    }
}

} // verus!
