//! The result data model: marks, positions, locations, issue codes and
//! issues, together with their spec-level views.

use vstd::prelude::*;

verus! {

/// A (line, column) position, both 1-based.
#[derive(Clone, Copy, Debug, PartialEq, Eq, Structural)]
pub struct Mark {
    pub line: u64,
    pub column: u64,
}

/// A span of two marks. The analyzer's report provides only a point, so
/// `begin` and `end` are always identical in issues built by this crate.
#[derive(Clone, Copy, Debug, PartialEq, Eq, Structural)]
pub struct Position {
    pub begin: Mark,
    pub end: Mark,
}

/// The closed set of issue codes this pipeline can emit. Diagnostic
/// identifiers of the analyzer map onto these through the static table in
/// the classifier; identifiers without an entry produce no issue.
#[derive(Clone, Copy, Debug, PartialEq, Eq, Structural)]
pub enum IssueCode {
    MisraViolation,
    NullPointerDereference,
    UninitializedVariable,
    ArrayIndexOutOfBounds,
    MemoryLeak,
    DoubleFree,
    ZeroDivision,
}

impl IssueCode {
    /// The stable consumer-facing name of this code, as written into the
    /// result artifact.
    pub open spec fn spec_name(self) -> Seq<char> {
        match self {
            IssueCode::MisraViolation => "misra-violation"@,
            IssueCode::NullPointerDereference => "null-pointer-dereference"@,
            IssueCode::UninitializedVariable => "uninitialized-variable"@,
            IssueCode::ArrayIndexOutOfBounds => "array-index-out-of-bounds"@,
            IssueCode::MemoryLeak => "memory-leak"@,
            IssueCode::DoubleFree => "double-free"@,
            IssueCode::ZeroDivision => "zero-division"@,
        }
    }

    /// The stable consumer-facing name of this code.
    pub fn name(self) -> (r: &'static str)
        ensures
            r@ == self.spec_name(),
    {
        match self {
            IssueCode::MisraViolation => "misra-violation",
            IssueCode::NullPointerDereference => "null-pointer-dereference",
            IssueCode::UninitializedVariable => "uninitialized-variable",
            IssueCode::ArrayIndexOutOfBounds => "array-index-out-of-bounds",
            IssueCode::MemoryLeak => "memory-leak",
            IssueCode::DoubleFree => "double-free",
            IssueCode::ZeroDivision => "zero-division",
        }
    }
}

/// A file path together with a position span inside that file.
#[derive(Clone, Debug, PartialEq, Eq)]
pub struct Location {
    pub path: String,
    pub position: Position,
}

/// The spec-level view of a `Location`.
pub struct LocationV {
    pub path: Seq<char>,
    pub position: Position,
}

impl View for Location {
    type V = LocationV;

    open spec fn view(&self) -> LocationV {
        LocationV { path: self.path@, position: self.position }
    }
}

impl DeepView for Location {
    type V = LocationV;

    open spec fn deep_view(&self) -> LocationV {
        self.view()
    }
}

/// One classified finding: the text shown to the consumer, the internal
/// issue code, and where in the analyzed tree it was found.
#[derive(Clone, Debug, PartialEq, Eq)]
pub struct Issue {
    pub issue_text: String,
    pub issue_code: IssueCode,
    pub location: Location,
}

/// The spec-level view of an `Issue`.
pub struct IssueV {
    pub issue_text: Seq<char>,
    pub issue_code: IssueCode,
    pub location: LocationV,
}

impl View for Issue {
    type V = IssueV;

    open spec fn view(&self) -> IssueV {
        IssueV {
            issue_text: self.issue_text@,
            issue_code: self.issue_code,
            location: self.location@,
        }
    }
}

impl DeepView for Issue {
    type V = IssueV;

    open spec fn deep_view(&self) -> IssueV {
        self.view()
    }
}

} // verus!
