//! The issue classifier: maps each raw finding's diagnostic identifier to
//! an internal issue code through a static table, drops unmapped findings
//! and findings without a usable location, optionally checks the location
//! against the in-scope file set, and constructs the consumer-facing
//! message.

use vstd::prelude::*;
use crate::cppcheck::{RawFinding, RawFindingV};
use crate::model::{Issue, IssueCode, IssueV, Location, LocationV, Mark, Position};
use crate::text::match_at;

verus! {

/// The static table from diagnostic identifiers to issue codes. An
/// identifier absent from the table yields no issue.
pub open spec fn spec_mapping(id: Seq<char>) -> Option<IssueCode> {
    if id == "misra-c2012-8.1"@ || id == "misra-c2012-10.4"@ || id == "misra-c2012-12.1"@ || id
        == "misra-c2012-17.7"@ || id == "misra-c2012-21.3"@ {
        Some(IssueCode::MisraViolation)
    } else if id == "nullPointer"@ {
        Some(IssueCode::NullPointerDereference)
    } else if id == "uninitvar"@ {
        Some(IssueCode::UninitializedVariable)
    } else if id == "arrayIndexOutOfBounds"@ {
        Some(IssueCode::ArrayIndexOutOfBounds)
    } else if id == "memleak"@ {
        Some(IssueCode::MemoryLeak)
    } else if id == "doubleFree"@ {
        Some(IssueCode::DoubleFree)
    } else if id == "zerodiv"@ {
        Some(IssueCode::ZeroDivision)
    } else {
        None
    }
}

/// Looks a diagnostic identifier up in the static mapping table.
pub fn mapping(id: &str) -> (r: Option<IssueCode>)
    ensures
        r == spec_mapping(id@),
{
    if crate::text::str_eq(id, "misra-c2012-8.1") || crate::text::str_eq(id, "misra-c2012-10.4")
        || crate::text::str_eq(id, "misra-c2012-12.1") || crate::text::str_eq(
        id,
        "misra-c2012-17.7",
    ) || crate::text::str_eq(id, "misra-c2012-21.3") {
        Some(IssueCode::MisraViolation)
    } else if crate::text::str_eq(id, "nullPointer") {
        Some(IssueCode::NullPointerDereference)
    } else if crate::text::str_eq(id, "uninitvar") {
        Some(IssueCode::UninitializedVariable)
    } else if crate::text::str_eq(id, "arrayIndexOutOfBounds") {
        Some(IssueCode::ArrayIndexOutOfBounds)
    } else if crate::text::str_eq(id, "memleak") {
        Some(IssueCode::MemoryLeak)
    } else if crate::text::str_eq(id, "doubleFree") {
        Some(IssueCode::DoubleFree)
    } else if crate::text::str_eq(id, "zerodiv") {
        Some(IssueCode::ZeroDivision)
    } else {
        None
    }
}

/// The first symbol of a finding, or the empty string when it has none.
pub open spec fn spec_first_symbol(f: RawFindingV) -> Seq<char> {
    if f.symbols.len() > 0 {
        f.symbols[0]
    } else {
        Seq::empty()
    }
}

/// The consumer-facing text of a finding: when the raw message begins with
/// the literal prefix `misra`, the diagnostic identifier followed by one
/// space and the first symbol; otherwise the raw message verbatim.
pub open spec fn spec_issue_text(f: RawFindingV) -> Seq<char> {
    if match_at(f.msg, 0, "misra"@) {
        f.id + seq![' '] + spec_first_symbol(f)
    } else {
        f.msg
    }
}

/// Builds the consumer-facing text of a finding.
pub fn issue_text(f: &RawFinding) -> (r: String)
    ensures
        r@ == spec_issue_text(f.deep_view()),
{
    if crate::text::check_at(f.msg.as_str(), 0, "misra") {
        let mut t = String::from_str(f.id.as_str());
        t.append(" ");
        if f.symbols.len() > 0 {
            t.append(f.symbols[0].as_str());
        }
        proof {
            reveal_strlit(" ");
            assert(" "@ =~= seq![' ']);
            assert(t@ =~= spec_issue_text(f.deep_view()));
        }
        t
    } else {
        String::from_str(f.msg.as_str())
    }
}

/// The scope set as the classifier sees it: `None` when the caller omitted
/// scope checking, otherwise the in-scope paths.
pub open spec fn spec_scope_view(scope: Option<&Vec<String>>) -> Option<Seq<Seq<char>>> {
    match scope {
        None => None,
        Some(v) => Some(v.deep_view()),
    }
}

/// The issue produced for a single raw finding, if any: the identifier must
/// be mapped, the finding must carry at least one location, and — when a
/// scope set is supplied — the first location's file must be in scope. The
/// issue's span is the single retained point, so begin equals end.
pub open spec fn spec_issue_of(f: RawFindingV, scope: Option<Seq<Seq<char>>>) -> Option<IssueV> {
    match spec_mapping(f.id) {
        None => None,
        Some(code) => {
            if f.locations.len() == 0 {
                None
            } else {
                let loc = f.locations[0];
                let scope_ok = match scope {
                    None => true,
                    Some(files) => files.contains(loc.file),
                };
                if !scope_ok {
                    None
                } else {
                    Some(
                        IssueV {
                            issue_text: spec_issue_text(f),
                            issue_code: code,
                            location: LocationV {
                                path: loc.file,
                                position: Position {
                                    begin: Mark { line: loc.line, column: loc.column },
                                    end: Mark { line: loc.line, column: loc.column },
                                },
                            },
                        },
                    )
                }
            }
        },
    }
}

/// Classifies a single raw finding.
pub fn issue_of(f: &RawFinding, scope: Option<&Vec<String>>) -> (r: Option<Issue>)
    ensures
        match r {
            Some(iss) => spec_issue_of(f.deep_view(), spec_scope_view(scope)) == Some(
                iss.deep_view(),
            ),
            None => spec_issue_of(f.deep_view(), spec_scope_view(scope)) is None,
        },
{
    let code = match mapping(f.id.as_str()) {
        None => {
            return None;
        },
        Some(c) => c,
    };
    if f.locations.len() == 0 {
        return None;
    }
    let loc = &f.locations[0];
    let scope_ok = match scope {
        None => true,
        Some(files) => crate::config::contains_str(files, loc.file.as_str()),
    };
    if !scope_ok {
        return None;
    }
    let text = issue_text(f);
    let point = Mark { line: loc.line, column: loc.column };
    Some(
        Issue {
            issue_text: text,
            issue_code: code,
            location: Location {
                path: loc.file.clone(),
                position: Position { begin: point, end: point },
            },
        },
    )
}

/// The issues of a sequence of findings, in input order.
pub open spec fn spec_classify(fs: Seq<RawFindingV>, scope: Option<Seq<Seq<char>>>) -> Seq<IssueV>
    decreases fs.len(),
{
    if fs.len() == 0 {
        Seq::empty()
    } else {
        let rest = spec_classify(fs.drop_first(), scope);
        match spec_issue_of(fs.first(), scope) {
            None => rest,
            Some(iss) => seq![iss] + rest,
        }
    }
}

/// The issue classifier: classifies each finding in order, silently
/// dropping unmapped findings, findings without a location, and — when a
/// scope set is supplied — findings whose first location is out of scope.
pub fn classify(findings: &Vec<RawFinding>, scope: Option<&Vec<String>>) -> (r: Vec<Issue>)
    ensures
        r.deep_view() == spec_classify(findings.deep_view(), spec_scope_view(scope)),
{
    let ghost sv = spec_scope_view(scope);
    let n = findings.len();
    let mut out: Vec<Issue> = Vec::new();
    let mut i: usize = 0;
    proof {
        assert(findings.deep_view().skip(0) =~= findings.deep_view());
        assert(out.deep_view() + spec_classify(findings.deep_view(), sv) =~= spec_classify(
            findings.deep_view(),
            sv,
        ));
    }
    while i < n
        invariant
            i <= n,
            n == findings.len(),
            sv == spec_scope_view(scope),
            spec_classify(findings.deep_view(), sv) == out.deep_view() + spec_classify(
                findings.deep_view().skip(i as int),
                sv,
            ),
        decreases n - i,
    {
        let ghost pre = out.deep_view();
        let ghost fv = findings.deep_view();
        proof {
            assert(fv.skip(i as int).first() == findings[i as int].deep_view());
            assert(fv.skip(i as int).drop_first() =~= fv.skip(i + 1));
        }
        match issue_of(&findings[i], scope) {
            Some(iss) => {
                out.push(iss);
                proof {
                    assert(out.deep_view() =~= pre.push(
                        spec_issue_of(fv.skip(i as int).first(), sv)->Some_0,
                    ));
                    assert(out.deep_view() + spec_classify(fv.skip(i + 1), sv) =~= pre
                        + spec_classify(fv.skip(i as int), sv));
                }
            },
            None => {
                proof {
                    assert(out.deep_view() + spec_classify(fv.skip(i + 1), sv) =~= pre
                        + spec_classify(fv.skip(i as int), sv));
                }
            },
        }
        i = i + 1;
    }
    proof {
        assert(findings.deep_view().skip(n as int) =~= Seq::<RawFindingV>::empty());
        assert(out.deep_view() + Seq::<IssueV>::empty() =~= out.deep_view());
    }
    out
}

/// A finding whose diagnostic identifier has no entry in the mapping table
/// produces no issue at all.
pub proof fn law_unmapped_finding_yields_nothing(f: RawFindingV, scope: Option<Seq<Seq<char>>>)
    requires
        spec_mapping(f.id) is None,
    ensures
        spec_issue_of(f, scope) is None,
        spec_classify(seq![f], scope) =~= Seq::<IssueV>::empty(),
{
    let e = Seq::<RawFindingV>::empty();
    assert(seq![f].drop_first() =~= e);
    assert(spec_classify(e, scope) =~= Seq::<IssueV>::empty());
    assert(seq![f].first() == f);
}

/// When the raw message begins with `misra`, the emitted text is the
/// diagnostic identifier, one space, and the first symbol.
pub proof fn law_misra_message_rewritten(f: RawFindingV, scope: Option<Seq<Seq<char>>>)
    requires
        match_at(f.msg, 0, "misra"@),
    ensures
        match spec_issue_of(f, scope) {
            Some(iss) => iss.issue_text == f.id + seq![' '] + spec_first_symbol(f),
            None => true,
        },
{
}

/// When the raw message does not begin with `misra`, the emitted text is
/// the raw message verbatim.
pub proof fn law_plain_message_kept(f: RawFindingV, scope: Option<Seq<Seq<char>>>)
    requires
        !match_at(f.msg, 0, "misra"@),
    ensures
        match spec_issue_of(f, scope) {
            Some(iss) => iss.issue_text == f.msg,
            None => true,
        },
{
}

} // verus!
