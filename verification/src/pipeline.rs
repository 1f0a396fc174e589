//! The pipeline's compute core: from the decoded configuration and the
//! report text (when one exists) to the result artifact. Reading the
//! config, running the analyzer and writing the artifact are the caller's
//! business.

use vstd::prelude::*;
use crate::classify::{spec_classify, spec_issue_of};
use crate::config::{spec_select, AnalyzerConfig, FileRecordV};
use crate::cppcheck::{spec_parse_report, RawFinding, RawFindingV};
use crate::emit::{law_empty_artifact, spec_issues_json};
use crate::model::IssueV;

verus! {

/// The report text as the pipeline sees it: `None` when no report file
/// exists after the analyzer ran.
pub open spec fn spec_report_view(report: Option<&str>) -> Option<Seq<char>> {
    match report {
        None => None,
        Some(t) => Some(t@),
    }
}

/// The findings a report yields: none when the report is absent, and none
/// when it is malformed — a crashing analyzer must not abort emission.
pub open spec fn spec_report_findings(report: Option<Seq<char>>) -> Seq<RawFindingV> {
    match report {
        None => Seq::empty(),
        Some(text) => match spec_parse_report(text) {
            None => Seq::empty(),
            Some(fs) => fs,
        },
    }
}

/// The whole compute core: scope selection, report decoding, classification
/// (against the scope set when `check_scope` holds, as file-list runs
/// require; directory runs may omit it), and serialization.
pub open spec fn spec_pipeline(
    files: Seq<FileRecordV>,
    allow: Seq<Seq<char>>,
    report: Option<Seq<char>>,
    check_scope: bool,
) -> Seq<char> {
    let scope = spec_select(files, allow);
    let findings = spec_report_findings(report);
    let issues = spec_classify(
        findings,
        if check_scope {
            Some(scope)
        } else {
            None
        },
    );
    spec_issues_json(issues)
}

/// Produces the result artifact for one run. Every call returns a parseable
/// artifact: an absent or malformed report yields the empty array.
pub fn produce_artifact(
    config: AnalyzerConfig,
    allow: &Vec<String>,
    report: Option<&str>,
    check_scope: bool,
) -> (r: String)
    ensures
        r@ == spec_pipeline(
            config.files.deep_view(),
            allow.deep_view(),
            spec_report_view(report),
            check_scope,
        ),
{
    let scope = config.files_in_scope(allow);
    let findings: Vec<RawFinding> = match report {
        None => {
            let v: Vec<RawFinding> = Vec::new();
            proof {
                assert(v.deep_view() =~= Seq::<RawFindingV>::empty());
            }
            v
        },
        Some(text) => match crate::cppcheck::parse_report(text) {
            None => {
                let v: Vec<RawFinding> = Vec::new();
                proof {
                    assert(v.deep_view() =~= Seq::<RawFindingV>::empty());
                }
                v
            },
            Some(fs) => fs,
        },
    };
    proof {
        assert(findings.deep_view() =~= spec_report_findings(spec_report_view(report)));
    }
    let issues = crate::classify::classify(
        &findings,
        if check_scope {
            Some(&scope)
        } else {
            None
        },
    );
    crate::emit::issues_to_json(&issues)
}

/// Without a report there are no findings, and the artifact is exactly the
/// empty array.
pub proof fn law_absent_report_empty_artifact(
    files: Seq<FileRecordV>,
    allow: Seq<Seq<char>>,
    check_scope: bool,
)
    ensures
        spec_pipeline(files, allow, None, check_scope) == "[]"@,
{
    let scope = spec_select(files, allow);
    assert(spec_classify(
        Seq::<RawFindingV>::empty(),
        if check_scope {
            Some(scope)
        } else {
            None
        },
    ) =~= Seq::<IssueV>::empty());
    law_empty_artifact();
}

proof fn lemma_classify_empty_scope(fs: Seq<RawFindingV>)
    ensures
        spec_classify(fs, Some(Seq::<Seq<char>>::empty())) =~= Seq::<IssueV>::empty(),
    decreases fs.len(),
{
    if fs.len() > 0 {
        lemma_classify_empty_scope(fs.drop_first());
        assert(spec_issue_of(fs.first(), Some(Seq::<Seq<char>>::empty())) is None);
    }
}

/// With no configuration there is no scope, and a scope-checked run emits
/// the empty array whatever the report held.
pub proof fn law_missing_config_empty_artifact(allow: Seq<Seq<char>>, report: Option<Seq<char>>)
    ensures
        spec_pipeline(Seq::<FileRecordV>::empty(), allow, report, true) == "[]"@,
{
    assert(spec_select(Seq::<FileRecordV>::empty(), allow) =~= Seq::<Seq<char>>::empty());
    lemma_classify_empty_scope(spec_report_findings(report));
    law_empty_artifact();
}

} // verus!
