//! The result emitter: renders classified issues as a JSON array of issue
//! objects, the stable consumer-facing artifact of the pipeline.

use vstd::prelude::*;
use crate::model::{Issue, IssueV, LocationV, Mark, Position};
use crate::text::{spec_dec_str, u64_to_dec};

verus! {

/// The hexadecimal digit character for a value below sixteen.
pub open spec fn spec_hex_digit(d: int) -> char {
    if d < 10 {
        crate::text::spec_dec_digit(d)
    } else if d == 10 {
        'a'
    } else if d == 11 {
        'b'
    } else if d == 12 {
        'c'
    } else if d == 13 {
        'd'
    } else if d == 14 {
        'e'
    } else {
        'f'
    }
}

fn hex_digit_str(d: u32) -> (r: &'static str)
    requires
        d < 16,
    ensures
        r@ =~= seq![spec_hex_digit(d as int)],
{
    proof {
        reveal_strlit("a");
        reveal_strlit("b");
        reveal_strlit("c");
        reveal_strlit("d");
        reveal_strlit("e");
        reveal_strlit("f");
    }
    if d < 10 {
        crate::text::dec_digit_str(d as u64)
    } else if d == 10 {
        "a"
    } else if d == 11 {
        "b"
    } else if d == 12 {
        "c"
    } else if d == 13 {
        "d"
    } else if d == 14 {
        "e"
    } else {
        "f"
    }
}

/// How one character is written inside a JSON string literal: quotes and
/// backslashes are escaped, control characters take the `\u00XX` form, and
/// everything else stands for itself.
pub open spec fn spec_json_escape_char(c: char) -> Seq<char> {
    if c == '"' {
        "\\\""@
    } else if c == '\\' {
        "\\\\"@
    } else if (c as u32) < 32 {
        "\\u00"@ + seq![
            spec_hex_digit((c as u32 / 16) as int),
            spec_hex_digit((c as u32 % 16) as int),
        ]
    } else {
        seq![c]
    }
}

/// The body of a JSON string literal for `s`.
pub open spec fn spec_json_escape(s: Seq<char>) -> Seq<char>
    decreases s.len(),
{
    if s.len() == 0 {
        Seq::empty()
    } else {
        spec_json_escape(s.drop_last()) + spec_json_escape_char(s.last())
    }
}

/// A complete JSON string literal for `s`, quotes included.
pub open spec fn spec_json_string(s: Seq<char>) -> Seq<char> {
    "\""@ + spec_json_escape(s) + "\""@
}

/// Appends the JSON string literal for `s` to `out`.
fn append_json_string(out: &mut String, s: &str)
    ensures
        final(out)@ == old(out)@ + spec_json_string(s@),
{
    out.append("\"");
    let ghost entry = out@;
    let n = s.unicode_len();
    let mut i: usize = 0;
    proof {
        assert(s@.take(0) =~= Seq::<char>::empty());
        assert(out@ =~= entry + spec_json_escape(s@.take(0)));
    }
    while i < n
        invariant
            i <= n,
            n == s@.len(),
            out@ == entry + spec_json_escape(s@.take(i as int)),
        decreases n - i,
    {
        let c = s.get_char(i);
        proof {
            assert(s@.take(i + 1).drop_last() =~= s@.take(i as int));
            assert(s@.take(i + 1).last() == s@[i as int]);
        }
        if c == '"' {
            out.append("\\\"");
        } else if c == '\\' {
            out.append("\\\\");
        } else if (c as u32) < 32 {
            out.append("\\u00");
            out.append(hex_digit_str(c as u32 / 16));
            out.append(hex_digit_str(c as u32 % 16));
            proof {
                assert(out@ =~= entry + spec_json_escape(s@.take(i + 1)));
            }
        } else {
            out.append(s.substring_char(i, i + 1));
            proof {
                assert(s@.subrange(i as int, i + 1) =~= seq![s@[i as int]]);
                assert(out@ =~= entry + spec_json_escape(s@.take(i + 1)));
            }
        }
        i = i + 1;
    }
    proof {
        assert(s@.take(n as int) =~= s@);
    }
    out.append("\"");
}

/// The JSON object for a mark.
pub open spec fn spec_mark_json(m: Mark) -> Seq<char> {
    "{\"line\":"@ + spec_dec_str(m.line as int) + ",\"column\":"@ + spec_dec_str(m.column as int)
        + "}"@
}

/// The JSON object for a position span.
pub open spec fn spec_position_json(p: Position) -> Seq<char> {
    "{\"begin\":"@ + spec_mark_json(p.begin) + ",\"end\":"@ + spec_mark_json(p.end) + "}"@
}

/// The JSON object for a location.
pub open spec fn spec_location_json(l: LocationV) -> Seq<char> {
    "{\"path\":"@ + spec_json_string(l.path) + ",\"position\":"@ + spec_position_json(l.position)
        + "}"@
}

/// The JSON object for one issue.
pub open spec fn spec_issue_json(i: IssueV) -> Seq<char> {
    "{\"issue_text\":"@ + spec_json_string(i.issue_text) + ",\"issue_code\":"@ + spec_json_string(
        i.issue_code.spec_name(),
    ) + ",\"location\":"@ + spec_location_json(i.location) + "}"@
}

/// The comma-separated issue objects, in order.
pub open spec fn spec_issue_list_json(s: Seq<IssueV>) -> Seq<char>
    decreases s.len(),
{
    if s.len() == 0 {
        Seq::empty()
    } else if s.len() == 1 {
        spec_issue_json(s[0])
    } else {
        spec_issue_list_json(s.drop_last()) + ","@ + spec_issue_json(s.last())
    }
}

/// The complete result artifact: a JSON array of issue objects.
pub open spec fn spec_issues_json(s: Seq<IssueV>) -> Seq<char> {
    "["@ + spec_issue_list_json(s) + "]"@
}

fn append_mark_json(out: &mut String, m: Mark)
    ensures
        final(out)@ == old(out)@ + spec_mark_json(m),
{
    out.append("{\"line\":");
    let line = u64_to_dec(m.line);
    out.append(line.as_str());
    out.append(",\"column\":");
    let column = u64_to_dec(m.column);
    out.append(column.as_str());
    out.append("}");
}

fn append_issue_json(out: &mut String, issue: &Issue)
    ensures
        final(out)@ == old(out)@ + spec_issue_json(issue.deep_view()),
{
    out.append("{\"issue_text\":");
    append_json_string(out, issue.issue_text.as_str());
    out.append(",\"issue_code\":");
    append_json_string(out, issue.issue_code.name());
    out.append(",\"location\":{\"path\":");
    append_json_string(out, issue.location.path.as_str());
    out.append(",\"position\":{\"begin\":");
    append_mark_json(out, issue.location.position.begin);
    out.append(",\"end\":");
    append_mark_json(out, issue.location.position.end);
    out.append("}}}");
    proof {
        reveal_strlit(",\"location\":{\"path\":");
        reveal_strlit(",\"location\":");
        reveal_strlit("{\"path\":");
        reveal_strlit(",\"position\":{\"begin\":");
        reveal_strlit(",\"position\":");
        reveal_strlit("{\"begin\":");
        reveal_strlit("}}}");
        reveal_strlit("}}");
        reveal_strlit("}");
        assert(final(out)@ =~= old(out)@ + spec_issue_json(issue.deep_view()));
    }
}

/// Serializes the issues as the JSON array artifact, in input order.
pub fn issues_to_json(issues: &Vec<Issue>) -> (r: String)
    ensures
        r@ == spec_issues_json(issues.deep_view()),
{
    let mut out = String::from_str("[");
    let ghost entry = out@;
    let n = issues.len();
    let mut i: usize = 0;
    proof {
        assert(issues.deep_view().take(0) =~= Seq::<IssueV>::empty());
        assert(out@ =~= entry + spec_issue_list_json(issues.deep_view().take(0)));
    }
    while i < n
        invariant
            i <= n,
            n == issues.len(),
            entry == "["@,
            out@ == entry + spec_issue_list_json(issues.deep_view().take(i as int)),
        decreases n - i,
    {
        let ghost iv = issues.deep_view();
        proof {
            assert(iv.take(i + 1).drop_last() =~= iv.take(i as int));
            assert(iv.take(i + 1).last() == issues[i as int].deep_view());
        }
        if i > 0 {
            out.append(",");
        }
        append_issue_json(&mut out, &issues[i]);
        proof {
            if i == 0 {
                assert(iv.take(1).len() == 1);
                assert(iv.take(1)[0] == issues[0int].deep_view());
                assert(out@ =~= entry + spec_issue_list_json(iv.take(i + 1)));
            } else {
                assert(out@ =~= entry + spec_issue_list_json(iv.take(i + 1)));
            }
        }
        i = i + 1;
    }
    proof {
        assert(issues.deep_view().take(n as int) =~= issues.deep_view());
    }
    out.append("]");
    proof {
        assert(out@ =~= spec_issues_json(issues.deep_view()));
    }
    out
}

/// Serializing zero issues yields exactly the empty-array artifact.
pub proof fn law_empty_artifact()
    ensures
        spec_issues_json(Seq::<IssueV>::empty()) == "[]"@,
{
    reveal_strlit("[");
    reveal_strlit("]");
    reveal_strlit("[]");
    assert(spec_issues_json(Seq::<IssueV>::empty()) =~= "[]"@);
}

} // verus!
