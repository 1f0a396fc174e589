//! Reading the result artifact back: the exact inverse of the emitter's
//! grammar. A consumer that deserializes an artifact this crate emitted can
//! be modelled here; text that does not follow the emitted shape reads as
//! nothing.

use vstd::prelude::*;
use crate::model::{Issue, IssueCode, IssueV, Location, LocationV, Mark, Position};
use crate::text::{is_digit, match_at, spec_parse_u64};

verus! {

/// The numeric value of a lowercase hexadecimal digit.
pub open spec fn spec_hex_val(c: char) -> Option<int> {
    if is_digit(c) {
        Some(crate::text::digit_val(c))
    } else if c == 'a' {
        Some(10)
    } else if c == 'b' {
        Some(11)
    } else if c == 'c' {
        Some(12)
    } else if c == 'd' {
        Some(13)
    } else if c == 'e' {
        Some(14)
    } else if c == 'f' {
        Some(15)
    } else {
        None
    }
}

fn hex_val(c: char) -> (r: Option<u32>)
    ensures
        match r {
            Some(v) => spec_hex_val(c) == Some(v as int) && v < 16,
            None => spec_hex_val(c) is None,
        },
{
    let cv = c as u32;
    if '0' as u32 <= cv && cv <= '9' as u32 {
        Some(cv - '0' as u32)
    } else if 'a' as u32 <= cv && cv <= 'f' as u32 {
        Some(cv - 'a' as u32 + 10)
    } else {
        None
    }
}

/// The body of a JSON string literal read back, starting just inside the
/// opening quote: plain characters stand for themselves, `\"` and `\\` are
/// unescaped, and `\u00XX` escapes below 0x20 — everything the emitter
/// writes — decode to their control character. The closing quote is
/// consumed.
pub open spec fn spec_unescape(s: Seq<char>, i: int) -> Option<(Seq<char>, int)>
    decreases s.len() - i,
{
    if i < 0 || i >= s.len() {
        None
    } else if s[i] == '"' {
        Some((Seq::empty(), i + 1))
    } else if s[i] == '\\' {
        if i + 1 >= s.len() {
            None
        } else if s[i + 1] == '"' {
            match spec_unescape(s, i + 2) {
                None => None,
                Some((t, j)) => Some((seq!['"'] + t, j)),
            }
        } else if s[i + 1] == '\\' {
            match spec_unescape(s, i + 2) {
                None => None,
                Some((t, j)) => Some((seq!['\\'] + t, j)),
            }
        } else if s[i + 1] == 'u' {
            if i + 6 > s.len() || s[i + 2] != '0' || s[i + 3] != '0' || !(s[i + 4] == '0' || s[i
                + 4] == '1') {
                None
            } else {
                match (spec_hex_val(s[i + 4]), spec_hex_val(s[i + 5])) {
                    (Some(h), Some(l)) => match spec_unescape(s, i + 6) {
                        None => None,
                        Some((t, j)) => Some((seq![((h * 16 + l) as u8) as char] + t, j)),
                    },
                    _ => None,
                }
            }
        } else {
            None
        }
    } else if (s[i] as u32) < 32 {
        None
    } else {
        match spec_unescape(s, i + 1) {
            None => None,
            Some((t, j)) => Some((seq![s[i]] + t, j)),
        }
    }
}

/// An unescaped string body ends past where it began, within bounds.
pub proof fn lemma_unescape_bounds(s: Seq<char>, i: int)
    ensures
        match spec_unescape(s, i) {
            Some((t, j)) => i < j <= s.len(),
            None => true,
        },
    decreases s.len() - i,
{
    if 0 <= i && i < s.len() {
        lemma_unescape_bounds(s, i + 1);
        if i + 2 <= s.len() {
            lemma_unescape_bounds(s, i + 2);
        }
        if i + 6 <= s.len() {
            lemma_unescape_bounds(s, i + 6);
        }
    }
}

fn parse_string_body(s: &str, i: usize) -> (r: Option<(String, usize)>)
    requires
        i <= s@.len(),
    ensures
        match r {
            Some(p) => spec_unescape(s@, i as int) == Some((p.0@, p.1 as int)) && i < p.1
                <= s@.len(),
            None => spec_unescape(s@, i as int) is None,
        },
    decreases s@.len() - i,
{
    let len = s.unicode_len();
    if i >= len {
        return None;
    }
    let c = s.get_char(i);
    if c == '"' {
        return Some((String::new(), i + 1));
    }
    if c == '\\' {
        if len - i < 2 {
            return None;
        }
        let e = s.get_char(i + 1);
        if e == '"' {
            return match parse_string_body(s, i + 2) {
                None => None,
                Some((t, j)) => {
                    let mut out = String::from_str("\"");
                    out.append(t.as_str());
                    proof {
                        reveal_strlit("\"");
                        assert(out@ =~= seq!['"'] + t@);
                    }
                    Some((out, j))
                },
            };
        }
        if e == '\\' {
            return match parse_string_body(s, i + 2) {
                None => None,
                Some((t, j)) => {
                    let mut out = String::from_str("\\");
                    out.append(t.as_str());
                    proof {
                        reveal_strlit("\\");
                        assert(out@ =~= seq!['\\'] + t@);
                    }
                    Some((out, j))
                },
            };
        }
        if e == 'u' {
            if len - i < 6 || s.get_char(i + 2) != '0' || s.get_char(i + 3) != '0' || !(s.get_char(
                i + 4,
            ) == '0' || s.get_char(i + 4) == '1') {
                return None;
            }
            let h = match hex_val(s.get_char(i + 4)) {
                None => {
                    return None;
                },
                Some(v) => v,
            };
            let l = match hex_val(s.get_char(i + 5)) {
                None => {
                    return None;
                },
                Some(v) => v,
            };
            return match parse_string_body(s, i + 6) {
                None => None,
                Some((t, j)) => {
                    let piece = low_control_str(h * 16 + l);
                    let mut out = String::from_str(piece);
                    out.append(t.as_str());
                    proof {
                        assert(out@ =~= seq![(((h * 16 + l) as u8) as char)] + t@);
                    }
                    Some((out, j))
                },
            };
        }
        return None;
    }
    if (c as u32) < 32 {
        return None;
    }
    match parse_string_body(s, i + 1) {
        None => None,
        Some((t, j)) => {
            let mut out = String::from_str(s.substring_char(i, i + 1));
            out.append(t.as_str());
            proof {
                assert(s@.subrange(i as int, i + 1) =~= seq![s@[i as int]]);
                assert(out@ =~= seq![s@[i as int]] + t@);
            }
            Some((out, j))
        },
    }
}

fn low_control_str(v: u32) -> (r: &'static str)
    requires
        v < 32,
    ensures
        r@ =~= seq![((v as u8) as char)],
{
    proof {
        reveal_strlit("\u{0}");
        reveal_strlit("\u{1}");
        reveal_strlit("\u{2}");
        reveal_strlit("\u{3}");
        reveal_strlit("\u{4}");
        reveal_strlit("\u{5}");
        reveal_strlit("\u{6}");
        reveal_strlit("\u{7}");
        reveal_strlit("\u{8}");
        reveal_strlit("\u{9}");
        reveal_strlit("\u{a}");
        reveal_strlit("\u{b}");
        reveal_strlit("\u{c}");
        reveal_strlit("\u{d}");
        reveal_strlit("\u{e}");
        reveal_strlit("\u{f}");
        reveal_strlit("\u{10}");
        reveal_strlit("\u{11}");
        reveal_strlit("\u{12}");
        reveal_strlit("\u{13}");
        reveal_strlit("\u{14}");
        reveal_strlit("\u{15}");
        reveal_strlit("\u{16}");
        reveal_strlit("\u{17}");
        reveal_strlit("\u{18}");
        reveal_strlit("\u{19}");
        reveal_strlit("\u{1a}");
        reveal_strlit("\u{1b}");
        reveal_strlit("\u{1c}");
        reveal_strlit("\u{1d}");
        reveal_strlit("\u{1e}");
        reveal_strlit("\u{1f}");
    }
    if v == 0 {
        "\u{0}"
    } else if v == 1 {
        "\u{1}"
    } else if v == 2 {
        "\u{2}"
    } else if v == 3 {
        "\u{3}"
    } else if v == 4 {
        "\u{4}"
    } else if v == 5 {
        "\u{5}"
    } else if v == 6 {
        "\u{6}"
    } else if v == 7 {
        "\u{7}"
    } else if v == 8 {
        "\u{8}"
    } else if v == 9 {
        "\u{9}"
    } else if v == 10 {
        "\u{a}"
    } else if v == 11 {
        "\u{b}"
    } else if v == 12 {
        "\u{c}"
    } else if v == 13 {
        "\u{d}"
    } else if v == 14 {
        "\u{e}"
    } else if v == 15 {
        "\u{f}"
    } else if v == 16 {
        "\u{10}"
    } else if v == 17 {
        "\u{11}"
    } else if v == 18 {
        "\u{12}"
    } else if v == 19 {
        "\u{13}"
    } else if v == 20 {
        "\u{14}"
    } else if v == 21 {
        "\u{15}"
    } else if v == 22 {
        "\u{16}"
    } else if v == 23 {
        "\u{17}"
    } else if v == 24 {
        "\u{18}"
    } else if v == 25 {
        "\u{19}"
    } else if v == 26 {
        "\u{1a}"
    } else if v == 27 {
        "\u{1b}"
    } else if v == 28 {
        "\u{1c}"
    } else if v == 29 {
        "\u{1d}"
    } else if v == 30 {
        "\u{1e}"
    } else {
        "\u{1f}"
    }
}

/// Consumes `pat` at `i`.
pub open spec fn spec_expect(s: Seq<char>, i: int, pat: Seq<char>) -> Option<int> {
    if match_at(s, i, pat) {
        Some(i + pat.len())
    } else {
        None
    }
}

fn expect(s: &str, i: usize, pat: &str) -> (r: Option<usize>)
    requires
        i <= s@.len(),
    ensures
        match r {
            Some(j) => spec_expect(s@, i as int, pat@) == Some(j as int) && i <= j <= s@.len(),
            None => spec_expect(s@, i as int, pat@) is None,
        },
{
    let slen = s.unicode_len();
    if crate::text::check_at(s, i, pat) {
        Some(i + pat.unicode_len())
    } else {
        None
    }
}

/// The first index at or after `i` holding a non-digit.
pub open spec fn spec_digits_end(s: Seq<char>, i: int) -> int
    decreases s.len() - i,
{
    if 0 <= i && i < s.len() && is_digit(s[i]) {
        spec_digits_end(s, i + 1)
    } else {
        i
    }
}

fn digits_end(s: &str, i: usize) -> (r: usize)
    requires
        i <= s@.len(),
    ensures
        r == spec_digits_end(s@, i as int),
        i <= r <= s@.len(),
    decreases s@.len() - i,
{
    if i < s.unicode_len() {
        let c = s.get_char(i);
        if '0' as u32 <= c as u32 && c as u32 <= '9' as u32 {
            return digits_end(s, i + 1);
        }
    }
    i
}

/// A numeral read at `i`: the maximal digit run, which must be nonempty and
/// fit a `u64`.
pub open spec fn spec_parse_number(s: Seq<char>, i: int) -> Option<(u64, int)> {
    let e = spec_digits_end(s, i);
    if e == i {
        None
    } else {
        match spec_parse_u64(s.subrange(i, e)) {
            None => None,
            Some(v) => Some((v, e)),
        }
    }
}

fn parse_number(s: &str, i: usize) -> (r: Option<(u64, usize)>)
    requires
        i <= s@.len(),
    ensures
        match r {
            Some(p) => spec_parse_number(s@, i as int) == Some((p.0, p.1 as int)) && i < p.1
                <= s@.len(),
            None => spec_parse_number(s@, i as int) is None,
        },
{
    let e = digits_end(s, i);
    if e == i {
        return None;
    }
    let run = s.substring_char(i, e);
    match crate::text::parse_u64(run) {
        None => None,
        Some(v) => Some((v, e)),
    }
}

/// A mark object read back: `{"line":N,"column":M}`.
pub open spec fn spec_parse_mark(s: Seq<char>, i: int) -> Option<(Mark, int)> {
    match spec_expect(s, i, "{\"line\":"@) {
        None => None,
        Some(j) => match spec_parse_number(s, j) {
            None => None,
            Some((line, j)) => match spec_expect(s, j, ",\"column\":"@) {
                None => None,
                Some(j) => match spec_parse_number(s, j) {
                    None => None,
                    Some((column, j)) => match spec_expect(s, j, "}"@) {
                        None => None,
                        Some(j) => Some((Mark { line, column }, j)),
                    },
                },
            },
        },
    }
}

fn parse_mark(s: &str, i: usize) -> (r: Option<(Mark, usize)>)
    requires
        i <= s@.len(),
    ensures
        match r {
            Some(p) => spec_parse_mark(s@, i as int) == Some((p.0, p.1 as int)) && i <= p.1
                <= s@.len(),
            None => spec_parse_mark(s@, i as int) is None,
        },
{
    let j = match expect(s, i, "{\"line\":") {
        None => {
            return None;
        },
        Some(j) => j,
    };
    let (line, j) = match parse_number(s, j) {
        None => {
            return None;
        },
        Some(p) => p,
    };
    let j = match expect(s, j, ",\"column\":") {
        None => {
            return None;
        },
        Some(j) => j,
    };
    let (column, j) = match parse_number(s, j) {
        None => {
            return None;
        },
        Some(p) => p,
    };
    let j = match expect(s, j, "}") {
        None => {
            return None;
        },
        Some(j) => j,
    };
    Some((Mark { line, column }, j))
}

/// The issue code whose consumer-facing name is `n`.
pub open spec fn spec_code_of_name(n: Seq<char>) -> Option<IssueCode> {
    if n == "misra-violation"@ {
        Some(IssueCode::MisraViolation)
    } else if n == "null-pointer-dereference"@ {
        Some(IssueCode::NullPointerDereference)
    } else if n == "uninitialized-variable"@ {
        Some(IssueCode::UninitializedVariable)
    } else if n == "array-index-out-of-bounds"@ {
        Some(IssueCode::ArrayIndexOutOfBounds)
    } else if n == "memory-leak"@ {
        Some(IssueCode::MemoryLeak)
    } else if n == "double-free"@ {
        Some(IssueCode::DoubleFree)
    } else if n == "zero-division"@ {
        Some(IssueCode::ZeroDivision)
    } else {
        None
    }
}

fn code_of_name(n: &str) -> (r: Option<IssueCode>)
    ensures
        r == spec_code_of_name(n@),
{
    if crate::text::str_eq(n, "misra-violation") {
        Some(IssueCode::MisraViolation)
    } else if crate::text::str_eq(n, "null-pointer-dereference") {
        Some(IssueCode::NullPointerDereference)
    } else if crate::text::str_eq(n, "uninitialized-variable") {
        Some(IssueCode::UninitializedVariable)
    } else if crate::text::str_eq(n, "array-index-out-of-bounds") {
        Some(IssueCode::ArrayIndexOutOfBounds)
    } else if crate::text::str_eq(n, "memory-leak") {
        Some(IssueCode::MemoryLeak)
    } else if crate::text::str_eq(n, "double-free") {
        Some(IssueCode::DoubleFree)
    } else if crate::text::str_eq(n, "zero-division") {
        Some(IssueCode::ZeroDivision)
    } else {
        None
    }
}

/// One issue object read back, exactly as the emitter writes it.
pub open spec fn spec_parse_issue(s: Seq<char>, i: int) -> Option<(IssueV, int)> {
    match spec_expect(s, i, "{\"issue_text\":\""@) {
        None => None,
        Some(j) => match spec_unescape(s, j) {
            None => None,
            Some((text, j)) => match spec_expect(s, j, ",\"issue_code\":\""@) {
                None => None,
                Some(j) => match spec_unescape(s, j) {
                    None => None,
                    Some((name, j)) => match spec_code_of_name(name) {
                        None => None,
                        Some(code) => match spec_expect(s, j, ",\"location\":{\"path\":\""@) {
                            None => None,
                            Some(j) => match spec_unescape(s, j) {
                                None => None,
                                Some((path, j)) => match spec_expect(
                                    s,
                                    j,
                                    ",\"position\":{\"begin\":"@,
                                ) {
                                    None => None,
                                    Some(j) => match spec_parse_mark(s, j) {
                                        None => None,
                                        Some((begin, j)) => match spec_expect(s, j, ",\"end\":"@) {
                                            None => None,
                                            Some(j) => match spec_parse_mark(s, j) {
                                                None => None,
                                                Some((end, j)) => match spec_expect(s, j, "}}}"@) {
                                                    None => None,
                                                    Some(j) => Some(
                                                        (
                                                            IssueV {
                                                                issue_text: text,
                                                                issue_code: code,
                                                                location: LocationV {
                                                                    path: path,
                                                                    position: Position { begin, end },
                                                                },
                                                            },
                                                            j,
                                                        ),
                                                    ),
                                                },
                                            },
                                        },
                                    },
                                },
                            },
                        },
                    },
                },
            },
        },
    }
}

fn parse_issue(s: &str, i: usize) -> (r: Option<(Issue, usize)>)
    requires
        i <= s@.len(),
    ensures
        match r {
            Some(p) => spec_parse_issue(s@, i as int) == Some((p.0.deep_view(), p.1 as int)) && i
                < p.1 <= s@.len(),
            None => spec_parse_issue(s@, i as int) is None,
        },
{
    let j = match expect(s, i, "{\"issue_text\":\"") {
        None => {
            return None;
        },
        Some(j) => j,
    };
    proof {
        reveal_strlit("{\"issue_text\":\"");
    }
    let (text, j) = match parse_string_body(s, j) {
        None => {
            return None;
        },
        Some(p) => p,
    };
    let j = match expect(s, j, ",\"issue_code\":\"") {
        None => {
            return None;
        },
        Some(j) => j,
    };
    let (name, j) = match parse_string_body(s, j) {
        None => {
            return None;
        },
        Some(p) => p,
    };
    let code = match code_of_name(name.as_str()) {
        None => {
            return None;
        },
        Some(c) => c,
    };
    let j = match expect(s, j, ",\"location\":{\"path\":\"") {
        None => {
            return None;
        },
        Some(j) => j,
    };
    let (path, j) = match parse_string_body(s, j) {
        None => {
            return None;
        },
        Some(p) => p,
    };
    let j = match expect(s, j, ",\"position\":{\"begin\":") {
        None => {
            return None;
        },
        Some(j) => j,
    };
    let (begin, j) = match parse_mark(s, j) {
        None => {
            return None;
        },
        Some(p) => p,
    };
    let j = match expect(s, j, ",\"end\":") {
        None => {
            return None;
        },
        Some(j) => j,
    };
    let (end, j) = match parse_mark(s, j) {
        None => {
            return None;
        },
        Some(p) => p,
    };
    let j = match expect(s, j, "}}}") {
        None => {
            return None;
        },
        Some(j) => j,
    };
    Some(
        (
            Issue {
                issue_text: text,
                issue_code: code,
                location: Location { path: path, position: Position { begin, end } },
            },
            j,
        ),
    )
}

/// A nonempty comma-separated run of issue objects.
pub open spec fn spec_parse_issue_list(s: Seq<char>, i: int) -> Option<(Seq<IssueV>, int)>
    decreases s.len() - i,
    via spec_parse_issue_list_dec
{
    match spec_parse_issue(s, i) {
        None => None,
        Some((issue, j)) => {
            if j < s.len() && s[j] == ',' {
                match spec_parse_issue_list(s, j + 1) {
                    None => None,
                    Some((rest, e)) => Some((seq![issue] + rest, e)),
                }
            } else {
                Some((seq![issue], j))
            }
        },
    }
}

proof fn lemma_digits_end_bounds(s: Seq<char>, i: int)
    ensures
        spec_digits_end(s, i) >= i,
        i <= s.len() ==> spec_digits_end(s, i) <= s.len(),
    decreases s.len() - i,
{
    if 0 <= i && i < s.len() && is_digit(s[i]) {
        lemma_digits_end_bounds(s, i + 1);
    }
}

/// Every unescaped string body ends past where it began, within bounds.
pub proof fn lemma_unescape_bounds_all(s: Seq<char>)
    ensures
        forall|i: int|
            #![trigger spec_unescape(s, i)]
            (spec_unescape(s, i) is Some ==> i < spec_unescape(s, i)->Some_0.1 <= s.len()),
{
    assert forall|i: int|
        spec_unescape(s, i) is Some implies i < spec_unescape(s, i)->Some_0.1 <= s.len() by {
        lemma_unescape_bounds(s, i);
    }
}

/// Every parsed numeral ends past where it began, within bounds.
pub proof fn lemma_parse_number_bounds_all(s: Seq<char>)
    ensures
        forall|i: int|
            #![trigger spec_parse_number(s, i)]
            (spec_parse_number(s, i) is Some ==> i < spec_parse_number(s, i)->Some_0.1 <= s.len()),
{
    assert forall|i: int|
        spec_parse_number(s, i) is Some implies i < spec_parse_number(s, i)->Some_0.1
        <= s.len() by {
        lemma_digits_end_bounds(s, i);
    }
}

/// A parsed issue object ends past where it began, within bounds.
pub proof fn lemma_parse_issue_bounds(s: Seq<char>, i: int)
    ensures
        match spec_parse_issue(s, i) {
            Some((issue, j)) => i < j <= s.len(),
            None => true,
        },
{
    lemma_unescape_bounds_all(s);
    lemma_parse_number_bounds_all(s);
}

#[via_fn]
proof fn spec_parse_issue_list_dec(s: Seq<char>, i: int) {
    lemma_parse_issue_bounds(s, i);
}

/// The whole artifact read back: the empty array, or a bracketed list of
/// issue objects, with nothing after the closing bracket.
pub open spec fn spec_parse_issues(s: Seq<char>) -> Option<Seq<IssueV>> {
    if s.len() == 2 && s[0] == '[' && s[1] == ']' {
        Some(Seq::empty())
    } else if s.len() > 2 && s[0] == '[' {
        match spec_parse_issue_list(s, 1) {
            None => None,
            Some((issues, j)) => if j + 1 == s.len() && s[j] == ']' {
                Some(issues)
            } else {
                None
            },
        }
    } else {
        None
    }
}

fn parse_issue_list(s: &str, i: usize) -> (r: Option<(Vec<Issue>, usize)>)
    requires
        i <= s@.len(),
    ensures
        match r {
            Some(p) => spec_parse_issue_list(s@, i as int) == Some(
                (p.0.deep_view(), p.1 as int),
            ) && i < p.1 <= s@.len(),
            None => spec_parse_issue_list(s@, i as int) is None,
        },
    decreases s@.len() - i,
{
    let len = s.unicode_len();
    match parse_issue(s, i) {
        None => None,
        Some((issue, j)) => {
            if j < len && s.get_char(j) == ',' {
                match parse_issue_list(s, j + 1) {
                    None => None,
                    Some((rest, e)) => {
                        let ghost pre = rest.deep_view();
                        let mut rest = rest;
                        rest.insert(0, issue);
                        proof {
                            assert(rest.deep_view() =~= seq![rest@[0].deep_view()] + pre);
                        }
                        Some((rest, e))
                    },
                }
            } else {
                let mut one: Vec<Issue> = Vec::new();
                one.push(issue);
                proof {
                    assert(one.deep_view() =~= seq![one@[0].deep_view()]);
                }
                Some((one, j))
            }
        },
    }
}

/// Deserializes a result artifact that follows the emitted grammar exactly.
pub fn issues_from_json(s: &str) -> (r: Option<Vec<Issue>>)
    ensures
        match r {
            Some(v) => spec_parse_issues(s@) == Some(v.deep_view()),
            None => spec_parse_issues(s@) is None,
        },
{
    let len = s.unicode_len();
    if len < 2 || s.get_char(0) != '[' {
        return None;
    }
    if len == 2 {
        if s.get_char(1) == ']' {
            let v: Vec<Issue> = Vec::new();
            proof {
                assert(v.deep_view() =~= Seq::<IssueV>::empty());
            }
            return Some(v);
        }
        return None;
    }
    match parse_issue_list(s, 1) {
        None => None,
        Some((issues, j)) => {
            if len - j == 1 && s.get_char(j) == ']' {
                Some(issues)
            } else {
                None
            }
        },
    }
}

proof fn lemma_dec_digit_val(m: int)
    requires
        0 <= m < 10,
    ensures
        crate::text::is_digit(crate::text::spec_dec_digit(m)),
        crate::text::digit_val(crate::text::spec_dec_digit(m)) == m,
{
}

/// The decimal rendering of a `u64` is all digits and reads back to the
/// same value.
pub proof fn law_numeral_round_trip(n: u64)
    ensures
        crate::text::spec_parse_u64(crate::text::spec_dec_str(n as int)) == Some(n),
{
    lemma_dec_str_digits(n as int);
}

proof fn lemma_dec_str_digits(n: int)
    requires
        n >= 0,
    ensures
        crate::text::spec_dec_str(n).len() >= 1,
        crate::text::all_digits(crate::text::spec_dec_str(n)),
        crate::text::digits_val(crate::text::spec_dec_str(n)) == n,
    decreases n,
{
    if n < 10 {
        lemma_dec_digit_val(n);
        assert(crate::text::spec_dec_str(n) =~= seq![crate::text::spec_dec_digit(n)]);
        assert(crate::text::spec_dec_str(n).drop_last() =~= Seq::<char>::empty());
        assert(crate::text::digits_val(Seq::<char>::empty()) == 0);
        assert(crate::text::spec_dec_str(n).last() == crate::text::spec_dec_digit(n));
    } else {
        lemma_dec_str_digits(n / 10);
        lemma_dec_digit_val(n % 10);
        let prefix = crate::text::spec_dec_str(n / 10);
        let whole = prefix.push(crate::text::spec_dec_digit(n % 10));
        assert(whole.drop_last() =~= prefix);
        assert(whole.last() == crate::text::spec_dec_digit(n % 10));
        assert forall|k: int| 0 <= k < whole.len() implies crate::text::is_digit(
            whole[k],
        ) by {
            if k < prefix.len() {
                assert(whole[k] == prefix[k]);
            } else {
                assert(whole[k] == crate::text::spec_dec_digit(n % 10));
            }
        }
        assert(crate::text::digits_val(whole) == n / 10 * 10 + n % 10);
        assert(n / 10 * 10 + n % 10 == n);
    }
}

proof fn lemma_escape_front(s: Seq<char>)
    requires
        s.len() > 0,
    ensures
        crate::emit::spec_json_escape(s) == crate::emit::spec_json_escape_char(s[0])
            + crate::emit::spec_json_escape(s.drop_first()),
    decreases s.len(),
{
    if s.len() == 1 {
        assert(s.drop_last() =~= Seq::<char>::empty());
        assert(s.drop_first() =~= Seq::<char>::empty());
        assert(crate::emit::spec_json_escape(Seq::<char>::empty()) =~= Seq::<char>::empty());
        assert(s.last() == s[0]);
        assert(crate::emit::spec_json_escape(s) =~= crate::emit::spec_json_escape_char(s[0])
            + crate::emit::spec_json_escape(s.drop_first()));
    } else {
        lemma_escape_front(s.drop_last());
        assert(s.drop_last().drop_first() =~= s.drop_first().drop_last());
        assert(s.drop_last()[0] == s[0]);
        assert(s.drop_first().last() == s.last());
        assert(s.drop_first().len() > 0);
        assert(crate::emit::spec_json_escape(s) =~= crate::emit::spec_json_escape_char(s[0])
            + crate::emit::spec_json_escape(s.drop_first()));
    }
}

proof fn lemma_hex_val_of_digit(d: int)
    requires
        0 <= d < 16,
    ensures
        spec_hex_val(crate::emit::spec_hex_digit(d)) == Some(d),
{
}

/// Wherever the emitted literal body of a string stands in a text, followed
/// by its closing quote, reading it back yields exactly that string and
/// stops just past the quote: the string codec round-trips.
pub proof fn law_string_codec_round_trip(t: Seq<char>, i: int, s: Seq<char>)
    requires
        0 <= i,
        i + crate::emit::spec_json_escape(s).len() + 1 <= t.len(),
        t.subrange(i, i + crate::emit::spec_json_escape(s).len() + 1)
            == crate::emit::spec_json_escape(s) + seq!['"'],
    ensures
        spec_unescape(t, i) == Some((s, i + crate::emit::spec_json_escape(s).len() + 1)),
    decreases s.len(),
{
    reveal_strlit("\\\"");
    reveal_strlit("\\\\");
    reveal_strlit("\\u00");
    let esc = crate::emit::spec_json_escape(s);
    let l = esc.len() as int;
    let sub = t.subrange(i, i + l + 1);
    assert forall|m: int| i <= m < i + l + 1 implies #[trigger] t[m] == (esc + seq!['"'])[m
        - i] by {
        assert(sub[m - i] == t[m]);
    }
    if s.len() == 0 {
        assert(esc =~= Seq::<char>::empty());
        assert(t[i] == '"');
        assert(Seq::<char>::empty() =~= s);
    } else {
        lemma_escape_front(s);
        let c = s[0];
        let e0 = crate::emit::spec_json_escape_char(c);
        let k = e0.len() as int;
        let s1 = s.drop_first();
        let esc1 = crate::emit::spec_json_escape(s1);
        assert(esc == e0 + esc1);
        assert forall|j: int| 0 <= j < esc1.len() + 1 implies t.subrange(
            i + k,
            i + k + esc1.len() + 1,
        )[j] == (esc1 + seq!['"'])[j] by {
            assert(t[i + k + j] == (esc + seq!['"'])[(i + k + j) - i]);
            if k + j < l {
                assert((esc + seq!['"'])[k + j] == esc[k + j]);
                assert(esc[k + j] == esc1[j]);
            } else {
                assert((esc + seq!['"'])[k + j] == '"');
            }
        }
        assert(t.subrange(i + k, i + k + esc1.len() + 1) =~= esc1 + seq!['"']);
        law_string_codec_round_trip(t, i + k, s1);
        assert(seq![c] + s1 =~= s);
        if c == '"' {
            assert(e0 == "\\\""@);
            assert(t[i] == '\\' && t[i + 1] == '"');
            assert(spec_unescape(t, i) == Some((s, i + l + 1)));
        } else if c == '\\' {
            assert(e0 == "\\\\"@);
            assert(t[i] == '\\' && t[i + 1] == '\\');
            assert(spec_unescape(t, i) == Some((s, i + l + 1)));
        } else if (c as u32) < 32 {
            let hi = (c as u32 / 16) as int;
            let lo = (c as u32 % 16) as int;
            assert(e0 == "\\u00"@ + seq![
                crate::emit::spec_hex_digit(hi),
                crate::emit::spec_hex_digit(lo),
            ]);
            assert(t[i] == '\\' && t[i + 1] == 'u' && t[i + 2] == '0' && t[i + 3] == '0');
            assert(t[i + 4] == crate::emit::spec_hex_digit(hi));
            assert(t[i + 5] == crate::emit::spec_hex_digit(lo));
            assert(hi < 2);
            assert(t[i + 4] == '0' || t[i + 4] == '1');
            lemma_hex_val_of_digit(hi);
            lemma_hex_val_of_digit(lo);
            assert(hi * 16 + lo == c as u32);
            let u: u32 = c as u32;
            vstd::utf8::char_u32_cast(c, u);
            assert(((hi * 16 + lo) as u8) as u32 == u);
            assert((((hi * 16 + lo) as u8) as char) == (u as char));
            assert(((hi * 16 + lo) as u8) as char == c);
            assert(spec_unescape(t, i) == Some((s, i + l + 1)));
        } else {
            assert(e0 == seq![c]);
            assert(t[i] == c);
            assert(spec_unescape(t, i) == Some((s, i + l + 1)));
        }
    }
}

proof fn lemma_split_at(t: Seq<char>, i: int, a: Seq<char>, b: Seq<char>)
    requires
        0 <= i,
        i + a.len() + b.len() <= t.len(),
        t.subrange(i, i + a.len() + b.len()) == a + b,
    ensures
        t.subrange(i, i + a.len()) == a,
        t.subrange(i + a.len(), i + a.len() + b.len()) == b,
        match_at(t, i, a),
{
    let big = t.subrange(i, i + a.len() + b.len());
    assert forall|j: int| 0 <= j < a.len() implies t.subrange(i, i + a.len())[j] == a[j] by {
        assert(t.subrange(i, i + a.len())[j] == t[i + j]);
        assert(big[j] == t[i + j]);
        assert(big[j] == (a + b)[j]);
    }
    assert(t.subrange(i, i + a.len()) =~= a);
    assert forall|j: int| 0 <= j < b.len() implies t.subrange(
        i + a.len(),
        i + a.len() + b.len(),
    )[j] == b[j] by {
        assert(t.subrange(i + a.len(), i + a.len() + b.len())[j] == t[i + a.len() + j]);
        assert(big[a.len() + j] == t[i + (a.len() + j)]);
        assert(big[a.len() + j] == (a + b)[a.len() + j]);
    }
    assert(t.subrange(i + a.len(), i + a.len() + b.len()) =~= b);
}

proof fn lemma_digits_end_at(t: Seq<char>, i: int, n: int)
    requires
        0 <= i,
        n >= 0,
        i + n <= t.len(),
        forall|j: int| i <= j < i + n ==> is_digit(#[trigger] t[j]),
        i + n == t.len() || !is_digit(t[i + n]),
    ensures
        spec_digits_end(t, i) == i + n,
    decreases n,
{
    if n > 0 {
        lemma_digits_end_at(t, i + 1, n - 1);
    }
}

proof fn lemma_parse_number_at(t: Seq<char>, i: int, n: u64)
    requires
        0 <= i,
        i + crate::text::spec_dec_str(n as int).len() <= t.len(),
        t.subrange(i, i + crate::text::spec_dec_str(n as int).len()) == crate::text::spec_dec_str(
            n as int,
        ),
        i + crate::text::spec_dec_str(n as int).len() == t.len() || !is_digit(
            t[i + crate::text::spec_dec_str(n as int).len()],
        ),
    ensures
        spec_parse_number(t, i) == Some((n, i + crate::text::spec_dec_str(n as int).len())),
{
    let d = crate::text::spec_dec_str(n as int);
    lemma_dec_str_digits(n as int);
    assert forall|j: int| i <= j < i + d.len() implies is_digit(#[trigger] t[j]) by {
        assert(t.subrange(i, i + d.len())[j - i] == t[j]);
        assert(d[j - i] == t[j]);
    }
    lemma_digits_end_at(t, i, d.len() as int);
    law_numeral_round_trip(n);
}

proof fn lemma_code_of_name(code: crate::model::IssueCode)
    ensures
        spec_code_of_name(code.spec_name()) == Some(code),
{
    reveal_strlit("misra-violation");
    reveal_strlit("null-pointer-dereference");
    reveal_strlit("uninitialized-variable");
    reveal_strlit("array-index-out-of-bounds");
    reveal_strlit("memory-leak");
    reveal_strlit("double-free");
    reveal_strlit("zero-division");
    assert("misra-violation"@.len() == 15);
    assert("null-pointer-dereference"@.len() == 24);
    assert("uninitialized-variable"@.len() == 22);
    assert("array-index-out-of-bounds"@.len() == 25);
    assert("memory-leak"@.len() == 11);
    assert("double-free"@.len() == 11);
    assert("zero-division"@.len() == 13);
    assert("double-free"@[0] == 'd' && "memory-leak"@[0] == 'm');
}

#[verifier::rlimit(100)]
proof fn lemma_parse_mark_at(t: Seq<char>, i: int, m: Mark)
    requires
        0 <= i,
        i + crate::emit::spec_mark_json(m).len() <= t.len(),
        t.subrange(i, i + crate::emit::spec_mark_json(m).len()) == crate::emit::spec_mark_json(m),
    ensures
        spec_parse_mark(t, i) == Some((m, i + crate::emit::spec_mark_json(m).len())),
{
    reveal_strlit("{\"line\":");
    reveal_strlit(",\"column\":");
    reveal_strlit("}");
    let a = "{\"line\":"@;
    let d1 = crate::text::spec_dec_str(m.line as int);
    let b = ",\"column\":"@;
    let d2 = crate::text::spec_dec_str(m.column as int);
    let cc = "}"@;
    let mj = crate::emit::spec_mark_json(m);
    assert(mj =~= a + (d1 + (b + (d2 + cc))));
    lemma_split_at(t, i, a, d1 + (b + (d2 + cc)));
    let p1 = i + a.len();
    lemma_split_at(t, p1, d1, b + (d2 + cc));
    let p2 = p1 + d1.len();
    assert(t[p2] == (b + (d2 + cc))[0]) by {
        assert(t.subrange(p2, p2 + (b + (d2 + cc)).len())[0] == t[p2]);
    }
    assert(b[0] == ',');
    assert(!is_digit(t[p2]));
    lemma_parse_number_at(t, p1, m.line);
    lemma_split_at(t, p2, b, d2 + cc);
    let p3 = p2 + b.len();
    lemma_split_at(t, p3, d2, cc);
    let p4 = p3 + d2.len();
    assert(t[p4] == cc[0]) by {
        assert(t.subrange(p4, p4 + cc.len())[0] == t[p4]);
    }
    assert(cc[0] == '}');
    assert(!is_digit(t[p4]));
    lemma_parse_number_at(t, p3, m.column);
    assert(match_at(t, p4, cc));
    assert(Mark { line: m.line, column: m.column } == m);
    assert(p4 + cc.len() == i + mj.len());
}

#[verifier::rlimit(100)]
proof fn lemma_parse_issue_at(t: Seq<char>, i: int, iss: IssueV)
    requires
        0 <= i,
        i + crate::emit::spec_issue_json(iss).len() <= t.len(),
        t.subrange(i, i + crate::emit::spec_issue_json(iss).len()) == crate::emit::spec_issue_json(
            iss,
        ),
    ensures
        spec_parse_issue(t, i) == Some((iss, i + crate::emit::spec_issue_json(iss).len())),
{
    reveal_strlit("{\"issue_text\":");
    reveal_strlit("{\"issue_text\":\"");
    reveal_strlit(",\"issue_code\":");
    reveal_strlit(",\"issue_code\":\"");
    reveal_strlit(",\"location\":");
    reveal_strlit("{\"path\":");
    reveal_strlit(",\"location\":{\"path\":\"");
    reveal_strlit(",\"position\":");
    reveal_strlit("{\"begin\":");
    reveal_strlit(",\"position\":{\"begin\":");
    reveal_strlit(",\"end\":");
    reveal_strlit("}");
    reveal_strlit("}}}");
    reveal_strlit("\"");
    let e1 = "{\"issue_text\":\""@;
    let e2 = ",\"issue_code\":\""@;
    let e3 = ",\"location\":{\"path\":\""@;
    let e4 = ",\"position\":{\"begin\":"@;
    let e5 = ",\"end\":"@;
    let e6 = "}}}"@;
    let name = iss.issue_code.spec_name();
    let ct = crate::emit::spec_json_escape(iss.issue_text) + seq!['"'];
    let cn = crate::emit::spec_json_escape(name) + seq!['"'];
    let cp = crate::emit::spec_json_escape(iss.location.path) + seq!['"'];
    let mb = crate::emit::spec_mark_json(iss.location.position.begin);
    let me = crate::emit::spec_mark_json(iss.location.position.end);
    let ij = crate::emit::spec_issue_json(iss);
    let r9 = me + e6;
    let r8 = e5 + r9;
    let r7 = mb + r8;
    let r6 = e4 + r7;
    let r5 = cp + r6;
    let r4 = e3 + r5;
    let r3 = cn + r4;
    let r2 = e2 + r3;
    let r1 = ct + r2;
    assert(ij =~= e1 + r1);
    lemma_split_at(t, i, e1, r1);
    let p1 = i + e1.len();
    lemma_split_at(t, p1, ct, r2);
    law_string_codec_round_trip(t, p1, iss.issue_text);
    let p2 = p1 + ct.len();
    lemma_split_at(t, p2, e2, r3);
    let p3 = p2 + e2.len();
    lemma_split_at(t, p3, cn, r4);
    law_string_codec_round_trip(t, p3, name);
    lemma_code_of_name(iss.issue_code);
    let p4 = p3 + cn.len();
    lemma_split_at(t, p4, e3, r5);
    let p5 = p4 + e3.len();
    lemma_split_at(t, p5, cp, r6);
    law_string_codec_round_trip(t, p5, iss.location.path);
    let p6 = p5 + cp.len();
    lemma_split_at(t, p6, e4, r7);
    let p7 = p6 + e4.len();
    lemma_split_at(t, p7, mb, r8);
    lemma_parse_mark_at(t, p7, iss.location.position.begin);
    let p8 = p7 + mb.len();
    lemma_split_at(t, p8, e5, r9);
    let p9 = p8 + e5.len();
    lemma_split_at(t, p9, me, e6);
    lemma_parse_mark_at(t, p9, iss.location.position.end);
    let p10 = p9 + me.len();
    assert(match_at(t, p10, e6));
    let p11 = p10 + e6.len();
    assert(p11 == i + ij.len());
    assert(IssueV {
        issue_text: iss.issue_text,
        issue_code: iss.issue_code,
        location: LocationV {
            path: iss.location.path,
            position: Position {
                begin: iss.location.position.begin,
                end: iss.location.position.end,
            },
        },
    } == iss);
}

#[verifier::rlimit(100)]
proof fn lemma_list_json_front(s: Seq<IssueV>)
    requires
        s.len() >= 2,
    ensures
        crate::emit::spec_issue_list_json(s) == crate::emit::spec_issue_json(s[0]) + (","@
            + crate::emit::spec_issue_list_json(s.drop_first())),
    decreases s.len(),
{
    if s.len() == 2 {
        assert(s.drop_last() =~= seq![s[0]]);
        assert(seq![s[0]][0] == s[0]);
        assert(crate::emit::spec_issue_list_json(seq![s[0]]) == crate::emit::spec_issue_json(
            s[0],
        ));
        assert(s.drop_first() =~= seq![s[1]]);
        assert(seq![s[1]][0] == s[1]);
        assert(crate::emit::spec_issue_list_json(seq![s[1]]) == crate::emit::spec_issue_json(
            s[1],
        ));
        assert(s.last() == s[1]);
        assert(crate::emit::spec_issue_list_json(s) =~= crate::emit::spec_issue_json(s[0]) + (","@
            + crate::emit::spec_issue_list_json(s.drop_first())));
    } else {
        lemma_list_json_front(s.drop_last());
        assert(s.drop_last().drop_first() =~= s.drop_first().drop_last());
        assert(s.drop_last()[0] == s[0]);
        assert(s.drop_first().last() == s.last());
        assert(s.drop_first().len() >= 2);
        assert(crate::emit::spec_issue_list_json(s) =~= crate::emit::spec_issue_json(s[0]) + (","@
            + crate::emit::spec_issue_list_json(s.drop_first())));
    }
}

#[verifier::rlimit(100)]
proof fn lemma_parse_list_at(t: Seq<char>, i: int, issues: Seq<IssueV>)
    requires
        issues.len() > 0,
        0 <= i,
        i + crate::emit::spec_issue_list_json(issues).len() < t.len(),
        t.subrange(i, i + crate::emit::spec_issue_list_json(issues).len())
            == crate::emit::spec_issue_list_json(issues),
        t[i + crate::emit::spec_issue_list_json(issues).len()] == ']',
    ensures
        spec_parse_issue_list(t, i) == Some(
            (issues, i + crate::emit::spec_issue_list_json(issues).len()),
        ),
    decreases issues.len(),
{
    reveal_strlit(",");
    let lst = crate::emit::spec_issue_list_json(issues);
    if issues.len() == 1 {
        assert(lst == crate::emit::spec_issue_json(issues[0]));
        lemma_parse_issue_at(t, i, issues[0]);
        assert(seq![issues[0]] =~= issues);
    } else {
        lemma_list_json_front(issues);
        let j0 = crate::emit::spec_issue_json(issues[0]);
        let comma = ","@;
        let rest = crate::emit::spec_issue_list_json(issues.drop_first());
        assert(lst =~= j0 + (comma + rest));
        lemma_split_at(t, i, j0, comma + rest);
        lemma_parse_issue_at(t, i, issues[0]);
        let p1 = i + j0.len();
        lemma_split_at(t, p1, comma, rest);
        assert(t[p1] == comma[0]) by {
            assert(t.subrange(p1, p1 + comma.len())[0] == t[p1]);
        }
        assert(t[p1] == ',');
        let p2 = p1 + 1;
        lemma_parse_list_at(t, p2, issues.drop_first());
        assert(seq![issues[0]] + issues.drop_first() =~= issues);
    }
}

/// Reading back the emitted artifact of any issue sequence yields exactly
/// that sequence: the result codec round-trips in full.
#[verifier::rlimit(100)]
pub proof fn law_artifact_round_trip(issues: Seq<IssueV>)
    ensures
        spec_parse_issues(crate::emit::spec_issues_json(issues)) == Some(issues),
{
    reveal_strlit("[");
    reveal_strlit("]");
    reveal_strlit(",");
    reveal_strlit("{\"issue_text\":");
    let lst = crate::emit::spec_issue_list_json(issues);
    let t = crate::emit::spec_issues_json(issues);
    assert(t =~= "["@ + (lst + "]"@));
    if issues.len() == 0 {
        assert(lst =~= Seq::<char>::empty());
        assert(t.len() == 2);
        assert(t[0] == '[' && t[1] == ']');
    } else {
        if issues.len() == 1 {
            assert(lst == crate::emit::spec_issue_json(issues[0]));
            assert(crate::emit::spec_issue_json(issues[0]).len() >= 14);
        } else {
            lemma_list_json_front(issues);
            assert(crate::emit::spec_issue_json(issues[0]).len() >= 14);
            assert(lst.len() >= crate::emit::spec_issue_json(issues[0]).len());
        }
        assert(lst.len() >= 1);
        assert(t.subrange(0, t.len() as int) =~= t);
        lemma_split_at(t, 0, "["@, lst + "]"@);
        assert(t[0] == '[') by {
            assert(t.subrange(0, 1)[0] == t[0]);
        }
        lemma_split_at(t, 1, lst, "]"@);
        let j = 1 + lst.len() as int;
        assert(t[j] == ']') by {
            assert(t.subrange(j, j + 1)[0] == t[j]);
        }
        lemma_parse_list_at(t, 1, issues);
        assert(t.len() > 2);
        assert(j + 1 == t.len());
    }
}

/// Serializing zero issues yields exactly the empty-array artifact, and
/// reading that artifact back yields zero issues.
pub proof fn law_round_trip_empty()
    ensures
        crate::emit::spec_issues_json(Seq::<IssueV>::empty()) == "[]"@,
        spec_parse_issues("[]"@) == Some(Seq::<IssueV>::empty()),
{
    crate::emit::law_empty_artifact();
    reveal_strlit("[]");
}

} // verus!
