//! The analyzer's native report format: raw findings and the parser for
//! the XML report the analyzer writes.
//!
//! The report is a document whose `errors` element holds `error` entries,
//! each with an `id` and `msg` attribute, zero or more `symbol` children
//! holding a name, and zero or more self-closing `location` children with
//! `file`, `line` and `column` attributes. A report that does not follow
//! this shape parses to nothing, which the pipeline treats as zero
//! findings.

use vstd::prelude::*;
use crate::text::{
    lemma_skip_ws_bounds,
    match_at,
    spec_find,
    spec_parse_u64,
    spec_skip_ws,
};

verus! {

/// One source position reported by the analyzer: a file path with a
/// 1-based line and column.
#[derive(Clone, Debug, PartialEq, Eq)]
pub struct SourcePoint {
    pub file: String,
    pub line: u64,
    pub column: u64,
}

/// The spec-level view of a `SourcePoint`.
pub struct SourcePointV {
    pub file: Seq<char>,
    pub line: u64,
    pub column: u64,
}

impl View for SourcePoint {
    type V = SourcePointV;

    open spec fn view(&self) -> SourcePointV {
        SourcePointV { file: self.file@, line: self.line, column: self.column }
    }
}

impl DeepView for SourcePoint {
    type V = SourcePointV;

    open spec fn deep_view(&self) -> SourcePointV {
        self.view()
    }
}

/// One diagnostic unit decoded from the analyzer's report.
#[derive(Clone, Debug, PartialEq, Eq)]
pub struct RawFinding {
    pub id: String,
    pub msg: String,
    pub symbols: Vec<String>,
    pub locations: Vec<SourcePoint>,
}

/// The spec-level view of a `RawFinding`.
pub struct RawFindingV {
    pub id: Seq<char>,
    pub msg: Seq<char>,
    pub symbols: Seq<Seq<char>>,
    pub locations: Seq<SourcePointV>,
}

impl View for RawFinding {
    type V = RawFindingV;

    open spec fn view(&self) -> RawFindingV {
        RawFindingV {
            id: self.id@,
            msg: self.msg@,
            symbols: self.symbols.deep_view(),
            locations: self.locations.deep_view(),
        }
    }
}

impl DeepView for RawFinding {
    type V = RawFindingV;

    open spec fn deep_view(&self) -> RawFindingV {
        self.view()
    }
}

/// An XML character reference: the five predefined entities, decoded to the
/// character they stand for, together with the index just past the
/// reference. Anything else after a `&` is malformed.
pub open spec fn spec_entity(s: Seq<char>, i: int) -> Option<(char, int)> {
    if 0 <= i && i + 4 <= s.len() && s[i] == '&' && s[i + 1] == 'l' && s[i + 2] == 't' && s[i + 3]
        == ';' {
        Some(('<', i + 4))
    } else if 0 <= i && i + 4 <= s.len() && s[i] == '&' && s[i + 1] == 'g' && s[i + 2] == 't' && s[i
        + 3] == ';' {
        Some(('>', i + 4))
    } else if 0 <= i && i + 5 <= s.len() && s[i] == '&' && s[i + 1] == 'a' && s[i + 2] == 'm' && s[i
        + 3] == 'p' && s[i + 4] == ';' {
        Some(('&', i + 5))
    } else if 0 <= i && i + 6 <= s.len() && s[i] == '&' && s[i + 1] == 'q' && s[i + 2] == 'u' && s[i
        + 3] == 'o' && s[i + 4] == 't' && s[i + 5] == ';' {
        Some(('"', i + 6))
    } else if 0 <= i && i + 6 <= s.len() && s[i] == '&' && s[i + 1] == 'a' && s[i + 2] == 'p' && s[i
        + 3] == 'o' && s[i + 4] == 's' && s[i + 5] == ';' {
        Some(('\'', i + 6))
    } else {
        None
    }
}

/// A run of character data starting at `i` and ending at the first `stop`
/// character (not consumed), with entities decoded. A raw `<`, an unknown
/// entity, or running off the end is malformed.
pub open spec fn spec_text_chars(s: Seq<char>, i: int, stop: char) -> Option<(Seq<char>, int)>
    decreases s.len() - i,
{
    if i < 0 || i >= s.len() {
        None
    } else if s[i] == stop {
        Some((Seq::empty(), i))
    } else if s[i] == '&' {
        match spec_entity(s, i) {
            None => None,
            Some((c, j)) => match spec_text_chars(s, j, stop) {
                None => None,
                Some((t, k)) => Some((seq![c] + t, k)),
            },
        }
    } else if s[i] == '<' {
        None
    } else {
        match spec_text_chars(s, i + 1, stop) {
            None => None,
            Some((t, k)) => Some((seq![s[i]] + t, k)),
        }
    }
}

/// A decoded text run ends on its stop character, within the input.
pub proof fn lemma_text_chars_bounds(s: Seq<char>, i: int, stop: char)
    ensures
        match spec_text_chars(s, i, stop) {
            Some((t, j)) => i <= j < s.len() && s[j] == stop,
            None => true,
        },
    decreases s.len() - i,
{
    if 0 <= i && i < s.len() && s[i] != stop {
        if s[i] == '&' {
            match spec_entity(s, i) {
                Some((c, j)) => {
                    lemma_text_chars_bounds(s, j, stop);
                },
                None => {},
            }
        } else if s[i] != '<' {
            lemma_text_chars_bounds(s, i + 1, stop);
        }
    }
}

/// A character that may stand in an attribute name.
pub open spec fn is_name_char(c: char) -> bool {
    ('a' as u32 <= c as u32 && c as u32 <= 'z' as u32) || ('A' as u32 <= c as u32 && c as u32
        <= 'Z' as u32) || crate::text::is_digit(c) || c == '_' || c == '-' || c == ':' || c == '.'
}

/// The first index at or after `i` holding a character that cannot stand in
/// an attribute name.
pub open spec fn spec_name_end(s: Seq<char>, i: int) -> int
    decreases s.len() - i,
{
    if 0 <= i && i < s.len() && is_name_char(s[i]) {
        spec_name_end(s, i + 1)
    } else {
        i
    }
}

proof fn lemma_name_end_bounds(s: Seq<char>, i: int)
    ensures
        spec_name_end(s, i) >= i,
        i <= s.len() ==> spec_name_end(s, i) <= s.len(),
    decreases s.len() - i,
{
    if 0 <= i && i < s.len() && is_name_char(s[i]) {
        lemma_name_end_bounds(s, i + 1);
    }
}

/// The attribute list of a tag, read from just after the tag name up to the
/// closing `>` or `/>`: a possibly empty run of `name="value"` pairs
/// separated by whitespace. The result carries the pairs in order, the
/// index just past the tag, and whether the tag was self-closing.
pub open spec fn spec_attrs(s: Seq<char>, i: int) -> Option<
    (Seq<(Seq<char>, Seq<char>)>, int, bool),
>
    decreases s.len() - i,
    via spec_attrs_dec
{
    let j = spec_skip_ws(s, i);
    if j >= s.len() {
        None
    } else if s[j] == '>' {
        Some((Seq::empty(), j + 1, false))
    } else if match_at(s, j, "/>"@) {
        Some((Seq::empty(), j + 2, true))
    } else {
        let k = spec_name_end(s, j);
        if k == j || k + 1 >= s.len() || s[k] != '=' || s[k + 1] != '"' {
            None
        } else {
            match spec_text_chars(s, k + 2, '"') {
                None => None,
                Some((val, m)) => match spec_attrs(s, m + 1) {
                    None => None,
                    Some((rest, e, sc)) => Some((seq![(s.subrange(j, k), val)] + rest, e, sc)),
                },
            }
        }
    }
}

#[via_fn]
proof fn spec_attrs_dec(s: Seq<char>, i: int) {
    lemma_skip_ws_bounds(s, i);
    let j = spec_skip_ws(s, i);
    lemma_name_end_bounds(s, j);
    let k = spec_name_end(s, j);
    lemma_text_chars_bounds(s, k + 2, '"');
}

/// The attribute list ends strictly after where it began, within the input.
pub proof fn lemma_attrs_bounds(s: Seq<char>, i: int)
    ensures
        match spec_attrs(s, i) {
            Some((attrs, e, sc)) => i < e <= s.len(),
            None => true,
        },
    decreases s.len() - i,
{
    reveal_strlit("/>");
    lemma_skip_ws_bounds(s, i);
    let j = spec_skip_ws(s, i);
    lemma_name_end_bounds(s, j);
    let k = spec_name_end(s, j);
    lemma_text_chars_bounds(s, k + 2, '"');
    if j < s.len() && s[j] != '>' && !match_at(s, j, "/>"@) && !(k == j || k + 1 >= s.len() || s[k]
        != '=' || s[k + 1] != '"') {
        match spec_text_chars(s, k + 2, '"') {
            Some((val, m)) => {
                lemma_attrs_bounds(s, m + 1);
            },
            None => {},
        }
    }
}

/// The first value bound to `name` in an attribute list.
pub open spec fn spec_attr_lookup(attrs: Seq<(Seq<char>, Seq<char>)>, name: Seq<char>) -> Option<
    Seq<char>,
>
    decreases attrs.len(),
{
    if attrs.len() == 0 {
        None
    } else if attrs.first().0 == name {
        Some(attrs.first().1)
    } else {
        spec_attr_lookup(attrs.drop_first(), name)
    }
}

/// The children of an `error` element, read up to and past its closing
/// tag: `symbol` elements holding a decoded name and self-closing
/// `location` elements carrying `file`, `line` and `column` attributes.
/// Any other child is malformed.
pub open spec fn spec_children(s: Seq<char>, i: int) -> Option<
    (Seq<Seq<char>>, Seq<SourcePointV>, int),
>
    decreases s.len() - i,
    via spec_children_dec
{
    let j = spec_skip_ws(s, i);
    if match_at(s, j, "</error>"@) {
        Some((Seq::empty(), Seq::empty(), j + 8))
    } else if match_at(s, j, "<symbol>"@) {
        match spec_text_chars(s, j + 8, '<') {
            None => None,
            Some((t, k)) => if match_at(s, k, "</symbol>"@) {
                match spec_children(s, k + 9) {
                    None => None,
                    Some((sy, lo, m)) => Some((seq![t] + sy, lo, m)),
                }
            } else {
                None
            },
        }
    } else if match_at(s, j, "<location"@) {
        match spec_attrs(s, j + 9) {
            None => None,
            Some((attrs, e, sc)) => if !sc {
                None
            } else {
                match (
                    spec_attr_lookup(attrs, "file"@),
                    spec_attr_lookup(attrs, "line"@),
                    spec_attr_lookup(attrs, "column"@),
                ) {
                    (Some(file), Some(line), Some(column)) => match (
                        spec_parse_u64(line),
                        spec_parse_u64(column),
                    ) {
                        (Some(ln), Some(co)) => match spec_children(s, e) {
                            None => None,
                            Some((sy, lo, m)) => Some(
                                (sy, seq![SourcePointV { file: file, line: ln, column: co }] + lo, m),
                            ),
                        },
                        _ => None,
                    },
                    _ => None,
                }
            },
        }
    } else {
        None
    }
}

#[via_fn]
proof fn spec_children_dec(s: Seq<char>, i: int) {
    reveal_strlit("</error>");
    reveal_strlit("<symbol>");
    reveal_strlit("</symbol>");
    reveal_strlit("<location");
    lemma_skip_ws_bounds(s, i);
    let j = spec_skip_ws(s, i);
    lemma_text_chars_bounds(s, j + 8, '<');
    lemma_attrs_bounds(s, j + 9);
}

/// The children run ends strictly after where it began, within bounds.
pub proof fn lemma_children_bounds(s: Seq<char>, i: int)
    ensures
        match spec_children(s, i) {
            Some((sy, lo, m)) => i < m <= s.len(),
            None => true,
        },
    decreases s.len() - i,
{
    reveal_strlit("</error>");
    reveal_strlit("<symbol>");
    reveal_strlit("</symbol>");
    reveal_strlit("<location");
    lemma_skip_ws_bounds(s, i);
    let j = spec_skip_ws(s, i);
    lemma_text_chars_bounds(s, j + 8, '<');
    lemma_attrs_bounds(s, j + 9);
    if match_at(s, j, "</error>"@) {
    } else if match_at(s, j, "<symbol>"@) {
        match spec_text_chars(s, j + 8, '<') {
            Some((t, k)) => {
                if match_at(s, k, "</symbol>"@) {
                    lemma_children_bounds(s, k + 9);
                }
            },
            None => {},
        }
    } else if match_at(s, j, "<location"@) {
        match spec_attrs(s, j + 9) {
            Some((attrs, e, sc)) => {
                lemma_children_bounds(s, e);
            },
            None => {},
        }
    }
}

/// The run of `error` elements up to and past the closing `errors` tag.
/// Each element must carry `id` and `msg` attributes; a self-closing one
/// has no symbols and no locations.
pub open spec fn spec_error_list(s: Seq<char>, i: int) -> Option<Seq<RawFindingV>>
    decreases s.len() - i,
    via spec_error_list_dec
{
    let j = spec_skip_ws(s, i);
    if match_at(s, j, "</errors>"@) {
        Some(Seq::empty())
    } else if match_at(s, j, "<error"@) {
        match spec_attrs(s, j + 6) {
            None => None,
            Some((attrs, e, sc)) => match (
                spec_attr_lookup(attrs, "id"@),
                spec_attr_lookup(attrs, "msg"@),
            ) {
                (Some(id), Some(msg)) => if sc {
                    match spec_error_list(s, e) {
                        None => None,
                        Some(rest) => Some(
                            seq![
                                RawFindingV {
                                    id: id,
                                    msg: msg,
                                    symbols: Seq::empty(),
                                    locations: Seq::empty(),
                                },
                            ] + rest,
                        ),
                    }
                } else {
                    match spec_children(s, e) {
                        None => None,
                        Some((sy, lo, m)) => match spec_error_list(s, m) {
                            None => None,
                            Some(rest) => Some(
                                seq![RawFindingV { id: id, msg: msg, symbols: sy, locations: lo }]
                                    + rest,
                            ),
                        },
                    }
                },
                _ => None,
            },
        }
    } else {
        None
    }
}

#[via_fn]
proof fn spec_error_list_dec(s: Seq<char>, i: int) {
    reveal_strlit("</errors>");
    reveal_strlit("<error");
    lemma_skip_ws_bounds(s, i);
    let j = spec_skip_ws(s, i);
    lemma_attrs_bounds(s, j + 6);
    match spec_attrs(s, j + 6) {
        Some((attrs, e, sc)) => {
            lemma_children_bounds(s, e);
        },
        None => {},
    }
}

fn parse_entity(s: &str, i: usize) -> (r: Option<(&'static str, usize)>)
    requires
        i <= s@.len(),
    ensures
        match r {
            Some(p) => spec_entity(s@, i as int) matches Some((c, jj)) && p.0@ == seq![c] && jj
                == p.1 as int && i < p.1 <= s@.len(),
            None => spec_entity(s@, i as int) is None,
        },
{
    let len = s.unicode_len();
    let rem = len - i;
    if rem >= 4 && s.get_char(i) == '&' && s.get_char(i + 1) == 'l' && s.get_char(i + 2) == 't'
        && s.get_char(i + 3) == ';' {
        proof {
            reveal_strlit("<");
            assert("<"@ =~= seq!['<']);
        }
        Some(("<", i + 4))
    } else if rem >= 4 && s.get_char(i) == '&' && s.get_char(i + 1) == 'g' && s.get_char(i + 2)
        == 't' && s.get_char(i + 3) == ';' {
        proof {
            reveal_strlit(">");
            assert(">"@ =~= seq!['>']);
        }
        Some((">", i + 4))
    } else if rem >= 5 && s.get_char(i) == '&' && s.get_char(i + 1) == 'a' && s.get_char(i + 2)
        == 'm' && s.get_char(i + 3) == 'p' && s.get_char(i + 4) == ';' {
        proof {
            reveal_strlit("&");
            assert("&"@ =~= seq!['&']);
        }
        Some(("&", i + 5))
    } else if rem >= 6 && s.get_char(i) == '&' && s.get_char(i + 1) == 'q' && s.get_char(i + 2)
        == 'u' && s.get_char(i + 3) == 'o' && s.get_char(i + 4) == 't' && s.get_char(i + 5)
        == ';' {
        proof {
            reveal_strlit("\"");
            assert("\""@ =~= seq!['"']);
        }
        Some(("\"", i + 6))
    } else if rem >= 6 && s.get_char(i) == '&' && s.get_char(i + 1) == 'a' && s.get_char(i + 2)
        == 'p' && s.get_char(i + 3) == 'o' && s.get_char(i + 4) == 's' && s.get_char(i + 5)
        == ';' {
        proof {
            reveal_strlit("'");
            assert("'"@ =~= seq!['\'']);
        }
        Some(("'", i + 6))
    } else {
        None
    }
}

fn parse_text(s: &str, i: usize, stop: char) -> (r: Option<(String, usize)>)
    requires
        i <= s@.len(),
    ensures
        match r {
            Some(p) => spec_text_chars(s@, i as int, stop) == Some((p.0@, p.1 as int)) && i <= p.1
                < s@.len(),
            None => spec_text_chars(s@, i as int, stop) is None,
        },
    decreases s@.len() - i,
{
    let len = s.unicode_len();
    if i >= len {
        return None;
    }
    let c = s.get_char(i);
    if c == stop {
        return Some((String::new(), i));
    }
    if c == '&' {
        match parse_entity(s, i) {
            None => None,
            Some((piece, j)) => match parse_text(s, j, stop) {
                None => None,
                Some((t, k)) => {
                    let mut out = String::from_str(piece);
                    out.append(t.as_str());
                    Some((out, k))
                },
            },
        }
    } else if c == '<' {
        None
    } else {
        match parse_text(s, i + 1, stop) {
            None => None,
            Some((t, k)) => {
                let mut out = String::from_str(s.substring_char(i, i + 1));
                out.append(t.as_str());
                proof {
                    assert(s@.subrange(i as int, i + 1) =~= seq![s@[i as int]]);
                }
                Some((out, k))
            },
        }
    }
}

fn name_end(s: &str, i: usize) -> (r: usize)
    requires
        i <= s@.len(),
    ensures
        r == spec_name_end(s@, i as int),
        i <= r <= s@.len(),
    decreases s@.len() - i,
{
    if i < s.unicode_len() {
        let c = s.get_char(i);
        let cv = c as u32;
        if ('a' as u32 <= cv && cv <= 'z' as u32) || ('A' as u32 <= cv && cv <= 'Z' as u32) || (
        '0' as u32 <= cv && cv <= '9' as u32) || c == '_' || c == '-' || c == ':' || c == '.' {
            return name_end(s, i + 1);
        }
    }
    i
}

fn parse_attrs(s: &str, i: usize) -> (r: Option<(Vec<(String, String)>, usize, bool)>)
    requires
        i <= s@.len(),
    ensures
        match r {
            Some(p) => spec_attrs(s@, i as int) == Some((p.0.deep_view(), p.1 as int, p.2)) && i
                < p.1 <= s@.len(),
            None => spec_attrs(s@, i as int) is None,
        },
    decreases s@.len() - i,
{
    let len = s.unicode_len();
    let j = crate::text::skip_ws(s, i);
    if j >= len {
        return None;
    }
    let cj = s.get_char(j);
    if cj == '>' {
        let v: Vec<(String, String)> = Vec::new();
        proof {
            assert(v.deep_view() =~= Seq::<(Seq<char>, Seq<char>)>::empty());
        }
        return Some((v, j + 1, false));
    }
    if crate::text::check_at(s, j, "/>") {
        proof {
            reveal_strlit("/>");
        }
        let v: Vec<(String, String)> = Vec::new();
        proof {
            assert(v.deep_view() =~= Seq::<(Seq<char>, Seq<char>)>::empty());
        }
        return Some((v, j + 2, true));
    }
    let k = name_end(s, j);
    if k == j {
        return None;
    }
    if len - k < 2 {
        return None;
    }
    if s.get_char(k) != '=' || s.get_char(k + 1) != '"' {
        return None;
    }
    match parse_text(s, k + 2, '"') {
        None => None,
        Some((val, m)) => match parse_attrs(s, m + 1) {
            None => None,
            Some((rest, e, sc)) => {
                let ghost pre = rest.deep_view();
                let mut rest = rest;
                let name = String::from_str(s.substring_char(j, k));
                rest.insert(0, (name, val));
                proof {
                    assert(rest.deep_view() =~= seq![(s@.subrange(j as int, k as int), val@)]
                        + pre);
                }
                Some((rest, e, sc))
            },
        },
    }
}

fn attr_lookup(attrs: &Vec<(String, String)>, name: &str) -> (r: Option<String>)
    ensures
        match r {
            Some(v) => spec_attr_lookup(attrs.deep_view(), name@) == Some(v@),
            None => spec_attr_lookup(attrs.deep_view(), name@) is None,
        },
{
    let n = attrs.len();
    let mut i: usize = 0;
    proof {
        assert(attrs.deep_view().skip(0) =~= attrs.deep_view());
    }
    while i < n
        invariant
            i <= n,
            n == attrs.len(),
            spec_attr_lookup(attrs.deep_view(), name@) == spec_attr_lookup(
                attrs.deep_view().skip(i as int),
                name@,
            ),
        decreases n - i,
    {
        proof {
            assert(attrs.deep_view().skip(i as int).first() == attrs[i as int].deep_view());
            assert(attrs.deep_view().skip(i as int).drop_first() =~= attrs.deep_view().skip(i + 1));
        }
        if crate::text::str_eq(attrs[i].0.as_str(), name) {
            return Some(attrs[i].1.clone());
        }
        i = i + 1;
    }
    proof {
        assert(attrs.deep_view().skip(n as int) =~= Seq::<(Seq<char>, Seq<char>)>::empty());
    }
    None
}

fn parse_children(s: &str, i: usize) -> (r: Option<(Vec<String>, Vec<SourcePoint>, usize)>)
    requires
        i <= s@.len(),
    ensures
        match r {
            Some(p) => spec_children(s@, i as int) == Some(
                (p.0.deep_view(), p.1.deep_view(), p.2 as int),
            ) && i < p.2 <= s@.len(),
            None => spec_children(s@, i as int) is None,
        },
    decreases s@.len() - i,
{
    let slen = s.unicode_len();
    let j = crate::text::skip_ws(s, i);
    if crate::text::check_at(s, j, "</error>") {
        proof {
            reveal_strlit("</error>");
        }
        let sy: Vec<String> = Vec::new();
        let lo: Vec<SourcePoint> = Vec::new();
        proof {
            assert(sy.deep_view() =~= Seq::<Seq<char>>::empty());
            assert(lo.deep_view() =~= Seq::<SourcePointV>::empty());
        }
        return Some((sy, lo, j + 8));
    }
    if crate::text::check_at(s, j, "<symbol>") {
        proof {
            reveal_strlit("<symbol>");
        }
        return match parse_text(s, j + 8, '<') {
            None => None,
            Some((t, k)) => {
                if crate::text::check_at(s, k, "</symbol>") {
                    proof {
                        reveal_strlit("</symbol>");
                    }
                    match parse_children(s, k + 9) {
                        None => None,
                        Some((sy, lo, m)) => {
                            let ghost pre = sy.deep_view();
                            let mut sy = sy;
                            sy.insert(0, t);
                            proof {
                                assert(sy.deep_view() =~= seq![t@] + pre);
                            }
                            Some((sy, lo, m))
                        },
                    }
                } else {
                    None
                }
            },
        };
    }
    if crate::text::check_at(s, j, "<location") {
        proof {
            reveal_strlit("<location");
        }
        return match parse_attrs(s, j + 9) {
            None => None,
            Some((attrs, e, sc)) => {
                if !sc {
                    return None;
                }
                let file = attr_lookup(&attrs, "file");
                let line = attr_lookup(&attrs, "line");
                let column = attr_lookup(&attrs, "column");
                match (file, line, column) {
                    (Some(f), Some(l), Some(c)) => {
                        match (
                            crate::text::parse_u64(l.as_str()),
                            crate::text::parse_u64(c.as_str()),
                        ) {
                            (Some(ln), Some(co)) => match parse_children(s, e) {
                                None => None,
                                Some((sy, lo, m)) => {
                                    let ghost pre = lo.deep_view();
                                    let mut lo = lo;
                                    let point = SourcePoint { file: f, line: ln, column: co };
                                    lo.insert(0, point);
                                    proof {
                                        assert(lo.deep_view() =~= seq![
                                            SourcePointV { file: f@, line: ln, column: co },
                                        ] + pre);
                                    }
                                    Some((sy, lo, m))
                                },
                            },
                            _ => None,
                        }
                    },
                    _ => None,
                }
            },
        };
    }
    None
}

fn parse_error_list(s: &str, i: usize) -> (r: Option<Vec<RawFinding>>)
    requires
        i <= s@.len(),
    ensures
        match r {
            Some(v) => spec_error_list(s@, i as int) == Some(v.deep_view()),
            None => spec_error_list(s@, i as int) is None,
        },
    decreases s@.len() - i,
{
    let slen = s.unicode_len();
    let j = crate::text::skip_ws(s, i);
    if crate::text::check_at(s, j, "</errors>") {
        let v: Vec<RawFinding> = Vec::new();
        proof {
            assert(v.deep_view() =~= Seq::<RawFindingV>::empty());
        }
        return Some(v);
    }
    if crate::text::check_at(s, j, "<error") {
        proof {
            reveal_strlit("<error");
        }
        return match parse_attrs(s, j + 6) {
            None => None,
            Some((attrs, e, sc)) => {
                let id = attr_lookup(&attrs, "id");
                let msg = attr_lookup(&attrs, "msg");
                match (id, msg) {
                    (Some(id), Some(msg)) => {
                        if sc {
                            match parse_error_list(s, e) {
                                None => None,
                                Some(rest) => {
                                    let ghost pre = rest.deep_view();
                                    let mut rest = rest;
                                    let finding = RawFinding {
                                        id: id,
                                        msg: msg,
                                        symbols: Vec::new(),
                                        locations: Vec::new(),
                                    };
                                    proof {
                                        assert(finding.deep_view().symbols =~= Seq::<
                                            Seq<char>,
                                        >::empty());
                                        assert(finding.deep_view().locations =~= Seq::<
                                            SourcePointV,
                                        >::empty());
                                    }
                                    rest.insert(0, finding);
                                    proof {
                                        assert(rest.deep_view() =~= seq![
                                            RawFindingV {
                                                id: id@,
                                                msg: msg@,
                                                symbols: Seq::empty(),
                                                locations: Seq::empty(),
                                            },
                                        ] + pre);
                                    }
                                    Some(rest)
                                },
                            }
                        } else {
                            match parse_children(s, e) {
                                None => None,
                                Some((sy, lo, m)) => match parse_error_list(s, m) {
                                    None => None,
                                    Some(rest) => {
                                        let ghost pre = rest.deep_view();
                                        let ghost syv = sy.deep_view();
                                        let ghost lov = lo.deep_view();
                                        let mut rest = rest;
                                        let finding = RawFinding {
                                            id: id,
                                            msg: msg,
                                            symbols: sy,
                                            locations: lo,
                                        };
                                        rest.insert(0, finding);
                                        proof {
                                            assert(rest.deep_view() =~= seq![
                                                RawFindingV {
                                                    id: id@,
                                                    msg: msg@,
                                                    symbols: syv,
                                                    locations: lov,
                                                },
                                            ] + pre);
                                        }
                                        Some(rest)
                                    },
                                },
                            }
                        }
                    },
                    _ => None,
                }
            },
        };
    }
    None
}

/// Parses the analyzer's XML report into raw findings. A report that does
/// not follow the expected shape yields `None`, which the pipeline treats
/// as zero findings.
pub fn parse_report(s: &str) -> (r: Option<Vec<RawFinding>>)
    ensures
        match r {
            Some(v) => spec_parse_report(s@) == Some(v.deep_view()),
            None => spec_parse_report(s@) is None,
        },
{
    let slen = s.unicode_len();
    match crate::text::find_from(s, 0, "<errors>") {
        Some(j) => {
            proof {
                reveal_strlit("<errors>");
            }
            parse_error_list(s, j + 8)
        },
        None => match crate::text::find_from(s, 0, "<errors/>") {
            Some(_) => {
                let v: Vec<RawFinding> = Vec::new();
                proof {
                    assert(v.deep_view() =~= Seq::<RawFindingV>::empty());
                }
                Some(v)
            },
            None => None,
        },
    }
}

/// The whole report: everything before the `errors` element (prologue,
/// document tag, analyzer version) is skipped; a report without an `errors`
/// element is malformed, and a self-closing one holds no findings.
pub open spec fn spec_parse_report(s: Seq<char>) -> Option<Seq<RawFindingV>> {
    match spec_find(s, 0, "<errors>"@) {
        Some(j) => spec_error_list(s, j + 8),
        None => match spec_find(s, 0, "<errors/>"@) {
            Some(_) => Some(Seq::empty()),
            None => None,
        },
    }
}

} // verus!
