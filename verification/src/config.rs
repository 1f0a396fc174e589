//! The decoded analyzer configuration and the scope filter: which of the
//! declared files are in scope for analysis.
//!
//! A declared path is kept only when it names a regular file, is not a
//! symbolic link, carries an allowed extension, and is not oversized.
//! Exclusion is silent: filtering never fails.

use vstd::prelude::*;

verus! {

/// Files strictly larger than this many bytes are out of scope.
pub const MAX_FILE_SIZE_BYTES: u64 = 25_000_000;

/// A declared file path together with the filesystem facts the scope
/// predicates read. The caller gathers the facts (stat-equivalent calls);
/// a `size` of `None` records that the metadata lookup failed, which the
/// size predicate treats as "not oversized".
#[derive(Clone, Debug, PartialEq, Eq)]
pub struct FileRecord {
    pub path: String,
    pub regular_file: bool,
    pub symlink: bool,
    pub size: Option<u64>,
}

/// The spec-level view of a `FileRecord`.
pub struct FileRecordV {
    pub path: Seq<char>,
    pub regular_file: bool,
    pub symlink: bool,
    pub size: Option<u64>,
}

impl View for FileRecord {
    type V = FileRecordV;

    open spec fn view(&self) -> FileRecordV {
        FileRecordV {
            path: self.path@,
            regular_file: self.regular_file,
            symlink: self.symlink,
            size: self.size,
        }
    }
}

impl DeepView for FileRecord {
    type V = FileRecordV;

    open spec fn deep_view(&self) -> FileRecordV {
        self.view()
    }
}

/// Analyzer metadata carried by the configuration; parsed but not yet read
/// by the pipeline logic (reserved for per-analyzer toggling).
#[derive(Clone, Debug, PartialEq, Eq)]
pub struct AnalyzerMeta {
    pub name: String,
    pub enabled: bool,
}

/// The decoded configuration: the declared file records and the analyzer
/// metadata.
#[derive(Clone, Debug, PartialEq, Eq)]
pub struct AnalyzerConfig {
    pub files: Vec<FileRecord>,
    pub analyzer_meta: AnalyzerMeta,
}

/// The index of the last occurrence of `c` in `s`.
pub open spec fn spec_rfind(s: Seq<char>, c: char) -> Option<int>
    decreases s.len(),
{
    if s.len() == 0 {
        None
    } else if s.last() == c {
        Some(s.len() - 1)
    } else {
        spec_rfind(s.drop_last(), c)
    }
}

/// Finds the last occurrence of `c` in `s`.
fn rfind(s: &str, c: char) -> (r: Option<usize>)
    ensures
        match r {
            Some(k) => spec_rfind(s@, c) == Some(k as int) && k < s@.len(),
            None => spec_rfind(s@, c) is None,
        },
{
    let mut i: usize = s.unicode_len();
    proof {
        assert(s@.take(i as int) =~= s@);
    }
    while i > 0
        invariant
            i <= s@.len(),
            spec_rfind(s@, c) == spec_rfind(s@.take(i as int), c),
        decreases i,
    {
        let ch = s.get_char(i - 1);
        proof {
            assert(s@.take(i as int).last() == s@[i - 1]);
            assert(s@.take(i as int).drop_last() =~= s@.take(i - 1));
        }
        if ch == c {
            return Some(i - 1);
        }
        i = i - 1;
    }
    proof {
        assert(s@.take(0) =~= Seq::<char>::empty());
    }
    None
}

/// The final component of a path: everything after the last `/`, or the
/// whole path when it has none.
pub open spec fn spec_file_name(p: Seq<char>) -> Seq<char> {
    match spec_rfind(p, '/') {
        None => p,
        Some(k) => p.subrange(k + 1, p.len() as int),
    }
}

/// The extension of a path: the part of the final component after its last
/// `.`, provided that dot is not the component's first character.
pub open spec fn spec_extension(p: Seq<char>) -> Option<Seq<char>> {
    let name = spec_file_name(p);
    match spec_rfind(name, '.') {
        None => None,
        Some(k) => if k == 0 {
            None
        } else {
            Some(name.subrange(k + 1, name.len() as int))
        },
    }
}

/// Extracts the extension of a path, if any.
pub fn extension_of(path: &str) -> (r: Option<String>)
    ensures
        match r {
            Some(e) => spec_extension(path@) == Some(e@),
            None => spec_extension(path@) is None,
        },
{
    let len = path.unicode_len();
    let name_start: usize = match rfind(path, '/') {
        None => 0,
        Some(k) => k + 1,
    };
    let name = path.substring_char(name_start, len);
    proof {
        assert(name@ == spec_file_name(path@));
    }
    match rfind(name, '.') {
        None => None,
        Some(k) => {
            if k == 0 {
                None
            } else {
                let e = name.substring_char(k + 1, name.unicode_len());
                Some(String::from_str(e))
            }
        },
    }
}

/// The path's extension exists and is a member of the allow-set.
pub open spec fn spec_allowed_ext(p: Seq<char>, allow: Seq<Seq<char>>) -> bool {
    match spec_extension(p) {
        None => false,
        Some(e) => allow.contains(e),
    }
}

/// All scope predicates hold of the record: regular file, not a symbolic
/// link, allowed extension, and no known size over the limit.
pub open spec fn spec_in_scope(f: FileRecordV, allow: Seq<Seq<char>>) -> bool {
    &&& f.regular_file
    &&& !f.symlink
    &&& spec_allowed_ext(f.path, allow)
    &&& match f.size {
        Some(n) => n <= MAX_FILE_SIZE_BYTES,
        None => true,
    }
}

/// The paths of the in-scope records, in declaration order.
pub open spec fn spec_select(files: Seq<FileRecordV>, allow: Seq<Seq<char>>) -> Seq<Seq<char>>
    decreases files.len(),
{
    if files.len() == 0 {
        Seq::empty()
    } else {
        let rest = spec_select(files.drop_first(), allow);
        if spec_in_scope(files.first(), allow) {
            seq![files.first().path] + rest
        } else {
            rest
        }
    }
}

/// Whether `v` holds a string equal to `s`.
pub fn contains_str(v: &Vec<String>, s: &str) -> (r: bool)
    ensures
        r == v.deep_view().contains(s@),
{
    let n = v.len();
    let mut i: usize = 0;
    while i < n
        invariant
            i <= n,
            n == v.len(),
            forall|k: int| 0 <= k < i ==> v.deep_view()[k] != s@,
        decreases n - i,
    {
        if crate::text::str_eq(v[i].as_str(), s) {
            proof {
                assert(v.deep_view()[i as int] == s@);
            }
            return true;
        }
        i = i + 1;
    }
    proof {
        assert(!v.deep_view().contains(s@));
    }
    false
}

/// Decides the scope predicates for one record.
pub fn record_in_scope(f: &FileRecord, allow: &Vec<String>) -> (r: bool)
    ensures
        r == spec_in_scope(f@, allow.deep_view()),
{
    if !f.regular_file || f.symlink {
        return false;
    }
    let ext_ok = match extension_of(f.path.as_str()) {
        None => false,
        Some(e) => contains_str(allow, e.as_str()),
    };
    if !ext_ok {
        return false;
    }
    match f.size {
        Some(n) => n <= MAX_FILE_SIZE_BYTES,
        None => true,
    }
}

/// The scope filter: keeps the paths of the declared records that satisfy
/// every scope predicate, in declaration order. Excluded records raise no
/// error.
pub fn select_in_scope(files: &Vec<FileRecord>, allow: &Vec<String>) -> (r: Vec<String>)
    ensures
        r.deep_view() == spec_select(files.deep_view(), allow.deep_view()),
{
    let n = files.len();
    let mut out: Vec<String> = Vec::new();
    let mut i: usize = 0;
    proof {
        assert(files.deep_view().skip(0) =~= files.deep_view());
        assert(out.deep_view() + spec_select(files.deep_view(), allow.deep_view()) =~= spec_select(
            files.deep_view(),
            allow.deep_view(),
        ));
    }
    while i < n
        invariant
            i <= n,
            n == files.len(),
            spec_select(files.deep_view(), allow.deep_view()) == out.deep_view() + spec_select(
                files.deep_view().skip(i as int),
                allow.deep_view(),
            ),
        decreases n - i,
    {
        let ghost pre = out.deep_view();
        let ghost fv = files.deep_view();
        proof {
            assert(fv.skip(i as int).first() == files[i as int].deep_view());
            assert(fv.skip(i as int).drop_first() =~= fv.skip(i + 1));
        }
        if record_in_scope(&files[i], allow) {
            out.push(files[i].path.clone());
            proof {
                assert(out.deep_view() =~= pre.push(files[i as int].deep_view().path));
                assert(out.deep_view() + spec_select(fv.skip(i + 1), allow.deep_view()) =~= pre
                    + spec_select(fv.skip(i as int), allow.deep_view()));
            }
        } else {
            proof {
                assert(out.deep_view() + spec_select(fv.skip(i + 1), allow.deep_view()) =~= pre
                    + spec_select(fv.skip(i as int), allow.deep_view()));
            }
        }
        i = i + 1;
    }
    proof {
        assert(files.deep_view().skip(n as int) =~= Seq::<FileRecordV>::empty());
        assert(out.deep_view() + Seq::<Seq<char>>::empty() =~= out.deep_view());
    }
    out
}

/// The default extension allow-set.
pub open spec fn spec_default_allow() -> Seq<Seq<char>> {
    seq!["c"@, "cpp"@]
}

/// Builds the default extension allow-set.
pub fn default_allow() -> (r: Vec<String>)
    ensures
        r.deep_view() == spec_default_allow(),
{
    let mut v: Vec<String> = Vec::new();
    v.push(String::from_str("c"));
    v.push(String::from_str("cpp"));
    proof {
        assert(v.deep_view() =~= spec_default_allow());
    }
    v
}

impl AnalyzerConfig {
    /// The in-scope C/C++ files of this configuration, under the default
    /// extension allow-set.
    pub fn cxx_files(self) -> (r: Vec<String>)
        ensures
            r.deep_view() == spec_select(self.files.deep_view(), spec_default_allow()),
    {
        let allow = default_allow();
        select_in_scope(&self.files, &allow)
    }

    /// The in-scope files of this configuration under a caller-supplied
    /// extension allow-set.
    pub fn files_in_scope(self, allow: &Vec<String>) -> (r: Vec<String>)
        ensures
            r.deep_view() == spec_select(self.files.deep_view(), allow.deep_view()),
    {
        select_in_scope(&self.files, allow)
    }
}

/// A path is produced by the scope filter exactly when some declared record
/// carries that path and satisfies every scope predicate.
pub proof fn lemma_select_membership(files: Seq<FileRecordV>, allow: Seq<Seq<char>>, p: Seq<char>)
    ensures
        spec_select(files, allow).contains(p) <==> exists|i: int|
            0 <= i < files.len() && spec_in_scope(#[trigger] files[i], allow) && files[i].path
                == p,
    decreases files.len(),
{
    if files.len() > 0 {
        lemma_select_membership(files.drop_first(), allow, p);
        let rest = spec_select(files.drop_first(), allow);
        if spec_in_scope(files.first(), allow) {
            let whole = seq![files.first().path] + rest;
            assert forall|k: int| 0 <= k < whole.len() implies whole[k] == if k == 0 {
                files.first().path
            } else {
                rest[k - 1]
            } by {}
            if whole.contains(p) {
                let k = choose|k: int| 0 <= k < whole.len() && whole[k] == p;
                if k == 0 {
                    assert(spec_in_scope(files[0], allow) && files[0].path == p);
                } else {
                    assert(rest[k - 1] == p);
                    assert(rest.contains(p));
                    let j = choose|j: int|
                        0 <= j < files.drop_first().len() && spec_in_scope(
                            #[trigger] files.drop_first()[j],
                            allow,
                        ) && files.drop_first()[j].path == p;
                    assert(files.drop_first()[j] == files[j + 1]);
                    assert(spec_in_scope(files[j + 1], allow) && files[j + 1].path == p);
                }
            }
            if exists|i: int|
                0 <= i < files.len() && spec_in_scope(#[trigger] files[i], allow) && files[i].path
                    == p {
                let i = choose|i: int|
                    0 <= i < files.len() && spec_in_scope(#[trigger] files[i], allow)
                        && files[i].path == p;
                if i == 0 {
                    assert(whole[0] == p);
                    assert(whole.contains(p));
                } else {
                    assert(files.drop_first()[i - 1] == files[i]);
                    assert(rest.contains(p));
                    let k = choose|k: int| 0 <= k < rest.len() && rest[k] == p;
                    assert(whole[k + 1] == p);
                    assert(whole.contains(p));
                }
            }
        } else {
            if exists|i: int|
                0 <= i < files.len() && spec_in_scope(#[trigger] files[i], allow) && files[i].path
                    == p {
                let i = choose|i: int|
                    0 <= i < files.len() && spec_in_scope(#[trigger] files[i], allow)
                        && files[i].path == p;
                assert(i != 0);
                assert(files.drop_first()[i - 1] == files[i]);
            }
            if rest.contains(p) {
                let j = choose|j: int|
                    0 <= j < files.drop_first().len() && spec_in_scope(
                        #[trigger] files.drop_first()[j],
                        allow,
                    ) && files.drop_first()[j].path == p;
                assert(files.drop_first()[j] == files[j + 1]);
            }
        }
    }
}

/// A record whose extension lies outside the allow-set is excluded by the
/// scope filter, regardless of its other attributes.
pub proof fn law_extension_outside_allow_excluded(f: FileRecordV, allow: Seq<Seq<char>>)
    requires
        !spec_allowed_ext(f.path, allow),
    ensures
        !spec_in_scope(f, allow),
{
}

/// The size boundary is exclusive of sizes over the limit: with every other
/// predicate satisfied, a file of exactly 25,000,000 bytes is in scope and
/// one of 25,000,001 bytes is not.
pub proof fn law_size_boundary(f: FileRecordV, allow: Seq<Seq<char>>)
    requires
        f.regular_file,
        !f.symlink,
        spec_allowed_ext(f.path, allow),
    ensures
        f.size == Some(25_000_000u64) ==> spec_in_scope(f, allow),
        f.size == Some(25_000_001u64) ==> !spec_in_scope(f, allow),
{
}

/// A symbolic link is excluded by the scope filter, even when everything
/// else about it is in scope.
pub proof fn law_symlink_excluded(f: FileRecordV, allow: Seq<Seq<char>>)
    requires
        f.symlink,
    ensures
        !spec_in_scope(f, allow),
{
}

} // verus!
