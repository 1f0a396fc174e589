//! The analyzer invoker's command construction: the argument vector and
//! output redirection for one analyzer run. Executing the command is the
//! caller's business; this module only decides what is run.

use vstd::prelude::*;

verus! {

/// What the analyzer is pointed at: a root directory it recurses into, or
/// the explicit list of scoped files.
#[derive(Clone, Debug, PartialEq, Eq)]
pub enum AnalysisTarget {
    Directory(String),
    Files(Vec<String>),
}

/// Where the analyzer's report goes: through its own output flag, or by
/// redirecting its error stream into a file.
#[derive(Clone, Debug, PartialEq, Eq)]
pub enum OutputSink {
    OutputFileFlag(String),
    StderrRedirect(String),
}

/// One planned analyzer invocation: the program, its argument vector in
/// order, and the file the error stream is redirected into, if any.
#[derive(Clone, Debug, PartialEq, Eq)]
pub struct InvocationPlan {
    pub program: String,
    pub args: Vec<String>,
    pub stderr_to: Option<String>,
}

/// The target arguments: the root directory, or each scoped file in order.
pub open spec fn spec_target_args(target: AnalysisTarget) -> Seq<Seq<char>> {
    match target {
        AnalysisTarget::Directory(d) => seq![d@],
        AnalysisTarget::Files(fs) => fs.deep_view(),
    }
}

/// The fixed analyzer flags: diagnostic level, language standard, the
/// add-on ruleset, and XML output.
pub open spec fn spec_fixed_flags() -> Seq<Seq<char>> {
    seq!["-l"@, "6"@, "--std=c++20"@, "--addon=misra"@, "--xml"@]
}

/// The argument the output sink adds, if it is flag-shaped.
pub open spec fn spec_sink_args(sink: OutputSink) -> Seq<Seq<char>> {
    match sink {
        OutputSink::OutputFileFlag(p) => seq!["--output-file="@ + p@],
        OutputSink::StderrRedirect(p) => Seq::empty(),
    }
}

/// The file the error stream is redirected into, if the sink asks for it.
pub open spec fn spec_sink_stderr(sink: OutputSink) -> Option<Seq<char>> {
    match sink {
        OutputSink::OutputFileFlag(p) => None,
        OutputSink::StderrRedirect(p) => Some(p@),
    }
}

/// The caching argument: present exactly when a cache directory is
/// configured; its absence silently disables caching.
pub open spec fn spec_cache_args(cache_dir: Option<Seq<char>>) -> Seq<Seq<char>> {
    match cache_dir {
        None => Seq::empty(),
        Some(p) => seq!["--cppcheck-build-dir="@ + p],
    }
}

/// The view of the optional cache directory argument.
pub open spec fn spec_cache_view(cache_dir: Option<&String>) -> Option<Seq<char>> {
    match cache_dir {
        None => None,
        Some(p) => Some(p@),
    }
}

/// Plans one analyzer invocation: the target, then the fixed flags, then
/// the output flag when the sink is flag-shaped, then the caching flag when
/// a cache directory is configured.
pub fn build_invocation(
    executable: &str,
    target: AnalysisTarget,
    sink: &OutputSink,
    cache_dir: Option<&String>,
) -> (r: InvocationPlan)
    ensures
        r.program@ == executable@,
        r.args.deep_view() == spec_target_args(target) + spec_fixed_flags() + spec_sink_args(*sink)
            + spec_cache_args(spec_cache_view(cache_dir)),
        r.stderr_to matches Some(p) ==> spec_sink_stderr(*sink) == Some(p@),
        r.stderr_to is None ==> spec_sink_stderr(*sink) is None,
{
    let ghost tgt = spec_target_args(target);
    let mut args: Vec<String> = Vec::new();
    match target {
        AnalysisTarget::Directory(d) => {
            args.push(d);
        },
        AnalysisTarget::Files(fs) => {
            let n = fs.len();
            let mut k: usize = 0;
            while k < n
                invariant
                    k <= n,
                    n == fs.len(),
                    args.deep_view() =~= fs.deep_view().take(k as int),
                decreases n - k,
            {
                let ghost pre = args.deep_view();
                args.push(fs[k].clone());
                proof {
                    assert(args.deep_view() =~= pre.push(fs[k as int].deep_view()));
                    assert(fs.deep_view()[k as int] == fs[k as int].deep_view());
                    assert(args.deep_view() =~= fs.deep_view().take(k + 1));
                }
                k = k + 1;
            }
            proof {
                assert(fs.deep_view().take(n as int) =~= fs.deep_view());
            }
        },
    }
    proof {
        assert(args.deep_view() =~= tgt);
    }
    args.push(String::from_str("-l"));
    args.push(String::from_str("6"));
    args.push(String::from_str("--std=c++20"));
    args.push(String::from_str("--addon=misra"));
    args.push(String::from_str("--xml"));
    let stderr_to: Option<String> = match sink {
        OutputSink::OutputFileFlag(p) => {
            args.push(String::from_str("--output-file=").concat(p.as_str()));
            None
        },
        OutputSink::StderrRedirect(p) => Some(p.clone()),
    };
    match cache_dir {
        None => {},
        Some(p) => {
            args.push(String::from_str("--cppcheck-build-dir=").concat(p.as_str()));
        },
    }
    proof {
        assert(args.deep_view() =~= tgt + spec_fixed_flags() + spec_sink_args(*sink)
            + spec_cache_args(spec_cache_view(cache_dir)));
    }
    InvocationPlan { program: String::from_str(executable), args: args, stderr_to: stderr_to }
}

} // verus!
