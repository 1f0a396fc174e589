use cppcheck_pipeline::artifact::issues_from_json;
use cppcheck_pipeline::classify::{classify, issue_of, mapping};
use cppcheck_pipeline::config::{extension_of, AnalyzerConfig, AnalyzerMeta, FileRecord};
use cppcheck_pipeline::cppcheck::{parse_report, RawFinding, SourcePoint};
use cppcheck_pipeline::emit::issues_to_json;
use cppcheck_pipeline::invoke::{build_invocation, AnalysisTarget, OutputSink};
use cppcheck_pipeline::issue::Occurrence;
use cppcheck_pipeline::logfmt::{color_code, enabled, filter_from_name, LogFilter, LogLevel};
use cppcheck_pipeline::model::{Issue, IssueCode, Location, Mark, Position};
use cppcheck_pipeline::pipeline::produce_artifact;
use cppcheck_pipeline::text::{parse_u64, str_eq, u64_to_dec};

fn record(path: &str, regular: bool, symlink: bool, size: Option<u64>) -> FileRecord {
    FileRecord {
        path: path.to_string(),
        regular_file: regular,
        symlink,
        size,
    }
}

fn config_of(files: Vec<FileRecord>) -> AnalyzerConfig {
    AnalyzerConfig {
        files,
        analyzer_meta: AnalyzerMeta {
            name: "cppcheck".to_string(),
            enabled: true,
        },
    }
}

fn finding(id: &str, msg: &str, symbols: Vec<&str>, locations: Vec<(&str, u64, u64)>) -> RawFinding {
    RawFinding {
        id: id.to_string(),
        msg: msg.to_string(),
        symbols: symbols.into_iter().map(|s| s.to_string()).collect(),
        locations: locations
            .into_iter()
            .map(|(file, line, column)| SourcePoint {
                file: file.to_string(),
                line,
                column,
            })
            .collect(),
    }
}

#[test]
fn extension_outside_allow_set_is_excluded() {
    let cfg = config_of(vec![record("/code/notes.txt", true, false, Some(10))]);
    assert_eq!(cfg.cxx_files(), Vec::<String>::new());
}

#[test]
fn extension_inside_allow_set_is_kept() {
    let cfg = config_of(vec![
        record("/code/a.c", true, false, Some(10)),
        record("/code/b.cpp", true, false, Some(10)),
    ]);
    assert_eq!(cfg.cxx_files(), vec!["/code/a.c".to_string(), "/code/b.cpp".to_string()]);
}

#[test]
fn size_boundary_is_exclusive_above_the_limit() {
    let at_limit = config_of(vec![record("/code/a.cpp", true, false, Some(25_000_000))]);
    assert_eq!(at_limit.cxx_files(), vec!["/code/a.cpp".to_string()]);
    let over_limit = config_of(vec![record("/code/a.cpp", true, false, Some(25_000_001))]);
    assert_eq!(over_limit.cxx_files(), Vec::<String>::new());
}

#[test]
fn metadata_failure_counts_as_not_oversized() {
    let cfg = config_of(vec![record("/code/a.cpp", true, false, None)]);
    assert_eq!(cfg.cxx_files(), vec!["/code/a.cpp".to_string()]);
}

#[test]
fn symlink_is_excluded() {
    let cfg = config_of(vec![record("/code/a.cpp", true, true, Some(10))]);
    assert_eq!(cfg.cxx_files(), Vec::<String>::new());
}

#[test]
fn non_regular_file_is_excluded() {
    let cfg = config_of(vec![record("/code/dir.cpp", false, false, Some(10))]);
    assert_eq!(cfg.cxx_files(), Vec::<String>::new());
}

#[test]
fn custom_allow_set_admits_headers() {
    let cfg = config_of(vec![
        record("/code/a.h", true, false, Some(10)),
        record("/code/b.cpp", true, false, Some(10)),
    ]);
    let allow = vec!["h".to_string(), "hpp".to_string()];
    assert_eq!(cfg.files_in_scope(&allow), vec!["/code/a.h".to_string()]);
}

#[test]
fn extension_extraction_follows_path_rules() {
    assert_eq!(extension_of("/a/b.tar.gz"), Some("gz".to_string()));
    assert_eq!(extension_of("/a/.bashrc"), None);
    assert_eq!(extension_of("trailing."), Some("".to_string()));
    assert_eq!(extension_of("noext"), None);
    assert_eq!(extension_of("dir.d/file"), None);
}

#[test]
fn unmapped_identifier_yields_no_issue() {
    let f = finding("someUnknownId", "whatever", vec![], vec![("/code/a.cpp", 1, 1)]);
    assert_eq!(classify(&vec![f], None), Vec::<Issue>::new());
}

#[test]
fn misra_message_is_rewritten_to_id_and_symbol() {
    let f = finding(
        "misra-c2012-8.1",
        "misra c2012-8.1",
        vec!["foo"],
        vec![("/code/a.cpp", 3, 7)],
    );
    let issues = classify(&vec![f], None);
    assert_eq!(issues.len(), 1);
    assert_eq!(issues[0].issue_text, "misra-c2012-8.1 foo");
    assert_eq!(issues[0].issue_code, IssueCode::MisraViolation);
}

#[test]
fn misra_message_without_symbol_gets_empty_symbol() {
    let f = finding("misra-c2012-8.1", "misra c2012-8.1", vec![], vec![("/code/a.cpp", 3, 7)]);
    let issues = classify(&vec![f], None);
    assert_eq!(issues[0].issue_text, "misra-c2012-8.1 ");
}

#[test]
fn plain_message_is_kept_verbatim() {
    let f = finding(
        "nullPointer",
        "Null pointer dereference: p",
        vec!["p"],
        vec![("/code/a.cpp", 3, 7)],
    );
    let issues = classify(&vec![f], None);
    assert_eq!(issues[0].issue_text, "Null pointer dereference: p");
    assert_eq!(issues[0].issue_code, IssueCode::NullPointerDereference);
}

#[test]
fn finding_without_location_is_dropped() {
    let f = finding("nullPointer", "msg", vec![], vec![]);
    assert!(issue_of(&f, None).is_none());
}

#[test]
fn out_of_scope_location_is_dropped_only_when_checked() {
    let f = finding("nullPointer", "msg", vec![], vec![("/code/b.cpp", 1, 1)]);
    let scope = vec!["/code/a.cpp".to_string()];
    assert!(issue_of(&f, Some(&scope)).is_none());
    assert!(issue_of(&f, None).is_some());
}

#[test]
fn only_the_first_location_is_used() {
    let f = finding(
        "nullPointer",
        "msg",
        vec![],
        vec![("/code/a.cpp", 5, 6), ("/code/z.cpp", 9, 9)],
    );
    let issues = classify(&vec![f], None);
    assert_eq!(issues.len(), 1);
    assert_eq!(issues[0].location.path, "/code/a.cpp");
    assert_eq!(issues[0].location.position.begin, Mark { line: 5, column: 6 });
    assert_eq!(issues[0].location.position.end, Mark { line: 5, column: 6 });
}

#[test]
fn classification_keeps_input_order() {
    let f1 = finding("nullPointer", "first", vec![], vec![("/a.cpp", 1, 1)]);
    let f2 = finding("memleak", "second", vec![], vec![("/a.cpp", 2, 2)]);
    let issues = classify(&vec![f1, f2], None);
    assert_eq!(issues.len(), 2);
    assert_eq!(issues[0].issue_text, "first");
    assert_eq!(issues[1].issue_text, "second");
}

#[test]
fn mapping_table_hits_and_misses() {
    assert_eq!(mapping("misra-c2012-10.4"), Some(IssueCode::MisraViolation));
    assert_eq!(mapping("uninitvar"), Some(IssueCode::UninitializedVariable));
    assert_eq!(mapping("arrayIndexOutOfBounds"), Some(IssueCode::ArrayIndexOutOfBounds));
    assert_eq!(mapping("doubleFree"), Some(IssueCode::DoubleFree));
    assert_eq!(mapping("zerodiv"), Some(IssueCode::ZeroDivision));
    assert_eq!(mapping("notAnId"), None);
    assert_eq!(mapping("misra"), None);
}

#[test]
fn empty_issue_list_serializes_to_empty_array() {
    assert_eq!(issues_to_json(&vec![]), "[]");
}

#[test]
fn round_trip_of_zero_issues() {
    let artifact = issues_to_json(&vec![]);
    let parsed: Vec<serde_json::Value> = serde_json::from_str(&artifact).unwrap();
    assert_eq!(parsed.len(), 0);
}

#[test]
fn one_issue_serializes_exactly() {
    let issue = Issue {
        issue_text: "misra-c2012-8.1 foo".to_string(),
        issue_code: IssueCode::MisraViolation,
        location: Location {
            path: "/code/a.cpp".to_string(),
            position: Position {
                begin: Mark { line: 10, column: 3 },
                end: Mark { line: 10, column: 3 },
            },
        },
    };
    let expected = "[{\"issue_text\":\"misra-c2012-8.1 foo\",\"issue_code\":\"misra-violation\",\"location\":{\"path\":\"/code/a.cpp\",\"position\":{\"begin\":{\"line\":10,\"column\":3},\"end\":{\"line\":10,\"column\":3}}}}]";
    assert_eq!(issues_to_json(&vec![issue]), expected);
}

#[test]
fn serialized_text_is_escaped_and_reparses() {
    let issue = Issue {
        issue_text: "say \"hi\"\\\n\u{1}".to_string(),
        issue_code: IssueCode::MemoryLeak,
        location: Location {
            path: "/code/a.cpp".to_string(),
            position: Position {
                begin: Mark { line: 1, column: 2 },
                end: Mark { line: 1, column: 2 },
            },
        },
    };
    let artifact = issues_to_json(&vec![issue]);
    let parsed: Vec<serde_json::Value> = serde_json::from_str(&artifact).unwrap();
    assert_eq!(parsed.len(), 1);
    assert_eq!(
        parsed[0].get("issue_text").unwrap().as_str().unwrap(),
        "say \"hi\"\\\n\u{1}"
    );
    assert_eq!(
        parsed[0].get("issue_code").unwrap().as_str().unwrap(),
        "memory-leak"
    );
}

#[test]
fn full_report_parses_to_findings() {
    let xml = "<?xml version=\"1.0\" encoding=\"UTF-8\"?>\n<results version=\"2\">\n  <cppcheck version=\"2.13\"/>\n  <errors>\n    <error id=\"misra-c2012-8.1\" severity=\"style\" msg=\"misra c2012-8.1\">\n      <symbol>foo</symbol>\n      <location file=\"/code/a.cpp\" line=\"10\" column=\"3\"/>\n    </error>\n    <error id=\"nullPointer\" msg=\"Null pointer: &quot;p&quot;\">\n      <location file=\"/code/b.cpp\" line=\"4\" column=\"1\" info=\"extra\"/>\n      <location file=\"/code/c.cpp\" line=\"5\" column=\"2\"/>\n    </error>\n  </errors>\n</results>\n";
    let findings = parse_report(xml).unwrap();
    assert_eq!(findings.len(), 2);
    assert_eq!(findings[0].id, "misra-c2012-8.1");
    assert_eq!(findings[0].msg, "misra c2012-8.1");
    assert_eq!(findings[0].symbols, vec!["foo".to_string()]);
    assert_eq!(findings[0].locations.len(), 1);
    assert_eq!(findings[0].locations[0].file, "/code/a.cpp");
    assert_eq!(findings[0].locations[0].line, 10);
    assert_eq!(findings[0].locations[0].column, 3);
    assert_eq!(findings[1].msg, "Null pointer: \"p\"");
    assert_eq!(findings[1].locations.len(), 2);
    assert_eq!(findings[1].locations[1].file, "/code/c.cpp");
}

#[test]
fn entities_in_symbols_are_decoded() {
    let xml = "<errors><error id=\"x\" msg=\"m\"><symbol>&lt;foo&amp;bar&gt;&apos;q&apos;</symbol></error></errors>";
    let findings = parse_report(xml).unwrap();
    assert_eq!(findings[0].symbols, vec!["<foo&bar>'q'".to_string()]);
}

#[test]
fn empty_errors_element_parses_to_zero_findings() {
    assert_eq!(parse_report("<results><errors>\n</errors></results>").unwrap().len(), 0);
    assert_eq!(parse_report("<results><errors/></results>").unwrap().len(), 0);
}

#[test]
fn self_closing_error_has_no_symbols_or_locations() {
    let findings = parse_report("<errors><error id=\"x\" msg=\"m\"/></errors>").unwrap();
    assert_eq!(findings.len(), 1);
    assert!(findings[0].symbols.is_empty());
    assert!(findings[0].locations.is_empty());
}

#[test]
fn malformed_reports_parse_to_nothing() {
    assert!(parse_report("no errors element here").is_none());
    assert!(parse_report("<errors><bogus/></errors>").is_none());
    assert!(parse_report("<errors><error msg=\"no id\"/></errors>").is_none());
    assert!(parse_report("<errors><error id=\"x\" msg=\"m\">").is_none());
    assert!(parse_report("<errors><error id=\"x\" msg=\"m\"><location line=\"1\" column=\"2\"/></error></errors>").is_none());
    assert!(parse_report("<errors><error id=\"x\" msg=\"m\"><location file=\"f\" line=\"one\" column=\"2\"/></error></errors>").is_none());
}

#[test]
fn numerals_parse_with_exact_bounds() {
    assert_eq!(parse_u64("0"), Some(0));
    assert_eq!(parse_u64("18446744073709551615"), Some(u64::MAX));
    assert_eq!(parse_u64("18446744073709551616"), None);
    assert_eq!(parse_u64(""), None);
    assert_eq!(parse_u64("12a"), None);
}

#[test]
fn numerals_render_back_to_decimal() {
    assert_eq!(u64_to_dec(0), "0");
    assert_eq!(u64_to_dec(10), "10");
    assert_eq!(u64_to_dec(25_000_000), "25000000");
    assert!(str_eq(&u64_to_dec(u64::MAX), "18446744073709551615"));
}

#[test]
fn directory_mode_invocation_with_cache() {
    let cache = "/cache".to_string();
    let plan = build_invocation(
        "cppcheck",
        AnalysisTarget::Directory("/code".to_string()),
        &OutputSink::OutputFileFlag("/toolbox/cppcheck_error.xml".to_string()),
        Some(&cache),
    );
    assert_eq!(plan.program, "cppcheck");
    assert_eq!(
        plan.args,
        vec![
            "/code".to_string(),
            "-l".to_string(),
            "6".to_string(),
            "--std=c++20".to_string(),
            "--addon=misra".to_string(),
            "--xml".to_string(),
            "--output-file=/toolbox/cppcheck_error.xml".to_string(),
            "--cppcheck-build-dir=/cache".to_string(),
        ]
    );
    assert_eq!(plan.stderr_to, None);
}

#[test]
fn file_list_mode_invocation_with_stderr_redirect() {
    let plan = build_invocation(
        "cppcheck",
        AnalysisTarget::Files(vec!["/code/a.cpp".to_string(), "/code/b.cpp".to_string()]),
        &OutputSink::StderrRedirect("/toolbox/cppcheck_error.xml".to_string()),
        None,
    );
    assert_eq!(
        plan.args,
        vec![
            "/code/a.cpp".to_string(),
            "/code/b.cpp".to_string(),
            "-l".to_string(),
            "6".to_string(),
            "--std=c++20".to_string(),
            "--addon=misra".to_string(),
            "--xml".to_string(),
        ]
    );
    assert_eq!(plan.stderr_to, Some("/toolbox/cppcheck_error.xml".to_string()));
}

#[test]
fn end_to_end_one_finding_in_scope() {
    let cfg = config_of(vec![
        record("/code/a.cpp", true, false, Some(120)),
        record("/code/b.txt", true, false, Some(120)),
        record("/code/big.cpp", true, false, Some(30_000_000)),
    ]);
    assert_eq!(cfg.clone().cxx_files(), vec!["/code/a.cpp".to_string()]);
    let xml = "<results><errors><error id=\"nullPointer\" msg=\"deref\"><location file=\"/code/a.cpp\" line=\"10\" column=\"3\"/></error><error id=\"nullPointer\" msg=\"deref\"><location file=\"/code/big.cpp\" line=\"1\" column=\"1\"/></error></errors></results>";
    let allow = vec!["c".to_string(), "cpp".to_string()];
    let artifact = produce_artifact(cfg, &allow, Some(xml), true);
    let parsed: Vec<serde_json::Value> = serde_json::from_str(&artifact).unwrap();
    assert_eq!(parsed.len(), 1);
    let location = parsed[0].get("location").unwrap();
    assert_eq!(location.get("path").unwrap().as_str().unwrap(), "/code/a.cpp");
    let position = location.get("position").unwrap();
    let begin = position.get("begin").unwrap();
    let end = position.get("end").unwrap();
    assert_eq!(begin.get("line").unwrap().as_u64().unwrap(), 10);
    assert_eq!(begin.get("column").unwrap().as_u64().unwrap(), 3);
    assert_eq!(begin, end);
}

#[test]
fn absent_report_yields_empty_array() {
    let cfg = config_of(vec![record("/code/a.cpp", true, false, Some(10))]);
    let allow = vec!["c".to_string(), "cpp".to_string()];
    assert_eq!(produce_artifact(cfg, &allow, None, true), "[]");
}

#[test]
fn malformed_report_yields_empty_array() {
    let cfg = config_of(vec![record("/code/a.cpp", true, false, Some(10))]);
    let allow = vec!["c".to_string(), "cpp".to_string()];
    assert_eq!(produce_artifact(cfg, &allow, Some("not xml at all"), true), "[]");
}

#[test]
fn missing_config_yields_empty_scope_and_empty_array() {
    let cfg = config_of(vec![]);
    let allow = vec!["c".to_string(), "cpp".to_string()];
    let xml = "<errors><error id=\"nullPointer\" msg=\"m\"><location file=\"/code/a.cpp\" line=\"1\" column=\"1\"/></error></errors>";
    assert_eq!(produce_artifact(cfg, &allow, Some(xml), true), "[]");
    let plan = build_invocation(
        "cppcheck",
        AnalysisTarget::Files(vec![]),
        &OutputSink::OutputFileFlag("/toolbox/out.xml".to_string()),
        None,
    );
    assert_eq!(plan.args.first().map(String::as_str), Some("-l"));
}

#[test]
fn log_levels_respect_the_filter() {
    assert!(enabled(LogLevel::Error, LogFilter::Error));
    assert!(!enabled(LogLevel::Warn, LogFilter::Error));
    assert!(enabled(LogLevel::Trace, LogFilter::Trace));
    assert!(!enabled(LogLevel::Error, LogFilter::Off));
    assert!(enabled(LogLevel::Debug, LogFilter::Trace));
}

#[test]
fn log_colors_match_the_levels() {
    assert_eq!(color_code(LogLevel::Error), "\x1B[31m");
    assert_eq!(color_code(LogLevel::Warn), "\x1B[33m");
    assert_eq!(color_code(LogLevel::Info), "\x1B[37m");
    assert_eq!(color_code(LogLevel::Debug), "\x1B[34m");
    assert_eq!(color_code(LogLevel::Trace), "");
}

#[test]
fn filter_names_parse_with_trace_fallback() {
    assert_eq!(filter_from_name("error"), LogFilter::Error);
    assert_eq!(filter_from_name("warn"), LogFilter::Warn);
    assert_eq!(filter_from_name("info"), LogFilter::Info);
    assert_eq!(filter_from_name("debug"), LogFilter::Debug);
    assert_eq!(filter_from_name("trace"), LogFilter::Trace);
    assert_eq!(filter_from_name("anything"), LogFilter::Trace);
}

#[test]
fn occurrence_mirrors_an_issue() {
    let issue = Issue {
        issue_text: "t".to_string(),
        issue_code: IssueCode::ZeroDivision,
        location: Location {
            path: "/code/a.cpp".to_string(),
            position: Position {
                begin: Mark { line: 1, column: 2 },
                end: Mark { line: 1, column: 2 },
            },
        },
    };
    let occ = Occurrence::of_issue(&issue);
    assert_eq!(occ.file, "/code/a.cpp");
    assert_eq!(occ.begin, Mark { line: 1, column: 2 });
    assert_eq!(occ.end, Mark { line: 1, column: 2 });
}

#[test]
fn library_reads_back_the_empty_artifact() {
    assert_eq!(issues_from_json("[]"), Some(vec![]));
}

#[test]
fn library_reads_back_what_it_emits() {
    let issues = vec![
        Issue {
            issue_text: "say \"hi\"\\ and\n\u{1} more".to_string(),
            issue_code: IssueCode::MemoryLeak,
            location: Location {
                path: "/code/a.cpp".to_string(),
                position: Position {
                    begin: Mark { line: 7, column: 1 },
                    end: Mark { line: 7, column: 1 },
                },
            },
        },
        Issue {
            issue_text: "plain".to_string(),
            issue_code: IssueCode::MisraViolation,
            location: Location {
                path: "/code/b.c".to_string(),
                position: Position {
                    begin: Mark { line: 2, column: 9 },
                    end: Mark { line: 2, column: 9 },
                },
            },
        },
    ];
    let artifact = issues_to_json(&issues);
    assert_eq!(issues_from_json(&artifact), Some(issues));
}

#[test]
fn malformed_artifacts_read_back_as_nothing() {
    assert_eq!(issues_from_json(""), None);
    assert_eq!(issues_from_json("[]extra"), None);
    assert_eq!(issues_from_json("{\"issue_text\":\"x\"}"), None);
    assert_eq!(issues_from_json("[{\"issue_text\":\"x\"}]"), None);
}
