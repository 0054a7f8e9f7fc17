use hoshino::binary64::Binary64;
use hoshino::collect::reports::{
    candidate_names, report_freshness, Answer, Candidate, LinkCheck, MetadataCheck, Question,
    ReadOutcome, Search,
};
use hoshino::limits::Limits;
use hoshino::model::{Coverage, Diagnostic, Freshness};

#[derive(Clone)]
enum Node {
    File(&'static str),
    Link(&'static str),
    Fifo,
}

/// A project's files, each by its path below the root.
type Files = Vec<(&'static str, Node)>;

fn resolved(files: &Files, path: &str) -> Option<(String, Node)> {
    let found = files.iter().find(|file| file.0 == path)?;
    match &found.1 {
        Node::Link(target) => resolved(files, target),
        node => Some((path.to_string(), node.clone())),
    }
}

fn candidate(relative: &str, configured: bool) -> Candidate {
    let name = relative.rsplit('/').next().unwrap();
    Candidate {
        path: format!("/project/{relative}"),
        relative: relative.to_string(),
        name: name.to_string(),
        extension: name.rsplit_once('.').map(|parts| parts.1.to_string()),
        configured,
    }
}

/// The path that an alias such as `a/../a/b` leads to.
fn plain(path: &str) -> String {
    let mut parts: Vec<&str> = Vec::new();
    for part in path.split('/') {
        if part == ".." {
            parts.pop();
        } else {
            parts.push(part);
        }
    }
    parts.join("/")
}

fn number(text: &str) -> Option<Binary64> {
    text.parse::<f64>().ok().map(|value| Binary64 { bits: value.to_bits() })
}

fn collect(
    files: &Files,
    configured: Option<&str>,
    newest: Option<i128>,
    truncated: bool,
    max_bytes: u64,
) -> (Option<Coverage>, Vec<Diagnostic>) {
    let mut candidates: Vec<Candidate> = Vec::new();
    if let Some(path) = configured {
        candidates.push(candidate(path, true));
    }
    for name in candidate_names() {
        candidates.push(candidate(name, false));
    }
    let mut search = Search::new(candidates, max_bytes, newest, truncated);
    loop {
        let question = search.question();
        if question == Question::Nothing {
            return (search.found, search.diagnostics);
        }
        let path = plain(&search.candidates[search.at].relative);
        let direct = files.iter().find(|file| file.0 == path);
        let answer = match question {
            Question::Link => Answer::Link(match direct {
                None => LinkCheck::Missing,
                Some((_, Node::Link(_))) => LinkCheck::Symlink,
                Some(_) => LinkCheck::Present,
            }),
            Question::Identity => Answer::Identity(match resolved(files, &path) {
                Some((name, _)) => name.into_bytes(),
                None => path.into_bytes(),
            }),
            Question::Metadata => Answer::Metadata(match resolved(files, &path) {
                None => MetadataCheck::Missing,
                Some((_, Node::File(text))) => MetadataCheck::File { bytes: text.len() as u64 },
                Some(_) => MetadataCheck::NotFile,
            }),
            Question::Contents { .. } => Answer::Contents(match resolved(files, &path) {
                Some((_, Node::File(text))) => ReadOutcome::Text {
                    contents: text.to_string(),
                    modified: Some(5_000_000_000),
                },
                _ => ReadOutcome::Failed,
            }),
            Question::Rates { line, branch } => Answer::Rates(number(&line), number(&branch)),
            Question::Nothing => unreachable!(),
        };
        search.answer(answer);
    }
}

fn codes(diagnostics: &[Diagnostic]) -> Vec<&str> {
    diagnostics.iter().map(|item| item.code.as_str()).collect()
}

fn default_bytes() -> u64 {
    Limits::default().coverage_max_bytes
}

#[test]
fn collect_skips_oversized_and_malformed_candidates() {
    let files: Files = vec![
        ("coverage/lcov.info", Node::File("too large")),
        ("lcov.info", Node::File("DA:1,1\n")),
    ];
    let (result, diagnostics) = collect(&files, None, None, false, 7);
    let result = result.unwrap();
    assert_eq!(result.report_path.as_deref(), Some("lcov.info"));
    assert_eq!(result.line_percent, number("100.0"));
    assert!(diagnostics.iter().any(|item| item.code == "coverage-too-large"));
    assert_eq!(diagnostics[0].message, "coverage candidate was skipped");
    assert_eq!(diagnostics[0].subject.as_deref(), Some("/project/coverage/lcov.info"));
}

#[test]
fn collect_skips_auto_symlinks_and_non_regular_candidates() {
    let files: Files = vec![
        ("report.info", Node::File("DA:1,0\n")),
        ("coverage/lcov.info", Node::Link("report.info")),
        ("lcov.info", Node::File("DA:1,1\n")),
    ];
    let (result, diagnostics) = collect(&files, None, None, false, default_bytes());
    assert_eq!(result.unwrap().report_path.as_deref(), Some("lcov.info"));
    assert_eq!(codes(&diagnostics), ["coverage-auto-symlink"]);

    let files: Files = vec![
        ("coverage/lcov.info", Node::Fifo),
        ("lcov.info", Node::File("DA:1,1\n")),
    ];
    let (result, diagnostics) = collect(&files, None, None, false, default_bytes());
    assert_eq!(result.unwrap().report_path.as_deref(), Some("lcov.info"));
    assert_eq!(codes(&diagnostics), ["coverage-not-regular-file"]);
}

#[test]
fn configured_regular_file_symlink_is_supported() {
    let files: Files = vec![
        ("report.info", Node::File("DA:1,1\n")),
        ("configured.info", Node::Link("report.info")),
    ];
    let (result, diagnostics) =
        collect(&files, Some("configured.info"), None, false, default_bytes());
    assert_eq!(result.unwrap().report_path.as_deref(), Some("configured.info"));
    assert!(diagnostics.is_empty());
}

#[test]
fn configured_report_wins_and_candidates_have_documented_order() {
    let files: Files = vec![
        ("coverage/lcov.info", Node::File("DA:1,0\n")),
        ("lcov.info", Node::File("DA:1,1\n")),
        ("custom.info", Node::File("DA:1,1\nDA:2,1\n")),
    ];
    let configured = collect(&files, Some("custom.info"), None, false, default_bytes()).0.unwrap();
    assert_eq!(configured.report_path.as_deref(), Some("custom.info"));
    assert_eq!(configured.line_percent, number("100.0"));
    let ordered = collect(&files, None, None, false, default_bytes()).0.unwrap();
    assert_eq!(ordered.report_path.as_deref(), Some("coverage/lcov.info"));
    assert_eq!(ordered.line_percent, number("0.0"));
}

#[test]
fn configured_alias_is_deduplicated_before_fallback() {
    let files: Files = vec![
        ("coverage/lcov.info", Node::File("DA:bad\n")),
        ("lcov.info", Node::File("DA:1,1\n")),
    ];
    let (result, diagnostics) = collect(
        &files,
        Some("coverage/../coverage/lcov.info"),
        None,
        false,
        default_bytes(),
    );
    assert_eq!(result.unwrap().report_path.as_deref(), Some("lcov.info"));
    assert_eq!(
        diagnostics.iter().filter(|item| item.code == "coverage-malformed").count(),
        1
    );
}

#[test]
fn freshness_reports_current_stale_and_unknown_and_mtime() {
    let files: Files = vec![("lcov.info", Node::File("DA:1,1\n"))];
    let future = Some(5_000_000_001);
    let past = Some(1_000_000_000);
    let stale = collect(&files, None, future, false, default_bytes()).0.unwrap();
    assert_eq!(stale.stale, Freshness::Stale);
    assert_eq!(stale.report_modified.unwrap().value, 5);
    let current = collect(&files, None, past, false, default_bytes()).0.unwrap();
    assert_eq!(current.stale, Freshness::Current);
    let unknown = collect(&files, None, past, true, default_bytes()).0.unwrap();
    assert_eq!(unknown.stale, Freshness::Unknown);
    assert_eq!(report_freshness(None, past, false), Freshness::Current);
    assert_eq!(report_freshness(Some(5), None, false), Freshness::Current);
}

#[test]
fn rates_of_a_report_are_asked_for_as_numbers() {
    let files: Files = vec![
        ("coverage.xml", Node::File("<coverage line-rate=\"x\" branch-rate=\"0\"/>")),
        ("cobertura.xml", Node::File("<coverage line-rate=\"0.5\" branch-rate=\"0\"/>")),
    ];
    let (result, diagnostics) = collect(&files, None, None, false, default_bytes());
    assert_eq!(result.unwrap().line_percent, number("50"));
    assert_eq!(codes(&diagnostics), ["coverage-malformed"]);
}

#[test]
fn nothing_is_found_in_an_empty_project() {
    let (result, diagnostics) = collect(&vec![], None, None, false, default_bytes());
    assert_eq!(result, None);
    assert!(diagnostics.is_empty());
    let (result, diagnostics) =
        collect(&vec![], Some("missing.info"), None, false, default_bytes());
    assert_eq!(result, None);
    assert_eq!(codes(&diagnostics), ["coverage-configured-missing"]);
}
