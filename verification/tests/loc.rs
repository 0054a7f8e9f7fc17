use hoshino::collect::loc::{
    keep_entry, language, Scan, ScanAnswer, ScanEntry, ScanQuestion, ScanRun, SourceCounter,
    SourceLanguage,
};
use hoshino::limits::Limits;
use hoshino::model::Diagnostic;

fn limits() -> Limits {
    Limits {
        scan_max_files: 100,
        scan_max_file_bytes: 1024,
        scan_max_read_bytes: 4096,
        scan_elapsed_ms: 1000,
        ..Limits::default()
    }
}

fn truncated_for(diags: &[Diagnostic], reason: &str) -> bool {
    diags
        .iter()
        .any(|diag| diag.code == "scan-truncated" && diag.message.contains(reason))
}

/// Walks over files that are given by name and contents, as a walk over a directory.
fn scan_with_clock(
    files: &[(&str, &[u8])],
    full: bool,
    limits: &Limits,
    diags: &mut Vec<Diagnostic>,
    mut expired: impl FnMut() -> bool,
) -> Scan {
    let mut run = ScanRun::new(full, limits);
    let mut next = 0;
    let mut read = 0;
    loop {
        let answer = match run.question() {
            ScanQuestion::NextEntry => {
                if next == files.len() {
                    ScanAnswer::NoMoreEntries
                } else {
                    next += 1;
                    read = 0;
                    let extension = files[next - 1].0.rsplit_once('.').map(|it| it.1.to_string());
                    ScanAnswer::Entry { expired: expired(), entry: ScanEntry::File { extension } }
                }
            }
            ScanQuestion::Metadata => {
                ScanAnswer::Metadata(Some(files[next - 1].1.len() as u64))
            }
            ScanQuestion::Open => {
                ScanAnswer::Opened(Some((files[next - 1].1.len() as u64, Some(next as i128))))
            }
            ScanQuestion::Read { size } => {
                let expired_before = expired();
                let contents = files[next - 1].1;
                let end = contents.len().min(read + size as usize);
                let bytes = contents[read..end].to_vec();
                read = end;
                ScanAnswer::Chunk { expired_before, bytes, expired_after: expired() }
            }
            ScanQuestion::Nothing => return run.finish(diags),
        };
        run.answer(answer);
    }
}

fn scan(
    files: &[(&str, &[u8])],
    full: bool,
    limits: &Limits,
    diags: &mut Vec<Diagnostic>,
) -> Scan {
    scan_with_clock(files, full, limits, diags, || false)
}

/// What a file of a directory is, and what it holds.
enum Entry {
    File(&'static str),
    Link,
}

/// Walks over paths, none of them through a link or a directory that is not kept.
fn walk(paths: &[(&str, Entry)], full: bool, diags: &mut Vec<Diagnostic>) -> Scan {
    let mut files: Vec<(&str, &[u8])> = Vec::new();
    for (path, entry) in paths {
        let parts: Vec<&str> = path.split('/').collect();
        let (name, directories) = parts.split_last().unwrap();
        let inside = directories
            .iter()
            .all(|directory| keep_entry(false, true, &Some(directory.to_string())));
        let link = matches!(entry, Entry::Link);
        if inside && keep_entry(link, false, &Some(name.to_string())) {
            match entry {
                Entry::File(contents) => files.push((name, contents.as_bytes())),
                Entry::Link => unreachable!("a link is not kept"),
            }
        }
    }
    scan(&files, full, &limits(), diags)
}

#[test]
fn honors_gitignore_and_prunes_generated_and_vcs_directories() {
    let pruned = [
        ".git",
        ".hg",
        ".svn",
        "target",
        "build",
        "dist",
        "node_modules",
        "vendor",
        ".venv",
        "venv",
    ];
    let hidden: Vec<String> = pruned.iter().map(|name| format!("{name}/hidden.rs")).collect();
    let mut paths: Vec<(&str, Entry)> = vec![("kept.rs", Entry::File("kept\n"))];
    paths.extend(hidden.iter().map(|path| (path.as_str(), Entry::File("not counted\n"))));
    let mut diags = Vec::new();
    let scan = walk(&paths, true, &mut diags);
    assert_eq!(scan.count("Rust"), 1);
    assert!(!scan.truncated);
    assert!(diags.is_empty());
    for name in pruned {
        assert!(!keep_entry(false, true, &Some(name.into())), "{name}");
        assert!(keep_entry(false, false, &Some(name.into())), "{name}");
    }
    assert!(keep_entry(false, true, &Some("src".into())));
    assert!(keep_entry(false, true, &None));
}

#[test]
fn does_not_follow_symlinks_outside_the_root() {
    let paths = [
        ("external.rs", Entry::Link),
        ("external-dir", Entry::Link),
        ("inside.rs", Entry::File("inside\n")),
    ];
    let mut diags = Vec::new();
    let scan = walk(&paths, false, &mut diags);
    assert_eq!(scan.count("Rust"), 1);
    assert!(!scan.truncated);
    assert!(!keep_entry(true, true, &Some("external-dir".into())));
    let mut run = ScanRun::new(false, &limits());
    run.answer(ScanAnswer::Entry { expired: false, entry: ScanEntry::Skipped });
    assert_eq!(run.question(), ScanQuestion::NextEntry);
    run.answer(ScanAnswer::NoMoreEntries);
    assert_eq!(run.finish(&mut diags).count("Rust"), 0);
    assert!(diags.is_empty());
}

#[test]
fn skips_binary_content_without_counting_it() {
    let files: [(&str, &[u8]); 2] =
        [("binary.rs", b"line\n\0not text\n"), ("source.rs", b"line\n")];
    let mut diags = Vec::new();
    let scan = scan(&files, false, &limits(), &mut diags);

    assert_eq!(scan.count("Rust"), 1);
    assert!(!scan.truncated);
}

#[test]
fn counts_unicode_and_unterminated_last_lines() {
    let files: [(&str, &[u8]); 2] =
        [("unicode.rs", "é\n最後の行".as_bytes()), ("empty.rs", b"")];
    let mut diags = Vec::new();
    let scan = scan(&files, false, &limits(), &mut diags);

    assert_eq!(scan.count("Rust"), 2);
    assert!(scan.newest_source.is_some());
}

#[test]
fn reports_a_file_size_budget_truncation() {
    let mut bounded = limits();
    bounded.scan_max_file_bytes = 4;

    let mut diags = Vec::new();
    let scan = scan(&[("large.rs", b"12345")], false, &bounded, &mut diags);

    assert_eq!(scan.count("Rust"), 0);
    assert!(scan.truncated);
    assert!(truncated_for(&diags, "file-size"));
}

#[test]
fn reports_file_count_budget_truncation() {
    let mut bounded = limits();
    bounded.scan_max_files = 1;

    let mut diags = Vec::new();
    let scan = scan(&[("a.rs", b"a\n"), ("b.rs", b"b\n")], false, &bounded, &mut diags);

    assert_eq!(scan.count("Rust"), 1);
    assert!(scan.truncated);
    assert!(truncated_for(&diags, "file-count"));
}

#[test]
fn reports_aggregate_read_budget_truncation() {
    let mut bounded = limits();
    bounded.scan_max_read_bytes = 4;

    let mut diags = Vec::new();
    let scan = scan(&[("a.rs", b"1234"), ("b.rs", b"b\n")], false, &bounded, &mut diags);

    assert_eq!(scan.count("Rust"), 1);
    assert!(scan.truncated);
    assert!(truncated_for(&diags, "read-bytes"));
}

#[test]
fn reports_elapsed_budget_with_an_injectable_clock() {
    let mut diags = Vec::new();
    let mut checks = 0;
    let files: [(&str, &[u8]); 1] = [("source.rs", b"source\n")];
    let scan = scan_with_clock(&files, false, &limits(), &mut diags, || {
        checks += 1;
        checks > 2
    });

    assert_eq!(scan.count("Rust"), 0);
    assert!(scan.truncated);
    assert!(truncated_for(&diags, "elapsed"));
}

#[test]
fn normal_mode_excludes_other_and_full_mode_counts_other_text() {
    let files: [(&str, &[u8]); 2] = [("source.rs", b"rust\n"), ("notes.txt", b"notes\n")];

    let mut normal_diags = Vec::new();
    let normal = scan(&files, false, &limits(), &mut normal_diags).into_model();
    let mut full_diags = Vec::new();
    let full = scan(&files, true, &limits(), &mut full_diags).into_model();

    assert_eq!(normal.total, 1);
    assert_eq!(normal.by_language.len(), 1);
    assert_eq!(full.total, 2);
    assert_eq!(
        full.by_language
            .iter()
            .find(|entry| entry.language == "Other")
            .map(|entry| entry.lines),
        Some(1)
    );
    assert!(normal.totals_reconcile());
    assert!(full.totals_reconcile());
}

#[test]
fn languages_are_known_by_their_extensions() {
    for (extension, expected) in [
        ("rs", SourceLanguage::Rust),
        ("py", SourceLanguage::Python),
        ("tsx", SourceLanguage::TypeScript),
        ("js", SourceLanguage::JavaScript),
        ("go", SourceLanguage::Go),
        ("txt", SourceLanguage::Other),
    ] {
        assert_eq!(language(&Some(extension.to_string())), expected, "{extension}");
    }
    assert_eq!(language(&None), SourceLanguage::Other);
}

#[test]
fn the_count_of_lines_does_not_depend_on_the_pieces() {
    let contents = b"one\ntwo\n\nthree".to_vec();
    let mut whole = SourceCounter::new();
    whole.take(&contents);
    let mut pieces = SourceCounter::new();
    for byte in &contents {
        pieces.take(&vec![*byte]);
    }
    assert_eq!(whole.lines(), 4);
    assert_eq!(pieces.lines(), 4);
}

#[test]
fn files_that_cannot_be_opened_are_left_out() {
    let mut run = ScanRun::new(false, &limits());
    run.answer(ScanAnswer::Entry {
        expired: false,
        entry: ScanEntry::File { extension: Some("rs".into()) },
    });
    assert_eq!(run.question(), ScanQuestion::Metadata);
    run.answer(ScanAnswer::Metadata(Some(3)));
    assert_eq!(run.question(), ScanQuestion::Open);
    run.answer(ScanAnswer::Opened(None));
    assert_eq!(run.question(), ScanQuestion::NextEntry);
}

#[test]
fn languages_are_listed_in_the_order_of_their_names() {
    let files: [(&str, &[u8]); 3] = [("a.rs", b"\n"), ("b.go", b"\n\n"), ("c.py", b"\n\n\n")];
    let mut diags = Vec::new();
    let model = scan(&files, false, &limits(), &mut diags).into_model();
    let listed: Vec<(&str, u64)> =
        model.by_language.iter().map(|entry| (entry.language.as_str(), entry.lines)).collect();
    assert_eq!(listed, [("Go", 2), ("Python", 3), ("Rust", 1)]);
    assert_eq!(model.total, 6);
}

#[test]
fn languages_stand_in_order_and_once() {
    let files: [(&str, &[u8]); 5] = [
        ("b.ts", b"1\n"),
        ("a.rs", b"1\n2\n"),
        ("c.go", b"1\n"),
        ("d.rs", b"1\n"),
        ("e.txt", b"1\n"),
    ];
    let mut diags = Vec::new();
    let found = scan(&files, true, &limits(), &mut diags);
    let loc = found.clone().into_model();
    let names: Vec<&str> = loc.by_language.iter().map(|entry| entry.language.as_str()).collect();
    assert_eq!(names, ["Go", "Other", "Rust", "TypeScript"]);
    assert!(loc.by_language.iter().all(|entry| entry.lines == found.count(&entry.language)));
    assert!(loc.totals_reconcile());
    let shown = found.clone().shown(false, Some("Rust"));
    assert_eq!(shown.lines, [("Rust".to_string(), 3)]);
    assert_eq!(found.clone().shown(true, Some("Rust")).lines, found.lines);
    assert!(found.shown(false, None).lines.is_empty());
}
