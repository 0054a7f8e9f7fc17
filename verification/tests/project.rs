use hoshino::collect::loc::Scan;
use hoshino::collect::project::{
    detect, fixed_markers, is_marker, manifest_distance, Language, Level, Marked,
};

fn scan(lines: &[(&str, u64)]) -> Scan {
    let mut sorted: Vec<(String, u64)> =
        lines.iter().map(|(name, count)| (name.to_string(), *count)).collect();
    sorted.sort();
    Scan {
        lines: sorted,
        truncated: false,
        newest_source: None,
    }
}

fn level(files: &[&str]) -> Level {
    Level { files: files.iter().map(|name| name.to_string()).collect() }
}

#[test]
fn nearest_marker_wins_before_loc() {
    let levels = vec![level(&["pyproject.toml"]), level(&["Cargo.toml"])];
    assert_eq!(
        detect(&levels, &scan(&[("Rust", 100), ("Python", 1)])).primary,
        Some(Language::Python)
    );
}

#[test]
fn python_markers_include_uv_pipfile_and_requirements() {
    for marker in ["uv.lock", "Pipfile", "requirements-dev.txt"] {
        assert_eq!(
            detect(&vec![level(&[marker])], &scan(&[])).primary,
            Some(Language::Python)
        );
    }
}

#[test]
fn bare_package_is_js_unless_typescript_evidence_wins() {
    let levels = vec![level(&["package.json"])];
    assert_eq!(
        detect(&levels, &scan(&[])).primary,
        Some(Language::JavaScript)
    );
    assert_eq!(
        detect(&levels, &scan(&[("TypeScript", 3), ("JavaScript", 2)])).primary,
        Some(Language::TypeScript)
    );
    let levels = vec![level(&["package.json", "tsconfig.json"])];
    assert_eq!(
        detect(&levels, &scan(&[])).primary,
        Some(Language::TypeScript)
    );
}

#[test]
fn polyglot_ties_follow_fixed_language_order_and_bun_is_not_a_language() {
    let levels = vec![level(&[
        "Cargo.toml",
        "pyproject.toml",
        "tsconfig.json",
        "package.json",
        "go.mod",
        "bunfig.toml",
    ])];
    let detection = detect(
        &levels,
        &scan(&[
            ("Rust", 10),
            ("Python", 10),
            ("TypeScript", 10),
            ("JavaScript", 10),
            ("Go", 10),
        ]),
    );
    assert_eq!(detection.primary, Some(Language::Rust));
    assert_eq!(
        detection.detected,
        vec![
            Language::Rust,
            Language::Python,
            Language::TypeScript,
            Language::JavaScript,
            Language::Go
        ]
    );
    assert!(detection.bun);
}

#[test]
fn more_lines_win_at_the_same_distance() {
    let levels = vec![level(&["Cargo.toml", "go.mod"])];
    let detection = detect(&levels, &scan(&[("Rust", 1), ("Go", 2)]));
    assert_eq!(detection.primary, Some(Language::Go));
    assert_eq!(detection.detected, [Language::Rust, Language::Go]);
}

#[test]
fn a_project_without_markers_is_known_by_its_lines() {
    let detection = detect(&vec![level(&[])], &scan(&[("Go", 2)]));
    assert_eq!(detection.primary, Some(Language::Go));
    let nothing = detect(&vec![level(&["README.md"])], &scan(&[]));
    assert_eq!(nothing.primary, None);
    assert!(nothing.detected.is_empty());
}

#[test]
fn markers_are_found_at_their_distance() {
    let levels = vec![level(&[]), level(&["notes.txt"]), level(&["go.mod"])];
    assert_eq!(manifest_distance(&levels, Marked::Language(Language::Go)), Some(2));
    assert_eq!(manifest_distance(&levels, Marked::Bun), None);
    assert!(is_marker("bun.lockb", Marked::Bun));
    assert!(fixed_markers().contains(&"Cargo.toml"));
    assert_eq!(Language::TypeScript.name(), "TypeScript");
}
