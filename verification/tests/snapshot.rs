use hoshino::binary64::Binary64;
use hoshino::collect::facts::{inside, outside, snapshot};
use hoshino::collect::loc::Scan;
use hoshino::collect::project::{Detection, Language};
use hoshino::collect::system::unsupported;
use hoshino::collect::time::{from_input, TimeInput};
use hoshino::model::{
    CountUnit, Git, GitHead, LanguageLoc, Loc, Snapshot, SnapshotMode, SCHEMA_VERSION,
};
use hoshino::render::json::JsonOptions;
use hoshino::render::values::{format_bytes, format_percent};

fn clean() -> Git {
    Git {
        head: GitHead::Unborn,
        dirty: false,
        staged: 0,
        unstaged: 0,
        conflicts: 0,
        ahead: None,
        upstream: None,
    }
}

fn now() -> TimeInput {
    TimeInput {
        local: Some("12:00:00".into()),
        date: None,
        timezone_name: None,
        timezone_offset_seconds: None,
        instant_seconds: None,
        day_start_seconds: None,
        next_day_start_seconds: None,
    }
}

#[test]
fn snapshot_outside_git_keeps_system_and_time_but_omits_project_data() {
    let facts = outside("/tmp/somewhere".into(), vec![]);
    let snapshot = snapshot(SnapshotMode::OneShot, facts, unsupported(), from_input(now()));
    assert!(snapshot.git.is_none());
    assert!(snapshot.project.is_none());
    assert!(snapshot.context.directory.is_some());
    assert_eq!(snapshot.time.local.as_deref(), Some("12:00:00"));
    assert_eq!(snapshot.diagnostics.len(), 1);
    assert_eq!(snapshot.schema_version, SCHEMA_VERSION);
}

#[test]
fn hook_snapshot_keeps_project_data_inside_a_worktree() {
    let scan = Scan { lines: vec![("Rust".into(), 1)], truncated: false, newest_source: None };
    let detection =
        Detection { primary: Some(Language::Rust), detected: vec![Language::Rust], bun: false };
    let facts = inside(
        "/work".into(),
        "/work/src".into(),
        clean(),
        scan,
        false,
        &detection,
        vec![],
        None,
        vec![],
    );
    let snapshot = snapshot(SnapshotMode::Hook, facts, unsupported(), from_input(now()));
    assert_eq!(snapshot.mode, SnapshotMode::Hook);
    assert!(snapshot.git.is_some());
    let project = snapshot.project.unwrap();
    assert_eq!(project.primary_language.as_deref(), Some("Rust"));
    assert_eq!(project.loc.unwrap().total, 1);
    assert_eq!(snapshot.context.worktree.as_deref(), Some("/work"));
}

#[test]
fn an_empty_snapshot_is_versioned_and_knows_nothing() {
    let empty = Snapshot::empty(SnapshotMode::Live);
    assert_eq!(empty.schema_version, 1);
    assert_eq!(empty.mode, SnapshotMode::Live);
    assert!(empty.system.cpu.is_none() && empty.time.local.is_none());
    assert!(!JsonOptions::default().pretty);
}

#[test]
fn totals_are_the_sums_of_their_languages() {
    let part = |language: &str, lines: u64| LanguageLoc {
        language: language.into(),
        lines,
        unit: CountUnit::Lines,
    };
    let mut loc = Loc {
        total: 3,
        unit: CountUnit::Lines,
        truncated: false,
        by_language: vec![part("Rust", 1), part("Go", 2)],
    };
    assert!(loc.totals_reconcile());
    loc.total = 4;
    assert!(!loc.totals_reconcile());
}

#[test]
fn numbers_are_shown_as_floats_show_them() {
    for value in [0.0, 0.05, 0.25, 12.5, 33.333, 49.95, 52.44999, 99.95, 100.0, 0.15, 2.675] {
        let number = Binary64 { bits: f64::to_bits(value) };
        assert_eq!(number.one_decimal(), format!("{value:.1}"), "{value}");
        assert!(format_percent(number).contains(&format!("{value:.1}")));
        if value <= 1.0 {
            assert_eq!(number.times_hundred().bits, (value * 100.0).to_bits());
        }
        for bound in [0_u64, 50, 80, 100] {
            assert_eq!(number.at_least(bound), value >= bound as f64);
            assert_eq!(number.is_within(bound), (0.0..=bound as f64).contains(&value));
        }
    }
    assert!(!Binary64 { bits: f64::NAN.to_bits() }.is_finite());
    assert_eq!(format_bytes(0), "0 B");
}

#[test]
fn normal_mode_counts_the_primary_language_and_full_mode_all() {
    let scan = Scan {
        lines: vec![("Other".into(), 7), ("Python".into(), 1), ("Rust".into(), 2)],
        truncated: true,
        newest_source: None,
    };
    let detected = vec![Language::Rust, Language::Python];
    let loc = |full: bool, primary: Option<Language>| {
        let detection = Detection { primary, detected: detected.clone(), bun: false };
        let facts = inside(
            "/work".into(),
            "/work".into(),
            clean(),
            scan.clone(),
            full,
            &detection,
            vec![],
            None,
            vec![],
        );
        facts.project.unwrap().loc.unwrap()
    };
    let entries = |loc: &Loc| -> Vec<(String, u64)> {
        loc.by_language.iter().map(|entry| (entry.language.clone(), entry.lines)).collect()
    };
    let normal = loc(false, Some(Language::Rust));
    assert_eq!(entries(&normal), [("Rust".to_string(), 2)]);
    assert_eq!(normal.total, 2);
    assert!(normal.truncated && normal.totals_reconcile());
    let absent = loc(false, Some(Language::Go));
    assert!(absent.by_language.is_empty());
    assert_eq!(absent.total, 0);
    assert_eq!(loc(false, None).total, 0);
    let full = loc(true, Some(Language::Rust));
    assert_eq!(
        entries(&full),
        [("Other".to_string(), 7), ("Python".to_string(), 1), ("Rust".to_string(), 2)]
    );
    assert_eq!(full.total, 10);
}
