//! What the collected facts promise of what was read: reports, projects, measurements and
//! the day.
use vstd::prelude::*;
use crate::binary64;
use crate::collect::coverage;
use crate::collect::coverage::ReportView;
use crate::collect::loc::Scan;
use crate::collect::project;
use crate::collect::project::{Evidence, Language, Level, Marked};
use crate::collect::reports;
use crate::collect::reports::{
    AnswerView, CandidateView, LinkCheck, MetadataCheck, SearchView, StageView,
};
use crate::collect::system;
use crate::collect::system::{PlatformSnapshot, RawDisk};
use crate::collect::time;
use crate::model::{DiagnosticSeverity, Freshness, Memory, System};
use crate::strings;

verus! {

/// A report is stale exactly where every source was seen and one of them is newer; what is
/// as old as the newest source is current, and where not every source was seen nothing is
/// known.
pub proof fn law_reports_are_stale_behind_their_sources(
    modified: i128,
    newest: i128,
    truncated: bool,
)
    ensures
        reports::freshness_of(Some(modified), Some(newest), false) == Freshness::Stale
            <==> modified < newest,
        reports::freshness_of(Some(modified), Some(newest), false) == Freshness::Current
            <==> modified >= newest,
        reports::freshness_of(Some(modified), Some(newest), true) == Freshness::Unknown,
        reports::freshness_of(None, Some(newest), truncated) != Freshness::Stale,
        reports::freshness_of(Some(modified), None, truncated) != Freshness::Stale,
        reports::freshness_of(None, None, truncated) == if truncated {
            Freshness::Unknown
        } else {
            Freshness::Current
        },
{
}

/// A time in nanoseconds is told in whole seconds, rounded down, from the epoch on.
pub proof fn law_times_are_told_in_whole_seconds(modified: i128)
    ensures
        modified < 0 ==> reports::seconds_of(Some(modified)) is None,
        0 <= modified < 0x1_0000_0000_0000_0000 * 1_000_000_000 ==> {
            let told = reports::seconds_of(Some(modified));
            &&& told is Some
            &&& told->0.value * 1_000_000_000 <= modified
            &&& modified < (told->0.value + 1) * 1_000_000_000
        },
        reports::seconds_of(None) is None,
{
}

/// What is found is what the report says, of the candidate that was read: its percentages
/// in their places, its format, its path and its time.
pub proof fn law_what_is_found_is_what_was_read(
    search: SearchView,
    contents: Seq<char>,
    modified: Option<i128>,
)
    requires
        search.stage is Contents,
        coverage::report_of(
            search.candidates[search.at as int].name,
            search.candidates[search.at as int].extension,
            contents,
        ) matches Some(ReportView::Parsed(_)),
    ensures
        ({
            let candidate = search.candidates[search.at as int];
            let parsed = coverage::report_of(candidate.name, candidate.extension, contents)->0->0;
            let after = reports::advanced(search, AnswerView::Text { contents, modified });
            &&& after.stage is Done
            &&& after.found is Some
            &&& after.found->0.line_percent == parsed.1
            &&& after.found->0.branch_percent == parsed.2
            &&& after.found->0.function_percent == parsed.3
            &&& after.found->0.format == Some(parsed.0)
            &&& after.found->0.report_path == Some(candidate.relative)
            &&& after.found->0.report_modified == reports::seconds_of(modified)
            &&& after.found->0.source is None
            &&& after.found->0.stale == reports::freshness_of(
                modified,
                search.newest,
                search.truncated,
            )
            &&& after.diagnostics == search.diagnostics
        }),
{
}

/// A candidate that the user asked for is followed through links, and told of where it is
/// missing; one that was only looked for is passed over in silence where it is missing, and
/// told of where it is a link.
pub proof fn law_asked_for_and_looked_for(search: SearchView)
    requires
        search.sound(),
        !(search.stage is Done),
    ensures
        ({
            let candidate = search.candidates[search.at as int];
            let warned = search.diagnostics.len() + 1;
            let missing = reports::advanced(
                search,
                AnswerView::Metadata(MetadataCheck::Missing),
            );
            let link = reports::advanced(search, AnswerView::Link(LinkCheck::Symlink));
            let absent = reports::advanced(search, AnswerView::Link(LinkCheck::Missing));
            let present = reports::advanced(search, AnswerView::Link(LinkCheck::Present));
            &&& search.stage is Metadata && candidate.configured ==> missing.diagnostics.len()
                == warned && missing.diagnostics.last().code == "coverage-configured-missing"@
                && missing.diagnostics.last().subject == Some(candidate.path)
                && missing.diagnostics.last().severity == DiagnosticSeverity::Warning
            &&& search.stage is Metadata && !candidate.configured ==> missing.diagnostics
                == search.diagnostics
            &&& search.stage is Metadata ==> missing.at == search.at + 1 && missing.found
                == search.found
            &&& search.stage is Link ==> link.diagnostics.len() == warned
                && link.diagnostics.last().code == "coverage-auto-symlink"@ && link.at == search.at
                + 1
            &&& search.stage is Link ==> absent.diagnostics == search.diagnostics && absent.at
                == search.at + 1
            &&& search.stage is Link ==> present.at == search.at && present.stage is Identity
        }),
{
}

/// A report that is larger than one may be, is no file, cannot be read or makes no sense is
/// passed over with a warning of its own, and the search goes on behind it.
#[verifier::spinoff_prover]
pub proof fn law_reports_that_are_passed_over(
    search: SearchView,
    bytes: u64,
    contents: Seq<char>,
    modified: Option<i128>,
)
    requires
        search.sound(),
        !(search.stage is Done),
    ensures
        ({
            let candidate = search.candidates[search.at as int];
            let sized = reports::advanced(
                search,
                AnswerView::Metadata(MetadataCheck::File { bytes }),
            );
            let read = reports::advanced(search, AnswerView::Text { contents, modified });
            &&& search.stage is Metadata && bytes > search.max_bytes ==> told_of(
                search,
                sized,
                "coverage-too-large"@,
            )
            &&& search.stage is Metadata && bytes <= search.max_bytes ==> sized.stage is Contents
                && sized.diagnostics == search.diagnostics && sized.at == search.at
            &&& search.stage is Metadata ==> told_of(
                search,
                reports::advanced(search, AnswerView::Metadata(MetadataCheck::NotFile)),
                "coverage-not-regular-file"@,
            )
            &&& search.stage is Contents ==> told_of(
                search,
                reports::advanced(search, AnswerView::TooLarge),
                "coverage-too-large"@,
            ) && told_of(
                search,
                reports::advanced(search, AnswerView::NotRegular),
                "coverage-not-regular-file"@,
            ) && told_of(
                search,
                reports::advanced(search, AnswerView::Unreadable),
                "coverage-read-failed"@,
            )
            &&& search.stage is Contents && coverage::report_of(
                candidate.name,
                candidate.extension,
                contents,
            ) is None ==> told_of(search, read, "coverage-malformed"@)
        }),
{
    lemma_told_of(search, "coverage-too-large"@);
    lemma_told_of(search, "coverage-not-regular-file"@);
    lemma_told_of(search, "coverage-read-failed"@);
    lemma_told_of(search, "coverage-malformed"@);
}

proof fn lemma_told_of(search: SearchView, code: Seq<char>)
    ensures
        told_of(search, reports::rejected(search, code), code),
{
    reveal(told_of);
    let after = reports::rejected(search, code);
    assert(after.diagnostics.drop_last() =~= search.diagnostics);
}

/// One candidate was passed over with a warning, and nothing else happened.
#[verifier::opaque]
pub open spec fn told_of(before: SearchView, after: SearchView, code: Seq<char>) -> bool {
    &&& after.at == before.at + 1
    &&& after.found == before.found
    &&& after.seen == before.seen
    &&& after.diagnostics.len() == before.diagnostics.len() + 1
    &&& after.diagnostics.drop_last() == before.diagnostics
    &&& after.diagnostics.last().code == code
    &&& after.diagnostics.last().severity == DiagnosticSeverity::Warning
    &&& after.diagnostics.last().subject == Some(before.candidates[before.at as int].path)
}

/// The first question of a candidate is whether it is a link, unless the user asked for it.
pub proof fn law_links_are_looked_for_first(candidates: Seq<CandidateView>, at: nat)
    ensures
        at >= candidates.len() ==> reports::first_stage(candidates, at) is Done,
        at < candidates.len() && candidates[at as int].configured ==> reports::first_stage(
            candidates,
            at,
        ) is Identity,
        at < candidates.len() && !candidates[at as int].configured ==> reports::first_stage(
            candidates,
            at,
        ) is Link,
{
}

/// The distance of a marker is that of the nearest directory that holds it: the directory
/// holds it, and none that is nearer does.
pub proof fn law_the_nearest_marker_counts(levels: Seq<Level>, what: Marked)
    ensures
        ({
            let found = project::distance(levels, what);
            &&& found is Some ==> found->0 < levels.len() && project::level_marked(
                levels[found->0 as int],
                what,
            )
            &&& forall|i: int|
                0 <= i < levels.len() && (found is None || i < found->0)
                    ==> !project::level_marked(#[trigger] levels[i], what)
        }),
{
    lemma_distance(levels, what, 0);
}

proof fn lemma_distance(levels: Seq<Level>, what: Marked, from: nat)
    requires
        from <= levels.len(),
    ensures
        ({
            let found = project::distance_from(levels, what, from);
            &&& found is Some ==> from <= found->0 < levels.len() && project::level_marked(
                levels[found->0 as int],
                what,
            )
            &&& forall|i: int|
                from <= i < levels.len() && (found is None || i < found->0)
                    ==> !project::level_marked(#[trigger] levels[i], what)
        }),
    decreases levels.len() - from,
{
    if from < levels.len() && !project::level_marked(levels[from as int], what) {
        lemma_distance(levels, what, from + 1);
    }
}

/// A list of requirements marks Python, whatever stands between its two ends.
pub proof fn law_requirements_mark_python(middle: Seq<char>)
    ensures
        project::marks("requirements"@ + middle + ".txt"@, Language::Python),
{
    let name = "requirements"@ + middle + ".txt"@;
    assert(name.subrange(0, "requirements"@.len() as int) =~= "requirements"@);
    assert(name.subrange(name.len() - ".txt"@.len(), name.len() as int) =~= ".txt"@);
}

/// A distance that is farther than another, or none.
pub open spec fn farther(distance: Option<nat>, than: nat) -> bool {
    distance is None || distance->0 > than
}

proof fn lemma_languages()
    ensures
        project::languages().len() == 5,
        project::languages()[0] == Language::Rust,
        project::languages()[1] == Language::Python,
        project::languages()[2] == Language::TypeScript,
        project::languages()[3] == Language::JavaScript,
        project::languages()[4] == Language::Go,
{
}

proof fn lemma_present(evidence: Evidence, languages: Seq<Language>, language: Language)
    ensures
        project::present_of(evidence, languages).contains(language) <==> languages.contains(
            language,
        ) && evidence.present(language),
    decreases languages.len(),
{
    let found = project::present_of(evidence, languages);
    if languages.len() > 0 {
        let front = languages.drop_last();
        let before = project::present_of(evidence, front);
        lemma_present(evidence, front, language);
        let last = languages[languages.len() - 1];
        if before.contains(language) {
            let i = choose|i: int| 0 <= i < before.len() && before[i] == language;
            assert(found[i] == language);
        }
        if front.contains(language) {
            let i = choose|i: int| 0 <= i < front.len() && front[i] == language;
            assert(languages[i] == language);
        }
        if last == language && evidence.present(language) {
            assert(found[found.len() - 1] == language);
        }
        if found.contains(language) && !before.contains(language) {
            assert(last == language);
        }
        if languages.contains(language) && !front.contains(language) {
            let i = choose|i: int| 0 <= i < languages.len() && languages[i] == language;
            if i < front.len() {
                assert(front[i] == language);
            }
        }
    }
}

/// A language is found exactly where a marker or a line of it is. A package is of
/// TypeScript where it says so or has more lines of it than of JavaScript, and else of
/// JavaScript.
pub proof fn law_languages_that_are_found(levels: Seq<Level>, scan: Scan)
    ensures
        ({
            let facts = project::evidence(levels, scan);
            let found = project::present_of(facts, project::languages());
            let typed = (facts.lines)(Language::TypeScript) > (facts.lines)(Language::JavaScript);
            &&& found.contains(Language::Rust) <==> facts.rust is Some || (facts.lines)(
                Language::Rust,
            ) > 0
            &&& found.contains(Language::Python) <==> facts.python is Some || (facts.lines)(
                Language::Python,
            ) > 0
            &&& found.contains(Language::Go) <==> facts.go is Some || (facts.lines)(Language::Go)
                > 0
            &&& found.contains(Language::TypeScript) <==> facts.tsconfig is Some || (
            facts.javascript is Some && typed) || (facts.lines)(Language::TypeScript) > 0
            &&& found.contains(Language::JavaScript) <==> (facts.javascript is Some
                && facts.tsconfig is None && !typed) || (facts.lines)(Language::JavaScript) > 0
        }),
{
    let facts = project::evidence(levels, scan);
    let all = project::languages();
    lemma_languages();
    assert(all[0] == Language::Rust && all[1] == Language::Python && all[2] == Language::TypeScript
        && all[3] == Language::JavaScript && all[4] == Language::Go);
    lemma_present(facts, all, Language::Rust);
    lemma_present(facts, all, Language::Python);
    lemma_present(facts, all, Language::TypeScript);
    lemma_present(facts, all, Language::JavaScript);
    lemma_present(facts, all, Language::Go);
}

proof fn lemma_primary(levels: Seq<Level>, scan: Scan, language: Language)
    requires
        ({
            let facts = project::evidence(levels, scan);
            &&& facts.present(language)
            &&& forall|other: Language|
                other != language ==> #[trigger] facts.goes_before(language, other)
        }),
    ensures
        ({
            let facts = project::evidence(levels, scan);
            project::first_of(facts, project::present_of(facts, project::languages())) == Some(
                language,
            )
        }),
{
    let facts = project::evidence(levels, scan);
    let all = project::languages();
    let found = project::present_of(facts, all);
    lemma_languages();
    assert(all[0] == Language::Rust && all[1] == Language::Python && all[2] == Language::TypeScript
        && all[3] == Language::JavaScript && all[4] == Language::Go);
    assert(all.contains(language));
    lemma_present(facts, all, language);
    project::law_primary_language_goes_first(levels, scan);
    let primary = project::first_of(facts, found)->0;
    let i = choose|i: int| 0 <= i < found.len() && found[i] == language;
    assert(!facts.goes_before(found[i], primary));
    assert(primary == language);
}

/// The language whose marker is nearer than any other is the primary one, however many
/// lines of others there are.
pub proof fn law_the_nearest_marker_makes_the_primary_language(
    levels: Seq<Level>,
    scan: Scan,
    near: nat,
)
    requires
        near < usize::MAX,
    ensures
        ({
            let facts = project::evidence(levels, scan);
            let primary = project::first_of(
                facts,
                project::present_of(facts, project::languages()),
            );
            &&& facts.rust == Some(near) && farther(facts.python, near) && farther(
                facts.tsconfig,
                near,
            ) && farther(facts.javascript, near) && farther(facts.go, near) ==> primary == Some(
                Language::Rust,
            )
            &&& facts.python == Some(near) && farther(facts.rust, near) && farther(
                facts.tsconfig,
                near,
            ) && farther(facts.javascript, near) && farther(facts.go, near) ==> primary == Some(
                Language::Python,
            )
            &&& facts.go == Some(near) && farther(facts.rust, near) && farther(facts.python, near)
                && farther(facts.tsconfig, near) && farther(facts.javascript, near) ==> primary
                == Some(Language::Go)
            &&& facts.tsconfig == Some(near) && farther(facts.rust, near) && farther(
                facts.python,
                near,
            ) && farther(facts.go, near) ==> primary == Some(Language::TypeScript)
            &&& facts.javascript == Some(near) && facts.tsconfig is None && (facts.lines)(
                Language::TypeScript,
            ) <= (facts.lines)(Language::JavaScript) && farther(facts.rust, near) && farther(
                facts.python,
                near,
            ) && farther(facts.go, near) ==> primary == Some(Language::JavaScript)
        }),
{
    let facts = project::evidence(levels, scan);
    if facts.rust == Some(near) && farther(facts.python, near) && farther(facts.tsconfig, near)
        && farther(facts.javascript, near) && farther(facts.go, near) {
        lemma_primary(levels, scan, Language::Rust);
    }
    if facts.python == Some(near) && farther(facts.rust, near) && farther(facts.tsconfig, near)
        && farther(facts.javascript, near) && farther(facts.go, near) {
        lemma_primary(levels, scan, Language::Python);
    }
    if facts.go == Some(near) && farther(facts.rust, near) && farther(facts.python, near)
        && farther(facts.tsconfig, near) && farther(facts.javascript, near) {
        lemma_primary(levels, scan, Language::Go);
    }
    if facts.tsconfig == Some(near) && farther(facts.rust, near) && farther(facts.python, near)
        && farther(facts.go, near) {
        lemma_primary(levels, scan, Language::TypeScript);
    }
    if facts.javascript == Some(near) && facts.tsconfig is None && (facts.lines)(
        Language::TypeScript,
    ) <= (facts.lines)(Language::JavaScript) && farther(facts.rust, near) && farther(
        facts.python,
        near,
    ) && farther(facts.go, near) {
        lemma_primary(levels, scan, Language::JavaScript);
    }
}

/// Without a marker the language with the most lines is the primary one.
pub proof fn law_without_markers_most_lines_decide(
    levels: Seq<Level>,
    scan: Scan,
    language: Language,
)
    requires
        ({
            let facts = project::evidence(levels, scan);
            &&& facts.rust is None && facts.python is None && facts.tsconfig is None
            &&& facts.javascript is None && facts.go is None
            &&& forall|other: Language|
                other != language ==> #[trigger] (facts.lines)(other) < (facts.lines)(language)
        }),
    ensures
        ({
            let facts = project::evidence(levels, scan);
            project::first_of(facts, project::present_of(facts, project::languages())) == Some(
                language,
            )
        }),
{
    let facts = project::evidence(levels, scan);
    let other = if language == Language::Rust {
        Language::Go
    } else {
        Language::Rust
    };
    assert((facts.lines)(other) < (facts.lines)(language));
    assert forall|other: Language| other != language implies #[trigger] facts.goes_before(
        language,
        other,
    ) by {
        assert((facts.lines)(other) < (facts.lines)(language));
    }
    lemma_primary(levels, scan, language);
}

/// The lines of a language that tell of a project are those that were counted under its
/// name.
pub proof fn law_lines_tell_by_the_name_of_the_language(levels: Seq<Level>, scan: Scan)
    ensures
        ({
            let facts = project::evidence(levels, scan);
            &&& (facts.lines)(Language::Rust) == crate::collect::loc::lines_of(
                scan.lines@,
                "Rust"@,
            )
            &&& (facts.lines)(Language::Python) == crate::collect::loc::lines_of(
                scan.lines@,
                "Python"@,
            )
            &&& (facts.lines)(Language::TypeScript) == crate::collect::loc::lines_of(
                scan.lines@,
                "TypeScript"@,
            )
            &&& (facts.lines)(Language::JavaScript) == crate::collect::loc::lines_of(
                scan.lines@,
                "JavaScript"@,
            )
            &&& (facts.lines)(Language::Go) == crate::collect::loc::lines_of(scan.lines@, "Go"@)
        }),
{
}

/// A disk that can be as it is reported is kept, in its place, with what is not available
/// of it as used; any other is left out with a warning.
pub proof fn law_disks_are_kept_as_reported(disks: Seq<RawDisk>, disk: RawDisk)
    ensures
        ({
            let before = system::known_disks(disks);
            let after = system::known_disks(disks.push(disk));
            let warned = system::disk_warnings(disks.push(disk)).len();
            let sound = disk.mount@.len() > 0 && disk.total_bytes > 0 && disk.available_bytes
                <= disk.total_bytes;
            &&& sound ==> after.len() == before.len() + 1 && after.drop_last() == before
                && after.last().mount == disk.mount@ && after.last().total_bytes == disk.total_bytes
                && after.last().used_bytes + disk.available_bytes == disk.total_bytes && warned
                == system::disk_warnings(disks).len()
            &&& !sound ==> after == before && warned == system::disk_warnings(disks).len() + 1
        }),
{
    assert(disks.push(disk).drop_last() =~= disks);
    let before = system::known_disks(disks);
    let after = system::known_disks(disks.push(disk));
    if after.len() == before.len() + 1 {
        assert(after.drop_last() =~= before);
    }
}

/// What is reported is told as it is reported: the system by its name, the load of the CPU
/// where it is a percentage, the memory where no more of it is used than there is, the
/// uptime.
pub proof fn law_reported_facts_are_told(raw: PlatformSnapshot, system: System)
    requires
        system::normalized(raw, system),
    ensures
        raw.os_name is Some ==> system.os is Some && system.os->0.name == raw.os_name->0
            && system.os->0.version == raw.os_version && system.os->0.architecture
            == raw.architecture,
        raw.os_name is None ==> system.os is None,
        raw.cpu_label is Some ==> system.cpu is Some && system.cpu->0.label == raw.cpu_label,
        raw.cpu_utilization_percent is Some && raw.cpu_utilization_percent->0.finite()
            && raw.cpu_utilization_percent->0.within(100) ==> system.cpu is Some
            && system.cpu->0.utilization_percent == raw.cpu_utilization_percent,
        raw.cpu_utilization_percent is Some && !(raw.cpu_utilization_percent->0.finite()
            && raw.cpu_utilization_percent->0.within(100)) && system.cpu is Some
            ==> system.cpu->0.utilization_percent is None,
        raw.cpu_frequency_mhz is Some && raw.cpu_frequency_mhz->0 > 0 ==> system.cpu is Some
            && system.cpu->0.frequency_mhz == raw.cpu_frequency_mhz,
        raw.cpu_frequency_mhz == Some(0u64) ==> system.cpu->0.frequency_mhz is None,
        raw.memory is Some && (raw.memory->0).1 > 0 && (raw.memory->0).0 <= (raw.memory->0).1
            ==> system.memory == Some(
            Memory { used_bytes: (raw.memory->0).0, total_bytes: (raw.memory->0).1 },
        ),
        raw.memory is Some && (raw.memory->0).0 > (raw.memory->0).1 ==> system.memory is None,
        raw.uptime_seconds is Some ==> system.uptime is Some && system.uptime->0.value
            == raw.uptime_seconds->0,
        raw.uptime_seconds is None ==> system.uptime is None,
{
}

/// A warning is given for each kind of measurement that cannot be, and for none that can.
pub proof fn law_implausible_measurements_are_told(raw: PlatformSnapshot)
    ensures
        system::warnings_of(raw).len() == system::disk_warnings(raw.disks@).len() + (if raw.memory
            is Some && ((raw.memory->0).1 == 0 || (raw.memory->0).0 > (raw.memory->0).1) {
            1int
        } else {
            0
        }) + (if raw.cpu_utilization_percent is Some && !(raw.cpu_utilization_percent->0.finite()
            && raw.cpu_utilization_percent->0.within(100)) {
            1int
        } else {
            0
        }),
{
}

/// The progress of the day is told from its beginning to its end, both of them taken in,
/// and at no other time; when the whole day is moved nothing changes.
pub proof fn law_the_day_is_told_from_beginning_to_end(
    now: i64,
    start: i64,
    end: i64,
    later_now: i64,
    later_start: i64,
    later_end: i64,
)
    requires
        end - start <= i64::MAX,
        later_now - now == later_start - start,
        later_end - end == later_start - start,
    ensures
        time::progress(now, start, end) is Some <==> start < end && start <= now <= end,
        time::progress(now, start, end) == time::progress(later_now, later_start, later_end),
        time::progress(now, start, end) is Some ==> time::progress(now, start, end)->0
            == binary64::percentage((now - start) as nat, (end - start) as nat),
{
}

/// The names of the files that mark a project of each language, and of Bun; no others do.
pub proof fn law_files_that_mark_a_project(name: Seq<char>)
    ensures
        project::marked(name, Marked::Language(Language::Rust)) <==> name == "Cargo.toml"@,
        project::marked(name, Marked::Language(Language::Go)) <==> name == "go.mod"@,
        project::marked(name, Marked::Language(Language::TypeScript)) <==> name
            == "tsconfig.json"@,
        project::marked(name, Marked::Language(Language::JavaScript)) <==> name == "package.json"@
            || name == "package-lock.json"@ || name == "yarn.lock"@ || name == "pnpm-lock.yaml"@,
        project::marked(name, Marked::Bun) <==> name == "bun.lock"@ || name == "bun.lockb"@ || name
            == "bunfig.toml"@,
        name == "pyproject.toml"@ || name == "uv.lock"@ || name == "Pipfile"@ ==> project::marked(
            name,
            Marked::Language(Language::Python),
        ),
        project::marked(name, Marked::Language(Language::Python)) ==> name == "pyproject.toml"@
            || name == "uv.lock"@ || name == "Pipfile"@ || (strings::begins_with(
            name,
            "requirements"@,
        ) && strings::finishes_with(name, ".txt"@)),
{
}

/// A candidate that is passed over is told of by its path, in a warning.
pub proof fn law_candidates_passed_over_are_named(code: Seq<char>, path: Seq<char>)
    ensures
        ({
            let item = reports::skipped(code, path);
            &&& item.severity == DiagnosticSeverity::Warning
            &&& item.code == code
            &&& item.message == "coverage candidate was skipped"@
            &&& item.subject == Some(path)
        }),
{
}

/// Of two languages whose markers are as near, and that have as many lines, neither goes
/// before the other; a nearer marker goes first, and at one distance more lines do.
pub proof fn law_languages_go_before_others(evidence: Evidence, first: Language, second: Language)
    ensures
        !(evidence.goes_before(first, second) && evidence.goes_before(second, first)),
        evidence.marker(first) == evidence.marker(second) ==> (evidence.goes_before(first, second)
            <==> (evidence.lines)(first) > (evidence.lines)(second)),
        evidence.marker(first) is Some && evidence.marker(second) is Some
            && evidence.marker(first)->0 < evidence.marker(second)->0 ==> evidence.goes_before(
            first,
            second,
        ),
{
}

} // verus!
