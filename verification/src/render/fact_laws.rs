//! What the rows of a card promise of the facts of a snapshot: which of them they tell, in
//! which words, and which of them leave a row as it is.
use vstd::prelude::*;
use crate::binary64;
use crate::binary64::Binary64;
use crate::model::{
    Coverage, Diagnostic, DiagnosticSeverity, Freshness, Git, LanguageLoc, Loc, Project, Snapshot,
};
use crate::render::text;
use crate::render::text::{FlexView, SpanView};
use crate::render::theme::Role;
use crate::render::values;
use crate::strings;

verus! {

proof fn lemma_spans_push(spans: Seq<SpanView>, last: SpanView)
    ensures
        text::spans_text(spans.push(last)) == text::spans_text(spans) + last.text,
        text::spans_text(Seq::empty()) == Seq::<char>::empty(),
{
    assert(spans.push(last).drop_last() =~= spans);
}

proof fn lemma_sanitized_sum(first: Seq<char>, second: Seq<char>)
    ensures
        strings::sanitized(first + second) == strings::sanitized(first) + strings::sanitized(
            second,
        ),
{
    assert(strings::sanitized(first + second) =~= strings::sanitized(first) + strings::sanitized(
        second,
    ));
}

proof fn lemma_two_spans(first: SpanView, second: SpanView)
    ensures
        text::spans_text(seq![first].push(second)) == first.text + second.text,
{
    assert(seq![first] =~= Seq::<SpanView>::empty().push(first));
    lemma_spans_push(Seq::empty(), first);
    lemma_spans_push(seq![first], second);
    assert(Seq::<char>::empty() + first.text =~= first.text);
}

/// A row of a label and a value says both, one behind the other, with no control character.
pub proof fn law_labels_stand_before_their_values(label: Seq<char>, value: Seq<char>, role: Role)
    ensures
        text::labelled_of(label, value, role).text == strings::sanitized(label + ": "@ + value),
        text::labelled_of(label, value, role).role == role,
{
    let first = text::solid(label + ": "@, Role::Secondary);
    let second = text::solid(value, role);
    lemma_two_spans(first, second);
    lemma_sanitized_sum(label + ": "@, value);
}

/// A row of a gutter and a value says the label, spaces up to the width, and the value.
pub proof fn law_gutters_stand_before_their_values(
    label: Seq<char>,
    width: nat,
    value: Seq<char>,
    role: Role,
)
    ensures
        text::guttered(label, width, value, role).text == strings::sanitized(
            strings::padded_right(label, width) + value,
        ),
        text::guttered(label, width, value, role).role == role,
{
    let first = text::gutter_of(label, width);
    let second = text::solid(value, role);
    lemma_two_spans(first, second);
    lemma_sanitized_sum(strings::padded_right(label, width), value);
}

/// What the summary says of lines of code.
pub open spec fn lines_words(loc: Loc) -> Seq<char> {
    if loc.truncated {
        strings::decimal_text(loc.total as nat) + " LOC"@ + " · partial"@
    } else {
        strings::decimal_text(loc.total as nat) + " LOC"@ + ""@
    }
}

/// What the summary says of coverage: the line percentage, and whether it is to be trusted.
pub open spec fn coverage_words(percent: Binary64, stale: Freshness) -> Seq<char> {
    match stale {
        Freshness::Current => "coverage "@ + values::percent_text(percent) + ""@,
        Freshness::Stale => "coverage "@ + values::percent_text(percent) + " · stale"@,
        Freshness::Unknown => "coverage "@ + values::percent_text(percent)
            + " · freshness unknown"@,
    }
}

/// The summary of the normal card tells the lines of code and the line coverage, and
/// nothing else: where a project has a finite line percentage, its one row says that
/// percentage, and where it has none it says none.
pub proof fn law_the_summary_tells_lines_and_line_coverage(snapshot: Snapshot)
    ensures
        ({
            let rows = text::summary_rows(snapshot);
            let project = snapshot.project->0;
            let loc = project.loc;
            let covered = snapshot.project is Some && project.coverage is Some
                && project.coverage->0.line_percent is Some
                && project.coverage->0.line_percent->0.finite();
            let counted = snapshot.project is Some && loc is Some;
            let words = coverage_words(
                project.coverage->0.line_percent->0,
                project.coverage->0.stale,
            );
            &&& !covered && !counted ==> rows.len() == 0
            &&& covered || counted ==> rows.len() == 1
            &&& covered && !counted ==> rows[0].text == strings::sanitized(
                "project"@ + ": "@ + words,
            )
            &&& !covered && counted ==> rows[0].text == strings::sanitized(
                "project"@ + ": "@ + lines_words(loc->0),
            )
            &&& covered && counted ==> rows[0].text == strings::sanitized(
                "project"@ + ": "@ + (lines_words(loc->0) + " · "@ + words),
            )
        }),
{
    if snapshot.project is Some {
        let project = snapshot.project->0;
        let parts = text::summary_parts(project);
        let value = strings::joined(parts, " · "@);
        let role = match project.coverage {
            Some(coverage) => values::coverage_role_of(coverage.stale),
            None => Role::Secondary,
        };
        law_labels_stand_before_their_values("project"@, value, role);
        reveal_with_fuel(strings::joined, 3);
    }
}

/// The same text with the line percentage in it, as far as it occurs.
pub proof fn law_the_line_percentage_occurs_in_the_summary(snapshot: Snapshot)
    requires
        snapshot.project is Some,
        snapshot.project->0.coverage is Some,
        snapshot.project->0.coverage->0.line_percent is Some,
        snapshot.project->0.coverage->0.line_percent->0.finite(),
    ensures
        text::summary_rows(snapshot).len() == 1,
        strings::occurs(
            text::summary_rows(snapshot)[0].text,
            strings::sanitized(
                "coverage "@ + values::percent_text(
                    snapshot.project->0.coverage->0.line_percent->0,
                ),
            ),
        ),
{
    law_the_summary_tells_lines_and_line_coverage(snapshot);
    let project = snapshot.project->0;
    let told = "coverage "@ + values::percent_text(project.coverage->0.line_percent->0);
    let mark = match project.coverage->0.stale {
        Freshness::Current => ""@,
        Freshness::Stale => " · stale"@,
        Freshness::Unknown => " · freshness unknown"@,
    };
    let before = if project.loc is Some {
        "project"@ + ": "@ + lines_words(project.loc->0) + " · "@
    } else {
        "project"@ + ": "@
    };
    let row = text::summary_rows(snapshot)[0].text;
    if project.loc is Some {
        assert("project"@ + ": "@ + (lines_words(project.loc->0) + " · "@ + (told + mark))
            =~= before + told + mark);
    } else {
        assert("project"@ + ": "@ + (told + mark) =~= before + told + mark);
    }
    lemma_sanitized_sum(before + told, mark);
    lemma_sanitized_sum(before, told);
    assert(row.subrange(before.len() as int, (before.len() + told.len()) as int)
        =~= strings::sanitized(told));
    assert(strings::occurs_at(row, strings::sanitized(told), before.len() as int));
}

/// No other metric changes the summary, nor anything else of the normal card: two projects
/// that differ in the percentage of the branches or of the functions, or in where the
/// report comes from, have the same.
pub proof fn law_other_metrics_leave_the_normal_card(
    snapshot: Snapshot,
    project: Project,
    coverage: Coverage,
    other: Coverage,
)
    requires
        other.line_percent == coverage.line_percent,
        other.stale == coverage.stale,
    ensures
        ({
            let one = Snapshot {
                project: Some(Project { coverage: Some(coverage), ..project }),
                ..snapshot
            };
            let two = Snapshot {
                project: Some(Project { coverage: Some(other), ..project }),
                ..snapshot
            };
            &&& text::summary_rows(one) == text::summary_rows(two)
            &&& text::normal_identity_of(one) == text::normal_identity_of(two)
            &&& text::card_body_of(one, false) == text::card_body_of(two, false)
        }),
{
    let one = Snapshot {
        project: Some(Project { coverage: Some(coverage), ..project }),
        ..snapshot
    };
    let two = Snapshot { project: Some(Project { coverage: Some(other), ..project }), ..snapshot };
    law_the_summary_is_of_line_coverage_alone(one, two);
    law_the_runtime_is_of_the_toolchains_alone(one, two, false);
    lemma_normal_identity_of_parts(one, two);
}

/// The summary is of the lines of code, the line percentage and the freshness alone.
pub proof fn law_the_summary_is_of_line_coverage_alone(first: Snapshot, second: Snapshot)
    requires
        first.project is Some,
        second.project is Some,
        first.project->0.loc == second.project->0.loc,
        first.project->0.coverage is Some,
        second.project->0.coverage is Some,
        first.project->0.coverage->0.line_percent == second.project->0.coverage->0.line_percent,
        first.project->0.coverage->0.stale == second.project->0.coverage->0.stale,
    ensures
        text::summary_rows(first) == text::summary_rows(second),
{
}

/// The runtime is of the primary language and the toolchains alone.
pub proof fn law_the_runtime_is_of_the_toolchains_alone(
    first: Snapshot,
    second: Snapshot,
    full: bool,
)
    requires
        first.project is Some,
        second.project is Some,
        first.project->0.primary_language == second.project->0.primary_language,
        first.project->0.toolchains == second.project->0.toolchains,
    ensures
        text::runtime_spans(first, full) == text::runtime_spans(second, full),
{
}

proof fn lemma_parts_of_the_identity(first: Snapshot, second: Snapshot)
    requires
        first.context == second.context,
        first.git == second.git,
        first.system == second.system,
        first.time == second.time,
        first.diagnostics == second.diagnostics,
    ensures
        text::place_spans(first) == text::place_spans(second),
        text::machine_spans(first) == text::machine_spans(second),
        text::uptime_spans(first, "up "@) == text::uptime_spans(second, "up "@),
        text::memory_rows(first) == text::memory_rows(second),
        text::disk_rows(first) == text::disk_rows(second),
        text::clock_rows(first) == text::clock_rows(second),
        text::warning_rows(first) == text::warning_rows(second),
{
    law_rows_are_of_their_own_facts(first, second);
}

#[verifier::spinoff_prover]
#[verifier::rlimit(60)]
proof fn lemma_normal_identity_of_parts(first: Snapshot, second: Snapshot)
    requires
        first.context == second.context,
        first.git == second.git,
        first.system == second.system,
        first.time == second.time,
        first.diagnostics == second.diagnostics,
        text::summary_rows(first) == text::summary_rows(second),
        text::runtime_spans(first, false) == text::runtime_spans(second, false),
    ensures
        text::normal_identity_of(first) == text::normal_identity_of(second),
        text::card_body_of(first, false) == text::card_body_of(second, false),
{
    lemma_parts_of_the_identity(first, second);
    let health = Role::System(crate::render::theme::SystemRole::Health);
    let head = text::supported(
        Role::Primary,
        text::place_spans(first),
        Role::Primary,
        text::runtime_spans(first, false),
    );
    let machine = text::supported(
        health,
        text::machine_spans(first),
        health,
        text::uptime_spans(first, "up "@),
    );
    assert(head == text::supported(
        Role::Primary,
        text::place_spans(second),
        Role::Primary,
        text::runtime_spans(second, false),
    ));
    assert(machine == text::supported(
        health,
        text::machine_spans(second),
        health,
        text::uptime_spans(second, "up "@),
    ));
}

/// A line percentage that is printed otherwise is another summary.
pub proof fn law_another_line_percentage_is_another_summary(
    snapshot: Snapshot,
    other: Snapshot,
)
    requires
        snapshot.project is Some,
        snapshot.project->0.loc is None,
        snapshot.project->0.coverage is Some,
        snapshot.project->0.coverage->0.stale == Freshness::Current,
        snapshot.project->0.coverage->0.line_percent is Some,
        snapshot.project->0.coverage->0.line_percent->0.finite(),
        other.project is Some,
        other.project->0.loc is None,
        other.project->0.coverage is Some,
        other.project->0.coverage->0.stale == Freshness::Current,
        other.project->0.coverage->0.line_percent is Some,
        other.project->0.coverage->0.line_percent->0.finite(),
        strings::sanitized(
            values::percent_text(snapshot.project->0.coverage->0.line_percent->0),
        ) != strings::sanitized(
            values::percent_text(other.project->0.coverage->0.line_percent->0),
        ),
    ensures
        text::summary_rows(snapshot) != text::summary_rows(other),
{
    law_the_summary_tells_lines_and_line_coverage(snapshot);
    law_the_summary_tells_lines_and_line_coverage(other);
    let one = values::percent_text(snapshot.project->0.coverage->0.line_percent->0);
    let two = values::percent_text(other.project->0.coverage->0.line_percent->0);
    let front = "project"@ + ": "@ + "coverage "@;
    reveal_strlit("");
    assert("project"@ + ": "@ + ("coverage "@ + one + ""@) =~= front + one);
    assert("project"@ + ": "@ + ("coverage "@ + two + ""@) =~= front + two);
    lemma_sanitized_sum(front, one);
    lemma_sanitized_sum(front, two);
    let row_one = text::summary_rows(snapshot)[0].text;
    let row_two = text::summary_rows(other)[0].text;
    assert(row_one.skip(front.len() as int) =~= strings::sanitized(one));
    assert(row_two.skip(front.len() as int) =~= strings::sanitized(two));
}

/// Each row of the normal card is of its own facts: memory of the memory, the disk of the
/// disks, the clock of the time, the diagnostic of the diagnostics, the machine of system
/// and CPU, the place of context and repository, the runtime of language and toolchains.
pub proof fn law_rows_are_of_their_own_facts(first: Snapshot, second: Snapshot)
    ensures
        first.system.memory == second.system.memory ==> text::memory_rows(first)
            == text::memory_rows(second) && text::memory_table(first) == text::memory_table(second),
        first.system.disks == second.system.disks ==> text::disk_rows(first) == text::disk_rows(
            second,
        ),
        first.time == second.time ==> text::clock_rows(first) == text::clock_rows(second),
        first.diagnostics == second.diagnostics ==> text::warning_rows(first)
            == text::warning_rows(second),
        first.system.os == second.system.os && first.system.cpu == second.system.cpu
            ==> text::machine_spans(first) == text::machine_spans(second),
        first.system.uptime == second.system.uptime ==> text::uptime_spans(first, "up "@)
            == text::uptime_spans(second, "up "@),
        first.context == second.context && first.git == second.git ==> text::place_spans(first)
            == text::place_spans(second),
        first.project == second.project ==> text::summary_rows(first) == text::summary_rows(second)
            && text::telemetry_rows(first) == text::telemetry_rows(second)
            && text::runtime_spans(first, true) == text::runtime_spans(second, true)
            && text::runtime_spans(first, false) == text::runtime_spans(second, false),
        first.system == second.system ==> text::system_rows(first) == text::system_rows(second),
        first.time == second.time && first.git == second.git && first.diagnostics
            == second.diagnostics ==> text::context_rows(first) == text::context_rows(second),
{
}

proof fn lemma_meter_text(
    label: Seq<char>,
    percent: Binary64,
    role: Role,
    value: Seq<char>,
    state: Option<SpanView>,
)
    ensures
        ({
            let row = text::meter_of(label, percent, role, value, state);
            let told = strings::sanitized(strings::padded_right(label, 5)) + strings::sanitized(
                "  "@,
            ) + strings::sanitized(values::percent_text(percent) + "  "@ + value);
            &&& state is None ==> row.text == told
            &&& state is Some ==> row.text == told + state->0.text
            &&& row.flex is Some
            &&& row.flex->0.kind == (FlexView::Meter {
                permille: binary64::permille_of(percent) as u16,
                role,
            })
            &&& row.role == role
        }),
{
    let first = text::gutter_of(label, text::NORMAL_GUTTER as nat);
    let second = text::solid("  "@, Role::Text);
    let third = text::solid(values::percent_text(percent) + "  "@ + value, role);
    lemma_two_spans(first, second);
    let two = seq![first].push(second);
    lemma_spans_push(two, third);
    match state {
        Some(mark) => {
            lemma_spans_push(two.push(third), mark);
        },
        None => {},
    }
}

/// The memory of a snapshot whose size is known is told as the share that is used, with
/// the used and the whole in bytes behind it, and as a meter of that share; of an unknown
/// size only the bytes are told.
pub proof fn law_memory_is_told_as_a_share(snapshot: Snapshot)
    ensures
        ({
            let rows = text::memory_rows(snapshot);
            let memory = snapshot.system.memory->0;
            let bytes = values::bytes_text(memory.used_bytes) + "/"@ + values::bytes_text(
                memory.total_bytes,
            );
            let percent = binary64::percentage(
                memory.used_bytes as nat,
                memory.total_bytes as nat,
            );
            &&& snapshot.system.memory is None ==> rows.len() == 0
            &&& snapshot.system.memory is Some ==> rows.len() == 1
            &&& snapshot.system.memory is Some && memory.total_bytes == 0 ==> rows[0].text
                == strings::sanitized(strings::padded_right("mem"@, 5) + bytes)
                && rows[0].flex is None
            &&& snapshot.system.memory is Some && memory.total_bytes > 0 ==> rows[0].text
                == strings::sanitized(strings::padded_right("mem"@, 5)) + strings::sanitized("  "@)
                + strings::sanitized(values::percent_text(percent) + "  "@ + bytes) && (
            rows[0].flex is Some && rows[0].flex->0.kind is Meter && rows[0].flex->0.kind->Meter_permille
                == binary64::permille_of(percent) as u16)
        }),
{
    if snapshot.system.memory is Some {
        let memory = snapshot.system.memory->0;
        let bytes = values::bytes_text(memory.used_bytes) + "/"@ + values::bytes_text(
            memory.total_bytes,
        );
        let role = Role::System(crate::render::theme::SystemRole::Memory);
        law_gutters_stand_before_their_values("mem"@, 5, bytes, role);
        lemma_meter_text(
            "mem"@,
            binary64::percentage(memory.used_bytes as nat, memory.total_bytes as nat),
            role,
            bytes,
            None,
        );
    }
}

/// The first disk that is shown is told as the share that is used, the used and the whole
/// in bytes, and its mount unless that is the root; it is marked as full from 95 percent
/// on, and only from there.
pub proof fn law_the_first_disk_is_told_as_a_share(snapshot: Snapshot)
    requires
        snapshot.system.disks@.len() > 0,
        values::distinct_disks(snapshot.system.disks@).len() > 0,
    ensures
        ({
            let rows = text::disk_rows(snapshot);
            let disk = values::distinct_disks(snapshot.system.disks@)[0];
            let bytes = values::bytes_text(disk.used_bytes) + "/"@ + values::bytes_text(
                disk.total_bytes,
            );
            let value = if disk.mount@ == "/"@ {
                bytes
            } else {
                bytes + " · "@ + disk.mount@
            };
            let percent = binary64::percentage(disk.used_bytes as nat, disk.total_bytes as nat);
            let told = strings::sanitized(strings::padded_right("disk"@, 5)) + strings::sanitized(
                "  "@,
            ) + strings::sanitized(values::percent_text(percent) + "  "@ + value);
            &&& rows.len() == 1
            &&& disk.total_bytes == 0 ==> rows[0].text == strings::sanitized(
                strings::padded_right("disk"@, 5) + value,
            ) && rows[0].flex is None
            &&& disk.total_bytes > 0 && !percent.reaches(95) ==> rows[0].text == told
            &&& disk.total_bytes > 0 && percent.reaches(95) ==> rows[0].text == told
                + strings::sanitized("  ▲ full"@)
            &&& disk.total_bytes > 0 ==> rows[0].flex is Some && rows[0].flex->0.kind is Meter
                && rows[0].flex->0.kind->Meter_permille == binary64::permille_of(percent) as u16
        }),
{
    let disk = values::distinct_disks(snapshot.system.disks@)[0];
    let bytes = values::bytes_text(disk.used_bytes) + "/"@ + values::bytes_text(disk.total_bytes);
    let value = if disk.mount@ == "/"@ {
        bytes
    } else {
        bytes + " · "@ + disk.mount@
    };
    let role = Role::System(crate::render::theme::SystemRole::Disk);
    let percent = binary64::percentage(disk.used_bytes as nat, disk.total_bytes as nat);
    law_gutters_stand_before_their_values("disk"@, 5, value, role);
    lemma_meter_text("disk"@, percent, role, value, None);
    lemma_meter_text(
        "disk"@,
        percent,
        role,
        value,
        Some(text::solid("  ▲ full"@, Role::Warning)),
    );
}

proof fn lemma_gravest(diagnostics: Seq<Diagnostic>)
    requires
        diagnostics.len() > 0,
    ensures
        0 <= text::gravest(diagnostics) < diagnostics.len(),
        forall|i: int|
            0 <= i < diagnostics.len() ==> text::severity_rank(
                (#[trigger] diagnostics[i]).severity,
            ) <= text::severity_rank(diagnostics[text::gravest(diagnostics)].severity),
        forall|i: int|
            text::gravest(diagnostics) < i < diagnostics.len() ==> text::severity_rank(
                (#[trigger] diagnostics[i]).severity,
            ) < text::severity_rank(diagnostics[text::gravest(diagnostics)].severity),
    decreases diagnostics.len(),
{
    if diagnostics.len() > 1 {
        let front = diagnostics.drop_last();
        lemma_gravest(front);
        let before = text::gravest(front);
        assert(front[before] == diagnostics[before]);
        assert forall|i: int| 0 <= i < diagnostics.len() implies text::severity_rank(
            (#[trigger] diagnostics[i]).severity,
        ) <= text::severity_rank(diagnostics[text::gravest(diagnostics)].severity) by {
            if i < front.len() {
                assert(front[i] == diagnostics[i]);
            }
        }
        assert forall|i: int| text::gravest(diagnostics) < i < diagnostics.len() implies
            text::severity_rank((#[trigger] diagnostics[i]).severity) < text::severity_rank(
            diagnostics[text::gravest(diagnostics)].severity,
        ) by {
            if i < front.len() {
                assert(front[i] == diagnostics[i]);
            }
        }
    }
}

/// The diagnostic of the normal card is the last of the gravest: an error where there is
/// one, else a warning where there is one. It is told by its message and its severity.
pub proof fn law_the_gravest_diagnostic_is_told(snapshot: Snapshot) -> (at: int)
    requires
        snapshot.diagnostics@.len() > 0,
    ensures
        ({
            let all = snapshot.diagnostics@;
            let rows = text::warning_rows(snapshot);
            let word = match all[at].severity {
                DiagnosticSeverity::Error => "error"@,
                DiagnosticSeverity::Warning => "warning"@,
                DiagnosticSeverity::Info => "info"@,
            };
            &&& 0 <= at < all.len()
            &&& rows.len() == 1
            &&& rows[0].text == strings::sanitized(
                "DIAG"@ + ": "@ + (all[at].message@ + " · "@ + word),
            )
            &&& all[at].severity != DiagnosticSeverity::Error ==> forall|i: int|
                0 <= i < all.len() ==> (#[trigger] all[i]).severity != DiagnosticSeverity::Error
            &&& all[at].severity == DiagnosticSeverity::Info ==> forall|i: int|
                0 <= i < all.len() ==> (#[trigger] all[i]).severity == DiagnosticSeverity::Info
            &&& forall|i: int|
                at < i < all.len() ==> (#[trigger] all[i]).severity != all[at].severity
        }),
{
    let all = snapshot.diagnostics@;
    lemma_gravest(all);
    let at = text::gravest(all);
    law_labels_stand_before_their_values(
        "DIAG"@,
        all[at].message@ + " · "@ + values::severity_text(all[at].severity),
        values::diagnostic_role_of(all[at].severity),
    );
    at
}

/// Without a diagnostic there is no row for one.
pub proof fn law_no_diagnostic_is_told_of_none(snapshot: Snapshot)
    requires
        snapshot.diagnostics@.len() == 0,
    ensures
        text::warning_rows(snapshot).len() == 0,
{
}

/// A diagnostic has the colour of its severity, and coverage that of its freshness.
pub proof fn law_colours_tell_severity_and_freshness(severity: DiagnosticSeverity, stale: Freshness)
    ensures
        values::diagnostic_role_of(severity) == Role::Error <==> severity
            == DiagnosticSeverity::Error,
        values::diagnostic_role_of(severity) == Role::Warning <==> severity
            == DiagnosticSeverity::Warning,
        values::coverage_role_of(stale) == Role::Coverage <==> stale == Freshness::Current,
        values::coverage_role_of(stale) == Role::Warning <==> stale == Freshness::Stale,
        values::coverage_role_of(stale) == Role::Secondary <==> stale == Freshness::Unknown,
{
}

/// The full card tells every metric of the coverage that is known, in the order of lines,
/// branches and functions, each by its own percentage, and then where it comes from; the
/// first of these rows has the label.
pub proof fn law_every_known_metric_has_a_row(coverage: Coverage)
    ensures
        ({
            let rows = text::coverage_rows(coverage);
            let role = values::coverage_role_of(coverage.stale);
            let line = coverage.line_percent is Some && coverage.line_percent->0.finite();
            let branch = coverage.branch_percent is Some && coverage.branch_percent->0.finite();
            let function = coverage.function_percent is Some
                && coverage.function_percent->0.finite();
            let before_branch = if line {
                1int
            } else {
                0
            };
            let before_function = before_branch + if branch {
                1int
            } else {
                0
            };
            let before_source = before_function + if function {
                1int
            } else {
                0
            };
            &&& rows.len() == before_source + 1
            &&& line ==> rows[0] == text::table_of(
                "cov"@,
                "line"@,
                coverage.line_percent->0,
                role,
                ""@,
                false,
            )
            &&& branch ==> rows[before_branch] == text::table_of(
                if line {
                    ""@
                } else {
                    "cov"@
                },
                "branch"@,
                coverage.branch_percent->0,
                role,
                ""@,
                false,
            )
            &&& function ==> rows[before_function] == text::table_of(
                if line || branch {
                    ""@
                } else {
                    "cov"@
                },
                "function"@,
                coverage.function_percent->0,
                role,
                ""@,
                false,
            )
            &&& rows[before_source] == text::provenance_row(
                coverage,
                !line && !branch && !function,
            )
        }),
{
}

/// A row of the metric table has a meter of its own percentage, and says it in both forms
/// of the row; a mark that it is full stands in it exactly where it is.
pub proof fn law_table_rows_measure_their_percentage(
    label: Seq<char>,
    name: Seq<char>,
    percent: Binary64,
    role: Role,
    detail: Seq<char>,
    full: bool,
)
    ensures
        ({
            let row = text::table_of(label, name, percent, role, detail, full);
            let compact = row.flex->0.compact->0;
            &&& row.flex is Some
            &&& row.flex->0.kind == (FlexView::Meter {
                permille: binary64::permille_of(percent) as u16,
                role,
            })
            &&& row.fragments.len() == 5
            &&& row.fragments[3].text == strings::sanitized(
                strings::padded_left(values::percent_text(percent), 6) + "  "@
                    + strings::padded_right(detail, 23),
            )
            &&& row.fragments[4].text == strings::sanitized(
                if full {
                    strings::padded_right("  ▲ full"@, 8)
                } else {
                    strings::blank(8)
                },
            )
            &&& row.flex->0.compact is Some
            &&& name.len() == 0 ==> compact[1].text == strings::sanitized(
                values::percent_text(percent),
            )
            &&& name.len() > 0 ==> compact[2].text == strings::sanitized(
                values::percent_text(percent),
            )
            &&& compact.len() == 2 + (if name.len() > 0 {
                1int
            } else {
                0
            }) + (if full {
                1int
            } else {
                0
            }) + (if detail.len() > 0 {
                1int
            } else {
                0
            })
            &&& detail.len() > 0 ==> compact.last().text == strings::sanitized(" · "@ + detail)
        }),
{
}

/// Where coverage comes from is told by format, path, source and time, each where it is
/// known, in this order.
pub proof fn law_coverage_tells_where_it_comes_from(coverage: Coverage)
    ensures
        ({
            let parts = text::provenance_parts(coverage);
            let format = if coverage.format is Some {
                1int
            } else {
                0
            };
            let path = format + if coverage.report_path is Some {
                1int
            } else {
                0
            };
            let source = path + if coverage.source is Some {
                1int
            } else {
                0
            };
            &&& parts.len() == source + if coverage.report_modified is Some {
                1int
            } else {
                0
            }
            &&& coverage.format is Some ==> parts[0] == values::coverage_format_text(
                coverage.format->0,
            )
            &&& coverage.report_path is Some ==> parts[format] == coverage.report_path->0@
            &&& coverage.source is Some ==> parts[path] == "source "@ + coverage.source->0@
            &&& coverage.report_modified is Some ==> parts[source] == "modified Unix "@
                + strings::decimal_text(coverage.report_modified->0.value as nat)
        }),
{
}

/// The full card tells the counts of a repository by their names, staged before unstaged
/// before conflicts, also where they are zero, and then how far ahead it is and which
/// commit is checked out, where there is something to tell.
pub proof fn law_counts_are_told_by_their_names(git: Git)
    ensures
        ({
            let counts = text::git_counts(git);
            let told = git.ahead is Some && git.ahead->0 > 0;
            &&& counts[0] == ("staged"@, strings::decimal_text(git.staged as nat))
            &&& counts[1] == ("unstaged"@, strings::decimal_text(git.unstaged as nat))
            &&& counts[2] == ("conflicts"@, strings::decimal_text(git.conflicts as nat))
            &&& told ==> counts[3] == ("ahead"@, strings::decimal_text(git.ahead->0 as nat))
            &&& git.head is Detached ==> counts.last() == (
                "detached at"@,
                git.head->Detached_commit@,
            )
            &&& counts.len() == 3 + (if told {
                1int
            } else {
                0
            }) + (if git.head is Detached {
                1int
            } else {
                0
            })
        }),
{
}

/// Each diagnostic has a row of the full card, in their order, that says its code, its
/// severity and its message.
pub proof fn law_every_diagnostic_has_a_row(snapshot: Snapshot, at: int)
    requires
        0 <= at < snapshot.diagnostics@.len(),
    ensures
        ({
            let rows = text::context_rows(snapshot);
            let all = snapshot.diagnostics@;
            let row = rows[rows.len() - all.len() + at];
            let word = match all[at].severity {
                DiagnosticSeverity::Error => "error"@,
                DiagnosticSeverity::Warning => "warning"@,
                DiagnosticSeverity::Info => "info"@,
            };
            &&& rows.len() >= all.len()
            &&& row.text == strings::sanitized(
                strings::padded_right("diag"@, 6) + (all[at].code@ + " "@ + word + " · "@
                    + all[at].message@),
            )
            &&& row.role == values::diagnostic_role_of(all[at].severity)
        }),
{
    let item = snapshot.diagnostics@[at];
    law_gutters_stand_before_their_values(
        "diag"@,
        6,
        item.code@ + " "@ + values::severity_text(item.severity) + " · "@ + item.message@,
        values::diagnostic_role_of(item.severity),
    );
}

/// The languages that are shown are exactly those with a line, and each has a row of its
/// own behind the total and the bar, with its lines and its share of the total.
pub proof fn law_every_counted_language_has_a_row(loc: Loc)
    ensures
        ({
            let rows = text::loc_rows(loc);
            let languages = text::ranked(text::counted(loc.by_language@));
            &&& rows[0] == text::total_row(loc)
            &&& languages.len() == 0 ==> rows.len() == 1
            &&& languages.len() > 0 ==> rows.len() == languages.len() + 2
            &&& forall|i: int|
                0 <= i < languages.len() ==> #[trigger] rows[i + 2] == text::language_row(
                    languages[i],
                    loc.total,
                )
        }),
        forall|i: int|
            0 <= i < text::counted(loc.by_language@).len() ==> (#[trigger] text::counted(
                loc.by_language@,
            )[i]).lines > 0,
{
    lemma_counted(loc.by_language@);
}

proof fn lemma_counted(entries: Seq<LanguageLoc>)
    ensures
        forall|i: int|
            0 <= i < text::counted(entries).len() ==> (#[trigger] text::counted(entries)[i]).lines
                > 0,
        forall|i: int|
            0 <= i < entries.len() && (#[trigger] entries[i]).lines > 0 ==> text::counted(
                entries,
            ).contains(entries[i]),
    decreases entries.len(),
{
    if entries.len() > 0 {
        let front = entries.drop_last();
        lemma_counted(front);
        let before = text::counted(front);
        let all = text::counted(entries);
        assert forall|i: int| 0 <= i < entries.len() && (#[trigger] entries[i]).lines > 0 implies
            all.contains(entries[i]) by {
            if i < front.len() {
                assert(front[i] == entries[i]);
                let j = choose|j: int| 0 <= j < before.len() && before[j] == front[i];
                assert(all[j] == before[j]);
            } else {
                assert(all[all.len() - 1] == entries[i]);
            }
        }
    }
}

/// No language with a line is left out.
pub proof fn law_no_counted_language_is_left_out(entries: Seq<LanguageLoc>, at: int)
    requires
        0 <= at < entries.len(),
        entries[at].lines > 0,
    ensures
        text::counted(entries).contains(entries[at]),
{
    lemma_counted(entries);
}

proof fn lemma_row_of_four(first: SpanView, second: SpanView, third: SpanView, fourth: SpanView)
    ensures
        text::spans_text(seq![first].push(second).push(third).push(fourth)) == first.text
            + second.text + third.text + fourth.text,
{
    lemma_two_spans(first, second);
    lemma_spans_push(seq![first].push(second), third);
    lemma_spans_push(seq![first].push(second).push(third), fourth);
}

/// The total of the lines is told as it is, and said to be partial exactly where the count
/// was cut short.
pub proof fn law_the_total_is_told(loc: Loc)
    ensures
        loc.truncated ==> text::total_row(loc).text == strings::sanitized(
            strings::padded_right("loc"@, 6),
        ) + strings::sanitized(strings::decimal_text(loc.total as nat)) + strings::sanitized(
            " lines"@,
        ) + strings::sanitized(" · partial"@),
        !loc.truncated ==> text::total_row(loc).text == strings::sanitized(
            strings::padded_right("loc"@, 6),
        ) + strings::sanitized(strings::decimal_text(loc.total as nat)) + strings::sanitized(
            " lines"@,
        ) + strings::sanitized(""@),
{
    lemma_row_of_four(
        text::gutter_of("loc"@, 6),
        text::solid(strings::decimal_text(loc.total as nat), Role::Primary),
        text::solid(" lines"@, Role::Secondary),
        text::solid(
            if loc.truncated {
                " · partial"@
            } else {
                ""@
            },
            Role::Secondary,
        ),
    );
}

/// A language is told by its name, its lines, and its share of the total.
pub proof fn law_languages_are_told_by_lines_and_share(entry: LanguageLoc, total: u64)
    ensures
        ({
            let row = text::language_row(entry, total);
            &&& row.fragments.len() == 5
            &&& row.fragments[2].text == strings::sanitized(
                entry.language@ + " "@ + strings::decimal_text(entry.lines as nat),
            )
            &&& total > 0 ==> row.fragments[4].text == strings::sanitized(
                " · "@ + values::percent_text(
                    binary64::percentage(entry.lines as nat, total as nat),
                ),
            )
            &&& total == 0 ==> row.fragments[4].text.len() == 0
        }),
{
}

/// A meter fills its cells in proportion, to the nearest cell: nothing at zero, all at a
/// thousand, at least one above zero, and never fewer for more.
pub proof fn law_meters_fill_in_proportion(permille: nat, more: nat, cells: nat)
    requires
        permille <= more <= 1000,
        cells > 0,
    ensures
        text::meter_filled(0, cells) == 0,
        text::meter_filled(1000, cells) == cells,
        permille > 0 ==> text::meter_filled(permille, cells) >= 1,
        text::meter_filled(permille, cells) <= text::meter_filled(more, cells) <= cells,
        text::meter_filled(permille, cells) > 1 ==> 1000 * text::meter_filled(permille, cells)
            <= permille * cells + 500,
        permille * cells <= 1000 * text::meter_filled(permille, cells) + 500,
{
    assert(0 * cells == 0);
    assert(1000 * cells / 1000 == cells && 1000 * cells % 1000 == 0);
    assert(permille * cells <= more * cells) by (nonlinear_arith)
        requires
            permille <= more,
    ;
    assert(more * cells <= 1000 * cells) by (nonlinear_arith)
        requires
            more <= 1000,
    ;
    let product = permille * cells;
    let near = product / 1000 + (if product % 1000 >= 500 {
        1nat
    } else {
        0nat
    });
    let filled = text::meter_filled(permille, cells);
    assert(1000 * near <= product + 500);
    if filled > 1 {
        assert(filled <= near);
    }
}

/// A meter is drawn in exactly its cells: the filled ones first, and then the rest.
pub proof fn law_meters_are_drawn_in_their_cells(permille: u16, role: Role, cells: nat)
    requires
        cells > 0,
    ensures
        ({
            let spans = text::meter_spans(permille, role, cells);
            let filled = text::meter_filled(permille as nat, cells);
            &&& filled > 0 ==> spans[0].text == strings::repeated('━', filled) && spans[0].role
                == role
            &&& filled < cells ==> spans.last().text == strings::repeated(
                '╌',
                (cells - filled) as nat,
            ) && spans.last().role == Role::Secondary
            &&& spans.len() == (if filled > 0 {
                1int
            } else {
                0
            }) + (if filled < cells {
                1int
            } else {
                0
            })
        }),
{
    let filled = text::meter_filled(permille as nat, cells);
    if filled < cells {
        let rest = strings::repeated('╌', (cells - filled) as nat);
        assert(strings::sanitized(rest) =~= rest);
    }
}

/// A ruler shows the part of the day that has passed: at its beginning nothing of it, at
/// its end all, in proportion between, and never less for more.
pub proof fn law_rulers_show_the_day(permille: nat, more: nat, span: nat)
    requires
        permille <= more <= 1000,
    ensures
        text::ruler_position(0, span) == 0,
        text::ruler_position(1000, span) == span,
        text::ruler_position(permille, span) <= text::ruler_position(more, span) <= span,
        text::ruler_position(permille, span) * 1000 <= permille * span + 500,
        permille * span < text::ruler_position(permille, span) * 1000 + 500,
{
    assert(0 * span == 0);
    assert(permille * span <= more * span) by (nonlinear_arith)
        requires
            permille <= more,
    ;
    assert(more * span <= 1000 * span) by (nonlinear_arith)
        requires
            more <= 1000,
    ;
}

} // verus!
