//! What the rows of place, machine, day and languages promise, and the instruments that
//! are drawn in them.
use vstd::prelude::*;
use crate::binary64;
use crate::model::{Disk, LanguageLoc, Snapshot};
use crate::render::text;
use crate::render::text::{FlexView, SpanView};
use crate::render::theme;
use crate::render::theme::{Role, SystemRole};
use crate::render::values;
use crate::strings;

verus! {

/// The place of work is told by its path and by what is checked out there, each where it is
/// known, and the path first.
pub proof fn law_the_place_is_told_by_path_and_repository(snapshot: Snapshot)
    ensures
        ({
            let spans = text::place_spans(snapshot);
            let path = values::workspace_text(snapshot);
            let told = strings::sanitized(values::short_path_text(path->0));
            let git = strings::sanitized(values::git_text(snapshot.git->0));
            &&& path is Some && snapshot.git is Some ==> spans.len() == 3 && spans[0].text == told
                && spans[1].text == strings::sanitized(" on "@) && spans[2].text == git
                && spans[0].role == Role::Primary && spans[2].role == Role::Git
            &&& path is Some && snapshot.git is None ==> spans.len() == 1 && spans[0].text == told
            &&& path is None && snapshot.git is Some ==> spans.len() == 1 && spans[0].text == git
            &&& path is None && snapshot.git is None ==> spans.len() == 0
        }),
{
}

/// The machine is told by its system and its CPU, each where it is known, and the system
/// first.
pub proof fn law_the_machine_is_told_by_system_and_cpu(snapshot: Snapshot)
    ensures
        ({
            let spans = text::machine_spans(snapshot);
            let os = snapshot.system.os;
            let known = snapshot.system.cpu is Some && values::cpu_text(snapshot.system.cpu->0).len()
                > 0;
            let cpu = strings::sanitized(values::cpu_text(snapshot.system.cpu->0));
            let name = strings::sanitized(values::os_text(os->0));
            &&& os is Some && known ==> spans.len() == 3 && spans[0].text == name && spans[1].text
                == strings::sanitized(" · "@) && spans[2].text == cpu && spans[2].role
                == Role::System(SystemRole::Cpu)
            &&& os is Some && !known ==> spans.len() == 1 && spans[0].text == name
            &&& os is None && known ==> spans.len() == 1 && spans[0].text == cpu
            &&& os is None && !known ==> spans.len() == 0
        }),
{
}

/// The time that the machine has been up is told behind its label, and not where it is not
/// known.
pub proof fn law_uptime_is_told_behind_its_label(snapshot: Snapshot, label: Seq<char>)
    ensures
        snapshot.system.uptime is None ==> text::uptime_spans(snapshot, label).len() == 0,
        snapshot.system.uptime is Some ==> {
            let spans = text::uptime_spans(snapshot, label);
            &&& spans.len() == 2
            &&& spans[0].text == strings::sanitized(label)
            &&& spans[1].text == strings::sanitized(
                values::uptime_text(snapshot.system.uptime->0, false),
            )
        },
{
}

/// Support stands behind what it supports, and alone where that is missing.
pub proof fn law_support_stands_behind_or_alone(
    role: Role,
    main: Seq<SpanView>,
    alone: Role,
    support: Seq<SpanView>,
)
    ensures
        ({
            let rows = text::supported(role, main, alone, support);
            &&& main.len() > 0 ==> rows.len() == 1 && rows[0].fragments == main && rows[0].trailing
                == support && rows[0].role == role
            &&& main.len() == 0 && support.len() > 0 ==> rows.len() == 1 && rows[0].fragments
                == support && rows[0].trailing.len() == 0 && rows[0].role == alone
            &&& main.len() == 0 && support.len() == 0 ==> rows.len() == 0
        }),
{
}

/// The runtime is told in the accent of its toolchain, where a language is known.
pub proof fn law_the_runtime_is_told_in_its_accent(snapshot: Snapshot, full: bool)
    ensures
        ({
            let spans = text::runtime_spans(snapshot, full);
            let known = snapshot.project is Some && snapshot.project->0.primary_language is Some;
            &&& known <==> spans.len() == 1
            &&& !known <==> spans.len() == 0
            &&& known ==> spans[0].text == strings::sanitized(
                (values::runtime_text(snapshot, full)->0).0,
            ) && spans[0].role == Role::Runtime((values::runtime_text(snapshot, full)->0).1)
        }),
{
}

/// The day of the normal card is a ruler of its progress, behind the clock and before the
/// percentage and the date; where the progress is not known the time stands in words.
pub proof fn law_the_day_is_told_by_a_ruler(snapshot: Snapshot)
    ensures
        ({
            let rows = text::clock_rows(snapshot);
            let time = snapshot.time;
            let known = time.day_progress_percent is Some
                && time.day_progress_percent->0.finite();
            let day = time.day_progress_percent->0;
            let words = if time.date is Some {
                values::percent_text(day) + " · "@ + time.date->0@
            } else {
                values::percent_text(day)
            };
            &&& known ==> {
                &&& rows.len() == 2
                &&& rows[0].fragments.len() == 3
                &&& rows[0].flex is Some && rows[0].flex->0.at == 1
                &&& rows[0].flex->0.kind == (FlexView::Ruler {
                    permille: binary64::permille_of(day) as u16,
                })
                &&& rows[1].flex is Some && rows[1].flex->0.kind is RulerAxis
                &&& time.local is Some ==> rows[0].fragments[0].text == strings::sanitized(
                    time.local->0@ + " "@,
                )
                &&& rows[0].fragments[2].text == strings::sanitized(words)
            }
            &&& !known && values::time_text(snapshot) is Some ==> rows.len() == 1 && rows[0]
                == text::guttered("time"@, 5, values::time_text(snapshot)->0, Role::Time)
            &&& !known && values::time_text(snapshot) is None ==> rows.len() == 0
        }),
{
}

/// The axis below a ruler begins and ends where the ruler does: its blanks are as wide as
/// what stands round the ruler.
pub proof fn law_the_axis_stands_below_its_ruler(
    lead: Seq<SpanView>,
    percent: binary64::Binary64,
    tail: Seq<SpanView>,
    max: nat,
)
    ensures
        ({
            let rows = text::rulers_of(lead, percent, tail, max);
            &&& rows.len() == 2
            &&& rows[0].fragments == lead + tail
            &&& rows[0].flex->0.at == lead.len()
            &&& rows[1].fragments.len() == 2
            &&& rows[1].flex->0.at == 1
            &&& rows[1].fragments[0].text.len() == text::spans_cells(lead)
            &&& rows[1].fragments[1].text.len() == text::spans_cells(tail)
            &&& rows[0].flex->0.min == rows[1].flex->0.min
            &&& rows[0].flex->0.max == rows[1].flex->0.max
        }),
{
}

/// The head of the full card tells the repository with its upstream, the runtime at its
/// right, and then the place and the system.
pub proof fn law_the_head_of_the_full_card(snapshot: Snapshot)
    ensures
        ({
            let rows = text::full_identity_of(snapshot);
            let runtime = text::runtime_spans(snapshot, true);
            let path = values::workspace_text(snapshot);
            let os = snapshot.system.os;
            let git = snapshot.git;
            let place = if path is Some && os is Some {
                values::short_path_text(path->0) + " · "@ + values::os_text(os->0)
            } else if path is Some {
                values::short_path_text(path->0)
            } else {
                values::os_text(os->0)
            };
            &&& git is Some ==> rows.len() > 0 && rows[0].trailing == runtime
                && rows[0].fragments[1].text == strings::sanitized(values::git_text(git->0))
            &&& git is Some && git->0.upstream is Some ==> rows[0].fragments.len() == 4
                && rows[0].fragments[3].text == strings::sanitized(git->0.upstream->0@)
            &&& git is Some && git->0.upstream is None ==> rows[0].fragments.len() == 2
            &&& git is None && runtime.len() > 0 ==> rows.len() > 0 && rows[0].fragments == runtime
            &&& path is Some || os is Some ==> rows.len() > 0 && rows.last() == text::guttered(
                "dir"@,
                6,
                place,
                Role::Primary,
            )
        }),
{
}

/// The disks of the full card have a row each, in their order, below a head; the first of
/// them has the label.
pub proof fn law_disks_have_a_row_each(disks: Seq<Disk>, at: int)
    requires
        0 <= at < disks.len(),
    ensures
        ({
            let rows = text::disk_table(disks);
            let percent = binary64::percentage(
                disks[at].used_bytes as nat,
                disks[at].total_bytes as nat,
            );
            &&& rows.len() == disks.len() + 1
            &&& rows[0] == text::header_of("mount"@, "used / size"@)
            &&& disks[at].total_bytes > 0 ==> rows[at + 1] == text::table_of(
                if at == 0 {
                    "disk"@
                } else {
                    ""@
                },
                disks[at].mount@,
                percent,
                Role::System(SystemRole::Disk),
                values::bytes_text(disks[at].used_bytes) + " / "@ + values::bytes_text(
                    disks[at].total_bytes,
                ),
                percent.reaches(95),
            )
        }),
        text::disk_table(Seq::empty()).len() == 0,
{
}

/// The memory of the full card is told as a share, with the used and the whole in bytes.
pub proof fn law_memory_has_a_row_of_the_table(snapshot: Snapshot)
    ensures
        ({
            let rows = text::memory_table(snapshot);
            let memory = snapshot.system.memory->0;
            let bytes = values::bytes_text(memory.used_bytes) + " / "@ + values::bytes_text(
                memory.total_bytes,
            );
            &&& snapshot.system.memory is None ==> rows.len() == 0
            &&& snapshot.system.memory is Some && memory.total_bytes > 0 ==> rows.len() == 1
                && rows[0] == text::table_of(
                "mem"@,
                ""@,
                binary64::percentage(memory.used_bytes as nat, memory.total_bytes as nat),
                Role::System(SystemRole::Memory),
                bytes,
                false,
            )
            &&& snapshot.system.memory is Some && memory.total_bytes == 0 ==> rows.len() == 1
                && rows[0] == text::guttered("mem"@, 6, bytes, Role::System(SystemRole::Memory))
        }),
{
}

/// The counts of a repository stand one behind the other, each behind its name.
pub proof fn law_counts_stand_behind_their_names(
    counts: Seq<(Seq<char>, Seq<char>)>,
    name: Seq<char>,
    value: Seq<char>,
)
    ensures
        ({
            let before = text::count_spans(counts);
            let after = text::count_spans(counts.push((name, value)));
            &&& after.len() == before.len() + 2
            &&& after.last().text == strings::sanitized(value)
            &&& after[after.len() - 2].text == strings::sanitized(
                (if counts.len() == 0 {
                    ""@
                } else {
                    "    "@
                }) + name + " "@,
            )
            &&& after.take(before.len() as int) == before
        }),
{
    let more = counts.push((name, value));
    assert(more.drop_last() =~= counts);
    assert(text::count_spans(more).take(text::count_spans(counts).len() as int)
        =~= text::count_spans(counts));
}

/// The bar of the languages ends a run at the nearest cell to its share: at none for
/// nothing, at the last for all, and never farther for less.
pub proof fn law_runs_end_at_their_share(amount: nat, more: nat, total: nat, cells: nat)
    requires
        amount <= more <= total,
        total > 0,
    ensures
        text::stack_edge(0, total, cells) == 0,
        text::stack_edge(total, total, cells) == cells,
        text::stack_edge(amount, total, cells) <= text::stack_edge(more, total, cells) <= cells,
        2 * (text::stack_edge(amount, total, cells) * total) <= 2 * (amount * cells) + total,
        2 * (amount * cells) <= 2 * (text::stack_edge(amount, total, cells) * total) + total,
{
    lemma_edge(0, total, cells);
    lemma_edge(amount, total, cells);
    lemma_edge(more, total, cells);
    lemma_edge(total, total, cells);
    assert(0 * cells == 0);
    assert(amount * cells <= more * cells) by (nonlinear_arith)
        requires
            amount <= more,
    ;
    vstd::arithmetic::div_mod::lemma_div_is_ordered(
        (amount * cells + total / 2) as int,
        (more * cells + total / 2) as int,
        total as int,
    );
    vstd::arithmetic::div_mod::lemma_basic_div((total / 2) as int, total as int);
    assert((total * cells + total / 2) / total == cells) by (nonlinear_arith)
        requires
            total > 0,
    ;
}

proof fn lemma_edge(amount: nat, total: nat, cells: nat)
    requires
        amount <= total,
        total > 0,
    ensures
        text::stack_edge(amount, total, cells) == (amount * cells + total / 2) / total,
        2 * (text::stack_edge(amount, total, cells) * total) <= 2 * (amount * cells) + total,
        2 * (amount * cells) <= 2 * (text::stack_edge(amount, total, cells) * total) + total,
{
    let product = amount * cells;
    let sum = product + total / 2;
    let edge = sum / total;
    assert(product <= total * cells) by (nonlinear_arith)
        requires
            product == amount * cells,
            amount <= total,
    ;
    vstd::arithmetic::div_mod::lemma_fundamental_div_mod(sum as int, total as int);
    let r = sum % total;
    assert(total * edge == edge * total) by (nonlinear_arith);
    assert(edge <= cells) by (nonlinear_arith)
        requires
            sum == total * edge + r,
            0 <= r < total,
            sum < total * cells + total,
    ;
}

proof fn lemma_runs(parts: Seq<(u64, Role)>, total: nat, cells: nat)
    requires
        total > 0,
        text::parts_sum(parts) <= total,
    ensures
        text::spans_text(text::stack_spans(parts, total, cells)) == strings::repeated(
            '█',
            text::stack_edge(text::parts_sum(parts), total, cells),
        ),
    decreases parts.len(),
{
    if parts.len() == 0 {
        law_runs_end_at_their_share(0, 0, total, cells);
        assert(text::spans_text(text::stack_spans(parts, total, cells)) =~= strings::repeated(
            '█',
            0,
        ));
    } else {
        let front = parts.drop_last();
        lemma_runs(front, total, cells);
        law_runs_end_at_their_share(text::parts_sum(front), text::parts_sum(parts), total, cells);
        let drawn = text::stack_edge(text::parts_sum(front), total, cells);
        let edge = text::stack_edge(text::parts_sum(parts), total, cells);
        if edge > drawn {
            let run = strings::repeated('█', (edge - drawn) as nat);
            let before = text::stack_spans(front, total, cells);
            let span = text::solid(run, parts.last().1);
            assert(span.text =~= run);
            assert(before.push(span).drop_last() =~= before);
            assert(text::spans_text(before.push(span)) =~= strings::repeated('█', edge));
        }
    }
}

/// The bar of the languages fills all of its cells, and nothing beyond them.
pub proof fn law_the_bar_of_languages_fills_its_cells(parts: Seq<(u64, Role)>, cells: nat)
    requires
        text::parts_sum(parts) > 0,
    ensures
        text::spans_text(text::flex_spans_of(FlexView::Stack(parts), cells)) == strings::repeated(
            '█',
            cells,
        ),
{
    let total = text::parts_sum(parts);
    lemma_runs(parts, total, cells);
    law_runs_end_at_their_share(total, total, total, cells);
}

/// The bar of the languages has a part for each of them, as large as its lines and in the
/// accent of its name.
pub proof fn law_the_bar_has_a_part_for_each_language(entries: Seq<LanguageLoc>, at: int)
    requires
        0 <= at < entries.len(),
    ensures
        ({
            let row = text::stack_row(entries);
            let name = entries[at].language@;
            &&& row.flex is Some && row.flex->0.at == 1
            &&& row.flex->0.kind is Stack && row.flex->0.kind->Stack_0.len() == entries.len()
            &&& (row.flex->0.kind->Stack_0[at]).0 == entries[at].lines
            &&& (row.flex->0.kind->Stack_0[at]).1 == Role::Runtime(
                theme::runtime_role_of(name, name),
            )
        }),
{
}

/// A run is in the role of its language, one cell longer than before for each cell of its
/// share.
pub proof fn law_runs_have_the_role_of_their_language(
    parts: Seq<(u64, Role)>,
    last: (u64, Role),
    total: nat,
    cells: nat,
)
    ensures
        ({
            let before = text::stack_spans(parts, total, cells);
            let after = text::stack_spans(parts.push(last), total, cells);
            let drawn = text::stack_edge(text::parts_sum(parts), total, cells);
            let edge = text::stack_edge(text::parts_sum(parts) + last.0 as nat, total, cells);
            &&& edge > drawn ==> after.len() == before.len() + 1 && after.last().role == last.1
                && after.last().text.len() == edge - drawn
            &&& edge <= drawn ==> after == before
        }),
{
    assert(parts.push(last).drop_last() =~= parts);
}

/// A ruler of so many cells: the passed part before the mark, and the rest behind it.
pub proof fn law_rulers_are_drawn_in_their_cells(permille: u16, cells: nat)
    requires
        cells >= 5,
        permille <= 1000,
    ensures
        ({
            let spans = text::ruler_spans(permille, cells);
            let span = text::ruler_span_of(cells);
            let position = text::ruler_position(permille as nat, span);
            &&& span % 4 == 0 && span < cells <= span + 4
            &&& position <= span
            &&& position > 0 ==> spans.len() == 3 && spans[0].text == strings::repeated(
                '━',
                position,
            ) && spans[1].text == strings::sanitized("●"@)
            &&& position == 0 ==> spans.len() == 2 && spans[0].text == strings::sanitized("●"@)
            &&& spans.last().text.len() == cells - position - 1
            &&& position < span ==> spans.last().text[span - position - 1] == '┤'
        }),
{
    let span = text::ruler_span_of(cells);
    assert(permille * span <= 1000 * span) by (nonlinear_arith)
        requires
            permille <= 1000,
    ;
}

/// The quarters of the day are marked on the ruler, and its end is closed.
pub proof fn law_quarters_are_marked(span: nat, quarter: nat)
    requires
        span >= 4,
        span % 4 == 0,
        quarter < 4,
    ensures
        text::tick(span, quarter * (span as int / 4)) == '┼',
        text::tick(span, span as int) == '┤',
        span >= 8 ==> text::tick(span, quarter * (span as int / 4) + 1) == '─',
{
    let part = span as int / 4;
    assert(quarter * part < 4 * part) by (nonlinear_arith)
        requires
            quarter < 4,
            part > 0,
    ;
    vstd::arithmetic::div_mod::lemma_mod_multiples_basic(quarter as int, part);
    if span >= 8 {
        vstd::arithmetic::div_mod::lemma_mod_multiples_vanish(quarter as int, 1, part);
        assert(part * quarter + 1 == quarter * part + 1) by (nonlinear_arith);
        vstd::arithmetic::div_mod::lemma_small_mod(1nat, part as nat);
        assert(quarter * part + 1 < 4 * part) by (nonlinear_arith)
            requires
                quarter <= 3,
                part >= 2,
        ;
    }
}

/// The axis names the hours below the quarters: 00, 06, 12, 18, and 24 at the end.
pub proof fn law_the_axis_names_the_hours(cells: nat)
    requires
        cells >= 17,
    ensures
        ({
            let axis = text::axis_text(cells);
            let span = text::ruler_span_of(cells) as int;
            &&& axis.len() == cells
            &&& axis[0] == '0' && axis[1] == '0'
            &&& axis[span / 4] == '0' && axis[span / 4 + 1] == '6'
            &&& axis[span / 2] == '1' && axis[span / 2 + 1] == '2'
            &&& axis[span * 3 / 4] == '1' && axis[span * 3 / 4 + 1] == '8'
            &&& axis[span - 1] == '2' && axis[span] == '4'
        }),
{
}

} // verus!
