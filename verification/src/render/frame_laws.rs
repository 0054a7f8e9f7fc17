//! What the frame of a card, its rails and the order of its rows promise.
use vstd::prelude::*;
use crate::model::{Coverage, Freshness, LanguageLoc, Snapshot};
use crate::render::terminal;
use crate::render::terminal::{LiveTerminalGuard, Performed, TerminalStep};
use crate::render::text;
use crate::render::text::{FlexView, LineView, SpanView};
use crate::render::theme::{Role, SystemRole};
use crate::render::values;
use crate::strings;

verus! {

proof fn lemma_ranked_keeps(entries: Seq<LanguageLoc>, least: u64)
    requires
        forall|i: int| 0 <= i < entries.len() ==> (#[trigger] entries[i]).lines >= least,
    ensures
        forall|i: int|
            0 <= i < text::ranked(entries).len() ==> (#[trigger] text::ranked(entries)[i]).lines
                >= least,
        text::ranked(entries).len() == entries.len(),
    decreases entries.len(),
{
    if entries.len() > 0 {
        let front = entries.drop_last();
        let last = entries[entries.len() - 1];
        assert forall|i: int| 0 <= i < front.len() implies (#[trigger] front[i]).lines >= least by {
            assert(front[i] == entries[i]);
        }
        lemma_ranked_keeps(front, least);
        let before = text::ranked(front);
        lemma_rank_bounds(before, last.lines, 0);
        let at = text::rank_from(before, last.lines, 0);
        let after = before.insert(at, last);
        assert forall|i: int| 0 <= i < after.len() implies (#[trigger] after[i]).lines >= least by {
            if i < at {
                assert(after[i] == before[i]);
            } else if i > at {
                assert(after[i] == before[i - 1]);
            }
        }
    }
}

proof fn lemma_rank_bounds(entries: Seq<LanguageLoc>, lines: u64, from: int)
    requires
        0 <= from <= entries.len(),
    ensures
        from <= text::rank_from(entries, lines, from) <= entries.len(),
        forall|i: int|
            from <= i < text::rank_from(entries, lines, from) ==> (#[trigger] entries[i]).lines
                >= lines,
        text::rank_from(entries, lines, from) < entries.len() ==> entries[text::rank_from(
            entries,
            lines,
            from,
        )].lines < lines,
    decreases entries.len() - from,
{
    if from < entries.len() && entries[from].lines >= lines {
        lemma_rank_bounds(entries, lines, from + 1);
    }
}

/// Languages of as many lines stay in their order: one that has no more lines than any
/// before it stands behind all of them, and one that has more than any before all of them.
pub proof fn law_languages_of_as_many_lines_keep_their_order(
    entries: Seq<LanguageLoc>,
    last: LanguageLoc,
)
    ensures
        (forall|i: int| 0 <= i < entries.len() ==> (#[trigger] entries[i]).lines >= last.lines)
            ==> text::ranked(entries.push(last)) == text::ranked(entries).push(last),
        (forall|i: int| 0 <= i < entries.len() ==> (#[trigger] entries[i]).lines < last.lines)
            ==> text::ranked(entries.push(last)) == seq![last] + text::ranked(entries),
{
    let before = text::ranked(entries);
    assert(entries.push(last).drop_last() =~= entries);
    lemma_rank_bounds(before, last.lines, 0);
    let at = text::rank_from(before, last.lines, 0);
    if forall|i: int| 0 <= i < entries.len() ==> (#[trigger] entries[i]).lines >= last.lines {
        lemma_ranked_keeps(entries, last.lines);
        assert(at == before.len());
        assert(before.insert(at, last) =~= before.push(last));
    }
    if forall|i: int| 0 <= i < entries.len() ==> (#[trigger] entries[i]).lines < last.lines {
        lemma_ranked_stays_below(entries, last.lines);
        assert(at == 0) by {
            if before.len() > 0 {
                assert(before[0].lines < last.lines);
            }
        }
        assert(before.insert(0, last) =~= seq![last] + before);
    }
}

proof fn lemma_ranked_stays_below(entries: Seq<LanguageLoc>, bound: u64)
    requires
        forall|i: int| 0 <= i < entries.len() ==> (#[trigger] entries[i]).lines < bound,
    ensures
        forall|i: int|
            0 <= i < text::ranked(entries).len() ==> (#[trigger] text::ranked(entries)[i]).lines
                < bound,
    decreases entries.len(),
{
    if entries.len() > 0 {
        let front = entries.drop_last();
        let last = entries[entries.len() - 1];
        assert forall|i: int| 0 <= i < front.len() implies (#[trigger] front[i]).lines < bound by {
            assert(front[i] == entries[i]);
        }
        lemma_ranked_stays_below(front, bound);
        let before = text::ranked(front);
        lemma_rank_bounds(before, last.lines, 0);
        let at = text::rank_from(before, last.lines, 0);
        let after = before.insert(at, last);
        assert forall|i: int| 0 <= i < after.len() implies (#[trigger] after[i]).lines < bound by {
            if i < at {
                assert(after[i] == before[i]);
            } else if i > at {
                assert(after[i] == before[i - 1]);
            }
        }
    }
}

/// A rail has its name between dashes, which go on to its end, and is joined to the frame.
pub proof fn law_rails_have_their_names(name: Seq<char>, width: nat)
    ensures
        ({
            let rail = text::rail_of(name, width).fragments;
            let joined = text::connected_rail(name, width).fragments;
            &&& rail.len() == 3
            &&& rail[0].text == strings::sanitized("─ "@) && rail[0].role == Role::Border
            &&& rail[1].role == Role::Primary
            &&& rail[2].role == Role::Border
            &&& joined.len() == 5
            &&& joined[0].text == strings::sanitized("├"@)
            &&& joined[4].text == strings::sanitized("┤"@)
            &&& joined.subrange(1, 4) == rail
        }),
{
    let rail = text::rail_of(name, width).fragments;
    let joined = text::connected_rail(name, width).fragments;
    assert(joined.subrange(1, 4) =~= rail);
}

/// The dashes of a rail go on as far as its name leaves room.
pub proof fn law_rails_fill_their_width(name: Seq<char>, width: nat)
    requires
        crate::render::cells::cell_width(name) + 3 <= width < usize::MAX,
    ensures
        ({
            let rail = text::rail_of(name, width).fragments;
            let cells = crate::render::cells::cell_width(name);
            &&& rail[1].text == strings::sanitized(name)
            &&& rail[2].text == strings::sanitized(
                " "@ + strings::repeated('─', (width - cells - 3) as nat),
            )
        }),
{
}

/// The frame begins with the title between its corners, and ends with dashes between its
/// corners.
pub proof fn law_frames_have_their_corners(title: Seq<SpanView>, inner: nat)
    ensures
        ({
            let top = text::top_row(title, inner).fragments;
            let bottom = text::bottom_row(inner).fragments;
            let shown = text::fit_spans(
                title,
                if inner >= 2 {
                    (inner - 2) as nat
                } else {
                    0
                },
            );
            &&& top.len() == shown.len() + 3
            &&& top[0].text == strings::sanitized("╭─"@)
            &&& top.subrange(1, 1 + shown.len() as int) == shown
            &&& top[1 + shown.len() as int].text.len() > 0
            &&& top[1 + shown.len() as int].text[0] == ' '
            &&& top.last().text == strings::sanitized("╮"@)
            &&& bottom.len() == 3
            &&& bottom[0].text == strings::sanitized("╰"@)
            &&& bottom[1].text == strings::sanitized(strings::repeated('─', inner))
            &&& bottom[2].text == strings::sanitized("╯"@)
        }),
{
    reveal_strlit(" ");
    let top = text::top_row(title, inner).fragments;
    let shown = text::fit_spans(title, text::beyond(inner, 2));
    assert(top.subrange(1, 1 + shown.len() as int) =~= shown);
}

/// The head of a table names its columns, with `usage` above the meters.
pub proof fn law_heads_name_their_columns(name: Seq<char>, detail: Seq<char>)
    ensures
        ({
            let head = text::header_of(name, detail);
            &&& head.fragments.len() == 3
            &&& head.flex is Some && head.flex->0.at == 2
            &&& head.flex->0.kind == FlexView::Caption("usage"@)
            &&& head.flex->0.compact == Some(Seq::<SpanView>::empty())
            &&& head.fragments[1].text == strings::sanitized(strings::padded_right(name, 22))
            &&& head.role == Role::Secondary
        }),
{
}

/// The telemetry tells of the lines and then of the coverage, each where it is known.
pub proof fn law_lines_are_told_before_coverage(snapshot: Snapshot)
    ensures
        ({
            let rows = text::telemetry_rows(snapshot);
            let project = snapshot.project->0;
            &&& snapshot.project is None ==> rows.len() == 0
            &&& snapshot.project is Some && project.loc is Some && project.coverage is Some ==> rows
                == text::loc_rows(project.loc->0) + text::coverage_rows(project.coverage->0)
            &&& snapshot.project is Some && project.loc is Some && project.coverage is None ==> rows
                == text::loc_rows(project.loc->0)
            &&& snapshot.project is Some && project.loc is None && project.coverage is Some ==> rows
                == text::coverage_rows(project.coverage->0)
        }),
{
}

/// The system is told by its CPU with the time that it has been up, then its memory, then
/// its disks.
pub proof fn law_the_system_is_told_in_order(snapshot: Snapshot)
    ensures
        ({
            let rows = text::system_rows(snapshot);
            let memory = text::memory_table(snapshot);
            let disks = text::disk_table(values::distinct_disks(snapshot.system.disks@));
            let cpu = snapshot.system.cpu is Some && values::cpu_text(snapshot.system.cpu->0).len()
                > 0;
            let up = snapshot.system.uptime is Some;
            let first = if cpu || up {
                1int
            } else {
                0
            };
            &&& rows.len() == first + memory.len() + disks.len()
            &&& rows.subrange(first, first + memory.len()) == memory
            &&& rows.skip(first + memory.len()) == disks
            &&& cpu ==> rows[0].fragments.len() == 2 && rows[0].fragments[1].text
                == strings::sanitized(values::cpu_text(snapshot.system.cpu->0))
                && rows[0].fragments[1].role == Role::System(SystemRole::Cpu)
            &&& cpu && up ==> rows[0].trailing.len() == 2 && rows[0].trailing[0].text
                == strings::sanitized("uptime "@)
            &&& !cpu && up ==> rows[0].fragments.len() == 2 && rows[0].fragments[0].text
                == strings::sanitized("uptime "@)
        }),
{
    let rows = text::system_rows(snapshot);
    let memory = text::memory_table(snapshot);
    let disks = text::disk_table(values::distinct_disks(snapshot.system.disks@));
    let cpu = snapshot.system.cpu is Some && values::cpu_text(snapshot.system.cpu->0).len() > 0;
    let first = if cpu || snapshot.system.uptime is Some {
        1int
    } else {
        0
    };
    assert(rows.subrange(first, first + memory.len()) =~= memory);
    assert(rows.skip(first + memory.len()) =~= disks);
}

/// The context tells of the time, the day, the repository and the diagnostics, in this
/// order: the time first, and the diagnostics last, one row each in their order.
pub proof fn law_the_context_is_told_in_order(snapshot: Snapshot)
    ensures
        ({
            let rows = text::context_rows(snapshot);
            let told = snapshot.diagnostics@;
            let clock = values::time_text(snapshot);
            let day = snapshot.time.day_progress_percent is Some
                && snapshot.time.day_progress_percent->0.finite();
            let first = rows.len() - told.len();
            &&& clock is Some ==> rows.len() > told.len() && rows[0] == text::guttered(
                "time"@,
                6,
                clock->0,
                Role::Time,
            )
            &&& first == (if clock is Some {
                1int
            } else {
                0
            }) + (if day {
                2int
            } else {
                0
            }) + (if snapshot.git is Some {
                1int
            } else {
                0
            })
            &&& snapshot.git is Some ==> rows[first - 1] == text::row_of(
                Role::Git,
                text::count_spans(text::git_counts(snapshot.git->0)),
            )
            &&& forall|i: int|
                0 <= i < told.len() ==> #[trigger] rows[first + i] == text::diagnostic_row(told[i])
        }),
{
}

/// Two rows side by side share the width: each has half of what three cells between them
/// leave, the odd one at the right.
pub proof fn law_paired_rows_share_the_width(
    role: Role,
    left: LineView,
    right: LineView,
    width: nat,
)
    requires
        width >= 3,
    ensures
        ({
            let row = text::paired_row(role, left, right, width);
            let half = ((width - 3) / 2) as nat;
            let rest = (width - 3 - half) as nat;
            let laid = text::layout_of(left, half);
            &&& half <= rest <= half + 1
            &&& row.role == role
            &&& row.fragments.take(laid.len() as int) == laid
            &&& row.fragments.skip(laid.len() as int + 1) == text::layout_of(right, rest)
            &&& text::spans_cells(laid) <= half ==> row.fragments[laid.len() as int].text
                == strings::sanitized(
                strings::blank((half - text::spans_cells(laid) + 3) as nat),
            )
        }),
{
    let row = text::paired_row(role, left, right, width);
    let half = ((width - 3) / 2) as nat;
    let laid = text::layout_of(left, half);
    assert(row.fragments.take(laid.len() as int) =~= laid);
    assert(row.fragments.skip(laid.len() as int + 1) =~= text::layout_of(
        right,
        (width - 3 - half) as nat,
    ));
}

/// Where a report came from ends with how fresh it is, in the role of that.
pub proof fn law_provenance_ends_with_freshness(coverage: Coverage, first: bool)
    ensures
        ({
            let last = text::provenance_row(coverage, first).fragments.last();
            &&& coverage.stale == Freshness::Current ==> last.text == strings::sanitized("current"@)
            &&& coverage.stale == Freshness::Stale ==> last.text == strings::sanitized("stale"@)
            &&& coverage.stale == Freshness::Unknown ==> last.text == strings::sanitized("unknown"@)
            &&& last.role == values::coverage_role_of(coverage.stale)
        }),
{
}

/// A terminal that was taken over has raw input, the alternate screen and no cursor, taken
/// in this order; where one of them failed, that is the failure, and nothing behind it was
/// taken.
pub proof fn law_terminals_are_taken_over_in_order(
    history: Seq<Performed>,
    result: Result<LiveTerminalGuard, String>,
)
    requires
        terminal::entered(history, result),
    ensures
        result is Ok ==> {
            &&& result->Ok_0.raw && result->Ok_0.alternate && result->Ok_0.cursor_hidden
            &&& history.len() == 3
            &&& history[0].step == TerminalStep::EnableRaw && history[0].failure is None
            &&& history[1].step == TerminalStep::EnterAlternate && history[1].failure is None
            &&& history[2].step == TerminalStep::HideCursor && history[2].failure is None
        },
        result is Err ==> {
            &&& history.len() > 0 && history[0].step == TerminalStep::EnableRaw
            &&& history[0].failure is Some ==> history.len() == 1 && result->Err_0@
                == history[0].failure->0
            &&& history[0].failure is None ==> history.last().step == TerminalStep::DisableRaw
        },
{
    let steps = terminal::steps_of(history);
    assert(steps.len() == history.len());
    assert(forall|i: int| 0 <= i < history.len() ==> #[trigger] steps[i] == history[i].step);
    reveal_with_fuel(terminal::first_failure, 5);
    let one = seq![TerminalStep::EnableRaw];
    let two = one.push(TerminalStep::EnterAlternate);
    let three = two.push(TerminalStep::HideCursor);
    if result is Ok {
        assert(steps == three);
        assert(three[0] == TerminalStep::EnableRaw);
        assert(three[1] == TerminalStep::EnterAlternate);
        assert(three[2] == TerminalStep::HideCursor);
        assert(history[0].step == steps[0]);
        assert(history[1].step == steps[1]);
        assert(history[2].step == steps[2]);
        assert(history.skip(1)[0] == history[1]);
        assert(history.skip(1).skip(1)[0] == history[2]);
    } else {
        let none = LiveTerminalGuard { raw: false, alternate: false, cursor_hidden: false };
        let raw = LiveTerminalGuard { raw: true, ..none };
        let alternate = LiveTerminalGuard { alternate: true, ..raw };
        let back = terminal::restoring(raw);
        let far = terminal::restoring(alternate);
        assert(back.len() == 1 && back[0] == TerminalStep::DisableRaw);
        assert(far.len() == 2 && far[1] == TerminalStep::DisableRaw);
        assert((two + back)[2] == back[0]);
        assert((three + far)[4] == far[1]);
        assert(one[0] == TerminalStep::EnableRaw);
        assert((two + back)[0] == TerminalStep::EnableRaw);
        assert((three + far)[0] == TerminalStep::EnableRaw);
        assert(steps.len() > 0);
        assert(history[0].step == steps[0]);
        assert(history[history.len() - 1].step == steps[steps.len() - 1]);
    }
}

/// The first failure of some steps is that of the first step that failed.
pub proof fn law_the_first_failure_is_told(history: Seq<Performed>, at: int)
    requires
        0 <= at < history.len(),
        history[at].failure is Some,
        forall|i: int| 0 <= i < at ==> (#[trigger] history[i]).failure is None,
    ensures
        terminal::first_failure(history) == history[at].failure,
    decreases at,
{
    if at > 0 {
        let rest = history.skip(1);
        assert(history[0].failure is None);
        assert forall|i: int| 0 <= i < at - 1 implies (#[trigger] rest[i]).failure is None by {
            assert(rest[i] == history[i + 1]);
        }
        law_the_first_failure_is_told(rest, at - 1);
    }
}

} // verus!
