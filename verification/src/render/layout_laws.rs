//! What laying a card out promises: that nothing is lost of a row that has room, and that
//! every row of the body has its place in the card.
use vstd::prelude::*;
use crate::model::Snapshot;
use crate::render::cells;
use crate::render::laws;
use crate::render::text;
use crate::render::text::{LineView, SectionView, SpanView, TextOptions};
use crate::render::theme;
use crate::render::theme::Role;
use crate::strings;

verus! {

/// Every span takes a cell at least.
pub open spec fn all_visible(spans: Seq<SpanView>) -> bool {
    forall|i: int| 0 <= i < spans.len() ==> cells::cell_width((#[trigger] spans[i]).text) > 0
}

/// Text that fits is shown as it is.
pub proof fn law_text_that_fits_is_shown_whole(text: Seq<char>, width: nat)
    requires
        cells::cell_width(text) <= width,
    ensures
        cells::fitted(text, width) == text,
{
}

/// Text that does not fit is cut to its two ends round an ellipsis, each of them as it
/// stands in the text.
pub proof fn law_text_that_does_not_fit_keeps_its_ends(text: Seq<char>, width: nat)
    requires
        cells::cell_width(text) > width,
        width >= 2,
    ensures
        exists|front: int, back: int|
            #![trigger text.take(front), text.skip(back)]
            0 <= front <= text.len() && 0 <= back <= text.len() && cells::fitted(text, width)
                == text.take(front) + "…"@ + text.skip(back),
{
    let left = (width - 1) as nat / 2;
    let right = (width - 1 - left) as nat;
    let front = cells::fitting_from(text, left, 0) as int;
    cells::lemma_fitting_bounds(text, left, 0);
    let count = cells::longest_end(text, right, cells::fitting_from(text.reverse(), right, 0));
    cells::lemma_fitting_bounds(text.reverse(), right, 0);
    lemma_longest_end(text, right, cells::fitting_from(text.reverse(), right, 0));
    let back = text.len() - count;
    assert(cells::fitted(text, width) == text.take(front) + "…"@ + text.skip(back));
}

proof fn lemma_longest_end(text: Seq<char>, limit: nat, count: nat)
    ensures
        cells::longest_end(text, limit, count) <= count,
    decreases count,
{
    if count > 0 && cells::cell_width(text.skip(text.len() - count)) > limit {
        lemma_longest_end(text, limit, (count - 1) as nat);
    }
}

proof fn lemma_fit_state_keeps(spans: Seq<SpanView>, width: nat)
    requires
        width <= usize::MAX,
        text::spans_cells(spans) <= width,
        all_visible(spans),
        text::spans_cells(spans) < usize::MAX,
    ensures
        text::fit_state(spans, width) == (spans, text::spans_cells(spans)),
    decreases spans.len(),
{
    if spans.len() > 0 {
        let front = spans.drop_last();
        let last = spans[spans.len() - 1];
        assert(cells::cell_width(last.text) > 0);
        assert forall|i: int| 0 <= i < front.len() implies cells::cell_width(
            (#[trigger] front[i]).text,
        ) > 0 by {
            assert(front[i] == spans[i]);
        }
        lemma_fit_state_keeps(front, width);
        assert(cells::fitted(last.text, (width - text::spans_cells(front)) as nat) == last.text);
        assert(front.push(last) =~= spans);
    } else {
        assert(spans =~= Seq::empty());
    }
}

/// Spans that fit together are kept, all of them, in their order and as they are.
pub proof fn law_spans_that_fit_are_kept(spans: Seq<SpanView>, width: nat)
    requires
        width < usize::MAX,
        text::spans_cells(spans) <= width,
        all_visible(spans),
    ensures
        text::fit_spans(spans, width) == spans,
{
    lemma_fit_state_keeps(spans, width);
}

/// A row without an instrument and without support at its right is laid out as it is,
/// wherever it fits.
pub proof fn law_plain_rows_are_laid_out_as_they_are(line: LineView, width: nat)
    requires
        line.flex is None,
        line.trailing.len() == 0,
        width < usize::MAX,
        text::spans_cells(line.fragments) <= width,
        all_visible(line.fragments),
    ensures
        text::layout_of(line, width) == line.fragments,
{
    law_spans_that_fit_are_kept(line.fragments, width);
}

/// Support stands at the right edge of its row, behind two blank cells at least, wherever
/// both fit; where they do not, it is left out and the row stands alone.
pub proof fn law_support_stands_at_the_right_edge(line: LineView, width: nat)
    requires
        line.flex is None,
        line.trailing.len() > 0,
        width < usize::MAX,
        all_visible(line.fragments),
        all_visible(line.trailing),
    ensures
        ({
            let used = text::spans_cells(line.fragments);
            let behind = text::spans_cells(line.trailing);
            let laid = text::layout_of(line, width);
            &&& used + 2 + behind <= width ==> laid == line.fragments.push(
                text::solid(strings::blank((width - used - behind) as nat), Role::Text),
            ) + line.trailing
            &&& used <= width && used + 2 + behind > width ==> laid == line.fragments
        }),
{
    let used = text::spans_cells(line.fragments);
    let behind = text::spans_cells(line.trailing);
    if used + 2 + behind <= width {
        let gap = text::solid(strings::blank((width - used - behind) as nat), Role::Text);
        let blank = strings::blank((width - used - behind) as nat);
        assert(gap.text =~= blank);
        assert(cells::plain_glyphs(blank));
        cells::law_plain_glyphs_take_one_cell(blank);
        let front = line.fragments.push(gap);
        assert(front.drop_last() =~= line.fragments);
        assert(text::spans_cells(front) == used + blank.len());
        let all = front + line.trailing;
        lemma_cells_of_sum(front, line.trailing);
        assert forall|i: int| 0 <= i < all.len() implies cells::cell_width(
            (#[trigger] all[i]).text,
        ) > 0 by {
            if i < line.fragments.len() {
                assert(all[i] == line.fragments[i]);
            } else if i == line.fragments.len() {
                assert(all[i] == gap);
            } else {
                assert(all[i] == line.trailing[i - front.len()]);
            }
        }
        law_spans_that_fit_are_kept(all, width);
    } else if used <= width {
        law_spans_that_fit_are_kept(line.fragments, width);
    }
}

proof fn lemma_cells_of_sum(first: Seq<SpanView>, second: Seq<SpanView>)
    requires
        text::spans_cells(first) + text::spans_cells(second) < usize::MAX,
    ensures
        text::spans_cells(first + second) == text::spans_cells(first) + text::spans_cells(second),
    decreases second.len(),
{
    if second.len() == 0 {
        assert(first + second =~= first);
    } else {
        assert((first + second).drop_last() =~= first + second.drop_last());
        assert((first + second).last() == second.last());
        lemma_cells_of_sum(first, second.drop_last());
    }
}

/// An instrument stands at its place in the row, in as many cells as the row leaves for it,
/// but in no more than it may have; where fewer are left than it needs it is not drawn.
pub proof fn law_instruments_take_the_room_that_is_left(line: LineView, width: nat)
    requires
        line.flex is Some,
        line.trailing.len() == 0,
        text::spans_cells(line.fragments) <= width,
        line.flex->0.min > 0,
        line.flex->0.min <= line.flex->0.max,
    ensures
        ({
            let left = width - text::spans_cells(line.fragments);
            let drawn = text::flex_cells_of(line, width).0;
            &&& left < line.flex->0.min ==> drawn == 0
            &&& line.flex->0.min <= left <= line.flex->0.max ==> drawn == left
            &&& left > line.flex->0.max ==> drawn == line.flex->0.max
        }),
{
}

proof fn lemma_spans_sum(first: Seq<SpanView>, second: Seq<SpanView>)
    ensures
        text::spans_text(first + second) == text::spans_text(first) + text::spans_text(second),
    decreases second.len(),
{
    if second.len() == 0 {
        assert(first + second =~= first);
        assert(text::spans_text(first) + text::spans_text(second) =~= text::spans_text(first));
    } else {
        assert((first + second).drop_last() =~= first + second.drop_last());
        assert((first + second).last() == second.last());
        lemma_spans_sum(first, second.drop_last());
        assert(text::spans_text(first + second) =~= text::spans_text(first) + text::spans_text(
            second,
        ));
    }
}

/// A framed row says its line between the two sides of the frame, each with one blank
/// cell, and blanks up to its width.
pub proof fn law_framed_rows_say_their_line(line: LineView, content: nat)
    requires
        line.flex is None,
        line.trailing.len() == 0,
        content < usize::MAX,
        text::spans_cells(line.fragments) <= content,
        all_visible(line.fragments),
    ensures
        text::spans_text(text::framed(line, content).fragments) == "│ "@ + text::spans_text(
            line.fragments,
        ) + strings::blank((content - text::spans_cells(line.fragments)) as nat) + " │"@,
{
    law_plain_rows_are_laid_out_as_they_are(line, content);
    let blank = strings::blank((content - text::spans_cells(line.fragments)) as nat);
    let first = text::solid("│ "@, Role::Border);
    let gap = text::solid(blank, Role::Text);
    let last = text::solid(" │"@, Role::Border);
    reveal_strlit("│ ");
    reveal_strlit(" │");
    assert(first.text =~= "│ "@);
    assert(gap.text =~= blank);
    assert(last.text =~= " │"@);
    let front = seq![first] + line.fragments;
    lemma_spans_sum(seq![first], line.fragments);
    assert(seq![first].drop_last() =~= Seq::<SpanView>::empty());
    assert(text::spans_text(seq![first].drop_last()) =~= Seq::<char>::empty());
    assert(text::spans_text(seq![first]) =~= first.text);
    assert(front.push(gap).drop_last() =~= front);
    assert(front.push(gap).push(last).drop_last() =~= front.push(gap));
    let all = front.push(gap).push(last);
    assert(text::framed(line, content).fragments == all);
    assert(text::spans_text(front) == "│ "@ + text::spans_text(line.fragments));
    assert(text::spans_text(front.push(gap)) == text::spans_text(front) + blank);
    assert(text::spans_text(all) == text::spans_text(front.push(gap)) + " │"@);
}

/// The normal card has one row for each row of its body, in their order, between the top
/// and the bottom of its frame; without a frame it has just those rows.
pub proof fn law_every_row_of_the_body_has_its_place(
    snapshot: Snapshot,
    options: TextOptions,
    at: int,
)
    requires
        !options.full,
        0 <= at < text::normal_identity_of(snapshot).len(),
    ensures
        ({
            let width = text::card_width(options);
            let rows = text::card_rows(snapshot, options);
            let body = text::normal_identity_of(snapshot);
            let framed = !options.embedded && width >= 20;
            &&& framed ==> rows.len() == body.len() + 2 && rows[at + 1] == text::framed(
                body[at],
                (width - 4) as nat,
            )
            &&& !framed ==> rows.len() == body.len() && rows[at] == text::laid_row(body[at], width)
        }),
{
    let width = text::card_width(options);
    let body = text::card_body_of(snapshot, false);
    assert(body.sections.len() == 0);
    assert(text::framed_sections(body.sections, width) =~= Seq::<LineView>::empty());
    assert(text::bare_sections(body.sections, width) =~= Seq::<LineView>::empty());
}

/// What a plain framed card prints of a row of its body is that row, wherever it fits.
pub proof fn law_printed_rows_say_their_line(snapshot: Snapshot, options: TextOptions, at: int)
    requires
        !options.full,
        !options.color,
        !options.embedded,
        text::card_width(options) >= 20,
        0 <= at < text::normal_identity_of(snapshot).len(),
        ({
            let line = text::normal_identity_of(snapshot)[at];
            &&& line.flex is None
            &&& line.trailing.len() == 0
            &&& text::spans_cells(line.fragments) <= text::card_width(options) - 4
            &&& all_visible(line.fragments)
        }),
    ensures
        ({
            let line = text::normal_identity_of(snapshot)[at];
            let content = (text::card_width(options) - 4) as nat;
            text::card_texts(snapshot, options)[at + 1] == "│ "@ + text::spans_text(line.fragments)
                + strings::blank((content - text::spans_cells(line.fragments)) as nat) + " │"@
        }),
{
    let line = text::normal_identity_of(snapshot)[at];
    let content = (text::card_width(options) - 4) as nat;
    law_every_row_of_the_body_has_its_place(snapshot, options, at);
    law_framed_rows_say_their_line(line, content);
    laws::law_plain_rows_are_their_fragments(
        text::framed(line, content).fragments,
        theme::palette_of(options.theme),
    );
}

/// The width of a card: that of the terminal, as far as the mode goes, and 40 cells where
/// no terminal is known.
pub proof fn law_cards_are_as_wide_as_their_terminal(options: TextOptions)
    ensures
        options.width is None ==> text::card_width(options) == 40,
        options.width is Some && !options.full && 1 <= options.width->0 <= 104
            ==> text::card_width(options) == options.width->0,
        options.width is Some && options.full && 1 <= options.width->0 <= 120 ==> text::card_width(
            options,
        ) == options.width->0,
        options.width is Some && !options.full && options.width->0 > 104 ==> text::card_width(
            options,
        ) == 104,
        options.width is Some && options.full && options.width->0 > 120 ==> text::card_width(
            options,
        ) == 120,
{
}

/// Rows that have a form at a width are all shown, in their order; those that have none are
/// left out.
pub proof fn law_rows_with_a_form_are_shown(lines: Seq<LineView>, last: LineView, width: nat)
    ensures
        text::omitted(last, width) ==> text::shown_lines(lines.push(last), width)
            == text::shown_lines(lines, width),
        !text::omitted(last, width) ==> text::shown_lines(lines.push(last), width)
            == text::shown_lines(lines, width).push(last),
        text::shown_lines(Seq::empty(), width).len() == 0,
        last.flex is None ==> !text::omitted(last, width),
{
    assert(lines.push(last).drop_last() =~= lines);
}

/// A band stands behind those before it, under a rail of its name, with its rows.
pub proof fn law_bands_stand_in_order(sections: Seq<SectionView>, last: SectionView, width: nat)
    requires
        width >= 20,
    ensures
        text::framed_sections(sections.push(last), width) == text::framed_sections(
            sections,
            width,
        ).push(text::connected_rail(last.name, (width - 2) as nat)) + text::framed_all(
            text::section_rows_of(last, (width - 4) as nat, width >= 80),
            (width - 4) as nat,
        ),
        last.right.len() == 0 ==> text::section_rows_of(last, (width - 4) as nat, width >= 80)
            == text::shown_lines(last.left, (width - 4) as nat),
{
    assert(sections.push(last).drop_last() =~= sections);
    if last.right.len() == 0 {
        let inner = (width - 4) as nat;
        assert(last.left.skip(0) =~= last.left);
        assert(last.right.skip(0) =~= last.right);
        assert(last.right =~= Seq::<LineView>::empty());
        assert(text::section_rows_of(last, inner, width >= 80) =~= text::shown_lines(
            last.left,
            inner,
        ));
    }
}

/// The full card has the bands of system, context and project, in this order, each where
/// it has rows.
pub proof fn law_the_full_card_has_its_bands(snapshot: Snapshot)
    ensures
        ({
            let bands = text::card_body_of(snapshot, true).sections;
            let system = text::system_rows(snapshot);
            let context = text::context_rows(snapshot);
            let project = text::telemetry_rows(snapshot);
            let second = if system.len() > 0 {
                1int
            } else {
                0
            };
            let third = second + if context.len() > 0 {
                1int
            } else {
                0
            };
            &&& bands.len() == third + if project.len() > 0 {
                1int
            } else {
                0
            }
            &&& system.len() > 0 ==> bands[0].name == "system & health"@ && bands[0].left == system
            &&& context.len() > 0 ==> bands[second].name == "active context"@ && bands[second].left
                == context
            &&& project.len() > 0 ==> bands[third].name == "project telemetry"@
                && bands[third].left == project
        }),
        text::card_body_of(snapshot, true).identity_layout_height == 6,
        text::card_body_of(snapshot, false).identity_layout_height == text::normal_identity_of(
            snapshot,
        ).len(),
{
}

/// The normal card tells place, machine, memory, disk, day, project and diagnostic, in this
/// order.
pub proof fn law_the_normal_card_tells_in_order(snapshot: Snapshot)
    requires
        ({
            let health = Role::System(theme::SystemRole::Health);
            let rows = text::supported(
                Role::Primary,
                text::place_spans(snapshot),
                Role::Primary,
                text::runtime_spans(snapshot, false),
            ) + text::supported(
                health,
                text::machine_spans(snapshot),
                health,
                text::uptime_spans(snapshot, "up "@),
            );
            rows.len() + text::memory_rows(snapshot).len() + text::disk_rows(snapshot).len()
                + text::clock_rows(snapshot).len() + text::summary_rows(snapshot).len()
                + text::warning_rows(snapshot).len() <= 9
        }),
    ensures
        ({
            let rows = text::normal_identity_of(snapshot);
            let warnings = text::warning_rows(snapshot);
            let summary = text::summary_rows(snapshot);
            &&& warnings.len() > 0 ==> rows.len() > 0 && rows.last() == warnings.last()
            &&& summary.len() > 0 ==> rows.contains(summary[0])
            &&& text::memory_rows(snapshot).len() > 0 ==> rows.contains(
                text::memory_rows(snapshot)[0],
            )
            &&& text::disk_rows(snapshot).len() > 0 ==> rows.contains(text::disk_rows(snapshot)[0])
            &&& text::clock_rows(snapshot).len() > 0 ==> rows.contains(
                text::clock_rows(snapshot)[0],
            )
        }),
{
    let health = Role::System(theme::SystemRole::Health);
    let head = text::supported(
        Role::Primary,
        text::place_spans(snapshot),
        Role::Primary,
        text::runtime_spans(snapshot, false),
    ) + text::supported(
        health,
        text::machine_spans(snapshot),
        health,
        text::uptime_spans(snapshot, "up "@),
    );
    lemma_in_order(
        head,
        text::memory_rows(snapshot),
        text::disk_rows(snapshot),
        text::clock_rows(snapshot),
        text::summary_rows(snapshot),
        text::warning_rows(snapshot),
    );
}

proof fn lemma_in_order(
    head: Seq<LineView>,
    memory: Seq<LineView>,
    disk: Seq<LineView>,
    clock: Seq<LineView>,
    summary: Seq<LineView>,
    warnings: Seq<LineView>,
)
    ensures
        ({
            let rows = head + memory + disk + clock + summary + warnings;
            &&& warnings.len() > 0 ==> rows.len() > 0 && rows.last() == warnings.last()
            &&& summary.len() > 0 ==> rows.contains(summary[0])
            &&& memory.len() > 0 ==> rows.contains(memory[0])
            &&& disk.len() > 0 ==> rows.contains(disk[0])
            &&& clock.len() > 0 ==> rows.contains(clock[0])
        }),
{
    let rows = head + memory + disk + clock + summary + warnings;
    let at_memory = head.len() as int;
    let at_disk = at_memory + memory.len();
    let at_clock = at_disk + disk.len();
    let at_summary = at_clock + clock.len();
    if memory.len() > 0 {
        assert(rows[at_memory] == memory[0]);
    }
    if disk.len() > 0 {
        assert(rows[at_disk] == disk[0]);
    }
    if clock.len() > 0 {
        assert(rows[at_clock] == clock[0]);
    }
    if summary.len() > 0 {
        assert(rows[at_summary] == summary[0]);
    }
}

} // verus!
