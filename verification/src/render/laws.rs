//! What holds of every card.
use vstd::prelude::*;
use crate::model::Snapshot;
use crate::render::cells;
use crate::render::text;
use crate::render::text::{
    BodyView, FlexView, LineView, SectionView, SpanView, TextOptions, FULL_GUTTER, TRAILING_GAP,
};
use crate::render::theme;
use crate::render::theme::{Palette, Role};
use crate::strings;

verus! {

pub proof fn lemma_plain_sanitized(text: Seq<char>)
    requires
        cells::plain_glyphs(text),
    ensures
        strings::sanitized(text) == text,
{
    assert forall|i: int| 0 <= i < text.len() implies !strings::control(#[trigger] text[i]) by {
        assert(cells::plain_glyph(text[i]));
    }
    assert(strings::sanitized(text) =~= text);
}

/// A solid span of plain glyphs takes one cell for each.
pub proof fn lemma_plain_solid(text: Seq<char>, role: Role)
    requires
        cells::plain_glyphs(text),
    ensures
        text::solid(text, role).text == text,
        cells::cell_width(text) == text.len(),
{
    cells::lemma_regular_cells();
    lemma_plain_sanitized(text);
}

pub proof fn lemma_repeated_plain(c: char, count: nat)
    requires
        cells::plain_glyph(c),
    ensures
        cells::plain_glyphs(strings::repeated(c, count)),
        strings::repeated(c, count).len() == count,
{
}

/// Fitted spans take at most the width, and exactly what the fitting counted.
pub proof fn lemma_fit_state(spans: Seq<SpanView>, width: nat)
    requires
        width <= usize::MAX,
    ensures
        text::fit_state(spans, width).1 <= width,
        text::spans_cells(text::fit_state(spans, width).0) == text::fit_state(spans, width).1,
    decreases spans.len(),
{
    if spans.len() > 0 {
        lemma_fit_state(spans.drop_last(), width);
        let before = text::fit_state(spans.drop_last(), width);
        if before.1 < width {
            let room = (width - before.1) as nat;
            cells::law_fitted_text_fits(spans.last().text, room);
            let cut = cells::fitted(spans.last().text, room);
            assert(cells::cell_width(cut) <= room);
            let after = text::fit_state(spans, width);
            assert(after.0.drop_last() =~= before.0);
        }
    }
}

pub proof fn lemma_fitted_plain(text: Seq<char>, width: nat)
    requires
        cells::plain_glyphs(text),
    ensures
        cells::plain_glyphs(cells::fitted(text, width)),
{
    reveal_strlit("…");
    let left = text::beyond(width, 1) / 2;
    let right = text::beyond(width, 1 + left);
    cells::lemma_ends_fit(text, left);
    cells::lemma_ends_fit(text, right);
    let cut = cells::fitted(text, width);
    assert forall|i: int| 0 <= i < cut.len() implies cells::plain_glyph(#[trigger] cut[i]) by {}
}

/// A line laid out takes at most its width.
pub proof fn law_layout_fits(line: LineView, width: nat)
    requires
        width <= usize::MAX,
    ensures
        text::spans_cells(text::layout_of(line, width)) <= width,
{
    let (count, keep) = text::flex_cells_of(line, width);
    match line.flex {
        Some(slot) => {
            if count == 0 && slot.compact is Some {
                lemma_fit_state(slot.compact->0, width);
            } else if count > 0 {
                let at = text::smaller(slot.at, line.fragments.len()) as int;
                let middle = text::flex_spans_of(slot.kind, count);
                lemma_aligned_fits(
                    line.fragments.take(at) + middle + line.fragments.skip(at),
                    keep,
                    line.trailing,
                    width,
                );
            } else {
                lemma_aligned_fits(line.fragments, keep, line.trailing, width);
            }
        },
        None => {
            lemma_aligned_fits(line.fragments, keep, line.trailing, width);
        },
    }
}

proof fn lemma_aligned_fits(
    spans: Seq<SpanView>,
    keep: bool,
    trailing: Seq<SpanView>,
    width: nat,
)
    requires
        width <= usize::MAX,
    ensures
        text::spans_cells(text::aligned(spans, keep, trailing, width)) <= width,
{
    let used = text::spans_cells(spans);
    let behind = text::spans_cells(trailing);
    if keep && used + TRAILING_GAP + behind <= width {
        let pad = strings::blank((width - used - behind) as nat);
        lemma_fit_state(spans.push(text::solid(pad, Role::Text)) + trailing, width);
    } else {
        lemma_fit_state(spans, width);
    }
}

proof fn lemma_cells_push(spans: Seq<SpanView>, last: SpanView)
    ensures
        text::spans_cells(spans.push(last)) == text::held(
            text::spans_cells(spans),
            cells::cell_width(last.text),
        ),
{
    assert(spans.push(last).drop_last() =~= spans);
}

/// The cells of spans behind one span.
proof fn lemma_cells_behind(first: SpanView, rest: Seq<SpanView>)
    requires
        cells::cell_width(first.text) + text::spans_cells(rest) <= usize::MAX,
        text::spans_cells(rest) < usize::MAX,
    ensures
        text::spans_cells(seq![first] + rest) == cells::cell_width(first.text)
            + text::spans_cells(rest),
    decreases rest.len(),
{
    let all = seq![first] + rest;
    if rest.len() == 0 {
        assert(all =~= seq![first]);
        assert(seq![first].drop_last() =~= Seq::empty());
        assert(text::spans_cells(Seq::empty()) == 0);
    } else {
        let before = rest.drop_last();
        assert(all.drop_last() =~= seq![first] + before);
        lemma_cells_behind(first, before);
    }
}

/// A framed row takes its content's width and the four cells of the frame.
pub proof fn law_framed_row_width(line: LineView, content: nat)
    requires
        content + 4 < usize::MAX,
    ensures
        text::spans_cells(text::framed(line, content).fragments) == content + 4,
{
    cells::lemma_regular_cells();
    law_layout_fits(line, content);
    let laid = text::layout_of(line, content);
    let used = text::spans_cells(laid);
    reveal_strlit("│ ");
    reveal_strlit(" │");
    assert(cells::plain_glyphs("│ "@));
    assert(cells::plain_glyphs(" │"@));
    lemma_plain_solid("│ "@, Role::Border);
    lemma_plain_solid(" │"@, Role::Border);
    let pad = strings::blank(text::beyond(content, used));
    lemma_repeated_plain(' ', text::beyond(content, used));
    lemma_plain_solid(pad, Role::Text);
    let left = text::solid("│ "@, Role::Border);
    lemma_cells_behind(left, laid);
    let open = seq![left] + laid;
    lemma_cells_push(open, text::solid(pad, Role::Text));
    lemma_cells_push(open.push(text::solid(pad, Role::Text)), text::solid(" │"@, Role::Border));
}

proof fn lemma_rail_width(name: Seq<char>, width: nat)
    requires
        cells::plain_glyphs(name),
        3 <= width < usize::MAX,
    ensures
        text::spans_cells(text::rail_of(name, width).fragments) == width,
{
    cells::lemma_regular_cells();
    let title = cells::fitted(name, text::beyond(width, 3));
    cells::law_fitted_text_fits(name, text::beyond(width, 3));
    lemma_fitted_plain(name, text::beyond(width, 3));
    lemma_plain_solid(title, Role::Primary);
    assert(cells::cell_width(title) <= text::beyond(width, 3));
    let fill = text::beyond(width, text::held(cells::cell_width(title), 3));
    reveal_strlit("─ ");
    reveal_strlit(" ");
    assert(cells::plain_glyphs("─ "@));
    lemma_plain_solid("─ "@, Role::Border);
    let tail = " "@ + strings::repeated('─', fill);
    assert(cells::plain_glyphs(tail));
    lemma_plain_solid(tail, Role::Border);
    let none = Seq::<SpanView>::empty();
    let one = none.push(text::solid("─ "@, Role::Border));
    lemma_cells_push(none, text::solid("─ "@, Role::Border));
    let two = one.push(text::solid(title, Role::Primary));
    lemma_cells_push(one, text::solid(title, Role::Primary));
    lemma_cells_push(two, text::solid(tail, Role::Border));
    assert(text::spans_cells(none) == 0);
}

pub proof fn lemma_connected_rail_width(name: Seq<char>, inner: nat)
    requires
        cells::plain_glyphs(name),
        3 <= inner,
        inner + 2 < usize::MAX,
    ensures
        text::spans_cells(text::connected_rail(name, inner).fragments) == inner + 2,
{
    cells::lemma_regular_cells();
    lemma_rail_width(name, inner);
    reveal_strlit("├");
    reveal_strlit("┤");
    assert(cells::plain_glyphs("├"@));
    assert(cells::plain_glyphs("┤"@));
    lemma_plain_solid("├"@, Role::Border);
    lemma_plain_solid("┤"@, Role::Border);
    let rail = text::rail_of(name, inner).fragments;
    lemma_cells_behind(text::solid("├"@, Role::Border), rail);
    lemma_cells_push(seq![text::solid("├"@, Role::Border)] + rail, text::solid("┤"@, Role::Border));
}

pub proof fn lemma_edges_width(inner: nat)
    requires
        3 <= inner,
        inner + 2 < usize::MAX,
    ensures
        text::spans_cells(
            text::top_row(seq![text::solid("hoshino"@, Role::Primary)], inner).fragments,
        ) == inner + 2,
        text::spans_cells(text::bottom_row(inner).fragments) == inner + 2,
{
    cells::lemma_regular_cells();
    reveal_strlit("hoshino");
    reveal_strlit("╭─");
    reveal_strlit("╮");
    reveal_strlit("╰");
    reveal_strlit("╯");
    reveal_strlit(" ");
    let title = seq![text::solid("hoshino"@, Role::Primary)];
    assert(cells::plain_glyphs("hoshino"@));
    lemma_plain_solid("hoshino"@, Role::Primary);
    let room = text::beyond(inner, 2);
    lemma_fit_state(title, room);
    let shown = text::fit_spans(title, room);
    let used = text::spans_cells(shown);
    assert(cells::plain_glyphs("╭─"@));
    lemma_plain_solid("╭─"@, Role::Border);
    let fill = text::beyond(inner, text::held(used, 2));
    let tail = " "@ + strings::repeated('─', fill);
    assert(cells::plain_glyphs(tail));
    lemma_plain_solid(tail, Role::Border);
    assert(cells::plain_glyphs("╮"@));
    lemma_plain_solid("╮"@, Role::Border);
    let open = seq![text::solid("╭─"@, Role::Border)] + shown;
    lemma_cells_behind(text::solid("╭─"@, Role::Border), shown);
    lemma_cells_push(open, text::solid(tail, Role::Border));
    lemma_cells_push(open.push(text::solid(tail, Role::Border)), text::solid("╮"@, Role::Border));
    assert(cells::plain_glyphs("╰"@));
    assert(cells::plain_glyphs("╯"@));
    lemma_plain_solid("╰"@, Role::Border);
    lemma_plain_solid("╯"@, Role::Border);
    lemma_repeated_plain('─', inner);
    lemma_plain_solid(strings::repeated('─', inner), Role::Border);
    let none = Seq::<SpanView>::empty();
    let one = none.push(text::solid("╰"@, Role::Border));
    lemma_cells_push(none, text::solid("╰"@, Role::Border));
    let two = one.push(text::solid(strings::repeated('─', inner), Role::Border));
    lemma_cells_push(one, text::solid(strings::repeated('─', inner), Role::Border));
    lemma_cells_push(two, text::solid("╯"@, Role::Border));
    assert(text::spans_cells(none) == 0);
}

proof fn lemma_framed_sections_width(sections: Seq<SectionView>, width: nat)
    requires
        20 <= width <= 120,
        forall|i: int|
            0 <= i < sections.len() ==> cells::plain_glyphs((#[trigger] sections[i]).name),
    ensures
        forall|i: int|
            0 <= i < text::framed_sections(sections, width).len() ==> text::spans_cells(
                (#[trigger] text::framed_sections(sections, width)[i]).fragments,
            ) == width,
    decreases sections.len(),
{
    cells::lemma_regular_cells();
    if sections.len() > 0 {
        let last = sections[sections.len() - 1];
        let before = text::framed_sections(sections.drop_last(), width);
        assert forall|i: int| 0 <= i < sections.drop_last().len() implies cells::plain_glyphs(
            (#[trigger] sections.drop_last()[i]).name,
        ) by {
            assert(sections.drop_last()[i] == sections[i]);
        }
        lemma_framed_sections_width(sections.drop_last(), width);
        lemma_connected_rail_width(last.name, (width - 2) as nat);
        let rows = text::section_rows_of(last, (width - 4) as nat, width >= 80);
        let after = text::framed_sections(sections, width);
        assert forall|i: int| 0 <= i < after.len() implies text::spans_cells(
            (#[trigger] after[i]).fragments,
        ) == width by {
            if i < before.len() {
                assert(after[i] == before[i]);
            } else if i > before.len() {
                let at = i - before.len() - 1;
                assert(after[i] == text::framed(rows[at], (width - 4) as nat));
                law_framed_row_width(rows[at], (width - 4) as nat);
            }
        }
    }
}

pub proof fn lemma_body_shape(snapshot: Snapshot, full: bool)
    ensures
        forall|i: int|
            0 <= i < text::card_body_of(snapshot, full).sections.len() ==> {
                &&& (#[trigger] text::card_body_of(snapshot, full).sections[i]).right.len() == 0
                &&& cells::plain_glyphs(text::card_body_of(snapshot, full).sections[i].name)
            },
{
    reveal_strlit("system & health");
    reveal_strlit("active context");
    reveal_strlit("project telemetry");
    assert(cells::plain_glyphs("system & health"@));
    assert(cells::plain_glyphs("active context"@));
    assert(cells::plain_glyphs("project telemetry"@));
}

/// Every row of a framed card takes exactly the card's width, and every row of
/// an unframed one at most that, whatever the facts are.
pub proof fn law_rows_keep_to_the_width(snapshot: Snapshot, options: TextOptions)
    ensures
        forall|i: int|
            0 <= i < text::card_rows(snapshot, options).len() ==> text::spans_cells(
                (#[trigger] text::card_rows(snapshot, options)[i]).fragments,
            ) <= text::card_width(options),
        !options.embedded && text::card_width(options) >= 20 ==> forall|i: int|
            0 <= i < text::card_rows(snapshot, options).len() ==> text::spans_cells(
                (#[trigger] text::card_rows(snapshot, options)[i]).fragments,
            ) == text::card_width(options),
{
    cells::lemma_regular_cells();
    let width = text::card_width(options);
    let body = text::card_body_of(snapshot, options.full);
    let rows = text::card_rows(snapshot, options);
    lemma_body_shape(snapshot, options.full);
    if options.embedded || width < 20 {
        let lines = body.identity + text::bare_sections(body.sections, width);
        assert forall|i: int| 0 <= i < rows.len() implies text::spans_cells(
            (#[trigger] rows[i]).fragments,
        ) <= width by {
            assert(rows[i] == text::laid_row(lines[i], width));
            law_layout_fits(lines[i], width);
        }
    } else {
        let inner = (width - 2) as nat;
        let content = (width - 4) as nat;
        lemma_edges_width(inner);
        lemma_framed_sections_width(body.sections, width);
        let head = text::framed_all(body.identity, content);
        let bands = text::framed_sections(body.sections, width);
        assert forall|i: int| 0 <= i < rows.len() implies text::spans_cells(
            (#[trigger] rows[i]).fragments,
        ) == width by {
            if i == 0 {
                assert(rows[i] == text::top_row(body.title, inner));
            } else if i <= head.len() {
                assert(rows[i] == text::framed(body.identity[i - 1], content));
                law_framed_row_width(body.identity[i - 1], content);
            } else if i <= head.len() + bands.len() {
                assert(rows[i] == bands[i - 1 - head.len()]);
            } else {
                assert(rows[i] == text::bottom_row(inner));
            }
        }
    }
}

/// Without colour a row reads as its fragments do, one after the other.
pub proof fn law_plain_rows_are_their_fragments(spans: Seq<SpanView>, colors: Palette)
    ensures
        text::chunks_text(text::expanded_spans(spans, colors), false) == text::spans_text(spans),
    decreases spans.len(),
{
    if spans.len() > 0 {
        let last = spans.last();
        let before = text::expanded_spans(spans.drop_last(), colors);
        let more = theme::expanded(last.text, last.role, last.style, colors);
        law_plain_rows_are_their_fragments(spans.drop_last(), colors);
        theme::law_expansion_keeps_the_text(last.text, last.role, last.style, colors);
        lemma_chunks_text_concat(before, more);
    }
}

proof fn lemma_chunks_text_concat(first: Seq<theme::ChunkView>, second: Seq<theme::ChunkView>)
    ensures
        text::chunks_text(first + second, false) == text::chunks_text(first, false)
            + theme::chunk_text(second),
    decreases second.len(),
{
    if second.len() == 0 {
        assert(first + second =~= first);
        assert(text::chunks_text(first, false) + theme::chunk_text(second) =~= text::chunks_text(
            first,
            false,
        ));
    } else {
        assert((first + second).drop_last() =~= first + second.drop_last());
        lemma_chunks_text_concat(first, second.drop_last());
        assert(text::chunks_text(first + second, false) =~= text::chunks_text(first, false)
            + theme::chunk_text(second));
    }
}

/// No card is wider than its terminal, nor than the cap of its mode.
pub proof fn law_card_width_is_capped(options: TextOptions)
    ensures
        1 <= text::card_width(options) <= 120,
        !options.full ==> text::card_width(options) <= 104,
        options.width is Some && options.width->0 > 0 ==> text::card_width(options)
            <= options.width->0,
{
}

/// The normal card has at most nine identity rows.
pub proof fn law_normal_identity_is_compact(snapshot: Snapshot)
    ensures
        text::card_body_of(snapshot, false).identity.len() <= 9,
        text::card_body_of(snapshot, false).sections.len() == 0,
{
}

/// No control character.
pub open spec fn clean(text: Seq<char>) -> bool {
    forall|i: int| 0 <= i < text.len() ==> !strings::control(#[trigger] text[i])
}

pub open spec fn spans_clean(spans: Seq<SpanView>) -> bool {
    forall|i: int| 0 <= i < spans.len() ==> clean((#[trigger] spans[i]).text)
}

proof fn lemma_fitted_clean(text: Seq<char>, width: nat)
    requires
        clean(text),
    ensures
        clean(cells::fitted(text, width)),
{
    reveal_strlit("…");
    let left = text::beyond(width, 1) / 2;
    let right = text::beyond(width, 1 + left);
    cells::lemma_ends_fit(text, left);
    cells::lemma_ends_fit(text, right);
    let cut = cells::fitted(text, width);
    assert forall|i: int| 0 <= i < cut.len() implies !strings::control(#[trigger] cut[i]) by {}
}

pub proof fn lemma_fit_clean(spans: Seq<SpanView>, width: nat)
    requires
        spans_clean(spans),
    ensures
        spans_clean(text::fit_spans(spans, width)),
    decreases spans.len(),
{
    if spans.len() > 0 {
        assert(clean(spans[spans.len() - 1].text));
        assert forall|i: int| 0 <= i < spans.drop_last().len() implies clean(
            (#[trigger] spans.drop_last()[i]).text,
        ) by {
            assert(spans.drop_last()[i] == spans[i]);
        }
        lemma_fit_clean(spans.drop_last(), width);
        let before = text::fit_state(spans.drop_last(), width);
        if before.1 < width {
            lemma_fitted_clean(spans.last().text, (width - before.1) as nat);
        }
    }
}

proof fn lemma_stack_clean(parts: Seq<(u64, Role)>, total: nat, cells: nat)
    ensures
        spans_clean(text::stack_spans(parts, total, cells)),
    decreases parts.len(),
{
    if parts.len() > 0 {
        lemma_stack_clean(parts.drop_last(), total, cells);
    }
}

proof fn lemma_flex_clean(kind: FlexView, cells: nat)
    ensures
        spans_clean(text::flex_spans_of(kind, cells)),
{
    match kind {
        FlexView::Stack(parts) => {
            lemma_stack_clean(parts, text::at_least_one(text::parts_sum(parts)), cells);
        },
        _ => {},
    }
}

/// Every text of the line, in each of its forms, is free of control characters.
pub open spec fn line_clean(line: LineView) -> bool {
    &&& spans_clean(line.fragments)
    &&& spans_clean(line.trailing)
    &&& match line.flex {
        Some(slot) => slot.compact is Some ==> spans_clean(slot.compact->0),
        None => true,
    }
}

/// A clean line stays clean at every width.
pub proof fn law_layout_stays_clean(line: LineView, width: nat)
    requires
        line_clean(line),
    ensures
        spans_clean(text::layout_of(line, width)),
{
    let (count, keep) = text::flex_cells_of(line, width);
    match line.flex {
        Some(slot) => {
            if count == 0 && slot.compact is Some {
                lemma_fit_clean(slot.compact->0, width);
            } else if count > 0 {
                let at = text::smaller(slot.at, line.fragments.len()) as int;
                let middle = text::flex_spans_of(slot.kind, count);
                lemma_flex_clean(slot.kind, count);
                let spans = line.fragments.take(at) + middle + line.fragments.skip(at);
                assert forall|i: int| 0 <= i < spans.len() implies clean(
                    (#[trigger] spans[i]).text,
                ) by {
                    if i < at {
                        assert(spans[i] == line.fragments[i]);
                    } else if i < at + middle.len() {
                        assert(spans[i] == middle[i - at]);
                    } else {
                        assert(spans[i] == line.fragments[i - middle.len()]);
                    }
                }
                lemma_aligned_clean(spans, keep, line.trailing, width);
            } else {
                lemma_aligned_clean(line.fragments, keep, line.trailing, width);
            }
        },
        None => {
            lemma_aligned_clean(line.fragments, keep, line.trailing, width);
        },
    }
}

proof fn lemma_aligned_clean(
    spans: Seq<SpanView>,
    keep: bool,
    trailing: Seq<SpanView>,
    width: nat,
)
    requires
        spans_clean(spans),
        spans_clean(trailing),
    ensures
        spans_clean(text::aligned(spans, keep, trailing, width)),
{
    let used = text::spans_cells(spans);
    let behind = text::spans_cells(trailing);
    let pad = text::solid(strings::blank(text::beyond(width, used + behind)), Role::Text);
    let all = spans.push(pad) + trailing;
    assert forall|i: int| 0 <= i < all.len() implies clean((#[trigger] all[i]).text) by {
        if i < spans.len() {
            assert(all[i] == spans[i]);
        } else if i > spans.len() {
            assert(all[i] == trailing[i - spans.len() - 1]);
        }
    }
    lemma_fit_clean(all, width);
    lemma_fit_clean(spans, width);
}

pub open spec fn lines_clean(lines: Seq<LineView>) -> bool {
    forall|i: int| 0 <= i < lines.len() ==> line_clean(#[trigger] lines[i])
}

proof fn lemma_clean_concat(first: Seq<LineView>, second: Seq<LineView>)
    requires
        lines_clean(first),
        lines_clean(second),
    ensures
        lines_clean(first + second),
{
    let all = first + second;
    assert forall|i: int| 0 <= i < all.len() implies line_clean(#[trigger] all[i]) by {
        if i < first.len() {
            assert(all[i] == first[i]);
        } else {
            assert(all[i] == second[i - first.len()]);
        }
    }
}

proof fn lemma_clean_supported(role: Role, main: Seq<SpanView>, alone: Role, support: Seq<SpanView>)
    requires
        spans_clean(main),
        spans_clean(support),
    ensures
        lines_clean(text::supported(role, main, alone, support)),
{
}

proof fn lemma_clean_parts(snapshot: Snapshot)
    ensures
        spans_clean(text::place_spans(snapshot)),
        spans_clean(text::runtime_spans(snapshot, false)),
        spans_clean(text::runtime_spans(snapshot, true)),
        spans_clean(text::machine_spans(snapshot)),
        spans_clean(text::uptime_spans(snapshot, "up "@)),
        spans_clean(text::uptime_spans(snapshot, "uptime "@)),
{
}

proof fn lemma_clean_gauges(snapshot: Snapshot)
    ensures
        lines_clean(text::memory_rows(snapshot)),
        lines_clean(text::disk_rows(snapshot)),
        lines_clean(text::summary_rows(snapshot)),
        lines_clean(text::warning_rows(snapshot)),
{
}

proof fn lemma_clean_clock(snapshot: Snapshot)
    ensures
        lines_clean(text::clock_rows(snapshot)),
{
}

proof fn lemma_clean_normal(snapshot: Snapshot)
    ensures
        lines_clean(text::normal_identity_of(snapshot)),
{
    let health = Role::System(theme::SystemRole::Health);
    lemma_clean_parts(snapshot);
    let place = text::supported(
        Role::Primary,
        text::place_spans(snapshot),
        Role::Primary,
        text::runtime_spans(snapshot, false),
    );
    let machine = text::supported(
        health,
        text::machine_spans(snapshot),
        health,
        text::uptime_spans(snapshot, "up "@),
    );
    lemma_clean_supported(
        Role::Primary,
        text::place_spans(snapshot),
        Role::Primary,
        text::runtime_spans(snapshot, false),
    );
    lemma_clean_supported(
        health,
        text::machine_spans(snapshot),
        health,
        text::uptime_spans(snapshot, "up "@),
    );
    lemma_clean_gauges(snapshot);
    lemma_clean_clock(snapshot);
    let two = place + machine;
    let three = two + text::memory_rows(snapshot);
    let four = three + text::disk_rows(snapshot);
    let five = four + text::clock_rows(snapshot);
    let six = five + text::summary_rows(snapshot);
    let seven = six + text::warning_rows(snapshot);
    lemma_clean_concat(place, machine);
    lemma_clean_concat(two, text::memory_rows(snapshot));
    lemma_clean_concat(three, text::disk_rows(snapshot));
    lemma_clean_concat(four, text::clock_rows(snapshot));
    lemma_clean_concat(five, text::summary_rows(snapshot));
    lemma_clean_concat(six, text::warning_rows(snapshot));
    let shown = text::normal_identity_of(snapshot);
    assert forall|i: int| 0 <= i < shown.len() implies line_clean(#[trigger] shown[i]) by {
        assert(shown[i] == seven[i]);
    }
}

proof fn lemma_clean_full(snapshot: Snapshot)
    ensures
        lines_clean(text::full_identity_of(snapshot)),
{
    lemma_clean_parts(snapshot);
}

proof fn lemma_clean_system(snapshot: Snapshot)
    ensures
        lines_clean(text::system_rows(snapshot)),
{
    lemma_clean_parts(snapshot);
    let cpu = text::cpu_words(snapshot);
    let health = Role::System(theme::SystemRole::Health);
    let role = Role::System(theme::SystemRole::Cpu);
    let cpu_spans = if cpu.len() == 0 {
        Seq::empty()
    } else {
        seq![text::gutter_of("cpu"@, FULL_GUTTER as nat)].push(text::solid(cpu, role))
    };
    assert(spans_clean(cpu_spans));
    lemma_clean_supported(role, cpu_spans, health, text::uptime_spans(snapshot, "uptime "@));
    let head = text::supported(role, cpu_spans, health, text::uptime_spans(snapshot, "uptime "@));
    assert(lines_clean(text::memory_table(snapshot)));
    lemma_clean_concat(head, text::memory_table(snapshot));
    let disks = crate::render::values::distinct_disks(snapshot.system.disks@);
    let table = text::disk_table(disks);
    assert forall|i: int| 0 <= i < table.len() implies line_clean(#[trigger] table[i]) by {
        if i > 0 {
            assert(table[i] == text::disk_table_row(disks[i - 1], i - 1 == 0));
        }
    }
    lemma_clean_concat(head + text::memory_table(snapshot), table);
}

proof fn lemma_clean_counts(counts: Seq<(Seq<char>, Seq<char>)>)
    ensures
        spans_clean(text::count_spans(counts)),
    decreases counts.len(),
{
    if counts.len() > 0 {
        lemma_clean_counts(counts.drop_last());
    }
}

proof fn lemma_clean_time_row(snapshot: Snapshot)
    ensures
        lines_clean(
            match crate::render::values::time_text(snapshot) {
                Some(clock) => seq![text::guttered(
                    "time"@,
                    text::FULL_GUTTER as nat,
                    clock,
                    Role::Time,
                )],
                None => Seq::empty(),
            },
        ),
{
}

proof fn lemma_clean_day(snapshot: Snapshot)
    ensures
        lines_clean(
            match crate::render::values::finite_of(snapshot.time.day_progress_percent) {
                Some(day) => text::rulers_of(
                    seq![text::gutter_of("day"@, text::FULL_GUTTER as nat)],
                    day,
                    seq![text::solid("  "@, Role::Text)].push(
                        text::solid(crate::render::values::percent_text(day), Role::Time),
                    ),
                    text::FULL_RULER_MAX as nat,
                ),
                None => Seq::empty(),
            },
        ),
{
}

proof fn lemma_clean_git_row(snapshot: Snapshot)
    ensures
        lines_clean(
            match snapshot.git {
                Some(git) => seq![text::row_of(
                    Role::Git,
                    text::count_spans(text::git_counts(git)),
                )],
                None => Seq::empty(),
            },
        ),
{
    if let Some(git) = snapshot.git {
        lemma_clean_counts(text::git_counts(git));
    }
}

proof fn lemma_clean_diagnostics(snapshot: Snapshot)
    ensures
        lines_clean(
            Seq::new(
                snapshot.diagnostics@.len(),
                |i: int| text::diagnostic_row(snapshot.diagnostics@[i]),
            ),
        ),
{
}

#[verifier::spinoff_prover]
proof fn lemma_clean_context(snapshot: Snapshot)
    ensures
        lines_clean(text::context_rows(snapshot)),
{
    let clock = match crate::render::values::time_text(snapshot) {
        Some(clock) => seq![text::guttered(
            "time"@,
            text::FULL_GUTTER as nat,
            clock,
            Role::Time,
        )],
        None => Seq::empty(),
    };
    let day = match crate::render::values::finite_of(snapshot.time.day_progress_percent) {
        Some(day) => text::rulers_of(
            seq![text::gutter_of("day"@, text::FULL_GUTTER as nat)],
            day,
            seq![text::solid("  "@, Role::Text)].push(
                text::solid(crate::render::values::percent_text(day), Role::Time),
            ),
            text::FULL_RULER_MAX as nat,
        ),
        None => Seq::empty(),
    };
    let git = match snapshot.git {
        Some(git) => seq![text::row_of(Role::Git, text::count_spans(text::git_counts(git)))],
        None => Seq::empty(),
    };
    let diagnostics = Seq::new(
        snapshot.diagnostics@.len(),
        |i: int| text::diagnostic_row(snapshot.diagnostics@[i]),
    );
    lemma_clean_time_row(snapshot);
    lemma_clean_day(snapshot);
    lemma_clean_git_row(snapshot);
    lemma_clean_diagnostics(snapshot);
    lemma_clean_concat(clock, day);
    lemma_clean_concat(clock + day, git);
    lemma_clean_concat(clock + day + git, diagnostics);
}

proof fn lemma_clean_loc(loc: crate::model::Loc)
    ensures
        lines_clean(text::loc_rows(loc)),
{
    let languages = text::ranked(text::counted(loc.by_language@));
    let rows = text::loc_rows(loc);
    assert forall|i: int| 0 <= i < rows.len() implies line_clean(#[trigger] rows[i]) by {
        if i > 1 {
            assert(rows[i] == text::language_row(languages[i - 2], loc.total));
        }
    }
}

proof fn lemma_clean_metric(
    label: Seq<char>,
    name: Seq<char>,
    value: Option<crate::binary64::Binary64>,
    role: Role,
)
    ensures
        lines_clean(text::metric_rows(label, name, value, role)),
{
}

proof fn lemma_clean_provenance(coverage: crate::model::Coverage, first: bool)
    ensures
        line_clean(text::provenance_row(coverage, first)),
{
}

proof fn lemma_clean_coverage(coverage: crate::model::Coverage)
    ensures
        lines_clean(text::coverage_rows(coverage)),
{
    let role = crate::render::values::coverage_role_of(coverage.stale);
    let second = crate::render::values::finite_of(coverage.line_percent) is None;
    let third = second && crate::render::values::finite_of(coverage.branch_percent) is None;
    let fourth = third && crate::render::values::finite_of(coverage.function_percent) is None;
    let line = text::metric_rows(text::cov_label(true), "line"@, coverage.line_percent, role);
    let branch = text::metric_rows(
        text::cov_label(second),
        "branch"@,
        coverage.branch_percent,
        role,
    );
    let function = text::metric_rows(
        text::cov_label(third),
        "function"@,
        coverage.function_percent,
        role,
    );
    lemma_clean_metric(text::cov_label(true), "line"@, coverage.line_percent, role);
    lemma_clean_metric(text::cov_label(second), "branch"@, coverage.branch_percent, role);
    lemma_clean_metric(text::cov_label(third), "function"@, coverage.function_percent, role);
    lemma_clean_provenance(coverage, fourth);
    lemma_clean_concat(line, branch);
    lemma_clean_concat(line + branch, function);
    lemma_clean_concat(line + branch + function, seq![text::provenance_row(coverage, fourth)]);
}

proof fn lemma_clean_telemetry(snapshot: Snapshot)
    ensures
        lines_clean(text::telemetry_rows(snapshot)),
{
    if let Some(project) = snapshot.project {
        let loc = match project.loc {
            Some(loc) => text::loc_rows(loc),
            None => Seq::empty(),
        };
        let coverage = match project.coverage {
            Some(coverage) => text::coverage_rows(coverage),
            None => Seq::empty(),
        };
        if let Some(loc) = project.loc {
            lemma_clean_loc(loc);
        }
        if let Some(coverage) = project.coverage {
            lemma_clean_coverage(coverage);
        }
        lemma_clean_concat(loc, coverage);
    }
}

proof fn lemma_clean_shown(lines: Seq<LineView>, width: nat)
    requires
        lines_clean(lines),
    ensures
        lines_clean(text::shown_lines(lines, width)),
    decreases lines.len(),
{
    if lines.len() > 0 {
        assert(line_clean(lines[lines.len() - 1]));
        assert forall|i: int| 0 <= i < lines.drop_last().len() implies line_clean(
            #[trigger] lines.drop_last()[i],
        ) by {
            assert(lines.drop_last()[i] == lines[i]);
        }
        lemma_clean_shown(lines.drop_last(), width);
    }
}

proof fn lemma_clean_pair(role: Role, left: LineView, right: LineView, width: nat)
    requires
        line_clean(left),
        line_clean(right),
    ensures
        line_clean(text::paired_row(role, left, right, width)),
{
    let left_width = text::beyond(width, 3) / 2;
    let right_width = text::beyond(width, left_width + 3);
    law_layout_stays_clean(left, left_width);
    law_layout_stays_clean(right, right_width);
    let laid = text::layout_of(left, left_width);
    let other = text::layout_of(right, right_width);
    let row = text::paired_row(role, left, right, width);
    assert forall|i: int| 0 <= i < row.fragments.len() implies clean(
        (#[trigger] row.fragments[i]).text,
    ) by {
        if i < laid.len() {
            assert(row.fragments[i] == laid[i]);
        } else if i > laid.len() {
            assert(row.fragments[i] == other[i - laid.len() - 1]);
        }
    }
}

proof fn lemma_clean_rest(lines: Seq<LineView>, from: int)
    requires
        lines_clean(lines),
        0 <= from <= lines.len(),
    ensures
        lines_clean(lines.skip(from)),
{
    assert forall|i: int| 0 <= i < lines.skip(from).len() implies line_clean(
        #[trigger] lines.skip(from)[i],
    ) by {
        assert(lines.skip(from)[i] == lines[from + i]);
    }
}

pub proof fn lemma_clean_section(section: SectionView, width: nat, wide: bool)
    requires
        lines_clean(section.left),
        lines_clean(section.right),
    ensures
        lines_clean(text::section_rows_of(section, width, wide)),
{
    if !wide {
        lemma_clean_shown(section.left, width);
        lemma_clean_shown(section.right, width);
        lemma_clean_concat(
            text::shown_lines(section.left, width),
            text::shown_lines(section.right, width),
        );
    } else {
        let count = text::smaller(section.left.len(), section.right.len());
        let pairs = Seq::new(
            count,
            |i: int| text::paired_row(section.role, section.left[i], section.right[i], width),
        );
        assert forall|i: int| 0 <= i < pairs.len() implies line_clean(#[trigger] pairs[i]) by {
            assert(line_clean(section.left[i]) && line_clean(section.right[i]));
            lemma_clean_pair(section.role, section.left[i], section.right[i], width);
        }
        lemma_clean_rest(section.left, count as int);
        lemma_clean_rest(section.right, count as int);
        let left = text::shown_lines(section.left.skip(count as int), width);
        let right = text::shown_lines(section.right.skip(count as int), width);
        lemma_clean_shown(section.left.skip(count as int), width);
        lemma_clean_shown(section.right.skip(count as int), width);
        lemma_clean_concat(pairs, left);
        lemma_clean_concat(pairs + left, right);
    }
}

proof fn lemma_clean_framed(line: LineView, content: nat)
    requires
        line_clean(line),
    ensures
        line_clean(text::framed(line, content)),
{
    law_layout_stays_clean(line, content);
    let laid = text::layout_of(line, content);
    let row = text::framed(line, content).fragments;
    assert forall|i: int| 0 <= i < row.len() implies clean((#[trigger] row[i]).text) by {
        if 0 < i <= laid.len() {
            assert(row[i] == laid[i - 1]);
        }
    }
}

proof fn lemma_clean_sections(sections: Seq<SectionView>, width: nat)
    requires
        forall|i: int|
            0 <= i < sections.len() ==> lines_clean((#[trigger] sections[i]).left)
                && lines_clean(sections[i].right),
    ensures
        lines_clean(text::bare_sections(sections, width)),
        lines_clean(text::framed_sections(sections, width)),
    decreases sections.len(),
{
    if sections.len() > 0 {
        let last = sections[sections.len() - 1];
        assert forall|i: int| 0 <= i < sections.drop_last().len() implies lines_clean(
            (#[trigger] sections.drop_last()[i]).left,
        ) && lines_clean(sections.drop_last()[i].right) by {
            assert(sections.drop_last()[i] == sections[i]);
        }
        lemma_clean_sections(sections.drop_last(), width);
        lemma_clean_section(last, width, width >= 80);
        let bare = text::bare_sections(sections.drop_last(), width);
        let rail = text::rail_of(last.name, width);
        assert(lines_clean(bare.push(rail)));
        lemma_clean_concat(bare.push(rail), text::section_rows_of(last, width, width >= 80));
        let content = (width - 4) as nat;
        lemma_clean_section(last, content, width >= 80);
        let rows = text::section_rows_of(last, content, width >= 80);
        let frames = text::framed_all(rows, content);
        assert forall|i: int| 0 <= i < frames.len() implies line_clean(#[trigger] frames[i]) by {
            assert(line_clean(rows[i]));
            lemma_clean_framed(rows[i], content);
        }
        let framed = text::framed_sections(sections.drop_last(), width);
        let connected = text::connected_rail(last.name, (width - 2) as nat);
        assert(lines_clean(framed.push(connected)));
        lemma_clean_concat(framed.push(connected), frames);
    }
}

pub open spec fn body_clean(body: BodyView) -> bool {
    &&& spans_clean(body.title)
    &&& lines_clean(body.identity)
    &&& forall|i: int|
        0 <= i < body.sections.len() ==> lines_clean((#[trigger] body.sections[i]).left)
            && lines_clean(body.sections[i].right)
}

pub proof fn lemma_clean_body(snapshot: Snapshot, full: bool)
    ensures
        body_clean(text::card_body_of(snapshot, full)),
{
    if full {
        lemma_clean_full(snapshot);
        lemma_clean_system(snapshot);
        lemma_clean_context(snapshot);
        lemma_clean_telemetry(snapshot);
        lemma_body_shape(snapshot, full);
    } else {
        lemma_clean_normal(snapshot);
    }
}

proof fn lemma_clean_top(title: Seq<SpanView>, inner: nat)
    requires
        spans_clean(title),
    ensures
        line_clean(text::top_row(title, inner)),
{
    let room = text::beyond(inner, 2);
    lemma_fit_clean(title, room);
    let shown = text::fit_spans(title, room);
    let top = text::top_row(title, inner).fragments;
    assert forall|j: int| 0 <= j < top.len() implies clean((#[trigger] top[j]).text) by {
        if 0 < j <= shown.len() {
            assert(top[j] == shown[j - 1]);
        }
    }
}

proof fn lemma_clean_framed_all(lines: Seq<LineView>, content: nat)
    requires
        lines_clean(lines),
    ensures
        lines_clean(text::framed_all(lines, content)),
{
    let frames = text::framed_all(lines, content);
    assert forall|i: int| 0 <= i < frames.len() implies line_clean(#[trigger] frames[i]) by {
        assert(line_clean(lines[i]));
        lemma_clean_framed(lines[i], content);
    }
}

/// No row of a card holds a control character, whatever the facts hold.
pub proof fn law_rows_hold_no_control_characters(snapshot: Snapshot, options: TextOptions)
    ensures
        forall|i: int|
            0 <= i < text::card_rows(snapshot, options).len() ==> spans_clean(
                (#[trigger] text::card_rows(snapshot, options)[i]).fragments,
            ),
{
    let width = text::card_width(options);
    let body = text::card_body_of(snapshot, options.full);
    let rows = text::card_rows(snapshot, options);
    lemma_clean_body(snapshot, options.full);
    lemma_clean_sections(body.sections, width);
    lemma_clean_rows(body, width, options.embedded, rows);
}

proof fn lemma_clean_rows(body: BodyView, width: nat, embedded: bool, rows: Seq<LineView>)
    requires
        body_clean(body),
        lines_clean(text::bare_sections(body.sections, width)),
        lines_clean(text::framed_sections(body.sections, width)),
        rows == if embedded || width < 20 {
            Seq::new(
                (body.identity + text::bare_sections(body.sections, width)).len(),
                |i: int|
                    text::laid_row(
                        (body.identity + text::bare_sections(body.sections, width))[i],
                        width,
                    ),
            )
        } else {
            (seq![text::top_row(body.title, (width - 2) as nat)] + text::framed_all(
                body.identity,
                (width - 4) as nat,
            ) + text::framed_sections(body.sections, width)).push(
                text::bottom_row((width - 2) as nat),
            )
        },
    ensures
        forall|i: int| 0 <= i < rows.len() ==> spans_clean((#[trigger] rows[i]).fragments),
{
    if embedded || width < 20 {
        let lines = body.identity + text::bare_sections(body.sections, width);
        lemma_clean_concat(body.identity, text::bare_sections(body.sections, width));
        assert forall|i: int| 0 <= i < rows.len() implies spans_clean(
            (#[trigger] rows[i]).fragments,
        ) by {
            assert(rows[i] == text::laid_row(lines[i], width));
            assert(line_clean(lines[i]));
            law_layout_stays_clean(lines[i], width);
        }
    } else {
        let inner = (width - 2) as nat;
        let content = (width - 4) as nat;
        let head = text::framed_all(body.identity, content);
        let bands = text::framed_sections(body.sections, width);
        let top = seq![text::top_row(body.title, inner)];
        let bottom = text::bottom_row(inner);
        lemma_clean_top(body.title, inner);
        lemma_clean_framed_all(body.identity, content);
        lemma_clean_concat(top, head);
        lemma_clean_concat(top + head, bands);
        assert(line_clean(bottom));
        let most = top + head + bands;
        assert forall|i: int| 0 <= i < rows.len() implies spans_clean(
            (#[trigger] rows[i]).fragments,
        ) by {
            if i < most.len() {
                assert(rows[i] == most[i]);
                assert(line_clean(most[i]));
            }
        }
    }
}

} // verus!
