//! How wide the rows of a card are.
use vstd::prelude::*;
use crate::config::ImagePosition;
use crate::model::Snapshot;
use crate::render::card;
use crate::render::card::Paint;
use crate::render::card_laws;
use crate::render::cells;
use crate::render::laws;
use crate::render::one_shot::{SerializedView, Size};
use crate::render::text;
use crate::render::text::{
    BodyView, FlexView, LineView, SectionView, SpanView, TextOptions, TRAILING_GAP,
};
use crate::render::theme;
use crate::render::theme::{Palette, Role};
use crate::strings;

verus! {

pub open spec fn spans_plain(spans: Seq<SpanView>) -> bool {
    forall|i: int| 0 <= i < spans.len() ==> cells::plain_glyphs((#[trigger] spans[i]).text)
}

/// Every text of the line, in each of its forms, is of plain glyphs.
pub open spec fn line_plain(line: LineView) -> bool {
    &&& spans_plain(line.fragments)
    &&& spans_plain(line.trailing)
    &&& match line.flex {
        Some(slot) => {
            &&& slot.compact is Some ==> spans_plain(slot.compact->0)
            &&& slot.kind is Caption ==> cells::plain_glyphs(slot.kind->Caption_0)
        },
        None => true,
    }
}

pub open spec fn lines_plain(lines: Seq<LineView>) -> bool {
    forall|i: int| 0 <= i < lines.len() ==> line_plain(#[trigger] lines[i])
}

/// Every text of the card is of plain glyphs.
pub open spec fn body_plain(body: BodyView) -> bool {
    &&& spans_plain(body.title)
    &&& lines_plain(body.identity)
    &&& forall|i: int|
        0 <= i < body.sections.len() ==> {
            &&& lines_plain((#[trigger] body.sections[i]).left)
            &&& lines_plain(body.sections[i].right)
            &&& cells::plain_glyphs(body.sections[i].name)
        }
}

proof fn lemma_plain_is_clean(text: Seq<char>)
    requires
        cells::plain_glyphs(text),
    ensures
        laws::clean(text),
{
    assert forall|i: int| 0 <= i < text.len() implies !strings::control(#[trigger] text[i]) by {
        assert(cells::plain_glyph(text[i]));
    }
}

proof fn lemma_plain_spans_are_clean(spans: Seq<SpanView>)
    requires
        spans_plain(spans),
    ensures
        laws::spans_clean(spans),
{
    assert forall|i: int| 0 <= i < spans.len() implies laws::clean((#[trigger] spans[i]).text) by {
        lemma_plain_is_clean(spans[i].text);
    }
}

proof fn lemma_plain_lines_are_clean(lines: Seq<LineView>)
    requires
        lines_plain(lines),
    ensures
        laws::lines_clean(lines),
{
    assert forall|i: int| 0 <= i < lines.len() implies laws::line_clean(#[trigger] lines[i]) by {
        lemma_plain_spans_are_clean(lines[i].fragments);
        lemma_plain_spans_are_clean(lines[i].trailing);
        if let Some(slot) = lines[i].flex {
            if let Some(compact) = slot.compact {
                lemma_plain_spans_are_clean(compact);
            }
        }
    }
}

proof fn lemma_plain_body_is_clean(body: BodyView)
    requires
        body_plain(body),
    ensures
        laws::body_clean(body),
{
    lemma_plain_spans_are_clean(body.title);
    lemma_plain_lines_are_clean(body.identity);
    assert forall|i: int| 0 <= i < body.sections.len() implies laws::lines_clean(
        (#[trigger] body.sections[i]).left,
    ) && laws::lines_clean(body.sections[i].right) by {
        lemma_plain_lines_are_clean(body.sections[i].left);
        lemma_plain_lines_are_clean(body.sections[i].right);
    }
}

proof fn lemma_fit_plain(spans: Seq<SpanView>, width: nat)
    requires
        spans_plain(spans),
    ensures
        spans_plain(text::fit_spans(spans, width)),
    decreases spans.len(),
{
    if spans.len() > 0 {
        assert(cells::plain_glyphs(spans[spans.len() - 1].text));
        assert forall|i: int| 0 <= i < spans.drop_last().len() implies cells::plain_glyphs(
            (#[trigger] spans.drop_last()[i]).text,
        ) by {
            assert(spans.drop_last()[i] == spans[i]);
        }
        lemma_fit_plain(spans.drop_last(), width);
        let before = text::fit_state(spans.drop_last(), width);
        if before.1 < width {
            laws::lemma_fitted_plain(spans.last().text, (width - before.1) as nat);
        }
    }
}

proof fn lemma_stack_plain(parts: Seq<(u64, Role)>, total: nat, count: nat)
    ensures
        spans_plain(text::stack_spans(parts, total, count)),
    decreases parts.len(),
{
    if parts.len() > 0 {
        lemma_stack_plain(parts.drop_last(), total, count);
        let drawn = text::stack_edge(text::parts_sum(parts.drop_last()), total, count);
        let edge = text::stack_edge(text::parts_sum(parts), total, count);
        if edge > drawn {
            laws::lemma_plain_sanitized(strings::repeated('█', (edge - drawn) as nat));
        }
    }
}

proof fn lemma_flex_plain(kind: FlexView, count: nat)
    requires
        kind is Caption ==> cells::plain_glyphs(kind->Caption_0),
    ensures
        spans_plain(text::flex_spans_of(kind, count)),
{
    match kind {
        FlexView::Meter { permille, role } => {
            let filled = text::meter_filled(permille as nat, count);
            if count > filled {
                laws::lemma_plain_sanitized(strings::repeated('╌', (count - filled) as nat));
            }
        },
        FlexView::Ruler { permille } => {
            let span = text::ruler_span_of(count);
            let position = text::ruler_position(permille as nat, span);
            reveal_strlit("●");
            laws::lemma_plain_sanitized("●"@);
            let track = Seq::new(
                text::beyond(span, position),
                |i: int| text::tick(span, position + 1 + i),
            );
            let rest = track + strings::blank(text::beyond(count, span + 1));
            assert(cells::plain_glyphs(rest));
            laws::lemma_plain_sanitized(rest);
        },
        FlexView::RulerAxis => {
            assert(cells::plain_glyphs(text::axis_text(count)));
            laws::lemma_plain_sanitized(text::axis_text(count));
        },
        FlexView::Stack(parts) => {
            lemma_stack_plain(parts, text::at_least_one(text::parts_sum(parts)), count);
        },
        FlexView::Caption(caption) => {
            laws::lemma_fitted_plain(caption, count);
            let padded = strings::padded_right(cells::fitted(caption, count), count);
            assert(cells::plain_glyphs(padded));
            laws::lemma_plain_sanitized(padded);
        },
    }
}

proof fn lemma_aligned_plain(
    spans: Seq<SpanView>,
    keep: bool,
    trailing: Seq<SpanView>,
    width: nat,
)
    requires
        spans_plain(spans),
        spans_plain(trailing),
    ensures
        spans_plain(text::aligned(spans, keep, trailing, width)),
{
    let used = text::spans_cells(spans);
    let behind = text::spans_cells(trailing);
    if keep && used + TRAILING_GAP + behind <= width {
        let gap = strings::blank((width - used - behind) as nat);
        laws::lemma_plain_sanitized(gap);
        let pad = text::solid(gap, Role::Text);
        let all = spans.push(pad) + trailing;
        assert forall|i: int| 0 <= i < all.len() implies cells::plain_glyphs(
            (#[trigger] all[i]).text,
        ) by {
            if i < spans.len() {
                assert(all[i] == spans[i]);
            } else if i > spans.len() {
                assert(all[i] == trailing[i - spans.len() - 1]);
            }
        }
        lemma_fit_plain(all, width);
    } else {
        lemma_fit_plain(spans, width);
    }
}

/// A line of plain glyphs is one at every width.
pub proof fn law_layout_stays_plain(line: LineView, width: nat)
    requires
        line_plain(line),
    ensures
        spans_plain(text::layout_of(line, width)),
{
    let (count, keep) = text::flex_cells_of(line, width);
    match line.flex {
        Some(slot) => {
            if count == 0 && slot.compact is Some {
                lemma_fit_plain(slot.compact->0, width);
            } else if count > 0 {
                let at = text::smaller(slot.at, line.fragments.len()) as int;
                let middle = text::flex_spans_of(slot.kind, count);
                lemma_flex_plain(slot.kind, count);
                let spans = line.fragments.take(at) + middle + line.fragments.skip(at);
                assert forall|i: int| 0 <= i < spans.len() implies cells::plain_glyphs(
                    (#[trigger] spans[i]).text,
                ) by {
                    if i < at {
                        assert(spans[i] == line.fragments[i]);
                    } else if i < at + middle.len() {
                        assert(spans[i] == middle[i - at]);
                    } else {
                        assert(spans[i] == line.fragments[i - middle.len()]);
                    }
                }
                lemma_aligned_plain(spans, keep, line.trailing, width);
            } else {
                lemma_aligned_plain(line.fragments, keep, line.trailing, width);
            }
        },
        None => {
            lemma_aligned_plain(line.fragments, keep, line.trailing, width);
        },
    }
}

/// Spans of plain glyphs take as many cells as they have characters.
proof fn lemma_plain_cells(spans: Seq<SpanView>)
    requires
        spans_plain(spans),
        text::spans_cells(spans) < usize::MAX,
    ensures
        cells::plain_glyphs(text::spans_text(spans)),
        text::spans_text(spans).len() == text::spans_cells(spans),
    decreases spans.len(),
{
    cells::lemma_regular_cells();
    if spans.len() > 0 {
        assert(cells::plain_glyphs(spans[spans.len() - 1].text));
        assert forall|i: int| 0 <= i < spans.drop_last().len() implies cells::plain_glyphs(
            (#[trigger] spans.drop_last()[i]).text,
        ) by {
            assert(spans.drop_last()[i] == spans[i]);
        }
        lemma_plain_cells(spans.drop_last());
        assert(cells::cell_width(spans.last().text) == spans.last().text.len());
    }
}

/// The spans take, as one text, as many cells as one by one.
pub open spec fn spans_measure(spans: Seq<SpanView>) -> bool {
    cells::cell_width(text::spans_text(spans)) == text::spans_cells(spans)
}

/// A line that is laid out at a width takes, as one text, as many cells as its parts.
pub open spec fn line_measures(line: LineView, width: nat) -> bool {
    spans_measure(text::layout_of(line, width))
}

pub open spec fn lines_measure(lines: Seq<LineView>, width: nat) -> bool {
    forall|i: int| 0 <= i < lines.len() ==> line_measures(#[trigger] lines[i], width)
}

/// The title, cut to its room, keeps to it.
pub open spec fn title_measures(title: Seq<SpanView>, room: nat) -> bool {
    cells::cell_width(text::spans_text(text::fit_spans(title, room))) <= room
}

/// The rail and the rows of a section take what their parts take, in a card of this width.
pub open spec fn section_measures(section: SectionView, width: nat) -> bool {
    let inner = (width - 2) as nat;
    let room = (width - 4) as nat;
    &&& line_measures(text::rail_of(section.name, inner), inner)
    &&& lines_measure(text::section_rows_of(section, room, width >= 80), room)
}

pub open spec fn sections_measure(sections: Seq<SectionView>, width: nat) -> bool {
    forall|i: int| 0 <= i < sections.len() ==> section_measures(#[trigger] sections[i], width)
}

/// The cells for a row of the identity: fewer beside an image.
pub open spec fn identity_room(
    width: nat,
    image: Option<(SerializedView, Size, ImagePosition)>,
) -> nat {
    match image {
        Some((image, cells, ImagePosition::Left)) => if card::fits_left(image, cells, width) {
            text::beyond(width, (cells.width + 7) as nat)
        } else {
            (width - 4) as nat
        },
        _ => (width - 4) as nat,
    }
}

/// Every text of the card, as it is laid out in it, takes what its parts take.
pub open spec fn body_measures(
    body: BodyView,
    full: bool,
    width: nat,
    image: Option<(SerializedView, Size, ImagePosition)>,
) -> bool {
    &&& title_measures(body.title, (width - 4) as nat)
    &&& lines_measure(body.identity, identity_room(width, image))
    &&& full ==> sections_measure(body.sections, width)
}

proof fn lemma_plain_spans_measure(spans: Seq<SpanView>)
    requires
        spans_plain(spans),
        text::spans_cells(spans) < usize::MAX,
    ensures
        spans_measure(spans),
{
    lemma_plain_cells(spans);
    cells::law_plain_glyphs_take_one_cell(text::spans_text(spans));
}

proof fn lemma_plain_line_measures(line: LineView, width: nat)
    requires
        line_plain(line),
        width < usize::MAX,
    ensures
        line_measures(line, width),
{
    law_layout_stays_plain(line, width);
    laws::law_layout_fits(line, width);
    lemma_plain_spans_measure(text::layout_of(line, width));
}

proof fn lemma_plain_lines_measure(lines: Seq<LineView>, width: nat)
    requires
        lines_plain(lines),
        width < usize::MAX,
    ensures
        lines_measure(lines, width),
{
    assert forall|i: int| 0 <= i < lines.len() implies line_measures(#[trigger] lines[i], width) by {
        lemma_plain_line_measures(lines[i], width);
    }
}

/// Spans that were cut to a width are not cut again.
proof fn lemma_fit_is_fitted(spans: Seq<SpanView>, width: nat)
    requires
        width <= usize::MAX,
    ensures
        text::fit_state(text::fit_spans(spans, width), width) == text::fit_state(spans, width),
    decreases spans.len(),
{
    if spans.len() > 0 {
        let before = text::fit_state(spans.drop_last(), width);
        lemma_fit_is_fitted(spans.drop_last(), width);
        if before.1 < width {
            let room = (width - before.1) as nat;
            let cut = cells::fitted(spans.last().text, room);
            cells::law_fitted_text_fits(spans.last().text, room);
            let all = text::fit_spans(spans, width);
            assert(all.drop_last() =~= before.0);
            assert(cells::fitted(cut, room) == cut);
            assert(text::fit_state(all, width).0 =~= text::fit_state(spans, width).0);
        }
    }
}

/// A line that was laid out at a width is not cut to it again.
proof fn lemma_layout_is_fitted(line: LineView, width: nat)
    requires
        width <= usize::MAX,
    ensures
        text::fit_state(text::layout_of(line, width), width) == (
            text::layout_of(line, width),
            text::spans_cells(text::layout_of(line, width)),
        ),
{
    let (count, keep) = text::flex_cells_of(line, width);
    match line.flex {
        Some(slot) => {
            if count == 0 && slot.compact is Some {
                lemma_fit_is_fitted(slot.compact->0, width);
                laws::lemma_fit_state(slot.compact->0, width);
            } else if count > 0 {
                let at = text::smaller(slot.at, line.fragments.len()) as int;
                lemma_aligned_is_fitted(
                    line.fragments.take(at) + text::flex_spans_of(slot.kind, count)
                        + line.fragments.skip(at),
                    keep,
                    line.trailing,
                    width,
                );
            } else {
                lemma_aligned_is_fitted(line.fragments, keep, line.trailing, width);
            }
        },
        None => {
            lemma_aligned_is_fitted(line.fragments, keep, line.trailing, width);
        },
    }
}

proof fn lemma_aligned_is_fitted(
    spans: Seq<SpanView>,
    keep: bool,
    trailing: Seq<SpanView>,
    width: nat,
)
    requires
        width <= usize::MAX,
    ensures
        text::fit_state(text::aligned(spans, keep, trailing, width), width) == (
            text::aligned(spans, keep, trailing, width),
            text::spans_cells(text::aligned(spans, keep, trailing, width)),
        ),
{
    let used = text::spans_cells(spans);
    let behind = text::spans_cells(trailing);
    let all = if keep && used + TRAILING_GAP + behind <= width {
        let pad = strings::blank((width - used - behind) as nat);
        spans.push(text::solid(pad, Role::Text)) + trailing
    } else {
        spans
    };
    lemma_fit_is_fitted(all, width);
    laws::lemma_fit_state(all, width);
}

proof fn lemma_shown_plain(lines: Seq<LineView>, width: nat)
    requires
        lines_plain(lines),
    ensures
        lines_plain(text::shown_lines(lines, width)),
    decreases lines.len(),
{
    if lines.len() > 0 {
        assert(line_plain(lines[lines.len() - 1]));
        assert forall|i: int| 0 <= i < lines.drop_last().len() implies line_plain(
            #[trigger] lines.drop_last()[i],
        ) by {
            assert(lines.drop_last()[i] == lines[i]);
        }
        lemma_shown_plain(lines.drop_last(), width);
    }
}

proof fn lemma_pair_plain(role: Role, left: LineView, right: LineView, width: nat)
    requires
        line_plain(left),
        line_plain(right),
    ensures
        line_plain(text::paired_row(role, left, right, width)),
{
    let left_width = text::beyond(width, 3) / 2;
    let right_width = text::beyond(width, left_width + 3);
    law_layout_stays_plain(left, left_width);
    law_layout_stays_plain(right, right_width);
    let laid = text::layout_of(left, left_width);
    let other = text::layout_of(right, right_width);
    let gap = strings::blank(text::beyond(left_width, text::spans_cells(laid)) + 3);
    laws::lemma_plain_sanitized(gap);
    let row = text::paired_row(role, left, right, width);
    assert forall|i: int| 0 <= i < row.fragments.len() implies cells::plain_glyphs(
        (#[trigger] row.fragments[i]).text,
    ) by {
        if i < laid.len() {
            assert(row.fragments[i] == laid[i]);
        } else if i > laid.len() {
            assert(row.fragments[i] == other[i - laid.len() - 1]);
        }
    }
}

proof fn lemma_plain_rest(lines: Seq<LineView>, from: int)
    requires
        lines_plain(lines),
        0 <= from <= lines.len(),
    ensures
        lines_plain(lines.skip(from)),
{
    assert forall|i: int| 0 <= i < lines.skip(from).len() implies line_plain(
        #[trigger] lines.skip(from)[i],
    ) by {
        assert(lines.skip(from)[i] == lines[from + i]);
    }
}

proof fn lemma_plain_join(first: Seq<LineView>, second: Seq<LineView>)
    requires
        lines_plain(first),
        lines_plain(second),
    ensures
        lines_plain(first + second),
{
    let all = first + second;
    assert forall|i: int| 0 <= i < all.len() implies line_plain(#[trigger] all[i]) by {
        if i < first.len() {
            assert(all[i] == first[i]);
        } else {
            assert(all[i] == second[i - first.len()]);
        }
    }
}

proof fn lemma_section_plain(section: SectionView, width: nat, wide: bool)
    requires
        lines_plain(section.left),
        lines_plain(section.right),
    ensures
        lines_plain(text::section_rows_of(section, width, wide)),
{
    if !wide {
        lemma_shown_plain(section.left, width);
        lemma_shown_plain(section.right, width);
        lemma_plain_join(
            text::shown_lines(section.left, width),
            text::shown_lines(section.right, width),
        );
    } else {
        let count = text::smaller(section.left.len(), section.right.len());
        let pairs = Seq::new(
            count,
            |i: int| text::paired_row(section.role, section.left[i], section.right[i], width),
        );
        assert forall|i: int| 0 <= i < pairs.len() implies line_plain(#[trigger] pairs[i]) by {
            assert(line_plain(section.left[i]) && line_plain(section.right[i]));
            lemma_pair_plain(section.role, section.left[i], section.right[i], width);
        }
        lemma_plain_rest(section.left, count as int);
        lemma_plain_rest(section.right, count as int);
        let left = text::shown_lines(section.left.skip(count as int), width);
        let right = text::shown_lines(section.right.skip(count as int), width);
        lemma_shown_plain(section.left.skip(count as int), width);
        lemma_shown_plain(section.right.skip(count as int), width);
        lemma_plain_join(pairs, left);
        lemma_plain_join(pairs + left, right);
    }
}

proof fn lemma_rail_plain(name: Seq<char>, width: nat)
    requires
        cells::plain_glyphs(name),
    ensures
        line_plain(text::rail_of(name, width)),
{
    let title = cells::fitted(name, text::beyond(width, 3));
    laws::lemma_fitted_plain(name, text::beyond(width, 3));
    laws::lemma_plain_sanitized(title);
    reveal_strlit("─ ");
    reveal_strlit(" ");
    laws::lemma_plain_sanitized("─ "@);
    let fill = text::beyond(width, text::held(cells::cell_width(title), 3));
    let rest = " "@ + strings::repeated('─', fill);
    assert(cells::plain_glyphs(rest));
    laws::lemma_plain_sanitized(rest);
}

/// The texts of a card of plain glyphs take what their parts take, with an image and without.
pub proof fn law_plain_cards_measure(
    body: BodyView,
    full: bool,
    width: nat,
    image: Option<(SerializedView, Size, ImagePosition)>,
)
    requires
        body_plain(body),
        20 <= width < usize::MAX,
    ensures
        body_measures(body, full, width, image),
        laws::body_clean(body),
{
    let inner = (width - 2) as nat;
    let room = (width - 4) as nat;
    lemma_plain_body_is_clean(body);
    laws::lemma_fit_state(body.title, room);
    lemma_fit_plain(body.title, room);
    lemma_plain_spans_measure(text::fit_spans(body.title, room));
    lemma_plain_lines_measure(body.identity, identity_room(width, image));
    assert forall|i: int| 0 <= i < body.sections.len() implies section_measures(
        #[trigger] body.sections[i],
        width,
    ) by {
        let section = body.sections[i];
        let rail = text::rail_of(section.name, inner);
        lemma_rail_plain(section.name, inner);
        lemma_plain_line_measures(rail, inner);
        lemma_section_plain(section, room, width >= 80);
        lemma_plain_lines_measure(text::section_rows_of(section, room, width >= 80), room);
    }
}

/// A text without control characters that takes this many cells.
spec fn wide(text: Seq<char>, width: nat) -> bool {
    laws::clean(text) && cells::cell_width(text) == width
}

proof fn lemma_blank_behind(text: Seq<char>, count: nat)
    ensures
        cells::cell_width(text + strings::blank(count)) == cells::cell_width(text) + count,
{
    let pad = strings::blank(count);
    if count == 0 {
        assert(text + pad =~= text);
    } else {
        let rest = strings::blank((count - 1) as nat);
        assert(text + pad =~= text + seq![' '] + rest);
        cells::law_parting_glyphs_part(text, ' ', rest);
        cells::law_plain_glyphs_take_one_cell(rest);
    }
}

proof fn lemma_blank_before(count: nat, text: Seq<char>)
    ensures
        cells::cell_width(strings::blank(count) + text) == count + cells::cell_width(text),
{
    let pad = strings::blank(count);
    if count == 0 {
        assert(pad + text =~= text);
    } else {
        let rest = strings::blank((count - 1) as nat);
        assert(pad + text =~= rest + seq![' '] + text);
        cells::law_parting_glyphs_part(rest, ' ', text);
        cells::law_plain_glyphs_take_one_cell(rest);
    }
}

/// A text between two glyphs of the frame.
proof fn lemma_between_glyphs(open: char, inside: Seq<char>, close: char)
    requires
        cells::parting_glyph(open),
        cells::parting_glyph(close),
    ensures
        cells::cell_width(seq![open] + inside + seq![close]) == cells::cell_width(inside) + 2,
{
    let none = Seq::<char>::empty();
    cells::law_plain_glyphs_take_one_cell(none);
    assert(seq![open] + inside + seq![close] =~= none + seq![open] + (inside + seq![close]));
    cells::law_parting_glyphs_part(none, open, inside + seq![close]);
    assert(inside + seq![close] =~= inside + seq![close] + none);
    cells::law_parting_glyphs_part(inside, close, none);
}

/// An edge of plain glyphs is drawn as it is where there is no colour.
proof fn lemma_edge_is_its_text(edge: Seq<char>, palette: Palette)
    requires
        cells::plain_glyphs(edge),
        edge.len() < usize::MAX,
    ensures
        card::edge(edge, card_laws::colorless(palette)) == edge,
{
    laws::lemma_plain_sanitized(edge);
    cells::law_plain_glyphs_take_one_cell(edge);
    let span = text::solid(edge, Role::Border);
    let spans = seq![span];
    let width = edge.len();
    assert(spans.drop_last() =~= Seq::empty());
    assert(text::fit_state(spans.drop_last(), width) == (Seq::<SpanView>::empty(), 0nat));
    let fit = text::fit_spans(spans, width);
    laws::law_plain_rows_are_their_fragments(fit, palette);
    if width == 0 {
        assert(fit =~= Seq::empty());
        assert(text::spans_text(fit) =~= edge);
    } else {
        assert(cells::fitted(edge, width) == edge);
        assert(fit =~= seq![span]);
        assert(fit.drop_last() =~= Seq::empty());
        assert(text::spans_text(fit.drop_last()) =~= Seq::empty());
        assert(text::spans_text(fit) =~= edge);
    }
    assert(card::edge(edge, card_laws::colorless(palette)) =~= edge);
}

proof fn lemma_line_wide(line: LineView, width: nat, palette: Palette)
    requires
        width <= usize::MAX,
        laws::line_clean(line),
        line_measures(line, width),
    ensures
        wide(card::line_text(line, width, card_laws::colorless(palette)), width),
{
    let laid = text::layout_of(line, width);
    laws::law_layout_stays_clean(line, width);
    laws::law_layout_fits(line, width);
    lemma_layout_is_fitted(line, width);
    card_laws::lemma_padded_agree(laid, width, palette);
    laws::law_plain_rows_are_their_fragments(laid, palette);
    lemma_blank_behind(
        card::painted(laid, width, card_laws::colorless(palette)),
        text::beyond(width, text::spans_cells(laid)),
    );
}

/// The pieces of the frame as they are drawn without colour.
proof fn lemma_frame(palette: Palette)
    ensures
        card::edge("│"@, card_laws::colorless(palette)) == seq!['│'],
        card::edge("├"@, card_laws::colorless(palette)) == seq!['├'],
        card::edge("┤"@, card_laws::colorless(palette)) == seq!['┤'],
        card::edge("╰"@, card_laws::colorless(palette)) == seq!['╰'],
        card::edge("╯"@, card_laws::colorless(palette)) == seq!['╯'],
        card::edge("╮"@, card_laws::colorless(palette)) == seq!['╮'],
        card::edge(" "@, card_laws::colorless(palette)) == seq![' '],
        card::edge("╭─"@, card_laws::colorless(palette)) == seq!['╭'] + seq!['─'],
        " "@ == seq![' '],
{
    reveal_strlit("│");
    reveal_strlit("├");
    reveal_strlit("┤");
    reveal_strlit("╰");
    reveal_strlit("╯");
    reveal_strlit("╮");
    reveal_strlit(" ");
    reveal_strlit("╭─");
    lemma_edge_is_its_text("│"@, palette);
    lemma_edge_is_its_text("├"@, palette);
    lemma_edge_is_its_text("┤"@, palette);
    lemma_edge_is_its_text("╰"@, palette);
    lemma_edge_is_its_text("╯"@, palette);
    lemma_edge_is_its_text("╮"@, palette);
    lemma_edge_is_its_text(" "@, palette);
    lemma_edge_is_its_text("╭─"@, palette);
    assert("│"@ =~= seq!['│']);
    assert("├"@ =~= seq!['├']);
    assert("┤"@ =~= seq!['┤']);
    assert("╰"@ =~= seq!['╰']);
    assert("╯"@ =~= seq!['╯']);
    assert("╮"@ =~= seq!['╮']);
    assert(" "@ =~= seq![' ']);
    assert("╭─"@ =~= seq!['╭'] + seq!['─']);
}

/// The rows, without their escape sequences, take this many cells each.
spec fn rows_wide(rows: Seq<Seq<char>>, width: nat) -> bool {
    forall|i: int|
        0 <= i < rows.len() ==> cells::cell_width(card::stripped(#[trigger] rows[i])) == width
}

proof fn lemma_rows_wide_join(first: Seq<Seq<char>>, second: Seq<Seq<char>>, width: nat)
    requires
        rows_wide(first, width),
        rows_wide(second, width),
    ensures
        rows_wide(first + second, width),
{
    let all = first + second;
    assert forall|i: int| 0 <= i < all.len() implies cells::cell_width(
        card::stripped(#[trigger] all[i]),
    ) == width by {
        if i < first.len() {
            assert(all[i] == first[i]);
        } else {
            assert(all[i] == second[i - first.len()]);
        }
    }
}

proof fn lemma_wide_row(row: Seq<char>, width: nat)
    requires
        wide(row, width),
    ensures
        rows_wide(seq![row], width),
        cells::cell_width(card::stripped(row)) == width,
{
    card_laws::lemma_clean_strips_to_itself(row);
}

proof fn lemma_title_wide(title: Seq<SpanView>, inner: nat, palette: Palette)
    requires
        laws::spans_clean(title),
        2 <= inner < usize::MAX - 2,
        title_measures(title, (inner - 2) as nat),
    ensures
        wide(card::title_text(title, inner, card_laws::colorless(palette)), inner + 2),
{
    let off = card_laws::colorless(palette);
    let room = (inner - 2) as nat;
    let words = card::painted(title, room, off);
    card_laws::lemma_title_agrees(title, inner, palette);
    card_laws::lemma_painted_agree(title, room, palette);
    card_laws::lemma_clean_strips_to_itself(words);
    laws::law_plain_rows_are_their_fragments(text::fit_spans(title, room), palette);
    let used = cells::cell_width(words);
    let fill = strings::repeated('─', (inner - 2 - used) as nat);
    lemma_frame(palette);
    assert(cells::plain_glyphs(fill));
    lemma_edge_is_its_text(fill, palette);
    let end = fill + seq!['╮'];
    assert(cells::plain_glyphs(end));
    cells::law_plain_glyphs_take_one_cell(end);
    cells::law_plain_glyphs_take_one_cell(seq!['╭']);
    let rest = words + seq![' '] + end;
    cells::law_parting_glyphs_part(words, ' ', end);
    cells::law_parting_glyphs_part(seq!['╭'], '─', rest);
    assert(card::title_text(title, inner, off) =~= seq!['╭'] + seq!['─'] + rest);
}

proof fn lemma_framed_wide(line: LineView, inner: nat, palette: Palette)
    requires
        laws::line_clean(line),
        2 <= inner <= usize::MAX,
        line_measures(line, (inner - 2) as nat),
    ensures
        wide(card::framed_text(line, inner, card_laws::colorless(palette)), inner + 2),
{
    let off = card_laws::colorless(palette);
    let words = card::line_text(line, (inner - 2) as nat, off);
    card_laws::lemma_framed_agrees(line, inner, palette);
    lemma_line_wide(line, (inner - 2) as nat, palette);
    lemma_frame(palette);
    let inside = seq![' '] + words + seq![' '];
    lemma_between_glyphs(' ', words, ' ');
    lemma_between_glyphs('│', inside, '│');
    assert(card::framed_text(line, inner, off) =~= seq!['│'] + inside + seq!['│']);
}

proof fn lemma_framed_rows_wide(lines: Seq<LineView>, inner: nat, palette: Palette)
    requires
        laws::lines_clean(lines),
        2 <= inner <= usize::MAX,
        lines_measure(lines, (inner - 2) as nat),
    ensures
        rows_wide(card::framed_texts(lines, inner, card_laws::colorless(palette)), inner + 2),
{
    let rows = card::framed_texts(lines, inner, card_laws::colorless(palette));
    assert forall|i: int| 0 <= i < rows.len() implies cells::cell_width(
        card::stripped(#[trigger] rows[i]),
    ) == inner + 2 by {
        assert(laws::line_clean(lines[i]));
        assert(line_measures(lines[i], (inner - 2) as nat));
        lemma_framed_wide(lines[i], inner, palette);
        lemma_wide_row(rows[i], inner + 2);
    }
}

proof fn lemma_sections_wide(sections: Seq<SectionView>, width: nat, palette: Palette)
    requires
        4 <= width <= usize::MAX,
        sections_measure(sections, width),
        forall|i: int|
            0 <= i < sections.len() ==> laws::lines_clean((#[trigger] sections[i]).left)
                && laws::lines_clean(sections[i].right),
    ensures
        rows_wide(card::section_texts(sections, width, card_laws::colorless(palette)), width),
    decreases sections.len(),
{
    if sections.len() > 0 {
        let off = card_laws::colorless(palette);
        let inner = (width - 2) as nat;
        let room = (width - 4) as nat;
        let last = sections[sections.len() - 1];
        let front = sections.drop_last();
        assert forall|i: int| 0 <= i < front.len() implies laws::lines_clean(
            (#[trigger] front[i]).left,
        ) && laws::lines_clean(front[i].right) by {
            assert(front[i] == sections[i]);
        }
        assert forall|i: int| 0 <= i < front.len() implies section_measures(
            #[trigger] front[i],
            width,
        ) by {
            assert(front[i] == sections[i]);
        }
        lemma_sections_wide(front, width, palette);
        assert(section_measures(last, width));
        let rail = text::rail_of(last.name, inner);
        assert(laws::line_clean(rail));
        lemma_line_wide(rail, inner, palette);
        lemma_frame(palette);
        let words = card::line_text(rail, inner, off);
        lemma_between_glyphs('├', words, '┤');
        let heading = card::rail_text(last.name, inner, off);
        assert(heading == seq!['├'] + words + seq!['┤']);
        assert(laws::clean(seq!['├']) && laws::clean(seq!['┤']));
        card_laws::lemma_clean_joins(seq!['├'], words);
        card_laws::lemma_clean_joins(seq!['├'] + words, seq!['┤']);
        lemma_wide_row(heading, width);
        let before = card::section_texts(front, width, off);
        lemma_rows_wide_join(before, seq![heading], width);
        assert(before.push(heading) =~= before + seq![heading]);
        let rows = text::section_rows_of(last, room, width >= 80);
        laws::lemma_clean_section(last, room, width >= 80);
        lemma_framed_rows_wide(rows, inner, palette);
        lemma_rows_wide_join(before.push(heading), card::framed_texts(rows, inner, off), width);
    }
}

/// A picture between two texts without escape sequences reads as it does alone.
proof fn lemma_strip_between(before: Seq<char>, picture: Seq<char>, behind: Seq<char>)
    requires
        laws::clean(before),
        card_laws::settled(picture),
        laws::clean(behind),
    ensures
        card::stripped(before + picture + behind) == before + card::stripped(picture) + behind,
{
    card_laws::lemma_clean_strips_to_itself(before);
    card_laws::lemma_clean_strips_to_itself(behind);
    card_laws::lemma_strip_concat(before, picture);
    card_laws::lemma_strip_concat(before + picture, behind);
}

proof fn lemma_left_wide(
    body: BodyView,
    image: SerializedView,
    cells: Size,
    height: nat,
    width: nat,
    palette: Palette,
    index: int,
)
    requires
        width <= usize::MAX,
        laws::lines_clean(body.identity),
        card_laws::image_settled(image),
        card::fits_left(image, cells, width),
        lines_measure(body.identity, text::beyond(width, (cells.width + 7) as nat)),
        0 <= index < height,
    ensures
        cells::cell_width(
            card::stripped(
                card::left_row(
                    body,
                    image,
                    cells,
                    height,
                    width,
                    card_laws::colorless(palette),
                    index,
                ),
            ),
        ) == width,
{
    let off = card_laws::colorless(palette);
    let room = text::beyond(width, (cells.width + 7) as nat);
    let picture = card::image_part(image, cells, height, index);
    let words = if index < body.identity.len() {
        card::line_text(body.identity[index], room, off)
    } else {
        strings::blank(room)
    };
    let gap = strings::blank(cells.width as nat);
    assert(wide(gap, cells.width as nat)) by {
        cells::law_plain_glyphs_take_one_cell(gap);
    }
    card_laws::lemma_clean_strips_to_itself(gap);
    assert(card_laws::settled(picture));
    assert(cells::cell_width(card::stripped(picture)) == cells.width);
    assert(wide(words, room)) by {
        if index < body.identity.len() {
            assert(laws::line_clean(body.identity[index]));
            assert(line_measures(body.identity[index], room));
            lemma_line_wide(body.identity[index], room, palette);
        } else {
            cells::law_plain_glyphs_take_one_cell(words);
        }
    }
    lemma_frame(palette);
    let before = seq!['│'] + seq![' '];
    let inside = seq![' '] + words + seq![' '];
    let behind = seq![' '] + seq!['│'] + inside + seq!['│'];
    assert(laws::clean(behind)) by {
        assert(laws::clean(seq![' ']) && laws::clean(seq!['│']));
        card_laws::lemma_clean_joins(seq![' '], words);
        card_laws::lemma_clean_joins(seq![' '] + words, seq![' ']);
        card_laws::lemma_clean_joins(seq![' '], seq!['│']);
        card_laws::lemma_clean_joins(seq![' '] + seq!['│'], inside);
        card_laws::lemma_clean_joins(seq![' '] + seq!['│'] + inside, seq!['│']);
    }
    lemma_strip_between(before, picture, behind);
    assert(card::left_row(body, image, cells, height, width, off, index) =~= before + picture
        + behind);
    let shown = card::stripped(picture);
    lemma_between_glyphs(' ', words, ' ');
    lemma_between_glyphs('│', inside, '│');
    let text = seq!['│'] + inside + seq!['│'];
    assert(before + shown + behind =~= seq!['│'] + seq![' '] + (shown + seq![' '] + text));
    cells::law_parting_glyphs_part(shown, ' ', text);
    cells::law_plain_glyphs_take_one_cell(seq!['│']);
    cells::law_parting_glyphs_part(seq!['│'], ' ', shown + seq![' '] + text);
}

proof fn lemma_top_wide(
    image: SerializedView,
    cells: Size,
    width: nat,
    palette: Palette,
    index: int,
)
    requires
        card_laws::image_settled(image),
        card::fits_top(image, cells, width),
        0 <= index < image.placeholder_rows.len(),
    ensures
        cells::cell_width(
            card::stripped(
                card::top_row(image, cells, width, card_laws::colorless(palette), index),
            ),
        ) == width,
{
    let off = card_laws::colorless(palette);
    let inner = (width - 2) as nat;
    let count = (inner - cells.width) as nat / 2;
    let more = (inner - cells.width - count) as nat;
    let picture = card::without_newline(image.placeholder_rows[index]);
    let shown = card::stripped(picture);
    let (front, back) = (strings::blank(count), strings::blank(more));
    lemma_frame(palette);
    let before = seq!['│'] + front;
    let behind = back + seq!['│'];
    assert(laws::clean(before) && laws::clean(behind));
    assert(card_laws::settled(picture));
    lemma_strip_between(before, picture, behind);
    assert(card::top_row(image, cells, width, off, index) =~= before + picture + behind);
    lemma_blank_behind(shown, more);
    lemma_blank_before(count, shown + back);
    lemma_between_glyphs('│', front + (shown + back), '│');
    assert(before + shown + behind =~= seq!['│'] + (front + (shown + back)) + seq!['│']);
}

proof fn lemma_identity_wide(
    body: BodyView,
    full: bool,
    width: nat,
    palette: Palette,
    image: Option<(SerializedView, Size, ImagePosition)>,
)
    requires
        4 <= width <= usize::MAX,
        laws::lines_clean(body.identity),
        image is Some ==> card_laws::image_settled((image->0).0),
        lines_measure(body.identity, identity_room(width, image)),
    ensures
        rows_wide(
            card::identity_texts(body, full, width, card_laws::colorless(palette), image),
            width,
        ),
{
    let off = card_laws::colorless(palette);
    let inner = (width - 2) as nat;
    let rows = card::identity_texts(body, full, width, off, image);
    match image {
        Some((image, cells, ImagePosition::Left)) => {
            if card::fits_left(image, cells, width) {
                let height = card::identity_height(body, full);
                assert forall|i: int| 0 <= i < rows.len() implies cells::cell_width(
                    card::stripped(#[trigger] rows[i]),
                ) == width by {
                    lemma_left_wide(body, image, cells, height, width, palette, i);
                }
            } else {
                lemma_framed_rows_wide(body.identity, inner, palette);
            }
        },
        Some((image, cells, ImagePosition::Top)) => {
            lemma_framed_rows_wide(body.identity, inner, palette);
            if card::fits_top(image, cells, width) {
                let drawn = Seq::new(
                    image.placeholder_rows.len(),
                    |i: int| card::top_row(image, cells, width, off, i),
                );
                assert forall|i: int| 0 <= i < drawn.len() implies cells::cell_width(
                    card::stripped(#[trigger] drawn[i]),
                ) == width by {
                    lemma_top_wide(image, cells, width, palette, i);
                }
                lemma_rows_wide_join(
                    drawn,
                    card::framed_texts(body.identity, inner, off),
                    width,
                );
            }
        },
        None => {
            lemma_framed_rows_wide(body.identity, inner, palette);
        },
    }
}

/// Every row of a card is exactly as wide as the card, with colour and without, with an
/// image and without, wherever its texts take what their parts take.
pub proof fn law_card_rows_are_as_wide_as_the_card(
    body: BodyView,
    full: bool,
    width: nat,
    palette: Palette,
    color: bool,
    image: Option<(SerializedView, Size, ImagePosition)>,
)
    requires
        20 <= width < usize::MAX,
        laws::body_clean(body),
        body_measures(body, full, width, image),
        image is Some ==> card_laws::image_settled((image->0).0),
    ensures
        ({
            let rows = card::composed_rows(body, full, width, Paint { color, palette }, image);
            forall|i: int|
                0 <= i < rows.len() ==> cells::cell_width(card::stripped(#[trigger] rows[i]))
                    == width
        }),
{
    let off = card_laws::colorless(palette);
    let on = card_laws::colored(palette);
    let inner = (width - 2) as nat;
    let rows = card::composed_rows(body, full, width, off, image);
    lemma_title_wide(body.title, inner, palette);
    let title = card::title_text(body.title, inner, off);
    lemma_wide_row(title, width);
    let identity = card::identity_texts(body, full, width, off, image);
    lemma_identity_wide(body, full, width, palette, image);
    lemma_rows_wide_join(seq![title], identity, width);
    let head = seq![title] + identity;
    let sections = card::section_texts(body.sections, width, off);
    let most = if full {
        lemma_sections_wide(body.sections, width, palette);
        lemma_rows_wide_join(head, sections, width);
        head + sections
    } else {
        head
    };
    let line = strings::repeated('─', inner);
    assert(cells::plain_glyphs(line));
    lemma_edge_is_its_text(line, palette);
    lemma_frame(palette);
    let bottom = card::bottom_text(inner, off);
    assert(bottom == seq!['╰'] + line + seq!['╯']);
    assert(cells::plain_glyphs(bottom));
    cells::law_plain_glyphs_take_one_cell(bottom);
    lemma_plain_is_clean(bottom);
    lemma_wide_row(bottom, width);
    lemma_rows_wide_join(most, seq![bottom], width);
    assert(rows =~= most + seq![bottom]);
    card_laws::lemma_composed_agree(body, full, width, palette, image);
    let painted = card::composed_rows(body, full, width, on, image);
    card_laws::lemma_agreement(painted, rows, image is None);
    assert forall|i: int| 0 <= i < rows.len() implies cells::cell_width(
        card::stripped(#[trigger] rows[i]),
    ) == width && cells::cell_width(card::stripped(painted[i])) == width by {
        assert(card::stripped(painted[i]) == card::stripped(rows[i]));
    }
}

/// The texts of a card without an image, laid out in so many cells, take what their parts
/// take.
pub open spec fn content_measures(body: BodyView, room: nat, columns: bool) -> bool {
    &&& lines_measure(body.identity, room)
    &&& forall|i: int|
        0 <= i < body.sections.len() ==> lines_measure(
            text::section_rows_of(#[trigger] body.sections[i], room, columns),
            room,
        )
}

proof fn lemma_text_push(spans: Seq<SpanView>, last: SpanView)
    ensures
        text::spans_text(spans.push(last)) == text::spans_text(spans) + last.text,
{
    assert(spans.push(last).drop_last() =~= spans);
}

proof fn lemma_text_behind(first: SpanView, rest: Seq<SpanView>)
    ensures
        text::spans_text(seq![first] + rest) == first.text + text::spans_text(rest),
    decreases rest.len(),
{
    let all = seq![first] + rest;
    if rest.len() == 0 {
        let none = Seq::<SpanView>::empty();
        assert(all.drop_last() =~= none);
        assert(text::spans_text(none) =~= Seq::empty());
        assert(text::spans_text(all) =~= first.text + text::spans_text(rest));
    } else {
        assert(all.drop_last() =~= seq![first] + rest.drop_last());
        lemma_text_behind(first, rest.drop_last());
        assert(text::spans_text(all) =~= first.text + text::spans_text(rest));
    }
}

/// A framed row takes, as one text, the width of its content and the four cells of the frame.
proof fn lemma_framed_row_text(line: LineView, content: nat)
    requires
        content + 4 < usize::MAX,
        line_measures(line, content),
    ensures
        cells::cell_width(text::spans_text(text::framed(line, content).fragments)) == content + 4,
{
    reveal_strlit("│ ");
    reveal_strlit(" │");
    laws::law_layout_fits(line, content);
    let laid = text::layout_of(line, content);
    let pad = strings::blank(text::beyond(content, text::spans_cells(laid)));
    let (left, right) = (text::solid("│ "@, Role::Border), text::solid(" │"@, Role::Border));
    let middle = text::solid(pad, Role::Text);
    laws::lemma_plain_sanitized("│ "@);
    laws::lemma_plain_sanitized(" │"@);
    laws::lemma_plain_sanitized(pad);
    let words = text::spans_text(laid);
    lemma_text_behind(left, laid);
    lemma_text_push(seq![left] + laid, middle);
    lemma_text_push((seq![left] + laid).push(middle), right);
    lemma_blank_behind(words, pad.len());
    let inside = seq![' '] + (words + pad) + seq![' '];
    lemma_between_glyphs(' ', words + pad, ' ');
    lemma_between_glyphs('│', inside, '│');
    assert(text::spans_text(text::framed(line, content).fragments) =~= seq!['│'] + inside
        + seq!['│']);
}

/// The rows take, each as one text, this many cells.
spec fn lines_wide(rows: Seq<LineView>, width: nat) -> bool {
    forall|i: int|
        0 <= i < rows.len() ==> cells::cell_width(
            text::spans_text((#[trigger] rows[i]).fragments),
        ) == width
}

proof fn lemma_lines_wide_join(first: Seq<LineView>, second: Seq<LineView>, width: nat)
    requires
        lines_wide(first, width),
        lines_wide(second, width),
    ensures
        lines_wide(first + second, width),
{
    let all = first + second;
    assert forall|i: int| 0 <= i < all.len() implies cells::cell_width(
        text::spans_text((#[trigger] all[i]).fragments),
    ) == width by {
        if i < first.len() {
            assert(all[i] == first[i]);
        } else {
            assert(all[i] == second[i - first.len()]);
        }
    }
}

proof fn lemma_framed_all_wide(lines: Seq<LineView>, content: nat)
    requires
        content + 4 < usize::MAX,
        lines_measure(lines, content),
    ensures
        lines_wide(text::framed_all(lines, content), content + 4),
{
    let rows = text::framed_all(lines, content);
    assert forall|i: int| 0 <= i < rows.len() implies cells::cell_width(
        text::spans_text((#[trigger] rows[i]).fragments),
    ) == content + 4 by {
        assert(line_measures(lines[i], content));
        lemma_framed_row_text(lines[i], content);
    }
}

/// A row of plain glyphs takes, as one text, what its parts take.
proof fn lemma_plain_row_wide(row: LineView, width: nat)
    requires
        spans_plain(row.fragments),
        text::spans_cells(row.fragments) == width,
        width < usize::MAX,
    ensures
        lines_wide(seq![row], width),
{
    lemma_plain_spans_measure(row.fragments);
}

proof fn lemma_framed_sections_text(sections: Seq<SectionView>, width: nat)
    requires
        20 <= width <= 120,
        forall|i: int|
            0 <= i < sections.len() ==> cells::plain_glyphs((#[trigger] sections[i]).name)
                && lines_measure(
                text::section_rows_of(sections[i], (width - 4) as nat, width >= 80),
                (width - 4) as nat,
            ),
    ensures
        lines_wide(text::framed_sections(sections, width), width),
    decreases sections.len(),
{
    if sections.len() > 0 {
        let room = (width - 4) as nat;
        let inner = (width - 2) as nat;
        let front = sections.drop_last();
        let last = sections[sections.len() - 1];
        assert forall|i: int| 0 <= i < front.len() implies cells::plain_glyphs(
            (#[trigger] front[i]).name,
        ) && lines_measure(text::section_rows_of(front[i], room, width >= 80), room) by {
            assert(front[i] == sections[i]);
        }
        lemma_framed_sections_text(front, width);
        let rail = text::connected_rail(last.name, inner);
        lemma_rail_plain(last.name, inner);
        reveal_strlit("├");
        reveal_strlit("┤");
        laws::lemma_plain_sanitized("├"@);
        laws::lemma_plain_sanitized("┤"@);
        let parts = text::rail_of(last.name, inner).fragments;
        assert forall|i: int| 0 <= i < rail.fragments.len() implies cells::plain_glyphs(
            (#[trigger] rail.fragments[i]).text,
        ) by {
            if 0 < i <= parts.len() {
                assert(rail.fragments[i] == parts[i - 1]);
            }
        }
        laws::lemma_connected_rail_width(last.name, inner);
        lemma_plain_row_wide(rail, width);
        let before = text::framed_sections(front, width);
        lemma_lines_wide_join(before, seq![rail], width);
        assert(before.push(rail) =~= before + seq![rail]);
        let rows = text::section_rows_of(last, room, width >= 80);
        lemma_framed_all_wide(rows, room);
        lemma_lines_wide_join(before.push(rail), text::framed_all(rows, room), width);
    }
}

proof fn lemma_edges_plain(inner: nat)
    ensures
        spans_plain(text::top_row(seq![text::solid("hoshino"@, Role::Primary)], inner).fragments),
        spans_plain(text::bottom_row(inner).fragments),
{
    reveal_strlit("hoshino");
    reveal_strlit("╭─");
    reveal_strlit("╮");
    reveal_strlit("╰");
    reveal_strlit("╯");
    reveal_strlit(" ");
    laws::lemma_plain_sanitized("hoshino"@);
    laws::lemma_plain_sanitized("╭─"@);
    laws::lemma_plain_sanitized("╮"@);
    laws::lemma_plain_sanitized("╰"@);
    laws::lemma_plain_sanitized("╯"@);
    laws::lemma_plain_sanitized(strings::repeated('─', inner));
    let title = seq![text::solid("hoshino"@, Role::Primary)];
    assert(spans_plain(title));
    let shown = text::fit_spans(title, text::beyond(inner, 2));
    lemma_fit_plain(title, text::beyond(inner, 2));
    let tail = " "@ + strings::repeated(
        '─',
        text::beyond(inner, text::held(text::spans_cells(shown), 2)),
    );
    assert(cells::plain_glyphs(tail));
    laws::lemma_plain_sanitized(tail);
    let top = text::top_row(title, inner).fragments;
    assert forall|i: int| 0 <= i < top.len() implies cells::plain_glyphs(
        (#[trigger] top[i]).text,
    ) by {
        if 0 < i <= shown.len() {
            assert(top[i] == shown[i - 1]);
        }
    }
}

proof fn lemma_framed_card_text(snapshot: Snapshot, options: TextOptions)
    requires
        !options.embedded,
        text::card_width(options) >= 20,
        content_measures(
            text::card_body_of(snapshot, options.full),
            (text::card_width(options) - 4) as nat,
            text::card_width(options) >= 80,
        ),
    ensures
        lines_wide(text::card_rows(snapshot, options), text::card_width(options)),
{
    let width = text::card_width(options);
    let inner = (width - 2) as nat;
    let room = (width - 4) as nat;
    let body = text::card_body_of(snapshot, options.full);
    laws::lemma_body_shape(snapshot, options.full);
    laws::lemma_edges_width(inner);
    lemma_edges_plain(inner);
    let top = text::top_row(body.title, inner);
    let bottom = text::bottom_row(inner);
    lemma_plain_row_wide(top, width);
    lemma_plain_row_wide(bottom, width);
    let head = text::framed_all(body.identity, room);
    let bands = text::framed_sections(body.sections, width);
    lemma_framed_all_wide(body.identity, room);
    lemma_framed_sections_text(body.sections, width);
    lemma_lines_wide_join(seq![top], head, width);
    lemma_lines_wide_join(seq![top] + head, bands, width);
    lemma_lines_wide_join(seq![top] + head + bands, seq![bottom], width);
    assert(text::card_rows(snapshot, options) =~= seq![top] + head + bands + seq![bottom]);
}

proof fn lemma_bare_sections_measure(sections: Seq<SectionView>, width: nat)
    requires
        1 <= width <= 120,
        forall|i: int|
            0 <= i < sections.len() ==> cells::plain_glyphs((#[trigger] sections[i]).name)
                && lines_measure(text::section_rows_of(sections[i], width, width >= 80), width),
    ensures
        lines_measure(text::bare_sections(sections, width), width),
    decreases sections.len(),
{
    if sections.len() > 0 {
        let front = sections.drop_last();
        let last = sections[sections.len() - 1];
        assert forall|i: int| 0 <= i < front.len() implies cells::plain_glyphs(
            (#[trigger] front[i]).name,
        ) && lines_measure(text::section_rows_of(front[i], width, width >= 80), width) by {
            assert(front[i] == sections[i]);
        }
        lemma_bare_sections_measure(front, width);
        lemma_rail_plain(last.name, width);
        lemma_plain_line_measures(text::rail_of(last.name, width), width);
        let before = text::bare_sections(front, width);
        let rows = text::section_rows_of(last, width, width >= 80);
        let after = text::bare_sections(sections, width);
        assert forall|i: int| 0 <= i < after.len() implies line_measures(
            #[trigger] after[i],
            width,
        ) by {
            if i < before.len() {
                assert(after[i] == before[i]);
            } else if i > before.len() {
                assert(after[i] == rows[i - before.len() - 1]);
            }
        }
    }
}

/// Every row of a framed text card, without its escape sequences, is exactly as wide as the
/// card, and every row of an unframed one at most that, wherever the texts of the card, as
/// they are laid out in it, take what their parts take.
pub proof fn law_row_texts_keep_to_the_width(snapshot: Snapshot, options: TextOptions)
    requires
        content_measures(
            text::card_body_of(snapshot, options.full),
            text_room(options),
            text::card_width(options) >= 80,
        ),
    ensures
        ({
            let width = text::card_width(options);
            let rows = text::card_texts(snapshot, options);
            forall|i: int|
                0 <= i < rows.len() ==> {
                    let taken = cells::cell_width(card::stripped(#[trigger] rows[i]));
                    &&& taken <= width
                    &&& !options.embedded && width >= 20 ==> taken == width
                }
        }),
{
    let width = text::card_width(options);
    let rows = text::card_rows(snapshot, options);
    let texts = text::card_texts(snapshot, options);
    let colors = theme::palette_of(options.theme);
    let body = text::card_body_of(snapshot, options.full);
    laws::lemma_body_shape(snapshot, options.full);
    laws::law_rows_keep_to_the_width(snapshot, options);
    laws::law_rows_hold_no_control_characters(snapshot, options);
    let bare = options.embedded || width < 20;
    if bare {
        lemma_bare_sections_measure(body.sections, width);
    } else {
        lemma_framed_card_text(snapshot, options);
    }
    assert forall|i: int| 0 <= i < texts.len() implies {
        let taken = cells::cell_width(card::stripped(#[trigger] texts[i]));
        &&& taken <= width
        &&& !options.embedded && width >= 20 ==> taken == width
    } by {
        let parts = rows[i].fragments;
        laws::law_plain_rows_are_their_fragments(parts, colors);
        assert(laws::spans_clean(parts));
        card_laws::law_colour_only_adds_escapes_to_a_row(snapshot, options, colors, i);
        card_laws::lemma_spans_text_clean(parts);
        card_laws::lemma_clean_strips_to_itself(text::spans_text(parts));
        assert(card::stripped(texts[i]) == text::spans_text(parts));
        if bare {
            let sections = text::bare_sections(body.sections, width);
            let lines = body.identity + sections;
            assert(rows[i] == text::laid_row(lines[i], width));
            if i < body.identity.len() {
                assert(lines[i] == body.identity[i]);
                assert(line_measures(body.identity[i], width));
            } else {
                assert(lines[i] == sections[i - body.identity.len()]);
                assert(line_measures(sections[i - body.identity.len()], width));
            }
        } else {
            assert(cells::cell_width(text::spans_text(rows[i].fragments)) == width);
        }
    }
}

/// The cells that a line of a text card is laid out in.
pub open spec fn text_room(options: TextOptions) -> nat {
    let width = text::card_width(options);
    if options.embedded || width < 20 {
        width
    } else {
        (width - 4) as nat
    }
}

} // verus!
