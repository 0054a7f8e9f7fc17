//! Bounded live presentation: where the live card and its image stand, and what
//! its rows are.
use vstd::prelude::*;
use crate::config::{ImagePosition, Settings};
use crate::render::cells;
use crate::render::cells::visible_width;
use crate::render::laws;
use crate::render::one_shot::Rect;
use crate::render::text;
use crate::render::text::{
    append_lines, append_spans, copy_line, expanded_card_spans, layout_line, no_lines, no_spans,
    push_line, push_span, row, section_rows, span, BodyView, CardBody, CardLine, CardSection,
    CardSpan, LineView, SectionView, SpanView,
};
use crate::render::theme;
use crate::render::theme::{ExpandedChunk, Palette, Role};
use crate::strings;
use crate::strings::{repeat_char, spaces};

verus! {

pub const MIN_LEFT_CARD_WIDTH: u16 = 43;

pub const MIN_TOP_CARD_WIDTH: u16 = 34;

pub const MIN_RAIL_WIDTH: u16 = 32;

/// `text` where it fits in `width` cells, else its two ends round an ellipsis. What
/// the front leaves of its half goes to the back.
pub open spec fn live_fitted(text: Seq<char>, width: nat) -> Seq<char> {
    if cells::cell_width(text) <= width {
        text
    } else if width == 0 {
        Seq::empty()
    } else if width == 1 {
        "…"@
    } else {
        let front = cells::taken(text, (width - 1) as nat / 2);
        let back = cells::ended(
            text,
            text::beyond((width - 1) as nat, cells::cell_width(front)),
        );
        front + "…"@ + back
    }
}

/// The spans that fit in `width` cells, and the cells they take.
pub open spec fn live_fit_state(spans: Seq<SpanView>, width: nat) -> (Seq<SpanView>, nat)
    decreases spans.len(),
{
    if spans.len() == 0 {
        (Seq::empty(), 0)
    } else {
        let before = live_fit_state(spans.drop_last(), width);
        if before.1 >= width {
            before
        } else {
            let text = live_fitted(spans.last().text, (width - before.1) as nat);
            (
                before.0.push(SpanView { text, ..spans.last() }),
                text::held(before.1, cells::cell_width(text)),
            )
        }
    }
}

fn fit_cells(value: &str, width: usize) -> (text: String)
    ensures
        text@ == live_fitted(value@, width as nat),
{
    if visible_width(value) <= width {
        return value.to_owned();
    }
    if width == 0 {
        return String::new();
    }
    if width == 1 {
        return "…".to_owned();
    }
    let front = cells::take_front(value, (width - 1) / 2);
    let rest: usize = (width - 1).saturating_sub(visible_width(front.as_str()));
    let back = cells::take_back(value, rest);
    front.concat("…").concat(back.as_str())
}

fn fit_fragments(fragments: &Vec<CardSpan>, width: usize) -> (output: Vec<CardSpan>)
    ensures
        text::span_views(output@) == live_fit_state(
            text::span_views(fragments@),
            width as nat,
        ).0,
{
    let ghost views = text::span_views(fragments@);
    let mut used: usize = 0;
    let mut output = no_spans();
    let mut at: usize = 0;
    while at < fragments.len()
        invariant
            at <= fragments@.len(),
            views == text::span_views(fragments@),
            (text::span_views(output@), used as nat) == live_fit_state(
                views.take(at as int),
                width as nat,
            ),
        decreases fragments@.len() - at,
    {
        assert(views.take(at + 1).drop_last() =~= views.take(at as int));
        let fragment = &fragments[at];
        if used < width {
            let text = fit_cells(fragment.text.as_str(), width - used);
            used = used.saturating_add(visible_width(text.as_str()));
            push_span(
                &mut output,
                CardSpan { text, role: fragment.role, style: fragment.style },
            );
        }
        at = at + 1;
    }
    assert(views.take(at as int) =~= views);
    output
}

/// A line at a width: laid out where a part of it depends on the width, else cut.
pub open spec fn live_spans(line: LineView, width: nat) -> Seq<SpanView> {
    if line.flex is None && line.trailing.len() == 0 {
        live_fit_state(line.fragments, width).0
    } else {
        text::layout_of(line, width)
    }
}

fn fit_line(line: &CardLine, width: usize) -> (spans: Vec<CardSpan>)
    requires
        text::sound_line(line@),
    ensures
        text::span_views(spans@) == live_spans(line@, width as nat),
{
    if line.flex.is_none() && line.trailing.len() == 0 {
        fit_fragments(&line.fragments, width)
    } else {
        layout_line(line, width)
    }
}

/// The coloured chunks of a row of the live card.
pub fn live_chunks(line: &CardLine, width: usize, colors: Palette) -> (chunks: Vec<ExpandedChunk>)
    requires
        text::sound_line(line@),
    ensures
        theme::chunk_views(chunks@) == text::expanded_spans(
            live_spans(line@, width as nat),
            colors,
        ),
{
    expanded_card_spans(&row(line.role, fit_line(line, width)), colors)
}

/// What the live view shows, and where.
#[derive(Clone, Debug)]
pub struct LivePlan {
    pub card: Rect,
    pub image: Option<Rect>,
    pub lines: Vec<CardLine>,
}

#[verifier::ext_equal]
pub struct PlanView {
    pub card: Rect,
    pub image: Option<Rect>,
    pub lines: Seq<LineView>,
}

impl View for LivePlan {
    type V = PlanView;

    open spec fn view(&self) -> PlanView {
        PlanView { card: self.card, image: self.image, lines: text::line_views(self.lines@) }
    }
}

pub open spec fn blank_row() -> LineView {
    text::row_of(Role::Text, Seq::empty())
}

pub open spec fn blank_rows(count: nat) -> Seq<LineView> {
    Seq::new(count, |i: int| blank_row())
}

fn blank_line() -> (line: CardLine)
    ensures
        line@ == blank_row(),
{
    row(Role::Text, no_spans())
}

fn append_blanks(lines: &mut Vec<CardLine>, count: usize)
    ensures
        text::line_views(final(lines)@) == text::line_views(old(lines)@) + blank_rows(count as nat),
{
    let ghost before = text::line_views(lines@);
    let mut at: usize = 0;
    assert(text::line_views(lines@) =~= before + blank_rows(0));
    while at < count
        invariant
            at <= count,
            text::line_views(lines@) == before + blank_rows(at as nat),
        decreases count - at,
    {
        push_line(lines, blank_line());
        at = at + 1;
        assert(text::line_views(lines@) =~= before + blank_rows(at as nat));
    }
}

/// `[ name ] ───`: the head of a section of the live card, in the section's role.
pub open spec fn live_rail(name: Seq<char>, role: Role, width: nat) -> LineView {
    let title = live_fitted(name, text::beyond(width, 4));
    let fill = text::beyond(width, text::held(cells::cell_width(title), 5));
    text::row_of(
        role,
        seq![text::solid("[ "@ + title + " ]"@, role)].push(
            text::solid(" "@ + strings::repeated('─', fill), Role::Border),
        ),
    )
}

fn live_section_rail(name: &'static str, role: Role, width: usize) -> (line: CardLine)
    ensures
        line@ == live_rail(name@, role, width as nat),
{
    let title = fit_cells(name, width.saturating_sub(4));
    let fill: usize = width.saturating_sub(visible_width(title.as_str()).saturating_add(5));
    let mut fragments = no_spans();
    push_span(
        &mut fragments,
        span("[ ".to_owned().concat(title.as_str()).concat(" ]").as_str(), role),
    );
    push_span(
        &mut fragments,
        span(" ".to_owned().concat(repeat_char('─', fill).as_str()).as_str(), Role::Border),
    );
    row(role, fragments)
}

/// The sections of the live card: each has its head, its rows and a blank one.
pub open spec fn live_sections(sections: Seq<SectionView>, width: nat, wide: bool) -> Seq<LineView>
    decreases sections.len(),
{
    if sections.len() == 0 {
        Seq::empty()
    } else {
        let last = sections.last();
        (live_sections(sections.drop_last(), width, wide).push(
            live_rail(last.name, last.role, width),
        ) + text::section_rows_of(last, width, wide)).push(blank_row())
    }
}

fn append_sections(lines: &mut Vec<CardLine>, sections: &Vec<CardSection>, width: usize, wide: bool)
    requires
        forall|i: int|
            0 <= i < sections@.len() ==> text::sound_lines((#[trigger] sections@[i])@.left)
                && text::sound_lines(sections@[i]@.right),
        text::sound_lines(text::line_views(old(lines)@)),
    ensures
        text::line_views(final(lines)@) == text::line_views(old(lines)@) + live_sections(
            text::section_views(sections@),
            width as nat,
            wide,
        ),
        text::sound_lines(text::line_views(final(lines)@)),
{
    let ghost before = text::line_views(lines@);
    let ghost views = text::section_views(sections@);
    let mut at: usize = 0;
    assert(text::line_views(lines@) =~= before + live_sections(views.take(0), width as nat, wide));
    while at < sections.len()
        invariant
            at <= sections@.len(),
            views == text::section_views(sections@),
            forall|i: int|
                0 <= i < sections@.len() ==> text::sound_lines((#[trigger] sections@[i])@.left)
                    && text::sound_lines(sections@[i]@.right),
            text::sound_lines(text::line_views(lines@)),
            text::line_views(lines@) == before + live_sections(
                views.take(at as int),
                width as nat,
                wide,
            ),
        decreases sections@.len() - at,
    {
        let section = &sections[at];
        assert(views[at as int] == section@);
        push_line(lines, live_section_rail(section.name, section.role, width));
        let more = section_rows(section, width, wide);
        proof {
            text::lemma_section_rows_sound(section@, width as nat, wide);
        }
        append_lines(lines, more);
        push_line(lines, blank_line());
        assert(views.take(at + 1).drop_last() =~= views.take(at as int));
        at = at + 1;
        assert(text::line_views(lines@) =~= before + live_sections(
            views.take(at as int),
            width as nat,
            wide,
        ));
    }
    assert(views.take(at as int) =~= views);
}

pub open spec fn footer_row(full: bool) -> LineView {
    text::row_of(
        Role::Warning,
        seq![
            text::solid(
                if full {
                    "resize for details · full details hidden"@
                } else {
                    "resize for details"@
                },
                Role::Warning,
            ),
        ],
    )
}

/// What is shown where the rows do not fit: as much of the identity as fits above a
/// line that says so.
pub open spec fn fallback_rows(identity: Seq<LineView>, height: nat, full: bool) -> Seq<LineView> {
    if height == 0 {
        Seq::empty()
    } else {
        identity.take(text::smaller(identity.len(), (height - 1) as nat) as int).push(
            footer_row(full),
        )
    }
}

fn copy_front(source: &Vec<CardLine>, count: usize) -> (lines: Vec<CardLine>)
    ensures
        text::line_views(lines@) == text::line_views(source@).take(
            text::smaller(source@.len(), count as nat) as int,
        ),
{
    let ghost all = text::line_views(source@);
    let mut lines = no_lines();
    let mut at: usize = 0;
    assert(text::line_views(lines@) =~= all.take(0));
    while at < source.len() && at < count
        invariant
            at <= source@.len(),
            at <= count,
            all == text::line_views(source@),
            text::line_views(lines@) == all.take(at as int),
        decreases source@.len() - at,
    {
        push_line(&mut lines, copy_line(&source[at]));
        at = at + 1;
        assert(text::line_views(lines@) =~= all.take(at as int));
    }
    lines
}

fn fallback_lines(identity: &Vec<CardLine>, height: usize, full: bool) -> (lines: Vec<CardLine>)
    ensures
        text::line_views(lines@) == fallback_rows(
            text::line_views(identity@),
            height as nat,
            full,
        ),
{
    if height == 0 {
        return no_lines();
    }
    let mut lines = copy_front(identity, height - 1);
    let footer = if full {
        "resize for details · full details hidden"
    } else {
        "resize for details"
    };
    let mut fragments = no_spans();
    push_span(&mut fragments, span(footer, Role::Warning));
    assert(text::span_views(fragments@) =~= footer_row(full).fragments);
    push_line(&mut lines, row(Role::Warning, fragments));
    lines
}

/// A row of the identity with room for the image at its left.
pub open spec fn inset_row(line: LineView, image_width: nat, inner_width: nat) -> LineView {
    text::row_of(
        line.role,
        seq![text::solid(strings::blank(image_width + 2), Role::Text)].push(
            text::solid("│"@, Role::Border),
        ) + live_spans(line, text::beyond(inner_width, image_width + 3)),
    )
}

pub open spec fn inset_rows(
    lines: Seq<LineView>,
    identity_rows: nat,
    image_width: nat,
    inner_width: nat,
) -> Seq<LineView> {
    Seq::new(
        lines.len(),
        |i: int|
            if i < identity_rows {
                inset_row(lines[i], image_width, inner_width)
            } else {
                lines[i]
            },
    )
}

fn inset_left_lines(lines: Vec<CardLine>, identity_rows: usize, image_width: u16, inner_width: u16) -> (
    inset: Vec<CardLine>)
    requires
        image_width + 3 <= inner_width,
        text::sound_lines(text::line_views(lines@)),
    ensures
        text::line_views(inset@) == inset_rows(
            text::line_views(lines@),
            identity_rows as nat,
            image_width as nat,
            inner_width as nat,
        ),
        text::sound_lines(text::line_views(inset@)),
{
    let ghost all = inset_rows(
        text::line_views(lines@),
        identity_rows as nat,
        image_width as nat,
        inner_width as nat,
    );
    let text_width: usize = (inner_width - image_width - 3) as usize;
    let mut inset = no_lines();
    let mut at: usize = 0;
    assert(text::line_views(inset@) =~= all.take(0));
    while at < lines.len()
        invariant
            at <= lines@.len(),
            image_width + 3 <= inner_width,
            text_width == inner_width - image_width - 3,
            text::sound_lines(text::line_views(lines@)),
            text::sound_lines(text::line_views(inset@)),
            all == inset_rows(
                text::line_views(lines@),
                identity_rows as nat,
                image_width as nat,
                inner_width as nat,
            ),
            text::line_views(inset@) == all.take(at as int),
        decreases lines@.len() - at,
    {
        assert(text::line_views(lines@)[at as int] == lines@[at as int]@);
        if at < identity_rows {
            let mut fragments = no_spans();
            push_span(
                &mut fragments,
                span(spaces(image_width as usize + 2).as_str(), Role::Text),
            );
            push_span(&mut fragments, span("│", Role::Border));
            append_spans(&mut fragments, fit_line(&lines[at], text_width));
            push_line(&mut inset, row(lines[at].role, fragments));
        } else {
            push_line(&mut inset, copy_line(&lines[at]));
        }
        at = at + 1;
        assert(text::line_views(inset@) =~= all.take(at as int));
    }
    assert(all.take(at as int) =~= all);
    inset
}

/// The card on a screen: at its left, no wider than the mode's cap.
pub open spec fn live_card(area: Rect, full: bool) -> Rect {
    let cap: u16 = if full {
        120
    } else {
        104
    };
    Rect {
        x: area.x,
        y: area.y,
        width: if area.width < cap {
            area.width
        } else {
            cap
        },
        height: area.height,
    }
}

/// Inside the frame.
pub open spec fn inside(length: u16) -> u16 {
    if length >= 2 {
        (length - 2) as u16
    } else {
        0
    }
}

/// An image is meant to stand at the left of the identity, and the card is wide
/// enough.
pub open spec fn left_image(card: Rect, settings: Settings, has_image: bool) -> bool {
    has_image && settings.image.position == ImagePosition::Left && card.width
        >= MIN_LEFT_CARD_WIDTH
}

/// The rows of the identity, with those that are reserved for an image.
pub open spec fn reserved_rows(body: BodyView, left: bool, full: bool) -> nat {
    if left && full {
        body.identity_layout_height
    } else {
        body.identity.len()
    }
}

/// All rows of the card: the identity, blank ones as far as they are reserved, and
/// the sections.
pub open spec fn semantic_rows(body: BodyView, rows: nat, card: Rect) -> Seq<LineView> {
    body.identity + blank_rows(text::beyond(rows, body.identity.len())) + live_sections(
        body.sections,
        inside(card.width) as nat,
        card.width >= 80,
    )
}

/// A number of rows as far as 16 bits count.
pub open spec fn counted_rows(count: nat) -> u16 {
    if count > u16::MAX {
        u16::MAX
    } else {
        count as u16
    }
}

/// The image at the left of the identity: two columns in, in the middle of its height,
/// where the identity has three rows at least.
pub open spec fn left_area(card: Rect, settings: Settings, rows: nat) -> Option<Rect> {
    let height = counted_rows(rows);
    let room = text::beyond(inside(card.width) as nat, (3 + MIN_RAIL_WIDTH) as nat);
    let width = text::smaller(settings.image.width_cells as nat, room);
    let tall = text::smaller(
        settings.image.max_height_rows as nat,
        text::beyond(height as nat, 2),
    );
    if height >= 3 && width > 0 && tall > 0 {
        Some(
            Rect {
                x: (card.x + 2) as u16,
                y: (card.y + 1 + (height - tall) / 2) as u16,
                width: width as u16,
                height: tall as u16,
            },
        )
    } else {
        None
    }
}

/// The image above the identity, in the middle of the card, where all rows still fit.
pub open spec fn top_area(card: Rect, settings: Settings, required: nat) -> Option<Rect> {
    let inner = inside(card.width) as nat;
    let width = text::smaller(settings.image.width_cells as nat, inner);
    let height = settings.image.max_height_rows;
    if width > 0 && height > 0 && required + height <= inside(card.height) {
        Some(
            Rect {
                x: (card.x + 1 + (inner - width) / 2) as u16,
                y: (card.y + 1) as u16,
                width: width as u16,
                height,
            },
        )
    } else {
        None
    }
}

/// Where the live card and its image stand, and the rows of the card. Where the rows
/// do not fit there is no image and a line that says so; an image above the text that
/// does not fit is left out.
pub open spec fn plan_of(
    area: Rect,
    settings: Settings,
    body: BodyView,
    full: bool,
    has_image: bool,
) -> PlanView {
    let card = live_card(area, full);
    let left = left_image(card, settings, has_image);
    let rows = reserved_rows(body, left, full);
    let semantic = semantic_rows(body, rows, card);
    if counted_rows(semantic.len()) > inside(card.height) {
        PlanView {
            card,
            image: None,
            lines: fallback_rows(body.identity, inside(card.height) as nat, full),
        }
    } else if left {
        let image = left_area(card, settings, rows);
        PlanView {
            card,
            image,
            lines: match image {
                Some(area) => inset_rows(
                    semantic,
                    rows,
                    area.width as nat,
                    inside(card.width) as nat,
                ),
                None => semantic,
            },
        }
    } else if has_image && settings.image.position == ImagePosition::Top && card.width
        >= MIN_TOP_CARD_WIDTH {
        let image = top_area(card, settings, counted_rows(semantic.len()) as nat);
        PlanView {
            card,
            image,
            lines: match image {
                Some(area) => blank_rows(area.height as nat) + semantic,
                None => semantic,
            },
        }
    } else {
        PlanView { card, image: None, lines: semantic }
    }
}

fn place_left(card: Rect, settings: &Settings, rows: usize) -> (area: Option<Rect>)
    requires
        card.x + card.width <= u16::MAX,
        card.y + card.height <= u16::MAX,
        card.width >= MIN_LEFT_CARD_WIDTH,
        counted_rows(rows as nat) <= inside(card.height),
    ensures
        area == left_area(card, *settings, rows as nat),
        area is Some ==> area->0.width + 35 <= inside(card.width),
{
    let height: u16 = if rows > u16::MAX as usize {
        u16::MAX
    } else {
        rows as u16
    };
    let room: u16 = (card.width - 2).saturating_sub(3 + MIN_RAIL_WIDTH);
    let width: u16 = if settings.image.width_cells <= room {
        settings.image.width_cells
    } else {
        room
    };
    let rest: u16 = height.saturating_sub(2);
    let tall: u16 = if settings.image.max_height_rows <= rest {
        settings.image.max_height_rows
    } else {
        rest
    };
    if height >= 3 && width > 0 && tall > 0 {
        Some(Rect::new(card.x + 2, card.y + 1 + (height - tall) / 2, width, tall))
    } else {
        None
    }
}

fn place_top(card: Rect, settings: &Settings, required: u16) -> (area: Option<Rect>)
    requires
        card.x + card.width <= u16::MAX,
        card.y + card.height <= u16::MAX,
        card.width >= MIN_TOP_CARD_WIDTH,
    ensures
        area == top_area(card, *settings, required as nat),
{
    let inner: u16 = card.width - 2;
    let inner_height: u16 = card.height.saturating_sub(2);
    let width: u16 = if settings.image.width_cells <= inner {
        settings.image.width_cells
    } else {
        inner
    };
    let height: u16 = settings.image.max_height_rows;
    if width > 0 && height > 0 && required as u32 + height as u32 <= inner_height as u32 {
        Some(Rect::new(card.x + 1 + (inner - width) / 2, card.y + 1, width, height))
    } else {
        None
    }
}

/// Plans the live card for a screen.
#[verifier::spinoff_prover]
#[verifier::rlimit(30)]
pub fn live_plan(area: Rect, settings: &Settings, body: CardBody, full: bool, has_image: bool) -> (plan:
    LivePlan)
    requires
        area.x + area.width <= u16::MAX,
        area.y + area.height <= u16::MAX,
        text::sound_body(body@),
    ensures
        plan@ == plan_of(area, *settings, body@, full, has_image),
        text::sound_lines(plan@.lines),
{
    let cap: u16 = if full {
        120
    } else {
        104
    };
    let width: u16 = if area.width < cap {
        area.width
    } else {
        cap
    };
    let card = Rect::new(area.x, area.y, width, area.height);
    let inner_width: u16 = width.saturating_sub(2);
    let inner_height: u16 = area.height.saturating_sub(2);
    let left = has_image && settings.image.position == ImagePosition::Left && width
        >= MIN_LEFT_CARD_WIDTH;
    let rows: usize = if left && full {
        body.identity_layout_height
    } else {
        body.identity.len()
    };
    let mut semantic = copy_front(&body.identity, body.identity.len());
    assert(text::line_views(body.identity@).take(body.identity@.len() as int)
        =~= body@.identity);
    append_blanks(&mut semantic, rows.saturating_sub(body.identity.len()));
    assert forall|i: int| 0 <= i < body.sections@.len() implies text::sound_lines(
        (#[trigger] body.sections@[i])@.left,
    ) && text::sound_lines(body.sections@[i]@.right) by {
        assert(body@.sections[i] == body.sections@[i]@);
    }
    append_sections(&mut semantic, &body.sections, inner_width as usize, width >= 80);
    assert(text::line_views(semantic@) =~= semantic_rows(body@, rows as nat, card));
    let required: u16 = if semantic.len() > u16::MAX as usize {
        u16::MAX
    } else {
        semantic.len() as u16
    };
    if required > inner_height {
        let lines = fallback_lines(&body.identity, inner_height as usize, full);
        return LivePlan { card, image: None, lines };
    }
    if left {
        let image = place_left(card, settings, rows);
        let lines = match image {
            Some(area) => inset_left_lines(semantic, rows, area.width, inner_width),
            None => semantic,
        };
        return LivePlan { card, image, lines };
    }
    if has_image && settings.image.position == ImagePosition::Top && width >= MIN_TOP_CARD_WIDTH {
        let image = place_top(card, settings, required);
        let lines = match image {
            Some(area) => {
                let mut lines = no_lines();
                append_blanks(&mut lines, area.height as usize);
                append_lines(&mut lines, semantic);
                assert(text::line_views(lines@) =~= blank_rows(area.height as nat)
                    + text::line_views(semantic@));
                lines
            },
            None => semantic,
        };
        return LivePlan { card, image, lines };
    }
    LivePlan { card, image: None, lines: semantic }
}

/// The card keeps to the screen and to the cap of its mode. Its rows keep inside the
/// frame, and so does the image wherever there is one.
pub proof fn law_live_plan_keeps_to_the_screen(
    area: Rect,
    settings: Settings,
    body: BodyView,
    full: bool,
    has_image: bool,
)
    requires
        area.x + area.width <= u16::MAX,
        area.y + area.height <= u16::MAX,
    ensures
        ({
            let plan = plan_of(area, settings, body, full, has_image);
            &&& plan.card.x == area.x && plan.card.y == area.y
            &&& plan.card.width <= area.width && plan.card.height == area.height
            &&& plan.card.width <= 120 && (!full ==> plan.card.width <= 104)
            &&& plan.lines.len() <= inside(plan.card.height)
            &&& plan.image is Some ==> {
                &&& has_image
                &&& plan.card.x < plan.image->0.x
                &&& plan.image->0.x + plan.image->0.width < plan.card.x + plan.card.width
                &&& plan.card.y < plan.image->0.y
                &&& plan.image->0.y + plan.image->0.height < plan.card.y + plan.card.height
            }
        }),
{
    let card = live_card(area, full);
    let left = left_image(card, settings, has_image);
    let rows = reserved_rows(body, left, full);
    let semantic = semantic_rows(body, rows, card);
    assert(semantic.len() >= rows);
}

/// Where the rows do not fit, the last one says so, and in the full card that details
/// are hidden.
pub proof fn law_fallback_says_so(
    area: Rect,
    settings: Settings,
    body: BodyView,
    full: bool,
    has_image: bool,
)
    requires
        inside(area.height) > 0,
        ({
            let card = live_card(area, full);
            let rows = reserved_rows(body, left_image(card, settings, has_image), full);
            semantic_rows(body, rows, card).len() > inside(area.height)
        }),
        inside(area.height) < u16::MAX,
    ensures
        plan_of(area, settings, body, full, has_image).lines.len() > 0,
        plan_of(area, settings, body, full, has_image).lines.last() == footer_row(full),
        plan_of(area, settings, body, full, has_image).image is None,
{
}

proof fn lemma_live_text_fits(text: Seq<char>, width: nat)
    ensures
        cells::cell_width(live_fitted(text, width)) <= width,
{
    reveal_strlit("…");
    cells::lemma_regular_cells();
    if cells::cell_width(text) <= width {
    } else if width == 0 {
        assert(cells::plain_glyphs(Seq::empty()));
    } else if width == 1 {
        assert(cells::plain_glyphs("…"@));
    } else {
        let half = (width - 1) as nat / 2;
        cells::lemma_ends_fit(text, half);
        let front = cells::taken(text, half);
        cells::lemma_ends_fit(
            text,
            text::beyond((width - 1) as nat, cells::cell_width(front)),
        );
    }
}

proof fn lemma_live_fit_state(spans: Seq<SpanView>, width: nat)
    requires
        width <= usize::MAX,
    ensures
        live_fit_state(spans, width).1 <= width,
        text::spans_cells(live_fit_state(spans, width).0) == live_fit_state(spans, width).1,
    decreases spans.len(),
{
    if spans.len() > 0 {
        lemma_live_fit_state(spans.drop_last(), width);
        let before = live_fit_state(spans.drop_last(), width);
        if before.1 < width {
            lemma_live_text_fits(spans.last().text, (width - before.1) as nat);
            assert(live_fit_state(spans, width).0.drop_last() =~= before.0);
        }
    }
}

/// Every row of the live card keeps to the width that it is drawn in, whatever it holds.
pub proof fn law_live_rows_keep_to_the_width(line: LineView, width: nat)
    requires
        width <= usize::MAX,
    ensures
        text::spans_cells(live_spans(line, width)) <= width,
{
    if line.flex is None && line.trailing.len() == 0 {
        lemma_live_fit_state(line.fragments, width);
    } else {
        laws::law_layout_fits(line, width);
    }
}

} // verus!
