//! The append-safe frame of one run, with the rows of an image inside it.
use vstd::prelude::*;
use crate::config::{ImagePosition, Theme};
use crate::render::cells;
use crate::render::cells::visible_width;
use crate::render::kitty_one_shot::SerializedImage;
use crate::render::one_shot::{SerializedView, Size};
use crate::render::terminal::{MIN_LEFT_IMAGE_COLUMNS, MIN_TEXT_COLUMNS, MIN_TOP_IMAGE_COLUMNS};
use crate::render::text;
use crate::render::text::{
    fit_fragments, layout_line, no_spans, push_span, row, section_rail, section_rows,
    serialize_line, span, BodyView, CardBody, CardLine, CardSection, CardSpan, LineView,
    SectionView, SpanView,
};
use crate::render::theme;
use crate::render::theme::{Palette, Role};
use crate::strings;
use crate::strings::{chars_of, join, repeat_char, spaces, string_of};

verus! {

/// Where a character stands in a text with escape sequences.
#[derive(Clone, Copy, Debug, PartialEq, Eq, Structural)]
pub enum EscapeState {
    Text,
    Escape,
    Control,
}

/// Where the next character stands.
pub open spec fn escape_next(state: EscapeState, c: char) -> EscapeState {
    match state {
        EscapeState::Control => if '@' <= c && c <= '~' {
            EscapeState::Text
        } else {
            EscapeState::Control
        },
        EscapeState::Escape => if c == '[' {
            EscapeState::Control
        } else {
            EscapeState::Text
        },
        EscapeState::Text => if c == '\x1b' {
            EscapeState::Escape
        } else {
            EscapeState::Text
        },
    }
}

/// The characters outside escape sequences, and where the text ends.
pub open spec fn strip_state(text: Seq<char>) -> (Seq<char>, EscapeState)
    decreases text.len(),
{
    if text.len() == 0 {
        (Seq::empty(), EscapeState::Text)
    } else {
        let before = strip_state(text.drop_last());
        let c = text.last();
        (
            if before.1 == EscapeState::Text && c != '\x1b' {
                before.0.push(c)
            } else {
                before.0
            },
            escape_next(before.1, c),
        )
    }
}

/// A text without its escape sequences.
pub open spec fn stripped(text: Seq<char>) -> Seq<char> {
    strip_state(text).0
}

/// A text without its escape sequences.
pub fn strip_ansi(value: &str) -> (text: String)
    ensures
        text@ == stripped(value@),
{
    let chars = chars_of(value);
    let mut text = String::new();
    let mut state = EscapeState::Text;
    let mut at: usize = 0;
    assert(text@ =~= strip_state(chars@.take(0)).0);
    while at < chars.len()
        invariant
            chars@ == value@,
            at <= chars@.len(),
            (text@, state) == strip_state(chars@.take(at as int)),
        decreases chars@.len() - at,
    {
        let c = chars[at];
        assert(chars@.take(at + 1).drop_last() =~= chars@.take(at as int));
        state = match state {
            EscapeState::Control => if '@' <= c && c <= '~' {
                EscapeState::Text
            } else {
                EscapeState::Control
            },
            EscapeState::Escape => if c == '[' {
                EscapeState::Control
            } else {
                EscapeState::Text
            },
            EscapeState::Text => if c == '\x1b' {
                EscapeState::Escape
            } else {
                text.push(c);
                EscapeState::Text
            },
        };
        at = at + 1;
    }
    assert(chars@.take(at as int) =~= chars@);
    text
}

/// How a card is drawn: coloured or not, and in which colours.
#[derive(Clone, Copy)]
pub struct Paint {
    pub color: bool,
    pub palette: Palette,
}

/// Spans cut to a width, as text.
pub open spec fn painted(spans: Seq<SpanView>, width: nat, paint: Paint) -> Seq<char> {
    text::chunks_text(
        text::expanded_spans(text::fit_spans(spans, width), paint.palette),
        paint.color,
    )
}

/// Spans cut to a width, as text, and blanks up to the width.
pub open spec fn padded(spans: Seq<SpanView>, width: nat, paint: Paint) -> Seq<char> {
    painted(spans, width, paint) + strings::blank(
        text::beyond(width, text::fit_state(spans, width).1),
    )
}

/// The frame's own text.
pub open spec fn edge(text: Seq<char>, paint: Paint) -> Seq<char> {
    padded(seq![text::solid(text, Role::Border)], cells::cell_width(text), paint)
}

/// A line laid out at a width, as text, with blanks up to the width.
pub open spec fn line_text(line: LineView, width: nat, paint: Paint) -> Seq<char> {
    padded(text::layout_of(line, width), width, paint)
}

fn paint_spans(spans: &Vec<CardSpan>, width: usize, paint: Paint) -> (out: String)
    ensures
        out@ == painted(text::span_views(spans@), width as nat, paint),
{
    let line = row(Role::Text, fit_fragments(spans, width));
    serialize_line(&line, paint.color, paint.palette)
}

fn pad_spans(spans: &Vec<CardSpan>, width: usize, paint: Paint) -> (out: String)
    ensures
        out@ == padded(text::span_views(spans@), width as nat, paint),
{
    let used = fitted_width(spans, width);
    paint_spans(spans, width, paint).concat(spaces(width.saturating_sub(used)).as_str())
}

/// The cells that the spans take once they are cut to a width.
fn fitted_width(spans: &Vec<CardSpan>, width: usize) -> (used: usize)
    ensures
        used == text::fit_state(text::span_views(spans@), width as nat).1,
{
    let ghost views = text::span_views(spans@);
    let mut used: usize = 0;
    let mut at: usize = 0;
    while at < spans.len()
        invariant
            at <= spans@.len(),
            views == text::span_views(spans@),
            used == text::fit_state(views.take(at as int), width as nat).1,
        decreases spans@.len() - at,
    {
        assert(views.take(at + 1).drop_last() =~= views.take(at as int));
        if used < width {
            let part = cells::fit_middle(spans[at].text.as_str(), width - used);
            used = used.saturating_add(visible_width(part.as_str()));
        }
        at = at + 1;
    }
    assert(views.take(at as int) =~= views);
    used
}

fn draw_edge(text: &str, paint: Paint) -> (out: String)
    ensures
        out@ == edge(text@, paint),
{
    let mut spans = no_spans();
    push_span(&mut spans, span(text, Role::Border));
    assert(text::span_views(spans@) =~= seq![text::solid(text@, Role::Border)]);
    pad_spans(&spans, visible_width(text), paint)
}

fn draw_line(line: &CardLine, width: usize, paint: Paint) -> (out: String)
    requires
        text::sound_line(line@),
    ensures
        out@ == line_text(line@, width as nat, paint),
{
    pad_spans(&layout_line(line, width), width, paint)
}

/// `╭─title ───╮`: the title as far as it goes, and the frame.
pub open spec fn title_text(title: Seq<SpanView>, inner: nat, paint: Paint) -> Seq<char> {
    let words = painted(title, text::beyond(inner, 2), paint);
    edge("╭─"@, paint) + words + edge(" "@, paint) + edge(
        strings::repeated(
            '─',
            text::beyond(inner, text::held(cells::cell_width(stripped(words)), 2)),
        ),
        paint,
    ) + edge("╮"@, paint)
}

fn title_row(title: &Vec<CardSpan>, inner: usize, paint: Paint) -> (out: String)
    ensures
        out@ == title_text(text::span_views(title@), inner as nat, paint),
{
    let words = paint_spans(title, inner.saturating_sub(2), paint);
    let used: usize = visible_width(strip_ansi(words.as_str()).as_str());
    let fill = repeat_char('─', inner.saturating_sub(used.saturating_add(2)));
    draw_edge("╭─", paint).concat(words.as_str()).concat(draw_edge(" ", paint).as_str()).concat(
        draw_edge(fill.as_str(), paint).as_str(),
    ).concat(draw_edge("╮", paint).as_str())
}

/// `│ content │` with one cell of padding on each side of the content.
pub open spec fn framed_text(line: LineView, inner: nat, paint: Paint) -> Seq<char> {
    edge("│"@, paint) + " "@ + line_text(line, text::beyond(inner, 2), paint) + " "@ + edge(
        "│"@,
        paint,
    )
}

fn framed_line(line: &CardLine, inner: usize, paint: Paint) -> (out: String)
    requires
        text::sound_line(line@),
    ensures
        out@ == framed_text(line@, inner as nat, paint),
{
    draw_edge("│", paint).concat(" ").concat(
        draw_line(line, inner.saturating_sub(2), paint).as_str(),
    ).concat(" ").concat(draw_edge("│", paint).as_str())
}

/// `├─ name ───┤`.
pub open spec fn rail_text(name: Seq<char>, inner: nat, paint: Paint) -> Seq<char> {
    edge("├"@, paint) + line_text(text::rail_of(name, inner), inner, paint) + edge("┤"@, paint)
}

fn framed_section_rail(name: &'static str, inner: usize, paint: Paint) -> (out: String)
    ensures
        out@ == rail_text(name@, inner as nat, paint),
{
    let rail = section_rail(name, inner);
    draw_edge("├", paint).concat(draw_line(&rail, inner, paint).as_str()).concat(
        draw_edge("┤", paint).as_str(),
    )
}

pub open spec fn bottom_text(inner: nat, paint: Paint) -> Seq<char> {
    edge("╰"@, paint) + edge(strings::repeated('─', inner), paint) + edge("╯"@, paint)
}

fn bottom_row(inner: usize, paint: Paint) -> (out: String)
    ensures
        out@ == bottom_text(inner as nat, paint),
{
    draw_edge("╰", paint).concat(
        draw_edge(repeat_char('─', inner).as_str(), paint).as_str(),
    ).concat(draw_edge("╯", paint).as_str())
}

/// A row of an image without the end of its line.
pub open spec fn without_newline(row: Seq<char>) -> Seq<char> {
    if row.len() > 0 && row.last() == '\n' {
        row.drop_last()
    } else {
        row
    }
}

fn strip_newline(row: &str) -> (text: String)
    ensures
        text@ == without_newline(row@),
{
    let chars = chars_of(row);
    let length: usize = chars.len();
    if length > 0 && chars[length - 1] == '\n' {
        let text = string_of(&chars, 0, length - 1);
        assert(text@ =~= row@.drop_last());
        text
    } else {
        row.to_owned()
    }
}

/// The rows of an image are as many, and as wide, as its cells.
pub open spec fn rows_match(image: SerializedView, cells: Size) -> bool {
    &&& image.placeholder_rows.len() == cells.height
    &&& forall|i: int|
        0 <= i < image.placeholder_rows.len() ==> cells::cell_width(
            stripped(without_newline(#[trigger] image.placeholder_rows[i])),
        ) == cells.width
}

pub(crate) fn placeholder_rows_match(image: &SerializedImage, cells: Size) -> (matching: bool)
    ensures
        matching == rows_match(image@, cells),
{
    let rows = &image.placeholder_rows;
    if rows.len() != cells.height as usize {
        return false;
    }
    let mut at: usize = 0;
    while at < rows.len()
        invariant
            at <= rows@.len(),
            rows@ == image.placeholder_rows@,
            rows@.len() == cells.height,
            forall|i: int|
                0 <= i < at ==> cells::cell_width(
                    stripped(without_newline(#[trigger] image@.placeholder_rows[i])),
                ) == cells.width,
        decreases rows@.len() - at,
    {
        let bare = strip_newline(rows[at].as_str());
        assert(image@.placeholder_rows[at as int] == rows@[at as int]@);
        if visible_width(strip_ansi(bare.as_str()).as_str()) != cells.width as usize {
            return false;
        }
        at = at + 1;
    }
    true
}

/// An image at the left fits beside the text.
pub open spec fn fits_left(image: SerializedView, cells: Size, width: nat) -> bool {
    &&& width >= MIN_LEFT_IMAGE_COLUMNS
    &&& rows_match(image, cells)
    &&& cells.width + 2 <= width - 35
}

/// An image fits above the text.
pub open spec fn fits_top(image: SerializedView, cells: Size, width: nat) -> bool {
    &&& width >= MIN_TOP_IMAGE_COLUMNS
    &&& rows_match(image, cells)
    &&& cells.width <= width - 2
}

/// The rows beside an image at the left: reserved in full, or as many as there are.
pub open spec fn identity_height(body: BodyView, full: bool) -> nat {
    if full {
        body.identity_layout_height
    } else {
        body.identity.len()
    }
}

/// The part of an image that stands in a row beside the text: its rows in the middle
/// of the height, blanks above and below.
pub open spec fn image_part(image: SerializedView, cells: Size, height: nat, index: int) -> Seq<char> {
    let shown = text::smaller(image.placeholder_rows.len(), height);
    let above = (height - shown) as nat / 2;
    if above <= index < above + shown {
        without_newline(image.placeholder_rows[index - above])
    } else {
        strings::blank(cells.width as nat)
    }
}

/// `│ image │ text │`: the divider and frame each keep one cell of padding.
pub open spec fn left_row(
    body: BodyView,
    image: SerializedView,
    cells: Size,
    height: nat,
    width: nat,
    paint: Paint,
    index: int,
) -> Seq<char> {
    let words = text::beyond(width, (cells.width + 7) as nat);
    edge("│"@, paint) + " "@ + image_part(image, cells, height, index) + " "@ + edge("│"@, paint)
        + " "@ + (if index < body.identity.len() {
        line_text(body.identity[index], words, paint)
    } else {
        strings::blank(words)
    }) + " "@ + edge("│"@, paint)
}

/// A row of an image above the text, in the middle of the frame.
pub open spec fn top_row(image: SerializedView, cells: Size, width: nat, paint: Paint, index: int) -> Seq<
    char,
> {
    let inner = (width - 2) as nat;
    let before = (inner - cells.width) as nat / 2;
    edge("│"@, paint) + strings::blank(before) + without_newline(image.placeholder_rows[index])
        + strings::blank((inner - cells.width - before) as nat) + edge("│"@, paint)
}

pub open spec fn framed_texts(lines: Seq<LineView>, inner: nat, paint: Paint) -> Seq<Seq<char>> {
    Seq::new(lines.len(), |i: int| framed_text(lines[i], inner, paint))
}

/// The identity of the card, with its image where there is one that fits.
pub open spec fn identity_texts(
    body: BodyView,
    full: bool,
    width: nat,
    paint: Paint,
    image: Option<(SerializedView, Size, ImagePosition)>,
) -> Seq<Seq<char>> {
    let inner = (width - 2) as nat;
    match image {
        Some((image, cells, ImagePosition::Left)) => if fits_left(image, cells, width) {
            Seq::new(
                identity_height(body, full),
                |i: int|
                    left_row(body, image, cells, identity_height(body, full), width, paint, i),
            )
        } else {
            framed_texts(body.identity, inner, paint)
        },
        Some((image, cells, ImagePosition::Top)) => if fits_top(image, cells, width) {
            Seq::new(
                image.placeholder_rows.len(),
                |i: int| top_row(image, cells, width, paint, i),
            ) + framed_texts(body.identity, inner, paint)
        } else {
            framed_texts(body.identity, inner, paint)
        },
        None => framed_texts(body.identity, inner, paint),
    }
}

/// The sections, each under its rail.
pub open spec fn section_texts(sections: Seq<SectionView>, width: nat, paint: Paint) -> Seq<
    Seq<char>,
>
    decreases sections.len(),
{
    if sections.len() == 0 {
        Seq::empty()
    } else {
        let inner = (width - 2) as nat;
        section_texts(sections.drop_last(), width, paint).push(
            rail_text(sections.last().name, inner, paint),
        ) + framed_texts(
            text::section_rows_of(sections.last(), text::beyond(inner, 2), width >= 80),
            inner,
            paint,
        )
    }
}

/// The rows of the card.
pub open spec fn composed_rows(
    body: BodyView,
    full: bool,
    width: nat,
    paint: Paint,
    image: Option<(SerializedView, Size, ImagePosition)>,
) -> Seq<Seq<char>> {
    let inner = (width - 2) as nat;
    let head = seq![title_text(body.title, inner, paint)] + identity_texts(
        body,
        full,
        width,
        paint,
        image,
    );
    (if full {
        head + section_texts(body.sections, width, paint)
    } else {
        head
    }).push(bottom_text(inner, paint))
}

pub open spec fn image_view(image: Option<(&SerializedImage, Size, ImagePosition)>) -> Option<
    (SerializedView, Size, ImagePosition),
> {
    match image {
        Some(placed) => Some((placed.0@, placed.1, placed.2)),
        None => None,
    }
}

fn append_framed(rows: &mut Vec<String>, lines: &Vec<CardLine>, inner: usize, paint: Paint)
    requires
        text::sound_lines(text::line_views(lines@)),
    ensures
        strings::texts(final(rows)@) == strings::texts(old(rows)@) + framed_texts(
            text::line_views(lines@),
            inner as nat,
            paint,
        ),
{
    let ghost before = strings::texts(rows@);
    let ghost all = framed_texts(text::line_views(lines@), inner as nat, paint);
    let mut at: usize = 0;
    assert(strings::texts(rows@) =~= before + all.take(0));
    while at < lines.len()
        invariant
            at <= lines@.len(),
            text::sound_lines(text::line_views(lines@)),
            all == framed_texts(text::line_views(lines@), inner as nat, paint),
            strings::texts(rows@) == before + all.take(at as int),
        decreases lines@.len() - at,
    {
        assert(text::line_views(lines@)[at as int] == lines@[at as int]@);
        let ghost now = rows@;
        rows.push(framed_line(&lines[at], inner, paint));
        at = at + 1;
        assert(strings::texts(rows@) =~= strings::texts(now).push(rows@.last()@));
        assert(strings::texts(rows@) =~= before + all.take(at as int));
    }
    assert(all.take(at as int) =~= all);
}

fn append_left(
    rows: &mut Vec<String>,
    body: &CardBody,
    image: &SerializedImage,
    cells: Size,
    height: usize,
    width: usize,
    paint: Paint,
)
    requires
        text::sound_lines(body@.identity),
        rows_match(image@, cells),
        cells.width + 7 <= width,
    ensures
        strings::texts(final(rows)@) == strings::texts(old(rows)@) + Seq::new(
            height as nat,
            |i: int| left_row(body@, image@, cells, height as nat, width as nat, paint, i),
        ),
{
    let ghost before = strings::texts(rows@);
    let ghost all = Seq::new(
        height as nat,
        |i: int| left_row(body@, image@, cells, height as nat, width as nat, paint, i),
    );
    let count: usize = image.placeholder_rows.len();
    let shown: usize = if count <= height {
        count
    } else {
        height
    };
    let above: usize = (height - shown) / 2;
    let words: usize = width - 7 - cells.width as usize;
    let side = draw_edge("│", paint);
    let mut at: usize = 0;
    assert(strings::texts(rows@) =~= before + all.take(0));
    while at < height
        invariant
            at <= height,
            text::sound_lines(body@.identity),
            count == image.placeholder_rows@.len(),
            shown == text::smaller(image@.placeholder_rows.len(), height as nat),
            shown <= height,
            above == (height - shown) as nat / 2,
            words == text::beyond(width as nat, (cells.width + 7) as nat),
            side@ == edge("│"@, paint),
            all == Seq::new(
                height as nat,
                |i: int| left_row(body@, image@, cells, height as nat, width as nat, paint, i),
            ),
            strings::texts(rows@) == before + all.take(at as int),
        decreases height - at,
    {
        let picture = if above <= at && at < above + shown {
            assert(image@.placeholder_rows[at - above] == image.placeholder_rows@[at - above]@);
            strip_newline(image.placeholder_rows[at - above].as_str())
        } else {
            spaces(cells.width as usize)
        };
        let text = if at < body.identity.len() {
            assert(body@.identity[at as int] == body.identity@[at as int]@);
            draw_line(&body.identity[at], words, paint)
        } else {
            spaces(words)
        };
        let line = side.as_str().to_owned().concat(" ").concat(picture.as_str()).concat(" ").concat(
            side.as_str(),
        ).concat(" ").concat(text.as_str()).concat(" ").concat(side.as_str());
        assert(line@ == all[at as int]);
        let ghost now = rows@;
        rows.push(line);
        at = at + 1;
        assert(strings::texts(rows@) =~= strings::texts(now).push(rows@.last()@));
        assert(strings::texts(rows@) =~= before + all.take(at as int));
    }
    assert(all.take(at as int) =~= all);
}

fn append_top(rows: &mut Vec<String>, image: &SerializedImage, cells: Size, width: usize, paint: Paint)
    requires
        cells.width + 2 <= width,
    ensures
        strings::texts(final(rows)@) == strings::texts(old(rows)@) + Seq::new(
            image@.placeholder_rows.len(),
            |i: int| top_row(image@, cells, width as nat, paint, i),
        ),
{
    let ghost before = strings::texts(rows@);
    let ghost all = Seq::new(
        image@.placeholder_rows.len(),
        |i: int| top_row(image@, cells, width as nat, paint, i),
    );
    let inner: usize = width - 2;
    let left: usize = (inner - cells.width as usize) / 2;
    let right: usize = inner - cells.width as usize - left;
    let side = draw_edge("│", paint);
    let mut at: usize = 0;
    assert(strings::texts(rows@) =~= before + all.take(0));
    while at < image.placeholder_rows.len()
        invariant
            at <= image.placeholder_rows@.len(),
            inner == width - 2,
            cells.width <= inner,
            left == (inner - cells.width) as nat / 2,
            right == inner - cells.width - left,
            side@ == edge("│"@, paint),
            all == Seq::new(
                image@.placeholder_rows.len(),
                |i: int| top_row(image@, cells, width as nat, paint, i),
            ),
            strings::texts(rows@) == before + all.take(at as int),
        decreases image.placeholder_rows@.len() - at,
    {
        assert(image@.placeholder_rows[at as int] == image.placeholder_rows@[at as int]@);
        let line = side.as_str().to_owned().concat(spaces(left).as_str()).concat(
            strip_newline(image.placeholder_rows[at].as_str()).as_str(),
        ).concat(spaces(right).as_str()).concat(side.as_str());
        assert(line@ == all[at as int]);
        let ghost now = rows@;
        rows.push(line);
        at = at + 1;
        assert(strings::texts(rows@) =~= strings::texts(now).push(rows@.last()@));
        assert(strings::texts(rows@) =~= before + all.take(at as int));
    }
    assert(all.take(at as int) =~= all);
}

fn append_sections(rows: &mut Vec<String>, sections: &Vec<CardSection>, width: usize, paint: Paint)
    requires
        width >= 4,
        forall|i: int|
            0 <= i < sections@.len() ==> text::sound_lines((#[trigger] sections@[i])@.left)
                && text::sound_lines(sections@[i]@.right),
    ensures
        strings::texts(final(rows)@) == strings::texts(old(rows)@) + section_texts(
            text::section_views(sections@),
            width as nat,
            paint,
        ),
{
    let ghost before = strings::texts(rows@);
    let ghost views = text::section_views(sections@);
    let inner: usize = width - 2;
    let mut at: usize = 0;
    assert(strings::texts(rows@) =~= before + section_texts(views.take(0), width as nat, paint));
    while at < sections.len()
        invariant
            at <= sections@.len(),
            inner == width - 2,
            width >= 4,
            views == text::section_views(sections@),
            forall|i: int|
                0 <= i < sections@.len() ==> text::sound_lines((#[trigger] sections@[i])@.left)
                    && text::sound_lines(sections@[i]@.right),
            strings::texts(rows@) == before + section_texts(
                views.take(at as int),
                width as nat,
                paint,
            ),
        decreases sections@.len() - at,
    {
        let ghost now = strings::texts(rows@);
        let ghost held = rows@;
        let section = &sections[at];
        assert(views[at as int] == section@);
        rows.push(framed_section_rail(section.name, inner, paint));
        assert(strings::texts(rows@) =~= strings::texts(held).push(rows@.last()@));
        let lines = section_rows(section, inner - 2, width >= 80);
        proof {
            text::lemma_section_rows_sound(section@, (inner - 2) as nat, width >= 80);
        }
        append_framed(rows, &lines, inner, paint);
        assert(views.take(at + 1).drop_last() =~= views.take(at as int));
        at = at + 1;
        assert(strings::texts(rows@) =~= before + section_texts(
            views.take(at as int),
            width as nat,
            paint,
        ));
    }
    assert(views.take(at as int) =~= views);
}

/// Composes the single append-safe one-shot frame. Placeholder rows are already
/// serialized by the fixed Kitty transport; this only places them inside it.
pub fn compose_one_shot_card(
    body: &CardBody,
    full: bool,
    width: u16,
    color: bool,
    theme: Theme,
    image: Option<(&SerializedImage, Size, ImagePosition)>,
) -> (output: String)
    requires
        width >= MIN_TEXT_COLUMNS,
        text::sound_body(body@),
    ensures
        output@ == strings::joined(
            composed_rows(
                body@,
                full,
                width as nat,
                Paint { color, palette: theme::palette_of(theme) },
                image_view(image),
            ),
            "\n"@,
        ) + "\n"@,
{
    let width: usize = width as usize;
    let inner: usize = width - 2;
    let paint = Paint { color, palette: Palette::for_theme(theme) };
    let mut rows: Vec<String> = Vec::new();
    rows.push(title_row(&body.title, inner, paint));
    assert(strings::texts(rows@) =~= seq![title_text(body@.title, inner as nat, paint)]);
    let mut placed = false;
    if let Some((image, cells, position)) = image {
        match position {
            ImagePosition::Left => {
                if width >= MIN_LEFT_IMAGE_COLUMNS as usize && placeholder_rows_match(image, cells)
                    && cells.width as usize + 2 <= inner - 33 {
                    let height: usize = if full {
                        body.identity_layout_height
                    } else {
                        body.identity.len()
                    };
                    append_left(&mut rows, body, image, cells, height, width, paint);
                    placed = true;
                }
            },
            ImagePosition::Top => {
                if width >= MIN_TOP_IMAGE_COLUMNS as usize && placeholder_rows_match(image, cells)
                    && cells.width as usize <= inner {
                    append_top(&mut rows, image, cells, width, paint);
                    append_framed(&mut rows, &body.identity, inner, paint);
                    placed = true;
                }
            },
        }
    }
    if !placed {
        append_framed(&mut rows, &body.identity, inner, paint);
    }
    assert(strings::texts(rows@) =~= seq![title_text(body@.title, inner as nat, paint)]
        + identity_texts(body@, full, width as nat, paint, image_view(image)));
    if full {
        assert forall|i: int| 0 <= i < body.sections@.len() implies text::sound_lines(
            (#[trigger] body.sections@[i])@.left,
        ) && text::sound_lines(body.sections@[i]@.right) by {
            assert(body@.sections[i] == body.sections@[i]@);
        }
        append_sections(&mut rows, &body.sections, width, paint);
    }
    let ghost now = rows@;
    rows.push(bottom_row(inner, paint));
    assert(strings::texts(rows@) =~= strings::texts(now).push(rows@.last()@));
    join(&rows, "\n").concat("\n")
}

} // verus!
