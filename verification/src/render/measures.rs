//! Which cards are as wide as they should be, found by measuring their texts.
use vstd::prelude::*;
use crate::config::ImagePosition;
use crate::render::card;
use crate::render::card::placeholder_rows_match;
use crate::render::card_widths;
use crate::render::cells::visible_width;
use crate::render::kitty_one_shot::SerializedImage;
use crate::render::one_shot::Size;
use crate::render::terminal::MIN_LEFT_IMAGE_COLUMNS;
use crate::render::text;
use crate::render::text::{
    fit_fragments, layout_line, section_rail, section_rows, spans_width, CardBody, CardLine,
    CardSection, CardSpan,
};

verus! {

/// The spans as one text.
fn joined_text(spans: &Vec<CardSpan>) -> (joined: String)
    ensures
        joined@ == text::spans_text(text::span_views(spans@)),
{
    let ghost views = text::span_views(spans@);
    let mut joined = String::new();
    let mut at: usize = 0;
    assert(joined@ =~= text::spans_text(views.take(0)));
    while at < spans.len()
        invariant
            at <= spans@.len(),
            views == text::span_views(spans@),
            joined@ == text::spans_text(views.take(at as int)),
        decreases spans@.len() - at,
    {
        assert(views.take(at + 1).drop_last() =~= views.take(at as int));
        joined.append(spans[at].text.as_str());
        at = at + 1;
    }
    assert(views.take(at as int) =~= views);
    joined
}

fn do_spans_measure(spans: &Vec<CardSpan>) -> (yes: bool)
    ensures
        yes == card_widths::spans_measure(text::span_views(spans@)),
{
    let words = joined_text(spans);
    visible_width(words.as_str()) == spans_width(spans)
}

fn do_lines_measure(lines: &Vec<CardLine>, width: usize) -> (yes: bool)
    requires
        text::sound_lines(text::line_views(lines@)),
    ensures
        yes == card_widths::lines_measure(text::line_views(lines@), width as nat),
{
    let ghost views = text::line_views(lines@);
    let mut at: usize = 0;
    while at < lines.len()
        invariant
            at <= lines@.len(),
            views == text::line_views(lines@),
            text::sound_lines(views),
            forall|i: int|
                0 <= i < at ==> card_widths::line_measures(#[trigger] views[i], width as nat),
        decreases lines@.len() - at,
    {
        assert(views[at as int] == lines@[at as int]@);
        if !do_spans_measure(&layout_line(&lines[at], width)) {
            return false;
        }
        at = at + 1;
    }
    true
}

fn does_section_measure(section: &CardSection, width: usize) -> (yes: bool)
    requires
        width >= 20,
        text::sound_lines(section@.left),
        text::sound_lines(section@.right),
    ensures
        yes == card_widths::section_measures(section@, width as nat),
{
    let rail = section_rail(section.name, width - 2);
    if !do_spans_measure(&layout_line(&rail, width - 2)) {
        return false;
    }
    let rows = section_rows(section, width - 4, width >= 80);
    proof {
        text::lemma_section_rows_sound(section@, (width - 4) as nat, width >= 80);
    }
    do_lines_measure(&rows, width - 4)
}

fn do_sections_measure(sections: &Vec<CardSection>, width: usize) -> (yes: bool)
    requires
        width >= 20,
        forall|i: int|
            0 <= i < sections@.len() ==> text::sound_lines((#[trigger] sections@[i])@.left)
                && text::sound_lines(sections@[i]@.right),
    ensures
        yes == card_widths::sections_measure(text::section_views(sections@), width as nat),
{
    let ghost views = text::section_views(sections@);
    let mut at: usize = 0;
    while at < sections.len()
        invariant
            at <= sections@.len(),
            width >= 20,
            views == text::section_views(sections@),
            forall|i: int|
                0 <= i < sections@.len() ==> text::sound_lines((#[trigger] sections@[i])@.left)
                    && text::sound_lines(sections@[i]@.right),
            forall|i: int|
                0 <= i < at ==> card_widths::section_measures(#[trigger] views[i], width as nat),
        decreases sections@.len() - at,
    {
        assert(views[at as int] == sections@[at as int]@);
        if !does_section_measure(&sections[at], width) {
            return false;
        }
        at = at + 1;
    }
    true
}

/// Measures every text of the card as it is laid out, so that its rows are known to be as
/// wide as the card.
pub fn card_measures(
    body: &CardBody,
    full: bool,
    width: u16,
    image: Option<(&SerializedImage, Size, ImagePosition)>,
) -> (yes: bool)
    requires
        width >= 20,
        text::sound_body(body@),
    ensures
        yes == card_widths::body_measures(body@, full, width as nat, card::image_view(image)),
{
    let width: usize = width as usize;
    let title = joined_text(&fit_fragments(&body.title, width - 4));
    if visible_width(title.as_str()) > width - 4 {
        return false;
    }
    let mut room: usize = width - 4;
    if let Some((image, cells, position)) = image {
        let left = match position {
            ImagePosition::Left => true,
            ImagePosition::Top => false,
        };
        if left && width >= MIN_LEFT_IMAGE_COLUMNS as usize && placeholder_rows_match(image, cells)
            && cells.width as usize + 2 <= width - 35 {
            room = width - (cells.width as usize + 7);
        }
    }
    assert(room == card_widths::identity_room(width as nat, card::image_view(image)));
    if !do_lines_measure(&body.identity, room) {
        return false;
    }
    if full {
        assert forall|i: int| 0 <= i < body.sections@.len() implies text::sound_lines(
            (#[trigger] body.sections@[i])@.left,
        ) && text::sound_lines(body.sections@[i]@.right) by {
            assert(body@.sections[i] == body.sections@[i]@);
        }
        do_sections_measure(&body.sections, width)
    } else {
        true
    }
}

/// Measures every text of a card without an image as it is laid out in so many cells, so that
/// its rows are known to keep to their width.
pub fn content_measures(body: &CardBody, room: usize, columns: bool) -> (yes: bool)
    requires
        text::sound_body(body@),
    ensures
        yes == card_widths::content_measures(body@, room as nat, columns),
{
    if !do_lines_measure(&body.identity, room) {
        return false;
    }
    let ghost views = body@.sections;
    let mut at: usize = 0;
    while at < body.sections.len()
        invariant
            at <= body.sections@.len(),
            views == body@.sections,
            text::sound_body(body@),
            forall|i: int|
                0 <= i < at ==> card_widths::lines_measure(
                    text::section_rows_of(#[trigger] views[i], room as nat, columns),
                    room as nat,
                ),
        decreases body.sections@.len() - at,
    {
        let section = &body.sections[at];
        assert(views[at as int] == section@);
        let rows = section_rows(section, room, columns);
        proof {
            text::lemma_section_rows_sound(section@, room as nat, columns);
        }
        if !do_lines_measure(&rows, room) {
            return false;
        }
        at = at + 1;
    }
    true
}

} // verus!
