//! What holds of every card with an image and of its colours.
use vstd::prelude::*;
use crate::config::ImagePosition;
use crate::model::Snapshot;
use crate::render::card;
use crate::render::card::{EscapeState, Paint};
use crate::render::kitty_one_shot;
use crate::render::laws;
use crate::render::one_shot::{SerializedView, Size};
use crate::render::text;
use crate::render::text::{BodyView, LineView, SectionView, SpanView, TextOptions};
use crate::render::theme;
use crate::render::theme::{Palette, Role};
use crate::strings;

verus! {

/// The text ends outside of any escape sequence.
pub open spec fn settled(text: Seq<char>) -> bool {
    card::strip_state(text).1 == EscapeState::Text
}

/// Two texts that differ in escape sequences alone.
#[verifier::opaque]
pub open spec fn agree(left: Seq<char>, right: Seq<char>) -> bool {
    &&& settled(left)
    &&& settled(right)
    &&& card::stripped(left) == card::stripped(right)
}

/// What is read behind a text that ends outside of escape sequences is read as if it
/// stood alone.
pub proof fn lemma_strip_concat(first: Seq<char>, second: Seq<char>)
    requires
        settled(first),
    ensures
        card::strip_state(first + second).0 == card::stripped(first) + card::stripped(second),
        card::strip_state(first + second).1 == card::strip_state(second).1,
    decreases second.len(),
{
    if second.len() == 0 {
        assert(first + second =~= first);
        assert(card::stripped(first) + card::stripped(second) =~= card::stripped(first));
    } else {
        assert((first + second).drop_last() =~= first + second.drop_last());
        lemma_strip_concat(first, second.drop_last());
        assert(card::strip_state(first + second).0 =~= card::stripped(first) + card::stripped(
            second,
        ));
    }
}

proof fn lemma_agree_concat(
    left: Seq<char>,
    right: Seq<char>,
    more_left: Seq<char>,
    more_right: Seq<char>,
)
    requires
        agree(left, right),
        agree(more_left, more_right),
    ensures
        agree(left + more_left, right + more_right),
{
    reveal(agree);
    lemma_strip_concat(left, more_left);
    lemma_strip_concat(right, more_right);
}

/// A text without control characters is read as it is.
pub proof fn lemma_clean_strips_to_itself(text: Seq<char>)
    requires
        laws::clean(text),
    ensures
        card::strip_state(text) == (text, EscapeState::Text),
    decreases text.len(),
{
    if text.len() > 0 {
        assert(!strings::control(text[text.len() - 1]));
        assert forall|i: int| 0 <= i < text.drop_last().len() implies !strings::control(
            #[trigger] text.drop_last()[i],
        ) by {
            assert(text.drop_last()[i] == text[i]);
        }
        lemma_clean_strips_to_itself(text.drop_last());
        assert(text.drop_last().push(text.last()) =~= text);
    } else {
        assert(text =~= Seq::empty());
    }
}

/// Digits and semicolons.
spec fn parameters(text: Seq<char>) -> bool {
    forall|i: int| 0 <= i < text.len() ==> ('0' <= #[trigger] text[i] && text[i] <= ';')
}

proof fn lemma_decimal_parameters(value: nat)
    ensures
        parameters(strings::decimal_text(value)),
    decreases value,
{
    if value >= 10 {
        lemma_decimal_parameters(value / 10);
    }
}

proof fn lemma_parameters_go_on(front: Seq<char>, more: Seq<char>)
    requires
        card::strip_state(front) == (Seq::<char>::empty(), EscapeState::Control),
        parameters(more),
    ensures
        card::strip_state(front + more) == (Seq::<char>::empty(), EscapeState::Control),
    decreases more.len(),
{
    if more.len() == 0 {
        assert(front + more =~= front);
    } else {
        assert((front + more).drop_last() =~= front + more.drop_last());
        assert(parameters(more.drop_last())) by {
            assert forall|i: int| 0 <= i < more.drop_last().len() implies ('0'
                <= #[trigger] more.drop_last()[i] && more.drop_last()[i] <= ';') by {
                assert(more.drop_last()[i] == more[i]);
            }
        }
        lemma_parameters_go_on(front, more.drop_last());
        assert('0' <= more[more.len() - 1] && more[more.len() - 1] <= ';');
    }
}

/// A sequence of three numbers that sets a colour leaves nothing to read.
pub proof fn lemma_color_strips_to_nothing(red: nat, green: nat, blue: nat)
    ensures
        card::strip_state(
            "\x1b[38;2;"@ + strings::decimal_text(red) + ";"@ + strings::decimal_text(green) + ";"@
                + strings::decimal_text(blue) + "m"@,
        ) == (Seq::<char>::empty(), EscapeState::Text),
{
    reveal_strlit("\x1b[38;2;");
    reveal_strlit(";");
    reveal_strlit("m");
    let head = seq!['\x1b'].push('[');
    let start = "\x1b[38;2;"@;
    assert(start =~= head + start.skip(2));
    reveal_with_fuel(card::strip_state, 3);
    assert(head.drop_last() =~= seq!['\x1b']);
    assert(seq!['\x1b'].drop_last() =~= Seq::<char>::empty());
    assert(card::strip_state(head) == (Seq::<char>::empty(), EscapeState::Control));
    assert(parameters(start.skip(2)));
    lemma_parameters_go_on(head, start.skip(2));
    lemma_decimal_parameters(red);
    lemma_decimal_parameters(green);
    lemma_decimal_parameters(blue);
    let first = start + strings::decimal_text(red);
    lemma_parameters_go_on(start, strings::decimal_text(red));
    lemma_parameters_go_on(first, ";"@);
    let second = first + ";"@ + strings::decimal_text(green);
    lemma_parameters_go_on(first + ";"@, strings::decimal_text(green));
    lemma_parameters_go_on(second, ";"@);
    let third = second + ";"@ + strings::decimal_text(blue);
    lemma_parameters_go_on(second + ";"@, strings::decimal_text(blue));
    let whole = third + "m"@;
    assert(whole.drop_last() =~= third);
    assert(whole.last() == 'm');
}

proof fn lemma_reset_strips_to_nothing()
    ensures
        card::strip_state("\x1b[0m"@) == (Seq::<char>::empty(), EscapeState::Text),
{
    reveal_strlit("\x1b[0m");
    let reset = "\x1b[0m"@;
    assert(reset.drop_last().drop_last().drop_last().drop_last() =~= Seq::<char>::empty());
    reveal_with_fuel(card::strip_state, 5);
    assert(reset.drop_last().drop_last().drop_last().last() == '\x1b');
    assert(reset.drop_last().drop_last().last() == '[');
    assert(reset.drop_last().last() == '0');
}

/// Chunks of text read the same with their colours and without.
proof fn lemma_chunks_agree(chunks: Seq<theme::ChunkView>)
    requires
        laws::clean(text::chunks_text(chunks, false)),
    ensures
        agree(text::chunks_text(chunks, true), text::chunks_text(chunks, false)),
        card::stripped(text::chunks_text(chunks, true)) == text::chunks_text(chunks, false),
    decreases chunks.len(),
{
    reveal(agree);
    let plain = text::chunks_text(chunks, false);
    lemma_clean_strips_to_itself(plain);
    if chunks.len() > 0 {
        let front = text::chunks_text(chunks.drop_last(), false);
        let last = chunks.last();
        assert(laws::clean(front)) by {
            assert forall|i: int| 0 <= i < front.len() implies !strings::control(
                #[trigger] front[i],
            ) by {
                assert(plain[i] == front[i]);
            }
        }
        assert(laws::clean(last.text)) by {
            assert forall|i: int| 0 <= i < last.text.len() implies !strings::control(
                #[trigger] last.text[i],
            ) by {
                assert(plain[front.len() + i] == last.text[i]);
            }
        }
        lemma_chunks_agree(chunks.drop_last());
        let colored = text::chunks_text(chunks.drop_last(), true);
        let color = theme::ansi_text(last.color);
        lemma_color_strips_to_nothing(
            last.color.red as nat,
            last.color.green as nat,
            last.color.blue as nat,
        );
        lemma_clean_strips_to_itself(last.text);
        lemma_reset_strips_to_nothing();
        lemma_strip_concat(colored, color);
        lemma_strip_concat(colored + color, last.text);
        lemma_strip_concat(colored + color + last.text, "\x1b[0m"@);
        assert(card::stripped(text::chunks_text(chunks, true)) =~= plain);
    }
}

pub proof fn lemma_spans_text_clean(spans: Seq<SpanView>)
    requires
        laws::spans_clean(spans),
    ensures
        laws::clean(text::spans_text(spans)),
    decreases spans.len(),
{
    if spans.len() > 0 {
        assert(laws::clean(spans[spans.len() - 1].text));
        assert forall|i: int| 0 <= i < spans.drop_last().len() implies laws::clean(
            (#[trigger] spans.drop_last()[i]).text,
        ) by {
            assert(spans.drop_last()[i] == spans[i]);
        }
        lemma_spans_text_clean(spans.drop_last());
    }
}

proof fn lemma_expanded_agree(spans: Seq<SpanView>, colors: Palette)
    requires
        laws::spans_clean(spans),
    ensures
        agree(
            text::chunks_text(text::expanded_spans(spans, colors), true),
            text::chunks_text(text::expanded_spans(spans, colors), false),
        ),
        card::stripped(text::chunks_text(text::expanded_spans(spans, colors), true))
            == text::chunks_text(text::expanded_spans(spans, colors), false),
        laws::clean(text::chunks_text(text::expanded_spans(spans, colors), false)),
{
    laws::law_plain_rows_are_their_fragments(spans, colors);
    lemma_spans_text_clean(spans);
    lemma_chunks_agree(text::expanded_spans(spans, colors));
}

/// Colour only adds escape sequences to a row of a card: without them it reads as the
/// row without colour does.
pub proof fn law_colour_only_adds_escapes_to_a_row(
    snapshot: Snapshot,
    options: TextOptions,
    colors: Palette,
    index: int,
)
    requires
        0 <= index < text::card_rows(snapshot, options).len(),
    ensures
        ({
            let chunks = text::expanded_spans(
                text::card_rows(snapshot, options)[index].fragments,
                colors,
            );
            card::stripped(text::chunks_text(chunks, true)) == text::chunks_text(chunks, false)
        }),
{
    laws::law_rows_hold_no_control_characters(snapshot, options);
    lemma_expanded_agree(text::card_rows(snapshot, options)[index].fragments, colors);
}

/// The same card with colour and without.
pub open spec fn colored(palette: Palette) -> Paint {
    Paint { color: true, palette }
}

pub open spec fn colorless(palette: Palette) -> Paint {
    Paint { color: false, palette }
}

pub proof fn lemma_painted_agree(spans: Seq<SpanView>, width: nat, palette: Palette)
    requires
        laws::spans_clean(spans),
    ensures
        agree(
            card::painted(spans, width, colored(palette)),
            card::painted(spans, width, colorless(palette)),
        ),
        laws::clean(card::painted(spans, width, colorless(palette))),
{
    laws::lemma_fit_clean(spans, width);
    lemma_expanded_agree(text::fit_spans(spans, width), palette);
}

proof fn lemma_same_agrees(text: Seq<char>)
    requires
        laws::clean(text),
    ensures
        agree(text, text),
{
    reveal(agree);
    lemma_clean_strips_to_itself(text);
}

pub proof fn lemma_padded_agree(spans: Seq<SpanView>, width: nat, palette: Palette)
    requires
        laws::spans_clean(spans),
    ensures
        agree(
            card::padded(spans, width, colored(palette)),
            card::padded(spans, width, colorless(palette)),
        ),
        laws::clean(card::padded(spans, width, colorless(palette))),
{
    let pad = strings::blank(text::beyond(width, text::fit_state(spans, width).1));
    lemma_painted_agree(spans, width, palette);
    assert(laws::clean(pad));
    lemma_same_agrees(pad);
    lemma_agree_concat(
        card::painted(spans, width, colored(palette)),
        card::painted(spans, width, colorless(palette)),
        pad,
        pad,
    );
    lemma_clean_joins(card::painted(spans, width, colorless(palette)), pad);
}

pub proof fn lemma_clean_joins(first: Seq<char>, second: Seq<char>)
    requires
        laws::clean(first),
        laws::clean(second),
    ensures
        laws::clean(first + second),
{
    let all = first + second;
    assert forall|i: int| 0 <= i < all.len() implies !strings::control(#[trigger] all[i]) by {
        if i < first.len() {
            assert(all[i] == first[i]);
        } else {
            assert(all[i] == second[i - first.len()]);
        }
    }
}

proof fn lemma_edges_agree(edge: Seq<char>, palette: Palette)
    ensures
        agree(card::edge(edge, colored(palette)), card::edge(edge, colorless(palette))),
        laws::clean(card::edge(edge, colorless(palette))),
{
    let spans = seq![text::solid(edge, Role::Border)];
    assert(laws::spans_clean(spans));
    lemma_padded_agree(spans, crate::render::cells::cell_width(edge), palette);
}

pub proof fn lemma_lines_agree(line: LineView, width: nat, palette: Palette)
    requires
        laws::line_clean(line),
    ensures
        agree(
            card::line_text(line, width, colored(palette)),
            card::line_text(line, width, colorless(palette)),
        ),
        laws::clean(card::line_text(line, width, colorless(palette))),
{
    laws::law_layout_stays_clean(line, width);
    lemma_padded_agree(text::layout_of(line, width), width, palette);
}

pub proof fn lemma_title_agrees(title: Seq<SpanView>, inner: nat, palette: Palette)
    requires
        laws::spans_clean(title),
    ensures
        agree(
            card::title_text(title, inner, colored(palette)),
            card::title_text(title, inner, colorless(palette)),
        ),
        laws::clean(card::title_text(title, inner, colorless(palette))),
{
    reveal(agree);
    let (on, off) = (colored(palette), colorless(palette));
    let room = text::beyond(inner, 2);
    let (words, bare) = (card::painted(title, room, on), card::painted(title, room, off));
    lemma_painted_agree(title, room, palette);
    let fill = strings::repeated(
        '─',
        text::beyond(
            inner,
            text::held(crate::render::cells::cell_width(card::stripped(words)), 2),
        ),
    );
    lemma_edges_agree("╭─"@, palette);
    lemma_edges_agree(" "@, palette);
    lemma_edges_agree(fill, palette);
    lemma_edges_agree("╮"@, palette);
    let (a, b) = (card::edge("╭─"@, on), card::edge("╭─"@, off));
    lemma_agree_concat(a, b, words, bare);
    lemma_clean_joins(b, bare);
    lemma_agree_concat(a + words, b + bare, card::edge(" "@, on), card::edge(" "@, off));
    lemma_clean_joins(b + bare, card::edge(" "@, off));
    let (a, b) = (a + words + card::edge(" "@, on), b + bare + card::edge(" "@, off));
    lemma_agree_concat(a, b, card::edge(fill, on), card::edge(fill, off));
    lemma_clean_joins(b, card::edge(fill, off));
    lemma_agree_concat(
        a + card::edge(fill, on),
        b + card::edge(fill, off),
        card::edge("╮"@, on),
        card::edge("╮"@, off),
    );
    lemma_clean_joins(b + card::edge(fill, off), card::edge("╮"@, off));
}

/// Two texts between the same edges.
proof fn lemma_between_edges(
    open: Seq<char>,
    left: Seq<char>,
    right: Seq<char>,
    close: Seq<char>,
    palette: Palette,
)
    requires
        agree(left, right),
    ensures
        agree(
            card::edge(open, colored(palette)) + left + card::edge(close, colored(palette)),
            card::edge(open, colorless(palette)) + right + card::edge(close, colorless(palette)),
        ),
        laws::clean(right) ==> laws::clean(
            card::edge(open, colorless(palette)) + right + card::edge(close, colorless(palette)),
        ),
{
    let (on, off) = (colored(palette), colorless(palette));
    lemma_edges_agree(open, palette);
    lemma_edges_agree(close, palette);
    lemma_agree_concat(card::edge(open, on), card::edge(open, off), left, right);
    lemma_agree_concat(
        card::edge(open, on) + left,
        card::edge(open, off) + right,
        card::edge(close, on),
        card::edge(close, off),
    );
    if laws::clean(right) {
        lemma_clean_joins(card::edge(open, off), right);
        lemma_clean_joins(card::edge(open, off) + right, card::edge(close, off));
    }
}

proof fn lemma_space_clean()
    ensures
        laws::clean(" "@),
{
    reveal_strlit(" ");
}

pub proof fn lemma_framed_agrees(line: LineView, inner: nat, palette: Palette)
    requires
        laws::line_clean(line),
    ensures
        agree(
            card::framed_text(line, inner, colored(palette)),
            card::framed_text(line, inner, colorless(palette)),
        ),
        laws::clean(card::framed_text(line, inner, colorless(palette))),
{
    let (on, off) = (colored(palette), colorless(palette));
    let room = text::beyond(inner, 2);
    let (left, right) = (card::line_text(line, room, on), card::line_text(line, room, off));
    lemma_lines_agree(line, room, palette);
    lemma_space_clean();
    lemma_same_agrees(" "@);
    lemma_agree_concat(" "@, " "@, left, right);
    lemma_agree_concat(" "@ + left, " "@ + right, " "@, " "@);
    lemma_clean_joins(" "@, right);
    lemma_clean_joins(" "@ + right, " "@);
    lemma_between_edges("│"@, " "@ + left + " "@, " "@ + right + " "@, "│"@, palette);
    let side = card::edge("│"@, on);
    assert(card::framed_text(line, inner, on) =~= side + (" "@ + left + " "@) + side);
    let side = card::edge("│"@, off);
    assert(card::framed_text(line, inner, off) =~= side + (" "@ + right + " "@) + side);
}

/// Rows that agree one by one, those without colour free of control characters where
/// `bare`.
#[verifier::opaque]
pub open spec fn rows_agree(left: Seq<Seq<char>>, right: Seq<Seq<char>>, bare: bool) -> bool {
    &&& left.len() == right.len()
    &&& forall|i: int|
        0 <= i < left.len() ==> agree(#[trigger] left[i], right[i]) && (bare ==> laws::clean(
            right[i],
        ))
}

proof fn lemma_rows_join(
    left: Seq<Seq<char>>,
    right: Seq<Seq<char>>,
    more_left: Seq<Seq<char>>,
    more_right: Seq<Seq<char>>,
    bare: bool,
)
    requires
        rows_agree(left, right, bare),
        rows_agree(more_left, more_right, bare),
    ensures
        rows_agree(left + more_left, right + more_right, bare),
{
    reveal(rows_agree);
    let (all, others) = (left + more_left, right + more_right);
    assert forall|i: int| 0 <= i < all.len() implies agree(#[trigger] all[i], others[i]) && (bare
        ==> laws::clean(others[i])) by {
        if i < left.len() {
            assert(all[i] == left[i]);
            assert(others[i] == right[i]);
        } else {
            assert(all[i] == more_left[i - left.len()]);
            assert(others[i] == more_right[i - left.len()]);
            assert(agree(more_left[i - left.len()], more_right[i - left.len()]));
        }
    }
    assert(all.len() == others.len());
}

proof fn lemma_one_row(left: Seq<char>, right: Seq<char>, bare: bool)
    requires
        agree(left, right),
        bare ==> laws::clean(right),
    ensures
        rows_agree(seq![left], seq![right], bare),
{
    reveal(rows_agree);
}

proof fn lemma_framed_rows_agree(lines: Seq<LineView>, inner: nat, palette: Palette, bare: bool)
    requires
        laws::lines_clean(lines),
    ensures
        rows_agree(
            card::framed_texts(lines, inner, colored(palette)),
            card::framed_texts(lines, inner, colorless(palette)),
            bare,
        ),
{
    reveal(rows_agree);
    let left = card::framed_texts(lines, inner, colored(palette));
    let right = card::framed_texts(lines, inner, colorless(palette));
    assert forall|i: int| 0 <= i < left.len() implies agree(#[trigger] left[i], right[i]) && (bare
        ==> laws::clean(right[i])) by {
        assert(laws::line_clean(lines[i]));
        lemma_framed_agrees(lines[i], inner, palette);
        assert(left[i] == card::framed_text(lines[i], inner, colored(palette)));
        assert(right[i] == card::framed_text(lines[i], inner, colorless(palette)));
    }
    assert(left.len() == right.len());
}

proof fn lemma_section_rows_agree(
    sections: Seq<SectionView>,
    width: nat,
    palette: Palette,
    bare: bool,
)
    requires
        width >= 4,
        forall|i: int|
            0 <= i < sections.len() ==> laws::lines_clean((#[trigger] sections[i]).left)
                && laws::lines_clean(sections[i].right),
    ensures
        rows_agree(
            card::section_texts(sections, width, colored(palette)),
            card::section_texts(sections, width, colorless(palette)),
            bare,
        ),
    decreases sections.len(),
{
    if sections.len() == 0 {
        reveal(rows_agree);
    } else {
        let (on, off) = (colored(palette), colorless(palette));
        let inner = (width - 2) as nat;
        let last = sections[sections.len() - 1];
        assert forall|i: int| 0 <= i < sections.drop_last().len() implies laws::lines_clean(
            (#[trigger] sections.drop_last()[i]).left,
        ) && laws::lines_clean(sections.drop_last()[i].right) by {
            assert(sections.drop_last()[i] == sections[i]);
        }
        lemma_section_rows_agree(sections.drop_last(), width, palette, bare);
        let rail = text::rail_of(last.name, inner);
        assert(laws::line_clean(rail));
        lemma_lines_agree(rail, inner, palette);
        lemma_between_edges(
            "├"@,
            card::line_text(rail, inner, on),
            card::line_text(rail, inner, off),
            "┤"@,
            palette,
        );
        lemma_one_row(
            card::rail_text(last.name, inner, on),
            card::rail_text(last.name, inner, off),
            bare,
        );
        let (left, right) = (
            card::section_texts(sections.drop_last(), width, on),
            card::section_texts(sections.drop_last(), width, off),
        );
        lemma_rows_join(
            left,
            right,
            seq![card::rail_text(last.name, inner, on)],
            seq![card::rail_text(last.name, inner, off)],
            bare,
        );
        assert(left.push(card::rail_text(last.name, inner, on)) =~= left
            + seq![card::rail_text(last.name, inner, on)]);
        assert(right.push(card::rail_text(last.name, inner, off)) =~= right
            + seq![card::rail_text(last.name, inner, off)]);
        let rows = text::section_rows_of(last, text::beyond(inner, 2), width >= 80);
        laws::lemma_clean_section(last, text::beyond(inner, 2), width >= 80);
        lemma_framed_rows_agree(rows, inner, palette, bare);
        lemma_rows_join(
            left.push(card::rail_text(last.name, inner, on)),
            right.push(card::rail_text(last.name, inner, off)),
            card::framed_texts(rows, inner, on),
            card::framed_texts(rows, inner, off),
            bare,
        );
    }
}

/// Every row of the image ends outside of escape sequences.
pub open spec fn image_settled(image: SerializedView) -> bool {
    forall|i: int|
        0 <= i < image.placeholder_rows.len() ==> settled(
            card::without_newline(#[trigger] image.placeholder_rows[i]),
        )
}

/// Two rows of the same parts, with the same picture, agree where their edges and texts do.
proof fn lemma_left_parts_agree(
    edge: Seq<char>,
    bare: Seq<char>,
    picture: Seq<char>,
    left: Seq<char>,
    right: Seq<char>,
)
    requires
        agree(edge, bare),
        agree(picture, picture),
        agree(left, right),
    ensures
        agree(
            edge + " "@ + picture + " "@ + edge + " "@ + left + " "@ + edge,
            bare + " "@ + picture + " "@ + bare + " "@ + right + " "@ + bare,
        ),
{
    lemma_space_clean();
    lemma_same_agrees(" "@);
    let (a, b) = (edge + " "@, bare + " "@);
    lemma_agree_concat(edge, bare, " "@, " "@);
    let (c, d) = (a + picture, b + picture);
    lemma_agree_concat(a, b, picture, picture);
    let (e, f) = (c + " "@, d + " "@);
    lemma_agree_concat(c, d, " "@, " "@);
    let (g, h) = (e + edge, f + bare);
    lemma_agree_concat(e, f, edge, bare);
    let (i, j) = (g + " "@, h + " "@);
    lemma_agree_concat(g, h, " "@, " "@);
    let (k, l) = (i + left, j + right);
    lemma_agree_concat(i, j, left, right);
    let (m, n) = (k + " "@, l + " "@);
    lemma_agree_concat(k, l, " "@, " "@);
    lemma_agree_concat(m, n, edge, bare);
}

proof fn lemma_left_agrees(
    body: BodyView,
    image: SerializedView,
    cells: Size,
    height: nat,
    width: nat,
    palette: Palette,
    index: int,
)
    requires
        laws::lines_clean(body.identity),
        image_settled(image),
        0 <= index < height,
    ensures
        agree(
            card::left_row(body, image, cells, height, width, colored(palette), index),
            card::left_row(body, image, cells, height, width, colorless(palette), index),
        ),
{
    let (on, off) = (colored(palette), colorless(palette));
    let words = text::beyond(width, (cells.width + 7) as nat);
    let picture = card::image_part(image, cells, height, index);
    lemma_space_clean();
    lemma_same_agrees(" "@);
    let gap = strings::blank(cells.width as nat);
    assert(laws::clean(gap));
    lemma_same_agrees(gap);
    assert(agree(picture, picture)) by {
        reveal(agree);
    }
    let (left, right) = if index < body.identity.len() {
        assert(laws::line_clean(body.identity[index]));
        lemma_lines_agree(body.identity[index], words, palette);
        (
            card::line_text(body.identity[index], words, on),
            card::line_text(body.identity[index], words, off),
        )
    } else {
        let blank = strings::blank(words);
        assert(laws::clean(blank));
        lemma_same_agrees(blank);
        (blank, blank)
    };
    lemma_edges_agree("│"@, palette);
    lemma_left_parts_agree(card::edge("│"@, on), card::edge("│"@, off), picture, left, right);
}

proof fn lemma_top_agrees(
    image: SerializedView,
    cells: Size,
    width: nat,
    palette: Palette,
    index: int,
)
    requires
        image_settled(image),
        0 <= index < image.placeholder_rows.len(),
    ensures
        agree(
            card::top_row(image, cells, width, colored(palette), index),
            card::top_row(image, cells, width, colorless(palette), index),
        ),
{
    let inner = (width - 2) as nat;
    let before = (inner - cells.width) as nat / 2;
    let front = strings::blank(before);
    let back = strings::blank((inner - cells.width - before) as nat);
    let picture = card::without_newline(image.placeholder_rows[index]);
    assert(laws::clean(front));
    assert(laws::clean(back));
    lemma_same_agrees(front);
    lemma_same_agrees(back);
    assert(agree(picture, picture)) by {
        reveal(agree);
    }
    lemma_agree_concat(front, front, picture, picture);
    lemma_agree_concat(front + picture, front + picture, back, back);
    let inside = front + picture + back;
    lemma_between_edges("│"@, inside, inside, "│"@, palette);
    let a = card::edge("│"@, colored(palette));
    let b = card::edge("│"@, colorless(palette));
    assert(card::top_row(image, cells, width, colored(palette), index) =~= a + inside + a);
    assert(card::top_row(image, cells, width, colorless(palette), index) =~= b + inside + b);
}

proof fn lemma_identity_agrees(
    body: BodyView,
    full: bool,
    width: nat,
    palette: Palette,
    image: Option<(SerializedView, Size, ImagePosition)>,
)
    requires
        laws::lines_clean(body.identity),
        image is Some ==> image_settled((image->0).0),
    ensures
        rows_agree(
            card::identity_texts(body, full, width, colored(palette), image),
            card::identity_texts(body, full, width, colorless(palette), image),
            image is None,
        ),
{
    let (on, off) = (colored(palette), colorless(palette));
    let inner = (width - 2) as nat;
    let bare = image is None;
    lemma_framed_rows_agree(body.identity, inner, palette, bare);
    let left = card::identity_texts(body, full, width, on, image);
    let right = card::identity_texts(body, full, width, off, image);
    match image {
        Some((image, cells, ImagePosition::Left)) => {
            if card::fits_left(image, cells, width) {
                let height = card::identity_height(body, full);
                assert forall|i: int| 0 <= i < left.len() implies agree(
                    #[trigger] left[i],
                    right[i],
                ) by {
                    lemma_left_agrees(body, image, cells, height, width, palette, i);
                }
                reveal(rows_agree);
            }
        },
        Some((image, cells, ImagePosition::Top)) => {
            if card::fits_top(image, cells, width) {
                let rows = image.placeholder_rows.len();
                let drawn = Seq::new(rows, |i: int| card::top_row(image, cells, width, on, i));
                let plain = Seq::new(rows, |i: int| card::top_row(image, cells, width, off, i));
                assert forall|i: int| 0 <= i < drawn.len() implies agree(
                    #[trigger] drawn[i],
                    plain[i],
                ) by {
                    lemma_top_agrees(image, cells, width, palette, i);
                }
                assert(rows_agree(drawn, plain, bare)) by {
                    reveal(rows_agree);
                }
                lemma_rows_join(
                    drawn,
                    plain,
                    card::framed_texts(body.identity, inner, on),
                    card::framed_texts(body.identity, inner, off),
                    bare,
                );
            }
        },
        None => {},
    }
}

pub proof fn lemma_composed_agree(
    body: BodyView,
    full: bool,
    width: nat,
    palette: Palette,
    image: Option<(SerializedView, Size, ImagePosition)>,
)
    requires
        width >= 20,
        laws::body_clean(body),
        image is Some ==> image_settled((image->0).0),
    ensures
        rows_agree(
            card::composed_rows(body, full, width, colored(palette), image),
            card::composed_rows(body, full, width, colorless(palette), image),
            image is None,
        ),
{
    let (on, off) = (colored(palette), colorless(palette));
    let inner = (width - 2) as nat;
    let bare = image is None;
    lemma_title_agrees(body.title, inner, palette);
    let top = seq![card::title_text(body.title, inner, on)];
    let bare_top = seq![card::title_text(body.title, inner, off)];
    lemma_one_row(top[0], bare_top[0], bare);
    lemma_identity_agrees(body, full, width, palette, image);
    let head = top + card::identity_texts(body, full, width, on, image);
    let bare_head = bare_top + card::identity_texts(body, full, width, off, image);
    lemma_rows_join(
        top,
        bare_top,
        card::identity_texts(body, full, width, on, image),
        card::identity_texts(body, full, width, off, image),
        bare,
    );
    lemma_section_rows_agree(body.sections, width, palette, bare);
    lemma_rows_join(
        head,
        bare_head,
        card::section_texts(body.sections, width, on),
        card::section_texts(body.sections, width, off),
        bare,
    );
    let most = if full {
        head + card::section_texts(body.sections, width, on)
    } else {
        head
    };
    let bare_most = if full {
        bare_head + card::section_texts(body.sections, width, off)
    } else {
        bare_head
    };
    let line = strings::repeated('─', inner);
    lemma_edges_agree(line, palette);
    lemma_between_edges("╰"@, card::edge(line, on), card::edge(line, off), "╯"@, palette);
    let bottom = card::bottom_text(inner, on);
    let bare_bottom = card::bottom_text(inner, off);
    lemma_one_row(bottom, bare_bottom, bare);
    lemma_rows_join(most, bare_most, seq![bottom], seq![bare_bottom], bare);
    assert(most.push(bottom) =~= most + seq![bottom]);
    assert(bare_most.push(bare_bottom) =~= bare_most + seq![bare_bottom]);
}

/// Colour only adds escape sequences to a card: row by row it reads, without them, as the
/// card without colour does. A card without colour and without an image has none.
pub proof fn law_colour_only_adds_escapes(
    snapshot: Snapshot,
    full: bool,
    width: nat,
    palette: Palette,
    image: Option<(SerializedView, Size, ImagePosition)>,
)
    requires
        width >= 20,
        image is Some ==> image_settled((image->0).0),
    ensures
        ({
            let body = text::card_body_of(snapshot, full);
            let left = card::composed_rows(body, full, width, colored(palette), image);
            let right = card::composed_rows(body, full, width, colorless(palette), image);
            &&& left.len() == right.len()
            &&& forall|i: int|
                0 <= i < left.len() ==> card::stripped(#[trigger] left[i]) == card::stripped(
                    right[i],
                )
            &&& image is None ==> forall|i: int|
                0 <= i < right.len() ==> card::stripped(#[trigger] right[i]) == right[i]
        }),
{
    let body = text::card_body_of(snapshot, full);
    laws::lemma_clean_body(snapshot, full);
    lemma_composed_agree(body, full, width, palette, image);
    let left = card::composed_rows(body, full, width, colored(palette), image);
    let right = card::composed_rows(body, full, width, colorless(palette), image);
    lemma_agreement(left, right, image is None);
}

/// What it means that rows agree.
pub proof fn lemma_agreement(left: Seq<Seq<char>>, right: Seq<Seq<char>>, bare: bool)
    requires
        rows_agree(left, right, bare),
    ensures
        left.len() == right.len(),
        forall|i: int|
            0 <= i < left.len() ==> card::stripped(#[trigger] left[i]) == card::stripped(right[i]),
        bare ==> forall|i: int|
            0 <= i < right.len() ==> card::stripped(#[trigger] right[i]) == right[i],
{
    reveal(rows_agree);
    reveal(agree);
    if bare {
        assert forall|i: int| 0 <= i < right.len() implies card::stripped(#[trigger] right[i])
            == right[i] by {
            assert(agree(left[i], right[i]));
            lemma_clean_strips_to_itself(right[i]);
        }
    }
}

proof fn lemma_placeholder_cells_clean(row: int, cols: nat, high: int)
    requires
        0 <= row < 256,
        cols <= 256,
        0 <= high < 256,
    ensures
        laws::clean(kitty_one_shot::placeholder_cells(row, cols, high)),
    decreases cols,
{
    if cols > 0 {
        lemma_placeholder_cells_clean(row, (cols - 1) as nat, high);
        kitty_one_shot::lemma_marks_are_marks();
    }
}

/// The rows of a serialized image end outside of escape sequences.
pub proof fn law_serialized_rows_are_settled(id: u32, cols: nat, rows: nat, transfer: Seq<u8>)
    requires
        cols <= 256,
        rows <= 256,
    ensures
        image_settled(
            SerializedView {
                transfer,
                placeholder_rows: kitty_one_shot::placeholder_rows_of(id, cols, rows),
            },
        ),
{
    let lines = kitty_one_shot::placeholder_rows_of(id, cols, rows);
    assert forall|i: int| 0 <= i < lines.len() implies settled(
        card::without_newline(#[trigger] lines[i]),
    ) by {
        let color = id as nat % 0x100_0000;
        let glyphs = kitty_one_shot::placeholder_cells(i, cols, id as int / 0x100_0000);
        lemma_color_strips_to_nothing(color / 0x1_0000, (color / 0x100) % 0x100, color % 0x100);
        lemma_placeholder_cells_clean(i, cols, id as int / 0x100_0000);
        lemma_clean_strips_to_itself(glyphs);
        lemma_reset_strips_to_nothing();
        let start = kitty_one_shot::id_color_text(id);
        lemma_strip_concat(start, glyphs);
        lemma_strip_concat(start + glyphs, "\x1b[0m"@);
        reveal_strlit("\x1b[0m\n");
        reveal_strlit("\x1b[0m");
        assert(card::without_newline(lines[i]) =~= start + glyphs + "\x1b[0m"@);
    }
}

/// Without colour no row holds a control character, so none holds an escape sequence.
pub proof fn law_plain_cards_hold_no_escapes(snapshot: Snapshot, options: TextOptions)
    requires
        !options.color,
    ensures
        forall|i: int|
            0 <= i < text::card_texts(snapshot, options).len() ==> laws::clean(
                #[trigger] text::card_texts(snapshot, options)[i],
            ),
{
    let rows = text::card_rows(snapshot, options);
    let colors = theme::palette_of(options.theme);
    laws::law_rows_hold_no_control_characters(snapshot, options);
    assert forall|i: int| 0 <= i < text::card_texts(snapshot, options).len() implies laws::clean(
        #[trigger] text::card_texts(snapshot, options)[i],
    ) by {
        assert(laws::spans_clean(rows[i].fragments));
        laws::law_plain_rows_are_their_fragments(rows[i].fragments, colors);
        lemma_spans_text_clean(rows[i].fragments);
    }
}

} // verus!
