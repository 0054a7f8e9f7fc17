//! What reading, sending and placing an image promise.
use vstd::prelude::*;
use crate::config::{ImageFit, ImagePosition, ImageSettings};
use crate::limits::Limits;
use crate::render::card;
use crate::render::card::Paint;
use crate::render::images;
use crate::render::cells::cell_width;
use crate::render::images::{
    CellPixels, DecodedFrameView, ImageErrorView, ImageRead, PixelRect,
};
use crate::render::kitty_one_shot;
use crate::render::one_shot;
use crate::render::one_shot::{OneShotErrorView, Rect, SerializedView, Size};
use crate::render::raster;
use crate::render::raster::{FrameStepView, ImageFormat, RasterView};
use crate::render::terminal;
use crate::render::text;
use crate::render::text::{BodyView, LineView, SectionView};
use crate::render::theme::Role;
use crate::render::tui;
use crate::strings;

verus! {

/// Bytes that make no image: more of them than a file may have, of no format that is read,
/// of no size, or of a size that is too large. The first of these that holds is told.
pub proof fn law_bytes_that_make_no_image(bytes: Seq<u8>, limits: Limits)
    ensures
        ({
            let made = images::image_of(bytes, limits);
            let small = bytes.len() <= limits.image_max_file_bytes;
            let format = raster::guessed_format(bytes);
            let known = format is Some && format->0 != ImageFormat::Other;
            let size = raster::image_dimensions(bytes, format->0);
            &&& !small ==> made == Err::<images::DecodedImageView, ImageErrorView>(
                ImageErrorView::Limit("file bytes"@),
            )
            &&& small && !known ==> made == Err::<images::DecodedImageView, ImageErrorView>(
                ImageErrorView::UnsupportedFormat,
            )
            &&& small && known && size is Err ==> made == Err::<
                images::DecodedImageView,
                ImageErrorView,
            >(ImageErrorView::Decode(size->Err_0))
            &&& small && known && size is Ok && (size->Ok_0.0 == 0 || size->Ok_0.1 == 0
                || size->Ok_0.0 > limits.image_max_dimension_px || size->Ok_0.1
                > limits.image_max_dimension_px) ==> made == Err::<
                images::DecodedImageView,
                ImageErrorView,
            >(ImageErrorView::Limit("dimensions"@))
            &&& made is Ok ==> small && known && size is Ok
        }),
{
}

/// An image that is kept has the format of its bytes; its first frame is the first of its
/// frames, or the still image where it has none.
pub proof fn law_images_are_of_their_bytes(bytes: Seq<u8>, limits: Limits)
    requires
        images::image_of(bytes, limits) is Ok,
    ensures
        ({
            let image = images::image_of(bytes, limits)->Ok_0;
            let format = raster::guessed_format(bytes)->0;
            &&& image.format == format
            &&& image.frames.len() > 0 ==> image.first_frame == image.frames[0].image
                && format != ImageFormat::Jpeg
            &&& image.frames.len() == 0 ==> raster::still_image(bytes, format) == Ok::<
                raster::RasterView,
                Seq<char>,
            >(image.first_frame)
            &&& image.frames.len() == 0 ==> image.first_frame.width
                <= limits.image_max_dimension_px && image.first_frame.height
                <= limits.image_max_dimension_px
        }),
{
}

/// A JPEG, and a PNG that is not animated, are still images; a GIF, a WebP and an animated
/// PNG have the frames of their animation.
pub proof fn law_animations_are_of_their_format(bytes: Seq<u8>, limits: Limits)
    ensures
        images::frames_of(bytes, ImageFormat::Jpeg, limits) == Ok::<
            Seq<DecodedFrameView>,
            ImageErrorView,
        >(Seq::empty()),
        raster::png_animated(bytes) == Ok::<bool, Seq<char>>(false) ==> images::frames_of(
            bytes,
            ImageFormat::Png,
            limits,
        ) == Ok::<Seq<DecodedFrameView>, ImageErrorView>(Seq::empty()),
        raster::png_animated(bytes) == Ok::<bool, Seq<char>>(true) && raster::png_animation(
            bytes,
        ) is Ok ==> images::frames_of(bytes, ImageFormat::Png, limits) == images::animation(
            raster::png_animation(bytes)->Ok_0,
            limits,
        ),
        raster::gif_animation(bytes) is Ok ==> images::frames_of(bytes, ImageFormat::Gif, limits)
            == images::animation(raster::gif_animation(bytes)->Ok_0, limits),
        raster::webp_animation(bytes) is Ok ==> images::frames_of(bytes, ImageFormat::WebP, limits)
            == images::animation(raster::webp_animation(bytes)->Ok_0, limits),
        raster::gif_animation(bytes) is Err ==> images::frames_of(bytes, ImageFormat::Gif, limits)
            == Err::<Seq<DecodedFrameView>, ImageErrorView>(
            ImageErrorView::Decode(raster::gif_animation(bytes)->Err_0),
        ),
        raster::webp_animation(bytes) is Err ==> images::frames_of(bytes, ImageFormat::WebP, limits)
            == Err::<Seq<DecodedFrameView>, ImageErrorView>(
            ImageErrorView::Decode(raster::webp_animation(bytes)->Err_0),
        ),
        raster::png_animated(bytes) is Err ==> images::frames_of(bytes, ImageFormat::Png, limits)
            == Err::<Seq<DecodedFrameView>, ImageErrorView>(
            ImageErrorView::Decode(raster::png_animated(bytes)->Err_0),
        ),
{
}

/// An animation is kept where its frames, the first of them twice, take no more bytes than
/// a decoded image may.
pub proof fn law_animations_that_are_kept(
    format: ImageFormat,
    frames: Seq<DecodedFrameView>,
    limits: Limits,
)
    requires
        frames.len() > 0,
    ensures
        ({
            let kept = images::kept_animation(format, frames, limits);
            let bytes = images::frames_bytes(frames) + 4 * (frames[0].image.width
                * frames[0].image.height);
            &&& kept is Ok <==> bytes <= limits.image_max_decoded_bytes
            &&& kept is Ok ==> kept->Ok_0.frames == frames && kept->Ok_0.first_frame
                == frames[0].image && kept->Ok_0.format == format
            &&& kept is Err ==> kept->Err_0 == ImageErrorView::Limit("decoded bytes"@)
        }),
{
    let width = frames[0].image.width;
    let height = frames[0].image.height;
    assert(raster::pixel_bytes(width, height) == 4 * (width * height)) by (nonlinear_arith)
        requires
            raster::pixel_bytes(width, height) == width * height * 4,
    ;
}

/// The bytes of frames are those of each of them, four for each pixel.
pub proof fn law_frames_take_four_bytes_a_pixel(frames: Seq<DecodedFrameView>, last: DecodedFrameView)
    ensures
        images::frames_bytes(frames.push(last)) == images::frames_bytes(frames) + 4 * (
        last.image.width * last.image.height),
        images::frames_bytes(Seq::empty()) == 0,
{
    assert(frames.push(last).drop_last() =~= frames);
    let width = last.image.width;
    let height = last.image.height;
    assert(raster::pixel_bytes(width, height) == 4 * (width * height)) by (nonlinear_arith)
        requires
            raster::pixel_bytes(width, height) == width * height * 4,
    ;
}

/// What cannot be read as a file is told with its path, and what is read is decoded.
pub proof fn law_files_that_cannot_be_read(path: Seq<char>, read: ImageRead, limits: Limits)
    requires
        limits.image_max_file_bytes < u64::MAX,
    ensures
        ({
            let made = images::image_read(path, read, limits);
            &&& read is NotRegular ==> made == Err::<images::DecodedImageView, ImageErrorView>(
                ImageErrorView::Io { path, message: "image path is not a regular file"@ },
            )
            &&& read matches ImageRead::OpenFailed(message) ==> made == Err::<
                images::DecodedImageView,
                ImageErrorView,
            >(ImageErrorView::Io { path, message: message@ })
            &&& read matches ImageRead::ReadFailed(message) ==> made == Err::<
                images::DecodedImageView,
                ImageErrorView,
            >(ImageErrorView::Io { path, message: message@ })
            &&& read matches ImageRead::Bytes(bytes) ==> made == images::image_of(bytes@, limits)
        }),
{
}

/// Each command carries 4096 characters at most, and says that more follow exactly where it
/// is not the last one.
pub proof fn law_all_but_the_last_command_announce_more(
    encoded: Seq<u8>,
    index: int,
    id: u32,
    cols: u16,
    rows: u16,
)
    requires
        0 <= index < kitty_one_shot::command_count(encoded.len()),
    ensures
        ({
            let last = index + 1 == kitty_one_shot::command_count(encoded.len());
            let part = if last {
                encoded.skip(4096 * index)
            } else {
                encoded.subrange(4096 * index, 4096 * (index + 1))
            };
            let mark = if last {
                "0"@
            } else {
                "1"@
            };
            let control = if index == 0 {
                "a=T,t=d,f=100,U=1,i="@ + strings::decimal_text(id as nat) + ",c="@
                    + strings::decimal_text(cols as nat) + ",r="@ + strings::decimal_text(
                    rows as nat,
                ) + ",q=2,N=1,m="@ + mark
            } else {
                "m="@ + mark + ",q=2"@
            };
            &&& part.len() <= 4096
            &&& kitty_one_shot::command(encoded, index, id, cols, rows)
                == kitty_one_shot::ascii_bytes("\x1b_G"@) + kitty_one_shot::ascii_bytes(control)
                + kitty_one_shot::ascii_bytes(";"@) + part + kitty_one_shot::ascii_bytes("\x1b\\"@)
        }),
{
    let start = 4096 * index;
    let end = if start + 4096 < encoded.len() {
        start + 4096
    } else {
        encoded.len() as int
    };
    assert(start <= encoded.len());
    if index + 1 == kitty_one_shot::command_count(encoded.len()) {
        assert(encoded.subrange(start, end) =~= encoded.skip(start));
    }
}

/// The commands follow one another, each wrapped for tmux where it stands between.
pub proof fn law_commands_follow_one_another(
    encoded: Seq<u8>,
    count: nat,
    id: u32,
    cols: u16,
    rows: u16,
)
    ensures
        kitty_one_shot::transfer_of(encoded, 0, id, cols, rows, false).len() == 0,
        kitty_one_shot::transfer_of(encoded, 0, id, cols, rows, true).len() == 0,
        kitty_one_shot::transfer_of(encoded, count + 1, id, cols, rows, false)
            == kitty_one_shot::transfer_of(encoded, count, id, cols, rows, false)
            + kitty_one_shot::command(encoded, count as int, id, cols, rows),
        kitty_one_shot::transfer_of(encoded, count + 1, id, cols, rows, true)
            == kitty_one_shot::transfer_of(encoded, count, id, cols, rows, true)
            + kitty_one_shot::ascii_bytes("\x1bPtmux;"@) + kitty_one_shot::doubled(
            kitty_one_shot::command(encoded, count as int, id, cols, rows),
        ) + kitty_one_shot::ascii_bytes("\x1b\\"@),
{
    let before = kitty_one_shot::transfer_of(encoded, count, id, cols, rows, true);
    let wrapped = kitty_one_shot::doubled(
        kitty_one_shot::command(encoded, count as int, id, cols, rows),
    );
    let open = kitty_one_shot::ascii_bytes("\x1bPtmux;"@);
    let close = kitty_one_shot::ascii_bytes("\x1b\\"@);
    assert(before + (open + wrapped + close) =~= before + open + wrapped + close);
}

/// A row of placeholders is in the colour that the low bytes of the id make; each of its
/// cells has the marks of the row, of its column and of the high byte of the id.
pub proof fn law_placeholders_tell_row_column_and_id(id: u32, row: int, cols: nat, at: int)
    requires
        0 <= at < cols,
    ensures
        ({
            let high = id as int / 0x100_0000;
            let glyphs = kitty_one_shot::placeholder_cells(row, cols, high);
            let red = (id as nat / 0x1_0000) % 0x100;
            let green = (id as nat / 0x100) % 0x100;
            let blue = id as nat % 0x100;
            &&& glyphs.len() == 4 * cols
            &&& glyphs[4 * at] == '\u{10eeee}'
            &&& glyphs[4 * at + 1] == kitty_one_shot::DIACRITICS[row]
            &&& glyphs[4 * at + 2] == kitty_one_shot::DIACRITICS[at]
            &&& glyphs[4 * at + 3] == kitty_one_shot::DIACRITICS[high]
            &&& kitty_one_shot::placeholder_row(id, row, cols) == "\x1b[38;2;"@
                + strings::decimal_text(red) + ";"@ + strings::decimal_text(green) + ";"@
                + strings::decimal_text(blue) + "m"@ + glyphs + "\x1b[0m\n"@
            &&& id == high * 0x100_0000 + red * 0x1_0000 + green * 0x100 + blue
        }),
{
    lemma_placeholder_glyphs(row, cols, id as int / 0x100_0000, at);
    let color = id as nat % 0x100_0000;
    assert(color / 0x1_0000 == (id as nat / 0x1_0000) % 0x100);
    assert((color / 0x100) % 0x100 == (id as nat / 0x100) % 0x100);
    assert(color % 0x100 == id as nat % 0x100);
}

proof fn lemma_placeholder_glyphs(row: int, cols: nat, high: int, at: int)
    requires
        0 <= at < cols,
    ensures
        ({
            let glyphs = kitty_one_shot::placeholder_cells(row, cols, high);
            &&& glyphs.len() == 4 * cols
            &&& glyphs[4 * at] == '\u{10eeee}'
            &&& glyphs[4 * at + 1] == kitty_one_shot::DIACRITICS[row]
            &&& glyphs[4 * at + 2] == kitty_one_shot::DIACRITICS[at]
            &&& glyphs[4 * at + 3] == kitty_one_shot::DIACRITICS[high]
        }),
    decreases cols,
{
    let front = kitty_one_shot::placeholder_cells(row, (cols - 1) as nat, high);
    if cols > 1 {
        lemma_placeholder_glyphs(row, (cols - 1) as nat, high, if at + 1 < cols {
            at
        } else {
            0
        });
    } else {
        assert(front.len() == 0);
    }
}

/// The rows of an image beside the text stand in the middle of its height, each whole and
/// in its place, with blanks as wide as the image above and below.
pub proof fn law_images_stand_in_the_middle_of_the_text(
    image: SerializedView,
    cells: Size,
    height: nat,
    at: int,
)
    requires
        image.placeholder_rows.len() <= height,
        0 <= at < height,
    ensures
        ({
            let rows = image.placeholder_rows.len();
            let above = (height - rows) / 2;
            let part = card::image_part(image, cells, height, at);
            &&& 2 * above <= height - rows <= 2 * above + 1
            &&& above <= at < above + rows ==> part == card::without_newline(
                image.placeholder_rows[at - above],
            )
            &&& at < above || at >= above + rows ==> part == strings::blank(cells.width as nat)
        }),
{
}

/// A row of an image loses the end of its line, and nothing else.
pub proof fn law_only_the_end_of_a_line_is_dropped(row: Seq<char>)
    ensures
        card::without_newline(row.push('\n')) == row,
        row.len() > 0 && row.last() != '\n' ==> card::without_newline(row) == row,
{
    assert(row.push('\n').drop_last() =~= row);
}

/// An image stands beside the text on 43 columns or more, and above it on 34 or more, where
/// its rows have its size and it leaves the text its room.
pub proof fn law_images_that_fit_the_card(image: SerializedView, cells: Size, width: nat)
    requires
        card::rows_match(image, cells),
    ensures
        card::fits_left(image, cells, width) <==> width >= 43 && cells.width + 37 <= width,
        card::fits_top(image, cells, width) <==> width >= 34 && cells.width + 2 <= width,
        image.placeholder_rows.len() == cells.height,
{
}

/// An image above the text stands in the middle of the frame.
pub proof fn law_images_stand_in_the_middle_of_the_frame(
    image: SerializedView,
    cells: Size,
    width: nat,
    paint: Paint,
    at: int,
)
    requires
        cells.width + 2 <= width,
        0 <= at < image.placeholder_rows.len(),
    ensures
        ({
            let before = (width - 2 - cells.width) / 2;
            let behind = width - 2 - cells.width - before;
            &&& before <= behind <= before + 1
            &&& card::top_row(image, cells, width, paint, at) == card::edge("│"@, paint)
                + strings::blank(before as nat) + card::without_newline(image.placeholder_rows[at])
                + strings::blank(behind as nat) + card::edge("│"@, paint)
        }),
{
}

/// The card that is printed begins with its title and ends with its frame; the identity
/// stands between, a row each, and on the full card the sections behind it.
pub proof fn law_cards_have_their_rows(body: BodyView, full: bool, width: nat, paint: Paint, at: int)
    requires
        width >= 2,
        0 <= at < body.identity.len(),
    ensures
        ({
            let inner = (width - 2) as nat;
            let rows = card::composed_rows(body, full, width, paint, None);
            let sections = card::section_texts(body.sections, width, paint);
            &&& rows[0] == card::title_text(body.title, inner, paint)
            &&& rows[at + 1] == card::framed_text(body.identity[at], inner, paint)
            &&& rows.last() == card::bottom_text(inner, paint)
            &&& !full ==> rows.len() == body.identity.len() + 2
            &&& full ==> rows.len() == body.identity.len() + sections.len() + 2
            &&& full ==> rows.subrange(body.identity.len() as int + 1, rows.len() - 1) == sections
        }),
{
    let inner = (width - 2) as nat;
    let rows = card::composed_rows(body, full, width, paint, None);
    let sections = card::section_texts(body.sections, width, paint);
    if full {
        assert(rows.subrange(body.identity.len() as int + 1, rows.len() - 1) =~= sections);
    }
}

/// Beside an image that fits, each row of the identity stands in its row, at the right of
/// the image.
pub proof fn law_text_stands_at_the_right_of_the_image(
    body: BodyView,
    image: SerializedView,
    cells: Size,
    width: nat,
    paint: Paint,
    at: int,
)
    requires
        card::fits_left(image, cells, width),
        0 <= at < body.identity.len(),
    ensures
        ({
            let rows = card::composed_rows(
                body,
                false,
                width,
                paint,
                Some((image, cells, ImagePosition::Left)),
            );
            let shown = card::image_part(image, cells, body.identity.len(), at);
            &&& rows.len() == body.identity.len() + 2
            &&& rows[at + 1] == card::edge("│"@, paint) + " "@ + shown + " "@ + card::edge(
                "│"@,
                paint,
            ) + " "@ + card::line_text(body.identity[at], (width - cells.width - 7) as nat, paint)
                + " "@ + card::edge("│"@, paint)
        }),
{
}

/// On the full card the rows beside the image are those that are reserved.
pub proof fn law_the_full_card_reserves_rows_for_the_image(
    body: BodyView,
    image: SerializedView,
    cells: Size,
    width: nat,
    paint: Paint,
)
    requires
        card::fits_left(image, cells, width),
    ensures
        card::identity_texts(
            body,
            true,
            width,
            paint,
            Some((image, cells, ImagePosition::Left)),
        ).len() == body.identity_layout_height,
        card::identity_texts(
            body,
            false,
            width,
            paint,
            Some((image, cells, ImagePosition::Left)),
        ).len() == body.identity.len(),
{
}

/// An image that does not fit is left out, and the text stands as it does without one; one
/// that fits above the text stands above all of it.
pub proof fn law_images_that_do_not_fit_are_left_out(
    body: BodyView,
    full: bool,
    image: SerializedView,
    cells: Size,
    width: nat,
    paint: Paint,
)
    ensures
        ({
            let plain = card::identity_texts(body, full, width, paint, None);
            let left = card::identity_texts(
                body,
                full,
                width,
                paint,
                Some((image, cells, ImagePosition::Left)),
            );
            let top = card::identity_texts(
                body,
                full,
                width,
                paint,
                Some((image, cells, ImagePosition::Top)),
            );
            &&& !card::fits_left(image, cells, width) ==> left == plain
            &&& !card::fits_top(image, cells, width) ==> top == plain
            &&& card::fits_top(image, cells, width) ==> top.skip(
                image.placeholder_rows.len() as int,
            ) == plain && top.len() == plain.len() + cells.height
        }),
{
    let plain = card::identity_texts(body, full, width, paint, None);
    let top = card::identity_texts(
        body,
        full,
        width,
        paint,
        Some((image, cells, ImagePosition::Top)),
    );
    if card::fits_top(image, cells, width) {
        assert(top.skip(image.placeholder_rows.len() as int) =~= plain);
    }
}

/// Each section has its rail and its rows, and is in two columns on 80 columns or more.
pub proof fn law_sections_stand_below_their_rails(
    sections: Seq<SectionView>,
    last: SectionView,
    width: nat,
    paint: Paint,
)
    requires
        width >= 4,
    ensures
        ({
            let before = card::section_texts(sections, width, paint);
            let after = card::section_texts(sections.push(last), width, paint);
            let rows = text::section_rows_of(last, (width - 4) as nat, width >= 80);
            &&& after.take(before.len() as int) == before
            &&& after.len() == before.len() + 1 + rows.len()
            &&& after[before.len() as int] == card::rail_text(last.name, (width - 2) as nat, paint)
            &&& forall|i: int|
                0 <= i < rows.len() ==> #[trigger] after[before.len() + 1 + i]
                    == card::framed_text(rows[i], (width - 2) as nat, paint)
        }),
{
    assert(sections.push(last).drop_last() =~= sections);
    let before = card::section_texts(sections, width, paint);
    let after = card::section_texts(sections.push(last), width, paint);
    assert(after.take(before.len() as int) =~= before);
}

/// The sections of the live card have a head, their rows and a blank row each.
pub proof fn law_sections_of_the_live_card(
    sections: Seq<SectionView>,
    last: SectionView,
    width: nat,
    wide: bool,
)
    ensures
        ({
            let before = tui::live_sections(sections, width, wide);
            let after = tui::live_sections(sections.push(last), width, wide);
            let rows = text::section_rows_of(last, width, wide);
            let start = before.len() as int;
            &&& after.take(start) == before
            &&& after.len() == before.len() + rows.len() + 2
            &&& after[start] == tui::live_rail(last.name, last.role, width)
            &&& after.subrange(start + 1, start + 1 + rows.len()) == rows
            &&& after.last().fragments.len() == 0
        }),
{
    assert(sections.push(last).drop_last() =~= sections);
    let before = tui::live_sections(sections, width, wide);
    let after = tui::live_sections(sections.push(last), width, wide);
    let rows = text::section_rows_of(last, width, wide);
    let start = before.len() as int;
    assert(after.take(start) =~= before);
    assert(after.subrange(start + 1, start + 1 + rows.len()) =~= rows);
}

/// The rows of the identity make room for the image at their left, and a divider; the rows
/// below them stand as they are.
pub proof fn law_rows_make_room_for_the_image(
    lines: Seq<LineView>,
    identity_rows: nat,
    image_width: nat,
    inner_width: nat,
    at: int,
)
    requires
        0 <= at < lines.len(),
        image_width + 3 <= inner_width,
    ensures
        ({
            let rows = tui::inset_rows(lines, identity_rows, image_width, inner_width);
            let words = tui::live_spans(lines[at], (inner_width - image_width - 3) as nat);
            &&& rows.len() == lines.len()
            &&& at >= identity_rows ==> rows[at] == lines[at]
            &&& at < identity_rows ==> {
                &&& rows[at].role == lines[at].role
                &&& rows[at].fragments.len() == words.len() + 2
                &&& rows[at].fragments[0].text == strings::blank(image_width + 2)
                &&& rows[at].fragments[1].text == strings::sanitized("│"@)
                &&& rows[at].fragments.skip(2) == words
                &&& rows[at].flex is None && rows[at].trailing.len() == 0
            }
        }),
{
    let rows = tui::inset_rows(lines, identity_rows, image_width, inner_width);
    let words = tui::live_spans(lines[at], (inner_width - image_width - 3) as nat);
    if at < identity_rows {
        assert(rows[at].fragments.skip(2) =~= words);
        assert(rows[at].fragments[0].text =~= strings::blank(image_width + 2));
    }
}

/// The words below a card that is cut say so, and on the full card that details are hidden.
pub proof fn law_a_card_that_is_cut_says_so()
    ensures
        tui::footer_row(true).fragments.len() == 1,
        tui::footer_row(true).fragments[0].text == strings::sanitized(
            "resize for details · full details hidden"@,
        ),
        tui::footer_row(false).fragments.len() == 1,
        tui::footer_row(false).fragments[0].text == strings::sanitized("resize for details"@),
        tui::footer_row(true).role == Role::Warning,
        tui::footer_row(false).role == Role::Warning,
{
}

/// An image that is planned for a card takes no more bytes than a decoded image may, before
/// it is cut and behind that; a plan that would is refused.
pub proof fn law_planned_images_keep_to_the_limit(
    image: RasterView,
    settings: ImageSettings,
    limits: Limits,
    cell: CellPixels,
    columns: u16,
    identity_height: u16,
)
    requires
        one_shot::image_slot(settings, columns, identity_height) is Ok,
        one_shot::slot_plan(
            image,
            one_shot::image_slot(settings, columns, identity_height)->Ok_0,
            cell,
            settings.fit,
        ) is Ok,
    ensures
        ({
            let slot = one_shot::image_slot(settings, columns, identity_height)->Ok_0;
            let plan = one_shot::slot_plan(image, slot, cell, settings.fit)->Ok_0;
            let cut = one_shot::planned_size(plan);
            let made = one_shot::kitty_plan(
                image,
                settings,
                limits,
                cell,
                columns,
                identity_height,
            );
            let most = limits.image_max_decoded_bytes;
            let fits = 4 * (plan.resized.width * plan.resized.height) <= most && 4 * (cut.width
                * cut.height) <= most;
            &&& fits ==> made == Ok::<(images::ResizePlan, Size), OneShotErrorView>((plan, slot))
            &&& !fits ==> made == Err::<(images::ResizePlan, Size), OneShotErrorView>(
                OneShotErrorView::Image(ImageErrorView::Limit("decoded bytes"@)),
            )
        }),
{
    let slot = one_shot::image_slot(settings, columns, identity_height)->Ok_0;
    let plan = one_shot::slot_plan(image, slot, cell, settings.fit)->Ok_0;
    lemma_four_bytes(plan.resized.width, plan.resized.height);
    lemma_four_bytes(one_shot::planned_size(plan).width, one_shot::planned_size(plan).height);
}

proof fn lemma_four_bytes(width: u32, height: u32)
    ensures
        raster::pixel_bytes(width, height) == 4 * (width * height),
{
    assert(width * height * 4 == 4 * (width * height)) by (nonlinear_arith);
}

/// An encoded image is sent where it has no more bytes than a file may.
pub proof fn law_encoded_images_keep_to_the_limit(image: RasterView, limits: Limits)
    ensures
        ({
            let png = raster::png_encoding(image);
            let made = one_shot::encoded_png(image, limits);
            &&& png is Ok && png->Ok_0.len() <= limits.image_max_file_bytes ==> made == Ok::<
                Seq<u8>,
                OneShotErrorView,
            >(png->Ok_0)
            &&& png is Ok && png->Ok_0.len() > limits.image_max_file_bytes ==> made == Err::<
                Seq<u8>,
                OneShotErrorView,
            >(OneShotErrorView::Image(ImageErrorView::Limit("file bytes"@)))
            &&& png is Err ==> made == Err::<Seq<u8>, OneShotErrorView>(
                OneShotErrorView::Backend(png->Err_0),
            )
        }),
{
}

/// An image can be sent in up to 256 columns and 256 rows, one at least of each, as there are
/// marks for no more; there is something to send, and memory holds the text of it.
pub proof fn law_images_that_can_be_sent(png: Seq<u8>, cells: Size)
    ensures
        one_shot::transmittable(png, cells) <==> png.len() > 0 && 1 <= cells.width <= 256 && 1
            <= cells.height <= 256 && png.len() + 2 <= usize::MAX && (png.len() + 2) / 3 * 4
            <= usize::MAX,
{
}

/// What is sent of an image is its text in base64, all of it, under its id and in its cells,
/// and a row of placeholders for each row.
pub proof fn law_images_are_sent_under_their_id(png: Seq<u8>, id: u32, cells: Size, tmux: bool)
    ensures
        ({
            let encoded = kitty_one_shot::base64_text(png);
            let made = one_shot::sent(png, id, cells, tmux);
            &&& made.transfer == kitty_one_shot::transfer_of(
                encoded,
                kitty_one_shot::command_count(encoded.len()),
                id,
                cells.width,
                cells.height,
                tmux,
            )
            &&& made.placeholder_rows.len() == cells.height
            &&& forall|row: int|
                0 <= row < cells.height ==> #[trigger] made.placeholder_rows[row]
                    == kitty_one_shot::placeholder_row(id, row, cells.width as nat)
        }),
{
}

/// An image is deleted by its id, with the data that the terminal keeps of it, and without
/// an answer.
pub proof fn law_images_are_deleted_by_their_id(id: u32)
    ensures
        terminal::delete_command(id) == "\x1b_Ga=d,d=I,i="@ + strings::decimal_text(id as nat)
            + ",q=2\x1b\\"@,
{
}

/// A frame is kept where there is room for one more, its size is sound, and all of them
/// together take no more bytes than a decoded image may; the first of these that fails is
/// told, and so is a frame that cannot be decoded.
pub proof fn law_frames_are_kept_one_by_one(
    steps: Seq<FrameStepView>,
    kept: Seq<DecodedFrameView>,
    total: int,
    limits: Limits,
)
    requires
        steps.len() > 0,
    ensures
        ({
            let made = images::animation_from(steps, kept, total, limits);
            let full = kept.len() >= limits.image_max_frames;
            &&& steps[0] is End ==> made == Ok::<Seq<DecodedFrameView>, ImageErrorView>(kept)
            &&& !(steps[0] is End) && full ==> made == Err::<
                Seq<DecodedFrameView>,
                ImageErrorView,
            >(ImageErrorView::Limit("frames"@))
            &&& !full && steps[0] is Failed ==> made == Err::<
                Seq<DecodedFrameView>,
                ImageErrorView,
            >(ImageErrorView::Decode(steps[0]->Failed_0))
            &&& !full && steps[0] is Frame ==> {
                let raster = steps[0]->raster;
                let delay = steps[0]->delay;
                let larger = total + 4 * (raster.width * raster.height);
                let fault = images::size_fault(raster.width, raster.height, limits);
                let frame = DecodedFrameView {
                    image: raster,
                    delay_ms: images::clamped_delay(delay, limits),
                };
                &&& fault is Some ==> made == Err::<Seq<DecodedFrameView>, ImageErrorView>(fault->0)
                &&& fault is None && larger > limits.image_max_decoded_bytes ==> made == Err::<
                    Seq<DecodedFrameView>,
                    ImageErrorView,
                >(ImageErrorView::Limit("decoded bytes"@))
                &&& fault is None && larger <= limits.image_max_decoded_bytes ==> made
                    == images::animation_from(steps.skip(1), kept.push(frame), larger, limits)
            }
        }),
{
    if steps[0] is Frame {
        lemma_four_bytes(steps[0]->raster.width, steps[0]->raster.height);
    }
}

/// What is cut of an image is cut at both sides alike, the odd pixel at the far one.
pub proof fn law_images_are_cut_at_both_sides(
    source: PixelRect,
    cells: PixelRect,
    cell: CellPixels,
)
    requires
        images::plan_of(source, cells, cell, ImageFit::Cover) is Ok,
    ensures
        ({
            let plan = images::plan_of(source, cells, cell, ImageFit::Cover)->Ok_0;
            let crop = plan.crop->0;
            &&& plan.crop is Some
            &&& crop.width == plan.target.width && crop.height == plan.target.height
            &&& plan.resized.width >= crop.width ==> 2 * crop.x <= plan.resized.width - crop.width
                <= 2 * crop.x + 1
            &&& plan.resized.height >= crop.height ==> 2 * crop.y <= plan.resized.height
                - crop.height <= 2 * crop.y + 1
        }),
{
}

/// A pixel of what is cut out of an image is the pixel of the image as far to the right, and
/// as far down, as the part begins.
pub proof fn law_cut_pixels_are_those_of_the_image(
    image: RasterView,
    x: u32,
    y: u32,
    width: u32,
    height: u32,
    column: int,
    row: int,
    channel: int,
)
    requires
        0 <= column < width,
        0 <= row < height,
        0 <= channel < 4,
    ensures
        ({
            let cut = raster::cropped(image, x, y, width, height);
            &&& cut.width == width && cut.height == height
            &&& cut.pixels[(row * width + column) * 4 + channel] == image.pixels[((y + row)
                * image.width + (x + column)) * 4 + channel]
        }),
{
    let at = row * width + column;
    let index = at * 4 + channel;
    lemma_four_bytes(width, height);
    assert(0 <= at && at + 1 <= width * height) by (nonlinear_arith)
        requires
            at == row * width + column,
            0 <= column < width,
            0 <= row < height,
    ;
    assert(index / 4 == at && index % 4 == channel);
    assert(at / width as int == row && at % width as int == column) by {
        vstd::arithmetic::div_mod::lemma_fundamental_div_mod_converse(
            at,
            width as int,
            row,
            column,
        );
    }
    assert(((y + row) * image.width + x + column) * 4 + channel == ((y + row) * image.width + (x
        + column)) * 4 + channel);
}

/// The head of a section of the live card is in the role of the section, and its dashes in
/// that of the frame; a name that fits stands whole in brackets.
pub proof fn law_heads_of_the_live_card(name: Seq<char>, role: Role, width: nat)
    ensures
        ({
            let head = tui::live_rail(name, role, width);
            &&& head.role == role
            &&& head.fragments.len() == 2
            &&& head.fragments[0].role == role && head.fragments[1].role == Role::Border
            &&& width >= 4 && cell_width(name) <= width - 4 ==> head.fragments[0].text
                == strings::sanitized("[ "@ + name + " ]"@)
        }),
{
}

/// The rows of the live card: the identity, blank ones as far as rows are reserved, and the
/// sections, which stand in two columns on 80 columns or more.
pub proof fn law_rows_of_the_live_card(body: BodyView, rows: nat, card: Rect)
    requires
        card.width >= 2,
    ensures
        ({
            let all = tui::semantic_rows(body, rows, card);
            let count = body.identity.len();
            let reserved = if rows > count {
                rows
            } else {
                count
            };
            let sections = tui::live_sections(
                body.sections,
                (card.width - 2) as nat,
                card.width >= 80,
            );
            &&& all.take(count as int) == body.identity
            &&& all.len() == reserved + sections.len()
            &&& all.skip(reserved as int) == sections
            &&& forall|i: int| count <= i < reserved ==> (#[trigger] all[i]).fragments.len() == 0
        }),
{
    let all = tui::semantic_rows(body, rows, card);
    let count = body.identity.len();
    let reserved = if rows > count {
        rows
    } else {
        count
    };
    assert(all.take(count as int) =~= body.identity);
    assert(all.skip(reserved as int) =~= tui::live_sections(
        body.sections,
        (card.width - 2) as nat,
        card.width >= 80,
    ));
}

/// A session's number is one behind the last, and begins again behind the largest.
pub proof fn law_numbers_follow_one_another(counter: u32)
    ensures
        images::following(counter) == (counter + 1) % 0x1_0000_0000,
{
}

} // verus!
