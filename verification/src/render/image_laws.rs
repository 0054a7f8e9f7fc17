//! What an image promises on its way to the terminal: how much of it is shown, in which
//! ratio, in which cells, and by which protocol.
use vstd::prelude::*;
use crate::cli::Protocol;
use crate::config::{ImageFit, ImagePosition, ImageSettings};
use crate::limits::Limits;
use crate::render::images;
use crate::render::images::{
    select_protocol, CellPixels, DecodedFrameView, ImageError, PixelRect, ProtocolDecision,
    RenderMode, SelectedProtocol, TerminalCapabilities, TerminalKind,
};
use crate::render::one_shot;
use crate::render::one_shot::{FixedSource, Size};
use crate::render::raster;
use crate::render::raster::RasterView;

verus! {

/// A size is in the ratio of another within a pixel: one of its two lengths is what the
/// ratio makes of the other, rounded up.
pub open spec fn in_ratio_within_a_pixel(size: PixelRect, of: PixelRect) -> bool {
    ||| (size.height - 1) * of.width < size.width * of.height <= size.height * of.width
    ||| (size.width - 1) * of.height < size.height * of.width <= size.width * of.height
}

proof fn lemma_rounded_up(value: u32, numerator: u32, denominator: u32)
    requires
        denominator > 0,
    ensures
        ({
            let length = images::in_ratio(value, numerator, denominator);
            (length - 1) * denominator < value * numerator <= length * denominator
        }),
{
    let d = denominator as int;
    let p = value * numerator;
    let q = images::in_ratio(value, numerator, denominator);
    vstd::arithmetic::div_mod::lemma_fundamental_div_mod(p + d - 1, d);
    let r = (p + d - 1) % d;
    assert((q - 1) * d < p <= q * d) by (nonlinear_arith)
        requires
            d > 0,
            0 <= r < d,
            p + d - 1 == d * q + r,
    ;
}

/// Whatever the fit, the image is resized as a whole and keeps its ratio within a pixel.
/// To be contained it touches its target from inside and nothing is cut out; to cover it
/// touches the target from outside, and what is cut out is the middle of it, as large as
/// the target.
pub proof fn law_plans_keep_the_ratio(
    source: PixelRect,
    cells: PixelRect,
    cell_pixels: CellPixels,
    fit: ImageFit,
)
    requires
        images::plan_of(source, cells, cell_pixels, fit) is Ok,
    ensures
        ({
            let plan = images::plan_of(source, cells, cell_pixels, fit)->Ok_0;
            let wide = cells.width * cell_pixels.width;
            let high = cells.height * cell_pixels.height;
            &&& in_ratio_within_a_pixel(plan.resized, source)
            &&& fit == ImageFit::Contain ==> {
                &&& plan.crop is None
                &&& plan.resized.width <= wide
                &&& plan.resized.height <= high
                &&& plan.resized.width == wide || plan.resized.height == high
            }
            &&& fit == ImageFit::Cover ==> {
                &&& plan.crop is Some
                &&& plan.crop->0.width == wide
                &&& plan.crop->0.height == high
                &&& plan.resized.width >= wide
                &&& plan.resized.height >= high
                &&& plan.resized.width == wide || plan.resized.height == high
                &&& plan.crop->0.x * 2 == plan.resized.width - wide || plan.crop->0.x * 2 + 1
                    == plan.resized.width - wide
                &&& plan.crop->0.y * 2 == plan.resized.height - high || plan.crop->0.y * 2 + 1
                    == plan.resized.height - high
            }
        }),
{
    images::law_plans_keep_to_the_target(source, cells, cell_pixels, fit);
    let plan = images::plan_of(source, cells, cell_pixels, fit)->Ok_0;
    let wide = plan.target.width;
    let high = plan.target.height;
    lemma_rounded_up(source.height, wide, source.width);
    lemma_rounded_up(source.width, high, source.height);
    assert(wide * source.height == source.height * wide) by (nonlinear_arith);
    assert(high * source.width == source.width * high) by (nonlinear_arith);
}

/// A plan is refused exactly where a length is zero or one of the lengths that it needs
/// is no number of 32 bits.
pub proof fn law_plans_that_are_refused(
    source: PixelRect,
    cells: PixelRect,
    cell_pixels: CellPixels,
    fit: ImageFit,
)
    requires
        source.width > 0,
        source.height > 0,
        cells.width > 0,
        cells.height > 0,
        cells.width * cell_pixels.width <= 0xffff_ffff,
        cells.height * cell_pixels.height <= 0xffff_ffff,
    ensures
        fit == ImageFit::Contain ==> images::plan_of(source, cells, cell_pixels, fit) is Ok,
        images::plan_of(source, PixelRect { width: 0, ..cells }, cell_pixels, fit) is Err,
        images::plan_of(source, PixelRect { height: 0, ..cells }, cell_pixels, fit) is Err,
        images::plan_of(PixelRect { width: 0, ..source }, cells, cell_pixels, fit) is Err,
        images::plan_of(PixelRect { height: 0, ..source }, cells, cell_pixels, fit) is Err,
{
    let wide = (cells.width * cell_pixels.width) as u32;
    let high = (cells.height * cell_pixels.height) as u32;
    if fit == ImageFit::Contain {
        lemma_rounded_up(source.height, wide, source.width);
        lemma_rounded_up(source.width, high, source.height);
        let by_width = images::in_ratio(source.height, wide, source.width);
        let by_height = images::in_ratio(source.width, high, source.height);
        if wide * source.height <= high * source.width {
            assert(by_width <= high) by (nonlinear_arith)
                requires
                    (by_width - 1) * source.width < source.height * wide,
                    wide * source.height <= high * source.width,
                    source.width > 0,
            ;
        } else {
            assert(by_height <= wide) by (nonlinear_arith)
                requires
                    (by_height - 1) * source.height < source.width * high,
                    wide * source.height > high * source.width,
                    source.height > 0,
            ;
        }
    }
}

/// The image of a card that is to be contained is sent as a whole: it is the image
/// resized, with no part cut out, in its ratio within a pixel, and no larger than the
/// cells that the card leaves for it.
pub proof fn law_contained_images_are_sent_whole(
    image: RasterView,
    settings: ImageSettings,
    limits: Limits,
    cell: CellPixels,
    columns: u16,
    identity_height: u16,
    id: u32,
    tmux: bool,
) -> (size: PixelRect)
    requires
        settings.fit == ImageFit::Contain,
        one_shot::kitty_prepared(
            image,
            settings,
            limits,
            cell,
            columns,
            identity_height,
            id,
            tmux,
        ) is Ok,
    ensures
        ({
            let prepared = one_shot::kitty_prepared(
                image,
                settings,
                limits,
                cell,
                columns,
                identity_height,
                id,
                tmux,
            )->Ok_0;
            let whole = RasterView {
                width: size.width,
                height: size.height,
                pixels: raster::resized_pixels(image, size.width, size.height),
            };
            let slot = one_shot::image_slot(settings, columns, identity_height)->Ok_0;
            &&& raster::png_encoding(whole) is Ok
            &&& prepared.0 == one_shot::sent(
                raster::png_encoding(whole)->Ok_0,
                id,
                prepared.1,
                tmux,
            )
            &&& in_ratio_within_a_pixel(
                size,
                PixelRect { width: image.width, height: image.height },
            )
            &&& size.width <= slot.width * cell.width
            &&& size.height <= slot.height * cell.height
            &&& size.width == slot.width * cell.width || size.height == slot.height * cell.height
        }),
{
    let slot = one_shot::image_slot(settings, columns, identity_height)->Ok_0;
    let source = PixelRect { width: image.width, height: image.height };
    let cells = PixelRect { width: slot.width as u32, height: slot.height as u32 };
    let plan = one_shot::kitty_plan(
        image,
        settings,
        limits,
        cell,
        columns,
        identity_height,
    )->Ok_0.0;
    law_plans_keep_the_ratio(source, cells, cell, ImageFit::Contain);
    plan.resized
}

/// The image of a card that is to cover its cells is resized as a whole, in its ratio
/// within a pixel, and the middle of it is sent: exactly the pixels of the cells that the
/// card leaves for it.
pub proof fn law_covering_images_are_cut_to_their_cells(
    image: RasterView,
    settings: ImageSettings,
    limits: Limits,
    cell: CellPixels,
    columns: u16,
    identity_height: u16,
    id: u32,
    tmux: bool,
) -> (size: PixelRect)
    requires
        settings.fit == ImageFit::Cover,
        one_shot::kitty_prepared(
            image,
            settings,
            limits,
            cell,
            columns,
            identity_height,
            id,
            tmux,
        ) is Ok,
    ensures
        ({
            let prepared = one_shot::kitty_prepared(
                image,
                settings,
                limits,
                cell,
                columns,
                identity_height,
                id,
                tmux,
            )->Ok_0;
            let whole = RasterView {
                width: size.width,
                height: size.height,
                pixels: raster::resized_pixels(image, size.width, size.height),
            };
            let slot = one_shot::image_slot(settings, columns, identity_height)->Ok_0;
            let wide = slot.width * cell.width;
            let high = slot.height * cell.height;
            let part = raster::cropped(
                whole,
                ((size.width - wide) / 2) as u32,
                ((size.height - high) / 2) as u32,
                wide as u32,
                high as u32,
            );
            &&& wide <= size.width
            &&& high <= size.height
            &&& wide == size.width || high == size.height
            &&& raster::png_encoding(part) is Ok
            &&& prepared.0 == one_shot::sent(
                raster::png_encoding(part)->Ok_0,
                id,
                prepared.1,
                tmux,
            )
            &&& in_ratio_within_a_pixel(
                size,
                PixelRect { width: image.width, height: image.height },
            )
        }),
{
    let slot = one_shot::image_slot(settings, columns, identity_height)->Ok_0;
    let source = PixelRect { width: image.width, height: image.height };
    let cells = PixelRect { width: slot.width as u32, height: slot.height as u32 };
    let plan = one_shot::kitty_plan(
        image,
        settings,
        limits,
        cell,
        columns,
        identity_height,
    )->Ok_0.0;
    law_plans_keep_the_ratio(source, cells, cell, ImageFit::Cover);
    assert(plan.crop->0.x == (plan.resized.width - slot.width * cell.width) / 2);
    assert(plan.crop->0.y == (plan.resized.height - slot.height * cell.height) / 2);
    plan.resized
}

/// The cells that a card leaves for its image: no more than are configured, and beside the
/// text 37 columns and two rows of the card less, above it two columns less. There are none
/// where 37 columns or fewer are there for both, or fewer than 20 for the text alone, or no
/// row is left.
pub proof fn law_cells_left_for_the_image(
    settings: ImageSettings,
    columns: u16,
    identity_height: u16,
)
    ensures
        ({
            let slot = one_shot::image_slot(settings, columns, identity_height);
            let left = settings.position == ImagePosition::Left;
            &&& slot is Ok <==> (left ==> columns > 37) && (!left ==> columns >= 20)
                && settings.max_height_rows > 0 && (left ==> identity_height > 2)
            &&& slot is Ok ==> {
                let size = slot->Ok_0;
                &&& size.width <= settings.width_cells
                &&& size.height <= settings.max_height_rows
                &&& left ==> size.width + 37 <= columns && size.height + 2 <= identity_height
                &&& !left ==> size.width + 2 <= columns
                &&& size.width == settings.width_cells || (left && size.width + 37 == columns) || (
                !left && size.width + 2 == columns)
                &&& size.height == settings.max_height_rows || (left && size.height + 2
                    == identity_height)
            }
        }),
{
}

/// An image takes as few cells as hold its pixels, one at least, and no more than there
/// are for it.
pub proof fn law_as_few_cells_as_hold_the_pixels(pixels: u32, cell: u32, maximum: u16)
    requires
        cell > 0,
        maximum > 0,
        one_shot::cells_taken(pixels, cell, maximum) is Ok,
    ensures
        ({
            let taken = one_shot::cells_taken(pixels, cell, maximum)->Ok_0;
            &&& 1 <= taken <= maximum
            &&& taken < maximum ==> taken * cell >= pixels
            &&& taken > 1 ==> (taken - 1) * cell < pixels
        }),
{
    let p = pixels as int;
    let d = cell as int;
    let count = (p + d - 1) / d;
    vstd::arithmetic::div_mod::lemma_fundamental_div_mod(p + d - 1, d);
    let r = (p + d - 1) % d;
    assert((count - 1) * d < p <= count * d && count >= 0) by (nonlinear_arith)
        requires
            d > 0,
            p >= 0,
            0 <= r < d,
            p + d - 1 == d * count + r,
    ;
    let taken = one_shot::cells_taken(pixels, cell, maximum)->Ok_0;
    if taken > 1 {
        assert((taken - 1) * d <= (count - 1) * d) by (nonlinear_arith)
            requires
                taken <= count,
                d > 0,
        ;
    }
    if taken < maximum {
        assert(taken * d >= count * d) by (nonlinear_arith)
            requires
                taken >= count,
                d > 0,
        ;
    }
}

/// The protocol that was decided on gets the image in the configured cells: half blocks
/// the image itself, a protocol of pixels the image resized by the configured fit, whole
/// where that is to contain it and cut to the cells where it is to cover them; no image is
/// prepared where the text stands alone.
pub proof fn law_every_protocol_gets_its_image(
    decision: ProtocolDecision,
    image: RasterView,
    settings: ImageSettings,
    id: u32,
    cell_pixels: Option<CellPixels>,
)
    requires
        one_shot::prepared_of(decision, image, settings, id, cell_pixels) is Ok,
    ensures
        ({
            let prepared = one_shot::prepared_of(
                decision,
                image,
                settings,
                id,
                cell_pixels,
            )->Ok_0;
            let protocol = decision.protocol;
            let pixels = protocol == SelectedProtocol::Kitty || protocol == SelectedProtocol::Iterm2
                || protocol == SelectedProtocol::Sixel;
            let size = prepared->0.resize->0.resized;
            let whole = RasterView {
                width: size.width,
                height: size.height,
                pixels: raster::resized_pixels(image, size.width, size.height),
            };
            let crop = prepared->0.resize->0.crop;
            let part = raster::cropped(
                whole,
                crop->0.x,
                crop->0.y,
                (settings.width_cells * cell_pixels->0.width) as u32,
                (settings.max_height_rows * cell_pixels->0.height) as u32,
            );
            let shown = if settings.fit == ImageFit::Cover {
                part
            } else {
                whole
            };
            &&& prepared is None <==> protocol == SelectedProtocol::Off || protocol
                == SelectedProtocol::Text || protocol == SelectedProtocol::BoundedQueryRequired
            &&& prepared is Some ==> prepared->0.cells.width == settings.width_cells
                && prepared->0.cells.height == settings.max_height_rows
            &&& protocol == SelectedProtocol::Halfblocks ==> prepared->0.source == (
            FixedSource::Halfblocks { image, cells: prepared->0.cells })
            &&& pixels ==> cell_pixels is Some && prepared->0.resize is Some && (crop is Some
                <==> settings.fit == ImageFit::Cover) && in_ratio_within_a_pixel(
                size,
                PixelRect { width: image.width, height: image.height },
            )
            &&& protocol == SelectedProtocol::Kitty ==> prepared->0.source == (
            FixedSource::Kitty {
                image: shown,
                cells: prepared->0.cells,
                id,
                tmux: decision.is_tmux,
            })
            &&& protocol == SelectedProtocol::Iterm2 ==> prepared->0.source == (
            FixedSource::Iterm2 {
                image: shown,
                cells: prepared->0.cells,
                tmux: decision.is_tmux,
            })
            &&& protocol == SelectedProtocol::Sixel ==> prepared->0.source == (FixedSource::Sixel {
                image: shown,
                cells: prepared->0.cells,
                tmux: decision.is_tmux,
            })
        }),
{
    let protocol = decision.protocol;
    if protocol == SelectedProtocol::Kitty || protocol == SelectedProtocol::Iterm2 || protocol
        == SelectedProtocol::Sixel {
        law_plans_keep_the_ratio(
            PixelRect { width: image.width, height: image.height },
            PixelRect {
                width: settings.width_cells as u32,
                height: settings.max_height_rows as u32,
            },
            cell_pixels->0,
            settings.fit,
        );
    }
}

/// A frame that covers its cells has exactly their pixels: the middle of the frame,
/// resized in its ratio within a pixel.
pub proof fn law_covering_frames_fill_their_cells(
    source: RasterView,
    cells: Size,
    cell_pixels: CellPixels,
) -> (size: PixelRect)
    requires
        one_shot::covering(source, cells, cell_pixels) is Some,
    ensures
        ({
            let wide = cells.width * cell_pixels.width;
            let high = cells.height * cell_pixels.height;
            let whole = RasterView {
                width: size.width,
                height: size.height,
                pixels: raster::resized_pixels(source, size.width, size.height),
            };
            &&& one_shot::covering(source, cells, cell_pixels)->0 == raster::cropped(
                whole,
                ((size.width - wide) / 2) as u32,
                ((size.height - high) / 2) as u32,
                wide as u32,
                high as u32,
            )
            &&& wide <= size.width
            &&& high <= size.height
            &&& wide == size.width || high == size.height
            &&& in_ratio_within_a_pixel(
                size,
                PixelRect { width: source.width, height: source.height },
            )
        }),
{
    let size = PixelRect { width: source.width, height: source.height };
    let area = PixelRect { width: cells.width as u32, height: cells.height as u32 };
    law_plans_keep_the_ratio(size, area, cell_pixels, ImageFit::Cover);
    let plan = images::plan_of(size, area, cell_pixels, ImageFit::Cover)->Ok_0;
    assert(plan.crop->0.x == (plan.resized.width - cells.width * cell_pixels.width) / 2);
    assert(plan.crop->0.y == (plan.resized.height - cells.height * cell_pixels.height) / 2);
    plan.resized
}

/// Where image and text stand: the image at the top left, the text right of it over all
/// columns that are left, or below it over all columns. The whole is as high as both need,
/// and a text without a line takes one.
pub proof fn law_text_stands_beside_or_below_the_image(
    size: Size,
    cells: Size,
    position: ImagePosition,
    text_lines: u16,
)
    requires
        size.width >= one_shot::required_columns(cells, position),
        cells.width as int + 20 <= 0xffff,
        cells.height as int + text_lines < 0xffff,
    ensures
        one_shot::required_columns(cells, position) == if position == ImagePosition::Left {
            cells.width + 20
        } else {
            20
        },
        ({
            let layout = one_shot::placed(size, cells, position, text_lines);
            &&& layout.image.x == 0
            &&& layout.image.y == 0
            &&& layout.image.height == cells.height
            &&& text_lines > 0 ==> layout.text.height == text_lines
            &&& text_lines == 0 ==> layout.text.height == 1
            &&& layout.text.x + layout.text.width == size.width
            &&& position == ImagePosition::Left ==> layout.image.width == cells.width
                && layout.text.x == cells.width && layout.text.y == 0
            &&& position == ImagePosition::Top ==> layout.text.x == 0 && layout.text.y
                == cells.height && layout.image.width <= cells.width && layout.image.width
                <= size.width && (layout.image.width == cells.width || layout.image.width
                == size.width)
            &&& layout.height >= layout.image.height
            &&& layout.height >= layout.text.y + layout.text.height
            &&& layout.height == layout.image.height || layout.height == layout.text.y
                + layout.text.height
        }),
{
}

/// What is asked for is what is chosen, and a live view that is left to choose asks the
/// terminal.
pub proof fn law_requests_are_followed(
    mode: RenderMode,
    requested: Protocol,
    caps: TerminalCapabilities,
    decision: Result<ProtocolDecision, ImageError>,
)
    requires
        call_ensures(select_protocol, (mode, requested, caps), decision),
    ensures
        decision is Err <==> caps.stdout_tty && ((mode == RenderMode::Live && !caps.stdin_tty) || (
        mode == RenderMode::OneShot && requested == Protocol::Kitty && caps.cell_pixels is None)),
        decision is Ok ==> decision->Ok_0.is_tmux == caps.is_tmux,
        decision is Ok && !caps.stdout_tty ==> decision->Ok_0.protocol == SelectedProtocol::Off,
        decision is Ok && caps.stdout_tty ==> {
            let protocol = decision->Ok_0.protocol;
            &&& protocol == SelectedProtocol::Off <==> requested == Protocol::Off
            &&& protocol == SelectedProtocol::Halfblocks <==> requested == Protocol::Halfblocks
            &&& protocol == SelectedProtocol::Iterm2 <==> requested == Protocol::Iterm2
            &&& protocol == SelectedProtocol::Sixel <==> requested == Protocol::Sixel
            &&& protocol == SelectedProtocol::BoundedQueryRequired <==> requested == Protocol::Auto
                && mode == RenderMode::Live
            &&& protocol == SelectedProtocol::Kitty <==> requested == Protocol::Kitty || (requested
                == Protocol::Auto && mode == RenderMode::OneShot && caps.terminal
                == TerminalKind::Ghostty && caps.cell_pixels is Some && !caps.is_tmux)
        },
{
}

/// A frame stays for its delay in whole milliseconds, but no shorter and no longer than
/// the limits; a fraction over nothing is no delay.
pub proof fn law_delays_are_kept_between_the_limits(delay: (u32, u32), limits: Limits)
    requires
        limits.frame_min_delay_ms <= limits.frame_max_delay_ms,
    ensures
        ({
            let kept = images::clamped_delay(delay, limits);
            let told = kept * delay.1;
            &&& limits.frame_min_delay_ms <= kept <= limits.frame_max_delay_ms
            &&& delay.1 == 0 ==> kept == limits.frame_min_delay_ms
            &&& delay.1 > 0 && limits.frame_min_delay_ms < kept ==> told <= delay.0
            &&& delay.1 > 0 && kept < limits.frame_max_delay_ms ==> told + delay.1 > delay.0
        }),
{
    let kept = images::clamped_delay(delay, limits);
    if delay.1 > 0 {
        let raw = (delay.0 as u64 / delay.1 as u64) as int;
        let d = delay.1 as int;
        vstd::arithmetic::div_mod::lemma_fundamental_div_mod(delay.0 as int, d);
        let r = delay.0 as int % d;
        assert(delay.0 == d * raw + r);
        assert(raw * d <= delay.0 && raw * d + d > delay.0) by (nonlinear_arith)
            requires
                delay.0 == d * raw + r,
                0 <= r < d,
        ;
        if kept < limits.frame_max_delay_ms {
            assert(kept * d >= raw * d) by (nonlinear_arith)
                requires
                    kept >= raw,
                    d > 0,
            ;
        }
        if limits.frame_min_delay_ms < kept {
            assert(kept * d <= raw * d) by (nonlinear_arith)
                requires
                    kept <= raw,
                    d > 0,
            ;
        }
    }
}

/// A size is valid exactly where neither length is zero nor over the limit, and its pixels
/// of four bytes are no more bytes than may be decoded.
pub proof fn law_valid_sizes(width: u32, height: u32, limits: Limits)
    ensures
        images::size_fault(width, height, limits) is None <==> 0 < width
            <= limits.image_max_dimension_px && 0 < height <= limits.image_max_dimension_px && width
            * height * 4 <= limits.image_max_decoded_bytes,
        raster::pixel_bytes(width, height) == 4 * (width * height),
{
}

/// Every frame of an animation is kept, in order, with its own pixels: none is left out
/// and none is added.
pub proof fn law_every_frame_is_kept(
    steps: Seq<raster::FrameStepView>,
    kept: Seq<DecodedFrameView>,
    total: int,
    limits: Limits,
)
    requires
        images::animation_from(steps, kept, total, limits) is Ok,
        forall|i: int| 0 <= i < steps.len() ==> #[trigger] steps[i] is Frame,
    ensures
        ({
            let all = images::animation_from(steps, kept, total, limits)->Ok_0;
            &&& all.len() == kept.len() + steps.len()
            &&& forall|i: int| 0 <= i < kept.len() ==> #[trigger] all[i] == kept[i]
            &&& forall|i: int|
                0 <= i < steps.len() ==> (#[trigger] all[kept.len() + i]).image == steps[i]->raster
        }),
    decreases steps.len(),
{
    if steps.len() > 0 {
        assert(steps[0] is Frame);
        let raster = steps[0]->raster;
        let more = kept.push(
            DecodedFrameView {
                image: raster,
                delay_ms: images::clamped_delay(steps[0]->delay, limits),
            },
        );
        let rest = steps.skip(1);
        let larger = total + raster::pixel_bytes(raster.width, raster.height);
        assert forall|i: int| 0 <= i < rest.len() implies #[trigger] rest[i] is Frame by {
            assert(rest[i] == steps[i + 1]);
        }
        law_every_frame_is_kept(rest, more, larger, limits);
        let all = images::animation_from(steps, kept, total, limits)->Ok_0;
        assert forall|i: int| 0 <= i < steps.len() implies (#[trigger] all[kept.len() + i]).image
            == steps[i]->raster by {
            if i == 0 {
                assert(all[kept.len() as int] == more[kept.len() as int]);
            } else {
                assert(all[more.len() + (i - 1)].image == rest[i - 1]->raster);
            }
        }
        assert forall|i: int| 0 <= i < kept.len() implies #[trigger] all[i] == kept[i] by {
            assert(all[i] == more[i]);
        }
    }
}

} // verus!
