//! The card of one run: an image prepared for it, and the rows that it is.
use ratatui::layout::Size as TerminalSize;
use ratatui_image::protocol::halfblocks::Halfblocks;
use ratatui_image::protocol::iterm2::Iterm2;
use ratatui_image::protocol::kitty::Kitty;
use ratatui_image::protocol::sixel::Sixel;
use ratatui_image::protocol::Protocol as FixedProtocol;
use vstd::prelude::*;
use crate::config::{ImageFit, ImagePosition, ImageSettings};
use crate::limits::Limits;
use crate::render::cells;
use crate::render::images;
use crate::render::images::{
    resize_plan, CellPixels, DecodedImage, ImageError, ImageErrorView, ImageSession, PixelRect,
    ProtocolDecision, ResizePlan, SelectedProtocol,
};
use crate::render::kitty_one_shot;
use crate::render::kitty_one_shot::{serialize, SerializedImage};
use crate::render::raster;
use crate::render::raster::{crop, png_bytes, resize, Raster, RasterView};
use crate::render::terminal::{MIN_LEFT_IMAGE_COLUMNS, MIN_TEXT_COLUMNS};
use crate::render::text;
use crate::strings;
use crate::strings::decimal;

verus! {

#[derive(Clone, Debug)]
pub enum OneShotError {
    Image(ImageError),
    Backend(String),
    Narrow { available: u16, required: u16 },
}

pub enum OneShotErrorView {
    Image(ImageErrorView),
    Backend(Seq<char>),
    Narrow { available: u16, required: u16 },
}

impl View for OneShotError {
    type V = OneShotErrorView;

    open spec fn view(&self) -> OneShotErrorView {
        match *self {
            OneShotError::Image(error) => OneShotErrorView::Image(error@),
            OneShotError::Backend(message) => OneShotErrorView::Backend(message@),
            OneShotError::Narrow { available, required } => OneShotErrorView::Narrow {
                available,
                required,
            },
        }
    }
}

impl OneShotErrorView {
    pub open spec fn text(self) -> Seq<char> {
        match self {
            OneShotErrorView::Image(error) => error.text(),
            OneShotErrorView::Backend(message) => "cannot prepare terminal image: "@ + message,
            OneShotErrorView::Narrow { available, required } =>
                "terminal is too narrow for image and compact text ("@ + strings::decimal_text(
                available as nat,
            ) + " columns; need "@ + strings::decimal_text(required as nat) + ")"@,
        }
    }
}

impl OneShotError {
    /// The error as the user reads it.
    pub fn to_text(&self) -> (text: String)
        ensures
            text@ == self@.text(),
    {
        match self {
            OneShotError::Image(error) => error.to_text(),
            OneShotError::Backend(message) => "cannot prepare terminal image: ".to_owned().concat(
                message.as_str(),
            ),
            OneShotError::Narrow { available, required } =>
                "terminal is too narrow for image and compact text (".to_owned().concat(
                decimal(*available as u64).as_str(),
            ).concat(" columns; need ").concat(decimal(*required as u64).as_str()).concat(")"),
        }
    }
}

/// A number of columns and rows of cells.
#[derive(Clone, Copy, Debug, PartialEq, Eq, Structural)]
pub struct Size {
    pub width: u16,
    pub height: u16,
}

impl Size {
    pub fn new(width: u16, height: u16) -> (size: Self)
        ensures
            size == (Size { width, height }),
    {
        Size { width, height }
    }
}

/// Cells of a terminal, from a column and a row on.
#[derive(Clone, Copy, Debug, PartialEq, Eq, Structural)]
pub struct Rect {
    pub x: u16,
    pub y: u16,
    pub width: u16,
    pub height: u16,
}

impl Rect {
    pub fn new(x: u16, y: u16, width: u16, height: u16) -> (rect: Self)
        ensures
            rect == (Rect { x, y, width, height }),
    {
        Rect { x, y, width, height }
    }
}

#[derive(Clone, Copy, Debug, PartialEq, Eq, Structural)]
pub struct OneShotLayout {
    pub image: Rect,
    pub text: Rect,
    pub height: u16,
}

pub open spec fn capped_sum(left: u16, right: u16) -> u16 {
    if left + right > u16::MAX {
        u16::MAX
    } else {
        (left + right) as u16
    }
}

pub open spec fn larger(left: u16, right: u16) -> u16 {
    if left >= right {
        left
    } else {
        right
    }
}

pub open spec fn lesser(left: u16, right: u16) -> u16 {
    if left <= right {
        left
    } else {
        right
    }
}

/// The columns that image and text need.
pub open spec fn required_columns(cells: Size, position: ImagePosition) -> u16 {
    match position {
        ImagePosition::Left => capped_sum(cells.width, MIN_TEXT_COLUMNS),
        ImagePosition::Top => MIN_TEXT_COLUMNS,
    }
}

/// Where image and text stand on a terminal that is wide enough.
pub open spec fn placed(size: Size, cells: Size, position: ImagePosition, text_lines: u16) -> OneShotLayout {
    let lines = larger(text_lines, 1);
    match position {
        ImagePosition::Left => OneShotLayout {
            image: Rect { x: 0, y: 0, width: cells.width, height: cells.height },
            text: Rect {
                x: cells.width,
                y: 0,
                width: (size.width - cells.width) as u16,
                height: lines,
            },
            height: larger(cells.height, lines),
        },
        ImagePosition::Top => OneShotLayout {
            image: Rect {
                x: 0,
                y: 0,
                width: lesser(cells.width, size.width),
                height: cells.height,
            },
            text: Rect { x: 0, y: cells.height, width: size.width, height: lines },
            height: capped_sum(cells.height, lines),
        },
    }
}

/// Where image and text stand on a terminal, the image at the left of the text
/// or above it.
pub fn one_shot_layout(size: Size, cells: Size, position: ImagePosition, text_lines: u16) -> (layout:
    Result<OneShotLayout, OneShotError>)
    ensures
        match layout {
            Ok(layout) => size.width >= required_columns(cells, position) && layout == placed(
                size,
                cells,
                position,
                text_lines,
            ),
            Err(error) => size.width < required_columns(cells, position) && error@
                == (OneShotErrorView::Narrow {
                available: size.width,
                required: required_columns(cells, position),
            }),
        },
{
    let lines: u16 = if text_lines >= 1 {
        text_lines
    } else {
        1
    };
    match position {
        ImagePosition::Left => {
            let required: u16 = cells.width.saturating_add(MIN_TEXT_COLUMNS);
            if size.width < required {
                return Err(OneShotError::Narrow { available: size.width, required });
            }
            let height: u16 = if cells.height >= lines {
                cells.height
            } else {
                lines
            };
            Ok(
                OneShotLayout {
                    image: Rect::new(0, 0, cells.width, cells.height),
                    text: Rect::new(cells.width, 0, size.width - cells.width, lines),
                    height,
                },
            )
        },
        ImagePosition::Top => {
            if size.width < MIN_TEXT_COLUMNS {
                return Err(
                    OneShotError::Narrow { available: size.width, required: MIN_TEXT_COLUMNS },
                );
            }
            let width: u16 = if cells.width <= size.width {
                cells.width
            } else {
                size.width
            };
            Ok(
                OneShotLayout {
                    image: Rect::new(0, 0, width, cells.height),
                    text: Rect::new(0, cells.height, size.width, lines),
                    height: cells.height.saturating_add(lines),
                },
            )
        },
    }
}

/// No cell is of both rectangles.
pub open spec fn apart(first: Rect, second: Rect) -> bool {
    ||| first.x + first.width <= second.x
    ||| second.x + second.width <= first.x
    ||| first.y + first.height <= second.y
    ||| second.y + second.height <= first.y
}

/// Wherever there is a layout, image and text share no cell, both keep to the
/// terminal's width, the text has a column and a line at least, and, unless the
/// height is the largest there is, both keep to it.
pub proof fn law_image_and_text_are_apart(
    size: Size,
    cells: Size,
    position: ImagePosition,
    text_lines: u16,
)
    requires
        size.width >= required_columns(cells, position),
        cells.width <= u16::MAX - MIN_TEXT_COLUMNS,
    ensures
        ({
            let layout = placed(size, cells, position, text_lines);
            &&& apart(layout.image, layout.text)
            &&& layout.image.x + layout.image.width <= size.width
            &&& layout.text.x + layout.text.width <= size.width
            &&& layout.text.width >= MIN_TEXT_COLUMNS
            &&& layout.text.height >= 1
            &&& layout.height < u16::MAX ==> layout.image.y + layout.image.height <= layout.height
                && layout.text.y + layout.text.height <= layout.height
        }),
{
}

/// The size of an image after a plan: what is cut out, or all of it.
pub open spec fn planned_size(plan: ResizePlan) -> PixelRect {
    match plan.crop {
        Some(crop) => PixelRect { width: crop.width, height: crop.height },
        None => plan.resized,
    }
}

/// An image after a plan: resized, and cut.
pub open spec fn planned_image(source: RasterView, plan: ResizePlan) -> RasterView {
    let resized = RasterView {
        width: plan.resized.width,
        height: plan.resized.height,
        pixels: raster::resized_pixels(source, plan.resized.width, plan.resized.height),
    };
    match plan.crop {
        Some(crop) => raster::cropped(resized, crop.x, crop.y, crop.width, crop.height),
        None => resized,
    }
}

/// The part that a plan cuts out lies inside the resized image.
pub open spec fn crop_inside(plan: ResizePlan) -> bool {
    plan.crop is Some ==> plan.crop->0.x + plan.crop->0.width <= plan.resized.width
        && plan.crop->0.y + plan.crop->0.height <= plan.resized.height
}

fn resize_frame(source: &Raster, plan: ResizePlan) -> (image: Raster)
    requires
        source@.covered(),
        source.width > 0,
        source.height > 0,
        raster::resizable(source.width, plan.resized.width, plan.resized.height),
        crop_inside(plan),
    ensures
        image@ == planned_image(source@, plan),
        image@.exact(),
        image.width == planned_size(plan).width,
        image.height == planned_size(plan).height,
{
    let resized = resize(source, plan.resized.width, plan.resized.height);
    match plan.crop {
        Some(part) => {
            let image = crop(&resized, part.x, part.y, part.width, part.height);
            proof {
                assert(part.width * part.height >= 0) by (nonlinear_arith);
            }
            image
        },
        None => resized,
    }
}

fn can_resize(source_width: u32, width: u32, height: u32) -> (room: bool)
    ensures
        room == raster::resizable(source_width, width, height),
{
    let width: u64 = width as u64;
    let height: u64 = height as u64;
    let source: u64 = source_width as u64;
    assert(width * height <= 0xffff_ffff * 0xffff_ffff) by (nonlinear_arith)
        requires
            width <= 0xffff_ffff,
            height <= 0xffff_ffff,
    ;
    assert(source * height <= 0xffff_ffff * 0xffff_ffff) by (nonlinear_arith)
        requires
            source <= 0xffff_ffff,
            height <= 0xffff_ffff,
    ;
    let new: u128 = (width * height) as u128 * 4;
    let between: u128 = (source * height) as u128 * 16;
    new <= isize::MAX as u128 && between <= isize::MAX as u128
}

/// An image that covers so many cells: resized, and cut at two sides alike. There is none
/// where the geometry, or memory, does not allow it.
pub open spec fn covering(source: RasterView, cells: Size, cell_pixels: CellPixels) -> Option<
    RasterView,
> {
    let size = PixelRect { width: source.width, height: source.height };
    let area = PixelRect { width: cells.width as u32, height: cells.height as u32 };
    match images::plan_of(size, area, cell_pixels, ImageFit::Cover) {
        Ok(plan) => if raster::resizable(source.width, plan.resized.width, plan.resized.height) {
            Some(planned_image(source, plan))
        } else {
            None
        },
        Err(_) => None,
    }
}

/// What a live image that covers its cells shows of a frame: exactly as many pixels as the
/// cells have.
pub fn covering_frame(source: &Raster, cells: Size, cell_pixels: CellPixels) -> (frame: Option<
    Raster,
>)
    requires
        source@.covered(),
    ensures
        match frame {
            Some(frame) => covering(source@, cells, cell_pixels) == Some(frame@),
            None => covering(source@, cells, cell_pixels) is None,
        },
        frame is Some ==> frame->0@.exact() && frame->0.width == cells.width * cell_pixels.width
            && frame->0.height == cells.height * cell_pixels.height,
{
    let size = PixelRect { width: source.width, height: source.height };
    let area = PixelRect { width: cells.width as u32, height: cells.height as u32 };
    match resize_plan(size, area, cell_pixels, ImageFit::Cover) {
        Ok(plan) => {
            proof {
                images::law_plans_keep_to_the_target(size, area, cell_pixels, ImageFit::Cover);
            }
            if can_resize(source.width, plan.resized.width, plan.resized.height) {
                Some(resize_frame(source, plan))
            } else {
                None
            }
        },
        Err(_) => None,
    }
}

/// An image that the terminal shows in cells of its own.
#[verifier::external_type_specification]
#[verifier::external_body]
pub struct ExFixedProtocol(FixedProtocol);

/// What a fixed image is made from.
pub enum FixedSource {
    Halfblocks { image: RasterView, cells: Size },
    Kitty { image: RasterView, cells: Size, id: u32, tmux: bool },
    Iterm2 { image: RasterView, cells: Size, tmux: bool },
    Sixel { image: RasterView, cells: Size, tmux: bool },
}

/// The blocks of half a cell that ratatui-image makes of an image.
pub uninterp spec fn halfblocks_image(image: RasterView, cells: Size) -> FixedProtocol;

/// `Halfblocks::new` of ratatui-image: blocks of half a cell, in so many cells, of
/// the image. It never fails, and its colours depend on the image and the cells alone.
#[verifier::external_body]
fn halfblocks(image: &Raster, cells: Size) -> (protocol: FixedProtocol)
    requires
        image@.covered(),
        raster::resizable(image.width, cells.width as u32, (cells.height * 2) as u32),
        cells.width * cells.height * 16 <= isize::MAX,
    ensures
        protocol == halfblocks_image(image@, cells),
{
    let source = image::RgbaImage::from_raw(image.width, image.height, image.pixels.clone()).unwrap();
    let size = TerminalSize::new(cells.width, cells.height);
    FixedProtocol::Halfblocks(Halfblocks::new(source.into(), size).unwrap())
}

/// What an image of ratatui-image for the Kitty protocol holds: its pixels as it sends
/// them, its cells, its id, and whether it sends them through tmux.
pub uninterp spec fn kitty_source(protocol: FixedProtocol) -> FixedSource;

/// `Kitty::new` of ratatui-image, without compression: the image under an id, in so
/// many cells, with or without tmux in between. It never fails. Nothing is said of
/// whether the image was sent already, which a value keeps to itself.
#[verifier::external_body]
fn kitty(image: &Raster, cells: Size, id: u32, tmux: bool) -> (protocol: FixedProtocol)
    requires
        image@.exact(),
    ensures
        kitty_source(protocol) == (FixedSource::Kitty { image: image@, cells, id, tmux }),
{
    let source = image::RgbaImage::from_raw(image.width, image.height, image.pixels.clone()).unwrap();
    let size = TerminalSize::new(cells.width, cells.height);
    FixedProtocol::Kitty(Kitty::new(source.into(), size, id, tmux, false).unwrap())
}

/// The iTerm2 image that ratatui-image makes, or why it makes none.
pub uninterp spec fn iterm2_image(image: RasterView, cells: Size, tmux: bool) -> Result<
    FixedProtocol,
    Seq<char>,
>;

/// `Iterm2::new` of ratatui-image: the image in so many cells, with or without tmux
/// in between, or the error in words of encoding it. Both depend on these alone.
#[verifier::external_body]
fn iterm2(image: &Raster, cells: Size, tmux: bool) -> (protocol: Result<FixedProtocol, String>)
    requires
        image@.exact(),
    ensures
        raster::outcome_words(protocol) == iterm2_image(image@, cells, tmux),
{
    let source = image::RgbaImage::from_raw(image.width, image.height, image.pixels.clone()).unwrap();
    let size = TerminalSize::new(cells.width, cells.height);
    Iterm2::new(source.into(), size, tmux).map(FixedProtocol::ITerm2).map_err(|error| error.to_string())
}

/// The sixel image that ratatui-image makes, or why it makes none.
pub uninterp spec fn sixel_image(image: RasterView, cells: Size, tmux: bool) -> Result<
    FixedProtocol,
    Seq<char>,
>;

/// `Sixel::new` of ratatui-image: the image in so many cells, with or without tmux
/// in between, or the error in words of encoding it. Both depend on these alone.
#[verifier::external_body]
fn sixel(image: &Raster, cells: Size, tmux: bool) -> (protocol: Result<FixedProtocol, String>)
    requires
        image@.exact(),
    ensures
        raster::outcome_words(protocol) == sixel_image(image@, cells, tmux),
{
    let source = image::RgbaImage::from_raw(image.width, image.height, image.pixels.clone()).unwrap();
    let size = TerminalSize::new(cells.width, cells.height);
    Sixel::new(source.into(), size, tmux).map(FixedProtocol::Sixel).map_err(|error| error.to_string())
}

/// A fixed image is the one that is made from a source.
pub open spec fn made_from(protocol: FixedProtocol, source: FixedSource) -> bool {
    match source {
        FixedSource::Halfblocks { image, cells } => protocol == halfblocks_image(image, cells),
        FixedSource::Kitty { .. } => kitty_source(protocol) == source,
        FixedSource::Iterm2 { image, cells, tmux } => iterm2_image(image, cells, tmux) == Ok::<
            FixedProtocol,
            Seq<char>,
        >(protocol),
        FixedSource::Sixel { image, cells, tmux } => sixel_image(image, cells, tmux) == Ok::<
            FixedProtocol,
            Seq<char>,
        >(protocol),
    }
}

pub struct PreparedImage {
    pub protocol: FixedProtocol,
    pub cells: Size,
    pub resize: Option<ResizePlan>,
}

pub enum OneShotPrepared {
    Image(PreparedImage),
    TextFallback,
}

pub struct PreparedView {
    pub source: FixedSource,
    pub cells: Size,
    pub resize: Option<ResizePlan>,
}

/// The plan that brings an image to the configured cells.
pub open spec fn settings_plan(image: RasterView, settings: ImageSettings, cell: CellPixels) -> Result<
    ResizePlan,
    ImageErrorView,
> {
    images::plan_of(
        PixelRect { width: image.width, height: image.height },
        PixelRect {
            width: settings.width_cells as u32,
            height: settings.max_height_rows as u32,
        },
        cell,
        settings.fit,
    )
}

/// What is prepared of an image: nothing where the text stands alone, half blocks as
/// it is, and for a protocol of pixels the image resized to its cells, which needs to
/// know the pixels of one.
pub open spec fn prepared_of(
    decision: ProtocolDecision,
    image: RasterView,
    settings: ImageSettings,
    id: u32,
    cell_pixels: Option<CellPixels>,
) -> Result<Option<PreparedView>, OneShotErrorView> {
    let cells = Size { width: settings.width_cells, height: settings.max_height_rows };
    match decision.protocol {
        SelectedProtocol::Off | SelectedProtocol::Text | SelectedProtocol::BoundedQueryRequired =>
            Ok(None),
        SelectedProtocol::Halfblocks => Ok(
            Some(
                PreparedView {
                    source: FixedSource::Halfblocks { image, cells },
                    cells,
                    resize: None,
                },
            ),
        ),
        _ => match cell_pixels {
            None => Err(
                OneShotErrorView::Image(
                    ImageErrorView::InvalidGeometry(
                        "pixel protocols require non-query cell pixel geometry"@,
                    ),
                ),
            ),
            Some(cell) => match settings_plan(image, settings, cell) {
                Err(error) => Err(OneShotErrorView::Image(error)),
                Ok(plan) => {
                    let planned = planned_image(image, plan);
                    let tmux = decision.is_tmux;
                    let source = match decision.protocol {
                        SelectedProtocol::Iterm2 => FixedSource::Iterm2 {
                            image: planned,
                            cells,
                            tmux,
                        },
                        SelectedProtocol::Sixel => FixedSource::Sixel {
                            image: planned,
                            cells,
                            tmux,
                        },
                        _ => FixedSource::Kitty { image: planned, cells, id, tmux },
                    };
                    if decision.protocol == SelectedProtocol::Iterm2 && iterm2_image(
                        planned,
                        cells,
                        tmux,
                    ) is Err {
                        Err(OneShotErrorView::Backend(iterm2_image(planned, cells, tmux)->Err_0))
                    } else if decision.protocol == SelectedProtocol::Sixel && sixel_image(
                        planned,
                        cells,
                        tmux,
                    ) is Err {
                        Err(OneShotErrorView::Backend(sixel_image(planned, cells, tmux)->Err_0))
                    } else {
                        Ok(Some(PreparedView { source, cells, resize: Some(plan) }))
                    }
                },
            },
        },
    }
}

/// What was prepared is what is to be prepared.
pub open spec fn is_prepared(
    prepared: Result<OneShotPrepared, OneShotError>,
    expected: Result<Option<PreparedView>, OneShotErrorView>,
) -> bool {
    match prepared {
        Ok(OneShotPrepared::Image(image)) => expected matches Ok(Some(view)) && made_from(
            image.protocol,
            view.source,
        ) && image.cells == view.cells && image.resize == view.resize,
        Ok(OneShotPrepared::TextFallback) => expected == Ok::<
            Option<PreparedView>,
            OneShotErrorView,
        >(None),
        Err(error) => expected == Err::<Option<PreparedView>, OneShotErrorView>(error@),
    }
}

/// Memory has room for the image in the sizes that preparing it passes through.
pub open spec fn preparable(
    image: RasterView,
    settings: ImageSettings,
    cell_pixels: Option<CellPixels>,
) -> bool {
    &&& raster::resizable(
        image.width,
        settings.width_cells as u32,
        (settings.max_height_rows * 2) as u32,
    )
    &&& settings.width_cells * settings.max_height_rows * 16 <= isize::MAX
    &&& cell_pixels is Some && settings_plan(image, settings, cell_pixels->0) is Ok ==> {
        let plan = settings_plan(image, settings, cell_pixels->0)->Ok_0;
        raster::resizable(image.width, plan.resized.width, plan.resized.height)
    }
}

/// Prepares the image for the protocol that was decided on.
pub fn prepare_one_shot(
    decision: ProtocolDecision,
    decoded: &DecodedImage,
    settings: &ImageSettings,
    session: &ImageSession,
    cell_pixels: Option<CellPixels>,
) -> (prepared: Result<OneShotPrepared, OneShotError>)
    requires
        decoded.first_frame@.covered(),
        cell_pixels is Some ==> cell_pixels->0.nonzero(),
        preparable(decoded.first_frame@, *settings, cell_pixels),
    ensures
        is_prepared(
            prepared,
            prepared_of(decision, decoded.first_frame@, *settings, session.id, cell_pixels),
        ),
{
    let cells = Size::new(settings.width_cells, settings.max_height_rows);
    let frame = &decoded.first_frame;
    match decision.protocol {
        SelectedProtocol::Off | SelectedProtocol::Text | SelectedProtocol::BoundedQueryRequired => {
            return Ok(OneShotPrepared::TextFallback);
        },
        SelectedProtocol::Halfblocks => {
            return Ok(
                OneShotPrepared::Image(
                    PreparedImage { protocol: halfblocks(frame, cells), cells, resize: None },
                ),
            );
        },
        _ => {},
    }
    let cell = match cell_pixels {
        Some(cell) => cell,
        None => {
            return Err(
                OneShotError::Image(
                    ImageError::InvalidGeometry(
                        "pixel protocols require non-query cell pixel geometry",
                    ),
                ),
            );
        },
    };
    let plan = match resize_plan(
        PixelRect { width: frame.width, height: frame.height },
        PixelRect {
            width: settings.width_cells as u32,
            height: settings.max_height_rows as u32,
        },
        cell,
        settings.fit,
    ) {
        Ok(plan) => plan,
        Err(error) => {
            return Err(OneShotError::Image(error));
        },
    };
    proof {
        images::law_plans_keep_to_the_target(
            PixelRect { width: frame.width, height: frame.height },
            PixelRect {
                width: settings.width_cells as u32,
                height: settings.max_height_rows as u32,
            },
            cell,
            settings.fit,
        );
    }
    let image = resize_frame(frame, plan);
    let protocol = match decision.protocol {
        SelectedProtocol::Iterm2 => match iterm2(&image, cells, decision.is_tmux) {
            Ok(protocol) => protocol,
            Err(message) => {
                return Err(OneShotError::Backend(message));
            },
        },
        SelectedProtocol::Sixel => match sixel(&image, cells, decision.is_tmux) {
            Ok(protocol) => protocol,
            Err(message) => {
                return Err(OneShotError::Backend(message));
            },
        },
        _ => kitty(&image, cells, session.id, decision.is_tmux),
    };
    Ok(OneShotPrepared::Image(PreparedImage { protocol, cells, resize: Some(plan) }))
}

/// The PNG of an image, where it is no larger than a file may be.
pub open spec fn encoded_png(image: RasterView, limits: Limits) -> Result<
    Seq<u8>,
    OneShotErrorView,
> {
    match raster::png_encoding(image) {
        Ok(bytes) => if bytes.len() > limits.image_max_file_bytes {
            Err(OneShotErrorView::Image(ImageErrorView::Limit("file bytes"@)))
        } else {
            Ok(bytes)
        },
        Err(message) => Err(OneShotErrorView::Backend(message)),
    }
}

/// Encodes an image as a PNG that is no larger than a file may be.
pub fn encode_png(image: &Raster, limits: &Limits) -> (png: Result<Vec<u8>, OneShotError>)
    requires
        image@.exact(),
    ensures
        match png {
            Ok(bytes) => encoded_png(image@, *limits) == Ok::<Seq<u8>, OneShotErrorView>(bytes@),
            Err(error) => encoded_png(image@, *limits) == Err::<Seq<u8>, OneShotErrorView>(error@),
        },
{
    keep_png(png_bytes(image), limits)
}

/// Bytes that were encoded, or not, where they are no more than a file may hold.
pub fn keep_png(encoded: Result<Vec<u8>, String>, limits: &Limits) -> (png: Result<
    Vec<u8>,
    OneShotError,
>)
    ensures
        match encoded {
            Ok(bytes) => if bytes@.len() > limits.image_max_file_bytes {
                png is Err && png->Err_0@ == OneShotErrorView::Image(
                    ImageErrorView::Limit("file bytes"@),
                )
            } else {
                png == Ok::<Vec<u8>, OneShotError>(bytes)
            },
            Err(message) => png is Err && png->Err_0@ == OneShotErrorView::Backend(message@),
        },
{
    match encoded {
        Ok(bytes) => if bytes.len() as u64 > limits.image_max_file_bytes {
            Err(OneShotError::Image(ImageError::Limit("file bytes")))
        } else {
            Ok(bytes)
        },
        Err(message) => Err(OneShotError::Backend(message)),
    }
}

/// The cells that so many pixels take, at least one and no more than there are.
pub open spec fn cells_taken(pixels: u32, cell: u32, maximum: u16) -> Result<u16, OneShotErrorView> {
    let count = (pixels + cell - 1) / cell as int;
    if pixels + cell - 1 > u32::MAX || count > u16::MAX {
        Err(OneShotErrorView::Image(ImageErrorView::InvalidGeometry("cell geometry overflows"@)))
    } else if count < 1 {
        Ok(1)
    } else if count > maximum {
        Ok(maximum)
    } else {
        Ok(count as u16)
    }
}

fn cells_for(pixels: u32, cell: u32, maximum: u16) -> (taken: Result<u16, OneShotError>)
    requires
        cell > 0,
        maximum > 0,
    ensures
        match taken {
            Ok(count) => cells_taken(pixels, cell, maximum) == Ok::<u16, OneShotErrorView>(count),
            Err(error) => cells_taken(pixels, cell, maximum) == Err::<u16, OneShotErrorView>(
                error@,
            ),
        },
{
    let sum = match pixels.checked_add(cell - 1) {
        Some(sum) => sum,
        None => {
            return Err(OneShotError::Image(ImageError::InvalidGeometry("cell geometry overflows")));
        },
    };
    let count: u32 = sum / cell;
    if count > u16::MAX as u32 {
        return Err(OneShotError::Image(ImageError::InvalidGeometry("cell geometry overflows")));
    }
    if count < 1 {
        Ok(1)
    } else if count > maximum as u32 {
        Ok(maximum)
    } else {
        Ok(count as u16)
    }
}

/// The image of a size takes no more bytes than decoded images may.
pub open spec fn affordable(size: PixelRect, limits: Limits) -> bool {
    raster::pixel_bytes(size.width, size.height) <= limits.image_max_decoded_bytes
}

fn ensure_image_bytes(size: PixelRect, limits: &Limits) -> (ensured: Result<(), OneShotError>)
    ensures
        match ensured {
            Ok(()) => affordable(size, *limits),
            Err(error) => !affordable(size, *limits) && error@ == OneShotErrorView::Image(
                ImageErrorView::Limit("decoded bytes"@),
            ),
        },
{
    match images::frame_bytes(size.width, size.height) {
        Ok(bytes) => if bytes > limits.image_max_decoded_bytes {
            Err(OneShotError::Image(ImageError::Limit("decoded bytes")))
        } else {
            Ok(())
        },
        Err(error) => Err(OneShotError::Image(error)),
    }
}

/// The cells that a card of so many columns, whose identity has so many rows, leaves
/// for an image.
pub open spec fn image_slot(settings: ImageSettings, columns: u16, identity_height: u16) -> Result<
    Size,
    OneShotErrorView,
> {
    let spent: u16 = match settings.position {
        ImagePosition::Left => 37,
        ImagePosition::Top => 2,
    };
    let required = match settings.position {
        ImagePosition::Left => MIN_LEFT_IMAGE_COLUMNS,
        ImagePosition::Top => MIN_TEXT_COLUMNS,
    };
    if columns < spent {
        Err(OneShotErrorView::Narrow { available: columns, required })
    } else if columns == spent || columns < MIN_TEXT_COLUMNS {
        Err(OneShotErrorView::Narrow { available: columns, required: MIN_TEXT_COLUMNS })
    } else {
        let height = match settings.position {
            ImagePosition::Left => lesser(
                settings.max_height_rows,
                if identity_height >= 2 {
                    (identity_height - 2) as u16
                } else {
                    0
                },
            ),
            ImagePosition::Top => settings.max_height_rows,
        };
        if height == 0 {
            Err(OneShotErrorView::Narrow { available: identity_height, required: 3 })
        } else {
            Ok(Size { width: lesser(settings.width_cells, (columns - spent) as u16), height })
        }
    }
}

fn find_slot(settings: &ImageSettings, columns: u16, identity_height: u16) -> (slot: Result<
    Size,
    OneShotError,
>)
    ensures
        match slot {
            Ok(size) => image_slot(*settings, columns, identity_height) == Ok::<
                Size,
                OneShotErrorView,
            >(size),
            Err(error) => image_slot(*settings, columns, identity_height) == Err::<
                Size,
                OneShotErrorView,
            >(error@),
        },
{
    let max_columns: u16 = match settings.position {
        ImagePosition::Left => match columns.checked_sub(37) {
            Some(rest) => rest,
            None => {
                return Err(
                    OneShotError::Narrow { available: columns, required: MIN_LEFT_IMAGE_COLUMNS },
                );
            },
        },
        ImagePosition::Top => match columns.checked_sub(2) {
            Some(rest) => rest,
            None => {
                return Err(
                    OneShotError::Narrow { available: columns, required: MIN_TEXT_COLUMNS },
                );
            },
        },
    };
    if max_columns == 0 || columns < MIN_TEXT_COLUMNS {
        return Err(OneShotError::Narrow { available: columns, required: MIN_TEXT_COLUMNS });
    }
    let width: u16 = if settings.width_cells <= max_columns {
        settings.width_cells
    } else {
        max_columns
    };
    let height: u16 = match settings.position {
        ImagePosition::Left => {
            let rows: u16 = identity_height.saturating_sub(2);
            if settings.max_height_rows <= rows {
                settings.max_height_rows
            } else {
                rows
            }
        },
        ImagePosition::Top => settings.max_height_rows,
    };
    if height == 0 {
        return Err(OneShotError::Narrow { available: identity_height, required: 3 });
    }
    Ok(Size { width, height })
}

/// The plan that brings an image into a slot.
pub open spec fn slot_plan(image: RasterView, slot: Size, cell: CellPixels, fit: ImageFit) -> Result<
    ResizePlan,
    ImageErrorView,
> {
    images::plan_of(
        PixelRect { width: image.width, height: image.height },
        PixelRect { width: slot.width as u32, height: slot.height as u32 },
        cell,
        fit,
    )
}

/// The plan for an image on a card, with the slot that it is for.
pub open spec fn kitty_plan(
    image: RasterView,
    settings: ImageSettings,
    limits: Limits,
    cell: CellPixels,
    columns: u16,
    identity_height: u16,
) -> Result<(ResizePlan, Size), OneShotErrorView> {
    match image_slot(settings, columns, identity_height) {
        Err(error) => Err(error),
        Ok(slot) => match slot_plan(image, slot, cell, settings.fit) {
            Err(error) => Err(OneShotErrorView::Image(error)),
            Ok(plan) => if !affordable(plan.resized, limits) || !affordable(
                planned_size(plan),
                limits,
            ) {
                Err(OneShotErrorView::Image(ImageErrorView::Limit("decoded bytes"@)))
            } else {
                Ok((plan, slot))
            },
        },
    }
}

/// The cells that a planned image takes of its slot.
pub open spec fn kitty_cells(plan: ResizePlan, slot: Size, cell: CellPixels) -> Result<
    Size,
    OneShotErrorView,
> {
    match cells_taken(planned_size(plan).width, cell.width, slot.width) {
        Err(error) => Err(error),
        Ok(width) => match cells_taken(planned_size(plan).height, cell.height, slot.height) {
            Err(error) => Err(error),
            Ok(height) => Ok(Size { width, height }),
        },
    }
}

/// Where bytes can be sent as an image in cells of such a size.
pub open spec fn transmittable(png: Seq<u8>, cells: Size) -> bool {
    &&& png.len() > 0
    &&& 1 <= cells.width <= 256
    &&& 1 <= cells.height <= 256
    &&& png.len() + 2 <= usize::MAX
    &&& kitty_one_shot::base64_length(png) <= usize::MAX
}

/// How an image is sent, and the rows that show it.
pub struct SerializedView {
    pub transfer: Seq<u8>,
    pub placeholder_rows: Seq<Seq<char>>,
}

impl View for SerializedImage {
    type V = SerializedView;

    open spec fn view(&self) -> SerializedView {
        SerializedView {
            transfer: self.transfer@,
            placeholder_rows: strings::texts(self.placeholder_rows@),
        }
    }
}

pub open spec fn sent(png: Seq<u8>, id: u32, cells: Size, tmux: bool) -> SerializedView {
    SerializedView {
        transfer: kitty_one_shot::transfer_of(
            kitty_one_shot::base64_text(png),
            kitty_one_shot::command_count(kitty_one_shot::base64_length(png)),
            id,
            cells.width,
            cells.height,
            tmux,
        ),
        placeholder_rows: kitty_one_shot::placeholder_rows_of(
            id,
            cells.width as nat,
            cells.height as nat,
        ),
    }
}

/// The image of a card as it is sent: resized to its slot, encoded, and numbered.
pub open spec fn kitty_prepared(
    image: RasterView,
    settings: ImageSettings,
    limits: Limits,
    cell: CellPixels,
    columns: u16,
    identity_height: u16,
    id: u32,
    tmux: bool,
) -> Result<(SerializedView, Size), OneShotErrorView> {
    match kitty_plan(image, settings, limits, cell, columns, identity_height) {
        Err(error) => Err(error),
        Ok(planned) => match kitty_cells(planned.0, planned.1, cell) {
            Err(error) => Err(error),
            Ok(cells) => match encoded_png(planned_image(image, planned.0), limits) {
                Err(error) => Err(error),
                Ok(png) => if !transmittable(png, cells) {
                    Err(
                        OneShotErrorView::Image(ImageErrorView::Limit("one-shot image transport"@)),
                    )
                } else {
                    Ok((sent(png, id, cells, tmux), cells))
                },
            },
        },
    }
}

/// Memory has room for the sizes that the image of a card passes through.
pub open spec fn kitty_preparable(
    image: RasterView,
    settings: ImageSettings,
    limits: Limits,
    cell: CellPixels,
    columns: u16,
    identity_height: u16,
) -> bool {
    match kitty_plan(image, settings, limits, cell, columns, identity_height) {
        Ok(planned) => raster::resizable(
            image.width,
            planned.0.resized.width,
            planned.0.resized.height,
        ),
        Err(_) => true,
    }
}

pub open spec fn kitty_view(prepared: Result<(SerializedImage, Size), OneShotError>) -> Result<
    (SerializedView, Size),
    OneShotErrorView,
> {
    match prepared {
        Ok(pair) => Ok((pair.0@, pair.1)),
        Err(error) => Err(error@),
    }
}

/// Sends an encoded image in cells of its own.
pub fn transmit(png: &Vec<u8>, id: u32, cells: Size, tmux: bool) -> (sending: Result<
    (SerializedImage, Size),
    OneShotError,
>)
    ensures
        kitty_view(sending) == if !transmittable(png@, cells) {
            Err(OneShotErrorView::Image(ImageErrorView::Limit("one-shot image transport"@)))
        } else {
            Ok((sent(png@, id, cells, tmux), cells))
        },
{
    match serialize(png.as_slice(), id, cells.width, cells.height, tmux) {
        Ok(serialized) => Ok((serialized, cells)),
        Err(_) => Err(OneShotError::Image(ImageError::Limit("one-shot image transport"))),
    }
}

fn plan_kitty(
    image: &Raster,
    settings: &ImageSettings,
    limits: &Limits,
    cell: CellPixels,
    columns: u16,
    identity_height: u16,
) -> (planned: Result<(ResizePlan, Size), OneShotError>)
    ensures
        match planned {
            Ok(pair) => kitty_plan(
                image@,
                *settings,
                *limits,
                cell,
                columns,
                identity_height,
            ) == Ok::<(ResizePlan, Size), OneShotErrorView>(pair),
            Err(error) => kitty_plan(
                image@,
                *settings,
                *limits,
                cell,
                columns,
                identity_height,
            ) == Err::<(ResizePlan, Size), OneShotErrorView>(error@),
        },
{
    let slot = match find_slot(settings, columns, identity_height) {
        Ok(slot) => slot,
        Err(error) => {
            return Err(error);
        },
    };
    let plan = match resize_plan(
        PixelRect { width: image.width, height: image.height },
        PixelRect { width: slot.width as u32, height: slot.height as u32 },
        cell,
        settings.fit,
    ) {
        Ok(plan) => plan,
        Err(error) => {
            return Err(OneShotError::Image(error));
        },
    };
    match ensure_image_bytes(plan.resized, limits) {
        Ok(()) => {},
        Err(error) => {
            return Err(error);
        },
    }
    if let Some(part) = plan.crop {
        match ensure_image_bytes(PixelRect { width: part.width, height: part.height }, limits) {
            Ok(()) => {},
            Err(error) => {
                return Err(error);
            },
        }
    }
    Ok((plan, slot))
}

/// Whether memory has room for the sizes that the image of a card passes through.
pub fn has_memory_for(
    decoded: &DecodedImage,
    settings: &ImageSettings,
    limits: &Limits,
    cell_pixels: CellPixels,
    terminal_columns: u16,
    identity_height: u16,
) -> (room: bool)
    ensures
        room == kitty_preparable(
            decoded.first_frame@,
            *settings,
            *limits,
            cell_pixels,
            terminal_columns,
            identity_height,
        ),
{
    let frame = &decoded.first_frame;
    match plan_kitty(frame, settings, limits, cell_pixels, terminal_columns, identity_height) {
        Ok((plan, _)) => {
            can_resize(frame.width, plan.resized.width, plan.resized.height)
        },
        Err(_) => true,
    }
}

/// Fully prepares the query-free Kitty stream before stdout is touched.
pub fn prepare_kitty_one_shot(
    decoded: &DecodedImage,
    settings: &ImageSettings,
    limits: &Limits,
    cell_pixels: CellPixels,
    terminal_columns: u16,
    identity_height: u16,
    id: u32,
    tmux: bool,
) -> (prepared: Result<(SerializedImage, Size), OneShotError>)
    requires
        decoded.first_frame@.covered(),
        cell_pixels.nonzero(),
        kitty_preparable(
            decoded.first_frame@,
            *settings,
            *limits,
            cell_pixels,
            terminal_columns,
            identity_height,
        ),
    ensures
        kitty_view(prepared) == kitty_prepared(
            decoded.first_frame@,
            *settings,
            *limits,
            cell_pixels,
            terminal_columns,
            identity_height,
            id,
            tmux,
        ),
{
    let frame = &decoded.first_frame;
    let (plan, slot) = match plan_kitty(
        frame,
        settings,
        limits,
        cell_pixels,
        terminal_columns,
        identity_height,
    ) {
        Ok(planned) => planned,
        Err(error) => {
            return Err(error);
        },
    };
    proof {
        images::law_plans_keep_to_the_target(
            PixelRect { width: frame.width, height: frame.height },
            PixelRect { width: slot.width as u32, height: slot.height as u32 },
            cell_pixels,
            settings.fit,
        );
    }
    let transformed = resize_frame(frame, plan);
    let width = match cells_for(transformed.width, cell_pixels.width, slot.width) {
        Ok(width) => width,
        Err(error) => {
            return Err(error);
        },
    };
    let height = match cells_for(transformed.height, cell_pixels.height, slot.height) {
        Ok(height) => height,
        Err(error) => {
            return Err(error);
        },
    };
    match encode_png(&transformed, limits) {
        Ok(png) => transmit(&png, id, Size { width, height }, tmux),
        Err(error) => Err(error),
    }
}

/// A prepared image keeps to the slot that its card leaves: no wider, no higher, and
/// one cell at least in each direction.
pub proof fn law_prepared_images_keep_to_their_slot(
    image: RasterView,
    settings: ImageSettings,
    limits: Limits,
    cell: CellPixels,
    columns: u16,
    identity_height: u16,
    id: u32,
    tmux: bool,
)
    requires
        cell.nonzero(),
        kitty_prepared(image, settings, limits, cell, columns, identity_height, id, tmux) is Ok,
    ensures
        ({
            let prepared = kitty_prepared(
                image,
                settings,
                limits,
                cell,
                columns,
                identity_height,
                id,
                tmux,
            )->Ok_0;
            &&& image_slot(settings, columns, identity_height) is Ok
            &&& 1 <= prepared.1.width <= image_slot(settings, columns, identity_height)->Ok_0.width
            &&& 1 <= prepared.1.height <= image_slot(
                settings,
                columns,
                identity_height,
            )->Ok_0.height
            &&& settings.position == ImagePosition::Left ==> prepared.1.width + 37 <= columns
                && prepared.1.height + 2 <= identity_height
            &&& settings.position == ImagePosition::Top ==> prepared.1.width + 2 <= columns
            &&& prepared.0.placeholder_rows.len() == prepared.1.height
        }),
{
}

} // verus!
