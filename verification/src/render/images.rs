//! Bounded image decoding and terminal-independent protocol decisions.
use vstd::prelude::*;
use crate::cli::Protocol;
use crate::config::ImageFit;
use crate::limits::Limits;
use crate::render::raster;
use crate::render::raster::{
    decode_still, gif_frames, guess_format, is_animated_png, next_frame, png_frames,
    read_dimensions, webp_frames, FrameStep, FrameStepView, ImageFormat, Raster, RasterView,
};

verus! {

#[derive(Clone, Copy, Debug, PartialEq, Eq, Structural)]
pub enum RenderMode {
    OneShot,
    Live,
}

#[derive(Clone, Copy, Debug, PartialEq, Eq, Structural)]
pub enum TerminalKind {
    Ghostty,
    Iterm2,
    Other,
}

/// The pixels of one cell of the terminal.
#[derive(Clone, Copy, Debug, PartialEq, Eq, Structural)]
pub struct CellPixels {
    pub width: u32,
    pub height: u32,
}

impl CellPixels {
    pub open spec fn nonzero(self) -> bool {
        self.width > 0 && self.height > 0
    }

    pub fn new(width: u32, height: u32) -> (cell: Result<Self, ImageError>)
        ensures
            match cell {
                Ok(cell) => width > 0 && height > 0 && cell == (CellPixels { width, height }),
                Err(error) => (width == 0 || height == 0) && error@
                    == ImageErrorView::InvalidGeometry("cell pixels must be nonzero"@),
            },
    {
        if width == 0 || height == 0 {
            return Err(ImageError::InvalidGeometry("cell pixels must be nonzero"));
        }
        Ok(CellPixels { width, height })
    }
}

#[derive(Clone, Copy, Debug, PartialEq, Eq, Structural)]
pub struct TerminalCapabilities {
    pub stdin_tty: bool,
    pub stdout_tty: bool,
    pub terminal: TerminalKind,
    pub cell_pixels: Option<CellPixels>,
    pub is_tmux: bool,
}

#[derive(Clone, Copy, Debug, PartialEq, Eq, Structural)]
pub enum SelectedProtocol {
    /// No image at all.
    Off,
    Text,
    Halfblocks,
    Kitty,
    Iterm2,
    Sixel,
    BoundedQueryRequired,
}

#[derive(Clone, Copy, Debug, PartialEq, Eq, Structural)]
pub struct ProtocolDecision {
    pub protocol: SelectedProtocol,
    pub is_tmux: bool,
}

#[derive(Clone, Debug)]
pub enum ImageError {
    Io { path: String, message: String },
    UnsupportedFormat,
    Decode(String),
    Limit(&'static str),
    MissingGeometry { protocol: Protocol },
    InvalidGeometry(&'static str),
    LiveRequiresTtys,
}

pub enum ImageErrorView {
    Io { path: Seq<char>, message: Seq<char> },
    UnsupportedFormat,
    Decode(Seq<char>),
    Limit(Seq<char>),
    MissingGeometry(Protocol),
    InvalidGeometry(Seq<char>),
    LiveRequiresTtys,
}

impl View for ImageError {
    type V = ImageErrorView;

    open spec fn view(&self) -> ImageErrorView {
        match *self {
            ImageError::Io { path, message } => ImageErrorView::Io {
                path: path@,
                message: message@,
            },
            ImageError::UnsupportedFormat => ImageErrorView::UnsupportedFormat,
            ImageError::Decode(message) => ImageErrorView::Decode(message@),
            ImageError::Limit(limit) => ImageErrorView::Limit(limit@),
            ImageError::MissingGeometry { protocol } => ImageErrorView::MissingGeometry(protocol),
            ImageError::InvalidGeometry(message) => ImageErrorView::InvalidGeometry(message@),
            ImageError::LiveRequiresTtys => ImageErrorView::LiveRequiresTtys,
        }
    }
}

pub open spec fn protocol_text(protocol: Protocol) -> Seq<char> {
    match protocol {
        Protocol::Auto => "Auto"@,
        Protocol::Kitty => "Kitty"@,
        Protocol::Iterm2 => "Iterm2"@,
        Protocol::Sixel => "Sixel"@,
        Protocol::Halfblocks => "Halfblocks"@,
        Protocol::Off => "None"@,
    }
}

impl ImageErrorView {
    pub open spec fn text(self) -> Seq<char> {
        match self {
            ImageErrorView::Io { path, message } => "cannot read image "@ + path + ": "@ + message,
            ImageErrorView::UnsupportedFormat => "image format must be PNG, JPEG, GIF, or WebP"@,
            ImageErrorView::Decode(message) => "cannot decode image: "@ + message,
            ImageErrorView::Limit(limit) => "image exceeds configured "@ + limit + " limit"@,
            ImageErrorView::MissingGeometry(protocol) => protocol_text(protocol)
                + " images require configured cell pixel geometry"@,
            ImageErrorView::InvalidGeometry(message) => message,
            ImageErrorView::LiveRequiresTtys =>
                "live image display requires both stdin and stdout to be TTYs"@,
        }
    }
}

impl ImageError {
    /// The error as the user reads it.
    pub fn to_text(&self) -> (text: String)
        ensures
            text@ == self@.text(),
    {
        match self {
            ImageError::Io { path, message } => "cannot read image ".to_owned().concat(
                path.as_str(),
            ).concat(": ").concat(message.as_str()),
            ImageError::UnsupportedFormat =>
                "image format must be PNG, JPEG, GIF, or WebP".to_owned(),
            ImageError::Decode(message) => "cannot decode image: ".to_owned().concat(
                message.as_str(),
            ),
            ImageError::Limit(limit) => "image exceeds configured ".to_owned().concat(limit).concat(
                " limit",
            ),
            ImageError::MissingGeometry { protocol } => {
                let name = match protocol {
                    Protocol::Auto => "Auto",
                    Protocol::Kitty => "Kitty",
                    Protocol::Iterm2 => "Iterm2",
                    Protocol::Sixel => "Sixel",
                    Protocol::Halfblocks => "Halfblocks",
                    Protocol::Off => "None",
                };
                name.to_owned().concat(" images require configured cell pixel geometry")
            },
            ImageError::InvalidGeometry(message) => (*message).to_owned(),
            ImageError::LiveRequiresTtys =>
                "live image display requires both stdin and stdout to be TTYs".to_owned(),
        }
    }
}

/// The protocol for a terminal whose streams allow one.
pub open spec fn chosen_protocol(
    mode: RenderMode,
    requested: Protocol,
    caps: TerminalCapabilities,
) -> SelectedProtocol {
    match requested {
        Protocol::Off => SelectedProtocol::Off,
        Protocol::Halfblocks => SelectedProtocol::Halfblocks,
        Protocol::Kitty => SelectedProtocol::Kitty,
        Protocol::Iterm2 => SelectedProtocol::Iterm2,
        Protocol::Sixel => SelectedProtocol::Sixel,
        Protocol::Auto => if mode == RenderMode::Live {
            SelectedProtocol::BoundedQueryRequired
        } else if caps.terminal == TerminalKind::Ghostty && caps.cell_pixels is Some
            && !caps.is_tmux {
            SelectedProtocol::Kitty
        } else {
            SelectedProtocol::Text
        },
    }
}

/// A card that is left to choose has an image only where the terminal is known to show it:
/// Ghostty, with the pixels of a cell known, and nothing in between.
pub proof fn law_automatic_cards_are_cautious(caps: TerminalCapabilities)
    ensures
        chosen_protocol(RenderMode::OneShot, Protocol::Auto, caps) == SelectedProtocol::Kitty
            <==> caps.terminal == TerminalKind::Ghostty && caps.cell_pixels is Some
            && !caps.is_tmux,
        chosen_protocol(RenderMode::OneShot, Protocol::Auto, caps) == SelectedProtocol::Kitty
            || chosen_protocol(RenderMode::OneShot, Protocol::Auto, caps)
            == SelectedProtocol::Text,
{
}

/// How an image is shown, if at all. Output that is no terminal shows none,
/// whatever was asked for; the live view needs a terminal on both sides; a Kitty
/// image in one shot needs to know the pixels of a cell.
pub fn select_protocol(
    mode: RenderMode,
    requested: Protocol,
    caps: TerminalCapabilities,
) -> (decision: Result<ProtocolDecision, ImageError>)
    ensures
        match decision {
            Ok(decision) => {
                &&& decision.is_tmux == caps.is_tmux
                &&& if !caps.stdout_tty {
                    decision.protocol == SelectedProtocol::Off
                } else {
                    &&& mode == RenderMode::Live ==> caps.stdin_tty
                    &&& mode == RenderMode::OneShot && requested == Protocol::Kitty
                        ==> caps.cell_pixels is Some
                    &&& decision.protocol == chosen_protocol(mode, requested, caps)
                }
            },
            Err(error) => {
                &&& caps.stdout_tty
                &&& if mode == RenderMode::Live {
                    !caps.stdin_tty && error@ == ImageErrorView::LiveRequiresTtys
                } else {
                    &&& requested == Protocol::Kitty
                    &&& caps.cell_pixels is None
                    &&& error@ == ImageErrorView::MissingGeometry(Protocol::Kitty)
                }
            },
        },
{
    if !caps.stdout_tty {
        return Ok(ProtocolDecision { protocol: SelectedProtocol::Off, is_tmux: caps.is_tmux });
    }
    if mode == RenderMode::Live && !caps.stdin_tty {
        return Err(ImageError::LiveRequiresTtys);
    }
    let protocol = match requested {
        Protocol::Off => SelectedProtocol::Off,
        Protocol::Halfblocks => SelectedProtocol::Halfblocks,
        Protocol::Auto => {
            if mode == RenderMode::Live {
                SelectedProtocol::BoundedQueryRequired
            } else if caps.terminal == TerminalKind::Ghostty && caps.cell_pixels.is_some()
                && !caps.is_tmux {
                SelectedProtocol::Kitty
            } else {
                SelectedProtocol::Text
            }
        },
        Protocol::Kitty => {
            if mode == RenderMode::OneShot && caps.cell_pixels.is_none() {
                return Err(ImageError::MissingGeometry { protocol: Protocol::Kitty });
            }
            SelectedProtocol::Kitty
        },
        Protocol::Iterm2 => SelectedProtocol::Iterm2,
        Protocol::Sixel => SelectedProtocol::Sixel,
    };
    Ok(ProtocolDecision { protocol, is_tmux: caps.is_tmux })
}

#[derive(Clone, Debug)]
pub struct DecodedFrame {
    pub image: Raster,
    pub delay_ms: u64,
}

pub struct DecodedFrameView {
    pub image: RasterView,
    pub delay_ms: u64,
}

impl View for DecodedFrame {
    type V = DecodedFrameView;

    open spec fn view(&self) -> DecodedFrameView {
        DecodedFrameView { image: self.image@, delay_ms: self.delay_ms }
    }
}

/// A still image, or the frames of an animation; the first frame stands apart in
/// either.
#[derive(Clone, Debug)]
pub struct DecodedImage {
    pub format: ImageFormat,
    pub first_frame: Raster,
    pub frames: Vec<DecodedFrame>,
}

pub struct DecodedImageView {
    pub format: ImageFormat,
    pub first_frame: RasterView,
    pub frames: Seq<DecodedFrameView>,
}

pub open spec fn frame_views(frames: Seq<DecodedFrame>) -> Seq<DecodedFrameView> {
    frames.map_values(|frame: DecodedFrame| frame@)
}

impl View for DecodedImage {
    type V = DecodedImageView;

    open spec fn view(&self) -> DecodedImageView {
        DecodedImageView {
            format: self.format,
            first_frame: self.first_frame@,
            frames: frame_views(self.frames@),
        }
    }
}

pub open spec fn decoded_view(decoded: Result<DecodedImage, ImageError>) -> Result<
    DecodedImageView,
    ImageErrorView,
> {
    match decoded {
        Ok(image) => Ok(image@),
        Err(error) => Err(error@),
    }
}

/// The delay of a frame in whole milliseconds, kept between the two limits. A
/// fraction over nothing is no delay.
pub open spec fn clamped_delay(delay: (u32, u32), limits: Limits) -> u64 {
    let raw = if delay.1 == 0 {
        0u64
    } else {
        delay.0 as u64 / delay.1 as u64
    };
    if raw < limits.frame_min_delay_ms {
        limits.frame_min_delay_ms
    } else if raw > limits.frame_max_delay_ms {
        limits.frame_max_delay_ms
    } else {
        raw
    }
}

fn delay_between(delay: (u32, u32), limits: &Limits) -> (clamped: u64)
    ensures
        clamped == clamped_delay(delay, *limits),
{
    let raw: u64 = if delay.1 == 0 {
        0
    } else {
        delay.0 as u64 / delay.1 as u64
    };
    if raw < limits.frame_min_delay_ms {
        limits.frame_min_delay_ms
    } else if raw > limits.frame_max_delay_ms {
        limits.frame_max_delay_ms
    } else {
        raw
    }
}

pub fn clamp_delay(delay: (u32, u32), limits: &Limits) -> (clamped: u64)
    requires
        limits.frame_min_delay_ms <= limits.frame_max_delay_ms,
    ensures
        clamped == clamped_delay(delay, *limits),
        limits.frame_min_delay_ms <= clamped <= limits.frame_max_delay_ms,
{
    delay_between(delay, limits)
}

/// What is wrong with the size of an image, if anything.
pub open spec fn size_fault(width: u32, height: u32, limits: Limits) -> Option<ImageErrorView> {
    if width == 0 || height == 0 || width > limits.image_max_dimension_px || height
        > limits.image_max_dimension_px {
        Some(ImageErrorView::Limit("dimensions"@))
    } else if raster::pixel_bytes(width, height) > limits.image_max_decoded_bytes {
        Some(ImageErrorView::Limit("decoded bytes"@))
    } else {
        None
    }
}

/// The bytes of an image of this size, where 64 bits count them.
pub fn frame_bytes(width: u32, height: u32) -> (bytes: Result<u64, ImageError>)
    ensures
        match bytes {
            Ok(bytes) => bytes == raster::pixel_bytes(width, height),
            Err(error) => raster::pixel_bytes(width, height) > u64::MAX && error@
                == ImageErrorView::Limit("decoded bytes"@),
        },
{
    assert(0 <= width * height <= 0xffff_ffff * 0xffff_ffff) by (nonlinear_arith)
        requires
            0 <= width <= 0xffff_ffff,
            0 <= height <= 0xffff_ffff,
    ;
    match (width as u64 * height as u64).checked_mul(4) {
        Some(bytes) => Ok(bytes),
        None => Err(ImageError::Limit("decoded bytes")),
    }
}

pub fn validate_dimensions(width: u32, height: u32, limits: &Limits) -> (valid: Result<
    (),
    ImageError,
>)
    ensures
        match valid {
            Ok(()) => size_fault(width, height, *limits) is None,
            Err(error) => size_fault(width, height, *limits) == Some(error@),
        },
{
    if width == 0 || height == 0 || width > limits.image_max_dimension_px || height
        > limits.image_max_dimension_px {
        return Err(ImageError::Limit("dimensions"));
    }
    match frame_bytes(width, height) {
        Ok(bytes) => if bytes > limits.image_max_decoded_bytes {
            Err(ImageError::Limit("decoded bytes"))
        } else {
            Ok(())
        },
        Err(error) => Err(error),
    }
}

/// The frames that an animation gives within the limits, those already kept in
/// front: as many as may be, each of a valid size, and all of them together no
/// larger than one image may be.
pub open spec fn animation_from(
    steps: Seq<FrameStepView>,
    kept: Seq<DecodedFrameView>,
    total: int,
    limits: Limits,
) -> Result<Seq<DecodedFrameView>, ImageErrorView>
    decreases steps.len(),
{
    if steps.len() == 0 || steps[0] is End {
        Ok(kept)
    } else if kept.len() >= limits.image_max_frames {
        Err(ImageErrorView::Limit("frames"@))
    } else {
        match steps[0] {
            FrameStepView::Frame { raster, delay } => {
                let larger = total + raster::pixel_bytes(raster.width, raster.height);
                match size_fault(raster.width, raster.height, limits) {
                    Some(fault) => Err(fault),
                    None => if larger > limits.image_max_decoded_bytes {
                        Err(ImageErrorView::Limit("decoded bytes"@))
                    } else {
                        animation_from(
                            steps.skip(1),
                            kept.push(
                                DecodedFrameView {
                                    image: raster,
                                    delay_ms: clamped_delay(delay, limits),
                                },
                            ),
                            larger,
                            limits,
                        )
                    },
                }
            },
            FrameStepView::Failed(message) => Err(ImageErrorView::Decode(message)),
            FrameStepView::End => Ok(kept),
        }
    }
}

pub open spec fn animation(steps: Seq<FrameStepView>, limits: Limits) -> Result<
    Seq<DecodedFrameView>,
    ImageErrorView,
> {
    animation_from(steps, Seq::empty(), 0, limits)
}

/// Every frame holds all of its pixels.
pub open spec fn frames_covered(frames: Seq<DecodedFrame>) -> bool {
    forall|i: int| 0 <= i < frames.len() ==> (#[trigger] frames[i]).image@.covered()
}

fn decode_animation(source: image::Frames<'_>, limits: &Limits) -> (decoded: Result<
    Vec<DecodedFrame>,
    ImageError,
>)
    requires
        raster::frames_left(source).len() > 0,
    ensures
        match decoded {
            Ok(kept) => animation(raster::frames_left(source), *limits) == Ok::<
                Seq<DecodedFrameView>,
                ImageErrorView,
            >(frame_views(kept@)) && frames_covered(kept@),
            Err(error) => animation(raster::frames_left(source), *limits) == Err::<
                Seq<DecodedFrameView>,
                ImageErrorView,
            >(error@),
        },
{
    let ghost all = raster::frames_left(source);
    let mut frames = source;
    let mut kept: Vec<DecodedFrame> = Vec::new();
    let mut total: u64 = 0;
    assert(frame_views(kept@) =~= Seq::empty());
    loop
        invariant
            raster::frames_left(frames).len() > 0,
                frames_covered(kept@),
            all == raster::frames_left(source),
            animation(all, *limits) == animation_from(
                raster::frames_left(frames),
                frame_views(kept@),
                total as int,
                *limits,
            ),
        decreases raster::frames_left(frames).len(),
    {
        let step = next_frame(&mut frames);
        match step {
            FrameStep::End => {
                return Ok(kept);
            },
            FrameStep::Failed(message) => {
                if kept.len() as u64 >= limits.image_max_frames as u64 {
                    return Err(ImageError::Limit("frames"));
                }
                return Err(ImageError::Decode(message));
            },
            FrameStep::Frame(frame) => {
                if kept.len() as u64 >= limits.image_max_frames as u64 {
                    return Err(ImageError::Limit("frames"));
                }
                let delay_ms = delay_between(frame.delay, limits);
                let image = frame.raster;
                match validate_dimensions(image.width, image.height, limits) {
                    Ok(()) => {},
                    Err(error) => {
                        return Err(error);
                    },
                }
                let bytes = match frame_bytes(image.width, image.height) {
                    Ok(bytes) => bytes,
                    Err(error) => {
                        return Err(error);
                    },
                };
                let larger = match total.checked_add(bytes) {
                    Some(larger) => larger,
                    None => {
                        return Err(ImageError::Limit("decoded bytes"));
                    },
                };
                if larger > limits.image_max_decoded_bytes {
                    return Err(ImageError::Limit("decoded bytes"));
                }
                let ghost before = kept@;
                kept.push(DecodedFrame { image, delay_ms });
                assert(frame_views(kept@) =~= frame_views(before).push(kept@.last()@));
                total = larger;
            },
        }
    }
}

/// The bytes of all frames.
pub open spec fn frames_bytes(frames: Seq<DecodedFrameView>) -> int
    decreases frames.len(),
{
    if frames.len() == 0 {
        0
    } else {
        frames_bytes(frames.drop_last()) + raster::pixel_bytes(
            frames.last().image.width,
            frames.last().image.height,
        )
    }
}

/// The frames that bytes of one of the formats hold: none for a still image.
pub open spec fn frames_of(bytes: Seq<u8>, format: ImageFormat, limits: Limits) -> Result<
    Seq<DecodedFrameView>,
    ImageErrorView,
> {
    match format {
        ImageFormat::Gif => match raster::gif_animation(bytes) {
            Ok(steps) => animation(steps, limits),
            Err(message) => Err(ImageErrorView::Decode(message)),
        },
        ImageFormat::WebP => match raster::webp_animation(bytes) {
            Ok(steps) => animation(steps, limits),
            Err(message) => Err(ImageErrorView::Decode(message)),
        },
        ImageFormat::Png => match raster::png_animated(bytes) {
            Ok(true) => match raster::png_animation(bytes) {
                Ok(steps) => animation(steps, limits),
                Err(message) => Err(ImageErrorView::Decode(message)),
            },
            Ok(false) => Ok(Seq::empty()),
            Err(message) => Err(ImageErrorView::Decode(message)),
        },
        _ => Ok(Seq::empty()),
    }
}

/// What is kept of decoded frames, of which there is at least one. The first one
/// is kept twice, and counts twice.
pub open spec fn kept_animation(
    format: ImageFormat,
    frames: Seq<DecodedFrameView>,
    limits: Limits,
) -> Result<DecodedImageView, ImageErrorView> {
    let first = frames[0].image;
    if raster::pixel_bytes(first.width, first.height) + frames_bytes(frames)
        > limits.image_max_decoded_bytes {
        Err(ImageErrorView::Limit("decoded bytes"@))
    } else {
        Ok(DecodedImageView { format, first_frame: first, frames })
    }
}

/// What is kept of a still image.
pub open spec fn kept_still(
    format: ImageFormat,
    still: Result<RasterView, Seq<char>>,
    limits: Limits,
) -> Result<DecodedImageView, ImageErrorView> {
    match still {
        Err(message) => Err(ImageErrorView::Decode(message)),
        Ok(image) => match size_fault(image.width, image.height, limits) {
            Some(fault) => Err(fault),
            None => Ok(
                DecodedImageView { format, first_frame: image, frames: Seq::empty() },
            ),
        },
    }
}

/// The image that bytes hold, or why none is made of them: too many bytes, no
/// known format, no readable size, a size over the limits, a broken frame, or
/// more pixels than may be kept, in this order.
pub open spec fn image_of(bytes: Seq<u8>, limits: Limits) -> Result<
    DecodedImageView,
    ImageErrorView,
> {
    if bytes.len() > limits.image_max_file_bytes {
        Err(ImageErrorView::Limit("file bytes"@))
    } else {
        match raster::guessed_format(bytes) {
            None => Err(ImageErrorView::UnsupportedFormat),
            Some(ImageFormat::Other) => Err(ImageErrorView::UnsupportedFormat),
            Some(format) => match raster::image_dimensions(bytes, format) {
                Err(message) => Err(ImageErrorView::Decode(message)),
                Ok(size) => match size_fault(size.0, size.1, limits) {
                    Some(fault) => Err(fault),
                    None => match frames_of(bytes, format, limits) {
                        Err(error) => Err(error),
                        Ok(frames) => if frames.len() == 0 {
                            kept_still(format, raster::still_image(bytes, format), limits)
                        } else {
                            kept_animation(format, frames, limits)
                        },
                    },
                },
            },
        }
    }
}

fn decode_frames(bytes: &[u8], format: ImageFormat, limits: &Limits) -> (decoded: Result<
    Vec<DecodedFrame>,
    ImageError,
>)
    ensures
        match decoded {
            Ok(kept) => frames_of(bytes@, format, *limits) == Ok::<
                Seq<DecodedFrameView>,
                ImageErrorView,
            >(frame_views(kept@)) && frames_covered(kept@),
            Err(error) => frames_of(bytes@, format, *limits) == Err::<
                Seq<DecodedFrameView>,
                ImageErrorView,
            >(error@),
        },
{
    let frames = match format {
        ImageFormat::Gif => match gif_frames(bytes) {
            Ok(frames) => frames,
            Err(message) => {
                return Err(ImageError::Decode(message));
            },
        },
        ImageFormat::WebP => match webp_frames(bytes) {
            Ok(frames) => frames,
            Err(message) => {
                return Err(ImageError::Decode(message));
            },
        },
        ImageFormat::Png => match is_animated_png(bytes) {
            Ok(true) => match png_frames(bytes) {
                Ok(frames) => frames,
                Err(message) => {
                    return Err(ImageError::Decode(message));
                },
            },
            Ok(false) => {
                let none: Vec<DecodedFrame> = Vec::new();
                assert(frame_views(none@) =~= Seq::empty());
                return Ok(none);
            },
            Err(message) => {
                return Err(ImageError::Decode(message));
            },
        },
        _ => {
            let none: Vec<DecodedFrame> = Vec::new();
            assert(frame_views(none@) =~= Seq::empty());
            return Ok(none);
        },
    };
    decode_animation(frames, limits)
}

/// What is kept of a still image that was decoded, or not.
pub fn keep_still(format: ImageFormat, still: Result<Raster, String>, limits: &Limits) -> (kept:
    Result<DecodedImage, ImageError>)
    ensures
        decoded_view(kept) == kept_still(format, raster::raster_words(still), *limits),
        kept is Ok ==> still is Ok && kept->Ok_0.first_frame == still->Ok_0,
{
    match still {
        Err(message) => Err(ImageError::Decode(message)),
        Ok(image) => match validate_dimensions(image.width, image.height, limits) {
            Err(error) => Err(error),
            Ok(()) => {
                let frames: Vec<DecodedFrame> = Vec::new();
                assert(frame_views(frames@) =~= Seq::empty());
                Ok(DecodedImage { format, first_frame: image, frames })
            },
        },
    }
}

/// What is kept of the frames of an animation.
pub fn keep_animation(format: ImageFormat, frames: Vec<DecodedFrame>, limits: &Limits) -> (kept:
    Result<DecodedImage, ImageError>)
    requires
        frames@.len() > 0,
    ensures
        decoded_view(kept) == kept_animation(format, frame_views(frames@), *limits),
        kept is Ok ==> kept->Ok_0.frames == frames && kept->Ok_0.first_frame@ == frames@[0].image@,
{
    let ghost views = frame_views(frames@);
    let first_frame = frames[0].image.copy();
    let first = match frame_bytes(first_frame.width, first_frame.height) {
        Ok(bytes) => bytes,
        Err(error) => {
            proof {
                lemma_frames_bytes_positive(views);
            }
            return Err(error);
        },
    };
    let mut total: u64 = first;
    let mut at: usize = 0;
    while at < frames.len()
        invariant
            at <= frames@.len(),
            views == frame_views(frames@),
            frames@.len() > 0,
            views.len() == frames@.len(),
            first == raster::pixel_bytes(views[0].image.width, views[0].image.height),
            total == first + frames_bytes(views.take(at as int)),
        decreases frames@.len() - at,
    {
        proof {
            assert(views.take(at as int + 1).drop_last() =~= views.take(at as int));
            lemma_frames_bytes_grow(views, at as int + 1);
        }
        let bytes = match frame_bytes(frames[at].image.width, frames[at].image.height) {
            Ok(bytes) => bytes,
            Err(error) => {
                return Err(error);
            },
        };
        total = match total.checked_add(bytes) {
            Some(larger) => larger,
            None => {
                return Err(ImageError::Limit("decoded bytes"));
            },
        };
        at += 1;
    }
    assert(views.take(at as int) =~= views);
    if total > limits.image_max_decoded_bytes {
        return Err(ImageError::Limit("decoded bytes"));
    }
    Ok(DecodedImage { format, first_frame, frames })
}

proof fn lemma_frames_bytes_positive(frames: Seq<DecodedFrameView>)
    ensures
        frames_bytes(frames) >= 0,
    decreases frames.len(),
{
    if frames.len() > 0 {
        lemma_frames_bytes_positive(frames.drop_last());
        let last = frames.last().image;
        assert(last.width * last.height >= 0) by (nonlinear_arith);
    }
}

/// The frames up to one of them take no more bytes than all of them.
proof fn lemma_frames_bytes_grow(frames: Seq<DecodedFrameView>, to: int)
    requires
        0 <= to <= frames.len(),
    ensures
        0 <= frames_bytes(frames.take(to)) <= frames_bytes(frames),
    decreases frames.len() - to,
{
    lemma_frames_bytes_positive(frames.take(to));
    if to < frames.len() {
        lemma_frames_bytes_grow(frames, to + 1);
        assert(frames.take(to + 1).drop_last() =~= frames.take(to));
        let last = frames.take(to + 1).last().image;
        assert(last.width * last.height >= 0) by (nonlinear_arith);
    } else {
        assert(frames.take(to) =~= frames);
    }
}

/// Decodes the bytes of an image file within the limits.
pub fn load_image_bytes(bytes: &[u8], limits: &Limits) -> (decoded: Result<
    DecodedImage,
    ImageError,
>)
    ensures
        decoded_view(decoded) == image_of(bytes@, *limits),
        decoded is Ok ==> decoded->Ok_0.first_frame@.covered(),
        decoded is Ok ==> frames_covered(decoded->Ok_0.frames@),
{
    if bytes.len() as u64 > limits.image_max_file_bytes {
        return Err(ImageError::Limit("file bytes"));
    }
    let format = match guess_format(bytes) {
        Some(ImageFormat::Other) => {
            return Err(ImageError::UnsupportedFormat);
        },
        Some(format) => format,
        None => {
            return Err(ImageError::UnsupportedFormat);
        },
    };
    let size = match read_dimensions(bytes, format) {
        Ok(size) => size,
        Err(message) => {
            return Err(ImageError::Decode(message));
        },
    };
    match validate_dimensions(size.0, size.1, limits) {
        Ok(()) => {},
        Err(error) => {
            return Err(error);
        },
    }
    let frames = match decode_frames(bytes, format, limits) {
        Ok(frames) => frames,
        Err(error) => {
            return Err(error);
        },
    };
    if frames.len() == 0 {
        keep_still(format, decode_still(bytes, format), limits)
    } else {
        keep_animation(format, frames, limits)
    }
}

/// Decodes the logo that the program carries, as any other image.
pub fn load_bundled_logo(logo: &[u8], limits: &Limits) -> (decoded: Result<
    DecodedImage,
    ImageError,
>)
    ensures
        decoded_view(decoded) == image_of(logo@, *limits),
        decoded is Ok ==> decoded->Ok_0.first_frame@.covered(),
        decoded is Ok ==> frames_covered(decoded->Ok_0.frames@),
{
    load_image_bytes(logo, limits)
}

/// What opening and reading an image file gave.
#[derive(Clone, Debug, PartialEq, Eq)]
pub enum ImageRead {
    NotRegular,
    OpenFailed(String),
    ReadFailed(String),
    /// The file's bytes, or as many of them as one more than the limit.
    Bytes(Vec<u8>),
}

/// How many bytes of an image file are read at most: one more than the limit, so
/// that a larger file shows.
pub fn image_read_limit(limits: &Limits) -> (limit: Option<u64>)
    ensures
        limit == if limits.image_max_file_bytes == u64::MAX {
            None
        } else {
            Some((limits.image_max_file_bytes + 1) as u64)
        },
{
    limits.image_max_file_bytes.checked_add(1)
}

/// The image that a file holds, or why there is none.
pub open spec fn image_read(path: Seq<char>, read: ImageRead, limits: Limits) -> Result<
    DecodedImageView,
    ImageErrorView,
> {
    match read {
        ImageRead::NotRegular => Err(
            ImageErrorView::Io { path, message: "image path is not a regular file"@ },
        ),
        ImageRead::OpenFailed(message) => Err(ImageErrorView::Io { path, message: message@ }),
        ImageRead::ReadFailed(message) => if limits.image_max_file_bytes == u64::MAX {
            Err(ImageErrorView::Limit("file bytes"@))
        } else {
            Err(ImageErrorView::Io { path, message: message@ })
        },
        ImageRead::Bytes(bytes) => if limits.image_max_file_bytes == u64::MAX {
            Err(ImageErrorView::Limit("file bytes"@))
        } else {
            image_of(bytes@, limits)
        },
    }
}

/// Makes an image of what opening and reading its file gave.
pub fn load_image(path: &str, read: ImageRead, limits: &Limits) -> (decoded: Result<
    DecodedImage,
    ImageError,
>)
    ensures
        decoded_view(decoded) == image_read(path@, read, *limits),
        decoded is Ok ==> decoded->Ok_0.first_frame@.covered(),
        decoded is Ok ==> frames_covered(decoded->Ok_0.frames@),
{
    match read {
        ImageRead::NotRegular => Err(
            ImageError::Io {
                path: path.to_owned(),
                message: "image path is not a regular file".to_owned(),
            },
        ),
        ImageRead::OpenFailed(message) => Err(ImageError::Io { path: path.to_owned(), message }),
        ImageRead::ReadFailed(message) => if image_read_limit(limits).is_none() {
            Err(ImageError::Limit("file bytes"))
        } else {
            Err(ImageError::Io { path: path.to_owned(), message })
        },
        ImageRead::Bytes(bytes) => if image_read_limit(limits).is_none() {
            Err(ImageError::Limit("file bytes"))
        } else {
            load_image_bytes(bytes.as_slice(), limits)
        },
    }
}

#[derive(Clone, Copy, Debug, PartialEq, Eq, Structural)]
pub struct PixelRect {
    pub width: u32,
    pub height: u32,
}

#[derive(Clone, Copy, Debug, PartialEq, Eq, Structural)]
pub struct Crop {
    pub x: u32,
    pub y: u32,
    pub width: u32,
    pub height: u32,
}

/// How an image is brought to the pixels of its cells.
#[derive(Clone, Copy, Debug, PartialEq, Eq, Structural)]
pub struct ResizePlan {
    pub target: PixelRect,
    pub resized: PixelRect,
    pub crop: Option<Crop>,
}

/// A length in the ratio of two others, rounded up.
pub open spec fn in_ratio(value: u32, numerator: u32, denominator: u32) -> int {
    (value * numerator + denominator - 1) / denominator as int
}

fn scaled(value: u32, numerator: u32, denominator: u32) -> (length: Result<u32, ImageError>)
    requires
        denominator > 0,
    ensures
        match length {
            Ok(length) => length == in_ratio(value, numerator, denominator),
            Err(error) => in_ratio(value, numerator, denominator) > u32::MAX && error@
                == ImageErrorView::InvalidGeometry("resize overflows"@),
        },
{
    assert(0 <= value * numerator <= 0xffff_ffff * 0xffff_ffff) by (nonlinear_arith)
        requires
            0 <= value <= 0xffff_ffff,
            0 <= numerator <= 0xffff_ffff,
    ;
    let product: u64 = value as u64 * numerator as u64;
    let rounded: u64 = (product + (denominator as u64 - 1)) / denominator as u64;
    if rounded > u32::MAX as u64 {
        Err(ImageError::InvalidGeometry("resize overflows"))
    } else {
        Ok(rounded as u32)
    }
}

/// The width of the image decides its scale: where it is to fit inside, because
/// the target is narrower than the image; where it is to cover, because it is wider.
pub open spec fn width_decides(source: PixelRect, target: PixelRect, fit: ImageFit) -> bool {
    (fit == ImageFit::Contain) == (target.width * source.height <= target.height * source.width)
}

pub open spec fn plan_of(
    source: PixelRect,
    cells: PixelRect,
    cell_pixels: CellPixels,
    fit: ImageFit,
) -> Result<ResizePlan, ImageErrorView> {
    if source.width == 0 || source.height == 0 || cells.width == 0 || cells.height == 0 {
        Err(ImageErrorView::InvalidGeometry("image and cell rectangles must be nonzero"@))
    } else if cells.width * cell_pixels.width > u32::MAX {
        Err(ImageErrorView::InvalidGeometry("pixel width overflows"@))
    } else if cells.height * cell_pixels.height > u32::MAX {
        Err(ImageErrorView::InvalidGeometry("pixel height overflows"@))
    } else {
        let target = PixelRect {
            width: (cells.width * cell_pixels.width) as u32,
            height: (cells.height * cell_pixels.height) as u32,
        };
        let size = if width_decides(source, target, fit) {
            (target.width as int, in_ratio(source.height, target.width, source.width))
        } else {
            (in_ratio(source.width, target.height, source.height), target.height as int)
        };
        if size.0 > u32::MAX || size.1 > u32::MAX {
            Err(ImageErrorView::InvalidGeometry("resize overflows"@))
        } else {
            let resized = PixelRect { width: size.0 as u32, height: size.1 as u32 };
            Ok(
                ResizePlan {
                    target,
                    resized,
                    crop: if fit == ImageFit::Cover {
                        Some(
                            Crop {
                                x: spare(resized.width, target.width),
                                y: spare(resized.height, target.height),
                                width: target.width,
                                height: target.height,
                            },
                        )
                    } else {
                        None
                    },
                },
            )
        }
    }
}

/// Half of what one length has over another.
pub open spec fn spare(length: u32, target: u32) -> u32 {
    if length > target {
        ((length - target) / 2) as u32
    } else {
        0
    }
}

fn half_over(length: u32, target: u32) -> (half: u32)
    ensures
        half == spare(length, target),
{
    if length > target {
        (length - target) / 2
    } else {
        0
    }
}

/// How an image fits into, or covers, a rectangle of cells.
pub fn resize_plan(
    source: PixelRect,
    cells: PixelRect,
    cell_pixels: CellPixels,
    fit: ImageFit,
) -> (plan: Result<ResizePlan, ImageError>)
    ensures
        match plan {
            Ok(plan) => plan_of(source, cells, cell_pixels, fit) == Ok::<
                ResizePlan,
                ImageErrorView,
            >(plan),
            Err(error) => plan_of(source, cells, cell_pixels, fit) == Err::<
                ResizePlan,
                ImageErrorView,
            >(error@),
        },
{
    if source.width == 0 || source.height == 0 || cells.width == 0 || cells.height == 0 {
        return Err(ImageError::InvalidGeometry("image and cell rectangles must be nonzero"));
    }
    let width = match cells.width.checked_mul(cell_pixels.width) {
        Some(width) => width,
        None => {
            return Err(ImageError::InvalidGeometry("pixel width overflows"));
        },
    };
    let height = match cells.height.checked_mul(cell_pixels.height) {
        Some(height) => height,
        None => {
            return Err(ImageError::InvalidGeometry("pixel height overflows"));
        },
    };
    let target = PixelRect { width, height };
    assert(0 <= width * source.height <= 0xffff_ffff * 0xffff_ffff && 0 <= height * source.width
        <= 0xffff_ffff * 0xffff_ffff) by (nonlinear_arith)
        requires
            0 <= width <= 0xffff_ffff,
            0 <= height <= 0xffff_ffff,
            0 <= source.width <= 0xffff_ffff,
            0 <= source.height <= 0xffff_ffff,
    ;
    let narrower = target.width as u64 * source.height as u64 <= target.height as u64
        * source.width as u64;
    let resized = if (fit == ImageFit::Contain) == narrower {
        match scaled(source.height, target.width, source.width) {
            Ok(height) => PixelRect { width: target.width, height },
            Err(error) => {
                return Err(error);
            },
        }
    } else {
        match scaled(source.width, target.height, source.height) {
            Ok(width) => PixelRect { width, height: target.height },
            Err(error) => {
                return Err(error);
            },
        }
    };
    let crop = if fit == ImageFit::Cover {
        Some(
            Crop {
                x: half_over(resized.width, target.width),
                y: half_over(resized.height, target.height),
                width: target.width,
                height: target.height,
            },
        )
    } else {
        None
    };
    Ok(ResizePlan { target, resized, crop })
}

/// The image that one run of the program shows, under an id of its own.
#[derive(Clone, Debug)]
pub struct ImageSession {
    pub id: u32,
    pub decision: ProtocolDecision,
}

/// The number behind another of 32 bits.
pub open spec fn following(counter: u32) -> u32 {
    if counter == u32::MAX {
        0
    } else {
        (counter + 1) as u32
    }
}

impl ImageSession {
    /// Takes the next number of the counter that is not zero.
    pub fn new(counter: &mut u32, decision: ProtocolDecision) -> (session: Self)
        ensures
            session.decision == decision,
            session.id == if *old(counter) == 0 {
                1
            } else {
                *old(counter)
            },
            session.id != 0,
            *final(counter) == following(session.id),
    {
        let id: u32 = if *counter == 0 {
            1
        } else {
            *counter
        };
        *counter = if id == u32::MAX {
            0
        } else {
            id + 1
        };
        ImageSession { id, decision }
    }
}

/// An image that is contained in its target is no larger than the target, and
/// one that covers it no smaller; what is cut out of a covering image is the
/// target, and lies inside the image.
pub proof fn law_plans_keep_to_the_target(
    source: PixelRect,
    cells: PixelRect,
    cell_pixels: CellPixels,
    fit: ImageFit,
)
    requires
        plan_of(source, cells, cell_pixels, fit) is Ok,
    ensures
        ({
            let plan = plan_of(source, cells, cell_pixels, fit)->Ok_0;
            &&& plan.target.width == cells.width * cell_pixels.width
            &&& plan.target.height == cells.height * cell_pixels.height
            &&& fit == ImageFit::Contain ==> {
                &&& plan.resized.width <= plan.target.width
                &&& plan.resized.height <= plan.target.height
                &&& plan.crop is None
            }
            &&& fit == ImageFit::Cover ==> {
                &&& plan.resized.width >= plan.target.width
                &&& plan.resized.height >= plan.target.height
                &&& plan.crop is Some
                &&& plan.crop->0.width == plan.target.width
                &&& plan.crop->0.height == plan.target.height
                &&& plan.crop->0.x + plan.crop->0.width <= plan.resized.width
                &&& plan.crop->0.y + plan.crop->0.height <= plan.resized.height
            }
            &&& plan.resized.width == plan.target.width || plan.resized.height
                == plan.target.height
            &&& cell_pixels.nonzero() ==> plan.resized.width > 0 && plan.resized.height > 0
                && plan.target.width > 0 && plan.target.height > 0
        }),
{
    let plan = plan_of(source, cells, cell_pixels, fit)->Ok_0;
    let target = plan.target;
    assert(target.width * source.height == source.height * target.width) by (nonlinear_arith);
    assert(target.height * source.width == source.width * target.height) by (nonlinear_arith);
    lemma_in_ratio(source.height, target.width, source.width, target.height);
    lemma_in_ratio(source.width, target.height, source.height, target.width);
    if cell_pixels.nonzero() {
        assert(cells.width * cell_pixels.width > 0 && cells.height * cell_pixels.height > 0)
            by (nonlinear_arith)
            requires
                cells.width > 0,
                cells.height > 0,
                cell_pixels.width > 0,
                cell_pixels.height > 0,
        ;
    }
}

/// A rounded quotient and a length compare as the products do.
proof fn lemma_in_ratio(value: u32, numerator: u32, denominator: u32, length: u32)
    requires
        denominator > 0,
    ensures
        value * numerator <= length * denominator ==> in_ratio(value, numerator, denominator)
            <= length,
        value * numerator >= length * denominator ==> in_ratio(value, numerator, denominator)
            >= length,
        value > 0 && numerator > 0 ==> in_ratio(value, numerator, denominator) > 0,
        in_ratio(value, numerator, denominator) >= 0,
{
    let d = denominator as int;
    let q = in_ratio(value, numerator, denominator);
    let p = value * numerator;
    assert(p >= 0 && (value > 0 && numerator > 0 ==> p > 0)) by (nonlinear_arith)
        requires
            p == value * numerator,
    ;
    vstd::arithmetic::div_mod::lemma_fundamental_div_mod(p + d - 1, d);
    let r = (p + d - 1) % d;
    assert(0 <= r < d);
    assert(p + d - 1 == d * q + r);
    let product = length * denominator;
    assert(q >= 0 && (p > 0 ==> q > 0) && (p <= product ==> q <= length) && (p >= product ==> q
        >= length)) by (nonlinear_arith)
        requires
            p >= 0,
            d > 0,
            d == denominator,
            0 <= r < d,
            p + d - 1 == d * q + r,
            product == length * d,
    ;
}

/// The ids of two sessions that share a counter differ, unless there have been as
/// many of them as there are ids.
pub proof fn law_following_ids_differ(id: u32)
    requires
        id != 0,
    ensures
        following(id) != id,
        (if following(id) == 0 {
            1
        } else {
            following(id)
        }) != id,
{
}

/// What the frames of an animation keep to.
pub open spec fn frames_keep_to(frames: Seq<DecodedFrameView>, limits: Limits) -> bool {
    &&& frames.len() <= limits.image_max_frames
    &&& forall|i: int|
        0 <= i < frames.len() ==> {
            &&& size_fault(
                (#[trigger] frames[i]).image.width,
                frames[i].image.height,
                limits,
            ) is None
            &&& limits.frame_min_delay_ms <= limits.frame_max_delay_ms
                ==> limits.frame_min_delay_ms <= frames[i].delay_ms <= limits.frame_max_delay_ms
        }
}

proof fn lemma_animation_keeps_to_the_limits(
    steps: Seq<FrameStepView>,
    kept: Seq<DecodedFrameView>,
    total: int,
    limits: Limits,
)
    requires
        frames_keep_to(kept, limits),
    ensures
        animation_from(steps, kept, total, limits) is Ok ==> frames_keep_to(
            animation_from(steps, kept, total, limits)->Ok_0,
            limits,
        ),
    decreases steps.len(),
{
    if steps.len() > 0 && steps[0] is Frame && kept.len() < limits.image_max_frames {
        let raster = steps[0]->raster;
        let more = kept.push(
            DecodedFrameView {
                image: raster,
                delay_ms: clamped_delay(steps[0]->delay, limits),
            },
        );
        if size_fault(raster.width, raster.height, limits) is None {
            lemma_animation_keeps_to_the_limits(
                steps.skip(1),
                more,
                total + raster::pixel_bytes(raster.width, raster.height),
                limits,
            );
        }
    }
}

/// Whatever is decoded keeps to the limits: the size of the image and of every
/// frame, the number of frames, their delays, and the bytes of all the pixels that
/// are kept.
pub proof fn law_decoded_images_keep_to_the_limits(bytes: Seq<u8>, limits: Limits)
    requires
        image_of(bytes, limits) is Ok,
    ensures
        ({
            let image = image_of(bytes, limits)->Ok_0;
            &&& bytes.len() <= limits.image_max_file_bytes
            &&& image.format != ImageFormat::Other
            &&& size_fault(image.first_frame.width, image.first_frame.height, limits) is None
            &&& frames_keep_to(image.frames, limits)
            &&& image.frames.len() > 0 ==> image.first_frame == image.frames[0].image
            &&& raster::pixel_bytes(image.first_frame.width, image.first_frame.height)
                + frames_bytes(image.frames) <= limits.image_max_decoded_bytes
        }),
{
    let format = raster::guessed_format(bytes)->0;
    let none = Seq::<DecodedFrameView>::empty();
    match format {
        ImageFormat::Gif => {
            lemma_animation_keeps_to_the_limits(
                raster::gif_animation(bytes)->Ok_0,
                none,
                0,
                limits,
            );
        },
        ImageFormat::WebP => {
            lemma_animation_keeps_to_the_limits(
                raster::webp_animation(bytes)->Ok_0,
                none,
                0,
                limits,
            );
        },
        ImageFormat::Png => {
            lemma_animation_keeps_to_the_limits(
                raster::png_animation(bytes)->Ok_0,
                none,
                0,
                limits,
            );
        },
        _ => {},
    }
}

} // verus!
