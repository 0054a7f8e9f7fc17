//! Pixels, and what the image crate makes of bytes and of pixels.
use std::io::{BufReader, Cursor};
use image::codecs::gif::GifDecoder;
use image::codecs::png::{PngDecoder, PngEncoder};
use image::codecs::webp::WebPDecoder;
use image::error::ImageError as DecoderError;
use image::imageops;
use image::{AnimationDecoder, ExtendedColorType, ImageEncoder, ImageReader};
use vstd::prelude::*;

verus! {

/// Pixels row by row, four bytes each: red, green, blue and opacity.
#[derive(Clone, Debug, PartialEq, Eq)]
pub struct Raster {
    pub width: u32,
    pub height: u32,
    pub pixels: Vec<u8>,
}

#[verifier::ext_equal]
pub struct RasterView {
    pub width: u32,
    pub height: u32,
    pub pixels: Seq<u8>,
}

impl View for Raster {
    type V = RasterView;

    open spec fn view(&self) -> RasterView {
        RasterView { width: self.width, height: self.height, pixels: self.pixels@ }
    }
}

/// The bytes of so many pixels.
pub open spec fn pixel_bytes(width: u32, height: u32) -> int {
    width * height * 4
}

impl RasterView {
    /// There is a byte for every part of every pixel.
    pub open spec fn covered(self) -> bool {
        self.pixels.len() >= pixel_bytes(self.width, self.height)
    }

    /// There is a byte for every part of every pixel, and no more.
    pub open spec fn exact(self) -> bool {
        self.pixels.len() == pixel_bytes(self.width, self.height)
    }
}

impl Raster {
    pub fn dimensions(&self) -> (size: (u32, u32))
        ensures
            size == (self.width, self.height),
    {
        (self.width, self.height)
    }

    /// A copy with the same pixels.
    pub fn copy(&self) -> (copied: Raster)
        ensures
            copied@ == self@,
    {
        Raster { width: self.width, height: self.height, pixels: copy_bytes(&self.pixels) }
    }
}

fn copy_bytes(bytes: &Vec<u8>) -> (copied: Vec<u8>)
    ensures
        copied@ == bytes@,
{
    let mut copied: Vec<u8> = Vec::new();
    let mut at: usize = 0;
    while at < bytes.len()
        invariant
            at <= bytes@.len(),
            copied@ == bytes@.take(at as int),
        decreases bytes@.len() - at,
    {
        copied.push(bytes[at]);
        assert(bytes@.take(at as int).push(bytes@[at as int]) =~= bytes@.take(at as int + 1));
        at += 1;
    }
    assert(bytes@.take(at as int) =~= bytes@);
    copied
}

/// The formats that are told apart.
#[derive(Clone, Copy, Debug, PartialEq, Eq, Structural)]
pub enum ImageFormat {
    Png,
    Jpeg,
    Gif,
    WebP,
    Other,
}

/// The format that the first bytes of an image give away, as the image crate
/// knows their marks.
pub uninterp spec fn guessed_format(bytes: Seq<u8>) -> Option<ImageFormat>;

/// `image::guess_format`: the format that the bytes start as, and nothing where
/// they start as none. The table of marks is long and the result depends on the
/// bytes alone, so it has a name.
#[verifier::external_body]
pub(crate) fn guess_format(bytes: &[u8]) -> (format: Option<ImageFormat>)
    ensures
        format == guessed_format(bytes@),
{
    match image::guess_format(bytes) {
        Ok(image::ImageFormat::Png) => Some(ImageFormat::Png),
        Ok(image::ImageFormat::Jpeg) => Some(ImageFormat::Jpeg),
        Ok(image::ImageFormat::Gif) => Some(ImageFormat::Gif),
        Ok(image::ImageFormat::WebP) => Some(ImageFormat::WebP),
        Ok(_) => Some(ImageFormat::Other),
        Err(_) => None,
    }
}

/// What the image crate answers that it reads for width and height.
pub uninterp spec fn image_dimensions(bytes: Seq<u8>, format: ImageFormat) -> Result<
    (u32, u32),
    Seq<char>,
>;

/// A result as its value and its words.
pub open spec fn outcome_words<T>(result: Result<T, String>) -> Result<T, Seq<char>> {
    match result {
        Ok(value) => Ok(value),
        Err(message) => Err(message@),
    }
}

/// `ImageReader::with_format` and `into_dimensions` of the image crate: width and
/// height as the decoder of the format reads them from the head of the bytes, or
/// the decoder's error in words. Both depend on the bytes and the format alone.
#[verifier::external_body]
pub(crate) fn read_dimensions(bytes: &[u8], format: ImageFormat) -> (size: Result<
    (u32, u32),
    String,
>)
    requires
        format != ImageFormat::Other,
    ensures
        outcome_words(size) == image_dimensions(bytes@, format),
{
    let format = match format {
        ImageFormat::Png => image::ImageFormat::Png,
        ImageFormat::Jpeg => image::ImageFormat::Jpeg,
        ImageFormat::Gif => image::ImageFormat::Gif,
        _ => image::ImageFormat::WebP,
    };
    let reader = ImageReader::with_format(Cursor::new(bytes), format);
    reader.into_dimensions().map_err(|error| error.to_string())
}

pub open spec fn raster_words(result: Result<Raster, String>) -> Result<RasterView, Seq<char>> {
    match result {
        Ok(raster) => Ok(raster@),
        Err(message) => Err(message@),
    }
}

/// What the image crate decodes as a still image.
pub uninterp spec fn still_image(bytes: Seq<u8>, format: ImageFormat) -> Result<
    RasterView,
    Seq<char>,
>;

/// `image::load_from_memory_with_format` and `DynamicImage::to_rgba8`: the pixels
/// that the bytes encode, or the decoder's error in words. Both depend on the
/// bytes and the format alone. The buffer of an image holds all of its pixels.
#[verifier::external_body]
pub(crate) fn decode_still(bytes: &[u8], format: ImageFormat) -> (raster: Result<Raster, String>)
    requires
        format != ImageFormat::Other,
    ensures
        raster_words(raster) == still_image(bytes@, format),
        raster is Ok ==> raster->Ok_0@.covered(),
{
    let format = match format {
        ImageFormat::Png => image::ImageFormat::Png,
        ImageFormat::Jpeg => image::ImageFormat::Jpeg,
        ImageFormat::Gif => image::ImageFormat::Gif,
        _ => image::ImageFormat::WebP,
    };
    match image::load_from_memory_with_format(bytes, format).map(|still| still.to_rgba8()) {
        Ok(still) => Ok(Raster { width: still.width(), height: still.height(), pixels: still.into_raw() }),
        Err(error) => Err(error.to_string()),
    }
}

/// The frames of an animation, read one by one through the functions below.
#[verifier::external_type_specification]
#[verifier::external_body]
pub struct ExFrames<'a>(image::Frames<'a>);

/// What a frame of an animation comes as.
#[verifier::external_type_specification]
#[verifier::external_body]
pub struct ExFrame(image::Frame);

/// What the image crate fails with.
#[verifier::external_type_specification]
#[verifier::external_body]
pub struct ExDecoderError(DecoderError);

/// A frame as it is decoded, with its delay in milliseconds as a fraction.
pub struct RawFrame {
    pub raster: Raster,
    pub delay: (u32, u32),
}

/// What comes next out of an animation.
pub enum FrameStep {
    Frame(RawFrame),
    Failed(String),
    End,
}

pub enum FrameStepView {
    Frame { raster: RasterView, delay: (u32, u32) },
    Failed(Seq<char>),
    End,
}

impl View for FrameStep {
    type V = FrameStepView;

    open spec fn view(&self) -> FrameStepView {
        match *self {
            FrameStep::Frame(frame) => FrameStepView::Frame {
                raster: frame.raster@,
                delay: frame.delay,
            },
            FrameStep::Failed(message) => FrameStepView::Failed(message@),
            FrameStep::End => FrameStepView::End,
        }
    }
}

/// The steps that the GIF decoder gives, up to and with the end or the first
/// failure, or its error where it cannot begin.
pub uninterp spec fn gif_animation(bytes: Seq<u8>) -> Result<Seq<FrameStepView>, Seq<char>>;

/// The steps that the WebP decoder gives, likewise.
pub uninterp spec fn webp_animation(bytes: Seq<u8>) -> Result<Seq<FrameStepView>, Seq<char>>;

/// Whether the PNG decoder finds an animation, or its error where it cannot begin.
pub uninterp spec fn png_animated(bytes: Seq<u8>) -> Result<bool, Seq<char>>;

/// The steps that the PNG decoder gives of an animation, likewise.
pub uninterp spec fn png_animation(bytes: Seq<u8>) -> Result<Seq<FrameStepView>, Seq<char>>;

/// The steps that an animation has yet to give, up to and with the end or the
/// first failure.
pub uninterp spec fn frames_left(frames: image::Frames<'_>) -> Seq<FrameStepView>;

/// `GifDecoder::new` and `into_frames` of the image crate: the frames of a GIF,
/// or the decoder's error in words. There is always one step to come, if only the
/// end.
#[verifier::external_body]
pub(crate) fn gif_frames<'a>(bytes: &'a [u8]) -> (frames: Result<image::Frames<'a>, String>)
    ensures
        match frames {
            Ok(frames) => gif_animation(bytes@) == Ok::<Seq<FrameStepView>, Seq<char>>(
                frames_left(frames),
            ) && frames_left(frames).len() > 0,
            Err(message) => gif_animation(bytes@) == Err::<Seq<FrameStepView>, Seq<char>>(
                message@,
            ),
        },
{
    match GifDecoder::new(BufReader::new(Cursor::new(bytes))) {
        Ok(decoder) => Ok(decoder.into_frames()),
        Err(error) => Err(error.to_string()),
    }
}

/// `WebPDecoder::new` and `into_frames` of the image crate: the frames of a WebP
/// image, none of them where it is not animated, or the decoder's error in words.
/// There is always one step to come, if only the end.
#[verifier::external_body]
pub(crate) fn webp_frames<'a>(bytes: &'a [u8]) -> (frames: Result<image::Frames<'a>, String>)
    ensures
        match frames {
            Ok(frames) => webp_animation(bytes@) == Ok::<Seq<FrameStepView>, Seq<char>>(
                frames_left(frames),
            ) && frames_left(frames).len() > 0,
            Err(message) => webp_animation(bytes@) == Err::<Seq<FrameStepView>, Seq<char>>(
                message@,
            ),
        },
{
    match WebPDecoder::new(BufReader::new(Cursor::new(bytes))) {
        Ok(decoder) => Ok(decoder.into_frames()),
        Err(error) => Err(error.to_string()),
    }
}

/// `PngDecoder::new` and `is_apng` of the image crate: whether a PNG is animated, or the
/// decoder's error in words.
#[verifier::external_body]
pub(crate) fn is_animated_png(bytes: &[u8]) -> (animated: Result<bool, String>)
    ensures
        match animated {
            Ok(animated) => png_animated(bytes@) == Ok::<bool, Seq<char>>(animated),
            Err(message) => png_animated(bytes@) == Err::<bool, Seq<char>>(message@),
        },
{
    match PngDecoder::new(BufReader::new(Cursor::new(bytes))) {
        Ok(decoder) => decoder.is_apng().map_err(|error| error.to_string()),
        Err(error) => Err(error.to_string()),
    }
}

/// `PngDecoder::new`, `apng` and `into_frames` of the image crate: the frames of an animated
/// PNG, or the decoder's error in words. There is always one step to come, if only the end.
#[verifier::external_body]
pub(crate) fn png_frames<'a>(bytes: &'a [u8]) -> (frames: Result<image::Frames<'a>, String>)
    ensures
        match frames {
            Ok(frames) => png_animation(bytes@) == Ok::<Seq<FrameStepView>, Seq<char>>(
                frames_left(frames),
            ) && frames_left(frames).len() > 0,
            Err(message) => png_animation(bytes@) == Err::<Seq<FrameStepView>, Seq<char>>(
                message@,
            ),
        },
{
    match PngDecoder::new(BufReader::new(Cursor::new(bytes))).and_then(|png| png.apng()) {
        Ok(decoder) => Ok(decoder.into_frames()),
        Err(error) => Err(error.to_string()),
    }
}

/// `Frames::next` of the image crate, with `Frame::delay`, `Delay::numer_denom_ms`
/// and `Frame::into_buffer`: the next frame, failure or end. The buffer of a frame
/// holds all of its pixels. Only a frame has something behind it.
#[verifier::external_body]
pub(crate) fn next_frame(frames: &mut image::Frames<'_>) -> (step: FrameStep)
    requires
        frames_left(*old(frames)).len() > 0,
    ensures
        step@ == frames_left(*old(frames))[0],
        frames_left(*final(frames)) == frames_left(*old(frames)).skip(1),
        step is Frame == (frames_left(*final(frames)).len() > 0),
        step is Frame ==> step->Frame_0.raster@.covered(),
{
    match frames.next() {
        Some(Ok(frame)) => {
            let delay = frame.delay().numer_denom_ms();
            let buffer = frame.into_buffer();
            let (width, height) = buffer.dimensions();
            FrameStep::Frame(RawFrame { raster: Raster { width, height, pixels: buffer.into_raw() }, delay })
        }
        Some(Err(error)) => FrameStep::Failed(error.to_string()),
        None => FrameStep::End,
    }
}

/// The pixels of an image resized with the Catmull-Rom filter.
pub uninterp spec fn resized_pixels(image: RasterView, width: u32, height: u32) -> Seq<u8>;

/// An image of the two sizes can be resized to without running out of addresses:
/// the image itself and the one between, of four-byte numbers.
pub open spec fn resizable(source_width: u32, width: u32, height: u32) -> bool {
    &&& pixel_bytes(width, height) <= isize::MAX
    &&& pixel_bytes(source_width, height) * 4 <= isize::MAX
}

/// `imageops::resize` of the image crate with `FilterType::CatmullRom`: an image
/// of exactly the new width and height. What its pixels are takes pages and
/// depends on the image and the new size alone.
#[verifier::external_body]
pub(crate) fn resize(image: &Raster, width: u32, height: u32) -> (resized: Raster)
    requires
        image@.covered(),
        image.width > 0,
        image.height > 0,
        resizable(image.width, width, height),
    ensures
        resized@ == (RasterView { width, height, pixels: resized_pixels(image@, width, height) }),
        resized@.exact(),
{
    let source = image::RgbaImage::from_raw(image.width, image.height, image.pixels.clone()).unwrap();
    let resized = imageops::resize(&source, width, height, imageops::FilterType::CatmullRom);
    Raster { width: resized.width(), height: resized.height(), pixels: resized.into_raw() }
}

/// The part of an image that starts at a column and a row.
pub open spec fn cropped(image: RasterView, x: u32, y: u32, width: u32, height: u32) -> RasterView {
    RasterView {
        width,
        height,
        pixels: Seq::new(
            pixel_bytes(width, height) as nat,
            |i: int|
                image.pixels[((y + i / 4 / width as int) * image.width + x + i / 4 % width as int)
                    * 4 + i % 4],
        ),
    }
}

/// `imageops::crop_imm` and `SubImage::to_image` of the image crate: the pixels
/// of the part, row by row.
#[verifier::external_body]
pub(crate) fn crop(image: &Raster, x: u32, y: u32, width: u32, height: u32) -> (part: Raster)
    requires
        image@.covered(),
        x + width <= image.width,
        y + height <= image.height,
    ensures
        part@ == cropped(image@, x, y, width, height),
{
    let source = image::RgbaImage::from_raw(image.width, image.height, image.pixels.clone()).unwrap();
    let part = imageops::crop_imm(&source, x, y, width, height).to_image();
    Raster { width: part.width(), height: part.height(), pixels: part.into_raw() }
}

pub open spec fn bytes_words(result: Result<Vec<u8>, String>) -> Result<Seq<u8>, Seq<char>> {
    match result {
        Ok(bytes) => Ok(bytes@),
        Err(message) => Err(message@),
    }
}

/// What the image crate encodes as a PNG.
pub uninterp spec fn png_encoding(image: RasterView) -> Result<Seq<u8>, Seq<char>>;

/// `PngEncoder::write_image` of the image crate into memory: the bytes of a PNG
/// with these pixels, or the encoder's error in words. Both depend on the image
/// alone.
#[verifier::external_body]
pub(crate) fn png_bytes(image: &Raster) -> (bytes: Result<Vec<u8>, String>)
    requires
        image@.exact(),
    ensures
        bytes_words(bytes) == png_encoding(image@),
{
    let mut bytes = Vec::new();
    let encoder = PngEncoder::new(&mut bytes);
    match encoder.write_image(&image.pixels, image.width, image.height, ExtendedColorType::Rgba8) {
        Ok(()) => Ok(bytes),
        Err(error) => Err(error.to_string()),
    }
}

} // verus!
