use hoshino::cli::Protocol;
use hoshino::config::ImageFit;
use hoshino::limits::Limits;
use hoshino::render::images::{
    clamp_delay, image_read_limit, load_bundled_logo, load_image, load_image_bytes, resize_plan,
    select_protocol, CellPixels, ImageError, ImageRead, ImageSession, PixelRect, ProtocolDecision,
    RenderMode, SelectedProtocol, TerminalCapabilities, TerminalKind,
};
use hoshino::render::one_shot::{covering_frame, Size};
use hoshino::render::raster::{ImageFormat, Raster};
use image::codecs::gif::GifEncoder;
use image::codecs::jpeg::JpegEncoder;
use image::codecs::png::PngEncoder;
use image::codecs::webp::WebPEncoder;
use image::{Delay, ExtendedColorType, Frame, ImageEncoder, Rgb, RgbImage, Rgba, RgbaImage};

fn limits() -> Limits {
    Limits {
        image_max_file_bytes: 1_000_000,
        image_max_dimension_px: 100,
        image_max_decoded_bytes: 1_000_000,
        image_max_frames: 3,
        frame_min_delay_ms: 20,
        frame_max_delay_ms: 1_000,
        ..Limits::default()
    }
}

fn caps(
    stdout_tty: bool,
    stdin_tty: bool,
    terminal: TerminalKind,
    geometry: bool,
) -> TerminalCapabilities {
    TerminalCapabilities {
        stdout_tty,
        stdin_tty,
        terminal,
        cell_pixels: if geometry { Some(CellPixels::new(8, 16).unwrap()) } else { None },
        is_tmux: true,
    }
}

#[test]
fn selection_matrix_never_probes_non_ttys() {
    for requested in [
        Protocol::Auto,
        Protocol::Kitty,
        Protocol::Iterm2,
        Protocol::Sixel,
        Protocol::Halfblocks,
    ] {
        assert_eq!(
            select_protocol(
                RenderMode::OneShot,
                requested,
                caps(false, false, TerminalKind::Ghostty, true)
            )
            .unwrap()
            .protocol,
            SelectedProtocol::Off
        );
    }
    assert_eq!(
        select_protocol(
            RenderMode::OneShot,
            Protocol::Auto,
            TerminalCapabilities {
                is_tmux: false,
                ..caps(true, true, TerminalKind::Ghostty, true)
            }
        )
        .unwrap()
        .protocol,
        SelectedProtocol::Kitty
    );
    assert_eq!(
        select_protocol(
            RenderMode::OneShot,
            Protocol::Auto,
            caps(true, true, TerminalKind::Iterm2, true)
        )
        .unwrap()
        .protocol,
        SelectedProtocol::Text
    );
    assert_eq!(
        select_protocol(
            RenderMode::OneShot,
            Protocol::Auto,
            caps(true, true, TerminalKind::Other, true)
        )
        .unwrap()
        .protocol,
        SelectedProtocol::Text
    );
    assert_eq!(
        select_protocol(
            RenderMode::OneShot,
            Protocol::Halfblocks,
            caps(true, true, TerminalKind::Other, false)
        )
        .unwrap()
        .protocol,
        SelectedProtocol::Halfblocks
    );
    assert!(matches!(
        select_protocol(
            RenderMode::OneShot,
            Protocol::Kitty,
            caps(true, true, TerminalKind::Other, false)
        ),
        Err(ImageError::MissingGeometry { .. })
    ));
    assert_eq!(
        select_protocol(
            RenderMode::Live,
            Protocol::Auto,
            caps(true, true, TerminalKind::Other, false)
        )
        .unwrap()
        .protocol,
        SelectedProtocol::BoundedQueryRequired
    );
    assert!(matches!(
        select_protocol(
            RenderMode::Live,
            Protocol::Kitty,
            caps(true, false, TerminalKind::Other, false)
        ),
        Err(ImageError::LiveRequiresTtys)
    ));
}

fn png(width: u32, height: u32) -> Vec<u8> {
    let image = RgbaImage::from_pixel(width, height, Rgba([1, 2, 3, 255]));
    let mut bytes = Vec::new();
    PngEncoder::new(&mut bytes)
        .write_image(image.as_raw(), width, height, ExtendedColorType::Rgba8)
        .unwrap();
    bytes
}

fn jpeg() -> Vec<u8> {
    let rgb = RgbImage::from_pixel(2, 3, Rgb([1, 2, 3]));
    let mut bytes = Vec::new();
    JpegEncoder::new(&mut bytes)
        .write_image(rgb.as_raw(), 2, 3, ExtendedColorType::Rgb8)
        .unwrap();
    bytes
}

fn webp() -> Vec<u8> {
    let image = RgbaImage::from_pixel(2, 3, Rgba([1, 2, 3, 255]));
    let mut bytes = Vec::new();
    WebPEncoder::new_lossless(&mut bytes)
        .write_image(image.as_raw(), 2, 3, ExtendedColorType::Rgba8)
        .unwrap();
    bytes
}

fn gif() -> Vec<u8> {
    let frames = [
        Frame::from_parts(
            RgbaImage::from_pixel(2, 2, Rgba([1, 0, 0, 255])),
            0,
            0,
            Delay::from_numer_denom_ms(0, 1),
        ),
        Frame::from_parts(
            RgbaImage::from_pixel(2, 2, Rgba([0, 1, 0, 255])),
            0,
            0,
            Delay::from_numer_denom_ms(9_999, 1),
        ),
    ];
    let mut bytes = Vec::new();
    GifEncoder::new(&mut bytes).encode_frames(frames).unwrap();
    bytes
}

#[test]
fn decodes_supported_static_images_and_bounded_gif_frames() {
    for (bytes, format) in [
        (png(2, 3), ImageFormat::Png),
        (jpeg(), ImageFormat::Jpeg),
        (webp(), ImageFormat::WebP),
    ] {
        let decoded = load_image_bytes(&bytes, &limits()).unwrap();
        assert_eq!(decoded.first_frame.dimensions(), (2, 3));
        assert_eq!(decoded.format, format);
        assert!(decoded.frames.is_empty());
    }
    let bytes = gif();
    let decoded = load_image_bytes(&bytes, &limits()).unwrap();
    assert_eq!(decoded.frames.len(), 2);
    assert_eq!(decoded.frames[0].delay_ms, 20);
    assert_eq!(decoded.frames[1].delay_ms, 1_000);
    let mut frame_limit = limits();
    frame_limit.image_max_frames = 1;
    assert!(matches!(
        load_image_bytes(&bytes, &frame_limit),
        Err(ImageError::Limit("frames"))
    ));
}

#[test]
fn decoded_pixels_are_those_of_the_file() {
    let decoded = load_image_bytes(&png(2, 3), &limits()).unwrap();
    assert_eq!(decoded.first_frame.pixels, [1, 2, 3, 255].repeat(6));
    let animated = load_image_bytes(&gif(), &limits()).unwrap();
    assert_eq!(animated.format, ImageFormat::Gif);
    assert_eq!(animated.first_frame, animated.frames[0].image);
    assert_eq!(animated.frames[1].image.pixels.len(), 16);
    assert_ne!(animated.frames[0].image.pixels, animated.frames[1].image.pixels);
}

#[test]
fn the_first_frame_of_an_animation_counts_twice() {
    let bytes = gif();
    let mut enough = limits();
    enough.image_max_decoded_bytes = 3 * 16;
    assert!(load_image_bytes(&bytes, &enough).is_ok());
    let mut short = limits();
    short.image_max_decoded_bytes = 3 * 16 - 1;
    assert!(matches!(
        load_image_bytes(&bytes, &short),
        Err(ImageError::Limit("decoded bytes"))
    ));
}

#[test]
fn bundled_logo_decodes_with_the_shared_bounds() {
    let logo = png(640, 640);
    let decoded = load_bundled_logo(&logo, &Limits::default()).unwrap();
    assert_eq!(decoded.format, ImageFormat::Png);
    assert_eq!(decoded.first_frame.dimensions(), (640, 640));
    assert!(decoded.frames.is_empty());

    let file_limit = Limits {
        image_max_file_bytes: 1,
        ..Limits::default()
    };
    assert!(matches!(
        load_bundled_logo(&logo, &file_limit),
        Err(ImageError::Limit("file bytes"))
    ));

    let dimension_limit = Limits {
        image_max_dimension_px: 639,
        ..Limits::default()
    };
    assert!(matches!(
        load_bundled_logo(&logo, &dimension_limit),
        Err(ImageError::Limit("dimensions"))
    ));

    let decoded_limit = Limits {
        image_max_decoded_bytes: 640 * 640 * 4 - 1,
        ..Limits::default()
    };
    assert!(matches!(
        load_bundled_logo(&logo, &decoded_limit),
        Err(ImageError::Limit("decoded bytes"))
    ));
}

#[test]
fn malformed_and_limits_are_errors() {
    assert!(matches!(
        load_image_bytes(b"not an image", &limits()),
        Err(ImageError::UnsupportedFormat)
    ));
    let whole = png(2, 3);
    let truncated = &whole[..10];
    assert!(matches!(
        load_image_bytes(truncated, &limits()),
        Err(ImageError::Decode(_))
    ));
    let mut file_limit = limits();
    file_limit.image_max_file_bytes = 1;
    assert!(matches!(
        load_image_bytes(&whole, &file_limit),
        Err(ImageError::Limit("file bytes"))
    ));
    let mut dimension_limit = limits();
    dimension_limit.image_max_dimension_px = 1;
    assert!(matches!(
        load_image_bytes(&whole, &dimension_limit),
        Err(ImageError::Limit("dimensions"))
    ));
    let mut decoded_limit = limits();
    decoded_limit.image_max_decoded_bytes = 20;
    assert!(matches!(
        load_image_bytes(&whole, &decoded_limit),
        Err(ImageError::Limit("decoded bytes"))
    ));
    assert!(matches!(
        load_image_bytes(b"BM\x00\x00\x00\x00 a bitmap", &limits()),
        Err(ImageError::UnsupportedFormat)
    ));
}

#[test]
fn image_files_fail_with_their_path() {
    let path = "/pictures/logo.png";
    let text = |read: ImageRead, limits: &Limits| {
        load_image(path, read, limits).unwrap_err().to_text()
    };
    assert_eq!(
        text(ImageRead::NotRegular, &limits()),
        "cannot read image /pictures/logo.png: image path is not a regular file"
    );
    assert_eq!(
        text(ImageRead::OpenFailed("gone".into()), &limits()),
        "cannot read image /pictures/logo.png: gone"
    );
    assert_eq!(
        text(ImageRead::ReadFailed("broken".into()), &limits()),
        "cannot read image /pictures/logo.png: broken"
    );
    let loaded = load_image(path, ImageRead::Bytes(png(2, 3)), &limits()).unwrap();
    assert_eq!(loaded.first_frame.dimensions(), (2, 3));
    let unbounded = Limits { image_max_file_bytes: u64::MAX, ..limits() };
    assert_eq!(
        text(ImageRead::Bytes(png(2, 3)), &unbounded),
        "image exceeds configured file bytes limit"
    );
    assert_eq!(image_read_limit(&limits()), Some(1_000_001));
    assert_eq!(image_read_limit(&unbounded), None);
}

#[test]
fn image_errors_have_their_words() {
    for (error, words) in [
        (ImageError::UnsupportedFormat, "image format must be PNG, JPEG, GIF, or WebP"),
        (ImageError::Decode("eof".into()), "cannot decode image: eof"),
        (ImageError::Limit("frames"), "image exceeds configured frames limit"),
        (
            ImageError::MissingGeometry { protocol: Protocol::Kitty },
            "Kitty images require configured cell pixel geometry",
        ),
        (
            ImageError::MissingGeometry { protocol: Protocol::Off },
            "None images require configured cell pixel geometry",
        ),
        (ImageError::InvalidGeometry("cell pixels must be nonzero"), "cell pixels must be nonzero"),
        (
            ImageError::LiveRequiresTtys,
            "live image display requires both stdin and stdout to be TTYs",
        ),
    ] {
        assert_eq!(error.to_text(), words);
    }
    assert!(matches!(CellPixels::new(0, 1), Err(ImageError::InvalidGeometry(_))));
    assert!(matches!(CellPixels::new(1, 0), Err(ImageError::InvalidGeometry(_))));
}

#[test]
fn delays_are_whole_milliseconds_between_the_limits() {
    assert_eq!(clamp_delay((100, 3), &limits()), 33);
    assert_eq!(clamp_delay((5, 0), &limits()), 20);
    assert_eq!(clamp_delay((5, 1), &limits()), 20);
    assert_eq!(clamp_delay((5_000, 1), &limits()), 1_000);
}

fn rect(width: u32, height: u32) -> PixelRect {
    PixelRect { width, height }
}

#[test]
fn resize_and_session_are_checked() {
    let cell = CellPixels::new(8, 16).unwrap();
    let contain = resize_plan(
        PixelRect {
            width: 400,
            height: 100,
        },
        PixelRect {
            width: 10,
            height: 10,
        },
        cell,
        ImageFit::Contain,
    )
    .unwrap();
    assert_eq!(
        contain.resized,
        PixelRect {
            width: 80,
            height: 20
        }
    );
    assert_eq!(contain.crop, None);
    let cover = resize_plan(
        PixelRect {
            width: 400,
            height: 100,
        },
        PixelRect {
            width: 10,
            height: 10,
        },
        cell,
        ImageFit::Cover,
    )
    .unwrap();
    assert_eq!(
        cover.resized,
        PixelRect {
            width: 640,
            height: 160
        }
    );
    assert_eq!(cover.crop.unwrap().width, 80);
    assert!(resize_plan(
        PixelRect {
            width: 1,
            height: 1
        },
        PixelRect {
            width: u32::MAX,
            height: 1
        },
        CellPixels::new(2, 1).unwrap(),
        ImageFit::Contain
    )
    .is_err());
    let decision = ProtocolDecision {
        protocol: SelectedProtocol::Kitty,
        is_tmux: true,
    };
    let mut counter = 1;
    let session = ImageSession::new(&mut counter, decision);
    assert_ne!(session.id, 0);
    assert_eq!(session.decision, decision);
    assert_eq!(counter, 2);
    let mut last = u32::MAX;
    assert_eq!(ImageSession::new(&mut last, decision).id, u32::MAX);
    assert_eq!(ImageSession::new(&mut last, decision).id, 1);
}

#[test]
fn resize_plans_keep_to_their_target() {
    let cell = CellPixels::new(8, 16).unwrap();
    let tall = resize_plan(rect(100, 400), rect(10, 10), cell, ImageFit::Contain).unwrap();
    assert_eq!(tall.target, rect(80, 160));
    assert_eq!(tall.resized, rect(40, 160));
    let cover = resize_plan(rect(100, 400), rect(10, 10), cell, ImageFit::Cover).unwrap();
    assert_eq!(cover.resized, rect(80, 320));
    let crop = cover.crop.unwrap();
    assert_eq!((crop.x, crop.y, crop.width, crop.height), (0, 80, 80, 160));
    let rounded = resize_plan(rect(3, 2), rect(1, 1), cell, ImageFit::Contain).unwrap();
    assert_eq!(rounded.resized, rect(8, 6));
}

#[test]
fn resize_plans_say_what_overflows() {
    let cell = CellPixels::new(8, 16).unwrap();
    let words = |source: PixelRect, cells: PixelRect, fit: ImageFit| {
        resize_plan(source, cells, cell, fit).unwrap_err().to_text()
    };
    assert_eq!(
        words(rect(0, 1), rect(1, 1), ImageFit::Contain),
        "image and cell rectangles must be nonzero"
    );
    assert_eq!(words(rect(1, 1), rect(u32::MAX, 1), ImageFit::Contain), "pixel width overflows");
    assert_eq!(words(rect(1, 1), rect(1, u32::MAX), ImageFit::Contain), "pixel height overflows");
    assert_eq!(
        words(rect(u32::MAX, 1), rect(1, 100_000_000), ImageFit::Cover),
        "resize overflows"
    );
}

#[test]
fn automatic_cards_have_no_image_inside_tmux_or_without_geometry() {
    for (is_tmux, geometry, expected) in [
        (false, true, SelectedProtocol::Kitty),
        (true, true, SelectedProtocol::Text),
        (false, false, SelectedProtocol::Text),
    ] {
        let mut found = caps(true, true, TerminalKind::Ghostty, true);
        found.is_tmux = is_tmux;
        if !geometry {
            found.cell_pixels = None;
        }
        let decision = select_protocol(RenderMode::OneShot, Protocol::Auto, found).unwrap();
        assert_eq!(decision.protocol, expected);
    }
}

#[test]
fn live_images_that_cover_are_cut_in_the_middle() {
    let row = [[1, 1, 1, 255], [9, 9, 9, 255], [9, 9, 9, 255], [1, 1, 1, 255]];
    let pixels: Vec<u8> = [row, row].concat().concat();
    let source = Raster { width: 4, height: 2, pixels };
    let cell = CellPixels::new(2, 2).unwrap();
    let covered = covering_frame(&source, Size::new(1, 1), cell).unwrap();
    assert_eq!((covered.width, covered.height), (2, 2));
    assert_eq!(covered.pixels, [9, 9, 9, 255].repeat(4));
    let wide = covering_frame(&source, Size::new(5, 3), cell).unwrap();
    assert_eq!((wide.width, wide.height), (10, 6));
    assert!(covering_frame(&source, Size::new(0, 3), cell).is_none());
    let empty = Raster { width: 0, height: 0, pixels: vec![] };
    assert!(covering_frame(&empty, Size::new(1, 1), cell).is_none());
}
