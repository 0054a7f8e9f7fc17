use hoshino::cli::{Cli, Command, Protocol, Shell};
use hoshino::config::{ImagePathOrigin, ImageSettings, ImageSource, Settings};
use hoshino::limits::Limits;
use hoshino::model::{Snapshot, SnapshotMode};
use hoshino::program::{
    begin_card, card_mode, failure, finish_card, image_has_room, image_rows,
    one_shot_identity_height, pixel_protocol_without_geometry, plain_text, plan_card,
    plan_live_image, route, should_load_live_source, show_card, take_image, take_live_image,
    unsupported_one_shot, warn_image_fallback, CardEnd, CardOutput, CardPlan, CardStart, Failure,
    LiveImagePlan, Route,
};
use hoshino::render::images::{
    load_bundled_logo, load_image, select_protocol, CellPixels, DecodedImage, ImageError,
    ImageRead, ProtocolDecision, RenderMode, SelectedProtocol, TerminalCapabilities, TerminalKind,
};
use hoshino::render::one_shot::{has_memory_for, prepare_kitty_one_shot, OneShotError};
use hoshino::render::raster::{ImageFormat, Raster};
use hoshino::render::text::card_body;
use image::codecs::png::PngEncoder;
use image::{ExtendedColorType, ImageEncoder};

fn cli() -> Cli {
    Cli {
        full: false,
        json: false,
        config: None,
        color: None,
        image: None,
        no_image: false,
        protocol: None,
        hook_context: false,
        command: None,
    }
}

fn non_tty_caps() -> TerminalCapabilities {
    TerminalCapabilities {
        stdin_tty: false,
        stdout_tty: false,
        terminal: TerminalKind::Other,
        cell_pixels: None,
        is_tmux: false,
    }
}

fn ghostty_caps() -> TerminalCapabilities {
    TerminalCapabilities {
        stdin_tty: true,
        stdout_tty: true,
        terminal: TerminalKind::Ghostty,
        cell_pixels: Some(CellPixels::new(8, 16).unwrap()),
        is_tmux: false,
    }
}

fn dot() -> DecodedImage {
    DecodedImage {
        format: ImageFormat::Png,
        first_frame: Raster { width: 1, height: 1, pixels: vec![0; 4] },
        frames: vec![],
    }
}

fn png(width: u32, height: u32) -> Vec<u8> {
    let pixels = vec![7; (width * height * 4) as usize];
    let mut bytes = Vec::new();
    PngEncoder::new(&mut bytes)
        .write_image(&pixels, width, height, ExtendedColorType::Rgba8)
        .unwrap();
    bytes
}

#[test]
fn one_shot_uses_full_identity_layout_height_only_for_full_cards() {
    let snapshot = Snapshot::empty(SnapshotMode::OneShot);
    let full = card_body(&snapshot, true);
    let normal = card_body(&snapshot, false);
    assert_eq!(one_shot_identity_height(&full, true), 6);
    assert_eq!(
        one_shot_identity_height(&normal, false),
        normal.identity.len()
    );
}

#[test]
fn hook_generation_bypasses_config_loading() {
    let hook = Cli {
        config: Some("/definitely/missing/hoshino-config.toml".into()),
        command: Some(Command::Hook { shell: Shell::Bash }),
        ..cli()
    };
    assert_eq!(route(&hook), Route::Hook(Shell::Bash));
}

#[test]
fn hook_context_outside_git_bypasses_config_loading() {
    let hook = Cli {
        config: Some("/definitely/missing/hoshino-config.toml".into()),
        hook_context: true,
        ..cli()
    };
    assert_eq!(route(&hook), Route::HookCard);
    assert_eq!(card_mode(true), SnapshotMode::Hook);
    assert_eq!(card_mode(false), SnapshotMode::OneShot);
    assert_eq!(route(&cli()), Route::Card);
    assert_eq!(route(&Cli { command: Some(Command::Live), ..cli() }), Route::Live);
}

#[test]
fn non_tty_plain_and_json_boundaries_are_control_free() {
    let settings = Settings {
        color_enabled: true,
        ..Settings::default()
    };
    let snapshot = Snapshot::empty(SnapshotMode::OneShot);
    let plain = plain_text(&snapshot, false, &settings, non_tty_caps().stdout_tty, 80);

    assert!(!plain.contains('\x1b'));
    assert!(!plain.contains("\x1b_G"));
    let shown = plain_text(&snapshot, false, &settings, true, 80);
    assert!(shown.contains('\x1b'));
}

#[test]
fn config_image_fallback_is_added_before_plain_text_is_rendered() {
    let mut snapshot = Snapshot::empty(SnapshotMode::OneShot);
    let error = ImageError::UnsupportedFormat;
    let notice = warn_image_fallback(&mut snapshot, &error, "falling back to text");
    let plain = plain_text(&snapshot, false, &Settings::default(), false, 80);

    assert!(plain.contains("DIAG:"));
    assert!(plain.contains("image format"));
    assert!(notice.contains("falling back to text"));
    assert_eq!(snapshot.diagnostics.len(), 1);
}

#[test]
fn valid_prepared_one_shot_image_serializes_without_a_fallback_diagnostic() {
    let image_settings = ImageSettings {
        width_cells: 1,
        max_height_rows: 1,
        ..ImageSettings::default()
    };
    let (serialized, cells) = prepare_kitty_one_shot(
        &dot(),
        &image_settings,
        &Settings::default().limits,
        CellPixels::new(8, 16).unwrap(),
        80,
        6,
        9,
        false,
    )
    .unwrap();
    assert!(!serialized.transfer.is_empty());
    assert_eq!(serialized.placeholder_rows.len(), usize::from(cells.height));
}

#[test]
fn auto_text_and_protocol_none_are_silent_one_shot_paths() {
    let caps = TerminalCapabilities {
        stdin_tty: false,
        stdout_tty: true,
        terminal: TerminalKind::Other,
        cell_pixels: None,
        is_tmux: false,
    };
    let auto = select_protocol(RenderMode::OneShot, Protocol::Auto, caps).unwrap();
    assert_eq!(auto.protocol, SelectedProtocol::Text);
    let none = select_protocol(RenderMode::OneShot, Protocol::Off, caps).unwrap();
    assert_eq!(none.protocol, SelectedProtocol::Off);
    assert!(matches!(plan_card(&cli(), &Settings::default(), caps), CardPlan::Plain));
}

#[test]
fn protocol_and_image_failures_keep_their_own_sources() {
    assert!(matches!(
        Settings::default().image.source,
        ImageSource::Bundled
    ));
    assert!(pixel_protocol_without_geometry(
        ProtocolDecision {
            protocol: SelectedProtocol::Kitty,
            is_tmux: false,
        },
        non_tty_caps(),
    ));
    assert!(!pixel_protocol_without_geometry(
        ProtocolDecision {
            protocol: SelectedProtocol::Halfblocks,
            is_tmux: false,
        },
        non_tty_caps(),
    ));
}

#[test]
fn live_source_resolution_honors_bundled_paths_disabled_and_text_protocols() {
    let limits = Settings::default().limits;
    assert!(load_bundled_logo(&png(640, 640), &limits).is_ok());
    assert!(should_load_live_source(
        &ImageSource::Bundled,
        SelectedProtocol::Kitty
    ));
    assert!(!should_load_live_source(
        &ImageSource::Bundled,
        SelectedProtocol::Off
    ));
    assert!(!should_load_live_source(
        &ImageSource::Disabled,
        SelectedProtocol::Kitty
    ));

    for origin in [ImagePathOrigin::Cli, ImagePathOrigin::Config] {
        let path = "/definitely/missing/hoshino-image.png";
        let source = ImageSource::Path {
            path: path.into(),
            origin,
        };
        assert!(should_load_live_source(&source, SelectedProtocol::Kitty));
        let missing = ImageRead::OpenFailed("No such file or directory".into());
        assert!(load_image(path, missing, &limits).is_err());
    }
}

#[test]
fn images_of_a_card_need_a_terminal_and_geometry() {
    let settings = Settings::default();
    assert!(matches!(plan_card(&cli(), &settings, non_tty_caps()), CardPlan::Plain));
    assert!(matches!(
        plan_card(&cli(), &settings, ghostty_caps()),
        CardPlan::Image { is_tmux: false }
    ));
    let kitty = Cli { protocol: Some(Protocol::Kitty), ..cli() };
    let mut asked = Settings::default();
    asked.image.protocol = Protocol::Kitty;
    let blind = TerminalCapabilities { cell_pixels: None, ..ghostty_caps() };
    assert!(matches!(plan_card(&kitty, &asked, blind), CardPlan::Failed(_)));
    let mut sixel = Settings::default();
    sixel.image.protocol = Protocol::Sixel;
    assert!(matches!(plan_card(&cli(), &sixel, ghostty_caps()), CardPlan::Unsupported(_)));
    let fallback = unsupported_one_shot(Protocol::Sixel);
    assert!(fallback.notice.contains("Sixel") || fallback.notice.contains("sixel"));
}

#[test]
fn what_was_asked_for_fails_and_what_was_not_falls_back() {
    let error = || ImageError::UnsupportedFormat;
    assert!(matches!(failure(true, error(), "d"), Failure::Abort(ImageError::UnsupportedFormat)));
    match failure(false, error(), "detail") {
        Failure::Fall(fallback) => assert!(fallback.notice.contains("detail")),
        Failure::Abort(_) => panic!("a fallback expected"),
    }
    let named = Cli { image: Some("a.png".into()), ..cli() };
    let cell = Some(CellPixels::new(8, 16).unwrap());
    let mut settings = Settings::default();
    settings.image.source =
        ImageSource::Path { path: "a.png".into(), origin: ImagePathOrigin::Cli };
    assert!(matches!(
        take_image(Err(error()), cell, &named, &settings),
        Err(Failure::Abort(_))
    ));
    assert!(matches!(
        take_image(Err(error()), cell, &cli(), &Settings::default()),
        Err(Failure::Fall(_))
    ));
    assert!(take_image(Ok(dot()), cell, &cli(), &Settings::default()).is_ok());
    assert!(take_image(Ok(dot()), None, &cli(), &Settings::default()).is_err());
    assert!(take_live_image(Ok(dot()), &settings).is_ok());
    assert!(matches!(take_live_image(Err(error()), &settings), Err(Failure::Abort(_))));
}

#[test]
fn a_prepared_image_stands_in_the_card() {
    let snapshot = Snapshot::empty(SnapshotMode::OneShot);
    let settings = Settings::default();
    let body = card_body(&snapshot, true);
    let prepared = prepare_kitty_one_shot(
        &dot(),
        &settings.image,
        &Limits::default(),
        CellPixels::new(8, 16).unwrap(),
        80,
        6,
        9,
        false,
    );
    match show_card(prepared, &body, true, 80, &settings) {
        CardOutput::Card { transfer, rows } => {
            assert!(transfer.starts_with(b"\x1b_G"));
            assert!(rows.contains('\u{10EEEE}'));
        }
        _ => panic!("a card expected"),
    }
    let failed = Err(OneShotError::Backend("broken".into()));
    assert!(matches!(
        show_card(failed, &body, true, 80, &settings),
        CardOutput::Backend(_)
    ));
    assert!(!image_has_room(42, &body, true, settings.image.position));
}

#[test]
fn live_images_are_loaded_only_where_they_can_be_shown() {
    let settings = Settings::default();
    let kitty = ProtocolDecision { protocol: SelectedProtocol::Kitty, is_tmux: false };
    let text = ProtocolDecision { protocol: SelectedProtocol::Text, is_tmux: false };
    assert!(matches!(
        plan_live_image(&cli(), &settings, kitty, ghostty_caps()),
        LiveImagePlan::Load
    ));
    assert!(matches!(
        plan_live_image(&cli(), &settings, text, ghostty_caps()),
        LiveImagePlan::Nothing
    ));
    let blind = TerminalCapabilities { cell_pixels: None, ..ghostty_caps() };
    assert!(matches!(
        plan_live_image(&cli(), &settings, kitty, blind),
        LiveImagePlan::Failed(_)
    ));
}

#[test]
fn a_card_begins_and_ends_with_what_was_found() {
    let settings = Settings::default();
    let mut snapshot = Snapshot::empty(SnapshotMode::OneShot);
    snapshot.context.directory = Some("/work/hoshino".into());
    let full = Cli { full: true, ..cli() };
    match begin_card(&full, &settings, non_tty_caps(), 80, &mut snapshot) {
        CardStart::Show(shown) => {
            assert_eq!(shown.notice, None);
            assert_eq!(shown.text, plain_text(&snapshot, true, &settings, false, 80));
        }
        _ => panic!("a text expected"),
    }
    let narrow = begin_card(&full, &settings, ghostty_caps(), 42, &mut snapshot);
    assert!(matches!(narrow, CardStart::Show(_)));
    let start = begin_card(&full, &settings, ghostty_caps(), 80, &mut snapshot);
    assert!(matches!(start, CardStart::Load { is_tmux: false }));
    assert!(snapshot.diagnostics.is_empty());

    let caps = ghostty_caps();
    let rows = image_rows(&card_body(&snapshot, true), true);
    let cell = caps.cell_pixels.unwrap();
    assert!(has_memory_for(&dot(), &settings.image, &settings.limits, cell, 80, rows));
    match finish_card(Ok(dot()), &full, &settings, caps, 80, false, 9, &mut snapshot) {
        CardEnd::Card { transfer, rows } => {
            assert!(transfer.starts_with(b"\x1b_G"));
            assert!(rows.contains('\u{10EEEE}'));
        }
        _ => panic!("a card expected"),
    }
    let broken = Err(ImageError::UnsupportedFormat);
    match finish_card(broken, &full, &settings, caps, 80, false, 9, &mut snapshot) {
        CardEnd::Show(shown) => {
            let notice = "warning: image format must be PNG, JPEG, GIF, or WebP; falling back to text";
            assert_eq!(shown.notice.as_deref(), Some(notice));
            assert!(shown.text.contains("image format"));
        }
        _ => panic!("a text expected"),
    }
    assert_eq!(snapshot.diagnostics.len(), 1);
    let mut named = Settings::default();
    named.image.source =
        ImageSource::Path { path: "a.png".into(), origin: ImagePathOrigin::Cli };
    let missing = Err(ImageError::UnsupportedFormat);
    let end = finish_card(missing, &full, &named, caps, 80, false, 9, &mut snapshot);
    assert!(matches!(end, CardEnd::Abort(ImageError::UnsupportedFormat)));
}

#[test]
fn failed_protocols_abort_only_where_they_were_asked_for() {
    let mut settings = Settings::default();
    settings.image.protocol = Protocol::Kitty;
    let blind = TerminalCapabilities { cell_pixels: None, ..ghostty_caps() };
    let mut snapshot = Snapshot::empty(SnapshotMode::OneShot);
    let asked = Cli { protocol: Some(Protocol::Kitty), ..cli() };
    let start = begin_card(&asked, &settings, blind, 80, &mut snapshot);
    assert!(matches!(start, CardStart::Abort(ImageError::MissingGeometry { .. })));
    assert!(snapshot.diagnostics.is_empty());
    let start = begin_card(&cli(), &settings, blind, 80, &mut snapshot);
    match start {
        CardStart::Show(shown) => assert!(shown.notice.is_some()),
        _ => panic!("a text expected"),
    }
    assert_eq!(snapshot.diagnostics[0].code, "image-fallback");
}
