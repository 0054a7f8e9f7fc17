use hoshino::config::{ImageFit, ImagePosition, ImageSettings, Theme};
use hoshino::limits::Limits;
use hoshino::render::card::{compose_one_shot_card, strip_ansi};
use hoshino::render::cells::visible_width as cell_width;
use hoshino::render::images::{
    CellPixels, DecodedImage, ImageError, ImageSession, PixelRect, ProtocolDecision, RenderMode,
    SelectedProtocol, TerminalCapabilities, TerminalKind,
};
use hoshino::render::kitty_one_shot::{serialize, SerializedImage};
use hoshino::render::measures::card_measures;
use hoshino::render::one_shot::{
    encode_png, one_shot_layout, prepare_kitty_one_shot, prepare_one_shot, OneShotError,
    OneShotPrepared, PreparedImage, Rect, Size,
};
use hoshino::render::raster::{ImageFormat, Raster};
use hoshino::render::terminal::{
    derive_cell_pixels, detect_capabilities_with, kitty_delete_owned, one_shot_image_eligible,
    one_shot_width, prevalidate_live, LiveTerminalGuard, TerminalOperations, TerminalProbe,
    WindowGeometry,
};
use hoshino::render::text::{copy_line, row, span, CardBody, CardLine, CardSection, CardSpan};
use hoshino::render::theme::{Role, SpanStyle};
use ratatui_image::protocol::Protocol;
use std::collections::HashMap;

#[derive(Default)]
struct Probe {
    stdout: bool,
    stdin: bool,
    env: HashMap<String, String>,
    geometry: Option<WindowGeometry>,
    calls: Vec<&'static str>,
}

impl TerminalProbe for Probe {
    fn stdout_is_terminal(&mut self) -> bool {
        self.calls.push("stdout");
        self.stdout
    }
    fn stdin_is_terminal(&mut self) -> bool {
        self.calls.push("stdin");
        self.stdin
    }
    fn env_var(&mut self, name: &str) -> Option<String> {
        self.calls.push("env");
        self.env.get(name).cloned()
    }
    fn window_geometry(&mut self) -> Option<WindowGeometry> {
        self.calls.push("geometry");
        self.geometry
    }
}

fn settings() -> ImageSettings {
    ImageSettings::default()
}
fn decoded() -> DecodedImage {
    DecodedImage {
        format: ImageFormat::Png,
        first_frame: Raster { width: 400, height: 100, pixels: vec![0; 400 * 100 * 4] },
        frames: vec![],
    }
}
fn session(protocol: SelectedProtocol) -> ImageSession {
    let mut counter = 1;
    ImageSession::new(&mut counter, ProtocolDecision {
        protocol,
        is_tmux: true,
    })
}

#[test]
fn non_tty_stops_before_every_other_probe() {
    let mut probe = Probe::default();
    let caps = detect_capabilities_with(&mut probe, RenderMode::OneShot, &settings());
    assert!(!caps.stdout_tty);
    assert_eq!(probe.calls, ["stdout"]);
}

#[test]
fn live_checks_both_ttys_but_does_not_query() {
    let mut probe = Probe {
        stdout: true,
        stdin: true,
        ..Probe::default()
    };
    probe.env.insert("TERM_PROGRAM".into(), "Ghostty".into());
    probe.geometry = Some(WindowGeometry {
        columns: 100,
        rows: 50,
        width_px: 800,
        height_px: 800,
    });
    let caps = detect_capabilities_with(&mut probe, RenderMode::Live, &settings());
    assert!(caps.stdin_tty && caps.stdout_tty);
    assert_eq!(caps.terminal, TerminalKind::Ghostty);
    assert_eq!(caps.cell_pixels, Some(CellPixels::new(8, 16).unwrap()));
    assert_eq!(
        probe.calls.iter().filter(|call| **call == "stdin").count(),
        1
    );
    assert!(prevalidate_live(caps).is_ok());
    assert!(matches!(
        prevalidate_live(TerminalCapabilities {
            stdin_tty: false,
            ..caps
        }),
        Err(ImageError::LiveRequiresTtys)
    ));
}

#[test]
fn invalid_window_geometry_falls_back_without_division() {
    assert_eq!(
        derive_cell_pixels(WindowGeometry {
            columns: 0,
            rows: 10,
            width_px: 800,
            height_px: 160
        }),
        None
    );
    assert_eq!(
        derive_cell_pixels(WindowGeometry {
            columns: 80,
            rows: 10,
            width_px: 0,
            height_px: 160
        }),
        None
    );
    assert_eq!(
        derive_cell_pixels(WindowGeometry {
            columns: 800,
            rows: 10,
            width_px: 80,
            height_px: 160
        }),
        None
    );
}

#[test]
fn configured_geometry_wins_without_window_probe() {
    let mut probe = Probe {
        stdout: true,
        ..Probe::default()
    };
    let mut settings = settings();
    settings.cell_width_px = Some(9);
    settings.cell_height_px = Some(17);
    let caps = detect_capabilities_with(&mut probe, RenderMode::OneShot, &settings);
    assert_eq!(caps.cell_pixels, Some(CellPixels::new(9, 17).unwrap()));
    assert!(!probe.calls.contains(&"geometry"));
}

#[test]
fn fixed_protocols_pre_resize_and_preserve_kitty_session_id() {
    let mut settings = settings();
    settings.width_cells = 10;
    settings.max_height_rows = 10;
    settings.fit = ImageFit::Contain;
    let session = session(SelectedProtocol::Kitty);
    let prepared = prepare_one_shot(
        session.decision,
        &decoded(),
        &settings,
        &session,
        Some(CellPixels::new(8, 16).unwrap()),
    )
    .unwrap();
    let OneShotPrepared::Image(prepared) = prepared else {
        panic!("image expected")
    };
    assert!(matches!(prepared.protocol, Protocol::Kitty(_)));
    assert_eq!(
        prepared.resize.unwrap().resized,
        PixelRect {
            width: 80,
            height: 20
        }
    );
    assert_eq!(prepared.cells, Size::new(10, 10));
    assert_ne!(session.id, 0);
    let mut cover = settings.clone();
    cover.fit = ImageFit::Cover;
    let prepared = prepare_one_shot(
        session.decision,
        &decoded(),
        &cover,
        &session,
        Some(CellPixels::new(8, 16).unwrap()),
    )
    .unwrap();
    let OneShotPrepared::Image(prepared) = prepared else {
        panic!("image expected")
    };
    assert_eq!(
        prepared.resize.unwrap().resized,
        PixelRect {
            width: 640,
            height: 160
        }
    );
}

#[test]
fn wrappers_and_halfblocks_follow_the_selected_backend() {
    for protocol in [
        SelectedProtocol::Iterm2,
        SelectedProtocol::Sixel,
        SelectedProtocol::Halfblocks,
    ] {
        let session = session(protocol);
        let prepared =
            prepare_one_shot(session.decision, &decoded(), &settings(), &session, None);
        if protocol == SelectedProtocol::Halfblocks {
            assert!(matches!(
                prepared.unwrap(),
                OneShotPrepared::Image(PreparedImage {
                    protocol: Protocol::Halfblocks(_),
                    ..
                })
            ));
        } else {
            assert!(matches!(
                prepared,
                Err(OneShotError::Image(ImageError::InvalidGeometry(_)))
            ));
        }
    }
}

#[test]
fn layout_preserves_left_top_and_narrow_text_fallback() {
    let cells = Size::new(24, 12);
    let left = one_shot_layout(Size::new(80, 30), cells, ImagePosition::Left, 5).unwrap();
    assert_eq!(left.image, Rect::new(0, 0, 24, 12));
    assert_eq!(left.text, Rect::new(24, 0, 56, 5));
    let top = one_shot_layout(Size::new(80, 30), cells, ImagePosition::Top, 5).unwrap();
    assert_eq!(top.text, Rect::new(0, 12, 80, 5));
    assert!(matches!(
        one_shot_layout(Size::new(43, 30), cells, ImagePosition::Left, 5),
        Err(OneShotError::Narrow { .. })
    ));
}

#[derive(Default)]
struct Ops {
    calls: Vec<&'static str>,
    fail: Option<&'static str>,
}
impl Ops {
    fn call(&mut self, name: &'static str) -> Result<(), String> {
        self.calls.push(name);
        if self.fail == Some(name) {
            Err("injected".into())
        } else {
            Ok(())
        }
    }
}
impl TerminalOperations for Ops {
    fn enable_raw(&mut self) -> Result<(), String> {
        self.call("raw+")
    }
    fn enter_alternate(&mut self) -> Result<(), String> {
        self.call("alt+")
    }
    fn hide_cursor(&mut self) -> Result<(), String> {
        self.call("hide")
    }
    fn show_cursor(&mut self) -> Result<(), String> {
        self.call("show")
    }
    fn leave_alternate(&mut self) -> Result<(), String> {
        self.call("alt-")
    }
    fn disable_raw(&mut self) -> Result<(), String> {
        self.call("raw-")
    }
}

#[test]
fn live_guard_restores_reverse_order_on_setup_and_render_failures() {
    let mut setup = Ops {
        fail: Some("hide"),
        ..Ops::default()
    };
    let preflight = prevalidate_live(TerminalCapabilities {
        stdin_tty: true,
        stdout_tty: true,
        terminal: TerminalKind::Other,
        cell_pixels: None,
        is_tmux: false,
    })
    .unwrap();
    assert!(LiveTerminalGuard::enter(&mut setup, preflight).is_err());
    assert_eq!(setup.calls, ["raw+", "alt+", "hide", "alt-", "raw-"]);
    let mut render = Ops::default();
    let mut guard = LiveTerminalGuard::enter(&mut render, preflight).unwrap();
    assert!(guard.restore(&mut render).is_ok());
    assert_eq!(
        render.calls,
        ["raw+", "alt+", "hide", "show", "alt-", "raw-"]
    );
}

#[test]
fn kitty_targeted_deletion_is_byte_exact_direct_and_tmux() {
    let id = 42;
    assert_eq!(
        kitty_delete_owned(id, false),
        b"\x1b_Ga=d,d=I,i=42,q=2\x1b\\"
    );
    assert_eq!(
        kitty_delete_owned(id, true),
        b"\x1bPtmux;\x1b\x1b_Ga=d,d=I,i=42,q=2\x1b\x1b\\\x1b\\"
    );
}

#[test]
fn one_shot_card_is_inset_append_safe_and_cell_bounded() {
    let image = SerializedImage {
        transfer: vec![],
        placeholder_rows: vec!["I0\n".into(), "I1\n".into(), "I2\n".into()],
    };
    let line = |text: &str| {
        CardLine::new(
            Role::Text,
            vec![CardSpan {
                text: text.into(),
                role: Role::Text,
                style: SpanStyle::Solid,
            }],
        )
    };
    let body = CardBody {
        title: vec![CardSpan {
            text: "hoshino".into(),
            role: Role::Primary,
            style: SpanStyle::Solid,
        }],
        identity: (0..6)
            .map(|index| line(&format!("identity {index}")))
            .collect(),
        identity_layout_height: 6,
        sections: vec![CardSection {
            name: "details",
            role: Role::Secondary,
            left: vec![line("section row")],
            right: vec![],
        }],
    };
    for (full, cap) in [(false, 104), (true, 120)] {
        for width in [20, 21, 33, 34, 35, 40, 42, 43, 44, 80, 104, 120, 160] {
            let effective = one_shot_width(width, full).min(cap);
            for position in [ImagePosition::Left, ImagePosition::Top] {
                let eligible = one_shot_image_eligible(effective, position);
                for color in [false, true] {
                    let output = compose_one_shot_card(
                        &body,
                        full,
                        effective,
                        color,
                        Theme::DuskDarker,
                        if eligible { Some((&image, Size::new(2, 3), position)) } else { None },
                    );
                    let lines: Vec<_> = output.lines().collect();
                    assert!(output.ends_with('\n'));
                    assert!(
                        lines.iter().all(|row| {
                            cell_width(&strip_ansi(row)) == usize::from(effective)
                        })
                    );
                    let title = strip_ansi(lines.first().unwrap());
                    assert!(title.starts_with("╭─"));
                    assert!(title.contains("hoshino"));
                    assert!(title[title.find("hoshino").unwrap() + 7..].contains('─'));
                    assert!(strip_ansi(lines.last().unwrap()).starts_with('╰'));
                    if eligible {
                        assert!(output.contains("I0"));
                    } else {
                        assert!(!output.contains("I0"));
                    }
                    if full {
                        assert!(strip_ansi(&output).contains("├─ details ─"));
                    } else {
                        assert!(!output.contains("details"));
                    }
                }
            }
        }
    }
    let left = compose_one_shot_card(
        &body,
        true,
        43,
        false,
        Theme::DuskDarker,
        Some((&image, Size::new(2, 3), ImagePosition::Left)),
    );
    let lines: Vec<_> = left.lines().collect();
    assert!(
        lines[1..7]
            .iter()
            .all(|row| row.chars().nth(5) == Some('│'))
    );
    assert_eq!(lines[2].chars().nth(1), Some(' '));
    assert_eq!(lines[2].chars().nth(4), Some(' '));
    assert_eq!(lines[1].chars().nth(2), Some(' '));
    assert_eq!(lines[6].chars().nth(2), Some(' '));
    assert!(lines[7].starts_with("├─ details ─"));
    assert!(lines[7].ends_with('┤'));
    assert!(!lines[7].starts_with("│  │"));
    // Bands end on their last fact; there is no trailing spacer row.
    assert!(lines[lines.len() - 2].starts_with("│ section row"));
    for color in [false, true] {
        let output = compose_one_shot_card(&body, true, 120, color, Theme::DuskDarker, None);
        let rail = output
            .lines()
            .map(strip_ansi)
            .find(|line| line.contains("─ details ─"))
            .unwrap();
        assert!(rail.starts_with("├─ details ─") && rail.ends_with('┤'));
        assert_eq!(cell_width(&rail), 120);
    }
}

#[test]
fn prepared_kitty_placeholders_are_bounded_to_inset_slots() {
    let line = CardLine::new(
        Role::Text,
        vec![CardSpan {
            text: "identity".into(),
            role: Role::Text,
            style: SpanStyle::Solid,
        }],
    );
    let body = CardBody {
        title: vec![CardSpan {
            text: "hoshino".into(),
            role: Role::Primary,
            style: SpanStyle::Solid,
        }],
        identity: (0..6).map(|_| copy_line(&line)).collect(),
        identity_layout_height: 6,
        sections: vec![],
    };
    for (position, width, slot) in [
        (ImagePosition::Left, 43, 6),
        (ImagePosition::Left, 44, 7),
        (ImagePosition::Top, 34, 32),
        (ImagePosition::Top, 35, 33),
    ] {
        let mut image_settings = settings();
        image_settings.position = position;
        image_settings.width_cells = 120;
        let (serialized, cells) = prepare_kitty_one_shot(
            &decoded(),
            &image_settings,
            &Limits::default(),
            CellPixels::new(8, 16).unwrap(),
            width,
            body.identity.len() as u16,
                7,
                false,
        )
        .unwrap();
        assert_eq!(cells.width, slot);
        assert!(serialized.placeholder_rows.iter().all(|row| {
            cell_width(&strip_ansi(row.strip_suffix('\n').unwrap())) == usize::from(slot)
        }));
        if position == ImagePosition::Left {
            assert!(cells.height <= 4);
        }
        let output = compose_one_shot_card(
            &body,
            false,
            width,
            true,
            Theme::DuskDarker,
            Some((&serialized, cells, position)),
        );
        assert!(
            output
                .lines()
                .all(|row| { cell_width(&strip_ansi(row)) == usize::from(width) })
        );
    }
}

#[test]
fn one_shot_geometry_has_exact_caps_and_image_thresholds() {
    assert_eq!(one_shot_width(160, false), 104);
    assert_eq!(one_shot_width(160, true), 120);
    for width in 1..=19 {
        assert!(!one_shot_image_eligible(width, ImagePosition::Left));
        assert!(!one_shot_image_eligible(width, ImagePosition::Top));
    }
    assert!(!one_shot_image_eligible(42, ImagePosition::Left));
    assert!(one_shot_image_eligible(43, ImagePosition::Left));
    assert!(one_shot_image_eligible(44, ImagePosition::Left));
    assert!(!one_shot_image_eligible(33, ImagePosition::Top));
    assert!(one_shot_image_eligible(34, ImagePosition::Top));
    assert!(one_shot_image_eligible(35, ImagePosition::Top));
}

#[test]
fn png_encoding_round_trips_and_honors_the_file_cap() {
    let image = Raster { width: 4, height: 3, pixels: [1, 2, 3, 255].repeat(12) };
    let png = encode_png(&image, &Limits::default()).unwrap();
    let round_trip = image::load_from_memory(&png).unwrap().to_rgba8();
    assert_eq!(round_trip.dimensions(), (4, 3));
    assert_eq!(round_trip.into_raw(), image.pixels);

    let limits = Limits {
        image_max_file_bytes: 1,
        ..Limits::default()
    };
    assert!(matches!(
        encode_png(&image, &limits),
        Err(OneShotError::Image(ImageError::Limit("file bytes")))
    ));
}

#[test]
fn half_a_cell_counts_as_no_geometry() {
    let cell = derive_cell_pixels(WindowGeometry { columns: 80, rows: 24, width_px: 647, height_px: 408 });
    assert_eq!(cell, Some(CellPixels::new(8, 17).unwrap()));
}

#[test]
fn terminals_and_tmux_are_known_by_their_variables() {
    for (variables, kind, tmux) in [
        (vec![("TERM", "xterm-ghostty")], TerminalKind::Ghostty, false),
        (vec![("TERM_PROGRAM", "iTerm.app"), ("TMUX", "/tmp/tmux")], TerminalKind::Iterm2, true),
        (vec![("TERM_PROGRAM", "tmux"), ("TERM", "tmux-256color")], TerminalKind::Other, false),
        (vec![], TerminalKind::Other, false),
    ] {
        let mut probe = Probe { stdout: true, ..Probe::default() };
        for (name, value) in variables {
            probe.env.insert(name.into(), value.into());
        }
        let caps = detect_capabilities_with(&mut probe, RenderMode::OneShot, &settings());
        assert_eq!((caps.terminal, caps.is_tmux), (kind, tmux));
        assert!(!caps.stdin_tty);
        assert!(!probe.calls.contains(&"stdin"));
    }
}

#[test]
fn a_refused_step_is_undone_and_its_error_kept() {
    let preflight = prevalidate_live(TerminalCapabilities {
        stdin_tty: true,
        stdout_tty: true,
        terminal: TerminalKind::Other,
        cell_pixels: None,
        is_tmux: false,
    })
    .unwrap();
    for (fail, calls) in [("raw+", vec!["raw+"]), ("alt+", vec!["raw+", "alt+", "raw-"])] {
        let mut ops = Ops { fail: Some(fail), ..Ops::default() };
        assert_eq!(LiveTerminalGuard::enter(&mut ops, preflight).unwrap_err(), "injected");
        assert_eq!(ops.calls, calls);
    }
    let mut ops = Ops::default();
    let mut guard = LiveTerminalGuard::enter(&mut ops, preflight).unwrap();
    ops.fail = Some("alt-");
    assert_eq!(guard.restore(&mut ops), Err("injected".into()));
    assert_eq!(guard.restore(&mut ops), Ok(()));
    assert_eq!(ops.calls, ["raw+", "alt+", "hide", "show", "alt-", "raw-"]);
}

#[test]
fn narrow_layouts_say_what_they_need() {
    let error = one_shot_layout(Size::new(19, 9), Size::new(2, 3), ImagePosition::Top, 1).unwrap_err();
    assert_eq!(error.to_text(), "terminal is too narrow for image and compact text (19 columns; need 20)");
    let shown = one_shot_layout(Size::new(20, 9), Size::new(30, 3), ImagePosition::Top, 0).unwrap();
    assert_eq!(shown.image, Rect::new(0, 0, 20, 3));
    assert_eq!(shown.text, Rect::new(0, 3, 20, 1));
    assert_eq!(shown.height, 4);
}

#[test]
fn decisions_without_pixels_fall_back_to_text() {
    for protocol in [
        SelectedProtocol::Off,
        SelectedProtocol::Text,
        SelectedProtocol::BoundedQueryRequired,
    ] {
        let session = session(protocol);
        let prepared = prepare_one_shot(session.decision, &decoded(), &settings(), &session, None);
        assert!(matches!(prepared, Ok(OneShotPrepared::TextFallback)));
    }
}

#[test]
fn fixed_images_of_every_backend_are_made() {
    for protocol in [SelectedProtocol::Iterm2, SelectedProtocol::Sixel] {
        let session = session(protocol);
        let mut settings = settings();
        settings.width_cells = 4;
        settings.max_height_rows = 2;
        let cell = Some(CellPixels::new(8, 16).unwrap());
        let prepared = prepare_one_shot(session.decision, &decoded(), &settings, &session, cell);
        let Ok(OneShotPrepared::Image(prepared)) = prepared else {
            panic!("image expected")
        };
        assert_eq!(prepared.cells, Size::new(4, 2));
        assert_eq!(prepared.resize.unwrap().resized, PixelRect { width: 32, height: 8 });
        match prepared.protocol {
            Protocol::ITerm2(image) => {
                assert_eq!(protocol, SelectedProtocol::Iterm2);
                assert!(image.data.contains("1337;File"));
            }
            Protocol::Sixel(_) => assert_eq!(protocol, SelectedProtocol::Sixel),
            _ => panic!("another backend"),
        }
    }
}

#[test]
fn colour_only_adds_escapes_to_a_card() {
    let body = CardBody {
        title: vec![],
        identity: vec![CardLine::new(Role::Git, vec![CardSpan {
            text: "branch main".into(),
            role: Role::Git,
            style: SpanStyle::Gradient,
        }])],
        identity_layout_height: 1,
        sections: vec![],
    };
    let plain = compose_one_shot_card(&body, false, 40, false, Theme::Dusk, None);
    let colored = compose_one_shot_card(&body, false, 40, true, Theme::Dusk, None);
    assert!(!plain.contains('\x1b'));
    assert_ne!(colored, plain);
    assert_eq!(strip_ansi(&colored), plain);
    assert_eq!(strip_ansi("a\x1b[38;2;1;2;3mb\x1b[0mc\x1bQd"), "abcd");
}

#[test]
fn cards_that_measure_are_as_wide_as_they_should_be() {
    let line = |text: &str| row(Role::Text, vec![span(text, Role::Text)]);
    let body = |text: &str, other: &str| CardBody {
        title: vec![span("hoshino 한", Role::Primary)],
        identity: (0..6).map(|_| line(text)).collect(),
        identity_layout_height: 6,
        sections: vec![CardSection {
            name: "details",
            role: Role::Secondary,
            left: vec![line(text), line(text)],
            right: vec![line(other)],
        }],
    };
    let image = serialize(b"png", 7, 3, 2, false).unwrap();
    let cells = Size::new(3, 2);
    for (text, other) in [("plain", "words"), ("한글 e\u{301}", "👩\u{200d}🚀 ok")] {
        let body = body(text, other);
        for width in [43_u16, 80, 104] {
            for placed in [
                None,
                Some((&image, cells, ImagePosition::Left)),
                Some((&image, cells, ImagePosition::Top)),
            ] {
                assert!(card_measures(&body, true, width, placed));
                for color in [false, true] {
                    let card =
                        compose_one_shot_card(&body, true, width, color, Theme::DuskDarker, placed);
                    for row in card.lines() {
                        assert_eq!(cell_width(&strip_ansi(row)), usize::from(width), "{row:?}");
                    }
                }
            }
        }
    }
    let joined = CardBody {
        identity: vec![row(Role::Text, vec![span("#", Role::Text), span("\u{fe0f}", Role::Text)])],
        ..body("plain", "words")
    };
    assert!(!card_measures(&joined, true, 80, None));
}
