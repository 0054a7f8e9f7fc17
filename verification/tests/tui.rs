use crossterm::event::{Event, KeyCode, KeyEvent, KeyEventKind, KeyModifiers};
use hoshino::config::{ImagePosition, ImageSettings, Settings, Theme};
use hoshino::render::cells::visible_width;
use hoshino::render::images::{
    CellPixels, ImageError, ImageSession, ProtocolDecision, SelectedProtocol, TerminalCapabilities,
    TerminalKind,
};
use hoshino::render::live::{
    live_font, map_event, resolve_live_protocol, shows_image, FrameClock, Key, LiveAction,
    LiveError, LiveEvent, LiveInput, LiveLoop, LiveOptions, TerminalEvent, SPINNER,
    SPINNER_INTERVAL,
};
use hoshino::render::one_shot::Rect;
use hoshino::render::terminal::{prevalidate_live, LiveTerminalGuard, TerminalOperations};
use hoshino::render::text::{row, span, CardBody, CardLine, CardSection, CardSpan};
use hoshino::render::theme::{palette, Role, SpanStyle, SystemRole};
use hoshino::render::tui::{live_chunks, live_plan, LivePlan};
use ratatui::backend::TestBackend;
use ratatui::text::{Line, Span, Text};
use ratatui::widgets::{Block, Borders, Paragraph};
use ratatui::Terminal;

fn caps() -> TerminalCapabilities {
    TerminalCapabilities {
        stdin_tty: true,
        stdout_tty: true,
        terminal: TerminalKind::Ghostty,
        cell_pixels: Some(CellPixels::new(8, 16).unwrap()),
        is_tmux: false,
    }
}

fn session(protocol: SelectedProtocol) -> ImageSession {
    let mut counter = 1;
    ImageSession::new(&mut counter, ProtocolDecision {
        protocol,
        is_tmux: false,
    })
}

fn body(full: bool) -> CardBody {
    let identity = (0..6)
        .map(|index| {
            CardLine::new(
                Role::Primary,
                vec![CardSpan {
                    text: format!("identity {index}"),
                    role: Role::Primary,
                    style: SpanStyle::Solid,
                }],
            )
        })
        .collect();
    let sections = if full {
        vec![
            CardSection {
                name: "system & health",
                role: Role::System(SystemRole::Health),
                left: vec![CardLine::new(
                    Role::System(SystemRole::Health),
                    vec![CardSpan {
                        text: "system detail".into(),
                        role: Role::System(SystemRole::Health),
                        style: SpanStyle::Solid,
                    }],
                )],
                right: vec![],
            },
            CardSection {
                name: "active context",
                role: Role::Git,
                left: vec![CardLine::new(
                    Role::Git,
                    vec![CardSpan {
                        text: "context detail".into(),
                        role: Role::Git,
                        style: SpanStyle::Solid,
                    }],
                )],
                right: vec![],
            },
            CardSection {
                name: "project telemetry",
                role: Role::Secondary,
                left: vec![CardLine::new(
                    Role::Secondary,
                    vec![CardSpan {
                        text: "telemetry detail".into(),
                        role: Role::Secondary,
                        style: SpanStyle::Solid,
                    }],
                )],
                right: vec![],
            },
        ]
    } else {
        Vec::new()
    };
    CardBody {
        title: vec![],
        identity,
        identity_layout_height: 6,
        sections,
    }
}

#[derive(Default)]
struct Ops {
    calls: Vec<&'static str>,
}

impl TerminalOperations for Ops {
    fn enable_raw(&mut self) -> Result<(), String> {
        self.calls.push("raw+");
        Ok(())
    }
    fn enter_alternate(&mut self) -> Result<(), String> {
        self.calls.push("alt+");
        Ok(())
    }
    fn hide_cursor(&mut self) -> Result<(), String> {
        self.calls.push("hide");
        Ok(())
    }
    fn show_cursor(&mut self) -> Result<(), String> {
        self.calls.push("show");
        Ok(())
    }
    fn leave_alternate(&mut self) -> Result<(), String> {
        self.calls.push("alt-");
        Ok(())
    }
    fn disable_raw(&mut self) -> Result<(), String> {
        self.calls.push("raw-");
        Ok(())
    }
}

/// What a scripted live view meets, and what it did.
struct Script {
    events: Vec<Result<Option<LiveEvent>, LiveError>>,
    preflight: Result<(), LiveError>,
    image: bool,
    render_fails: bool,
    refresh_fails: bool,
    delete_fails: bool,
    interval: u64,
    /// What the clock goes on by while an event is waited for.
    step: u64,
    options: LiveOptions,
}

#[derive(Default)]
struct Done {
    ops: Ops,
    draws: usize,
    spinners: Vec<usize>,
    waits: Vec<u64>,
    resizes: usize,
    refreshes: usize,
    deletes: usize,
    full: Option<bool>,
}

fn script(events: Vec<Result<Option<LiveEvent>, LiveError>>) -> Script {
    Script {
        events,
        preflight: Ok(()),
        image: false,
        render_fails: false,
        refresh_fails: false,
        delete_fails: false,
        interval: 0,
        step: 0,
        options: LiveOptions { full: false },
    }
}

fn run(
    mut script: Script,
    settings: Settings,
    protocol: SelectedProtocol,
    has_image: bool,
) -> (Result<(), LiveError>, Done) {
    let mut done = Done::default();
    let mut now = 1_000;
    let mut live = match LiveLoop::new(&settings, has_image, caps(), &session(protocol), script.options) {
        Ok(live) => live,
        Err(error) => return (Err(error), done),
    };
    let mut guard = None;
    loop {
        let input = match live.action() {
            LiveAction::Prepare => LiveInput::Prepared(script.preflight.clone()),
            LiveAction::Enter => {
                let preflight = prevalidate_live(caps()).unwrap();
                let entered = LiveTerminalGuard::enter(&mut done.ops, preflight);
                let result = match entered {
                    Ok(entered) => {
                        guard = Some(entered);
                        Ok(())
                    }
                    Err(error) => Err(error),
                };
                LiveInput::Entered { result, now, interval: script.interval }
            }
            LiveAction::Draw { spinner, options } => {
                done.draws += 1;
                done.spinners.push(spinner);
                done.full = Some(options.full);
                LiveInput::Drawn(if script.render_fails {
                    Err(LiveError::Render("injected".into()))
                } else {
                    Ok(script.image)
                })
            }
            LiveAction::ReadClock => LiveInput::Clock { now },
            LiveAction::Wait { timeout } => {
                done.waits.push(timeout);
                now += script.step;
                LiveInput::Arrived(script.events.remove(0))
            }
            LiveAction::Resize => {
                done.resizes += 1;
                LiveInput::Resized
            }
            LiveAction::Refresh => {
                done.refreshes += 1;
                let result = if script.refresh_fails {
                    Err(LiveError::Refresh("injected".into()))
                } else {
                    Ok(())
                };
                LiveInput::Refreshed { result, now, interval: script.interval }
            }
            LiveAction::Leave => {
                let _ = guard.as_mut().unwrap().restore(&mut done.ops);
                LiveInput::Left
            }
            LiveAction::Delete => {
                done.deletes += 1;
                LiveInput::Deleted(if script.delete_fails { Err("cleanup".into()) } else { Ok(()) })
            }
            LiveAction::Finish => return (live.outcome(), done),
        };
        live.take(input);
    }
}

/// An event of the terminal as the live view reads it.
fn read(event: Event) -> TerminalEvent {
    match event {
        Event::Resize(..) => TerminalEvent::Resize,
        Event::Key(key) => TerminalEvent::Key {
            press: key.kind == KeyEventKind::Press,
            key: match key.code {
                KeyCode::Char(c) => Key::Char(c),
                KeyCode::Esc => Key::Escape,
                _ => Key::Other,
            },
            control: key.modifiers.contains(KeyModifiers::CONTROL),
        },
        _ => TerminalEvent::Other,
    }
}

fn area(rect: Rect) -> ratatui::layout::Rect {
    ratatui::layout::Rect::new(rect.x, rect.y, rect.width, rect.height)
}

/// Paints a plan with `mark` in place of its image, and says whether it did.
fn paint(terminal: &mut Terminal<TestBackend>, plan: &LivePlan, mark: &str) -> bool {
    let mut rendered = false;
    terminal
        .draw(|frame| {
            let block = Block::default().borders(Borders::ALL).title(" hoshino ");
            let inner = block.inner(area(plan.card));
            frame.render_widget(block, area(plan.card));
            let colors = palette(Theme::DuskDarker);
            let lines: Vec<Line> = plan
                .lines
                .iter()
                .map(|line| {
                    Line::from(
                        live_chunks(line, usize::from(inner.width), colors)
                            .into_iter()
                            .map(|chunk| Span::raw(chunk.text))
                            .collect::<Vec<_>>(),
                    )
                })
                .collect();
            frame.render_widget(Paragraph::new(Text::from(lines)), inner);
            if let Some(image) = plan.image {
                frame.render_widget(Paragraph::new(mark.to_string()), area(image));
                rendered = true;
            }
        })
        .unwrap();
    rendered
}

const HELD: [&str; 6] = ["raw+", "alt+", "hide", "show", "alt-", "raw-"];

#[test]
fn exits_and_restores_for_q_esc_and_ctrl_c() {
    for event in [LiveEvent::Quit, LiveEvent::Quit, LiveEvent::Quit] {
        let (result, done) = run(
            script(vec![Ok(Some(event))]),
            Settings::default(),
            SelectedProtocol::Text,
            false,
        );
        assert!(result.is_ok());
        assert_eq!(done.ops.calls, HELD);
    }
}

#[test]
fn crossterm_exit_keys_map_without_owning_terminal() {
    for event in [
        Event::Key(KeyEvent::new(KeyCode::Char('q'), KeyModifiers::NONE)),
        Event::Key(KeyEvent::new(KeyCode::Esc, KeyModifiers::NONE)),
        Event::Key(KeyEvent::new(KeyCode::Char('c'), KeyModifiers::CONTROL)),
    ] {
        assert_eq!(map_event(read(event)), Some(LiveEvent::Quit));
    }
    assert_eq!(
        map_event(read(Event::Key(KeyEvent::new(
            KeyCode::Char('c'),
            KeyModifiers::NONE,
        )))),
        None
    );
    assert_eq!(map_event(read(Event::Resize(80, 24))), Some(LiveEvent::Resize));
    assert_eq!(map_event(read(Event::FocusLost)), None);
    let released = TerminalEvent::Key { press: false, key: Key::Char('q'), control: false };
    assert_eq!(map_event(released), None);
}

#[test]
fn resize_and_spinner_draw_before_exit() {
    let (result, done) = run(
        script(vec![
            Ok(Some(LiveEvent::Resize)),
            Ok(Some(LiveEvent::Tick)),
            Ok(Some(LiveEvent::Quit)),
        ]),
        Settings::default(),
        SelectedProtocol::Text,
        false,
    );
    assert!(result.is_ok());
    assert_eq!(done.resizes, 1);
    assert_eq!(done.draws, 3);
    assert_eq!(done.spinners, [0, 1, 2]);
}

#[test]
fn full_option_reaches_the_injected_renderer() {
    let mut full = script(vec![Ok(Some(LiveEvent::Quit))]);
    full.options = LiveOptions { full: true };
    let (result, done) = run(full, Settings::default(), SelectedProtocol::Text, false);
    assert!(result.is_ok());
    assert_eq!(done.full, Some(true));
}

#[test]
fn layout_honors_left_top_and_narrow_text_fallback() {
    let mut settings = Settings::default();
    settings.image.width_cells = 12;
    settings.image.max_height_rows = 6;
    let left = live_plan(Rect::new(0, 0, 43, 12), &settings, body(false), false, true);
    assert_eq!(left.image, Some(Rect::new(2, 2, 6, 4)));
    assert_eq!(left.lines[0].fragments[0].text, "        ");
    assert_eq!(left.lines[0].fragments[1].text, "│");
    let mut too_short_for_padding = body(false);
    too_short_for_padding.identity.truncate(2);
    assert_eq!(
        live_plan(
            Rect::new(0, 0, 43, 12),
            &settings,
            too_short_for_padding,
            false,
            true
        )
        .image,
        None
    );
    settings.image.position = ImagePosition::Top;
    let top = live_plan(Rect::new(0, 0, 40, 20), &settings, body(false), false, true);
    assert_eq!(top.image, Some(Rect::new(14, 1, 12, 6)));
    assert_eq!(
        live_plan(Rect::new(0, 0, 20, 2), &settings, body(false), false, true).image,
        None
    );
}

#[test]
fn image_thresholds_and_width_caps_recompute_for_every_resize() {
    let mut settings = Settings::default();
    settings.image.width_cells = 12;
    settings.image.max_height_rows = 1;
    for (width, visible) in [(42, false), (43, true), (44, true)] {
        let plan = live_plan(
            Rect::new(0, 0, width, 20),
            &settings,
            body(false),
            false,
            true,
        );
        assert_eq!(plan.image.is_some(), visible, "left {width}");
    }
    settings.image.position = ImagePosition::Top;
    for (width, visible) in [(33, false), (34, true), (35, true)] {
        let plan = live_plan(
            Rect::new(0, 0, width, 20),
            &settings,
            body(false),
            false,
            true,
        );
        assert_eq!(plan.image.is_some(), visible, "top {width}");
    }
    for (width, expected) in [(160, 104), (40, 40), (160, 104)] {
        assert_eq!(
            live_plan(
                Rect::new(0, 0, width, 20),
                &settings,
                body(false),
                false,
                false
            )
            .card
            .width,
            expected
        );
    }
    assert_eq!(
        live_plan(Rect::new(0, 0, 160, 30), &settings, body(true), true, false)
            .card
            .width,
        120
    );
}

#[test]
fn left_identity_inset_stops_before_full_width_sections() {
    let mut settings = Settings::default();
    settings.image.width_cells = 8;
    settings.image.max_height_rows = 3;
    let plan = live_plan(Rect::new(0, 0, 104, 30), &settings, body(true), true, true);
    assert_eq!(plan.lines[0].fragments[1].text, "│");
    let section = &plan.lines[6];
    assert!(section.text.contains("[ system & health ]"));
    assert_eq!(
        section.role,
        Role::System(SystemRole::Health)
    );
    assert_ne!(
        section.fragments.first().map(|span| span.text.as_str()),
        Some("│")
    );
}

#[test]
fn top_image_drops_before_semantic_fallback_and_height_never_clips() {
    let mut settings = Settings::default();
    settings.image.position = ImagePosition::Top;
    settings.image.width_cells = 8;
    settings.image.max_height_rows = 3;
    // Three section bodies each include heading, detail, and trailing spacer.
    let required = u16::try_from(body(true).identity.len() + 9).unwrap();
    let dropped = live_plan(
        Rect::new(0, 0, 80, required + 2),
        &settings,
        body(true),
        true,
        true,
    );
    assert_eq!(dropped.image, None);
    assert_eq!(dropped.lines.len(), usize::from(required));
    for height in [required + 1, required + 2, required + 3] {
        let plan = live_plan(
            Rect::new(0, 0, 80, height),
            &settings,
            body(true),
            true,
            true,
        );
        assert!(plan.lines.len() <= usize::from(plan.card.height.saturating_sub(2)));
        if height < required + 2 {
            assert!(
                plan.lines
                    .last()
                    .is_some_and(|line| line.text.contains("resize for details")
                        && line.text.contains("full details hidden"))
            );
        }
    }
}

#[test]
fn test_backend_has_one_capped_block_and_semantic_line_order() {
    let plan = live_plan(
        Rect::new(0, 0, 160, 30),
        &Settings::default(),
        body(true),
        true,
        false,
    );
    let mut terminal = Terminal::new(TestBackend::new(160, 30)).unwrap();
    paint(&mut terminal, &plan, "M");
    let buffer = terminal.backend().buffer();
    assert_eq!(buffer[(0, 0)].symbol(), "┌");
    assert_eq!(buffer[(119, 0)].symbol(), "┐");
    assert_eq!(buffer[(120, 0)].symbol(), " ");
    let order = plan
        .lines
        .iter()
        .map(|line| line.text.as_str())
        .collect::<Vec<_>>()
        .join("\n");
    assert!(
        order.find("[ system & health ]").unwrap() < order.find("[ active context ]").unwrap()
    );
    assert!(
        order.find("[ active context ]").unwrap() < order.find("[ project telemetry ]").unwrap()
    );
}

#[test]
fn semantic_reservation_is_painted_before_left_and_top_image_markers() {
    for position in [ImagePosition::Left, ImagePosition::Top] {
        let mut settings = Settings::default();
        settings.image.position = position;
        settings.image.width_cells = 8;
        settings.image.max_height_rows = 3;
        let plan = live_plan(Rect::new(0, 0, 80, 20), &settings, body(false), false, true);
        let image_area = plan.image.expect("fixture geometry displays image");
        let top = plan.card.y + 1;
        let left = usize::from(image_area.x - plan.card.x - 1);
        for y in image_area.y..image_area.y + image_area.height {
            let line = &plan.lines[usize::from(y - top)];
            let columns = usize::from(plan.card.width - 2);
            let row: String = live_chunks(line, columns, palette(settings.theme))
                .into_iter()
                .map(|chunk| chunk.text)
                .collect();
            let reserved = row.chars().skip(left).take(usize::from(image_area.width));
            assert!(reserved.into_iter().all(|c| c == ' '), "{row:?}");
        }
        let mut terminal = Terminal::new(TestBackend::new(80, 20)).unwrap();
        let rendered = paint(&mut terminal, &plan, "M");
        assert!(rendered);
        assert_eq!(terminal.backend().buffer()[(image_area.x, image_area.y)].symbol(), "M");
        for x in image_area.x + 1..image_area.x + image_area.width {
            for y in image_area.y..image_area.y + image_area.height {
                assert_eq!(terminal.backend().buffer()[(x, y)].symbol(), " ");
            }
        }
    }
}

#[test]
fn dropped_image_plan_never_reports_a_protocol_placeholder() {
    let mut settings = Settings::default();
    settings.image.width_cells = 8;
    let narrow = live_plan(Rect::new(0, 0, 42, 20), &settings, body(false), false, true);
    settings.image.position = ImagePosition::Top;
    settings.image.max_height_rows = 3;
    let short = live_plan(Rect::new(0, 0, 80, 13), &settings, body(true), true, true);
    for plan in [narrow, short] {
        let mut terminal = Terminal::new(TestBackend::new(80, 20)).unwrap();
        assert!(!paint(&mut terminal, &plan, "M"));
        assert_eq!(plan.image, None);
    }
}

#[test]
fn halfblocks_constructs_without_pixel_geometry() {
    let mut no_geometry = caps();
    no_geometry.cell_pixels = None;
    assert_eq!(live_font(no_geometry, SelectedProtocol::Halfblocks).unwrap(), (1, 2));
    assert_eq!(live_font(caps(), SelectedProtocol::Kitty).unwrap(), (8, 16));
    assert_eq!(
        live_font(no_geometry, SelectedProtocol::Kitty).unwrap_err().to_text(),
        "live image needs cell pixel geometry"
    );
}

#[test]
fn refreshes_on_the_provider_interval_and_restores_refresh_errors() {
    let mut timed = script(vec![Ok(Some(LiveEvent::Tick)), Ok(Some(LiveEvent::Quit))]);
    timed.interval = SPINNER_INTERVAL;
    timed.step = SPINNER_INTERVAL;
    let (result, done) = run(timed, Settings::default(), SelectedProtocol::Text, false);
    assert!(result.is_ok());
    assert_eq!(done.refreshes, 1);
    assert!(done.waits.iter().all(|wait| *wait <= SPINNER_INTERVAL));

    let mut failing = script(vec![Ok(Some(LiveEvent::Tick))]);
    failing.interval = SPINNER_INTERVAL;
    failing.step = SPINNER_INTERVAL;
    failing.refresh_fails = true;
    let (result, done) = run(failing, Settings::default(), SelectedProtocol::Text, false);
    assert!(matches!(result, Err(LiveError::Refresh(_))));
    assert_eq!(done.ops.calls, HELD);
}

#[test]
fn errors_restore_and_delete_only_rendered_kitty() {
    let mut failing = script(vec![Err(LiveError::Event("injected".into()))]);
    failing.image = true;
    let (result, done) = run(failing, Settings::default(), SelectedProtocol::Kitty, true);
    assert!(matches!(result, Err(LiveError::Event(_))));
    assert_eq!(done.ops.calls, HELD);
    assert_eq!(done.deletes, 1);
    let mut other = script(vec![Ok(Some(LiveEvent::Quit))]);
    other.image = true;
    let (_, done) = run(other, Settings::default(), SelectedProtocol::Iterm2, true);
    assert_eq!(done.deletes, 0);
    let (_, done) = run(
        script(vec![Ok(Some(LiveEvent::Quit))]),
        Settings::default(),
        SelectedProtocol::Kitty,
        true,
    );
    assert_eq!(done.deletes, 0, "a dropped image never owns Kitty cleanup");
}

#[test]
fn cleanup_failure_does_not_replace_a_live_error() {
    let mut failing = script(vec![Err(LiveError::Event("primary".into()))]);
    failing.image = true;
    failing.delete_fails = true;
    let (result, done) = run(failing, Settings::default(), SelectedProtocol::Kitty, true);
    assert!(matches!(result, Err(LiveError::Event(message)) if message == "primary"));
    assert_eq!(done.ops.calls, HELD);
    let mut cleaning = script(vec![Ok(Some(LiveEvent::Quit))]);
    cleaning.image = true;
    cleaning.delete_fails = true;
    let (result, _) = run(cleaning, Settings::default(), SelectedProtocol::Kitty, true);
    assert!(matches!(result, Err(LiveError::Terminal(message)) if message == "cleanup"));
}

#[test]
fn failed_prevalidation_never_owns_terminal() {
    let mut bad = script(vec![]);
    bad.preflight = Err(LiveError::Event("bad".into()));
    let settings = Settings {
        image: ImageSettings {
            width_cells: 0,
            ..ImageSettings::default()
        },
        ..Settings::default()
    };
    let (result, done) = run(bad, settings, SelectedProtocol::Text, false);
    assert!(matches!(result, Err(LiveError::InvalidInput(_))));
    assert!(done.ops.calls.is_empty());
    let mut refused = script(vec![]);
    refused.preflight = Err(LiveError::Event("bad".into()));
    let (result, done) = run(refused, Settings::default(), SelectedProtocol::Text, false);
    assert!(matches!(result, Err(LiveError::Event(_))));
    assert!(done.ops.calls.is_empty());
}

#[test]
fn failed_rendering_gives_the_terminal_back() {
    let mut failing = script(vec![]);
    failing.render_fails = true;
    let (result, done) = run(failing, Settings::default(), SelectedProtocol::Text, false);
    assert!(matches!(result, Err(LiveError::Render(_))));
    assert_eq!(done.ops.calls, HELD);
    assert_eq!(done.draws, 1);
}

#[test]
fn a_view_off_the_terminal_never_begins() {
    let piped = TerminalCapabilities { stdin_tty: false, ..caps() };
    let session = session(SelectedProtocol::Text);
    let mut live = LiveLoop::new(&Settings::default(), false, piped, &session, LiveOptions::default()).unwrap();
    live.take(LiveInput::Prepared(Ok(())));
    assert_eq!(live.action(), LiveAction::Finish);
    assert!(matches!(live.outcome(), Err(LiveError::Image(ImageError::LiveRequiresTtys))));
}

#[test]
fn pixels_need_cells_of_a_known_size() {
    let unknown = TerminalCapabilities { cell_pixels: None, ..caps() };
    let session = session(SelectedProtocol::Sixel);
    let error = LiveLoop::new(&Settings::default(), true, unknown, &session, LiveOptions::default()).unwrap_err();
    assert_eq!(
        error.to_text(),
        "live pixel protocols require non-query cell pixel geometry"
    );
    assert!(LiveLoop::new(&Settings::default(), false, unknown, &session, LiveOptions::default()).is_ok());
    assert!(shows_image(SelectedProtocol::Halfblocks));
    assert!(!shows_image(SelectedProtocol::Off));
}

#[test]
fn the_spinner_has_as_many_pictures_as_it_counts() {
    let ticks = (0..5).map(|_| Ok(Some(LiveEvent::Tick))).chain([Ok(Some(LiveEvent::Quit))]);
    let (_, done) =
        run(script(ticks.collect()), Settings::default(), SelectedProtocol::Text, false);
    assert_eq!(done.spinners, [0, 1, 2, 3, 0, 1]);
    assert_eq!(SPINNER.len(), 4);
}

#[test]
fn auto_uses_trusted_geometry_or_text_without_query() {
    assert_eq!(
        resolve_live_protocol(&session(SelectedProtocol::BoundedQueryRequired), caps()),
        SelectedProtocol::Kitty
    );
    let mut no_geometry = caps();
    no_geometry.cell_pixels = None;
    assert_eq!(
        resolve_live_protocol(
            &session(SelectedProtocol::BoundedQueryRequired),
            no_geometry
        ),
        SelectedProtocol::Text
    );
}

#[test]
fn kitty_animation_advances_clamped_decoded_frames_with_the_same_session_id() {
    let delays = vec![20, 20];
    let id = session(SelectedProtocol::Kitty).id;
    let mut clock = FrameClock::new(SelectedProtocol::Kitty, id, false, &delays, 5);
    assert_eq!(clock.next_frame, 20_000_005);
    assert!(!clock.advance(&delays, 20_000_004));
    assert_eq!(clock.index, 0);
    assert!(clock.advance(&delays, 20_000_005));
    assert_eq!(clock.index, 1);
    assert_eq!(clock.kitty, Some((id, false)));
    assert!(clock.advance(&delays, 40_000_005));
    assert_eq!(clock.index, 0);
    assert_eq!(clock.kitty, Some((id, false)));
    let mut still = FrameClock::new(SelectedProtocol::Kitty, id, true, &vec![20], 0);
    assert!(!still.advance(&vec![20], u64::MAX));
    assert_eq!(still.kitty, Some((id, true)));
    let mut other = FrameClock::new(SelectedProtocol::Sixel, id, false, &delays, 0);
    assert_eq!(other.kitty, None);
    assert!(!other.advance(&delays, u64::MAX));
}

#[test]
fn live_errors_have_their_words() {
    for (error, words) in [
        (LiveError::Event("e".into()), "live event error: e"),
        (LiveError::Refresh("r".into()), "live refresh error: r"),
        (LiveError::Render("d".into()), "live render error: d"),
        (LiveError::Terminal("t".into()), "live terminal error: t"),
        (LiveError::InvalidInput("nothing"), "nothing"),
        (
            LiveError::Image(ImageError::UnsupportedFormat),
            "image format must be PNG, JPEG, GIF, or WebP",
        ),
    ] {
        assert_eq!(error.to_text(), words);
    }
}

#[test]
fn live_rows_keep_to_the_width_that_they_are_drawn_in() {
    let text = "1\u{fe0f}\u{20e3}2\u{fe0f}\u{20e3}3\u{fe0f}\u{20e3}ab#\u{fe0f}";
    let line = row(Role::Text, vec![span("at ", Role::Text), span(text, Role::Primary)]);
    for width in 0..14 {
        let taken: usize = live_chunks(&line, width, palette(Theme::DuskDarker))
            .iter()
            .map(|chunk| visible_width(&chunk.text))
            .sum();
        assert!(taken <= width, "{width}");
    }
}
