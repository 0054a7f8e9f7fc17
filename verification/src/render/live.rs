//! The live view as decisions: what to do next, and how it ends.
use vstd::prelude::*;
use crate::config::Settings;
use crate::render::images::{
    ImageError, ImageErrorView, ImageSession, SelectedProtocol, TerminalCapabilities, TerminalKind,
};

verus! {

/// The pictures of the spinner.
pub const SPINNER: [&'static str; 4] = ["⠋", "⠙", "⠹", "⠸"];

/// How long one picture of the spinner stays, in nanoseconds.
pub const SPINNER_INTERVAL: u64 = 125_000_000;

#[derive(Clone, Debug)]
pub enum LiveError {
    Image(ImageError),
    Event(String),
    Refresh(String),
    Render(String),
    Terminal(String),
    InvalidInput(&'static str),
}

pub enum LiveErrorView {
    Image(ImageErrorView),
    Event(Seq<char>),
    Refresh(Seq<char>),
    Render(Seq<char>),
    Terminal(Seq<char>),
    InvalidInput(Seq<char>),
}

impl View for LiveError {
    type V = LiveErrorView;

    open spec fn view(&self) -> LiveErrorView {
        match *self {
            LiveError::Image(error) => LiveErrorView::Image(error@),
            LiveError::Event(message) => LiveErrorView::Event(message@),
            LiveError::Refresh(message) => LiveErrorView::Refresh(message@),
            LiveError::Render(message) => LiveErrorView::Render(message@),
            LiveError::Terminal(message) => LiveErrorView::Terminal(message@),
            LiveError::InvalidInput(message) => LiveErrorView::InvalidInput(message@),
        }
    }
}

impl LiveErrorView {
    pub open spec fn text(self) -> Seq<char> {
        match self {
            LiveErrorView::Image(error) => error.text(),
            LiveErrorView::Event(message) => "live event error: "@ + message,
            LiveErrorView::Refresh(message) => "live refresh error: "@ + message,
            LiveErrorView::Render(message) => "live render error: "@ + message,
            LiveErrorView::Terminal(message) => "live terminal error: "@ + message,
            LiveErrorView::InvalidInput(message) => message,
        }
    }
}

impl LiveError {
    /// The error as the user reads it.
    pub fn to_text(&self) -> (text: String)
        ensures
            text@ == self@.text(),
    {
        match self {
            LiveError::Image(error) => error.to_text(),
            LiveError::Event(message) => "live event error: ".to_owned().concat(message.as_str()),
            LiveError::Refresh(message) => "live refresh error: ".to_owned().concat(
                message.as_str(),
            ),
            LiveError::Render(message) => "live render error: ".to_owned().concat(
                message.as_str(),
            ),
            LiveError::Terminal(message) => "live terminal error: ".to_owned().concat(
                message.as_str(),
            ),
            LiveError::InvalidInput(message) => (*message).to_owned(),
        }
    }
}

#[derive(Clone, Copy, Debug, PartialEq, Eq, Structural)]
pub enum LiveEvent {
    Quit,
    Resize,
    Tick,
}

#[derive(Clone, Copy, Debug, PartialEq, Eq, Structural)]
pub struct LiveOptions {
    pub full: bool,
}

impl Default for LiveOptions {
    fn default() -> (options: Self)
        ensures
            !options.full,
    {
        LiveOptions { full: false }
    }
}

/// A key of the keyboard, as far as the live view tells them apart.
#[derive(Clone, Copy, Debug, PartialEq, Eq, Structural)]
pub enum Key {
    Char(char),
    Escape,
    Other,
}

/// What the terminal reports.
#[derive(Clone, Copy, Debug, PartialEq, Eq, Structural)]
pub enum TerminalEvent {
    Resize,
    Key { press: bool, key: Key, control: bool },
    Other,
}

/// What an event of the terminal means: `q`, Escape and Control with `c` end the view,
/// when they are pressed.
pub fn map_event(event: TerminalEvent) -> (meaning: Option<LiveEvent>)
    ensures
        meaning == match event {
            TerminalEvent::Resize => Some(LiveEvent::Resize),
            TerminalEvent::Key { press, key, control } => if press && (key == Key::Char('q') || key
                == Key::Escape || (key == Key::Char('c') && control)) {
                Some(LiveEvent::Quit)
            } else {
                None
            },
            TerminalEvent::Other => None,
        },
{
    match event {
        TerminalEvent::Resize => Some(LiveEvent::Resize),
        TerminalEvent::Key { press, key, control } => {
            if !press {
                return None;
            }
            match key {
                Key::Char(c) => if c == 'q' || (c == 'c' && control) {
                    Some(LiveEvent::Quit)
                } else {
                    None
                },
                Key::Escape => Some(LiveEvent::Quit),
                Key::Other => None,
            }
        },
        TerminalEvent::Other => None,
    }
}

/// The protocol of the live view: what was decided on, or, where that was left to a
/// query, what the terminal and its cells are known to do.
pub open spec fn live_protocol(decided: SelectedProtocol, caps: TerminalCapabilities) -> SelectedProtocol {
    if decided != SelectedProtocol::BoundedQueryRequired {
        decided
    } else if caps.cell_pixels is None {
        SelectedProtocol::Text
    } else {
        match caps.terminal {
            TerminalKind::Ghostty => SelectedProtocol::Kitty,
            TerminalKind::Iterm2 => SelectedProtocol::Iterm2,
            TerminalKind::Other => SelectedProtocol::Text,
        }
    }
}

pub fn resolve_live_protocol(session: &ImageSession, caps: TerminalCapabilities) -> (protocol:
    SelectedProtocol)
    ensures
        protocol == live_protocol(session.decision.protocol, caps),
{
    match session.decision.protocol {
        SelectedProtocol::BoundedQueryRequired => {
            if caps.cell_pixels.is_none() {
                return SelectedProtocol::Text;
            }
            match caps.terminal {
                TerminalKind::Ghostty => SelectedProtocol::Kitty,
                TerminalKind::Iterm2 => SelectedProtocol::Iterm2,
                TerminalKind::Other => SelectedProtocol::Text,
            }
        },
        protocol => protocol,
    }
}

/// A protocol that draws pixels.
pub open spec fn draws_pixels(protocol: SelectedProtocol) -> bool {
    protocol == SelectedProtocol::Kitty || protocol == SelectedProtocol::Iterm2 || protocol
        == SelectedProtocol::Sixel
}

/// What is wrong with what the live view is to show, if anything.
pub open spec fn input_fault(
    settings: Settings,
    has_image: bool,
    caps: TerminalCapabilities,
    session: ImageSession,
) -> Option<LiveErrorView> {
    if settings.image.width_cells == 0 || settings.image.max_height_rows == 0 {
        Some(LiveErrorView::InvalidInput("live image cell bounds must be nonzero"@))
    } else if has_image && draws_pixels(live_protocol(session.decision.protocol, caps))
        && caps.cell_pixels is None {
        Some(
            LiveErrorView::Image(
                ImageErrorView::InvalidGeometry(
                    "live pixel protocols require non-query cell pixel geometry"@,
                ),
            ),
        )
    } else {
        None
    }
}

/// The protocol of a live view that can begin.
pub fn prevalidate_inputs(
    settings: &Settings,
    has_image: bool,
    caps: TerminalCapabilities,
    session: &ImageSession,
) -> (protocol: Result<SelectedProtocol, LiveError>)
    ensures
        match protocol {
            Ok(protocol) => input_fault(*settings, has_image, caps, *session) is None && protocol
                == live_protocol(session.decision.protocol, caps),
            Err(error) => input_fault(*settings, has_image, caps, *session) == Some(error@),
        },
{
    if settings.image.width_cells == 0 || settings.image.max_height_rows == 0 {
        return Err(LiveError::InvalidInput("live image cell bounds must be nonzero"));
    }
    let protocol = resolve_live_protocol(session, caps);
    let pixels = match protocol {
        SelectedProtocol::Kitty | SelectedProtocol::Iterm2 | SelectedProtocol::Sixel => true,
        _ => false,
    };
    if has_image && pixels && caps.cell_pixels.is_none() {
        return Err(
            LiveError::Image(
                ImageError::InvalidGeometry(
                    "live pixel protocols require non-query cell pixel geometry",
                ),
            ),
        );
    }
    Ok(protocol)
}

/// Whether the live view shows an image that it has, under this protocol.
pub fn shows_image(protocol: SelectedProtocol) -> (shows: bool)
    ensures
        shows == (draws_pixels(protocol) || protocol == SelectedProtocol::Halfblocks),
{
    match protocol {
        SelectedProtocol::Text | SelectedProtocol::Off | SelectedProtocol::BoundedQueryRequired =>
            false,
        _ => true,
    }
}

/// The cell that a live image is measured by: the known one, as far as 16 bits go, or for
/// half blocks one of twice its width.
pub fn live_font(caps: TerminalCapabilities, protocol: SelectedProtocol) -> (font: Result<
    (u16, u16),
    LiveError,
>)
    ensures
        match font {
            Ok(font) => match caps.cell_pixels {
                Some(cell) => font.0 == cell.width % 0x1_0000 && font.1 == cell.height % 0x1_0000,
                None => protocol == SelectedProtocol::Halfblocks && font == (1u16, 2u16),
            },
            Err(error) => caps.cell_pixels is None && protocol != SelectedProtocol::Halfblocks
                && error@ == LiveErrorView::InvalidInput("live image needs cell pixel geometry"@),
        },
{
    match caps.cell_pixels {
        Some(cell) => Ok(((cell.width % 0x1_0000) as u16, (cell.height % 0x1_0000) as u16)),
        None => match protocol {
            SelectedProtocol::Halfblocks => Ok((1, 2)),
            _ => Err(LiveError::InvalidInput("live image needs cell pixel geometry")),
        },
    }
}

pub open spec fn capped_add(left: u64, right: u64) -> u64 {
    if left + right > u64::MAX {
        u64::MAX
    } else {
        (left + right) as u64
    }
}

/// A number of milliseconds in nanoseconds.
pub open spec fn nanoseconds(milliseconds: u64) -> u64 {
    if milliseconds * 1_000_000 > u64::MAX {
        u64::MAX
    } else {
        (milliseconds * 1_000_000) as u64
    }
}

fn to_nanoseconds(milliseconds: u64) -> (time: u64)
    ensures
        time == nanoseconds(milliseconds),
{
    match milliseconds.checked_mul(1_000_000) {
        Some(time) => time,
        None => u64::MAX,
    }
}

/// The frame of an animation that is shown, and until when, in nanoseconds.
#[derive(Clone, Copy, Debug, PartialEq, Eq)]
pub struct FrameClock {
    pub index: usize,
    pub next_frame: u64,
    /// The id that every frame is shown under, and whether tmux stands in between: for the
    /// one protocol that can show more than the first frame.
    pub kitty: Option<(u32, bool)>,
}

impl FrameClock {
    /// The next frame is due: it can be shown, there is more than one, and the time has
    /// come.
    pub open spec fn due(self, frames: nat, now: u64) -> bool {
        self.kitty is Some && frames >= 2 && now >= self.next_frame
    }

    /// Begins with the first frame.
    pub fn new(
        protocol: SelectedProtocol,
        id: u32,
        is_tmux: bool,
        delays: &Vec<u64>,
        now: u64,
    ) -> (clock: Self)
        ensures
            clock.kitty == if protocol == SelectedProtocol::Kitty {
                Some((id, is_tmux))
            } else {
                None
            },
            clock.index == 0,
            clock.next_frame == if delays@.len() > 0 {
                capped_add(now, nanoseconds(delays@[0]))
            } else {
                now
            },
    {
        let next_frame: u64 = if delays.len() > 0 {
            now.saturating_add(to_nanoseconds(delays[0]))
        } else {
            now
        };
        let kitty = match protocol {
            SelectedProtocol::Kitty => Some((id, is_tmux)),
            _ => None,
        };
        FrameClock { index: 0, next_frame, kitty }
    }

    /// Goes on to the next frame, behind the last to the first again, where it is due; the
    /// id stays.
    pub fn advance(&mut self, delays: &Vec<u64>, now: u64) -> (advanced: bool)
        requires
            delays@.len() > 0 ==> old(self).index < delays@.len(),
        ensures
            advanced == old(self).due(delays@.len(), now),
            !advanced ==> *final(self) == *old(self),
            final(self).kitty == old(self).kitty,
            advanced ==> {
                &&& final(self).index == if old(self).index + 1 == delays@.len() {
                    0
                } else {
                    old(self).index + 1
                }
                &&& final(self).next_frame == capped_add(
                    now,
                    nanoseconds(delays@[final(self).index as int]),
                )
            },
            delays@.len() > 0 ==> final(self).index < delays@.len(),
    {
        if self.kitty.is_none() || delays.len() < 2 || now < self.next_frame {
            return false;
        }
        self.index = if self.index + 1 == delays.len() {
            0
        } else {
            self.index + 1
        };
        self.next_frame = now.saturating_add(to_nanoseconds(delays[self.index]));
        true
    }
}

/// What the live view is about.
#[derive(Clone, Copy, Debug, PartialEq, Eq, Structural)]
pub enum Phase {
    Preparing,
    Entering,
    Drawing,
    Timing,
    Waiting { timeout: u64 },
    Resizing,
    Checking,
    Refreshing,
    Leaving,
    Deleting,
    Finished,
}

/// What is to be done next.
#[derive(Clone, Copy, Debug, PartialEq, Eq, Structural)]
pub enum LiveAction {
    /// Check whatever events come from.
    Prepare,
    /// Take the terminal over.
    Enter,
    /// Draw the card, in full or not, with this picture of the spinner.
    Draw { spinner: usize, options: LiveOptions },
    /// Read the clock.
    ReadClock,
    /// Wait for an event, no longer than so many nanoseconds.
    Wait { timeout: u64 },
    /// Follow the new size of the terminal.
    Resize,
    /// Collect a new snapshot.
    Refresh,
    /// Give the terminal back.
    Leave,
    /// Delete the image from the terminal.
    Delete,
    /// Nothing: it is over.
    Finish,
}

/// What came of what was to be done.
pub enum LiveInput {
    Prepared(Result<(), LiveError>),
    Entered { result: Result<(), String>, now: u64, interval: u64 },
    /// Whether an image was drawn.
    Drawn(Result<bool, LiveError>),
    Clock { now: u64 },
    Arrived(Result<Option<LiveEvent>, LiveError>),
    Resized,
    Refreshed { result: Result<(), LiveError>, now: u64, interval: u64 },
    Left,
    Deleted(Result<(), String>),
}

/// A live view between its beginning and its end.
#[derive(Debug)]
pub struct LiveLoop {
    pub options: LiveOptions,
    pub protocol: SelectedProtocol,
    pub has_image: bool,
    /// Both streams are terminals.
    pub on_terminal: bool,
    pub phase: Phase,
    pub spinner: usize,
    pub next_refresh: u64,
    /// An image under an id of ours was drawn.
    pub kitty_rendered: bool,
    pub failure: Option<LiveError>,
}

pub struct LoopView {
    pub options: LiveOptions,
    pub protocol: SelectedProtocol,
    pub has_image: bool,
    pub on_terminal: bool,
    pub phase: Phase,
    pub spinner: int,
    pub next_refresh: u64,
    pub kitty_rendered: bool,
    pub failure: Option<LiveErrorView>,
}

pub open spec fn optional_error(error: Option<LiveError>) -> Option<LiveErrorView> {
    match error {
        Some(error) => Some(error@),
        None => None,
    }
}

impl View for LiveLoop {
    type V = LoopView;

    open spec fn view(&self) -> LoopView {
        LoopView {
            options: self.options,
            protocol: self.protocol,
            has_image: self.has_image,
            on_terminal: self.on_terminal,
            phase: self.phase,
            spinner: self.spinner as int,
            next_refresh: self.next_refresh,
            kitty_rendered: self.kitty_rendered,
            failure: optional_error(self.failure),
        }
    }
}

pub open spec fn smaller_of(left: u64, right: u64) -> u64 {
    if left <= right {
        left
    } else {
        right
    }
}

pub open spec fn larger_of(left: u64, right: u64) -> u64 {
    if left >= right {
        left
    } else {
        right
    }
}

impl LoopView {
    pub open spec fn to(self, phase: Phase) -> LoopView {
        LoopView { phase, ..self }
    }

    pub open spec fn failed(self, error: LiveErrorView, phase: Phase) -> LoopView {
        LoopView { phase, failure: Some(error), ..self }
    }

    /// The next refresh comes after the interval, but not before the next picture of the
    /// spinner.
    pub open spec fn refreshed(self, now: u64, interval: u64) -> LoopView {
        LoopView {
            phase: Phase::Drawing,
            next_refresh: capped_add(now, larger_of(interval, SPINNER_INTERVAL)),
            ..self
        }
    }

    /// How the live view goes on. What does not answer what was to be done changes
    /// nothing.
    pub open spec fn next(self, input: LiveInput) -> LoopView {
        match (self.phase, input) {
            (Phase::Preparing, LiveInput::Prepared(result)) => match result {
                Err(error) => self.failed(error@, Phase::Finished),
                Ok(()) => if self.on_terminal {
                    self.to(Phase::Entering)
                } else {
                    self.failed(
                        LiveErrorView::Image(ImageErrorView::LiveRequiresTtys),
                        Phase::Finished,
                    )
                },
            },
            (Phase::Entering, LiveInput::Entered { result, now, interval }) => match result {
                Err(message) => self.failed(LiveErrorView::Terminal(message@), Phase::Finished),
                Ok(()) => self.refreshed(now, interval),
            },
            (Phase::Drawing, LiveInput::Drawn(result)) => match result {
                Err(error) => self.failed(error@, Phase::Leaving),
                Ok(drawn) => LoopView {
                    phase: Phase::Timing,
                    kitty_rendered: self.kitty_rendered || (drawn && self.protocol
                        == SelectedProtocol::Kitty && self.has_image),
                    ..self
                },
            },
            (Phase::Timing, LiveInput::Clock { now }) => {
                let left = if self.next_refresh >= now {
                    (self.next_refresh - now) as u64
                } else {
                    0
                };
                self.to(Phase::Waiting { timeout: smaller_of(left, SPINNER_INTERVAL) })
            },
            (Phase::Waiting { timeout }, LiveInput::Arrived(result)) => match result {
                Err(error) => self.failed(error@, Phase::Leaving),
                Ok(event) => LoopView {
                    phase: match event {
                        Some(LiveEvent::Quit) => Phase::Leaving,
                        Some(LiveEvent::Resize) => Phase::Resizing,
                        _ => Phase::Checking,
                    },
                    spinner: (self.spinner + 1) % 4,
                    ..self
                },
            },
            (Phase::Resizing, LiveInput::Resized) => self.to(Phase::Checking),
            (Phase::Checking, LiveInput::Clock { now }) => if now >= self.next_refresh {
                self.to(Phase::Refreshing)
            } else {
                self.to(Phase::Drawing)
            },
            (Phase::Refreshing, LiveInput::Refreshed { result, now, interval }) => match result {
                Err(error) => self.failed(error@, Phase::Leaving),
                Ok(()) => self.refreshed(now, interval),
            },
            (Phase::Leaving, LiveInput::Left) => if self.kitty_rendered {
                self.to(Phase::Deleting)
            } else {
                self.to(Phase::Finished)
            },
            (Phase::Deleting, LiveInput::Deleted(result)) => match result {
                Err(message) => if self.failure is None {
                    self.failed(LiveErrorView::Terminal(message@), Phase::Finished)
                } else {
                    self.to(Phase::Finished)
                },
                Ok(()) => self.to(Phase::Finished),
            },
            _ => self,
        }
    }
}

impl LiveLoop {
    pub open spec fn sound(self) -> bool {
        self.spinner < 4
    }

    /// A live view that can begin.
    pub fn new(
        settings: &Settings,
        has_image: bool,
        caps: TerminalCapabilities,
        session: &ImageSession,
        options: LiveOptions,
    ) -> (begun: Result<Self, LiveError>)
        ensures
            match begun {
                Ok(live) => input_fault(*settings, has_image, caps, *session) is None && live.sound()
                    && live@ == (LoopView {
                    options,
                    protocol: live_protocol(session.decision.protocol, caps),
                    has_image,
                    on_terminal: caps.stdin_tty && caps.stdout_tty,
                    phase: Phase::Preparing,
                    spinner: 0,
                    next_refresh: 0,
                    kitty_rendered: false,
                    failure: None,
                }),
                Err(error) => input_fault(*settings, has_image, caps, *session) == Some(error@),
            },
    {
        match prevalidate_inputs(settings, has_image, caps, session) {
            Ok(protocol) => Ok(
                LiveLoop {
                    options,
                    protocol,
                    has_image,
                    on_terminal: caps.stdin_tty && caps.stdout_tty,
                    phase: Phase::Preparing,
                    spinner: 0,
                    next_refresh: 0,
                    kitty_rendered: false,
                    failure: None,
                },
            ),
            Err(error) => Err(error),
        }
    }

    /// What is to be done next.
    pub fn action(&self) -> (action: LiveAction)
        ensures
            action == match self.phase {
                Phase::Preparing => LiveAction::Prepare,
                Phase::Entering => LiveAction::Enter,
                Phase::Drawing => LiveAction::Draw { spinner: self.spinner, options: self.options },
                Phase::Timing => LiveAction::ReadClock,
                Phase::Waiting { timeout } => LiveAction::Wait { timeout },
                Phase::Resizing => LiveAction::Resize,
                Phase::Checking => LiveAction::ReadClock,
                Phase::Refreshing => LiveAction::Refresh,
                Phase::Leaving => LiveAction::Leave,
                Phase::Deleting => LiveAction::Delete,
                Phase::Finished => LiveAction::Finish,
            },
    {
        match self.phase {
            Phase::Preparing => LiveAction::Prepare,
            Phase::Entering => LiveAction::Enter,
            Phase::Drawing => LiveAction::Draw { spinner: self.spinner, options: self.options },
            Phase::Timing => LiveAction::ReadClock,
            Phase::Waiting { timeout } => LiveAction::Wait { timeout },
            Phase::Resizing => LiveAction::Resize,
            Phase::Checking => LiveAction::ReadClock,
            Phase::Refreshing => LiveAction::Refresh,
            Phase::Leaving => LiveAction::Leave,
            Phase::Deleting => LiveAction::Delete,
            Phase::Finished => LiveAction::Finish,
        }
    }

    /// Takes what came of what was to be done.
    pub fn take(&mut self, input: LiveInput)
        requires
            old(self).sound(),
        ensures
            final(self).sound(),
            final(self)@ == old(self)@.next(input),
    {
        match (self.phase, input) {
            (Phase::Preparing, LiveInput::Prepared(result)) => match result {
                Err(error) => {
                    self.failure = Some(error);
                    self.phase = Phase::Finished;
                },
                Ok(()) => {
                    if self.on_terminal {
                        self.phase = Phase::Entering;
                    } else {
                        self.failure = Some(LiveError::Image(ImageError::LiveRequiresTtys));
                        self.phase = Phase::Finished;
                    }
                },
            },
            (Phase::Entering, LiveInput::Entered { result, now, interval }) => match result {
                Err(message) => {
                    self.failure = Some(LiveError::Terminal(message));
                    self.phase = Phase::Finished;
                },
                Ok(()) => {
                    self.schedule(now, interval);
                },
            },
            (Phase::Drawing, LiveInput::Drawn(result)) => match result {
                Err(error) => {
                    self.failure = Some(error);
                    self.phase = Phase::Leaving;
                },
                Ok(drawn) => {
                    let kitty = match self.protocol {
                        SelectedProtocol::Kitty => true,
                        _ => false,
                    };
                    self.kitty_rendered = self.kitty_rendered || (drawn && kitty
                        && self.has_image);
                    self.phase = Phase::Timing;
                },
            },
            (Phase::Timing, LiveInput::Clock { now }) => {
                let left: u64 = self.next_refresh.saturating_sub(now);
                let timeout: u64 = if left <= SPINNER_INTERVAL {
                    left
                } else {
                    SPINNER_INTERVAL
                };
                self.phase = Phase::Waiting { timeout };
            },
            (Phase::Waiting { timeout: _ }, LiveInput::Arrived(result)) => match result {
                Err(error) => {
                    self.failure = Some(error);
                    self.phase = Phase::Leaving;
                },
                Ok(event) => {
                    self.spinner = (self.spinner + 1) % 4;
                    self.phase = match event {
                        Some(LiveEvent::Quit) => Phase::Leaving,
                        Some(LiveEvent::Resize) => Phase::Resizing,
                        _ => Phase::Checking,
                    };
                },
            },
            (Phase::Resizing, LiveInput::Resized) => {
                self.phase = Phase::Checking;
            },
            (Phase::Checking, LiveInput::Clock { now }) => {
                self.phase = if now >= self.next_refresh {
                    Phase::Refreshing
                } else {
                    Phase::Drawing
                };
            },
            (Phase::Refreshing, LiveInput::Refreshed { result, now, interval }) => match result {
                Err(error) => {
                    self.failure = Some(error);
                    self.phase = Phase::Leaving;
                },
                Ok(()) => {
                    self.schedule(now, interval);
                },
            },
            (Phase::Leaving, LiveInput::Left) => {
                self.phase = if self.kitty_rendered {
                    Phase::Deleting
                } else {
                    Phase::Finished
                };
            },
            (Phase::Deleting, LiveInput::Deleted(result)) => {
                if let Err(message) = result {
                    if self.failure.is_none() {
                        self.failure = Some(LiveError::Terminal(message));
                    }
                }
                self.phase = Phase::Finished;
            },
            _ => {},
        }
    }

    fn schedule(&mut self, now: u64, interval: u64)
        ensures
            final(self)@ == old(self)@.refreshed(now, interval),
            final(self).spinner == old(self).spinner,
    {
        let wait: u64 = if interval >= SPINNER_INTERVAL {
            interval
        } else {
            SPINNER_INTERVAL
        };
        self.next_refresh = now.saturating_add(wait);
        self.phase = Phase::Drawing;
    }

    /// How the live view ended.
    pub fn outcome(self) -> (result: Result<(), LiveError>)
        ensures
            match result {
                Ok(()) => self.failure is None,
                Err(error) => self.failure == Some(error),
            },
    {
        match self.failure {
            Some(error) => Err(error),
            None => Ok(()),
        }
    }
}

/// The terminal is held.
pub open spec fn owns_terminal(phase: Phase) -> bool {
    match phase {
        Phase::Preparing | Phase::Entering | Phase::Deleting | Phase::Finished => false,
        _ => true,
    }
}

/// The terminal is held only from entering it on until it was left, and every end of a
/// view that held it passes through leaving it.
pub proof fn law_terminal_is_given_back(state: LoopView, input: LiveInput)
    ensures
        owns_terminal(state.next(input).phase) && !owns_terminal(state.phase) ==> state.phase
            == Phase::Entering && (input matches LiveInput::Entered { result, .. } && result is Ok),
        owns_terminal(state.phase) && !owns_terminal(state.next(input).phase) ==> state.phase
            == Phase::Leaving && input is Left,
{
}

/// The image is deleted only behind leaving the terminal, and only where one was drawn
/// that is deleted by its id: by the Kitty protocol, of a view that has an image.
pub proof fn law_only_a_drawn_image_is_deleted(state: LoopView, input: LiveInput)
    ensures
        state.next(input).phase == Phase::Deleting && state.phase != Phase::Deleting
            ==> state.phase == Phase::Leaving && state.kitty_rendered,
        state.next(input).kitty_rendered && !state.kitty_rendered ==> state.phase == Phase::Drawing
            && state.protocol == SelectedProtocol::Kitty && state.has_image && (
        input matches LiveInput::Drawn(result) && result == Ok::<bool, LiveError>(true)),
{
}

/// The first failure is the one that stays; no failure of cleaning up takes its place.
pub proof fn law_the_first_failure_stays(state: LoopView, input: LiveInput)
    requires
        state.failure is Some,
        state.phase == Phase::Leaving || state.phase == Phase::Deleting || state.phase
            == Phase::Finished,
    ensures
        state.next(input).failure == state.failure,
        state.next(input).phase == Phase::Leaving || state.next(input).phase == Phase::Deleting
            || state.next(input).phase == Phase::Finished,
{
}

/// A failure before the terminal is taken over ends the view without taking it.
pub proof fn law_failed_preparation_owns_nothing(state: LoopView, input: LiveInput)
    requires
        state.phase == Phase::Preparing,
        state.next(input).failure is Some && state.failure is None,
    ensures
        state.next(input).phase == Phase::Finished,
{
}

/// No wait is longer than a picture of the spinner stays, nor lasts beyond the next
/// refresh.
pub proof fn law_waits_are_bounded(state: LoopView, now: u64)
    requires
        state.phase == Phase::Timing,
    ensures
        state.next(LiveInput::Clock { now }).phase is Waiting,
        state.next(LiveInput::Clock { now }).phase->timeout <= SPINNER_INTERVAL,
        now <= state.next_refresh ==> now + state.next(LiveInput::Clock { now }).phase->timeout
            <= state.next_refresh,
{
}

/// What has finished stays as it is.
pub proof fn law_a_finished_view_stays(state: LoopView, input: LiveInput)
    requires
        state.phase == Phase::Finished,
    ensures
        state.next(input) == state,
{
}

} // verus!
