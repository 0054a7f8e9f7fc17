//! What the terminal can show, and who owns it in the live view.
use vstd::prelude::*;
use crate::config::{ImagePosition, ImageSettings};
use crate::render::images::{
    CellPixels, ImageError, ImageErrorView, RenderMode, TerminalCapabilities, TerminalKind,
};
use crate::render::kitty_one_shot;
use crate::render::kitty_one_shot::{push_ascii, wrap_tmux};
use crate::strings;
use crate::strings::{contains, decimal, lower_text, same};

verus! {

/// The narrowest card with text.
pub const MIN_TEXT_COLUMNS: u16 = 20;

/// The narrowest card with an image to the left of its text.
pub const MIN_LEFT_IMAGE_COLUMNS: u16 = 43;

/// The narrowest card with an image above its text.
pub const MIN_TOP_IMAGE_COLUMNS: u16 = 34;

/// The width of a card on a terminal of so many columns.
pub fn one_shot_width(columns: u16, full: bool) -> (width: u16)
    ensures
        full ==> width == if columns < 120 {
            columns
        } else {
            120
        },
        !full ==> width == if columns < 104 {
            columns
        } else {
            104
        },
{
    let cap: u16 = if full {
        120
    } else {
        104
    };
    if columns < cap {
        columns
    } else {
        cap
    }
}

/// Whether a card of this width has room for an image.
pub fn one_shot_image_eligible(width: u16, position: ImagePosition) -> (eligible: bool)
    ensures
        eligible == (width >= match position {
            ImagePosition::Left => MIN_LEFT_IMAGE_COLUMNS,
            ImagePosition::Top => MIN_TOP_IMAGE_COLUMNS,
        }),
{
    match position {
        ImagePosition::Left => width >= MIN_LEFT_IMAGE_COLUMNS,
        ImagePosition::Top => width >= MIN_TOP_IMAGE_COLUMNS,
    }
}

/// The terminal's window in cells and in pixels.
#[derive(Clone, Copy, Debug, PartialEq, Eq, Structural)]
pub struct WindowGeometry {
    pub columns: u16,
    pub rows: u16,
    pub width_px: u16,
    pub height_px: u16,
}

pub open spec fn derived_cell_pixels(geometry: WindowGeometry) -> Option<CellPixels> {
    if geometry.columns == 0 || geometry.rows == 0 || geometry.width_px < geometry.columns
        || geometry.height_px < geometry.rows {
        None
    } else {
        Some(
            CellPixels {
                width: geometry.width_px as u32 / geometry.columns as u32,
                height: geometry.height_px as u32 / geometry.rows as u32,
            },
        )
    }
}

/// The pixels of one cell of the window, where each has at least one.
pub fn derive_cell_pixels(geometry: WindowGeometry) -> (cell: Option<CellPixels>)
    ensures
        cell == derived_cell_pixels(geometry),
        cell is Some ==> cell->0.nonzero(),
{
    if geometry.columns == 0 || geometry.rows == 0 || geometry.width_px == 0 || geometry.height_px
        == 0 {
        return None;
    }
    let width: u32 = geometry.width_px as u32 / geometry.columns as u32;
    let height: u32 = geometry.height_px as u32 / geometry.rows as u32;
    proof {
        lemma_quotient_is_zero(geometry.width_px as int, geometry.columns as int);
        lemma_quotient_is_zero(geometry.height_px as int, geometry.rows as int);
    }
    match CellPixels::new(width, height) {
        Ok(cell) => Some(cell),
        Err(_) => None,
    }
}

proof fn lemma_quotient_is_zero(whole: int, part: int)
    requires
        whole >= 0,
        part > 0,
    ensures
        (whole / part == 0) == (whole < part),
{
    assert((whole / part == 0) == (whole < part)) by (nonlinear_arith)
        requires
            whole >= 0,
            part > 0,
    ;
}

/// A question to the terminal, with its answer.
pub enum ProbeStep {
    Stdout(bool),
    Stdin(bool),
    Env(Seq<char>, Option<Seq<char>>),
    Geometry(Option<WindowGeometry>),
}

/// Who can be asked about the terminal. `answered` tells what was asked so far,
/// and what the answers were.
pub trait TerminalProbe {
    /// What was asked so far, each with its answer.
    closed spec fn answered(&self) -> Seq<ProbeStep> {
        Seq::empty()
    }

    fn stdout_is_terminal(&mut self) -> (yes: bool)
        ensures
            final(self).answered() == old(self).answered().push(ProbeStep::Stdout(yes)),
    ;

    fn stdin_is_terminal(&mut self) -> (yes: bool)
        ensures
            final(self).answered() == old(self).answered().push(ProbeStep::Stdin(yes)),
    ;

    fn env_var(&mut self, name: &str) -> (value: Option<String>)
        ensures
            final(self).answered() == old(self).answered().push(
                ProbeStep::Env(name@, strings::optional_text(value)),
            ),
    ;

    fn window_geometry(&mut self) -> (geometry: Option<WindowGeometry>)
        ensures
            final(self).answered() == old(self).answered().push(ProbeStep::Geometry(geometry)),
    ;
}

/// The terminal that its environment names.
pub open spec fn terminal_of(program: Option<Seq<char>>, term: Option<Seq<char>>) -> TerminalKind {
    if (program is Some && strings::lowered(program->0) == "ghostty"@) || (term is Some
        && strings::occurs(term->0, "ghostty"@)) {
        TerminalKind::Ghostty
    } else if program == Some("iTerm.app"@) {
        TerminalKind::Iterm2
    } else {
        TerminalKind::Other
    }
}

/// The terminal that the variables `TERM_PROGRAM` and `TERM` name.
pub fn terminal_kind(program: &Option<String>, term: &Option<String>) -> (kind: TerminalKind)
    ensures
        kind == terminal_of(strings::optional_text(*program), strings::optional_text(*term)),
{
    if let Some(program) = program {
        if same(lower_text(program.as_str()).as_str(), "ghostty") {
            return TerminalKind::Ghostty;
        }
    }
    if let Some(term) = term {
        if contains(term.as_str(), "ghostty") {
            return TerminalKind::Ghostty;
        }
    }
    if let Some(program) = program {
        if same(program.as_str(), "iTerm.app") {
            return TerminalKind::Iterm2;
        }
    }
    TerminalKind::Other
}

/// The pixels of a cell that are configured, where both are and neither is zero.
pub open spec fn configured_cell(settings: ImageSettings) -> Option<CellPixels> {
    if settings.cell_width_px is Some && settings.cell_height_px is Some
        && settings.cell_width_px->0 > 0 && settings.cell_height_px->0 > 0 {
        Some(
            CellPixels {
                width: settings.cell_width_px->0 as u32,
                height: settings.cell_height_px->0 as u32,
            },
        )
    } else {
        None
    }
}

fn configured_pixels(settings: &ImageSettings) -> (cell: Option<CellPixels>)
    ensures
        cell == configured_cell(*settings),
{
    match (settings.cell_width_px, settings.cell_height_px) {
        (Some(width), Some(height)) => match CellPixels::new(width as u32, height as u32) {
            Ok(cell) => Some(cell),
            Err(_) => None,
        },
        _ => None,
    }
}

/// What output that is no terminal can do.
pub open spec fn no_terminal() -> TerminalCapabilities {
    TerminalCapabilities {
        stdin_tty: false,
        stdout_tty: false,
        terminal: TerminalKind::Other,
        cell_pixels: None,
        is_tmux: false,
    }
}

/// The questions were these, in this order, and their answers make these
/// capabilities. A stdout that is no terminal ends it; stdin is asked for the live
/// view alone; the window is asked only where no cell is configured.
pub open spec fn probed(
    steps: Seq<ProbeStep>,
    mode: RenderMode,
    settings: ImageSettings,
    caps: TerminalCapabilities,
) -> bool {
    if steps == seq![ProbeStep::Stdout(false)] {
        caps == no_terminal()
    } else {
        exists|stdin: bool, program: Option<Seq<char>>, term: Option<Seq<char>>, tmux: Option<
            Seq<char>,
        >, geometry: Option<WindowGeometry>| #[trigger]
            answers(stdin, program, term, tmux, geometry, mode, settings) == steps && caps
                == capabilities_of(stdin, program, term, tmux, geometry, mode, settings)
    }
}

/// The questions to a terminal on stdout, with these answers.
pub open spec fn answers(
    stdin: bool,
    program: Option<Seq<char>>,
    term: Option<Seq<char>>,
    tmux: Option<Seq<char>>,
    geometry: Option<WindowGeometry>,
    mode: RenderMode,
    settings: ImageSettings,
) -> Seq<ProbeStep> {
    let first = seq![ProbeStep::Stdout(true)];
    let second = if mode == RenderMode::Live {
        first.push(ProbeStep::Stdin(stdin))
    } else {
        first
    };
    let named = second.push(ProbeStep::Env("TERM_PROGRAM"@, program)).push(
        ProbeStep::Env("TERM"@, term),
    ).push(ProbeStep::Env("TMUX"@, tmux));
    if configured_cell(settings) is Some {
        named
    } else {
        named.push(ProbeStep::Geometry(geometry))
    }
}

/// What a terminal on stdout with these answers can do.
pub open spec fn capabilities_of(
    stdin: bool,
    program: Option<Seq<char>>,
    term: Option<Seq<char>>,
    tmux: Option<Seq<char>>,
    geometry: Option<WindowGeometry>,
    mode: RenderMode,
    settings: ImageSettings,
) -> TerminalCapabilities {
    TerminalCapabilities {
        stdin_tty: mode == RenderMode::Live && stdin,
        stdout_tty: true,
        terminal: terminal_of(program, term),
        cell_pixels: if configured_cell(settings) is Some {
            configured_cell(settings)
        } else if geometry is Some {
            derived_cell_pixels(geometry->0)
        } else {
            None
        },
        is_tmux: tmux is Some,
    }
}

/// Detect without emitting terminal queries. A non-TTY stdout returns before
/// looking at stdin, environment state, or terminal geometry.
pub fn detect_capabilities_with<P: TerminalProbe>(
    probe: &mut P,
    mode: RenderMode,
    settings: &ImageSettings,
) -> (caps: TerminalCapabilities)
    ensures
        old(probe).answered().len() <= final(probe).answered().len(),
        old(probe).answered() == final(probe).answered().take(
            old(probe).answered().len() as int,
        ),
        probed(
            final(probe).answered().skip(old(probe).answered().len() as int),
            mode,
            *settings,
            caps,
        ),
        caps.cell_pixels is Some ==> caps.cell_pixels->0.nonzero(),
{
    let ghost before = probe.answered();
    let ghost at = before.len() as int;
    if !probe.stdout_is_terminal() {
        assert(probe.answered().skip(at) =~= seq![ProbeStep::Stdout(false)]);
        assert(probe.answered().take(at) =~= before);
        return TerminalCapabilities {
            stdin_tty: false,
            stdout_tty: false,
            terminal: TerminalKind::Other,
            cell_pixels: None,
            is_tmux: false,
        };
    }
    let mut stdin_tty = false;
    if mode == RenderMode::Live {
        stdin_tty = probe.stdin_is_terminal();
    }
    let program = probe.env_var("TERM_PROGRAM");
    let term = probe.env_var("TERM");
    let terminal = terminal_kind(&program, &term);
    let tmux = probe.env_var("TMUX");
    let configured = configured_pixels(settings);
    let mut geometry: Option<WindowGeometry> = None;
    let cell_pixels = match configured {
        Some(cell) => Some(cell),
        None => {
            geometry = probe.window_geometry();
            match geometry {
                Some(geometry) => derive_cell_pixels(geometry),
                None => None,
            }
        },
    };
    let caps = TerminalCapabilities {
        stdin_tty,
        stdout_tty: true,
        terminal,
        cell_pixels,
        is_tmux: tmux.is_some(),
    };
    proof {
        let steps = probe.answered().skip(at);
        let asked = answers(
            stdin_tty,
            strings::optional_text(program),
            strings::optional_text(term),
            strings::optional_text(tmux),
            geometry,
            mode,
            *settings,
        );
        assert(steps =~= asked);
        assert(probe.answered().take(at) =~= before);
        assert(steps[0] == ProbeStep::Stdout(true));
        assert(steps != seq![ProbeStep::Stdout(false)]) by {
            assert(seq![ProbeStep::Stdout(false)][0] == ProbeStep::Stdout(false));
        }
        assert(caps == capabilities_of(
            stdin_tty,
            strings::optional_text(program),
            strings::optional_text(term),
            strings::optional_text(tmux),
            geometry,
            mode,
            *settings,
        ));
    }
    caps
}

/// Both streams were found to be terminals: the live view may take them over.
#[derive(Clone, Copy, Debug)]
pub struct LivePreflight(());

pub fn prevalidate_live(caps: TerminalCapabilities) -> (preflight: Result<
    LivePreflight,
    ImageError,
>)
    ensures
        preflight is Ok == (caps.stdin_tty && caps.stdout_tty),
        preflight is Err ==> preflight->Err_0@ == ImageErrorView::LiveRequiresTtys,
{
    if caps.stdin_tty && caps.stdout_tty {
        Ok(LivePreflight(()))
    } else {
        Err(ImageError::LiveRequiresTtys)
    }
}

/// What is done to the terminal for the live view, and undone after it.
#[derive(Clone, Copy, Debug, PartialEq, Eq, Structural)]
pub enum TerminalStep {
    EnableRaw,
    EnterAlternate,
    HideCursor,
    ShowCursor,
    LeaveAlternate,
    DisableRaw,
}

/// A step, and the words of its failure where it failed.
pub struct Performed {
    pub step: TerminalStep,
    pub failure: Option<Seq<char>>,
}

pub open spec fn failure_of(result: Result<(), String>) -> Option<Seq<char>> {
    match result {
        Ok(()) => None,
        Err(message) => Some(message@),
    }
}

pub open spec fn performed(step: TerminalStep, result: Result<(), String>) -> Performed {
    Performed { step, failure: failure_of(result) }
}

/// Who performs the steps. `history` tells the steps so far, and how each ended.
pub trait TerminalOperations {
    /// What was done so far, each with what came of it.
    closed spec fn history(&self) -> Seq<Performed> {
        Seq::empty()
    }

    fn enable_raw(&mut self) -> (result: Result<(), String>)
        ensures
            final(self).history() == old(self).history().push(
                performed(TerminalStep::EnableRaw, result),
            ),
    ;

    fn enter_alternate(&mut self) -> (result: Result<(), String>)
        ensures
            final(self).history() == old(self).history().push(
                performed(TerminalStep::EnterAlternate, result),
            ),
    ;

    fn hide_cursor(&mut self) -> (result: Result<(), String>)
        ensures
            final(self).history() == old(self).history().push(
                performed(TerminalStep::HideCursor, result),
            ),
    ;

    fn show_cursor(&mut self) -> (result: Result<(), String>)
        ensures
            final(self).history() == old(self).history().push(
                performed(TerminalStep::ShowCursor, result),
            ),
    ;

    fn leave_alternate(&mut self) -> (result: Result<(), String>)
        ensures
            final(self).history() == old(self).history().push(
                performed(TerminalStep::LeaveAlternate, result),
            ),
    ;

    fn disable_raw(&mut self) -> (result: Result<(), String>)
        ensures
            final(self).history() == old(self).history().push(
                performed(TerminalStep::DisableRaw, result),
            ),
    ;
}

/// What the live view has taken over of the terminal, to be given back in reverse
/// order.
#[derive(Clone, Copy, Debug, PartialEq, Eq, Structural)]
pub struct LiveTerminalGuard {
    pub raw: bool,
    pub alternate: bool,
    pub cursor_hidden: bool,
}

/// The steps that take over what a guard holds, in order.
pub open spec fn taken_steps(guard: LiveTerminalGuard) -> Seq<TerminalStep> {
    let first = if guard.raw {
        seq![TerminalStep::EnableRaw]
    } else {
        Seq::empty()
    };
    let second = if guard.alternate {
        first.push(TerminalStep::EnterAlternate)
    } else {
        first
    };
    if guard.cursor_hidden {
        second.push(TerminalStep::HideCursor)
    } else {
        second
    }
}

/// The step that undoes another.
pub open spec fn undoing(step: TerminalStep) -> TerminalStep {
    match step {
        TerminalStep::EnableRaw => TerminalStep::DisableRaw,
        TerminalStep::EnterAlternate => TerminalStep::LeaveAlternate,
        TerminalStep::HideCursor => TerminalStep::ShowCursor,
        TerminalStep::ShowCursor => TerminalStep::HideCursor,
        TerminalStep::LeaveAlternate => TerminalStep::EnterAlternate,
        TerminalStep::DisableRaw => TerminalStep::EnableRaw,
    }
}

/// The steps that give back what a guard holds: those that took it over, undone,
/// the last of them first.
pub open spec fn restoring(guard: LiveTerminalGuard) -> Seq<TerminalStep> {
    taken_steps(guard).reverse().map_values(|step: TerminalStep| undoing(step))
}

pub open spec fn steps_of(history: Seq<Performed>) -> Seq<TerminalStep> {
    history.map_values(|item: Performed| item.step)
}

/// The first failure of some steps.
pub open spec fn first_failure(history: Seq<Performed>) -> Option<Seq<char>>
    decreases history.len(),
{
    if history.len() == 0 {
        None
    } else {
        match history[0].failure {
            Some(message) => Some(message),
            None => first_failure(history.skip(1)),
        }
    }
}

/// The steps and the end of taking the terminal over: at the first failure what was
/// taken so far is given back, and the failure is the result.
pub open spec fn entered(history: Seq<Performed>, result: Result<LiveTerminalGuard, String>) -> bool {
    let none = LiveTerminalGuard { raw: false, alternate: false, cursor_hidden: false };
    let raw = LiveTerminalGuard { raw: true, ..none };
    let alternate = LiveTerminalGuard { alternate: true, ..raw };
    let all = LiveTerminalGuard { cursor_hidden: true, ..alternate };
    match result {
        Ok(guard) => {
            &&& guard == all
            &&& steps_of(history) == taken_steps(all)
            &&& first_failure(history) is None
        },
        Err(message) => {
            &&& first_failure(history) == Some(message@)
            &&& {
                ||| history[0].failure is Some && steps_of(history) == seq![TerminalStep::EnableRaw]
                ||| history[0].failure is None && history[1].failure is Some && steps_of(history)
                    == seq![TerminalStep::EnableRaw].push(TerminalStep::EnterAlternate) + restoring(
                    raw,
                )
                ||| history[0].failure is None && history[1].failure is None
                    && history[2].failure is Some && steps_of(history)
                    == seq![TerminalStep::EnableRaw].push(TerminalStep::EnterAlternate).push(
                    TerminalStep::HideCursor,
                ) + restoring(alternate)
            }
        },
    }
}

/// The steps behind those of before.
pub open spec fn since(history: Seq<Performed>, before: Seq<Performed>) -> Seq<Performed> {
    history.skip(before.len() as int)
}

impl LiveTerminalGuard {
    /// Takes the terminal over: raw input, the alternate screen, no cursor. What was
    /// taken before a failure is given back.
    pub fn enter<O: TerminalOperations>(operations: &mut O, _preflight: LivePreflight) -> (guard:
        Result<Self, String>)
        ensures
            old(operations).history().len() <= final(operations).history().len(),
            final(operations).history().take(old(operations).history().len() as int)
                == old(operations).history(),
            entered(since(final(operations).history(), old(operations).history()), guard),
    {
        let ghost before = operations.history();
        let ghost at = before.len() as int;
        let mut guard = LiveTerminalGuard { raw: false, alternate: false, cursor_hidden: false };
        let raw = operations.enable_raw();
        if let Err(message) = raw {
            proof {
                let done = since(operations.history(), before);
                assert(operations.history().take(at) =~= before);
                assert(steps_of(done) =~= seq![TerminalStep::EnableRaw]);
            }
            return Err(message);
        }
        guard.raw = true;
        let alternate = operations.enter_alternate();
        if let Err(message) = alternate {
            let ghost middle = operations.history();
            let _ = guard.restore(operations);
            proof {
                let done = since(operations.history(), before);
                let tail = since(operations.history(), middle);
                assert(operations.history() =~= operations.history().take(middle.len() as int)
                    + tail);
                assert(operations.history().take(at) =~= middle.take(at));
                assert(middle.take(at) =~= before);
                assert(done =~= since(middle, before) + tail);
                assert(steps_of(done) =~= seq![TerminalStep::EnableRaw].push(
                    TerminalStep::EnterAlternate,
                ) + steps_of(tail));
                assert(done.skip(1)[0] == done[1]);
                reveal_with_fuel(first_failure, 3);
            }
            return Err(message);
        }
        guard.alternate = true;
        let hidden = operations.hide_cursor();
        if let Err(message) = hidden {
            let ghost middle = operations.history();
            let _ = guard.restore(operations);
            proof {
                let done = since(operations.history(), before);
                let tail = since(operations.history(), middle);
                assert(operations.history() =~= operations.history().take(middle.len() as int)
                    + tail);
                assert(operations.history().take(at) =~= middle.take(at));
                assert(middle.take(at) =~= before);
                assert(done =~= since(middle, before) + tail);
                assert(steps_of(done) =~= seq![TerminalStep::EnableRaw].push(
                    TerminalStep::EnterAlternate,
                ).push(TerminalStep::HideCursor) + steps_of(tail));
                assert(done.skip(1)[0] == done[1]);
                assert(done.skip(1).skip(1)[0] == done[2]);
                reveal_with_fuel(first_failure, 4);
            }
            return Err(message);
        }
        guard.cursor_hidden = true;
        proof {
            let done = since(operations.history(), before);
            assert(operations.history().take(at) =~= before);
            assert(steps_of(done) =~= taken_steps(guard));
            assert(done.skip(1)[0] == done[1]);
            assert(done.skip(1).skip(1)[0] == done[2]);
            reveal_with_fuel(first_failure, 4);
        }
        Ok(guard)
    }

    /// Gives back whatever is still held. All of it is tried; the first failure is
    /// the result, and nothing is held any more.
    pub fn restore<O: TerminalOperations>(&mut self, operations: &mut O) -> (result: Result<
        (),
        String,
    >)
        ensures
            *final(self) == (LiveTerminalGuard { raw: false, alternate: false, cursor_hidden: false }),
            old(operations).history().len() <= final(operations).history().len(),
            final(operations).history().take(old(operations).history().len() as int)
                == old(operations).history(),
            steps_of(since(final(operations).history(), old(operations).history())) == restoring(
                *old(self),
            ),
            failure_of(result) == first_failure(
                since(final(operations).history(), old(operations).history()),
            ),
    {
        let ghost before = operations.history();
        let ghost at = before.len() as int;
        let mut first_error: Option<String> = None;
        if self.cursor_hidden {
            if let Err(message) = operations.show_cursor() {
                first_error = Some(message);
            }
            self.cursor_hidden = false;
        }
        if self.alternate {
            if let Err(message) = operations.leave_alternate() {
                if first_error.is_none() {
                    first_error = Some(message);
                }
            }
            self.alternate = false;
        }
        if self.raw {
            if let Err(message) = operations.disable_raw() {
                if first_error.is_none() {
                    first_error = Some(message);
                }
            }
            self.raw = false;
        }
        proof {
            let done = since(operations.history(), before);
            assert(operations.history().take(at) =~= before);
            assert(steps_of(done) =~= restoring(*old(self)));
            assert(done.len() > 1 ==> done.skip(1)[0] == done[1]);
            assert(done.len() > 2 ==> done.skip(1).skip(1)[0] == done[2]);
            reveal_with_fuel(first_failure, 4);
        }
        match first_error {
            Some(message) => Err(message),
            None => Ok(()),
        }
    }
}

/// Whatever was taken over is given back, step by step in reverse; giving back what
/// is held in full undoes all of taking it over.
pub proof fn law_restoring_undoes_entering(guard: LiveTerminalGuard)
    ensures
        restoring(guard).len() == taken_steps(guard).len(),
        forall|i: int|
            0 <= i < restoring(guard).len() ==> #[trigger] restoring(guard)[i] == undoing(
                taken_steps(guard)[taken_steps(guard).len() - 1 - i],
            ),
        forall|step: TerminalStep| undoing(#[trigger] undoing(step)) == step,
{
}

/// The command that deletes an image by its id.
pub open spec fn delete_command(id: u32) -> Seq<char> {
    "\x1b_Ga=d,d=I,i="@ + strings::decimal_text(id as nat) + ",q=2\x1b\\"@
}

/// The only raw graphics control sequence hoshino owns: deletion of its own
/// caller-generated Kitty image ID after live placeholders have disappeared.
pub fn kitty_delete_owned(id: u32, is_tmux: bool) -> (bytes: Vec<u8>)
    ensures
        bytes@ == if is_tmux {
            kitty_one_shot::tmux_wrapped(kitty_one_shot::ascii_bytes(delete_command(id)))
        } else {
            kitty_one_shot::ascii_bytes(delete_command(id))
        },
{
    let mut text = "\x1b_Ga=d,d=I,i=".to_owned();
    text.append(decimal(id as u64).as_str());
    text.append(",q=2\x1b\\");
    let mut bytes: Vec<u8> = Vec::new();
    push_ascii(&mut bytes, text.as_str());
    assert(bytes@ =~= kitty_one_shot::ascii_bytes(delete_command(id)));
    if is_tmux {
        wrap_tmux(&bytes)
    } else {
        bytes
    }
}

} // verus!
