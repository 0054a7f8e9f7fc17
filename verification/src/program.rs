//! What a run of the program does: which output, with which image, and what a failure means.
use vstd::prelude::*;
use crate::cli::{Cli, Command, Protocol, Shell};
use crate::config::{ImagePathOrigin, ImagePosition, ImageSource, Settings};
use crate::model;
use crate::model::{
    push_diagnostic, Diagnostic, DiagnosticSeverity, DiagnosticView, Snapshot, SnapshotMode,
};
use crate::render::card;
use crate::render::card::compose_one_shot_card;
use crate::render::card_laws;
use crate::render::images;
use crate::render::images::{
    select_protocol, CellPixels, DecodedImage, ImageError, ImageErrorView, ProtocolDecision,
    RenderMode, SelectedProtocol, TerminalCapabilities,
};
use crate::render::kitty_one_shot::SerializedImage;
use crate::render::laws;
use crate::render::live;
use crate::render::one_shot;
use crate::render::one_shot::{prepare_kitty_one_shot, OneShotError, OneShotErrorView, Size};
use crate::render::terminal::{
    one_shot_image_eligible, one_shot_width, MIN_LEFT_IMAGE_COLUMNS, MIN_TEXT_COLUMNS,
    MIN_TOP_IMAGE_COLUMNS,
};
use crate::render::text;
use crate::render::text::{card_body, render_text, CardBody, TextOptions};
use crate::render::theme;
use crate::strings;

verus! {

/// What a command line asks for.
#[derive(Clone, Copy, Debug, PartialEq, Eq, Structural)]
pub enum Route {
    /// The source text of a shell's hook.
    Hook(Shell),
    /// The card of a hook, from the built-in configuration, and silence outside of a
    /// worktree.
    HookCard,
    /// One card, from the configuration.
    Card,
    /// The live view, from the configuration.
    Live,
}

/// What a command line asks for. No hook looks at the configuration.
pub fn route(cli: &Cli) -> (route: Route)
    ensures
        route == match cli.command {
            Some(Command::Hook { shell }) => Route::Hook(shell),
            Some(Command::Live) => if cli.hook_context {
                Route::HookCard
            } else {
                Route::Live
            },
            None => if cli.hook_context {
                Route::HookCard
            } else {
                Route::Card
            },
        },
{
    match cli.command {
        Some(Command::Hook { shell }) => Route::Hook(shell),
        Some(Command::Live) => if cli.hook_context {
            Route::HookCard
        } else {
            Route::Live
        },
        None => if cli.hook_context {
            Route::HookCard
        } else {
            Route::Card
        },
    }
}

/// The mode of a snapshot for one card.
pub fn card_mode(hook_context: bool) -> (mode: SnapshotMode)
    ensures
        mode == if hook_context {
            SnapshotMode::Hook
        } else {
            SnapshotMode::OneShot
        },
{
    if hook_context {
        SnapshotMode::Hook
    } else {
        SnapshotMode::OneShot
    }
}

/// The rows of the identity that an image may stand beside.
pub fn one_shot_identity_height(body: &CardBody, full: bool) -> (height: usize)
    ensures
        height == card::identity_height(body@, full),
{
    if full {
        body.identity_layout_height
    } else {
        body.identity.len()
    }
}

/// The options of a card without an image: off a terminal it has no width and no colour.
pub open spec fn plain_options(
    full: bool,
    settings: Settings,
    stdout_tty: bool,
    columns: u16,
) -> TextOptions {
    TextOptions {
        full,
        width: if stdout_tty {
            Some(columns as usize)
        } else {
            None
        },
        color: stdout_tty && settings.color_enabled,
        theme: settings.theme,
        embedded: false,
    }
}

/// A card without an image.
pub fn plain_text(
    snapshot: &Snapshot,
    full: bool,
    settings: &Settings,
    stdout_tty: bool,
    columns: u16,
) -> (text: String)
    requires
        text::renderable(*snapshot),
    ensures
        text@ == strings::joined(
            text::card_texts(*snapshot, plain_options(full, *settings, stdout_tty, columns)),
            "\n"@,
        ),
{
    render_text(
        snapshot,
        TextOptions {
            full,
            width: if stdout_tty {
                Some(columns as usize)
            } else {
                None
            },
            color: stdout_tty && settings.color_enabled,
            theme: settings.theme,
            embedded: false,
        },
    )
}

/// A failure that the user does not see as one: a line for stderr, and a diagnostic of the
/// snapshot that is shown instead.
pub struct Fallback {
    pub notice: String,
    pub diagnostic: Diagnostic,
}

pub struct FallbackView {
    pub notice: Seq<char>,
    pub diagnostic: DiagnosticView,
}

impl View for Fallback {
    type V = FallbackView;

    open spec fn view(&self) -> FallbackView {
        FallbackView { notice: self.notice@, diagnostic: self.diagnostic@ }
    }
}

pub open spec fn fallback_of(error: ImageErrorView, detail: Seq<char>) -> FallbackView {
    FallbackView {
        notice: "warning: "@ + error.text() + "; "@ + detail,
        diagnostic: DiagnosticView {
            severity: DiagnosticSeverity::Warning,
            code: "image-fallback"@,
            message: error.text(),
            subject: None,
        },
    }
}

/// What is said of an image that could not be shown.
pub fn image_fallback(error: &ImageError, detail: &str) -> (fallback: Fallback)
    ensures
        fallback@ == fallback_of(error@, detail@),
{
    let message = error.to_text();
    Fallback {
        notice: "warning: ".to_owned().concat(message.as_str()).concat("; ").concat(detail),
        diagnostic: Diagnostic {
            severity: DiagnosticSeverity::Warning,
            code: "image-fallback".to_owned(),
            message,
            subject: None,
        },
    }
}

/// Adds what is said of an image to the snapshot.
pub fn warn_image_fallback(snapshot: &mut Snapshot, error: &ImageError, detail: &str) -> (notice:
    String)
    ensures
        notice@ == fallback_of(error@, detail@).notice,
        model::diagnostic_views(final(snapshot).diagnostics@) == model::diagnostic_views(
            old(snapshot).diagnostics@,
        ).push(fallback_of(error@, detail@).diagnostic),
        final(snapshot).schema_version == old(snapshot).schema_version,
        final(snapshot).mode == old(snapshot).mode,
        final(snapshot).context == old(snapshot).context,
        final(snapshot).project == old(snapshot).project,
        final(snapshot).git == old(snapshot).git,
        final(snapshot).system == old(snapshot).system,
        final(snapshot).time == old(snapshot).time,
{
    let fallback = image_fallback(error, detail);
    push_diagnostic(&mut snapshot.diagnostics, fallback.diagnostic);
    fallback.notice
}

pub open spec fn unsupported_message(protocol: Protocol) -> Seq<char> {
    "one-shot "@ + images::protocol_text(protocol)
        + " image transport is unsupported; falling back to text"@
}

pub open spec fn unsupported_of(protocol: Protocol) -> FallbackView {
    FallbackView {
        notice: "warning: "@ + unsupported_message(protocol),
        diagnostic: DiagnosticView {
            severity: DiagnosticSeverity::Warning,
            code: "image-one-shot-unsupported"@,
            message: unsupported_message(protocol),
            subject: None,
        },
    }
}

/// What is said of a protocol that a card of one run does not have.
pub fn unsupported_one_shot(protocol: Protocol) -> (fallback: Fallback)
    ensures
        fallback@ == unsupported_of(protocol),
{
    let name = match protocol {
        Protocol::Auto => "Auto",
        Protocol::Kitty => "Kitty",
        Protocol::Iterm2 => "Iterm2",
        Protocol::Sixel => "Sixel",
        Protocol::Halfblocks => "Halfblocks",
        Protocol::Off => "None",
    };
    let message = "one-shot ".to_owned().concat(name).concat(
        " image transport is unsupported; falling back to text",
    );
    Fallback {
        notice: "warning: ".to_owned().concat(message.as_str()),
        diagnostic: Diagnostic {
            severity: DiagnosticSeverity::Warning,
            code: "image-one-shot-unsupported".to_owned(),
            message,
            subject: None,
        },
    }
}

/// What comes of a failure: an error for the user, or a card that says so.
pub enum Failure {
    Abort(ImageError),
    Fall(Fallback),
}

pub enum FailureView {
    Abort(ImageErrorView),
    Fall(FallbackView),
}

impl View for Failure {
    type V = FailureView;

    open spec fn view(&self) -> FailureView {
        match *self {
            Failure::Abort(error) => FailureView::Abort(error@),
            Failure::Fall(fallback) => FailureView::Fall(fallback@),
        }
    }
}

pub open spec fn failure_of(asked: bool, error: ImageErrorView, detail: Seq<char>) -> FailureView {
    if asked {
        FailureView::Abort(error)
    } else {
        FailureView::Fall(fallback_of(error, detail))
    }
}

/// What the user asked for fails as an error; anything else falls back.
pub fn failure(asked: bool, error: ImageError, detail: &str) -> (failure: Failure)
    ensures
        failure@ == failure_of(asked, error@, detail@),
{
    if asked {
        Failure::Abort(error)
    } else {
        Failure::Fall(image_fallback(&error, detail))
    }
}

/// The image was named on the command line.
pub open spec fn asked_image(source: ImageSource) -> bool {
    source matches ImageSource::Path { origin: ImagePathOrigin::Cli, .. }
}

pub fn image_was_asked_for(source: &ImageSource) -> (asked: bool)
    ensures
        asked == asked_image(*source),
{
    match source {
        ImageSource::Path { origin, .. } => match origin {
            ImagePathOrigin::Cli => true,
            ImagePathOrigin::Config => false,
        },
        _ => false,
    }
}

/// What a card of one run is to be.
pub enum CardPlan {
    /// A text.
    Plain,
    /// A text, because of a failure.
    Failed(Failure),
    /// A text, because its protocol is not one for a card of one run.
    Unsupported(Fallback),
    /// A card with an image, with or without tmux in between.
    Image { is_tmux: bool },
}

pub enum CardPlanView {
    Plain,
    Failed(FailureView),
    Unsupported(FallbackView),
    Image { is_tmux: bool },
}

impl View for CardPlan {
    type V = CardPlanView;

    open spec fn view(&self) -> CardPlanView {
        match *self {
            CardPlan::Plain => CardPlanView::Plain,
            CardPlan::Failed(failure) => CardPlanView::Failed(failure@),
            CardPlan::Unsupported(fallback) => CardPlanView::Unsupported(fallback@),
            CardPlan::Image { is_tmux } => CardPlanView::Image { is_tmux },
        }
    }
}

/// No image is wanted, or none can be shown: off a terminal, in a hook, with images off.
pub open spec fn text_only(hook_context: bool, settings: Settings, caps: TerminalCapabilities) -> bool {
    !caps.stdout_tty || hook_context || settings.image.source is Disabled
        || settings.image.protocol == Protocol::Off
}

pub open spec fn planned_card(cli: Cli, settings: Settings, caps: TerminalCapabilities) -> CardPlanView {
    let requested = settings.image.protocol;
    if text_only(cli.hook_context, settings, caps) {
        CardPlanView::Plain
    } else if requested == Protocol::Kitty && caps.cell_pixels is None {
        CardPlanView::Failed(
            failure_of(
                cli.protocol is Some,
                ImageErrorView::MissingGeometry(Protocol::Kitty),
                "falling back to text"@,
            ),
        )
    } else {
        match images::chosen_protocol(RenderMode::OneShot, requested, caps) {
            SelectedProtocol::Off | SelectedProtocol::Text
            | SelectedProtocol::BoundedQueryRequired => CardPlanView::Plain,
            SelectedProtocol::Iterm2 | SelectedProtocol::Sixel | SelectedProtocol::Halfblocks =>
                CardPlanView::Unsupported(unsupported_of(requested)),
            SelectedProtocol::Kitty => CardPlanView::Image { is_tmux: caps.is_tmux },
        }
    }
}

/// Plans the card of one run, before anything is decoded.
pub fn plan_card(cli: &Cli, settings: &Settings, caps: TerminalCapabilities) -> (plan: CardPlan)
    ensures
        plan@ == planned_card(*cli, *settings, caps),
{
    let disabled = match settings.image.source {
        ImageSource::Disabled => true,
        _ => false,
    };
    let off = match settings.image.protocol {
        Protocol::Off => true,
        _ => false,
    };
    if !caps.stdout_tty || cli.hook_context || disabled || off {
        return CardPlan::Plain;
    }
    let decision = match select_protocol(RenderMode::OneShot, settings.image.protocol, caps) {
        Ok(decision) => decision,
        Err(error) => {
            return CardPlan::Failed(failure(cli.protocol.is_some(), error, "falling back to text"));
        },
    };
    match decision.protocol {
        SelectedProtocol::Off | SelectedProtocol::Text | SelectedProtocol::BoundedQueryRequired =>
            CardPlan::Plain,
        SelectedProtocol::Iterm2 | SelectedProtocol::Sixel | SelectedProtocol::Halfblocks =>
            CardPlan::Unsupported(unsupported_one_shot(settings.image.protocol)),
        SelectedProtocol::Kitty => CardPlan::Image { is_tmux: decision.is_tmux },
    }
}

/// The card has room for an image: it is wide enough, and there is an identity, of three
/// rows at least where the image stands beside it.
pub open spec fn has_room(width: u16, rows: nat, height: nat, position: ImagePosition) -> bool {
    &&& width >= MIN_TEXT_COLUMNS
    &&& rows > 0
    &&& position == ImagePosition::Left ==> height >= 3 && width >= MIN_LEFT_IMAGE_COLUMNS
    &&& position == ImagePosition::Top ==> width >= MIN_TOP_IMAGE_COLUMNS
}

/// Geometry is decided before decoding or serializing so a dropped image has no transfer or
/// placeholder side effects.
pub fn image_has_room(width: u16, body: &CardBody, full: bool, position: ImagePosition) -> (room:
    bool)
    ensures
        room == has_room(
            width,
            body@.identity.len(),
            card::identity_height(body@, full),
            position,
        ),
{
    let height: usize = one_shot_identity_height(body, full);
    let low = match position {
        ImagePosition::Left => height < 3,
        ImagePosition::Top => false,
    };
    !(width < 20 || body.identity.len() == 0 || low || !one_shot_image_eligible(width, position))
}

/// The rows beside an image, in the lowest 16 bits of their number.
pub fn image_rows(body: &CardBody, full: bool) -> (rows: u16)
    ensures
        rows == card::identity_height(body@, full) % 0x1_0000,
{
    (one_shot_identity_height(body, full) % 0x1_0000) as u16
}

/// What is shown in the end: a text, a text because of a failure, or a card with its image.
pub enum CardOutput {
    Plain,
    Failed(Failure),
    Backend(OneShotError),
    Card { transfer: Vec<u8>, rows: String },
}

pub enum CardOutputView {
    Plain,
    Failed(FailureView),
    Backend(OneShotErrorView),
    Card { transfer: Seq<u8>, rows: Seq<char> },
}

impl View for CardOutput {
    type V = CardOutputView;

    open spec fn view(&self) -> CardOutputView {
        match *self {
            CardOutput::Plain => CardOutputView::Plain,
            CardOutput::Failed(failure) => CardOutputView::Failed(failure@),
            CardOutput::Backend(error) => CardOutputView::Backend(error@),
            CardOutput::Card { transfer, rows } => CardOutputView::Card {
                transfer: transfer@,
                rows: rows@,
            },
        }
    }
}

/// What is shown of an image that was prepared, or not. A failure of the image is the
/// user's where the user named it; too little room is no failure.
pub open spec fn shown_card(
    prepared: Result<(one_shot::SerializedView, Size), OneShotErrorView>,
    body: text::BodyView,
    full: bool,
    width: u16,
    settings: Settings,
) -> CardOutputView {
    match prepared {
        Err(OneShotErrorView::Image(error)) => CardOutputView::Failed(
            failure_of(asked_image(settings.image.source), error, "falling back to text"@),
        ),
        Err(OneShotErrorView::Narrow { available, required }) => CardOutputView::Plain,
        Err(OneShotErrorView::Backend(message)) => CardOutputView::Backend(
            OneShotErrorView::Backend(message),
        ),
        Ok((image, cells)) => CardOutputView::Card {
            transfer: image.transfer,
            rows: strings::joined(
                card::composed_rows(
                    body,
                    full,
                    width as nat,
                    card::Paint {
                        color: settings.color_enabled,
                        palette: theme::palette_of(settings.theme),
                    },
                    Some((image, cells, settings.image.position)),
                ),
                "\n"@,
            ) + "\n"@,
        },
    }
}

/// Shows an image that was prepared, or not.
pub fn show_card(
    prepared: Result<(SerializedImage, Size), OneShotError>,
    body: &CardBody,
    full: bool,
    width: u16,
    settings: &Settings,
) -> (output: CardOutput)
    requires
        width >= MIN_TEXT_COLUMNS,
        text::sound_body(body@),
    ensures
        output@ == shown_card(one_shot::kitty_view(prepared), body@, full, width, *settings),
{
    match prepared {
        Err(OneShotError::Image(error)) => CardOutput::Failed(
            failure(image_was_asked_for(&settings.image.source), error, "falling back to text"),
        ),
        Err(OneShotError::Narrow { available: _, required: _ }) => CardOutput::Plain,
        Err(OneShotError::Backend(message)) => CardOutput::Backend(OneShotError::Backend(message)),
        Ok((image, cells)) => {
            let rows = compose_one_shot_card(
                body,
                full,
                width,
                settings.color_enabled,
                settings.theme,
                Some((&image, cells, settings.image.position)),
            );
            CardOutput::Card { transfer: image.transfer, rows }
        },
    }
}

/// What comes of an image that was decoded, or not, before it is prepared: the image and
/// the pixels of a cell, or a failure. The pixels of a cell are the protocol's to know.
pub fn take_image(
    decoded: Result<DecodedImage, ImageError>,
    cell_pixels: Option<CellPixels>,
    cli: &Cli,
    settings: &Settings,
) -> (taken: Result<(DecodedImage, CellPixels), Failure>)
    ensures
        match taken {
            Ok((image, cell)) => decoded == Ok::<DecodedImage, ImageError>(image) && cell_pixels
                == Some(cell),
            Err(failure) => match decoded {
                Err(error) => failure@ == failure_of(
                    asked_image(settings.image.source),
                    error@,
                    "falling back to text"@,
                ),
                Ok(_) => cell_pixels is None && failure@ == failure_of(
                    cli.protocol is Some,
                    ImageErrorView::MissingGeometry(settings.image.protocol),
                    "falling back to text"@,
                ),
            },
        },
{
    let image = match decoded {
        Ok(image) => image,
        Err(error) => {
            return Err(
                failure(
                    image_was_asked_for(&settings.image.source),
                    error,
                    "falling back to text",
                ),
            );
        },
    };
    match cell_pixels {
        Some(cell) => Ok((image, cell)),
        None => Err(
            failure(
                cli.protocol.is_some(),
                ImageError::MissingGeometry { protocol: settings.image.protocol },
                "falling back to text",
            ),
        ),
    }
}

/// A text to show, and a line for stderr where there is something to say.
pub struct Shown {
    pub notice: Option<String>,
    pub text: String,
}

/// How the card of one run begins.
pub enum CardStart {
    /// Without an image.
    Show(Shown),
    /// With an error.
    Abort(ImageError),
    /// With an image that is still to be loaded.
    Load { is_tmux: bool },
}

/// How the card of one run ends.
pub enum CardEnd {
    Show(Shown),
    Abort(ImageError),
    Backend(OneShotError),
    Card { transfer: Vec<u8>, rows: String },
}

/// Nothing of the snapshot has changed but, where there is something to say, one more
/// diagnostic.
pub open spec fn noted(before: Snapshot, after: Snapshot, said: Option<DiagnosticView>) -> bool {
    &&& model::diagnostic_views(after.diagnostics@) == match said {
        Some(item) => model::diagnostic_views(before.diagnostics@).push(item),
        None => model::diagnostic_views(before.diagnostics@),
    }
    &&& after.schema_version == before.schema_version
    &&& after.mode == before.mode
    &&& after.context == before.context
    &&& after.project == before.project
    &&& after.git == before.git
    &&& after.system == before.system
    &&& after.time == before.time
}

/// What is shown is the card of the snapshot without an image, once the snapshot tells what
/// there is to say.
pub open spec fn shows(
    shown: Shown,
    before: Snapshot,
    after: Snapshot,
    said: Option<FallbackView>,
    options: TextOptions,
) -> bool {
    &&& shown.text@ == strings::joined(text::card_texts(after, options), "\n"@)
    &&& match said {
        Some(fallback) => strings::optional_text(shown.notice) == Some(fallback.notice) && noted(
            before,
            after,
            Some(fallback.diagnostic),
        ),
        None => shown.notice is None && noted(before, after, None),
    }
}

/// Shows the card without an image, and says what there is to say.
fn show_text(
    snapshot: &mut Snapshot,
    said: Option<Fallback>,
    full: bool,
    settings: &Settings,
    stdout_tty: bool,
    columns: u16,
) -> (shown: Shown)
    requires
        text::renderable(*old(snapshot)),
    ensures
        shows(
            shown,
            *old(snapshot),
            *final(snapshot),
            match said {
                Some(fallback) => Some(fallback@),
                None => None,
            },
            plain_options(full, *settings, stdout_tty, columns),
        ),
{
    let notice = match said {
        Some(fallback) => {
            push_diagnostic(&mut snapshot.diagnostics, fallback.diagnostic);
            Some(fallback.notice)
        },
        None => None,
    };
    let text = plain_text(snapshot, full, settings, stdout_tty, columns);
    Shown { notice, text }
}

/// The columns of a card on a terminal with so many.
pub open spec fn shown_columns(columns: u16, full: bool) -> u16 {
    if full {
        if columns < 120 {
            columns
        } else {
            120
        }
    } else {
        if columns < 104 {
            columns
        } else {
            104
        }
    }
}

/// Begins the card of one run, on a terminal of so many columns.
pub fn begin_card(
    cli: &Cli,
    settings: &Settings,
    caps: TerminalCapabilities,
    columns: u16,
    snapshot: &mut Snapshot,
) -> (start: CardStart)
    requires
        text::renderable(*old(snapshot)),
    ensures
        ({
            let options = plain_options(cli.full, *settings, caps.stdout_tty, columns);
            let body = text::card_body_of(*old(snapshot), cli.full);
            let unsaid: Option<FallbackView> = None;
            match planned_card(*cli, *settings, caps) {
                CardPlanView::Plain => start is Show && shows(
                    start->Show_0,
                    *old(snapshot),
                    *final(snapshot),
                    unsaid,
                    options,
                ),
                CardPlanView::Failed(FailureView::Abort(error)) => start is Abort
                    && start->Abort_0@ == error && *final(snapshot) == *old(snapshot),
                CardPlanView::Failed(FailureView::Fall(fallback)) => start is Show && shows(
                    start->Show_0,
                    *old(snapshot),
                    *final(snapshot),
                    Some(fallback),
                    options,
                ),
                CardPlanView::Unsupported(fallback) => start is Show && shows(
                    start->Show_0,
                    *old(snapshot),
                    *final(snapshot),
                    Some(fallback),
                    options,
                ),
                CardPlanView::Image { is_tmux } => if has_room(
                    shown_columns(columns, cli.full),
                    body.identity.len(),
                    card::identity_height(body, cli.full),
                    settings.image.position,
                ) {
                    start == (CardStart::Load { is_tmux }) && *final(snapshot) == *old(snapshot)
                } else {
                    start is Show && shows(
                        start->Show_0,
                        *old(snapshot),
                        *final(snapshot),
                        unsaid,
                        options,
                    )
                },
            }
        }),
{
    let tty = caps.stdout_tty;
    match plan_card(cli, settings, caps) {
        CardPlan::Plain => CardStart::Show(
            show_text(snapshot, None, cli.full, settings, tty, columns),
        ),
        CardPlan::Failed(Failure::Abort(error)) => CardStart::Abort(error),
        CardPlan::Failed(Failure::Fall(fallback)) => CardStart::Show(
            show_text(snapshot, Some(fallback), cli.full, settings, tty, columns),
        ),
        CardPlan::Unsupported(fallback) => CardStart::Show(
            show_text(snapshot, Some(fallback), cli.full, settings, tty, columns),
        ),
        CardPlan::Image { is_tmux } => {
            let width = one_shot_width(columns, cli.full);
            let body = card_body(snapshot, cli.full);
            if image_has_room(width, &body, cli.full, settings.image.position) {
                CardStart::Load { is_tmux }
            } else {
                CardStart::Show(show_text(snapshot, None, cli.full, settings, tty, columns))
            }
        },
    }
}

/// What the image of a card comes to once it was loaded, or not.
pub open spec fn finished_card(
    decoded: Result<images::DecodedImageView, ImageErrorView>,
    cli: Cli,
    settings: Settings,
    cell_pixels: Option<CellPixels>,
    columns: u16,
    is_tmux: bool,
    id: u32,
    body: text::BodyView,
) -> CardOutputView {
    match decoded {
        Err(error) => CardOutputView::Failed(
            failure_of(asked_image(settings.image.source), error, "falling back to text"@),
        ),
        Ok(image) => match cell_pixels {
            None => CardOutputView::Failed(
                failure_of(
                    cli.protocol is Some,
                    ImageErrorView::MissingGeometry(settings.image.protocol),
                    "falling back to text"@,
                ),
            ),
            Some(cell) => shown_card(
                one_shot::kitty_prepared(
                    image.first_frame,
                    settings.image,
                    settings.limits,
                    cell,
                    shown_columns(columns, cli.full),
                    (card::identity_height(body, cli.full) % 0x1_0000) as u16,
                    id,
                    is_tmux,
                ),
                body,
                cli.full,
                shown_columns(columns, cli.full),
                settings,
            ),
        },
    }
}

/// The image can be prepared: it has its pixels, and memory has room for it.
pub open spec fn finishable(
    image: images::DecodedImageView,
    settings: Settings,
    cell: CellPixels,
    width: u16,
    height: u16,
) -> bool {
    &&& image.first_frame.covered()
    &&& cell.nonzero()
    &&& one_shot::kitty_preparable(
        image.first_frame,
        settings.image,
        settings.limits,
        cell,
        width,
        height,
    )
}

/// Finishes the card of one run whose image was loaded, or not, under an id for the image.
pub fn finish_card(
    decoded: Result<DecodedImage, ImageError>,
    cli: &Cli,
    settings: &Settings,
    caps: TerminalCapabilities,
    columns: u16,
    is_tmux: bool,
    id: u32,
    snapshot: &mut Snapshot,
) -> (end: CardEnd)
    requires
        text::renderable(*old(snapshot)),
        shown_columns(columns, cli.full) >= MIN_TEXT_COLUMNS,
        decoded is Ok && caps.cell_pixels is Some ==> finishable(
            decoded->Ok_0@,
            *settings,
            caps.cell_pixels->0,
            shown_columns(columns, cli.full),
            (card::identity_height(text::card_body_of(*old(snapshot), cli.full), cli.full)
                % 0x1_0000) as u16,
        ),
    ensures
        ({
            let options = plain_options(cli.full, *settings, caps.stdout_tty, columns);
            let unsaid: Option<FallbackView> = None;
            match finished_card(
                images::decoded_view(decoded),
                *cli,
                *settings,
                caps.cell_pixels,
                columns,
                is_tmux,
                id,
                text::card_body_of(*old(snapshot), cli.full),
            ) {
                CardOutputView::Plain => end is Show && shows(
                    end->Show_0,
                    *old(snapshot),
                    *final(snapshot),
                    unsaid,
                    options,
                ),
                CardOutputView::Failed(FailureView::Abort(error)) => end is Abort && end->Abort_0@
                    == error && *final(snapshot) == *old(snapshot),
                CardOutputView::Failed(FailureView::Fall(fallback)) => end is Show && shows(
                    end->Show_0,
                    *old(snapshot),
                    *final(snapshot),
                    Some(fallback),
                    options,
                ),
                CardOutputView::Backend(error) => end is Backend && end->Backend_0@ == error
                    && *final(snapshot) == *old(snapshot),
                CardOutputView::Card { transfer, rows } => end is Card && end->transfer@
                    == transfer && end->rows@ == rows && *final(snapshot) == *old(snapshot),
            }
        }),
{
    let tty = caps.stdout_tty;
    let width = one_shot_width(columns, cli.full);
    let body = card_body(snapshot, cli.full);
    proof {
        text::lemma_sound_body(*snapshot, cli.full);
    }
    let output = match take_image(decoded, caps.cell_pixels, cli, settings) {
        Err(failure) => CardOutput::Failed(failure),
        Ok((image, cell)) => {
            let prepared = prepare_kitty_one_shot(
                &image,
                &settings.image,
                &settings.limits,
                cell,
                width,
                image_rows(&body, cli.full),
                id,
                is_tmux,
            );
            show_card(prepared, &body, cli.full, width, settings)
        },
    };
    match output {
        CardOutput::Plain => CardEnd::Show(
            show_text(snapshot, None, cli.full, settings, tty, columns),
        ),
        CardOutput::Failed(Failure::Abort(error)) => CardEnd::Abort(error),
        CardOutput::Failed(Failure::Fall(fallback)) => CardEnd::Show(
            show_text(snapshot, Some(fallback), cli.full, settings, tty, columns),
        ),
        CardOutput::Backend(error) => CardEnd::Backend(error),
        CardOutput::Card { transfer, rows } => CardEnd::Card { transfer, rows },
    }
}

/// Whether the live view loads its image at all.
pub fn should_load_live_source(source: &ImageSource, protocol: SelectedProtocol) -> (load: bool)
    ensures
        load == (!(source is Disabled) && protocol != SelectedProtocol::Text && protocol
            != SelectedProtocol::Off),
{
    let disabled = match source {
        ImageSource::Disabled => true,
        _ => false,
    };
    let text = match protocol {
        SelectedProtocol::Text | SelectedProtocol::Off => true,
        _ => false,
    };
    !disabled && !text
}

/// Whether the protocol draws pixels while the pixels of a cell are not known.
pub fn pixel_protocol_without_geometry(decision: ProtocolDecision, caps: TerminalCapabilities) -> (
    without: bool)
    ensures
        without == (caps.cell_pixels is None && live::draws_pixels(decision.protocol)),
{
    let pixels = match decision.protocol {
        SelectedProtocol::Kitty | SelectedProtocol::Iterm2 | SelectedProtocol::Sixel => true,
        _ => false,
    };
    caps.cell_pixels.is_none() && pixels
}

/// What the live view does for its image.
pub enum LiveImagePlan {
    Nothing,
    Failed(Failure),
    Load,
}

/// What the live view does for its image: nothing where none is shown, a failure where the
/// pixels of a cell are not known, else it is loaded.
pub fn plan_live_image(
    cli: &Cli,
    settings: &Settings,
    decision: ProtocolDecision,
    caps: TerminalCapabilities,
) -> (plan: LiveImagePlan)
    ensures
        ({
            let selected = live::live_protocol(decision.protocol, caps);
            let wanted = !(settings.image.source is Disabled) && selected != SelectedProtocol::Text
                && selected != SelectedProtocol::Off;
            if !wanted {
                plan is Nothing
            } else if caps.cell_pixels is None && live::draws_pixels(decision.protocol) {
                plan is Failed && plan->Failed_0@ == failure_of(
                    cli.protocol is Some,
                    ImageErrorView::MissingGeometry(settings.image.protocol),
                    "live mode will use text only"@,
                )
            } else {
                plan is Load
            }
        }),
{
    let session = images::ImageSession { id: 1, decision };
    let selected = live::resolve_live_protocol(&session, caps);
    if !should_load_live_source(&settings.image.source, selected) {
        return LiveImagePlan::Nothing;
    }
    if pixel_protocol_without_geometry(decision, caps) {
        return LiveImagePlan::Failed(
            failure(
                cli.protocol.is_some(),
                ImageError::MissingGeometry { protocol: settings.image.protocol },
                "live mode will use text only",
            ),
        );
    }
    LiveImagePlan::Load
}

/// What comes of the live view's image once it was loaded, or not.
pub fn take_live_image(decoded: Result<DecodedImage, ImageError>, settings: &Settings) -> (taken:
    Result<DecodedImage, Failure>)
    ensures
        match taken {
            Ok(image) => decoded == Ok::<DecodedImage, ImageError>(image),
            Err(failure) => decoded is Err && failure@ == failure_of(
                asked_image(settings.image.source),
                decoded->Err_0@,
                "live mode will use text only"@,
            ),
        },
{
    match decoded {
        Ok(image) => Ok(image),
        Err(error) => Err(
            failure(
                image_was_asked_for(&settings.image.source),
                error,
                "live mode will use text only",
            ),
        ),
    }
}

/// Off a terminal, and in a hook, no card has an image, whatever is configured: nothing is
/// decoded and no bytes of an image are sent.
pub proof fn law_no_image_off_a_terminal(cli: Cli, settings: Settings, caps: TerminalCapabilities)
    requires
        !caps.stdout_tty || cli.hook_context,
    ensures
        planned_card(cli, settings, caps) is Plain,
{
}

/// A card with an image is planned only where its geometry is known, and only for the one
/// protocol that cards have.
pub proof fn law_images_need_geometry(cli: Cli, settings: Settings, caps: TerminalCapabilities)
    requires
        planned_card(cli, settings, caps) is Image,
    ensures
        caps.stdout_tty,
        caps.cell_pixels is Some,
        settings.image.protocol == Protocol::Kitty || settings.image.protocol == Protocol::Auto,
{
}

/// Off a terminal, and wherever colour is off, a card is plain text.
pub proof fn law_pipes_get_plain_text(
    snapshot: Snapshot,
    full: bool,
    settings: Settings,
    stdout_tty: bool,
    columns: u16,
)
    requires
        !stdout_tty || !settings.color_enabled,
    ensures
        ({
            let rows = text::card_texts(
                snapshot,
                plain_options(full, settings, stdout_tty, columns),
            );
            forall|i: int| 0 <= i < rows.len() ==> laws::clean(#[trigger] rows[i])
        }),
{
    card_laws::law_plain_cards_hold_no_escapes(
        snapshot,
        plain_options(full, settings, stdout_tty, columns),
    );
}

/// A card fails for want of geometry only where the protocol was asked for on the command
/// line; elsewhere it falls back to text.
pub proof fn law_only_an_asked_protocol_fails(
    cli: Cli,
    settings: Settings,
    caps: TerminalCapabilities,
)
    ensures
        planned_card(cli, settings, caps) matches CardPlanView::Failed(failure) ==> (
        failure is Abort <==> cli.protocol is Some),
{
}

/// A card fails for its image only where the image, or the protocol that lacks its geometry,
/// was asked for on the command line.
pub proof fn law_only_an_asked_image_fails(
    decoded: Result<images::DecodedImageView, ImageErrorView>,
    cli: Cli,
    settings: Settings,
    cell_pixels: Option<CellPixels>,
    columns: u16,
    is_tmux: bool,
    id: u32,
    body: text::BodyView,
)
    ensures
        ({
            let card = finished_card(
                decoded,
                cli,
                settings,
                cell_pixels,
                columns,
                is_tmux,
                id,
                body,
            );
            card matches CardOutputView::Failed(failure) ==> (failure is Abort <==> if decoded is Ok
                && cell_pixels is None {
                cli.protocol is Some
            } else {
                asked_image(settings.image.source)
            })
        }),
{
}

} // verus!
