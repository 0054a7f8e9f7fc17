//! What a run of the program promises: which card is shown, when it has an image, and what
//! is said where it has none.
use vstd::prelude::*;
use crate::cli::{Cli, Command, Protocol};
use crate::config::{ImagePathOrigin, ImagePosition, ImageSource, Settings};
use crate::model::DiagnosticSeverity;
use crate::program;
use crate::program::{FailureView, FallbackView, Route};
use crate::render::card;
use crate::render::card::Paint;
use crate::render::images;
use crate::render::images::{CellPixels, ImageErrorView, TerminalCapabilities, TerminalKind};
use crate::render::one_shot;
use crate::render::one_shot::{OneShotErrorView, SerializedView, Size};
use crate::render::text;
use crate::render::theme;
use crate::strings;

verus! {

/// The command decides what is run: a hook is written, a live view begins, and without a
/// command a card is shown; the context of a hook is a card of its own.
pub proof fn law_commands_decide_what_is_run(cli: Cli, route: Route)
    requires
        call_ensures(program::route, (&cli,), route),
    ensures
        route is Hook <==> cli.command is Some && cli.command->0 is Hook,
        route is Hook ==> route->Hook_0 == cli.command->0->shell,
        route is Live <==> cli.command == Some(Command::Live) && !cli.hook_context,
        route is Card <==> cli.command is None && !cli.hook_context,
        route is HookCard <==> cli.hook_context && !(cli.command is Some && cli.command->0 is Hook),
{
}

/// A card has an image exactly where the terminal can show one and one is wanted: on a
/// terminal that knows its cells, outside of hooks, with an image that is not turned off,
/// by the protocol of Kitty, or by none in particular in Ghostty without tmux.
pub proof fn law_cards_with_an_image(cli: Cli, settings: Settings, caps: TerminalCapabilities)
    ensures
        ({
            let plan = program::planned_card(cli, settings, caps);
            let wanted = caps.stdout_tty && !cli.hook_context && !(
            settings.image.source is Disabled);
            let protocol = settings.image.protocol;
            &&& plan is Image <==> wanted && caps.cell_pixels is Some && (protocol
                == Protocol::Kitty || (protocol == Protocol::Auto && caps.terminal
                == TerminalKind::Ghostty && !caps.is_tmux))
            &&& plan is Image ==> plan->Image_is_tmux == caps.is_tmux
            &&& plan is Unsupported <==> wanted && (protocol == Protocol::Iterm2 || protocol
                == Protocol::Sixel || protocol == Protocol::Halfblocks)
            &&& plan is Failed <==> wanted && protocol == Protocol::Kitty && caps.cell_pixels is None
            &&& plan is Unsupported ==> plan->Unsupported_0 == program::unsupported_of(protocol)
        }),
{
}

/// A failure ends the run where the user asked for what failed, and else is told on the
/// card and beside it.
pub proof fn law_failures_are_told(asked: bool, error: ImageErrorView, detail: Seq<char>)
    ensures
        asked ==> program::failure_of(asked, error, detail) == FailureView::Abort(error),
        !asked ==> {
            let failure = program::failure_of(asked, error, detail);
            &&& failure is Fall
            &&& failure->Fall_0.notice == "warning: "@ + error.text() + "; "@ + detail
            &&& failure->Fall_0.diagnostic.message == error.text()
            &&& failure->Fall_0.diagnostic.code == "image-fallback"@
            &&& failure->Fall_0.diagnostic.severity == DiagnosticSeverity::Warning
        },
{
}

/// An image was asked for exactly where the command line names it.
pub proof fn law_images_that_were_asked_for(source: ImageSource)
    ensures
        program::asked_image(source) <==> source is Path && source->origin == ImagePathOrigin::Cli,
{
}

/// Off a terminal a card has neither width nor colour; on one it has its columns, and
/// colour where that is shown; the theme and the mode are those that were chosen.
pub proof fn law_cards_follow_the_terminal(
    full: bool,
    settings: Settings,
    stdout_tty: bool,
    columns: u16,
)
    ensures
        ({
            let options = program::plain_options(full, settings, stdout_tty, columns);
            &&& options.full == full
            &&& options.theme == settings.theme
            &&& !options.embedded
            &&& stdout_tty ==> options.width == Some(columns as usize) && options.color
                == settings.color_enabled
            &&& !stdout_tty ==> options.width is None && !options.color
        }),
{
}

/// The columns of a card with an image: those of the terminal, no more than 104, and in
/// full no more than 120.
pub proof fn law_columns_of_a_card(columns: u16)
    ensures
        columns <= 104 ==> program::shown_columns(columns, false) == columns,
        columns > 104 ==> program::shown_columns(columns, false) == 104,
        columns <= 120 ==> program::shown_columns(columns, true) == columns,
        columns > 120 ==> program::shown_columns(columns, true) == 120,
{
}

/// A card has room for an image beside its text from 43 columns and three rows on, and above
/// it from 34 columns on, where there is a row of text.
pub proof fn law_room_for_an_image(width: u16, rows: nat, height: nat)
    ensures
        program::has_room(width, rows, height, ImagePosition::Left) <==> width >= 43 && rows > 0
            && height >= 3,
        program::has_room(width, rows, height, ImagePosition::Top) <==> width >= 34 && rows > 0,
{
}

/// What was prepared is what is shown: the bytes of the image and the rows of the card; too
/// little room is no failure, and a failure of the image is the user's where the user named
/// it.
pub proof fn law_prepared_images_are_shown(
    prepared: Result<(SerializedView, Size), OneShotErrorView>,
    body: text::BodyView,
    full: bool,
    width: u16,
    settings: Settings,
)
    ensures
        ({
            let shown = program::shown_card(prepared, body, full, width, settings);
            &&& prepared is Ok <==> shown is Card
            &&& prepared is Ok ==> shown->transfer == (prepared->Ok_0).0.transfer
            &&& prepared is Ok ==> shown->rows == strings::joined(
                card::composed_rows(
                    body,
                    full,
                    width as nat,
                    Paint {
                        color: settings.color_enabled,
                        palette: theme::palette_of(settings.theme),
                    },
                    Some(
                        ((prepared->Ok_0).0, (prepared->Ok_0).1, settings.image.position),
                    ),
                ),
                "\n"@,
            ).push('\n')
            &&& shown is Plain <==> prepared is Err && prepared->Err_0 is Narrow
            &&& shown is Backend <==> prepared is Err && prepared->Err_0 is Backend
            &&& shown is Failed <==> prepared is Err && prepared->Err_0 is Image
            &&& shown is Failed ==> (shown->Failed_0 is Abort <==> program::asked_image(
                settings.image.source,
            ))
        }),
{
    reveal_strlit("\n");
    if prepared is Ok {
        let rows = program::shown_card(prepared, body, full, width, settings)->rows;
        assert(rows =~= rows.drop_last().push('\n'));
    }
}

/// The image of a card is the first frame that was decoded, prepared for the columns of the
/// card and the rows of its identity, under the id of the run; without it the card falls
/// back to text.
pub proof fn law_the_first_frame_is_shown(
    image: images::DecodedImageView,
    cli: Cli,
    settings: Settings,
    cell: CellPixels,
    columns: u16,
    is_tmux: bool,
    id: u32,
    body: text::BodyView,
)
    requires
        card::identity_height(body, cli.full) < 0x1_0000,
    ensures
        ({
            let width = program::shown_columns(columns, cli.full);
            let finished = program::finished_card(
                Ok(image),
                cli,
                settings,
                Some(cell),
                columns,
                is_tmux,
                id,
                body,
            );
            let prepared = one_shot::kitty_prepared(
                image.first_frame,
                settings.image,
                settings.limits,
                cell,
                width,
                card::identity_height(body, cli.full) as u16,
                id,
                is_tmux,
            );
            &&& prepared is Ok ==> finished is Card && finished->transfer
                == (prepared->Ok_0).0.transfer
            &&& prepared is Err ==> !(finished is Card)
        }),
        ({
            let failed = program::finished_card(
                Ok(image),
                cli,
                settings,
                None,
                columns,
                is_tmux,
                id,
                body,
            );
            failed is Failed && (failed->Failed_0 is Abort <==> cli.protocol is Some)
        }),
{
}

/// A protocol that no card of one run has is told by its name.
pub proof fn law_unsupported_protocols_are_told(protocol: Protocol)
    ensures
        ({
            let told: FallbackView = program::unsupported_of(protocol);
            let name = match protocol {
                Protocol::Iterm2 => "Iterm2"@,
                Protocol::Sixel => "Sixel"@,
                Protocol::Halfblocks => "Halfblocks"@,
                Protocol::Kitty => "Kitty"@,
                Protocol::Auto => "Auto"@,
                Protocol::Off => "None"@,
            };
            &&& told.diagnostic.message == "one-shot "@ + name
                + " image transport is unsupported; falling back to text"@
            &&& told.notice == "warning: "@ + told.diagnostic.message
            &&& told.diagnostic.code == "image-one-shot-unsupported"@
            &&& told.diagnostic.severity == DiagnosticSeverity::Warning
        }),
{
}

} // verus!
