//! What the settings promise of what the command line and the file say, and the limits of
//! their ranges.
use vstd::prelude::*;
use crate::cli::{Cli, CliConflict, ColorMode, Command, Protocol, Shell};
use crate::config;
use crate::config::{
    FileConfig, ImageFault, ImageFit, ImagePathOrigin, ImagePosition, ImageSettingsView,
    ImageSourceView, Platform,
};
use crate::limits;
use crate::limits::{LimitOverrides, Limits};
use crate::strings;

verus! {

/// A value that is given, or else another.
pub open spec fn given_or<T>(given: Option<T>, other: T) -> T {
    if given is Some {
        given->0
    } else {
        other
    }
}

pub open spec fn in_range(given: Option<u64>, least: nat, most: nat) -> bool {
    given is Some ==> least <= given->0 <= most
}

pub open spec fn in_small_range(given: Option<u32>, least: nat, most: nat) -> bool {
    given is Some ==> least <= given->0 <= most
}

/// The limits where nothing is set.
pub proof fn law_limits_by_default()
    ensures
        limits::default_limits().subprocess_timeout_ms == 500,
        limits::default_limits().subprocess_output_bytes == 64 * 1024,
        limits::default_limits().scan_max_files == 10_000,
        limits::default_limits().scan_max_file_bytes == 1024 * 1024,
        limits::default_limits().scan_max_read_bytes == 8 * 1024 * 1024,
        limits::default_limits().scan_elapsed_ms == 250,
        limits::default_limits().coverage_max_bytes == 8 * 1024 * 1024,
        limits::default_limits().image_max_file_bytes == 16 * 1024 * 1024,
        limits::default_limits().image_max_dimension_px == 4096,
        limits::default_limits().image_max_decoded_bytes == 64 * 1024 * 1024,
        limits::default_limits().image_max_frames == 120,
        limits::default_limits().live_refresh_ms == 1000,
        limits::default_limits().frame_min_delay_ms == 20,
        limits::default_limits().frame_max_delay_ms == 10_000,
{
}

/// Every limit is set by the value of its own name, and by no other: where a value is given
/// it is taken, and where none is given the limit stays.
pub proof fn law_limits_are_set_by_their_names(
    before: Limits,
    after: Limits,
    values: LimitOverrides,
)
    requires
        limits::set_before(before, after, values, 14),
    ensures
        after.subprocess_timeout_ms == given_or(
            values.subprocess_timeout_ms,
            before.subprocess_timeout_ms,
        ),
        after.subprocess_output_bytes == given_or(
            values.subprocess_output_bytes,
            before.subprocess_output_bytes,
        ),
        after.scan_max_files == given_or(values.scan_max_files, before.scan_max_files),
        after.scan_max_file_bytes == given_or(
            values.scan_max_file_bytes,
            before.scan_max_file_bytes,
        ),
        after.scan_max_read_bytes == given_or(
            values.scan_max_read_bytes,
            before.scan_max_read_bytes,
        ),
        after.scan_elapsed_ms == given_or(values.scan_elapsed_ms, before.scan_elapsed_ms),
        after.coverage_max_bytes == given_or(
            values.coverage_max_bytes,
            before.coverage_max_bytes,
        ),
        after.image_max_file_bytes == given_or(
            values.image_max_file_bytes,
            before.image_max_file_bytes,
        ),
        after.image_max_dimension_px == given_or(
            values.image_max_dimension_px,
            before.image_max_dimension_px,
        ),
        after.image_max_decoded_bytes == given_or(
            values.image_max_decoded_bytes,
            before.image_max_decoded_bytes,
        ),
        after.image_max_frames == given_or(values.image_max_frames, before.image_max_frames),
        after.live_refresh_ms == given_or(values.live_refresh_ms, before.live_refresh_ms),
        after.frame_min_delay_ms == given_or(
            values.frame_min_delay_ms,
            before.frame_min_delay_ms,
        ),
        after.frame_max_delay_ms == given_or(
            values.frame_max_delay_ms,
            before.frame_max_delay_ms,
        ),
{
    assert(limits::limit_at(after, 0) == limits::chosen(before, values, 0));
    assert(limits::limit_at(after, 1) == limits::chosen(before, values, 1));
    assert(limits::limit_at(after, 2) == limits::chosen(before, values, 2));
    assert(limits::limit_at(after, 3) == limits::chosen(before, values, 3));
    assert(limits::limit_at(after, 4) == limits::chosen(before, values, 4));
    assert(limits::limit_at(after, 5) == limits::chosen(before, values, 5));
    assert(limits::limit_at(after, 6) == limits::chosen(before, values, 6));
    assert(limits::limit_at(after, 7) == limits::chosen(before, values, 7));
    assert(limits::limit_at(after, 8) == limits::chosen(before, values, 8));
    assert(limits::limit_at(after, 9) == limits::chosen(before, values, 9));
    assert(limits::limit_at(after, 10) == limits::chosen(before, values, 10));
    assert(limits::limit_at(after, 11) == limits::chosen(before, values, 11));
    assert(limits::limit_at(after, 12) == limits::chosen(before, values, 12));
    assert(limits::limit_at(after, 13) == limits::chosen(before, values, 13));
}

/// Every value that is given lies in the range of its own limit.
pub open spec fn all_in_range(values: LimitOverrides) -> bool {
    &&& in_range(values.subprocess_timeout_ms, 1, 10_000)
    &&& in_range(values.subprocess_output_bytes, 1, 1024 * 1024)
    &&& in_range(values.scan_max_files, 1, 100_000)
    &&& in_range(values.scan_max_file_bytes, 1, 16 * 1024 * 1024)
    &&& in_range(values.scan_max_read_bytes, 1, 128 * 1024 * 1024)
    &&& in_range(values.scan_elapsed_ms, 1, 10_000)
    &&& in_range(values.coverage_max_bytes, 1, 64 * 1024 * 1024)
    &&& in_range(values.image_max_file_bytes, 1, 64 * 1024 * 1024)
    &&& in_small_range(values.image_max_dimension_px, 1, 16_384)
    &&& in_range(values.image_max_decoded_bytes, 1, 512 * 1024 * 1024)
    &&& in_small_range(values.image_max_frames, 1, 1000)
    &&& in_range(values.live_refresh_ms, 100, 60_000)
    &&& in_range(values.frame_min_delay_ms, 1, 1000)
    &&& in_range(values.frame_max_delay_ms, 1, 60_000)
}

/// Settings are refused exactly where one of the values that are given is outside of the
/// range of its limit.
pub proof fn law_limits_are_refused_out_of_range(values: LimitOverrides)
    ensures
        limits::refused_from(values, 0) >= 14 <==> all_in_range(values),
{
    reveal_with_fuel(limits::refused_from, 16);
    assert(limits::accepted(values, 0) == in_range(values.subprocess_timeout_ms, 1, 10_000));
    assert(limits::accepted(values, 1) == in_range(
        values.subprocess_output_bytes,
        1,
        1024 * 1024,
    ));
    assert(limits::accepted(values, 2) == in_range(values.scan_max_files, 1, 100_000));
    assert(limits::accepted(values, 3) == in_range(
        values.scan_max_file_bytes,
        1,
        16 * 1024 * 1024,
    ));
    assert(limits::accepted(values, 4) == in_range(
        values.scan_max_read_bytes,
        1,
        128 * 1024 * 1024,
    ));
    assert(limits::accepted(values, 5) == in_range(values.scan_elapsed_ms, 1, 10_000));
    assert(limits::accepted(values, 6) == in_range(
        values.coverage_max_bytes,
        1,
        64 * 1024 * 1024,
    ));
    assert(limits::accepted(values, 7) == in_range(
        values.image_max_file_bytes,
        1,
        64 * 1024 * 1024,
    ));
    assert(limits::accepted(values, 8) == in_small_range(
        values.image_max_dimension_px,
        1,
        16_384,
    ));
    assert(limits::accepted(values, 9) == in_range(
        values.image_max_decoded_bytes,
        1,
        512 * 1024 * 1024,
    ));
    assert(limits::accepted(values, 10) == in_small_range(values.image_max_frames, 1, 1000));
    assert(limits::accepted(values, 11) == in_range(values.live_refresh_ms, 100, 60_000));
    assert(limits::accepted(values, 12) == in_range(values.frame_min_delay_ms, 1, 1000));
    assert(limits::accepted(values, 13) == in_range(values.frame_max_delay_ms, 1, 60_000));
}

/// The limit that is refused is told by the name under which its value was given.
pub proof fn law_refused_limits_are_told_by_their_names(values: LimitOverrides)
    ensures
        limits::limit_name(0) == "subprocess_timeout_ms"@ && limits::override_at(values, 0)
            == values.subprocess_timeout_ms,
        limits::limit_name(1) == "subprocess_output_bytes"@ && limits::override_at(values, 1)
            == values.subprocess_output_bytes,
        limits::limit_name(2) == "scan_max_files"@ && limits::override_at(values, 2)
            == values.scan_max_files,
        limits::limit_name(3) == "scan_max_file_bytes"@ && limits::override_at(values, 3)
            == values.scan_max_file_bytes,
        limits::limit_name(4) == "scan_max_read_bytes"@ && limits::override_at(values, 4)
            == values.scan_max_read_bytes,
        limits::limit_name(5) == "scan_elapsed_ms"@ && limits::override_at(values, 5)
            == values.scan_elapsed_ms,
        limits::limit_name(6) == "coverage_max_bytes"@ && limits::override_at(values, 6)
            == values.coverage_max_bytes,
        limits::limit_name(7) == "image_max_file_bytes"@ && limits::override_at(values, 7)
            == values.image_max_file_bytes,
        limits::limit_name(8) == "image_max_dimension_px"@,
        limits::limit_name(9) == "image_max_decoded_bytes"@ && limits::override_at(values, 9)
            == values.image_max_decoded_bytes,
        limits::limit_name(10) == "image_max_frames"@,
        limits::limit_name(11) == "live_refresh_ms"@ && limits::override_at(values, 11)
            == values.live_refresh_ms,
        limits::limit_name(12) == "frame_min_delay_ms"@ && limits::override_at(values, 12)
            == values.frame_min_delay_ms,
        limits::limit_name(13) == "frame_max_delay_ms"@ && limits::override_at(values, 13)
            == values.frame_max_delay_ms,
{
}

/// What the command line says goes before what the file says, and that before what holds by
/// default; what only the file can say is taken from there.
pub proof fn law_settings_are_taken_in_order(cli: Cli, file: FileConfig)
    ensures
        ({
            let made = config::image_settings_of(cli, file);
            &&& made.protocol == given_or(cli.protocol, given_or(file.image.protocol, Protocol::Auto))
            &&& made.width_cells == given_or(file.image.width_cells, 24u16)
            &&& made.max_height_rows == given_or(file.image.max_height_rows, 12u16)
            &&& made.fit == given_or(file.image.fit, ImageFit::Contain)
            &&& made.position == given_or(file.image.position, ImagePosition::Left)
            &&& made.cell_width_px == file.image.cell_width_px
            &&& made.cell_height_px == file.image.cell_height_px
            &&& cli.no_image ==> made.source is Disabled && made.path is None
            &&& !cli.no_image && cli.image is Some ==> made.source == (ImageSourceView::Path {
                path: cli.image->0@,
                origin: ImagePathOrigin::Cli,
            }) && made.path == Some(cli.image->0@)
            &&& !cli.no_image && cli.image is None && file.image.path is Some ==> made.source == (
            ImageSourceView::Path {
                path: file.image.path->0@,
                origin: ImagePathOrigin::Config,
            }) && made.path == Some(file.image.path->0@)
            &&& !cli.no_image && cli.image is None && file.image.path is None
                ==> made.source is Bundled && made.path is None
        }),
        config::color_of(cli, file) == given_or(cli.color, given_or(file.color, ColorMode::Auto)),
{
}

/// The settings of an image are sound exactly where its cells and their pixels lie in their
/// ranges, and the pixels of a cell are given in both directions or in none; the first of
/// these that fails is told.
pub proof fn law_image_settings_that_are_sound(image: ImageSettingsView)
    ensures
        ({
            let fault = config::image_fault(image);
            let wide = 1 <= image.width_cells <= 120;
            let high = 1 <= image.max_height_rows <= 60;
            let paired = image.cell_width_px is Some <==> image.cell_height_px is Some;
            let width = image.cell_width_px is Some ==> 1 <= image.cell_width_px->0 <= 1000;
            let height = image.cell_height_px is Some ==> 1 <= image.cell_height_px->0 <= 1000;
            &&& fault is None <==> wide && high && paired && width && height
            &&& fault == Some(ImageFault::WidthCells) <==> !wide
            &&& fault == Some(ImageFault::MaxHeightRows) <==> wide && !high
            &&& fault == Some(ImageFault::UnpairedCell) <==> wide && high && !paired
            &&& fault == Some(ImageFault::CellWidth) <==> wide && high && paired && !width
            &&& fault == Some(ImageFault::CellHeight) <==> wide && high && paired && width
                && !height
        }),
{
}

/// Colour is shown where it is always to be, never where it is not, and else unless
/// NO_COLOR says something.
pub proof fn law_colour_that_is_shown(color: ColorMode, no_color: Option<Seq<char>>)
    ensures
        config::color_shown(color, no_color) <==> color == ColorMode::Always || (color
            == ColorMode::Auto && !(no_color is Some && no_color->0.len() > 0)),
{
}

/// The file of the settings, on each platform: below the directory for settings where the
/// environment names one, and else at its place below the home.
pub proof fn law_the_file_of_the_settings(
    home: Seq<char>,
    xdg: Option<Seq<char>>,
    app_data: Option<Seq<char>>,
)
    requires
        home.len() > 0,
        home.last() != '/',
        xdg is Some ==> xdg->0.len() > 0 && xdg->0.last() != '/',
        app_data is Some ==> app_data->0.len() > 0 && app_data->0.last() != '/',
    ensures
        xdg is Some ==> config::config_path_of(Platform::Linux, home, xdg, app_data) == xdg->0
            + "/"@ + "hoshino/config.toml"@,
        xdg is Some ==> config::config_path_of(Platform::Macos, home, xdg, app_data) == xdg->0
            + "/"@ + "hoshino/config.toml"@,
        xdg is None ==> config::config_path_of(Platform::Linux, home, xdg, app_data) == home + "/"@
            + ".config"@ + "/"@ + "hoshino/config.toml"@,
        xdg is None ==> config::config_path_of(Platform::Macos, home, xdg, app_data) == home + "/"@
            + ".config"@ + "/"@ + "hoshino/config.toml"@,
        app_data is Some ==> config::config_path_of(Platform::Windows, home, xdg, app_data)
            == app_data->0 + "/"@ + "hoshino/config.toml"@,
        app_data is None ==> config::config_path_of(Platform::Windows, home, xdg, app_data) == home
            + "/"@ + "AppData/Roaming"@ + "/"@ + "hoshino/config.toml"@,
{
    reveal_strlit(".config");
    reveal_strlit("AppData/Roaming");
    let unix = home + "/"@ + ".config"@;
    let windows = home + "/"@ + "AppData/Roaming"@;
    assert(unix.last() == 'g');
    assert(windows.last() == 'g');
}

/// A directory that ends in a slash, or is empty, stands before a path as it is.
pub proof fn law_paths_are_joined_by_one_slash(base: Seq<char>, path: Seq<char>)
    ensures
        config::path_below(Seq::empty(), path) == path,
        config::path_below(base.push('/'), path) == base.push('/') + path,
        base.len() > 0 && base.last() != '/' ==> config::path_below(base, path) == base + "/"@
            + path,
{
    assert(Seq::<char>::empty() + path =~= path);
}

/// Options that do not go together, and no others: an image and none, JSON of a live view,
/// the context of a hook with anything that is to be shown, a hook with any option but its
/// shell.
pub proof fn law_options_that_do_not_go_together(cli: Cli)
    ensures
        cli.conflict() is None <==> {
            &&& !(cli.image is Some && cli.no_image)
            &&& !(cli.command is Some && cli.command->0 is Live && cli.json)
            &&& cli.hook_context ==> cli.command is None && !cli.full && !cli.json
                && cli.image is None && !cli.no_image && cli.protocol is None
            &&& cli.command is Some && cli.command->0 is Hook ==> !cli.full && !cli.json
                && cli.config is None && cli.image is None && !cli.no_image && cli.protocol is None
                && cli.color is None
        },
        cli.conflict() == Some(CliConflict::ImageAndNoImage) <==> cli.image is Some && cli.no_image,
        cli.conflict() == Some(CliConflict::LiveJson) ==> cli.command == Some(Command::Live)
            && cli.json,
{
}

/// Each shell has an integration of its own.
pub proof fn law_every_shell_has_its_own_integration(shell: Shell)
    ensures
        shell is Bash ==> crate::hooks::hook_source(shell) == crate::hooks::BASH@,
        shell is Zsh ==> crate::hooks::hook_source(shell) == crate::hooks::ZSH@,
        shell is Fish ==> crate::hooks::hook_source(shell) == crate::hooks::FISH@,
        shell is Nu ==> crate::hooks::hook_source(shell) == crate::hooks::NUSHELL@,
        shell is Powershell ==> crate::hooks::hook_source(shell) == crate::hooks::POWERSHELL@,
{
}

/// A limit that is refused is told with its range, the least value first.
pub proof fn law_refused_limits_are_told_with_their_range(index: int)
    ensures
        limits::range_message(index) == "must be between "@ + strings::decimal_text(
            limits::limit_floor(index),
        ) + " and "@ + strings::decimal_text(limits::limit_ceiling(index)),
{
}

} // verus!
