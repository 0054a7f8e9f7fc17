//! What single calls promise of their results, from one to the next.
use vstd::prelude::*;
use crate::cli::{Cli, ColorMode};
use crate::collect::facts;
use crate::collect::facts::ProjectFacts;
use crate::collect::loc;
use crate::collect::loc::{Scan, ScanQuestion, ScanRun, ScanStage};
use crate::collect::project::{Detection, Language};
use crate::collect::reports;
use crate::collect::reports::{Search, Question, StageView};
use crate::collect::system::SystemFacts;
use crate::collect::time;
use crate::collect::time::{TimeFacts, TimeInput};
use crate::collect::toolchain;
use crate::collect::toolchain::{Patience, Runtime};
use crate::config;
use crate::config::{
    ConfigError, ConfigRead, ImagePosition, ImageSource, LoadedConfig, Settings, Theme,
};
use crate::limits;
use crate::limits::{LimitError, Limits};
use crate::model::{Coverage, Diagnostic, Git, Snapshot, SnapshotMode, Toolchain};
use crate::program;
use crate::program::LiveImagePlan;
use crate::render::images;
use crate::render::images::{
    CellPixels, DecodedImage, ImageError, ImageErrorView, ProtocolDecision, SelectedProtocol,
    TerminalCapabilities,
};
use crate::render::kitty_one_shot;
use crate::render::kitty_one_shot::{SerializeError, SerializedImage};
use crate::render::live;
use crate::render::live::LiveError;
use crate::render::one_shot;
use crate::render::one_shot::{OneShotError, OneShotErrorView, OneShotLayout, Size};
use crate::render::terminal;
use crate::render::terminal::LivePreflight;
use crate::render::theme::Rgb;
use crate::strings;

verus! {

/// Reports are looked for at ten places, those in `coverage` before those beside it.
pub proof fn law_reports_are_looked_for_at_their_places(names: Vec<&'static str>)
    requires
        call_ensures(reports::candidate_names, (), names),
    ensures
        strings_of(names@) == seq![
            "coverage/lcov.info"@,
            "lcov.info"@,
            "coverage/coverage-summary.json"@,
            "coverage-summary.json"@,
            "coverage.xml"@,
            "cobertura.xml"@,
            "coverage/cobertura-coverage.xml"@,
            "target/site/jacoco/jacoco.xml"@,
            "coverage.out"@,
            "cover.out"@,
        ],
{
}

/// The texts of a list.
pub open spec fn strings_of(names: Seq<&'static str>) -> Seq<Seq<char>> {
    Seq::new(names.len(), |i: int| names[i]@)
}

/// A count asks for what it needs next, and for no more of a file than its size is away, nor
/// than a chunk.
pub proof fn law_counts_ask_for_what_they_need(run: ScanRun, question: ScanQuestion)
    requires
        run.sound(),
        call_ensures(ScanRun::question, (&run,), question),
    ensures
        run.stage is NextEntry <==> question is NextEntry,
        run.stage is Stat <==> question is Metadata,
        run.stage is Open <==> question is Open,
        run.stage is Done <==> question is Nothing,
        run.stage is Reading <==> question is Read,
        run.stage matches ScanStage::Reading { expected, counter, .. } ==> question->size
            <= expected - counter.bytes && question->size <= 8192 && question->size > 0,
{
}

/// A search asks for what it needs next, and follows links only to the report that is
/// configured.
pub proof fn law_searches_ask_for_what_they_need(search: Search, question: Question)
    requires
        search@.sound(),
        call_ensures(Search::question, (&search,), question),
    ensures
        search@.stage is Link <==> question is Link,
        search@.stage is Identity <==> question is Identity,
        search@.stage is Metadata <==> question is Metadata,
        search@.stage is Contents <==> question is Contents,
        search@.stage is Rates <==> question is Rates,
        search@.stage is Done <==> question is Nothing,
        question is Contents ==> (question->follow_links
            <==> search@.candidates[search@.at as int].configured),
        search@.stage matches StageView::Rates { line, branch, .. } ==> question->Rates_line@ == line
            && question->Rates_branch@ == branch,
{
}

/// Time is told as it was read; the share of the day needs all three instants.
pub proof fn law_time_is_told_as_read(input: TimeInput, facts: TimeFacts)
    requires
        call_ensures(time::from_input, (input,), facts),
    ensures
        facts.time.local == input.local,
        facts.time.date == input.date,
        facts.time.timezone_name == input.timezone_name,
        facts.time.timezone_offset_seconds == input.timezone_offset_seconds,
        input.instant_seconds is None || input.day_start_seconds is None
            || input.next_day_start_seconds is None ==> facts.time.day_progress_percent is None,
        input.instant_seconds is Some && input.day_start_seconds is Some
            && input.next_day_start_seconds is Some ==> facts.time.day_progress_percent
            == time::progress(
            input.instant_seconds->0,
            input.day_start_seconds->0,
            input.next_day_start_seconds->0,
        ),
        facts.diagnostics@.len() == 0,
{
}

/// Go is asked by a word, and all others by an option.
pub proof fn law_programs_are_asked_for_their_version(runtime: Runtime, argument: &'static str)
    requires
        call_ensures(Runtime::argument, (runtime,), argument),
    ensures
        runtime == Runtime::Go ==> argument@ == "version"@,
        runtime != Runtime::Go ==> argument@ == "--version"@,
{
}

/// A program is waited for, five milliseconds at a time, until its time is over and never
/// beyond it.
pub proof fn law_programs_are_waited_for_in_time(elapsed: u128, timeout: u64, patience: Patience)
    requires
        call_ensures(toolchain::patience, (elapsed, timeout), patience),
    ensures
        patience is Wait <==> elapsed < timeout * 1_000_000,
        patience is End <==> elapsed >= timeout * 1_000_000,
        patience is Wait ==> patience->milliseconds == 5,
{
}

/// Settings are read from the file that is named, else from the one at its place; only the
/// latter may be missing, and then nothing is set.
pub proof fn law_settings_files_that_are_read(
    explicit: Option<&str>,
    place: &str,
    read: ConfigRead,
    loaded: Result<LoadedConfig, ConfigError>,
)
    requires
        call_ensures(config::load_config_with_default, (explicit, place, read), loaded)
            || call_ensures(config::load_config, (explicit, place, read), loaded),
    ensures
        loaded is Ok <==> read is Parsed || (read is Missing && explicit is None),
        read matches ConfigRead::Parsed(file) ==> loaded->Ok_0.file == file,
        read is Parsed && explicit is Some ==> loaded->Ok_0.source is Explicit
            && loaded->Ok_0.source->Explicit_0@ == explicit->0@,
        read is Parsed && explicit is None ==> loaded->Ok_0.source is Default
            && loaded->Ok_0.source->Default_0@ == place@,
        read is Missing && explicit is None ==> loaded->Ok_0.source is BuiltIn
            && loaded->Ok_0.file.unset(),
        read is Malformed ==> loaded->Err_0 is Malformed,
        read is Failed || (read is Missing && explicit is Some) ==> loaded->Err_0 is Read,
        loaded is Err && explicit is Some ==> path_of(loaded->Err_0) == explicit->0@,
        loaded is Err && explicit is None ==> path_of(loaded->Err_0) == place@,
{
}

/// The file that an error of reading settings names.
pub open spec fn path_of(error: ConfigError) -> Seq<char> {
    match error {
        ConfigError::Read { path, .. } => path@,
        ConfigError::Malformed { path, .. } => path@,
        _ => Seq::empty(),
    }
}

/// An error of the settings says which file, which limit or which setting is wrong.
pub proof fn law_errors_of_settings_say_what_is_wrong(
    error: ConfigError,
    text: String,
    limit: LimitError,
    told: String,
)
    requires
        call_ensures(ConfigError::to_text, (&error,), text),
        call_ensures(LimitError::to_text, (&limit,), told),
    ensures
        error matches ConfigError::Read { path, message } ==> text@ == "cannot read config "@
            + path@ + ": "@ + message@,
        error matches ConfigError::Malformed { path, message } ==> text@ == "invalid config "@
            + path@ + ": "@ + message@,
        told@ == "limits."@ + limit.field@ + " "@ + limit.message@,
        error == ConfigError::Limits(limit) ==> text@ == "invalid config: "@ + told@,
        error matches ConfigError::Image(fault) ==> text@ == "invalid config: "@
            + config::image_fault_text(fault.0),
{
}

/// Outside of a repository only the directory is known.
pub proof fn law_facts_outside_of_a_repository(
    directory: String,
    diagnostics: Vec<Diagnostic>,
    made: ProjectFacts,
)
    requires
        call_ensures(facts::outside, (directory, diagnostics), made),
    ensures
        made.context.directory == Some(directory),
        made.context.worktree is None,
        made.git is None,
        made.project is None,
        made.diagnostics == diagnostics,
{
}

/// Inside of a repository the facts are those that were read: none of them is lost, and none
/// is told in the place of another.
pub proof fn law_facts_inside_of_a_repository(
    worktree: String,
    directory: String,
    git: Git,
    scan: Scan,
    full: bool,
    detection: Detection,
    toolchains: Vec<Toolchain>,
    coverage: Option<Coverage>,
    diagnostics: Vec<Diagnostic>,
    made: ProjectFacts,
)
    requires
        loc::all_lines(scan.lines@) <= u64::MAX,
        call_ensures(
            facts::inside,
            (
                worktree,
                directory,
                git,
                scan,
                full,
                &detection,
                toolchains,
                coverage,
                diagnostics,
            ),
            made,
        ),
    ensures
        made.context.worktree == Some(worktree),
        made.context.directory == Some(directory),
        made.git == Some(git),
        made.diagnostics == diagnostics,
        made.project is Some && made.project->0.loc is Some,
        made.project->0.toolchains == toolchains,
        made.project->0.coverage == coverage,
        made.project->0.loc->0.truncated == scan.truncated,
        detection.primary is None ==> made.project->0.primary_language is None,
        detection.primary == Some(Language::Rust) ==> made.project->0.primary_language is Some
            && made.project->0.primary_language->0@ == "Rust"@,
        detection.primary == Some(Language::Python) ==> made.project->0.primary_language is Some
            && made.project->0.primary_language->0@ == "Python"@,
        detection.primary == Some(Language::TypeScript) ==> made.project->0.primary_language is Some
            && made.project->0.primary_language->0@ == "TypeScript"@,
        detection.primary == Some(Language::JavaScript) ==> made.project->0.primary_language is Some
            && made.project->0.primary_language->0@ == "JavaScript"@,
        detection.primary == Some(Language::Go) ==> made.project->0.primary_language is Some
            && made.project->0.primary_language->0@ == "Go"@,
{
}

/// A snapshot holds the facts of the project, the system and the time as they are, and the
/// diagnostics of all three in this order.
pub proof fn law_snapshots_hold_all_facts(
    mode: SnapshotMode,
    project: ProjectFacts,
    system: SystemFacts,
    clock: TimeFacts,
    made: Snapshot,
)
    requires
        call_ensures(facts::snapshot, (mode, project, system, clock), made),
    ensures
        made.mode == mode,
        made.schema_version == 1,
        made.context == project.context,
        made.project == project.project,
        made.git == project.git,
        made.system == system.system,
        made.time == clock.time,
        made.diagnostics@.len() == project.diagnostics@.len() + system.diagnostics@.len()
            + clock.diagnostics@.len(),
        made.diagnostics@.take(project.diagnostics@.len() as int) == project.diagnostics@,
        made.diagnostics@.skip(
            (project.diagnostics@.len() + system.diagnostics@.len()) as int,
        ) == clock.diagnostics@,
{
}

/// A card in the context of a hook is said to be one.
pub proof fn law_cards_of_hooks_are_told(hook_context: bool, mode: SnapshotMode)
    requires
        call_ensures(program::card_mode, (hook_context,), mode),
    ensures
        mode == SnapshotMode::Hook <==> hook_context,
        mode == SnapshotMode::OneShot <==> !hook_context,
{
}

/// An image is taken with the pixels of a cell exactly where it was decoded and they are
/// known.
pub proof fn law_images_that_are_taken(
    decoded: Result<DecodedImage, ImageError>,
    cell: Option<CellPixels>,
    cli: Cli,
    settings: Settings,
    taken: Result<(DecodedImage, CellPixels), program::Failure>,
)
    requires
        call_ensures(program::take_image, (decoded, cell, &cli, &settings), taken),
    ensures
        taken is Ok <==> decoded is Ok && cell is Some,
        taken is Ok ==> (taken->Ok_0).0 == decoded->Ok_0 && (taken->Ok_0).1 == cell->0,
        decoded is Err && program::asked_image(settings.image.source) ==> taken->Err_0@
            == program::FailureView::Abort(decoded->Err_0@),
        decoded is Ok && cell is None && cli.protocol is Some ==> taken->Err_0@
            == program::FailureView::Abort(
            ImageErrorView::MissingGeometry(settings.image.protocol),
        ),
        decoded is Ok && cell is None && cli.protocol is None ==> taken->Err_0@ is Fall,
        decoded is Err && !program::asked_image(settings.image.source) ==> taken->Err_0@ is Fall,
{
}

/// The live view loads an image where there is one and it is to be shown, and fails where
/// the pixels that its protocol needs are not known.
pub proof fn law_the_live_view_loads_its_image(
    cli: Cli,
    settings: Settings,
    decision: ProtocolDecision,
    caps: TerminalCapabilities,
    plan: LiveImagePlan,
    load: bool,
)
    requires
        call_ensures(program::plan_live_image, (&cli, &settings, decision, caps), plan),
        call_ensures(
            program::should_load_live_source,
            (&settings.image.source, live::live_protocol(decision.protocol, caps)),
            load,
        ),
    ensures
        plan is Nothing <==> !load,
        load ==> !(settings.image.source is Disabled),
        plan is Failed <==> load && caps.cell_pixels is None && (decision.protocol
            == SelectedProtocol::Kitty || decision.protocol == SelectedProtocol::Iterm2
            || decision.protocol == SelectedProtocol::Sixel),
        plan is Load <==> load && !(plan is Failed),
        plan is Failed && cli.protocol is Some ==> plan->Failed_0@ == program::FailureView::Abort(
            ImageErrorView::MissingGeometry(settings.image.protocol),
        ),
{
}

/// A source is loaded where there is one and it is not text alone that is shown.
pub proof fn law_sources_that_are_loaded(
    source: ImageSource,
    protocol: SelectedProtocol,
    load: bool,
)
    requires
        call_ensures(program::should_load_live_source, (&source, protocol), load),
    ensures
        source is Disabled ==> !load,
        protocol == SelectedProtocol::Off || protocol == SelectedProtocol::Text ==> !load,
        !(source is Disabled) && (protocol == SelectedProtocol::Kitty || protocol
            == SelectedProtocol::Iterm2 || protocol == SelectedProtocol::Sixel || protocol
            == SelectedProtocol::Halfblocks || protocol == SelectedProtocol::BoundedQueryRequired)
            ==> load,
{
}

/// One byte more than a file may have is read, to see whether it has more.
pub proof fn law_one_byte_more_is_read(limits: Limits, limit: Option<u64>)
    requires
        call_ensures(images::image_read_limit, (&limits,), limit),
    ensures
        limit is None <==> limits.image_max_file_bytes == u64::MAX,
        limit is Some ==> limit->0 == limits.image_max_file_bytes + 1,
{
}

/// An id is never zero, and two counters at one time give two ids, but where one of the ids
/// stands in for zero.
pub proof fn law_ids_differ(first: u32, second: u32, time: u32, process: u32, one: u32, other: u32)
    requires
        first != second,
        call_ensures(kitty_one_shot::image_id, (first, time, process), one),
        call_ensures(kitty_one_shot::image_id, (second, time, process), other),
    ensures
        one != 0 && other != 0,
        one == other ==> one == 1,
        first ^ time ^ process != 0 ==> one == first ^ time ^ process,
{
    assert(first ^ time ^ process != second ^ time ^ process) by (bit_vector)
        requires
            first != second,
    ;
}

/// No counter comes again before all others have come: different ones go to different ones,
/// and none stays.
pub proof fn law_counters_go_on(first: u32, second: u32, one: u32, other: u32)
    requires
        first != second,
        call_ensures(kitty_one_shot::next_counter, (first,), one),
        call_ensures(kitty_one_shot::next_counter, (second,), other),
    ensures
        one != other,
        one != first,
        one == (first + 0x9e37_79b9) % 0x1_0000_0000,
{
}

/// An image is serialized exactly where it can be sent, and a refusal says why.
pub proof fn law_images_that_are_serialized(
    png: &[u8],
    id: u32,
    cols: u16,
    rows: u16,
    tmux: bool,
    made: Result<SerializedImage, SerializeError>,
)
    requires
        call_ensures(kitty_one_shot::serialize, (png, id, cols, rows, tmux), made),
    ensures
        ({
            let cells = Size { width: cols, height: rows };
            let shaped = 1 <= cols <= 256 && 1 <= rows <= 256;
            &&& made is Ok <==> one_shot::transmittable(png@, cells)
            &&& made is Ok ==> made->Ok_0@ == one_shot::sent(png@, id, cells, tmux)
            &&& made is Err && png@.len() == 0 ==> made->Err_0 == SerializeError::EmptyPayload
            &&& made is Err && png@.len() > 0 && !shaped ==> made->Err_0
                == SerializeError::InvalidGeometry
            &&& made is Err && png@.len() > 0 && shaped ==> made->Err_0 == SerializeError::Overflow
        }),
{
}

/// The live view draws by the pixels of a cell, and half blocks without them: a cell is then
/// one wide and two high.
pub proof fn law_the_font_of_the_live_view(
    caps: TerminalCapabilities,
    protocol: SelectedProtocol,
    font: Result<(u16, u16), LiveError>,
)
    requires
        call_ensures(live::live_font, (caps, protocol), font),
    ensures
        font is Err <==> caps.cell_pixels is None && protocol != SelectedProtocol::Halfblocks,
        caps.cell_pixels is None && protocol == SelectedProtocol::Halfblocks ==> font == Ok::<
            (u16, u16),
            LiveError,
        >((1, 2)),
        caps.cell_pixels is Some && caps.cell_pixels->0.width <= 0xffff
            && caps.cell_pixels->0.height <= 0xffff ==> (font->Ok_0).0
            == caps.cell_pixels->0.width && (font->Ok_0).1 == caps.cell_pixels->0.height,
        font is Err ==> font->Err_0@ == live::LiveErrorView::InvalidInput(
            "live image needs cell pixel geometry"@,
        ),
{
}

/// Image and text are laid out where the terminal has the columns for both: 20 for the text,
/// and beside it those of the image where it stands at the left.
pub proof fn law_layouts_need_their_columns(
    size: Size,
    cells: Size,
    position: ImagePosition,
    lines: u16,
    layout: Result<OneShotLayout, OneShotError>,
)
    requires
        call_ensures(one_shot::one_shot_layout, (size, cells, position, lines), layout),
        cells.width <= 0xff00,
    ensures
        position == ImagePosition::Left ==> (layout is Ok <==> size.width >= cells.width + 20),
        position == ImagePosition::Top ==> (layout is Ok <==> size.width >= 20),
        layout is Ok ==> layout->Ok_0 == one_shot::placed(size, cells, position, lines),
        layout is Err && position == ImagePosition::Top ==> layout->Err_0@ == (
        OneShotErrorView::Narrow { available: size.width, required: 20 }),
        layout is Err && position == ImagePosition::Left ==> layout->Err_0@ == (
        OneShotErrorView::Narrow {
            available: size.width,
            required: (cells.width + 20) as u16,
        }),
{
}

/// A PNG is kept where it has no more bytes than a file may.
pub proof fn law_files_that_are_kept(
    encoded: Result<Vec<u8>, String>,
    limits: Limits,
    png: Result<Vec<u8>, OneShotError>,
)
    requires
        call_ensures(one_shot::keep_png, (encoded, &limits), png),
    ensures
        png is Ok <==> encoded is Ok && encoded->Ok_0@.len() <= limits.image_max_file_bytes,
        png is Ok ==> png->Ok_0 == encoded->Ok_0,
        encoded is Err ==> png->Err_0@ == OneShotErrorView::Backend(encoded->Err_0@),
        png is Err && encoded is Ok ==> png->Err_0@ == OneShotErrorView::Image(
            ImageErrorView::Limit("file bytes"@),
        ),
{
}

/// A card is as wide as the terminal, up to 104 columns, and up to 120 where it is full.
pub proof fn law_the_width_of_a_printed_card(columns: u16, normal: u16, full: u16)
    requires
        call_ensures(terminal::one_shot_width, (columns, false), normal),
        call_ensures(terminal::one_shot_width, (columns, true), full),
    ensures
        columns <= 104 ==> normal == columns,
        columns >= 104 ==> normal == 104,
        columns <= 120 ==> full == columns,
        columns >= 120 ==> full == 120,
{
}

/// An image is considered on 43 columns where it stands at the left, and on 34 above.
pub proof fn law_widths_that_take_an_image(width: u16, left: bool, top: bool)
    requires
        call_ensures(terminal::one_shot_image_eligible, (width, ImagePosition::Left), left),
        call_ensures(terminal::one_shot_image_eligible, (width, ImagePosition::Top), top),
    ensures
        left <==> width >= 43,
        top <==> width >= 34,
{
}

/// The live view needs a terminal on both sides.
pub proof fn law_the_live_view_needs_terminals(
    caps: TerminalCapabilities,
    preflight: Result<LivePreflight, ImageError>,
)
    requires
        call_ensures(terminal::prevalidate_live, (caps,), preflight),
    ensures
        preflight is Ok <==> caps.stdin_tty && caps.stdout_tty,
        preflight is Err ==> preflight->Err_0@ == ImageErrorView::LiveRequiresTtys,
{
}

/// Different colours have different numbers, whose bytes are red, green and blue.
pub proof fn law_colours_are_told_by_their_numbers(first: Rgb, second: Rgb, one: u32, other: u32)
    requires
        call_ensures(Rgb::hex, (first,), one),
        call_ensures(Rgb::hex, (second,), other),
    ensures
        one == other ==> first == second,
        one / 0x1_0000 == first.red && (one / 0x100) % 0x100 == first.green && one % 0x100
            == first.blue,
{
}

/// The settings that are made are those of the command line, the file and the defaults, and
/// all of them are sound; where they are not, the first fault is told: a limit out of its
/// range, delays of frames that cross, or the image.
pub proof fn law_settings_that_are_made(
    cli: Cli,
    loaded: LoadedConfig,
    no_color: Option<&str>,
    settings: Result<Settings, ConfigError>,
)
    requires
        call_ensures(config::resolve_settings, (&cli, &loaded, no_color), settings),
    ensures
        ({
            let file = loaded.file;
            let refused = limits::refused_from(file.limits, 0);
            let least = limits::chosen(limits::default_limits(), file.limits, 12);
            let most = limits::chosen(limits::default_limits(), file.limits, 13);
            let fault = config::image_fault(config::image_settings_of(cli, file));
            &&& settings is Ok ==> {
                let made = settings->Ok_0;
                &&& refused >= 14 && fault is None
                &&& file.theme is Some ==> made.theme == file.theme->0
                &&& file.theme is None ==> made.theme == Theme::DuskDarker
                &&& made.color == config::color_of(cli, file)
                &&& made.color == ColorMode::Always ==> made.color_enabled
                &&& made.color == ColorMode::Never ==> !made.color_enabled
                &&& made.color == ColorMode::Auto && no_color is None ==> made.color_enabled
                &&& made.image@ == config::image_settings_of(cli, file)
                &&& made.coverage_report_path is Some <==> file.coverage_report_path is Some
                &&& file.coverage_report_path is Some ==> made.coverage_report_path->0@
                    == file.coverage_report_path->0@
            }
            &&& settings is Err && settings->Err_0 is Limits && refused >= 14 ==> least > most
                && settings->Err_0->Limits_0.field@ == "frame_min_delay_ms"@
                && settings->Err_0->Limits_0.message@ == "must not exceed frame_max_delay_ms"@
            &&& settings is Err && refused < 14 ==> settings->Err_0 is Limits
                && settings->Err_0->Limits_0.field@ == limits::limit_name(refused)
            &&& settings is Err && settings->Err_0 is Image ==> fault == Some(
                settings->Err_0->Image_0.0,
            ) && least <= most
            &&& settings is Err ==> refused < 14 || least > most || fault is Some
        }),
{
    if settings is Ok {
        let made = settings->Ok_0;
        assert(strings::optional_text(made.coverage_report_path) == strings::optional_text(
            loaded.file.coverage_report_path,
        ));
    }
}

} // verus!
