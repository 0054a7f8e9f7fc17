//! Where the configuration is, and the settings that it and the command line make.
use vstd::prelude::*;
use crate::cli::{Cli, ColorMode, Protocol};
use crate::limits;
use crate::limits::{LimitError, LimitOverrides, Limits};
use crate::strings;
use crate::strings::copy_optional;

verus! {

#[derive(Clone, Copy, Debug, PartialEq, Eq, Structural)]
pub enum Platform {
    Linux,
    Macos,
    Windows,
}

#[derive(Clone, Debug, PartialEq, Eq)]
pub struct FileConfig {
    pub theme: Option<Theme>,
    pub color: Option<ColorMode>,
    pub image: ImageConfig,
    pub coverage_report_path: Option<String>,
    pub limits: LimitOverrides,
}

#[derive(Clone, Debug, PartialEq, Eq)]
pub struct ImageConfig {
    pub path: Option<String>,
    pub protocol: Option<Protocol>,
    pub width_cells: Option<u16>,
    pub max_height_rows: Option<u16>,
    pub fit: Option<ImageFit>,
    pub position: Option<ImagePosition>,
    pub cell_width_px: Option<u16>,
    pub cell_height_px: Option<u16>,
}

impl ImageConfig {
    /// Nothing is configured.
    pub open spec fn unset(self) -> bool {
        &&& self.path is None
        &&& self.protocol is None
        &&& self.width_cells is None
        &&& self.max_height_rows is None
        &&& self.fit is None
        &&& self.position is None
        &&& self.cell_width_px is None
        &&& self.cell_height_px is None
    }
}

impl Default for ImageConfig {
    fn default() -> (image: Self)
        ensures
            image.unset(),
    {
        ImageConfig {
            path: None,
            protocol: None,
            width_cells: None,
            max_height_rows: None,
            fit: None,
            position: None,
            cell_width_px: None,
            cell_height_px: None,
        }
    }
}

impl FileConfig {
    /// Nothing is configured.
    pub open spec fn unset(self) -> bool {
        &&& self.theme is None
        &&& self.color is None
        &&& self.image.unset()
        &&& self.coverage_report_path is None
        &&& forall|index: int|
            0 <= index < limits::LIMIT_COUNT ==> #[trigger] limits::override_at(
                self.limits,
                index,
            ) is None
    }
}

impl Default for FileConfig {
    fn default() -> (file: Self)
        ensures
            file.unset(),
    {
        FileConfig {
            theme: None,
            color: None,
            image: ImageConfig::default(),
            coverage_report_path: None,
            limits: LimitOverrides::default(),
        }
    }
}

#[derive(Clone, Copy, Debug, PartialEq, Eq, Structural)]
pub enum ImageFit {
    Contain,
    Cover,
}

#[derive(Clone, Copy, Debug, PartialEq, Eq, Structural)]
pub enum ImagePosition {
    Left,
    Top,
}

#[derive(Clone, Copy, Debug, PartialEq, Eq, Structural)]
pub enum Theme {
    Dusk,
    DuskDarker,
}

#[derive(Clone, Debug, PartialEq, Eq)]
pub enum ConfigSource {
    BuiltIn,
    Default(String),
    Explicit(String),
}

#[derive(Clone, Debug, PartialEq, Eq)]
pub struct LoadedConfig {
    pub source: ConfigSource,
    pub file: FileConfig,
}

#[derive(Clone, Debug, PartialEq, Eq)]
pub struct Settings {
    pub theme: Theme,
    pub color: ColorMode,
    pub color_enabled: bool,
    pub image: ImageSettings,
    pub coverage_report_path: Option<String>,
    pub limits: Limits,
}

#[derive(Clone, Debug, PartialEq, Eq)]
pub struct ImageSettings {
    /// The resolved source is authoritative; `path` repeats it for display.
    pub source: ImageSource,
    pub path: Option<String>,
    pub protocol: Protocol,
    pub width_cells: u16,
    pub max_height_rows: u16,
    pub fit: ImageFit,
    pub position: ImagePosition,
    pub cell_width_px: Option<u16>,
    pub cell_height_px: Option<u16>,
}

#[derive(Clone, Copy, Debug, PartialEq, Eq, Structural)]
pub enum ImagePathOrigin {
    Cli,
    Config,
}

#[derive(Clone, Debug, PartialEq, Eq)]
pub enum ImageSource {
    Disabled,
    Bundled,
    Path { path: String, origin: ImagePathOrigin },
}

#[verifier::ext_equal]
pub enum ImageSourceView {
    Disabled,
    Bundled,
    Path { path: Seq<char>, origin: ImagePathOrigin },
}

impl View for ImageSource {
    type V = ImageSourceView;

    open spec fn view(&self) -> ImageSourceView {
        match *self {
            ImageSource::Disabled => ImageSourceView::Disabled,
            ImageSource::Bundled => ImageSourceView::Bundled,
            ImageSource::Path { path, origin } => ImageSourceView::Path { path: path@, origin },
        }
    }
}

#[verifier::ext_equal]
pub struct ImageSettingsView {
    pub source: ImageSourceView,
    pub path: Option<Seq<char>>,
    pub protocol: Protocol,
    pub width_cells: u16,
    pub max_height_rows: u16,
    pub fit: ImageFit,
    pub position: ImagePosition,
    pub cell_width_px: Option<u16>,
    pub cell_height_px: Option<u16>,
}

impl View for ImageSettings {
    type V = ImageSettingsView;

    open spec fn view(&self) -> ImageSettingsView {
        ImageSettingsView {
            source: self.source@,
            path: strings::optional_text(self.path),
            protocol: self.protocol,
            width_cells: self.width_cells,
            max_height_rows: self.max_height_rows,
            fit: self.fit,
            position: self.position,
            cell_width_px: self.cell_width_px,
            cell_height_px: self.cell_height_px,
        }
    }
}

pub open spec fn default_image() -> ImageSettingsView {
    ImageSettingsView {
        source: ImageSourceView::Bundled,
        path: None,
        protocol: Protocol::Auto,
        width_cells: 24,
        max_height_rows: 12,
        fit: ImageFit::Contain,
        position: ImagePosition::Left,
        cell_width_px: None,
        cell_height_px: None,
    }
}

impl Default for ImageSettings {
    fn default() -> (image: Self)
        ensures
            image@ == default_image(),
    {
        ImageSettings {
            source: ImageSource::Bundled,
            path: None,
            protocol: Protocol::Auto,
            width_cells: 24,
            max_height_rows: 12,
            fit: ImageFit::Contain,
            position: ImagePosition::Left,
            cell_width_px: None,
            cell_height_px: None,
        }
    }
}

impl Default for Settings {
    fn default() -> (settings: Self)
        ensures
            settings.theme == Theme::DuskDarker,
            settings.color == ColorMode::Auto,
            settings.color_enabled,
            settings.image@ == default_image(),
            settings.coverage_report_path is None,
            settings.limits == limits::default_limits(),
    {
        Settings {
            theme: Theme::DuskDarker,
            color: ColorMode::Auto,
            color_enabled: true,
            image: ImageSettings::default(),
            coverage_report_path: None,
            limits: Limits::default(),
        }
    }
}

/// What is wrong with the image's settings.
#[derive(Clone, Copy, Debug, PartialEq, Eq, Structural)]
pub struct ImageConfigError(pub ImageFault);

#[derive(Clone, Copy, Debug, PartialEq, Eq, Structural)]
pub enum ImageFault {
    WidthCells,
    MaxHeightRows,
    UnpairedCell,
    CellWidth,
    CellHeight,
}

impl ImageConfigError {
    /// The error as the user reads it.
    pub fn message(self) -> (text: &'static str)
        ensures
            text@ == image_fault_text(self.0),
    {
        match self.0 {
            ImageFault::WidthCells => "image.width_cells must be between 1 and 120",
            ImageFault::MaxHeightRows => "image.max_height_rows must be between 1 and 60",
            ImageFault::UnpairedCell =>
                "image.cell_width_px and image.cell_height_px must be configured together",
            ImageFault::CellWidth => "image.cell_width_px must be between 1 and 1000",
            ImageFault::CellHeight => "image.cell_height_px must be between 1 and 1000",
        }
    }
}

pub open spec fn image_fault_text(fault: ImageFault) -> Seq<char> {
    match fault {
        ImageFault::WidthCells => "image.width_cells must be between 1 and 120"@,
        ImageFault::MaxHeightRows => "image.max_height_rows must be between 1 and 60"@,
        ImageFault::UnpairedCell =>
            "image.cell_width_px and image.cell_height_px must be configured together"@,
        ImageFault::CellWidth => "image.cell_width_px must be between 1 and 1000"@,
        ImageFault::CellHeight => "image.cell_height_px must be between 1 and 1000"@,
    }
}

pub open spec fn cell_size_fits(value: Option<u16>) -> bool {
    value is Some ==> 1 <= value->0 <= 1_000
}

/// The first thing that is wrong with the image's settings.
pub open spec fn image_fault(image: ImageSettingsView) -> Option<ImageFault> {
    if !(1 <= image.width_cells <= 120) {
        Some(ImageFault::WidthCells)
    } else if !(1 <= image.max_height_rows <= 60) {
        Some(ImageFault::MaxHeightRows)
    } else if image.cell_width_px is Some != image.cell_height_px is Some {
        Some(ImageFault::UnpairedCell)
    } else if !cell_size_fits(image.cell_width_px) {
        Some(ImageFault::CellWidth)
    } else if !cell_size_fits(image.cell_height_px) {
        Some(ImageFault::CellHeight)
    } else {
        None
    }
}

pub open spec fn or_else<T>(value: Option<T>, default: T) -> T {
    match value {
        Some(value) => value,
        None => default,
    }
}

/// The image's settings with what the file says of them.
pub open spec fn image_applied(image: ImageSettingsView, file: ImageConfig) -> ImageSettingsView {
    ImageSettingsView {
        source: match file.path {
            Some(path) => ImageSourceView::Path { path: path@, origin: ImagePathOrigin::Config },
            None => image.source,
        },
        path: match file.path {
            Some(path) => Some(path@),
            None => image.path,
        },
        protocol: or_else(file.protocol, image.protocol),
        width_cells: or_else(file.width_cells, image.width_cells),
        max_height_rows: or_else(file.max_height_rows, image.max_height_rows),
        fit: or_else(file.fit, image.fit),
        position: or_else(file.position, image.position),
        cell_width_px: file.cell_width_px,
        cell_height_px: file.cell_height_px,
    }
}

impl ImageSettings {
    pub fn apply(&mut self, file: &ImageConfig)
        ensures
            final(self)@ == image_applied(old(self)@, *file),
    {
        if let Some(path) = &file.path {
            self.source = ImageSource::Path { path: path.clone(), origin: ImagePathOrigin::Config };
            self.path = Some(path.clone());
        }
        if let Some(protocol) = file.protocol {
            self.protocol = protocol;
        }
        if let Some(width_cells) = file.width_cells {
            self.width_cells = width_cells;
        }
        if let Some(max_height_rows) = file.max_height_rows {
            self.max_height_rows = max_height_rows;
        }
        if let Some(fit) = file.fit {
            self.fit = fit;
        }
        if let Some(position) = file.position {
            self.position = position;
        }
        self.cell_width_px = file.cell_width_px;
        self.cell_height_px = file.cell_height_px;
    }

    pub fn validate(&self) -> (outcome: Result<(), ImageConfigError>)
        ensures
            outcome == match image_fault(self@) {
                Some(fault) => Err::<(), ImageConfigError>(ImageConfigError(fault)),
                None => Ok(()),
            },
    {
        if self.width_cells < 1 || self.width_cells > 120 {
            return Err(ImageConfigError(ImageFault::WidthCells));
        }
        if self.max_height_rows < 1 || self.max_height_rows > 60 {
            return Err(ImageConfigError(ImageFault::MaxHeightRows));
        }
        if self.cell_width_px.is_some() != self.cell_height_px.is_some() {
            return Err(ImageConfigError(ImageFault::UnpairedCell));
        }
        if let Some(value) = self.cell_width_px {
            if value < 1 || value > 1_000 {
                return Err(ImageConfigError(ImageFault::CellWidth));
            }
        }
        if let Some(value) = self.cell_height_px {
            if value < 1 || value > 1_000 {
                return Err(ImageConfigError(ImageFault::CellHeight));
            }
        }
        Ok(())
    }
}

/// `path` below `base`.
pub open spec fn path_below(base: Seq<char>, path: Seq<char>) -> Seq<char> {
    if base.len() == 0 || base.last() == '/' {
        base + path
    } else {
        base + "/"@ + path
    }
}

/// `path` below `base`.
pub fn join_path(base: &str, path: &str) -> (joined: String)
    ensures
        joined@ == path_below(base@, path@),
{
    let chars = strings::chars_of(base);
    if chars.len() == 0 || chars[chars.len() - 1] == '/' {
        base.to_owned().concat(path)
    } else {
        base.to_owned().concat("/").concat(path)
    }
}

/// Where the configuration is by default: in the platform's directory for it.
pub open spec fn config_path_of(
    platform: Platform,
    home: Seq<char>,
    xdg_config_home: Option<Seq<char>>,
    app_data: Option<Seq<char>>,
) -> Seq<char> {
    let base = match platform {
        Platform::Windows => or_else(app_data, path_below(home, "AppData/Roaming"@)),
        _ => or_else(xdg_config_home, path_below(home, ".config"@)),
    };
    path_below(base, "hoshino/config.toml"@)
}

pub fn platform_config_path(
    platform: Platform,
    home: &str,
    xdg_config_home: Option<&str>,
    app_data: Option<&str>,
) -> (path: String)
    ensures
        path@ == config_path_of(
            platform,
            home@,
            strings::optional_str(xdg_config_home),
            strings::optional_str(app_data),
        ),
{
    let base = match platform {
        Platform::Windows => match app_data {
            Some(path) => path.to_owned(),
            None => join_path(home, "AppData/Roaming"),
        },
        _ => match xdg_config_home {
            Some(path) => path.to_owned(),
            None => join_path(home, ".config"),
        },
    };
    join_path(base.as_str(), "hoshino/config.toml")
}

/// The directory that the default path of the configuration begins at.
#[derive(Clone, Copy, Debug, PartialEq, Eq, Structural)]
pub enum ConfigBase {
    Home,
    XdgConfigHome,
    AppData,
}

/// Where the default path begins, and what stands below it.
pub open spec fn config_base_of(
    platform: Platform,
    has_xdg_config_home: bool,
    has_app_data: bool,
) -> (ConfigBase, Seq<char>) {
    match platform {
        Platform::Windows => if has_app_data {
            (ConfigBase::AppData, "hoshino/config.toml"@)
        } else {
            (ConfigBase::Home, "AppData/Roaming/hoshino/config.toml"@)
        },
        _ => if has_xdg_config_home {
            (ConfigBase::XdgConfigHome, "hoshino/config.toml"@)
        } else {
            (ConfigBase::Home, ".config/hoshino/config.toml"@)
        },
    }
}

/// The parts of the default path, for names of directories that are not text.
pub fn config_base(platform: Platform, has_xdg_config_home: bool, has_app_data: bool) -> (parts: (
    ConfigBase,
    &'static str,
))
    ensures
        (parts.0, parts.1@) == config_base_of(platform, has_xdg_config_home, has_app_data),
{
    match platform {
        Platform::Windows => if has_app_data {
            (ConfigBase::AppData, "hoshino/config.toml")
        } else {
            (ConfigBase::Home, "AppData/Roaming/hoshino/config.toml")
        },
        _ => if has_xdg_config_home {
            (ConfigBase::XdgConfigHome, "hoshino/config.toml")
        } else {
            (ConfigBase::Home, ".config/hoshino/config.toml")
        },
    }
}

/// The parts of the default path make it up.
pub proof fn law_default_path_is_made_of_its_parts(
    platform: Platform,
    home: Seq<char>,
    xdg_config_home: Option<Seq<char>>,
    app_data: Option<Seq<char>>,
)
    ensures
        ({
            let (base, below) = config_base_of(
                platform,
                xdg_config_home is Some,
                app_data is Some,
            );
            let directory = match base {
                ConfigBase::Home => home,
                ConfigBase::XdgConfigHome => xdg_config_home->0,
                ConfigBase::AppData => app_data->0,
            };
            config_path_of(platform, home, xdg_config_home, app_data) == path_below(
                directory,
                below,
            )
        }),
{
    reveal_strlit("hoshino/config.toml");
    reveal_strlit("AppData/Roaming");
    reveal_strlit(".config");
    reveal_strlit("AppData/Roaming/hoshino/config.toml");
    reveal_strlit(".config/hoshino/config.toml");
    reveal_strlit("/");
    assert(path_below(path_below(home, "AppData/Roaming"@), "hoshino/config.toml"@) =~= path_below(
        home,
        "AppData/Roaming/hoshino/config.toml"@,
    ));
    assert(path_below(path_below(home, ".config"@), "hoshino/config.toml"@) =~= path_below(
        home,
        ".config/hoshino/config.toml"@,
    ));
}

/// What reading the configuration file gave.
#[derive(Clone, Debug, PartialEq, Eq)]
pub enum ConfigRead {
    Parsed(FileConfig),
    Malformed(String),
    Missing(String),
    Failed(String),
}

/// The file to read: the one the user named, or else the default one.
pub fn config_file(explicit: Option<&str>, default_path: &str) -> (path: String)
    ensures
        path@ == or_else(strings::optional_str(explicit), default_path@),
{
    match explicit {
        Some(path) => path.to_owned(),
        None => default_path.to_owned(),
    }
}

#[derive(Clone, Debug, PartialEq, Eq)]
pub enum ConfigError {
    Read { path: String, message: String },
    Malformed { path: String, message: String },
    Limits(LimitError),
    Image(ImageConfigError),
}

impl ConfigError {
    /// The error as the user reads it.
    pub fn to_text(&self) -> (text: String)
        ensures
            text@ == match *self {
                ConfigError::Read { path, message } => "cannot read config "@ + path@ + ": "@
                    + message@,
                ConfigError::Malformed { path, message } => "invalid config "@ + path@ + ": "@
                    + message@,
                ConfigError::Limits(error) => "invalid config: "@ + ("limits."@ + error.field@
                    + " "@ + error.message@),
                ConfigError::Image(error) => "invalid config: "@ + image_fault_text(error.0),
            },
    {
        match self {
            ConfigError::Read { path, message } => "cannot read config ".to_owned().concat(
                path.as_str(),
            ).concat(": ").concat(message.as_str()),
            ConfigError::Malformed { path, message } => "invalid config ".to_owned().concat(
                path.as_str(),
            ).concat(": ").concat(message.as_str()),
            ConfigError::Limits(error) => "invalid config: ".to_owned().concat(
                error.to_text().as_str(),
            ),
            ConfigError::Image(error) => "invalid config: ".to_owned().concat(error.message()),
        }
    }
}

/// The configuration that reading `config_file` gave. Only a default file that
/// does not exist stands for the built-in configuration.
pub fn load_config_with_default(
    explicit: Option<&str>,
    default_path: &str,
    read: ConfigRead,
) -> (loaded: Result<LoadedConfig, ConfigError>)
    ensures
        match read {
            ConfigRead::Parsed(file) => loaded is Ok && loaded->Ok_0.file == file && (match explicit {
                Some(path) => loaded->Ok_0.source is Explicit && loaded->Ok_0.source->Explicit_0@
                    == path@,
                None => loaded->Ok_0.source is Default && loaded->Ok_0.source->Default_0@
                    == default_path@,
            }),
            ConfigRead::Malformed(message) => loaded is Err && loaded->Err_0 is Malformed
                && loaded->Err_0->Malformed_path@ == or_else(
                strings::optional_str(explicit),
                default_path@,
            ) && loaded->Err_0->Malformed_message == message,
            ConfigRead::Missing(message) => if explicit is None {
                loaded is Ok && loaded->Ok_0.source is BuiltIn && loaded->Ok_0.file.unset()
            } else {
                loaded is Err && loaded->Err_0 is Read && loaded->Err_0->Read_path@
                    == explicit->0@ && loaded->Err_0->Read_message == message
            },
            ConfigRead::Failed(message) => loaded is Err && loaded->Err_0 is Read
                && loaded->Err_0->Read_path@ == or_else(
                strings::optional_str(explicit),
                default_path@,
            )
                && loaded->Err_0->Read_message == message,
        },
{
    let path = config_file(explicit, default_path);
    match read {
        ConfigRead::Parsed(file) => {
            let source = match explicit {
                Some(path) => ConfigSource::Explicit(path.to_owned()),
                None => ConfigSource::Default(default_path.to_owned()),
            };
            Ok(LoadedConfig { source, file })
        },
        ConfigRead::Malformed(message) => Err(ConfigError::Malformed { path, message }),
        ConfigRead::Missing(message) => {
            if explicit.is_none() {
                Ok(LoadedConfig { source: ConfigSource::BuiltIn, file: FileConfig::default() })
            } else {
                Err(ConfigError::Read { path, message })
            }
        },
        ConfigRead::Failed(message) => Err(ConfigError::Read { path, message }),
    }
}

/// The configuration of a file that was read; a default file may be missing.
pub fn load_config(explicit: Option<&str>, default_path: &str, read: ConfigRead) -> (loaded: Result<
    LoadedConfig,
    ConfigError,
>)
    ensures
        loaded is Ok == (read is Parsed || (read is Missing && explicit is None)),
        read is Parsed ==> loaded->Ok_0.file == read->Parsed_0 && (match explicit {
            Some(path) => loaded->Ok_0.source is Explicit && loaded->Ok_0.source->Explicit_0@
                == path@,
            None => loaded->Ok_0.source is Default && loaded->Ok_0.source->Default_0@
                == default_path@,
        }),
        read is Missing && explicit is None ==> loaded->Ok_0.source is BuiltIn
            && loaded->Ok_0.file.unset(),
        loaded is Err ==> (match loaded->Err_0 {
            ConfigError::Read { path, message } => path@ == or_else(
                strings::optional_str(explicit),
                default_path@,
            ) && (read == ConfigRead::Missing(message) || read == ConfigRead::Failed(message)),
            ConfigError::Malformed { path, message } => path@ == or_else(
                strings::optional_str(explicit),
                default_path@,
            ) && read == ConfigRead::Malformed(message),
            _ => false,
        }),
{
    load_config_with_default(explicit, default_path, read)
}

/// The image's settings with what the command line says of them.
pub open spec fn image_chosen(image: ImageSettingsView, cli: Cli) -> ImageSettingsView {
    let chosen = ImageSettingsView { protocol: or_else(cli.protocol, image.protocol), ..image };
    if cli.no_image {
        ImageSettingsView { source: ImageSourceView::Disabled, path: None, ..chosen }
    } else {
        match cli.image {
            Some(path) => ImageSettingsView {
                source: ImageSourceView::Path { path: path@, origin: ImagePathOrigin::Cli },
                path: Some(path@),
                ..chosen
            },
            None => chosen,
        }
    }
}

/// The image's settings that the file and the command line make, the latter first.
pub open spec fn image_settings_of(cli: Cli, file: FileConfig) -> ImageSettingsView {
    image_chosen(image_applied(default_image(), file.image), cli)
}

/// The colour mode that the command line, the file or the default gives.
pub open spec fn color_of(cli: Cli, file: FileConfig) -> ColorMode {
    or_else(cli.color, or_else(file.color, ColorMode::Auto))
}

/// A non-empty NO_COLOR turns off automatic colour alone.
pub open spec fn color_shown(color: ColorMode, no_color: Option<Seq<char>>) -> bool {
    match color {
        ColorMode::Always => true,
        ColorMode::Never => false,
        ColorMode::Auto => no_color is None || no_color->0.len() == 0,
    }
}

/// The settings that a loaded file and the command line make. A limit that is
/// refused is the error, and then a fault of the image's settings.
pub fn resolve_settings(cli: &Cli, loaded: &LoadedConfig, no_color: Option<&str>) -> (settings:
    Result<Settings, ConfigError>)
    ensures
        ({
            let file = loaded.file;
            let refused = limits::refused_from(file.limits, 0);
            let fault = image_fault(image_settings_of(*cli, file));
            &&& settings is Ok ==> {
                let made = settings->Ok_0;
                &&& refused >= limits::LIMIT_COUNT
                &&& limits::set_before(
                    limits::default_limits(),
                    made.limits,
                    file.limits,
                    refused,
                )
                &&& limits::bounded(made.limits)
                &&& fault is None
                &&& made.theme == or_else(file.theme, Theme::DuskDarker)
                &&& made.color == color_of(*cli, file)
                &&& made.color_enabled == color_shown(
                    made.color,
                    strings::optional_str(no_color),
                )
                &&& made.image@ == image_settings_of(*cli, file)
                &&& strings::optional_text(made.coverage_report_path) == strings::optional_text(
                    file.coverage_report_path,
                )
            }
            &&& settings is Err ==> match settings->Err_0 {
                ConfigError::Limits(error) => if refused < limits::LIMIT_COUNT {
                    error.field@ == limits::limit_name(refused) && error.message@
                        == limits::range_message(refused)
                } else {
                    limits::chosen(limits::default_limits(), file.limits, 12) > limits::chosen(
                        limits::default_limits(),
                        file.limits,
                        13,
                    ) && error.field@ == "frame_min_delay_ms"@ && error.message@
                        == "must not exceed frame_max_delay_ms"@
                },
                ConfigError::Image(error) => refused >= limits::LIMIT_COUNT && limits::chosen(
                    limits::default_limits(),
                    file.limits,
                    12,
                ) <= limits::chosen(limits::default_limits(), file.limits, 13) && fault == Some(
                    error.0,
                ),
                _ => false,
            }
        }),
{
    let mut settings = Settings::default();
    if let Some(theme) = loaded.file.theme {
        settings.theme = theme;
    }
    if let Some(color) = loaded.file.color {
        settings.color = color;
    }
    settings.image.apply(&loaded.file.image);
    settings.coverage_report_path = copy_optional(&loaded.file.coverage_report_path);
    let applied = settings.limits.apply(&loaded.file.limits);
    proof {
        limits::lemma_refused_bounds(loaded.file.limits);
        assert(limits::limit_at(settings.limits, 12) == settings.limits.frame_min_delay_ms);
        assert(limits::limit_at(settings.limits, 13) == settings.limits.frame_max_delay_ms);
    }
    match applied {
        Ok(()) => {},
        Err(error) => return Err(ConfigError::Limits(error)),
    }
    proof {
        limits::law_limits_keep_their_ceilings(
            limits::default_limits(),
            settings.limits,
            loaded.file.limits,
        );
    }
    if let Some(color) = cli.color {
        settings.color = color;
    }
    if let Some(protocol) = cli.protocol {
        settings.image.protocol = protocol;
    }
    if cli.no_image {
        settings.image.source = ImageSource::Disabled;
        settings.image.path = None;
    } else if let Some(image) = &cli.image {
        settings.image.source = ImageSource::Path {
            path: image.clone(),
            origin: ImagePathOrigin::Cli,
        };
        settings.image.path = Some(image.clone());
    }
    match settings.image.validate() {
        Ok(()) => {},
        Err(error) => return Err(ConfigError::Image(error)),
    }
    settings.color_enabled = match settings.color {
        ColorMode::Always => true,
        ColorMode::Never => false,
        ColorMode::Auto => match no_color {
            Some(value) => value.is_empty(),
            None => true,
        },
    };
    Ok(settings)
}

/// The command line goes before the file, and the file before the defaults, for
/// the image's protocol and source.
pub proof fn law_command_line_goes_first(cli: Cli, file: FileConfig)
    ensures
        cli.protocol is Some ==> image_settings_of(cli, file).protocol == cli.protocol->0,
        cli.protocol is None && file.image.protocol is Some ==> image_settings_of(
            cli,
            file,
        ).protocol == file.image.protocol->0,
        cli.no_image ==> image_settings_of(cli, file).source is Disabled,
        !cli.no_image && cli.image is Some ==> image_settings_of(cli, file).source
            == (ImageSourceView::Path { path: cli.image->0@, origin: ImagePathOrigin::Cli }),
        !cli.no_image && cli.image is None && file.image.path is Some ==> image_settings_of(
            cli,
            file,
        ).source == (ImageSourceView::Path {
            path: file.image.path->0@,
            origin: ImagePathOrigin::Config,
        }),
        !cli.no_image && cli.image is None && file.image.path is None ==> image_settings_of(
            cli,
            file,
        ).source is Bundled,
        cli.color is Some ==> color_of(cli, file) == cli.color->0,
{
}

} // verus!
