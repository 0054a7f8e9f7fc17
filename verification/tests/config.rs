use hoshino::cli::{Cli, ColorMode, Protocol};
use hoshino::config::{
    config_base, config_file, join_path, load_config, load_config_with_default,
    platform_config_path, resolve_settings, ConfigBase, ConfigError, ConfigRead, ConfigSource,
    FileConfig, ImageConfig, ImageFit, ImagePathOrigin, ImagePosition, ImageSettings, ImageSource,
    LoadedConfig, Platform, Settings, Theme,
};
use hoshino::limits::LimitOverrides;

fn cli() -> Cli {
    Cli {
        full: false,
        json: false,
        config: None,
        color: None,
        image: None,
        no_image: false,
        protocol: None,
        hook_context: false,
        command: None,
    }
}

fn built_in(file: FileConfig) -> LoadedConfig {
    LoadedConfig { source: ConfigSource::BuiltIn, file }
}

fn with_image(image: ImageConfig) -> LoadedConfig {
    built_in(FileConfig { image, ..FileConfig::default() })
}

#[test]
fn paths_are_hoshino_owned_on_every_platform() {
    let home = "/home/example";
    assert_eq!(
        platform_config_path(Platform::Linux, home, Some("/xdg"), None),
        "/xdg/hoshino/config.toml"
    );
    assert_eq!(
        platform_config_path(Platform::Macos, home, None, None),
        "/home/example/.config/hoshino/config.toml"
    );
    assert_eq!(
        platform_config_path(Platform::Windows, home, None, Some("C:/AppData")),
        "C:/AppData/hoshino/config.toml"
    );
}

#[test]
fn missing_default_is_accepted_but_explicit_missing_is_actionable() {
    let path = "/tmp/hoshino-missing";
    let missing = || ConfigRead::Missing("No such file or directory".into());
    let loaded = load_config_with_default(None, path, missing()).unwrap();
    assert_eq!(loaded.source, ConfigSource::BuiltIn);
    assert_eq!(loaded.file, FileConfig::default());
    assert!(
        matches!(load_config(Some(path), "/elsewhere", missing()), Err(ConfigError::Read { path: got, .. }) if got == path)
    );
}

#[test]
fn malformed_config_reports_path_and_toml_line() {
    let message = "TOML parse error at line 1, column 10".to_string();
    let error = load_config(Some("/tmp/bad.toml"), "/elsewhere", ConfigRead::Malformed(message))
        .unwrap_err()
        .to_text();
    assert!(error.contains("invalid config"));
    assert!(error.contains("line"));
    assert_eq!(error, "invalid config /tmp/bad.toml: TOML parse error at line 1, column 10");
}

#[test]
fn unreadable_config_reports_its_own_path() {
    let failed = ConfigRead::Failed("permission denied".into());
    let error = load_config(None, "/home/me/config.toml", failed).unwrap_err();
    assert_eq!(error.to_text(), "cannot read config /home/me/config.toml: permission denied");
    let parsed = load_config(None, "/d.toml", ConfigRead::Parsed(FileConfig::default())).unwrap();
    assert_eq!(parsed.source, ConfigSource::Default("/d.toml".into()));
    let explicit =
        load_config(Some("/e.toml"), "/d.toml", ConfigRead::Parsed(FileConfig::default())).unwrap();
    assert_eq!(explicit.source, ConfigSource::Explicit("/e.toml".into()));
    assert_eq!(config_file(Some("/e.toml"), "/d.toml"), "/e.toml");
    assert_eq!(config_file(None, "/d.toml"), "/d.toml");
    assert_eq!(join_path("/a/", "b"), "/a/b");
    assert_eq!(join_path("/a", "b"), "/a/b");
}

#[test]
fn cli_overrides_file_and_builtins() {
    let loaded = built_in(FileConfig {
        theme: Some(Theme::Dusk),
        color: Some(ColorMode::Never),
        coverage_report_path: Some("coverage/custom.info".into()),
        image: ImageConfig {
            path: Some("config.png".into()),
            protocol: Some(Protocol::Sixel),
            width_cells: Some(32),
            max_height_rows: Some(14),
            fit: Some(ImageFit::Cover),
            position: Some(ImagePosition::Top),
            cell_width_px: Some(8),
            cell_height_px: Some(16),
        },
        limits: LimitOverrides::default(),
    });
    let settings = resolve_settings(
        &Cli {
            color: Some(ColorMode::Always),
            protocol: Some(Protocol::Kitty),
            image: Some("cli.png".into()),
            ..cli()
        },
        &loaded,
        Some("1"),
    )
    .unwrap();
    assert_eq!(settings.theme, Theme::Dusk);
    assert_eq!(settings.color, ColorMode::Always);
    assert_eq!(settings.image.protocol, Protocol::Kitty);
    assert_eq!(settings.image.path, Some("cli.png".to_string()));
    assert_eq!(
        settings.image.source,
        ImageSource::Path {
            path: "cli.png".into(),
            origin: ImagePathOrigin::Cli,
        }
    );
    assert_eq!(settings.image.width_cells, 32);
    assert_eq!(settings.image.max_height_rows, 14);
    assert_eq!(settings.image.fit, ImageFit::Cover);
    assert_eq!(settings.image.position, ImagePosition::Top);
    assert_eq!(settings.image.cell_width_px, Some(8));
    assert_eq!(settings.coverage_report_path, Some("coverage/custom.info".to_string()));
    assert!(settings.color_enabled);
}

#[test]
fn no_color_only_changes_auto_color() {
    let loaded = built_in(FileConfig::default());
    assert!(!resolve_settings(&cli(), &loaded, Some("1")).unwrap().color_enabled);
    let always = Cli { color: Some(ColorMode::Always), ..cli() };
    assert!(resolve_settings(&always, &loaded, Some("1")).unwrap().color_enabled);
    assert!(resolve_settings(&cli(), &loaded, Some("")).unwrap().color_enabled);
}

#[test]
fn image_geometry_requires_a_pixel_pair_and_reasonable_bounds() {
    for (image, message) in [
        (
            ImageConfig { cell_width_px: Some(8), ..ImageConfig::default() },
            "image.cell_width_px and image.cell_height_px must be configured together",
        ),
        (
            ImageConfig { width_cells: Some(0), ..ImageConfig::default() },
            "image.width_cells must be between 1 and 120",
        ),
        (
            ImageConfig { max_height_rows: Some(61), ..ImageConfig::default() },
            "image.max_height_rows must be between 1 and 60",
        ),
        (
            ImageConfig {
                cell_width_px: Some(1001),
                cell_height_px: Some(16),
                ..ImageConfig::default()
            },
            "image.cell_width_px must be between 1 and 1000",
        ),
        (
            ImageConfig {
                cell_width_px: Some(10),
                cell_height_px: Some(0),
                ..ImageConfig::default()
            },
            "image.cell_height_px must be between 1 and 1000",
        ),
    ] {
        let error = resolve_settings(&cli(), &with_image(image), None).unwrap_err();
        assert!(matches!(error, ConfigError::Image(_)));
        assert_eq!(error.to_text(), format!("invalid config: {message}"));
    }
    let image = ImageConfig {
        width_cells: Some(120),
        max_height_rows: Some(60),
        cell_width_px: Some(1000),
        cell_height_px: Some(1000),
        ..ImageConfig::default()
    };
    assert!(resolve_settings(&cli(), &with_image(image), None).is_ok());
}

#[test]
fn limits_outside_their_range_are_config_errors() {
    let loaded = built_in(FileConfig {
        limits: LimitOverrides { live_refresh_ms: Some(60_001), ..LimitOverrides::default() },
        ..FileConfig::default()
    });
    let error = resolve_settings(&cli(), &loaded, None).unwrap_err();
    assert!(matches!(error, ConfigError::Limits(_)));
    assert!(error.to_text().starts_with("invalid config: limits.live_refresh_ms must be between"));
}

#[test]
fn image_source_precedence_is_explicit() {
    let loaded = with_image(ImageConfig {
        path: Some("config.png".into()),
        protocol: Some(Protocol::Kitty),
        ..ImageConfig::default()
    });
    let plain = built_in(FileConfig::default());
    let bundled = resolve_settings(&cli(), &plain, None).unwrap();
    assert_eq!(bundled.image.source, ImageSource::Bundled);
    let no_image = Cli { no_image: true, ..cli() };
    let disabled_without_overrides = resolve_settings(&no_image, &plain, None).unwrap();
    assert_eq!(disabled_without_overrides.image.source, ImageSource::Disabled);

    let configured = resolve_settings(&cli(), &loaded, None).unwrap();
    assert_eq!(
        configured.image.source,
        ImageSource::Path {
            path: "config.png".into(),
            origin: ImagePathOrigin::Config,
        }
    );

    let named = Cli { image: Some("cli.png".into()), ..cli() };
    let cli_override = resolve_settings(&named, &loaded, None).unwrap();
    assert_eq!(
        cli_override.image.source,
        ImageSource::Path {
            path: "cli.png".into(),
            origin: ImagePathOrigin::Cli,
        }
    );

    let disabled = resolve_settings(&no_image, &loaded, None).unwrap();
    assert_eq!(disabled.image.source, ImageSource::Disabled);
    assert_eq!(disabled.image.path, None);
    assert_eq!(disabled.image.protocol, Protocol::Kitty);
}

#[test]
fn defaults_are_the_documented_ones() {
    let settings = Settings::default();
    assert_eq!(settings.theme, Theme::DuskDarker);
    assert_eq!(settings.image, ImageSettings::default());
    assert_eq!(settings.image.width_cells, 24);
    assert_eq!(settings.image.max_height_rows, 12);
    assert!(settings.image.validate().is_ok());
}

#[test]
fn default_paths_are_made_of_their_parts() {
    let (home, xdg, data) = ("/home/me", "/xdg", "C:/Data");
    for platform in [Platform::Linux, Platform::Macos, Platform::Windows] {
        for (has_xdg, has_data) in [(false, false), (true, false), (false, true), (true, true)] {
            let (base, below) = config_base(platform, has_xdg, has_data);
            let directory = match base {
                ConfigBase::Home => home,
                ConfigBase::XdgConfigHome => xdg,
                ConfigBase::AppData => data,
            };
            assert_eq!(
                join_path(directory, below),
                platform_config_path(
                    platform,
                    home,
                    has_xdg.then_some(xdg),
                    has_data.then_some(data)
                )
            );
        }
    }
    let bare = config_base(Platform::Windows, true, false);
    assert_eq!(bare, (ConfigBase::Home, "AppData/Roaming/hoshino/config.toml"));
}
