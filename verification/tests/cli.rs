use hoshino::cli::{Cli, CliConflict, Command, Protocol, Shell};

fn cli() -> Cli {
    Cli {
        full: false,
        json: false,
        config: None,
        color: None,
        image: None,
        no_image: false,
        protocol: None,
        hook_context: false,
        command: None,
    }
}

#[test]
fn incompatible_modes_are_rejected() {
    let hook = Some(Command::Hook { shell: Shell::Bash });
    for (options, conflict) in [
        (
            Cli { image: Some("a.png".into()), no_image: true, ..cli() },
            CliConflict::ImageAndNoImage,
        ),
        (Cli { command: Some(Command::Live), json: true, ..cli() }, CliConflict::LiveJson),
        (Cli { command: hook, full: true, ..cli() }, CliConflict::HookDisplay),
        (
            Cli { command: Some(Command::Live), hook_context: true, ..cli() },
            CliConflict::HookContext,
        ),
        (Cli { command: hook, hook_context: true, ..cli() }, CliConflict::HookContext),
        (Cli { hook_context: true, full: true, ..cli() }, CliConflict::HookContext),
        (Cli { hook_context: true, json: true, ..cli() }, CliConflict::HookContext),
        (
            Cli { hook_context: true, protocol: Some(Protocol::Auto), ..cli() },
            CliConflict::HookContext,
        ),
        (Cli { command: hook, config: Some("c".into()), ..cli() }, CliConflict::HookDisplay),
    ] {
        assert_eq!(options.validate(), Err(conflict));
        assert!(!conflict.message().is_empty());
    }
}

#[test]
fn compatible_options_are_accepted() {
    assert_eq!(cli().validate(), Ok(()));
    assert_eq!(Cli { hook_context: true, ..cli() }.validate(), Ok(()));
    assert_eq!(Cli { full: true, json: true, ..cli() }.validate(), Ok(()));
    assert_eq!(Cli { command: Some(Command::Live), full: true, ..cli() }.validate(), Ok(()));
    let hook = Some(Command::Hook { shell: Shell::Nu });
    assert_eq!(Cli { command: hook, ..cli() }.validate(), Ok(()));
}
