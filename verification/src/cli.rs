//! The command line once it is parsed, and which of its options go together.
use vstd::prelude::*;

verus! {

#[derive(Clone, Debug, PartialEq, Eq)]
pub struct Cli {
    pub full: bool,
    pub json: bool,
    pub config: Option<String>,
    pub color: Option<ColorMode>,
    pub image: Option<String>,
    pub no_image: bool,
    pub protocol: Option<Protocol>,
    pub hook_context: bool,
    pub command: Option<Command>,
}

#[derive(Clone, Copy, Debug, PartialEq, Eq, Structural)]
pub enum Command {
    Live,
    Hook { shell: Shell },
}

#[derive(Clone, Copy, Debug, PartialEq, Eq, Structural)]
pub enum ColorMode {
    Auto,
    Always,
    Never,
}

#[derive(Clone, Copy, Debug, PartialEq, Eq, Structural)]
pub enum Protocol {
    Auto,
    Kitty,
    Iterm2,
    Sixel,
    Halfblocks,
    /// No image at all.
    Off,
}

#[derive(Clone, Copy, Debug, PartialEq, Eq, Structural)]
pub enum Shell {
    Bash,
    Zsh,
    Fish,
    Nu,
    Powershell,
}

/// Options that do not go together.
#[derive(Clone, Copy, Debug, PartialEq, Eq, Structural)]
pub enum CliConflict {
    /// An image path beside the option that turns images off.
    ImageAndNoImage,
    /// JSON output of the live view.
    LiveJson,
    /// The internal hook context beside anything but a compact card.
    HookContext,
    /// Display options beside hook generation.
    HookDisplay,
}

impl CliConflict {
    /// The conflict as the user reads it.
    pub fn message(self) -> (text: &'static str)
        ensures
            text@ == match self {
                CliConflict::ImageAndNoImage =>
                    "the argument '--image <PATH>' cannot be used with '--no-image'"@,
                CliConflict::LiveJson => "--json is only available for one-shot output"@,
                CliConflict::HookContext =>
                    "--hook-context is only available for compact internal one-shot output"@,
                CliConflict::HookDisplay =>
                    "display options are not available for hook generation"@,
            },
    {
        match self {
            CliConflict::ImageAndNoImage =>
                "the argument '--image <PATH>' cannot be used with '--no-image'",
            CliConflict::LiveJson => "--json is only available for one-shot output",
            CliConflict::HookContext =>
                "--hook-context is only available for compact internal one-shot output",
            CliConflict::HookDisplay => "display options are not available for hook generation",
        }
    }
}

impl Cli {
    /// The first conflict among the options.
    pub open spec fn conflict(self) -> Option<CliConflict> {
        if self.image is Some && self.no_image {
            Some(CliConflict::ImageAndNoImage)
        } else if self.command == Some(Command::Live) && self.json {
            Some(CliConflict::LiveJson)
        } else if self.hook_context && (self.command is Some || self.full || self.json
            || self.image is Some || self.no_image || self.protocol is Some) {
            Some(CliConflict::HookContext)
        } else if self.command is Some && self.command->0 is Hook && (self.full || self.json
            || self.config is Some || self.image is Some || self.no_image || self.protocol is Some
            || self.color is Some) {
            Some(CliConflict::HookDisplay)
        } else {
            None
        }
    }

    /// Whether the options go together.
    pub fn validate(&self) -> (outcome: Result<(), CliConflict>)
        ensures
            outcome == match self.conflict() {
                Some(conflict) => Err::<(), CliConflict>(conflict),
                None => Ok(()),
            },
    {
        if self.image.is_some() && self.no_image {
            return Err(CliConflict::ImageAndNoImage);
        }
        let live = match self.command {
            Some(Command::Live) => true,
            _ => false,
        };
        let hook = match self.command {
            Some(Command::Hook { .. }) => true,
            _ => false,
        };
        if live && self.json {
            return Err(CliConflict::LiveJson);
        }
        if self.hook_context && (self.command.is_some() || self.full || self.json
            || self.image.is_some() || self.no_image || self.protocol.is_some()) {
            return Err(CliConflict::HookContext);
        }
        if hook && (self.full || self.json || self.config.is_some() || self.image.is_some()
            || self.no_image || self.protocol.is_some() || self.color.is_some()) {
            return Err(CliConflict::HookDisplay);
        }
        Ok(())
    }
}

} // verus!
