//! The mouse relay's command line and its saved button bindings.
//!
//! The default configuration path comes from the environment, which the
//! program reads; parsing takes it as an argument.
use vstd::prelude::*;

use crate::text::{ascii_lower, ascii_lowercase, ascii_upper, ascii_uppercase, trim_text, trimmed};

verus! {

/// What the mouse relay was asked to do.
#[derive(Debug, Clone, PartialEq, Eq)]
pub enum Command {
    Run(RunConfig),
    LearnBinding(LearnBindingConfig),
    Setup(SetupConfig),
}

/// Relay mouse input through a virtual device of the given name.
#[derive(Debug, Clone, PartialEq, Eq)]
pub struct RunConfig {
    pub device_name: String,
    pub config_path: String,
}

/// Learn one button binding and save it.
#[derive(Debug, Clone, PartialEq, Eq)]
pub struct LearnBindingConfig {
    pub binding: LearnedBinding,
    pub config_path: String,
}

/// Learn the trigger binding and save it.
#[derive(Debug, Clone, PartialEq, Eq)]
pub struct SetupConfig {
    pub config_path: String,
}

/// A button binding that can be learned.
#[derive(Debug, Clone, Copy, PartialEq, Eq, Structural)]
pub enum LearnedBinding {
    Trigger,
    SideA,
    SideB,
}

/// The configuration file's contents.
#[derive(Debug, Clone, Default, PartialEq, Eq)]
pub struct PersistedConfig {
    pub bindings: BindingConfig,
}

/// The saved button of each binding, by its `BTN_*` name.
#[derive(Debug, Clone, Default, PartialEq, Eq)]
pub struct BindingConfig {
    pub trigger: Option<String>,
    pub side_a: Option<String>,
    pub side_b: Option<String>,
}

/// Why the command line was refused.
#[derive(Debug, Clone, PartialEq, Eq)]
pub enum CommandError {
    /// An option came last, without its value.
    MissingValue { flag: &'static str },
    /// An option's value is blank.
    EmptyValue { flag: &'static str },
    /// An argument the mode does not know.
    UnsupportedArgument { mode: &'static str, argument: String },
    /// `learn-binding` without the binding to learn.
    MissingBindingName,
    /// A binding name that is none of the three, as it was looked up.
    UnsupportedBinding { name: String },
    /// `--help` or `-h`: the usage is to be printed.
    HelpRequested,
}

/// The name under which the default device is created.
pub const DEFAULT_DEVICE_NAME: &'static str = "fun-mouse";

// ---------------------------------------------------------------------------
// Names
// ---------------------------------------------------------------------------

/// The name of a binding.
pub open spec fn binding_name(binding: LearnedBinding) -> &'static str {
    match binding {
        LearnedBinding::Trigger => "trigger",
        LearnedBinding::SideA => "side-a",
        LearnedBinding::SideB => "side-b",
    }
}

impl LearnedBinding {
    /// The name of the binding.
    pub fn as_str(self) -> (r: &'static str)
        ensures
            r == binding_name(self),
    {
        match self {
            LearnedBinding::Trigger => "trigger",
            LearnedBinding::SideA => "side-a",
            LearnedBinding::SideB => "side-b",
        }
    }
}

/// The form in which a binding name is looked up: trimmed, ASCII lower case.
pub open spec fn binding_key(text: Seq<char>) -> Seq<char> {
    trimmed(text).map_values(|c: char| ascii_lower(c))
}

/// The binding a name looks up to.
pub open spec fn binding_named(text: Seq<char>) -> Option<LearnedBinding> {
    let key = binding_key(text);
    if key == "trigger"@ {
        Some(LearnedBinding::Trigger)
    } else if key == "side-a"@ || key == "side_a"@ {
        Some(LearnedBinding::SideA)
    } else if key == "side-b"@ || key == "side_b"@ {
        Some(LearnedBinding::SideB)
    } else {
        None
    }
}

/// Parses a binding name, in any case and with surrounding white space; `_`
/// may stand for `-`.
pub fn parse_binding(value: &str) -> (r: Result<LearnedBinding, CommandError>)
    ensures
        match r {
            Ok(binding) => binding_named(value@) == Some(binding),
            Err(e) => binding_named(value@) is None && (e matches CommandError::UnsupportedBinding {
                name,
            } && name@ == binding_key(value@)),
        },
{
    let trimmed_value = trim_text(value);
    let key = ascii_lowercase(trimmed_value.as_str());
    if key == "trigger".to_owned() {
        Ok(LearnedBinding::Trigger)
    } else if key == "side-a".to_owned() || key == "side_a".to_owned() {
        Ok(LearnedBinding::SideA)
    } else if key == "side-b".to_owned() || key == "side_b".to_owned() {
        Ok(LearnedBinding::SideB)
    } else {
        Err(CommandError::UnsupportedBinding { name: key })
    }
}

impl std::str::FromStr for LearnedBinding {
    type Err = CommandError;

    fn from_str(value: &str) -> Result<LearnedBinding, CommandError> {
        parse_binding(value)
    }
}

impl PersistedConfig {
    /// Saves `key_name` as the button of `binding`, leaving the others.
    pub fn set_binding(&mut self, binding: LearnedBinding, key_name: String)
        ensures
            final(self).bindings.trigger == (if binding == LearnedBinding::Trigger {
                Some(key_name)
            } else {
                old(self).bindings.trigger
            }),
            final(self).bindings.side_a == (if binding == LearnedBinding::SideA {
                Some(key_name)
            } else {
                old(self).bindings.side_a
            }),
            final(self).bindings.side_b == (if binding == LearnedBinding::SideB {
                Some(key_name)
            } else {
                old(self).bindings.side_b
            }),
    {
        match binding {
            LearnedBinding::Trigger => self.bindings.trigger = Some(key_name),
            LearnedBinding::SideA => self.bindings.side_a = Some(key_name),
            LearnedBinding::SideB => self.bindings.side_b = Some(key_name),
        }
    }
}

// ---------------------------------------------------------------------------
// Mouse buttons
// ---------------------------------------------------------------------------

/// A mouse button a binding can name.
#[derive(Debug, Clone, Copy, PartialEq, Eq, Structural)]
pub enum MouseButton {
    Left,
    Right,
    Middle,
    Side,
    Extra,
}

/// The Linux input key code of a button.
pub open spec fn button_code(button: MouseButton) -> u16 {
    match button {
        MouseButton::Left => 0x110,
        MouseButton::Right => 0x111,
        MouseButton::Middle => 0x112,
        MouseButton::Side => 0x113,
        MouseButton::Extra => 0x114,
    }
}

impl MouseButton {
    /// The Linux input key code of the button (`BTN_LEFT` to `BTN_EXTRA`).
    pub fn code(self) -> (r: u16)
        ensures
            r == button_code(self),
    {
        match self {
            MouseButton::Left => 0x110,
            MouseButton::Right => 0x111,
            MouseButton::Middle => 0x112,
            MouseButton::Side => 0x113,
            MouseButton::Extra => 0x114,
        }
    }
}

/// A button name that is none of the five, as it was looked up.
#[derive(Debug, Clone, PartialEq, Eq)]
pub struct UnsupportedButton {
    pub name: String,
}

/// The form in which a button name is looked up: trimmed, ASCII upper case.
pub open spec fn button_key(text: Seq<char>) -> Seq<char> {
    trimmed(text).map_values(|c: char| ascii_upper(c))
}

/// The button a `BTN_*` name looks up to.
pub open spec fn button_named(text: Seq<char>) -> Option<MouseButton> {
    let key = button_key(text);
    if key == "BTN_LEFT"@ {
        Some(MouseButton::Left)
    } else if key == "BTN_RIGHT"@ {
        Some(MouseButton::Right)
    } else if key == "BTN_MIDDLE"@ {
        Some(MouseButton::Middle)
    } else if key == "BTN_SIDE"@ {
        Some(MouseButton::Side)
    } else if key == "BTN_EXTRA"@ {
        Some(MouseButton::Extra)
    } else {
        None
    }
}

/// Parses a saved button binding, in any case and with surrounding white
/// space.
pub fn parse_mouse_button_key(name: &str) -> (r: Result<MouseButton, UnsupportedButton>)
    ensures
        match r {
            Ok(button) => button_named(name@) == Some(button),
            Err(e) => button_named(name@) is None && e.name@ == button_key(name@),
        },
{
    let trimmed_name = trim_text(name);
    let key = ascii_uppercase(trimmed_name.as_str());
    if key == "BTN_LEFT".to_owned() {
        Ok(MouseButton::Left)
    } else if key == "BTN_RIGHT".to_owned() {
        Ok(MouseButton::Right)
    } else if key == "BTN_MIDDLE".to_owned() {
        Ok(MouseButton::Middle)
    } else if key == "BTN_SIDE".to_owned() {
        Ok(MouseButton::Side)
    } else if key == "BTN_EXTRA".to_owned() {
        Ok(MouseButton::Extra)
    } else {
        Err(UnsupportedButton { name: key })
    }
}

// ---------------------------------------------------------------------------
// The command line
// ---------------------------------------------------------------------------

/// A parsed command, with text as characters.
pub enum CommandView {
    Run(Seq<char>, Seq<char>),
    LearnBinding(LearnedBinding, Seq<char>),
    Setup(Seq<char>),
}

/// A refusal of the command line, with text as characters.
pub enum ArgFailure {
    MissingValue(&'static str),
    EmptyValue(&'static str),
    Unsupported(&'static str, Seq<char>),
    MissingBindingName,
    UnsupportedBinding(Seq<char>),
    Help,
}

/// The view of a command.
pub open spec fn command_view(c: Command) -> CommandView {
    match c {
        Command::Run(cfg) => CommandView::Run(cfg.device_name@, cfg.config_path@),
        Command::LearnBinding(cfg) => CommandView::LearnBinding(cfg.binding, cfg.config_path@),
        Command::Setup(cfg) => CommandView::Setup(cfg.config_path@),
    }
}

/// The view of a refusal.
pub open spec fn failure_view(e: CommandError) -> ArgFailure {
    match e {
        CommandError::MissingValue { flag } => ArgFailure::MissingValue(flag),
        CommandError::EmptyValue { flag } => ArgFailure::EmptyValue(flag),
        CommandError::UnsupportedArgument { mode, argument } => ArgFailure::Unsupported(
            mode,
            argument@,
        ),
        CommandError::MissingBindingName => ArgFailure::MissingBindingName,
        CommandError::UnsupportedBinding { name } => ArgFailure::UnsupportedBinding(name@),
        CommandError::HelpRequested => ArgFailure::Help,
    }
}

/// The value of the option `flag` at the head of `args`: the next argument,
/// trimmed, which must be there and not be blank.
pub open spec fn option_value(args: Seq<Seq<char>>, flag: &'static str) -> Result<Seq<char>, ArgFailure> {
    if args.len() < 2 {
        Err(ArgFailure::MissingValue(flag))
    } else if trimmed(args[1]).len() == 0 {
        Err(ArgFailure::EmptyValue(flag))
    } else {
        Ok(trimmed(args[1]))
    }
}

/// The options of the run mode, read one after the other from `device` and
/// `path` on: `--device-name` and `--config` set them, the last one counting.
pub open spec fn run_options(args: Seq<Seq<char>>, device: Seq<char>, path: Seq<char>) -> Result<
    CommandView,
    ArgFailure,
>
    decreases args.len(),
{
    if args.len() == 0 {
        Ok(CommandView::Run(device, path))
    } else if args[0] == "--device-name"@ {
        match option_value(args, "--device-name") {
            Ok(value) => run_options(args.subrange(2, args.len() as int), value, path),
            Err(e) => Err(e),
        }
    } else if args[0] == "--config"@ {
        match option_value(args, "--config") {
            Ok(value) => run_options(args.subrange(2, args.len() as int), device, value),
            Err(e) => Err(e),
        }
    } else if args[0] == "--help"@ || args[0] == "-h"@ {
        Err(ArgFailure::Help)
    } else {
        Err(ArgFailure::Unsupported("run", args[0]))
    }
}

/// The options of the `learn-binding` and `setup` modes: `--config` sets the
/// path, the last one counting.
pub open spec fn path_options(args: Seq<Seq<char>>, mode: &'static str, path: Seq<char>) -> Result<
    Seq<char>,
    ArgFailure,
>
    decreases args.len(),
{
    if args.len() == 0 {
        Ok(path)
    } else if args[0] == "--config"@ {
        match option_value(args, "--config") {
            Ok(value) => path_options(args.subrange(2, args.len() as int), mode, value),
            Err(e) => Err(e),
        }
    } else if args[0] == "--help"@ || args[0] == "-h"@ {
        Err(ArgFailure::Help)
    } else {
        Err(ArgFailure::Unsupported(mode, args[0]))
    }
}

/// What a command line means, `default_path` being the configuration path
/// where none is given.
pub open spec fn parse_command(args: Seq<Seq<char>>, default_path: Seq<char>) -> Result<
    CommandView,
    ArgFailure,
> {
    if args.len() > 0 && args[0] == "learn-binding"@ {
        if args.len() < 2 {
            Err(ArgFailure::MissingBindingName)
        } else {
            match binding_named(args[1]) {
                None => Err(ArgFailure::UnsupportedBinding(binding_key(args[1]))),
                Some(binding) => match path_options(
                    args.subrange(2, args.len() as int),
                    "learn-binding",
                    default_path,
                ) {
                    Ok(path) => Ok(CommandView::LearnBinding(binding, path)),
                    Err(e) => Err(e),
                },
            }
        }
    } else if args.len() > 0 && args[0] == "setup"@ {
        match path_options(args.subrange(1, args.len() as int), "setup", default_path) {
            Ok(path) => Ok(CommandView::Setup(path)),
            Err(e) => Err(e),
        }
    } else {
        run_options(args, DEFAULT_DEVICE_NAME@, default_path)
    }
}

/// The text of each argument.
pub open spec fn arg_views(args: Seq<String>) -> Seq<Seq<char>> {
    args.map_values(|a: String| a@)
}

/// The trimmed value after the option at `i`.
fn take_option_value(args: &Vec<String>, i: usize, flag: &'static str) -> (r: Result<
    String,
    CommandError,
>)
    requires
        i < args@.len(),
    ensures
        match option_value(arg_views(args@).subrange(i as int, args@.len() as int), flag) {
            Ok(value) => r matches Ok(v) && v@ == value,
            Err(e) => r matches Err(err) && failure_view(err) == e,
        },
{
    let ghost rest = arg_views(args@).subrange(i as int, args@.len() as int);
    if args.len() - i < 2 {
        return Err(CommandError::MissingValue { flag });
    }
    assert(rest[1] == args@[i + 1]@);
    let value = trim_text(args[i + 1].as_str());
    if value.as_str().is_empty() {
        return Err(CommandError::EmptyValue { flag });
    }
    Ok(value)
}

fn parse_run_args(args: &Vec<String>, default_path: String) -> (r: Result<Command, CommandError>)
    ensures
        match run_options(arg_views(args@), DEFAULT_DEVICE_NAME@, default_path@) {
            Ok(c) => r matches Ok(command) && command_view(command) == c,
            Err(e) => r matches Err(err) && failure_view(err) == e,
        },
{
    let mut device = DEFAULT_DEVICE_NAME.to_owned();
    let mut path = default_path;
    let ghost all = arg_views(args@);
    let mut i: usize = 0;
    assert(all.subrange(0, all.len() as int) =~= all);
    while i < args.len()
        invariant
            i <= args@.len(),
            all == arg_views(args@),
            run_options(all, DEFAULT_DEVICE_NAME@, default_path@) == run_options(
                all.subrange(i as int, all.len() as int),
                device@,
                path@,
            ),
        decreases args.len() - i,
    {
        let ghost rest = all.subrange(i as int, all.len() as int);
        proof {
            assert(rest[0] == args@[i as int]@);
            if i + 2 <= args@.len() {
                assert(rest.subrange(2, rest.len() as int) =~= all.subrange(i + 2, all.len() as int));
            }
        }
        if args[i] == "--device-name".to_owned() {
            device = take_option_value(args, i, "--device-name")?;
            i = i + 2;
        } else if args[i] == "--config".to_owned() {
            path = take_option_value(args, i, "--config")?;
            i = i + 2;
        } else if args[i] == "--help".to_owned() || args[i] == "-h".to_owned() {
            return Err(CommandError::HelpRequested);
        } else {
            return Err(CommandError::UnsupportedArgument { mode: "run", argument: args[i].clone() });
        }
    }
    assert(all.subrange(i as int, all.len() as int) =~= Seq::<Seq<char>>::empty());
    Ok(Command::Run(RunConfig { device_name: device, config_path: path }))
}

fn parse_path_args(args: &Vec<String>, start: usize, mode: &'static str, default_path: String) -> (r:
    Result<String, CommandError>)
    requires
        start <= args@.len(),
    ensures
        match path_options(
            arg_views(args@).subrange(start as int, args@.len() as int),
            mode,
            default_path@,
        ) {
            Ok(p) => r matches Ok(path) && path@ == p,
            Err(e) => r matches Err(err) && failure_view(err) == e,
        },
{
    let mut path = default_path;
    let ghost all = arg_views(args@);
    let mut i: usize = start;
    while i < args.len()
        invariant
            start <= i <= args@.len(),
            all == arg_views(args@),
            path_options(all.subrange(start as int, all.len() as int), mode, default_path@)
                == path_options(all.subrange(i as int, all.len() as int), mode, path@),
        decreases args.len() - i,
    {
        let ghost rest = all.subrange(i as int, all.len() as int);
        proof {
            assert(rest[0] == args@[i as int]@);
            if i + 2 <= args@.len() {
                assert(rest.subrange(2, rest.len() as int) =~= all.subrange(i + 2, all.len() as int));
            }
        }
        if args[i] == "--config".to_owned() {
            path = take_option_value(args, i, "--config")?;
            i = i + 2;
        } else if args[i] == "--help".to_owned() || args[i] == "-h".to_owned() {
            return Err(CommandError::HelpRequested);
        } else {
            return Err(CommandError::UnsupportedArgument { mode, argument: args[i].clone() });
        }
    }
    assert(all.subrange(i as int, all.len() as int) =~= Seq::<Seq<char>>::empty());
    Ok(path)
}

impl Command {
    /// Parses the command line (without the program name). `default_config_path`
    /// is the configuration path used where `--config` is not given.
    pub fn from_args(args: Vec<String>, default_config_path: String) -> (r: Result<
        Command,
        CommandError,
    >)
        ensures
            match parse_command(arg_views(args@), default_config_path@) {
                Ok(c) => r matches Ok(command) && command_view(command) == c,
                Err(e) => r matches Err(err) && failure_view(err) == e,
            },
    {
        let ghost all = arg_views(args@);
        if args.len() > 0 && args[0] == "learn-binding".to_owned() {
            assert(all[0] == args@[0]@);
            if args.len() < 2 {
                return Err(CommandError::MissingBindingName);
            }
            assert(all[1] == args@[1]@);
            let binding = parse_binding(args[1].as_str())?;
            let config_path = parse_path_args(&args, 2, "learn-binding", default_config_path)?;
            return Ok(Command::LearnBinding(LearnBindingConfig { binding, config_path }));
        }
        if args.len() > 0 && args[0] == "setup".to_owned() {
            assert(all[0] == args@[0]@);
            let config_path = parse_path_args(&args, 1, "setup", default_config_path)?;
            return Ok(Command::Setup(SetupConfig { config_path }));
        }
        proof {
            if args@.len() > 0 {
                assert(all[0] == args@[0]@);
            }
        }
        parse_run_args(&args, default_config_path)
    }

    /// The usage text.
    pub fn usage() -> (r: &'static str)
        ensures
            r == MOUSE_USAGE,
    {
        MOUSE_USAGE
    }
}

/// The usage text of the mouse relay.
pub const MOUSE_USAGE: &'static str = "usage:\n  fun-mouse [--device-name <name>] [--config <path>]\n  fun-mouse setup [--config <path>]\n  fun-mouse learn-binding <trigger|side-a|side-b> [--config <path>]\n\nnotes:\n  F9 toggles relay on/off.\n  off = ungrab physical mice and return control to the system.\n  setup asks for trigger only and saves the BTN_* binding.\n  learn-binding grabs detected mice temporarily, waits for the first BTN_* press,\n  prints it and saves it into a toml config.\n";

} // verus!
