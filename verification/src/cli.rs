//! The command line: what its tokens mean and which settings they override.

use crate::cli::overrides::ParsedOptions;
use crate::cli::schema::{parse_failure, ParseFailure, Refusal, Schema, FlagSchema, OptSchema, Values};
use crate::cli::tokens::{
    count_verbosity, normalize_config_options, normalize_title_alias, parse_class,
    parse_hex_or_decimal, split_command,
};
use crate::config::{Class, Identity, LevelFilter, Program, UiConfig};
use crate::platform::Platform;
use crate::text::{chars_of, find, join, same_text, starts_with, string_of, strings_from};
use crate::tty::{Options as PtyOptions, Shell};
use nanoargs::{ArgBuilder, ArgParser, Flag, Opt};
use toml::Value;
use vstd::prelude::*;
use vstd::string::*;

pub mod overrides;
pub mod schema;
pub mod tokens;

verus! {

broadcast use vstd::string::group_string_axioms;

/// Why a command line is refused.
#[derive(Debug)]
pub enum CliError {
    /// The parser has no values for it.
    Parse(ParseFailure),
    /// A value is wrong; the text says how.
    Value(String),
}

impl CliError {
    /// What the error says.
    pub open spec fn text(self) -> Seq<char> {
        match self {
            CliError::Parse(failure) => match failure@ {
                Refusal::Help(text) => text,
                Refusal::Version(text) => text,
                Refusal::Invalid(text) => text,
            },
            CliError::Value(text) => text@,
        }
    }

    /// Describe the error.
    pub fn message(&self) -> (message: String)
        ensures
            message@ == self.text(),
    {
        match self {
            CliError::Parse(ParseFailure::HelpRequested(text)) => text.clone(),
            CliError::Parse(ParseFailure::VersionRequested(text)) => text.clone(),
            CliError::Parse(ParseFailure::Invalid(text)) => text.clone(),
            CliError::Value(text) => text.clone(),
        }
    }
}

/// What the program does with a command line that it does not start with.
#[derive(Debug)]
pub struct EarlyExit {
    /// Whether the text goes to the standard error stream, not to the standard output.
    pub to_stderr: bool,
    pub text: String,
    pub code: i32,
}

/// How the program ends where the command line is refused: it prints what is asked for, or the
/// error.
pub fn early_exit(error: &CliError) -> (exit: EarlyExit)
    ensures
        match error {
            CliError::Parse(ParseFailure::HelpRequested(text)) => !exit.to_stderr && exit.text@
                == text@ && exit.code == 0,
            CliError::Parse(ParseFailure::VersionRequested(text)) => !exit.to_stderr && exit.text@
                == text@ && exit.code == 0,
            _ => exit.to_stderr && exit.text@ == "error: "@ + error.text() && exit.code == 2,
        },
{
    match error {
        CliError::Parse(ParseFailure::HelpRequested(text)) => EarlyExit {
            to_stderr: false,
            text: text.clone(),
            code: 0,
        },
        CliError::Parse(ParseFailure::VersionRequested(text)) => EarlyExit {
            to_stderr: false,
            text: text.clone(),
            code: 0,
        },
        _ => {
            let message = error.message();
            EarlyExit { to_stderr: true, text: join("error: ", message.as_str()), code: 2 }
        },
    }
}

/// Terminal-specific CLI options which can be passed to new windows.
#[derive(Debug)]
pub struct TerminalOptions {
    /// Start the shell in the specified working directory.
    pub working_directory: Option<String>,

    /// Remain open after child process exit.
    pub hold: bool,

    /// Command and args to execute (must be last argument).
    pub command: Vec<String>,
}

impl Default for TerminalOptions {
    fn default() -> (options: TerminalOptions)
        ensures
            options.working_directory is None,
            !options.hold,
            options.command@.len() == 0,
    {
        TerminalOptions { working_directory: None, hold: false, command: Vec::new() }
    }
}

impl TerminalOptions {
    /// Shell override passed through the CLI.
    pub fn command(&self) -> (program: Option<Program>)
        ensures
            self.command@.len() == 0 ==> program is None,
            self.command@.len() > 0 ==> {
                &&& program matches Some(Program::WithArgs { program, args })
                &&& program@ == self.command@[0]@
                &&& crate::text::texts(args@) == crate::text::texts(self.command@).subrange(
                    1,
                    self.command@.len() as int,
                )
            },
    {
        if self.command.len() == 0 {
            return None;
        }
        Some(
            Program::WithArgs {
                program: self.command[0].clone(),
                args: strings_from(&self.command, 1),
            },
        )
    }

    /// Override the [`PtyOptions`]'s fields with the [`TerminalOptions`]; `is_dir` says whether
    /// the working directory is a directory. The result is whether it was refused.
    pub fn override_pty_config(&self, pty_config: &mut PtyOptions, is_dir: bool) -> (refused: bool)
        ensures
            refused == (self.working_directory is Some && !is_dir),
            final(pty_config).working_directory == (if self.working_directory is Some && is_dir {
                self.working_directory
            } else {
                old(pty_config).working_directory
            }),
            self.command@.len() == 0 ==> final(pty_config).shell == old(pty_config).shell,
            self.command@.len() > 0 ==> final(pty_config).command() == Some(
                crate::text::texts(self.command@),
            ),
            final(pty_config).drain_on_exit == (old(pty_config).drain_on_exit || self.hold),
            final(pty_config).env == old(pty_config).env,
            old(pty_config).well_formed() ==> final(pty_config).well_formed(),
            final(pty_config).escape_args == old(pty_config).escape_args,
    {
        let mut refused = false;
        if let Some(working_directory) = &self.working_directory {
            if is_dir {
                pty_config.working_directory = Some(working_directory.clone());
            } else {
                refused = true;
            }
        }
        if let Some(command) = self.command() {
            let shell = Shell::from_program(command);
            proof {
                assert(crate::text::texts(self.command@)[0] == self.command@[0]@);
                assert(seq![shell.program@] + crate::text::texts(shell.args@)
                    =~= crate::text::texts(self.command@));
            }
            pty_config.shell = Some(shell);
        }
        pty_config.drain_on_exit = pty_config.drain_on_exit || self.hold;
        refused
    }
}

impl vstd::std_specs::convert::FromSpecImpl<TerminalOptions> for PtyOptions {
    open spec fn obeys_from_spec() -> bool {
        false
    }

    open spec fn from_spec(options: TerminalOptions) -> PtyOptions {
        arbitrary()
    }
}

impl From<TerminalOptions> for PtyOptions {
    fn from(options: TerminalOptions) -> (pty_options: PtyOptions)
        ensures
            pty_options.working_directory == options.working_directory,
            pty_options.command() == (if options.command@.len() == 0 {
                None
            } else {
                Some(crate::text::texts(options.command@))
            }),
            pty_options.drain_on_exit == options.hold,
            pty_options.env@.len() == 0,
            !pty_options.escape_args,
            pty_options.well_formed(),
    {
        let shell = match options.command() {
            Some(command) => {
                let shell = Shell::from_program(command);
                proof {
                    assert(crate::text::texts(options.command@)[0] == options.command@[0]@);
                    assert(seq![shell.program@] + crate::text::texts(shell.args@)
                        =~= crate::text::texts(options.command@));
                }
                Some(shell)
            },
            None => None,
        };
        PtyOptions {
            working_directory: options.working_directory,
            shell,
            drain_on_exit: options.hold,
            env: Vec::new(),
            escape_args: false,
        }
    }
}

/// Window identity options.
#[derive(Debug)]
pub struct WindowIdentity {
    /// Defines the window title [default: Alacritty].
    pub title: Option<String>,

    /// Defines window class [default: Alacritty].
    pub class: Option<Class>,
}

impl Default for WindowIdentity {
    fn default() -> (identity: WindowIdentity)
        ensures
            identity.title is None,
            identity.class is None,
    {
        WindowIdentity { title: None, class: None }
    }
}

impl WindowIdentity {
    /// Override the [`Identity`] fields with values from CLI.
    pub fn override_identity_config(&self, identity: &mut Identity)
        ensures
            final(identity).title == (match self.title {
                Some(title) => title,
                None => old(identity).title,
            }),
            final(identity).class == (match self.class {
                Some(class) => class,
                None => old(identity).class,
            }),
    {
        if let Some(title) = &self.title {
            identity.title = title.clone();
        }
        if let Some(class) = &self.class {
            identity.class = class.clone();
        }
    }
}

/// Subset of options used when creating a new window in-process.
#[derive(Debug)]
pub struct WindowOptions {
    /// Terminal options for the new window.
    pub terminal_options: TerminalOptions,

    /// Window options for the new window.
    pub window_identity: WindowIdentity,

    /// Override configuration file options [example: 'cursor.style=\"Beam\"'].
    pub option: Vec<String>,
}

impl Default for WindowOptions {
    fn default() -> (options: WindowOptions)
        ensures
            options.terminal_options.working_directory is None,
            !options.terminal_options.hold,
            options.terminal_options.command@.len() == 0,
            options.window_identity.title is None,
            options.window_identity.class is None,
            options.option@.len() == 0,
    {
        WindowOptions {
            terminal_options: TerminalOptions::default(),
            window_identity: WindowIdentity::default(),
            option: Vec::new(),
        }
    }
}

impl WindowOptions {
    /// Get the parsed set of CLI config overrides.
    pub fn config_overrides(&self) -> (parsed: ParsedOptions)
        ensures
            parsed@ == overrides::valid_options(crate::text::texts(self.option@)),
    {
        ParsedOptions::from_options(&self.option)
    }
}

/// IPC socket messages.
#[derive(Debug)]
pub enum SocketMessage {
    /// Create a new window in the same Alacritty process.
    CreateWindow(WindowOptions),
    /// Update the Alacritty configuration.
    Config(IpcConfig),
    /// Read runtime Alacritty configuration.
    GetConfig(IpcGetConfig),
}

/// Parameters to the `config` IPC subcommand / message.
#[derive(Debug)]
pub struct IpcConfig {
    /// Configuration file options [example: 'cursor.style="Beam"'].
    pub options: Vec<String>,
    /// Window ID for the config change. Use -1 to apply to all windows.
    pub window_id: Option<i128>,
    /// Clear all runtime configuration changes.
    pub reset: bool,
}

/// Parameters to the `get-config` IPC message.
#[derive(Debug)]
pub struct IpcGetConfig {
    /// Window ID for the config request. Use -1 for global config.
    pub window_id: Option<i128>,
}

/// Socket reply types.
#[derive(Debug)]
pub enum SocketReply {
    /// Config response.
    GetConfig(String),
}

/// The values that the command line gives to the arguments.
#[derive(Debug)]
pub struct Arguments {
    pub print_events: bool,
    pub hold: bool,
    pub daemon: bool,
    pub working_directory: Option<String>,
    pub title: Option<String>,
    pub class: Option<String>,
    pub option: Vec<String>,
    pub embed: Option<String>,
    pub config_file: Option<String>,
    pub socket: Option<String>,
}

/// The value that counts where an option has several: the last one.
pub open spec fn last_value(values: Values, name: Seq<char>) -> Option<Seq<char>> {
    if values.options[name].len() > 0 {
        Some(values.options[name].last())
    } else {
        None
    }
}

impl Arguments {
    /// Whether these are the arguments that the parser found. Those that a system does not know are
    /// not given there.
    pub open spec fn reads(self, values: Values, platform: Platform) -> bool {
        &&& self.print_events == values.flags["print-events"@]
        &&& self.hold == values.flags["hold"@]
        &&& self.daemon == (platform.unix() && values.flags["daemon"@])
        &&& crate::text::opt_text(self.working_directory) == last_value(values, "working-directory"@)
        &&& crate::text::opt_text(self.title) == last_value(values, "title"@)
        &&& crate::text::opt_text(self.class) == last_value(values, "class"@)
        &&& crate::text::texts(self.option@) == values.options["option"@]
        &&& crate::text::opt_text(self.embed) == if platform is OtherUnix {
            last_value(values, "embed"@)
        } else {
            None
        }
        &&& crate::text::opt_text(self.config_file) == last_value(values, "config-file"@)
        &&& crate::text::opt_text(self.socket) == if platform.unix() {
            last_value(values, "socket"@)
        } else {
            None
        }
    }

    /// Whether the class has more than two parts.
    pub open spec fn has_bad_class(self) -> bool {
        match self.class {
            Some(class) => match crate::text::first_at(class@, ',', 0) {
                Some(comma) => crate::text::first_at(class@, ',', comma + 1) is Some,
                None => false,
            },
            None => false,
        }
    }
}

/// Whether a window class is what the argument says.
pub open spec fn class_matches(argument: Option<String>, class: Option<Class>) -> bool {
    match argument {
        None => class is None,
        Some(argument) => match crate::text::first_at(argument@, ',', 0) {
            None => class matches Some(class) && class.general@ == argument@ && class.instance@
                == argument@,
            Some(comma) => class matches Some(class) && class.general@ == argument@.take(comma)
                && class.instance@ == crate::text::without_first(argument@, comma + 1),
        },
    }
}

/// CLI options for the main Alacritty executable.
#[derive(Debug)]
pub struct Options {
    /// The system that the options are for.
    pub platform: Platform,

    /// Print all events to STDOUT.
    pub print_events: bool,

    /// Window ID to embed Alacritty within (decimal or hexadecimal with "0x" prefix).
    pub embed: Option<String>,

    /// Specify alternative configuration file.
    pub config_file: Option<String>,

    /// Reduces the level of verbosity (the min level is -qq).
    pub quiet: u8,

    /// Increases the level of verbosity (the max level is -vvv).
    pub verbose: u8,

    /// Do not spawn an initial window.
    pub daemon: bool,

    /// IPC socket path.
    pub socket: Option<String>,

    /// CLI options for config overrides.
    pub config_options: ParsedOptions,

    /// Options which can be passed when creating a new window.
    pub window_options: WindowOptions,
}

impl Default for Options {
    fn default() -> (options: Options)
        ensures
            options.platform is OtherUnix,
            !options.print_events,
            options.embed is None,
            options.config_file is None,
            options.quiet == 0,
            options.verbose == 0,
            !options.daemon,
            options.socket is None,
            options.config_options@ == Seq::<(Seq<char>, Value)>::empty(),
            options.window_options.terminal_options.working_directory is None,
            !options.window_options.terminal_options.hold,
            options.window_options.terminal_options.command@.len() == 0,
            options.window_options.window_identity.title is None,
            options.window_options.window_identity.class is None,
            options.window_options.option@.len() == 0,
    {
        Options {
            platform: Platform::default(),
            print_events: false,
            embed: None,
            config_file: None,
            quiet: 0,
            verbose: 0,
            daemon: false,
            socket: None,
            config_options: ParsedOptions::default(),
            window_options: WindowOptions::default(),
        }
    }
}

/// The filter of the two that logs more.
pub open spec fn more(a: LevelFilter, b: LevelFilter) -> LevelFilter {
    if a.rank() < b.rank() {
        b
    } else {
        a
    }
}

impl Options {
    /// Whether these are the options that the arguments, the command and the verbosity levels
    /// give.
    pub open spec fn made_from(
        self,
        arguments: Arguments,
        command: Seq<Seq<char>>,
        quiet: int,
        verbose: int,
        platform: Platform,
    ) -> bool {
        &&& self.platform == platform
        &&& self.print_events == arguments.print_events
        &&& self.embed == arguments.embed
        &&& self.config_file == arguments.config_file
        &&& self.quiet == quiet
        &&& self.verbose == verbose
        &&& self.daemon == arguments.daemon
        &&& self.socket == arguments.socket
        &&& self.config_options@ == overrides::valid_options(crate::text::texts(arguments.option@))
        &&& self.window_options.terminal_options.working_directory == arguments.working_directory
        &&& self.window_options.terminal_options.hold == arguments.hold
        &&& crate::text::texts(self.window_options.terminal_options.command@) == command
        &&& self.window_options.window_identity.title == arguments.title
        &&& class_matches(arguments.class, self.window_options.window_identity.class)
        &&& self.window_options.option == arguments.option
    }

    /// Whether `options` is what the arguments, the command and the verbosity levels give: the
    /// options, or an error where the class has too many parts.
    pub open spec fn outcome(
        arguments: Arguments,
        command: Seq<Seq<char>>,
        quiet: int,
        verbose: int,
        platform: Platform,
        options: Result<Options, CliError>,
    ) -> bool {
        match options {
            Ok(options) => !arguments.has_bad_class() && options.made_from(
                arguments,
                command,
                quiet,
                verbose,
                platform,
            ),
            Err(error) => {
                &&& arguments.has_bad_class()
                &&& error matches CliError::Value(message)
                &&& message@ == "invalid value for --class: "@ + "Too many parameters"@
            },
        }
    }

    /// Make the options of the parsed arguments.
    pub fn from_arguments(
        arguments: Arguments,
        command: Vec<String>,
        quiet: u8,
        verbose: u8,
        platform: Platform,
    ) -> (options: Result<Options, CliError>)
        ensures
            Options::outcome(
                arguments,
                crate::text::texts(command@),
                quiet as int,
                verbose as int,
                platform,
                options,
            ),
    {
        let class = match &arguments.class {
            None => None,
            Some(class) => match parse_class(class.as_str()) {
                Ok(class) => Some(class),
                Err(error) => {
                    return Err(
                        CliError::Value(join("invalid value for --class: ", error.as_str())),
                    );
                },
            },
        };
        let terminal_options = TerminalOptions {
            working_directory: arguments.working_directory,
            hold: arguments.hold,
            command,
        };
        let window_identity = WindowIdentity { title: arguments.title, class };
        let window_options = WindowOptions {
            terminal_options,
            window_identity,
            option: arguments.option,
        };
        let config_options = window_options.config_overrides();
        Ok(
            Options {
                platform,
                print_events: arguments.print_events,
                embed: arguments.embed,
                config_file: arguments.config_file,
                quiet,
                verbose,
                daemon: arguments.daemon,
                socket: arguments.socket,
                config_options,
                window_options,
            },
        )
    }

    /// Whether `after` is the configuration `before` with these options in it. The config
    /// overrides are not among them. Only systems with X11 have a window to embed into.
    pub open spec fn overridden(self, before: UiConfig, after: UiConfig) -> bool {
        &&& after.general == before.general
        &&& after.config_paths == before.config_paths
        &&& after.window.identity == before.window.identity
        &&& after.window.dynamic_title == before.window.dynamic_title
        &&& match self.embed {
            _ if !(self.platform is OtherUnix) => after.window.embed == before.window.embed,
            None => after.window.embed is None,
            Some(embed) => match (after.window.embed, tokens::hex_or_decimal(embed@)) {
                (Some(window), Some(number)) => window == number,
                (None, None) => true,
                _ => false,
            },
        }
        &&& after.debug.print_events == (before.debug.print_events || self.print_events)
        &&& after.debug.log_level == more(
            more(before.debug.log_level, self.filter()),
            if after.debug.print_events {
                LevelFilter::Info
            } else {
                LevelFilter::Off
            },
        )
    }

    /// Override configuration file with options from the CLI. The result is the config overrides,
    /// which are still to be applied.
    pub fn override_config(&self, config: &mut UiConfig) -> (pending: &ParsedOptions)
        ensures
            self.overridden(*old(config), *final(config)),
            *pending == self.config_options,
    {
        if let Platform::OtherUnix = self.platform {
            config.window.embed = match &self.embed {
                Some(embed) => parse_hex_or_decimal(embed.as_str()),
                None => None,
            };
        }
        config.debug.print_events = config.debug.print_events || self.print_events;
        config.debug.log_level = config.debug.log_level.or_more(self.log_level());
        if config.debug.print_events {
            config.debug.log_level = config.debug.log_level.or_more(LevelFilter::Info);
        }
        &self.config_options
    }

    /// Whether no initial window is spawned, which only Unix systems offer.
    pub fn daemon(&self) -> (daemon: bool)
        ensures
            daemon == (self.platform.unix() && self.daemon),
    {
        self.platform.is_unix() && self.daemon
    }

    /// The logging filter level: more for `--verbose`, less for `--quiet`, and never less than
    /// `Info` for `--print-events`.
    pub open spec fn filter(self) -> LevelFilter {
        if self.verbose == 0 && self.print_events {
            LevelFilter::Info
        } else if self.verbose == 0 {
            if self.quiet == 0 {
                LevelFilter::Warn
            } else if self.quiet == 1 {
                LevelFilter::Error
            } else {
                LevelFilter::Off
            }
        } else if self.verbose == 1 {
            LevelFilter::Info
        } else if self.verbose == 2 {
            LevelFilter::Debug
        } else if self.quiet == 0 {
            LevelFilter::Trace
        } else if self.quiet == 1 {
            LevelFilter::Error
        } else {
            LevelFilter::Off
        }
    }

    /// Logging filter level.
    pub fn log_level(&self) -> (level: LevelFilter)
        ensures
            level == self.filter(),
    {
        match (self.quiet, self.verbose) {
            // Force at least `Info` level for `--print-events`.
            (_, 0) if self.print_events => LevelFilter::Info,

            // Default.
            (0, 0) => LevelFilter::Warn,

            // Verbose.
            (_, 1) => LevelFilter::Info,
            (_, 2) => LevelFilter::Debug,
            (0, _) => LevelFilter::Trace,

            // Quiet.
            (1, _) => LevelFilter::Error,
            _ => LevelFilter::Off,
        }
    }
}

/// The flags that the command line knows on every system.
pub open spec fn common_flags() -> Seq<FlagSchema> {
    seq![
        FlagSchema {
            long: "print-events"@,
            short: None,
            description: "Print all events to stdout"@,
            plain: true,
        },
        FlagSchema {
            long: "quiet"@,
            short: Some('q'),
            description: "Reduce log verbosity"@,
            plain: true,
        },
        FlagSchema {
            long: "verbose"@,
            short: Some('v'),
            description: "Increase log verbosity"@,
            plain: true,
        },
        FlagSchema {
            long: "hold"@,
            short: None,
            description: "Remain open after child process exit"@,
            plain: true,
        },
    ]
}

/// The flag that Unix systems have besides.
pub open spec fn daemon_flag() -> FlagSchema {
    FlagSchema {
        long: "daemon"@,
        short: None,
        description: "Do not spawn an initial window"@,
        plain: true,
    }
}

/// The options that the command line knows on every system.
pub open spec fn common_options() -> Seq<OptSchema> {
    seq![
        OptSchema {
            long: "config-file"@,
            short: None,
            placeholder: "PATH"@,
            description: "Use an alternative configuration file"@,
            multi: false,
            plain: true,
        },
        OptSchema {
            long: "working-directory"@,
            short: None,
            placeholder: "PATH"@,
            description: "Start the shell in this directory"@,
            multi: false,
            plain: true,
        },
        OptSchema {
            long: "command"@,
            short: Some('e'),
            placeholder: "COMMAND ..."@,
            description: "Execute command with arguments; must be last"@,
            multi: false,
            plain: true,
        },
        OptSchema {
            long: "title"@,
            short: Some('T'),
            placeholder: "TITLE"@,
            description: "Define the window title"@,
            multi: false,
            plain: true,
        },
        OptSchema {
            long: "class"@,
            short: None,
            placeholder: "GENERAL[,INSTANCE]"@,
            description: "Define the window class"@,
            multi: false,
            plain: true,
        },
        OptSchema {
            long: "option"@,
            short: Some('o'),
            placeholder: "KEY=VALUE"@,
            description: "Override configuration options"@,
            multi: true,
            plain: true,
        },
    ]
}

/// The option for systems with X11.
pub open spec fn embed_option() -> OptSchema {
    OptSchema {
        long: "embed"@,
        short: None,
        placeholder: "WINDOW_ID"@,
        description: "Embed into an existing window"@,
        multi: false,
        plain: true,
    }
}

/// The option that Unix systems have besides.
pub open spec fn socket_option() -> OptSchema {
    OptSchema {
        long: "socket"@,
        short: None,
        placeholder: "PATH"@,
        description: "Use a custom IPC socket path"@,
        multi: false,
        plain: true,
    }
}

/// The arguments that the command line knows on a system.
pub open spec fn cli_schema(version: Seq<char>, platform: Platform) -> Schema {
    Schema {
        name: Some("alacritty"@),
        description: Some("A fast, cross-platform terminal emulator"@),
        version: Some(version),
        flags: if platform.unix() {
            common_flags().push(daemon_flag())
        } else {
            common_flags()
        },
        options: match platform {
            Platform::Windows => common_options(),
            Platform::Macos => common_options().push(socket_option()),
            Platform::OtherUnix => common_options().push(embed_option()).push(socket_option()),
        },
        conflicts: seq![("verbosity"@, seq!["quiet"@, "verbose"@])],
        plain: true,
    }
}

/// No argument of the command line stands in the way of another.
proof fn cli_schema_is_valid(version: Seq<char>, platform: Platform)
    ensures
        cli_schema(version, platform).valid(),
        cli_schema(version, platform).is_plain(),
{
    let schema = cli_schema(version, platform);
    reveal_strlit("print-events");
    reveal_strlit("quiet");
    reveal_strlit("verbose");
    reveal_strlit("hold");
    reveal_strlit("daemon");
    reveal_strlit("config-file");
    reveal_strlit("working-directory");
    reveal_strlit("command");
    reveal_strlit("title");
    reveal_strlit("class");
    reveal_strlit("option");
    reveal_strlit("embed");
    reveal_strlit("socket");
    match platform {
        Platform::Windows => {
            assert(schema.longs() =~= seq![
                "print-events"@,
                "quiet"@,
                "verbose"@,
                "hold"@,
                "config-file"@,
                "working-directory"@,
                "command"@,
                "title"@,
                "class"@,
                "option"@,
            ]);
            assert(schema.shorts() =~= seq![
                None,
                Some('q'),
                Some('v'),
                None,
                None,
                None,
                Some('e'),
                Some('T'),
                None,
                Some('o'),
            ]);
        },
        Platform::Macos => {
            assert(schema.longs() =~= seq![
                "print-events"@,
                "quiet"@,
                "verbose"@,
                "hold"@,
                "daemon"@,
                "config-file"@,
                "working-directory"@,
                "command"@,
                "title"@,
                "class"@,
                "option"@,
                "socket"@,
            ]);
            assert(schema.shorts() =~= seq![
                None,
                Some('q'),
                Some('v'),
                None,
                None,
                None,
                None,
                Some('e'),
                Some('T'),
                None,
                Some('o'),
                None,
            ]);
        },
        Platform::OtherUnix => {
            assert(schema.longs() =~= seq![
                "print-events"@,
                "quiet"@,
                "verbose"@,
                "hold"@,
                "daemon"@,
                "config-file"@,
                "working-directory"@,
                "command"@,
                "title"@,
                "class"@,
                "option"@,
                "embed"@,
                "socket"@,
            ]);
            assert(schema.shorts() =~= seq![
                None,
                Some('q'),
                Some('v'),
                None,
                None,
                None,
                None,
                Some('e'),
                Some('T'),
                None,
                Some('o'),
                None,
                None,
            ]);
        },
    }
    assert(schema.longs()[1] == "quiet"@);
    assert(schema.longs()[2] == "verbose"@);
    assert("quiet"@[0] == 'q' && "title"@[0] == 't' && "class"@[0] == 'c' && "embed"@[0] == 'e');
    assert("daemon"@[0] == 'd' && "option"@[0] == 'o' && "socket"@[0] == 's');
    assert("verbose"@[0] == 'v' && "command"@[0] == 'c');
    assert forall|i: int, j: int|
        0 <= i < schema.longs().len() && 0 <= j < schema.longs().len() && i != j implies #[trigger]
    schema.longs()[i] != #[trigger] schema.longs()[j] by {
        assert(schema.longs()[i].len() != schema.longs()[j].len() || schema.longs()[i][0]
            != schema.longs()[j][0]);
    }
    assert forall|c: int, m: int|
        0 <= c < schema.conflicts.len() && 0 <= m
            < schema.conflicts[c].1.len() implies schema.longs().contains(
        #[trigger] schema.conflicts[c].1[m],
    ) by {
        assert(schema.conflicts[0].1 =~= seq!["quiet"@, "verbose"@]);
        assert(schema.conflicts[c].1[m] == schema.longs()[m + 1]);
    }
}

/// A command line that asks for more and for fewer messages is refused: the values of one that is
/// not have at most one of the two flags.
pub proof fn verbosity_flags_exclude_each_other(
    version: Seq<char>,
    platform: Platform,
    values: Values,
)
    requires
        cli_schema(version, platform).admits(values),
    ensures
        !(values.flags["quiet"@] && values.flags["verbose"@]),
{
    let schema = cli_schema(version, platform);
    assert(schema.flags[1].long == "quiet"@);
    assert(schema.flags[2].long == "verbose"@);
    assert(schema.conflicts[0].1[0] == "quiet"@);
    assert(schema.conflicts[0].1[1] == "verbose"@);
}

/// The tokens that are parsed: those before the command, in the form that the parser knows.
pub open spec fn normalized(args: Seq<Seq<char>>) -> Seq<Seq<char>> {
    let own = match tokens::command_at(args, 0) {
        Some(at) => args.take(at),
        None => args,
    };
    tokens::expanded(own.map_values(|token: Seq<char>| tokens::title_alias(token)), 0)
}

/// The command that the command line gives.
pub open spec fn given_command(args: Seq<Seq<char>>) -> Seq<Seq<char>> {
    match tokens::command_at(args, 0) {
        Some(at) => tokens::command_from(args, at),
        None => Seq::empty(),
    }
}

/// Whether there is a command option without a command.
pub open spec fn lacks_command(args: Seq<Seq<char>>) -> bool {
    tokens::command_at(args, 0) is Some && given_command(args).len() == 0
}

/// Every token after the command option belongs to the child: whatever follows it, the tokens that
/// are parsed stay the same, and all of it becomes part of the command.
pub proof fn command_tokens_are_not_parsed(args: Seq<Seq<char>>, more: Seq<Seq<char>>)
    requires
        tokens::command_at(args, 0) is Some,
    ensures
        normalized(args + more) == normalized(args),
        given_command(args + more) == given_command(args) + more,
{
    tokens::command_stays(args, more, 0);
    let at = tokens::command_at(args, 0)->0;
    assert((args + more).take(at) =~= args.take(at));
    assert(given_command(args + more) =~= given_command(args) + more);
}

/// Whether the arguments that the parser can name stay clear of a short option without a name,
/// which it cannot read.
pub open spec fn readable(args: Seq<Seq<char>>, version: Seq<char>, platform: Platform) -> bool {
    lacks_command(args) || !cli_schema(version, platform).stumbles(
        normalized(args),
        0,
        Set::empty(),
    )
}

/// Whether there is a flag with a long name.
fn is_flag(long: &str, platform: Platform, Ghost(version): Ghost<Seq<char>>) -> (known: bool)
    ensures
        known == cli_schema(version, platform).has_flag(long@),
{
    let ghost flags = cli_schema(version, platform).flags;
    let known = same_text(long, "print-events") || same_text(long, "quiet") || same_text(
        long,
        "verbose",
    ) || same_text(long, "hold") || platform.is_unix() && same_text(long, "daemon");
    proof {
        assert(flags[0].long == "print-events"@);
        assert(flags[1].long == "quiet"@);
        assert(flags[2].long == "verbose"@);
        assert(flags[3].long == "hold"@);
        assert(platform.unix() ==> flags[4].long == "daemon"@);
    }
    known
}

/// Whether there is a flag with a short form.
fn is_short_flag(
    short: char,
    Ghost(platform): Ghost<Platform>,
    Ghost(version): Ghost<Seq<char>>,
) -> (known: bool)
    ensures
        known == cli_schema(version, platform).has_short_flag(short),
{
    proof {
        let flags = cli_schema(version, platform).flags;
        assert(flags[1].short == Some('q'));
        assert(flags[2].short == Some('v'));
    }
    short == 'q' || short == 'v'
}

/// The position of an option with a long name.
fn option_index(
    long: &str,
    platform: Platform,
    Ghost(version): Ghost<Seq<char>>,
) -> (index: Option<usize>)
    ensures
        match (index, cli_schema(version, platform).option_at(long@, 0)) {
            (Some(index), Some(expected)) => index == expected && index < cli_schema(
                version,
                platform,
            ).options.len(),
            (None, None) => true,
            _ => false,
        },
{
    proof {
        reveal_with_fuel(Schema::option_at, 9);
    }
    if same_text(long, "config-file") {
        Some(0)
    } else if same_text(long, "working-directory") {
        Some(1)
    } else if same_text(long, "command") {
        Some(2)
    } else if same_text(long, "title") {
        Some(3)
    } else if same_text(long, "class") {
        Some(4)
    } else if same_text(long, "option") {
        Some(5)
    } else {
        match platform {
            Platform::Windows => None,
            Platform::Macos => if same_text(long, "socket") {
                Some(6)
            } else {
                None
            },
            Platform::OtherUnix => if same_text(long, "embed") {
                Some(6)
            } else if same_text(long, "socket") {
                Some(7)
            } else {
                None
            },
        }
    }
}

/// The position of an option with a short form.
fn short_option_index(
    short: char,
    Ghost(platform): Ghost<Platform>,
    Ghost(version): Ghost<Seq<char>>,
) -> (index: Option<usize>)
    ensures
        match (index, cli_schema(version, platform).short_option_at(short, 0)) {
            (Some(index), Some(expected)) => index == expected && index < cli_schema(
                version,
                platform,
            ).options.len(),
            (None, None) => true,
            _ => false,
        },
{
    proof {
        reveal_with_fuel(Schema::short_option_at, 9);
    }
    if short == 'e' {
        Some(2)
    } else if short == 'T' {
        Some(3)
    } else if short == 'o' {
        Some(5)
    } else {
        None
    }
}

/// What reading a token leads to: nothing where it is over.
enum Progress {
    Over,
    Stumbled,
    GoOn { tokens: usize },
}

/// The positions that are marked.
spec fn marked_positions(marks: Seq<bool>) -> Set<int> {
    Set::new(|i: int| 0 <= i < marks.len() && marks[i])
}

/// Whether reading a token led to what it should.
spec fn progressed(progress: Progress, marks: Seq<bool>, reading: schema::Reading) -> bool {
    match (progress, reading) {
        (Progress::Over, schema::Reading::Over) => true,
        (Progress::Stumbled, schema::Reading::Stumbled) => true,
        (Progress::GoOn { tokens }, schema::Reading::GoOn { tokens: expected, given }) => tokens
            == expected && 1 <= tokens <= 2 && given == marked_positions(marks),
        _ => false,
    }
}

/// Note that an option has a value.
fn note_value(
    given: &mut Vec<bool>,
    option: usize,
    tokens: usize,
    Ghost(platform): Ghost<Platform>,
    Ghost(version): Ghost<Seq<char>>,
) -> (progress: Progress)
    requires
        old(given)@.len() == 8,
        option < cli_schema(version, platform).options.len(),
        1 <= tokens <= 2,
    ensures
        final(given)@.len() == 8,
        progressed(
            progress,
            final(given)@,
            cli_schema(version, platform).valued(
                option as int,
                tokens as nat,
                marked_positions(old(given)@),
            ),
        ),
{
    proof {
        let options = cli_schema(version, platform).options;
        assert(options[option as int].multi == (option == 5));
    }
    if option == 5 {
        return Progress::GoOn { tokens };
    }
    if given[option] {
        return Progress::Over;
    }
    given.set(option, true);
    assert(marked_positions(given@) =~= marked_positions(old(given)@).insert(option as int));
    Progress::GoOn { tokens }
}

/// Note that an option has the next token as its value, if there is one.
fn note_next(
    given: &mut Vec<bool>,
    option: usize,
    has_next: bool,
    Ghost(platform): Ghost<Platform>,
    Ghost(version): Ghost<Seq<char>>,
) -> (progress: Progress)
    requires
        old(given)@.len() == 8,
        option < cli_schema(version, platform).options.len(),
    ensures
        final(given)@.len() == 8,
        progressed(
            progress,
            final(given)@,
            cli_schema(version, platform).valued_by_next(
                option as int,
                has_next,
                marked_positions(old(given)@),
            ),
        ),
{
    if has_next {
        note_value(given, option, 2, Ghost(platform), Ghost(version))
    } else {
        Progress::Over
    }
}

/// Read a long flag or option.
fn read_long(
    chars: &Vec<char>,
    has_next: bool,
    given: &mut Vec<bool>,
    platform: Platform,
    Ghost(version): Ghost<Seq<char>>,
) -> (progress: Progress)
    requires
        old(given)@.len() == 8,
        chars@.len() >= 2,
    ensures
        final(given)@.len() == 8,
        progressed(
            progress,
            final(given)@,
            cli_schema(version, platform).read_long(
                chars@,
                has_next,
                marked_positions(old(given)@),
            ),
        ),
{
    match find(chars, '=', 2) {
        Some(equals) => {
            let long = string_of(chars, 2, equals);
            match option_index(long.as_str(), platform, Ghost(version)) {
                Some(option) => note_value(given, option, 1, Ghost(platform), Ghost(version)),
                None => Progress::Over,
            }
        },
        None => {
            let long = string_of(chars, 2, chars.len());
            if is_flag(long.as_str(), platform, Ghost(version)) {
                return Progress::GoOn { tokens: 1 };
            }
            match option_index(long.as_str(), platform, Ghost(version)) {
                Some(option) => note_next(given, option, has_next, Ghost(platform), Ghost(version)),
                None => Progress::Over,
            }
        },
    }
}

/// Read short flags, where an option takes the rest of the token or the next one as its value.
fn read_cluster(
    chars: &Vec<char>,
    has_next: bool,
    given: &mut Vec<bool>,
    Ghost(platform): Ghost<Platform>,
    Ghost(version): Ghost<Seq<char>>,
) -> (progress: Progress)
    requires
        old(given)@.len() == 8,
        chars@.len() >= 1,
    ensures
        final(given)@.len() == 8,
        progressed(
            progress,
            final(given)@,
            cli_schema(version, platform).read_cluster(
                chars@,
                1,
                has_next,
                marked_positions(old(given)@),
            ),
        ),
{
    let count: usize = chars.len();
    let ghost marks = marked_positions(given@);
    let mut at: usize = 1;
    while at < count
        invariant
            count == chars@.len(),
            1 <= at <= count,
            given@ == old(given)@,
            given@.len() == 8,
            marks == marked_positions(given@),
            cli_schema(version, platform).read_cluster(chars@, 1, has_next, marks) == cli_schema(
                version,
                platform,
            ).read_cluster(chars@, at as int, has_next, marks),
        decreases count - at,
    {
        let short: char = chars[at];
        if short == 'h' && !is_short_flag(short, Ghost(platform), Ghost(version)) {
            return Progress::Over;
        }
        if short == 'V' {
            return Progress::Over;
        }
        if is_short_flag(short, Ghost(platform), Ghost(version)) {
            at += 1;
            continue;
        }
        return match short_option_index(short, Ghost(platform), Ghost(version)) {
            Some(option) => if at + 1 < count {
                note_value(given, option, 1, Ghost(platform), Ghost(version))
            } else {
                note_next(given, option, has_next, Ghost(platform), Ghost(version))
            },
            None => Progress::Over,
        };
    }
    Progress::GoOn { tokens: 1 }
}

/// Read short flags that end with an option and its value after an equals sign.
fn read_short_value(
    chars: &Vec<char>,
    equals: usize,
    given: &mut Vec<bool>,
    Ghost(platform): Ghost<Platform>,
    Ghost(version): Ghost<Seq<char>>,
) -> (progress: Progress)
    requires
        old(given)@.len() == 8,
        1 <= equals < chars@.len(),
    ensures
        final(given)@.len() == 8,
        progressed(
            progress,
            final(given)@,
            cli_schema(version, platform).read_short_value(
                chars@,
                equals as int,
                marked_positions(old(given)@),
            ),
        ),
{
    if equals <= 1 {
        return Progress::Stumbled;
    }
    let mut at: usize = 1;
    while at < equals - 1
        invariant
            1 <= at <= equals - 1,
            equals < chars@.len(),
            given@ == old(given)@,
            given@.len() == 8,
            forall|k: int|
                1 <= k < at ==> cli_schema(version, platform).has_short_flag(#[trigger] chars@[k]),
        decreases equals - at,
    {
        if !is_short_flag(chars[at], Ghost(platform), Ghost(version)) {
            assert(!cli_schema(version, platform).has_short_flag(chars@[at as int]));
            return Progress::Over;
        }
        at += 1;
    }
    match short_option_index(chars[equals - 1], Ghost(platform), Ghost(version)) {
        Some(option) => note_value(given, option, 1, Ghost(platform), Ghost(version)),
        None => Progress::Over,
    }
}

/// Read one token.
fn read_token(
    token: &str,
    has_next: bool,
    given: &mut Vec<bool>,
    platform: Platform,
    Ghost(version): Ghost<Seq<char>>,
) -> (progress: Progress)
    requires
        old(given)@.len() == 8,
    ensures
        final(given)@.len() == 8,
        progressed(
            progress,
            final(given)@,
            cli_schema(version, platform).read(token@, has_next, marked_positions(old(given)@)),
        ),
{
    if same_text(token, "--") || same_text(token, "--help") || same_text(token, "-h") || same_text(
        token,
        "--version",
    ) {
        return Progress::Over;
    }
    let chars = chars_of(token);
    if starts_with(token, "--") {
        proof {
            reveal_strlit("--");
        }
        return read_long(&chars, has_next, given, platform, Ghost(version));
    }
    if chars.len() > 1 && chars[0] == '-' {
        return match find(&chars, '=', 1) {
            Some(equals) => read_short_value(
                &chars,
                equals,
                given,
                Ghost(platform),
                Ghost(version),
            ),
            None => read_cluster(&chars, has_next, given, Ghost(platform), Ghost(version)),
        };
    }
    Progress::GoOn { tokens: 1 }
}

/// Whether the parser meets a short option without a name.
fn stumbles(
    args: &Vec<String>,
    platform: Platform,
    Ghost(version): Ghost<Seq<char>>,
) -> (stumbles: bool)
    ensures
        stumbles == cli_schema(version, platform).stumbles(
            crate::text::texts(args@),
            0,
            Set::empty(),
        ),
{
    let ghost all = crate::text::texts(args@);
    let count: usize = args.len();
    let mut given: Vec<bool> = vec![false; 8];
    let mut index: usize = 0;
    assert(marked_positions(given@) =~= Set::<int>::empty());
    while index < count
        invariant
            count == args@.len(),
            index <= count,
            given@.len() == 8,
            all == crate::text::texts(args@),
            cli_schema(version, platform).stumbles(all, 0, Set::empty()) == cli_schema(
                version,
                platform,
            ).stumbles(
                all,
                index as nat,
                marked_positions(given@),
            ),
        decreases count - index,
    {
        assert(all[index as int] == args@[index as int]@);
        let has_next = index + 1 < count;
        match read_token(args[index].as_str(), has_next, &mut given, platform, Ghost(version)) {
            Progress::Over => {
                return false;
            },
            Progress::Stumbled => {
                return true;
            },
            Progress::GoOn { tokens } => {
                if tokens > count - index {
                    return false;
                }
                index += tokens;
            },
        }
    }
    false
}

impl Options {
    /// The parser of the command line.
    fn parser(version: &str, platform: Platform) -> (parser: ArgParser)
        ensures
            schema::parser_schema(parser) == cli_schema(version@, platform),
            cli_schema(version@, platform).is_plain(),
    {
        let builder = ArgBuilder::new().name("alacritty").description(
            "A fast, cross-platform terminal emulator",
        ).version(version).flag(
            Flag::new("print-events").desc("Print all events to stdout"),
        ).flag(Flag::new("quiet").short('q').desc("Reduce log verbosity")).flag(
            Flag::new("verbose").short('v').desc("Increase log verbosity"),
        ).option(
            Opt::new("config-file").placeholder("PATH").desc(
                "Use an alternative configuration file",
            ),
        ).option(
            Opt::new("working-directory").placeholder("PATH").desc(
                "Start the shell in this directory",
            ),
        ).flag(Flag::new("hold").desc("Remain open after child process exit")).option(
            Opt::new("command").short('e').placeholder("COMMAND ...").desc(
                "Execute command with arguments; must be last",
            ),
        ).option(
            Opt::new("title").short('T').placeholder("TITLE").desc("Define the window title"),
        ).option(
            Opt::new("class").placeholder("GENERAL[,INSTANCE]").desc("Define the window class"),
        ).option(
            Opt::new("option").short('o').placeholder("KEY=VALUE").desc(
                "Override configuration options",
            ).multi(),
        ).conflict("verbosity", &["quiet", "verbose"]);
        let builder = match platform {
            Platform::OtherUnix => builder.option(
                Opt::new("embed").placeholder("WINDOW_ID").desc("Embed into an existing window"),
            ),
            _ => builder,
        };
        let builder = if platform.is_unix() {
            builder.flag(Flag::new("daemon").desc("Do not spawn an initial window")).option(
                Opt::new("socket").placeholder("PATH").desc("Use a custom IPC socket path"),
            )
        } else {
            builder
        };
        proof {
            let schema = schema::builder_schema(builder);
            assert(schema.flags =~= cli_schema(version@, platform).flags);
            assert(schema.options =~= cli_schema(version@, platform).options);
            assert(schema.conflicts =~~= cli_schema(version@, platform).conflicts);
            assert(schema == cli_schema(version@, platform));
            cli_schema_is_valid(version@, platform);
        }
        builder.build().unwrap()
    }

    /// Whether the command line can be parsed at all: the parser cannot read a short option
    /// without a name.
    pub fn can_parse(args: &Vec<String>, version: &str, platform: Platform) -> (can: bool)
        ensures
            can == readable(crate::text::texts(args@), version@, platform),
    {
        let mut own = strings_from(args, 0);
        assert(crate::text::texts(own@) =~= crate::text::texts(args@));
        match split_command(&mut own) {
            Err(_) => true,
            Ok(_) => {
                normalize_title_alias(&mut own);
                normalize_config_options(&mut own);
                !stumbles(&own, platform, Ghost(version@))
            },
        }
    }

    /// Whether `options` is what a command line gives: an error where the command is missing, where
    /// the parser refuses the other tokens, or where the class has too many parts, and else the
    /// options of the arguments that the parser found.
    pub open spec fn parsed(
        args: Seq<Seq<char>>,
        version: Seq<char>,
        platform: Platform,
        options: Result<Options, CliError>,
    ) -> bool {
        if lacks_command(args) {
            &&& options matches Err(CliError::Value(message))
            &&& message@ == "option "@ + args[tokens::command_at(args, 0)->0]
                + " requires a command"@
        } else {
            match schema::parse_outcome(cli_schema(version, platform), normalized(args)) {
                Err(refusal) => options matches Err(CliError::Parse(failure)) && failure@ == refusal,
                Ok(values) => Options::found(values, args, platform, options),
            }
        }
    }

    /// Whether `options` is what a command line gives for which the parser found these values.
    pub open spec fn found(
        values: Values,
        args: Seq<Seq<char>>,
        platform: Platform,
        options: Result<Options, CliError>,
    ) -> bool {
        exists|arguments: Arguments| #[trigger]
            arguments.reads(values, platform) && Options::outcome(
                arguments,
                given_command(args),
                tokens::verbosity(normalized(args), 'q', "--quiet"@),
                tokens::verbosity(normalized(args), 'v', "--verbose"@),
                platform,
                options,
            )
    }

    /// Parse the command line.
    pub fn parse(args: Vec<String>, version: &str, platform: Platform) -> (options: Result<
        Options,
        CliError,
    >)
        requires
            readable(crate::text::texts(args@), version@, platform),
        ensures
            Options::parsed(crate::text::texts(args@), version@, platform, options),
            options is Ok ==> cli_schema(version@, platform).admits(
                schema::parse_outcome(
                    cli_schema(version@, platform),
                    normalized(crate::text::texts(args@)),
                )->Ok_0,
            ),
    {
        let mut args = args;
        let ghost tokens = crate::text::texts(args@);
        let command = match split_command(&mut args) {
            Ok(command) => command,
            Err(error) => {
                return Err(error);
            },
        };
        assert(crate::text::texts(command@) =~= given_command(tokens));
        normalize_title_alias(&mut args);
        normalize_config_options(&mut args);
        proof {
            assert(crate::text::texts(args@) == normalized(tokens));
            assert(!lacks_command(tokens));
        }
        let quiet: u8 = count_verbosity(&args, 'q', "--quiet");
        let verbose: u8 = count_verbosity(&args, 'v', "--verbose");
        let parsed = match Options::parser(version, platform).parse(args) {
            Ok(parsed) => parsed,
            Err(error) => {
                return Err(CliError::Parse(parse_failure(error)));
            },
        };
        let ghost values = schema::result_values(parsed);
        proof {
            assert(schema::parse_outcome(cli_schema(version@, platform), normalized(tokens)) == Ok::<
                Values,
                Refusal,
            >(values));
            let schema = cli_schema(version@, platform);
            assert(schema.admits(values));
            assert(schema.flags[0].long == "print-events"@);
            assert(schema.flags[3].long == "hold"@);
            assert(platform.unix() ==> schema.flags[4].long == "daemon"@);
            assert(schema.options[0].long == "config-file"@);
            assert(schema.options[1].long == "working-directory"@);
            assert(schema.options[3].long == "title"@);
            assert(schema.options[4].long == "class"@);
            assert(schema.options[5].long == "option"@);
            assert(platform is OtherUnix ==> schema.options[6].long == "embed"@);
            assert(platform is OtherUnix ==> schema.options[7].long == "socket"@);
            assert(platform is Macos ==> schema.options[6].long == "socket"@);
        }
        let arguments = Arguments {
            print_events: parsed.get_flag("print-events"),
            hold: parsed.get_flag("hold"),
            daemon: platform.is_unix() && parsed.get_flag("daemon"),
            working_directory: owned(parsed.get_option("working-directory")),
            title: owned(parsed.get_option("title")),
            class: owned(parsed.get_option("class")),
            option: owned_list(parsed.get_option_values("option")),
            embed: match platform {
                Platform::OtherUnix => owned(parsed.get_option("embed")),
                _ => None,
            },
            config_file: owned(parsed.get_option("config-file")),
            socket: if platform.is_unix() {
                owned(parsed.get_option("socket"))
            } else {
                None
            },
        };
        let options = Options::from_arguments(arguments, command, quiet, verbose, platform);
        proof {
            assert(arguments.reads(values, platform));
            assert(Options::outcome(
                arguments,
                given_command(tokens),
                tokens::verbosity(normalized(tokens), 'q', "--quiet"@),
                tokens::verbosity(normalized(tokens), 'v', "--verbose"@),
                platform,
                options,
            ));
            assert(Options::found(values, tokens, platform, options));
        }
        options
    }
}

/// A copy of a borrowed text.
fn owned(text: Option<&str>) -> (copy: Option<String>)
    ensures
        match text {
            Some(text) => copy matches Some(copy) && copy@ == text@,
            None => copy is None,
        },
{
    match text {
        Some(text) => Some(text.to_owned()),
        None => None,
    }
}

/// A copy of borrowed texts.
fn owned_list(list: &[String]) -> (copy: Vec<String>)
    ensures
        crate::text::texts(copy@) == crate::text::texts(list@),
{
    let mut copy: Vec<String> = Vec::new();
    let count: usize = list.len();
    let mut index: usize = 0;
    while index < count
        invariant
            count == list@.len(),
            index <= count,
            crate::text::texts(copy@) == crate::text::texts(list@).take(index as int),
        decreases count - index,
    {
        let ghost before = crate::text::texts(copy@);
        copy.push(list[index].clone());
        index += 1;
        assert(crate::text::texts(copy@) =~= before.push(list@[index - 1]@));
        assert(crate::text::texts(copy@) =~= crate::text::texts(list@).take(index as int));
    }
    assert(crate::text::texts(list@).take(index as int) =~= crate::text::texts(list@));
    copy
}

/// What the command line asks for is what is configured in the end: events are printed where either asks
/// for it, as much is logged as the one of the two that asks for more, and at least what printing
/// events needs. The window to embed into is that of the command line. Nothing else changes.
pub proof fn command_line_overrides_the_configuration(
    options: Options,
    before: UiConfig,
    after: UiConfig,
)
    requires
        options.overridden(before, after),
    ensures
        after.debug.print_events <==> before.debug.print_events || options.print_events,
        after.debug.log_level.rank() >= before.debug.log_level.rank(),
        after.debug.log_level.rank() >= options.filter().rank(),
        after.debug.print_events ==> after.debug.log_level.rank() >= 3,
        after.debug.log_level == before.debug.log_level || after.debug.log_level == options.filter()
            || after.debug.log_level is Info && after.debug.print_events,
        options.platform is OtherUnix && options.embed is None ==> after.window.embed is None,
        !(options.platform is OtherUnix) ==> after.window.embed == before.window.embed,
        after.general == before.general,
        after.window.identity == before.window.identity,
        after.window.dynamic_title == before.window.dynamic_title,
        after.config_paths == before.config_paths,
{
}

/// Every argument of the command line ends up where it belongs: what the parser found for an option or
/// a flag is what the options of the program hold under that name.
pub proof fn arguments_end_up_in_the_options(
    values: Values,
    arguments: Arguments,
    command: Seq<Seq<char>>,
    quiet: int,
    verbose: int,
    platform: Platform,
    options: Options,
)
    requires
        arguments.reads(values, platform),
        options.made_from(arguments, command, quiet, verbose, platform),
    ensures
        options.print_events == values.flags["print-events"@],
        options.window_options.terminal_options.hold == values.flags["hold"@],
        platform.unix() ==> options.daemon == values.flags["daemon"@],
        values.options["config-file"@].len() == 0 <==> options.config_file is None,
        options.config_file matches Some(path) ==> path@ == values.options["config-file"@].last(),
        values.options["working-directory"@].len() == 0
            <==> options.window_options.terminal_options.working_directory is None,
        options.window_options.terminal_options.working_directory matches Some(path) ==> path@
            == values.options["working-directory"@].last(),
        values.options["title"@].len() == 0 <==> options.window_options.window_identity.title is None,
        options.window_options.window_identity.title matches Some(title) ==> title@
            == values.options["title"@].last(),
        values.options["class"@].len() == 0
            <==> options.window_options.window_identity.class is None,
        values.options["class"@].len() > 0 && !values.options["class"@].last().contains(',') ==> {
            let class = options.window_options.window_identity.class->0;
            &&& class.general@ == values.options["class"@].last()
            &&& class.instance@ == values.options["class"@].last()
        },
        crate::text::texts(options.window_options.option@) == values.options["option"@],
        platform.unix() && options.socket is Some ==> options.socket->0@
            == values.options["socket"@].last(),
        platform is OtherUnix && options.embed is Some ==> options.embed->0@
            == values.options["embed"@].last(),
        crate::text::texts(options.window_options.terminal_options.command@) == command,
        options.quiet == quiet,
        options.verbose == verbose,
{
    if let Some(class) = arguments.class {
        crate::text::first_occurrence_is_found(class@, ',', 0);
        assert(class@ == values.options["class"@].last());
    }
}

/// The more verbose the command line asks for, the more is logged: each `-v` up to the third adds a
/// level to the default, each `-q` takes one away, and printing events logs what one `-v` logs where
/// there is none. A third `-v` beside a `-q` asks for what the `-q` asks for.
pub proof fn flags_set_the_log_level(options: Options)
    ensures
        ({
            let quieted = if options.quiet > 2 {
                0int
            } else {
                2 - options.quiet
            };
            options.filter().rank() == if options.verbose == 0 {
                if options.print_events {
                    3
                } else {
                    quieted
                }
            } else if options.verbose <= 2 {
                2 + options.verbose
            } else if options.quiet == 0 {
                5
            } else {
                quieted
            }
        }),
{
}

/// A class names both parts of the identity of a window: those before and after the comma, or the same
/// for both where there is no comma.
pub proof fn class_names_both_parts(
    argument: String,
    general: Seq<char>,
    instance: Seq<char>,
    class: Option<Class>,
)
    requires
        class_matches(Some(argument), class),
        !general.contains(','),
    ensures
        class is Some,
        argument@ == general ==> class->0.general@ == general && class->0.instance@ == general,
        argument@ == general + seq![','] + instance ==> class->0.general@ == general
            && class->0.instance@ == instance,
{
    crate::text::first_occurrence_is_found(argument@, ',', 0);
    if argument@ == general + seq![','] + instance {
        assert(argument@[general.len() as int] == ',');
        let comma = crate::text::first_at(argument@, ',', 0)->0;
        if comma < general.len() {
            assert(general[comma] == ',');
        }
        assert(argument@.take(comma) =~= general);
        assert(crate::text::without_first(argument@, comma + 1) =~= instance);
    }
}

} // verus!
