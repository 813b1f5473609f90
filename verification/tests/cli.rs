use alacritty::cli::overrides::ParsedOptions;
use alacritty::cli::schema::ParseFailure;
use alacritty::cli::tokens::{
    count_verbosity, normalize_config_options, normalize_title_alias, parse_class, parse_decimal,
    parse_hex_or_decimal, split_command,
};
use alacritty::cli::{
    early_exit, Arguments, CliError, Options, TerminalOptions, WindowIdentity, WindowOptions,
};
use alacritty::config::{read_config, Class, Identity, LevelFilter, Program, UiConfig};
use alacritty::platform::Platform;
use alacritty::tty::{Options as PtyOptions, Shell};
use toml::{Table, Value};

fn args(args: &[&str]) -> Vec<String> {
    args.iter().map(|arg| (*arg).to_owned()).collect()
}

fn parse(tokens: &[&str]) -> Result<Options, CliError> {
    assert!(Options::can_parse(&args(tokens), "0.1.0", Platform::OtherUnix));
    Options::parse(args(tokens), "0.1.0", Platform::OtherUnix)
}

#[test]
fn parses_repeated_verbosity_and_command_tail() {
    let options = parse(&["-vvv", "-e", "cmd", "/c", "--child-flag"]).unwrap();

    assert_eq!(options.log_level(), LevelFilter::Trace);
    assert_eq!(options.window_options.terminal_options.command, ["cmd", "/c", "--child-flag"]);
}

#[test]
fn parses_quiet_levels() {
    let error = parse(&["-q"]).unwrap();
    let off = parse(&["-qq"]).unwrap();

    assert_eq!(error.log_level(), LevelFilter::Error);
    assert_eq!(off.log_level(), LevelFilter::Off);
}

#[test]
fn rejects_mixed_verbosity() {
    assert!(parse(&["-vq"]).is_err());
}

#[test]
fn parses_title_alias_and_class() {
    let options = parse(&["-t", "Terminal", "--class", "General,Instance"]).unwrap();

    assert_eq!(options.window_options.window_identity.title.as_deref(), Some("Terminal"));
    let class = options.window_options.window_identity.class.unwrap();
    assert_eq!(class.general, "General");
    assert_eq!(class.instance, "Instance");
}

#[test]
fn parses_repeated_config_overrides() {
    let options = parse(&["-o", "cursor.style='Beam'", "window.opacity=0.8"]).unwrap();

    assert_eq!(options.window_options.option.len(), 2);
    assert_eq!(options.config_options.len(), 2);
}

#[test]
fn handles_builtin_output_and_missing_command() {
    assert!(matches!(
        parse(&["--help"]),
        Err(CliError::Parse(ParseFailure::HelpRequested(_)))
    ));
    assert!(matches!(
        parse(&["--version"]),
        Err(CliError::Parse(ParseFailure::VersionRequested(_)))
    ));
    assert!(parse(&["-e"]).is_err());
}

#[test]
fn dynamic_title_ignoring_options_by_default() {
    let mut config = UiConfig::default();
    let old_dynamic_title = config.window.dynamic_title;

    Options::default().override_config(&mut config);

    assert_eq!(old_dynamic_title, config.window.dynamic_title);
}

#[test]
fn dynamic_title_not_overridden_by_config() {
    let mut config = UiConfig::default();

    config.window.identity.title = "foo".to_owned();
    Options::default().override_config(&mut config);

    assert!(config.window.dynamic_title);
}

#[test]
fn valid_option_as_value() {
    let value: Value = read_config("field=true").unwrap();

    let mut table = Table::new();
    table.insert(String::from("field"), Value::Boolean(true));

    assert_eq!(value, Value::Table(table));

    let value: Value = read_config("parent.field=true").unwrap();

    let mut parent_table = Table::new();
    parent_table.insert(String::from("field"), Value::Boolean(true));
    let mut table = Table::new();
    table.insert(String::from("parent"), Value::Table(parent_table));

    assert_eq!(value, Value::Table(table));
}

#[test]
fn invalid_option_as_value() {
    let value = read_config("}");
    assert!(value.is_err());
}

#[test]
fn float_option_as_value() {
    let value: Value = read_config("float=3.4").unwrap();

    let mut expected = Table::new();
    expected.insert(String::from("float"), Value::Float(3.4));

    assert_eq!(value, Value::Table(expected));
}

#[test]
fn parse_instance_class() {
    let class = parse_class("one").unwrap();
    assert_eq!(class.general, "one");
    assert_eq!(class.instance, "one");
}

#[test]
fn parse_general_class() {
    let class = parse_class("one,two").unwrap();
    assert_eq!(class.general, "one");
    assert_eq!(class.instance, "two");
}

#[test]
fn parse_invalid_class() {
    let class = parse_class("one,two,three");
    assert!(class.is_err());
}

#[test]
fn valid_decimal() {
    let value = parse_hex_or_decimal("10485773");
    assert_eq!(value, Some(10485773));
}

#[test]
fn valid_hex_to_decimal() {
    let value = parse_hex_or_decimal("0xa0000d");
    assert_eq!(value, Some(10485773));
}

#[test]
fn invalid_hex_to_decimal() {
    let value = parse_hex_or_decimal("0xa0xx0d");
    assert_eq!(value, None);
}

#[test]
fn numbers_have_limits_and_signs() {
    assert_eq!(parse_decimal("4294967295"), Some(u32::MAX));
    assert_eq!(parse_decimal("4294967296"), None);
    assert_eq!(parse_decimal("+7"), Some(7));
    assert_eq!(parse_decimal("-7"), None);
    assert_eq!(parse_decimal(""), None);
    assert_eq!(parse_decimal("+"), None);
    assert_eq!(parse_decimal("ff"), None);
    assert_eq!(parse_hex_or_decimal("0xFFFFFFFF"), Some(u32::MAX));
    assert_eq!(parse_hex_or_decimal("0x100000000"), None);
    assert_eq!(parse_hex_or_decimal("0x"), None);
}

#[test]
fn class_may_have_empty_parts() {
    let class = parse_class(",").unwrap();
    assert_eq!(class.general, "");
    assert_eq!(class.instance, "");
    assert_eq!(parse_class("a,b,c").unwrap_err(), "Too many parameters");
}

#[test]
fn command_takes_everything_after_it() {
    let mut tokens = args(&["--hold", "--command=top", "-b", "--", "x"]);
    assert_eq!(split_command(&mut tokens).unwrap(), ["top", "-b", "--", "x"]);
    assert_eq!(tokens, ["--hold"]);

    let mut tokens = args(&["-e=", "a"]);
    assert_eq!(split_command(&mut tokens).unwrap(), ["", "a"]);

    let mut tokens = args(&["-etop"]);
    assert_eq!(split_command(&mut tokens).unwrap(), ["top"]);
}

#[test]
fn command_after_the_separator_is_no_command() {
    let mut tokens = args(&["--", "-e", "top"]);
    assert!(split_command(&mut tokens).unwrap().is_empty());
    assert_eq!(tokens, ["--", "-e", "top"]);
}

#[test]
fn missing_command_is_named() {
    let mut tokens = args(&["-q", "--command"]);
    let error = split_command(&mut tokens).unwrap_err();
    assert_eq!(error.message(), "option --command requires a command");
    assert_eq!(tokens, ["-q"]);
}

#[test]
fn title_alias_is_normalized_in_all_forms() {
    let mut tokens = args(&["-t", "-t=a", "-tb", "--title", "t", "-T"]);
    normalize_title_alias(&mut tokens);
    assert_eq!(tokens, ["-T", "-T=a", "-Tb", "--title", "t", "-T"]);
}

#[test]
fn config_overrides_are_expanded() {
    let mut tokens = args(&["-o", "a=1", "b=2", "--hold", "c", "--option=d=4", "e=5"]);
    normalize_config_options(&mut tokens);
    assert_eq!(
        tokens,
        ["-o", "a=1", "--option", "b=2", "--hold", "c", "--option=d=4", "--option", "e=5"]
    );

    let mut tokens = args(&["-o", "-x", "a", "-o"]);
    normalize_config_options(&mut tokens);
    assert_eq!(tokens, ["-o", "-x", "--option", "a", "-o"]);
}

#[test]
fn verbosity_counts_clusters_and_long_flags() {
    let tokens = args(&["-vv", "--verbose", "-qv", "-vx", "--", "v", "-"]);
    assert_eq!(count_verbosity(&tokens, 'v', "--verbose"), 4);
    assert_eq!(count_verbosity(&tokens, 'q', "--quiet"), 1);
}

#[test]
fn verbosity_stops_at_the_largest_level() {
    let long = format!("-{}", "v".repeat(200));
    let tokens = vec![long.clone(), long];
    assert_eq!(count_verbosity(&tokens, 'v', "--verbose"), 255);

    for flags in [255, 256, 258] {
        let cluster = format!("-{}", "v".repeat(flags));
        assert_eq!(count_verbosity(&vec![cluster], 'v', "--verbose"), 255);
    }
}

#[test]
fn verbosity_of_lists_adds_up() {
    let first = args(&["-vv", "--verbose"]);
    let second = args(&["-qv", "x"]);
    let joined: Vec<String> = first.iter().chain(&second).cloned().collect();
    let swapped: Vec<String> = second.iter().chain(&first).cloned().collect();
    assert_eq!(count_verbosity(&first, 'v', "--verbose"), 3);
    assert_eq!(count_verbosity(&second, 'v', "--verbose"), 1);
    assert_eq!(count_verbosity(&joined, 'v', "--verbose"), 4);
    assert_eq!(count_verbosity(&swapped, 'v', "--verbose"), 4);
    assert_eq!(count_verbosity(&vec![], 'v', "--verbose"), 0);
    // A flag that is no verbosity flag never occurs in a cluster.
    let dashes = args(&["-", "-v", "--x", "--x"]);
    assert_eq!(count_verbosity(&dashes, '-', "--x"), 2);
}

#[test]
fn log_levels_follow_the_flags() {
    let mut options = Options::default();
    assert_eq!(options.log_level(), LevelFilter::Warn);
    options.print_events = true;
    assert_eq!(options.log_level(), LevelFilter::Info);
    options.verbose = 1;
    assert_eq!(options.log_level(), LevelFilter::Info);
    options.verbose = 2;
    assert_eq!(options.log_level(), LevelFilter::Debug);
    options.verbose = 3;
    assert_eq!(options.log_level(), LevelFilter::Trace);
    options.quiet = 1;
    assert_eq!(options.log_level(), LevelFilter::Error);
    options.quiet = 2;
    assert_eq!(options.log_level(), LevelFilter::Off);
}

#[test]
fn all_values_of_a_command_line_are_read() {
    let options = parse(&[
        "--print-events",
        "--hold",
        "--daemon",
        "--working-directory",
        "/tmp",
        "--config-file=/etc/a.toml",
        "--embed",
        "0x10",
        "--socket",
        "/run/s",
        "--title=T",
    ])
    .unwrap();
    assert!(options.print_events);
    assert!(options.daemon());
    assert!(options.window_options.terminal_options.hold);
    assert_eq!(options.window_options.terminal_options.working_directory.as_deref(), Some("/tmp"));
    assert_eq!(options.config_file.as_deref(), Some("/etc/a.toml"));
    assert_eq!(options.embed.as_deref(), Some("0x10"));
    assert_eq!(options.socket.as_deref(), Some("/run/s"));
    assert_eq!(options.window_options.window_identity.title.as_deref(), Some("T"));
    assert!(options.window_options.window_identity.class.is_none());
    assert!(options.window_options.terminal_options.command.is_empty());
}

#[test]
fn wrong_values_are_refused() {
    assert_eq!(
        parse(&["--class", "a,b,c"]).unwrap_err().message(),
        "invalid value for --class: Too many parameters"
    );
    assert!(matches!(
        parse(&["--bogus"]),
        Err(CliError::Parse(ParseFailure::Invalid(_)))
    ));
    assert_eq!(parse(&["--bogus"]).unwrap_err().message(), "unknown argument: --bogus");
    assert_eq!(
        parse(&["--version"]).unwrap_err().message(),
        "alacritty 0.1.0"
    );
}

#[test]
fn option_without_a_name_cannot_be_read() {
    assert!(!Options::can_parse(&args(&["-=x"]), "1", Platform::OtherUnix));
    assert!(!Options::can_parse(&args(&["--hold", "-="]), "1", Platform::OtherUnix));
    assert!(Options::can_parse(&args(&["--title", "-="]), "1", Platform::OtherUnix));
    assert!(Options::can_parse(&args(&["-e", "-="]), "1", Platform::OtherUnix));
    assert!(Options::can_parse(&args(&["--", "-="]), "1", Platform::OtherUnix));
    assert!(Options::can_parse(&args(&["--help", "-="]), "1", Platform::OtherUnix));
    assert!(Options::can_parse(&args(&["--bogus", "-="]), "1", Platform::OtherUnix));
    assert!(Options::can_parse(&args(&["-T", "a", "-T", "b", "-="]), "1", Platform::OtherUnix));
    assert!(!Options::can_parse(&args(&["-qvTx", "-="]), "1", Platform::OtherUnix));
    assert!(!Options::can_parse(&args(&["-qT=x", "bare", "-="]), "1", Platform::OtherUnix));
    assert!(Options::can_parse(&args(&["-xT=x", "-="]), "1", Platform::OtherUnix));
    assert!(Options::can_parse(&args(&["-e"]), "1", Platform::OtherUnix));
}

#[test]
fn refused_command_lines_end_the_program() {
    let exit = early_exit(&parse(&["-V"]).unwrap_err());
    assert!(!exit.to_stderr);
    assert_eq!(exit.text, "alacritty 0.1.0");
    assert_eq!(exit.code, 0);

    let exit = early_exit(&CliError::Parse(ParseFailure::HelpRequested("help".to_owned())));
    assert!(!exit.to_stderr);
    assert_eq!((exit.text.as_str(), exit.code), ("help", 0));

    let exit = early_exit(&CliError::Value("bad".to_owned()));
    assert!(exit.to_stderr);
    assert_eq!((exit.text.as_str(), exit.code), ("error: bad", 2));

    let exit = early_exit(&CliError::Parse(ParseFailure::Invalid("worse".to_owned())));
    assert!(exit.to_stderr);
    assert_eq!((exit.text.as_str(), exit.code), ("error: worse", 2));
}

#[test]
fn arguments_become_options() {
    let arguments = Arguments {
        print_events: true,
        hold: false,
        daemon: false,
        working_directory: None,
        title: None,
        class: Some("x".to_owned()),
        option: vec!["a=1".to_owned(), "}".to_owned()],
        embed: None,
        config_file: None,
        socket: None,
    };
    let options = Options::from_arguments(arguments, args(&["sh"]), 1, 2, Platform::Windows).unwrap();
    assert!(options.print_events);
    assert_eq!((options.quiet, options.verbose), (1, 2));
    assert_eq!(options.window_options.option.len(), 2);
    assert_eq!(options.config_options.len(), 1);
    assert_eq!(options.window_options.window_identity.class.unwrap().general, "x");
}

#[test]
fn arguments_depend_on_the_system() {
    let parse = |tokens: &[&str], platform| {
        assert!(Options::can_parse(&args(tokens), "0.1.0", platform));
        Options::parse(args(tokens), "0.1.0", platform)
    };
    let embed = ["--embed", "7"];
    assert_eq!(parse(&embed, Platform::OtherUnix).unwrap().embed.as_deref(), Some("7"));
    assert!(parse(&embed, Platform::Macos).is_err());
    assert!(parse(&embed, Platform::Windows).is_err());

    let unix = ["--daemon", "--socket", "x"];
    for platform in [Platform::OtherUnix, Platform::Macos] {
        let options = parse(&unix, platform).unwrap();
        assert!(options.daemon());
        assert_eq!(options.socket.as_deref(), Some("x"));
        assert_eq!(options.platform, platform);
    }
    assert!(parse(&["--daemon"], Platform::Windows).is_err());
    assert!(parse(&["--socket", "x"], Platform::Windows).is_err());
    let options = parse(&["--hold"], Platform::Windows).unwrap();
    assert!(!options.daemon() && options.socket.is_none() && options.embed.is_none());

    // Only systems with X11 set the window to embed into.
    let mut config = UiConfig::default();
    config.window.embed = Some(3);
    options.override_config(&mut config);
    assert_eq!(config.window.embed, Some(3));

    // The reader follows the arguments of the system.
    let tokens = args(&["--socket", "-=", "--socket", "a", "-="]);
    assert!(!Options::can_parse(&args(&["--socket", "x", "-="]), "1", Platform::Macos));
    assert!(Options::can_parse(&tokens, "1", Platform::Macos));
    assert!(Options::can_parse(&args(&["--socket", "x", "-="]), "1", Platform::Windows));
}

#[test]
fn options_override_the_configuration() {
    let mut options = Options::default();
    options.embed = Some("0xa0".to_owned());
    options.print_events = true;
    let mut config = UiConfig::default();
    options.config_options = ParsedOptions::from_options(&args(&["window.dynamic_title=false"]));
    let pending = options.override_config(&mut config);
    assert_eq!(pending.len(), 1);
    assert!(config.window.dynamic_title);
    assert_eq!(config.window.embed, Some(160));
    assert!(config.debug.print_events);
    assert_eq!(config.debug.log_level, LevelFilter::Info);

    config.debug.log_level = LevelFilter::Trace;
    config.window.embed = Some(3);
    Options::default().override_config(&mut config);
    assert_eq!(config.debug.log_level, LevelFilter::Trace);
    assert_eq!(config.window.embed, None);
}

#[test]
fn command_becomes_a_program() {
    let mut options = TerminalOptions::default();
    assert!(options.command().is_none());
    options.command = args(&["vi", "-R", "file"]);
    match options.command() {
        Some(Program::WithArgs { program, args }) => {
            assert_eq!(program, "vi");
            assert_eq!(args, ["-R", "file"]);
        },
        _ => panic!("no program"),
    }
}

#[test]
fn terminal_options_override_the_pty() {
    let options = TerminalOptions {
        working_directory: Some("/srv".to_owned()),
        hold: true,
        command: args(&["sh", "-c", "ls"]),
    };
    let mut pty = PtyOptions::default();
    pty.working_directory = Some("/home".to_owned());
    assert!(options.override_pty_config(&mut pty, false));
    assert_eq!(pty.working_directory.as_deref(), Some("/home"));
    assert!(!options.override_pty_config(&mut pty, true));
    assert_eq!(pty.working_directory.as_deref(), Some("/srv"));
    assert!(pty.drain_on_exit);
    let shell = pty.shell.unwrap();
    assert_eq!(shell.program, "sh");
    assert_eq!(shell.args, ["-c", "ls"]);

    let mut pty = PtyOptions::default();
    pty.shell = Some(Shell::new("zsh".to_owned(), vec![]));
    pty.drain_on_exit = true;
    assert!(!TerminalOptions::default().override_pty_config(&mut pty, true));
    assert_eq!(pty.shell.unwrap().program, "zsh");
    assert!(pty.drain_on_exit);
}

#[test]
fn terminal_options_become_pty_options() {
    let pty = PtyOptions::from(TerminalOptions {
        working_directory: Some("/srv".to_owned()),
        hold: true,
        command: args(&["top"]),
    });
    assert_eq!(pty.working_directory.as_deref(), Some("/srv"));
    assert_eq!(pty.shell.unwrap().program, "top");
    assert!(pty.drain_on_exit);
    assert!(pty.env.is_empty());
    assert!(!pty.escape_args);
    assert!(PtyOptions::from(TerminalOptions::default()).shell.is_none());
}

#[test]
fn identity_is_overridden_field_by_field() {
    let mut identity = Identity::default();
    WindowIdentity { title: Some("x".to_owned()), class: None }
        .override_identity_config(&mut identity);
    assert_eq!(identity.title, "x");
    assert_eq!(identity.class.general, "Alacritty");
    WindowIdentity { title: None, class: Some(Class::new("g", "i")) }
        .override_identity_config(&mut identity);
    assert_eq!(identity.title, "x");
    assert_eq!(identity.class.general, "g");
    assert_eq!(identity.class.instance, "i");
}

#[test]
fn invalid_overrides_are_ignored_and_named() {
    let (parsed, warnings) =
        ParsedOptions::from_options_with_warnings(&args(&["a=1", "}", "b=2"]));
    assert_eq!(parsed.len(), 2);
    assert_eq!(parsed.config_options[1].0, "b=2");
    assert_eq!(warnings.len(), 1);
    assert!(warnings[0].starts_with("Ignoring invalid CLI option '}': "));

    let mut options = WindowOptions::default();
    assert!(options.config_overrides().is_empty());
    options.option = args(&["a=1"]);
    let overrides = options.config_overrides();
    let mut table = Table::new();
    table.insert("a".to_owned(), Value::Integer(1));
    assert_eq!(overrides.config_options[0].1, Value::Table(table));
}

#[test]
fn broken_overrides_are_removed() {
    let mut parsed = ParsedOptions::from_options(&args(&["a=1", "b=2", "c=3"]));
    parsed.override_config(&vec![true, false, true]);
    assert_eq!(parsed.len(), 2);
    assert_eq!(parsed.config_options[0].0, "a=1");
    assert_eq!(parsed.config_options[1].0, "c=3");
    parsed.override_config(&vec![true, true]);
    assert_eq!(parsed.len(), 2);

    let mut other = ParsedOptions::from_options(&args(&["d=4"]));
    other.merge(&parsed);
    assert_eq!(other.len(), 3);
    assert_eq!(other.config_options[2].0, "c=3");
    assert!(ParsedOptions::default().is_empty());
}
