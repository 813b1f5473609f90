//! The configuration: where it comes from and what the command line can override in it.

use crate::cli::Options;
use crate::text::{chars_of, join, string_of};
use crate::toml_value::parse_toml;
use general::General;
use toml::Value;
use vstd::prelude::*;
use vstd::string::*;

pub mod general;
pub mod monitor;

verus! {

broadcast use vstd::string::group_string_axioms;

/// The least severe messages that are logged.
#[derive(Clone, Copy, Debug, PartialEq, Eq, Structural)]
pub enum LevelFilter {
    Off,
    Error,
    Warn,
    Info,
    Debug,
    Trace,
}

impl LevelFilter {
    /// How much is logged.
    pub open spec fn rank(self) -> int {
        match self {
            LevelFilter::Off => 0,
            LevelFilter::Error => 1,
            LevelFilter::Warn => 2,
            LevelFilter::Info => 3,
            LevelFilter::Debug => 4,
            LevelFilter::Trace => 5,
        }
    }

    fn number(self) -> (number: u8)
        ensures
            number == self.rank(),
    {
        match self {
            LevelFilter::Off => 0,
            LevelFilter::Error => 1,
            LevelFilter::Warn => 2,
            LevelFilter::Info => 3,
            LevelFilter::Debug => 4,
            LevelFilter::Trace => 5,
        }
    }

    /// The filter of the two that logs more.
    pub fn or_more(self, other: LevelFilter) -> (most: LevelFilter)
        ensures
            most == self || most == other,
            most.rank() >= self.rank(),
            most.rank() >= other.rank(),
    {
        if self.number() < other.number() {
            other
        } else {
            self
        }
    }
}

/// The class of a window.
#[derive(Debug)]
pub struct Class {
    pub general: String,
    pub instance: String,
}

impl Class {
    pub fn new(general: &str, instance: &str) -> (class: Class)
        ensures
            class.general@ == general@,
            class.instance@ == instance@,
    {
        Class { general: general.to_owned(), instance: instance.to_owned() }
    }
}

impl Clone for Class {
    fn clone(&self) -> (copy: Class)
        ensures
            copy == *self,
    {
        Class { general: self.general.clone(), instance: self.instance.clone() }
    }
}

/// The title and the class of a window.
#[derive(Debug)]
pub struct Identity {
    pub title: String,
    pub class: Class,
}

impl Clone for Identity {
    fn clone(&self) -> (copy: Identity)
        ensures
            copy == *self,
    {
        Identity { title: self.title.clone(), class: self.class.clone() }
    }
}

impl Default for Identity {
    fn default() -> (identity: Identity)
        ensures
            identity.title@ == "Alacritty"@,
            identity.class.general@ == "Alacritty"@,
            identity.class.instance@ == "Alacritty"@,
    {
        Identity { title: "Alacritty".to_owned(), class: Class::new("Alacritty", "Alacritty") }
    }
}

/// A program and its arguments.
#[derive(Debug)]
pub enum Program {
    Just(String),
    WithArgs { program: String, args: Vec<String> },
}

/// The settings of the window.
#[derive(Debug)]
pub struct WindowConfig {
    /// The window to embed into.
    pub embed: Option<u32>,
    pub identity: Identity,
    /// Whether programs can change the title.
    pub dynamic_title: bool,
}

impl Default for WindowConfig {
    fn default() -> (window: WindowConfig)
        ensures
            window.embed is None,
            window.identity.title@ == "Alacritty"@,
            window.identity.class.general@ == "Alacritty"@,
            window.identity.class.instance@ == "Alacritty"@,
            window.dynamic_title,
    {
        WindowConfig { embed: None, identity: Identity::default(), dynamic_title: true }
    }
}

/// The settings for debugging.
#[derive(Clone, Copy, Debug, PartialEq, Eq, Structural)]
pub struct DebugConfig {
    pub print_events: bool,
    pub log_level: LevelFilter,
}

impl Default for DebugConfig {
    fn default() -> (debug: DebugConfig)
        ensures
            debug == (DebugConfig { print_events: false, log_level: LevelFilter::Warn }),
    {
        DebugConfig { print_events: false, log_level: LevelFilter::Warn }
    }
}

/// The part of the configuration that the command line and the start of the program need.
#[derive(Debug)]
pub struct UiConfig {
    pub general: General,
    pub window: WindowConfig,
    pub debug: DebugConfig,
    /// The files that the configuration comes from.
    pub config_paths: Vec<String>,
}

impl UiConfig {
    /// Whether this is the configuration of someone who has not configured anything.
    pub open spec fn is_default(self) -> bool {
        &&& self.general.working_directory is None
        &&& self.general.ipc_socket
        &&& self.window.embed is None
        &&& self.window.identity.title@ == "Alacritty"@
        &&& self.window.identity.class.general@ == "Alacritty"@
        &&& self.window.identity.class.instance@ == "Alacritty"@
        &&& self.window.dynamic_title
        &&& self.debug == (DebugConfig { print_events: false, log_level: LevelFilter::Warn })
    }
}

impl Default for UiConfig {
    fn default() -> (config: UiConfig)
        ensures
            config.is_default(),
            config.config_paths@.len() == 0,
    {
        UiConfig {
            general: General::default(),
            window: WindowConfig::default(),
            debug: DebugConfig::default(),
            config_paths: Vec::new(),
        }
    }
}

/// Errors occurring during config loading.
#[derive(Debug)]
pub enum Error {
    /// I/O error reading the configuration file.
    Io { not_found: bool, text: String },
    /// Invalid TOML.
    Toml(String),
}

impl Error {
    /// What the error says.
    pub open spec fn text(self) -> Seq<char> {
        match self {
            Error::Io { text, .. } => "Error reading config file: "@ + text@,
            Error::Toml(text) => "Config error: "@ + text@,
        }
    }

    /// Describe the error.
    pub fn message(&self) -> (message: String)
        ensures
            message@ == self.text(),
    {
        match self {
            Error::Io { text, .. } => join("Error reading config file: ", text.as_str()),
            Error::Toml(text) => join("Config error: ", text.as_str()),
        }
    }
}

/// What is logged about a configuration file that cannot be loaded; `path` is the quoted path.
pub open spec fn load_failure_text(path: Seq<char>, error: Error) -> Seq<char> {
    "Unable to load config "@ + path + ": "@ + match error {
        Error::Io { not_found: true, .. } => "File not found"@,
        _ => error.text(),
    }
}

/// Describe why a configuration file cannot be loaded.
pub fn load_failure(path: &str, error: &Error) -> (message: String)
    ensures
        message@ == load_failure_text(path@, *error),
{
    let start = join(join("Unable to load config ", path).as_str(), ": ");
    match error {
        Error::Io { not_found: true, .. } => join(start.as_str(), "File not found"),
        _ => {
            let text = error.message();
            join(start.as_str(), text.as_str())
        },
    }
}

/// The contents of a file without the byte order mark that may stand in front of them.
pub open spec fn without_mark(contents: Seq<char>) -> Seq<char> {
    if contents.len() > 0 && contents[0] == '\u{FEFF}' {
        crate::text::without_first(contents, 1)
    } else {
        contents
    }
}

/// Drop the byte order mark of a file.
pub fn strip_mark(contents: &str) -> (text: String)
    ensures
        text@ == without_mark(contents@),
{
    let chars = chars_of(contents);
    if chars.len() > 0 && chars[0] == '\u{FEFF}' {
        string_of(&chars, 1, chars.len())
    } else {
        contents.to_owned()
    }
}

/// Read the TOML of a configuration file.
pub fn read_config(contents: &str) -> (value: Result<Value, Error>)
    ensures
        match crate::toml_value::toml_outcome(without_mark(contents@)) {
            Ok(expected) => value == Ok::<Value, Error>(expected),
            Err(text) => value matches Err(Error::Toml(message)) && message@ == text,
        },
{
    let text = strip_mark(contents);
    match parse_toml(text.as_str()) {
        Ok(value) => Ok(value),
        Err(error) => Err(Error::Toml(error)),
    }
}

/// The default name of the configuration file.
pub fn installed_config_name(suffix: &str) -> (name: String)
    ensures
        name@ == "alacritty."@ + suffix@,
{
    join("alacritty.", suffix)
}

/// The configuration file that is loaded: the one on the command line, or else the installed one.
pub fn config_path(options: &Options, installed: Option<String>) -> (path: Option<String>)
    ensures
        path == (if options.config_file is Some {
            options.config_file
        } else {
            installed
        }),
{
    match &options.config_file {
        Some(path) => Some(path.clone()),
        None => installed,
    }
}

/// The outcome of reading a configuration file.
#[derive(Debug)]
pub struct ReadConfig {
    pub path: String,
    /// The configuration with that path among its paths, or the error.
    pub config: Result<UiConfig, Error>,
}

/// The configuration that is used before the command line overrides it, if the program goes on:
/// it ends where a file that the command line names cannot be loaded.
pub fn chosen_config(explicit: bool, read: Option<ReadConfig>) -> (config: Option<UiConfig>)
    ensures
        match read {
            None => config matches Some(config) && config.is_default() && config.config_paths@.len()
                == 0,
            Some(read) => match read.config {
                Ok(loaded) => config == Some(loaded),
                Err(_) => if explicit {
                    config is None
                } else {
                    &&& config matches Some(config)
                    &&& config.is_default()
                    &&& crate::text::texts(config.config_paths@) == seq![read.path@]
                },
            },
        },
{
    match read {
        None => Some(UiConfig::default()),
        Some(read) => match read.config {
            Ok(loaded) => Some(loaded),
            Err(_) => {
                if explicit {
                    return None;
                }
                let mut config = UiConfig::default();
                config.config_paths.push(read.path);
                assert(crate::text::texts(config.config_paths@) =~= seq![read.path@]);
                Some(config)
            },
        },
    }
}

/// Load the configuration: choose it, then let the command line override it. There is none where
/// the program must end because a file that the command line names cannot be loaded.
///
/// The config overrides of the command line are applied by the caller.
pub fn load(options: &Options, read: Option<ReadConfig>) -> (config: Option<UiConfig>)
    ensures
        config is None <==> options.config_file is Some && read is Some && read->0.config is Err,
        config matches Some(config) ==> {
            match read {
                None => {
                    exists|base: UiConfig| #[trigger]
                        base.is_default() && base.config_paths@.len() == 0
                            && options.overridden(base, config)
                },
                Some(read) => match read.config {
                    Ok(loaded) => options.overridden(loaded, config),
                    Err(_) => exists|base: UiConfig| #[trigger]
                        base.is_default() && crate::text::texts(base.config_paths@) == seq![
                            read.path@,
                        ] && options.overridden(base, config),
                },
            }
        },
{
    match chosen_config(options.config_file.is_some(), read) {
        None => None,
        Some(mut config) => {
            let ghost base = config;
            options.override_config(&mut config);
            assert(options.overridden(base, config));
            Some(config)
        },
    }
}

/// A byte order mark is dropped once, and text without one is kept.
pub proof fn only_the_mark_is_dropped(contents: Seq<char>)
    ensures
        without_mark(seq!['\u{FEFF}'] + contents) == contents,
        contents.len() == 0 || contents[0] != '\u{FEFF}' ==> without_mark(contents) == contents,
{
    let marked = seq!['\u{FEFF}'] + contents;
    assert(marked.len() == contents.len() + 1);
    assert(marked[0] == '\u{FEFF}');
    assert(crate::text::without_first(marked, 1) =~= contents);
}

/// A failure names the file and says what is wrong with it: the text of the error stands at its end,
/// unless the file is not there.
pub proof fn failures_name_the_file(path: Seq<char>, error: Error)
    ensures
        ({
            let shown = load_failure_text(path, error);
            let detail = match error {
                Error::Io { text, .. } => text@,
                Error::Toml(text) => text@,
            };
            &&& crate::text::begins_with(shown, "Unable to load config "@ + path + ": "@)
            &&& detail.len() <= error.text().len()
            &&& error.text().skip(error.text().len() - detail.len()) == detail
            &&& error is Toml || !error->not_found ==> error.text().len() <= shown.len()
                && shown.skip(shown.len() - error.text().len()) == error.text()
        }),
{
    let shown = load_failure_text(path, error);
    let start = "Unable to load config "@ + path + ": "@;
    let detail = match error {
        Error::Io { text, .. } => text@,
        Error::Toml(text) => text@,
    };
    assert(shown.subrange(0, start.len() as int) =~= start);
    assert(error.text().skip(error.text().len() - detail.len()) =~= detail);
    if error is Toml || !error->not_found {
        assert(shown.skip(shown.len() - error.text().len()) =~= error.text());
    }
}

} // verus!
