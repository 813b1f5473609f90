//! What is logged, and what of it the user gets to see.

use crate::config::LevelFilter;
use crate::text::{
    join, split_filled, starts_with, strip_prefix, text_lossy, trim, write_decimal,
};
use vstd::prelude::*;
use vstd::string::*;

verus! {

broadcast use vstd::string::group_string_axioms;

/// Logging target for IPC config error messages.
pub fn log_target_ipc_config() -> (target: String)
    ensures
        target@ == "alacritty_log_window_config"@,
{
    "alacritty_log_window_config".to_owned()
}

/// Logging target for config error messages.
pub fn log_target_config() -> (target: String)
    ensures
        target@ == "alacritty_config_derive"@,
{
    "alacritty_config_derive".to_owned()
}

/// Logging target for window events.
pub fn log_target_winit() -> (target: String)
    ensures
        target@ == "alacritty_winit_event"@,
{
    "alacritty_winit_event".to_owned()
}

/// User configurable extra log targets: the value of `ALACRITTY_EXTRA_LOG_TARGETS`, split at
/// semicolons.
pub fn extra_log_targets(variable: Option<String>) -> (targets: Vec<String>)
    ensures
        crate::text::texts(targets@) == (match variable {
            Some(value) => crate::text::filled_parts(value@, ';', 0),
            None => Seq::empty(),
        }),
{
    match variable {
        Some(value) => split_filled(value.as_str(), ';'),
        None => {
            let targets: Vec<String> = Vec::new();
            assert(crate::text::texts(targets@) =~= Seq::empty());
            targets
        },
    }
}

/// All targets that are logged: the own ones, and those that the user asks for.
pub fn allowed_targets(extra: Vec<String>) -> (targets: Vec<String>)
    ensures
        crate::text::texts(targets@) == seq!["alacritty"@, "crossfont"@] + crate::text::texts(
            extra@,
        ),
{
    let mut targets: Vec<String> = Vec::new();
    targets.push("alacritty".to_owned());
    targets.push("crossfont".to_owned());
    let mut extra = extra;
    let ghost more = extra@;
    targets.append(&mut extra);
    assert(crate::text::texts(targets@) =~= seq!["alacritty"@, "crossfont"@] + crate::text::texts(
        more,
    ));
    targets
}

/// A level of the logger, which has none for silence.
#[derive(Clone, Copy, Debug, PartialEq, Eq, Structural)]
pub enum LogLevel {
    Error,
    Warn,
    Info,
    Debug,
    Trace,
}

/// The level of the logger for a filter.
pub open spec fn logger_level(level: LevelFilter) -> Option<LogLevel> {
    match level {
        LevelFilter::Off => None,
        LevelFilter::Error => Some(LogLevel::Error),
        LevelFilter::Warn => Some(LogLevel::Warn),
        LevelFilter::Info => Some(LogLevel::Info),
        LevelFilter::Debug => Some(LogLevel::Debug),
        LevelFilter::Trace => Some(LogLevel::Trace),
    }
}

/// The level of the logger for a filter; nothing where all is silent.
pub fn nano_level(level: LevelFilter) -> (logger: Option<LogLevel>)
    ensures
        logger == logger_level(level),
{
    match level {
        LevelFilter::Off => None,
        LevelFilter::Error => Some(LogLevel::Error),
        LevelFilter::Warn => Some(LogLevel::Warn),
        LevelFilter::Info => Some(LogLevel::Info),
        LevelFilter::Debug => Some(LogLevel::Debug),
        LevelFilter::Trace => Some(LogLevel::Trace),
    }
}

/// The level that the logger starts with.
pub fn initial_level(level: LevelFilter) -> (logger: LogLevel)
    ensures
        logger == (match logger_level(level) {
            Some(logger) => logger,
            None => LogLevel::Error,
        }),
{
    match nano_level(level) {
        Some(logger) => logger,
        None => LogLevel::Error,
    }
}

/// How serious a message is.
#[derive(Clone, Copy, Debug, PartialEq, Eq, Structural)]
pub enum MessageType {
    Error,
    Warning,
}

/// A message for the user.
#[derive(Debug)]
pub struct Message {
    pub text: String,
    pub ty: MessageType,
}

/// The mark that a line of the log begins with, for lines that the user gets to see.
pub open spec fn severity(line: Seq<char>) -> Option<(Seq<char>, MessageType)> {
    if crate::text::begins_with(line, "[ERROR]"@) {
        Some(("[ERROR]"@, MessageType::Error))
    } else if crate::text::begins_with(line, "[WARN]"@) {
        Some(("[WARN]"@, MessageType::Warning))
    } else {
        None
    }
}

/// The name of the variable that holds the path of the log, as a shell writes it.
pub open spec fn log_variable(windows: bool) -> Seq<char> {
    if windows {
        "%ALACRITTY_LOG%"@
    } else {
        "$ALACRITTY_LOG"@
    }
}

/// Whether a text is what a message says about a line of the log, which begins with a mark.
pub open spec fn is_notice(
    text: Seq<char>,
    mark: Seq<char>,
    line: Seq<char>,
    path: Seq<char>,
    windows: bool,
) -> bool {
    exists|trimmed: Seq<char>, start: int, end: int|
        #![trigger crate::text::is_trimmed(
            trimmed,
            crate::text::without_first(line, mark.len() as int),
            start,
            end,
        )]
        crate::text::is_trimmed(
            trimmed,
            crate::text::without_first(line, mark.len() as int),
            start,
            end,
        ) && text == mark + " "@ + trimmed + "\nSee log at "@ + path + " ("@ + log_variable(windows)
            + ")"@
}

/// The part of the log that goes to the user.
#[derive(Debug)]
pub struct MessageBarWriter {
    pub logfile_path: String,
    /// Whether variables are written as on Windows.
    pub windows: bool,
}

impl MessageBarWriter {
    pub fn new(logfile_path: String, windows: bool) -> (writer: MessageBarWriter)
        ensures
            writer.logfile_path == logfile_path,
            writer.windows == windows,
    {
        MessageBarWriter { logfile_path, windows }
    }

    /// The message that a line of the log becomes: errors and warnings do, nothing else.
    pub fn message_for(&self, line: &str) -> (message: Option<Message>)
        ensures
            match severity(line@) {
                None => message is None,
                Some((mark, ty)) => {
                    &&& message matches Some(message)
                    &&& message.ty == ty
                    &&& is_notice(message.text@, mark, line@, self.logfile_path@, self.windows)
                },
            },
    {
        let (mark, ty) = if starts_with(line, "[ERROR]") {
            ("[ERROR]", MessageType::Error)
        } else if starts_with(line, "[WARN]") {
            ("[WARN]", MessageType::Warning)
        } else {
            return None;
        };
        let rest = match strip_prefix(line, mark) {
            Some(rest) => rest,
            None => line.to_owned(),
        };
        let trimmed = trim(rest.as_str());
        let variable = if self.windows {
            "%ALACRITTY_LOG%"
        } else {
            "$ALACRITTY_LOG"
        };
        let text = join(mark, " ");
        let text = join(text.as_str(), trimmed.as_str());
        let text = join(text.as_str(), "\nSee log at ");
        let text = join(text.as_str(), self.logfile_path.as_str());
        let text = join(text.as_str(), " (");
        let text = join(text.as_str(), variable);
        let text = join(text.as_str(), ")");
        proof {
            let (start, end) = choose|start: int, end: int| #[trigger]
                crate::text::is_trimmed(trimmed@, rest@, start, end);
            assert(crate::text::is_trimmed(
                trimmed@,
                crate::text::without_first(line@, mark@.len() as int),
                start,
                end,
            ));
        }
        Some(Message { text, ty })
    }

    /// Take bytes of the log: all of them are taken, and may become a message.
    pub fn write(&self, buf: &[u8]) -> (result: (usize, Option<Message>))
        ensures
            result.0 == buf@.len(),
            match severity(crate::text::lossy_text(buf@)) {
                None => result.1 is None,
                Some((mark, ty)) => {
                    &&& result.1 matches Some(message)
                    &&& message.ty == ty
                    &&& is_notice(
                        message.text@,
                        mark,
                        crate::text::lossy_text(buf@),
                        self.logfile_path@,
                        self.windows,
                    )
                },
            },
    {
        let line = text_lossy(buf);
        (buf.len(), self.message_for(line.as_str()))
    }
}

/// The file name of the log of the process `pid`.
pub fn log_name(pid: u32) -> (name: String)
    ensures
        name@ == "Alacritty-"@ + crate::text::decimal(pid as nat) + ".log"@,
{
    let number = write_decimal(pid as u64);
    join(join("Alacritty-", number.as_str()).as_str(), ".log")
}

/// A log file that is made when something is written to it.
#[derive(Debug)]
pub struct OnDemandLogFile {
    pub path: String,
    /// Whether the file is open.
    pub open: bool,
}

impl OnDemandLogFile {
    /// Whether `after` is the log file once somebody has looked whether it must be made.
    pub open spec fn checked(self, exists: bool, after: OnDemandLogFile, create: bool) -> bool {
        &&& create == !(self.open && exists)
        &&& after.open == !create
        &&& after.path == self.path
    }

    /// Whether `after` is the log file once somebody has tried to make it.
    pub open spec fn made(self, success: bool, after: OnDemandLogFile) -> bool {
        &&& after.open == (self.open || success)
        &&& after.path == self.path
    }

    pub fn new(path: String) -> (file: OnDemandLogFile)
        ensures
            file.path == path,
            !file.open,
    {
        OnDemandLogFile { path, open: false }
    }

    /// Whether the file must be made before something is written: the first time, and where it was
    /// deleted at runtime. `exists` says whether there is a file at the path.
    pub fn must_create(&mut self, exists: bool) -> (create: bool)
        ensures
            old(self).checked(exists, *final(self), create),
    {
        if self.open && !exists {
            self.open = false;
        }
        !self.open
    }

    /// The file was made or not; the text says so.
    pub fn created(&mut self, result: &Result<(), String>) -> (notice: String)
        ensures
            old(self).made(result is Ok, *final(self)),
            notice@ == (match result {
                Ok(_) => "Created log file at \""@ + old(self).path@ + "\""@,
                Err(error) => "Unable to create log file: "@ + error@,
            }),
    {
        match result {
            Ok(_) => {
                self.open = true;
                join(join("Created log file at \"", self.path.as_str()).as_str(), "\"")
            },
            Err(error) => join("Unable to create log file: ", error.as_str()),
        }
    }
}

/// How much a level of the logger lets through.
pub open spec fn loudness(level: LogLevel) -> int {
    match level {
        LogLevel::Error => 1,
        LogLevel::Warn => 2,
        LogLevel::Info => 3,
        LogLevel::Debug => 4,
        LogLevel::Trace => 5,
    }
}

/// The logger follows the filter: it is silent only where the filter is off, and lets exactly as much
/// through as the filter asks for, so that a filter for more never logs less.
pub proof fn logger_follows_the_filter(level: LevelFilter, other: LevelFilter)
    ensures
        logger_level(level) is None <==> level is Off,
        logger_level(level) matches Some(logger) ==> loudness(logger) == level.rank(),
        logger_level(level) is Some && logger_level(other) is Some ==> (loudness(
            logger_level(level)->0,
        ) < loudness(logger_level(other)->0) <==> level.rank() < other.rank()),
        logger_level(level) == logger_level(other) <==> level == other,
        logger_level(LevelFilter::Warn) == Some(LogLevel::Warn),
        logger_level(LevelFilter::Info) == Some(LogLevel::Info),
{
}

/// Errors and warnings reach the user, and are told apart; nothing else does.
pub proof fn problems_reach_the_user(line: Seq<char>, rest: Seq<char>)
    ensures
        severity("[ERROR]"@ + rest) matches Some((mark, ty)) && ty is Error && mark == "[ERROR]"@,
        severity("[WARN]"@ + rest) matches Some((mark, ty)) && ty is Warning && mark == "[WARN]"@,
        severity(line) is Some ==> line.len() >= 6 && line[0] == '[' && (line[1] == 'E' || line[1]
            == 'W'),
{
    reveal_strlit("[ERROR]");
    reveal_strlit("[WARN]");
    let error = "[ERROR]"@ + rest;
    let warning = "[WARN]"@ + rest;
    assert(error.subrange(0, 7) =~= "[ERROR]"@);
    assert(warning.subrange(0, 6) =~= "[WARN]"@);
    if crate::text::begins_with(warning, "[ERROR]"@) {
        assert(warning.subrange(0, 7)[1] == 'E');
        assert(warning[1] == 'E');
    }
    if crate::text::begins_with(line, "[ERROR]"@) {
        assert(line.subrange(0, 7)[0] == '[' && line.subrange(0, 7)[1] == 'E');
    }
    if crate::text::begins_with(line, "[WARN]"@) {
        assert(line.subrange(0, 6)[0] == '[' && line.subrange(0, 6)[1] == 'W');
    }
}

/// A log file is made before the first line and not again while it is there; one that was deleted is
/// made anew, and one that could not be made is tried again.
pub proof fn log_file_is_made_when_it_is_missing(
    file: OnDemandLogFile,
    looked: OnDemandLogFile,
    made: OnDemandLogFile,
    again: OnDemandLogFile,
    exists: bool,
    create: bool,
    success: bool,
    still_exists: bool,
    recreate: bool,
)
    requires
        file.checked(exists, looked, create),
        looked.made(success, made),
        made.checked(still_exists, again, recreate),
    ensures
        !file.open ==> create,
        !exists ==> create,
        file.open && exists ==> !create && looked.open,
        create && success ==> (recreate <==> !still_exists),
        create && !success ==> recreate,
        again.path == file.path,
{
}

/// A message repeats its line: it says how serious the matter is, then what the line says without the
/// white space around it, and where the log is. The path stands before the closing part, which is the
/// variable as the system writes it.
pub proof fn notices_repeat_their_line(
    text: Seq<char>,
    mark: Seq<char>,
    said: Seq<char>,
    spaces: Seq<char>,
    more_spaces: Seq<char>,
    path: Seq<char>,
    windows: bool,
)
    requires
        is_notice(text, mark, mark + spaces + said + more_spaces, path, windows),
        forall|i: int| 0 <= i < spaces.len() ==> crate::text::is_space(#[trigger] spaces[i]),
        forall|i: int|
            0 <= i < more_spaces.len() ==> crate::text::is_space(#[trigger] more_spaces[i]),
        said.len() > 0,
        !crate::text::is_space(said[0]),
        !crate::text::is_space(said.last()),
    ensures
        crate::text::begins_with(text, mark + " "@ + said + "\nSee log at "@ + path + " ("@),
{
    let line = mark + spaces + said + more_spaces;
    let rest = crate::text::without_first(line, mark.len() as int);
    assert(rest =~= spaces + said + more_spaces);
    let (trimmed, start, end) = choose|trimmed: Seq<char>, start: int, end: int|
        #![trigger crate::text::is_trimmed(
            trimmed,
            crate::text::without_first(line, mark.len() as int),
            start,
            end,
        )]
        crate::text::is_trimmed(
            trimmed,
            crate::text::without_first(line, mark.len() as int),
            start,
            end,
        ) && text == mark + " "@ + trimmed + "\nSee log at "@ + path + " ("@ + log_variable(windows)
            + ")"@;
    let first = spaces.len() as int;
    let last = spaces.len() + said.len() - 1;
    assert(rest[first] == said[0]);
    assert(rest[last] == said.last());
    assert(start <= first);
    assert(end > last);
    if start < first {
        assert(rest[start] == spaces[start]);
        assert(crate::text::is_space(rest[start]));
    }
    if end > last + 1 {
        assert(rest[end - 1] == more_spaces[end - 1 - last - 1]);
        assert(crate::text::is_space(rest[end - 1]));
    }
    assert(trimmed =~= said);
    let shown = mark + " "@ + said + "\nSee log at "@ + path + " ("@;
    assert(text.subrange(0, shown.len() as int) =~= shown);
}

} // verus!
