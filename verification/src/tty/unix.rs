//! The shell of a user, and the process that runs in a pseudoterminal on Unix.

use crate::cli::tokens::parse_decimal;
use crate::text::{chars_of, field_of, join, split_lines, string_of, strings_from, write_decimal};
use crate::tty::pipe::{Interest, PollMode};
use crate::tty::{ChildEvent, Options};
use vstd::prelude::*;
use vstd::string::*;

verus! {

broadcast use vstd::string::group_string_axioms;

/// Interest in PTY read/writes.
pub const PTY_READ_WRITE_TOKEN: usize = 0;

/// Interest in new child events.
pub const PTY_CHILD_EVENT_TOKEN: usize = 1;

/// What the password database knows about a user.
#[derive(Debug)]
pub struct Passwd {
    pub name: String,
    pub dir: String,
    pub shell: String,
}

/// Whether a line of the password database is about a user: a user who is not commented out and
/// has the given number.
pub open spec fn is_entry(line: Seq<char>, uid: u32) -> bool {
    &&& line.len() > 0
    &&& line[0] != '#'
    &&& crate::cli::tokens::number(crate::text::field(line, ':', 2), 10) == Some(uid as int)
}

/// The first line at or after `from` that is about a user.
pub open spec fn entry_at(lines: Seq<Seq<char>>, uid: u32, from: int) -> Option<int>
    decreases lines.len() - from,
{
    if from < 0 || from >= lines.len() {
        None
    } else if is_entry(lines[from], uid) {
        Some(from)
    } else {
        entry_at(lines, uid, from + 1)
    }
}

/// Whether `entry` is what the lines of the password database say about a user.
pub open spec fn entry_found(
    lines: Seq<Seq<char>>,
    uid: u32,
    entry: Result<Passwd, String>,
) -> bool {
    match entry_at(lines, uid, 0) {
        Some(at) => {
            &&& entry matches Ok(entry)
            &&& entry.name@ == crate::text::field(lines[at], ':', 0)
            &&& entry.dir@ == crate::text::field(lines[at], ':', 5)
            &&& entry.shell@ == crate::text::field(lines[at], ':', 6)
        },
        None => entry matches Err(message) && message@ == "pw not found"@,
    }
}

/// Find a user in the password database.
pub fn get_pw_entry(passwd: &str, uid: u32) -> (entry: Result<Passwd, String>)
    ensures
        entry_found(crate::text::lines(passwd@, 0), uid, entry),
{
    let lines = split_lines(passwd);
    let ghost all = crate::text::texts(lines@);
    let mut index: usize = 0;
    while index < lines.len()
        invariant
            index <= lines@.len(),
            all == crate::text::texts(lines@),
            all == crate::text::lines(passwd@, 0),
            entry_at(all, uid, 0) == entry_at(all, uid, index as int),
        decreases lines@.len() - index,
    {
        let line = lines[index].as_str();
        assert(all[index as int] == line@);
        let ghost at = index as int;
        index += 1;
        let chars = chars_of(line);
        if chars.len() == 0 || chars[0] == '#' {
            continue;
        }
        let uid_field = field_of(line, ':', 2);
        if let Some(number) = parse_decimal(uid_field.as_str()) {
            if number == uid {
                assert(is_entry(all[at], uid));
                return Ok(
                    Passwd {
                        name: field_of(line, ':', 0),
                        dir: field_of(line, ':', 5),
                        shell: field_of(line, ':', 6),
                    },
                );
            }
        }
    }
    Err("pw not found".to_owned())
}

/// User information that is required for a new shell session.
#[derive(Debug)]
pub struct ShellUser {
    pub user: String,
    pub home: String,
    pub shell: String,
}

/// A value from the environment, or else from the password database.
pub open spec fn or_entry(variable: Option<String>, entry: Seq<char>) -> Seq<char> {
    match variable {
        Some(value) => value@,
        None => entry,
    }
}

impl ShellUser {
    /// Whether `result` is what the environment and the password database say about the user.
    pub open spec fn found(
        user: Option<String>,
        home: Option<String>,
        shell: Option<String>,
        pw: Result<Passwd, String>,
        result: Result<ShellUser, String>,
    ) -> bool {
        match pw {
            Ok(pw) => {
                &&& result matches Ok(result)
                &&& result.user@ == or_entry(user, pw.name@)
                &&& result.home@ == or_entry(home, pw.dir@)
                &&& result.shell@ == or_entry(shell, pw.shell@)
            },
            Err(error) => if user is Some && home is Some && shell is Some {
                &&& result matches Ok(result)
                &&& result.user == user->0
                &&& result.home == home->0
                &&& result.shell == shell->0
            } else {
                result == Err::<ShellUser, String>(error)
            },
        }
    }

    /// Take the user, the home directory and the shell from the environment variables `USER`,
    /// `HOME` and `SHELL`, and each that is not there from the password database.
    pub fn from_env(
        user: Option<String>,
        home: Option<String>,
        shell: Option<String>,
        pw: Result<Passwd, String>,
    ) -> (result: Result<ShellUser, String>)
        ensures
            ShellUser::found(user, home, shell, pw, result),
    {
        match pw {
            Ok(pw) => Ok(
                ShellUser {
                    user: match user {
                        Some(user) => user,
                        None => pw.name,
                    },
                    home: match home {
                        Some(home) => home,
                        None => pw.dir,
                    },
                    shell: match shell {
                        Some(shell) => shell,
                        None => pw.shell,
                    },
                },
            ),
            Err(error) => match (user, home, shell) {
                (Some(user), Some(home), Some(shell)) => Ok(ShellUser { user, home, shell }),
                _ => Err(error),
            },
        }
    }
}

/// A program and its arguments.
#[derive(Debug)]
pub struct ShellCommand {
    pub program: String,
    pub args: Vec<String>,
}

/// The command that starts the shell of a user.
pub fn default_shell_command(shell: &str) -> (command: ShellCommand)
    ensures
        command.program@ == shell@,
        command.args@.len() == 0,
{
    ShellCommand { program: shell.to_owned(), args: Vec::new() }
}

/// The part of a path after its last slash.
pub open spec fn base_name(path: Seq<char>) -> Seq<char>
    decreases path.len(),
{
    match crate::text::first_at(path, '/', 0) {
        Some(at) => if 0 <= at < path.len() {
            base_name(crate::text::without_first(path, at + 1))
        } else {
            path
        },
        None => path,
    }
}

/// The part of a path after its last slash.
fn base_name_of(path: &str) -> (name: String)
    ensures
        name@ == base_name(path@),
{
    let chars = chars_of(path);
    let count: usize = chars.len();
    let mut start: usize = 0;
    let mut index: usize = 0;
    assert(crate::text::without_first(chars@, 0) =~= path@);
    while index < count
        invariant
            chars@ == path@,
            count == chars@.len(),
            start <= index <= count,
            base_name(path@) == base_name(crate::text::without_first(chars@, start as int)),
            crate::text::first_at(crate::text::without_first(chars@, start as int), '/', 0)
                == crate::text::first_at(
                crate::text::without_first(chars@, start as int),
                '/',
                index - start,
            ),
        decreases count - index,
    {
        let ghost rest = crate::text::without_first(chars@, start as int);
        assert(rest.len() == count - start);
        assert(rest[index - start] == chars@[index as int]);
        if chars[index] == '/' {
            assert(crate::text::first_at(rest, '/', index - start) == Some(index - start));
            assert(crate::text::without_first(rest, index - start + 1)
                =~= crate::text::without_first(chars@, index + 1));
            start = index + 1;
        }
        index += 1;
    }
    string_of(&chars, start, count)
}

/// The command that starts the shell of a user through `login`, so that it appears as a terminal
/// session; `hushlogin` is whether the user has a `.hushlogin` file.
///
/// The shell is started with a hyphen before its name, which makes it a login shell.
pub fn login_shell_command(shell: &str, user: &str, hushlogin: bool) -> (command: ShellCommand)
    ensures
        command.program@ == "/usr/bin/login"@,
        crate::text::texts(command.args@) == seq![
            if hushlogin {
                "-qflp"@
            } else {
                "-flp"@
            },
            user@,
            "/bin/zsh"@,
            "-fc"@,
            "exec -a -"@ + base_name(shell@) + " "@ + shell@,
        ],
{
    let shell_name = base_name_of(shell);
    let start = join(join("exec -a -", shell_name.as_str()).as_str(), " ");
    let exec = join(start.as_str(), shell);
    let flags = if hushlogin {
        "-qflp"
    } else {
        "-flp"
    };
    let mut args: Vec<String> = Vec::new();
    args.push(flags.to_owned());
    args.push(user.to_owned());
    args.push("/bin/zsh".to_owned());
    args.push("-fc".to_owned());
    args.push(exec);
    assert(crate::text::texts(args@) =~= seq![
        flags@,
        user@,
        "/bin/zsh"@,
        "-fc"@,
        "exec -a -"@ + base_name(shell@) + " "@ + shell@,
    ]);
    ShellCommand { program: "/usr/bin/login".to_owned(), args }
}

/// A change of an environment variable.
#[derive(Debug)]
pub enum EnvChange {
    Assign(String, String),
    Remove(String),
}

/// A change of an environment variable.
pub enum EnvStep {
    Assign(Seq<char>, Seq<char>),
    Remove(Seq<char>),
}

impl View for EnvChange {
    type V = EnvStep;

    open spec fn view(&self) -> EnvStep {
        match self {
            EnvChange::Assign(name, value) => EnvStep::Assign(name@, value@),
            EnvChange::Remove(name) => EnvStep::Remove(name@),
        }
    }
}

/// What some changes do.
pub open spec fn env_steps(changes: Seq<EnvChange>) -> Seq<EnvStep> {
    changes.map_values(|change: EnvChange| change@)
}

/// The changes that the configuration asks for.
pub open spec fn configured_steps(env: Seq<(String, String)>) -> Seq<EnvStep> {
    env.map_values(|variable: (String, String)| EnvStep::Assign(variable.0@, variable.1@))
}

/// The changes of the environment of the child: the window, the user and the home directory, then
/// what the configuration asks for. What belongs to the start of this process is not inherited.
pub open spec fn child_env(
    user: Seq<char>,
    home: Seq<char>,
    env: Seq<(String, String)>,
    window_id: u64,
) -> Seq<EnvStep> {
    seq![
        EnvStep::Assign("ALACRITTY_WINDOW_ID"@, crate::text::decimal(window_id as nat)),
        EnvStep::Assign("USER"@, user),
        EnvStep::Assign("HOME"@, home),
        EnvStep::Assign("WINDOWID"@, crate::text::decimal(window_id as nat)),
    ] + configured_steps(env) + seq![
        EnvStep::Remove("XDG_ACTIVATION_TOKEN"@),
        EnvStep::Remove("DESKTOP_STARTUP_ID"@),
    ]
}

/// What an environment variable is after some changes, where it is `before` at first.
pub open spec fn variable_after(
    before: Option<Seq<char>>,
    steps: Seq<EnvStep>,
    name: Seq<char>,
) -> Option<Seq<char>>
    decreases steps.len(),
{
    if steps.len() == 0 {
        before
    } else {
        match steps.last() {
            EnvStep::Assign(changed, value) if changed == name => Some(value),
            EnvStep::Remove(changed) if changed == name => None,
            _ => variable_after(before, steps.drop_last(), name),
        }
    }
}

/// The process that is started in a pseudoterminal.
#[derive(Debug)]
pub struct ChildPlan {
    pub command: ShellCommand,
    pub env: Vec<EnvChange>,
    pub working_directory: Option<String>,
}

/// Plan the process that is started in a pseudoterminal: the configured shell, or else the one of
/// the user, which `default_command` starts.
pub fn child_plan(
    config: &Options,
    window_id: u64,
    user: ShellUser,
    default_command: ShellCommand,
) -> (plan: ChildPlan)
    ensures
        match config.shell {
            Some(shell) => plan.command.program@ == shell.program@ && crate::text::texts(
                plan.command.args@,
            ) == crate::text::texts(shell.args@),
            None => plan.command == default_command,
        },
        env_steps(plan.env@) == child_env(user.user@, user.home@, config.env@, window_id),
        plan.working_directory == config.working_directory,
{
    let command = match &config.shell {
        Some(shell) => {
            let args = strings_from(&shell.args, 0);
            assert(crate::text::texts(args@) =~= crate::text::texts(shell.args@));
            ShellCommand { program: shell.program.clone(), args }
        },
        None => default_command,
    };
    let number = write_decimal(window_id);
    let mut env: Vec<EnvChange> = Vec::new();
    env.push(EnvChange::Assign("ALACRITTY_WINDOW_ID".to_owned(), number.clone()));
    env.push(EnvChange::Assign("USER".to_owned(), user.user));
    env.push(EnvChange::Assign("HOME".to_owned(), user.home));
    // Set Window ID for clients relying on X11 hacks.
    env.push(EnvChange::Assign("WINDOWID".to_owned(), number));
    let ghost first = seq![
        EnvStep::Assign("ALACRITTY_WINDOW_ID"@, crate::text::decimal(window_id as nat)),
        EnvStep::Assign("USER"@, user.user@),
        EnvStep::Assign("HOME"@, user.home@),
        EnvStep::Assign("WINDOWID"@, crate::text::decimal(window_id as nat)),
    ];
    let ghost configured = configured_steps(config.env@);
    assert(env_steps(env@) =~= first + configured.take(0));
    let mut index: usize = 0;
    while index < config.env.len()
        invariant
            index <= config.env@.len(),
            configured == configured_steps(config.env@),
            env_steps(env@) == first + configured.take(index as int),
        decreases config.env@.len() - index,
    {
        let ghost before = env_steps(env@);
        let variable = &config.env[index];
        env.push(EnvChange::Assign(variable.0.clone(), variable.1.clone()));
        assert(env_steps(env@) =~= before.push(configured[index as int]));
        assert(env_steps(env@) =~= first + configured.take(index + 1));
        index += 1;
    }
    assert(configured.take(index as int) =~= configured);
    // Prevent child processes from inheriting linux-specific startup notification env.
    env.push(EnvChange::Remove("XDG_ACTIVATION_TOKEN".to_owned()));
    env.push(EnvChange::Remove("DESKTOP_STARTUP_ID".to_owned()));
    assert(env_steps(env@) =~= child_env(user.user@, user.home@, config.env@, window_id));
    let working_directory = match &config.working_directory {
        Some(directory) => Some(directory.clone()),
        None => None,
    };
    ChildPlan { command, env, working_directory }
}

/// A child never inherits the startup notification of this process, whatever is configured.
pub proof fn startup_notification_is_not_inherited(
    before: Option<Seq<char>>,
    user: Seq<char>,
    home: Seq<char>,
    env: Seq<(String, String)>,
    window_id: u64,
)
    ensures
        variable_after(
            before,
            child_env(user, home, env, window_id),
            "XDG_ACTIVATION_TOKEN"@,
        ) is None,
        variable_after(
            before,
            child_env(user, home, env, window_id),
            "DESKTOP_STARTUP_ID"@,
        ) is None,
{
    let steps = child_env(user, home, env, window_id);
    assert(steps.last() == EnvStep::Remove("DESKTOP_STARTUP_ID"@));
    assert(steps.drop_last().last() == EnvStep::Remove("XDG_ACTIVATION_TOKEN"@));
    reveal_with_fuel(variable_after, 2);
}

/// The value that is configured for a variable, or the last one where there are more, wins over
/// everything else, unless the variable belongs to the startup notification.
pub proof fn configured_variables_win(
    before: Option<Seq<char>>,
    user: Seq<char>,
    home: Seq<char>,
    env: Seq<(String, String)>,
    window_id: u64,
    i: int,
)
    requires
        0 <= i < env.len(),
        forall|j: int| i < j < env.len() ==> (#[trigger] env[j]).0@ != env[i].0@,
        env[i].0@ != "XDG_ACTIVATION_TOKEN"@,
        env[i].0@ != "DESKTOP_STARTUP_ID"@,
    ensures
        variable_after(before, child_env(user, home, env, window_id), env[i].0@) == Some(env[i].1@),
{
    let steps = child_env(user, home, env, window_id);
    let name = env[i].0@;
    let count = 4 + env.len() as int;
    assert(steps.drop_last() =~= steps.take(count + 1));
    assert(steps.take(count + 1).drop_last() =~= steps.take(count));
    assert(steps.last() == EnvStep::Remove("DESKTOP_STARTUP_ID"@));
    assert(steps.take(count + 1).last() == EnvStep::Remove("XDG_ACTIVATION_TOKEN"@));
    assert forall|j: int| 0 <= j < env.len() implies steps[4 + j] == EnvStep::Assign(
        (#[trigger] env[j]).0@,
        env[j].1@,
    ) by {
        assert(configured_steps(env)[j] == EnvStep::Assign(env[j].0@, env[j].1@));
    }
    later_steps_do_not_matter(before, steps, env, name, i, env.len() as int);
    reveal_with_fuel(variable_after, 3);
}

proof fn later_steps_do_not_matter(
    before: Option<Seq<char>>,
    steps: Seq<EnvStep>,
    env: Seq<(String, String)>,
    name: Seq<char>,
    i: int,
    end: int,
)
    requires
        0 <= i < end <= env.len(),
        steps.len() >= 4 + env.len(),
        forall|j: int|
            0 <= j < env.len() ==> steps[4 + j] == EnvStep::Assign(
                (#[trigger] env[j]).0@,
                env[j].1@,
            ),
        name == env[i].0@,
        forall|j: int| i < j < env.len() ==> (#[trigger] env[j]).0@ != name,
    ensures
        variable_after(before, steps.take(4 + end), name) == Some(env[i].1@),
    decreases end,
{
    let part = steps.take(4 + end);
    assert(part.last() == EnvStep::Assign(env[end - 1].0@, env[end - 1].1@));
    if end - 1 > i {
        assert(part.drop_last() =~= steps.take(4 + end - 1));
        later_steps_do_not_matter(before, steps, env, name, i, end - 1);
    }
}

/// What is said where a command cannot be started.
pub fn spawn_failure(program: &str, error: &str) -> (message: String)
    ensures
        message@ == "Failed to spawn command '"@ + program@ + "': "@ + error@,
{
    let start = join(join("Failed to spawn command '", program).as_str(), "': ");
    join(start.as_str(), error)
}

/// The size of a terminal window: its cells and their size in pixels.
#[derive(Clone, Copy, Debug, PartialEq, Eq, Structural)]
pub struct WindowSize {
    pub num_lines: u16,
    pub num_cols: u16,
    pub cell_width: u16,
    pub cell_height: u16,
}

/// The size of a terminal window, as the kernel knows it.
#[derive(Clone, Copy, Debug, PartialEq, Eq, Structural)]
pub struct Winsize {
    pub ws_row: u16,
    pub ws_col: u16,
    pub ws_xpixel: u16,
    pub ws_ypixel: u16,
}

impl Winsize {
    /// Whether the kernel is told this about a window; pixels keep their low 16 bits.
    pub open spec fn tells(self, size: WindowSize) -> bool {
        &&& self.ws_row == size.num_lines
        &&& self.ws_col == size.num_cols
        &&& self.ws_xpixel == (size.num_cols * size.cell_width) % 0x1_0000
        &&& self.ws_ypixel == (size.num_lines * size.cell_height) % 0x1_0000
    }
}

/// The size that the kernel is told on a resize; pixels keep their low 16 bits.
pub fn on_resize(size: WindowSize) -> (win: Winsize)
    ensures
        win.tells(size),
{
    let cols: u32 = size.num_cols as u32;
    let lines: u32 = size.num_lines as u32;
    let width: u32 = size.cell_width as u32;
    let height: u32 = size.cell_height as u32;
    assert(0 <= cols * width <= 0xffff * 0xffff) by (nonlinear_arith)
        requires
            0 <= cols <= 0xffff,
            0 <= width <= 0xffff,
    ;
    assert(0 <= lines * height <= 0xffff * 0xffff) by (nonlinear_arith)
        requires
            0 <= lines <= 0xffff,
            0 <= height <= 0xffff,
    ;
    Winsize {
        ws_row: size.num_lines,
        ws_col: size.num_cols,
        ws_xpixel: ((cols * width) % 0x1_0000) as u16,
        ws_ypixel: ((lines * height) % 0x1_0000) as u16,
    }
}

/// What the signal pipe and the child say.
#[derive(Debug)]
pub enum ChildProbe {
    /// No signal has come; the pipe may have failed for another reason than that.
    NoSignal { error: Option<String> },
    /// A signal has come, and the child could not be asked.
    Unknown { error: String },
    /// A signal has come, and the child runs on.
    Running,
    /// A signal has come, and the child has exited with a status.
    Exited(i32),
}

/// What follows from a look at the child.
#[derive(Debug)]
pub struct ChildNews {
    pub event: Option<ChildEvent>,
    /// What is logged.
    pub message: Option<String>,
}

/// Tell what has become of the child.
pub fn next_child_event(probe: &ChildProbe) -> (news: ChildNews)
    ensures
        news.event == (match probe {
            ChildProbe::Exited(status) => Some(ChildEvent::Exited(Some(*status))),
            _ => None,
        }),
        match probe {
            ChildProbe::NoSignal { error: Some(error) } => news.message matches Some(message)
                && message@ == "Error reading from signal pipe: "@ + error@,
            ChildProbe::Unknown { error } => news.message matches Some(message) && message@
                == "Error checking child process termination: "@ + error@,
            _ => news.message is None,
        },
{
    match probe {
        ChildProbe::NoSignal { error: Some(error) } => ChildNews {
            event: None,
            message: Some(join("Error reading from signal pipe: ", error.as_str())),
        },
        ChildProbe::NoSignal { error: None } => ChildNews { event: None, message: None },
        ChildProbe::Unknown { error } => ChildNews {
            event: None,
            message: Some(join("Error checking child process termination: ", error.as_str())),
        },
        ChildProbe::Running => ChildNews { event: None, message: None },
        ChildProbe::Exited(status) => ChildNews {
            event: Some(ChildEvent::Exited(Some(*status))),
            message: None,
        },
    }
}

/// What is waited for: the terminal, as the caller wants it, and the signals of the child, always.
pub open spec fn terminal_and_signals(interest: Interest) -> (Interest, Interest) {
    (
        Interest { key: PTY_READ_WRITE_TOKEN, ..interest },
        Interest {
            key: PTY_CHILD_EVENT_TOKEN,
            readable: true,
            writable: false,
            mode: PollMode::Level,
        },
    )
}

/// What is waited for: the terminal, as the caller wants it, and the signals of the child, always.
pub fn interests(interest: Interest) -> (both: (Interest, Interest))
    ensures
        both == terminal_and_signals(interest),
{
    (
        Interest {
            key: PTY_READ_WRITE_TOKEN,
            readable: interest.readable,
            writable: interest.writable,
            mode: interest.mode,
        },
        Interest {
            key: PTY_CHILD_EVENT_TOKEN,
            readable: true,
            writable: false,
            mode: PollMode::Level,
        },
    )
}

/// The environment wins over the password database, variable by variable: what it says about the user,
/// the home directory and the shell is taken as it is, and each that it does not say comes from its
/// own column of the database. Without the database a missing variable is an error.
pub proof fn environment_wins(
    user: Option<String>,
    home: Option<String>,
    shell: Option<String>,
    pw: Result<Passwd, String>,
    result: Result<ShellUser, String>,
)
    requires
        ShellUser::found(user, home, shell, pw, result),
    ensures
        result is Ok <==> pw is Ok || user is Some && home is Some && shell is Some,
        result matches Ok(found) ==> {
            &&& user is Some ==> found.user@ == user->0@
            &&& home is Some ==> found.home@ == home->0@
            &&& shell is Some ==> found.shell@ == shell->0@
            &&& user is None ==> pw is Ok && found.user@ == pw->Ok_0.name@
            &&& home is None ==> pw is Ok && found.home@ == pw->Ok_0.dir@
            &&& shell is None ==> pw is Ok && found.shell@ == pw->Ok_0.shell@
        },
        result is Err ==> pw is Err && result->Err_0 == pw->Err_0,
{
}

proof fn unchanged_by_configuration(
    before: Option<Seq<char>>,
    steps: Seq<EnvStep>,
    env: Seq<(String, String)>,
    name: Seq<char>,
    end: int,
)
    requires
        0 <= end <= env.len(),
        steps.len() >= 4 + env.len(),
        forall|j: int|
            0 <= j < env.len() ==> steps[4 + j] == EnvStep::Assign(
                (#[trigger] env[j]).0@,
                env[j].1@,
            ),
        forall|j: int| 0 <= j < env.len() ==> (#[trigger] env[j]).0@ != name,
    ensures
        variable_after(before, steps.take(4 + end), name) == variable_after(
            before,
            steps.take(4),
            name,
        ),
    decreases end,
{
    if end > 0 {
        let part = steps.take(4 + end);
        assert(part.last() == EnvStep::Assign(env[end - 1].0@, env[end - 1].1@));
        assert(part.drop_last() =~= steps.take(4 + end - 1));
        unchanged_by_configuration(before, steps, env, name, end - 1);
    }
}

/// A child knows its window and its user, unless the configuration says otherwise, and inherits every
/// other variable as it is.
pub proof fn child_knows_its_window_and_user(
    before: Option<Seq<char>>,
    user: Seq<char>,
    home: Seq<char>,
    env: Seq<(String, String)>,
    window_id: u64,
    name: Seq<char>,
)
    requires
        forall|j: int| 0 <= j < env.len() ==> (#[trigger] env[j]).0@ != name,
    ensures
        ({
            let after = variable_after(before, child_env(user, home, env, window_id), name);
            &&& name == "ALACRITTY_WINDOW_ID"@ ==> after == Some(
                crate::text::decimal(window_id as nat),
            )
            &&& name == "WINDOWID"@ ==> after == Some(crate::text::decimal(window_id as nat))
            &&& name == "USER"@ ==> after == Some(user)
            &&& name == "HOME"@ ==> after == Some(home)
            &&& name != "ALACRITTY_WINDOW_ID"@ && name != "WINDOWID"@ && name != "USER"@ && name
                != "HOME"@ && name != "XDG_ACTIVATION_TOKEN"@ && name != "DESKTOP_STARTUP_ID"@
                ==> after == before
        }),
{
    reveal_strlit("ALACRITTY_WINDOW_ID");
    reveal_strlit("WINDOWID");
    reveal_strlit("USER");
    reveal_strlit("HOME");
    reveal_strlit("XDG_ACTIVATION_TOKEN");
    reveal_strlit("DESKTOP_STARTUP_ID");
    assert("USER"@[0] == 'U' && "HOME"@[0] == 'H');
    assert("USER"@.len() == 4 && "HOME"@.len() == 4 && "WINDOWID"@.len() == 8);
    assert("ALACRITTY_WINDOW_ID"@.len() == 19);
    assert("XDG_ACTIVATION_TOKEN"@.len() == 20 && "DESKTOP_STARTUP_ID"@.len() == 18);
    let steps = child_env(user, home, env, window_id);
    let count = 4 + env.len() as int;
    assert(steps.take(count + 2) =~= steps);
    assert(steps.drop_last() =~= steps.take(count + 1));
    assert(steps.take(count + 1).drop_last() =~= steps.take(count));
    assert(steps.last() == EnvStep::Remove("DESKTOP_STARTUP_ID"@));
    assert(steps.take(count + 1).last() == EnvStep::Remove("XDG_ACTIVATION_TOKEN"@));
    assert forall|j: int| 0 <= j < env.len() implies steps[4 + j] == EnvStep::Assign(
        (#[trigger] env[j]).0@,
        env[j].1@,
    ) by {
        assert(configured_steps(env)[j] == EnvStep::Assign(env[j].0@, env[j].1@));
    }
    unchanged_by_configuration(before, steps, env, name, env.len() as int);
    let first = steps.take(4);
    assert(first.drop_last() =~= steps.take(3));
    assert(steps.take(3).drop_last() =~= steps.take(2));
    assert(steps.take(2).drop_last() =~= steps.take(1));
    assert(steps.take(1).drop_last() =~= steps.take(0));
    assert(first.last() == EnvStep::Assign("WINDOWID"@, crate::text::decimal(window_id as nat)));
    assert(steps.take(3).last() == EnvStep::Assign("HOME"@, home));
    assert(steps.take(2).last() == EnvStep::Assign("USER"@, user));
    assert(steps.take(1).last() == EnvStep::Assign(
        "ALACRITTY_WINDOW_ID"@,
        crate::text::decimal(window_id as nat),
    ));
    assert(steps.take(0) =~= Seq::<EnvStep>::empty());
    let empty = variable_after(before, steps.take(0), name);
    assert(empty == before);
    let one = variable_after(before, steps.take(1), name);
    let number = crate::text::decimal(window_id as nat);
    assert(one == if name == "ALACRITTY_WINDOW_ID"@ {
        Some(number)
    } else {
        before
    });
    let two = variable_after(before, steps.take(2), name);
    assert(two == if name == "USER"@ {
        Some(user)
    } else {
        one
    });
    let three = variable_after(before, steps.take(3), name);
    assert(three == if name == "HOME"@ {
        Some(home)
    } else {
        two
    });
    let four = variable_after(before, steps.take(4), name);
    assert(four == if name == "WINDOWID"@ {
        Some(number)
    } else {
        three
    });
    let most = variable_after(before, steps.take(count + 1), name);
    assert(most == if name == "XDG_ACTIVATION_TOKEN"@ {
        None
    } else {
        four
    });
    assert(variable_after(before, steps, name) == if name == "DESKTOP_STARTUP_ID"@ {
        None
    } else {
        most
    });
}

proof fn entry_is_the_first(lines: Seq<Seq<char>>, uid: u32, from: int)
    requires
        0 <= from <= lines.len(),
    ensures
        match entry_at(lines, uid, from) {
            Some(at) => {
                &&& from <= at < lines.len()
                &&& is_entry(lines[at], uid)
                &&& forall|i: int| from <= i < at ==> !is_entry(#[trigger] lines[i], uid)
            },
            None => forall|i: int| from <= i < lines.len() ==> !is_entry(#[trigger] lines[i], uid),
        },
    decreases lines.len() - from,
{
    if from < lines.len() && !is_entry(lines[from], uid) {
        entry_is_the_first(lines, uid, from + 1);
    }
}

/// A line of the password database, as it is written.
pub open spec fn passwd_line(columns: Seq<Seq<char>>, count: int) -> Seq<char>
    decreases count,
{
    if count <= 1 {
        columns[0]
    } else {
        passwd_line(columns, count - 1) + seq![':'] + columns[count - 1]
    }
}

proof fn column_is_read(columns: Seq<Seq<char>>, count: int, n: int)
    requires
        0 <= n < count <= columns.len(),
        forall|i: int| 0 <= i < columns.len() ==> !(#[trigger] columns[i]).contains(':'),
    ensures
        crate::text::field(passwd_line(columns, count), ':', n as nat) == columns[n],
    decreases n,
{
    assert(!columns[0].contains(':'));
    if count == 1 {
        crate::text::fields_stand_between_separators(columns[0], ':', Seq::empty(), 0);
    } else {
        let later = columns.drop_first();
        first_column_is_split_off(columns, count);
        let rest = passwd_line(later, count - 1);
        assert forall|i: int| 0 <= i < later.len() implies !(#[trigger] later[i]).contains(':') by {
            assert(later[i] == columns[i + 1]);
        }
        if n == 0 {
            crate::text::fields_stand_between_separators(columns[0], ':', rest, 0);
        } else {
            crate::text::fields_stand_between_separators(columns[0], ':', rest, (n - 1) as nat);
            column_is_read(later, count - 1, n - 1);
        }
    }
}

proof fn first_column_is_split_off(columns: Seq<Seq<char>>, count: int)
    requires
        2 <= count <= columns.len(),
    ensures
        passwd_line(columns, count) == columns[0] + seq![':'] + passwd_line(
            columns.drop_first(),
            count - 1,
        ),
    decreases count,
{
    let later = columns.drop_first();
    if count == 2 {
        assert(passwd_line(columns, 1) == columns[0]);
        assert(passwd_line(later, 1) == columns[1]);
    } else {
        first_column_is_split_off(columns, count - 1);
        assert(passwd_line(columns, count) =~= columns[0] + seq![':'] + passwd_line(
            later,
            count - 1,
        ));
    }
}

/// A user who is in the password database is found: the first line whose third column is the number
/// of the user says how the user is called, where the home directory is and which shell is used, in
/// its first, sixth and seventh column.
pub proof fn listed_users_are_found(
    lines: Seq<Seq<char>>,
    uid: u32,
    at: int,
    columns: Seq<Seq<char>>,
    entry: Result<Passwd, String>,
)
    requires
        entry_found(lines, uid, entry),
        0 <= at < lines.len(),
        columns.len() == 7,
        forall|i: int| 0 <= i < columns.len() ==> !(#[trigger] columns[i]).contains(':'),
        columns[0].len() > 0,
        columns[0][0] != '#',
        lines[at] == passwd_line(columns, 7),
        crate::cli::tokens::number(columns[2], 10) == Some(uid as int),
        forall|i: int| 0 <= i < at ==> !is_entry(#[trigger] lines[i], uid),
    ensures
        entry matches Ok(entry) && entry.name@ == columns[0] && entry.dir@ == columns[5]
            && entry.shell@ == columns[6],
{
    column_is_read(columns, 7, 0);
    column_is_read(columns, 7, 2);
    column_is_read(columns, 7, 5);
    column_is_read(columns, 7, 6);
    first_column_is_split_off(columns, 7);
    assert(lines[at][0] == columns[0][0]);
    assert(is_entry(lines[at], uid));
    entry_is_the_first(lines, uid, 0);
}

/// Nobody is found in a password database that does not list the user.
pub proof fn unlisted_users_are_not_found(
    lines: Seq<Seq<char>>,
    uid: u32,
    entry: Result<Passwd, String>,
)
    requires
        entry_found(lines, uid, entry),
        forall|i: int|
            0 <= i < lines.len() ==> (#[trigger] lines[i]).len() == 0 || lines[i][0] == '#'
                || crate::cli::tokens::number(crate::text::field(lines[i], ':', 2), 10) != Some(
                uid as int,
            ),
    ensures
        entry is Err,
{
    entry_is_the_first(lines, uid, 0);
}

/// The name of a file is what follows the last slash of its path.
pub proof fn base_name_follows_the_last_slash(directory: Seq<char>, name: Seq<char>)
    requires
        !name.contains('/'),
    ensures
        base_name(directory + seq!['/'] + name) == name,
        base_name(name) == name,
    decreases directory.len(),
{
    let path = directory + seq!['/'] + name;
    crate::text::first_occurrence_is_found(name, '/', 0);
    crate::text::first_occurrence_is_found(path, '/', 0);
    assert(path[directory.len() as int] == '/');
    let at = crate::text::first_at(path, '/', 0)->0;
    let rest = crate::text::without_first(path, at + 1);
    assert(base_name(path) == base_name(rest));
    assert(base_name(name) == name);
    if at == directory.len() {
        assert(rest =~= name);
    } else {
        let deeper = crate::text::without_first(directory, at + 1);
        assert(rest =~= deeper + seq!['/'] + name);
        base_name_follows_the_last_slash(deeper, name);
    }
}

/// The terminal and the signals can be told apart, the caller hears of the terminal just as it asked to,
/// and hears of every signal, whatever it asked.
pub proof fn signals_are_heard_beside_the_terminal(interest: Interest, other: Interest)
    ensures
        ({
            let (terminal, signals) = terminal_and_signals(interest);
            &&& terminal.key != signals.key
            &&& terminal.readable == interest.readable
            &&& terminal.writable == interest.writable
            &&& terminal.mode == interest.mode
            &&& signals.readable && !signals.writable && !signals.once()
            &&& terminal_and_signals(other).1 == signals
            &&& terminal_and_signals(other).0.key == terminal.key
        }),
{
}

/// The kernel is told the size of the window: its cells as they are, and its pixels up to multiples of
/// the largest number that the kernel can hold. Turning the window turns what the kernel is told.
pub proof fn kernel_knows_the_size(
    size: WindowSize,
    win: Winsize,
    turned: WindowSize,
    turned_win: Winsize,
)
    requires
        win.tells(size),
        turned_win.tells(turned),
        turned.num_lines == size.num_cols,
        turned.num_cols == size.num_lines,
        turned.cell_width == size.cell_height,
        turned.cell_height == size.cell_width,
    ensures
        win.ws_row == size.num_lines && win.ws_col == size.num_cols,
        size.num_cols * size.cell_width <= u16::MAX ==> win.ws_xpixel == size.num_cols
            * size.cell_width,
        size.num_lines * size.cell_height <= u16::MAX ==> win.ws_ypixel == size.num_lines
            * size.cell_height,
        (size.num_cols * size.cell_width - win.ws_xpixel) % 0x1_0000 == 0,
        (size.num_lines * size.cell_height - win.ws_ypixel) % 0x1_0000 == 0,
        turned_win.ws_row == win.ws_col && turned_win.ws_col == win.ws_row,
        turned_win.ws_xpixel == win.ws_ypixel && turned_win.ws_ypixel == win.ws_xpixel,
{
    assert(size.num_cols * size.cell_width >= 0) by (nonlinear_arith);
    assert(size.num_lines * size.cell_height >= 0) by (nonlinear_arith);
}

} // verus!
