//! The pseudoterminal and the program that runs in it.

use crate::config::Program;
use vstd::prelude::*;
use vstd::string::*;

pub mod pipe;
pub mod unix;
pub mod windows;

verus! {

/// Shell options.
#[derive(Debug)]
pub struct Shell {
    /// Path to a shell program to run on startup.
    pub program: String,
    /// Arguments passed to shell.
    pub args: Vec<String>,
}

impl Shell {
    pub fn new(program: String, args: Vec<String>) -> (shell: Shell)
        ensures
            shell.program == program,
            shell.args == args,
    {
        Shell { program, args }
    }

    /// The shell that runs a program.
    pub fn from_program(program: Program) -> (shell: Shell)
        ensures
            match program {
                Program::Just(program) => shell.program == program && shell.args@.len() == 0,
                Program::WithArgs { program, args } => shell.program == program && shell.args
                    == args,
            },
    {
        match program {
            Program::Just(program) => Shell::new(program, Vec::new()),
            Program::WithArgs { program, args } => Shell::new(program, args),
        }
    }
}

/// Configuration for the `Pty` interface.
#[derive(Debug)]
pub struct Options {
    /// Shell options.
    ///
    /// [`None`] will use the default shell.
    pub shell: Option<Shell>,

    /// Shell startup directory.
    pub working_directory: Option<String>,

    /// Drain the child process output before exiting the terminal.
    pub drain_on_exit: bool,

    /// Extra environment variables: names and values.
    pub env: Vec<(String, String)>,

    /// Specifies whether the Windows shell arguments should be escaped.
    ///
    /// - When `true`: Arguments will be escaped according to the standard C runtime rules.
    /// - When `false`: Arguments will be passed raw without additional escaping.
    pub escape_args: bool,
}

impl Options {
    /// No environment variable has two values.
    pub open spec fn well_formed(self) -> bool {
        forall|i: int, j: int|
            0 <= i < j < self.env@.len() ==> (#[trigger] self.env@[i]).0@ != (
            #[trigger] self.env@[j]).0@
    }

    /// The program and the arguments of the shell, if one is set.
    pub open spec fn command(self) -> Option<Seq<Seq<char>>> {
        match self.shell {
            Some(shell) => Some(seq![shell.program@] + crate::text::texts(shell.args@)),
            None => None,
        }
    }
}

impl Default for Options {
    fn default() -> (options: Options)
        ensures
            options.shell is None,
            options.working_directory is None,
            !options.drain_on_exit,
            options.env@.len() == 0,
            !options.escape_args,
            options.well_formed(),
    {
        Options {
            shell: None,
            working_directory: None,
            drain_on_exit: false,
            env: Vec::new(),
            escape_args: false,
        }
    }
}

/// Events concerning TTY child processes.
#[derive(Clone, Copy, Debug, PartialEq, Eq, Structural)]
pub enum ChildEvent {
    /// Indicates the child has exited, with a status if it is known.
    Exited(Option<i32>),
}

/// The environment variables of the terminal: its type, and that it has 24-bit color.
pub fn setup_env() -> (variables: Vec<(String, String)>)
    ensures
        variables@.len() == 2,
        variables@[0].0@ == "TERM"@,
        variables@[0].1@ == "xterm-256color"@,
        variables@[1].0@ == "COLORTERM"@,
        variables@[1].1@ == "truecolor"@,
{
    let mut variables: Vec<(String, String)> = Vec::new();
    // Keep terminal type stable.
    variables.push(("TERM".to_owned(), "xterm-256color".to_owned()));
    // Advertise 24-bit color support.
    variables.push(("COLORTERM".to_owned(), "truecolor".to_owned()));
    variables
}

} // verus!
