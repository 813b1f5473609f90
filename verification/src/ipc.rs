//! The socket through which other processes talk to the terminal.

use crate::cli::SocketMessage;
use crate::text::{chars_of, decimal, decimal_is_injective, join, write_decimal};
use vstd::prelude::*;
use vstd::string::*;

verus! {

broadcast use vstd::string::group_string_axioms;

/// Environment variable name for the IPC socket path.
pub open spec fn socket_env() -> Seq<char> {
    "ALACRITTY_SOCKET"@
}

/// The name of the environment variable that tells child processes where the socket is.
pub fn socket_env_name() -> (name: String)
    ensures
        name@ == socket_env(),
{
    "ALACRITTY_SOCKET".to_owned()
}

/// A text with every slash turned into a hyphen.
pub open spec fn without_slashes(text: Seq<char>) -> Seq<char> {
    text.map_values(
        |character: char|
            if character == '/' {
                '-'
            } else {
                character
            },
    )
}

/// The display that the sockets are named after: Wayland's, or else X11's, or else none.
pub open spec fn display_name(wayland_display: Option<String>, display: Option<String>) -> Seq<
    char,
> {
    match (wayland_display, display) {
        (Some(name), _) => name@,
        (None, Some(name)) => name@,
        (None, None) => Seq::empty(),
    }
}

/// File prefix matching all available sockets for this display; the arguments are the values of
/// `WAYLAND_DISPLAY` and `DISPLAY`.
pub fn socket_prefix(wayland_display: Option<String>, display: Option<String>) -> (prefix: String)
    ensures
        prefix@ == "Alacritty-"@ + without_slashes(display_name(wayland_display, display)),
{
    let ghost name = display_name(wayland_display, display);
    let display = match wayland_display {
        Some(name) => name,
        None => match display {
            Some(name) => name,
            None => String::new(),
        },
    };
    let chars = chars_of(display.as_str());
    assert(chars@ =~= name);
    let mut prefix: String = "Alacritty-".to_owned();
    let mut index: usize = 0;
    assert(prefix@ =~= "Alacritty-"@ + without_slashes(name).take(0));
    while index < chars.len()
        invariant
            chars@ == name,
            index <= chars@.len(),
            prefix@ == "Alacritty-"@ + without_slashes(name).take(index as int),
        decreases chars@.len() - index,
    {
        let ghost before = prefix@;
        if chars[index] == '/' {
            prefix.push('-');
        } else {
            prefix.push(chars[index]);
        }
        index += 1;
        assert(prefix@ =~= "Alacritty-"@ + without_slashes(name).take(index as int));
    }
    assert(without_slashes(name).take(index as int) =~= without_slashes(name));
    prefix
}

/// File prefix matching all available sockets where there are no named displays.
pub fn socket_prefix_without_display() -> (prefix: String)
    ensures
        prefix@ == "Alacritty"@,
{
    "Alacritty".to_owned()
}

/// The file name of the socket of the process `pid`.
pub fn socket_name(prefix: &str, pid: u32) -> (name: String)
    ensures
        name@ == prefix@ + "-"@ + decimal(pid as nat) + ".sock"@,
{
    let number = write_decimal(pid as u64);
    let start = join(join(prefix, "-").as_str(), number.as_str());
    join(start.as_str(), ".sock")
}

/// Where the socket is put.
#[derive(Clone, Copy, Debug, PartialEq, Eq, Structural)]
pub enum SocketDir {
    /// The directory `alacritty` in the runtime directory.
    Runtime,
    /// The directory `alacritty` in the directory for temporary files.
    Temporary,
}

/// Directory for the IPC socket file; `created` is whether the directory in the runtime directory
/// exists or could be made, if there is a runtime directory.
pub fn socket_dir(created: Option<bool>) -> (dir: SocketDir)
    ensures
        dir == (if created == Some(true) {
            SocketDir::Runtime
        } else {
            SocketDir::Temporary
        }),
{
    match created {
        Some(true) => SocketDir::Runtime,
        _ => SocketDir::Temporary,
    }
}

/// What was read from a connection to the socket.
#[derive(Debug)]
pub enum Received {
    /// Nothing, or not even that.
    Nothing,
    /// A line that is no message.
    Garbage,
    /// A message.
    Message(SocketMessage),
}

/// Take a message over; the flag says whether the connection is kept for a reply. It is provided
/// only for `GetConfig` requests so the caller can reply on it.
pub fn try_recv(received: Received) -> (message: Option<(SocketMessage, bool)>)
    ensures
        match received {
            Received::Message(expected) => message == Some((expected, expected is GetConfig)),
            _ => message is None,
        },
{
    match received {
        Received::Message(message) => {
            let keep = match &message {
                SocketMessage::GetConfig(_) => true,
                _ => false,
            };
            Some((message, keep))
        },
        _ => None,
    }
}

/// The prefix holds no slash, whatever the display is called, so that a socket is a file in the
/// directory of the sockets.
pub proof fn socket_prefix_has_no_slash(
    wayland_display: Option<String>,
    display: Option<String>,
)
    ensures
        !("Alacritty-"@ + without_slashes(display_name(wayland_display, display))).contains('/'),
{
    reveal_strlit("Alacritty-");
    let name = "Alacritty-"@ + without_slashes(display_name(wayland_display, display));
    assert forall|k: int| 0 <= k < name.len() implies name[k] != '/' by {
        if k < "Alacritty-"@.len() {
            assert("Alacritty-"@[k] != '/');
        }
    }
}

/// Two processes never share a socket: the names of their sockets differ.
pub proof fn sockets_of_processes_differ(prefix: Seq<char>, first: nat, second: nat)
    requires
        first != second,
    ensures
        prefix + "-"@ + decimal(first) + ".sock"@ != prefix + "-"@ + decimal(second) + ".sock"@,
{
    let a = prefix + "-"@ + decimal(first) + ".sock"@;
    let b = prefix + "-"@ + decimal(second) + ".sock"@;
    if a == b {
        let start = (prefix + "-"@).len() as int;
        let end = a.len() - ".sock"@.len();
        assert(a.subrange(start, end) =~= decimal(first));
        assert(b.subrange(start, end) =~= decimal(second));
        decimal_is_injective(first, second);
    }
}

} // verus!
