//! Clipboard access: which backend serves a request, and the protocols behind them.

use crate::clipboard::x11_owner::X11Atoms;
use crate::platform::Platform;
use crate::text::{bytes_of, text_of_utf8};
use crate::wide::{text_before_zero, win32_string};
use vstd::prelude::*;
use vstd::string::*;

pub mod x11_owner;
pub mod x11_requestor;

verus! {

broadcast use vstd::string::group_string_axioms;

/// The two places that text can be copied to.
#[derive(Clone, Copy, Debug, PartialEq, Eq, Structural)]
pub enum ClipboardType {
    Clipboard,
    Selection,
}

/// The display server that the window belongs to.
#[derive(Clone, Copy, Debug, PartialEq, Eq, Structural)]
pub enum DisplayKind {
    Wayland,
    X11,
    Other,
    /// It cannot be told.
    Unknown,
}

/// Who keeps the clipboard.
#[derive(Clone, Copy, Debug, PartialEq, Eq, Structural)]
pub enum Backend {
    /// Nobody.
    Nop,
    Wayland,
    X11,
    Windows,
}

/// Where text is stored or loaded.
#[derive(Clone, Copy, Debug, PartialEq, Eq, Structural)]
pub enum Route {
    /// Nowhere.
    Nowhere,
    WaylandPrimary,
    WaylandClipboard,
    /// An X11 selection, with the type that text has there.
    X11 { selection: u32, target: u32 },
    Windows,
}

/// The clipboard.
#[derive(Clone, Copy, Debug, PartialEq, Eq, Structural)]
pub struct Clipboard {
    pub backend: Backend,
}

impl Default for Clipboard {
    fn default() -> (clipboard: Clipboard)
        ensures
            clipboard.backend is Nop,
    {
        Clipboard::new_nop(Platform::default())
    }
}

impl Clipboard {
    /// A clipboard without a connection: it keeps nothing, except on Windows, where none is needed.
    pub fn new_nop(platform: Platform) -> (clipboard: Clipboard)
        ensures
            clipboard.backend == (match platform {
                Platform::Windows => Backend::Windows,
                _ => Backend::Nop,
            }),
    {
        match platform {
            Platform::Windows => Clipboard { backend: Backend::Windows },
            _ => Clipboard { backend: Backend::Nop },
        }
    }

    /// How often a connection to the X11 server is tried, until one succeeds.
    pub open spec fn attempts_for(display: DisplayKind) -> int {
        match display {
            DisplayKind::Wayland => 0,
            DisplayKind::X11 => 2,
            DisplayKind::Other => 1,
            DisplayKind::Unknown => 1,
        }
    }

    /// Who keeps the clipboard for a display.
    pub open spec fn backend_for(display: DisplayKind, connected: bool) -> Backend {
        match display {
            DisplayKind::Wayland => Backend::Wayland,
            _ => if connected {
                Backend::X11
            } else {
                Backend::Nop
            },
        }
    }

    /// How often a connection to the X11 server is tried, until one succeeds.
    pub fn x11_attempts(display: DisplayKind) -> (attempts: usize)
        ensures
            attempts == Clipboard::attempts_for(display),
    {
        match display {
            DisplayKind::Wayland => 0,
            DisplayKind::X11 => 2,
            DisplayKind::Other => 1,
            DisplayKind::Unknown => 1,
        }
    }

    /// The clipboard for a display; `connected` is whether there is a connection to the X11 server.
    pub fn new(display: DisplayKind, connected: bool) -> (clipboard: Clipboard)
        ensures
            clipboard.backend == Clipboard::backend_for(display, connected),
    {
        match display {
            DisplayKind::Wayland => Clipboard { backend: Backend::Wayland },
            _ => if connected {
                Clipboard { backend: Backend::X11 }
            } else {
                Clipboard::new_nop(Platform::OtherUnix)
            },
        }
    }

    /// Whether text of a type is kept at all. Windows has no selection.
    pub open spec fn keeps(self, ty: ClipboardType) -> bool {
        match self.backend {
            Backend::Nop => false,
            Backend::Windows => ty is Clipboard,
            _ => true,
        }
    }

    /// Where text of a type is kept.
    pub open spec fn route_of(self, ty: ClipboardType, atoms: X11Atoms) -> Route {
        match (self.backend, ty) {
            (Backend::Nop, _) => Route::Nowhere,
            (Backend::Wayland, ClipboardType::Selection) => Route::WaylandPrimary,
            (Backend::Wayland, ClipboardType::Clipboard) => Route::WaylandClipboard,
            (Backend::X11, ClipboardType::Selection) => Route::X11 {
                selection: atoms.primary,
                target: atoms.utf8_string,
            },
            (Backend::X11, ClipboardType::Clipboard) => Route::X11 {
                selection: atoms.clipboard,
                target: atoms.utf8_string,
            },
            (Backend::Windows, ClipboardType::Selection) => Route::Nowhere,
            (Backend::Windows, ClipboardType::Clipboard) => Route::Windows,
        }
    }

    /// Where text of a type is kept.
    pub fn route(&self, ty: ClipboardType, atoms: &X11Atoms) -> (route: Route)
        ensures
            route == self.route_of(ty, *atoms),
            route is Nowhere <==> !self.keeps(ty),
    {
        match (self.backend, ty) {
            (Backend::Nop, _) => Route::Nowhere,
            (Backend::Wayland, ClipboardType::Selection) => Route::WaylandPrimary,
            (Backend::Wayland, ClipboardType::Clipboard) => Route::WaylandClipboard,
            (Backend::X11, ClipboardType::Selection) => Route::X11 {
                selection: atoms.primary,
                target: atoms.utf8_string,
            },
            (Backend::X11, ClipboardType::Clipboard) => Route::X11 {
                selection: atoms.clipboard,
                target: atoms.utf8_string,
            },
            (Backend::Windows, ClipboardType::Selection) => Route::Nowhere,
            (Backend::Windows, ClipboardType::Clipboard) => Route::Windows,
        }
    }

    /// Store text: where it goes, and the bytes that an X11 selection keeps of it.
    pub fn store(&self, ty: ClipboardType, text: &str, atoms: &X11Atoms) -> (stored: (
        Route,
        Vec<u8>,
    ))
        ensures
            stored.0 == self.route_of(ty, *atoms),
            stored.1@ == vstd::utf8::encode_utf8(text@),
    {
        (self.route(ty, atoms), bytes_of(text))
    }

    /// The text of a type, given what was loaded from where it is kept: none where it is not kept,
    /// could not be loaded, or is no text.
    pub fn load(&self, ty: ClipboardType, loaded: Loaded) -> (text: String)
        ensures
            text@ == if self.keeps(ty) {
                loaded.text()
            } else {
                Seq::empty()
            },
    {
        match (self.backend, ty) {
            (Backend::Nop, _) | (Backend::Windows, ClipboardType::Selection) => {
                return String::new();
            },
            _ => {},
        }
        match loaded {
            Loaded::Text(text) => text,
            Loaded::Bytes(bytes) => match text_of_utf8(bytes) {
                Some(text) => text,
                None => String::new(),
            },
            Loaded::Nothing => String::new(),
        }
    }
}

/// What came of loading the clipboard.
#[derive(Debug)]
pub enum Loaded {
    /// The text.
    Text(String),
    /// The bytes of an X11 selection.
    Bytes(Vec<u8>),
    /// Nothing.
    Nothing,
}

impl Loaded {
    /// The text that was loaded.
    pub open spec fn text(self) -> Seq<char> {
        match self {
            Loaded::Text(text) => text@,
            Loaded::Bytes(bytes) => if vstd::utf8::valid_utf8(bytes@) {
                vstd::utf8::decode_utf8(bytes@)
            } else {
                Seq::empty()
            },
            Loaded::Nothing => Seq::empty(),
        }
    }
}

/// What is copied is what is pasted: the bytes that an X11 selection keeps of a text, handed over in
/// one piece or piece after piece, are that text again.
pub proof fn copied_text_is_pasted(text: Seq<char>, bytes: Vec<u8>)
    requires
        bytes@ == vstd::utf8::encode_utf8(text) || Some(bytes@) == x11_requestor::collected(
            Seq::empty(),
            x11_owner::chunks_from(vstd::utf8::encode_utf8(text), 0),
        ),
    ensures
        Loaded::Bytes(bytes).text() == text,
{
    x11_requestor::increments_give_back_the_value(vstd::utf8::encode_utf8(text));
    vstd::utf8::encode_utf8_valid_utf8(text);
    vstd::utf8::encode_utf8_decode_utf8(text);
}

/// The steps of storing text in the clipboard of Windows.
#[derive(Clone, Copy, Debug, PartialEq, Eq, Structural)]
pub enum StoreStep {
    GlobalAlloc,
    GlobalLock,
    OpenClipboard,
    EmptyClipboard,
    SetClipboardData,
}

/// The steps of loading text from the clipboard of Windows.
#[derive(Clone, Copy, Debug, PartialEq, Eq, Structural)]
pub enum LoadStep {
    OpenClipboard,
    GetClipboardData,
    GlobalLock,
}

/// The end of an access to the clipboard of Windows.
#[derive(Debug)]
pub struct WindowsEnd {
    /// Whether the clipboard must be closed.
    pub close: bool,
    pub result: Result<(), String>,
}

/// Whether the clipboard must be closed after an attempt to store text.
pub open spec fn closed_after_store(failed: Option<StoreStep>) -> bool {
    match failed {
        Some(StoreStep::GlobalAlloc) => false,
        Some(StoreStep::GlobalLock) => false,
        Some(StoreStep::OpenClipboard) => false,
        _ => true,
    }
}

/// Whether the clipboard must be closed after a step of loading text failed.
pub open spec fn closed_after_load(failed: LoadStep) -> bool {
    !(failed is OpenClipboard)
}

/// The code units that the clipboard of Windows keeps of a text.
pub fn windows_clipboard_data(text: &str) -> (units: Vec<u16>)
    ensures
        units@ == crate::wide::utf16(text@).push(0),
{
    win32_string(text)
}

/// End an attempt to store text: `failed` is the step that failed, if one did. The clipboard is
/// closed once it was opened, whatever happened after that.
pub fn windows_set_clipboard(failed: Option<StoreStep>) -> (end: WindowsEnd)
    ensures
        end.close == closed_after_store(failed),
        match failed {
            None => end.result is Ok,
            Some(step) => end.result matches Err(message) && message@ == (match step {
                StoreStep::GlobalAlloc => "GlobalAlloc failed"@,
                StoreStep::GlobalLock => "GlobalLock failed"@,
                StoreStep::OpenClipboard => "OpenClipboard failed"@,
                StoreStep::EmptyClipboard => "EmptyClipboard failed"@,
                StoreStep::SetClipboardData => "SetClipboardData failed"@,
            }),
        },
{
    match failed {
        None => WindowsEnd { close: true, result: Ok(()) },
        Some(StoreStep::GlobalAlloc) => WindowsEnd {
            close: false,
            result: Err("GlobalAlloc failed".to_owned()),
        },
        Some(StoreStep::GlobalLock) => WindowsEnd {
            close: false,
            result: Err("GlobalLock failed".to_owned()),
        },
        Some(StoreStep::OpenClipboard) => WindowsEnd {
            close: false,
            result: Err("OpenClipboard failed".to_owned()),
        },
        Some(StoreStep::EmptyClipboard) => WindowsEnd {
            close: true,
            result: Err("EmptyClipboard failed".to_owned()),
        },
        Some(StoreStep::SetClipboardData) => WindowsEnd {
            close: true,
            result: Err("SetClipboardData failed".to_owned()),
        },
    }
}

/// End an attempt to load text before there is any: `failed` is the step that failed. The clipboard
/// is closed once it was opened.
pub fn windows_load_failed(failed: LoadStep) -> (end: WindowsEnd)
    ensures
        end.close == closed_after_load(failed),
        end.result matches Err(message) && message@ == (match failed {
            LoadStep::OpenClipboard => "OpenClipboard failed"@,
            LoadStep::GetClipboardData => "GetClipboardData failed"@,
            LoadStep::GlobalLock => "GlobalLock failed"@,
        }),
{
    match failed {
        LoadStep::OpenClipboard => WindowsEnd {
            close: false,
            result: Err("OpenClipboard failed".to_owned()),
        },
        LoadStep::GetClipboardData => WindowsEnd {
            close: true,
            result: Err("GetClipboardData failed".to_owned()),
        },
        LoadStep::GlobalLock => WindowsEnd {
            close: true,
            result: Err("GlobalLock failed".to_owned()),
        },
    }
}

/// The text that the clipboard of Windows keeps, as it lies in memory. What was stored there comes
/// back, unless it holds a zero.
pub fn windows_get_clipboard(units: &Vec<u16>) -> (text: String)
    ensures
        text@ == crate::wide::utf16_text(units@.take(crate::wide::zero_at(units@, 0))),
        forall|written: Seq<char>|
            units@ == (#[trigger] crate::wide::utf16(written)).push(0) && !written.contains('\0')
                ==> text@ == written,
{
    text_before_zero(units)
}

/// What is copied to one place does not end up in the other: the clipboard and the selection are kept
/// apart, and text of a kind goes to the same place whenever it is stored or loaded. Nothing but
/// Windows lacks a selection.
pub proof fn clipboard_and_selection_are_kept_apart(clipboard: Clipboard, atoms: X11Atoms)
    requires
        atoms.primary != atoms.clipboard,
    ensures
        clipboard.keeps(ClipboardType::Selection) ==> clipboard.route_of(
            ClipboardType::Selection,
            atoms,
        ) != clipboard.route_of(ClipboardType::Clipboard, atoms),
        clipboard.keeps(ClipboardType::Clipboard) <==> !(clipboard.backend is Nop),
        clipboard.keeps(ClipboardType::Selection) <==> clipboard.backend is Wayland
            || clipboard.backend is X11,
        clipboard.backend is X11 ==> {
            &&& clipboard.route_of(ClipboardType::Selection, atoms) matches Route::X11 {
                selection,
                target,
            }
            &&& selection == atoms.primary
            &&& target == atoms.utf8_string
        },
        clipboard.backend is X11 ==> {
            &&& clipboard.route_of(ClipboardType::Clipboard, atoms) matches Route::X11 {
                selection,
                target,
            }
            &&& selection == atoms.clipboard
            &&& target == atoms.utf8_string
        },
        clipboard.backend is Wayland ==> clipboard.route_of(ClipboardType::Selection, atoms)
            is WaylandPrimary,
        clipboard.backend is Windows ==> clipboard.route_of(ClipboardType::Clipboard, atoms)
            is Windows,
{
}

/// The position of a step among those of storing text.
pub open spec fn store_position(step: StoreStep) -> int {
    match step {
        StoreStep::GlobalAlloc => 0,
        StoreStep::GlobalLock => 1,
        StoreStep::OpenClipboard => 2,
        StoreStep::EmptyClipboard => 3,
        StoreStep::SetClipboardData => 4,
    }
}

/// A clipboard that was opened is closed, and no other: where the step that failed comes after
/// opening it, or none failed.
pub proof fn opened_clipboards_are_closed(stored: StoreStep, loaded: LoadStep)
    ensures
        closed_after_store(None),
        closed_after_store(Some(stored)) <==> store_position(stored) > store_position(
            StoreStep::OpenClipboard,
        ),
        closed_after_load(loaded) <==> loaded is GetClipboardData || loaded is GlobalLock,
{
}

/// The display decides who keeps the clipboard: Wayland's own clipboard is used on Wayland, whether or
/// not there is an X11 server, to which no connection is made then; X11 is tried everywhere else,
/// once more where it is the display, and used if there is a connection.
pub proof fn display_decides_who_keeps_the_clipboard(display: DisplayKind, connected: bool)
    ensures
        Clipboard::backend_for(display, connected) is Wayland <==> display is Wayland,
        Clipboard::backend_for(display, connected) is X11 <==> !(display is Wayland) && connected,
        Clipboard::backend_for(display, connected) is Nop <==> !(display is Wayland) && !connected,
        Clipboard::attempts_for(display) == 0 <==> display is Wayland,
        Clipboard::attempts_for(display) >= 2 <==> display is X11,
        Clipboard::attempts_for(display) <= 2,
{
}

} // verus!
