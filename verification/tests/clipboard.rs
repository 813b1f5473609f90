use std::collections::HashMap;

use alacritty::clipboard::x11_owner::{
    atom_names, selection_owned, Owner, OwnerAction, SelectionRequest, X11Atoms, INCR_CHUNK_SIZE,
};
use alacritty::clipboard::x11_requestor::{LoadError, Next, Requestor};
use alacritty::clipboard::{
    windows_clipboard_data, windows_get_clipboard, windows_load_failed, windows_set_clipboard,
    Backend, Clipboard, ClipboardType, DisplayKind, LoadStep, Loaded, Route, StoreStep,
};
use alacritty::crash::{crash_message, crash_title};
use alacritty::platform::Platform;

fn atoms() -> X11Atoms {
    X11Atoms::interned(10, 11, 12, 13, 14)
}

fn request(target: u32) -> SelectionRequest {
    SelectionRequest { time: 1, requestor: 2, selection: 10, target, property: 30 }
}

#[test]
fn atoms_are_interned_in_order() {
    assert_eq!(
        atom_names(),
        ["CLIPBOARD", "THIS_CLIPBOARD_OUT", "TARGETS", "UTF8_STRING", "INCR"]
    );
    assert_eq!(atoms().primary, 1);
    assert_eq!(atoms().utf8_string, 13);
    assert!(selection_owned(5, 5).is_ok());
    assert_eq!(selection_owned(5, 6).unwrap_err(), "failed to own selection");
}

#[test]
fn clipboards_follow_the_display() {
    assert_eq!(Clipboard::new(DisplayKind::Wayland, true).backend, Backend::Wayland);
    assert_eq!(Clipboard::new(DisplayKind::X11, true).backend, Backend::X11);
    assert_eq!(Clipboard::new(DisplayKind::X11, false).backend, Backend::Nop);
    assert_eq!(Clipboard::new(DisplayKind::Unknown, true).backend, Backend::X11);
    assert_eq!(Clipboard::default().backend, Backend::Nop);
    assert_eq!(Clipboard::x11_attempts(DisplayKind::X11), 2);
    assert_eq!(Clipboard::x11_attempts(DisplayKind::Other), 1);
    assert_eq!(Clipboard::x11_attempts(DisplayKind::Wayland), 0);
}

#[test]
fn text_goes_where_it_belongs() {
    let x11 = Clipboard::new(DisplayKind::X11, true);
    let (route, bytes) = x11.store(ClipboardType::Selection, "hé", &atoms());
    assert_eq!(route, Route::X11 { selection: 1, target: 13 });
    assert_eq!(bytes, [104, 0xc3, 0xa9]);
    assert_eq!(
        x11.route(ClipboardType::Clipboard, &atoms()),
        Route::X11 { selection: 10, target: 13 }
    );
    let wayland = Clipboard::new(DisplayKind::Wayland, false);
    assert_eq!(wayland.route(ClipboardType::Selection, &atoms()), Route::WaylandPrimary);
    assert_eq!(wayland.route(ClipboardType::Clipboard, &atoms()), Route::WaylandClipboard);
    let windows = Clipboard::new_nop(Platform::Windows);
    assert_eq!(windows.route(ClipboardType::Selection, &atoms()), Route::Nowhere);
    assert_eq!(windows.route(ClipboardType::Clipboard, &atoms()), Route::Windows);
    assert_eq!(Clipboard::new_nop(Platform::OtherUnix).route(ClipboardType::Clipboard, &atoms()), Route::Nowhere);
}

#[test]
fn loaded_bytes_must_be_text() {
    let clipboard = Clipboard::new(DisplayKind::X11, true);
    let load = |loaded| clipboard.load(ClipboardType::Selection, loaded);
    assert_eq!(load(Loaded::Text("a".to_owned())), "a");
    assert_eq!(load(Loaded::Bytes("漢".as_bytes().to_vec())), "漢");
    assert_eq!(load(Loaded::Bytes(vec![0xff])), "");
    assert_eq!(load(Loaded::Nothing), "");
}

#[test]
fn what_is_not_kept_is_not_loaded() {
    assert_eq!(Clipboard::new_nop(Platform::Macos).backend, Backend::Nop);
    let text = || Loaded::Text("a".to_owned());
    assert_eq!(Clipboard::new_nop(Platform::OtherUnix).load(ClipboardType::Clipboard, text()), "");
    let windows = Clipboard::new_nop(Platform::Windows);
    assert_eq!(windows.load(ClipboardType::Selection, text()), "");
    assert_eq!(windows.load(ClipboardType::Clipboard, text()), "a");
}

#[test]
fn short_values_are_sent_at_once() {
    let mut stored = HashMap::new();
    stored.insert(10, (13, vec![1, 2, 3]));
    let mut owner = Owner::new(atoms(), 100);
    let actions = owner.selection_request(&stored, request(13));
    assert_eq!(actions.len(), 3);
    assert!(matches!(
        &actions[0],
        OwnerAction::SetBytes { window: 2, property: 30, kind: 13, bytes } if *bytes == [1, 2, 3]
    ));
    assert!(matches!(actions[2], OwnerAction::Flush));
    let actions = owner.selection_request(&stored, request(12));
    assert!(matches!(
        &actions[0],
        OwnerAction::SetAtoms { kind: 4, atoms, .. } if *atoms == [12, 13]
    ));
    let mut other = request(13);
    other.selection = 99;
    assert!(owner.selection_request(&stored, other).is_empty());
}

#[test]
fn copied_text_is_pasted_in_increments() {
    let text = "0123456789".repeat(900);
    let value = text.clone().into_bytes();
    let mut stored = HashMap::new();
    stored.insert(10, (13, value.clone()));
    let mut owner = Owner::new(atoms(), 100);
    owner.selection_request(&stored, request(13));
    assert!(!owner.abandoned());

    let mut requestor = Requestor::new(10, 13, 30, 14);
    assert_eq!(
        requestor.selection_notify(10, 30),
        Next::ReadSelection { property: 30, offset: 0 }
    );
    assert_eq!(
        requestor.selection_reply(14, &vec![], Some(9000)),
        Next::StartIncrements { property: 30 }
    );
    let mut sizes = vec![];
    loop {
        assert!(owner.can_continue(&stored, 30));
        let actions = owner.property_notify(&stored, 30, true);
        let bytes = match &actions[0] {
            OwnerAction::SetBytes { bytes, .. } => bytes.clone(),
            _ => panic!("no bytes"),
        };
        sizes.push(bytes.len());
        assert_eq!(requestor.property_notify(true), Next::MeasureIncrement { property: 30 });
        assert_eq!(
            requestor.measured(bytes.len() as u32),
            Next::ReadIncrement { property: 30, length: bytes.len() as u32 }
        );
        if requestor.increment_reply(13, &bytes) == Next::Finish {
            break;
        }
    }
    assert_eq!(sizes, [INCR_CHUNK_SIZE, INCR_CHUNK_SIZE, 1000, 0]);
    assert!(owner.abandoned());
    assert_eq!(requestor.buffer, value);
    let clipboard = Clipboard::new(DisplayKind::X11, true);
    assert_eq!(clipboard.load(ClipboardType::Clipboard, Loaded::Bytes(requestor.buffer)), text);
}

#[test]
fn new_values_end_old_transfers() {
    let mut stored = HashMap::new();
    stored.insert(10, (13, vec![0; 200]));
    let mut owner = Owner::new(atoms(), 100);
    owner.selection_request(&stored, request(13));
    owner.restored(10);
    assert!(owner.abandoned());
    owner.selection_request(&stored, request(13));
    stored.insert(10, (13, vec![0; 5]));
    owner.state_map.get_mut(&30).unwrap().pos = 50;
    assert!(!owner.can_continue(&stored, 30));
    let actions = owner.selection_clear(10);
    assert!(matches!(actions[0], OwnerAction::Forget { selection: 10 }));
    assert!(owner.abandoned());
    assert!(owner.property_notify(&stored, 30, true).is_empty());
}

#[test]
fn reading_can_fail() {
    let mut requestor = Requestor::new(10, 13, 30, 14);
    assert_eq!(requestor.waited(true, false, true), Some(Next::Fail(LoadError::Timeout)));
    assert_eq!(requestor.waited(false, true, true), Some(Next::Fail(LoadError::Event)));
    assert_eq!(requestor.waited(false, false, false), Some(Next::Park));
    assert_eq!(requestor.waited(false, false, true), None);
    assert_eq!(requestor.selection_notify(11, 30), Next::Poll);
    assert_eq!(requestor.selection_notify(10, 0), Next::Finish);
    assert_eq!(
        requestor.selection_reply(99, &vec![1], None),
        Next::Fail(LoadError::UnexpectedType)
    );
    assert_eq!(requestor.property_notify(true), Next::Poll);
    assert_eq!(requestor.selection_reply(13, &vec![1], None), Next::Finish);
    assert_eq!(LoadError::Timeout.message(), "timeout");
    assert_eq!(LoadError::Event.message(), "event error");
    assert_eq!(LoadError::UnexpectedType.message(), "unexpected type");
}

#[test]
fn windows_clipboard_is_always_closed() {
    for step in [StoreStep::GlobalAlloc, StoreStep::GlobalLock, StoreStep::OpenClipboard] {
        assert!(!windows_set_clipboard(Some(step)).close);
    }
    let end = windows_set_clipboard(Some(StoreStep::EmptyClipboard));
    assert!(end.close);
    assert_eq!(end.result.unwrap_err(), "EmptyClipboard failed");
    let end = windows_set_clipboard(Some(StoreStep::SetClipboardData));
    assert_eq!(end.result.unwrap_err(), "SetClipboardData failed");
    assert!(windows_set_clipboard(None).result.is_ok());
    assert!(!windows_load_failed(LoadStep::OpenClipboard).close);
    let end = windows_load_failed(LoadStep::GetClipboardData);
    assert!(end.close);
    assert_eq!(end.result.unwrap_err(), "GetClipboardData failed");
    assert_eq!(windows_load_failed(LoadStep::GlobalLock).result.unwrap_err(), "GlobalLock failed");
    let stored = windows_clipboard_data("copy 😀");
    assert_eq!(windows_get_clipboard(&stored), "copy 😀");
}

#[test]
fn crashes_are_shown() {
    assert_eq!(crash_title(), "Alacritty: Runtime Error");
    assert_eq!(crash_message("boom"), "boom\n\nPress Ctrl-C to Copy");
}
