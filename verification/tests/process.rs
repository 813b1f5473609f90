use alacritty::cli::{IpcConfig, IpcGetConfig, SocketMessage, WindowOptions};
use alacritty::config::LevelFilter;
use alacritty::ipc::{
    socket_dir, socket_env_name, socket_name, socket_prefix, socket_prefix_without_display,
    try_recv, Received, SocketDir,
};
use alacritty::logging::{
    allowed_targets, extra_log_targets, initial_level, log_name, log_target_config,
    log_target_ipc_config, log_target_winit, nano_level, LogLevel, MessageBarWriter, MessageType,
    OnDemandLogFile,
};
use alacritty::tty::pipe::{
    BlockingPipe, Interest, PipeEnd, PollMode, PopStep, PushStep, Registration,
};
use alacritty::tty::unix::{
    child_plan, default_shell_command, get_pw_entry, interests, login_shell_command,
    next_child_event, on_resize, spawn_failure, ChildProbe, EnvChange, Passwd, ShellUser,
    WindowSize, Winsize,
};
use alacritty::tty::windows::{ChildExit, ChildExitWatcher};
use alacritty::tty::{setup_env, ChildEvent, Options as PtyOptions, Shell};

const PASSWD: &str = "# users\n\nroot:x:0:0:root:/root:/bin/bash\n#old:x:7:7::/old:/bin/sh\n\
                      short:x:7\nbad:x:x:1::/:/\nuser:x:1000:1000:A User,,,:/home/user:/bin/zsh\n";

#[test]
fn test_get_pw_entry() {
    let _pw = get_pw_entry(PASSWD, 0).unwrap();
}

#[test]
fn users_are_found_by_number() {
    let pw = get_pw_entry(PASSWD, 1000).unwrap();
    assert_eq!(pw.name, "user");
    assert_eq!(pw.dir, "/home/user");
    assert_eq!(pw.shell, "/bin/zsh");
    let pw = get_pw_entry(PASSWD, 7).unwrap();
    assert_eq!((pw.name.as_str(), pw.dir.as_str(), pw.shell.as_str()), ("short", "", ""));
    assert_eq!(get_pw_entry(PASSWD, 5).unwrap_err(), "pw not found");
}

fn passwd() -> Passwd {
    Passwd { name: "pw".to_owned(), dir: "/pw".to_owned(), shell: "/bin/pw".to_owned() }
}

#[test]
fn environment_comes_before_the_database() {
    let some = |text: &str| Some(text.to_owned());
    let user = ShellUser::from_env(some("u"), None, some("s"), Ok(passwd())).unwrap();
    assert_eq!((user.user.as_str(), user.home.as_str(), user.shell.as_str()), ("u", "/pw", "s"));
    let error = || Err("no".to_owned());
    assert!(ShellUser::from_env(some("u"), some("h"), some("s"), error()).is_ok());
    assert_eq!(ShellUser::from_env(some("u"), None, some("s"), error()).unwrap_err(), "no");
}

#[test]
fn shells_are_started() {
    let command = default_shell_command("/bin/sh");
    assert_eq!(command.program, "/bin/sh");
    assert!(command.args.is_empty());
    let command = login_shell_command("/usr/local/bin/fish", "me", true);
    assert_eq!(command.program, "/usr/bin/login");
    assert_eq!(
        command.args,
        ["-qflp", "me", "/bin/zsh", "-fc", "exec -a -fish /usr/local/bin/fish"]
    );
    assert_eq!(login_shell_command("sh", "me", false).args[0], "-flp");
    assert_eq!(login_shell_command("sh", "me", false).args[4], "exec -a -sh sh");
    assert_eq!(spawn_failure("sh", "no"), "Failed to spawn command 'sh': no");
}

#[test]
fn children_get_their_environment() {
    let user = || ShellUser {
        user: "me".to_owned(),
        home: "/me".to_owned(),
        shell: "/bin/sh".to_owned(),
    };
    let mut config = PtyOptions::default();
    config.env.push(("HOME".to_owned(), "/other".to_owned()));
    config.working_directory = Some("/srv".to_owned());
    let plan = child_plan(&config, 42, user(), default_shell_command("/bin/sh"));
    assert_eq!(plan.command.program, "/bin/sh");
    assert_eq!(plan.working_directory.as_deref(), Some("/srv"));
    let steps: Vec<String> = plan
        .env
        .iter()
        .map(|change| match change {
            EnvChange::Assign(name, value) => format!("{name}={value}"),
            EnvChange::Remove(name) => format!("-{name}"),
        })
        .collect();
    assert_eq!(
        steps,
        [
            "ALACRITTY_WINDOW_ID=42",
            "USER=me",
            "HOME=/me",
            "WINDOWID=42",
            "HOME=/other",
            "-XDG_ACTIVATION_TOKEN",
            "-DESKTOP_STARTUP_ID",
        ]
    );
    config.shell = Some(Shell::new("vi".to_owned(), vec!["-R".to_owned()]));
    let plan = child_plan(&config, 42, user(), default_shell_command("/bin/sh"));
    assert_eq!(plan.command.program, "vi");
    assert_eq!(plan.command.args, ["-R"]);
}

#[test]
fn terminals_are_resized() {
    let size = WindowSize { num_lines: 50, num_cols: 200, cell_width: 10, cell_height: 2000 };
    assert_eq!(
        on_resize(size),
        Winsize { ws_row: 50, ws_col: 200, ws_xpixel: 2000, ws_ypixel: 34464 }
    );
    let variables = setup_env();
    assert_eq!(variables[0], ("TERM".to_owned(), "xterm-256color".to_owned()));
    assert_eq!(variables[1], ("COLORTERM".to_owned(), "truecolor".to_owned()));
}

#[test]
fn child_events_are_told() {
    let news = next_child_event(&ChildProbe::Exited(3));
    assert_eq!(news.event, Some(ChildEvent::Exited(Some(3))));
    assert!(news.message.is_none());
    let news = next_child_event(&ChildProbe::NoSignal { error: Some("x".to_owned()) });
    assert_eq!(news.message.as_deref(), Some("Error reading from signal pipe: x"));
    let news = next_child_event(&ChildProbe::Unknown { error: "x".to_owned() });
    assert_eq!(news.message.as_deref(), Some("Error checking child process termination: x"));
    for probe in [ChildProbe::Running, ChildProbe::NoSignal { error: None }] {
        let news = next_child_event(&probe);
        assert!(news.event.is_none() && news.message.is_none());
    }
}

fn interest() -> Interest {
    Interest { key: 9, readable: true, writable: true, mode: PollMode::Oneshot }
}

#[test]
fn signals_are_always_waited_for() {
    let (terminal, signals) = interests(interest());
    assert_eq!((terminal.key, terminal.writable), (0, true));
    assert_eq!(terminal.mode, PollMode::Oneshot);
    assert_eq!((signals.key, signals.readable, signals.writable), (1, true, false));
    assert_eq!(signals.mode, PollMode::Level);

    let mut watcher = ChildExitWatcher::new();
    assert_eq!(watcher.child_exit(true, Some(1)), None);
    watcher.register(interest());
    assert_eq!(
        watcher.child_exit(false, Some(1)),
        Some(ChildExit { event: ChildEvent::Exited(Some(1)), wake: Some(interest()) })
    );
    watcher.deregister();
    assert_eq!(watcher.child_exit(false, None).unwrap().wake, None);
}

#[test]
fn pushes_are_complete() {
    let data: Vec<u8> = (0..10).collect();
    let mut pipe = BlockingPipe::new(4);
    let (mut written, mut out) = (0, vec![]);
    while written < data.len() {
        match pipe.push_blocking(&data, written) {
            PushStep::Wrote { written: end } => written = end,
            _ => assert_eq!(pipe.pop_blocking(&mut out), PopStep::Took),
        }
    }
    assert_eq!(pipe.pop_blocking(&mut out), PopStep::Took);
    assert_eq!(out, data);
}

#[test]
fn pipes_keep_the_order() {
    let mut pipe = BlockingPipe::new(4);
    assert!(pipe.is_empty());
    assert_eq!(pipe.push_blocking(&[1, 2, 3, 4, 5, 6], 0), PushStep::Wrote { written: 4 });
    assert!(pipe.is_full());
    assert_eq!(pipe.push_blocking(&[1, 2, 3, 4, 5, 6], 4), PushStep::Wait);
    let mut buffer = [0; 3];
    assert_eq!(pipe.try_read(&mut buffer), 3);
    assert_eq!(buffer, [1, 2, 3]);
    assert_eq!(pipe.push_blocking(&[1, 2, 3, 4, 5, 6], 4), PushStep::Wrote { written: 6 });
    assert_eq!(pipe.try_write(&[7, 8]), 1);
    let mut out = vec![];
    assert_eq!(pipe.pop_blocking(&mut out), PopStep::Took);
    assert_eq!(out, [4, 5, 6, 7]);
    assert_eq!(pipe.pop_blocking(&mut out), PopStep::Wait);
    pipe.close();
    assert_eq!(pipe.pop_blocking(&mut out), PopStep::Closed);
    assert_eq!(pipe.push_blocking(&[1], 0), PushStep::Closed);
    assert_eq!(pipe.try_write(&[1]), 0);
}

#[test]
fn interests_are_used_up() {
    let mut registration = Registration::new(PipeEnd::Reader);
    assert_eq!(registration.wake(), None);
    assert!(registration.register(interest(), false, true));
    assert_eq!(registration.wake(), Some(interest()));
    assert_eq!(registration.wake(), None);
    let mut registration = Registration::new(PipeEnd::Writer);
    assert!(!registration.register(interest(), false, true));
    registration.deregister();
    assert_eq!(registration.wake(), None);
}

#[test]
fn sockets_are_named_after_the_display() {
    let some = |text: &str| Some(text.to_owned());
    assert_eq!(socket_prefix(some("wayland/1"), some(":0")), "Alacritty-wayland-1");
    assert_eq!(socket_prefix(None, some(":0")), "Alacritty-:0");
    assert_eq!(socket_prefix(None, None), "Alacritty-");
    assert_eq!(socket_prefix_without_display(), "Alacritty");
    assert_eq!(socket_name("Alacritty-:0", 120), "Alacritty-:0-120.sock");
    assert_ne!(socket_name("A", 12), socket_name("A", 121));
    assert_eq!(socket_dir(Some(true)), SocketDir::Runtime);
    assert_eq!(socket_dir(Some(false)), SocketDir::Temporary);
    assert_eq!(socket_dir(None), SocketDir::Temporary);
    assert_eq!(socket_env_name(), "ALACRITTY_SOCKET");
}

#[test]
fn only_questions_keep_the_connection() {
    let question = SocketMessage::GetConfig(IpcGetConfig { window_id: Some(-1) });
    assert!(try_recv(Received::Message(question)).unwrap().1);
    let config = SocketMessage::Config(IpcConfig { options: vec![], window_id: None, reset: true });
    assert!(!try_recv(Received::Message(config)).unwrap().1);
    let window = SocketMessage::CreateWindow(WindowOptions::default());
    assert!(!try_recv(Received::Message(window)).unwrap().1);
    assert!(try_recv(Received::Nothing).is_none());
    assert!(try_recv(Received::Garbage).is_none());
}

#[test]
fn targets_are_allowed() {
    let extra = extra_log_targets(Some("a;;b;".to_owned()));
    assert_eq!(allowed_targets(extra), ["alacritty", "crossfont", "a", "b"]);
    assert!(extra_log_targets(None).is_empty());
    assert_eq!(log_target_config(), "alacritty_config_derive");
    assert_eq!(log_target_ipc_config(), "alacritty_log_window_config");
    assert_eq!(log_target_winit(), "alacritty_winit_event");
}

#[test]
fn logger_levels_follow_the_filter() {
    assert_eq!(nano_level(LevelFilter::Off), None);
    assert_eq!(nano_level(LevelFilter::Trace), Some(LogLevel::Trace));
    assert_eq!(initial_level(LevelFilter::Off), LogLevel::Error);
    assert_eq!(initial_level(LevelFilter::Debug), LogLevel::Debug);
}

#[test]
fn errors_become_messages() {
    let writer = MessageBarWriter::new("/tmp/a.log".to_owned(), false);
    let (length, message) = writer.write(b"[ERROR]  it \xff broke \n");
    assert_eq!(length, 21);
    let message = message.unwrap();
    assert_eq!(message.ty, MessageType::Error);
    assert_eq!(
        message.text,
        "[ERROR] it \u{fffd} broke\nSee log at /tmp/a.log ($ALACRITTY_LOG)"
    );
    let windows = MessageBarWriter::new("a".to_owned(), true);
    let message = windows.message_for("[WARN] x").unwrap();
    assert_eq!(message.ty, MessageType::Warning);
    assert_eq!(message.text, "[WARN] x\nSee log at a (%ALACRITTY_LOG%)");
    assert!(writer.write(b"[INFO] x").1.is_none());
}

#[test]
fn log_files_are_made_on_demand() {
    assert_eq!(log_name(7), "Alacritty-7.log");
    let mut file = OnDemandLogFile::new("/l".to_owned());
    assert!(file.must_create(false));
    assert_eq!(file.created(&Err("no".to_owned())), "Unable to create log file: no");
    assert!(file.must_create(true));
    assert_eq!(file.created(&Ok(())), "Created log file at \"/l\"");
    assert!(!file.must_create(true));
    assert!(file.must_create(false));
}
