use alacritty::cli::Options;
use alacritty::config::general::{default_true, General};
use alacritty::config::monitor::{
    after_wait, contains_watched_file, hash_paths, is_reload, normalized_file_name, watched_paths,
    ConfigMonitor, FoundPath, WatchStep, WatchTarget, WatchedPath,
};
use alacritty::config::{
    chosen_config, config_path, installed_config_name, load, load_failure, read_config,
    strip_mark, Error, LevelFilter, ReadConfig, UiConfig,
};

fn strings(list: &[&str]) -> Vec<String> {
    list.iter().map(|text| (*text).to_owned()).collect()
}

fn not_found() -> Error {
    Error::Io { not_found: true, text: "gone".to_owned() }
}

#[test]
fn marks_are_stripped() {
    assert_eq!(strip_mark("\u{feff}a=1"), "a=1");
    assert_eq!(strip_mark("a\u{feff}"), "a\u{feff}");
    assert_eq!(strip_mark("\u{feff}\u{feff}"), "\u{feff}");
    assert!(read_config("\u{feff}a=1").is_ok());
    assert!(matches!(read_config("a="), Err(Error::Toml(_))));
}

#[test]
fn errors_are_described() {
    assert_eq!(not_found().message(), "Error reading config file: gone");
    assert_eq!(Error::Toml("bad".to_owned()).message(), "Config error: bad");
    assert_eq!(
        load_failure("\"/a\"", &not_found()),
        "Unable to load config \"/a\": File not found"
    );
    let denied = Error::Io { not_found: false, text: "denied".to_owned() };
    assert_eq!(
        load_failure("\"/a\"", &denied),
        "Unable to load config \"/a\": Error reading config file: denied"
    );
    assert_eq!(
        load_failure("\"/a\"", &Error::Toml("bad".to_owned())),
        "Unable to load config \"/a\": Config error: bad"
    );
}

#[test]
fn explicit_files_come_first() {
    let mut options = Options::default();
    assert_eq!(config_path(&options, None), None);
    assert_eq!(config_path(&options, Some("/b".to_owned())).as_deref(), Some("/b"));
    options.config_file = Some("/a".to_owned());
    assert_eq!(config_path(&options, Some("/b".to_owned())).as_deref(), Some("/a"));
    assert_eq!(installed_config_name("toml"), "alacritty.toml");
}

#[test]
fn broken_files_give_the_default() {
    let read = || Some(ReadConfig { path: "/a".to_owned(), config: Err(not_found()) });
    assert!(chosen_config(true, read()).is_none());
    let config = chosen_config(false, read()).unwrap();
    assert_eq!(config.config_paths, ["/a"]);
    assert!(config.general.ipc_socket);
    assert!(chosen_config(true, None).unwrap().config_paths.is_empty());

    let mut options = Options::default();
    options.print_events = true;
    let config = load(&options, read()).unwrap();
    assert_eq!(config.debug.log_level, LevelFilter::Info);
    options.config_file = Some("/a".to_owned());
    assert!(load(&options, read()).is_none());
    let mut loaded = UiConfig::default();
    loaded.window.dynamic_title = false;
    let read = Some(ReadConfig { path: "/a".to_owned(), config: Ok(loaded) });
    assert!(!load(&options, read).unwrap().window.dynamic_title);
}

#[test]
fn general_settings_have_defaults() {
    let general = General::default();
    assert!(general.working_directory.is_none());
    assert!(general.ipc_socket);
    assert!(default_true());
}

#[test]
fn order_of_files_does_not_matter() {
    let first = hash_paths(&strings(&["/b", "/a", "/c"]));
    assert!(first.is_some());
    assert_eq!(first, hash_paths(&strings(&["/c", "/b", "/a"])));
    assert_ne!(first, hash_paths(&strings(&["/a", "/b"])));
    assert_ne!(hash_paths(&strings(&["/ab"])), hash_paths(&strings(&["/a", "b"])));
    assert!(hash_paths(&vec![String::new(); 1024]).is_some());
    assert!(hash_paths(&vec![String::new(); 1025]).is_none());
}

fn found(path: &str, canonical: Option<&str>, is_symlink: bool) -> FoundPath {
    FoundPath {
        path: path.to_owned(),
        is_file: true,
        canonical: canonical.map(|path| path.to_owned()),
        is_symlink,
    }
}

#[test]
fn links_are_watched_with_their_targets() {
    let mut device = found("/dev/null", Some("/dev/null"), false);
    device.is_file = false;
    let files = vec![
        found("/a/../b", Some("/b"), false),
        found("/link", Some("/target"), true),
        device,
        found("/odd", None, false),
    ];
    assert_eq!(watched_paths(&files), ["/b", "/link", "/odd", "/target"]);
}

#[test]
fn monitors_restart_for_other_files() {
    let files = vec![found("/a", None, false), found("/b", None, false)];
    let monitor = ConfigMonitor::new(&files).unwrap();
    assert_eq!(monitor.paths, ["/a", "/b"]);
    assert!(!monitor.needs_restart(&strings(&["/a", "/b"])));
    assert!(!monitor.needs_restart(&strings(&["/b", "/a"])));
    assert!(monitor.needs_restart(&strings(&["/a"])));
    assert!(monitor.needs_restart(&vec![String::new(); 2000]));
    assert!(ConfigMonitor::new(&vec![]).is_none());
    let mut directory = found("/d", None, false);
    directory.is_file = false;
    assert!(ConfigMonitor::new(&vec![directory]).is_none());
}

fn watched(path: &str, parent: Option<&str>, name: Option<&str>) -> WatchedPath {
    WatchedPath {
        path: path.to_owned(),
        parent: parent.map(|text| text.to_owned()),
        file_name: name.map(|text| text.to_owned()),
    }
}

#[test]
fn every_file_is_watched_in_its_directory() {
    let target = WatchTarget::new(&vec![
        watched("/x/A.toml", Some("/x"), Some("A.toml")),
        watched("/y/b", Some("/y"), Some("b")),
        watched("/x/a.TOML", Some("/x"), Some("a.TOML")),
        watched("/x/c", Some("/x"), Some("c")),
        watched("/", None, None),
    ])
    .unwrap();
    assert_eq!(target.primary, "/x/A.toml");
    assert_eq!(target.directories.len(), 2);
    assert_eq!(target.directories[0].file_names, ["a.toml", "c"]);
    assert_eq!(target.directories[1].path, "/y");
    assert!(WatchTarget::new(&vec![watched("/", None, None)]).is_none());
    assert!(WatchTarget::new(&vec![]).is_none());
    assert_eq!(normalized_file_name("ÀB.Toml"), "àb.toml");
}

fn notification(next: u32, name: &str) -> Vec<u8> {
    let units: Vec<u16> = name.encode_utf16().collect();
    let mut bytes = next.to_le_bytes().to_vec();
    bytes.extend(3u32.to_le_bytes());
    bytes.extend((units.len() as u32 * 2).to_le_bytes());
    for unit in units {
        bytes.extend(unit.to_le_bytes());
    }
    while bytes.len() < next as usize {
        bytes.push(0);
    }
    bytes
}

#[test]
fn notifications_are_searched() {
    let mut buffer = notification(24, "other");
    buffer.extend(notification(0, "A.toml"));
    let length = buffer.len() as u32;
    let names = strings(&["a.toml"]);
    assert!(contains_watched_file(&buffer, length, &names));
    assert!(!contains_watched_file(&buffer, 24, &names));
    assert!(!contains_watched_file(&buffer, length, &strings(&["b.toml"])));
    assert!(contains_watched_file(&buffer, 0, &names));
    let mut broken = notification(0, "A.toml");
    broken[8] = 200;
    let length = broken.len() as u32;
    assert!(!contains_watched_file(&broken, length, &names));
    assert!(is_reload(&buffer, Some(0), &names));
    assert!(!is_reload(&buffer, None, &names));
}

#[test]
fn watchers_stop_on_shutdown() {
    assert_eq!(after_wait(None, 3), WatchStep::Stop);
    assert_eq!(after_wait(Some(0), 3), WatchStep::Stop);
    assert_eq!(after_wait(Some(3), 3), WatchStep::Check { watcher: 2 });
    assert_eq!(after_wait(Some(4), 3), WatchStep::Ignore);
}
