//! The configuration: what is asked of the file system, and what comes out.

use hbwatch::cli::{default_config_path, log_level, print_plan};
use hbwatch::config::{
    clamp_settings, default_bind, default_debounce, default_extensions, default_handbrake,
    default_log_level, default_max_attempts, default_min_output, default_poll, default_port,
    default_rescan, default_retry_delay, default_server, default_stab_checks,
    default_stab_interval, default_state_file, default_watch_mode, default_workers, expand,
    resolve_notifications, resolve_preset_file, warn_on_format_mismatch, Config, ConfigError, Folder, Notifications,
    ResolvedConfig, Server, Settings, WatchMode,
};
use hbwatch::path::FilePath;
use hbwatch::preset::{PresetError, PresetFile, PresetInfo, PresetNode};
use hbwatch::resolver::{resolve, PresetReadError, Reply, Request, Step};

fn path(text: &str) -> FilePath {
    FilePath::from_text(text)
}

fn settings() -> Settings {
    Settings {
        handbrake_cli: default_handbrake(),
        extensions: default_extensions(),
        watch_mode: default_watch_mode(),
        poll_interval_secs: default_poll(),
        rescan_interval_secs: 0,
        debounce_secs: default_debounce(),
        stabilize_interval_secs: default_stab_interval(),
        stabilize_checks: default_stab_checks(),
        workers: default_workers(),
        max_attempts: 3,
        retry_delay_secs: 60,
        min_output_bytes: default_min_output(),
        encode_timeout_secs: 0,
        log_level: default_log_level(),
        state_file: default_state_file(),
        preset_dir: None,
    }
}

fn server() -> Server {
    Server {
        enabled: false,
        bind: "127.0.0.1".to_owned(),
        port: 9000,
        token: None,
    }
}

fn folder(name: &str) -> Folder {
    Folder {
        name: name.to_owned(),
        watch_dir: format!("~/in/{name}"),
        preset_file: Some(format!("/presets/{name}.json")),
        preset_name: None,
        output_dir: format!("/out/{name}"),
        originals_dir: format!("/orig/{name}"),
        output_extension: "mp4".to_owned(),
    }
}

fn config(folders: Vec<Folder>) -> Config {
    Config {
        settings: settings(),
        notifications: Notifications::default(),
        server: server(),
        folders,
    }
}

fn presets(name: &str, format: Option<&str>) -> PresetFile {
    PresetFile {
        preset_list: vec![PresetNode {
            preset_name: Some(name.to_owned()),
            file_format: format.map(str::to_owned),
            folder: false,
            children: Vec::new(),
        }],
    }
}

/// Answers every request as a file system would in which everything is there, but for `refuse`.
fn run(
    raw: Config,
    refuse: &dyn Fn(&Request) -> Option<Reply>,
) -> (Vec<String>, Result<ResolvedConfig, ConfigError>) {
    let mut asked = Vec::new();
    let mut step = resolve(raw, Some(path("/home/me")));
    loop {
        match step {
            Step::Done(cfg) => return (asked, Ok(cfg)),
            Step::Failed(error) => return (asked, Err(error)),
            Step::Ask { resolver, request } => {
                let (line, reply) = match &request {
                    Request::WatchDir { dir } => (
                        format!("watch {}", dir.display()),
                        Reply::WatchDir(Some(dir.clone())),
                    ),
                    Request::CreateDir { dir } => (
                        format!("create {}", dir.display()),
                        Reply::Created(Ok(dir.clone())),
                    ),
                    Request::FindPreset { path } => {
                        (format!("find {}", path.display()), Reply::Found(true))
                    }
                    Request::ReadPreset { path } => (
                        format!("read {}", path.display()),
                        Reply::Preset(Ok(presets("P", Some("av_mp4")))),
                    ),
                    Request::Warn { folder, .. } => (format!("warn {folder}"), Reply::Warned),
                };
                asked.push(line);
                step = resolver.answer(refuse(&request).unwrap_or(reply));
            }
        }
    }
}

#[test]
fn defaults() {
    assert_eq!(default_handbrake(), "HandBrakeCLI");
    assert_eq!(
        default_extensions(),
        ["mkv", "mp4", "mov", "avi", "m4v", "ts", "wmv", "flv"]
    );
    assert!(matches!(default_watch_mode(), WatchMode::Poll));
    assert_eq!(default_poll(), 30);
    assert_eq!(default_debounce(), 3);
    assert_eq!(default_stab_interval(), 2);
    assert_eq!(default_stab_checks(), 2);
    assert_eq!(default_workers(), 1);
    assert_eq!(default_min_output(), 1_000_000);
    assert_eq!(default_log_level(), "info");
    assert_eq!(default_state_file(), "~/.config/hbwatch/queue-state.json");
    assert_eq!(default_server(), "https://ntfy.sh");
    assert_eq!(default_rescan(), 300);
    assert_eq!(default_max_attempts(), 3);
    assert_eq!(default_retry_delay(), 60);
    assert_eq!(default_bind(), "127.0.0.1");
    assert_eq!(default_port(), 9000);
    let server = Server::default();
    assert!(!server.enabled);
    assert_eq!(server.bind, "127.0.0.1");
    assert_eq!(server.token, None);
}

#[test]
fn a_leading_tilde_is_the_home_directory() {
    let home = Some(path("/home/me"));
    assert_eq!(expand("~/films", &home).as_bytes(), b"/home/me/films");
    assert_eq!(expand("~/films", &None).as_bytes(), b"~/films");
    assert_eq!(expand("~", &home).as_bytes(), b"/home/me");
    assert_eq!(expand("~", &None).as_bytes(), b"~");
    assert_eq!(expand("~/", &home), path("/home/me"));
    assert_eq!(expand("/films", &home).as_bytes(), b"/films");
    assert_eq!(expand("~films", &home).as_bytes(), b"~films");
}

#[test]
fn folders_are_resolved_in_order() {
    let (asked, result) = run(config(vec![folder("a"), folder("b")]), &|_| None);
    assert_eq!(
        asked,
        [
            "watch /home/me/in/a",
            "watch /home/me/in/b",
            "create /out/a",
            "create /orig/a",
            "find /presets/a.json",
            "read /presets/a.json",
            "create /out/b",
            "create /orig/b",
            "find /presets/b.json",
            "read /presets/b.json",
        ]
    );
    let cfg = result.unwrap();
    assert_eq!(cfg.folders.len(), 2);
    assert_eq!(cfg.folders[1].name, "b");
    assert_eq!(cfg.folders[1].watch_dir, path("/home/me/in/b"));
    assert_eq!(cfg.folders[1].output_dir, path("/out/b"));
    assert_eq!(cfg.folders[1].originals_dir, path("/orig/b"));
    assert_eq!(cfg.folders[1].preset_file, path("/presets/b.json"));
    assert_eq!(cfg.folders[1].preset_name, "P");
    assert_eq!(
        cfg.state_file,
        path("/home/me/.config/hbwatch/queue-state.json")
    );
}

#[test]
fn a_configuration_without_folders_is_refused() {
    let (asked, result) = run(config(Vec::new()), &|_| None);
    assert!(asked.is_empty());
    assert_eq!(
        result.unwrap_err().message(),
        "config has no [[folder]] entries"
    );
}

#[test]
fn nothing_is_created_while_a_watched_folder_is_missing() {
    let missing = |request: &Request| match request {
        Request::WatchDir { dir } if dir.display().ends_with("/b") => Some(Reply::WatchDir(None)),
        _ => None,
    };
    let (asked, result) = run(config(vec![folder("a"), folder("b")]), &missing);
    assert_eq!(asked, ["watch /home/me/in/a", "watch /home/me/in/b"]);
    assert_eq!(
        result.unwrap_err().message(),
        "watch_dir does not exist: /home/me/in/b"
    );
}

#[test]
fn a_directory_that_cannot_be_created_is_an_error() {
    let refused = |request: &Request| match request {
        Request::CreateDir { .. } => Some(Reply::Created(Err("read-only".to_owned()))),
        _ => None,
    };
    let (_, result) = run(config(vec![folder("a")]), &refused);
    let error = result.unwrap_err();
    assert!(matches!(error, ConfigError::DirNotCreated { .. }));
    assert!(error
        .message()
        .starts_with("failed to create directory: /out/a"));
}

#[test]
fn writing_into_a_watched_folder_is_refused() {
    let mut inside = folder("a");
    inside.output_dir = "/home/me/in/b/out".to_owned();
    let (_, result) = run(config(vec![inside, folder("b")]), &|_| None);
    assert_eq!(
        result.unwrap_err().message(),
        "output_dir /home/me/in/b/out must not be inside watch_dir /home/me/in/b"
    );
    let mut inside = folder("a");
    inside.originals_dir = "~/in/a".to_owned();
    let (_, result) = run(config(vec![inside]), &|_| None);
    assert_eq!(
        result.unwrap_err().message(),
        "originals_dir /home/me/in/a must not be inside watch_dir /home/me/in/a"
    );
}

#[test]
fn presets_are_found_by_convention() {
    let mut own = folder("a");
    own.preset_file = None;
    let mut raw = settings();
    let home = Some(path("/home/me"));
    let none = resolve_preset_file(&own, &raw, &home).unwrap_err();
    assert_eq!(
        none.message(),
        "folder 'a' has no preset_file and no preset_dir is set"
    );
    raw.preset_dir = Some("~/presets".to_owned());
    assert_eq!(
        resolve_preset_file(&own, &raw, &home).unwrap(),
        path("/home/me/presets/a.json")
    );
    own.preset_file = Some("/p.json".to_owned());
    assert_eq!(
        resolve_preset_file(&own, &raw, &home).unwrap(),
        path("/p.json")
    );
}

#[test]
fn preset_trouble_is_an_error() {
    let gone = |request: &Request| match request {
        Request::FindPreset { .. } => Some(Reply::Found(false)),
        _ => None,
    };
    let (_, result) = run(config(vec![folder("a")]), &gone);
    assert_eq!(
        result.unwrap_err().message(),
        "preset file not found: /presets/a.json"
    );
    let unreadable = |request: &Request| match request {
        Request::ReadPreset { .. } => Some(Reply::Preset(Err(PresetReadError::Unreadable(
            "denied".to_owned(),
        )))),
        _ => None,
    };
    let (_, result) = run(config(vec![folder("a")]), &unreadable);
    assert!(result
        .unwrap_err()
        .message()
        .starts_with("failed to read preset file: /presets/a.json"));
    let unparsable = |request: &Request| match request {
        Request::ReadPreset { .. } => Some(Reply::Preset(Err(PresetReadError::Unparsable(
            "eof".to_owned(),
        )))),
        _ => None,
    };
    let (_, result) = run(config(vec![folder("a")]), &unparsable);
    assert!(result
        .unwrap_err()
        .message()
        .starts_with("failed to parse preset JSON: /presets/a.json"));
    let empty = |request: &Request| match request {
        Request::ReadPreset { .. } => Some(Reply::Preset(Ok(PresetFile {
            preset_list: Vec::new(),
        }))),
        _ => None,
    };
    let (_, result) = run(config(vec![folder("a")]), &empty);
    assert!(matches!(
        result,
        Err(ConfigError::Preset(PresetError::Empty { .. }))
    ));
}

#[test]
fn a_format_that_does_not_match_is_warned_of() {
    let mut mkv = folder("a");
    mkv.output_extension = "mkv".to_owned();
    let (asked, result) = run(config(vec![mkv]), &|_| None);
    assert_eq!(asked.last().map(String::as_str), Some("warn a"));
    assert_eq!(result.unwrap().folders[0].output_extension, "mkv");
    let info = |format: Option<&str>| PresetInfo {
        name: "P".to_owned(),
        file_format: format.map(str::to_owned),
    };
    assert!(!warn_on_format_mismatch(&folder("a"), &info(Some("av_mp4"))));
    assert!(warn_on_format_mismatch(&folder("a"), &info(Some("av_mkv"))));
    assert!(!warn_on_format_mismatch(&folder("a"), &info(None)));
}

#[test]
fn notifications_need_a_topic_where_they_are_enabled() {
    let mut n = Notifications::default();
    n.server = "  ".to_owned();
    assert_eq!(resolve_notifications(n).unwrap().server, "https://ntfy.sh");
    let mut n = Notifications::default();
    n.enabled = true;
    n.topic = " \t".to_owned();
    assert_eq!(
        resolve_notifications(n).unwrap_err().message(),
        "notifications.enabled requires a topic"
    );
    let mut n = Notifications::default();
    n.enabled = true;
    n.topic = "films".to_owned();
    n.server = "https://push.example/".to_owned();
    let n = resolve_notifications(n).unwrap();
    assert_eq!(n.topic, "films");
    assert_eq!(n.server, "https://push.example/");
}

#[test]
fn settings_are_clamped() {
    let mut raw = settings();
    raw.workers = 0;
    raw.stabilize_checks = 0;
    let s = clamp_settings(raw);
    assert_eq!(s.workers, 1);
    assert_eq!(s.stabilize_checks, 1);
    let mut raw = settings();
    raw.workers = 9;
    raw.stabilize_checks = 7;
    let s = clamp_settings(raw);
    assert_eq!(s.workers, 5);
    assert_eq!(s.stabilize_checks, 7);
}

#[test]
fn the_plan_tells_of_every_folder() {
    let (_, result) = run(config(vec![folder("a")]), &|_| None);
    let lines = print_plan(&result.unwrap());
    let plan = lines.join("\n");
    assert_eq!(
        plan,
        "hbwatch configuration (1 folder(s)):\n\n  \
         watch_mode: Poll\n  \
         handbrake:  HandBrakeCLI\n  \
         state_file: /home/me/.config/hbwatch/queue-state.json\n\n  \
         [a]\n    \
         watch:     /home/me/in/a\n    \
         preset:    /presets/a.json (-Z \"P\")\n    \
         output:    /out/a/*.mp4\n    \
         originals: /orig/a\n\n  \
         notifications: enabled=false failure=false item=false drain=false"
    );
}

#[test]
fn the_command_line_has_defaults() {
    assert_eq!(
        default_config_path(&Some(path("/home/me"))).as_bytes(),
        b"/home/me/.config/hbwatch/config.toml"
    );
    assert_eq!(
        default_config_path(&None).as_bytes(),
        b".config/hbwatch/config.toml"
    );
    assert_eq!(log_level(true, "debug"), "warn");
    assert_eq!(log_level(false, "debug"), "debug");
}
