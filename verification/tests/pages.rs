//! What the daemon shows: progress, status, metrics, notifications and service units.

use hbwatch::config::{Notifications, ResolvedConfig, ResolvedFolder, Server, Settings, WatchMode};
use hbwatch::dashboard::{index, INDEX_HTML};
use hbwatch::notify_ntfy::Notifier;
use hbwatch::path::FilePath;
use hbwatch::progress::{folder_message, overall, queued_text, tick_message, truncate};
use hbwatch::queue::{job_at, Job, Queue};
use hbwatch::server::{authorized, build_status, listen_addr, metrics, render_metrics, status_json};
use hbwatch::service::{
    config_dir, install, launchd_path, remove_unit, systemd_path, uninstall, Platform, ServiceError,
};
use hbwatch::status::{Current, FolderStatus, Snapshot, StatusResponse, StatusStore};
use hbwatch::statuscmd::{fetch, print_live, print_offline};
use uuid::Uuid;

fn path(text: &str) -> FilePath {
    FilePath::from_text(text)
}

fn folder(name: &str) -> ResolvedFolder {
    ResolvedFolder {
        name: name.to_owned(),
        watch_dir: path("/in"),
        output_dir: path("/out"),
        originals_dir: path("/orig"),
        output_extension: "mp4".to_owned(),
        preset_file: path("/p.json"),
        preset_name: "P".to_owned(),
    }
}

fn job(name: &str, folder_name: &str) -> Job {
    let input = path(&format!("/in/{name}.mkv"));
    let output = path(&format!("/out/{name}.mp4"));
    job_at(Uuid::from_u128(7), 100, &folder(folder_name), input, output)
}

fn server(token: Option<&str>) -> Server {
    Server {
        enabled: true,
        bind: "0.0.0.0".to_owned(),
        port: 9000,
        token: token.map(str::to_owned),
    }
}

fn current() -> Current {
    Current {
        folder: "movies".to_owned(),
        film: "x.mkv".to_owned(),
        fraction: 0.5f64.to_bits(),
        eta_secs: Some(75),
        fps: None,
        state: "WORKING".to_owned(),
    }
}

fn queue() -> Queue {
    let mut queue = Queue::load(None);
    queue.push(job("a", "movies"));
    queue.push(job("b", "movies"));
    queue
}

#[test]
fn folder_lines() {
    let counts = queue().pending_counts();
    let idle = hbwatch::progress::Current::default();
    assert_eq!(folder_message("movies", &counts, &idle), "2 queued");
    assert_eq!(folder_message("shows", &counts, &idle), "idle");
    let busy = hbwatch::progress::Current {
        folder: Some("shows".to_owned()),
        film: Some("x.mkv".to_owned()),
    };
    assert_eq!(
        folder_message("shows", &counts, &busy),
        "encoding x.mkv (0 queued)"
    );
    assert_eq!(folder_message("movies", &counts, &busy), "2 queued");
    assert_eq!(queued_text(0), "idle");
    assert_eq!(queued_text(3), "3 queued");
}

#[test]
fn ticks() {
    assert_eq!(
        tick_message("WORKING", Some(75), "24.0fps"),
        "ETA 1m15s 24.0fps"
    );
    assert_eq!(tick_message("WORKING", Some(0), ""), "ETA -- ");
    assert_eq!(tick_message("WORKING", None, ""), "ETA -- ");
    assert_eq!(tick_message("MUXING", Some(75), "x"), "muxing");
    assert_eq!(tick_message("ÄRGER", None, ""), "ärger");
}

#[test]
fn long_names_are_cut() {
    assert_eq!(truncate("film", 4), "film");
    assert_eq!(truncate("films", 4), "fil…");
    assert_eq!(truncate("äöüß!", 4), "äöü…");
}

#[test]
fn the_overall_bar_counts_the_current_job_in() {
    let bar = overall(2, 3);
    assert_eq!(bar.total, 6);
    assert_eq!(bar.message, "3/6");
}

#[test]
fn the_status_follows_the_job() {
    let mut store = StatusStore::new(100);
    assert!(store.current.is_none());
    store.job_tick("WORKING", 1, None, None);
    assert!(store.current.is_none());
    store.job_start("x.mkv", "movies");
    let started = store.snapshot_at(160).current.unwrap();
    assert_eq!(started.state, "starting");
    assert_eq!(f64::from_bits(started.fraction), 0.0);
    store.job_tick("WORKING", 0.25f64.to_bits(), Some(9), Some(24.0f64.to_bits()));
    let now = store.snapshot_at(160);
    assert_eq!(now.uptime_secs, 60);
    let shown = now.current.unwrap();
    assert_eq!(shown.film, "x.mkv");
    assert_eq!(f64::from_bits(shown.fraction), 0.25);
    assert_eq!(shown.eta_secs, Some(9));
    store.job_done(true);
    assert!(store.current.is_none());
    assert_eq!((store.processed, store.failed), (1, 0));
    store.job_start("y.mkv", "movies");
    store.job_requeued();
    assert!(store.current.is_none());
    store.job_start("y.mkv", "movies");
    store.job_done(false);
    store.batch_idle();
    assert_eq!((store.processed, store.failed), (1, 1));
    assert_eq!(store.snapshot_at(50).uptime_secs, 0);
    assert!(store.snapshot().uptime_secs > 1_000_000_000);
}

#[test]
fn a_token_guards_the_data() {
    let token = Some("secret".to_owned());
    assert!(authorized(&None, None, None));
    assert!(!authorized(&token, None, None));
    assert!(authorized(&token, Some("Bearer secret"), None));
    assert!(!authorized(&token, Some("secret"), None));
    assert!(!authorized(&token, Some("Bearer other"), None));
    assert!(authorized(&token, None, Some("secret")));
    assert!(authorized(&token, Some("Bearer other"), Some("secret")));
    assert!(!authorized(&token, None, Some("")));
    let snapshot = || Snapshot {
        uptime_secs: 1,
        current: None,
        processed: 0,
        failed: 0,
    };
    let counts = queue().pending_counts();
    let folders = vec!["movies".to_owned()];
    assert!(status_json(&token, None, None, snapshot(), &counts, &folders).is_none());
    assert!(metrics(&token, None, None, snapshot(), &counts, &folders, "0").is_none());
    let answer = status_json(&token, None, Some("secret"), snapshot(), &counts, &folders);
    assert_eq!(answer.unwrap().pending_total, 2);
    let answer = metrics(&token, None, Some("secret"), snapshot(), &counts, &folders, "0");
    assert!(answer.unwrap().ends_with("hbwatch_current_progress 0\n"));
}

#[test]
fn the_status_tells_of_every_folder() {
    let snapshot = Snapshot {
        uptime_secs: 5,
        current: Some(current()),
        processed: 1,
        failed: 2,
    };
    let folders = vec!["movies".to_owned(), "shows".to_owned()];
    let status = build_status(snapshot, &queue().pending_counts(), &folders);
    assert_eq!(status.pending_total, 2);
    assert_eq!(status.folders.len(), 2);
    assert!(status.folders[0].encoding);
    assert_eq!(status.folders[0].pending, 2);
    assert!(!status.folders[1].encoding);
    assert_eq!(status.folders[1].pending, 0);
}

#[test]
fn metrics_are_written_in_full() {
    let status = StatusResponse {
        uptime_secs: 10,
        processed: 3,
        failed: 1,
        pending_total: 2,
        current: None,
        folders: vec![FolderStatus {
            name: "movies".to_owned(),
            pending: 2,
            encoding: false,
        }],
    };
    assert_eq!(
        render_metrics(&status, "0"),
        "# HELP hbwatch_uptime_seconds Daemon uptime.\n\
         hbwatch_uptime_seconds 10\n\
         # HELP hbwatch_processed_total Successful encodes.\n\
         hbwatch_processed_total 3\n\
         # HELP hbwatch_failed_total Permanently failed encodes.\n\
         hbwatch_failed_total 1\n\
         # HELP hbwatch_queue_pending Jobs waiting per folder.\n\
         hbwatch_queue_pending{folder=\"movies\"} 2\n\
         # HELP hbwatch_current_progress Progress of the active encode (0-1).\n\
         hbwatch_current_progress 0\n"
    );
}

#[test]
fn the_server_listens_where_it_is_told() {
    assert_eq!(
        listen_addr(&server(None)).as_deref(),
        Some("0.0.0.0:9000")
    );
    let mut off = server(None);
    off.enabled = false;
    assert_eq!(listen_addr(&off), None);
    assert_eq!(index(), INDEX_HTML);
}

#[test]
fn the_status_command_asks_the_local_host() {
    assert_eq!(
        fetch(&server(None)).as_deref(),
        Some("http://127.0.0.1:9000/status.json")
    );
    assert_eq!(
        fetch(&server(Some("t"))).as_deref(),
        Some("http://127.0.0.1:9000/status.json?token=t")
    );
    let mut off = server(None);
    off.enabled = false;
    assert_eq!(fetch(&off), None);
}

#[test]
fn a_live_status_is_printed() {
    let status = StatusResponse {
        uptime_secs: 3700,
        processed: 3,
        failed: 1,
        pending_total: 2,
        current: Some(current()),
        folders: vec![
            FolderStatus {
                name: "movies".to_owned(),
                pending: 2,
                encoding: true,
            },
            FolderStatus {
                name: "shows".to_owned(),
                pending: 0,
                encoding: false,
            },
        ],
    };
    assert_eq!(
        print_live(&status, 50),
        [
            "hbwatch — up 1h 1m",
            "  encoding: x.mkv [movies]  50%  ETA 1m15s",
            "  queued 2 · done 3 · failed 1",
            "    movies               encoding (2 queued)",
            "    shows                idle",
        ]
    );
}

#[test]
fn an_offline_status_is_printed() {
    let cfg = ResolvedConfig {
        settings: Settings {
            handbrake_cli: "HandBrakeCLI".to_owned(),
            extensions: Vec::new(),
            watch_mode: WatchMode::Native,
            poll_interval_secs: 30,
            rescan_interval_secs: 0,
            debounce_secs: 3,
            stabilize_interval_secs: 2,
            stabilize_checks: 2,
            workers: 1,
            max_attempts: 3,
            retry_delay_secs: 60,
            min_output_bytes: 1000,
            encode_timeout_secs: 0,
            log_level: "info".to_owned(),
            state_file: "/state.json".to_owned(),
            preset_dir: None,
        },
        notifications: Notifications::default(),
        server: server(None),
        folders: vec![folder("movies"), folder("shows")],
        state_file: path("/state.json"),
    };
    let mut waiting = queue();
    assert_eq!(
        print_offline(&cfg, &waiting),
        [
            "(daemon not reachable — reading queue file /state.json)",
            "  idle",
            "  queued 2",
            "    movies               2 queued",
            "    shows                idle",
        ]
    );
    waiting.take_next();
    let lines = print_offline(&cfg, &waiting);
    assert_eq!(lines[1], "  last in-flight: a.mkv [movies]");
    assert_eq!(lines[2], "  queued 1");
}

#[test]
fn notifications_are_sent_where_they_are_wanted() {
    let mut cfg = Notifications::default();
    cfg.enabled = true;
    cfg.server = "https://ntfy.sh//".to_owned();
    cfg.topic = "films".to_owned();
    cfg.token = Some("t".to_owned());
    let off = Notifier::new(Notifications::default());
    assert!(off.failure(&job("a", "movies"), "x").is_none());
    let mut quiet = Notifications::default();
    quiet.on_failure = true;
    assert!(Notifier::new(quiet).failure(&job("a", "movies"), "x").is_none());
    cfg.on_failure = true;
    let notifier = Notifier::new(cfg);
    assert!(notifier.item_complete(&job("a", "movies")).is_none());
    assert!(notifier.queue_drain(1, 2).is_none());
    let push = notifier.failure(&job("a", "movies"), "no good").unwrap();
    assert_eq!(push.url, "https://ntfy.sh/films");
    assert_eq!(push.title, "hbwatch: encode failed");
    assert_eq!(push.priority, "high");
    assert_eq!(push.tags, "warning");
    assert_eq!(push.body, "movies / a.mkv\nno good");
    assert_eq!(push.token.as_deref(), Some("t"));
}

#[test]
fn each_notification_has_its_own_switch() {
    let mut cfg = Notifications::default();
    cfg.enabled = true;
    cfg.topic = "films".to_owned();
    cfg.on_item_complete = true;
    cfg.on_queue_drain = true;
    let notifier = Notifier::new(cfg);
    assert!(notifier.failure(&job("a", "movies"), "x").is_none());
    let push = notifier.item_complete(&job("a", "movies")).unwrap();
    assert_eq!(push.title, "hbwatch: done");
    assert_eq!(push.priority, "default");
    assert_eq!(push.tags, "white_check_mark");
    assert_eq!(push.body, "a.mkv → /out/a.mp4");
    assert_eq!(push.token, None);
    let push = notifier.queue_drain(2, 90).unwrap();
    assert_eq!(push.title, "hbwatch: queue empty");
    assert_eq!(push.priority, "low");
    assert_eq!(push.tags, "checkered_flag");
    assert_eq!(push.body, "processed 2 item(s) in 90s");
}

#[test]
fn service_units_hold_the_real_paths() {
    let bin = path("/usr/local/bin/hbwatch");
    let config = path("/home/me/.config/hbwatch/config.toml");
    let home = Some(path("/home/me"));
    let unit = install(Platform::Linux, &bin, &config, &home).unwrap();
    assert_eq!(
        unit.path.as_bytes(),
        b"/home/me/.config/systemd/user/hbwatch.service"
    );
    assert_eq!(
        unit.contents,
        "[Unit]\n\
         Description=hbwatch HandBrake auto-transcode watcher\n\
         After=network-online.target remote-fs.target\n\
         Wants=network-online.target\n\
         \n\
         [Service]\n\
         ExecStart=/usr/local/bin/hbwatch run --config /home/me/.config/hbwatch/config.toml\n\
         Restart=always\n\
         RestartSec=10\n\
         \n\
         [Install]\n\
         WantedBy=default.target\n"
    );
    assert_eq!(
        unit.messages.join("\n"),
        "Installed systemd user unit: /home/me/.config/systemd/user/hbwatch.service\n\
         Enable it with:\n  \
         systemctl --user daemon-reload\n  \
         systemctl --user enable --now hbwatch.service\n  \
         loginctl enable-linger \"$USER\"   # survive logout on a 24/7 box"
    );
    let unit = install(Platform::MacOs, &bin, &config, &home).unwrap();
    assert_eq!(unit.path, launchd_path(&path("/home/me")));
    assert!(unit
        .contents
        .contains("        <string>/usr/local/bin/hbwatch</string>\n        <string>run</string>\n"));
    assert!(unit.contents.contains(
        "<key>StandardErrorPath</key><string>/home/me/.config/hbwatch/hbwatch.err.log</string>"
    ));
    assert!(unit.contents.ends_with("</dict>\n</plist>\n"));
    assert_eq!(
        unit.messages.last().map(String::as_str),
        Some(
            "Load it with:\n  launchctl load \
             /home/me/Library/LaunchAgents/com.user.hbwatch.plist"
        )
    );
    assert_eq!(config_dir(&path("config.toml")), path(""));
    assert_eq!(config_dir(&path("/")), path("."));
}

#[test]
fn services_are_removed() {
    let home = Some(path("/home/me"));
    let removal = uninstall(Platform::Linux, &home).unwrap();
    assert_eq!(removal.path, systemd_path(&path("/home/me")));
    assert_eq!(
        remove_unit(&removal, true),
        [
            "Removed /home/me/.config/systemd/user/hbwatch.service",
            "Disable it with:\n  systemctl --user disable --now hbwatch.service",
        ]
    );
    let removal = uninstall(Platform::MacOs, &home).unwrap();
    assert_eq!(
        remove_unit(&removal, false),
        [
            "Nothing to remove at /home/me/Library/LaunchAgents/com.user.hbwatch.plist",
            "Unload it with:\n  launchctl unload \
             ~/Library/LaunchAgents/com.user.hbwatch.plist",
        ]
    );
}

#[test]
fn services_need_a_known_system_and_a_home() {
    let bin = path("/bin/hbwatch");
    let home = Some(path("/home/me"));
    assert_eq!(
        install(Platform::Other, &bin, &bin, &home).unwrap_err().message(),
        "install is only supported on macOS and Linux"
    );
    assert_eq!(
        uninstall(Platform::Other, &home).unwrap_err().message(),
        "uninstall is only supported on macOS and Linux"
    );
    assert!(matches!(
        install(Platform::Linux, &bin, &bin, &None),
        Err(ServiceError::NoHome)
    ));
    assert_eq!(
        uninstall(Platform::MacOs, &None).unwrap_err().message(),
        "HOME is not set"
    );
}
