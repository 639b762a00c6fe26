//! The rules of the configuration, the files that are taken up, and what becomes of jobs.

use hbwatch::config::assert_outside;
use hbwatch::dashboard::INDEX_HTML;
use hbwatch::mover::temp_path;
use hbwatch::path::FilePath;
use hbwatch::runtime::is_ignored_name;
use hbwatch::server::render_metrics;
use hbwatch::status::{Current, FolderStatus, StatusResponse};
use hbwatch::statuscmd::{fmt_dur, local_host};
use hbwatch::worker::{decide, FailureAction};

fn path(text: &str) -> FilePath {
    FilePath::from_text(text)
}

#[test]
fn assert_outside_rejects_nested_dir() {
    let watch = vec![path("/data/inbox")];
    let nested = path("/data/inbox/out");
    assert!(assert_outside(&nested, &watch, "output_dir").is_err());
}

#[test]
fn assert_outside_allows_sibling_dir() {
    let watch = vec![path("/data/inbox")];
    let sibling = path("/data/encoded");
    assert!(assert_outside(&sibling, &watch, "output_dir").is_ok());
}

#[test]
fn temp_path_appends_suffix() {
    let out = path("/media/encoded/clip.mp4");
    assert_eq!(temp_path(&out), path("/media/encoded/clip.mp4.hbtmp"));
}

fn is_retry(attempts: u32, max: u32) -> bool {
    matches!(decide(attempts, max), FailureAction::Retry)
}

#[test]
fn retries_until_max_then_gives_up() {
    // max_attempts = 3 → try 1 and 2 retry, the 3rd gives up.
    assert!(is_retry(1, 3));
    assert!(is_retry(2, 3));
    assert!(!is_retry(3, 3));
}

#[test]
fn max_attempts_one_never_retries() {
    assert!(!is_retry(1, 1));
}

#[test]
fn is_ignored_name_skips_temp_and_hidden() {
    assert!(is_ignored_name(&path("/x/.hidden.mkv")));
    assert!(is_ignored_name(&path("/x/movie.mkv.part")));
    assert!(is_ignored_name(&path("/x/clip.mp4.hbtmp")));
    assert!(!is_ignored_name(&path("/x/movie.mkv")));
}

fn sample() -> StatusResponse {
    StatusResponse {
        uptime_secs: 10,
        processed: 3,
        failed: 1,
        pending_total: 2,
        current: Some(Current {
            folder: "movies".into(),
            film: "x.mkv".into(),
            fraction: 0.5f64.to_bits(),
            eta_secs: Some(30),
            fps: Some(24.0f64.to_bits()),
            state: "WORKING".into(),
        }),
        folders: vec![FolderStatus {
            name: "movies".into(),
            pending: 2,
            encoding: true,
        }],
    }
}

#[test]
fn metrics_include_progress_and_labels() {
    let status = sample();
    let fraction = f64::from_bits(status.current.as_ref().unwrap().fraction);
    let text = render_metrics(&status, &format!("{fraction}"));
    assert!(text.contains("hbwatch_processed_total 3"));
    assert!(text.contains("hbwatch_failed_total 1"));
    assert!(text.contains("hbwatch_queue_pending{folder=\"movies\"} 2"));
    assert!(text.contains("hbwatch_current_progress 0.5"));
}

#[test]
fn dashboard_html_is_self_contained() {
    assert!(INDEX_HTML.contains("status.json"));
    assert!(
        !INDEX_HTML.contains("http://"),
        "must not reference external hosts"
    );
}

#[test]
fn local_host_rewrites_wildcard_binds() {
    assert_eq!(local_host("0.0.0.0"), "127.0.0.1");
    assert_eq!(local_host("::"), "127.0.0.1");
    assert_eq!(local_host("192.168.1.5"), "192.168.1.5");
}

#[test]
fn fmt_dur_scales_units() {
    assert_eq!(fmt_dur(90), "1m");
    assert_eq!(fmt_dur(3700), "1h 1m");
    assert_eq!(fmt_dur(90000), "1d 1h");
}
