//! Files on their way through the daemon: which ones are taken up, the queue, the moves and the
//! worker.

use std::collections::VecDeque;

use hbwatch::claims::{claim, release, Claims};
use hbwatch::config::{
    Notifications, ResolvedConfig, ResolvedFolder, Server, Settings, WatchMode,
};
use hbwatch::encoder::{
    command_args, has_failure_marker, time_limit, verify, EncodeError, ProgressReader,
};
use hbwatch::job_run::{process_job, RunStep};
use hbwatch::mover::{
    finalize, move_file, move_to_failed, temp_path, FileOp, MoveError, MoveFault, MovePhase,
    MoveTurn, Mover,
};
use hbwatch::notify_ntfy::Notifier;
use hbwatch::path::FilePath;
use hbwatch::queue::{
    job_at, new_job, now_secs, secs_or_zero, Job, JobStatus, Queue, QueueState,
};
use hbwatch::runtime::{
    dispatch, eligible, extension_allowed, is_ignored_name, output_path_for, stabilize, start_note,
    Look, Stability,
};
use hbwatch::scan::{run_periodic, scan_folder, ScanEntry};
use hbwatch::watcher::{forward, is_relevant, Candidate, WatchEvent};
use hbwatch::worker::{
    drain_note, give_up, retry_job, retry_note, wait_until_ready, Batch, Outcome, Phase, Tell,
    Turn, Worker, WorkerRequest,
};
use uuid::Uuid;

fn path(text: &str) -> FilePath {
    FilePath::from_text(text)
}

fn settings() -> Settings {
    Settings {
        handbrake_cli: "HandBrakeCLI".to_owned(),
        extensions: vec!["mkv".to_owned(), "MP4".to_owned()],
        watch_mode: WatchMode::Poll,
        poll_interval_secs: 30,
        rescan_interval_secs: 0,
        debounce_secs: 3,
        stabilize_interval_secs: 2,
        stabilize_checks: 2,
        workers: 1,
        max_attempts: 3,
        retry_delay_secs: 60,
        min_output_bytes: 1000,
        encode_timeout_secs: 0,
        log_level: "info".to_owned(),
        state_file: "/state.json".to_owned(),
        preset_dir: None,
    }
}

fn folder() -> ResolvedFolder {
    ResolvedFolder {
        name: "movies".to_owned(),
        watch_dir: path("/in"),
        output_dir: path("/out"),
        originals_dir: path("/orig"),
        output_extension: "mp4".to_owned(),
        preset_file: path("/p.json"),
        preset_name: "P".to_owned(),
    }
}

fn notifications() -> Notifications {
    Notifications {
        enabled: true,
        server: "https://ntfy.sh/".to_owned(),
        topic: "films".to_owned(),
        token: None,
        on_failure: true,
        on_item_complete: true,
        on_queue_drain: true,
    }
}

fn config() -> ResolvedConfig {
    ResolvedConfig {
        settings: settings(),
        notifications: notifications(),
        server: Server {
            enabled: false,
            bind: "127.0.0.1".to_owned(),
            port: 9000,
            token: None,
        },
        folders: vec![folder()],
        state_file: path("/state.json"),
    }
}

fn job(name: &str) -> Job {
    let input = path(&format!("/in/{name}.mkv"));
    let output = path(&format!("/out/{name}.mp4"));
    job_at(Uuid::from_u128(7), 100, &folder(), input, output)
}

fn candidate(text: &str) -> Candidate {
    Candidate {
        path: path(text),
        folder: 0,
    }
}

#[test]
fn extensions_are_compared_without_case() {
    let s = settings();
    assert!(extension_allowed(&s, &path("/in/a.MKV")));
    assert!(extension_allowed(&s, &path("/in/a.mp4")));
    assert!(!extension_allowed(&s, &path("/in/a.txt")));
    assert!(!extension_allowed(&s, &path("/in/mkv")));
    assert!(!extension_allowed(&s, &path("/in/.mkv")));
    assert!(!extension_allowed(
        &s,
        &FilePath::from_bytes(b"/in/a.mk\xff".to_vec())
    ));
}

#[test]
fn partial_files_are_ignored() {
    for name in ["a.tmp", "a.part", "a.partial", "a.download", "a.crdownload", "a.hbtmp"] {
        assert!(is_ignored_name(&path(&format!("/in/{name}"))));
    }
    assert!(!is_ignored_name(&path("/in/a.tmp.mkv")));
    assert!(!is_ignored_name(&path("/in/..")));
    assert!(!is_ignored_name(&FilePath::from_bytes(
        b"/in/\xff.tmp".to_vec()
    )));
}

#[test]
fn outputs_are_named_after_the_stem() {
    let f = folder();
    assert_eq!(
        output_path_for(&f, &path("/in/my.film.mkv")).as_bytes(),
        b"/out/my.film.mp4"
    );
    let odd = FilePath::from_bytes(b"/in/a\xff.mkv".to_vec());
    assert_eq!(
        output_path_for(&f, &odd).as_bytes(),
        "/out/a\u{fffd}.mp4".as_bytes()
    );
}

#[test]
fn outputs_and_their_temporary_files_stay_out_of_watched_folders() {
    let f = folder();
    for input in ["/in/a.mkv", "/in/b c.mkv", "/in/é.mkv"] {
        let output = output_path_for(&f, &path(input));
        assert!(!output.starts_with(&f.watch_dir));
        assert_eq!(output.parent(), Some(path("/out")));
        let temp = temp_path(&output);
        assert!(!temp.starts_with(&f.watch_dir));
        assert!(is_ignored_name(&temp));
    }
}

#[test]
fn only_wanted_files_are_taken_up() {
    let cfg = config();
    assert!(eligible(&cfg, &candidate("/in/a.mkv"), true, false));
    assert!(!eligible(&cfg, &candidate("/in/a.mkv"), false, false));
    assert!(!eligible(&cfg, &candidate("/in/a.mkv"), true, true));
    assert!(!eligible(&cfg, &candidate("/in/a.txt"), true, false));
    assert!(!eligible(&cfg, &candidate("/in/.a.mkv"), true, false));
    let mut elsewhere = candidate("/in/a.mkv");
    elsewhere.folder = 1;
    assert!(!eligible(&cfg, &elsewhere, true, false));
}

#[test]
fn a_file_is_taken_up_once() {
    let cfg = config();
    let mut claims = Claims::new();
    assert!(dispatch(&cfg, &mut claims, &candidate("/in/a.mkv"), true, false));
    assert!(!dispatch(&cfg, &mut claims, &candidate("/in//a.mkv"), true, false));
    assert!(dispatch(&cfg, &mut claims, &candidate("/in/b.mkv"), true, false));
    assert!(!dispatch(&cfg, &mut claims, &candidate("/in/c.txt"), true, false));
    assert!(!claims.contains(&path("/in/c.txt")));
    release(&mut claims, &path("/in/a.mkv"));
    assert!(claims.contains(&path("/in/b.mkv")));
    assert!(claim(&mut claims, &path("/in/a.mkv")));
    assert!(!claim(&mut claims, &path("/in/a.mkv")));
}

#[test]
fn a_file_is_complete_when_its_size_stays() {
    let mut look = Stability::new();
    let sizes = [10, 20, 20, 30, 30, 30];
    let ends: Vec<bool> = sizes
        .iter()
        .map(|size| matches!(look.wait_stable(Some(*size), 2), Look::Stable))
        .collect();
    assert_eq!(ends, [false, false, false, false, false, true]);
    let mut gone = Stability::new();
    assert!(matches!(gone.wait_stable(Some(1), 1), Look::Again));
    assert!(matches!(gone.wait_stable(None, 1), Look::Gone));
}

#[test]
fn a_complete_file_is_queued_and_another_is_let_go() {
    let cfg = config();
    let mut queue = Queue::load(None);
    let mut claims = Claims::new();
    let film = candidate("/in/a.mkv");
    assert!(dispatch(&cfg, &mut claims, &film, true, false));
    let note = stabilize(&cfg, &mut queue, &mut claims, &film, true);
    assert_eq!(note.as_deref(), Some("queued: a.mkv [movies]"));
    assert!(claims.contains(&film.path));
    assert_eq!(queue.pending_len(), 1);
    let other = candidate("/in/b.mkv");
    assert!(dispatch(&cfg, &mut claims, &other, true, false));
    assert!(stabilize(&cfg, &mut queue, &mut claims, &other, false).is_none());
    assert!(!claims.contains(&other.path));
    assert_eq!(queue.pending_len(), 1);
    let next = queue.take_next().unwrap();
    assert_eq!(next.output_path, path("/out/a.mp4"));
    assert_eq!(next.originals_dir, path("/orig"));
    assert_eq!(next.failed_dir, path("/orig/_failed"));
    assert_eq!(next.preset_name, "P");
    assert_eq!(next.attempts, 0);
}

#[test]
fn new_jobs_have_identifiers_and_times_of_their_own() {
    let before = now_secs();
    let one = new_job(&folder(), path("/in/a.mkv"), path("/out/a.mp4"));
    let other = new_job(&folder(), path("/in/a.mkv"), path("/out/a.mp4"));
    assert_ne!(one.id, other.id);
    assert_eq!(one.id.get_version_num(), 4);
    assert!(before > 1_500_000_000);
    assert!(before <= one.enqueued_at);
    assert!(matches!(one.status, JobStatus::Pending));
    assert_eq!(secs_or_zero(None), 0);
    assert_eq!(secs_or_zero(Some(5)), 5);
}

#[test]
fn jobs_come_out_in_the_order_in_which_they_went_in() {
    let mut queue = Queue::load(None);
    queue.push(job("a"));
    queue.push(job("b"));
    assert!(queue.unsaved);
    assert!(queue.wake);
    let first = queue.take_next().unwrap();
    assert_eq!(first.input_path, path("/in/a.mkv"));
    assert!(matches!(first.status, JobStatus::Processing));
    assert_eq!(
        queue.in_flight_name(),
        Some(("movies".to_owned(), "a.mkv".to_owned()))
    );
    queue.push(job("c"));
    queue.complete();
    assert_eq!(queue.in_flight_name(), None);
    assert_eq!(queue.take_next().unwrap().input_path, path("/in/b.mkv"));
    queue.complete();
    assert_eq!(queue.take_next().unwrap().input_path, path("/in/c.mkv"));
    queue.complete();
    assert!(queue.take_next().is_none());
    let due = queue.upkeep();
    assert!(due.save && due.wake);
    let due = queue.upkeep();
    assert!(!due.save && !due.wake);
}

#[test]
fn a_restart_resumes_where_the_queue_was() {
    let mut state = QueueState {
        pending: VecDeque::new(),
        in_flight: None,
    };
    state.pending.push_back(job("a"));
    state.pending.push_back(job("b"));
    let mut queue = Queue::load(Some(state));
    queue.take_next();
    let mut restarted = Queue::load(Some(queue.state));
    let mut claims = Claims::new();
    let remove = restarted.resume(&mut claims);
    assert_eq!(remove, Some(path("/out/a.mp4.hbtmp")));
    assert!(claims.contains(&path("/in/a.mkv")));
    assert!(claims.contains(&path("/in/b.mkv")));
    assert!(!claims.contains(&path("/in/c.mkv")));
    assert_eq!(restarted.pending_len(), 2);
    assert!(restarted.state.in_flight.is_none());
    assert!(restarted
        .state
        .pending
        .iter()
        .all(|j| matches!(j.status, JobStatus::Pending)));
    assert!(restarted.resume(&mut claims).is_none());
    assert_eq!(restarted.take_next().unwrap().input_path, path("/in/a.mkv"));
}

#[test]
fn waiting_jobs_are_counted_by_folder() {
    let mut queue = Queue::load(None);
    queue.push(job("a"));
    queue.push(job("b"));
    let mut other = job("c");
    other.folder_name = "shows".to_owned();
    queue.push(other);
    let counts = queue.pending_counts();
    assert_eq!(counts.get("movies"), 2);
    assert_eq!(counts.get("shows"), 1);
    assert_eq!(counts.get("none"), 0);
    assert_eq!(counts.total(), 3);
}

#[test]
fn the_encoder_is_called_with_the_preset_and_both_paths() {
    let args: Vec<String> = command_args(&job("a"), &path("/out/a.mp4.hbtmp"))
        .into_iter()
        .map(|a| String::from_utf8(a).unwrap())
        .collect();
    assert_eq!(
        args,
        [
            "--preset-import-file",
            "/p.json",
            "-Z",
            "P",
            "-i",
            "/in/a.mkv",
            "-o",
            "/out/a.mp4.hbtmp",
            "--json",
        ]
    );
    assert_eq!(time_limit(0), None);
    assert_eq!(time_limit(5), Some(5));
}

#[test]
fn an_encode_counts_only_when_nothing_is_wrong() {
    let s = settings();
    assert!(verify(&s, true, Some(0), Some(1000), b"fine", Some(0)).is_ok());
    assert!(verify(&s, true, Some(0), Some(1000), b"", None).is_ok());
    let said = |r: Result<(), EncodeError>| r.unwrap_err().message();
    assert_eq!(
        said(verify(&s, false, Some(3), Some(5000), b"", None)),
        "HandBrakeCLI exited with status Some(3)"
    );
    assert_eq!(
        said(verify(&s, false, Some(-9), None, b"", None)),
        "HandBrakeCLI exited with status Some(-9)"
    );
    assert_eq!(
        said(verify(&s, false, None, Some(5000), b"", None)),
        "HandBrakeCLI exited with status None"
    );
    assert_eq!(
        said(verify(&s, true, Some(0), None, b"", None)),
        "output file missing after encode"
    );
    assert_eq!(
        said(verify(&s, true, Some(0), Some(999), b"", None)),
        "output too small: 999 bytes (min 1000)"
    );
    assert_eq!(
        said(verify(&s, true, Some(0), Some(1000), b"x\xff Error: y", None)),
        "HandBrakeCLI reported a failure in its output"
    );
    assert_eq!(
        said(verify(&s, true, Some(0), Some(1000), b"", Some(3))),
        "HandBrakeCLI reported error 3"
    );
    assert!(has_failure_marker("Encode failed (error 2)."));
    assert!(!has_failure_marker("error: lower case"));
    let timed_out = EncodeError::TimedOut { secs: 60 };
    assert_eq!(timed_out.message(), "encode timed out after 60s");
    let missing = EncodeError::NotStarted {
        program: "HandBrakeCLI".to_owned(),
    };
    assert_eq!(missing.message(), "failed to spawn HandBrakeCLI");
    let cause = EncodeError::NotWaited {
        cause: "broken pipe".to_owned(),
    };
    assert_eq!(cause.message(), "broken pipe");
}

#[test]
fn progress_blocks_come_back_as_they_were_written() {
    let mut reader = ProgressReader::new();
    let output = [
        "Version: {",
        "    \"Name\": \"HandBrake\"",
        "}",
        "Progress: {",
        "    \"State\": \"WORKING\",",
        "    \"Working\": {",
        "        \"Pass\": 1",
        "    }",
        "}",
        "noise",
        "Progress: {",
        "    \"State\": \"WORKDONE\"",
        "}",
    ];
    let blocks: Vec<String> = output.iter().filter_map(|line| reader.feed(line)).collect();
    assert_eq!(
        blocks,
        [
            "{\n    \"State\": \"WORKING\",\n    \"Working\": {\n        \"Pass\": 1\n    }\n}",
            "{\n    \"State\": \"WORKDONE\"\n}",
        ]
    );
}

#[test]
fn a_rename_that_fails_becomes_a_copy() {
    assert_eq!(
        move_file(MovePhase::Prepare, false),
        MoveTurn::Next(MovePhase::Rename)
    );
    assert_eq!(move_file(MovePhase::Rename, true), MoveTurn::Moved);
    assert_eq!(
        move_file(MovePhase::Rename, false),
        MoveTurn::Next(MovePhase::Copy)
    );
    assert_eq!(
        move_file(MovePhase::Copy, true),
        MoveTurn::Next(MovePhase::Remove)
    );
    assert_eq!(
        move_file(MovePhase::Copy, false),
        MoveTurn::Fault(MoveFault::CopyFailed)
    );
    assert_eq!(move_file(MovePhase::Remove, true), MoveTurn::Moved);
    assert_eq!(
        move_file(MovePhase::Remove, false),
        MoveTurn::Fault(MoveFault::RemoveFailed)
    );
}

fn op_text(op: &FileOp) -> String {
    match op {
        FileOp::MakeParent { of } => format!("parent {}", of.display()),
        FileOp::Rename { from, to } => format!("rename {} {}", from.display(), to.display()),
        FileOp::Copy { from, to } => format!("copy {} {}", from.display(), to.display()),
        FileOp::Remove { path } => format!("remove {}", path.display()),
        FileOp::Probe { path } => format!("probe {}", path.display()),
        FileOp::Write { path, text } => format!("write {} {text}", path.display()),
    }
}

fn drive(mut mover: Mover, oks: &[bool]) -> (Vec<String>, Option<Result<FilePath, MoveError>>) {
    let mut ops = Vec::new();
    for ok in oks {
        let op = mover.next_op().expect("an operation");
        ops.push(op_text(&op));
        assert!(mover.goes_on(*ok));
        mover = mover.reply(*ok);
    }
    assert_eq!(mover.next_op().is_none(), mover.outcome().is_some());
    let end = mover.outcome();
    (ops, end)
}

#[test]
fn a_finished_encode_is_put_in_place_before_its_original_is_moved() {
    let temp = path("/out/a.mp4.hbtmp");
    let (ops, end) = drive(
        finalize(&job("a"), &temp),
        &[true, true, true, true, false, true, true],
    );
    assert_eq!(
        ops,
        [
            "parent /out/a.mp4",
            "rename /out/a.mp4.hbtmp /out/a.mp4",
            "probe /orig/a.mkv",
            "probe /orig/a (1).mkv",
            "probe /orig/a (2).mkv",
            "parent /orig/a (2).mkv",
            "rename /in/a.mkv /orig/a (2).mkv",
        ]
    );
    assert_eq!(end.unwrap().unwrap(), path("/orig/a (2).mkv"));
}

#[test]
fn moves_between_file_systems_copy_and_remove() {
    let temp = path("/out/a.mp4.hbtmp");
    let (ops, end) = drive(
        finalize(&job("a"), &temp),
        &[true, false, true, true, false, false, false, true, true],
    );
    assert_eq!(
        ops[1..4],
        [
            "rename /out/a.mp4.hbtmp /out/a.mp4",
            "copy /out/a.mp4.hbtmp /out/a.mp4",
            "remove /out/a.mp4.hbtmp",
        ]
    );
    assert_eq!(ops[7], "copy /in/a.mkv /orig/a.mkv");
    assert_eq!(ops[8], "remove /in/a.mkv");
    assert_eq!(end.unwrap().unwrap(), path("/orig/a.mkv"));
}

#[test]
fn moves_that_fail_say_which_file_is_not_in_place() {
    let temp = path("/out/a.mp4.hbtmp");
    let (_, end) = drive(finalize(&job("a"), &temp), &[true, false, false]);
    assert_eq!(
        end.unwrap().unwrap_err().message(),
        "failed to move encoded output into place"
    );
    let (_, end) = drive(
        finalize(&job("a"), &temp),
        &[true, true, false, true, false, true, false],
    );
    assert_eq!(
        end.unwrap().unwrap_err().message(),
        "failed to move original aside"
    );
}

#[test]
fn a_failed_input_is_moved_with_its_reason_beside_it() {
    let (ops, end) = drive(
        move_to_failed(&path("/in/a.mkv"), &path("/orig/_failed"), "no good"),
        &[false, true, true, false],
    );
    assert_eq!(
        ops,
        [
            "probe /orig/_failed/a.mkv",
            "parent /orig/_failed/a.mkv",
            "rename /in/a.mkv /orig/_failed/a.mkv",
            "write /orig/_failed/a.mkv.error.txt no good",
        ]
    );
    assert_eq!(end.unwrap().unwrap(), path("/orig/_failed/a.mkv"));
}

#[test]
fn a_job_that_fails_removes_its_temporary_file() {
    let run = process_job(&job("a"));
    assert!(matches!(run.next_step(), RunStep::Encode { .. }));
    let run = run.encoded(&job("a"), Err(EncodeError::NoOutput));
    match run.next_step() {
        RunStep::File { op } => assert_eq!(op_text(&op), "remove /out/a.mp4.hbtmp"),
        _ => panic!("the temporary file is to be removed"),
    }
    assert!(run.goes_on(false));
    match run.reply(false).next_step() {
        RunStep::End { result } => {
            assert_eq!(result.unwrap_err(), "output file missing after encode")
        }
        _ => panic!("the job has ended"),
    }
    let mut run = process_job(&job("a")).encoded(&job("a"), Ok(()));
    for ok in [true, false, false] {
        run = run.reply(ok);
    }
    match run.next_step() {
        RunStep::File { op } => assert_eq!(op_text(&op), "remove /out/a.mp4.hbtmp"),
        _ => panic!("the temporary file is to be removed"),
    }
}

#[test]
fn retries_are_delayed() {
    let again = retry_job(job("a"), 2, 60, 1000);
    assert_eq!(again.attempts, 2);
    assert_eq!(again.retry_after, Some(1060));
    assert!(matches!(again.status, JobStatus::Pending));
    assert_eq!(wait_until_ready(&again, 1000), 60);
    assert_eq!(wait_until_ready(&again, 1059), 1);
    assert_eq!(wait_until_ready(&again, 1060), 0);
    assert_eq!(wait_until_ready(&job("a"), 0), 0);
    assert_eq!(retry_note(&again, 60), "retry in 60s: a.mkv");
    assert_eq!(drain_note(3, 90), "queue empty — 3 item(s) in 90s");
    assert_eq!(give_up(&job("a"), &None), "FAILED: a.mkv");
    assert_eq!(
        give_up(&job("a"), &Some(path("/orig/_failed/a.mkv"))),
        "FAILED (moved to /orig/_failed/a.mkv): a.mkv"
    );
    assert_eq!(
        start_note(&config()),
        "hbwatch started — watching 1 folder(s)"
    );
}

#[test]
fn a_job_is_tried_as_often_as_the_settings_say() {
    let s = settings();
    let mut queue = Queue::load(None);
    let mut claims = Claims::new();
    let mut batch = Batch::new();
    claim(&mut claims, &path("/in/a.mkv"));
    queue.push(job("a"));
    let mut tries = 0;
    while let Some(next) = queue.take_next() {
        tries += 1;
        assert!(batch.can_finish(&s, &next, true, 1000));
        let failed = Err("no good".to_owned());
        match batch.finish(&s, &mut queue, &mut claims, next, failed, 1000) {
            Outcome::Retried { note } => {
                assert_eq!(note, format!("retry {tries}/3: a.mkv — no good"));
                assert!(claims.contains(&path("/in/a.mkv")));
            }
            Outcome::GaveUp { job, reason } => {
                assert_eq!(job.attempts, 2);
                assert_eq!(reason, "no good");
                assert!(!claims.contains(&path("/in/a.mkv")));
            }
            Outcome::Done { .. } => panic!("the job failed"),
        }
    }
    assert_eq!(tries, 3);
    assert_eq!(batch.count, 1);
    assert_eq!(batch.fire_drain_if_needed(), Some(1));
    assert_eq!(batch.fire_drain_if_needed(), None);
}

fn tell_text(tell: &Tell) -> String {
    match tell {
        Tell::Note { text } => format!("note {text}"),
        Tell::JobStart { start } => format!(
            "start {} [{}] {}+{}",
            start.film, start.folder, start.completed, start.pending
        ),
        Tell::JobDone { ok } => format!("done {ok}"),
        Tell::JobRequeued => "requeued".to_owned(),
        Tell::BatchIdle => "idle".to_owned(),
        Tell::Push { push } => format!("push {}: {}", push.title, push.body),
    }
}

fn told(turn: Turn) -> (Worker, Vec<String>) {
    let lines = turn.tells.iter().map(tell_text).collect();
    (turn.worker, lines)
}

#[test]
fn the_worker_sees_a_job_through() {
    let s = settings();
    let notifier = Notifier::new(notifications());
    let mut queue = Queue::load(None);
    let mut claims = Claims::new();
    claim(&mut claims, &path("/in/a.mkv"));
    queue.push(job("a"));
    queue.push(job("b"));
    let worker = Worker::new();
    assert!(matches!(worker.request(), WorkerRequest::Poll));
    let (worker, lines) = told(worker.worker_loop(&mut queue, &notifier, false, 0, 1000));
    assert_eq!(lines, ["start a.mkv [movies] 0+1"]);
    match worker.request() {
        WorkerRequest::Encode { job, temp } => {
            assert_eq!(job.input_path, path("/in/a.mkv"));
            assert_eq!(temp, path("/out/a.mp4.hbtmp"));
        }
        _ => panic!("the job is to be encoded"),
    }
    let mut worker = worker.encoded(Ok(()));
    let mut all = Vec::new();
    for ok in [true, true, false, true, true] {
        assert!(matches!(worker.request(), WorkerRequest::File { .. }));
        assert!(worker.takes(&s, ok, 1000));
        let (next, lines) =
            told(worker.reply(&s, &mut queue, &mut claims, &notifier, ok, 1000));
        worker = next;
        all.extend(lines);
    }
    assert_eq!(
        all,
        [
            "done true",
            "note done: a.mkv",
            "push hbwatch: done: a.mkv → /out/a.mp4",
        ]
    );
    assert!(!claims.contains(&path("/in/a.mkv")));
    assert_eq!(worker.batch.count, 1);
    let (worker, lines) = told(worker.worker_loop(&mut queue, &notifier, false, 0, 1000));
    assert_eq!(lines, ["start b.mkv [movies] 1+0"]);
    let worker = worker.interrupted();
    assert!(matches!(worker.request(), WorkerRequest::Stop));
    assert_eq!(
        queue.state.in_flight.as_ref().unwrap().input_path,
        path("/in/b.mkv")
    );
}

#[test]
fn the_worker_retries_and_then_puts_the_input_aside() {
    let mut s = settings();
    s.max_attempts = 2;
    let notifier = Notifier::new(notifications());
    let mut queue = Queue::load(None);
    let mut claims = Claims::new();
    claim(&mut claims, &path("/in/a.mkv"));
    queue.push(job("a"));
    let (worker, _) = told(Worker::new().worker_loop(&mut queue, &notifier, false, 0, 1000));
    let worker = worker.encoded(Err(EncodeError::NoOutput));
    let (worker, lines) =
        told(worker.reply(&s, &mut queue, &mut claims, &notifier, true, 1000));
    assert_eq!(
        lines,
        [
            "requeued",
            "note retry 1/2: a.mkv — output file missing after encode",
        ]
    );
    let (worker, lines) = told(worker.worker_loop(&mut queue, &notifier, false, 0, 1010));
    assert_eq!(lines, ["note retry in 50s: a.mkv"]);
    assert!(matches!(worker.request(), WorkerRequest::Wait { secs: 50 }));
    let (worker, lines) = told(worker.delay_over(&queue));
    assert_eq!(lines, ["start a.mkv [movies] 0+0"]);
    let worker = worker.encoded(Err(EncodeError::NoOutput));
    let (worker, lines) =
        told(worker.reply(&s, &mut queue, &mut claims, &notifier, true, 1060));
    assert_eq!(lines, ["done false"]);
    assert!(!claims.contains(&path("/in/a.mkv")));
    let mut worker = worker;
    let mut all = Vec::new();
    for ok in [false, true, true, true] {
        let (next, lines) =
            told(worker.reply(&s, &mut queue, &mut claims, &notifier, ok, 1060));
        worker = next;
        all.extend(lines);
    }
    assert_eq!(
        all,
        [
            "note FAILED (moved to /orig/_failed/a.mkv): a.mkv",
            "push hbwatch: encode failed: movies / a.mkv\noutput file missing after encode",
        ]
    );
    let (worker, lines) = told(worker.worker_loop(&mut queue, &notifier, false, 75, 1061));
    assert_eq!(
        lines,
        [
            "idle",
            "note queue empty — 1 item(s) in 75s",
            "push hbwatch: queue empty: processed 1 item(s) in 75s",
        ]
    );
    assert!(matches!(worker.request(), WorkerRequest::WaitForWork));
    let worker = worker.woken();
    let (worker, lines) = told(worker.worker_loop(&mut queue, &notifier, true, 0, 1062));
    assert!(lines.is_empty());
    assert!(matches!(worker.phase, Phase::Stopped));
}

#[test]
fn numbers_without_room_are_told_beforehand() {
    let s = settings();
    let mut worn = job("a");
    worn.attempts = u32::MAX;
    let batch = Batch::new();
    assert!(!batch.can_finish(&s, &worn, true, 0));
    assert!(batch.can_finish(&s, &worn, false, 0));
    assert!(!batch.can_finish(&s, &job("a"), true, u64::MAX));
    let full = Batch {
        count: u64::MAX,
        open: true,
    };
    assert!(!full.can_finish(&s, &job("a"), false, 0));
}

#[test]
fn new_and_changed_files_are_looked_at() {
    assert!(is_relevant(WatchEvent::Any));
    assert!(is_relevant(WatchEvent::Create));
    assert!(is_relevant(WatchEvent::Modify));
    assert!(!is_relevant(WatchEvent::Access));
    assert!(!is_relevant(WatchEvent::Remove));
    assert!(!is_relevant(WatchEvent::Other));
    let found = forward(WatchEvent::Create, vec![path("/in/a"), path("/in/b")], 2);
    assert_eq!(found.len(), 2);
    assert_eq!(found[1].path, path("/in/b"));
    assert_eq!(found[1].folder, 2);
    assert!(forward(WatchEvent::Remove, vec![path("/in/a")], 2).is_empty());
}

#[test]
fn scans_hand_on_files_alone() {
    let entry = |name: &str, is_file: bool| ScanEntry {
        path: path(name),
        is_file,
    };
    let entries = vec![entry("/in", false), entry("/in/a.mkv", true), entry("/in/d", false)];
    let found = scan_folder(entries, 1);
    assert_eq!(found.len(), 1);
    assert_eq!(found[0].path, path("/in/a.mkv"));
    assert_eq!(found[0].folder, 1);
    assert_eq!(run_periodic(0), None);
    assert_eq!(run_periodic(300), Some(300));
}

#[test]
fn scanning_again_takes_nothing_up() {
    let cfg = config();
    let mut claims = Claims::new();
    let names = ["/in/a.mkv", "/in/b.mkv", "/in/notes.txt", "/in/.c.mkv"];
    let scan = |claims: &mut Claims| -> usize {
        names
            .iter()
            .filter(|name| dispatch(&cfg, claims, &candidate(name), true, false))
            .count()
    };
    assert_eq!(scan(&mut claims), 2);
    assert_eq!(scan(&mut claims), 0);
}

#[test]
fn what_is_moved_aside_stays_out_of_watched_folders() {
    let f = folder();
    for attempt in [0, 1, 7] {
        let film = path("/in/a.mkv");
        let original = hbwatch::mover::candidate(&f.originals_dir, &film, attempt);
        assert_eq!(original.parent(), Some(path("/orig")));
        let failed = hbwatch::mover::candidate(&path("/orig/_failed"), &film, attempt);
        assert_eq!(failed.parent(), Some(path("/orig/_failed")));
        assert!(!original.starts_with(&f.watch_dir));
        assert!(!failed.starts_with(&f.watch_dir));
    }
}

#[test]
fn an_interrupted_job_is_taken_up_first() {
    let notifier = Notifier::new(notifications());
    let mut queue = Queue::load(None);
    let mut first = job("a");
    first.attempts = 1;
    first.retry_after = Some(900);
    queue.push(first);
    queue.push(job("b"));
    let turn = Worker::new().worker_loop(&mut queue, &notifier, false, 0, 1000);
    let stopped = turn.worker.interrupted();
    assert!(matches!(stopped.phase, Phase::Stopped));
    let mut restarted = Queue::load(Some(queue.state));
    restarted.resume(&mut Claims::new());
    let next = restarted.take_next().unwrap();
    assert_eq!(next.input_path, path("/in/a.mkv"));
    assert_eq!(next.attempts, 1);
    assert_eq!(next.retry_after, Some(900));
}

#[test]
fn a_file_that_is_still_looked_at_gets_one_job() {
    let cfg = config();
    let mut queue = Queue::load(None);
    let mut claims = Claims::new();
    let slow = candidate("/in/slow.mkv");
    let quick = candidate("/in/quick.mkv");
    assert!(dispatch(&cfg, &mut claims, &slow, true, false));
    assert!(dispatch(&cfg, &mut claims, &quick, true, false));
    assert!(stabilize(&cfg, &mut queue, &mut claims, &quick, true).is_some());
    assert!(queue.take_next().is_some());
    assert!(!dispatch(&cfg, &mut claims, &slow, true, false));
    queue.complete();
    assert!(stabilize(&cfg, &mut queue, &mut claims, &slow, true).is_some());
    assert!(!dispatch(&cfg, &mut claims, &slow, true, false));
    assert_eq!(queue.pending_len(), 1);
    assert_eq!(queue.take_next().unwrap().input_path, slow.path);
}
