//! The worker: it takes one job at a time off the queue, sees to it, and decides what becomes of it.

use vstd::prelude::*;
use vstd::string::*;
use vstd::utf8::*;

use crate::claims::{release, Claims};
use crate::config::{Notifications, Settings};
use crate::encoder::EncodeError;
use crate::job_run::{process_job, JobRun, RunStage, RunStep};
use crate::mover::{move_to_failed, suffixed, FileOp, Mover, MoverStage};
use crate::notify_ntfy::{drain_push, failure_push, item_push, Notifier, Push};
use crate::path::{components, name_text, shown, FilePath};
use crate::queue::{
    claimed_file_is_new, finishing_keeps_one_each, Job, JobStatus, Queue, QueueModel,
};
use crate::text::{contains, contains_what_was_put_in, decimal, push_decimal};

verus! {

/// Whether a failed job is tried again.
#[derive(Debug, Clone, Copy, PartialEq, Eq, Structural)]
pub enum FailureAction {
    Retry,
    GiveUp,
}

/// Whether a failed job (with `attempts` tries made) should retry.
pub fn decide(attempts: u32, max: u32) -> (action: FailureAction)
    ensures
        action == if attempts < max {
            FailureAction::Retry
        } else {
            FailureAction::GiveUp
        },
{
    if attempts < max {
        FailureAction::Retry
    } else {
        FailureAction::GiveUp
    }
}

/// A job for another try.
pub open spec fn retried(job: Job, attempts: u32, at: u64) -> Job {
    Job { attempts, status: JobStatus::Pending, retry_after: Some(at), ..job }
}

/// A job for another try, not before `delay` seconds from now.
pub fn retry_job(job: Job, attempts: u32, delay: u64, now: u64) -> (retry: Job)
    requires
        now + delay <= u64::MAX,
    ensures
        retry == retried(job, attempts, (now + delay) as u64),
{
    let mut job: Job = job;
    job.attempts = attempts;
    job.status = JobStatus::Pending;
    job.retry_after = Some(now + delay);
    job
}

/// How many seconds a job still has to wait before it is tried again.
pub open spec fn delay_left(job: Job, now: u64) -> u64 {
    match job.retry_after {
        Some(at) => if at > now {
            (at - now) as u64
        } else {
            0
        },
        None => 0,
    }
}

/// How many seconds a job still has to wait before it is tried again.
pub fn wait_until_ready(job: &Job, now: u64) -> (wait: u64)
    ensures
        wait == delay_left(*job, now),
{
    match job.retry_after {
        Some(at) => if at > now {
            at - now
        } else {
            0
        },
        None => 0,
    }
}

/// What is told of a job that waits for its next try.
pub open spec fn retry_text(job: Job, wait: u64) -> Seq<char> {
    "retry in "@ + decimal(wait as nat) + "s: "@ + name_text(job.input_path@)
}

/// Tells of a job that waits for its next try.
pub fn retry_note(job: &Job, wait: u64) -> (note: String)
    ensures
        note@ == retry_text(*job, wait),
{
    let mut note: String = "retry in ".to_owned();
    push_decimal(&mut note, wait);
    note.append("s: ");
    note.append(job.input_path.display_name().as_str());
    note
}

/// The jobs since the queue was last empty.
#[derive(Debug, Clone, Copy)]
pub struct Batch {
    /// How many are finished.
    pub count: u64,
    /// One has been started.
    pub open: bool,
}

/// What there is to tell when a job starts.
#[derive(Debug)]
pub struct JobStart {
    pub film: String,
    pub folder: String,
    pub completed: u64,
    pub pending: usize,
    /// The job is the first one of its batch.
    pub opens_batch: bool,
}

/// What became of a job.
#[derive(Debug)]
pub enum Outcome {
    /// It is encoded.
    Done { job: Job, note: String },
    /// It failed for good.
    GaveUp { job: Job, reason: String },
    /// It failed and is back in the queue.
    Retried { note: String },
}

impl Batch {
    /// No job yet.
    pub fn new() -> (batch: Batch)
        ensures
            batch == (Batch { count: 0, open: false }),
    {
        Batch { count: 0, open: false }
    }

    /// What follows on the queue being empty: a batch that finished any job ends.
    pub open spec fn drained(self) -> Batch {
        if self.count > 0 {
            Batch { count: 0, open: false }
        } else {
            self
        }
    }

    /// Ends a batch that finished any job, and tells of how many there were.
    pub fn fire_drain_if_needed(&mut self) -> (count: Option<u64>)
        ensures
            *final(self) == old(self).drained(),
            count == if old(self).count > 0 {
                Some(old(self).count)
            } else {
                None
            },
    {
        if self.count > 0 {
            let count: u64 = self.count;
            self.count = 0;
            self.open = false;
            Some(count)
        } else {
            None
        }
    }

    /// Starts a job that was taken.
    pub fn start_job(&mut self, job: &Job, queue: &Queue) -> (start: JobStart)
        ensures
            start.film@ == name_text(job.input_path@),
            start.folder == job.folder_name,
            start.completed == old(self).count,
            start.pending == queue@.pending.len(),
            start.opens_batch == !old(self).open,
            *final(self) == (Batch { open: true, ..*old(self) }),
    {
        let opens_batch: bool = !self.open;
        self.open = true;
        JobStart {
            film: job.input_path.display_name(),
            folder: job.folder_name.clone(),
            completed: self.count,
            pending: queue.pending_len(),
            opens_batch,
        }
    }

    /// The numbers that seeing to a job counts up have room left: the batch's count, and for a job
    /// that failed its attempts and the time of its next try.
    pub open spec fn has_room(
        self,
        settings: Settings,
        job: Job,
        failed: bool,
        now: u64,
    ) -> bool {
        &&& self.count < u64::MAX
        &&& failed ==> job.attempts < u32::MAX
        &&& failed && job.attempts + 1 < settings.max_attempts ==> now + settings.retry_delay_secs
            <= u64::MAX
    }

    /// Whether the numbers that seeing to a job counts up have room left.
    pub fn can_finish(&self, settings: &Settings, job: &Job, failed: bool, now: u64) -> (can: bool)
        ensures
            can == self.has_room(*settings, *job, failed, now),
    {
        if self.count == u64::MAX {
            return false;
        }
        if !failed {
            return true;
        }
        if job.attempts == u32::MAX {
            return false;
        }
        job.attempts + 1 >= settings.max_attempts || settings.retry_delay_secs <= u64::MAX - now
    }

    /// What becomes of a job that ended: it leaves the queue and is let go, unless it failed and is
    /// tried again.
    pub open spec fn job_ended(
        self,
        settings: Settings,
        queue: QueueModel,
        job: Job,
        result: Result<(), String>,
        now: u64,
        after: Batch,
        queue_after: QueueModel,
        outcome: Outcome,
    ) -> bool {
        let attempts = (job.attempts + 1) as u32;
        let name = name_text(job.input_path@);
        match result {
            Ok(()) => {
                &&& queue_after == queue.with_completed()
                &&& after == (Batch { count: (self.count + 1) as u64, ..self })
                &&& outcome matches Outcome::Done { job: j, note }
                &&& j == job
                &&& note@ == "done: "@ + name
            },
            Err(error) => if attempts < settings.max_attempts {
                &&& queue_after == queue.with_completed().with_pushed(
                    retried(job, attempts, (now + settings.retry_delay_secs) as u64),
                )
                &&& after == self
                &&& outcome matches Outcome::Retried { note }
                &&& note@ == "retry "@ + decimal(attempts as nat) + "/"@ + decimal(
                    settings.max_attempts as nat,
                ) + ": "@ + name + " — "@ + error@
            } else {
                &&& queue_after == queue.with_completed()
                &&& after == (Batch { count: (self.count + 1) as u64, ..self })
                &&& outcome matches Outcome::GaveUp { job: j, reason }
                &&& j == job
                &&& reason == error
            },
        }
    }

    /// Decides whether a failed job retries or is moved aside for good.
    fn handle_failure(
        &mut self,
        settings: &Settings,
        queue: &mut Queue,
        claims: &mut Claims,
        job: Job,
        error: String,
        now: u64,
    ) -> (outcome: Outcome)
        requires
            old(claims).wf(),
            old(self).has_room(*settings, job, true, now),
            old(queue).unsaved,
            old(queue)@.in_flight is None,
        ensures
            final(claims).wf(),
            final(claims)@ == if outcome is Retried {
                old(claims)@
            } else {
                old(claims)@.remove(components(job.input_path@))
            },
            final(queue).unsaved,
            final(queue).wake == (outcome is Retried || old(queue).wake),
            old(self).job_ended(
                *settings,
                old(queue)@,
                job,
                Err(error),
                now,
                *final(self),
                final(queue)@,
                outcome,
            ),
    {
        let attempts: u32 = job.attempts + 1;
        match decide(attempts, settings.max_attempts) {
            FailureAction::Retry => {
                let mut note: String = "retry ".to_owned();
                push_decimal(&mut note, attempts as u64);
                note.append("/");
                push_decimal(&mut note, settings.max_attempts as u64);
                note.append(": ");
                note.append(job.input_path.display_name().as_str());
                note.append(" — ");
                note.append(error.as_str());
                queue.push(retry_job(job, attempts, settings.retry_delay_secs, now));
                Outcome::Retried { note }
            },
            FailureAction::GiveUp => {
                release(claims, &job.input_path);
                self.count = self.count + 1;
                Outcome::GaveUp { job, reason: error }
            },
        }
    }

    /// Clears the job being encoded and routes success and failure.
    pub fn finish(
        &mut self,
        settings: &Settings,
        queue: &mut Queue,
        claims: &mut Claims,
        job: Job,
        result: Result<(), String>,
        now: u64,
    ) -> (outcome: Outcome)
        requires
            old(claims).wf(),
            old(self).has_room(*settings, job, result is Err, now),
        ensures
            old(self).job_ended(
                *settings,
                old(queue)@,
                job,
                result,
                now,
                *final(self),
                final(queue)@,
                outcome,
            ),
            final(claims).wf(),
            final(claims)@ == if outcome is Retried {
                old(claims)@
            } else {
                old(claims)@.remove(components(job.input_path@))
            },
            final(queue).unsaved,
            final(queue).wake == (outcome is Retried || old(queue).wake),
    {
        queue.complete();
        match result {
            Ok(()) => {
                release(claims, &job.input_path);
                self.count = self.count + 1;
                let mut note: String = "done: ".to_owned();
                note.append(job.input_path.display_name().as_str());
                Outcome::Done { job, note }
            },
            Err(error) => self.handle_failure(settings, queue, claims, job, error, now),
        }
    }
}

/// What is told of an input that failed for good.
pub open spec fn failed_text(job: Job, moved: Option<FilePath>) -> Seq<char> {
    match moved {
        Some(dest) => "FAILED (moved to "@ + shown(dest@) + "): "@ + name_text(job.input_path@),
        None => "FAILED: "@ + name_text(job.input_path@),
    }
}

/// Tells of an input that failed for good, and where it was moved, if it was.
pub fn give_up(job: &Job, moved: &Option<FilePath>) -> (note: String)
    ensures
        note@ == failed_text(*job, *moved),
{
    match moved {
        Some(dest) => {
            let mut note: String = "FAILED (moved to ".to_owned();
            note.append(dest.display().as_str());
            note.append("): ");
            note.append(job.input_path.display_name().as_str());
            note
        },
        None => {
            let mut note: String = "FAILED: ".to_owned();
            note.append(job.input_path.display_name().as_str());
            note
        },
    }
}

/// What is told of a finished batch.
pub open spec fn drain_text(count: u64, secs: u64) -> Seq<char> {
    "queue empty — "@ + decimal(count as nat) + " item(s) in "@ + decimal(secs as nat) + "s"@
}

/// Tells of a finished batch.
pub fn drain_note(count: u64, secs: u64) -> (note: String)
    ensures
        note@ == drain_text(count, secs),
{
    let mut note: String = "queue empty — ".to_owned();
    push_decimal(&mut note, count);
    note.append(" item(s) in ");
    push_decimal(&mut note, secs);
    note.append("s");
    note
}

/// What the worker is at.
#[derive(Debug)]
pub enum Phase {
    /// It is about to look at the queue.
    Polling,
    /// It waits for work.
    Idle,
    /// It waits for a job's next try.
    Delayed { job: Job, secs: u64 },
    /// It sees to a job.
    Running { job: Job, run: JobRun },
    /// It puts the input of a job that failed for good aside.
    Aside { job: Job, reason: String, mover: Mover },
    /// It has ended. A job that was being seen to stays in flight, for the next start to resume.
    Stopped,
}

/// The worker.
#[derive(Debug)]
pub struct Worker {
    pub batch: Batch,
    pub phase: Phase,
}

/// Something to tell the display or the notification service.
#[derive(Debug)]
pub enum Tell {
    Note { text: String },
    JobStart { start: JobStart },
    JobDone { ok: bool },
    JobRequeued,
    BatchIdle,
    Push { push: Push },
}

/// What a turn of the worker comes to: where it stands then, and what there is to tell, in order.
#[derive(Debug)]
pub struct Turn {
    pub worker: Worker,
    pub tells: Vec<Tell>,
}

/// What the worker needs done.
#[derive(Debug)]
pub enum WorkerRequest {
    /// Let it look at the queue.
    Poll,
    /// Wait for work, or for the daemon to be ended.
    WaitForWork,
    /// Wait, or be interrupted by the daemon's end.
    Wait { secs: u64 },
    /// Encode a job, or be interrupted by the daemon's end.
    Encode { job: Job, temp: FilePath },
    /// See to a file.
    File { op: FileOp },
    /// End.
    Stop,
}

/// A notification to tell, where there is one.
pub open spec fn push_tell(push: Option<Push>) -> Seq<Tell> {
    match push {
        Some(push) => seq![Tell::Push { push }],
        None => Seq::empty(),
    }
}

/// Appends a notification to tell, where there is one.
fn tell_push(tells: &mut Vec<Tell>, push: Option<Push>)
    ensures
        final(tells)@ == old(tells)@ + push_tell(push),
{
    if let Some(push) = push {
        tells.push(Tell::Push { push });
    }
}

/// A finished batch is told: the display is idle, a note, and a notification. Without a finished job
/// there is nothing to tell.
pub open spec fn drain_told(cfg: Notifications, count: u64, secs: u64, tells: Seq<Tell>) -> bool {
    if count == 0 {
        tells == Seq::<Tell>::empty()
    } else {
        exists|note: String, push: Option<Push>|
            {
                &&& note@ == drain_text(count, secs)
                &&& #[trigger] drain_push(cfg, count, secs, push)
                &&& tells == seq![Tell::BatchIdle, #[trigger] note_tell(note)] + push_tell(push)
            }
    }
}

/// A note to tell.
pub open spec fn note_tell(text: String) -> Tell {
    Tell::Note { text }
}

/// A job starts: it goes to the encoder, and the display is told how large the batch is.
pub open spec fn begun(batch: Batch, job: Job, queue: QueueModel, turn: Turn) -> bool {
    &&& turn.worker.batch == (Batch { open: true, ..batch })
    &&& turn.worker.phase matches Phase::Running { job: j, run }
    &&& j == job
    &&& run.temp@ == suffixed(job.output_path@, ".hbtmp"@)
    &&& run.stage is Encoding
    &&& turn.tells@.len() == 1
    &&& turn.tells@[0] matches Tell::JobStart { start }
    &&& start.film@ == name_text(job.input_path@)
    &&& start.folder == job.folder_name
    &&& start.completed == batch.count
    &&& start.pending == queue.pending.len()
    &&& start.opens_batch == !batch.open
}

/// The worker has looked at the queue: it ends, waits for work, waits for a job's next try, or
/// starts a job.
pub open spec fn polled(
    batch: Batch,
    queue: QueueModel,
    cfg: Notifications,
    shutdown: bool,
    batch_secs: u64,
    now: u64,
    turn: Turn,
) -> bool {
    if shutdown {
        &&& turn.worker == (Worker { batch, phase: Phase::Stopped })
        &&& turn.tells@ == Seq::<Tell>::empty()
    } else if queue.pending.len() == 0 {
        &&& turn.worker == (Worker { batch: batch.drained(), phase: Phase::Idle })
        &&& drain_told(cfg, batch.count, batch_secs, turn.tells@)
    } else {
        let job = queue.with_taken().in_flight->0;
        let secs = delay_left(job, now);
        if secs > 0 {
            &&& turn.worker == (Worker { batch, phase: Phase::Delayed { job, secs } })
            &&& turn.tells@.len() == 1
            &&& turn.tells@[0] matches Tell::Note { text }
            &&& text@ == retry_text(job, secs)
        } else {
            begun(batch, job, queue.with_taken(), turn)
        }
    }
}

/// What becomes of a job that ended, with what there is to tell: it is done, it is back in the queue,
/// or its input is to be put aside.
pub open spec fn told_ended(
    batch: Batch,
    settings: Settings,
    queue: QueueModel,
    cfg: Notifications,
    job: Job,
    result: Result<(), String>,
    now: u64,
    turn: Turn,
    queue_after: QueueModel,
    outcome: Outcome,
) -> bool {
    &&& batch.job_ended(
        settings,
        queue,
        job,
        result,
        now,
        turn.worker.batch,
        queue_after,
        outcome,
    )
    &&& match outcome {
        Outcome::Done { job, note } => {
            &&& turn.worker.phase is Polling
            &&& exists|push: Option<Push>|
                {
                    &&& #[trigger] item_push(cfg, job, push)
                    &&& turn.tells@ == seq![Tell::JobDone { ok: true }, note_tell(note)]
                        + push_tell(push)
                }
        },
        Outcome::Retried { note } => {
            &&& turn.worker.phase is Polling
            &&& turn.tells@ == seq![Tell::JobRequeued, note_tell(note)]
        },
        Outcome::GaveUp { job, reason } => {
            &&& turn.worker.phase matches Phase::Aside { job: j, reason: r, mover }
            &&& j == job
            &&& r == reason
            &&& mover.input == job.input_path
            &&& mover.dir == job.failed_dir
            &&& mover.reason matches Some(text) && text@ == reason@
            &&& mover.stage == (MoverStage::Choose { attempt: 0 })
            &&& turn.tells@ == seq![Tell::JobDone { ok: false }]
        },
    }
}

/// A job failed for good and its input is aside, where there is a path for it, or could not be moved:
/// both are told.
pub open spec fn told_aside(
    cfg: Notifications,
    job: Job,
    reason: String,
    moved: Option<FilePath>,
    tells: Seq<Tell>,
) -> bool {
    exists|note: String, push: Option<Push>|
        {
            &&& note@ == failed_text(job, moved)
            &&& #[trigger] failure_push(cfg, job, reason@, push)
            &&& tells == seq![#[trigger] note_tell(note)] + push_tell(push)
        }
}

impl Worker {
    /// A worker that is about to look at the queue.
    pub fn new() -> (worker: Worker)
        ensures
            worker == (Worker { batch: Batch { count: 0, open: false }, phase: Phase::Polling }),
            worker.wf(),
    {
        Worker { batch: Batch::new(), phase: Phase::Polling }
    }

    /// What is under way has not ended.
    pub open spec fn wf(self) -> bool {
        match self.phase {
            Phase::Running { run, .. } => run.wf() && !(run.stage is Ended),
            Phase::Aside { mover, .. } => !(mover.stage is Done) && !(mover.stage is Failed),
            _ => true,
        }
    }

    /// The job that is being seen to: it is in flight.
    pub open spec fn seen_to(self) -> Option<Job> {
        match self.phase {
            Phase::Delayed { job, .. } => Some(job),
            Phase::Running { job, .. } => Some(job),
            _ => None,
        }
    }

    /// The job in flight is the one that is being seen to. A worker that has ended may leave one.
    pub open spec fn agrees(self, queue: QueueModel) -> bool {
        self.phase is Stopped || queue.in_flight == self.seen_to()
    }

    /// `request` is what the worker needs done.
    pub open spec fn needs(self, request: WorkerRequest) -> bool {
        match self.phase {
            Phase::Polling => request is Poll,
            Phase::Idle => request is WaitForWork,
            Phase::Delayed { secs, .. } => request == (WorkerRequest::Wait { secs }),
            Phase::Running { job, run } => match run.stage {
                RunStage::Encoding => request == (WorkerRequest::Encode { job, temp: run.temp }),
                _ => request matches WorkerRequest::File { op } && run.needs(RunStep::File { op }),
            },
            Phase::Aside { mover, .. } => request matches WorkerRequest::File { op }
                && mover.needs(Some(op)),
            Phase::Stopped => request is Stop,
        }
    }

    /// What the worker needs done.
    pub fn request(&self) -> (request: WorkerRequest)
        requires
            self.wf(),
        ensures
            self.needs(request),
    {
        match &self.phase {
            Phase::Polling => WorkerRequest::Poll,
            Phase::Idle => WorkerRequest::WaitForWork,
            Phase::Delayed { job: _, secs } => WorkerRequest::Wait { secs: *secs },
            Phase::Running { job, run } => match run.next_step() {
                RunStep::Encode { temp } => WorkerRequest::Encode { job: job.clone(), temp },
                RunStep::File { op } => WorkerRequest::File { op },
                RunStep::End { result: _ } => {
                    assert(false);
                    WorkerRequest::Stop
                },
            },
            Phase::Aside { job: _, reason: _, mover } => match mover.next_op() {
                Some(op) => WorkerRequest::File { op },
                None => {
                    assert(false);
                    WorkerRequest::Stop
                },
            },
            Phase::Stopped => WorkerRequest::Stop,
        }
    }

    /// Looks at the queue. `batch_secs` is how long the batch has taken, and `now` the time.
    pub fn worker_loop(
        self,
        queue: &mut Queue,
        notifier: &Notifier,
        shutdown: bool,
        batch_secs: u64,
        now: u64,
    ) -> (turn: Turn)
        requires
            self.phase is Polling,
        ensures
            turn.worker.wf(),
            polled(self.batch, old(queue)@, notifier.cfg, shutdown, batch_secs, now, turn),
            shutdown ==> *final(queue) == *old(queue),
            !shutdown ==> {
                &&& final(queue)@ == old(queue)@.with_taken()
                &&& final(queue).unsaved
                &&& final(queue).wake == old(queue).wake
            },
            self.agrees(old(queue)@) ==> turn.worker.agrees(final(queue)@),
    {
        let mut batch: Batch = self.batch;
        if shutdown {
            return Turn { worker: Worker { batch, phase: Phase::Stopped }, tells: Vec::new() };
        }
        match queue.take_next() {
            None => {
                let mut tells: Vec<Tell> = Vec::new();
                if let Some(count) = batch.fire_drain_if_needed() {
                    let note: String = drain_note(count, batch_secs);
                    let push: Option<Push> = notifier.queue_drain(count, batch_secs);
                    let ghost g = note;
                    let ghost p = push;
                    tells.push(Tell::BatchIdle);
                    tells.push(Tell::Note { text: note });
                    assert(tells@ =~= seq![Tell::BatchIdle, note_tell(g)]);
                    tell_push(&mut tells, push);
                    assert(drain_push(notifier.cfg, count, batch_secs, p));
                }
                Turn { worker: Worker { batch, phase: Phase::Idle }, tells }
            },
            Some(job) => {
                let secs: u64 = wait_until_ready(&job, now);
                if secs > 0 {
                    let tells: Vec<Tell> = vec![Tell::Note { text: retry_note(&job, secs) }];
                    Turn { worker: Worker { batch, phase: Phase::Delayed { job, secs } }, tells }
                } else {
                    begin(batch, job, queue)
                }
            },
        }
    }

    /// There is work, or the daemon is to end: the queue is looked at again.
    pub fn woken(self) -> (worker: Worker)
        requires
            self.phase is Idle,
        ensures
            worker == (Worker { phase: Phase::Polling, ..self }),
            worker.wf(),
    {
        Worker { batch: self.batch, phase: Phase::Polling }
    }

    /// The daemon is to end while a job waits or is encoded: the worker ends, and the job stays in
    /// flight.
    pub fn interrupted(self) -> (worker: Worker)
        requires
            self.phase is Delayed || self.phase is Running,
        ensures
            worker == (Worker { phase: Phase::Stopped, ..self }),
            worker.wf(),
    {
        Worker { batch: self.batch, phase: Phase::Stopped }
    }

    /// A job's next try has come.
    pub fn delay_over(self, queue: &Queue) -> (turn: Turn)
        requires
            self.phase is Delayed,
        ensures
            turn.worker.wf(),
            begun(self.batch, self.phase->Delayed_job, queue@, turn),
            self.agrees(queue@) ==> turn.worker.agrees(queue@),
    {
        match self.phase {
            Phase::Delayed { job, secs: _ } => begin(self.batch, job, queue),
            phase => {
                assert(false);
                Turn { worker: Worker { batch: self.batch, phase }, tells: Vec::new() }
            },
        }
    }

    /// The encoder is through with the job: its files follow, or its temporary file is removed.
    pub fn encoded(self, verdict: Result<(), EncodeError>) -> (worker: Worker)
        requires
            self.phase matches Phase::Running { run, .. } && run.stage is Encoding,
        ensures
            worker.wf(),
            worker.batch == self.batch,
            worker.phase matches Phase::Running { job, run } && {
                &&& job == self.phase->Running_job
                &&& self.phase->Running_run.took(job, verdict, run)
            },
            worker.seen_to() == self.seen_to(),
    {
        match self.phase {
            Phase::Running { job, run } => {
                let run: JobRun = run.encoded(&job, verdict);
                Worker { batch: self.batch, phase: Phase::Running { job, run } }
            },
            phase => {
                assert(false);
                Worker { batch: self.batch, phase }
            },
        }
    }

    /// How a file operation went can be taken in: there is a name left to try, and room in the
    /// numbers that a job's end counts up.
    pub open spec fn can_take(self, settings: Settings, ok: bool, now: u64) -> bool {
        match self.phase {
            Phase::Running { job, run } => match run.stage {
                RunStage::Placing { mover } => mover.can_go_on(ok) && self.batch.has_room(
                    settings,
                    job,
                    false,
                    now,
                ),
                RunStage::Cleaning { .. } => self.batch.has_room(settings, job, true, now),
                _ => false,
            },
            Phase::Aside { mover, .. } => mover.can_go_on(ok),
            _ => false,
        }
    }

    /// Whether how a file operation went can be taken in.
    pub fn takes(&self, settings: &Settings, ok: bool, now: u64) -> (can: bool)
        ensures
            can == self.can_take(*settings, ok, now),
    {
        match &self.phase {
            Phase::Running { job, run } => match &run.stage {
                RunStage::Placing { mover } => mover.goes_on(ok) && self.batch.can_finish(
                    settings,
                    job,
                    false,
                    now,
                ),
                RunStage::Cleaning { reason: _ } => self.batch.can_finish(settings, job, true, now),
                _ => false,
            },
            Phase::Aside { job: _, reason: _, mover } => mover.goes_on(ok),
            _ => false,
        }
    }

    /// What follows on how a file operation went.
    pub open spec fn replied(
        self,
        settings: Settings,
        queue: QueueModel,
        cfg: Notifications,
        ok: bool,
        now: u64,
        turn: Turn,
        queue_after: QueueModel,
    ) -> bool {
        match self.phase {
            Phase::Running { job, run } => exists|next: JobRun| #[trigger]
                run.follows(ok, next) && match next.stage {
                    RunStage::Ended { result } => exists|outcome: Outcome| #[trigger]
                        told_ended(
                            self.batch,
                            settings,
                            queue,
                            cfg,
                            job,
                            result,
                            now,
                            turn,
                            queue_after,
                            outcome,
                        ),
                    _ => {
                        &&& turn.worker == (Worker {
                            phase: Phase::Running { job, run: next },
                            ..self
                        })
                        &&& turn.tells@ == Seq::<Tell>::empty()
                        &&& queue_after == queue
                    },
                },
            Phase::Aside { job, reason, mover } => exists|next: Mover| #[trigger]
                mover.becomes(ok, next) && match next.stage {
                    MoverStage::Done { dest } => {
                        &&& turn.worker == (Worker { phase: Phase::Polling, ..self })
                        &&& told_aside(cfg, job, reason, Some(dest), turn.tells@)
                        &&& queue_after == queue
                    },
                    MoverStage::Failed(_) => {
                        &&& turn.worker == (Worker { phase: Phase::Polling, ..self })
                        &&& told_aside(cfg, job, reason, None, turn.tells@)
                        &&& queue_after == queue
                    },
                    _ => {
                        &&& turn.worker == (Worker {
                            phase: Phase::Aside { job, reason, mover: next },
                            ..self
                        })
                        &&& turn.tells@ == Seq::<Tell>::empty()
                        &&& queue_after == queue
                    },
                },
            _ => false,
        }
    }

    /// Whether a job has left the worker for good: it is let go then.
    pub open spec fn lets_go(self, turn: Turn) -> bool {
        self.phase is Running && (turn.worker.phase is Aside || turn.worker.phase is Polling
            && turn.tells@[0] == (Tell::JobDone { ok: true }))
    }

    /// Takes in how a file operation went.
    pub fn reply(
        self,
        settings: &Settings,
        queue: &mut Queue,
        claims: &mut Claims,
        notifier: &Notifier,
        ok: bool,
        now: u64,
    ) -> (turn: Turn)
        requires
            self.wf(),
            self.can_take(*settings, ok, now),
            old(claims).wf(),
        ensures
            turn.worker.wf(),
            self.replied(*settings, old(queue)@, notifier.cfg, ok, now, turn, final(queue)@),
            self.agrees(old(queue)@) ==> turn.worker.agrees(final(queue)@),
            if self.phase is Running && !(turn.worker.phase is Running) {
                &&& final(queue).unsaved
                &&& final(queue).wake == (old(queue).wake || turn.tells@[0] == Tell::JobRequeued)
            } else {
                *final(queue) == *old(queue)
            },
            final(claims).wf(),
            final(claims)@ == if self.lets_go(turn) {
                old(claims)@.remove(components(self.phase->Running_job.input_path@))
            } else {
                old(claims)@
            },
    {
        let Worker { batch, phase } = self;
        match phase {
            Phase::Running { job, run } => {
                let next: JobRun = run.reply(ok);
                assert(run.follows(ok, next));
                let JobRun { temp, stage } = next;
                match stage {
                    RunStage::Ended { result } => end_job(
                        batch,
                        settings,
                        queue,
                        claims,
                        notifier,
                        job,
                        result,
                        now,
                    ),
                    stage => {
                        let run = JobRun { temp, stage };
                        let phase = Phase::Running { job, run };
                        Turn { worker: Worker { batch, phase }, tells: Vec::new() }
                    },
                }
            },
            Phase::Aside { job, reason, mover } => {
                let next: Mover = mover.reply(ok);
                assert(mover.becomes(ok, next));
                match next.outcome() {
                    None => {
                        let phase = Phase::Aside { job, reason, mover: next };
                        Turn { worker: Worker { batch, phase }, tells: Vec::new() }
                    },
                    Some(end) => {
                        let moved: Option<FilePath> = match end {
                            Ok(dest) => Some(dest),
                            Err(_) => None,
                        };
                        let note: String = give_up(&job, &moved);
                        let push: Option<Push> = notifier.failure(&job, reason.as_str());
                        let ghost g = note;
                        let ghost p = push;
                        let mut tells: Vec<Tell> = vec![Tell::Note { text: note }];
                        assert(tells@ =~= seq![note_tell(g)]);
                        tell_push(&mut tells, push);
                        assert(failure_push(notifier.cfg, job, reason@, p));
                        assert(told_aside(notifier.cfg, job, reason, moved, tells@));
                        Turn { worker: Worker { batch, phase: Phase::Polling }, tells }
                    },
                }
            },
            phase => {
                assert(false);
                Turn { worker: Worker { batch, phase }, tells: Vec::new() }
            },
        }
    }
}

/// Starts a job.
fn begin(batch: Batch, job: Job, queue: &Queue) -> (turn: Turn)
    ensures
        turn.worker.wf(),
        begun(batch, job, queue@, turn),
{
    let mut batch: Batch = batch;
    let start: JobStart = batch.start_job(&job, queue);
    let run: JobRun = process_job(&job);
    let tells: Vec<Tell> = vec![Tell::JobStart { start }];
    Turn { worker: Worker { batch, phase: Phase::Running { job, run } }, tells }
}

/// Routes the end of a job.
fn end_job(
    batch: Batch,
    settings: &Settings,
    queue: &mut Queue,
    claims: &mut Claims,
    notifier: &Notifier,
    job: Job,
    result: Result<(), String>,
    now: u64,
) -> (turn: Turn)
    requires
        old(claims).wf(),
        batch.has_room(*settings, job, result is Err, now),
    ensures
        turn.worker.wf(),
        exists|outcome: Outcome| #[trigger]
            told_ended(
                batch,
                *settings,
                old(queue)@,
                notifier.cfg,
                job,
                result,
                now,
                turn,
                final(queue)@,
                outcome,
            ),
        final(claims).wf(),
        final(claims)@ == if turn.worker.phase is Aside || turn.tells@[0] == (Tell::JobDone {
            ok: true,
        }) {
            old(claims)@.remove(components(job.input_path@))
        } else {
            old(claims)@
        },
        turn.worker.phase is Aside || turn.worker.phase is Polling,
        final(queue)@.in_flight is None,
        final(queue).unsaved,
        final(queue).wake == (old(queue).wake || turn.tells@[0] == Tell::JobRequeued),
{
    let ghost started = batch;
    let mut batch: Batch = batch;
    let outcome: Outcome = batch.finish(settings, queue, claims, job, result, now);
    let ghost g = outcome;
    let turn: Turn = match outcome {
        Outcome::Done { job, note } => {
            let push: Option<Push> = notifier.item_complete(&job);
            let ghost p = push;
            let mut tells: Vec<Tell> = vec![Tell::JobDone { ok: true }, Tell::Note { text: note }];
            assert(tells@ =~= seq![Tell::JobDone { ok: true }, note_tell(note)]);
            tell_push(&mut tells, push);
            assert(item_push(notifier.cfg, job, p));
            assert(tells@[0] == (Tell::JobDone { ok: true }));
            Turn { worker: Worker { batch, phase: Phase::Polling }, tells }
        },
        Outcome::Retried { note } => {
            let tells: Vec<Tell> = vec![Tell::JobRequeued, Tell::Note { text: note }];
            assert(tells@ =~= seq![Tell::JobRequeued, note_tell(note)]);
            assert(tells@[0] == Tell::JobRequeued);
            Turn { worker: Worker { batch, phase: Phase::Polling }, tells }
        },
        Outcome::GaveUp { job, reason } => {
            let mover: Mover = move_to_failed(&job.input_path, &job.failed_dir, reason.as_str());
            let tells: Vec<Tell> = vec![Tell::JobDone { ok: false }];
            assert(tells@ =~= seq![Tell::JobDone { ok: false }]);
            Turn { worker: Worker { batch, phase: Phase::Aside { job, reason, mover } }, tells }
        },
    };
    assert(told_ended(
        started,
        *settings,
        old(queue)@,
        notifier.cfg,
        job,
        result,
        now,
        turn,
        queue@,
        g,
    ));
    turn
}

/// How often a job that always fails is encoded, from the next try on.
pub open spec fn tries_left(attempts: nat, max: nat) -> nat
    decreases max - attempts,
{
    if attempts + 1 < max {
        1 + tries_left(attempts + 1, max)
    } else {
        1
    }
}

/// A job that always fails is encoded as often as `max_attempts` says, and once at the least.
pub proof fn capped_retries(attempts: nat, max: nat)
    ensures
        attempts < max ==> tries_left(attempts, max) == max - attempts,
        attempts >= max ==> tries_left(attempts, max) == 1,
    decreases max - attempts,
{
    if attempts + 1 < max {
        capped_retries(attempts + 1, max);
    }
}

/// A failure brings a job back exactly where it has tries left, and then with one try less.
pub proof fn failure_uses_one_try(
    batch: Batch,
    settings: Settings,
    queue: QueueModel,
    job: Job,
    error: String,
    now: u64,
    after: Batch,
    queue_after: QueueModel,
    outcome: Outcome,
)
    requires
        batch.has_room(settings, job, true, now),
        batch.job_ended(settings, queue, job, Err(error), now, after, queue_after, outcome),
    ensures
        queue_after.in_flight is None,
        outcome is Retried <==> tries_left(job.attempts as nat, settings.max_attempts as nat) > 1,
        outcome is Retried ==> queue_after.pending.len() == queue.pending.len() + 1 && tries_left(
            queue_after.pending.last().attempts as nat,
            settings.max_attempts as nat,
        ) == tries_left(job.attempts as nat, settings.max_attempts as nat) - 1
            && queue_after.pending.last().input_path == job.input_path,
        !(outcome is Retried) ==> queue_after.pending == queue.pending,
{
    capped_retries(job.attempts as nat, settings.max_attempts as nat);
    capped_retries((job.attempts + 1) as nat, settings.max_attempts as nat);
}

/// A job that failed and comes back is still the only one for its file.
pub proof fn retrying_keeps_one_each(
    before: QueueModel,
    claims: Set<Seq<Seq<u8>>>,
    attempts: u32,
    at: u64,
)
    requires
        before.one_job_each(claims),
        before.in_flight is Some,
    ensures
        before.with_completed().with_pushed(
            retried(before.in_flight->0, attempts, at),
        ).one_job_each(claims),
{
    let job = before.in_flight->0;
    let own = components(job.input_path@);
    finishing_keeps_one_each(before, claims);
    assert(before.jobs()[0] == job);
    claimed_file_is_new(before.with_completed(), claims.remove(own), retried(job, attempts, at));
    assert(claims.remove(own).insert(own) =~= claims);
}

/// A job is not started before the time that its last failure set.
pub proof fn retries_wait(
    batch: Batch,
    queue: QueueModel,
    cfg: Notifications,
    shutdown: bool,
    batch_secs: u64,
    now: u64,
    turn: Turn,
)
    requires
        polled(batch, queue, cfg, shutdown, batch_secs, now, turn),
        turn.worker.phase is Running,
    ensures
        turn.worker.phase->Running_job.retry_after matches Some(at) ==> at <= now,
{
}

/// A job that the daemon's end interrupts is the first one that the next start takes up, with its
/// tries and its delay as they were.
pub proof fn interrupted_comes_first(worker: Worker, queue: QueueModel, job: Job)
    requires
        worker.agrees(queue),
        worker.seen_to() == Some(job),
    ensures
        queue.with_resumed().in_flight is None,
        queue.with_resumed().pending == seq![Job { status: JobStatus::Pending, ..job }]
            + queue.pending,
        queue.with_resumed().with_taken().in_flight == Some(
            Job { status: JobStatus::Processing, ..job },
        ),
{
}

/// A job for another try is the same job: for the same file, with the same preset, output and
/// directories. It waits, with its tries counted and the time of its next one set.
pub proof fn retries_are_the_same_job(job: Job, attempts: u32, at: u64)
    ensures
        retried(job, attempts, at).attempts == attempts,
        retried(job, attempts, at).retry_after == Some(at),
        retried(job, attempts, at).status == JobStatus::Pending,
        retried(job, attempts, at) == (Job {
            attempts,
            retry_after: Some(at),
            status: JobStatus::Pending,
            ..job
        }),
        job == (Job {
            attempts: job.attempts,
            retry_after: job.retry_after,
            status: job.status,
            ..retried(job, attempts, at)
        }),
{
}

/// A job waits just until the time that was set: now and the wait together make that time, and there
/// is no wait where it has come or none was set.
pub proof fn waits_until_its_time(job: Job, now: u64)
    ensures
        job.retry_after matches Some(at) ==> {
            &&& at > now ==> now + delay_left(job, now) == at
            &&& at <= now ==> delay_left(job, now) == 0
        },
        job.retry_after is None ==> delay_left(job, now) == 0,
{
}

/// Whatever a job ends in, it is out of flight and the jobs that wait stay in their order. A job that
/// succeeded is done and counted. One that failed goes to the end of the queue with one more try
/// counted and its delay set, uncounted, while it has been tried less often than the settings say; and
/// is given up and counted else, for the reason that it failed for.
pub proof fn every_end_of_a_job(
    batch: Batch,
    settings: Settings,
    queue: QueueModel,
    job: Job,
    result: Result<(), String>,
    now: u64,
    after: Batch,
    queue_after: QueueModel,
    outcome: Outcome,
)
    requires
        batch.has_room(settings, job, result is Err, now),
        batch.job_ended(settings, queue, job, result, now, after, queue_after, outcome),
    ensures
        queue_after.in_flight is None,
        after.open == batch.open,
        result is Ok ==> {
            &&& outcome matches Outcome::Done { job: done, note }
            &&& done == job
            &&& contains(note@, name_text(job.input_path@))
            &&& queue_after.pending == queue.pending
            &&& after.count == batch.count + 1
        },
        result is Err && job.attempts + 1 < settings.max_attempts ==> {
            &&& outcome is Retried
            &&& queue_after.pending.len() == queue.pending.len() + 1
            &&& queue_after.pending.drop_last() == queue.pending
            &&& queue_after.pending.last().input_path == job.input_path
            &&& queue_after.pending.last().output_path == job.output_path
            &&& queue_after.pending.last().attempts == job.attempts + 1
            &&& queue_after.pending.last().retry_after == Some(
                (now + settings.retry_delay_secs) as u64,
            )
            &&& queue_after.pending.last().retry_after->0 == now + settings.retry_delay_secs
            &&& queue_after.pending.last().status == JobStatus::Pending
            &&& after.count == batch.count
        },
        result is Err && job.attempts + 1 >= settings.max_attempts ==> {
            &&& outcome matches Outcome::GaveUp { job: left, reason }
            &&& left == job
            &&& reason@ == result->Err_0@
            &&& queue_after.pending == queue.pending
            &&& after.count == batch.count + 1
        },
{
    let none = Seq::<char>::empty();
    let name = name_text(job.input_path@);
    contains_what_was_put_in("done: "@, name, none);
    assert("done: "@ + name + none =~= "done: "@ + name);
    if outcome is Retried {
        assert(queue_after.pending.drop_last() =~= queue.pending);
    }
}

/// What the worker does with the queue: it ends where the daemon does, waits where nothing waits, and
/// takes the first job else. That job is started where its time has come, and waited for else, until
/// that time; what is told of its start is its own file and folder, and how many jobs come before and
/// behind it.
pub proof fn first_job_is_seen_to(
    batch: Batch,
    queue: QueueModel,
    cfg: Notifications,
    shutdown: bool,
    batch_secs: u64,
    now: u64,
    turn: Turn,
)
    requires
        polled(batch, queue, cfg, shutdown, batch_secs, now, turn),
    ensures
        turn.worker.phase is Stopped <==> shutdown,
        turn.worker.phase is Idle <==> !shutdown && queue.pending.len() == 0,
        shutdown ==> turn.tells@.len() == 0 && turn.worker.batch == batch,
        !shutdown && queue.pending.len() > 0 ==> {
            let first = queue.pending[0];
            let ready = first.retry_after is None || first.retry_after->0 <= now;
            &&& ready <==> turn.worker.phase is Running
            &&& !ready <==> turn.worker.phase is Delayed
            &&& turn.worker.seen_to() == Some(Job { status: JobStatus::Processing, ..first })
            &&& turn.tells@.len() == 1
            &&& turn.worker.batch.count == batch.count
            &&& !ready ==> turn.worker.batch.open == batch.open
            &&& !ready ==> now + turn.worker.phase->Delayed_secs == first.retry_after->0
            &&& ready ==> {
                &&& turn.tells@[0] matches Tell::JobStart { start }
                &&& start.film@ == name_text(first.input_path@)
                &&& start.folder@ == first.folder_name@
                &&& start.completed == batch.count
                &&& start.pending == queue.pending.len() - 1
                &&& start.opens_batch <==> !batch.open
                &&& turn.worker.batch.open
                &&& turn.worker.phase->Running_run.stage is Encoding
                &&& turn.worker.phase->Running_run.temp@ == first.output_path@ + encode_utf8(
                    ".hbtmp"@,
                )
            }
        },
{
    if !shutdown && queue.pending.len() > 0 {
        waits_until_its_time(queue.with_taken().in_flight->0, now);
    }
}

/// A batch ends where the queue is empty: if it finished any job, the display is told, and the note
/// and the notification give how many; if it did not, nothing is told. The next batch counts from
/// zero.
pub proof fn empty_queue_ends_the_batch(
    batch: Batch,
    queue: QueueModel,
    cfg: Notifications,
    batch_secs: u64,
    now: u64,
    turn: Turn,
)
    requires
        polled(batch, queue, cfg, false, batch_secs, now, turn),
        queue.pending.len() == 0,
    ensures
        turn.worker.batch.count == 0,
        batch.count == 0 ==> turn.tells@.len() == 0,
        batch.count > 0 ==> {
            &&& !turn.worker.batch.open
            &&& turn.tells@.len() == if cfg.enabled && cfg.on_queue_drain {
                3int
            } else {
                2
            }
            &&& turn.tells@[0] is BatchIdle
            &&& turn.tells@[1] matches Tell::Note { text }
            &&& contains(text@, decimal(batch.count as nat))
            &&& cfg.enabled && cfg.on_queue_drain ==> (turn.tells@[2] matches Tell::Push { push }
                && contains(push.body@, decimal(batch.count as nat)))
        },
{
    if batch.count > 0 {
        let (note, push) = choose|note: String, push: Option<Push>|
            {
                &&& note@ == drain_text(batch.count, batch_secs)
                &&& #[trigger] drain_push(cfg, batch.count, batch_secs, push)
                &&& turn.tells@ == seq![Tell::BatchIdle, #[trigger] note_tell(note)] + push_tell(push)
            };
        let count = decimal(batch.count as nat);
        let tail = " item(s) in "@ + decimal(batch_secs as nat) + "s"@;
        assert(turn.tells@[1] == note_tell(note));
        contains_what_was_put_in("queue empty — "@, count, tail);
        assert("queue empty — "@ + count + tail =~= note@);
        if let Some(p) = push {
            assert(turn.tells@[2] == (Tell::Push { push: p }));
            contains_what_was_put_in("processed "@, count, tail);
            assert("processed "@ + count + tail =~= p.body@);
        }
    }
}

/// What is told of a job that ended: that it is done, or is back in the queue, or failed, and that
/// first; and a note beside it, but for a failed job, whose note comes when its input is aside. A
/// finished file is notified of where that is wanted. A failed job's input is put aside, in the job's
/// directory for it and with the job's reason.
pub proof fn ends_are_told(
    batch: Batch,
    settings: Settings,
    queue: QueueModel,
    cfg: Notifications,
    job: Job,
    result: Result<(), String>,
    now: u64,
    turn: Turn,
    queue_after: QueueModel,
    outcome: Outcome,
)
    requires
        batch.has_room(settings, job, result is Err, now),
        told_ended(batch, settings, queue, cfg, job, result, now, turn, queue_after, outcome),
    ensures
        turn.tells@.len() > 0,
        turn.tells@[0] == (Tell::JobDone { ok: true }) <==> result is Ok,
        turn.tells@[0] is JobRequeued <==> result is Err && job.attempts + 1
            < settings.max_attempts,
        turn.tells@[0] == (Tell::JobDone { ok: false }) <==> result is Err && job.attempts + 1
            >= settings.max_attempts,
        turn.worker.phase is Aside <==> result is Err && job.attempts + 1 >= settings.max_attempts,
        !(turn.worker.phase is Aside) ==> turn.worker.phase is Polling && turn.tells@[1] is Note,
        result is Ok ==> (turn.tells@.len() == 3 <==> cfg.enabled && cfg.on_item_complete),
        turn.worker.phase matches Phase::Aside { job: left, reason, mover } ==> {
            &&& left == job
            &&& reason@ == result->Err_0@
            &&& mover.input == job.input_path
            &&& mover.dir == job.failed_dir
            &&& mover.reason matches Some(text) && text@ == reason@
        },
{
    if let Outcome::Done { job: done, note } = outcome {
        let push = choose|push: Option<Push>|
            {
                &&& #[trigger] item_push(cfg, done, push)
                &&& turn.tells@ == seq![Tell::JobDone { ok: true }, note_tell(note)] + push_tell(push)
            };
        assert(turn.tells@[0] == (Tell::JobDone { ok: true }));
        assert(turn.tells@[1] == note_tell(note));
    }
    if let Outcome::Retried { note } = outcome {
        assert(turn.tells@[0] == Tell::JobRequeued);
        assert(turn.tells@[1] == note_tell(note));
    }
}

/// A file is let go exactly where its job leaves the worker for good, which is when the display is
/// told that it is done: not while it is being seen to, and not where it is tried again.
pub proof fn let_go_when_done(
    worker: Worker,
    settings: Settings,
    queue: QueueModel,
    cfg: Notifications,
    ok: bool,
    now: u64,
    turn: Turn,
    queue_after: QueueModel,
)
    requires
        worker.wf(),
        worker.phase is Running,
        worker.can_take(settings, ok, now),
        worker.replied(settings, queue, cfg, ok, now, turn, queue_after),
    ensures
        worker.lets_go(turn) <==> turn.tells@.len() > 0 && turn.tells@[0] is JobDone,
        worker.lets_go(turn) ==> queue_after.in_flight is None && queue_after.pending
            == queue.pending,
        turn.worker.phase is Running ==> queue_after == queue && turn.tells@.len() == 0
            && turn.worker.seen_to() == worker.seen_to(),
{
    let job = worker.phase->Running_job;
    let run = worker.phase->Running_run;
    let next = choose|next: JobRun| #[trigger]
        run.follows(ok, next) && match next.stage {
            RunStage::Ended { result } => exists|outcome: Outcome| #[trigger]
                told_ended(
                    worker.batch,
                    settings,
                    queue,
                    cfg,
                    job,
                    result,
                    now,
                    turn,
                    queue_after,
                    outcome,
                ),
            _ => {
                &&& turn.worker == (Worker { phase: Phase::Running { job, run: next }, ..worker })
                &&& turn.tells@ == Seq::<Tell>::empty()
                &&& queue_after == queue
            },
        };
    if let RunStage::Ended { result } = next.stage {
        let outcome = choose|outcome: Outcome| #[trigger]
            told_ended(
                worker.batch,
                settings,
                queue,
                cfg,
                job,
                result,
                now,
                turn,
                queue_after,
                outcome,
            );
        ends_are_told(
            worker.batch,
            settings,
            queue,
            cfg,
            job,
            result,
            now,
            turn,
            queue_after,
            outcome,
        );
    }
}

/// An input that was put aside, or could not be, is told of by name, with where it is now if it was
/// moved; a failure is notified of where that is wanted.
pub proof fn failures_are_told(
    cfg: Notifications,
    job: Job,
    reason: String,
    moved: Option<FilePath>,
    tells: Seq<Tell>,
)
    requires
        told_aside(cfg, job, reason, moved, tells),
    ensures
        tells[0] matches Tell::Note { text } && {
            &&& contains(text@, name_text(job.input_path@))
            &&& moved matches Some(dest) ==> contains(text@, shown(dest@))
        },
        tells.len() == if cfg.enabled && cfg.on_failure {
            2int
        } else {
            1
        },
        cfg.enabled && cfg.on_failure ==> (tells[1] matches Tell::Push { push } && contains(
            push.body@,
            reason@,
        ) && contains(push.body@, name_text(job.input_path@))),
{
    let (note, push) = choose|note: String, push: Option<Push>|
        {
            &&& note@ == failed_text(job, moved)
            &&& #[trigger] failure_push(cfg, job, reason@, push)
            &&& tells == seq![#[trigger] note_tell(note)] + push_tell(push)
        };
    assert(tells[0] == note_tell(note));
    let none = Seq::<char>::empty();
    let name = name_text(job.input_path@);
    match moved {
        Some(dest) => {
            let at = shown(dest@);
            contains_what_was_put_in("FAILED (moved to "@, at, "): "@ + name);
            assert("FAILED (moved to "@ + at + ("): "@ + name) =~= note@);
            contains_what_was_put_in("FAILED (moved to "@ + at + "): "@, name, none);
            assert("FAILED (moved to "@ + at + "): "@ + name + none =~= note@);
        },
        None => {
            contains_what_was_put_in("FAILED: "@, name, none);
            assert("FAILED: "@ + name + none =~= note@);
        },
    }
    if let Some(p) = push {
        assert(tells[1] == (Tell::Push { push: p }));
        let head = job.folder_name@ + " / "@;
        contains_what_was_put_in(head, name, "\n"@ + reason@);
        assert(head + name + ("\n"@ + reason@) =~= p.body@);
        contains_what_was_put_in(head + name + "\n"@, reason@, none);
        assert(head + name + "\n"@ + reason@ + none =~= p.body@);
    }
}

/// What is told of a delay gives the wait and the file.
pub proof fn delays_are_told(job: Job, wait: u64)
    ensures
        contains(retry_text(job, wait), decimal(wait as nat)),
        contains(retry_text(job, wait), name_text(job.input_path@)),
{
    let none = Seq::<char>::empty();
    let name = name_text(job.input_path@);
    let secs = decimal(wait as nat);
    contains_what_was_put_in("retry in "@, secs, "s: "@ + name);
    assert("retry in "@ + secs + ("s: "@ + name) =~= retry_text(job, wait));
    contains_what_was_put_in("retry in "@ + secs + "s: "@, name, none);
    assert("retry in "@ + secs + "s: "@ + name + none =~= retry_text(job, wait));
}

/// Of two jobs that are started one behind the other, with no empty queue between, the second never
/// opens a batch, however the first one ended and whatever it counted.
pub proof fn batches_open_once(
    batch: Batch,
    job: Job,
    queue: QueueModel,
    first: Turn,
    settings: Settings,
    result: Result<(), String>,
    now: u64,
    between: Batch,
    queue_after: QueueModel,
    outcome: Outcome,
    other: Job,
    second: Turn,
)
    requires
        begun(batch, job, queue, first),
        first.worker.batch.job_ended(
            settings,
            queue,
            job,
            result,
            now,
            between,
            queue_after,
            outcome,
        ),
        begun(between, other, queue_after, second),
    ensures
        first.tells@[0] matches Tell::JobStart { start } && start.opens_batch == !batch.open,
        second.tells@[0] matches Tell::JobStart { start } && !start.opens_batch,
{
}


/// What the worker asks for is what it is at: it waits as long as a delay lasts, encodes the job that
/// it sees to into the file that its run writes, removes that file where the run failed, and asks for
/// no encode while it moves files.
pub proof fn requests_fit_the_phase(worker: Worker, request: WorkerRequest)
    requires
        worker.wf(),
        worker.needs(request),
    ensures
        request is Poll <==> worker.phase is Polling,
        request is WaitForWork <==> worker.phase is Idle,
        request is Stop <==> worker.phase is Stopped,
        request is Wait <==> worker.phase is Delayed,
        request matches WorkerRequest::Wait { secs } ==> secs == worker.phase->Delayed_secs,
        request is Encode <==> worker.phase is Running
            && worker.phase->Running_run.stage is Encoding,
        request matches WorkerRequest::Encode { job, temp } ==> {
            &&& worker.seen_to() == Some(job)
            &&& temp@ == worker.phase->Running_run.temp@
        },
        worker.phase matches Phase::Running { run, .. } ==> run.stage is Cleaning ==> {
            &&& request matches WorkerRequest::File { op: FileOp::Remove { path } }
            &&& path@ == run.temp@
        },
        request matches WorkerRequest::File { op } ==> match worker.phase {
            Phase::Aside { mover, .. } => mover.needs(Some(op)),
            Phase::Running { run, .. } => run.stage matches RunStage::Placing { mover }
                ==> mover.needs(Some(op)),
            _ => false,
        },
{
}

/// The end of a job is refused only where a number would pass its largest value.
pub proof fn room_until_the_last(batch: Batch, settings: Settings, job: Job, failed: bool, now: u64)
    ensures
        batch.has_room(settings, job, failed, now) <==> {
            &&& batch.count + 1 <= u64::MAX
            &&& failed ==> job.attempts + 1 <= u32::MAX
            &&& failed && job.attempts + 1 < settings.max_attempts ==> now
                + settings.retry_delay_secs <= u64::MAX
        },
        batch.count + 1 <= u64::MAX && !failed ==> batch.has_room(settings, job, failed, now),
{
}


} // verus!
