//! The serial job queue, which a restart resumes.

use std::collections::VecDeque;

use uuid::Uuid;
use vstd::prelude::*;
use vstd::string::*;
use vstd::utf8::*;

use crate::claims::{claim, Claims};
use crate::config::ResolvedFolder;
use crate::mover::{suffixed, temp_path};
use crate::path::{
    components, join_adds_component, joined, name_text, text_is_plain, FilePath,
};
use crate::text::same_text;

verus! {

/// An identifier of a job.
#[verifier::external_type_specification]
#[verifier::external_body]
pub struct ExUuid(uuid::Uuid);

/// `Uuid::new_v4`: a random identifier, of which nothing is stated.
pub assume_specification[ uuid::Uuid::new_v4 ]() -> uuid::Uuid
;

/// The system clock was set behind the time that it is compared with.
#[verifier::external_type_specification]
#[verifier::external_body]
pub struct ExSystemTimeError(std::time::SystemTimeError);

/// `SystemTime::elapsed` on `UNIX_EPOCH`: how long ago Unix time started, by the system clock. It
/// rests on the time alone, so nothing is stated of it.
#[verifier::external_body]
fn since_epoch() -> Result<std::time::Duration, std::time::SystemTimeError> {
    std::time::UNIX_EPOCH.elapsed()
}

/// `Duration::as_secs`: the whole seconds of a duration. What a duration holds is hidden, so nothing
/// is stated of them.
pub assume_specification[ std::time::Duration::as_secs ](duration: &std::time::Duration) -> u64
;

/// Whether a job waits or is being encoded.
#[derive(Debug, Clone, Copy, PartialEq, Eq, Structural)]
pub enum JobStatus {
    Pending,
    Processing,
}

/// One file to encode.
#[derive(Debug)]
pub struct Job {
    pub id: Uuid,
    pub input_path: FilePath,
    pub folder_name: String,
    pub preset_file: FilePath,
    pub preset_name: String,
    pub output_path: FilePath,
    pub originals_dir: FilePath,
    pub failed_dir: FilePath,
    pub status: JobStatus,
    pub attempts: u32,
    pub enqueued_at: u64,
    pub retry_after: Option<u64>,
}

impl Clone for Job {
    fn clone(&self) -> (copy: Self)
        ensures
            copy == *self,
    {
        Job {
            id: self.id,
            input_path: self.input_path.clone(),
            folder_name: self.folder_name.clone(),
            preset_file: self.preset_file.clone(),
            preset_name: self.preset_name.clone(),
            output_path: self.output_path.clone(),
            originals_dir: self.originals_dir.clone(),
            failed_dir: self.failed_dir.clone(),
            status: self.status,
            attempts: self.attempts,
            enqueued_at: self.enqueued_at,
            retry_after: self.retry_after,
        }
    }
}

/// What is kept of the queue between two runs of the daemon.
#[derive(Debug)]
pub struct QueueState {
    pub pending: VecDeque<Job>,
    pub in_flight: Option<Job>,
}

impl Default for QueueState {
    fn default() -> (state: Self)
        ensures
            state.pending@ == Seq::<Job>::empty(),
            state.in_flight is None,
    {
        QueueState { pending: VecDeque::new(), in_flight: None }
    }
}

/// The jobs of a queue: those that wait, first in first out, and the one being encoded.
pub ghost struct QueueModel {
    pub pending: Seq<Job>,
    pub in_flight: Option<Job>,
}

/// The job queue. Every operation leaves its state to be saved.
#[derive(Debug)]
pub struct Queue {
    pub state: QueueState,
    /// The state is not the one saved last.
    pub unsaved: bool,
    /// The worker has something new to look at.
    pub wake: bool,
}

impl View for Queue {
    type V = QueueModel;

    open spec fn view(&self) -> QueueModel {
        QueueModel { pending: self.state.pending@, in_flight: self.state.in_flight }
    }
}

/// What is to be done about a queue that has changed.
#[derive(Debug, Clone, Copy, PartialEq, Eq, Structural)]
pub struct Upkeep {
    pub save: bool,
    pub wake: bool,
}

impl QueueModel {
    /// With a job at the end.
    pub open spec fn with_pushed(self, job: Job) -> QueueModel {
        QueueModel { pending: self.pending.push(job), ..self }
    }

    /// With the first job that waits being encoded.
    pub open spec fn with_taken(self) -> QueueModel {
        if self.pending.len() == 0 {
            self
        } else {
            QueueModel {
                pending: self.pending.drop_first(),
                in_flight: Some(Job { status: JobStatus::Processing, ..self.pending[0] }),
            }
        }
    }

    /// With nothing being encoded.
    pub open spec fn with_completed(self) -> QueueModel {
        QueueModel { in_flight: None, ..self }
    }

    /// With the job that was being encoded back at the front.
    pub open spec fn with_resumed(self) -> QueueModel {
        match self.in_flight {
            Some(job) => QueueModel {
                pending: seq![Job { status: JobStatus::Pending, ..job }] + self.pending,
                in_flight: None,
            },
            None => self,
        }
    }

    /// All jobs: the one being encoded, and those that wait behind it.
    pub open spec fn jobs(self) -> Seq<Job> {
        match self.in_flight {
            Some(job) => seq![job] + self.pending,
            None => self.pending,
        }
    }

    /// Every job's input is claimed, and no two jobs have the same input.
    pub open spec fn one_job_each(self, claims: Set<Seq<Seq<u8>>>) -> bool {
        let jobs = self.jobs();
        &&& forall|i: int|
            0 <= i < jobs.len() ==> claims.contains(components((#[trigger] jobs[i]).input_path@))
        &&& forall|i: int, j: int|
            0 <= i < j < jobs.len() ==> components((#[trigger] jobs[i]).input_path@) != components(
                (#[trigger] jobs[j]).input_path@,
            )
    }

    /// No job has an input with these components.
    pub open spec fn no_job_for(self, c: Seq<Seq<u8>>) -> bool {
        forall|i: int|
            0 <= i < self.jobs().len() ==> components((#[trigger] self.jobs()[i]).input_path@) != c
    }

    /// Every job that waits is marked so.
    pub open spec fn all_wait(self) -> bool {
        forall|i: int|
            0 <= i < self.pending.len() ==> (#[trigger] self.pending[i]).status
                == JobStatus::Pending
    }

    /// The paths of the inputs that wait, as components.
    pub open spec fn inputs(self) -> Set<Seq<Seq<u8>>> {
        Set::new(|c: Seq<Seq<u8>>| waits(self.pending, c))
    }
}

/// One of the jobs has an input with these components.
pub open spec fn waits(jobs: Seq<Job>, c: Seq<Seq<u8>>) -> bool {
    exists|i: int| 0 <= i < jobs.len() && components((#[trigger] jobs[i]).input_path@) == c
}

impl Queue {
    /// The queue as it was saved, or an empty one where nothing was.
    pub fn load(saved: Option<QueueState>) -> (queue: Queue)
        ensures
            match saved {
                Some(state) => queue.state == state,
                None => queue@ == (QueueModel { pending: Seq::empty(), in_flight: None }),
            },
            !queue.unsaved,
            !queue.wake,
    {
        let state: QueueState = match saved {
            Some(state) => state,
            None => QueueState { pending: VecDeque::new(), in_flight: None },
        };
        Queue { state, unsaved: false, wake: false }
    }

    /// Puts an interrupted job back to the front and claims the inputs of all jobs that wait. The
    /// interrupted job's temporary file is to be removed.
    pub fn resume(&mut self, claims: &mut Claims) -> (remove: Option<FilePath>)
        requires
            old(claims).wf(),
        ensures
            final(self)@ == old(self)@.with_resumed(),
            final(self).unsaved,
            final(self).wake == old(self).wake,
            final(claims).wf(),
            final(claims)@ == old(claims)@.union(final(self)@.inputs()),
            forall|i: int|
                0 <= i < final(self)@.pending.len() ==> final(claims)@.contains(
                    components((#[trigger] final(self)@.pending[i]).input_path@),
                ),
            match old(self)@.in_flight {
                Some(job) => remove matches Some(temp) && temp@ == suffixed(
                    job.output_path@,
                    ".hbtmp"@,
                ),
                None => remove is None,
            },
    {
        let remove: Option<FilePath> = match self.state.in_flight.take() {
            Some(mut job) => {
                let temp: FilePath = temp_path(&job.output_path);
                job.status = JobStatus::Pending;
                self.state.pending.push_front(job);
                Some(temp)
            },
            None => None,
        };
        assert(self@.pending =~= old(self)@.with_resumed().pending);
        let len: usize = self.state.pending.len();
        let ghost jobs = self.state.pending@;
        assert(claims@ =~= old(claims)@.union(
            Set::new(|c: Seq<Seq<u8>>| waits(jobs.take(0), c)),
        ));
        for i in 0..len
            invariant
                len == self.state.pending@.len(),
                jobs == self.state.pending@,
                claims.wf(),
                claims@ == old(claims)@.union(
                    Set::new(|c: Seq<Seq<u8>>| waits(jobs.take(i as int), c)),
                ),
        {
            claim(claims, &self.state.pending[i].input_path);
            proof {
                let own = components(jobs[i as int].input_path@);
                assert forall|c: Seq<Seq<u8>>|
                    waits(jobs.take(i + 1), c) == (waits(jobs.take(i as int), c) || c == own) by {
                    one_more_waits(jobs, i as int, c);
                }
                assert(claims@ =~= old(claims)@.union(
                    Set::new(|c: Seq<Seq<u8>>| waits(jobs.take(i + 1), c)),
                ));
            }
        }
        assert(jobs.take(len as int) =~= jobs);
        assert(claims@ =~= old(claims)@.union(self@.inputs()));
        proof {
            waiting_inputs(self@);
        }
        self.unsaved = true;
        remove
    }

    /// Enqueues a job and wakes the worker.
    pub fn push(&mut self, job: Job)
        ensures
            final(self)@ == old(self)@.with_pushed(job),
            final(self).unsaved,
            final(self).wake,
    {
        self.state.pending.push_back(job);
        self.unsaved = true;
        self.wake = true;
    }

    /// Takes the first job that waits, which is then being encoded.
    pub fn take_next(&mut self) -> (next: Option<Job>)
        ensures
            final(self)@ == old(self)@.with_taken(),
            final(self).unsaved,
            final(self).wake == old(self).wake,
            next is Some <==> old(self)@.pending.len() > 0,
            next is Some ==> next == final(self)@.in_flight,
    {
        self.unsaved = true;
        match self.state.pending.pop_front() {
            Some(mut job) => {
                job.status = JobStatus::Processing;
                self.state.in_flight = Some(job.clone());
                assert(self@.pending =~= old(self)@.pending.drop_first());
                Some(job)
            },
            None => None,
        }
    }

    /// Clears the job being encoded after it finishes.
    pub fn complete(&mut self)
        ensures
            final(self)@ == old(self)@.with_completed(),
            final(self).unsaved,
            final(self).wake == old(self).wake,
    {
        self.state.in_flight = None;
        self.unsaved = true;
    }

    /// What is to be done about the changes since the last call.
    pub fn upkeep(&mut self) -> (due: Upkeep)
        ensures
            final(self).state == old(self).state,
            !final(self).unsaved,
            !final(self).wake,
            due == (Upkeep { save: old(self).unsaved, wake: old(self).wake }),
    {
        let due = Upkeep { save: self.unsaved, wake: self.wake };
        self.unsaved = false;
        self.wake = false;
        due
    }

    /// How many jobs wait.
    pub fn pending_len(&self) -> (len: usize)
        ensures
            len == self@.pending.len(),
    {
        self.state.pending.len()
    }

    /// How many jobs of each folder wait.
    pub fn pending_counts(&self) -> (counts: FolderCounts)
        ensures
            forall|name: Seq<char>| #[trigger] counts.of(name) == pending_in(self@.pending, name),
            counts.sum() == self@.pending.len(),
    {
        let mut entries: Vec<(String, usize)> = Vec::new();
        let len: usize = self.state.pending.len();
        let ghost jobs = self.state.pending@;
        for i in 0..len
            invariant
                len == self.state.pending@.len(),
                jobs == self.state.pending@,
                tally(entries@, anyone()) == i,
                forall|name: Seq<char>| #[trigger]
                    tally(entries@, only(name)) == pending_in(jobs.take(i as int), name),
        {
            let ghost before = entries@;
            count_one(&mut entries, &self.state.pending[i].folder_name);
            proof {
                assert forall|name: Seq<char>| #[trigger]
                    tally(entries@, only(name)) == pending_in(jobs.take(i + 1), name) by {
                    assert(jobs.take(i + 1).drop_last() =~= jobs.take(i as int));
                    assert(tally(before, only(name)) == pending_in(jobs.take(i as int), name));
                    assert(tally(entries@, only(name)) == tally(before, only(name)) + (if only(
                        name,
                    )(jobs[i as int].folder_name@) {
                        1nat
                    } else {
                        0
                    }));
                }
            }
        }
        assert(jobs.take(len as int) =~= jobs);
        FolderCounts { entries }
    }

    /// The folder and the file of the job being encoded.
    pub fn in_flight_name(&self) -> (name: Option<(String, String)>)
        ensures
            match self@.in_flight {
                Some(job) => name matches Some((folder, film)) && folder == job.folder_name && film@
                    == name_text(job.input_path@),
                None => name is None,
            },
    {
        match &self.state.in_flight {
            Some(job) => Some((job.folder_name.clone(), job.input_path.display_name())),
            None => None,
        }
    }
}

/// One more job in front adds its own input.
proof fn one_more_waits(jobs: Seq<Job>, n: int, c: Seq<Seq<u8>>)
    requires
        0 <= n < jobs.len(),
    ensures
        waits(jobs.take(n + 1), c) == (waits(jobs.take(n), c) || c == components(
            jobs[n].input_path@,
        )),
{
    let (more, fewer) = (jobs.take(n + 1), jobs.take(n));
    if waits(fewer, c) {
        let i = choose|i: int|
            0 <= i < fewer.len() && components((#[trigger] fewer[i]).input_path@) == c;
        assert(more[i] == fewer[i]);
    }
    if c == components(jobs[n].input_path@) {
        assert(more[n] == jobs[n]);
    }
    if waits(more, c) {
        let i = choose|i: int|
            0 <= i < more.len() && components((#[trigger] more[i]).input_path@) == c;
        if i < n {
            assert(fewer[i] == more[i]);
        }
    }
}

/// How many of some jobs belong to a folder.
pub open spec fn pending_in(jobs: Seq<Job>, name: Seq<char>) -> nat
    decreases jobs.len(),
{
    if jobs.len() == 0 {
        0
    } else {
        pending_in(jobs.drop_last(), name) + if jobs.last().folder_name@ == name {
            1nat
        } else {
            0
        }
    }
}

/// How many jobs of each folder wait.
#[derive(Debug)]
pub struct FolderCounts {
    entries: Vec<(String, usize)>,
}

/// Every name.
spec fn anyone() -> spec_fn(Seq<char>) -> bool {
    |n: Seq<char>| true
}

/// One name alone.
spec fn only(name: Seq<char>) -> spec_fn(Seq<char>) -> bool {
    |n: Seq<char>| n == name
}

/// The counts of the names that are meant, added up.
spec fn tally(entries: Seq<(String, usize)>, meant: spec_fn(Seq<char>) -> bool) -> nat
    decreases entries.len(),
{
    if entries.len() == 0 {
        0
    } else {
        tally(entries.drop_last(), meant) + if meant(entries.last().0@) {
            entries.last().1 as nat
        } else {
            0
        }
    }
}

/// A count that grows by one adds one.
proof fn tally_grows(
    entries: Seq<(String, usize)>,
    at: int,
    entry: (String, usize),
    meant: spec_fn(Seq<char>) -> bool,
)
    requires
        0 <= at < entries.len(),
        entry.0@ == entries[at].0@,
        entry.1 == entries[at].1 + 1,
    ensures
        tally(entries.update(at, entry), meant) == tally(entries, meant) + (if meant(entry.0@) {
            1nat
        } else {
            0
        }),
    decreases entries.len(),
{
    let after = entries.update(at, entry);
    if at == entries.len() - 1 {
        assert(after.drop_last() =~= entries.drop_last());
    } else {
        tally_grows(entries.drop_last(), at, entry, meant);
        assert(after.drop_last() =~= entries.drop_last().update(at, entry));
    }
}

/// One count alone is no more than all of them together.
proof fn tally_bounds(entries: Seq<(String, usize)>, at: int)
    requires
        0 <= at < entries.len(),
    ensures
        entries[at].1 <= tally(entries, anyone()),
    decreases entries.len(),
{
    if at < entries.len() - 1 {
        tally_bounds(entries.drop_last(), at);
    }
}

/// Counts one more under a name.
fn count_one(entries: &mut Vec<(String, usize)>, name: &String)
    requires
        tally(old(entries)@, anyone()) < usize::MAX,
    ensures
        forall|meant: spec_fn(Seq<char>) -> bool| #[trigger]
            tally(final(entries)@, meant) == tally(old(entries)@, meant) + (if meant(name@) {
                1nat
            } else {
                0
            }),
{
    let len: usize = entries.len();
    let ghost before = entries@;
    for i in 0..len
        invariant
            len == entries@.len(),
            entries@ == before,
            before == old(entries)@,
            tally(before, anyone()) < usize::MAX,
    {
        if entries[i].0 == *name {
            proof {
                tally_bounds(before, i as int);
            }
            let entry: (String, usize) = (name.clone(), entries[i].1 + 1);
            entries.set(i, entry);
            proof {
                assert forall|meant: spec_fn(Seq<char>) -> bool| #[trigger]
                    tally(entries@, meant) == tally(before, meant) + (if meant(name@) {
                        1nat
                    } else {
                        0
                    }) by {
                    tally_grows(before, i as int, entry, meant);
                }
            }
            return ;
        }
    }
    entries.push((name.clone(), 1));
    assert(entries@.drop_last() =~= before);
}

impl FolderCounts {
    /// The counts are those of one queue, and so fit together.
    #[verifier::type_invariant]
    spec fn wf(self) -> bool {
        tally(self.entries@, anyone()) <= usize::MAX
    }

    /// How many jobs of a folder wait.
    pub closed spec fn of(self, name: Seq<char>) -> nat {
        tally(self.entries@, only(name))
    }

    /// How many jobs wait in all.
    pub closed spec fn sum(self) -> nat {
        tally(self.entries@, anyone())
    }

    /// How many jobs of a folder wait.
    pub fn get(&self, name: &str) -> (count: usize)
        ensures
            count == self.of(name@),
    {
        proof {
            use_type_invariant(self);
        }
        let len: usize = self.entries.len();
        let mut count: usize = 0;
        let ghost all = self.entries@;
        for i in 0..len
            invariant
                len == self.entries@.len(),
                all == self.entries@,
                tally(all, anyone()) <= usize::MAX,
                count == tally(all.take(i as int), only(name@)),
        {
            proof {
                assert(all.take(i + 1).drop_last() =~= all.take(i as int));
                tally_part(all, i + 1, only(name@));
            }
            if same_text(self.entries[i].0.as_str(), name) {
                count = count + self.entries[i].1;
            }
        }
        assert(all.take(len as int) =~= all);
        count
    }

    /// How many jobs wait in all.
    pub fn total(&self) -> (count: usize)
        ensures
            count == self.sum(),
    {
        proof {
            use_type_invariant(self);
        }
        let len: usize = self.entries.len();
        let mut count: usize = 0;
        let ghost all = self.entries@;
        for i in 0..len
            invariant
                len == self.entries@.len(),
                all == self.entries@,
                tally(all, anyone()) <= usize::MAX,
                count == tally(all.take(i as int), anyone()),
        {
            proof {
                assert(all.take(i + 1).drop_last() =~= all.take(i as int));
                tally_part(all, i + 1, anyone());
            }
            count = count + self.entries[i].1;
        }
        assert(all.take(len as int) =~= all);
        count
    }
}

/// A part of the counts is no more than all of them together.
proof fn tally_part(entries: Seq<(String, usize)>, n: int, meant: spec_fn(Seq<char>) -> bool)
    requires
        0 <= n <= entries.len(),
    ensures
        tally(entries.take(n), meant) <= tally(entries, anyone()),
    decreases entries.len(),
{
    if n < entries.len() {
        tally_part(entries.drop_last(), n, meant);
        assert(entries.drop_last().take(n) =~= entries.take(n));
    } else if n > 0 {
        assert(entries.take(n) =~= entries);
        tally_part(entries.drop_last(), n - 1, meant);
        assert(entries.drop_last().take(n - 1) =~= entries.drop_last());
    }
}

/// Seconds since the Unix epoch, where the clock is not set before it.
pub fn secs_or_zero(elapsed: Option<u64>) -> (secs: u64)
    ensures
        secs == match elapsed {
            Some(s) => s,
            None => 0,
        },
{
    match elapsed {
        Some(s) => s,
        None => 0,
    }
}

/// `secs` is what a reading of the system clock came to: the whole seconds since the Unix epoch, and
/// zero where the clock is set before it.
pub closed spec fn clock_showed(secs: u64) -> bool {
    exists|read: Result<std::time::Duration, std::time::SystemTimeError>| #[trigger]
        call_ensures(since_epoch, (), read) && match read {
            Ok(elapsed) => call_ensures(std::time::Duration::as_secs, (&elapsed,), secs),
            Err(_) => secs == 0,
        }
}

/// `id` is what a draw of a random identifier came to.
pub open spec fn drawn(id: Uuid) -> bool {
    call_ensures(uuid::Uuid::new_v4, (), id)
}

/// Seconds since the Unix epoch, as a reading of the system clock shows them, and zero where the
/// clock is set before it. Which number that is rests on the time.
pub fn now_secs() -> (secs: u64)
    ensures
        clock_showed(secs),
{
    match since_epoch() {
        Ok(elapsed) => secs_or_zero(Some(elapsed.as_secs())),
        Err(_) => secs_or_zero(None),
    }
}

/// A fresh pending job for an input file.
pub open spec fn fresh(folder: ResolvedFolder, input: FilePath, output: FilePath, job: Job) -> bool {
    &&& job.input_path == input
    &&& job.folder_name == folder.name
    &&& job.preset_file == folder.preset_file
    &&& job.preset_name == folder.preset_name
    &&& job.output_path == output
    &&& job.originals_dir == folder.originals_dir
    &&& job.failed_dir@ == joined(folder.originals_dir@, encode_utf8("_failed"@))
    &&& job.status == JobStatus::Pending
    &&& job.attempts == 0
    &&& job.retry_after is None
}

/// A fresh pending job with this identifier, enqueued at this time.
pub fn job_at(
    id: Uuid,
    now: u64,
    folder: &ResolvedFolder,
    input: FilePath,
    output: FilePath,
) -> (job: Job)
    ensures
        fresh(*folder, input, output, job),
        job.id == id,
        job.enqueued_at == now,
{
    Job {
        id,
        input_path: input,
        folder_name: folder.name.clone(),
        preset_file: folder.preset_file.clone(),
        preset_name: folder.preset_name.clone(),
        output_path: output,
        originals_dir: folder.originals_dir.clone(),
        failed_dir: folder.originals_dir.join_text("_failed"),
        status: JobStatus::Pending,
        attempts: 0,
        enqueued_at: now,
        retry_after: None,
    }
}

/// Builds a fresh pending job for an input file, with a random identifier and the time of the
/// system clock.
pub fn new_job(folder: &ResolvedFolder, input: FilePath, output: FilePath) -> (job: Job)
    ensures
        fresh(*folder, input, output, job),
        drawn(job.id),
        clock_showed(job.enqueued_at),
{
    job_at(Uuid::new_v4(), now_secs(), folder, input, output)
}

/// A job that was interrupted comes back as it was: what a restart resumes is the queue from before
/// the job was taken.
pub proof fn restart_resumes(before: QueueModel)
    requires
        before.in_flight is None,
        before.all_wait(),
    ensures
        before.with_taken().with_resumed() == before,
{
    if before.pending.len() > 0 {
        let job = before.pending[0];
        assert(Job {
            status: JobStatus::Pending,
            ..Job { status: JobStatus::Processing, ..job }
        } == job);
        assert(seq![job] + before.pending.drop_first() =~= before.pending);
    }
}

/// Jobs are taken in the order in which they were pushed: a push does not change which one is next.
pub proof fn first_in_first_out(before: QueueModel, job: Job)
    ensures
        before.pending.len() > 0 ==> before.with_pushed(job).with_taken()
            == before.with_taken().with_pushed(job),
        before.pending.len() == 0 ==> before.with_pushed(job).with_taken() == (QueueModel {
            pending: Seq::empty(),
            in_flight: Some(Job { status: JobStatus::Processing, ..job }),
        }),
{
    assert(before.with_pushed(job).pending[0] == if before.pending.len() > 0 {
        before.pending[0]
    } else {
        job
    });
    if before.pending.len() > 0 {
        assert(before.pending.push(job).drop_first() =~= before.pending.drop_first().push(job));
    } else {
        assert(before.pending.push(job).drop_first() =~= Seq::empty());
    }
}

/// Taking a job and finishing it removes that job from the queue and no other.
pub proof fn finishing_removes_one(before: QueueModel)
    requires
        before.in_flight is None,
        before.pending.len() > 0,
    ensures
        before.with_taken().with_completed() == (QueueModel {
            pending: before.pending.drop_first(),
            in_flight: None,
        }),
{
}

/// Resuming a queue leaves nothing in flight, so that resuming it again changes nothing.
pub proof fn resuming_twice(before: QueueModel)
    ensures
        before.with_resumed().in_flight is None,
        before.with_resumed().with_resumed() == before.with_resumed(),
{
}

/// The jobs that wait stay marked so, whatever is done to the queue.
pub proof fn waiting_is_kept(before: QueueModel, job: Job)
    requires
        before.all_wait(),
    ensures
        job.status == JobStatus::Pending ==> before.with_pushed(job).all_wait(),
        before.with_taken().all_wait(),
        before.with_completed().all_wait(),
        before.with_resumed().all_wait(),
{
    let resumed = before.with_resumed().pending;
    if before.in_flight is Some {
        assert forall|i: int| 0 <= i < resumed.len() implies (#[trigger] resumed[i]).status
            == JobStatus::Pending by {
            if i > 0 {
                assert(resumed[i] == before.pending[i - 1]);
            }
        }
    }
}

/// A file is never in the queue twice: what can be claimed is the input of no job, so that a job for
/// it is the only one.
pub proof fn claimed_file_is_new(before: QueueModel, claims: Set<Seq<Seq<u8>>>, job: Job)
    requires
        before.one_job_each(claims),
        !claims.contains(components(job.input_path@)),
    ensures
        before.one_job_each(claims.insert(components(job.input_path@))),
        before.with_pushed(job).one_job_each(claims.insert(components(job.input_path@))),
{
    let jobs = before.jobs();
    let more = before.with_pushed(job).jobs();
    assert(more =~= jobs.push(job));
    assert forall|i: int, j: int| 0 <= i < j < more.len() implies components(
        (#[trigger] more[i]).input_path@,
    ) != components((#[trigger] more[j]).input_path@) by {
        assert(more[i] == jobs[i]);
        if j < jobs.len() {
            assert(more[j] == jobs[j]);
        }
    }
}

/// Claims of other files do not matter to the jobs.
pub proof fn more_claims(before: QueueModel, claims: Set<Seq<Seq<u8>>>, c: Seq<Seq<u8>>)
    requires
        before.one_job_each(claims),
    ensures
        before.one_job_each(claims.insert(c)),
        before.no_job_for(c) ==> before.one_job_each(claims.remove(c)),
{
}

/// A file that was claimed, and that no job is for yet, can be enqueued at any later time: a job for
/// it is then the only one.
pub proof fn claimed_file_can_wait(before: QueueModel, claims: Set<Seq<Seq<u8>>>, job: Job)
    requires
        before.one_job_each(claims),
        claims.contains(components(job.input_path@)),
        before.no_job_for(components(job.input_path@)),
    ensures
        before.with_pushed(job).one_job_each(claims),
{
    let c = components(job.input_path@);
    more_claims(before, claims, c);
    claimed_file_is_new(before, claims.remove(c), job);
    assert(claims.remove(c).insert(c) =~= claims);
}

/// What can be claimed is the input of no job.
pub proof fn claimable_has_no_job(before: QueueModel, claims: Set<Seq<Seq<u8>>>, c: Seq<Seq<u8>>)
    requires
        before.one_job_each(claims),
        !claims.contains(c),
    ensures
        before.no_job_for(c),
{
}

/// While a claimed file waits to be enqueued, nothing else brings a job for it in: neither a job for
/// another file, nor the taking, the end or the resuming of a job.
pub proof fn no_job_comes_in(before: QueueModel, c: Seq<Seq<u8>>, other: Job)
    requires
        before.no_job_for(c),
    ensures
        components(other.input_path@) != c ==> before.with_pushed(other).no_job_for(c),
        before.in_flight is None ==> before.with_taken().no_job_for(c),
        before.with_completed().no_job_for(c),
        before.with_resumed().no_job_for(c),
{
    let jobs = before.jobs();
    let more = before.with_pushed(other).jobs();
    assert(more =~= jobs.push(other));
    assert forall|i: int|
        0 <= i < more.len() && components(other.input_path@) != c implies components(
        (#[trigger] more[i]).input_path@,
    ) != c by {
        if i < jobs.len() {
            assert(more[i] == jobs[i]);
        }
    }
    let taken = before.with_taken().jobs();
    if before.in_flight is None && before.pending.len() > 0 {
        assert forall|i: int| 0 <= i < taken.len() implies components(
            (#[trigger] taken[i]).input_path@,
        ) != c by {
            assert(taken[i].input_path == jobs[i].input_path);
        }
    }
    let left = before.with_completed().jobs();
    assert forall|i: int| 0 <= i < left.len() implies components(
        (#[trigger] left[i]).input_path@,
    ) != c by {
        if before.in_flight is Some {
            assert(left[i] == jobs[i + 1]);
        }
    }
    let resumed = before.with_resumed().jobs();
    assert forall|i: int| 0 <= i < resumed.len() implies components(
        (#[trigger] resumed[i]).input_path@,
    ) != c by {
        assert(resumed[i].input_path == jobs[i].input_path);
    }
}

/// Taking a job and resuming it keep one job for each file.
pub proof fn taking_keeps_one_each(before: QueueModel, claims: Set<Seq<Seq<u8>>>)
    requires
        before.one_job_each(claims),
    ensures
        before.in_flight is None ==> before.with_taken().one_job_each(claims),
        before.with_resumed().one_job_each(claims),
{
    let jobs = before.jobs();
    let resumed = before.with_resumed().jobs();
    assert(resumed.len() == jobs.len());
    assert forall|i: int| 0 <= i < jobs.len() implies (#[trigger] resumed[i]).input_path
        == jobs[i].input_path by {}
    if before.in_flight is None && before.pending.len() > 0 {
        let taken = before.with_taken().jobs();
        assert(taken.len() == jobs.len());
        assert forall|i: int| 0 <= i < jobs.len() implies (#[trigger] taken[i]).input_path
            == jobs[i].input_path by {}
    }
}

/// A job that is finished and let go leaves one job for each of the other files, and its own file
/// can be claimed again.
pub proof fn finishing_keeps_one_each(before: QueueModel, claims: Set<Seq<Seq<u8>>>)
    requires
        before.one_job_each(claims),
        before.in_flight is Some,
    ensures
        before.with_completed().one_job_each(
            claims.remove(components(before.in_flight->0.input_path@)),
        ),
{
    let jobs = before.jobs();
    let left = before.with_completed().jobs();
    let own = components(before.in_flight->0.input_path@);
    assert(jobs[0] == before.in_flight->0);
    assert forall|i: int| 0 <= i < left.len() implies #[trigger] left[i] == jobs[i + 1] by {}
    assert forall|i: int| 0 <= i < left.len() implies claims.remove(own).contains(
        components((#[trigger] left[i]).input_path@),
    ) by {
        assert(left[i] == jobs[i + 1]);
    }
    assert forall|i: int, j: int| 0 <= i < j < left.len() implies components(
        (#[trigger] left[i]).input_path@,
    ) != components((#[trigger] left[j]).input_path@) by {
        assert(left[i] == jobs[i + 1]);
        assert(left[j] == jobs[j + 1]);
    }
}

/// The inputs that wait are those of the jobs that wait, of every one of them and of no other.
pub proof fn waiting_inputs(queue: QueueModel)
    ensures
        forall|i: int|
            0 <= i < queue.pending.len() ==> queue.inputs().contains(
                components((#[trigger] queue.pending[i]).input_path@),
            ),
        forall|c: Seq<Seq<u8>>| #[trigger]
            queue.inputs().contains(c) ==> exists|i: int|
                0 <= i < queue.pending.len() && components((#[trigger] queue.pending[i]).input_path@)
                    == c,
{
}

/// A restart leaves every file that is in the queue claimed, whatever its job waits for, so that no
/// scan can enqueue it a second time: where no two saved jobs are for one file, there is one job for
/// each file behind the restart, and nothing else was claimed.
pub proof fn restart_claims_every_file(saved: QueueModel, claims: Set<Seq<Seq<u8>>>)
    requires
        forall|i: int, j: int|
            0 <= i < j < saved.jobs().len() ==> components((#[trigger] saved.jobs()[i]).input_path@)
                != components((#[trigger] saved.jobs()[j]).input_path@),
    ensures
        saved.with_resumed().one_job_each(claims.union(saved.with_resumed().inputs())),
        forall|i: int|
            0 <= i < saved.jobs().len() ==> claims.union(saved.with_resumed().inputs()).contains(
                components((#[trigger] saved.jobs()[i]).input_path@),
            ),
        forall|c: Seq<Seq<u8>>| #[trigger]
            saved.with_resumed().inputs().contains(c) ==> !saved.no_job_for(c),
{
    let resumed = saved.with_resumed();
    let (jobs, after) = (saved.jobs(), resumed.jobs());
    let held = claims.union(resumed.inputs());
    waiting_inputs(resumed);
    assert(after == resumed.pending);
    assert(after.len() == jobs.len());
    assert forall|i: int| 0 <= i < jobs.len() implies (#[trigger] after[i]).input_path
        == jobs[i].input_path by {}
    assert forall|i: int| 0 <= i < jobs.len() implies held.contains(
        components((#[trigger] jobs[i]).input_path@),
    ) by {
        assert(resumed.inputs().contains(components(resumed.pending[i].input_path@)));
    }
    assert forall|i: int, j: int| 0 <= i < j < after.len() implies components(
        (#[trigger] after[i]).input_path@,
    ) != components((#[trigger] after[j]).input_path@) by {
        assert(after[i].input_path == jobs[i].input_path);
        assert(after[j].input_path == jobs[j].input_path);
    }
    assert forall|c: Seq<Seq<u8>>| #[trigger] resumed.inputs().contains(c) implies !saved.no_job_for(
        c,
    ) by {
        let i = choose|i: int|
            0 <= i < resumed.pending.len() && components((#[trigger] resumed.pending[i]).input_path@)
                == c;
        assert(components(saved.jobs()[i].input_path@) == c);
    }
}

/// What a restart does to the queue: the interrupted job comes first, every other job keeps its
/// place, no job is lost or changed but for its mark, and nothing is in flight.
pub proof fn restart_keeps_the_jobs(saved: QueueModel)
    ensures
        saved.with_resumed().in_flight is None,
        saved.with_resumed().pending.len() == saved.pending.len() + if saved.in_flight is Some {
            1int
        } else {
            0
        },
        saved.in_flight matches Some(job) ==> {
            &&& saved.with_resumed().pending[0] == (Job { status: JobStatus::Pending, ..job })
            &&& saved.with_resumed().pending.drop_first() == saved.pending
        },
        saved.in_flight is None ==> saved.with_resumed().pending == saved.pending,
{
    if saved.in_flight is Some {
        assert(saved.with_resumed().pending.drop_first() =~= saved.pending);
    }
}

/// A queue with these jobs pushed, one behind the other.
pub open spec fn all_pushed(queue: QueueModel, jobs: Seq<Job>) -> QueueModel
    decreases jobs.len(),
{
    if jobs.len() == 0 {
        queue
    } else {
        all_pushed(queue, jobs.drop_last()).with_pushed(jobs.last())
    }
}

/// A queue with jobs taken and finished, this many of them.
pub open spec fn all_finished(queue: QueueModel, n: nat) -> QueueModel
    decreases n,
{
    if n == 0 {
        queue
    } else {
        all_finished(queue, (n - 1) as nat).with_taken().with_completed()
    }
}

/// Jobs pushed to an empty queue come out in the order in which they went in, each as it was but for
/// its mark, and each once.
pub proof fn jobs_come_out_in_order(jobs: Seq<Job>, n: nat)
    requires
        n < jobs.len(),
    ensures
        ({
            let empty = QueueModel { pending: Seq::empty(), in_flight: None };
            let queue = all_finished(all_pushed(empty, jobs), n);
            &&& queue.with_taken().in_flight == Some(
                Job { status: JobStatus::Processing, ..jobs[n as int] },
            )
            &&& all_finished(all_pushed(empty, jobs), jobs.len()) == empty
        }),
{
    let empty = QueueModel { pending: Seq::empty(), in_flight: None };
    pushed_in_order(empty, jobs);
    assert(empty.pending + jobs =~= jobs);
    let queue = all_pushed(empty, jobs);
    finished_in_order(queue, n);
    finished_in_order(queue, jobs.len());
    assert(jobs.skip(n as int)[0] == jobs[n as int]);
    assert(jobs.skip(jobs.len() as int) =~= Seq::empty());
}

/// Pushing puts jobs behind those that wait.
proof fn pushed_in_order(queue: QueueModel, jobs: Seq<Job>)
    ensures
        all_pushed(queue, jobs) == (QueueModel { pending: queue.pending + jobs, ..queue }),
    decreases jobs.len(),
{
    if jobs.len() == 0 {
        assert(queue.pending + jobs =~= queue.pending);
    } else {
        pushed_in_order(queue, jobs.drop_last());
        assert((queue.pending + jobs.drop_last()).push(jobs.last()) =~= queue.pending + jobs);
    }
}

/// Finishing takes jobs off the front.
proof fn finished_in_order(queue: QueueModel, n: nat)
    requires
        queue.in_flight is None,
        n <= queue.pending.len(),
    ensures
        all_finished(queue, n) == (QueueModel {
            pending: queue.pending.skip(n as int),
            in_flight: None,
        }),
    decreases n,
{
    if n == 0 {
        assert(queue.pending.skip(0) =~= queue.pending);
    } else {
        finished_in_order(queue, (n - 1) as nat);
        assert(queue.pending.skip(n - 1).drop_first() =~= queue.pending.skip(n as int));
    }
}

/// The jobs of a folder are counted as they are: those among the jobs that have the folder's name.
pub proof fn counted_by_name(jobs: Seq<Job>, name: Seq<char>)
    ensures
        pending_in(jobs, name) == jobs.filter(|job: Job| job.folder_name@ == name).len(),
    decreases jobs.len(),
{
    reveal(Seq::filter);
    if jobs.len() > 0 {
        counted_by_name(jobs.drop_last(), name);
    }
}

/// A fresh job is for its input: it writes to the output, keeps its original in the folder's
/// directory of originals, and fails to the directory `_failed` right in that one. It has not been
/// tried.
pub proof fn fresh_job_is_for_its_file(
    folder: ResolvedFolder,
    input: FilePath,
    output: FilePath,
    job: Job,
)
    requires
        fresh(folder, input, output, job),
    ensures
        job.input_path@ == input@ && job.output_path@ == output@,
        job.preset_file@ == folder.preset_file@ && job.preset_name@ == folder.preset_name@,
        job.folder_name@ == folder.name@,
        components(job.originals_dir@) == components(folder.originals_dir@),
        components(job.failed_dir@) == components(folder.originals_dir@).push(
            encode_utf8("_failed"@),
        ),
        job.status == JobStatus::Pending && job.attempts == 0 && job.retry_after is None,
{
    reveal_strlit("_failed");
    let text = "_failed"@;
    assert(!text.contains('/'));
    text_is_plain(text);
    join_adds_component(folder.originals_dir@, encode_utf8(text));
}

} // verus!
