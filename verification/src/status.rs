//! What the daemon is doing, as its status endpoints tell it.
//!
//! A fraction of progress and a speed are kept as the bits of the number, which nothing here looks
//! into.

use vstd::prelude::*;
use vstd::string::*;

use crate::queue::{clock_showed, now_secs};

verus! {

/// One folder's live state, as reported by the HTTP endpoints.
#[derive(Debug, Clone)]
pub struct FolderStatus {
    pub name: String,
    pub pending: usize,
    pub encoding: bool,
}

/// The full status payload served at `/status.json` and consumed by `status`.
#[derive(Debug, Clone)]
pub struct StatusResponse {
    pub uptime_secs: u64,
    pub processed: u64,
    pub failed: u64,
    pub pending_total: usize,
    pub current: Option<Current>,
    pub folders: Vec<FolderStatus>,
}

/// The job currently encoding, if any.
#[derive(Debug)]
pub struct Current {
    pub folder: String,
    pub film: String,
    /// The bits of the fraction that is done.
    pub fraction: u64,
    pub eta_secs: Option<i64>,
    /// The bits of the number of frames per second.
    pub fps: Option<u64>,
    pub state: String,
}

impl Clone for Current {
    fn clone(&self) -> (copy: Self)
        ensures
            copy == *self,
    {
        Current {
            folder: self.folder.clone(),
            film: self.film.clone(),
            fraction: self.fraction,
            eta_secs: self.eta_secs,
            fps: self.fps,
            state: self.state.clone(),
        }
    }
}

/// A live view of what the daemon is doing.
#[derive(Debug)]
pub struct StatusStore {
    pub started_at: u64,
    pub current: Option<Current>,
    pub processed: u64,
    pub failed: u64,
}

/// A point-in-time view for the HTTP endpoints.
#[derive(Debug, Clone)]
pub struct Snapshot {
    pub uptime_secs: u64,
    pub current: Option<Current>,
    pub processed: u64,
    pub failed: u64,
}

/// Seconds from one time to a later one; none where it is not later.
pub open spec fn elapsed(from: u64, to: u64) -> u64 {
    if to > from {
        (to - from) as u64
    } else {
        0
    }
}

impl StatusStore {
    /// A daemon that has just started.
    pub fn new(started_at: u64) -> (store: StatusStore)
        ensures
            store == (StatusStore { started_at, current: None, processed: 0, failed: 0 }),
    {
        StatusStore { started_at, current: None, processed: 0, failed: 0 }
    }

    /// `snapshot` is the state of affairs at a time.
    pub open spec fn seen_at(self, now: u64, snapshot: Snapshot) -> bool {
        snapshot == (Snapshot {
            uptime_secs: elapsed(self.started_at, now),
            current: self.current,
            processed: self.processed,
            failed: self.failed,
        })
    }

    /// The state of affairs at a time.
    pub fn snapshot_at(&self, now: u64) -> (snapshot: Snapshot)
        ensures
            self.seen_at(now, snapshot),
    {
        Snapshot {
            uptime_secs: if now > self.started_at {
                now - self.started_at
            } else {
                0
            },
            current: self.current.clone(),
            processed: self.processed,
            failed: self.failed,
        }
    }

    /// The state of affairs, at the time that the system clock shows.
    pub fn snapshot(&self) -> (snapshot: Snapshot)
        ensures
            exists|now: u64| #[trigger] self.seen_at(now, snapshot) && clock_showed(now),
    {
        self.snapshot_at(now_secs())
    }

    /// A job starts.
    pub fn job_start(&mut self, film: &str, folder: &str)
        ensures
            *final(self) == (StatusStore { current: final(self).current, ..*old(self) }),
            final(self).current matches Some(current) && {
                &&& current.folder@ == folder@
                &&& current.film@ == film@
                &&& current.fraction == 0
                &&& current.eta_secs is None
                &&& current.fps is None
                &&& current.state@ == "starting"@
            },
    {
        self.current = Some(
            Current {
                folder: folder.to_owned(),
                film: film.to_owned(),
                fraction: 0,
                eta_secs: None,
                fps: None,
                state: "starting".to_owned(),
            },
        );
    }

    /// The encoder tells how far it is.
    pub fn job_tick(&mut self, state: &str, fraction: u64, eta: Option<i64>, fps: Option<u64>)
        ensures
            *final(self) == (StatusStore { current: final(self).current, ..*old(self) }),
            match old(self).current {
                Some(before) => final(self).current matches Some(current) && {
                    &&& current.folder == before.folder
                    &&& current.film == before.film
                    &&& current.fraction == fraction
                    &&& current.eta_secs == eta
                    &&& current.fps == fps
                    &&& current.state@ == state@
                },
                None => final(self).current is None,
            },
    {
        self.current = match self.current.take() {
            Some(before) => Some(
                Current {
                    folder: before.folder,
                    film: before.film,
                    fraction,
                    eta_secs: eta,
                    fps,
                    state: state.to_owned(),
                },
            ),
            None => None,
        };
    }

    /// There is room to count one more job.
    pub open spec fn has_room(self, ok: bool) -> bool {
        if ok {
            self.processed < u64::MAX
        } else {
            self.failed < u64::MAX
        }
    }

    /// The job is finished.
    pub fn job_done(&mut self, ok: bool)
        requires
            old(self).has_room(ok),
        ensures
            *final(self) == (StatusStore {
                current: None,
                processed: (old(self).processed + if ok {
                    1int
                } else {
                    0
                }) as u64,
                failed: (old(self).failed + if ok {
                    0int
                } else {
                    1
                }) as u64,
                ..*old(self)
            }),
    {
        if ok {
            self.processed = self.processed + 1;
        } else {
            self.failed = self.failed + 1;
        }
        self.current = None;
    }

    /// The job goes back to the queue.
    pub fn job_requeued(&mut self)
        ensures
            *final(self) == (StatusStore { current: None, ..*old(self) }),
    {
        self.current = None;
    }

    /// Nothing is being encoded.
    pub fn batch_idle(&mut self)
        ensures
            *final(self) == (StatusStore { current: None, ..*old(self) }),
    {
        self.current = None;
    }
}

/// The time that has passed is added to the start to give the present; a clock that was set back shows
/// that none has.
pub proof fn elapsed_adds_up(from: u64, to: u64)
    ensures
        to >= from ==> from + elapsed(from, to) == to,
        to < from ==> elapsed(from, to) == 0,
{
}

/// A snapshot shows the store as it is, with the time since the daemon was started.
pub proof fn snapshots_show_the_store(store: StatusStore, now: u64, snapshot: Snapshot)
    requires
        store.seen_at(now, snapshot),
        now >= store.started_at,
    ensures
        store.started_at + snapshot.uptime_secs == now,
        snapshot.current == store.current,
        snapshot.processed == store.processed,
        snapshot.failed == store.failed,
{
}

/// One more job can always be counted, up to the largest number.
pub proof fn counts_have_room(store: StatusStore, ok: bool)
    ensures
        ok ==> (store.has_room(ok) <==> store.processed + 1 <= u64::MAX),
        !ok ==> (store.has_room(ok) <==> store.failed + 1 <= u64::MAX),
{
}


} // verus!
