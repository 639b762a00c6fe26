//! Which file system events tell of a file to look at.

use vstd::prelude::*;

use crate::path::FilePath;

verus! {

/// A file path observed in a watched folder, tagged with its folder index.
#[derive(Debug, Clone)]
pub struct Candidate {
    pub path: FilePath,
    pub folder: usize,
}

/// What happened to some paths.
#[derive(Debug, Clone, Copy, PartialEq, Eq, Structural)]
pub enum WatchEvent {
    Any,
    Access,
    Create,
    Modify,
    Remove,
    Other,
}

/// A file may be new or have changed.
pub open spec fn relevant(kind: WatchEvent) -> bool {
    kind == WatchEvent::Create || kind == WatchEvent::Modify || kind == WatchEvent::Any
}

/// Whether a file may be new or have changed.
pub fn is_relevant(kind: WatchEvent) -> (look: bool)
    ensures
        look == relevant(kind),
{
    match kind {
        WatchEvent::Create => true,
        WatchEvent::Modify => true,
        WatchEvent::Any => true,
        WatchEvent::Access => false,
        WatchEvent::Remove => false,
        WatchEvent::Other => false,
    }
}

/// Each path tagged with a folder.
pub open spec fn tagged(paths: Seq<FilePath>, folder: usize) -> Seq<Candidate> {
    paths.map_values(|path: FilePath| Candidate { path, folder })
}

/// The candidates that an event in a folder gives: its paths, where it is relevant.
pub fn forward(kind: WatchEvent, paths: Vec<FilePath>, folder: usize) -> (candidates: Vec<
    Candidate,
>)
    ensures
        candidates@ == if relevant(kind) {
            tagged(paths@, folder)
        } else {
            Seq::empty()
        },
{
    let mut candidates: Vec<Candidate> = Vec::new();
    if !is_relevant(kind) {
        return candidates;
    }
    let len: usize = paths.len();
    for i in 0..len
        invariant
            len == paths@.len(),
            candidates@ == tagged(paths@.take(i as int), folder),
    {
        candidates.push(Candidate { path: paths[i].clone(), folder });
        assert(candidates@ =~= tagged(paths@.take(i + 1), folder));
    }
    assert(paths@.take(len as int) =~= paths@);
    candidates
}

/// Events of new and changed files are looked at, and those of unknown kind; a file that was read or
/// removed is no reason to look. Each path of such an event becomes a candidate of the folder, in
/// order.
pub proof fn events_of_new_files(paths: Seq<FilePath>, folder: usize)
    ensures
        relevant(WatchEvent::Create) && relevant(WatchEvent::Modify) && relevant(WatchEvent::Any),
        !relevant(WatchEvent::Access) && !relevant(WatchEvent::Remove) && !relevant(
            WatchEvent::Other,
        ),
        tagged(paths, folder).len() == paths.len(),
        forall|i: int|
            0 <= i < paths.len() ==> (#[trigger] tagged(paths, folder)[i]).path == paths[i] && tagged(
                paths,
                folder,
            )[i].folder == folder,
{
}

} // verus!
