//! The scan of the watched folders: at the start, and again at an interval, to catch what no event
//! told of.

use vstd::prelude::*;

use crate::path::FilePath;
use crate::watcher::Candidate;

verus! {

/// What stands in a folder.
#[derive(Debug)]
pub struct ScanEntry {
    pub path: FilePath,
    pub is_file: bool,
}

/// The files among some entries, tagged with a folder.
pub open spec fn files_in(entries: Seq<ScanEntry>, folder: usize) -> Seq<Candidate>
    decreases entries.len(),
{
    if entries.len() == 0 {
        Seq::empty()
    } else {
        let rest = files_in(entries.drop_last(), folder);
        if entries.last().is_file {
            rest.push(Candidate { path: entries.last().path, folder })
        } else {
            rest
        }
    }
}

/// The candidates that a scan of a folder gives: every file that stands in it.
pub fn scan_folder(entries: Vec<ScanEntry>, folder: usize) -> (candidates: Vec<Candidate>)
    ensures
        candidates@ == files_in(entries@, folder),
{
    let mut candidates: Vec<Candidate> = Vec::new();
    let len: usize = entries.len();
    for i in 0..len
        invariant
            len == entries@.len(),
            candidates@ == files_in(entries@.take(i as int), folder),
    {
        let entry: &ScanEntry = &entries[i];
        assert(entries@.take(i + 1).drop_last() =~= entries@.take(i as int));
        if entry.is_file {
            candidates.push(Candidate { path: entry.path.clone(), folder });
        }
    }
    assert(entries@.take(len as int) =~= entries@);
    candidates
}

/// How long to wait for the next scan: without end where the setting is zero.
pub fn run_periodic(rescan_interval_secs: u64) -> (delay: Option<u64>)
    ensures
        delay == if rescan_interval_secs == 0 {
            None
        } else {
            Some(rescan_interval_secs)
        },
{
    if rescan_interval_secs == 0 {
        None
    } else {
        Some(rescan_interval_secs)
    }
}

/// A scan hands on every file, in the order in which the entries stand, and nothing that is no file.
pub proof fn scans_hand_on_files(a: Seq<ScanEntry>, b: Seq<ScanEntry>, entry: ScanEntry, folder: usize)
    ensures
        files_in(a + b, folder) == files_in(a, folder) + files_in(b, folder),
        entry.is_file ==> files_in(seq![entry], folder) == seq![
            Candidate { path: entry.path, folder },
        ],
        !entry.is_file ==> files_in(seq![entry], folder) == Seq::<Candidate>::empty(),
        files_in(Seq::empty(), folder) == Seq::<Candidate>::empty(),
    decreases b.len(),
{
    let one = seq![entry];
    assert(one.drop_last() =~= Seq::empty());
    assert(files_in(one.drop_last(), folder) =~= Seq::empty());
    assert(one.last() == entry);
    if entry.is_file {
        assert(files_in(one, folder) =~= seq![Candidate { path: entry.path, folder }]);
    }
    if b.len() == 0 {
        assert(a + b =~= a);
        assert(files_in(b, folder) =~= Seq::empty());
        assert(files_in(a, folder) + files_in(b, folder) =~= files_in(a, folder));
    } else {
        let ab = a + b;
        scans_hand_on_files(a, b.drop_last(), entry, folder);
        assert(ab.drop_last() =~= a + b.drop_last());
        assert(ab.last() == b.last());
        assert(files_in(ab, folder) =~= files_in(a, folder) + files_in(b, folder));
    }
}

/// Every file among the entries becomes a candidate of the folder, and every candidate is one of them.
pub proof fn every_file_is_found(entries: Seq<ScanEntry>, folder: usize, i: int, k: int)
    ensures
        0 <= i < entries.len() && entries[i].is_file ==> files_in(entries, folder).contains(
            Candidate { path: entries[i].path, folder },
        ),
        0 <= k < files_in(entries, folder).len() ==> {
            &&& files_in(entries, folder)[k].folder == folder
            &&& exists|j: int|
                0 <= j < entries.len() && (#[trigger] entries[j]).is_file && entries[j].path
                    == files_in(entries, folder)[k].path
        },
    decreases entries.len(),
{
    if entries.len() > 0 {
        let less = entries.drop_last();
        let last = entries.last();
        let rest = files_in(less, folder);
        let all = files_in(entries, folder);
        every_file_is_found(less, folder, i, k);
        if 0 <= i < entries.len() && entries[i].is_file {
            let wanted = Candidate { path: entries[i].path, folder };
            if i < less.len() {
                assert(less[i] == entries[i]);
                let at = choose|at: int| 0 <= at < rest.len() && rest[at] == wanted;
                assert(all[at] == wanted);
            } else {
                assert(all[rest.len() as int] == wanted);
            }
        }
        if 0 <= k < all.len() {
            if k < rest.len() {
                assert(all[k] == rest[k]);
                let j = choose|j: int|
                    0 <= j < less.len() && (#[trigger] less[j]).is_file && less[j].path
                        == rest[k].path;
                assert(entries[j] == less[j]);
            } else {
                assert(entries[entries.len() - 1] == last);
            }
        }
    }
}

} // verus!
