//! What the daemon does with the files that it is told of: which ones it takes up, and when a file is
//! complete.

use vstd::prelude::*;
use vstd::string::*;
use vstd::utf8::*;

use crate::claims::{claim, release, Claims};
use crate::config::{outside_all, Config, ResolvedConfig, ResolvedFolder, Settings};
use crate::mover::{candidate_name, suffixed};
use crate::path::{
    components, dotted_is_plain, extension_of, inside, is_utf8, join_adds_component,
    join_stays_inside, joined, lossy_text, name_is_the_last_component, name_of, name_start,
    name_start_shape, name_text, names_are_plain, parts_are_plain, parts_come_back, plain_name,
    same_bytes, shown, shown_in_two_parts, shown_reads_back, stem_of, stem_part, text_is_plain,
    trimmed, FilePath, DOT, SLASH,
};
use crate::queue::{clock_showed, drawn, fresh, new_job, Job, Queue};
use crate::resolver::{accepted_layout, clear_of, folder_outside, is_run, Reply, Step};
use crate::text::{
    ascii_of_text, contains, contains_what_was_put_in, decimal, encode_concat, push_decimal,
};
use crate::watcher::Candidate;

verus! {

/// An ASCII letter in lower case; any other byte as it is.
pub open spec fn ascii_lower(b: u8) -> u8 {
    if 65 <= b <= 90 {
        (b + 32) as u8
    } else {
        b
    }
}

/// Two byte sequences differ in nothing but the case of ASCII letters.
pub open spec fn same_ignoring_case(a: Seq<u8>, b: Seq<u8>) -> bool {
    &&& a.len() == b.len()
    &&& forall|i: int| 0 <= i < a.len() ==> ascii_lower(#[trigger] a[i]) == ascii_lower(b[i])
}

/// An ASCII letter in lower case; any other byte as it is.
fn lower(b: u8) -> (l: u8)
    ensures
        l == ascii_lower(b),
{
    if 65 <= b && b <= 90 {
        b + 32
    } else {
        b
    }
}

/// Whether two byte sequences differ in nothing but the case of ASCII letters.
fn eq_ignore_case(a: &[u8], b: &[u8]) -> (same: bool)
    ensures
        same == same_ignoring_case(a@, b@),
{
    if a.len() != b.len() {
        return false;
    }
    let len: usize = a.len();
    for i in 0..len
        invariant
            len == a@.len(),
            len == b@.len(),
            forall|j: int| 0 <= j < i ==> ascii_lower(#[trigger] a@[j]) == ascii_lower(b@[j]),
    {
        if lower(a[i]) != lower(b[i]) {
            assert(ascii_lower(a@[i as int]) != ascii_lower(b@[i as int]));
            return false;
        }
    }
    true
}

/// One of the extensions is this one, in whatever case.
pub open spec fn listed(extensions: Seq<String>, extension: Seq<u8>) -> bool {
    exists|i: int|
        0 <= i < extensions.len() && same_ignoring_case(
            extension,
            encode_utf8((#[trigger] extensions[i])@),
        )
}

/// A path has one of the extensions that are picked up.
pub open spec fn media_name(extensions: Seq<String>, path: Seq<u8>) -> bool {
    extension_of(path) matches Some(extension) && valid_utf8(extension) && listed(
        extensions,
        extension,
    )
}

/// Whether a path has one of the extensions that are picked up.
pub fn extension_allowed(settings: &Settings, path: &FilePath) -> (allowed: bool)
    ensures
        allowed == media_name(settings.extensions@, path@),
{
    let extension: Vec<u8> = match path.extension() {
        Some(extension) => extension,
        None => {
            return false;
        },
    };
    if !is_utf8(extension.as_slice()) {
        return false;
    }
    let len: usize = settings.extensions.len();
    for i in 0..len
        invariant
            len == settings.extensions@.len(),
            extension_of(path@) == Some(extension@),
            valid_utf8(extension@),
            forall|j: int|
                0 <= j < i ==> !same_ignoring_case(
                    extension@,
                    encode_utf8((#[trigger] settings.extensions@[j])@),
                ),
    {
        if eq_ignore_case(extension.as_slice(), settings.extensions[i].as_str().as_bytes()) {
            return true;
        }
    }
    false
}

/// A name has a suffix.
pub open spec fn ends_in(name: Seq<u8>, suffix: Seq<char>) -> bool {
    encode_utf8(suffix).is_suffix_of(name)
}

/// A name that a file has only while it is being written.
pub open spec fn unfinished_name(name: Seq<u8>) -> bool {
    ||| ends_in(name, ".tmp"@)
    ||| ends_in(name, ".part"@)
    ||| ends_in(name, ".partial"@)
    ||| ends_in(name, ".download"@)
    ||| ends_in(name, ".crdownload"@)
    ||| ends_in(name, ".hbtmp"@)
}

/// A path is hidden or being written, and so never taken up.
pub open spec fn ignored(path: Seq<u8>) -> bool {
    name_of(path) matches Some(name) && valid_utf8(name) && (name[0] == DOT || unfinished_name(name))
}

/// Whether a name has a suffix.
fn has_suffix(name: &[u8], suffix: &str) -> (found: bool)
    ensures
        found == ends_in(name@, suffix@),
{
    let end: &[u8] = suffix.as_bytes();
    if end.len() > name.len() {
        return false;
    }
    let tail: &[u8] = vstd::slice::slice_subrange(name, name.len() - end.len(), name.len());
    same_bytes(tail, end)
}

/// Whether a path is hidden or being written.
pub fn is_ignored_name(path: &FilePath) -> (skip: bool)
    ensures
        skip == ignored(path@),
{
    let name: Vec<u8> = match path.file_name() {
        Some(name) => name,
        None => {
            return false;
        },
    };
    let name: &[u8] = name.as_slice();
    if !is_utf8(name) {
        return false;
    }
    proof {
        names_are_plain(path@);
    }
    name[0] == DOT || has_suffix(name, ".tmp") || has_suffix(name, ".part") || has_suffix(
        name,
        ".partial",
    ) || has_suffix(name, ".download") || has_suffix(name, ".crdownload") || has_suffix(
        name,
        ".hbtmp",
    )
}

/// The name of the encoded file: `<input stem>.<output_extension>`.
pub open spec fn output_name(folder: ResolvedFolder, input: Seq<u8>) -> Seq<u8> {
    let stem = match stem_of(input) {
        Some(stem) => shown(stem),
        None => shown(Seq::empty()),
    };
    encode_utf8(stem + "."@ + folder.output_extension@)
}

/// The path of the encoded file, in the output directory.
pub open spec fn output_for(folder: ResolvedFolder, input: Seq<u8>) -> Seq<u8> {
    joined(folder.output_dir@, output_name(folder, input))
}

/// `<output_dir>/<input stem>.<output_extension>`. An extension without a slash puts the file right
/// in the output directory, whatever the input is called.
pub fn output_path_for(folder: &ResolvedFolder, input: &FilePath) -> (output: FilePath)
    ensures
        output@ == output_for(*folder, input@),
        name_of(input@) is Some && !folder.output_extension@.contains('/') ==> plain_name(
            output_name(*folder, input@),
        ),
{
    let stem: Vec<u8> = match input.file_stem() {
        Some(stem) => stem,
        None => Vec::new(),
    };
    let mut name: String = lossy_text(stem.as_slice());
    let ghost shown_stem = name@;
    name.append(".");
    name.append(folder.output_extension.as_str());
    proof {
        if name_of(input@) is Some && !folder.output_extension@.contains('/') {
            names_are_plain(input@);
            parts_are_plain(name_of(input@)->0);
            reveal_strlit(".");
            dotted_is_plain(shown_stem, folder.output_extension@);
            text_is_plain(name@);
        }
    }
    folder.output_dir.join_text(name.as_str())
}

/// A candidate that is taken up: a file in a known folder, of a wanted type, complete by its name,
/// and not encoded yet.
pub open spec fn wanted(
    cfg: ResolvedConfig,
    candidate: Candidate,
    is_file: bool,
    output_exists: bool,
) -> bool {
    &&& candidate.folder < cfg.folders@.len()
    &&& is_file
    &&& media_name(cfg.settings.extensions@, candidate.path@)
    &&& !ignored(candidate.path@)
    &&& !output_exists
}

/// Filters out files that should never be enqueued (wrong type, temporary, already done). Whether
/// the candidate is a file, and whether its output path exists, is for the file system to say.
pub fn eligible(
    cfg: &ResolvedConfig,
    candidate: &Candidate,
    is_file: bool,
    output_exists: bool,
) -> (take: bool)
    ensures
        take == wanted(*cfg, *candidate, is_file, output_exists),
{
    candidate.folder < cfg.folders.len() && is_file && extension_allowed(
        &cfg.settings,
        &candidate.path,
    ) && !is_ignored_name(&candidate.path) && !output_exists
}

/// A candidate is taken up: it is wanted, and nobody takes care of it already.
pub open spec fn takes_up(
    cfg: ResolvedConfig,
    claims: Set<Seq<Seq<u8>>>,
    candidate: Candidate,
    is_file: bool,
    output_exists: bool,
) -> bool {
    wanted(cfg, candidate, is_file, output_exists) && !claims.contains(components(candidate.path@))
}

/// The claims behind a look at a candidate.
pub open spec fn claims_with(
    cfg: ResolvedConfig,
    claims: Set<Seq<Seq<u8>>>,
    candidate: Candidate,
    is_file: bool,
    output_exists: bool,
) -> Set<Seq<Seq<u8>>> {
    if wanted(cfg, candidate, is_file, output_exists) {
        claims.insert(components(candidate.path@))
    } else {
        claims
    }
}

/// Takes a candidate up where it is eligible and not taken up already.
pub fn dispatch(
    cfg: &ResolvedConfig,
    claims: &mut Claims,
    candidate: &Candidate,
    is_file: bool,
    output_exists: bool,
) -> (taken: bool)
    requires
        old(claims).wf(),
    ensures
        final(claims).wf(),
        taken == takes_up(*cfg, old(claims)@, *candidate, is_file, output_exists),
        final(claims)@ == claims_with(*cfg, old(claims)@, *candidate, is_file, output_exists),
{
    eligible(cfg, candidate, is_file, output_exists) && claim(claims, &candidate.path)
}

/// The claims behind a look at some candidates in turn. With each one stands whether it is a file,
/// and whether its output exists.
pub open spec fn claims_behind(
    cfg: ResolvedConfig,
    claims: Set<Seq<Seq<u8>>>,
    found: Seq<(Candidate, bool, bool)>,
) -> Set<Seq<Seq<u8>>>
    decreases found.len(),
{
    if found.len() == 0 {
        claims
    } else {
        let last = found.last();
        claims_with(
            cfg,
            claims_behind(cfg, claims, found.drop_last()),
            last.0,
            last.1,
            last.2,
        )
    }
}

/// Every wanted one of some candidates is claimed.
pub open spec fn all_claimed(
    cfg: ResolvedConfig,
    claims: Set<Seq<Seq<u8>>>,
    found: Seq<(Candidate, bool, bool)>,
) -> bool {
    forall|i: int|
        0 <= i < found.len() && wanted(cfg, (#[trigger] found[i]).0, found[i].1, found[i].2)
            ==> claims.contains(components(found[i].0.path@))
}

/// Scanning again is always safe: what one scan of some files took up, the next scan of them does
/// not take up again, and it changes no claim.
pub proof fn rescan_changes_nothing(
    cfg: ResolvedConfig,
    claims: Set<Seq<Seq<u8>>>,
    found: Seq<(Candidate, bool, bool)>,
)
    ensures
        ({
            let once = claims_behind(cfg, claims, found);
            &&& claims_behind(cfg, once, found) == once
            &&& forall|i: int|
                0 <= i < found.len() ==> !takes_up(
                    cfg,
                    claims_behind(cfg, once, found.take(i)),
                    (#[trigger] found[i]).0,
                    found[i].1,
                    found[i].2,
                )
        }),
{
    let once = claims_behind(cfg, claims, found);
    scan_claims_all(cfg, claims, found);
    claimed_stays(cfg, once, found);
    assert forall|i: int| 0 <= i < found.len() implies !takes_up(
        cfg,
        claims_behind(cfg, once, found.take(i)),
        (#[trigger] found[i]).0,
        found[i].1,
        found[i].2,
    ) by {
        let part = found.take(i);
        assert forall|j: int|
            0 <= j < part.len() && wanted(cfg, (#[trigger] part[j]).0, part[j].1, part[j].2) implies
        once.contains(components(part[j].0.path@)) by {
            assert(part[j] == found[j]);
        }
        claimed_stays(cfg, once, part);
    }
}

/// A scan claims every wanted file.
proof fn scan_claims_all(
    cfg: ResolvedConfig,
    claims: Set<Seq<Seq<u8>>>,
    found: Seq<(Candidate, bool, bool)>,
)
    ensures
        all_claimed(cfg, claims_behind(cfg, claims, found), found),
    decreases found.len(),
{
    if found.len() > 0 {
        let rest = found.drop_last();
        scan_claims_all(cfg, claims, rest);
        assert forall|i: int|
            0 <= i < found.len() && wanted(cfg, (#[trigger] found[i]).0, found[i].1, found[i].2) implies
        claims_behind(cfg, claims, found).contains(components(found[i].0.path@)) by {
            if i < rest.len() {
                assert(rest[i] == found[i]);
            }
        }
    }
}

/// Files that are all claimed leave the claims as they are.
proof fn claimed_stays(
    cfg: ResolvedConfig,
    claims: Set<Seq<Seq<u8>>>,
    found: Seq<(Candidate, bool, bool)>,
)
    requires
        all_claimed(cfg, claims, found),
    ensures
        claims_behind(cfg, claims, found) == claims,
    decreases found.len(),
{
    if found.len() > 0 {
        let rest = found.drop_last();
        assert forall|i: int|
            0 <= i < rest.len() && wanted(cfg, (#[trigger] rest[i]).0, rest[i].1, rest[i].2) implies
        claims.contains(components(rest[i].0.path@)) by {
            assert(rest[i] == found[i]);
        }
        claimed_stays(cfg, claims, rest);
        let last = found[found.len() - 1];
        if wanted(cfg, last.0, last.1, last.2) {
            assert(claims.insert(components(last.0.path@)) =~= claims);
        }
    }
}

/// What has been seen of a file's size.
#[derive(Debug, Clone, Copy)]
pub struct Stability {
    /// The size at the last look.
    pub last: Option<u64>,
    /// How often in a row the size has been the same as at the look before.
    pub stable: u32,
}

/// What a look at a file's size comes to.
#[derive(Debug, Clone, Copy, PartialEq, Eq, Structural)]
pub enum Look {
    /// The file is complete.
    Stable,
    /// The file is gone.
    Gone,
    /// It is to be looked at again.
    Again,
}

impl Stability {
    /// How often in a row the size has been the same, with one more look.
    pub open spec fn count_with(self, size: u64) -> int {
        if self.last == Some(size) {
            self.stable + 1
        } else {
            0
        }
    }

    /// Nothing has been seen.
    pub fn new() -> (fresh: Stability)
        ensures
            fresh == (Stability { last: None, stable: 0 }),
    {
        Stability { last: None, stable: 0 }
    }

    /// Looks at a file once more: it is complete when its size has stayed the same `checks` times in
    /// a row.
    pub fn wait_stable(&mut self, size: Option<u64>, checks: u32) -> (look: Look)
        requires
            old(self).stable < u32::MAX,
        ensures
            look == match size {
                None => Look::Gone,
                Some(size) => if old(self).count_with(size) >= checks {
                    Look::Stable
                } else {
                    Look::Again
                },
            },
            match size {
                None => *final(self) == *old(self),
                Some(size) => {
                    &&& final(self).stable == old(self).count_with(size)
                    &&& look is Again ==> final(self).last == Some(size)
                    &&& look is Stable ==> final(self).last == old(self).last
                },
            },
            look is Again ==> final(self).stable < u32::MAX,
    {
        let size: u64 = match size {
            Some(size) => size,
            None => {
                return Look::Gone;
            },
        };
        self.stable = match self.last {
            Some(prev) => if prev == size {
                self.stable + 1
            } else {
                0
            },
            None => 0,
        };
        if self.stable >= checks {
            return Look::Stable;
        }
        self.last = Some(size);
        Look::Again
    }
}

/// How often in a row, up to the last one, a size was the same as the one before it.
pub open spec fn unchanged(sizes: Seq<u64>) -> nat
    decreases sizes.len(),
{
    if sizes.len() < 2 || sizes.last() != sizes[sizes.len() - 2] {
        0
    } else {
        unchanged(sizes.drop_last()) + 1
    }
}

/// What has been seen after looks at these sizes, none of which was the last one needed.
pub open spec fn seen(sizes: Seq<u64>, state: Stability) -> bool {
    if sizes.len() == 0 {
        state == (Stability { last: None, stable: 0 })
    } else {
        state.last == Some(sizes.last()) && state.stable == unchanged(sizes)
    }
}

/// A half-copied file is never encoded: a file that was looked at with these sizes, and then with
/// one more, counts as complete exactly where the last `checks + 1` of all sizes are the same.
pub proof fn stable_means_unchanged(sizes: Seq<u64>, state: Stability, size: u64, checks: u32)
    requires
        seen(sizes, state),
    ensures
        state.count_with(size) == unchanged(sizes.push(size)),
        state.count_with(size) >= checks <==> {
            let all = sizes.push(size);
            &&& all.len() > checks
            &&& forall|i: int| all.len() - 1 - checks <= i < all.len() ==> #[trigger] all[i] == size
        },
{
    let all = sizes.push(size);
    assert(all.drop_last() =~= sizes);
    unchanged_tail(all, checks as nat);
}

/// After a look that was not the last one needed, what has been seen is the sizes with one more.
pub proof fn looking_goes_on(
    sizes: Seq<u64>,
    before: Stability,
    size: u64,
    after: Stability,
)
    requires
        seen(sizes, before),
        after.last == Some(size),
        after.stable == before.count_with(size),
    ensures
        seen(sizes.push(size), after),
{
    assert(sizes.push(size).drop_last() =~= sizes);
}

/// The count of unchanged sizes reaches `n` where the last `n + 1` sizes are the same.
proof fn unchanged_tail(all: Seq<u64>, n: nat)
    requires
        all.len() > 0,
    ensures
        unchanged(all) >= n <==> {
            &&& all.len() > n
            &&& forall|i: int| all.len() - 1 - n <= i < all.len() ==> #[trigger] all[i] == all.last()
        },
        unchanged(all) < all.len(),
    decreases all.len(),
{
    if all.len() >= 2 && all.last() == all[all.len() - 2] {
        let less = all.drop_last();
        assert(less.last() == all.last());
        if n == 0 {
            unchanged_tail(less, 0);
        } else {
            unchanged_tail(less, (n - 1) as nat);
            if less.len() > n - 1 && (forall|i: int|
                less.len() - 1 - (n - 1) <= i < less.len() ==> #[trigger] less[i] == less.last()) {
                assert forall|i: int| all.len() - 1 - n <= i < all.len() implies #[trigger] all[i]
                    == all.last() by {
                    if i < less.len() {
                        assert(less[i] == all[i]);
                    }
                }
            }
            if all.len() > n && (forall|i: int|
                all.len() - 1 - n <= i < all.len() ==> #[trigger] all[i] == all.last()) {
                assert forall|i: int| less.len() - 1 - (n - 1) <= i < less.len() implies #[trigger] less[i]
                    == less.last() by {
                    assert(less[i] == all[i]);
                }
            }
        }
    } else if all.len() >= 2 {
        if n > 0 && all.len() > n {
            assert(all[all.len() - 2] != all.last());
        }
    }
}

/// What a message says of a file in a folder.
pub open spec fn queued_text(path: Seq<u8>, folder: Seq<char>) -> Seq<char> {
    "queued: "@ + name_text(path) + " ["@ + folder + "]"@
}

/// Enqueues a file that is complete, and lets go of one that is not. Returns what there is to tell.
pub fn stabilize(
    cfg: &ResolvedConfig,
    queue: &mut Queue,
    claims: &mut Claims,
    candidate: &Candidate,
    stable: bool,
) -> (note: Option<String>)
    requires
        old(claims).wf(),
        candidate.folder < cfg.folders@.len(),
    ensures
        final(claims).wf(),
        final(claims)@ == if stable {
            old(claims)@
        } else {
            old(claims)@.remove(components(candidate.path@))
        },
        !stable ==> *final(queue) == *old(queue) && note is None,
        stable ==> {
            let folder = cfg.folders@[candidate.folder as int];
            let job = final(queue)@.pending.last();
            &&& final(queue)@ == old(queue)@.with_pushed(job)
            &&& fresh(folder, candidate.path, job.output_path, job)
            &&& drawn(job.id)
            &&& clock_showed(job.enqueued_at)
            &&& job.output_path@ == output_for(folder, candidate.path@)
            &&& final(queue).unsaved
            &&& final(queue).wake
            &&& note matches Some(text) && text@ == queued_text(candidate.path@, folder.name@)
        },
{
    if !stable {
        release(claims, &candidate.path);
        return None;
    }
    let folder: &ResolvedFolder = &cfg.folders[candidate.folder];
    let output: FilePath = output_path_for(folder, &candidate.path);
    let job: Job = new_job(folder, candidate.path.clone(), output);
    let mut note: String = "queued: ".to_owned();
    note.append(candidate.path.display_name().as_str());
    note.append(" [");
    note.append(folder.name.as_str());
    note.append("]");
    queue.push(job);
    Some(note)
}

/// Tells that the daemon has started.
pub fn start_note(cfg: &ResolvedConfig) -> (note: String)
    ensures
        note@ == "hbwatch started — watching "@ + decimal(cfg.folders@.len() as nat)
            + " folder(s)"@,
{
    let mut note: String = "hbwatch started — watching ".to_owned();
    push_decimal(&mut note, cfg.folders.len() as u64);
    note.append(" folder(s)");
    note
}

/// What a folder writes under a plain name is never an entry of a watched folder, where the folder
/// writes outside of it.
pub proof fn entry_stays_out(dir: Seq<u8>, name: Seq<u8>, watch_dirs: Seq<FilePath>, i: int)
    requires
        outside_all(dir, watch_dirs),
        0 <= i < watch_dirs.len(),
        plain_name(name),
    ensures
        components(joined(dir, name)).drop_last() != components(watch_dirs[i]@),
{
    join_adds_component(dir, name);
    let c = components(dir);
    assert(c.push(name).drop_last() =~= c);
    assert(!inside(dir, watch_dirs[i]@));
    assert(c.subrange(0, c.len() as int) =~= c);
}

/// The daemon never takes up what it encoded: where the encoded file has a plain name, neither it nor
/// its temporary file is right in a watched folder.
pub proof fn output_never_watched(
    folder: ResolvedFolder,
    input: Seq<u8>,
    watch_dirs: Seq<FilePath>,
    i: int,
)
    requires
        folder_outside(folder, watch_dirs),
        0 <= i < watch_dirs.len(),
        plain_name(output_name(folder, input)),
    ensures
        components(output_for(folder, input)).drop_last() != components(watch_dirs[i]@),
        components(suffixed(output_for(folder, input), ".hbtmp"@)).drop_last() != components(
            watch_dirs[i]@,
        ),
{
    let name = output_name(folder, input);
    let dir = folder.output_dir@;
    entry_stays_out(dir, name, watch_dirs, i);
    temp_suffix();
    let longer = name + encode_utf8(".hbtmp"@);
    longer_name_is_plain(name);
    entry_stays_out(dir, longer, watch_dirs, i);
    assert(name[0] != SLASH);
    assert(suffixed(output_for(folder, input), ".hbtmp"@) =~= joined(dir, longer));
}

/// Under a configuration that was accepted, the daemon never encodes its own output: what it encodes
/// to under a plain name is right in none of the watched folders that were found.
pub proof fn accepted_never_loops(
    raw: Config,
    home: Option<FilePath>,
    replies: Seq<Reply>,
    steps: Seq<Step>,
    i: int,
    j: int,
    input: Seq<u8>,
)
    requires
        is_run(raw, home, replies, steps),
        steps.last() is Done,
        0 <= i < raw.folders@.len(),
        0 <= j < raw.folders@.len(),
        plain_name(output_name(steps.last()->Done_0.folders@[j], input)),
    ensures
        ({
            let folder = steps.last()->Done_0.folders@[j];
            &&& replies[i] matches Reply::WatchDir(Some(dir))
            &&& components(output_for(folder, input)).drop_last() != components(dir@)
            &&& components(suffixed(output_for(folder, input), ".hbtmp"@)).drop_last()
                != components(dir@)
        }),
{
    accepted_layout(raw, home, replies, steps);
    let folder = steps.last()->Done_0.folders@[j];
    assert(clear_of(replies[i], folder));
    let dir = replies[i]->WatchDir_0->0;
    output_never_watched(folder, input, seq![dir], 0);
}

/// What was moved aside under a plain name is never taken up again: an original is not right in a
/// watched folder, and neither is an input that failed for good, unless the folder that it was moved
/// to is watched itself.
pub proof fn aside_never_watched(
    folder: ResolvedFolder,
    input: Seq<u8>,
    attempt: nat,
    watch_dirs: Seq<FilePath>,
    i: int,
)
    requires
        folder_outside(folder, watch_dirs),
        0 <= i < watch_dirs.len(),
        plain_name(candidate_name(input, attempt)),
    ensures
        components(joined(folder.originals_dir@, candidate_name(input, attempt))).drop_last()
            != components(watch_dirs[i]@),
        ({
            let failed_dir = joined(folder.originals_dir@, encode_utf8("_failed"@));
            components(failed_dir) != components(watch_dirs[i]@) ==> components(
                joined(failed_dir, candidate_name(input, attempt)),
            ).drop_last() != components(watch_dirs[i]@)
        }),
{
    let name = candidate_name(input, attempt);
    let failed_dir = joined(folder.originals_dir@, encode_utf8("_failed"@));
    entry_stays_out(folder.originals_dir@, name, watch_dirs, i);
    join_adds_component(failed_dir, name);
    assert(components(failed_dir).push(name).drop_last() =~= components(failed_dir));
}

/// A plain name is plain with the suffix of temporary files too.
proof fn longer_name_is_plain(name: Seq<u8>)
    requires
        plain_name(name),
    ensures
        plain_name(name + encode_utf8(".hbtmp"@)),
        (name + encode_utf8(".hbtmp"@)).len() > 6,
{
    temp_suffix();
    let longer = name + encode_utf8(".hbtmp"@);
    assert forall|j: int| 0 <= j < longer.len() implies #[trigger] longer[j] != SLASH by {
        if j < name.len() {
            assert(longer[j] == name[j]);
        } else {
            assert(longer[j] == encode_utf8(".hbtmp"@)[j - name.len()]);
        }
    }
}

/// The bytes of the suffix of temporary files.
proof fn temp_suffix()
    ensures
        encode_utf8(".hbtmp"@) == seq![DOT, 104u8, 98u8, 116u8, 109u8, 112u8],
{
    reveal_strlit(".hbtmp");
    is_ascii_chars_encode_utf8(".hbtmp"@);
    assert(encode_utf8(".hbtmp"@) =~= seq![DOT, 104u8, 98u8, 116u8, 109u8, 112u8]);
}

/// An encode in progress is never taken up as an input: the name of its temporary file is one that is
/// ignored, even in a watched folder.
pub proof fn encodes_are_ignored(folder: ResolvedFolder, input: Seq<u8>)
    requires
        plain_name(output_name(folder, input)),
    ensures
        ignored(suffixed(output_for(folder, input), ".hbtmp"@)),
{
    let temp = suffixed(output_for(folder, input), ".hbtmp"@);
    let longer = output_name(folder, input) + encode_utf8(".hbtmp"@);
    temp_files_are_ignored(output_for(folder, input));
    longer_name_is_plain(output_name(folder, input));
    let stem = match stem_of(input) {
        Some(stem) => shown(stem),
        None => shown(Seq::empty()),
    };
    let text = stem + "."@ + folder.output_extension@;
    encode_concat(text, ".hbtmp"@);
    encode_utf8_valid_utf8(text + ".hbtmp"@);
    assert(output_name(folder, input)[0] != SLASH);
    assert(temp =~= joined(folder.output_dir@, longer));
    assert(longer != seq![DOT, DOT]);
    join_stays_inside(folder.output_dir@, longer);
}

/// A temporary path has a name with the suffix of temporary files, which is ignored wherever it is
/// UTF-8.
pub proof fn temp_files_are_ignored(output: Seq<u8>)
    ensures
        ({
            let temp = suffixed(output, ".hbtmp"@);
            &&& name_of(temp) matches Some(name)
            &&& ends_in(name, ".hbtmp"@)
            &&& valid_utf8(name) ==> ignored(temp)
        }),
{
    let end = encode_utf8(".hbtmp"@);
    let temp = suffixed(output, ".hbtmp"@);
    temp_suffix();
    assert(temp.last() == 112);
    assert(trimmed(temp) == temp);
    name_start_shape(temp);
    let start = name_start(temp);
    if start > output.len() {
        assert(temp[start - 1] == end[start - 1 - output.len()]);
    }
    let name = temp.skip(start);
    if temp == seq![SLASH] {
        assert(temp.last() == SLASH);
    }
    assert(components(temp) == components(temp.take(start)).push(name));
    assert(name.len() >= 6);
    assert(name.subrange(name.len() - 6, name.len() as int) =~= end);
}

/// The encoded file has the input's stem and the folder's extension, and stands right in the output
/// directory: for an input with a name in UTF-8, and an extension without a dot or a slash. The stem
/// `.` with an empty extension is left out, since these make no name.
pub proof fn output_keeps_the_stem(folder: ResolvedFolder, input: Seq<u8>)
    requires
        name_of(input) matches Some(name) && valid_utf8(name),
        !folder.output_extension@.contains('.'),
        !folder.output_extension@.contains('/'),
        folder.output_extension@.len() > 0 || stem_of(input) != Some(seq![DOT]),
    ensures
        stem_of(output_for(folder, input)) == stem_of(input),
        extension_of(output_for(folder, input)) == Some(encode_utf8(folder.output_extension@)),
        components(output_for(folder, input)).drop_last() == components(folder.output_dir@),
{
    let name = name_of(input)->0;
    let stem = stem_part(name);
    let extension = folder.output_extension@;
    let tail = encode_utf8(extension);
    names_are_plain(input);
    parts_are_plain(name);
    shown_in_two_parts(name);
    shown_reads_back(stem, Seq::empty());
    let text = shown(stem);
    encode_concat(text + "."@, extension);
    encode_concat(text, "."@);
    reveal_strlit(".");
    is_ascii_chars_encode_utf8("."@);
    assert(encode_utf8("."@) =~= seq![DOT]);
    let out = output_name(folder, input);
    assert(out =~= stem + seq![DOT] + tail);
    if tail.contains(DOT) {
        ascii_of_text(extension, DOT);
    }
    if tail.contains(SLASH) {
        ascii_of_text(extension, SLASH);
    }
    parts_come_back(stem, tail);
    assert forall|i: int| 0 <= i < out.len() implies #[trigger] out[i] != SLASH by {
        if i < stem.len() {
            assert(out[i] == stem[i]);
        } else if i > stem.len() {
            assert(out[i] == tail[i - stem.len() - 1]);
        }
    }
    assert(out.len() >= 2);
    assert(out != seq![DOT, DOT]) by {
        if out == seq![DOT, DOT] {
            if extension.len() > 0 {
                encode_utf8_decode_utf8(extension);
                assert(tail.len() > 0);
                assert(out.last() == tail.last());
                assert(tail[tail.len() - 1] == DOT);
            } else {
                encode_utf8_decode_utf8(extension);
                assert(tail.len() + 1 + stem.len() == 2);
                if tail.len() == 0 {
                    assert(stem[0] == out[0]);
                    assert(stem =~= seq![DOT]);
                } else {
                    assert(stem.len() == 0);
                }
            }
        }
    }
    join_stays_inside(folder.output_dir@, out);
    join_adds_component(folder.output_dir@, out);
    assert(components(folder.output_dir@).push(out).drop_last() =~= components(folder.output_dir@));
}

/// Two inputs with different stems are never encoded to the same file, and two with the same stem
/// are.
pub proof fn outputs_differ_by_stem(folder: ResolvedFolder, a: Seq<u8>, b: Seq<u8>)
    requires
        name_of(a) matches Some(name) && valid_utf8(name),
        name_of(b) matches Some(name) && valid_utf8(name),
        !folder.output_extension@.contains('.'),
        !folder.output_extension@.contains('/'),
        folder.output_extension@.len() > 0,
    ensures
        stem_of(a) == stem_of(b) <==> components(output_for(folder, a)) == components(
            output_for(folder, b),
        ),
{
    output_keeps_the_stem(folder, a);
    output_keeps_the_stem(folder, b);
    let (x, y) = (output_for(folder, a), output_for(folder, b));
    name_is_the_last_component(x);
    name_is_the_last_component(y);
}

/// Two byte sequences count as the same in whatever case where each byte of the one is the other's, or
/// the same ASCII letter in the other case.
pub proof fn case_of_letters_alone(a: Seq<u8>, b: Seq<u8>)
    ensures
        same_ignoring_case(a, b) <==> {
            &&& a.len() == b.len()
            &&& forall|i: int|
                0 <= i < a.len() ==> {
                    ||| #[trigger] a[i] == b[i]
                    ||| 65 <= a[i] <= 90 && b[i] == a[i] + 32
                    ||| 65 <= b[i] <= 90 && a[i] == b[i] + 32
                }
        },
{
    if same_ignoring_case(a, b) {
        assert forall|i: int| 0 <= i < a.len() implies {
            ||| #[trigger] a[i] == b[i]
            ||| 65 <= a[i] <= 90 && b[i] == a[i] + 32
            ||| 65 <= b[i] <= 90 && a[i] == b[i] + 32
        } by {
            assert(ascii_lower(a[i]) == ascii_lower(b[i]));
        }
    }
}

/// A path is of a wanted type where its extension is text and one of those listed, in whatever case.
pub proof fn media_by_extension(extensions: Seq<String>, path: Seq<u8>)
    ensures
        media_name(extensions, path) <==> exists|i: int|
            {
                &&& 0 <= i < extensions.len()
                &&& extension_of(path) matches Some(extension)
                &&& valid_utf8(extension)
                &&& same_ignoring_case(extension, encode_utf8((#[trigger] extensions[i])@))
            },
{
}

/// A name ends in a suffix.
proof fn ends_in_shape(name: Seq<u8>, suffix: Seq<char>)
    ensures
        ends_in(name, suffix) <==> exists|head: Seq<u8>| name == #[trigger] (head + encode_utf8(suffix)),
{
    let end = encode_utf8(suffix);
    if ends_in(name, suffix) {
        let head = name.take(name.len() - end.len());
        assert(name =~= head + end);
    }
    if exists|head: Seq<u8>| name == #[trigger] (head + end) {
        let head = choose|head: Seq<u8>| name == #[trigger] (head + end);
        assert(name.subrange(name.len() - end.len(), name.len() as int) =~= end);
    }
}

/// A name in UTF-8 is ignored where it starts with a dot, or is any name with one of the suffixes of
/// unfinished files behind it; and no other is.
pub proof fn ignored_names(path: Seq<u8>, name: Seq<u8>)
    requires
        name_of(path) == Some(name),
        valid_utf8(name),
    ensures
        ignored(path) <==> {
            ||| name[0] == DOT
            ||| exists|head: Seq<u8>| name == #[trigger] (head + encode_utf8(".tmp"@))
            ||| exists|head: Seq<u8>| name == #[trigger] (head + encode_utf8(".part"@))
            ||| exists|head: Seq<u8>| name == #[trigger] (head + encode_utf8(".partial"@))
            ||| exists|head: Seq<u8>| name == #[trigger] (head + encode_utf8(".download"@))
            ||| exists|head: Seq<u8>| name == #[trigger] (head + encode_utf8(".crdownload"@))
            ||| exists|head: Seq<u8>| name == #[trigger] (head + encode_utf8(".hbtmp"@))
        },
{
    ends_in_shape(name, ".tmp"@);
    ends_in_shape(name, ".part"@);
    ends_in_shape(name, ".partial"@);
    ends_in_shape(name, ".download"@);
    ends_in_shape(name, ".crdownload"@);
    ends_in_shape(name, ".hbtmp"@);
}

/// A path without a name, or with a name that is no text, is not ignored by its name.
pub proof fn only_text_is_ignored(path: Seq<u8>)
    requires
        ignored(path),
    ensures
        name_of(path) matches Some(name) && valid_utf8(name),
{
}

/// What is taken up: a file of a known folder and a wanted type that is not ignored and has no output
/// yet, the first time that it is seen; it is claimed then. Nothing else is taken up or claimed.
pub proof fn taken_up_on_first_sight(
    cfg: ResolvedConfig,
    claims: Set<Seq<Seq<u8>>>,
    candidate: Candidate,
    is_file: bool,
    output_exists: bool,
)
    ensures
        ({
            let good = candidate.folder < cfg.folders@.len() && media_name(
                cfg.settings.extensions@,
                candidate.path@,
            ) && !ignored(candidate.path@);
            let own = components(candidate.path@);
            let taken = takes_up(cfg, claims, candidate, is_file, output_exists);
            let after = claims_with(cfg, claims, candidate, is_file, output_exists);
            &&& taken <==> good && is_file && !output_exists && !claims.contains(own)
            &&& taken ==> after == claims.insert(own)
            &&& !taken ==> after == claims
            &&& !takes_up(cfg, after, candidate, is_file, output_exists)
        }),
{
    let own = components(candidate.path@);
    if claims.contains(own) {
        assert(claims.insert(own) =~= claims);
    }
}

/// What is told of a file that was enqueued names the file and its folder.
pub proof fn queued_text_names_both(path: Seq<u8>, folder: Seq<char>)
    ensures
        contains(queued_text(path, folder), name_text(path)),
        contains(queued_text(path, folder), folder),
        "queued: "@.is_prefix_of(queued_text(path, folder)),
{
    let text = queued_text(path, folder);
    let name = name_text(path);
    contains_what_was_put_in("queued: "@, name, " ["@ + folder + "]"@);
    assert("queued: "@ + name + (" ["@ + folder + "]"@) =~= text);
    contains_what_was_put_in("queued: "@ + name + " ["@, folder, "]"@);
    assert("queued: "@ =~= text.subrange(0, "queued: "@.len() as int));
}

} // verus!
