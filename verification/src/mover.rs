//! Putting files in place: a finished encode and its original, or an input that failed for good.
//!
//! The file operations are asked for one at a time, so that each follows from how the one before it
//! went.

use vstd::prelude::*;
use vstd::string::*;
use vstd::utf8::*;

use crate::path::{
    dotted_is_plain, extension_of, extension_part, joined, lossy_text, name_in_two_parts, name_of,
    names_are_plain, parts_are_plain, parts_come_back, plain_name, shown, shown_in_two_parts,
    shown_reads_back, stem_of, stem_part, text_is_plain, FilePath, DOT,
};
use crate::queue::Job;
use crate::text::{
    ascii_of_text, contains, contains_what_was_put_in, decimal, decimal_has_digits,
    decimal_injective, encode_concat, push_decimal,
};

verus! {

/// A path with a suffix behind its last byte.
pub open spec fn suffixed(path: Seq<u8>, suffix: Seq<char>) -> Seq<u8> {
    path + encode_utf8(suffix)
}

/// A path with a suffix behind its last byte.
fn with_suffix(path: &FilePath, suffix: &str) -> (longer: FilePath)
    ensures
        longer@ == suffixed(path@, suffix@),
{
    let mut bytes: Vec<u8> = vstd::slice::slice_to_vec(path.as_bytes());
    bytes.append(&mut suffix.as_bytes_vec());
    FilePath::from_bytes(bytes)
}

/// The in-progress encode path (final output path + `.hbtmp`).
pub fn temp_path(output: &FilePath) -> (temp: FilePath)
    ensures
        temp@ == suffixed(output@, ".hbtmp"@),
{
    with_suffix(output, ".hbtmp")
}

/// The file beside a failed input that says why it failed.
pub fn error_note_path(dest: &FilePath) -> (note: FilePath)
    ensures
        note@ == suffixed(dest@, ".error.txt"@),
{
    with_suffix(dest, ".error.txt")
}

/// The names to try for a file in a directory: its own, then its own with a number behind the stem.
pub open spec fn candidate_name(src: Seq<u8>, attempt: nat) -> Seq<u8> {
    if attempt == 0 {
        match name_of(src) {
            Some(name) => name,
            None => Seq::empty(),
        }
    } else {
        encode_utf8(numbered_name(src, attempt))
    }
}

/// A file's name with a number behind the stem.
pub open spec fn numbered_name(src: Seq<u8>, number: nat) -> Seq<char> {
    let stem = match stem_of(src) {
        Some(stem) => shown(stem),
        None => shown(Seq::empty()),
    };
    let head = stem + " ("@ + decimal(number) + ")"@;
    match extension_of(src) {
        Some(extension) => head + "."@ + shown(extension),
        None => head,
    }
}

/// The path to try for `src` in `dir`: right in `dir`, whatever `src` is called.
pub fn candidate(dir: &FilePath, src: &FilePath, attempt: u32) -> (path: FilePath)
    ensures
        path@ == joined(dir@, candidate_name(src@, attempt as nat)),
        name_of(src@) is Some ==> plain_name(candidate_name(src@, attempt as nat)),
{
    proof {
        names_are_plain(src@);
    }
    if attempt == 0 {
        let name: Vec<u8> = match src.file_name() {
            Some(name) => name,
            None => Vec::new(),
        };
        return dir.join(name.as_slice());
    }
    let stem: Vec<u8> = match src.file_stem() {
        Some(stem) => stem,
        None => Vec::new(),
    };
    let mut name: String = lossy_text(stem.as_slice());
    let ghost shown_stem = name@;
    name.append(" (");
    push_decimal(&mut name, attempt as u64);
    name.append(")");
    proof {
        if name_of(src@) is Some {
            parts_are_plain(name_of(src@)->0);
            number_is_plain(shown_stem, attempt as nat);
        }
    }
    if let Some(extension) = src.extension() {
        let extension: String = lossy_text(extension.as_slice());
        proof {
            if name_of(src@) is Some {
                dotted_is_plain(name@, extension@);
            }
        }
        name.append(".");
        name.append(extension.as_str());
    }
    proof {
        if name_of(src@) is Some {
            text_is_plain(name@);
        }
    }
    dir.join_text(name.as_str())
}

/// A number behind a text brings no slash in.
proof fn number_is_plain(stem: Seq<char>, number: nat)
    requires
        !stem.contains('/'),
    ensures
        !(stem + " ("@ + decimal(number) + ")"@).contains('/'),
{
    reveal_strlit(" (");
    reveal_strlit(")");
    let text = stem + " ("@ + decimal(number) + ")"@;
    assert forall|i: int| 0 <= i < text.len() implies text[i] != '/' by {
        if i < stem.len() {
            assert(text[i] == stem[i]);
        } else if 2 <= i - stem.len() < 2 + decimal(number).len() {
            decimal_has_digits(number, i - stem.len() - 2);
            assert(text[i] == decimal(number)[i - stem.len() - 2]);
        }
    }
}

/// What the file system is asked to do.
#[derive(Debug)]
pub enum FileOp {
    /// Create the directory that a path stands in.
    MakeParent { of: FilePath },
    /// Rename a file.
    Rename { from: FilePath, to: FilePath },
    /// Copy a file.
    Copy { from: FilePath, to: FilePath },
    /// Remove a file.
    Remove { path: FilePath },
    /// Is there anything under this path?
    Probe { path: FilePath },
    /// Write a text to a file.
    Write { path: FilePath, text: String },
}

/// How far the move of one file is.
#[derive(Debug, Clone, Copy, PartialEq, Eq, Structural)]
pub enum MovePhase {
    Prepare,
    Rename,
    Copy,
    Remove,
}

/// Which step of a move failed for good.
#[derive(Debug, Clone, Copy, PartialEq, Eq, Structural)]
pub enum MoveFault {
    CopyFailed,
    RemoveFailed,
}

/// Where the move of one file goes: on, to its end, or to a fault.
#[derive(Debug, Clone, Copy, PartialEq, Eq, Structural)]
pub enum MoveTurn {
    Next(MovePhase),
    Moved,
    Fault(MoveFault),
}

/// What follows on a phase of a move. A rename that fails falls back to copy and remove, as between
/// file systems; the directory may have been there before.
pub open spec fn turn_of(phase: MovePhase, ok: bool) -> MoveTurn {
    match phase {
        MovePhase::Prepare => MoveTurn::Next(MovePhase::Rename),
        MovePhase::Rename => if ok {
            MoveTurn::Moved
        } else {
            MoveTurn::Next(MovePhase::Copy)
        },
        MovePhase::Copy => if ok {
            MoveTurn::Next(MovePhase::Remove)
        } else {
            MoveTurn::Fault(MoveFault::CopyFailed)
        },
        MovePhase::Remove => if ok {
            MoveTurn::Moved
        } else {
            MoveTurn::Fault(MoveFault::RemoveFailed)
        },
    }
}

/// What follows on a phase of a move.
pub fn move_file(phase: MovePhase, ok: bool) -> (turn: MoveTurn)
    ensures
        turn == turn_of(phase, ok),
{
    match phase {
        MovePhase::Prepare => MoveTurn::Next(MovePhase::Rename),
        MovePhase::Rename => if ok {
            MoveTurn::Moved
        } else {
            MoveTurn::Next(MovePhase::Copy)
        },
        MovePhase::Copy => if ok {
            MoveTurn::Next(MovePhase::Remove)
        } else {
            MoveTurn::Fault(MoveFault::CopyFailed)
        },
        MovePhase::Remove => if ok {
            MoveTurn::Moved
        } else {
            MoveTurn::Fault(MoveFault::RemoveFailed)
        },
    }
}

/// Why files could not be put in place.
#[derive(Debug, Clone, Copy, PartialEq, Eq, Structural)]
pub enum MoveError {
    /// The encoded file is not at its output path.
    Output(MoveFault),
    /// The input is not where it is kept aside.
    Original(MoveFault),
}

impl MoveError {
    /// What the error says.
    pub open spec fn text(self) -> Seq<char> {
        match self {
            MoveError::Output(_) => "failed to move encoded output into place"@,
            MoveError::Original(_) => "failed to move original aside"@,
        }
    }

    /// What the error says.
    pub fn message(&self) -> (message: String)
        ensures
            message@ == self.text(),
    {
        match self {
            MoveError::Output(_) => "failed to move encoded output into place".to_owned(),
            MoveError::Original(_) => "failed to move original aside".to_owned(),
        }
    }
}

/// What is being done.
#[derive(Debug)]
pub enum MoverStage {
    /// The temporary file moves to the output path.
    Output { temp: FilePath, output: FilePath, phase: MovePhase },
    /// A free name is looked for.
    Choose { attempt: u32 },
    /// The input moves to the free name.
    Original { dest: FilePath, phase: MovePhase },
    /// The reason of a failure is written beside the input.
    Note { dest: FilePath },
    /// The input stands at its new path.
    Done { dest: FilePath },
    /// A move failed.
    Failed(MoveError),
}

/// Files on their way to where they belong.
#[derive(Debug)]
pub struct Mover {
    /// The input, and the directory that it is moved to.
    pub input: FilePath,
    pub dir: FilePath,
    /// Why the input failed, where it did.
    pub reason: Option<String>,
    pub stage: MoverStage,
}

/// Starts to put a finished encode in place and its original aside.
pub fn finalize(job: &Job, temp: &FilePath) -> (mover: Mover)
    ensures
        mover == (Mover {
            input: job.input_path,
            dir: job.originals_dir,
            reason: None,
            stage: MoverStage::Output {
                temp: *temp,
                output: job.output_path,
                phase: MovePhase::Prepare,
            },
        }),
{
    Mover {
        input: job.input_path.clone(),
        dir: job.originals_dir.clone(),
        reason: None,
        stage: MoverStage::Output {
            temp: temp.clone(),
            output: job.output_path.clone(),
            phase: MovePhase::Prepare,
        },
    }
}

/// Starts to put an input that failed for good aside, with the reason beside it.
pub fn move_to_failed(input: &FilePath, failed_dir: &FilePath, reason: &str) -> (mover: Mover)
    ensures
        mover.input == *input,
        mover.dir == *failed_dir,
        mover.reason matches Some(r) && r@ == reason@,
        mover.stage == (MoverStage::Choose { attempt: 0 }),
{
    Mover {
        input: input.clone(),
        dir: failed_dir.clone(),
        reason: Some(reason.to_owned()),
        stage: MoverStage::Choose { attempt: 0 },
    }
}

/// An operation is the one that a phase of a move needs.
pub open spec fn op_of(phase: MovePhase, from: FilePath, to: FilePath) -> FileOp {
    match phase {
        MovePhase::Prepare => FileOp::MakeParent { of: to },
        MovePhase::Rename => FileOp::Rename { from, to },
        MovePhase::Copy => FileOp::Copy { from, to },
        MovePhase::Remove => FileOp::Remove { path: from },
    }
}

/// The operation that a phase of a move needs.
fn move_op(phase: MovePhase, from: &FilePath, to: &FilePath) -> (op: FileOp)
    ensures
        op == op_of(phase, *from, *to),
{
    match phase {
        MovePhase::Prepare => FileOp::MakeParent { of: to.clone() },
        MovePhase::Rename => FileOp::Rename { from: from.clone(), to: to.clone() },
        MovePhase::Copy => FileOp::Copy { from: from.clone(), to: to.clone() },
        MovePhase::Remove => FileOp::Remove { path: from.clone() },
    }
}

impl Mover {
    /// `op` is what is to be done next.
    pub open spec fn needs(self, op: Option<FileOp>) -> bool {
        match self.stage {
            MoverStage::Output { temp, output, phase } => op == Some(op_of(phase, temp, output)),
            MoverStage::Choose { attempt } => {
                &&& op matches Some(FileOp::Probe { path })
                &&& path@ == joined(self.dir@, candidate_name(self.input@, attempt as nat))
            },
            MoverStage::Original { dest, phase } => op == Some(op_of(phase, self.input, dest)),
            MoverStage::Note { dest } => {
                &&& op matches Some(FileOp::Write { path, text })
                &&& path@ == suffixed(dest@, ".error.txt"@)
                &&& self.reason matches Some(reason) ==> text@ == reason@
                &&& self.reason is None ==> text@ == Seq::<char>::empty()
            },
            MoverStage::Done { .. } => op is None,
            MoverStage::Failed(_) => op is None,
        }
    }

    /// What is to be done next, if anything.
    pub fn next_op(&self) -> (op: Option<FileOp>)
        ensures
            self.needs(op),
    {
        match &self.stage {
            MoverStage::Output { temp, output, phase } => Some(move_op(*phase, temp, output)),
            MoverStage::Choose { attempt } => Some(
                FileOp::Probe { path: candidate(&self.dir, &self.input, *attempt) },
            ),
            MoverStage::Original { dest, phase } => Some(move_op(*phase, &self.input, dest)),
            MoverStage::Note { dest } => {
                let text: String = match &self.reason {
                    Some(reason) => reason.clone(),
                    None => String::new(),
                };
                Some(FileOp::Write { path: error_note_path(dest), text })
            },
            MoverStage::Done { dest: _ } => None,
            MoverStage::Failed(_) => None,
        }
    }

    /// There is a name left to try.
    pub open spec fn can_go_on(self, ok: bool) -> bool {
        self.stage matches MoverStage::Choose { attempt } ==> ok ==> attempt < u32::MAX
    }

    /// Whether there is a name left to try.
    pub fn goes_on(&self, ok: bool) -> (can: bool)
        ensures
            can == self.can_go_on(ok),
    {
        match &self.stage {
            MoverStage::Choose { attempt } => !ok || *attempt < u32::MAX,
            _ => true,
        }
    }

    /// The stage that follows on the outcome of the operation. A probe's outcome is whether
    /// something is there; how creating a directory or writing the reason went does not matter.
    pub open spec fn follows(self, ok: bool, next: MoverStage) -> bool {
        match self.stage {
            MoverStage::Output { temp, output, phase } => next == match turn_of(phase, ok) {
                MoveTurn::Next(phase) => MoverStage::Output { temp, output, phase },
                MoveTurn::Moved => MoverStage::Choose { attempt: 0 },
                MoveTurn::Fault(fault) => MoverStage::Failed(MoveError::Output(fault)),
            },
            MoverStage::Choose { attempt } => if ok {
                next == (MoverStage::Choose { attempt: (attempt + 1) as u32 })
            } else {
                &&& next matches MoverStage::Original { dest, phase }
                &&& dest@ == joined(self.dir@, candidate_name(self.input@, attempt as nat))
                &&& phase == MovePhase::Prepare
            },
            MoverStage::Original { dest, phase } => next == match turn_of(phase, ok) {
                MoveTurn::Next(phase) => MoverStage::Original { dest, phase },
                MoveTurn::Moved => if self.reason is Some {
                    MoverStage::Note { dest }
                } else {
                    MoverStage::Done { dest }
                },
                MoveTurn::Fault(fault) => MoverStage::Failed(MoveError::Original(fault)),
            },
            MoverStage::Note { dest } => next == (MoverStage::Done { dest }),
            MoverStage::Done { .. } => next == self.stage,
            MoverStage::Failed(_) => next == self.stage,
        }
    }

    /// `after` is this mover behind the operation.
    pub open spec fn becomes(self, ok: bool, after: Mover) -> bool {
        &&& after == (Mover { stage: after.stage, ..self })
        &&& self.follows(ok, after.stage)
    }

    /// Takes the outcome of the operation in.
    pub fn reply(self, ok: bool) -> (after: Mover)
        requires
            self.can_go_on(ok),
        ensures
            self.becomes(ok, after),
    {
        let Mover { input, dir, reason, stage } = self;
        let stage: MoverStage = match stage {
            MoverStage::Output { temp, output, phase } => match move_file(phase, ok) {
                MoveTurn::Next(phase) => MoverStage::Output { temp, output, phase },
                MoveTurn::Moved => MoverStage::Choose { attempt: 0 },
                MoveTurn::Fault(fault) => MoverStage::Failed(MoveError::Output(fault)),
            },
            MoverStage::Choose { attempt } => if ok {
                MoverStage::Choose { attempt: attempt + 1 }
            } else {
                MoverStage::Original {
                    dest: candidate(&dir, &input, attempt),
                    phase: MovePhase::Prepare,
                }
            },
            MoverStage::Original { dest, phase } => match move_file(phase, ok) {
                MoveTurn::Next(phase) => MoverStage::Original { dest, phase },
                MoveTurn::Moved => if reason.is_some() {
                    MoverStage::Note { dest }
                } else {
                    MoverStage::Done { dest }
                },
                MoveTurn::Fault(fault) => MoverStage::Failed(MoveError::Original(fault)),
            },
            MoverStage::Note { dest } => MoverStage::Done { dest },
            MoverStage::Done { dest } => MoverStage::Done { dest },
            MoverStage::Failed(error) => MoverStage::Failed(error),
        };
        Mover { input, dir, reason, stage }
    }

    /// How it ended, once it has: where the input is now, or why it is not there.
    pub fn outcome(&self) -> (end: Option<Result<FilePath, MoveError>>)
        ensures
            end == match self.stage {
                MoverStage::Done { dest } => Some(Ok::<FilePath, MoveError>(dest)),
                MoverStage::Failed(error) => Some(Err::<FilePath, MoveError>(error)),
                _ => None,
            },
    {
        match &self.stage {
            MoverStage::Done { dest } => Some(Ok(dest.clone())),
            MoverStage::Failed(error) => Some(Err(*error)),
            _ => None,
        }
    }
}

/// A whole run: `movers[k]` stands behind the first `k` operations, and `oks[k]` is how the next one
/// went.
pub open spec fn is_run(movers: Seq<Mover>, oks: Seq<bool>) -> bool {
    &&& movers.len() == oks.len() + 1
    &&& forall|k: int|
        0 <= k < oks.len() ==> {
            &&& movers[k].can_go_on(#[trigger] oks[k])
            &&& movers[k].becomes(oks[k], movers[k + 1])
        }
}

/// The output path has been reached by the first `k` operations: the last of its move went well.
pub open spec fn output_in_place(movers: Seq<Mover>, oks: Seq<bool>, k: int) -> bool {
    exists|j: int|
        {
            &&& 0 <= j < k
            &&& #[trigger] oks[j]
            &&& movers[j].stage matches MoverStage::Output { temp, output, phase }
            &&& phase == MovePhase::Rename || phase == MovePhase::Remove
        }
}

/// The original is not touched before the encoded output is in place: whatever a finalizing run
/// does to the input comes behind the move of the temporary file to the output path.
pub proof fn output_before_original(job: Job, temp: FilePath, movers: Seq<Mover>, oks: Seq<bool>, k: int)
    requires
        is_run(movers, oks),
        0 <= k < movers.len(),
        movers[0].input == job.input_path,
        movers[0].dir == job.originals_dir,
        movers[0].reason is None,
        movers[0].stage == (MoverStage::Output {
            temp,
            output: job.output_path,
            phase: MovePhase::Prepare,
        }),
    ensures
        movers[k].input == job.input_path,
        movers[k].dir == job.originals_dir,
        movers[k].reason is None,
        match movers[k].stage {
            MoverStage::Output { temp: t, output, .. } => t == temp && output == job.output_path,
            MoverStage::Choose { .. } => output_in_place(movers, oks, k),
            MoverStage::Original { .. } => output_in_place(movers, oks, k),
            MoverStage::Note { .. } => false,
            MoverStage::Done { .. } => output_in_place(movers, oks, k),
            MoverStage::Failed(MoveError::Output(_)) => true,
            MoverStage::Failed(MoveError::Original(_)) => output_in_place(movers, oks, k),
        },
    decreases k,
{
    if k > 0 {
        output_before_original(job, temp, movers, oks, k - 1);
        let ok = oks[k - 1];
        assert(movers[k - 1].becomes(ok, movers[k]));
        if output_in_place(movers, oks, k - 1) {
            let j = choose|j: int|
                {
                    &&& 0 <= j < k - 1
                    &&& #[trigger] oks[j]
                    &&& movers[j].stage matches MoverStage::Output { temp, output, phase }
                    &&& phase == MovePhase::Rename || phase == MovePhase::Remove
                };
            assert(oks[j]);
        }
    }
}

/// A file is removed only right behind a copy of it that went well.
pub proof fn removed_only_when_copied(movers: Seq<Mover>, oks: Seq<bool>, k: int, op: Option<FileOp>)
    requires
        is_run(movers, oks),
        0 < k < movers.len(),
        movers[k].needs(op),
        op matches Some(FileOp::Remove { .. }),
    ensures
        oks[k - 1],
        exists|copy: Option<FileOp>|
            {
                &&& #[trigger] movers[k - 1].needs(copy)
                &&& copy matches Some(FileOp::Copy { from, .. })
                &&& op == Some(FileOp::Remove { path: from })
            },
{
    let ok = oks[k - 1];
    assert(movers[k - 1].becomes(ok, movers[k]));
    let copy = match movers[k - 1].stage {
        MoverStage::Output { temp, output, phase } => Some(op_of(phase, temp, output)),
        MoverStage::Original { dest, phase } => Some(op_of(phase, movers[k - 1].input, dest)),
        _ => None,
    };
    assert(movers[k - 1].needs(copy));
}

/// The path that the input is moved to was found free, and so was no path that came before it.
pub proof fn dest_was_free(movers: Seq<Mover>, oks: Seq<bool>, start: int, k: int)
    requires
        is_run(movers, oks),
        0 <= start < k < movers.len(),
        movers[start].stage == (MoverStage::Choose { attempt: 0 }),
        movers[k].stage is Original,
        movers[k - 1].stage is Choose,
    ensures
        !oks[k - 1],
        movers[k - 1].stage == (MoverStage::Choose { attempt: (k - 1 - start) as u32 }),
        movers[k].stage->Original_dest@ == joined(
            movers[k].dir@,
            candidate_name(movers[k].input@, (k - 1 - start) as nat),
        ),
        forall|j: int| start <= j < k - 1 ==> #[trigger] oks[j],
{
    probes(movers, oks, start, k - 1);
    assert(movers[k - 1].becomes(oks[k - 1], movers[k]));
}

/// Looking for a free name goes through the candidates in order, for as long as they are taken.
proof fn probes(movers: Seq<Mover>, oks: Seq<bool>, start: int, k: int)
    requires
        is_run(movers, oks),
        0 <= start <= k < movers.len(),
        movers[start].stage == (MoverStage::Choose { attempt: 0 }),
        movers[k].stage is Choose,
    ensures
        movers[k].stage->Choose_attempt == k - start,
        forall|j: int| start <= j < k ==> #[trigger] oks[j],
    decreases k - start,
{
    if start < k {
        assert(movers[k - 1].becomes(oks[k - 1], movers[k]));
        if !(movers[k - 1].stage is Choose) {
            never_chosen_again(movers, oks, start, k - 1);
        }
        probes(movers, oks, start, k - 1);
    }
}

/// Once a name was looked for, the output is behind.
proof fn never_chosen_again(movers: Seq<Mover>, oks: Seq<bool>, start: int, k: int)
    requires
        is_run(movers, oks),
        0 <= start <= k < movers.len(),
        movers[start].stage is Choose,
    ensures
        !(movers[k].stage is Output),
    decreases k - start,
{
    if start < k {
        never_chosen_again(movers, oks, start, k - 1);
        assert(movers[k - 1].becomes(oks[k - 1], movers[k]));
    }
}

/// No name is tried twice: a file's candidates differ from one another.
pub proof fn candidates_differ(src: Seq<u8>, a: nat, b: nat)
    requires
        a != b,
    ensures
        candidate_name(src, a) != candidate_name(src, b),
{
    if a == 0 {
        number_is_new(src, b);
    } else if b == 0 {
        number_is_new(src, a);
    } else {
        let one = numbered_name(src, a);
        let other = numbered_name(src, b);
        if encode_utf8(one) == encode_utf8(other) {
            encode_utf8_decode_utf8(one);
            encode_utf8_decode_utf8(other);
            let stem = match stem_of(src) {
                Some(stem) => shown(stem),
                None => shown(Seq::empty()),
            };
            let start = (stem + " ("@).len() as int;
            assert(decimal(a).len() == decimal(b).len());
            assert(one.subrange(start, start + decimal(a).len()) =~= decimal(a));
            assert(other.subrange(start, start + decimal(b).len()) =~= decimal(b));
            decimal_injective(a, b);
        }
    }
}

/// A numbered name is not the file's own: as a text, it is longer.
proof fn number_is_new(src: Seq<u8>, number: nat)
    requires
        number > 0,
    ensures
        candidate_name(src, number) != candidate_name(src, 0),
{
    let text = numbered_name(src, number);
    let name = candidate_name(src, 0);
    reveal_strlit(" (");
    assert(text.len() > 0);
    if encode_utf8(text) == name {
        encode_utf8_valid_utf8(text);
        encode_utf8_decode_utf8(text);
        if name_of(src) is Some {
            shown_in_two_parts(name);
        }
        assert(shown(name) == text);
    }
}

/// A suffix is put behind the whole path and changes nothing before it, so that different paths stay
/// different.
pub proof fn suffix_stands_behind(path: Seq<u8>, other: Seq<u8>, suffix: Seq<char>)
    ensures
        path.is_prefix_of(suffixed(path, suffix)),
        encode_utf8(suffix).is_suffix_of(suffixed(path, suffix)),
        suffixed(path, suffix).len() == path.len() + encode_utf8(suffix).len(),
        suffixed(path, suffix) == suffixed(other, suffix) ==> path == other,
{
    let end = encode_utf8(suffix);
    let whole = suffixed(path, suffix);
    assert(path =~= whole.subrange(0, path.len() as int));
    assert(end =~= whole.subrange(whole.len() - end.len(), whole.len() as int));
    if whole == suffixed(other, suffix) {
        let again = suffixed(other, suffix);
        assert(path.len() == other.len());
        assert(path =~= again.subrange(0, path.len() as int));
        assert(other =~= again.subrange(0, other.len() as int));
    }
}

/// The first name to try is the file's own. A numbered one keeps the extension, and has the number in
/// brackets behind the stem.
pub proof fn candidates_keep_the_extension(src: Seq<u8>, name: Seq<u8>, number: nat)
    requires
        name_of(src) == Some(name),
        valid_utf8(name),
    ensures
        candidate_name(src, 0) == name,
        number > 0 ==> {
            let numbered = candidate_name(src, number);
            &&& extension_part(numbered) == extension_part(name)
            &&& stem_part(numbered) == stem_part(name) + encode_utf8(
                " ("@ + decimal(number) + ")"@,
            )
        },
{
    if number > 0 {
        let numbered = candidate_name(src, number);
        let stem = stem_part(name);
        let mark = " ("@ + decimal(number) + ")"@;
        let tail = encode_utf8(mark);
        names_are_plain(src);
        parts_are_plain(name);
        shown_in_two_parts(name);
        name_in_two_parts(name);
        shown_reads_back(stem, mark);
        let text = shown(stem);
        assert(text + " ("@ + decimal(number) + ")"@ =~= text + mark);
        encode_concat(text, mark);
        number_has_no_dot(number);
        if tail.contains(DOT) {
            ascii_of_text(mark, DOT);
        }
        match extension_part(name) {
            Some(extension) => {
                valid_extension(name);
                shown_reads_back(extension, mark);
                encode_concat(text + mark + "."@, shown(extension));
                encode_concat(text + mark, "."@);
                reveal_strlit(".");
                is_ascii_chars_encode_utf8("."@);
                assert(encode_utf8("."@) =~= seq![DOT]);
                assert(numbered =~= (stem + tail) + seq![DOT] + extension);
                parts_come_back(stem + tail, extension);
            },
            None => {
                assert(numbered =~= stem + tail);
                name_in_two_parts(numbered);
                if let Some(extension) = extension_part(numbered) {
                    let at = stem_part(numbered).len() as int;
                    assert(numbered[at] == DOT);
                    if at < stem.len() {
                        assert(name[at] == DOT);
                    } else {
                        assert(tail[at - stem.len()] == DOT);
                    }
                }
            },
        }
    }
}

/// The extension of a name that is text is text.
proof fn valid_extension(name: Seq<u8>)
    requires
        valid_utf8(name),
        name.len() > 0,
    ensures
        extension_part(name) matches Some(extension) ==> valid_utf8(extension),
{
    name_in_two_parts(name);
    if let Some(extension) = extension_part(name) {
        let at = stem_part(name).len() as int;
        assert(name[at] == DOT);
        is_char_boundary_iff_not_is_continuation_byte(name, at);
        valid_utf8_split(name, at);
        let rest = name.subrange(at, name.len() as int);
        assert(rest[0] == DOT);
        assert(pop_first_scalar(rest) =~= extension);
    }
}

/// A number in brackets has no dot in it.
proof fn number_has_no_dot(number: nat)
    ensures
        !(" ("@ + decimal(number) + ")"@).contains('.'),
{
    reveal_strlit(" (");
    reveal_strlit(")");
    let mark = " ("@ + decimal(number) + ")"@;
    assert forall|i: int| 0 <= i < mark.len() implies mark[i] != '.' by {
        if 2 <= i < 2 + decimal(number).len() {
            decimal_has_digits(number, i - 2);
        }
    }
}

/// How a move goes: a rename that succeeds is the whole move; one that fails is no failure of the
/// move, but leads to a copy; what was copied is removed at its old place, and nothing else is. A move
/// has succeeded only behind a rename or a removal that did, and has failed only behind a copy or a
/// removal that did not.
pub proof fn moves_fall_back(from: FilePath, to: FilePath, phase: MovePhase, ok: bool)
    ensures
        turn_of(MovePhase::Prepare, ok) == MoveTurn::Next(MovePhase::Rename),
        turn_of(MovePhase::Rename, true) is Moved,
        turn_of(MovePhase::Rename, false) == MoveTurn::Next(MovePhase::Copy),
        turn_of(MovePhase::Copy, true) == MoveTurn::Next(MovePhase::Remove),
        turn_of(phase, ok) is Moved <==> ok && (phase == MovePhase::Rename || phase
            == MovePhase::Remove),
        turn_of(phase, ok) is Fault <==> !ok && (phase == MovePhase::Copy || phase
            == MovePhase::Remove),
        op_of(MovePhase::Prepare, from, to) == (FileOp::MakeParent { of: to }),
        op_of(MovePhase::Rename, from, to) == (FileOp::Rename { from, to }),
        op_of(MovePhase::Copy, from, to) == (FileOp::Copy { from, to }),
        op_of(MovePhase::Remove, from, to) == (FileOp::Remove { path: from }),
{
}

/// Where renames succeed and the first name is free, the files are in place behind five operations:
/// the output at its path, and the input under its own name in the directory for it.
pub proof fn all_goes_well(movers: Seq<Mover>, oks: Seq<bool>)
    requires
        is_run(movers, oks),
        oks.len() == 5,
        movers[0].stage matches MoverStage::Output { phase, .. } && phase == MovePhase::Prepare,
        movers[0].reason is None,
        oks[1] && !oks[2] && oks[4],
    ensures
        movers[5].stage matches MoverStage::Done { dest } && dest@ == joined(
            movers[0].dir@,
            candidate_name(movers[0].input@, 0),
        ),
{
    assert(movers[0].becomes(oks[0], movers[1]));
    assert(movers[1].becomes(oks[1], movers[2]));
    assert(movers[2].becomes(oks[2], movers[3]));
    assert(movers[3].becomes(oks[3], movers[4]));
    assert(movers[4].becomes(oks[4], movers[5]));
}

/// An input that failed for good is where it belongs only behind the writing of the reason, to a file
/// beside it whose name is its own with `.error.txt` behind it.
pub proof fn failed_input_gets_its_reason(before: Mover, ok: bool, after: Mover, op: Option<FileOp>)
    requires
        before.becomes(ok, after),
        before.reason is Some,
        !(before.stage is Done),
        after.stage is Done,
        before.needs(op),
    ensures
        op matches Some(FileOp::Write { path, text }) && {
            &&& path@ == after.stage->Done_dest@ + encode_utf8(".error.txt"@)
            &&& text@ == before.reason->0@
        },
{
}

/// What an error says tells which file is not in place.
pub proof fn errors_tell_the_file(fault: MoveFault)
    ensures
        contains(MoveError::Output(fault).text(), "encoded output"@),
        contains(MoveError::Original(fault).text(), "original"@),
        MoveError::Output(fault).text() != MoveError::Original(fault).text(),
{
    reveal_strlit("failed to move encoded output into place");
    reveal_strlit("failed to move original aside");
    reveal_strlit("failed to move ");
    reveal_strlit("encoded output");
    reveal_strlit("original");
    reveal_strlit(" into place");
    reveal_strlit(" aside");
    contains_what_was_put_in("failed to move "@, "encoded output"@, " into place"@);
    contains_what_was_put_in("failed to move "@, "original"@, " aside"@);
    assert("failed to move "@ + "encoded output"@ + " into place"@
        =~= "failed to move encoded output into place"@);
    assert("failed to move "@ + "original"@ + " aside"@ =~= "failed to move original aside"@);
    assert("failed to move encoded output into place"@.len() != "failed to move original aside"@.len());
}

/// The search for a free name gives up only behind the last number, and no other step can fail to go
/// on.
pub proof fn names_run_out_last(mover: Mover, ok: bool)
    ensures
        !mover.can_go_on(ok) <==> ok && mover.stage == (MoverStage::Choose { attempt: u32::MAX }),
{
}


} // verus!
