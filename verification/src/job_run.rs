//! The way of one job: through the encoder, to its files being in place, or to its end in failure.

use vstd::prelude::*;
use vstd::string::*;

use crate::encoder::EncodeError;
use crate::mover::{
    finalize, is_run, output_before_original, output_in_place, suffixed, temp_path, FileOp,
    MovePhase, Mover, MoverStage,
};
use crate::path::FilePath;
use crate::queue::Job;

verus! {

/// How far a job is.
#[derive(Debug)]
pub enum RunStage {
    /// It is being encoded.
    Encoding,
    /// Its files are being put in place.
    Placing { mover: Mover },
    /// It failed, and its temporary file is being removed.
    Cleaning { reason: String },
    /// It ended.
    Ended { result: Result<(), String> },
}

/// A job on its way from the encoder to its end.
#[derive(Debug)]
pub struct JobRun {
    pub temp: FilePath,
    pub stage: RunStage,
}

/// What is to be done for a job.
#[derive(Debug)]
pub enum RunStep {
    /// Encode its input to this path.
    Encode { temp: FilePath },
    /// See to a file.
    File { op: FileOp },
    /// Nothing more.
    End { result: Result<(), String> },
}

/// Starts to see to a job.
pub fn process_job(job: &Job) -> (run: JobRun)
    ensures
        run.temp@ == suffixed(job.output_path@, ".hbtmp"@),
        run.stage is Encoding,
{
    JobRun { temp: temp_path(&job.output_path), stage: RunStage::Encoding }
}

/// The stage of a job whose mover is at this point: it ended well, or failed, or goes on.
pub open spec fn placed(mover: Mover, stage: RunStage) -> bool {
    match mover.stage {
        MoverStage::Done { .. } => stage == (RunStage::Ended { result: Ok(()) }),
        MoverStage::Failed(error) => stage matches RunStage::Cleaning { reason } && reason@
            == error.text(),
        _ => stage == (RunStage::Placing { mover }),
    }
}

/// The stage of a job whose mover is at this point.
fn place(mover: Mover) -> (stage: RunStage)
    ensures
        placed(mover, stage),
{
    match mover.outcome() {
        Some(Ok(_)) => RunStage::Ended { result: Ok(()) },
        Some(Err(error)) => RunStage::Cleaning { reason: error.message() },
        None => RunStage::Placing { mover },
    }
}

impl JobRun {
    /// A job's mover has work left, while there is one.
    pub open spec fn wf(self) -> bool {
        self.stage matches RunStage::Placing { mover } ==> !(mover.stage is Done) && !(
        mover.stage is Failed)
    }

    /// `step` is what is to be done next.
    pub open spec fn needs(self, step: RunStep) -> bool {
        match self.stage {
            RunStage::Encoding => step == (RunStep::Encode { temp: self.temp }),
            RunStage::Placing { mover } => step matches RunStep::File { op } && mover.needs(
                Some(op),
            ),
            RunStage::Cleaning { .. } => step == (RunStep::File {
                op: FileOp::Remove { path: self.temp },
            }),
            RunStage::Ended { result: Ok(()) } => step == (RunStep::End { result: Ok(()) }),
            RunStage::Ended { result: Err(reason) } => step == (RunStep::End {
                result: Err(reason),
            }),
        }
    }

    /// What is to be done next.
    pub fn next_step(&self) -> (step: RunStep)
        requires
            self.wf(),
        ensures
            self.needs(step),
    {
        match &self.stage {
            RunStage::Encoding => RunStep::Encode { temp: self.temp.clone() },
            RunStage::Placing { mover } => match mover.next_op() {
                Some(op) => RunStep::File { op },
                None => {
                    assert(false);
                    RunStep::End { result: Ok(()) }
                },
            },
            RunStage::Cleaning { reason: _ } => RunStep::File {
                op: FileOp::Remove { path: self.temp.clone() },
            },
            RunStage::Ended { result: Ok(()) } => RunStep::End { result: Ok(()) },
            RunStage::Ended { result: Err(reason) } => RunStep::End { result: Err(reason.clone()) },
        }
    }

    /// `after` is this run behind the encode: the files are put in place, or the temporary one is
    /// removed.
    pub open spec fn took(
        self,
        job: Job,
        verdict: Result<(), EncodeError>,
        after: JobRun,
    ) -> bool {
        &&& after.temp == self.temp
        &&& match verdict {
            Ok(()) => {
                &&& after.stage matches RunStage::Placing { mover }
                &&& mover.input == job.input_path
                &&& mover.dir == job.originals_dir
                &&& mover.reason is None
                &&& mover.stage == (MoverStage::Output {
                    temp: self.temp,
                    output: job.output_path,
                    phase: MovePhase::Prepare,
                })
            },
            Err(error) => after.stage matches RunStage::Cleaning { reason } && reason@
                == error.text(),
        }
    }

    /// Takes in how the encode went: the files are put in place, or the temporary one is removed.
    pub fn encoded(self, job: &Job, verdict: Result<(), EncodeError>) -> (after: JobRun)
        requires
            self.stage is Encoding,
        ensures
            after.wf(),
            !(after.stage is Ended),
            self.took(*job, verdict, after),
    {
        let stage: RunStage = match verdict {
            Ok(()) => RunStage::Placing { mover: finalize(job, &self.temp) },
            Err(error) => RunStage::Cleaning { reason: error.message() },
        };
        JobRun { temp: self.temp, stage }
    }

    /// `after` is what follows on how a file operation went. The job's end does not depend on whether
    /// the temporary file could be removed.
    pub open spec fn follows(self, ok: bool, after: JobRun) -> bool {
        &&& after.temp == self.temp
        &&& match self.stage {
            RunStage::Placing { mover } => exists|moved: Mover|
                #[trigger] mover.becomes(ok, moved) && placed(moved, after.stage),
            RunStage::Cleaning { reason } => after.stage == (RunStage::Ended {
                result: Err(reason),
            }),
            _ => after.stage == self.stage,
        }
    }

    /// Whether a file operation's outcome can be taken in: there is a name left to try.
    pub fn goes_on(&self, ok: bool) -> (can: bool)
        ensures
            can == (self.stage matches RunStage::Placing { mover } ==> mover.can_go_on(ok)),
    {
        match &self.stage {
            RunStage::Placing { mover } => mover.goes_on(ok),
            _ => true,
        }
    }

    /// Takes in how a file operation went.
    pub fn reply(self, ok: bool) -> (after: JobRun)
        requires
            self.wf(),
            self.stage matches RunStage::Placing { mover } ==> mover.can_go_on(ok),
        ensures
            after.wf(),
            self.follows(ok, after),
    {
        let JobRun { temp, stage } = self;
        let stage: RunStage = match stage {
            RunStage::Placing { mover } => place(mover.reply(ok)),
            RunStage::Cleaning { reason } => RunStage::Ended { result: Err(reason) },
            RunStage::Encoding => RunStage::Encoding,
            RunStage::Ended { result } => RunStage::Ended { result },
        };
        JobRun { temp, stage }
    }
}

/// A failed job leaves no temporary file behind unasked: it ends in failure only right behind the
/// removal of its temporary file.
pub proof fn failure_cleans_up(before: JobRun, ok: bool, after: JobRun, step: RunStep)
    requires
        before.wf(),
        before.follows(ok, after),
        !(before.stage is Ended),
        after.stage matches RunStage::Ended { result: Err(_) },
        before.needs(step),
    ensures
        step == (RunStep::File { op: FileOp::Remove { path: before.temp } }),
        before.stage matches RunStage::Cleaning { reason } && after.stage == (RunStage::Ended {
            result: Err(reason),
        }),
{
}

/// A job goes on behind a file operation.
pub open spec fn leads_to(run: JobRun, ok: bool, next: JobRun) -> bool {
    &&& !(run.stage is Ended)
    &&& run.follows(ok, next)
    &&& run.stage matches RunStage::Placing { mover } ==> mover.can_go_on(ok)
}

/// A job behind its encode: `runs[k]` stands behind the first `k` file operations, and `oks[k]` is how
/// the next one went.
pub open spec fn is_job_run(runs: Seq<JobRun>, oks: Seq<bool>) -> bool {
    &&& runs.len() == oks.len() + 1
    &&& runs[0].wf()
    &&& forall|k: int| 0 <= k < oks.len() ==> leads_to(runs[k], #[trigger] oks[k], runs[k + 1])
}

/// These movers take a job's files from where its encode ended to their places: the temporary file
/// was moved to the output path, and then the input to where it is kept aside.
pub open spec fn in_place(job: Job, temp: FilePath, movers: Seq<Mover>, oks: Seq<bool>) -> bool {
    &&& is_run(movers, oks)
    &&& movers[0].input == job.input_path
    &&& movers[0].dir == job.originals_dir
    &&& movers[0].reason is None
    &&& movers[0].stage == (MoverStage::Output {
        temp,
        output: job.output_path,
        phase: MovePhase::Prepare,
    })
    &&& movers.last().stage is Done
    &&& output_in_place(movers, oks, oks.len() as int)
}

/// A job is done only where its encode counted, the encoded file stands at its output path, and the
/// original was moved aside behind that.
pub proof fn done_means_in_place(
    start: JobRun,
    job: Job,
    verdict: Result<(), EncodeError>,
    runs: Seq<JobRun>,
    oks: Seq<bool>,
)
    requires
        start.took(job, verdict, runs[0]),
        is_job_run(runs, oks),
        runs.last().stage == (RunStage::Ended { result: Ok(()) }),
    ensures
        verdict is Ok,
        exists|movers: Seq<Mover>| #[trigger] in_place(job, start.temp, movers, oks),
{
    if verdict is Err {
        if oks.len() > 0 {
            assert(leads_to(runs[0], oks[0], runs[1]));
        }
        if oks.len() > 1 {
            assert(leads_to(runs[1], oks[1], runs[2]));
        }
    }
    let movers = movers_of(runs, oks);
    assert(runs[0].stage == (RunStage::Placing { mover: movers[0] }));
    output_before_original(job, start.temp, movers, oks, oks.len() as int);
    assert(in_place(job, start.temp, movers, oks));
}

/// The movers of a job that did not fail.
proof fn movers_of(runs: Seq<JobRun>, oks: Seq<bool>) -> (movers: Seq<Mover>)
    requires
        is_job_run(runs, oks),
        runs[0].stage is Placing,
        runs.last().stage is Placing || runs.last().stage == (RunStage::Ended { result: Ok(()) }),
    ensures
        is_run(movers, oks),
        runs[0].stage == (RunStage::Placing { mover: movers[0] }),
        placed(movers.last(), runs.last().stage),
    decreases oks.len(),
{
    let n = oks.len() as int;
    if n == 0 {
        seq![runs[0].stage->Placing_mover]
    } else {
        let ok = oks[n - 1];
        let before = runs[n - 1];
        assert(leads_to(before, ok, runs[n]));
        let fewer = oks.drop_last();
        let part = runs.drop_last();
        assert(part.last() == before);
        assert(is_job_run(part, fewer)) by {
            assert forall|k: int| 0 <= k < fewer.len() implies leads_to(
                part[k],
                #[trigger] fewer[k],
                part[k + 1],
            ) by {
                assert(leads_to(runs[k], oks[k], runs[k + 1]));
            }
        }
        let movers = movers_of(part, fewer);
        let mover = before.stage->Placing_mover;
        assert(movers.last() == mover);
        let moved = choose|moved: Mover| #[trigger]
            mover.becomes(ok, moved) && placed(moved, runs[n].stage);
        let all = movers.push(moved);
        assert(is_run(all, oks)) by {
            assert forall|k: int| 0 <= k < oks.len() implies {
                &&& all[k].can_go_on(#[trigger] oks[k])
                &&& all[k].becomes(oks[k], all[k + 1])
            } by {
                if k < fewer.len() {
                    assert(fewer[k] == oks[k]);
                    assert(movers[k].becomes(fewer[k], movers[k + 1]));
                }
            }
        }
        assert(all[0] == movers[0]);
        all
    }
}

/// An encode that does not count ends the job in failure behind the removal of its temporary file,
/// however that goes, and for the encoder's reason.
pub proof fn failed_encode_ends_the_job(
    start: JobRun,
    job: Job,
    error: EncodeError,
    run: JobRun,
    step: RunStep,
    ok: bool,
    after: JobRun,
)
    requires
        start.took(job, Err(error), run),
        run.needs(step),
        run.follows(ok, after),
    ensures
        step == (RunStep::File { op: FileOp::Remove { path: start.temp } }),
        after.stage matches RunStage::Ended { result: Err(reason) } && reason@ == error.text(),
{
}

/// A move that fails for good sends the job to the removal of its temporary file, for the mover's
/// reason; one that goes on keeps it going.
pub proof fn failed_move_cleans_up(run: JobRun, ok: bool, after: JobRun)
    requires
        run.stage is Placing,
        run.follows(ok, after),
    ensures
        exists|moved: Mover| #[trigger]
            run.stage->Placing_mover.becomes(ok, moved) && {
                &&& moved.stage is Done <==> after.stage is Ended
                &&& moved.stage is Done ==> after.stage == (RunStage::Ended { result: Ok(()) })
                &&& moved.stage is Failed <==> after.stage is Cleaning
                &&& moved.stage matches MoverStage::Failed(error) ==> after.stage->reason@
                    == error.text()
            },
{
    let moved = choose|moved: Mover| #[trigger]
        run.stage->Placing_mover.becomes(ok, moved) && placed(moved, after.stage);
    assert(run.stage->Placing_mover.becomes(ok, moved));
}

/// A verified encode whose files can be renamed, with the first name free, is done behind five
/// operations.
pub proof fn good_encode_is_done(start: JobRun, job: Job, runs: Seq<JobRun>, oks: Seq<bool>)
    requires
        start.took(job, Ok(()), runs[0]),
        is_job_run(runs, oks),
        oks.len() == 5,
        oks[1] && !oks[2] && oks[4],
    ensures
        runs[5].stage == (RunStage::Ended { result: Ok(()) }),
{
    assert(leads_to(runs[0], oks[0], runs[1]));
    assert(leads_to(runs[1], oks[1], runs[2]));
    assert(leads_to(runs[2], oks[2], runs[3]));
    assert(leads_to(runs[3], oks[3], runs[4]));
    assert(leads_to(runs[4], oks[4], runs[5]));
}

/// What the run of a job asks for is what it is at: it encodes into its own file before anything else
/// and removes that file where it failed, and it ends with what came of it.
pub proof fn steps_fit_the_stage(run: JobRun, step: RunStep)
    requires
        run.wf(),
        run.needs(step),
    ensures
        step is Encode <==> run.stage is Encoding,
        step matches RunStep::Encode { temp } ==> temp@ == run.temp@,
        step is End <==> run.stage is Ended,
        step matches RunStep::End { result } ==> {
            &&& result is Ok <==> run.stage->Ended_result is Ok
            &&& result matches Err(reason) ==> run.stage->Ended_result == Err::<(), String>(reason)
        },
        run.stage is Cleaning ==> {
            &&& step matches RunStep::File { op: FileOp::Remove { path } }
            &&& path@ == run.temp@
        },
        run.stage matches RunStage::Placing { mover } ==> {
            &&& step matches RunStep::File { op }
            &&& mover.needs(Some(op))
        },
{
}


} // verus!
