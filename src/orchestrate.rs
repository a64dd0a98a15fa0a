use crate::error::SplitError;
use crate::paths::{output_path, output_path_of};
use crate::record::{SplitInfo, SplitView};
use vstd::prelude::*;

verus! {

/// The transcoder that cuts each segment.
pub const TRANSCODER: &'static str = "ffmpeg";

/// The transcoder's arguments that cut `start`..`end` out of `video` into
/// `out` by stream copy.
pub open spec fn transcode_args_of(video: Seq<char>, start: Seq<char>, end: Seq<char>, out: Seq<char>) -> Seq<Seq<char>> {
    seq!["-i"@, video, "-ss"@, start, "-to"@, end, "-c"@, "copy"@, out]
}

/// The transcoder's arguments for one segment, where its output path exists.
pub open spec fn command_of(info: SplitView, video: Seq<char>) -> Option<Seq<Seq<char>>> {
    match output_path_of(video, info.number) {
        Some(out) => Some(transcode_args_of(video, info.start, info.end, out)),
        None => None,
    }
}

/// The transcoder's arguments for every segment, in order; `BadFilename`
/// where some segment's output path does not exist.
pub open spec fn plan_of(infos: Seq<SplitView>, video: Seq<char>) -> Result<Seq<Seq<Seq<char>>>, SplitError> {
    if forall|i: int| 0 <= i < infos.len() ==> (#[trigger] command_of(infos[i], video)) is Some {
        Ok(Seq::new(infos.len(), |i: int| command_of(infos[i], video)->Some_0))
    } else {
        Err(SplitError::BadFilename)
    }
}

/// The transcoder's arguments that cut `start`..`end` out of `video` into
/// `out` by stream copy.
pub fn transcode_args(video: &str, start: &str, end: &str, out: &str) -> (r: Vec<String>)
    ensures
        r.deep_view() == transcode_args_of(video@, start@, end@, out@),
{
    let mut r: Vec<String> = Vec::new();
    r.push(String::from_str("-i"));
    r.push(String::from_str(video));
    r.push(String::from_str("-ss"));
    r.push(String::from_str(start));
    r.push(String::from_str("-to"));
    r.push(String::from_str(end));
    r.push(String::from_str("-c"));
    r.push(String::from_str("copy"));
    r.push(String::from_str(out));
    assert(r.deep_view() =~= transcode_args_of(video@, start@, end@, out@));
    r
}

/// The transcoder's arguments for segment `si` of `video`.
pub fn split_command(si: &SplitInfo, video: &str) -> (res: Result<Vec<String>, SplitError>)
    ensures
        match res {
            Ok(args) => command_of(si@, video@) == Some(args.deep_view()),
            Err(e) => command_of(si@, video@) is None && e == SplitError::BadFilename,
        },
        !video@.contains('.') ==> res is Err,
{
    let out = output_path(video, si.number)?;
    Ok(transcode_args(video, si.start.as_str(), si.end.as_str(), out.as_str()))
}

/// The transcoder's arguments for every segment, in order. Nothing is to be
/// launched where any output path is missing, and nothing where there are
/// no segments.
pub fn plan_splits(infos: &Vec<SplitInfo>, video: &str) -> (res: Result<Vec<Vec<String>>, SplitError>)
    ensures
        match res {
            Ok(v) => plan_of(infos@.map_values(|s: SplitInfo| s@), video@) == Ok::<Seq<Seq<Seq<char>>>, SplitError>(v.deep_view()),
            Err(e) => plan_of(infos@.map_values(|s: SplitInfo| s@), video@) == Err::<Seq<Seq<Seq<char>>>, SplitError>(e),
        },
        res is Ok ==> res->Ok_0.len() == infos.len(),
        infos.len() > 0 && !video@.contains('.') ==> res == Err::<Vec<Vec<String>>, SplitError>(SplitError::BadFilename),
{
    let ghost specs = infos@.map_values(|s: SplitInfo| s@);
    let mut out: Vec<Vec<String>> = Vec::new();
    let mut i: usize = 0;
    while i < infos.len()
        invariant
            i <= infos.len(),
            specs == infos@.map_values(|s: SplitInfo| s@),
            out.len() == i,
            i > 0 ==> video@.contains('.'),
            forall|j: int| 0 <= j < i ==> (#[trigger] command_of(specs[j], video@)) is Some,
            forall|j: int| 0 <= j < i ==> command_of(specs[j], video@) == Some(#[trigger] out@[j].deep_view()),
        decreases infos.len() - i,
    {
        match split_command(&infos[i], video) {
            Ok(args) => {
                out.push(args);
                i = i + 1;
            },
            Err(e) => {
                assert(command_of(specs[i as int], video@) is None);
                return Err(e);
            },
        }
    }
    proof {
        assert(out.deep_view() =~= Seq::new(specs.len(), |k: int| command_of(specs[k], video@)->Some_0));
    }
    Ok(out)
}

/// How one split task ended: its transcoder ran and exited (successfully or
/// not), or could not be launched.
#[derive(Clone, Copy, Debug, PartialEq, Eq, Structural)]
pub enum TaskOutcome {
    Exited { success: bool },
    LaunchFailed,
}

/// What is known after awaiting some of the tasks in order, none of which
/// failed to launch: whether any of them exited unsuccessfully.
#[derive(Clone, Copy, Debug, PartialEq, Eq, Structural)]
pub struct Tally {
    pub failed: bool,
}

/// The state after awaiting one more task: keep awaiting, or abort the run.
#[derive(Clone, Copy, Debug, PartialEq, Eq, Structural)]
pub enum Progress {
    Pending(Tally),
    Aborted(SplitError),
}

impl Tally {
    /// Nothing awaited yet.
    pub fn new() -> (t: Tally)
        ensures
            !t.failed,
    {
        Tally { failed: false }
    }
}

/// The run's result over all task outcomes: a launch failure aborts it;
/// otherwise it succeeds exactly when every transcoder run succeeded.
pub open spec fn verdict_of(outcomes: Seq<TaskOutcome>) -> Result<(), SplitError> {
    if exists|i: int| 0 <= i < outcomes.len() && outcomes[i] == TaskOutcome::LaunchFailed {
        Err(SplitError::LaunchFailure)
    } else if exists|i: int| 0 <= i < outcomes.len() && outcomes[i] == (TaskOutcome::Exited { success: false }) {
        Err(SplitError::SplitFailed)
    } else {
        Ok(())
    }
}

/// Takes in the outcome of the next task awaited.
pub fn observe(t: Tally, o: TaskOutcome) -> (r: Progress)
    ensures
        r == match o {
            TaskOutcome::LaunchFailed => Progress::Aborted(SplitError::LaunchFailure),
            TaskOutcome::Exited { success } => Progress::Pending(Tally { failed: t.failed || !success }),
        },
{
    match o {
        TaskOutcome::LaunchFailed => Progress::Aborted(SplitError::LaunchFailure),
        TaskOutcome::Exited { success } => Progress::Pending(Tally { failed: t.failed || !success }),
    }
}

/// The run's result once every task has been awaited.
pub fn conclude(t: Tally) -> (r: Result<(), SplitError>)
    ensures
        r == if t.failed {
            Err::<(), SplitError>(SplitError::SplitFailed)
        } else {
            Ok::<(), SplitError>(())
        },
{
    if t.failed {
        Err(SplitError::SplitFailed)
    } else {
        Ok(())
    }
}

/// The run's result over the outcomes of all tasks, awaited in order.
pub fn verdict(outcomes: &Vec<TaskOutcome>) -> (r: Result<(), SplitError>)
    ensures
        r == verdict_of(outcomes@),
        r is Ok <==> forall|i: int| 0 <= i < outcomes.len() ==> outcomes@[i] == (TaskOutcome::Exited { success: true }),
{
    let mut t = Tally::new();
    let mut i: usize = 0;
    while i < outcomes.len()
        invariant
            i <= outcomes.len(),
            forall|j: int| 0 <= j < i ==> outcomes@[j] != TaskOutcome::LaunchFailed,
            t.failed <==> exists|j: int| 0 <= j < i && outcomes@[j] == (TaskOutcome::Exited { success: false }),
        decreases outcomes.len() - i,
    {
        match observe(t, outcomes[i]) {
            Progress::Pending(next) => {
                t = next;
                i = i + 1;
            },
            Progress::Aborted(e) => {
                return Err(e);
            },
        }
    }
    conclude(t)
}

} // verus!
