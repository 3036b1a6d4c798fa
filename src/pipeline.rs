//! A job: an ordered list of stages that share one variable bag, run one at a
//! time, the first failure ending the job.

use vstd::prelude::*;
use vstd::string::*;
use crate::bag::{Value, VariableBag, CUT_VIDEO};
use crate::progress_line::FULL_PROGRESS;
use crate::stages::{
    cut_video, cut_video_finished, cut_video_spec, download_finished_spec, download_video,
    download_video_finished, exit_result, transcode_clip, transcode_clip_finished,
    transcode_clip_spec, views, download_args, ChildExit, ProgressWatch, SplitRequest, StageCommand,
    TranscodeRequest,
};

verus! {

/// The work of one stage, with the request it was built from.
#[derive(Debug, Clone, PartialEq, Eq)]
pub enum StageTask {
    DownloadVideo { url: String },
    CutVideo { output_file_name: String, split: SplitRequest },
    TranscodeClip { request: TranscodeRequest },
}

/// One named stage of a job.
#[derive(Debug, Clone, PartialEq, Eq)]
pub struct Stage {
    pub name: String,
    pub task: StageTask,
}

/// Where a job stands. `Running` and `Failed` name a stage by its index.
#[derive(Debug, Clone, PartialEq, Eq)]
pub enum JobStatus {
    Pending,
    Running { stage: usize, progress: u32 },
    Succeeded,
    Failed { stage: usize, message: String },
}

/// What can happen to a job once it runs.
#[derive(Debug, Clone, PartialEq, Eq)]
pub enum JobEvent {
    /// The running stage reports this much progress.
    Progress(u32),
    /// The running stage succeeded.
    StageSucceeded,
    /// The running stage failed with this message.
    StageFailed(String),
}

pub open spec fn is_terminal(s: JobStatus) -> bool {
    s is Succeeded || s is Failed
}

/// The stage that runs, if any.
pub open spec fn running_stage(s: JobStatus) -> Option<usize> {
    match s {
        JobStatus::Running { stage, .. } => Some(stage),
        _ => None,
    }
}

pub open spec fn capped(p: u32) -> u32 {
    if p > FULL_PROGRESS {
        FULL_PROGRESS
    } else {
        p
    }
}

/// The status of a job that has just started, with `n` stages.
pub open spec fn started_status(n: nat) -> JobStatus {
    if n == 0 {
        JobStatus::Succeeded
    } else {
        JobStatus::Running { stage: 0, progress: 0 }
    }
}

/// The status after one event, for a job of `n` stages. Only a running job
/// changes: a pending or finished job stays as it is.
pub open spec fn status_after(s: JobStatus, e: JobEvent, n: nat) -> JobStatus {
    match s {
        JobStatus::Running { stage, progress } => match e {
            JobEvent::Progress(p) => JobStatus::Running { stage, progress: capped(p) },
            JobEvent::StageSucceeded => if stage + 1 < n {
                JobStatus::Running { stage: (stage + 1) as usize, progress: 0 }
            } else {
                JobStatus::Succeeded
            },
            JobEvent::StageFailed(m) => JobStatus::Failed { stage, message: m },
        },
        _ => s,
    }
}

/// The status after the events in turn.
pub open spec fn status_after_all(s: JobStatus, events: Seq<JobEvent>, n: nat) -> JobStatus
    decreases events.len(),
{
    if events.len() == 0 {
        s
    } else {
        status_after(status_after_all(s, events.drop_last(), n), events.last(), n)
    }
}

/// The event that a stage's outcome is.
pub open spec fn outcome_event(outcome: Result<VariableBag, String>) -> JobEvent {
    match outcome {
        Ok(_) => JobEvent::StageSucceeded,
        Err(m) => JobEvent::StageFailed(m),
    }
}

/// A finished job stays as it is, whatever happens after.
pub proof fn lemma_terminal_stays(s: JobStatus, events: Seq<JobEvent>, n: nat)
    requires
        is_terminal(s),
    ensures
        status_after_all(s, events, n) == s,
    decreases events.len(),
{
    if events.len() > 0 {
        lemma_terminal_stays(s, events.drop_last(), n);
    }
}

/// When a stage fails, the job is failed with that stage's message, no later stage
/// ever runs, and nothing that happens after changes it.
pub proof fn lemma_failure_stops_pipeline(
    n: nat,
    stage: usize,
    progress: u32,
    message: String,
    later: Seq<JobEvent>,
)
    requires
        stage < n,
    ensures
        status_after(JobStatus::Running { stage, progress }, JobEvent::StageFailed(message), n)
            == (JobStatus::Failed { stage, message }),
        forall|k: int|
            0 <= k <= later.len() ==> running_stage(
                #[trigger] status_after_all(JobStatus::Failed { stage, message }, later.subrange(0, k), n),
            ) is None,
        status_after_all(JobStatus::Failed { stage, message }, later, n) == (JobStatus::Failed {
            stage,
            message,
        }),
{
    let failed = JobStatus::Failed { stage, message };
    assert forall|k: int| 0 <= k <= later.len() implies running_stage(
        #[trigger] status_after_all(failed, later.subrange(0, k), n),
    ) is None by {
        lemma_terminal_stays(failed, later.subrange(0, k), n);
    }
    lemma_terminal_stays(failed, later, n);
}

/// How one stage looks from outside.
#[derive(Debug, Clone, PartialEq, Eq)]
pub enum StageState {
    Pending,
    Running,
    Succeeded,
    Failed { message: String },
}

/// A stage's name, state and progress, in ten-thousandths.
#[derive(Debug, Clone, PartialEq, Eq)]
pub struct StageView {
    pub name: String,
    pub state: StageState,
    pub progress: u32,
}

/// The state and progress of stage `i` of a job in status `s`.
pub open spec fn stage_state(s: JobStatus, i: int) -> (StageState, u32) {
    match s {
        JobStatus::Pending => (StageState::Pending, 0),
        JobStatus::Running { stage, progress } => if i < stage {
            (StageState::Succeeded, FULL_PROGRESS)
        } else if i == stage {
            (StageState::Running, progress)
        } else {
            (StageState::Pending, 0)
        },
        JobStatus::Succeeded => (StageState::Succeeded, FULL_PROGRESS),
        JobStatus::Failed { stage, message } => if i < stage {
            (StageState::Succeeded, FULL_PROGRESS)
        } else if i == stage {
            (StageState::Failed { message }, 0)
        } else {
            (StageState::Pending, 0)
        },
    }
}

/// A job: its stages in order, where it stands, and the bag its stages share.
#[derive(Debug, Clone, PartialEq, Eq)]
pub struct Job {
    pub stages: Vec<Stage>,
    pub status: JobStatus,
    pub bag: VariableBag,
}

pub open spec fn status_wf(s: JobStatus, n: nat) -> bool {
    match s {
        JobStatus::Running { stage, progress } => stage < n && progress <= FULL_PROGRESS,
        JobStatus::Failed { stage, .. } => stage < n,
        _ => true,
    }
}

/// The views of a job's stages, one per stage.
pub open spec fn views_of(job: Job, v: Seq<StageView>) -> bool {
    &&& v.len() == job.stages@.len()
    &&& forall|i: int|
        0 <= i < v.len() ==> (#[trigger] v[i]).name@ == job.stages@[i].name@ && (v[i].state, v[i].progress)
            == stage_state(job.status, i)
}

impl Job {
    pub open spec fn wf(&self) -> bool {
        self.bag.wf() && status_wf(self.status, self.stages@.len())
    }

    /// A job that has not started, over these stages and this bag.
    pub fn new(stages: Vec<Stage>, bag: VariableBag) -> (r: Job)
        requires
            bag.wf(),
        ensures
            r.wf(),
            r.stages == stages,
            r.bag == bag,
            r.status is Pending,
    {
        Job { stages, status: JobStatus::Pending, bag }
    }

    /// Begins the job: its first stage runs, or it has succeeded where it has none.
    pub fn start(&mut self)
        requires
            old(self).wf(),
        ensures
            final(self).wf(),
            final(self).stages == old(self).stages,
            final(self).bag == old(self).bag,
            final(self).status == if old(self).status is Pending {
                started_status(old(self).stages@.len())
            } else {
                old(self).status
            },
    {
        if let JobStatus::Pending = self.status {
            self.status = if self.stages.len() == 0 {
                JobStatus::Succeeded
            } else {
                JobStatus::Running { stage: 0, progress: 0 }
            };
        }
    }

    /// The index of the stage that runs now.
    pub fn current_stage(&self) -> (r: Option<usize>)
        ensures
            r == running_stage(self.status),
    {
        match self.status {
            JobStatus::Running { stage, .. } => Some(stage),
            _ => None,
        }
    }

    /// Records the running stage's progress; a job that is not running is left as
    /// it is.
    pub fn set_progress(&mut self, progress: u32)
        requires
            old(self).wf(),
        ensures
            final(self).wf(),
            final(self).stages == old(self).stages,
            final(self).bag == old(self).bag,
            final(self).status == status_after(
                old(self).status,
                JobEvent::Progress(progress),
                old(self).stages@.len(),
            ),
            is_terminal(old(self).status) ==> *final(self) == *old(self),
    {
        if let JobStatus::Running { stage, .. } = self.status {
            let p = if progress > FULL_PROGRESS {
                FULL_PROGRESS
            } else {
                progress
            };
            self.status = JobStatus::Running { stage, progress: p };
        }
    }

    /// Records the running stage's outcome. On success what it produced joins the
    /// bag and the next stage runs, or the job has succeeded after its last stage;
    /// on failure the job has failed with the stage's message. A job that is not
    /// running is left as it is.
    pub fn finish_stage(&mut self, outcome: Result<VariableBag, String>)
        requires
            old(self).wf(),
            outcome matches Ok(vars) ==> vars.wf(),
        ensures
            final(self).wf(),
            final(self).stages == old(self).stages,
            final(self).status == status_after(
                old(self).status,
                outcome_event(outcome),
                old(self).stages@.len(),
            ),
            final(self).bag.view() == match (old(self).status, outcome) {
                (JobStatus::Running { .. }, Ok(vars)) => old(self).bag.view().union_prefer_right(
                    vars.view(),
                ),
                _ => old(self).bag.view(),
            },
            is_terminal(old(self).status) ==> *final(self) == *old(self),
    {
        if let JobStatus::Running { stage, .. } = self.status {
            let n = self.stages.len();
            assert(stage < n);
            match outcome {
                Ok(vars) => {
                    self.bag.merge(vars);
                    self.status = if stage + 1 < n {
                        JobStatus::Running { stage: stage + 1, progress: 0 }
                    } else {
                        JobStatus::Succeeded
                    };
                },
                Err(message) => {
                    self.status = JobStatus::Failed { stage, message };
                },
            }
        }
    }

    /// The view of every stage, in order.
    pub fn stage_views(&self) -> (r: Vec<StageView>)
        requires
            self.wf(),
        ensures
            views_of(*self, r@),
    {
        let mut r: Vec<StageView> = Vec::new();
        let n = self.stages.len();
        let mut i: usize = 0;
        while i < n
            invariant
                n == self.stages@.len(),
                i <= n,
                r@.len() == i,
                forall|j: int|
                    0 <= j < i ==> (#[trigger] r@[j]).name@ == self.stages@[j].name@ && (
                        r@[j].state,
                        r@[j].progress,
                    ) == stage_state(self.status, j),
            decreases n - i,
        {
            let (state, progress) = match &self.status {
                JobStatus::Pending => (StageState::Pending, 0),
                JobStatus::Running { stage, progress } => {
                    if i < *stage {
                        (StageState::Succeeded, FULL_PROGRESS)
                    } else if i == *stage {
                        (StageState::Running, *progress)
                    } else {
                        (StageState::Pending, 0)
                    }
                },
                JobStatus::Succeeded => (StageState::Succeeded, FULL_PROGRESS),
                JobStatus::Failed { stage, message } => {
                    if i < *stage {
                        (StageState::Succeeded, FULL_PROGRESS)
                    } else if i == *stage {
                        (StageState::Failed { message: message.clone() }, 0)
                    } else {
                        (StageState::Pending, 0)
                    }
                },
            };
            r.push(StageView { name: self.stages[i].name.clone(), state, progress });
            i = i + 1;
        }
        r
    }
}

/// What a stage does when its turn comes.
#[derive(Debug, Clone, PartialEq, Eq)]
pub enum StagePlan {
    /// Run this process. `output` is the file it writes, where the stage's end
    /// needs it.
    Run { command: StageCommand, output: Option<String> },
    /// Nothing to run: the stage has succeeded, leaving nothing.
    Done,
}

/// What `plan_stage` gives for a stage of the job `key`, over the job's bag.
pub open spec fn plan_spec(
    key: Seq<char>,
    task: StageTask,
    bag: Map<Seq<char>, Value>,
    r: Result<StagePlan, String>,
) -> bool {
    match task {
        StageTask::DownloadVideo { url } => r matches Ok(StagePlan::Run { command, output })
            && output is None && views(command.exe_and_args@) == download_args(key, url@)
            && command.watch == ProgressWatch::Downloader,
        StageTask::CutVideo { output_file_name, split } => match r {
            Ok(StagePlan::Run { command, output: Some(o) }) => cut_video_spec(
                bag,
                output_file_name@,
                split,
                Ok((command, o)),
            ),
            Err(m) => cut_video_spec(bag, output_file_name@, split, Err(m)),
            _ => false,
        },
        StageTask::TranscodeClip { request } => match r {
            Ok(StagePlan::Run { command, output: None }) => transcode_clip_spec(
                bag,
                request,
                Ok(Some(command)),
            ),
            Ok(StagePlan::Done) => transcode_clip_spec(bag, request, Ok(None)),
            Err(m) => transcode_clip_spec(bag, request, Err(m)),
            _ => false,
        },
    }
}

/// What a stage of the job `key` does, given what earlier stages left in the bag.
pub fn plan_stage(key: &str, task: &StageTask, bag: &VariableBag) -> (r: Result<StagePlan, String>)
    requires
        bag.wf(),
    ensures
        plan_spec(key@, *task, bag.view(), r),
{
    match task {
        StageTask::DownloadVideo { url } => {
            Ok(StagePlan::Run { command: download_video(key, url.as_str()), output: None })
        },
        StageTask::CutVideo { output_file_name, split } => {
            match cut_video(bag, output_file_name.as_str(), split) {
                Ok((command, out)) => Ok(StagePlan::Run { command, output: Some(out) }),
                Err(m) => Err(m),
            }
        },
        StageTask::TranscodeClip { request } => {
            match transcode_clip(bag, request) {
                Ok(Some(command)) => Ok(StagePlan::Run { command, output: None }),
                Ok(None) => Ok(StagePlan::Done),
                Err(m) => Err(m),
            }
        },
    }
}

/// What `stage_outcome` gives for the end of a stage's process.
pub open spec fn outcome_spec(
    key: Seq<char>,
    task: StageTask,
    output: Option<String>,
    exit: ChildExit,
    listing: Result<Vec<(String, String)>, String>,
    r: Result<VariableBag, String>,
) -> bool {
    &&& r matches Ok(bag) ==> bag.wf()
    &&& match task {
        StageTask::DownloadVideo { .. } => download_finished_spec(key, exit, listing, r),
        StageTask::CutVideo { .. } => match output {
            None => r matches Err(m) && m@ == "Failed to find input file"@,
            Some(o) => {
                &&& exit_result(exit) matches Err(e) ==> (r matches Err(m) && m@ == e)
                &&& exit_result(exit) is Ok ==> (r matches Ok(bag) && bag.view() == map![CUT_VIDEO@ => Value::Path(o)])
            },
        },
        StageTask::TranscodeClip { .. } => {
            &&& exit_result(exit) matches Err(e) ==> (r matches Err(m) && m@ == e)
            &&& exit_result(exit) is Ok ==> (r matches Ok(bag) && bag.view() == Map::<
                Seq<char>,
                Value,
            >::empty())
        },
    }
}

/// The outcome of a stage of the job `key` whose process ended with `exit`.
/// `output` is the file the plan named, which the cut stage needs; `listing` is
/// the working directory's entries, which only the download stage reads.
pub fn stage_outcome(
    key: &str,
    task: &StageTask,
    output: Option<String>,
    exit: &ChildExit,
    listing: Result<Vec<(String, String)>, String>,
) -> (r: Result<VariableBag, String>)
    ensures
        outcome_spec(key@, *task, output, *exit, listing, r),
{
    match task {
        StageTask::DownloadVideo { .. } => {
            let r = download_video_finished(key, exit, listing);
            r
        },
        StageTask::CutVideo { .. } => match output {
            Some(o) => cut_video_finished(exit, o),
            None => Err(String::from_str("Failed to find input file")),
        },
        StageTask::TranscodeClip { .. } => transcode_clip_finished(exit),
    }
}

} // verus!
