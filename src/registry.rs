//! The registry of jobs by key: starting them, reading their progress, and
//! recording what their stages report.

use vstd::prelude::*;
use vstd::string::*;
use crate::bag::VariableBag;
use crate::keyed::KeyedList;
use crate::pipeline::{
    is_terminal, outcome_event, outcome_spec, plan_spec, plan_stage, running_stage, stage_outcome,
    started_status, status_after, views_of, Job, JobEvent, JobStatus, StagePlan, StageTask,
    StageView,
};
use crate::stages::ChildExit;

verus! {

/// The job a job becomes when it starts.
pub open spec fn started(job: Job) -> Job {
    Job {
        stages: job.stages,
        status: if job.status is Pending {
            started_status(job.stages@.len())
        } else {
            job.status
        },
        bag: job.bag,
    }
}

/// `after` is `before` with the running stage's outcome recorded.
pub open spec fn finished_from(before: Job, after: Job, outcome: Result<VariableBag, String>) -> bool {
    &&& after.wf()
    &&& after.stages == before.stages
    &&& after.status == status_after(before.status, outcome_event(outcome), before.stages@.len())
    &&& after.bag.view() == match (before.status, outcome) {
        (JobStatus::Running { .. }, Ok(vars)) => before.bag.view().union_prefer_right(vars.view()),
        _ => before.bag.view(),
    }
}

/// The keys a query answers for: those asked for that the registry knows, in the
/// order asked.
pub open spec fn known_keys(keys: Seq<String>, jobs: Map<Seq<char>, Job>) -> Seq<Seq<char>>
    decreases keys.len(),
{
    if keys.len() == 0 {
        Seq::empty()
    } else {
        let rest = known_keys(keys.drop_last(), jobs);
        if jobs.contains_key(keys.last()@) {
            rest.push(keys.last()@)
        } else {
            rest
        }
    }
}

/// Every job, by key.
#[derive(Debug, Clone, PartialEq, Eq)]
pub struct JobRegistry {
    pub jobs: KeyedList<Job>,
}

impl JobRegistry {
    pub open spec fn wf(&self) -> bool {
        &&& self.jobs.wf()
        &&& forall|k: Seq<char>| #[trigger] self.jobs.map().contains_key(k) ==> self.jobs.map()[k].wf()
    }

    pub open spec fn view(&self) -> Map<Seq<char>, Job> {
        self.jobs.map()
    }

    pub fn new() -> (r: JobRegistry)
        ensures
            r.wf(),
            r.view() == Map::<Seq<char>, Job>::empty(),
    {
        JobRegistry { jobs: KeyedList::new() }
    }

    /// Registers `job` under `key` and starts it. It fails, changing nothing,
    /// where a job already stands under `key`.
    pub fn start(&mut self, key: String, job: Job) -> (r: Result<(), String>)
        requires
            old(self).wf(),
            job.wf(),
        ensures
            final(self).wf(),
            r is Ok <==> !old(self).view().contains_key(key@),
            r is Ok ==> final(self).view() == old(self).view().insert(key@, started(job)),
            r matches Err(e) ==> final(self).view() == old(self).view() && e@ == "job already exists: "@
                + key@,
    {
        if self.jobs.find(&key).is_some() {
            let e = String::from_str("job already exists: ");
            return Err(e.concat(key.as_str()));
        }
        let ghost given = job;
        let mut job = job;
        job.start();
        assert(job == started(given));
        self.jobs.insert(key, job);
        Ok(())
    }

    /// The stage views of the jobs asked for: of every job where `keys` is empty,
    /// else of each key asked for that the registry knows, in the order asked.
    pub fn query(&self, keys: &Vec<String>) -> (r: Vec<(String, Vec<StageView>)>)
        requires
            self.wf(),
        ensures
            keys@.len() == 0 ==> r@.len() == self.jobs.entries@.len() && forall|i: int|
                0 <= i < r@.len() ==> (#[trigger] r@[i]).0@ == self.jobs.entries@[i].0@ && views_of(
                    self.jobs.entries@[i].1,
                    r@[i].1@,
                ),
            keys@.len() > 0 ==> r@.len() == known_keys(keys@, self.view()).len() && forall|i: int|
                0 <= i < r@.len() ==> (#[trigger] r@[i]).0@ == known_keys(keys@, self.view())[i]
                    && views_of(self.view()[r@[i].0@], r@[i].1@),
    {
        let mut r: Vec<(String, Vec<StageView>)> = Vec::new();
        if keys.len() == 0 {
            let n = self.jobs.entries.len();
            let mut i: usize = 0;
            while i < n
                invariant
                    self.wf(),
                    n == self.jobs.entries@.len(),
                    i <= n,
                    r@.len() == i,
                    forall|j: int|
                        0 <= j < i ==> (#[trigger] r@[j]).0@ == self.jobs.entries@[j].0@ && views_of(
                            self.jobs.entries@[j].1,
                            r@[j].1@,
                        ),
                decreases n - i,
            {
                proof {
                    self.jobs.lemma_entry(i as int);
                }
                let views = self.jobs.entries[i].1.stage_views();
                r.push((self.jobs.entries[i].0.clone(), views));
                i = i + 1;
            }
            return r;
        }
        let mut i: usize = 0;
        while i < keys.len()
            invariant
                self.wf(),
                i <= keys@.len(),
                r@.len() == known_keys(keys@.subrange(0, i as int), self.view()).len(),
                forall|j: int|
                    0 <= j < r@.len() ==> (#[trigger] r@[j]).0@ == known_keys(
                        keys@.subrange(0, i as int),
                        self.view(),
                    )[j] && views_of(self.view()[r@[j].0@], r@[j].1@),
            decreases keys@.len() - i,
        {
            proof {
                assert(keys@.subrange(0, i + 1).drop_last() =~= keys@.subrange(0, i as int));
            }
            match self.jobs.get(&keys[i]) {
                Some(job) => {
                    let views = job.stage_views();
                    r.push((keys[i].clone(), views));
                },
                None => {},
            }
            i = i + 1;
        }
        assert(keys@.subrange(0, keys@.len() as int) =~= keys@);
        r
    }

    /// Records the running stage's progress for the job under `key`. Unknown keys
    /// and finished jobs are left as they are.
    pub fn update_progress(&mut self, key: &String, progress: u32)
        requires
            old(self).wf(),
        ensures
            final(self).wf(),
            !old(self).view().contains_key(key@) ==> final(self).view() == old(self).view(),
            old(self).view().contains_key(key@) ==> final(self).view().contains_key(key@) && final(self).view() == old(self).view().insert(key@, final(self).view()[key@]) && final(self).view()[key@].status == status_after(
                old(self).view()[key@].status,
                JobEvent::Progress(progress),
                old(self).view()[key@].stages@.len(),
            ) && final(self).view()[key@].stages == old(self).view()[key@].stages
                && final(self).view()[key@].bag == old(self).view()[key@].bag,
            old(self).view().contains_key(key@) && is_terminal(old(self).view()[key@].status) ==> final(self).view() == old(self).view(),
    {
        match self.jobs.take(key) {
            None => {},
            Some(job) => {
                let mut job = job;
                job.set_progress(progress);
                self.jobs.insert(key.clone(), job);
                proof {
                    let before = old(self).view();
                    assert(self.view() =~= before.insert(key@, self.view()[key@]));
                    if is_terminal(before[key@].status) {
                        assert(self.view() =~= before);
                    }
                }
            },
        }
    }

    /// The index of the stage that runs now in the job under `key`, and its task
    /// and the job's bag.
    pub fn current_stage(&self, key: &String) -> (r: Option<usize>)
        requires
            self.wf(),
        ensures
            !self.view().contains_key(key@) ==> r is None,
            self.view().contains_key(key@) ==> r == running_stage(self.view()[key@].status),
    {
        match self.jobs.get(key) {
            Some(job) => job.current_stage(),
            None => None,
        }
    }

    /// The task of the stage that runs now in the job under `key`.
    pub open spec fn running_task(&self, key: Seq<char>) -> Option<StageTask> {
        if self.view().contains_key(key) {
            match running_stage(self.view()[key].status) {
                Some(i) => Some(self.view()[key].stages@[i as int].task),
                None => None,
            }
        } else {
            None
        }
    }

    /// What the stage that runs now in the job under `key` does, given the job's
    /// bag; nothing where no stage of it runs.
    pub fn plan_current(&self, key: &String) -> (r: Option<Result<StagePlan, String>>)
        requires
            self.wf(),
        ensures
            r is None <==> self.running_task(key@) is None,
            r matches Some(p) ==> plan_spec(
                key@,
                self.running_task(key@)->Some_0,
                self.view()[key@].bag.view(),
                p,
            ),
    {
        match self.jobs.get(key) {
            None => None,
            Some(job) => match job.current_stage() {
                None => None,
                Some(i) => Some(plan_stage(key.as_str(), &job.stages[i].task, &job.bag)),
            },
        }
    }

    /// The outcome of the stage that runs now in the job under `key`, whose
    /// process ended with `exit`; nothing where no stage of it runs.
    pub fn outcome_current(
        &self,
        key: &String,
        output: Option<String>,
        exit: &ChildExit,
        listing: Result<Vec<(String, String)>, String>,
    ) -> (r: Option<Result<VariableBag, String>>)
        requires
            self.wf(),
        ensures
            r is None <==> self.running_task(key@) is None,
            r matches Some(o) ==> outcome_spec(
                key@,
                self.running_task(key@)->Some_0,
                output,
                *exit,
                listing,
                o,
            ),
    {
        match self.jobs.get(key) {
            None => None,
            Some(job) => match job.current_stage() {
                None => None,
                Some(i) => Some(stage_outcome(key.as_str(), &job.stages[i].task, output, exit, listing)),
            },
        }
    }

    /// The source the stage that runs now in the job under `key` downloads, where
    /// that stage is a download.
    pub fn running_download_url(&self, key: &String) -> (r: Option<String>)
        requires
            self.wf(),
        ensures
            match self.running_task(key@) {
                Some(StageTask::DownloadVideo { url }) => r == Some(url),
                _ => r is None,
            },
    {
        match self.jobs.get(key) {
            None => None,
            Some(job) => match job.current_stage() {
                None => None,
                Some(i) => match &job.stages[i].task {
                    StageTask::DownloadVideo { url } => Some(url.clone()),
                    _ => None,
                },
            },
        }
    }

    /// Records the running stage's outcome for the job under `key`. Unknown keys
    /// are left as they are.
    pub fn finish_stage(&mut self, key: &String, outcome: Result<VariableBag, String>)
        requires
            old(self).wf(),
            outcome matches Ok(vars) ==> vars.wf(),
        ensures
            final(self).wf(),
            !old(self).view().contains_key(key@) ==> final(self).view() == old(self).view(),
            old(self).view().contains_key(key@) ==> final(self).view().contains_key(key@) && final(self).view() == old(self).view().insert(key@, final(self).view()[key@]) && finished_from(
                old(self).view()[key@],
                final(self).view()[key@],
                outcome,
            ),
            old(self).view().contains_key(key@) && is_terminal(old(self).view()[key@].status) ==> final(self).view() == old(self).view(),
    {
        match self.jobs.take(key) {
            None => {},
            Some(job) => {
                let mut job = job;
                job.finish_stage(outcome);
                self.jobs.insert(key.clone(), job);
                proof {
                    let before = old(self).view();
                    assert(self.view() =~= before.insert(key@, self.view()[key@]));
                    if is_terminal(before[key@].status) {
                        assert(self.view() =~= before);
                    }
                }
            },
        }
    }
}

} // verus!
