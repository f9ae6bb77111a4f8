//! Synchronising many projects with a bounded number of workers.
//!
//! The projects to synchronise wait in one queue. Each worker asks the pool
//! for work, brings the project it gets in line, reports the result and asks
//! again, until the queue is empty and the worker retires. No project is
//! handed out twice and none is left behind, however many workers there are
//! and however they take turns; a project that fails does not keep the others
//! from being attempted.

pub mod laws;
pub mod model;
pub mod queue;

use vstd::prelude::*;
use vstd::string::*;
use crossbeam::queue::SegQueue;
use crate::config::project::{Project, ProjectView};
use crate::config::Config;
use crate::errors::{AppError, ErrorView};
use crate::names::NameSet;
use crate::sync::laws::{law_fresh_is_consistent, law_record_keeps_consistent, law_take_keeps_consistent};
use crate::sync::model::{first_error, fresh, numbers, HandoutView, JobState, PoolView};
use crate::sync::queue::{queue_new, queue_pop, queue_push, queued};

verus! {

/// A result as plain values.
pub open spec fn result_view(result: Result<(), AppError>) -> Result<(), ErrorView> {
    match result {
        Ok(_) => Ok(()),
        Err(e) => Err(e@),
    }
}

/// A copy of a result.
pub fn clone_result(result: &Result<(), AppError>) -> (copy: Result<(), AppError>)
    ensures
        result_view(copy) == result_view(*result),
{
    match result {
        Ok(_) => Ok(()),
        Err(e) => Err(e.clone()),
    }
}

/// Where one job stands.
#[derive(Debug)]
pub enum JobStatus {
    Waiting,
    Running(usize),
    Done(Result<(), AppError>),
}

impl View for JobStatus {
    type V = JobState;

    open spec fn view(&self) -> JobState {
        match self {
            JobStatus::Waiting => JobState::Waiting,
            JobStatus::Running(w) => JobState::Running(*w as int),
            JobStatus::Done(r) => JobState::Done(result_view(*r)),
        }
    }
}

/// What a worker gets when it asks for work.
#[derive(Debug)]
pub enum Handout {
    /// A project to bring in line, and its number.
    Job { index: usize, project: Project },
    /// Nothing is left: the worker retires.
    Retire,
    /// The worker is unknown, has retired or still holds a job.
    Refused,
}

impl View for Handout {
    type V = HandoutView;

    open spec fn view(&self) -> HandoutView {
        match self {
            Handout::Job { index, project } => HandoutView::Job(*index as int),
            Handout::Retire => HandoutView::Retire,
            Handout::Refused => HandoutView::Refused,
        }
    }
}

/// The projects of a list as plain values.
pub open spec fn projects_view(list: Seq<Project>) -> Seq<ProjectView> {
    list.map_values(|p: Project| p@)
}

/// Whether `project` has one of the tags `wanted`; with no tag wanted, every
/// project has.
pub open spec fn wanted(project: Project, filter: NameSet) -> bool {
    filter@.len() == 0 || (project.tags matches Some(tags) && exists|x: Seq<char>|
        tags.has(x) && filter.has(x))
}

/// Whether `project` has one of the tags `filter`; with an empty filter every
/// project has.
pub fn is_wanted(project: &Project, filter: &NameSet) -> (yes: bool)
    ensures
        yes == wanted(*project, *filter),
{
    if filter.is_empty() {
        return true;
    }
    match &project.tags {
        Some(tags) => tags.intersects(filter),
        None => false,
    }
}

/// Those of `projects` that are wanted under `filter`, in their order.
pub open spec fn chosen(projects: Seq<Project>, filter: NameSet) -> Seq<Project>
    decreases projects.len(),
{
    if projects.len() == 0 {
        Seq::empty()
    } else if wanted(projects.last(), filter) {
        chosen(projects.drop_last(), filter).push(projects.last())
    } else {
        chosen(projects.drop_last(), filter)
    }
}

/// The projects of `config` that have one of the tags `filter`, in order of
/// their names; all projects where the filter is empty.
pub fn select_projects(config: &Config, filter: &NameSet) -> (jobs: Vec<Project>)
    ensures
        projects_view(jobs@) == projects_view(chosen(config.projects.values(), *filter)),
{
    let mut jobs: Vec<Project> = Vec::new();
    let mut i: usize = 0;
    let n = config.projects.len();
    assert(config.projects.values().take(0) =~= Seq::<Project>::empty());
    assert(projects_view(jobs@) =~= projects_view(Seq::<Project>::empty()));
    while i < n
        invariant
            i <= n,
            n == config.projects.values().len(),
            n == config.projects.names().len(),
            projects_view(jobs@) == projects_view(
                chosen(config.projects.values().take(i as int), *filter),
            ),
        decreases n - i,
    {
        let project = config.projects.value_at(i);
        let ghost upto = config.projects.values().take(i + 1);
        proof {
            assert(upto.last() == *project);
            assert(upto.drop_last() =~= config.projects.values().take(i as int));
        }
        if is_wanted(project, filter) {
            let ghost before = projects_view(jobs@);
            let ghost picked = chosen(config.projects.values().take(i as int), *filter);
            jobs.push(project.clone());
            assert(projects_view(jobs@) =~= before.push(project@));
            assert(projects_view(picked.push(*project)) =~= projects_view(picked).push(project@));
        }
        i += 1;
    }
    assert(config.projects.values().take(n as int) =~= config.projects.values());
    jobs
}

/// The numbers of a list as integers.
pub open spec fn ints(list: Seq<usize>) -> Seq<int> {
    list.map_values(|j: usize| j as int)
}

/// The optional numbers of a list as integers.
pub open spec fn opt_ints(list: Seq<Option<usize>>) -> Seq<Option<int>> {
    list.map_values(
        |j: Option<usize>|
            match j {
                Some(n) => Some(n as int),
                None => None,
            },
    )
}

/// The states of a list as plain values.
pub open spec fn states_view(list: Seq<JobStatus>) -> Seq<JobState> {
    list.map_values(|s: JobStatus| s@)
}

/// The results of a list as plain values.
pub open spec fn results_view(list: Seq<Result<(), AppError>>) -> Seq<Result<(), ErrorView>> {
    list.map_values(|r: Result<(), AppError>| result_view(r))
}

/// The first failure of `results`, or success.
pub fn fold_results(results: &Vec<Result<(), AppError>>) -> (verdict: Result<(), AppError>)
    ensures
        result_view(verdict) == first_error(results_view(results@)),
{
    let mut i: usize = results.len();
    let mut verdict: Result<(), AppError> = Ok(());
    let ghost all = results_view(results@);
    assert(all.skip(i as int) =~= Seq::<Result<(), ErrorView>>::empty());
    while i > 0
        invariant
            i <= results.len(),
            all == results_view(results@),
            result_view(verdict) == first_error(all.skip(i as int)),
        decreases i,
    {
        i -= 1;
        proof {
            let now = all.skip(i as int);
            assert(now.drop_first() =~= all.skip(i + 1));
            assert(now[0] == result_view(results@[i as int]));
        }
        if results[i].is_err() {
            verdict = clone_result(&results[i]);
        }
    }
    assert(all.skip(0) =~= all);
    verdict
}

/// The tallies of the workers `order`, in that order.
pub open spec fn tallies_of(order: Seq<usize>, tally: Seq<Result<(), AppError>>) -> Seq<
    Result<(), ErrorView>,
> {
    Seq::new(order.len(), |k: int| result_view(tally[order[k] as int]))
}

/// A pool of workers and the projects it was given. The projects that wait
/// stand in one queue, by their numbers; the workers that have retired stand
/// in another, by theirs, in the order in which they retired.
#[derive(Debug)]
pub struct Pool {
    jobs: Vec<Project>,
    pending: SegQueue<usize>,
    state: Vec<JobStatus>,
    running: Vec<Option<usize>>,
    retired: Vec<bool>,
    tally: Vec<Result<(), AppError>>,
    outcomes: SegQueue<usize>,
}

impl View for Pool {
    type V = PoolView;

    closed spec fn view(&self) -> PoolView {
        PoolView {
            jobs: projects_view(self.jobs@),
            pending: ints(queued(self.pending)),
            state: states_view(self.state@),
            running: opt_ints(self.running@),
            retired: self.retired@,
            tally: results_view(self.tally@),
            outcomes: tallies_of(queued(self.outcomes), self.tally@),
        }
    }
}

/// Whether `order` holds none but workers that have retired.
pub open spec fn all_retired(order: Seq<usize>, retired: Seq<bool>) -> bool {
    forall|k: int| 0 <= k < order.len() ==> (#[trigger] order[k]) < retired.len() && retired[order[k] as int]
}

impl Pool {
    /// The books of every pool agree, and the queue of those that have
    /// retired holds none but workers that have.
    #[verifier::type_invariant]
    spec fn sound(&self) -> bool {
        self@.consistent() && all_retired(queued(self.outcomes), self.retired@)
    }

    /// A pool of `workers` workers for `jobs`: every job waits, in the order
    /// of the list.
    pub fn new(jobs: Vec<Project>, workers: usize) -> (pool: Pool)
        ensures
            pool@ == fresh(projects_view(jobs@), workers as nat),
    {
        let mut pending = queue_new();
        let mut state: Vec<JobStatus> = Vec::new();
        let mut i: usize = 0;
        while i < jobs.len()
            invariant
                i <= jobs.len(),
                state.len() == i,
                queued(pending).len() == i,
                forall|k: int| 0 <= k < i ==> queued(pending)[k] == k,
                forall|k: int| 0 <= k < i ==> state@[k] is Waiting,
            decreases jobs.len() - i,
        {
            queue_push(&mut pending, i);
            state.push(JobStatus::Waiting);
            i += 1;
        }
        let mut running: Vec<Option<usize>> = Vec::new();
        let mut retired: Vec<bool> = Vec::new();
        let mut tally: Vec<Result<(), AppError>> = Vec::new();
        let mut w: usize = 0;
        while w < workers
            invariant
                w <= workers,
                running.len() == w,
                retired.len() == w,
                tally.len() == w,
                forall|k: int| 0 <= k < w ==> running@[k] is None,
                forall|k: int| 0 <= k < w ==> !retired@[k],
                forall|k: int| 0 <= k < w ==> tally@[k] is Ok,
            decreases workers - w,
        {
            running.push(None);
            retired.push(false);
            tally.push(Ok(()));
            w += 1;
        }
        let outcomes = queue_new();
        proof {
            let target = fresh(projects_view(jobs@), workers as nat);
            assert(ints(queued(pending)) =~= target.pending);
            assert(states_view(state@) =~= target.state);
            assert(opt_ints(running@) =~= target.running);
            assert(retired@ =~= target.retired);
            assert(results_view(tally@) =~= target.tally);
            assert(tallies_of(queued(outcomes), tally@) =~= target.outcomes);
            law_fresh_is_consistent(projects_view(jobs@), workers as nat);
        }
        Pool { jobs, pending, state, running, retired, tally, outcomes }
    }

    /// The number of jobs.
    pub fn len(&self) -> (n: usize)
        ensures
            n == self@.jobs.len(),
    {
        self.jobs.len()
    }

    /// The number of workers.
    pub fn workers(&self) -> (n: usize)
        ensures
            n == self@.workers(),
    {
        self.running.len()
    }

    /// Whether every worker has retired.
    pub fn is_complete(&self) -> (done: bool)
        ensures
            done == self@.complete(),
            done && self@.workers() >= 1 ==> forall|j: int|
                0 <= j < self@.jobs.len() ==> (#[trigger] self@.state[j]) is Done,
    {
        proof {
            use_type_invariant(self);
            if self@.complete() && self@.workers() >= 1 {
                assert forall|j: int| 0 <= j < self@.jobs.len() implies (
                #[trigger] self@.state[j]) is Done by {
                    crate::sync::laws::law_every_job_attempted(self@, j);
                }
            }
        }
        let mut w: usize = 0;
        while w < self.retired.len()
            invariant
                w <= self.retired.len(),
                forall|k: int| 0 <= k < w ==> self.retired@[k],
            decreases self.retired.len() - w,
        {
            if !self.retired[w] {
                assert(!self@.retired[w as int]);
                return false;
            }
            w += 1;
        }
        true
    }

    /// The result of job `index`, once it has been attempted.
    pub fn result_of(&self, index: usize) -> (result: Option<Result<(), AppError>>)
        ensures
            match result {
                Some(r) => index < self@.state.len() && self@.state[index as int]
                    == JobState::Done(result_view(r)),
                None => index >= self@.state.len() || !(self@.state[index as int] is Done),
            },
    {
        if index >= self.state.len() {
            return None;
        }
        match &self.state[index] {
            JobStatus::Done(r) => Some(clone_result(r)),
            _ => None,
        }
    }

    /// What the run comes to so far: the first failure among the workers
    /// that have retired, in the order in which they retired, or success.
    /// Once every worker has retired this is a failure exactly when some
    /// project failed. The pool stays as it is: the workers that have retired
    /// are taken from their queue one by one, and put back in their order.
    pub fn verdict(&mut self) -> (verdict: Result<(), AppError>)
        ensures
            final(self)@ == old(self)@,
            result_view(verdict) == old(self)@.verdict(),
            old(self)@.complete() ==> (verdict is Err <==> old(self)@.some_job_failed()),
    {
        proof {
            use_type_invariant(&*self);
            if self@.complete() {
                crate::sync::laws::law_verdict(self@);
            }
        }
        let ghost before = self@;
        let mut taken = Pool::new(Vec::new(), 0);
        core::mem::swap(self, &mut taken);
        let Pool { jobs, pending, state, running, retired, tally, outcomes } = taken;
        let mut outcomes = outcomes;
        let ghost order = queued(outcomes);
        let mut seen: Vec<usize> = Vec::new();
        let mut next = queue_pop(&mut outcomes);
        assert(seen@ =~= Seq::<usize>::empty());
        while next.is_some()
            invariant
                match next {
                    Some(w) => seen@.push(w) + queued(outcomes) == order,
                    None => seen@ == order && queued(outcomes).len() == 0,
                },
            decreases
                queued(outcomes).len() + (if next is Some {
                    1int
                } else {
                    0int
                }),
        {
            let ghost sofar = seen@;
            let ghost waiting = queued(outcomes);
            let w = next.unwrap();
            seen.push(w);
            next = queue_pop(&mut outcomes);
            proof {
                if waiting.len() == 0 {
                    assert(sofar.push(w) + waiting =~= sofar.push(w));
                } else {
                    assert(seen@.push(waiting[0]) + waiting.drop_first() =~= sofar.push(w)
                        + waiting);
                }
            }
        }
        let mut results: Vec<Result<(), AppError>> = Vec::new();
        let mut i: usize = 0;
        assert(queued(outcomes) =~= seen@.take(0));
        assert(results_view(results@) =~= tallies_of(seen@.take(0), tally@));
        while i < seen.len()
            invariant
                i <= seen.len(),
                seen@ == order,
                all_retired(order, retired@),
                retired@.len() == tally@.len(),
                queued(outcomes) == seen@.take(i as int),
                results_view(results@) == tallies_of(seen@.take(i as int), tally@),
            decreases seen.len() - i,
        {
            let w = seen[i];
            let ghost sofar = results_view(results@);
            assert(order[i as int] < retired@.len());
            queue_push(&mut outcomes, w);
            results.push(clone_result(&tally[w]));
            proof {
                assert(seen@.take(i + 1) =~= seen@.take(i as int).push(w));
                assert(results_view(results@) =~= sofar.push(result_view(tally@[w as int])));
                assert(tallies_of(seen@.take(i + 1), tally@) =~= sofar.push(
                    result_view(tally@[w as int]),
                ));
            }
            i += 1;
        }
        assert(seen@.take(seen@.len() as int) =~= seen@);
        let verdict = fold_results(&results);
        *self = Pool { jobs, pending, state, running, retired, tally, outcomes };
        verdict
    }

    /// Worker `worker` asks for work. It gets the job at the head of the
    /// queue; where the queue is empty it retires; a worker that is unknown,
    /// has retired or still holds a job is refused and nothing changes.
    pub fn take(&mut self, worker: usize) -> (handout: Handout)
        ensures
            (final(self)@, handout@) == old(self)@.take(worker as int),
            handout matches Handout::Job { index, project } ==> index < old(self)@.jobs.len()
                && project@ == old(self)@.jobs[index as int],
    {
        proof {
            use_type_invariant(&*self);
        }
        if worker >= self.running.len() || self.retired[worker] || self.running[worker].is_some() {
            return Handout::Refused;
        }
        let ghost before = self@;
        let mut taken = Pool::new(Vec::new(), 0);
        core::mem::swap(self, &mut taken);
        let Pool { jobs, pending, state, running, retired, tally, outcomes } = taken;
        let mut pending = pending;
        let mut state = state;
        let mut running = running;
        let mut retired = retired;
        let mut outcomes = outcomes;
        let ghost order = queued(outcomes);
        let popped = queue_pop(&mut pending);
        let handout = match popped {
            None => {
                retired.set(worker, true);
                queue_push(&mut outcomes, worker);
                Handout::Retire
            },
            Some(index) => {
                assert(before.pending[0] == index as int);
                assert(index < state.len());
                state.set(index, JobStatus::Running(worker));
                running.set(worker, Some(index));
                Handout::Job { index, project: jobs[index].clone() }
            },
        };
        proof {
            let target = before.take(worker as int).0;
            assert(ints(queued(pending)) =~= target.pending);
            assert(states_view(state@) =~= target.state);
            assert(opt_ints(running@) =~= target.running);
            assert(retired@ =~= target.retired);
            assert(results_view(tally@) =~= target.tally);
            assert(tallies_of(queued(outcomes), tally@) =~= target.outcomes);
            law_take_keeps_consistent(before, worker as int);
            assert(all_retired(queued(outcomes), retired@)) by {
                assert forall|k: int| 0 <= k < queued(outcomes).len() implies (
                #[trigger] queued(outcomes)[k]) < retired@.len() && retired@[queued(
                    outcomes,
                )[k] as int] by {
                    if k < order.len() {
                        assert(queued(outcomes)[k] == order[k]);
                    }
                }
            }
        }
        *self = Pool { jobs, pending, state, running, retired, tally, outcomes };
        handout
    }

    /// Worker `worker` reports `result` for the job it holds; says whether
    /// it held one. The result is recorded for that job, the worker is free
    /// again, and its tally keeps the first failure it has seen.
    pub fn record(&mut self, worker: usize, result: Result<(), AppError>) -> (held: bool)
        ensures
            held == old(self)@.busy(worker as int),
            final(self)@ == old(self)@.record(worker as int, result_view(result)),
    {
        proof {
            use_type_invariant(&*self);
        }
        if worker >= self.running.len() {
            return false;
        }
        let index = match self.running[worker] {
            Some(index) => index,
            None => {
                return false;
            },
        };
        let ghost before = self@;
        let mut taken = Pool::new(Vec::new(), 0);
        core::mem::swap(self, &mut taken);
        let Pool { jobs, pending, state, running, retired, tally, outcomes } = taken;
        let mut state = state;
        let mut running = running;
        let mut tally = tally;
        assert(before.running[worker as int] == Some(index as int));
        assert(index < state.len());
        if tally[worker].is_ok() {
            tally.set(worker, clone_result(&result));
        }
        state.set(index, JobStatus::Done(result));
        running.set(worker, None);
        proof {
            let target = before.record(worker as int, result_view(result));
            assert(ints(queued(pending)) =~= target.pending);
            assert(states_view(state@) =~= target.state);
            assert(opt_ints(running@) =~= target.running);
            assert(retired@ =~= target.retired);
            assert(results_view(tally@) =~= target.tally);
            assert(tallies_of(queued(outcomes), tally@) =~= target.outcomes) by {
                assert(!before.retired[worker as int]);
                assert forall|k: int| 0 <= k < queued(outcomes).len() implies (
                #[trigger] queued(outcomes)[k]) != worker by {
                    assert(retired@[queued(outcomes)[k] as int]);
                }
            }
            law_record_keeps_consistent(before, worker as int, result_view(result));
        }
        *self = Pool { jobs, pending, state, running, retired, tally, outcomes };
        true
    }
}

/// Sets up the synchronisation of the projects of the configuration that
/// have one of the tags `tags`, or of all projects where `tags` is empty,
/// with `worker` workers. A configuration that could not be read is the
/// error of the whole run.
pub fn synchronize(maybe_config: Result<Config, AppError>, tags: &NameSet, worker: i32) -> (pool:
    Result<Pool, AppError>)
    ensures
        match maybe_config {
            Ok(config) => pool matches Ok(p) && p@ == fresh(
                projects_view(chosen(config.projects.values(), *tags)),
                (if worker > 0 {
                    worker as nat
                } else {
                    0nat
                }),
            ),
            Err(e) => pool matches Err(f) && f@ == e@,
        },
{
    let config = match maybe_config {
        Ok(config) => config,
        Err(e) => {
            return Err(e);
        },
    };
    let jobs = select_projects(&config, tags);
    let workers: usize = if worker > 0 {
        worker as usize
    } else {
        0
    };
    Ok(Pool::new(jobs, workers))
}

/// What is said of a project that was attempted.
pub open spec fn outcome_text(name: Seq<char>, result: Result<(), ErrorView>) -> Seq<char> {
    match result {
        Ok(_) => "DONE: "@ + name,
        Err(e) => "FAILED: "@ + name + " - "@ + e.message(),
    }
}

/// What is said of the project `name` that was attempted with `result`.
pub fn outcome_message(name: &str, result: &Result<(), AppError>) -> (text: String)
    ensures
        text@ == outcome_text(name@, result_view(*result)),
{
    match result {
        Ok(_) => {
            let mut text = String::from_str("DONE: ");
            text.append(name);
            text
        },
        Err(e) => {
            let mut text = String::from_str("FAILED: ");
            text.append(name);
            text.append(" - ");
            text.append(e.message().as_str());
            text
        },
    }
}

/// The words before the state of worker `i` of `workers`: the number of
/// the worker in two places at least, and the number of workers.
pub open spec fn worker_label(i: nat, workers: nat) -> Seq<char> {
    "["@ + (if i < 10 {
        " "@
    } else {
        Seq::empty()
    }) + crate::numbers::decimal_text(i) + "/"@ + crate::numbers::decimal_text(workers) + "]"@
}

/// The words before the state of worker `i` of `workers`.
pub fn worker_prefix(i: usize, workers: usize) -> (text: String)
    ensures
        text@ == worker_label(i as nat, workers as nat),
{
    let mut text = String::from_str("[");
    let ghost before = text@;
    if i < 10 {
        text.append(" ");
    } else {
        assert(text@ =~= before + Seq::<char>::empty());
    }
    text.append(crate::numbers::decimal(i as u64).as_str());
    text.append("/");
    text.append(crate::numbers::decimal(workers as u64).as_str());
    text.append("]");
    text
}

/// Whether the progress of the workers is shown: only on a terminal, and
/// only where it was not asked to be quiet.
pub fn shows_progress(quiet: bool, terminal: bool) -> (shown: bool)
    ensures
        shown == (!quiet && terminal),
{
    !quiet && terminal
}

/// Whether an SSH agent answers: `socket` says whether the agent's socket is
/// named by the environment, and if so whether there is a socket at that
/// place. Without an agent a fetch may wait for a passphrase for ever.
pub fn ssh_agent_running(socket: Option<bool>) -> (running: bool)
    ensures
        running == (socket == Some(true)),
{
    match socket {
        Some(is_socket) => is_socket,
        None => false,
    }
}

} // verus!
