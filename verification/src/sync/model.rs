//! The pool of workers as plain values: what waits, what runs, what is done.

use vstd::prelude::*;
use crate::config::project::ProjectView;
use crate::errors::ErrorView;

verus! {

/// Where one job stands.
pub enum JobState {
    /// In the queue.
    Waiting,
    /// Handed to the worker of this number.
    Running(int),
    /// Attempted, with this result.
    Done(Result<(), ErrorView>),
}

/// What a worker gets when it asks for work.
pub enum HandoutView {
    /// The job of this number.
    Job(int),
    /// Nothing is left: the worker retires.
    Retire,
    /// The worker is unknown, has retired or still holds a job.
    Refused,
}

/// The first of two results if it is an error, else the second.
pub open spec fn both(first: Result<(), ErrorView>, second: Result<(), ErrorView>) -> Result<
    (),
    ErrorView,
> {
    if first is Err {
        first
    } else {
        second
    }
}

/// Both results one after the other, for a whole list: the first error in
/// the list, or success where it holds none.
pub open spec fn first_error(results: Seq<Result<(), ErrorView>>) -> Result<(), ErrorView>
    decreases results.len(),
{
    if results.len() == 0 {
        Ok(())
    } else {
        both(results[0], first_error(results.drop_first()))
    }
}

/// A pool of workers and the jobs it was given.
pub struct PoolView {
    /// The projects to synchronise, one job each.
    pub jobs: Seq<ProjectView>,
    /// The numbers of the jobs in the queue, the next to leave first.
    pub pending: Seq<int>,
    /// Where each job stands.
    pub state: Seq<JobState>,
    /// For each worker the job that it holds.
    pub running: Seq<Option<int>>,
    /// For each worker whether it has retired.
    pub retired: Seq<bool>,
    /// For each worker the first failure among the jobs it has attempted.
    pub tally: Seq<Result<(), ErrorView>>,
    /// The tallies of the retired workers, in the order in which they
    /// retired.
    pub outcomes: Seq<Result<(), ErrorView>>,
}

impl PoolView {
    /// The number of workers.
    pub open spec fn workers(self) -> nat {
        self.running.len()
    }

    /// Some job has been attempted and has failed.
    pub open spec fn some_job_failed(self) -> bool {
        exists|j: int| 0 <= j < self.state.len() && (#[trigger] self.state[j]) matches JobState::Done(Err(_))
    }

    /// Some worker has seen a job fail.
    pub open spec fn some_worker_failed(self) -> bool {
        exists|w: int| 0 <= w < self.tally.len() && (#[trigger] self.tally[w]) is Err
    }

    /// Some retired worker has seen a job fail.
    pub open spec fn some_retired_failed(self) -> bool {
        exists|w: int|
            0 <= w < self.tally.len() && self.retired[w] && (#[trigger] self.tally[w]) is Err
    }

    /// Some worker has retired with a failure.
    pub open spec fn some_outcome_failed(self) -> bool {
        exists|k: int| 0 <= k < self.outcomes.len() && (#[trigger] self.outcomes[k]) is Err
    }

    /// The books agree: every job is in the queue, with one worker or done,
    /// and never in two of these places.
    pub open spec fn consistent(self) -> bool {
        &&& self.state.len() == self.jobs.len()
        &&& self.retired.len() == self.running.len()
        &&& self.tally.len() == self.running.len()
        &&& self.pending.no_duplicates()
        &&& forall|k: int|
            0 <= k < self.pending.len() ==> 0 <= (#[trigger] self.pending[k]) < self.state.len()
                && self.state[self.pending[k]] is Waiting
        &&& forall|j: int|
            0 <= j < self.state.len() && (#[trigger] self.state[j]) is Waiting
                ==> self.pending.contains(j)
        &&& forall|w: int|
            0 <= w < self.running.len() ==> ((#[trigger] self.running[w]) matches Some(j) ==> 0
                <= j < self.state.len() && self.state[j] == JobState::Running(w)
                && !self.retired[w])
        &&& forall|j: int|
            0 <= j < self.state.len() ==> ((#[trigger] self.state[j]) matches JobState::Running(w)
                ==> 0 <= w < self.running.len() && self.running[w] == Some(j))
        &&& forall|w: int|
            0 <= w < self.retired.len() && #[trigger] self.retired[w] ==> self.pending.len() == 0
        &&& self.some_job_failed() <==> self.some_worker_failed()
        &&& self.some_outcome_failed() <==> self.some_retired_failed()
    }

    /// Every worker has retired.
    pub open spec fn complete(self) -> bool {
        forall|w: int| 0 <= w < self.retired.len() ==> #[trigger] self.retired[w]
    }

    /// What the whole run comes to: the first failure among the retired
    /// workers, or success.
    pub open spec fn verdict(self) -> Result<(), ErrorView> {
        first_error(self.outcomes)
    }

    /// Whether worker `w` may ask for work: it exists, has not retired and
    /// holds no job.
    pub open spec fn idle(self, w: int) -> bool {
        0 <= w < self.running.len() && w < self.retired.len() && !self.retired[w]
            && self.running[w] is None
    }

    /// The pool after worker `w` has asked for work, and what it got.
    pub open spec fn take(self, w: int) -> (PoolView, HandoutView) {
        if !self.idle(w) {
            (self, HandoutView::Refused)
        } else if self.pending.len() == 0 {
            (
                PoolView {
                    retired: self.retired.update(w, true),
                    outcomes: self.outcomes.push(self.tally[w]),
                    ..self
                },
                HandoutView::Retire,
            )
        } else {
            let job = self.pending[0];
            (
                PoolView {
                    pending: self.pending.drop_first(),
                    state: self.state.update(job, JobState::Running(w)),
                    running: self.running.update(w, Some(job)),
                    ..self
                },
                HandoutView::Job(job),
            )
        }
    }

    /// Whether worker `w` holds a job.
    pub open spec fn busy(self, w: int) -> bool {
        0 <= w < self.running.len() && self.running[w] is Some
    }

    /// The pool after worker `w` has reported `result` for the job it holds.
    pub open spec fn record(self, w: int, result: Result<(), ErrorView>) -> PoolView {
        if !self.busy(w) {
            self
        } else {
            let job = self.running[w].unwrap();
            PoolView {
                state: self.state.update(job, JobState::Done(result)),
                running: self.running.update(w, None),
                tally: self.tally.update(w, both(self.tally[w], result)),
                ..self
            }
        }
    }
}

/// What a worker does in one turn.
pub enum Turn {
    /// The worker of this number asks for work.
    Take(int),
    /// The worker of this number reports this result for the job it holds.
    Record(int, Result<(), ErrorView>),
}

impl PoolView {
    /// The pool after one turn.
    pub open spec fn after(self, turn: Turn) -> PoolView {
        match turn {
            Turn::Take(w) => self.take(w).0,
            Turn::Record(w, result) => self.record(w, result),
        }
    }

    /// The pool after the turns `turns`, one after the other.
    pub open spec fn after_all(self, turns: Seq<Turn>) -> PoolView
        decreases turns.len(),
    {
        if turns.len() == 0 {
            self
        } else {
            self.after_all(turns.drop_last()).after(turns.last())
        }
    }
}

/// The numbers from `0` up to `n`, in order.
pub open spec fn numbers(n: nat) -> Seq<int> {
    Seq::new(n, |i: int| i)
}

/// A pool that was just set up: every job waits, in order, and no worker has
/// done anything.
pub open spec fn fresh(jobs: Seq<ProjectView>, workers: nat) -> PoolView {
    PoolView {
        jobs,
        pending: numbers(jobs.len()),
        state: Seq::new(jobs.len(), |i: int| JobState::Waiting),
        running: Seq::new(workers, |w: int| None),
        retired: Seq::new(workers, |w: int| false),
        tally: Seq::new(workers, |w: int| Ok(())),
        outcomes: Seq::empty(),
    }
}

} // verus!
