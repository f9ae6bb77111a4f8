//! What always holds of a pool of workers, however the workers take turns.

use vstd::prelude::*;
use crate::config::project::ProjectView;
use crate::errors::ErrorView;
use crate::sync::model::{first_error, fresh, JobState, PoolView, Turn};

verus! {

/// A list of results comes to a failure exactly when it holds one.
pub proof fn lemma_first_error(results: Seq<Result<(), ErrorView>>)
    ensures
        first_error(results) is Err <==> exists|k: int|
            0 <= k < results.len() && (#[trigger] results[k]) is Err,
    decreases results.len(),
{
    if results.len() > 0 {
        let rest = results.drop_first();
        lemma_first_error(rest);
        if first_error(results) is Err {
            if results[0] is Err {
            } else {
                let k = choose|k: int| 0 <= k < rest.len() && (#[trigger] rest[k]) is Err;
                assert(results[k + 1] is Err);
            }
        }
        if exists|k: int| 0 <= k < results.len() && (#[trigger] results[k]) is Err {
            let k = choose|k: int| 0 <= k < results.len() && (#[trigger] results[k]) is Err;
            if k > 0 {
                assert(rest[k - 1] is Err);
            }
        }
    }
}

/// A pool that was just set up is consistent: every job waits exactly once.
pub proof fn law_fresh_is_consistent(jobs: Seq<ProjectView>, workers: nat)
    ensures
        fresh(jobs, workers).consistent(),
{
    let pool = fresh(jobs, workers);
    assert forall|j: int| 0 <= j < pool.state.len() && (#[trigger] pool.state[j])
        is Waiting implies pool.pending.contains(j) by {
        assert(pool.pending[j] == j);
    }
    assert(!pool.some_job_failed());
    assert(!pool.some_worker_failed());
    assert(!pool.some_outcome_failed());
    assert(!pool.some_retired_failed());
}

/// Asking for work keeps the pool consistent.
pub proof fn law_take_keeps_consistent(pool: PoolView, w: int)
    requires
        pool.consistent(),
    ensures
        pool.take(w).0.consistent(),
{
    let (next, handout) = pool.take(w);
    if !pool.idle(w) {
    } else if pool.pending.len() == 0 {
        assert(next.some_job_failed() == pool.some_job_failed());
        assert(next.some_worker_failed() == pool.some_worker_failed());
        // A retired worker with a failure has its failure among the outcomes.
        if next.some_outcome_failed() {
            let k = choose|k: int| 0 <= k < next.outcomes.len() && (#[trigger] next.outcomes[k]) is Err;
            if k < pool.outcomes.len() {
                assert(pool.outcomes[k] is Err);
                assert(pool.some_retired_failed());
                let v = choose|v: int|
                    0 <= v < pool.tally.len() && pool.retired[v] && (#[trigger] pool.tally[v]) is Err;
                assert(next.retired[v] && next.tally[v] is Err);
            } else {
                assert(next.retired[w] && next.tally[w] is Err);
            }
            assert(next.some_retired_failed());
        }
        if next.some_retired_failed() {
            let v = choose|v: int|
                0 <= v < next.tally.len() && next.retired[v] && (#[trigger] next.tally[v]) is Err;
            if v == w {
                assert(next.outcomes[pool.outcomes.len() as int] is Err);
            } else {
                assert(pool.retired[v] && pool.tally[v] is Err);
                assert(pool.some_outcome_failed());
                let k = choose|k: int|
                    0 <= k < pool.outcomes.len() && (#[trigger] pool.outcomes[k]) is Err;
                assert(next.outcomes[k] is Err);
            }
            assert(next.some_outcome_failed());
        }
    } else {
        let job = pool.pending[0];
        assert(pool.state[job] is Waiting);
        assert forall|k: int| 0 <= k < next.pending.len() implies (#[trigger] next.pending[k])
            < next.state.len() && next.state[next.pending[k] as int] is Waiting by {
            assert(next.pending[k] == pool.pending[k + 1]);
            assert(pool.pending[k + 1] != pool.pending[0]);
        }
        assert forall|j: int| 0 <= j < next.state.len() && (#[trigger] next.state[j])
            is Waiting implies next.pending.contains(j) by {
            assert(j != job);
            assert(pool.state[j] is Waiting);
            let k = choose|k: int| 0 <= k < pool.pending.len() && pool.pending[k] == j;
            assert(k > 0);
            assert(next.pending[k - 1] == j);
        }
        assert forall|w2: int| 0 <= w2 < next.running.len() implies ((
        #[trigger] next.running[w2]) matches Some(j) ==> j < next.state.len() && next.state[j as int]
            == JobState::Running(w2) && !next.retired[w2]) by {
            if w2 != w {
                assert(next.running[w2] == pool.running[w2]);
                if let Some(j) = pool.running[w2] {
                    assert(pool.state[j as int] == JobState::Running(w2));
                }
            }
        }
        assert forall|j: int| 0 <= j < next.state.len() implies ((
        #[trigger] next.state[j]) matches JobState::Running(w2) ==> 0 <= w2 < next.running.len()
            && next.running[w2] == Some(j)) by {
            if j != job {
                assert(next.state[j] == pool.state[j]);
                if let JobState::Running(w2) = pool.state[j] {
                    assert(pool.running[w2] == Some(j));
                    assert(w2 != w);
                }
            }
        }
        assert forall|w2: int| 0 <= w2 < next.retired.len() && #[trigger] next.retired[w2]
            implies next.pending.len() == 0 by {
            assert(pool.retired[w2]);
        }
        assert forall|i: int, k: int|
            0 <= i < next.pending.len() && 0 <= k < next.pending.len() && i != k
            implies next.pending[i] != next.pending[k] by {
            assert(next.pending[i] == pool.pending[i + 1]);
            assert(next.pending[k] == pool.pending[k + 1]);
        }
        if next.some_job_failed() {
            let j = choose|j: int|
                0 <= j < next.state.len() && (#[trigger] next.state[j]) matches JobState::Done(
                    Err(_),
                );
            assert(pool.state[j] == next.state[j]);
            assert(pool.some_job_failed());
        }
        if pool.some_job_failed() {
            let j = choose|j: int|
                0 <= j < pool.state.len() && (#[trigger] pool.state[j]) matches JobState::Done(
                    Err(_),
                );
            assert(next.state[j] == pool.state[j]);
            assert(next.some_job_failed());
        }
        assert(next.some_worker_failed() == pool.some_worker_failed());
        assert(next.some_outcome_failed() == pool.some_outcome_failed());
        assert(next.some_retired_failed() == pool.some_retired_failed());
    }
}

/// Reporting a result keeps the pool consistent.
pub proof fn law_record_keeps_consistent(pool: PoolView, w: int, result: Result<(), ErrorView>)
    requires
        pool.consistent(),
    ensures
        pool.record(w, result).consistent(),
{
    let next = pool.record(w, result);
    if pool.busy(w) {
        let job = pool.running[w].unwrap();
        assert(pool.state[job] == JobState::Running(w));
        assert forall|k: int| 0 <= k < next.pending.len() implies (#[trigger] next.pending[k])
            < next.state.len() && next.state[next.pending[k] as int] is Waiting by {
            assert(pool.state[pool.pending[k] as int] is Waiting);
        }
        assert forall|j: int| 0 <= j < next.state.len() && (#[trigger] next.state[j])
            is Waiting implies next.pending.contains(j) by {
            assert(pool.state[j] is Waiting);
        }
        assert forall|w2: int| 0 <= w2 < next.running.len() implies ((
        #[trigger] next.running[w2]) matches Some(j) ==> j < next.state.len() && next.state[j as int]
            == JobState::Running(w2) && !next.retired[w2]) by {
            if w2 != w {
                assert(next.running[w2] == pool.running[w2]);
                if let Some(j) = pool.running[w2] {
                    assert(pool.state[j as int] == JobState::Running(w2));
                }
            }
        }
        assert forall|j: int| 0 <= j < next.state.len() implies ((
        #[trigger] next.state[j]) matches JobState::Running(w2) ==> 0 <= w2 < next.running.len()
            && next.running[w2] == Some(j)) by {
            if j != job {
                assert(next.state[j] == pool.state[j]);
                if let JobState::Running(w2) = pool.state[j] {
                    assert(pool.running[w2] == Some(j));
                }
            }
        }
        // The worker has not retired, so the retired workers' tallies stand.
        assert(!pool.retired[w]);
        if next.some_retired_failed() {
            let v = choose|v: int|
                0 <= v < next.tally.len() && next.retired[v] && (#[trigger] next.tally[v]) is Err;
            assert(pool.retired[v] && pool.tally[v] is Err);
            assert(pool.some_retired_failed());
        }
        if pool.some_retired_failed() {
            let v = choose|v: int|
                0 <= v < pool.tally.len() && pool.retired[v] && (#[trigger] pool.tally[v]) is Err;
            assert(next.retired[v] && next.tally[v] is Err);
            assert(next.some_retired_failed());
        }
        assert(next.some_outcome_failed() == pool.some_outcome_failed());
        if next.some_job_failed() {
            let j = choose|j: int|
                0 <= j < next.state.len() && (#[trigger] next.state[j]) matches JobState::Done(
                    Err(_),
                );
            if j == job {
                assert(next.tally[w] is Err);
            } else {
                assert(pool.state[j] == next.state[j]);
                assert(pool.some_job_failed());
                let v = choose|v: int| 0 <= v < pool.tally.len() && (#[trigger] pool.tally[v]) is Err;
                assert(next.tally[v] is Err);
            }
            assert(next.some_worker_failed());
        }
        if next.some_worker_failed() {
            let v = choose|v: int| 0 <= v < next.tally.len() && (#[trigger] next.tally[v]) is Err;
            if pool.tally[v] is Err {
                assert(pool.some_worker_failed());
                let j = choose|j: int|
                    0 <= j < pool.state.len() && (#[trigger] pool.state[j]) matches JobState::Done(
                        Err(_),
                    );
                assert(j != job);
                assert(next.state[j] == pool.state[j]);
            } else {
                assert(v == w);
                assert(result is Err);
                assert(next.state[job] matches JobState::Done(Err(_)));
            }
            assert(next.some_job_failed());
        }
    }
}

/// A result is recorded for a job that had none, and for no other: what was
/// recorded before stays as it was.
pub proof fn law_recorded_once(pool: PoolView, w: int, result: Result<(), ErrorView>, j: int)
    requires
        pool.consistent(),
        pool.busy(w),
        0 <= j < pool.state.len(),
    ensures
        j == pool.running[w].unwrap() ==> !(pool.state[j] is Done) && pool.record(w, result).state[j]
            == JobState::Done(result),
        j != pool.running[w].unwrap() ==> pool.record(w, result).state[j] == pool.state[j],
{
    let job = pool.running[w].unwrap();
    assert(pool.state[job] == JobState::Running(w));
}

/// A job is handed out to one worker only: the job that a worker gets was
/// waiting, and waits no longer.
pub proof fn law_handed_out_once(pool: PoolView, w: int)
    requires
        pool.consistent(),
        pool.take(w).1 is Job,
    ensures
        ({
            let job = pool.take(w).1->Job_0;
            &&& 0 <= job < pool.state.len()
            &&& pool.state[job] is Waiting
            &&& pool.take(w).0.state[job] == JobState::Running(w)
            &&& !pool.take(w).0.pending.contains(job)
        }),
{
    let next = pool.take(w).0;
    let job = pool.pending[0];
    if next.pending.contains(job) {
        let k = choose|k: int| 0 <= k < next.pending.len() && next.pending[k] == job;
        assert(pool.pending[k + 1] == job);
    }
}

/// Once every worker of a pool with at least one worker has retired, every
/// job has been attempted and has its result: none waits, none is with a
/// worker. This holds for any number of workers and of jobs.
pub proof fn law_every_job_attempted(pool: PoolView, j: int)
    requires
        pool.consistent(),
        pool.complete(),
        pool.workers() >= 1,
        0 <= j < pool.jobs.len(),
    ensures
        pool.state[j] is Done,
        pool.pending.len() == 0,
{
    assert(pool.retired[0]);
    match pool.state[j] {
        JobState::Waiting => {
            assert(pool.pending.contains(j));
        },
        JobState::Running(w) => {
            assert(pool.running[w] == Some(j));
            assert(pool.retired[w]);
        },
        JobState::Done(_) => {},
    }
}

/// The run as a whole fails exactly when some project failed.
pub proof fn law_verdict(pool: PoolView)
    requires
        pool.consistent(),
        pool.complete(),
    ensures
        pool.verdict() is Err <==> pool.some_job_failed(),
{
    lemma_first_error(pool.outcomes);
    if pool.some_worker_failed() {
        let w = choose|w: int| 0 <= w < pool.tally.len() && (#[trigger] pool.tally[w]) is Err;
        assert(pool.retired[w]);
        assert(pool.some_retired_failed());
    }
    if pool.some_retired_failed() {
        let w = choose|w: int|
            0 <= w < pool.tally.len() && pool.retired[w] && (#[trigger] pool.tally[w]) is Err;
        assert(pool.some_worker_failed());
    }
}

/// However the workers take turns, the books of a pool agree: whatever
/// sequence of turns a fresh pool has seen, every job is in the queue, with
/// one worker or done, and in one of these places only.
pub proof fn law_turns_keep_consistent(jobs: Seq<ProjectView>, workers: nat, turns: Seq<Turn>)
    ensures
        fresh(jobs, workers).after_all(turns).consistent(),
        fresh(jobs, workers).after_all(turns).jobs == jobs,
        fresh(jobs, workers).after_all(turns).workers() == workers,
    decreases turns.len(),
{
    if turns.len() == 0 {
        law_fresh_is_consistent(jobs, workers);
    } else {
        law_turns_keep_consistent(jobs, workers, turns.drop_last());
        let before = fresh(jobs, workers).after_all(turns.drop_last());
        match turns.last() {
            Turn::Take(w) => {
                law_take_keeps_consistent(before, w);
            },
            Turn::Record(w, result) => {
                law_record_keeps_consistent(before, w, result);
            },
        }
    }
}

/// Whatever the number of workers, as long as there is one, and however the
/// workers took turns: once all of them have retired, every project has been
/// attempted and has its result, and the run has failed exactly if one of the
/// projects has.
pub proof fn law_exactly_once(jobs: Seq<ProjectView>, workers: nat, turns: Seq<Turn>, j: int)
    requires
        workers >= 1,
        fresh(jobs, workers).after_all(turns).complete(),
        0 <= j < jobs.len(),
    ensures
        fresh(jobs, workers).after_all(turns).state[j] is Done,
        fresh(jobs, workers).after_all(turns).verdict() is Err <==> fresh(
            jobs,
            workers,
        ).after_all(turns).some_job_failed(),
{
    law_turns_keep_consistent(jobs, workers, turns);
    let pool = fresh(jobs, workers).after_all(turns);
    law_every_job_attempted(pool, j);
    law_verdict(pool);
}

/// A failure stops no one: whatever a worker reports, the jobs that wait
/// still wait, and the next worker that asks gets the next of them.
pub proof fn law_failure_does_not_stop_the_rest(
    pool: PoolView,
    w: int,
    result: Result<(), ErrorView>,
)
    requires
        pool.consistent(),
    ensures
        pool.record(w, result).pending == pool.pending,
        pool.record(w, result).retired == pool.retired,
{
}

} // verus!
