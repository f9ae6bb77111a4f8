//! What always holds of a job, whatever the caller reports.

use vstd::prelude::*;
use crate::config::project::ProjectView;
use crate::errors::ErrorView;
use crate::git::reconcile::{
    additional, hook_failure, sync_failure, ActionView, EventView, JobView, Phase,
};

verus! {

/// A job names one action for each event.
pub proof fn law_one_action_per_event(job: JobView, events: Seq<EventView>)
    ensures
        job.run(events).len() == events.len(),
    decreases events.len(),
{
    if events.len() > 0 {
        let (phase, _) = job.step(events[0]);
        law_one_action_per_event(job.at(phase), events.drop_first());
    }
}

/// A job ends exactly when it says so: the action is to finish if and only if
/// the job is then in its last phase.
pub proof fn law_finish_ends(job: JobView, event: EventView)
    ensures
        job.step(event).1 is Finish <==> job.step(event).0 is Ended,
{
}

/// A job that has ended stays ended: whatever it hears of, it names nothing
/// more to do.
pub proof fn law_ended_stays(job: JobView, events: Seq<EventView>, k: int)
    requires
        job.phase is Ended,
        0 <= k < events.len(),
    ensures
        job.run(events).len() == events.len(),
        job.run(events)[k] is Finish,
    decreases events.len(),
{
    law_one_action_per_event(job, events);
    let (phase, action) = job.step(events[0]);
    if k > 0 {
        law_one_action_per_event(job.at(phase), events.drop_first());
        law_ended_stays(job.at(phase), events.drop_first(), k - 1);
    }
}

/// Once a job has named its end, it names nothing else: after a `Finish`
/// comes nothing but `Finish`.
pub proof fn law_finish_is_final(job: JobView, events: Seq<EventView>, k: int, m: int)
    requires
        0 <= k <= m < events.len(),
        job.run(events).len() == events.len(),
        job.run(events)[k] is Finish,
    ensures
        job.run(events)[m] is Finish,
    decreases events.len(),
{
    let (phase, action) = job.step(events[0]);
    let rest = events.drop_first();
    law_one_action_per_event(job.at(phase), rest);
    if k == 0 {
        if m > 0 {
            law_ended_stays(job.at(phase), rest, m - 1);
        }
    } else {
        law_finish_is_final(job.at(phase), rest, k - 1, m - 1);
    }
}

/// Whether the job has nothing left to do but the metadata of its project.
pub open spec fn at_metadata(job: JobView) -> bool {
    job.phase is ReadingMetadata || job.phase is Writing || job.phase is Ended
}

/// A job that has come to the metadata of its project leaves the repository
/// alone: whatever it hears of, it names no action that reaches out to a
/// remote, touches the repository or runs a hook.
pub proof fn law_metadata_leaves_repository_alone(job: JobView, events: Seq<EventView>, k: int)
    requires
        at_metadata(job),
        0 <= k < events.len(),
    ensures
        job.run(events).len() == events.len(),
        !job.run(events)[k].uses_network(),
        !job.run(events)[k].touches_repository(),
        !(job.run(events)[k] is RunHook),
    decreases events.len(),
{
    law_one_action_per_event(job, events);
    let (phase, action) = job.step(events[0]);
    assert(at_metadata(job.at(phase)));
    if k > 0 {
        law_one_action_per_event(job.at(phase), events.drop_first());
        law_metadata_leaves_repository_alone(job.at(phase), events.drop_first(), k - 1);
    }
}

/// A project that is already cloned, synchronised for new projects only, is
/// left alone: in all that follows, the job names no action that reaches out
/// to a remote, touches the repository or runs a hook. A project that is not
/// trusted is in line at once; for a trusted one the metadata of its
/// repository is read, as after every other success.
pub proof fn law_only_new_leaves_existing_alone(job: JobView, events: Seq<EventView>, k: int)
    requires
        job.phase is Checking,
        job.only_new,
        events.len() > 0,
        events[0] == EventView::Exists(true),
        0 <= k < events.len(),
    ensures
        job.run(events).len() == events.len(),
        !job.project.trusted ==> job.run(events)[0] == ActionView::Finish(Ok(())),
        job.project.trusted ==> job.run(events)[0] == (ActionView::ReadMetadata {
            file: crate::config::path::joined(job.path, "fw.toml"@),
        }),
        !job.project.trusted ==> job.run(events)[k] is Finish,
        !job.run(events)[k].uses_network(),
        !job.run(events)[k].touches_repository(),
        !(job.run(events)[k] is RunHook),
{
    law_one_action_per_event(job, events);
    let (phase, action) = job.step(events[0]);
    let rest = events.drop_first();
    law_one_action_per_event(job.at(phase), rest);
    assert(at_metadata(job.at(phase)));
    if k > 0 {
        law_metadata_leaves_repository_alone(job.at(phase), rest, k - 1);
        if !job.project.trusted {
            law_finish_is_final(job, events, 0, k);
        }
    }
}

/// Whatever a job hears of, it comes to wait for metadata, or for the
/// project's file, for a trusted project only.
pub proof fn law_metadata_needs_trust(job: JobView, event: EventView)
    ensures
        job.at(job.step(event).0).guarded(),
        job.at(job.metadata_step(event).0).guarded(),
{
}

/// A project that is not trusted is in line once its repository is: what
/// the repository says of itself is neither read nor written, whatever phase
/// the job is in and whatever it hears of.
pub proof fn law_untrusted_is_left_alone(job: JobView, event: EventView)
    requires
        !job.project.trusted,
    ensures
        job.metadata_step(event) == (Phase::Ended, ActionView::Finish(Ok(()))),
        !(job.step(event).1 is ReadMetadata),
        !(job.step(event).1 is WriteProject),
{
}

/// After every success the metadata of a trusted project is read: after a
/// path that exists and is left alone, after the last remote or the
/// fast-forward of an update, after the clone with its remotes and hooks.
pub proof fn law_metadata_follows_every_success(job: JobView)
    requires
        job.project.trusted,
    ensures
        job.metadata_stage() == (
            Phase::ReadingMetadata,
            ActionView::ReadMetadata { file: crate::config::path::joined(job.path, "fw.toml"@) },
        ),
        job.phase is Checking && job.only_new ==> job.step(EventView::Exists(true))
            == job.metadata_stage(),
        job.phase is Hooking ==> job.step(EventView::Done(Ok(()))) == job.metadata_stage(),
        job.phase is Merging ==> job.step(EventView::Done(Ok(()))) == job.metadata_stage(),
        job.phase is Cloning && additional(job.project).len() == 0 && job.hooks.len() == 0
            ==> job.step(EventView::Done(Ok(()))) == job.metadata_stage(),
{
}

/// A clone that fails ends the job as failed, with the cause in the error,
/// and no hook runs, whatever is reported afterwards.
pub proof fn law_clone_failure_runs_no_hook(
    job: JobView,
    cause: ErrorView,
    events: Seq<EventView>,
    k: int,
)
    requires
        job.phase is Checking,
        events.len() >= 2,
        events[0] == EventView::Exists(false),
        events[1] == EventView::Done(Err(cause)),
        0 <= k < events.len(),
    ensures
        job.run(events).len() == events.len(),
        job.run(events)[0] is Clone,
        job.run(events)[1] == ActionView::Finish(Err(sync_failure(job.project, cause))),
        !(job.run(events)[k] is RunHook),
{
    law_one_action_per_event(job, events);
    let rest = events.drop_first();
    let cloning = job.at(Phase::Cloning);
    assert(job.step(events[0]).0 == Phase::Cloning);
    law_one_action_per_event(cloning, rest);
    assert(rest[0] == events[1]);
    assert(cloning.run(rest)[0] == cloning.step(rest[0]).1);
    assert(job.run(events)[1] == cloning.run(rest)[0]);
    if k >= 1 {
        law_finish_is_final(job, events, 1, k);
    }
}

/// A remote of a fresh clone that cannot be added or fetched ends the job as
/// failed before any hook runs.
pub proof fn law_remote_failure_ends_clone(job: JobView, cause: ErrorView)
    requires
        job.phase is AddingRemote,
    ensures
        job.step(EventView::Done(Err(cause))) == (
            Phase::Ended,
            ActionView::Finish(Err(sync_failure(job.project, cause))),
        ),
{
}

/// Hooks run only once the clone and every additional remote have succeeded:
/// the action is to run the hooks only on a success reported for the clone or
/// for the last additional remote.
pub proof fn law_hooks_follow_success(job: JobView, event: EventView)
    requires
        job.step(event).1 is RunHook,
    ensures
        event matches EventView::Done(Ok(_)),
        job.hooks.len() > 0,
        job.phase is Cloning ==> additional(job.project).len() == 0,
        job.phase matches Phase::AddingRemote(i) ==> i + 1 >= additional(job.project).len(),
        job.phase is Cloning || job.phase is AddingRemote,
{
}

/// A hook that fails after a successful clone fails the project: the job
/// ends with an error that names the project and the cause.
pub proof fn law_hook_failure_fails_project(job: JobView, cause: ErrorView)
    requires
        job.phase is Hooking,
    ensures
        job.step(EventView::Done(Err(cause))) == (
            Phase::Ended,
            ActionView::Finish(Err(sync_failure(job.project, hook_failure(cause)))),
        ),
{
}

/// The branch is fast-forwarded only after every remote was brought up to
/// date: the action is to fast-forward only on a success reported for the
/// last remote, which is `origin`, and only where a fast-forward was asked
/// for.
pub proof fn law_fast_forward_follows_remotes(job: JobView, event: EventView)
    requires
        job.step(event).1 is FastForward,
    ensures
        job.ff_merge,
        event matches EventView::Done(Ok(_)),
        job.phase matches Phase::UpdatingRemote(i) && i + 1 >= crate::git::reconcile::remotes(
            job.project,
        ).len(),
{
}

/// The remotes of an existing repository are updated in the order in which
/// the project names them, and `origin` comes last.
pub proof fn law_origin_is_updated_last(job: JobView, i: int)
    requires
        job.phase == Phase::UpdatingRemote(i as usize),
        0 <= i <= usize::MAX,
    ensures
        ({
            let all = crate::git::reconcile::remotes(job.project);
            let next = job.step(EventView::Done(Ok(()))).1;
            &&& all.last() == crate::git::reconcile::origin(job.project)
            &&& i + 1 < all.len() ==> next == (ActionView::UpdateRemote {
                path: job.path,
                name: all[i + 1].name,
                url: all[i + 1].git,
            })
            &&& i + 1 >= all.len() ==> !(next is UpdateRemote)
        }),
{
}

/// The repository's metadata is read only when the work on the repository
/// is done and has succeeded, or, for the fast-forward, was at least tried:
/// never before the clone, the remotes and the hooks.
pub proof fn law_metadata_comes_last(job: JobView, event: EventView)
    requires
        job.step(event).1 is ReadMetadata,
    ensures
        job.project.trusted,
        job.phase is Checking ==> job.only_new && event == EventView::Exists(true),
        !(job.phase is Checking) ==> event is Done,
        job.phase is Checking || job.phase is Merging || event matches EventView::Done(Ok(_)),
        job.phase is Checking || job.phase is Cloning || job.phase is AddingRemote || job.phase
            is Hooking || job.phase is UpdatingRemote || job.phase is Merging,
        job.phase is Cloning ==> additional(job.project).len() == 0 && job.hooks.len() == 0,
        job.phase matches Phase::AddingRemote(i) ==> i + 1 >= additional(job.project).len()
            && job.hooks.len() == 0,
        job.phase matches Phase::UpdatingRemote(i) ==> i + 1
            >= crate::git::reconcile::remotes(job.project).len() && !job.ff_merge,
{
}

/// A fast-forward that is not possible is no failure: whatever is reported
/// of it, the job goes on as after a success.
pub proof fn law_fast_forward_is_best_effort(job: JobView, outcome: Result<(), ErrorView>)
    requires
        job.phase is Merging,
    ensures
        job.step(EventView::Done(outcome)) == job.metadata_stage(),
        !job.project.trusted ==> job.step(EventView::Done(outcome)).1 == ActionView::Finish(
            Ok(()),
        ),
{
}

/// What a repository says of itself reaches nothing but the tags of its
/// project, and only those of a trusted project.
pub proof fn law_repository_changes_tags_only(job: JobView, event: EventView)
    requires
        job.step(event).1 is WriteProject,
    ensures
        job.phase is ReadingMetadata,
        job.project.trusted,
        event matches EventView::Metadata(Ok(Some(Some(tags)))) && job.step(event).1 == (
            ActionView::WriteProject { project: ProjectView { tags: Some(tags), ..job.project } }
        ),
{
}

} // verus!
