//! The steps that bring one project in line with its configuration.
//!
//! Bringing a project in line is a conversation. The job names the next
//! thing to do, the caller does it and reports what came of it, and the job
//! decides what follows. The job never touches the disk or the network
//! itself, so every decision it takes is stated here.
//!
//! A project whose path does not exist is cloned, its additional remotes are
//! added and fetched, and its hooks run. A project whose path exists has its
//! remotes updated, `origin` last, and is then fast-forwarded where that was
//! asked for; where only new projects were asked for, it is left alone. In
//! each case, once all has gone well, a trusted project may have its tags
//! replaced by those that its repository names. Of a project that is not
//! trusted, nothing that its repository says of itself is read or written.

use vstd::prelude::*;
use vstd::string::*;
use crate::config::metadata_from_repository::MetadataFromRepository;
use crate::config::path::{in_home, join_path, joined};
use crate::config::project::{opt_names, Project, ProjectView, RemoteView};
use crate::config::resolve::TagField;
use crate::config::Config;
use crate::errors::{AppError, ErrorView};
use crate::text::{clone_list, join, join_text};

verus! {

/// How far a job has come: what it is waiting to hear of.
#[derive(Clone, Copy, Debug, PartialEq, Eq)]
pub enum Phase {
    /// Whether the project's path exists.
    Checking,
    /// The clone.
    Cloning,
    /// The additional remote at this place, added to the fresh clone and
    /// fetched.
    AddingRemote(usize),
    /// The hooks that run after a clone.
    Hooking,
    /// The remote at this place, the additional ones first and `origin`
    /// last, brought up to date.
    UpdatingRemote(usize),
    /// The fast-forward of the checked-out branch.
    Merging,
    /// The content of the repository's `fw.toml`.
    ReadingMetadata,
    /// The project's file, rewritten.
    Writing,
    /// Nothing: the job has ended.
    Ended,
}

/// What the caller reports back.
#[derive(Debug, PartialEq, Eq)]
pub enum SyncEvent {
    /// Whether the project's path exists.
    Exists(bool),
    /// How the last action ended.
    Done(Result<(), AppError>),
    /// What the repository's `fw.toml` holds; `None` where there is no such
    /// file.
    Metadata(Result<Option<MetadataFromRepository>, AppError>),
}

/// An event as plain values.
pub enum EventView {
    Exists(bool),
    Done(Result<(), ErrorView>),
    Metadata(Result<Option<Option<Seq<Seq<char>>>>, ErrorView>),
}

impl View for SyncEvent {
    type V = EventView;

    open spec fn view(&self) -> EventView {
        match self {
            SyncEvent::Exists(b) => EventView::Exists(*b),
            SyncEvent::Done(Ok(_)) => EventView::Done(Ok(())),
            SyncEvent::Done(Err(e)) => EventView::Done(Err(e@)),
            SyncEvent::Metadata(Ok(None)) => EventView::Metadata(Ok(None)),
            SyncEvent::Metadata(Ok(Some(m))) => EventView::Metadata(Ok(Some(opt_names(m.tags)))),
            SyncEvent::Metadata(Err(e)) => EventView::Metadata(Err(e@)),
        }
    }
}

/// What the caller is asked to do next.
#[derive(Debug, PartialEq, Eq)]
pub enum SyncAction {
    /// Find out whether `path` exists.
    CheckPath { path: String },
    /// Clone `url` into `path`.
    Clone { url: String, path: String, bare: bool },
    /// Add the remote to the repository at `path` and fetch it.
    AddRemote { path: String, name: String, url: String },
    /// Find or create the remote in the repository at `path`, correct its
    /// URL where it differs, and fetch it.
    UpdateRemote { path: String, name: String, url: String },
    /// Fast-forward the checked-out branch of the repository at `path` to
    /// its upstream where that is possible. A failure is no error.
    FastForward { path: String },
    /// Run `command` with `shell` in `workdir`.
    RunHook { shell: Vec<String>, command: String, workdir: String, project_name: String },
    /// Read and parse `file`, if it exists.
    ReadMetadata { file: String },
    /// Write the project's file anew.
    WriteProject { project: Project },
    /// Stop: the project is in line, or could not be brought there.
    Finish(Result<(), AppError>),
}

/// An action as plain values.
pub enum ActionView {
    CheckPath { path: Seq<char> },
    Clone { url: Seq<char>, path: Seq<char>, bare: bool },
    AddRemote { path: Seq<char>, name: Seq<char>, url: Seq<char> },
    UpdateRemote { path: Seq<char>, name: Seq<char>, url: Seq<char> },
    FastForward { path: Seq<char> },
    RunHook {
        shell: Seq<Seq<char>>,
        command: Seq<char>,
        workdir: Seq<char>,
        project_name: Seq<char>,
    },
    ReadMetadata { file: Seq<char> },
    WriteProject { project: ProjectView },
    Finish(Result<(), ErrorView>),
}

impl View for SyncAction {
    type V = ActionView;

    open spec fn view(&self) -> ActionView {
        match self {
            SyncAction::CheckPath { path } => ActionView::CheckPath { path: path@ },
            SyncAction::Clone { url, path, bare } => ActionView::Clone {
                url: url@,
                path: path@,
                bare: *bare,
            },
            SyncAction::AddRemote { path, name, url } => ActionView::AddRemote {
                path: path@,
                name: name@,
                url: url@,
            },
            SyncAction::UpdateRemote { path, name, url } => ActionView::UpdateRemote {
                path: path@,
                name: name@,
                url: url@,
            },
            SyncAction::FastForward { path } => ActionView::FastForward { path: path@ },
            SyncAction::RunHook { shell, command, workdir, project_name } => ActionView::RunHook {
                shell: shell.deep_view(),
                command: command@,
                workdir: workdir@,
                project_name: project_name@,
            },
            SyncAction::ReadMetadata { file } => ActionView::ReadMetadata { file: file@ },
            SyncAction::WriteProject { project } => ActionView::WriteProject { project: project@ },
            SyncAction::Finish(Ok(_)) => ActionView::Finish(Ok(())),
            SyncAction::Finish(Err(e)) => ActionView::Finish(Err(e@)),
        }
    }
}

impl ActionView {
    /// Whether the action reaches out to a remote repository.
    pub open spec fn uses_network(self) -> bool {
        self is Clone || self is AddRemote || self is UpdateRemote
    }

    /// Whether the action changes the repository on disk.
    pub open spec fn touches_repository(self) -> bool {
        self.uses_network() || self is FastForward
    }
}

/// A job as plain values.
pub struct JobView {
    pub project: ProjectView,
    pub path: Seq<char>,
    pub shell: Seq<Seq<char>>,
    pub hooks: Seq<Seq<char>>,
    pub only_new: bool,
    pub ff_merge: bool,
    pub phase: Phase,
}

/// The remote that every repository has: where it was cloned from.
pub open spec fn origin(project: ProjectView) -> RemoteView {
    RemoteView { name: "origin"@, git: project.git }
}

/// The remotes that a project names beside `origin`.
pub open spec fn additional(project: ProjectView) -> Seq<RemoteView> {
    match project.additional_remotes {
        Some(list) => list,
        None => Seq::empty(),
    }
}

/// All remotes of a project, in the order in which they are updated: the
/// additional ones, then `origin`.
pub open spec fn remotes(project: ProjectView) -> Seq<RemoteView> {
    additional(project).push(origin(project))
}

/// The text with which a failed hook is reported.
pub open spec fn hook_failure(cause: ErrorView) -> ErrorView {
    ErrorView::UserError("Post-clone hook failed (nonzero exit code). Cause: "@ + cause.message())
}

/// The error with which a job ends that could not bring its project in line.
pub open spec fn sync_failure(project: ProjectView, cause: ErrorView) -> ErrorView {
    ErrorView::RuntimeError("Failed to sync "@ + project.name + ": "@ + cause.message())
}

impl JobView {
    /// The job in another phase.
    pub open spec fn at(self, phase: Phase) -> JobView {
        JobView { phase, ..self }
    }

    /// The job has ended, and the project is in line.
    pub open spec fn succeed(self) -> (Phase, ActionView) {
        (Phase::Ended, ActionView::Finish(Ok(())))
    }

    /// The job has ended, and the project is not in line.
    pub open spec fn fail(self, cause: ErrorView) -> (Phase, ActionView) {
        (Phase::Ended, ActionView::Finish(Err(sync_failure(self.project, cause))))
    }

    /// What follows once the repository is as it should be: a trusted
    /// project has its repository's metadata read.
    pub open spec fn metadata_stage(self) -> (Phase, ActionView) {
        if self.project.trusted {
            (
                Phase::ReadingMetadata,
                ActionView::ReadMetadata { file: joined(self.path, "fw.toml"@) },
            )
        } else {
            self.succeed()
        }
    }

    /// What follows the clone and the remotes added so far: the next
    /// additional remote, then the hooks where there are any.
    pub open spec fn clone_stage(self, next: int) -> (Phase, ActionView) {
        let more = additional(self.project);
        if 0 <= next < more.len() {
            (
                Phase::AddingRemote(next as usize),
                ActionView::AddRemote { path: self.path, name: more[next].name, url: more[next].git },
            )
        } else if self.hooks.len() > 0 {
            (
                Phase::Hooking,
                ActionView::RunHook {
                    shell: self.shell,
                    command: join_text(self.hooks, " && "@),
                    workdir: self.path,
                    project_name: self.project.name,
                },
            )
        } else {
            self.metadata_stage()
        }
    }

    /// What follows the remotes updated so far: the next remote, then the
    /// fast-forward where it was asked for.
    pub open spec fn update_stage(self, next: int) -> (Phase, ActionView) {
        let all = remotes(self.project);
        if 0 <= next < all.len() {
            (
                Phase::UpdatingRemote(next as usize),
                ActionView::UpdateRemote { path: self.path, name: all[next].name, url: all[next].git },
            )
        } else if self.ff_merge {
            (Phase::Merging, ActionView::FastForward { path: self.path })
        } else {
            self.metadata_stage()
        }
    }

    /// The event does not answer what the job asked: a fault of the caller.
    pub open spec fn confused(self) -> (Phase, ActionView) {
        (Phase::Ended, ActionView::Finish(Err(ErrorView::InternalError("unexpected event"@))))
    }

    /// Whether the job is where it may be: the metadata of a repository is
    /// waited for, and the project's file written, for a trusted project
    /// only.
    pub open spec fn guarded(self) -> bool {
        (self.phase is ReadingMetadata || self.phase is Writing) ==> self.project.trusted
    }

    /// What follows `event` where the repository's metadata is at stake. A
    /// project that is not trusted is in line as it is, whatever the event
    /// says: nothing that its repository holds is looked at, and nothing is
    /// written. For a trusted project the tags that the repository names
    /// replace the project's tags, and the project's file is written anew;
    /// metadata without tags, or no metadata, changes nothing.
    pub open spec fn metadata_step(self, event: EventView) -> (Phase, ActionView) {
        if !self.project.trusted {
            self.succeed()
        } else {
            match (self.phase, event) {
                (Phase::ReadingMetadata, EventView::Metadata(Ok(Some(Some(tags))))) => (
                    Phase::Writing,
                    ActionView::WriteProject {
                        project: ProjectView { tags: Some(tags), ..self.project },
                    },
                ),
                (Phase::ReadingMetadata, EventView::Metadata(Ok(_))) => self.succeed(),
                (Phase::ReadingMetadata, EventView::Metadata(Err(e))) => self.fail(e),
                (Phase::Writing, EventView::Done(Ok(_))) => self.succeed(),
                (Phase::Writing, EventView::Done(Err(e))) => self.fail(e),
                _ => self.confused(),
            }
        }
    }

    /// The next phase and action of a job that hears of `event`. A path that
    /// exists is left alone where only new projects are asked for, and has
    /// its remotes updated otherwise; a path that does not exist is cloned
    /// into. Whatever was done, once it has succeeded the metadata of a
    /// trusted project is read.
    pub open spec fn step(self, event: EventView) -> (Phase, ActionView) {
        match (self.phase, event) {
            (Phase::Checking, EventView::Exists(true)) => if self.only_new {
                self.metadata_stage()
            } else {
                self.update_stage(0)
            },
            (Phase::Checking, EventView::Exists(false)) => (
                Phase::Cloning,
                ActionView::Clone {
                    url: self.project.git,
                    path: self.path,
                    bare: self.project.bare == Some(true),
                },
            ),
            (Phase::Cloning, EventView::Done(Ok(_))) => self.clone_stage(0),
            (Phase::Cloning, EventView::Done(Err(e))) => self.fail(e),
            (Phase::AddingRemote(i), EventView::Done(Ok(_))) => self.clone_stage(i + 1),
            (Phase::AddingRemote(_), EventView::Done(Err(e))) => self.fail(e),
            (Phase::Hooking, EventView::Done(Ok(_))) => self.metadata_stage(),
            (Phase::Hooking, EventView::Done(Err(e))) => self.fail(hook_failure(e)),
            (Phase::UpdatingRemote(i), EventView::Done(Ok(_))) => self.update_stage(i + 1),
            (Phase::UpdatingRemote(_), EventView::Done(Err(e))) => self.fail(e),
            (Phase::Merging, EventView::Done(_)) => self.metadata_stage(),
            (Phase::ReadingMetadata, _) => self.metadata_step(event),
            (Phase::Writing, _) => self.metadata_step(event),
            _ => self.confused(),
        }
    }

    /// The actions that a job names while it hears of `events`, one after
    /// the other.
    pub open spec fn run(self, events: Seq<EventView>) -> Seq<ActionView>
        decreases events.len(),
    {
        if events.len() == 0 {
            Seq::empty()
        } else {
            let (phase, action) = self.step(events[0]);
            seq![action] + self.at(phase).run(events.drop_first())
        }
    }
}

/// One project on its way to being in line with its configuration.
#[derive(Debug)]
pub struct SyncJob {
    project: Project,
    path: String,
    shell: Vec<String>,
    hooks: Vec<String>,
    only_new: bool,
    ff_merge: bool,
    phase: Phase,
}

impl View for SyncJob {
    type V = JobView;

    closed spec fn view(&self) -> JobView {
        JobView {
            project: self.project@,
            path: self.path@,
            shell: self.shell.deep_view(),
            hooks: self.hooks.deep_view(),
            only_new: self.only_new,
            ff_merge: self.ff_merge,
            phase: self.phase,
        }
    }
}

/// The job for `project`, and its first action: to find out whether the
/// project's path exists. The path is the project's path on this machine,
/// the hooks are those that apply after a clone, the shell is the one of the
/// settings.
pub fn sync_project(config: &Config, project: &Project, only_new: bool, ff_merge: bool) -> (start:
    (SyncJob, SyncAction))
    ensures
        start.0@.project == project@,
        start.0@.shell == config.settings.shell_or_default(),
        start.0@.hooks == config.hooks(project, TagField::AfterClone),
        start.0@.only_new == only_new,
        start.0@.ff_merge == ff_merge,
        start.0@.phase == Phase::Checking,
        !in_home(config.raw_path(project)) ==> start.0@.path == config.raw_path(project),
        exists|home: Option<Seq<char>>| start.0@.path == config.path_of(project, home),
        start.1@ == (ActionView::CheckPath { path: start.0@.path }),
{
    let path = config.actual_path_to_project(project);
    sync_project_at(config, project, path, only_new, ff_merge)
}

/// The job for `project` lying at `path`, and its first action.
pub fn sync_project_at(
    config: &Config,
    project: &Project,
    path: String,
    only_new: bool,
    ff_merge: bool,
) -> (start: (SyncJob, SyncAction))
    ensures
        start.0@ == (JobView {
            project: project@,
            path: path@,
            shell: config.settings.shell_or_default(),
            hooks: config.hooks(project, TagField::AfterClone),
            only_new,
            ff_merge,
            phase: Phase::Checking,
        }),
        start.1@ == (ActionView::CheckPath { path: path@ }),
{
    let action = SyncAction::CheckPath { path: path.clone() };
    let job = SyncJob {
        project: project.clone(),
        path,
        shell: config.settings.get_shell_or_default(),
        hooks: config.resolve_after_clone(project),
        only_new,
        ff_merge,
        phase: Phase::Checking,
    };
    (job, action)
}

impl SyncJob {
    /// How far the job has come.
    pub fn phase(&self) -> (phase: Phase)
        ensures
            phase == self@.phase,
    {
        self.phase
    }

    /// Whether the job has ended.
    pub fn has_ended(&self) -> (ended: bool)
        ensures
            ended == (self@.phase is Ended),
    {
        match self.phase {
            Phase::Ended => true,
            _ => false,
        }
    }

    fn succeed(&mut self) -> (action: SyncAction)
        ensures
            final(self)@ == old(self)@.at(Phase::Ended),
            (final(self)@.phase, action@) == old(self)@.succeed(),
    {
        self.phase = Phase::Ended;
        SyncAction::Finish(Ok(()))
    }

    fn fail(&mut self, cause: &AppError) -> (action: SyncAction)
        ensures
            final(self)@ == old(self)@.at(Phase::Ended),
            (final(self)@.phase, action@) == old(self)@.fail(cause@),
    {
        self.phase = Phase::Ended;
        let mut text = String::from_str("Failed to sync ");
        text.append(self.project.name.as_str());
        text.append(": ");
        text.append(cause.message().as_str());
        SyncAction::Finish(Err(AppError::RuntimeError(text)))
    }

    fn confused(&mut self) -> (action: SyncAction)
        ensures
            final(self)@ == old(self)@.at(Phase::Ended),
            (final(self)@.phase, action@) == old(self)@.confused(),
    {
        self.phase = Phase::Ended;
        SyncAction::Finish(Err(AppError::InternalError("unexpected event")))
    }

    fn metadata_stage(&mut self) -> (action: SyncAction)
        ensures
            final(self)@ == old(self)@.at(final(self)@.phase),
            (final(self)@.phase, action@) == old(self)@.metadata_stage(),
    {
        if self.project.trusted {
            self.phase = Phase::ReadingMetadata;
            SyncAction::ReadMetadata { file: join_path(self.path.as_str(), "fw.toml") }
        } else {
            self.succeed()
        }
    }

    fn clone_stage(&mut self, next: usize) -> (action: SyncAction)
        ensures
            final(self)@ == old(self)@.at(final(self)@.phase),
            (final(self)@.phase, action@) == old(self)@.clone_stage(next as int),
    {
        if let Some(more) = &self.project.additional_remotes {
            if next < more.len() {
                let remote = &more[next];
                let action = SyncAction::AddRemote {
                    path: self.path.clone(),
                    name: remote.name.clone(),
                    url: remote.git.clone(),
                };
                self.phase = Phase::AddingRemote(next);
                return action;
            }
        }
        if self.hooks.len() > 0 {
            self.phase = Phase::Hooking;
            SyncAction::RunHook {
                shell: clone_list(&self.shell),
                command: join(&self.hooks, " && "),
                workdir: self.path.clone(),
                project_name: self.project.name.clone(),
            }
        } else {
            self.metadata_stage()
        }
    }

    fn update_stage(&mut self, next: usize) -> (action: SyncAction)
        ensures
            final(self)@ == old(self)@.at(final(self)@.phase),
            (final(self)@.phase, action@) == old(self)@.update_stage(next as int),
    {
        let known = match &self.project.additional_remotes {
            Some(more) => more.len(),
            None => 0,
        };
        if next < known {
            if let Some(more) = &self.project.additional_remotes {
                let remote = &more[next];
                let action = SyncAction::UpdateRemote {
                    path: self.path.clone(),
                    name: remote.name.clone(),
                    url: remote.git.clone(),
                };
                self.phase = Phase::UpdatingRemote(next);
                return action;
            }
        }
        if next == known {
            self.phase = Phase::UpdatingRemote(next);
            SyncAction::UpdateRemote {
                path: self.path.clone(),
                name: String::from_str("origin"),
                url: self.project.git.clone(),
            }
        } else {
            self.after_updates()
        }
    }

    /// The number of remotes that the project names beside `origin`.
    fn known_remotes(&self) -> (known: usize)
        ensures
            known == additional(self@.project).len(),
            remotes(self@.project).len() == known + 1,
    {
        match &self.project.additional_remotes {
            Some(more) => more.len(),
            None => 0,
        }
    }

    fn after_updates(&mut self) -> (action: SyncAction)
        ensures
            final(self)@ == old(self)@.at(final(self)@.phase),
            !(final(self)@.phase is AddingRemote || final(self)@.phase is UpdatingRemote),
            forall|next: int|
                next >= remotes(old(self)@.project).len() ==> (final(self)@.phase, action@) == old(
                    self,
                )@.update_stage(next),
    {
        if self.ff_merge {
            self.phase = Phase::Merging;
            SyncAction::FastForward { path: self.path.clone() }
        } else {
            self.metadata_stage()
        }
    }

    /// What follows `event`: the job moves on and names the next action.
    pub fn next(&mut self, event: SyncEvent) -> (action: SyncAction)
        ensures
            final(self)@ == old(self)@.at(final(self)@.phase),
            (final(self)@.phase, action@) == old(self)@.step(event@),
            old(self)@.guarded(),
            final(self)@.guarded(),
    {
        proof {
            use_type_invariant(&*self);
        }
        match self.phase {
            Phase::Checking => match event {
                SyncEvent::Exists(true) => if self.only_new {
                    self.metadata_stage()
                } else {
                    self.update_stage(0)
                },
                SyncEvent::Exists(false) => {
                    self.phase = Phase::Cloning;
                    SyncAction::Clone {
                        url: self.project.git.clone(),
                        path: self.path.clone(),
                        bare: match self.project.bare {
                            Some(b) => b,
                            None => false,
                        },
                    }
                },
                _ => self.confused(),
            },
            Phase::Cloning | Phase::AddingRemote(_) | Phase::Hooking => clone_project(self, event),
            Phase::UpdatingRemote(_) | Phase::Merging => update_project_remotes(self, event),
            Phase::ReadingMetadata | Phase::Writing => synchronize_metadata_if_trusted(
                self,
                event,
            ),
            Phase::Ended => self.confused(),
        }
    }

    /// The place that the job is at lies within the project's remotes, and
    /// only the job of a trusted project waits for metadata or for the
    /// project's file.
    #[verifier::type_invariant]
    spec fn sound(&self) -> bool {
        match self.phase {
            Phase::AddingRemote(i) => i < additional(self.project@).len(),
            Phase::UpdatingRemote(i) => i < remotes(self.project@).len(),
            Phase::ReadingMetadata | Phase::Writing => self.project.trusted,
            _ => true,
        }
    }

}

/// The part of a job that follows a missing path: the clone, the additional
/// remotes, the hooks. A failure of the clone or of a remote ends the job
/// before any hook runs; a failed hook ends it as failed, though the clone
/// stays.
pub fn clone_project(job: &mut SyncJob, event: SyncEvent) -> (action: SyncAction)
    ensures
        final(job)@ == old(job)@.at(final(job)@.phase),
        (final(job)@.phase, action@) == (if old(job)@.phase is Cloning || old(job)@.phase
            is AddingRemote || old(job)@.phase is Hooking {
            old(job)@.step(event@)
        } else {
            old(job)@.confused()
        }),
{
    proof {
        use_type_invariant(&*job);
    }
    match job.phase {
        Phase::Cloning | Phase::AddingRemote(_) | Phase::Hooking => {},
        _ => {
            return job.confused();
        },
    }
    match event {
        SyncEvent::Done(Ok(_)) => match job.phase {
            Phase::Cloning => job.clone_stage(0),
            Phase::AddingRemote(i) => {
                let known = job.known_remotes();
                job.clone_stage(i + 1)
            },
            _ => job.metadata_stage(),
        },
        SyncEvent::Done(Err(e)) => match job.phase {
            Phase::Hooking => {
                let mut text = String::from_str(
                    "Post-clone hook failed (nonzero exit code). Cause: ",
                );
                text.append(e.message().as_str());
                job.fail(&AppError::UserError(text))
            },
            _ => job.fail(&e),
        },
        _ => job.confused(),
    }
}

/// The part of a job that follows an existing path: every remote is brought
/// up to date, the additional ones first and `origin` last, and the branch is
/// fast-forwarded where that was asked for. A remote that fails ends the
/// job; a fast-forward that fails does not.
pub fn update_project_remotes(job: &mut SyncJob, event: SyncEvent) -> (action: SyncAction)
    ensures
        final(job)@ == old(job)@.at(final(job)@.phase),
        (final(job)@.phase, action@) == (if old(job)@.phase is UpdatingRemote || old(job)@.phase
            is Merging {
            old(job)@.step(event@)
        } else {
            old(job)@.confused()
        }),
{
    proof {
        use_type_invariant(&*job);
    }
    match job.phase {
        Phase::UpdatingRemote(_) | Phase::Merging => {},
        _ => {
            return job.confused();
        },
    }
    match job.phase {
        Phase::UpdatingRemote(i) => match event {
            SyncEvent::Done(Ok(_)) => {
                let known = job.known_remotes();
                if i < usize::MAX {
                    job.update_stage(i + 1)
                } else {
                    let ghost before = job@;
                    let action = job.after_updates();
                    assert((job@.phase, action@) == before.update_stage(i + 1));
                    action
                }
            },
            SyncEvent::Done(Err(e)) => job.fail(&e),
            _ => job.confused(),
        },
        _ => match event {
            SyncEvent::Done(_) => job.metadata_stage(),
            _ => job.confused(),
        },
    }
}

/// The part of a job that follows a repository in order. A project that is
/// not trusted is in line as it is: the job ends well, and what its
/// repository says of itself is neither looked at nor written. For a trusted
/// project, where the repository's `fw.toml` names tags, they replace the
/// project's tags, and the project's file is written anew. Nothing but the
/// tags of a project can change this way.
pub fn synchronize_metadata_if_trusted(job: &mut SyncJob, event: SyncEvent) -> (action:
    SyncAction)
    ensures
        final(job)@ == old(job)@.at(final(job)@.phase),
        (final(job)@.phase, action@) == old(job)@.metadata_step(event@),
        !old(job)@.project.trusted ==> final(job)@.phase == Phase::Ended && action@
            == ActionView::Finish(Ok(())),
        action@ is WriteProject ==> old(job)@.project.trusted,
{
    if !job.project.trusted {
        return job.succeed();
    }
    match job.phase {
        Phase::ReadingMetadata | Phase::Writing => {},
        _ => {
            return job.confused();
        },
    }
    match job.phase {
        Phase::ReadingMetadata => match event {
            SyncEvent::Metadata(Ok(Some(metadata))) => match metadata.tags {
                Some(tags) => {
                    let mut project = job.project.clone();
                    project.tags = Some(tags);
                    job.phase = Phase::Writing;
                    SyncAction::WriteProject { project }
                },
                None => job.succeed(),
            },
            SyncEvent::Metadata(Ok(None)) => job.succeed(),
            SyncEvent::Metadata(Err(e)) => job.fail(&e),
            _ => job.confused(),
        },
        _ => match event {
            SyncEvent::Done(Ok(_)) => job.succeed(),
            SyncEvent::Done(Err(e)) => job.fail(&e),
            _ => job.confused(),
        },
    }
}

} // verus!
