use fw::config::project::Project;
use fw::config::settings::{Settings, Tag};
use fw::config::Config;
use fw::name_map::NameMap;
use fw::names::NameSet;
use fw::config::metadata_from_repository::MetadataFromRepository;
use fw::config::project::Remote;
use fw::errors::AppError;
use fw::git::reconcile::{clone_project, sync_project, sync_project_at, synchronize_metadata_if_trusted, update_project_remotes, Phase, SyncAction, SyncEvent, SyncJob};
use fw::git::{fast_forward_merge, needs_new_url, ssh_user, user_from_url};

fn names(list: &[&str]) -> NameSet {
    NameSet::from_vec(list.iter().map(|s| s.to_string()).collect())
}

fn project(name: &str, tags: Option<&[&str]>) -> Project {
    Project {
        name: name.to_owned(),
        git: format!("git@example.org:team/{}.git", name),
        tags: tags.map(names),
        after_clone: None,
        after_workon: None,
        override_path: None,
        additional_remotes: None,
        bare: None,
        trusted: false,
        project_config_path: "".to_string(),
    }
}

fn tag(priority: Option<u8>) -> Tag {
    Tag {
        after_clone: None,
        after_workon: None,
        priority,
        workspace: None,
        default: None,
        tag_config_path: "".to_string(),
    }
}

fn config_of(projects: Vec<Project>, tags: Vec<(&str, Tag)>) -> Config {
    let mut map: NameMap<Project> = NameMap::new();
    for p in projects {
        map.insert(p.name.clone(), p);
    }
    let mut tag_map: NameMap<Tag> = NameMap::new();
    for (name, t) in tags {
        tag_map.insert(name.to_owned(), t);
    }
    Config {
        projects: map,
        settings: Settings {
            workspace: "/work".to_owned(),
            default_after_workon: None,
            default_after_clone: None,
            default_tags: None,
            shell: None,
            tags: Some(tag_map),
            github_token: None,
            gitlab: None,
        },
    }
}

fn two_remotes() -> Project {
    let mut p = project("p", Some(&["t"]));
    p.additional_remotes = Some(vec![
        Remote { name: "upstream".to_owned(), git: "git@up".to_owned() },
        Remote { name: "fork".to_owned(), git: "git@fork".to_owned() },
    ]);
    p
}

fn with_hooks() -> Config {
    let hook = |h: &str, p: Option<u8>| Tag { after_clone: Some(h.to_owned()), ..tag(p) };
    let mut p = two_remotes();
    p.after_clone = Some("own".to_owned());
    config_of(vec![p], vec![("t", hook("tagged", None))])
}

fn start(config: &Config, only_new: bool, ff_merge: bool) -> (SyncJob, SyncAction) {
    sync_project_at(config, config.projects.get("p").unwrap(), "/work/p".to_owned(), only_new, ff_merge)
}

fn git_error() -> AppError {
    AppError::GitError("no route to host".to_owned())
}

fn failed(cause: &str) -> SyncAction {
    SyncAction::Finish(Err(AppError::RuntimeError(format!("Failed to sync p: {}", cause))))
}

#[test]
fn job_begins_by_checking_the_path() {
    let config = with_hooks();
    let (job, action) = start(&config, false, true);
    assert_eq!(action, SyncAction::CheckPath { path: "/work/p".to_owned() });
    assert_eq!(job.phase(), Phase::Checking);
    assert!(!job.has_ended());
    let (_, action) = sync_project(&config, config.projects.get("p").unwrap(), false, true);
    assert_eq!(action, SyncAction::CheckPath { path: "/work/p".to_owned() });
}

#[test]
fn only_new_reads_the_metadata_of_a_trusted_project_and_nothing_else() {
    let mut p = project("p", Some(&["old"]));
    p.trusted = true;
    p.additional_remotes = Some(vec![Remote { name: "upstream".to_owned(), git: "git@up".to_owned() }]);
    let config = config_of(vec![p.clone()], vec![]);
    let (mut job, _) = start(&config, true, true);
    assert_eq!(job.next(SyncEvent::Exists(true)), SyncAction::ReadMetadata { file: "/work/p/fw.toml".to_owned() });
    let metadata = MetadataFromRepository { tags: Some(names(&["t"])) };
    let mut expected = p.clone();
    expected.tags = Some(names(&["t"]));
    assert_eq!(job.next(SyncEvent::Metadata(Ok(Some(metadata)))), SyncAction::WriteProject { project: expected });
    assert_eq!(job.next(SyncEvent::Done(Ok(()))), SyncAction::Finish(Ok(())));
    let (mut job, _) = start(&config, true, true);
    job.next(SyncEvent::Exists(true));
    assert_eq!(job.next(SyncEvent::Metadata(Ok(None))), SyncAction::Finish(Ok(())));
    assert!(job.has_ended());
}

#[test]
fn untrusted_project_is_never_written_from_its_repository() {
    let config = with_hooks();
    let metadata = || SyncEvent::Metadata(Ok(Some(MetadataFromRepository { tags: Some(names(&["evil"])) })));
    let (mut job, _) = start(&config, false, true);
    assert_eq!(synchronize_metadata_if_trusted(&mut job, metadata()), SyncAction::Finish(Ok(())));
    assert!(job.has_ended());
    let (mut job, _) = start(&config, false, false);
    job.next(SyncEvent::Exists(true));
    job.next(SyncEvent::Done(Ok(())));
    job.next(SyncEvent::Done(Ok(())));
    assert_eq!(job.next(SyncEvent::Done(Ok(()))), SyncAction::Finish(Ok(())));
    assert_eq!(job.next(metadata()), SyncAction::Finish(Err(AppError::InternalError("unexpected event"))));
}

#[test]
fn only_new_leaves_an_existing_project_alone() {
    let config = with_hooks();
    let (mut job, _) = start(&config, true, true);
    assert_eq!(job.next(SyncEvent::Exists(true)), SyncAction::Finish(Ok(())));
    assert!(job.has_ended());
    for event in [SyncEvent::Exists(true), SyncEvent::Done(Ok(())), SyncEvent::Metadata(Ok(None))] {
        match job.next(event) {
            SyncAction::Finish(Err(AppError::InternalError(_))) => {}
            other => panic!("an ended job named {:?}", other),
        }
    }
}

#[test]
fn missing_project_is_cloned_with_remotes_and_hooks() {
    let config = with_hooks();
    let (mut job, _) = start(&config, true, false);
    assert_eq!(
        job.next(SyncEvent::Exists(false)),
        SyncAction::Clone { url: "git@example.org:team/p.git".to_owned(), path: "/work/p".to_owned(), bare: false }
    );
    assert_eq!(
        job.next(SyncEvent::Done(Ok(()))),
        SyncAction::AddRemote { path: "/work/p".to_owned(), name: "upstream".to_owned(), url: "git@up".to_owned() }
    );
    assert_eq!(
        job.next(SyncEvent::Done(Ok(()))),
        SyncAction::AddRemote { path: "/work/p".to_owned(), name: "fork".to_owned(), url: "git@fork".to_owned() }
    );
    assert_eq!(
        job.next(SyncEvent::Done(Ok(()))),
        SyncAction::RunHook {
            shell: vec!["sh".to_owned(), "-c".to_owned()],
            command: "tagged && own".to_owned(),
            workdir: "/work/p".to_owned(),
            project_name: "p".to_owned(),
        }
    );
    assert_eq!(job.next(SyncEvent::Done(Ok(()))), SyncAction::Finish(Ok(())));
    assert!(job.has_ended());
}

#[test]
fn clone_failure_runs_no_hook() {
    let config = with_hooks();
    let (mut job, _) = start(&config, false, true);
    job.next(SyncEvent::Exists(false));
    assert_eq!(job.next(SyncEvent::Done(Err(git_error()))), failed("Git error: no route to host"));
    for _ in 0..5 {
        match job.next(SyncEvent::Done(Ok(()))) {
            SyncAction::Finish(Err(_)) => {}
            other => panic!("after a failed clone the job named {:?}", other),
        }
    }
}

#[test]
fn remote_failure_after_clone_runs_no_hook() {
    let config = with_hooks();
    let (mut job, _) = start(&config, false, true);
    job.next(SyncEvent::Exists(false));
    job.next(SyncEvent::Done(Ok(())));
    assert_eq!(job.next(SyncEvent::Done(Err(git_error()))), failed("Git error: no route to host"));
    assert!(job.has_ended());
}

#[test]
fn hook_failure_fails_the_project() {
    let config = with_hooks();
    let (mut job, _) = start(&config, false, true);
    job.next(SyncEvent::Exists(false));
    job.next(SyncEvent::Done(Ok(())));
    job.next(SyncEvent::Done(Ok(())));
    assert_eq!(job.next(SyncEvent::Done(Ok(()))).eq(&SyncAction::Finish(Ok(()))), false);
    assert_eq!(job.phase(), Phase::Hooking);
    assert_eq!(
        job.next(SyncEvent::Done(Err(AppError::UserError("External command failed.".to_owned())))),
        failed("User error: Post-clone hook failed (nonzero exit code). Cause: User error: External command failed.")
    );
    assert!(job.has_ended());
}

#[test]
fn clone_without_hooks_or_remotes_ends_at_once() {
    let mut p = project("p", None);
    p.bare = Some(true);
    let config = config_of(vec![p], vec![]);
    let (mut job, _) = start(&config, false, true);
    assert_eq!(
        job.next(SyncEvent::Exists(false)),
        SyncAction::Clone { url: "git@example.org:team/p.git".to_owned(), path: "/work/p".to_owned(), bare: true }
    );
    assert_eq!(job.next(SyncEvent::Done(Ok(()))), SyncAction::Finish(Ok(())));
}

#[test]
fn existing_project_has_its_remotes_updated_origin_last() {
    let config = with_hooks();
    let (mut job, _) = start(&config, false, true);
    assert_eq!(
        job.next(SyncEvent::Exists(true)),
        SyncAction::UpdateRemote { path: "/work/p".to_owned(), name: "upstream".to_owned(), url: "git@up".to_owned() }
    );
    assert_eq!(
        job.next(SyncEvent::Done(Ok(()))),
        SyncAction::UpdateRemote { path: "/work/p".to_owned(), name: "fork".to_owned(), url: "git@fork".to_owned() }
    );
    assert_eq!(
        job.next(SyncEvent::Done(Ok(()))),
        SyncAction::UpdateRemote { path: "/work/p".to_owned(), name: "origin".to_owned(), url: "git@example.org:team/p.git".to_owned() }
    );
    assert_eq!(job.next(SyncEvent::Done(Ok(()))), SyncAction::FastForward { path: "/work/p".to_owned() });
    assert_eq!(job.next(SyncEvent::Done(Err(git_error()))), SyncAction::Finish(Ok(())));
}

#[test]
fn update_without_fast_forward_and_with_a_failing_remote() {
    let config = config_of(vec![project("p", None)], vec![]);
    let (mut job, _) = start(&config, false, false);
    assert_eq!(
        job.next(SyncEvent::Exists(true)),
        SyncAction::UpdateRemote { path: "/work/p".to_owned(), name: "origin".to_owned(), url: "git@example.org:team/p.git".to_owned() }
    );
    assert_eq!(job.next(SyncEvent::Done(Ok(()))), SyncAction::Finish(Ok(())));
    let (mut job, _) = start(&config, false, true);
    job.next(SyncEvent::Exists(true));
    assert_eq!(job.next(SyncEvent::Done(Err(git_error()))), failed("Git error: no route to host"));
}

#[test]
fn trusted_project_takes_its_tags_from_the_repository() {
    let mut p = project("p", Some(&["old"]));
    p.trusted = true;
    p.after_workon = Some("keep me".to_owned());
    let config = config_of(vec![p.clone()], vec![]);
    let (mut job, _) = start(&config, false, false);
    job.next(SyncEvent::Exists(true));
    assert_eq!(job.next(SyncEvent::Done(Ok(()))), SyncAction::ReadMetadata { file: "/work/p/fw.toml".to_owned() });
    let metadata = MetadataFromRepository { tags: Some(names(&["new", "newer"])) };
    let mut expected = p.clone();
    expected.tags = Some(names(&["new", "newer"]));
    assert_eq!(job.next(SyncEvent::Metadata(Ok(Some(metadata)))), SyncAction::WriteProject { project: expected });
    assert_eq!(job.next(SyncEvent::Done(Ok(()))), SyncAction::Finish(Ok(())));
}

#[test]
fn trusted_project_without_metadata_stays_as_it_is() {
    let mut p = project("p", Some(&["old"]));
    p.trusted = true;
    let config = config_of(vec![p], vec![]);
    for metadata in [None, Some(MetadataFromRepository { tags: None })] {
        let (mut job, _) = start(&config, false, false);
        job.next(SyncEvent::Exists(true));
        job.next(SyncEvent::Done(Ok(())));
        assert_eq!(job.next(SyncEvent::Metadata(Ok(metadata))), SyncAction::Finish(Ok(())));
    }
    let (mut job, _) = start(&config, false, false);
    job.next(SyncEvent::Exists(true));
    job.next(SyncEvent::Done(Ok(())));
    assert_eq!(
        job.next(SyncEvent::Metadata(Err(AppError::TomlDeError("bad".to_owned())))),
        failed("toml read error: bad")
    );
    let (mut job, _) = start(&config, false, false);
    job.next(SyncEvent::Exists(true));
    job.next(SyncEvent::Done(Ok(())));
    job.next(SyncEvent::Metadata(Ok(Some(MetadataFromRepository { tags: Some(names(&["x"])) }))));
    assert_eq!(job.next(SyncEvent::Done(Err(AppError::Io("disk full".to_owned())))), failed("Io error: disk full"));
}

#[test]
fn event_that_answers_nothing_ends_the_job() {
    let config = with_hooks();
    let (mut job, _) = start(&config, false, true);
    assert_eq!(
        job.next(SyncEvent::Done(Ok(()))),
        SyncAction::Finish(Err(AppError::InternalError("unexpected event")))
    );
    let (mut job, _) = start(&config, false, true);
    assert_eq!(
        clone_project(&mut job, SyncEvent::Done(Ok(()))),
        SyncAction::Finish(Err(AppError::InternalError("unexpected event")))
    );
    let (mut job, _) = start(&config, false, true);
    assert_eq!(
        update_project_remotes(&mut job, SyncEvent::Done(Ok(()))),
        SyncAction::Finish(Err(AppError::InternalError("unexpected event")))
    );
    let mut trusted = project("p", None);
    trusted.trusted = true;
    let trusting = config_of(vec![trusted], vec![]);
    let (mut job, _) = start(&trusting, false, true);
    assert_eq!(
        synchronize_metadata_if_trusted(&mut job, SyncEvent::Metadata(Ok(None))),
        SyncAction::Finish(Err(AppError::InternalError("unexpected event")))
    );
}

#[test]
fn users_of_urls() {
    assert_eq!(user_from_url("git@github.com:brocode/fw.git"), Some("git"));
    assert_eq!(user_from_url("ssh://deploy@host.example/repo.git"), Some("deploy"));
    assert_eq!(user_from_url("https://github.com/brocode/fw"), None);
    assert_eq!(user_from_url("@host:repo"), None);
    assert_eq!(user_from_url("host:path@weird"), None);
    assert_eq!(user_from_url(""), None);
    assert_eq!(ssh_user("me@host:x", Some("env".to_owned())), "me");
    assert_eq!(ssh_user("https://host/x", Some("env".to_owned())), "env");
    assert_eq!(ssh_user("https://host/x", None), "git");
    assert!(!needs_new_url(Some("git@host:x.git"), "git@host:x.git"));
    assert!(needs_new_url(Some("git@host:x.git"), "git@host:y.git"));
    assert!(needs_new_url(Some(""), "git@host:y.git"));
    assert!(needs_new_url(None, "git@host:y.git"));
    assert!(fast_forward_merge(true, true, true));
    assert!(!fast_forward_merge(false, true, true));
    assert!(!fast_forward_merge(true, false, true));
    assert!(!fast_forward_merge(true, true, false));
}
