use fw::config::project::Project;
use fw::config::settings::{Settings, Tag};
use fw::config::Config;
use fw::name_map::NameMap;
use fw::names::NameSet;
use fw::errors::AppError;
use fw::errors::exit_code;
use fw::sync::{fold_results, is_wanted, outcome_message, select_projects, shows_progress, ssh_agent_running, synchronize, worker_prefix, Handout, Pool};

fn names(list: &[&str]) -> NameSet {
    NameSet::from_vec(list.iter().map(|s| s.to_string()).collect())
}

fn project(name: &str, tags: Option<&[&str]>) -> Project {
    Project {
        name: name.to_owned(),
        git: format!("git@example.org:team/{}.git", name),
        tags: tags.map(names),
        after_clone: None,
        after_workon: None,
        override_path: None,
        additional_remotes: None,
        bare: None,
        trusted: false,
        project_config_path: "".to_string(),
    }
}

fn tag(priority: Option<u8>) -> Tag {
    Tag {
        after_clone: None,
        after_workon: None,
        priority,
        workspace: None,
        default: None,
        tag_config_path: "".to_string(),
    }
}

fn config_of(projects: Vec<Project>, tags: Vec<(&str, Tag)>) -> Config {
    let mut map: NameMap<Project> = NameMap::new();
    for p in projects {
        map.insert(p.name.clone(), p);
    }
    let mut tag_map: NameMap<Tag> = NameMap::new();
    for (name, t) in tags {
        tag_map.insert(name.to_owned(), t);
    }
    Config {
        projects: map,
        settings: Settings {
            workspace: "/work".to_owned(),
            default_after_workon: None,
            default_after_clone: None,
            default_tags: None,
            shell: None,
            tags: Some(tag_map),
            github_token: None,
            gitlab: None,
        },
    }
}

fn many(n: usize) -> Vec<Project> {
    (0..n).map(|i| project(&format!("p{:03}", i), None)).collect()
}

fn fail(name: &str) -> AppError {
    AppError::RuntimeError(format!("Failed to sync {}", name))
}

fn drain(pool: &mut Pool, order: &[usize], fails: &[usize]) -> Vec<usize> {
    let mut attempts = vec![0usize; pool.len()];
    let mut turn = 0;
    while !pool.is_complete() {
        let worker = order[turn % order.len()];
        turn += 1;
        match pool.take(worker) {
            Handout::Job { index, project } => {
                assert_eq!(project.name, format!("p{:03}", index));
                attempts[index] += 1;
                let result = if fails.contains(&index) { Err(fail(&project.name)) } else { Ok(()) };
                assert!(pool.record(worker, result));
            }
            Handout::Retire | Handout::Refused => {}
        }
        assert!(turn < 10_000);
    }
    attempts
}

#[test]
fn every_project_is_attempted_exactly_once() {
    for workers in [1usize, 2, 3, 7, 8, 20] {
        for jobs in [0usize, 1, 5, 8, 9, 40] {
            let mut pool = Pool::new(many(jobs), workers);
            assert_eq!(pool.len(), jobs);
            assert_eq!(pool.workers(), workers);
            let order: Vec<usize> = (0..workers).rev().collect();
            let attempts = drain(&mut pool, &order, &[]);
            assert!(attempts.iter().all(|n| *n == 1), "{} workers, {} jobs: {:?}", workers, jobs, attempts);
            for j in 0..jobs {
                assert_eq!(pool.result_of(j), Some(Ok(())));
            }
            assert_eq!(pool.result_of(jobs), None);
            assert_eq!(pool.verdict(), Ok(()));
        }
    }
}

#[test]
fn jobs_leave_the_queue_in_order() {
    let mut pool = Pool::new(many(3), 2);
    assert!(matches!(pool.take(1), Handout::Job { index: 0, .. }));
    assert!(matches!(pool.take(0), Handout::Job { index: 1, .. }));
    assert!(matches!(pool.take(0), Handout::Refused));
    assert!(matches!(pool.take(2), Handout::Refused));
    assert_eq!(pool.result_of(0), None);
    assert!(!pool.record(2, Ok(())));
    assert!(pool.record(0, Ok(())));
    assert!(!pool.record(0, Ok(())));
    assert!(matches!(pool.take(0), Handout::Job { index: 2, .. }));
    assert!(pool.record(1, Ok(())));
    assert!(matches!(pool.take(1), Handout::Retire));
    assert!(matches!(pool.take(1), Handout::Refused));
    assert!(!pool.is_complete());
    assert!(pool.record(0, Ok(())));
    assert!(matches!(pool.take(0), Handout::Retire));
    assert!(pool.is_complete());
}

#[test]
fn failure_does_not_stop_the_rest_and_fails_the_batch() {
    let mut pool = Pool::new(many(6), 2);
    let attempts = drain(&mut pool, &[0, 1, 1], &[1, 4]);
    assert_eq!(attempts, vec![1; 6]);
    for j in [0usize, 2, 3, 5] {
        assert_eq!(pool.result_of(j), Some(Ok(())));
    }
    assert_eq!(pool.result_of(1), Some(Err(fail("p001"))));
    assert_eq!(pool.result_of(4), Some(Err(fail("p004"))));
    let verdict = pool.verdict();
    assert!(verdict == Err(fail("p001")) || verdict == Err(fail("p004")));
    assert_eq!(pool.verdict(), verdict);
    assert!(pool.is_complete());
}

#[test]
fn pool_without_workers_attempts_nothing() {
    let mut pool = Pool::new(many(2), 0);
    assert!(pool.is_complete());
    assert_eq!(pool.result_of(0), None);
    assert_eq!(pool.verdict(), Ok(()));
}

#[test]
fn synchronize_selects_by_tag() {
    let config = || config_of(
        vec![project("a", Some(&["x"])), project("b", Some(&["y", "z"])), project("c", None)],
        vec![],
    );
    let all = synchronize(Ok(config()), &NameSet::new(), 8).unwrap();
    assert_eq!((all.len(), all.workers()), (3, 8));
    let some = synchronize(Ok(config()), &names(&["z", "x"]), 1).unwrap();
    assert_eq!(some.len(), 2);
    let none = synchronize(Ok(config()), &names(&["q"]), -3).unwrap();
    assert_eq!((none.len(), none.workers()), (0, 0));
    let selected: Vec<String> = select_projects(&config(), &names(&["y"])).into_iter().map(|p| p.name).collect();
    assert_eq!(selected, vec!["b".to_string()]);
    assert!(is_wanted(&project("c", None), &NameSet::new()));
    assert!(!is_wanted(&project("c", None), &names(&["x"])));
    match synchronize(Err(AppError::RuntimeError("no settings".to_owned())), &NameSet::new(), 8) {
        Err(e) => assert_eq!(e, AppError::RuntimeError("no settings".to_owned())),
        Ok(_) => panic!("a missing configuration must fail the run"),
    }
}

#[test]
fn folding_results_gives_the_first_failure() {
    assert_eq!(fold_results(&vec![]), Ok(()));
    assert_eq!(fold_results(&vec![Ok(()), Ok(())]), Ok(()));
    assert_eq!(fold_results(&vec![Ok(()), Err(fail("a")), Err(fail("b"))]), Err(fail("a")));
}

#[test]
fn words_for_the_progress() {
    assert_eq!(outcome_message("p", &Ok(())), "DONE: p");
    assert_eq!(outcome_message("p", &Err(AppError::GitError("x".to_owned()))), "FAILED: p - Git error: x");
    assert_eq!(worker_prefix(3, 8), "[ 3/8]");
    assert_eq!(worker_prefix(12, 128), "[12/128]");
    assert!(shows_progress(false, true));
    assert!(!shows_progress(true, true));
    assert!(!shows_progress(false, false));
    assert_eq!(exit_code(&Ok(())), 0);
    assert_eq!(exit_code(&Err(AppError::UserError("x".to_owned()))), 1);
    assert!(ssh_agent_running(Some(true)));
    assert!(!ssh_agent_running(Some(false)));
    assert!(!ssh_agent_running(None));
}
