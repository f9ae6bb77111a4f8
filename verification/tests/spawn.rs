use fw::config::project::Project;
use fw::config::settings::{Settings, Tag};
use fw::config::Config;
use fw::name_map::NameMap;
use fw::names::NameSet;
use fw::errors::AppError;
use fw::spawn::{command_line, exit_result, foreach, frame, init_threads, output_line, prefix, spawn_maybe, ForwardAction, Forwarder, Invocation, RunAction, RunEvent, RunPhase, Threads};
use fw::util::{colours, picked_or_black, random_color, Colour};

fn names(list: &[&str]) -> NameSet {
    NameSet::from_vec(list.iter().map(|s| s.to_string()).collect())
}

fn project(name: &str, tags: Option<&[&str]>) -> Project {
    Project {
        name: name.to_owned(),
        git: format!("git@example.org:team/{}.git", name),
        tags: tags.map(names),
        after_clone: None,
        after_workon: None,
        override_path: None,
        additional_remotes: None,
        bare: None,
        trusted: false,
        project_config_path: "".to_string(),
    }
}

fn tag(priority: Option<u8>) -> Tag {
    Tag {
        after_clone: None,
        after_workon: None,
        priority,
        workspace: None,
        default: None,
        tag_config_path: "".to_string(),
    }
}

fn config_of(projects: Vec<Project>, tags: Vec<(&str, Tag)>) -> Config {
    let mut map: NameMap<Project> = NameMap::new();
    for p in projects {
        map.insert(p.name.clone(), p);
    }
    let mut tag_map: NameMap<Tag> = NameMap::new();
    for (name, t) in tags {
        tag_map.insert(name.to_owned(), t);
    }
    Config {
        projects: map,
        settings: Settings {
            workspace: "/work".to_owned(),
            default_after_workon: None,
            default_after_clone: None,
            default_tags: None,
            shell: None,
            tags: Some(tag_map),
            github_token: None,
            gitlab: None,
        },
    }
}

#[test]
fn prefix_is_right_aligned_and_cut() {
    assert_eq!(prefix("fw", false), format!("{:>25.25} |", "fw"));
    assert_eq!(prefix("fw", true), format!("{:>21.21} |", "fw"));
    let long = "a-project-with-a-very-long-name-indeed";
    assert_eq!(prefix(long, false), format!("{:>25.25} |", long));
    assert_eq!(prefix(long, true), "a-project-with-a-very |");
    assert_eq!(prefix("", true), "                      |");
    assert_eq!(prefix("\u{e4}\u{f6}\u{fc}", true).chars().count(), 23);
}

#[test]
fn lines_keep_what_was_printed() {
    assert_eq!(output_line("fw", "hello\n", Colour::Green, false, false), format!("{:>25.25} | hello\n", "fw"));
    assert_eq!(output_line("fw", "oops\n", Colour::Green, false, true), format!("ERR {:>21.21} | oops\n", "fw"));
    for (atty, err) in [(true, false), (true, true)] {
        let line = output_line("fw", "some output\n", Colour::Rgb(255, 165, 0), atty, err);
        assert!(line.ends_with(" some output\n"));
        assert!(line.contains("fw |"));
    }
    assert_eq!(frame(Some("ERR"), "p |", "x"), "ERR p | x");
    assert_eq!(frame(None, "p |", ""), "p | ");
}

#[test]
fn exit_codes() {
    assert_eq!(exit_result(Some(0)), Ok(()));
    for code in [None, Some(1), Some(2), Some(127), Some(255), Some(-1), Some(i32::MIN)] {
        assert_eq!(exit_result(code), Err(AppError::UserError("External command failed.".to_owned())));
    }
}

#[test]
fn shell_and_command() {
    let shell = vec!["zsh".to_owned(), "-i".to_owned(), "-c".to_owned()];
    assert_eq!(
        command_line(&shell, "make test"),
        Ok(("zsh".to_owned(), vec!["-i".to_owned(), "-c".to_owned(), "make test".to_owned()]))
    );
    assert_eq!(
        command_line(&vec![], "make"),
        Err(AppError::UserError("shell entry in project settings must have at least one element".to_owned()))
    );
}

#[test]
fn all_output_is_forwarded_before_a_failure_is_reported() {
    let shell = vec!["sh".to_owned(), "-c".to_owned()];
    let (mut runner, first) = spawn_maybe(&shell, "loud && false", "/work/p", "p", Colour::Blue);
    assert_eq!(
        first,
        RunAction::Spawn {
            program: "sh".to_owned(),
            args: vec!["-c".to_owned(), "loud && false".to_owned()],
            workdir: "/work/p".to_owned(),
            project_name: "p".to_owned(),
        }
    );
    assert_eq!(runner.next(RunEvent::Spawned(Ok(()))), RunAction::ForwardStderr);
    let out = runner.stdout_forwarder(false);
    let err = runner.stderr_forwarder(false);
    let mut printed = Vec::new();
    for k in 0..4 {
        match out.next(Ok(Some(format!("out {}\n", k)))) {
            ForwardAction::Print(text) => printed.push(text),
            other => panic!("a line was answered with {:?}", other),
        }
    }
    for j in 0..3 {
        match err.next(Ok(Some(format!("err {}\n", j)))) {
            ForwardAction::Print(text) => printed.push(text),
            other => panic!("a line was answered with {:?}", other),
        }
    }
    assert_eq!(out.next(Ok(None)), ForwardAction::Finish(Ok(())));
    assert_eq!(err.next(Ok(None)), ForwardAction::Finish(Ok(())));
    assert_eq!(printed.len(), 7);
    assert_eq!(printed[0], format!("{:>25.25} | out 0\n", "p"));
    assert_eq!(printed[6], format!("ERR {:>21.21} | err 2\n", "p"));
    assert_eq!(runner.next(RunEvent::StderrForwarded(Ok(()))), RunAction::JoinStdout);
    assert_eq!(runner.next(RunEvent::StdoutForwarded(Ok(()))), RunAction::Wait);
    assert_eq!(
        runner.next(RunEvent::Exited(Ok(Some(3)))),
        RunAction::Finish(Err(AppError::UserError("External command failed.".to_owned())))
    );
    assert_eq!(runner.phase, RunPhase::Ended);
}

#[test]
fn run_ends_at_the_first_failure() {
    let shell = vec!["sh".to_owned()];
    let io = || AppError::Io("broken pipe".to_owned());
    let (mut runner, _) = spawn_maybe(&shell, "x", "/w", "p", Colour::Red);
    assert_eq!(runner.next(RunEvent::Spawned(Err(io()))), RunAction::Finish(Err(io())));
    let (mut runner, _) = spawn_maybe(&shell, "x", "/w", "p", Colour::Red);
    runner.next(RunEvent::Spawned(Ok(())));
    assert_eq!(runner.next(RunEvent::StderrForwarded(Err(io()))), RunAction::Finish(Err(io())));
    assert_eq!(runner.next(RunEvent::Exited(Ok(Some(0)))), RunAction::Finish(Err(AppError::InternalError("unexpected event"))));
    let (mut runner, _) = spawn_maybe(&shell, "x", "/w", "p", Colour::Red);
    runner.next(RunEvent::Spawned(Ok(())));
    runner.next(RunEvent::StderrForwarded(Ok(())));
    assert_eq!(runner.next(RunEvent::StdoutForwarded(Err(io()))), RunAction::Finish(Err(io())));
    let (mut runner, _) = spawn_maybe(&shell, "x", "/w", "p", Colour::Red);
    runner.next(RunEvent::Spawned(Ok(())));
    runner.next(RunEvent::StderrForwarded(Ok(())));
    runner.next(RunEvent::StdoutForwarded(Ok(())));
    assert_eq!(runner.next(RunEvent::Exited(Ok(Some(0)))), RunAction::Finish(Ok(())));
    let (runner, first) = spawn_maybe(&vec![], "x", "/w", "p", Colour::Red);
    assert_eq!(runner.phase, RunPhase::Ended);
    assert_eq!(
        first,
        RunAction::Finish(Err(AppError::UserError("shell entry in project settings must have at least one element".to_owned())))
    );
    let forwarder = Forwarder { name: "p".to_owned(), colour: Colour::Red, atty: false, mark_err: true };
    assert_eq!(forwarder.next(Err(io())), ForwardAction::Finish(Err(io())));
}

#[test]
fn number_of_threads_is_fixed_once() {
    let mut threads = Threads::new();
    assert_eq!(threads.fixed(), None);
    assert_eq!(init_threads(&mut threads, &None), Ok(()));
    assert_eq!(threads.fixed(), None);
    for (text, why) in [
        ("", "cannot parse integer from empty string"),
        ("four", "invalid digit found in string"),
        ("-1", "invalid digit found in string"),
        ("+", "invalid digit found in string"),
        ("99999999999999999999999999", "number too large to fit in target type"),
    ] {
        assert_eq!(
            init_threads(&mut threads, &Some(text.to_owned())),
            Err(AppError::UserError(format!("Type error: {}", why)))
        );
        assert_eq!(threads.fixed(), None);
    }
    assert_eq!(init_threads(&mut threads, &Some("+4".to_owned())), Ok(()));
    assert_eq!(threads.fixed(), Some(4));
    match init_threads(&mut threads, &Some("5".to_owned())) {
        Err(AppError::InternalError(text)) => assert!(text.starts_with("Tried to initialize rayon more than once")),
        other => panic!("a second number was answered with {:?}", other),
    }
    assert_eq!(threads.fixed(), Some(4));
    assert_eq!(init_threads(&mut threads, &None), Ok(()));
}

#[test]
fn foreach_plans_one_command_for_each_wanted_project() {
    let config = || config_of(vec![project("a", Some(&["x"])), project("b", None), project("c", Some(&["x", "y"]))], vec![]);
    let mut threads = Threads::new();
    let plan = foreach(Ok(config()), "git status", &names(&["x"]), &Some("2".to_owned()), &mut threads).unwrap();
    assert_eq!(threads.fixed(), Some(2));
    let expect = |name: &str| Invocation {
        shell: vec!["sh".to_owned(), "-c".to_owned()],
        command: "git status".to_owned(),
        workdir: format!("/work/{}", name),
        project_name: name.to_owned(),
    };
    assert_eq!(plan, vec![expect("a"), expect("c")]);
    let all = foreach(Ok(config()), "git status", &NameSet::new(), &None, &mut threads).unwrap();
    assert_eq!(all, vec![expect("a"), expect("b"), expect("c")]);
    assert!(matches!(
        foreach(Ok(config()), "x", &NameSet::new(), &Some("3".to_owned()), &mut threads),
        Err(AppError::InternalError(_))
    ));
    assert_eq!(
        foreach(Err(AppError::Io("gone".to_owned())), "x", &NameSet::new(), &Some("zz".to_owned()), &mut Threads::new()),
        Err(AppError::Io("gone".to_owned()))
    );
}

#[test]
fn random_colour_is_of_the_palette() {
    let palette = colours();
    assert_eq!(palette.len(), 12);
    assert_eq!(palette[0], Colour::Green);
    assert_eq!(palette[5], Colour::Rgb(255, 165, 0));
    assert_eq!(palette[11], Colour::Magenta);
    for _ in 0..200 {
        assert!(palette.contains(&random_color()));
    }
    assert_eq!(picked_or_black(Some(Colour::Cyan)), Colour::Cyan);
    assert_eq!(picked_or_black(Some(Colour::Rgb(1, 2, 3))), Colour::Rgb(1, 2, 3));
    assert_eq!(picked_or_black(None), Colour::Black);
}
