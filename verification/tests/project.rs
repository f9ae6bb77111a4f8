use fw::config::project::Project;
use fw::config::settings::{Settings, Tag};
use fw::config::Config;
use fw::name_map::NameMap;
use fw::names::NameSet;
use fw::config::project::Remote;
use fw::errors::AppError;
use fw::project::{add_entry, add_remote, describe, field, inspect, ls, print_path, remove_project, remove_remote, update_entry};

fn names(list: &[&str]) -> NameSet {
    NameSet::from_vec(list.iter().map(|s| s.to_string()).collect())
}

fn project(name: &str, tags: Option<&[&str]>) -> Project {
    Project {
        name: name.to_owned(),
        git: format!("git@example.org:team/{}.git", name),
        tags: tags.map(names),
        after_clone: None,
        after_workon: None,
        override_path: None,
        additional_remotes: None,
        bare: None,
        trusted: false,
        project_config_path: "".to_string(),
    }
}

fn tag(priority: Option<u8>) -> Tag {
    Tag {
        after_clone: None,
        after_workon: None,
        priority,
        workspace: None,
        default: None,
        tag_config_path: "".to_string(),
    }
}

fn config_of(projects: Vec<Project>, tags: Vec<(&str, Tag)>) -> Config {
    let mut map: NameMap<Project> = NameMap::new();
    for p in projects {
        map.insert(p.name.clone(), p);
    }
    let mut tag_map: NameMap<Tag> = NameMap::new();
    for (name, t) in tags {
        tag_map.insert(name.to_owned(), t);
    }
    Config {
        projects: map,
        settings: Settings {
            workspace: "/work".to_owned(),
            default_after_workon: None,
            default_after_clone: None,
            default_tags: None,
            shell: None,
            tags: Some(tag_map),
            github_token: None,
            gitlab: None,
        },
    }
}

fn a_config() -> Config {
    let mut fw = project("fw", Some(&["rust"]));
    fw.after_clone = Some("cargo build".to_owned());
    fw.additional_remotes = Some(vec![Remote { name: "upstream".to_owned(), git: "git@up".to_owned() }]);
    let mut config = config_of(vec![fw, project("docs", None)], vec![("rust", tag(None))]);
    config.settings.default_after_clone = Some("echo cloned".to_owned());
    config.settings.default_after_workon = Some("echo hi".to_owned());
    config.settings.default_tags = Some(names(&["always"]));
    config
}

fn unreadable() -> AppError {
    AppError::RuntimeError("Could not read settings file".to_owned())
}

#[test]
fn adding_a_project() {
    let added = add_entry(Ok(a_config()), None, "git@github.com:brocode/new.git", None, Some("make".to_owned()), None, Some(names(&["x"])), true).unwrap();
    let expected = Project {
        name: "new".to_owned(),
        git: "git@github.com:brocode/new.git".to_owned(),
        after_clone: Some("make".to_owned()),
        after_workon: Some("echo hi".to_owned()),
        override_path: None,
        bare: None,
        tags: Some(names(&["always", "x"])),
        additional_remotes: None,
        trusted: true,
        project_config_path: "default".to_owned(),
    };
    assert_eq!(added, expected);
    let named = add_entry(Ok(a_config()), Some("mine".to_owned()), "https://host/x/y", None, None, Some("/p".to_owned()), None, false).unwrap();
    assert_eq!(named.name, "mine");
    assert_eq!(named.tags, Some(names(&["always"])));
    assert_eq!(named.override_path, Some("/p".to_owned()));
    assert_eq!(named.after_clone, Some("echo cloned".to_owned()));
    let mut bare = a_config();
    bare.settings.default_tags = None;
    assert_eq!(add_entry(Ok(bare), None, "x/y", None, None, None, Some(names(&["t"])), false).unwrap().tags, Some(names(&["t"])));
    assert_eq!(
        add_entry(Ok(a_config()), None, "git@github.com:brocode/fw.git", None, None, None, None, false),
        Err(AppError::UserError("Project key fw already exists, not gonna overwrite it for you".to_owned()))
    );
    assert_eq!(add_entry(Err(unreadable()), None, "x", None, None, None, None, false), Err(unreadable()));
}

#[test]
fn removing_a_project() {
    let removal = remove_project(Ok(a_config()), "docs", true).unwrap();
    assert_eq!(removal.project.name, "docs");
    assert_eq!(removal.purge, Some("/work/docs".to_owned()));
    assert_eq!(remove_project(Ok(a_config()), "docs", false).unwrap().purge, None);
    match remove_project(Ok(a_config()), "nope", true) {
        Err(e) => assert_eq!(e, AppError::UserError("Project key nope does not exist in config".to_owned())),
        Ok(_) => panic!("a project that is not there was removed"),
    }
    assert!(matches!(remove_project(Err(unreadable()), "docs", true), Err(e) if e == unreadable()));
}

#[test]
fn remotes_of_a_project() {
    let changed = add_remote(Ok(a_config()), "fw", "fork".to_owned(), "git@fork".to_owned()).unwrap();
    assert_eq!(
        changed.additional_remotes,
        Some(vec![Remote { name: "upstream".to_owned(), git: "git@up".to_owned() }, Remote { name: "fork".to_owned(), git: "git@fork".to_owned() }])
    );
    assert_eq!(changed.after_clone, Some("cargo build".to_owned()));
    assert_eq!(
        add_remote(Ok(a_config()), "docs", "fork".to_owned(), "git@fork".to_owned()).unwrap().additional_remotes,
        Some(vec![Remote { name: "fork".to_owned(), git: "git@fork".to_owned() }])
    );
    assert_eq!(
        add_remote(Ok(a_config()), "fw", "upstream".to_owned(), "git@other".to_owned()),
        Err(AppError::UserError("Remote upstream for project fw does already exist. Can not add.".to_owned()))
    );
    assert_eq!(
        add_remote(Ok(a_config()), "nope", "r".to_owned(), "g".to_owned()),
        Err(AppError::UserError("Project key nope does not exists. Can not update.".to_owned()))
    );
    assert_eq!(remove_remote(Ok(a_config()), "fw", "upstream".to_owned()).unwrap().additional_remotes, Some(vec![]));
    assert_eq!(remove_remote(Ok(a_config()), "fw", "none".to_owned()).unwrap().additional_remotes.unwrap().len(), 1);
    assert_eq!(remove_remote(Ok(a_config()), "docs", "x".to_owned()).unwrap().additional_remotes, Some(vec![]));
    assert_eq!(
        remove_remote(Ok(a_config()), "nope", "x".to_owned()),
        Err(AppError::UserError("Project key nope does not exists. Can not update.".to_owned()))
    );
    assert_eq!(remove_remote(Err(unreadable()), "fw", "x".to_owned()), Err(unreadable()));
    assert_eq!(add_remote(Err(unreadable()), "fw", "x".to_owned(), "y".to_owned()), Err(unreadable()));
}

#[test]
fn updating_a_project() {
    let changed = update_entry(Ok(a_config()), "fw", Some("git@new".to_owned()), None, None, Some("/x".to_owned())).unwrap();
    let mut expected = a_config().projects.get("fw").unwrap().clone();
    expected.git = "git@new".to_owned();
    expected.override_path = Some("/x".to_owned());
    assert_eq!(changed, expected);
    let same = update_entry(Ok(a_config()), "fw", None, None, None, None).unwrap();
    assert_eq!(&same, a_config().projects.get("fw").unwrap());
    for name in ["https://github.com/x/y", "git@github.com:x/y"] {
        assert_eq!(
            update_entry(Ok(a_config()), name, None, None, None, None),
            Err(AppError::UserError(format!("{} looks like a repo URL and not like a project name, please fix", name)))
        );
    }
    assert_eq!(
        update_entry(Ok(a_config()), "nope", None, None, None, None),
        Err(AppError::UserError("Project key nope does not exists. Can not update.".to_owned()))
    );
    assert_eq!(update_entry(Err(unreadable()), "fw", None, None, None, None), Err(unreadable()));
}

#[test]
fn listing_and_showing_projects() {
    assert_eq!(ls(Ok(a_config()), &NameSet::new()), Ok(vec!["docs".to_owned(), "fw".to_owned()]));
    assert_eq!(ls(Ok(a_config()), &names(&["rust", "go"])), Ok(vec!["fw".to_owned()]));
    assert_eq!(ls(Ok(a_config()), &names(&["go"])), Ok(vec![]));
    assert_eq!(ls(Err(unreadable()), &NameSet::new()), Err(unreadable()));
    assert_eq!(print_path(Ok(a_config()), "fw"), Ok("/work/fw".to_owned()));
    assert_eq!(print_path(Ok(a_config()), "x"), Err(AppError::UserError("project x not found".to_owned())));
    assert_eq!(field("Git", "x"), format!("{:<20}: {}", "Git", "x"));
    assert_eq!(field("a label that is longer than 20", "x"), "a label that is longer than 20: x");
    let shown = inspect("fw", Ok(a_config())).unwrap();
    assert_eq!(shown.heading, "fw");
    assert_eq!(
        shown.lines,
        vec![
            format!("{:<20}: {}", "Path", "/work/fw"),
            format!("{:<20}: {}", "config path", ""),
            format!("{:<20}: {}", "Tags", "rust"),
            format!("{:<20}: {}", "Additional remotes", "upstream - git@up"),
            format!("{:<20}: {}", "Git", "git@example.org:team/fw.git"),
        ]
    );
    let plain = describe(a_config().projects.get("docs").unwrap(), "/d");
    assert_eq!(plain.lines[2], format!("{:<20}: {}", "Tags", "None"));
    assert_eq!(plain.lines[3], format!("{:<20}: {}", "Additional remotes", "None"));
    assert!(matches!(inspect("x", Ok(a_config())), Err(AppError::UserError(t)) if t == "project x not found"));
}
