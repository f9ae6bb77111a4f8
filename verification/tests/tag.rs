use fw::config::project::Project;
use fw::config::settings::{Settings, Tag};
use fw::config::Config;
use fw::name_map::NameMap;
use fw::names::NameSet;
use fw::errors::AppError;
use fw::spawn::Threads;
use fw::tag::{add_tag, autotag, autotag_updates, create_tag, delete_tag, inspect_tag, list_tags, remove_tag};

fn names(list: &[&str]) -> NameSet {
    NameSet::from_vec(list.iter().map(|s| s.to_string()).collect())
}

fn project(name: &str, tags: Option<&[&str]>) -> Project {
    Project {
        name: name.to_owned(),
        git: format!("git@example.org:team/{}.git", name),
        tags: tags.map(names),
        after_clone: None,
        after_workon: None,
        override_path: None,
        additional_remotes: None,
        bare: None,
        trusted: false,
        project_config_path: "".to_string(),
    }
}

fn tag(priority: Option<u8>) -> Tag {
    Tag {
        after_clone: None,
        after_workon: None,
        priority,
        workspace: None,
        default: None,
        tag_config_path: "".to_string(),
    }
}

fn config_of(projects: Vec<Project>, tags: Vec<(&str, Tag)>) -> Config {
    let mut map: NameMap<Project> = NameMap::new();
    for p in projects {
        map.insert(p.name.clone(), p);
    }
    let mut tag_map: NameMap<Tag> = NameMap::new();
    for (name, t) in tags {
        tag_map.insert(name.to_owned(), t);
    }
    Config {
        projects: map,
        settings: Settings {
            workspace: "/work".to_owned(),
            default_after_workon: None,
            default_after_clone: None,
            default_tags: None,
            shell: None,
            tags: Some(tag_map),
            github_token: None,
            gitlab: None,
        },
    }
}

fn a_config() -> Config {
    let full = Tag {
        after_clone: Some("c".to_owned()),
        after_workon: Some("w".to_owned()),
        priority: Some(7),
        workspace: Some("/ws".to_owned()),
        default: Some(true),
        tag_config_path: "default".to_owned(),
    };
    config_of(
        vec![project("a", Some(&["rust", "web"])), project("b", None), project("c", Some(&["rust"]))],
        vec![("rust", full), ("web", tag(None)), ("idle", tag(None))],
    )
}

#[test]
fn listing_tags() {
    assert_eq!(list_tags(Ok(a_config()), None), Ok(vec!["idle".to_owned(), "rust".to_owned(), "web".to_owned()]));
    assert_eq!(list_tags(Ok(a_config()), Some("a".to_owned())), Ok(vec!["rust".to_owned(), "web".to_owned()]));
    assert_eq!(list_tags(Ok(a_config()), Some("b".to_owned())), Ok(vec![]));
    assert_eq!(list_tags(Ok(a_config()), Some("x".to_owned())), Err(AppError::UserError("Unknown project x".to_owned())));
    assert_eq!(list_tags(Err(AppError::Io("e".to_owned())), None), Err(AppError::Io("e".to_owned())));
    let mut none = a_config();
    none.settings.tags = None;
    assert_eq!(list_tags(Ok(none), None), Ok(vec![]));
}

#[test]
fn tagging_and_untagging() {
    let config = a_config();
    assert_eq!(add_tag(&config, "b".to_owned(), "web".to_owned()).unwrap().tags, Some(names(&["web"])));
    assert_eq!(add_tag(&config, "c".to_owned(), "idle".to_owned()).unwrap().tags, Some(names(&["idle", "rust"])));
    assert_eq!(add_tag(&config, "a".to_owned(), "rust".to_owned()).unwrap().tags, Some(names(&["rust", "web"])));
    assert_eq!(add_tag(&config, "a".to_owned(), "none".to_owned()), Err(AppError::UserError("Unknown tag none".to_owned())));
    assert_eq!(add_tag(&config, "x".to_owned(), "rust".to_owned()), Err(AppError::UserError("Unknown project x".to_owned())));
    assert_eq!(remove_tag(Ok(a_config()), "a".to_owned(), "rust").unwrap().unwrap().tags, Some(names(&["web"])));
    assert_eq!(remove_tag(Ok(a_config()), "c".to_owned(), "rust").unwrap().unwrap().tags, Some(names(&[])));
    assert_eq!(remove_tag(Ok(a_config()), "a".to_owned(), "idle"), Ok(None));
    assert_eq!(remove_tag(Ok(a_config()), "b".to_owned(), "rust"), Ok(None));
    assert_eq!(remove_tag(Ok(a_config()), "x".to_owned(), "rust"), Err(AppError::UserError("Unknown project x".to_owned())));
}

#[test]
fn creating_and_deleting_tags() {
    let created = create_tag(Ok(a_config()), "new".to_owned(), Some("w".to_owned()), None, Some(3), Some("/x".to_owned())).unwrap();
    assert_eq!(
        created,
        Tag { after_clone: None, after_workon: Some("w".to_owned()), priority: Some(3), workspace: Some("/x".to_owned()), default: None, tag_config_path: "default".to_owned() }
    );
    assert_eq!(
        create_tag(Ok(a_config()), "rust".to_owned(), None, None, None, None),
        Err(AppError::UserError("Tag rust already exists, not gonna overwrite it for you".to_owned()))
    );
    let removal = delete_tag(Ok(a_config()), "rust").unwrap();
    let changed: Vec<(String, Option<NameSet>)> = removal.projects.into_iter().map(|p| (p.name, p.tags)).collect();
    assert_eq!(changed, vec![("a".to_owned(), Some(names(&["web"]))), ("c".to_owned(), Some(names(&[])))]);
    assert_eq!(removal.tag.unwrap().priority, Some(7));
    let removal = delete_tag(Ok(a_config()), "ghost").unwrap();
    assert!(removal.projects.is_empty() && removal.tag.is_none());
    assert!(delete_tag(Err(AppError::Io("e".to_owned())), "rust").is_err());
}

#[test]
fn showing_a_tag() {
    let shown = inspect_tag(Ok(a_config()), "rust").unwrap();
    assert_eq!(shown.heading, "rust");
    assert_eq!(
        shown.lines,
        vec![
            format!("{:<20}: {}", "config path", "default"),
            format!("{:<20}: {}", "after workon", "w"),
            format!("{:<20}: {}", "after clone", "c"),
            format!("{:<20}: {}", "priority", "7"),
            format!("{:<20}: {}", "workspace", "/ws"),
            format!("{:<20}: {}", "default", "true"),
        ]
    );
    assert_eq!(shown.projects, vec!["a".to_owned(), "c".to_owned()]);
    let idle = inspect_tag(Ok(a_config()), "idle").unwrap();
    assert_eq!(idle.lines[3], format!("{:<20}: {}", "priority", ""));
    assert_eq!(idle.lines[5], format!("{:<20}: {}", "default", ""));
    assert!(idle.projects.is_empty());
    assert!(matches!(inspect_tag(Ok(a_config()), "x"), Err(AppError::UserError(t)) if t == "Unkown tag x"));
}

#[test]
fn autotag_tags_what_succeeded() {
    let mut fixed = Threads::new();
    assert_eq!(autotag(Ok(a_config()), "true", "idle", &Some("3".to_owned()), &mut fixed).unwrap().len(), 3);
    assert_eq!(fixed.fixed(), Some(3));
    assert!(matches!(autotag(Ok(a_config()), "true", "idle", &Some("4".to_owned()), &mut fixed), Err(AppError::InternalError(_))));
    assert_eq!(fixed.fixed(), Some(3));
    let mut threads = Threads::new();
    let plan = autotag(Ok(a_config()), "test -f Cargo.toml", "idle", &None, &mut threads).unwrap();
    assert_eq!(threads.fixed(), None);
    let planned: Vec<(&str, &str, &str)> = plan.iter().map(|i| (i.project_name.as_str(), i.workdir.as_str(), i.command.as_str())).collect();
    assert_eq!(planned, vec![("a", "/ws/a", "test -f Cargo.toml"), ("b", "/work/b", "test -f Cargo.toml"), ("c", "/ws/c", "test -f Cargo.toml")]);
    assert!(matches!(autotag(Ok(a_config()), "x", "ghost", &Some("zz".to_owned()), &mut threads), Err(AppError::UserError(t)) if t == "Unknown tag ghost"));
    assert!(matches!(autotag(Ok(a_config()), "x", "idle", &Some("zz".to_owned()), &mut threads), Err(AppError::UserError(t)) if t.starts_with("Type error")));
    let failed = || Err(AppError::UserError("External command failed.".to_owned()));
    let changed = autotag_updates(&a_config(), &vec![Ok(()), failed(), Ok(())], "idle");
    let tagged: Vec<(String, Option<NameSet>)> = changed.into_iter().map(|p| (p.name, p.tags)).collect();
    assert_eq!(tagged, vec![("a".to_owned(), Some(names(&["idle", "rust", "web"]))), ("c".to_owned(), Some(names(&["idle", "rust"])))]);
    assert_eq!(autotag_updates(&a_config(), &vec![failed(), Ok(())], "idle").len(), 1);
    assert_eq!(autotag_updates(&a_config(), &vec![Ok(()), Ok(()), Ok(()), Ok(())], "idle").len(), 3);
}
