use fw::config::project::Project;
use fw::config::settings::{Settings, Tag};
use fw::config::Config;
use fw::name_map::NameMap;
use fw::names::NameSet;

fn names(list: &[&str]) -> NameSet {
    NameSet::from_vec(list.iter().map(|s| s.to_string()).collect())
}

fn a_project(name: &str, tags: &[&str], after_clone: Option<&str>, after_workon: Option<&str>) -> Project {
    Project {
        name: name.to_owned(),
        git: "irrelevant".to_owned(),
        tags: Some(names(tags)),
        after_clone: after_clone.map(|s| s.to_owned()),
        after_workon: after_workon.map(|s| s.to_owned()),
        override_path: None,
        additional_remotes: None,
        bare: None,
        trusted: false,
        project_config_path: "".to_string(),
    }
}

fn a_tag(after_clone: &str, after_workon: &str, priority: Option<u8>) -> Tag {
    Tag {
        after_clone: Some(after_clone.to_owned()),
        after_workon: Some(after_workon.to_owned()),
        priority,
        workspace: None,
        default: None,
        tag_config_path: "".to_string(),
    }
}

fn a_config() -> Config {
    let mut projects: NameMap<Project> = NameMap::new();
    projects.insert("test1".to_owned(), a_project("test1", &["tag1", "tag2"], None, None));
    projects.insert("test2".to_owned(), a_project("test2", &["tag1", "tag-does-not-exist"], None, None));
    projects.insert(
        "test3".to_owned(),
        a_project("test3", &["tag1"], Some("clone override in project"), Some("workon override in project")),
    );
    projects.insert("test4".to_owned(), a_project("test4", &["tag-does-not-exist"], None, None));
    projects.insert("test5".to_owned(), a_project("test5", &["tag3", "tag4"], None, None));
    let mut tags: NameMap<Tag> = NameMap::new();
    tags.insert("tag1".to_owned(), a_tag("clone1", "workon1", None));
    tags.insert("tag2".to_owned(), a_tag("clone2", "workon2", None));
    tags.insert("tag3".to_owned(), a_tag("clone3", "workon3", Some(100)));
    tags.insert("tag4".to_owned(), a_tag("clone4", "workon4", Some(0)));
    let settings = Settings {
        workspace: "/test".to_owned(),
        default_after_workon: None,
        default_after_clone: None,
        default_tags: None,
        shell: None,
        tags: Some(tags),
        github_token: None,
        gitlab: None,
    };
    Config { projects, settings }
}

#[test]
fn test_workon_from_tags() {
    let config = a_config();
    let resolved = config.resolve_after_workon(config.projects.get("test1").unwrap());
    assert_eq!(resolved, vec!["workon1".to_string(), "workon2".to_string()]);
}

#[test]
fn test_workon_from_tags_prioritized() {
    let config = a_config();
    let resolved = config.resolve_after_workon(config.projects.get("test5").unwrap());
    assert_eq!(resolved, vec!["workon4".to_string(), "workon3".to_string()]);
}

#[test]
fn test_after_clone_from_tags() {
    let config = a_config();
    let resolved = config.resolve_after_clone(config.projects.get("test1").unwrap());
    assert_eq!(resolved, vec!["clone1".to_string(), "clone2".to_string()]);
}

#[test]
fn test_after_clone_from_tags_prioritized() {
    let config = a_config();
    let resolved = config.resolve_after_clone(config.projects.get("test5").unwrap());
    assert_eq!(resolved, vec!["clone4".to_string(), "clone3".to_string()]);
}

#[test]
fn test_workon_from_tags_missing_one_tag_graceful() {
    let config = a_config();
    let resolved = config.resolve_after_workon(config.projects.get("test2").unwrap());
    assert_eq!(resolved, vec!["workon1".to_owned()]);
}

#[test]
fn test_workon_from_tags_missing_all_tags_graceful() {
    let config = a_config();
    let resolved = config.resolve_after_workon(config.projects.get("test4").unwrap());
    assert_eq!(resolved, Vec::<String>::new());
}

#[test]
fn test_after_clone_from_tags_missing_all_tags_graceful() {
    let config = a_config();
    let resolved = config.resolve_after_clone(config.projects.get("test4").unwrap());
    assert_eq!(resolved, Vec::<String>::new());
}

#[test]
fn test_after_clone_from_tags_missing_one_tag_graceful() {
    let config = a_config();
    let resolved = config.resolve_after_clone(config.projects.get("test2").unwrap());
    assert_eq!(resolved, vec!["clone1".to_owned()]);
}

#[test]
fn test_workon_override_from_project() {
    let config = a_config();
    let resolved = config.resolve_after_workon(config.projects.get("test3").unwrap());
    assert_eq!(resolved, vec!["workon1".to_string(), "workon override in project".to_owned()]);
}

#[test]
fn test_after_clone_override_from_project() {
    let config = a_config();
    let resolved = config.resolve_after_clone(config.projects.get("test3").unwrap());
    assert_eq!(resolved, vec!["clone1".to_string(), "clone override in project".to_owned()]);
}
