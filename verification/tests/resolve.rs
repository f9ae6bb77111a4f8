use fw::config::project::Project;
use fw::config::settings::{Settings, Tag};
use fw::config::Config;
use fw::name_map::NameMap;
use fw::names::NameSet;
use fw::config::resolve::TagField;

fn names(list: &[&str]) -> NameSet {
    NameSet::from_vec(list.iter().map(|s| s.to_string()).collect())
}

fn project(name: &str, tags: Option<&[&str]>) -> Project {
    Project {
        name: name.to_owned(),
        git: format!("git@example.org:team/{}.git", name),
        tags: tags.map(names),
        after_clone: None,
        after_workon: None,
        override_path: None,
        additional_remotes: None,
        bare: None,
        trusted: false,
        project_config_path: "".to_string(),
    }
}

fn tag(priority: Option<u8>) -> Tag {
    Tag {
        after_clone: None,
        after_workon: None,
        priority,
        workspace: None,
        default: None,
        tag_config_path: "".to_string(),
    }
}

fn config_of(projects: Vec<Project>, tags: Vec<(&str, Tag)>) -> Config {
    let mut map: NameMap<Project> = NameMap::new();
    for p in projects {
        map.insert(p.name.clone(), p);
    }
    let mut tag_map: NameMap<Tag> = NameMap::new();
    for (name, t) in tags {
        tag_map.insert(name.to_owned(), t);
    }
    Config {
        projects: map,
        settings: Settings {
            workspace: "/work".to_owned(),
            default_after_workon: None,
            default_after_clone: None,
            default_tags: None,
            shell: None,
            tags: Some(tag_map),
            github_token: None,
            gitlab: None,
        },
    }
}

fn tag_with(hook: &str, priority: Option<u8>) -> Tag {
    Tag { after_workon: Some(hook.to_owned()), ..tag(priority) }
}

#[test]
fn equal_priorities_resolve_in_order_of_the_names() {
    let config = config_of(
        vec![project("p", Some(&["zeta", "alpha", "mid"]))],
        vec![("zeta", tag_with("z", Some(7))), ("alpha", tag_with("a", Some(7))), ("mid", tag_with("m", Some(7)))],
    );
    let p = config.projects.get("p").unwrap();
    assert_eq!(config.resolve_after_workon(p), vec!["a".to_string(), "m".to_string(), "z".to_string()]);
}

#[test]
fn missing_priority_counts_as_fifty() {
    let config = config_of(
        vec![project("p", Some(&["a", "b", "c"]))],
        vec![("a", tag_with("plain", None)), ("b", tag_with("low", Some(49))), ("c", tag_with("high", Some(51)))],
    );
    let p = config.projects.get("p").unwrap();
    assert_eq!(config.resolve_after_workon(p), vec!["low".to_string(), "plain".to_string(), "high".to_string()]);
    assert_eq!(Config::tag_priority_or_fallback(&tag(None)), 50);
    assert_eq!(Config::tag_priority_or_fallback(&tag(Some(0))), 0);
    assert_eq!(Config::tag_priority_or_fallback(&tag(Some(255))), 255);
}

#[test]
fn own_hook_comes_last_even_behind_the_highest_priority() {
    let mut p = project("p", Some(&["a"]));
    p.after_workon = Some("own".to_owned());
    let config = config_of(vec![p], vec![("a", tag_with("tagged", Some(255)))]);
    let p = config.projects.get("p").unwrap();
    assert_eq!(config.resolve_after_workon(p), vec!["tagged".to_string(), "own".to_string()]);
}

#[test]
fn tag_without_the_hook_contributes_nothing() {
    let config = config_of(
        vec![project("p", Some(&["a", "b"]))],
        vec![("a", tag(Some(1))), ("b", tag_with("b-hook", Some(2)))],
    );
    let p = config.projects.get("p").unwrap();
    assert_eq!(config.resolve_after_workon(p), vec!["b-hook".to_string()]);
    assert_eq!(config.resolve_after_clone(p), Vec::<String>::new());
}

#[test]
fn project_without_tags_has_only_its_own_hooks() {
    let mut p = project("p", None);
    p.after_clone = Some("make".to_owned());
    let config = config_of(vec![p], vec![("a", tag_with("x", None))]);
    let p = config.projects.get("p").unwrap();
    assert_eq!(config.resolve_after_clone(p), vec!["make".to_string()]);
    assert_eq!(config.resolve_after_workon(p), Vec::<String>::new());
}

#[test]
fn settings_without_tags_resolve_to_nothing() {
    let mut config = config_of(vec![project("p", Some(&["a"]))], vec![]);
    config.settings.tags = None;
    let p = config.projects.get("p").unwrap();
    assert_eq!(config.resolve_from_tags(TagField::AfterWorkon, &p.tags), Vec::<String>::new());
}

#[test]
fn unknown_tag_resolves_as_if_it_were_absent() {
    let tags = vec![("a", tag_with("a-hook", Some(3))), ("c", tag_with("c-hook", Some(1)))];
    let with = config_of(vec![project("p", Some(&["a", "b", "c"]))], tags.clone());
    let without = config_of(vec![project("p", Some(&["a", "c"]))], tags);
    assert_eq!(
        with.resolve_after_workon(with.projects.get("p").unwrap()),
        without.resolve_after_workon(without.projects.get("p").unwrap())
    );
    assert_eq!(
        with.resolve_after_workon(with.projects.get("p").unwrap()),
        vec!["c-hook".to_string(), "a-hook".to_string()]
    );
}

#[test]
fn workspace_is_that_of_the_highest_priority() {
    let ws = |w: &str, p: Option<u8>| Tag { workspace: Some(w.to_owned()), ..tag(p) };
    let config = config_of(
        vec![project("p", Some(&["a", "b", "c", "d"]))],
        vec![("a", ws("/a", Some(10))), ("b", ws("/b", Some(200))), ("c", ws("/c", None)), ("d", tag(Some(255)))],
    );
    let p = config.projects.get("p").unwrap();
    assert_eq!(config.resolve_workspace(p), "/b");
    assert_eq!(config.unexpanded_path(p), "/b/p");
}

#[test]
fn workspace_of_equal_priorities_is_that_of_the_last_name() {
    let ws = |w: &str, p: Option<u8>| Tag { workspace: Some(w.to_owned()), ..tag(p) };
    let config = config_of(
        vec![project("p", Some(&["a", "b"]))],
        vec![("a", ws("/a", None)), ("b", ws("/b", Some(50)))],
    );
    assert_eq!(config.resolve_workspace(config.projects.get("p").unwrap()), "/b");
}

#[test]
fn workspace_falls_back_to_the_settings() {
    let config = config_of(
        vec![project("p", Some(&["a", "nowhere"])), project("q", None)],
        vec![("a", tag(Some(1)))],
    );
    assert_eq!(config.resolve_workspace(config.projects.get("p").unwrap()), "/work");
    assert_eq!(config.resolve_workspace(config.projects.get("q").unwrap()), "/work");
    assert_eq!(config.actual_path_to_project(config.projects.get("q").unwrap()), "/work/q");
}

#[test]
fn override_path_wins_over_the_workspace() {
    let mut p = project("p", None);
    p.override_path = Some("/elsewhere/p".to_owned());
    let config = config_of(vec![p], vec![]);
    let p = config.projects.get("p").unwrap();
    assert_eq!(config.actual_path_to_project(p), "/elsewhere/p");
    assert_eq!(config.path_with_home(p, Some("/home/me".to_owned())), "/elsewhere/p");
}

#[test]
fn tilde_in_the_workspace_is_expanded() {
    let mut config = config_of(vec![project("p", None)], vec![]);
    config.settings.workspace = "~/src".to_owned();
    let p = config.projects.get("p").unwrap();
    assert_eq!(config.unexpanded_path(p), "~/src/p");
    assert_eq!(config.path_with_home(p, Some("/home/me".to_owned())), "/home/me/src/p");
    assert_eq!(config.path_with_home(p, None), "~/src/p");
}

#[test]
fn shell_defaults_to_sh() {
    let mut config = config_of(vec![], vec![]);
    assert_eq!(config.settings.get_shell_or_default(), vec!["sh".to_string(), "-c".to_string()]);
    config.settings.shell = Some(vec!["/bin/zsh".to_owned(), "-ic".to_owned()]);
    assert_eq!(config.settings.get_shell_or_default(), vec!["/bin/zsh".to_string(), "-ic".to_string()]);
}
