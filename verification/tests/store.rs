use fw::config::project::Project;
use fw::config::settings::{Settings, Tag};
use fw::config::Config;
use fw::name_map::NameMap;
use fw::names::NameSet;
use fw::config::path::paths_in;
use fw::config::settings::PersistedSettings;
use fw::config::store::{check_paths, collect_projects, default_tags, delete_project_config, delete_tag_config, is_entity_file, read_config, storage_path, write_example, write_project, write_settings, write_tag, ProjectFile, TagFile};
use fw::errors::AppError;

fn names(list: &[&str]) -> NameSet {
    NameSet::from_vec(list.iter().map(|s| s.to_string()).collect())
}

fn project(name: &str, tags: Option<&[&str]>) -> Project {
    Project {
        name: name.to_owned(),
        git: format!("git@example.org:team/{}.git", name),
        tags: tags.map(names),
        after_clone: None,
        after_workon: None,
        override_path: None,
        additional_remotes: None,
        bare: None,
        trusted: false,
        project_config_path: "".to_string(),
    }
}

fn tag(priority: Option<u8>) -> Tag {
    Tag {
        after_clone: None,
        after_workon: None,
        priority,
        workspace: None,
        default: None,
        tag_config_path: "".to_string(),
    }
}

fn config_of(projects: Vec<Project>, tags: Vec<(&str, Tag)>) -> Config {
    let mut map: NameMap<Project> = NameMap::new();
    for p in projects {
        map.insert(p.name.clone(), p);
    }
    let mut tag_map: NameMap<Tag> = NameMap::new();
    for (name, t) in tags {
        tag_map.insert(name.to_owned(), t);
    }
    Config {
        projects: map,
        settings: Settings {
            workspace: "/work".to_owned(),
            default_after_workon: None,
            default_after_clone: None,
            default_tags: None,
            shell: None,
            tags: Some(tag_map),
            github_token: None,
            gitlab: None,
        },
    }
}

#[test]
fn example_is_written_as_comments() {
    assert_eq!(write_example("git = \"x\"\n\n  \t\nname = 1"), "\n# Example:\n# git = \"x\"\n# name = 1\n");
    assert_eq!(write_example(""), "\n# Example:\n");
    assert_eq!(write_example("\n\n"), "\n# Example:\n");
    assert_eq!(write_example("a\n"), "\n# Example:\n# a\n");
    assert_eq!(write_example(" [x] "), "\n# Example:\n#  [x] \n");
    for text in ["tags = [\n  \"a\",\n]\n", "x\n\ny", "\u{a0}\n#"] {
        for line in write_example(text).lines() {
            assert!(line.is_empty() || line.starts_with('#'), "{:?}", line);
        }
    }
}

#[test]
fn files_of_entities() {
    let paths = paths_in("/cfg".to_owned(), &None);
    let mut p = project("fw", None);
    p.project_config_path = "brocode/tools".to_owned();
    let file = write_project(&paths, &p, "git = \"g\"\n", "git = \"e\"\n");
    assert_eq!(file.directory, "/cfg/projects/brocode/tools");
    assert_eq!(file.file, "/cfg/projects/brocode/tools/fw");
    assert_eq!(file.content, "# -*- mode: Conf; -*-\ngit = \"g\"\n\n# Example:\n# git = \"e\"\n");
    assert_eq!(delete_project_config(&paths, &p), "/cfg/projects/brocode/tools/fw");
    let mut t = tag(None);
    t.tag_config_path = "default".to_owned();
    let file = write_tag(&paths, "rust", &t, "priority = 1\n", "");
    assert_eq!(file.file, "/cfg/tags/default/rust");
    assert_eq!(file.content, "# -*- mode: Conf; -*-\npriority = 1\n\n# Example:\n");
    assert_eq!(delete_tag_config(&paths, "rust", &t), "/cfg/tags/default/rust");
    let file = write_settings(&paths, "workspace = \"w\"\n", "workspace = \"~\"");
    assert_eq!(file.directory, "/cfg");
    assert_eq!(file.file, "/cfg/settings.toml");
    assert_eq!(file.content, "workspace = \"w\"\n\n# Example:\n# workspace = \"~\"\n");
    assert!(is_entity_file("fw"));
    assert!(!is_entity_file(".DS_Store"));
}

#[test]
fn storage_paths() {
    assert_eq!(storage_path("/cfg/projects/a/b", "/cfg/projects"), Ok("a/b".to_owned()));
    assert_eq!(storage_path("/cfg/projects", "/cfg/projects"), Ok("".to_owned()));
    assert_eq!(storage_path("/cfg/projects/a", "/cfg/projects/"), Ok("a".to_owned()));
    assert_eq!(
        storage_path("/cfg/projectsx/a", "/cfg/projects"),
        Err(AppError::RuntimeError("Failed to strip prefix: prefix not found".to_owned()))
    );
}

fn file(name: &str, directory: &str, git: &str) -> ProjectFile {
    let mut p = project("", None);
    p.git = git.to_owned();
    ProjectFile { file_name: name.to_owned(), directory: directory.to_owned(), project: p }
}

#[test]
fn configuration_comes_together_from_its_files() {
    let settings = PersistedSettings {
        workspace: "~/w".to_owned(),
        shell: Some(vec!["fish".to_owned(), "-c".to_owned()]),
        default_after_workon: Some("ls".to_owned()),
        default_after_clone: None,
        github_token: Some("t".to_owned()),
        gitlab: None,
    };
    let projects = vec![file("b", "x", "first"), file("a", "", "only"), file("b", "y/z", "second")];
    let default = |d: Option<bool>| Tag { default: d, ..tag(None) };
    let tags = vec![
        TagFile { file_name: "one".to_owned(), directory: "d".to_owned(), tag: default(Some(true)) },
        TagFile { file_name: "two".to_owned(), directory: "".to_owned(), tag: default(Some(false)) },
        TagFile { file_name: "three".to_owned(), directory: "".to_owned(), tag: default(None) },
        TagFile { file_name: "two".to_owned(), directory: "late".to_owned(), tag: default(Some(true)) },
    ];
    let config = read_config(settings.clone(), &projects, &tags);
    assert_eq!(PersistedSettings::from_settings(&config.settings), settings);
    assert_eq!(config.projects.len(), 2);
    let b = config.projects.get("b").unwrap();
    assert_eq!((b.name.as_str(), b.git.as_str(), b.project_config_path.as_str()), ("b", "second", "y/z"));
    let a = config.projects.get("a").unwrap();
    assert_eq!((a.name.as_str(), a.git.as_str(), a.project_config_path.as_str()), ("a", "only", ""));
    let read_tags = config.settings.tags.as_ref().unwrap();
    assert_eq!(read_tags.len(), 3);
    assert_eq!(read_tags.get("two").unwrap().tag_config_path, "late");
    assert_eq!(read_tags.get("one").unwrap().tag_config_path, "d");
    assert_eq!(config.settings.default_tags.as_ref().unwrap().to_vec(), vec!["one".to_string(), "two".to_string()]);
    assert_eq!(default_tags(read_tags).to_vec(), vec!["one".to_string(), "two".to_string()]);
    assert_eq!(collect_projects(&vec![]).len(), 0);
    let empty = read_config(settings, &vec![], &vec![]);
    assert!(empty.projects.is_empty());
    assert!(empty.settings.tags.unwrap().is_empty());
    assert!(empty.settings.default_tags.unwrap().is_empty());
}

#[test]
fn every_path_must_be_absolute() {
    let mut relative = project("b", None);
    relative.override_path = Some("somewhere/b".to_owned());
    let mut homely = project("c", None);
    homely.override_path = Some("~/c".to_owned());
    let fine = config_of(vec![project("a", None), homely.clone()], vec![]);
    assert_eq!(check_paths(&fine, &Some("/home/me".to_owned())), Ok(()));
    assert_eq!(
        check_paths(&fine, &None),
        Err(AppError::UserError("Path of project c is not absolute: ~/c".to_owned()))
    );
    let broken = config_of(vec![project("a", None), relative, homely], vec![]);
    assert_eq!(
        check_paths(&broken, &None),
        Err(AppError::UserError("Path of project b is not absolute: somewhere/b".to_owned()))
    );
    let mut adrift = config_of(vec![project("a", None)], vec![]);
    adrift.settings.workspace = "work".to_owned();
    assert!(check_paths(&adrift, &Some("/h".to_owned())).is_err());
}

#[test]
fn writing_then_reading_a_project_keeps_all_but_name_and_place() {
    let paths = paths_in("/cfg".to_owned(), &None);
    let mut p = project("fw", Some(&["rust"]));
    p.project_config_path = "brocode".to_owned();
    p.after_clone = Some("make".to_owned());
    let written = write_project(&paths, &p, "", "");
    let directory = storage_path(&written.directory, &paths.projects).unwrap();
    let mut held = p.clone();
    held.name = String::new();
    held.project_config_path = String::new();
    let found = vec![ProjectFile { file_name: "fw".to_owned(), directory, project: held }];
    let config = read_config(
        PersistedSettings { workspace: "/w".to_owned(), shell: None, default_after_workon: None, default_after_clone: None, github_token: None, gitlab: None },
        &found,
        &vec![],
    );
    assert_eq!(config.projects.get("fw"), Some(&p));
}
