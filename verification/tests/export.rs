use fw::config::project::Project;
use fw::config::settings::{Settings, Tag};
use fw::config::Config;
use fw::name_map::NameMap;
use fw::names::NameSet;
use fw::export::{export_project, export_tag, export_tagged_projects, projects_to_shell_commands, tag_to_shell_commands};
use fw::errors::AppError;

fn a_config() -> Config {
    let project = Project {
        name: "why-i-suck".to_owned(),
        git: "git@github.com:codingberlin/why-i-suck.git".to_owned(),
        tags: Some(NameSet::from_vec(vec!["tag1".to_owned(), "tag2".to_owned(), "unknown_tag".to_owned()])),
        after_clone: Some("echo 1".to_owned()),
        after_workon: Some("echo test's".to_owned()),
        override_path: Some("/home/bauer/docs/why-i-suck".to_string()),
        additional_remotes: None,
        bare: None,
        trusted: false,
        project_config_path: "".to_string(),
    };
    let tag1 = Tag {
        after_clone: Some("clone1".to_owned()),
        after_workon: Some("workon1".to_owned()),
        priority: Some(10),
        workspace: None,
        default: None,
        tag_config_path: "".to_string(),
    };
    let tag2 = Tag {
        after_clone: Some("clone2".to_owned()),
        after_workon: Some("workon2".to_owned()),
        priority: Some(10),
        workspace: None,
        default: None,
        tag_config_path: "".to_string(),
    };
    let mut projects: NameMap<Project> = NameMap::new();
    projects.insert("test1".to_owned(), project);
    let mut tags: NameMap<Tag> = NameMap::new();
    tags.insert("tag1".to_owned(), tag1);
    tags.insert("tag2".to_owned(), tag2);
    let settings = Settings {
        workspace: "/test".to_owned(),
        default_after_workon: None,
        default_after_clone: None,
        default_tags: None,
        shell: None,
        tags: Some(tags),
        github_token: None,
        gitlab: None,
    };
    Config { projects, settings }
}

const EXPECTED: &str = "# Error exporting tag: Unknown tag unknown_tag
# fw export projects
fw tag add tag1 --after-workon='workon1' --after-clone='clone1' --priority='10'
fw tag add tag2 --after-workon='workon2' --after-clone='clone2' --priority='10'
fw add git@github.com:codingberlin/why-i-suck.git why-i-suck
fw update why-i-suck --override-path '/home/bauer/docs/why-i-suck'
fw update why-i-suck --after-workon 'echo test'\\''s'
fw update why-i-suck --after-clone 'echo 1'
fw tag tag-project why-i-suck tag1
fw tag tag-project why-i-suck tag2
fw tag tag-project why-i-suck unknown_tag
";

#[test]
fn mod_test_workon_override_from_project() {
    let config = a_config();
    let projects = vec![config.projects.get("test1").unwrap().clone()];
    let exported_command = projects_to_shell_commands(&config, &projects).expect("Should work");
    assert_eq!(exported_command, EXPECTED.to_owned());
}

#[test]
fn export_of_one_project_and_of_tagged_projects() {
    assert_eq!(export_project(Ok(a_config()), "test1").unwrap(), EXPECTED);
    assert_eq!(export_tagged_projects(Ok(a_config()), "tag2").unwrap(), EXPECTED);
    assert_eq!(export_tagged_projects(Ok(a_config()), "nothing").unwrap(), "# fw export projects\n");
    assert_eq!(
        export_project(Ok(a_config()), "nope"),
        Err(AppError::UserError("project nope not found".to_owned()))
    );
    assert_eq!(
        export_project(Err(AppError::RuntimeError("unreadable".to_owned())), "test1"),
        Err(AppError::RuntimeError("unreadable".to_owned()))
    );
}

#[test]
fn export_of_a_tag() {
    let mut config = a_config();
    assert_eq!(
        tag_to_shell_commands("tag1", &config).unwrap(),
        "fw tag add tag1 --after-workon='workon1' --after-clone='clone1' --priority='10'"
    );
    assert_eq!(
        tag_to_shell_commands("zzz", &config),
        Err(AppError::UserError("Unknown tag zzz".to_owned()))
    );
    config.settings.tags = None;
    assert_eq!(
        export_tag(Ok(config), "tag1"),
        Err(AppError::UserError("No tags configured".to_owned()))
    );
}

#[test]
fn export_lists_remotes_and_each_tag_once() {
    let mut config = a_config();
    let mut second = config.projects.get("test1").unwrap().clone();
    second.name = "other".to_owned();
    second.tags = Some(NameSet::from_vec(vec!["tag1".to_owned()]));
    second.after_clone = None;
    second.after_workon = None;
    second.override_path = None;
    second.additional_remotes = Some(vec![fw::config::project::Remote { name: "up".to_owned(), git: "git@up".to_owned() }]);
    config.projects.insert("other".to_owned(), second);
    let text = export_tagged_projects(Ok(config), "tag1").unwrap();
    assert_eq!(text.matches("fw tag add tag1 ").count(), 1);
    assert!(text.ends_with("fw tag tag-project why-i-suck unknown_tag\n"));
    assert!(text.contains("\nfw add git@github.com:codingberlin/why-i-suck.git other\nfw tag tag-project other tag1\nfw add-remote other up git@up\nfw add "));
}
