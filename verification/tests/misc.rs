use fw::config::project::Project;
use fw::config::settings::{Settings, Tag};
use fw::config::Config;
use fw::name_map::NameMap;
use fw::names::NameSet;
use fw::cli::validate_number;
use fw::config::metadata::Metadata;
use fw::config::settings::{GitlabSettings, PersistedSettings};
use fw::errors::AppError;
use fw::intellij::{intellij, is_intellij_directory, number_of_projects_warning, recent_projects_file, write_recent_projects};
use fw::nconfig::{migrate_write_projects, migrate_write_tags, write_new};
use fw::numbers::{decimal, parse_i32, parse_int, parse_usize, signed_decimal, IntFailure};
use fw::setup::{github_token, import, load_project, new_config, org_import, setup, write_new_config_with_projects, ProjectState};
use fw::shell::{picker, Picker};
use fw::text::{char_is_space, ends_with, join, replace_char, starts_with, str_eq, str_lt};
use fw::workon::{current_project, gen, gen_reworkon, project_at, reworkon};
use fw::ws::github::{authorization, check_status, github_api, organization_query, page_repositories, request_body, PageResult, Repository};

fn names(list: &[&str]) -> NameSet {
    NameSet::from_vec(list.iter().map(|s| s.to_string()).collect())
}

fn project(name: &str, tags: Option<&[&str]>) -> Project {
    Project {
        name: name.to_owned(),
        git: format!("git@example.org:team/{}.git", name),
        tags: tags.map(names),
        after_clone: None,
        after_workon: None,
        override_path: None,
        additional_remotes: None,
        bare: None,
        trusted: false,
        project_config_path: "".to_string(),
    }
}

fn tag(priority: Option<u8>) -> Tag {
    Tag {
        after_clone: None,
        after_workon: None,
        priority,
        workspace: None,
        default: None,
        tag_config_path: "".to_string(),
    }
}

fn config_of(projects: Vec<Project>, tags: Vec<(&str, Tag)>) -> Config {
    let mut map: NameMap<Project> = NameMap::new();
    for p in projects {
        map.insert(p.name.clone(), p);
    }
    let mut tag_map: NameMap<Tag> = NameMap::new();
    for (name, t) in tags {
        tag_map.insert(name.to_owned(), t);
    }
    Config {
        projects: map,
        settings: Settings {
            workspace: "/work".to_owned(),
            default_after_workon: None,
            default_after_clone: None,
            default_tags: None,
            shell: None,
            tags: Some(tag_map),
            github_token: None,
            gitlab: None,
        },
    }
}

#[test]
fn numbers_are_validated() {
    assert_eq!(validate_number("8", 128), Ok(()));
    assert_eq!(validate_number("1", 10), Ok(()));
    assert_eq!(validate_number("10", 10), Ok(()));
    assert_eq!(validate_number("+3", 10), Ok(()));
    assert_eq!(validate_number("11", 10), Err("Number must be between 1 and 10. Was 11.".to_owned()));
    assert_eq!(validate_number("0", 20), Err("Number must be between 1 and 20. Was 0.".to_owned()));
    assert_eq!(validate_number("-4", 20), Err("Number must be between 1 and 20. Was -4.".to_owned()));
    assert_eq!(validate_number("4", -2), Err("Number must be between 1 and -2. Was 4.".to_owned()));
    assert_eq!(validate_number("x", 10), Err("Expected a number. Was 'x'.".to_owned()));
    assert_eq!(validate_number("", 10), Err("Expected a number. Was ''.".to_owned()));
    assert_eq!(validate_number(" 1", 10), Err("Expected a number. Was ' 1'.".to_owned()));
    assert_eq!(validate_number("2147483648", 10), Err("Expected a number. Was '2147483648'.".to_owned()));
}

#[test]
fn numbers_are_read_as_the_standard_library_reads_them() {
    for text in ["0", "7", "+7", "-7", "007", "2147483647", "-2147483648", "2147483648", "-2147483649", "", "+", "-", "1x", "x1", "--1", "1 ", "\u{661}", "99999999999999999999x", "x99999999999999999999"] {
        let expected = text.parse::<i32>().map_err(|e| e.to_string());
        assert_eq!(parse_i32(text).map_err(|e| e.describe().to_owned()), expected, "{:?}", text);
        let expected = text.parse::<usize>().map_err(|e| e.to_string());
        assert_eq!(parse_usize(text).map_err(|e| e.describe().to_owned()), expected, "{:?}", text);
    }
    assert_eq!(parse_usize("18446744073709551615"), Ok(usize::MAX));
    assert_eq!(parse_usize("18446744073709551616"), Err(IntFailure::PosOverflow));
    assert_eq!(parse_int("-5", -5, 5), Ok(-5));
    assert_eq!(parse_int("-6", -5, 5), Err(IntFailure::NegOverflow));
    assert_eq!(parse_int("6", -5, 5), Err(IntFailure::PosOverflow));
    assert_eq!(parse_int("", -5, 5), Err(IntFailure::Empty));
    assert_eq!(parse_int("a", -5, 5), Err(IntFailure::InvalidDigit));
    for n in [0u64, 9, 10, 99, 100, 12345, u64::MAX] {
        assert_eq!(decimal(n), n.to_string());
    }
    for n in [0i64, -1, 1, 42, -128, i64::MAX, i64::MIN] {
        assert_eq!(signed_decimal(n), n.to_string());
    }
}

#[test]
fn text_helpers_agree_with_the_standard_library() {
    let samples = ["", "a", "ab", "b", "a\u{e9}", "A", "~", "\u{1F600}", "abc", "ab\u{0}"];
    for a in samples {
        for b in samples {
            assert_eq!(str_lt(a, b), a < b, "{:?} < {:?}", a, b);
            assert_eq!(str_eq(a, b), a == b);
            assert_eq!(starts_with(a, b), a.starts_with(b));
            assert_eq!(ends_with(a, b), a.ends_with(b));
        }
    }
    assert_eq!(replace_char("it's 'x'", '\'', "'\\''"), "it's 'x'".replace('\'', "'\\''"));
    assert_eq!(replace_char("a/b/", '/', ""), "ab");
    assert_eq!(join(&vec![], ", "), "");
    assert_eq!(join(&vec!["a".to_owned()], ", "), "a");
    assert_eq!(join(&vec!["a".to_owned(), "".to_owned(), "c".to_owned()], " && "), "a &&  && c");
    for code in 0u32..0x3100 {
        if let Some(c) = char::from_u32(code) {
            assert_eq!(char_is_space(c), c.is_whitespace(), "U+{:04X}", code);
        }
    }
}

#[test]
fn errors_in_words() {
    let all = vec![
        (AppError::Io("x".to_owned()), "Io error: x", true),
        (AppError::UserError("x".to_owned()), "User error: x", false),
        (AppError::RuntimeError("x".to_owned()), "Runtime error: x", false),
        (AppError::BadJson("x".to_owned()), "JSON error: x", true),
        (AppError::InternalError("x"), "Internal error: x", false),
        (AppError::GitError("x".to_owned()), "Git error: x", true),
        (AppError::Regex("x".to_owned()), "Regex error: x", true),
        (AppError::TomlSerError("x".to_owned()), "toml serialization error: x", true),
        (AppError::TomlDeError("x".to_owned()), "toml read error: x", true),
        (AppError::WalkdirError("x".to_owned()), "walkdir error: x", true),
        (AppError::ReqwestError("x".to_owned()), "reqwest error: x", true),
    ];
    for (error, words, wraps) in all {
        assert_eq!(error.message(), words);
        assert_eq!(error.detail(), "x");
        assert_eq!(error.cause(), if wraps { Some("x") } else { None });
        assert_eq!(error.clone(), error);
    }
    assert_eq!(AppError::require(Some(3), AppError::InternalError("none")), Ok(3));
    assert_eq!(AppError::require(None::<u8>, AppError::InternalError("none")), Err(AppError::InternalError("none")));
}

#[test]
fn examples() {
    let p = Project::example();
    assert_eq!(p.name, "fw");
    assert_eq!(p.git, "git@github.com:brocode/fw.git");
    assert_eq!(p.tags, Some(names(&["rust", "brocode"])));
    assert_eq!(p.after_clone, Some("echo BROCODE!!".to_owned()));
    assert_eq!(p.after_workon, Some("echo workon fw".to_owned()));
    assert_eq!(p.override_path, Some("/some/fancy/path/to/fw".to_owned()));
    assert_eq!(p.additional_remotes.unwrap()[0].name, "upstream");
    assert_eq!(p.bare, Some(false));
    let t = Tag::example();
    assert_eq!((t.priority, t.default, t.workspace.as_deref()), (Some(0), Some(false), Some("/home/other")));
    assert_eq!(t.after_clone.as_deref(), Some("echo after clone from tag"));
    assert_eq!(t.after_workon.as_deref(), Some("echo after workon from tag"));
    let s = PersistedSettings::example();
    assert_eq!(s.workspace, "~/workspace");
    assert_eq!(s.shell, Some(vec!["/usr/bin/zsh".to_owned(), "-c".to_owned()]));
    assert_eq!(s.gitlab, Some(GitlabSettings { token: "token".to_owned(), host: "localhost".to_owned() }));
    assert_eq!(s.github_token.as_deref(), Some("githubtokensecret"));
    assert_eq!(s.clone(), s);
    assert_eq!(Metadata { tags: None }, Metadata { tags: None });
}

#[test]
fn setting_up() {
    assert_eq!(setup("/work", true), Ok(()));
    assert_eq!(setup("/work", false), Err(AppError::UserError("Given workspace path /work does not exist".to_owned())));
    assert_eq!(setup("work", true), Err(AppError::UserError("Workspace path work needs to be absolute".to_owned())));
    let found = config_of(vec![project("b", None), project("a", None)], vec![]);
    let config = new_config(found.projects, "/work");
    let written = write_new_config_with_projects(&config, "/work", &None).unwrap();
    assert_eq!(written.settings, PersistedSettings { workspace: "/work".to_owned(), shell: None, default_after_workon: None, default_after_clone: None, github_token: None, gitlab: None });
    assert_eq!(written.projects.iter().map(|p| p.name.as_str()).collect::<Vec<_>>(), vec!["a", "b"]);
    let adrift = new_config(config_of(vec![project("a", None)], vec![]).projects, "work");
    assert_eq!(
        write_new_config_with_projects(&adrift, "work", &None).err(),
        Some(AppError::UserError("Path of project a is not absolute: work/a".to_owned()))
    );
    assert_eq!(ProjectState::from_str("active"), Ok(ProjectState::Active));
    assert_eq!(ProjectState::from_str("archived"), Ok(ProjectState::Archived));
    assert_eq!(ProjectState::from_str("both"), Ok(ProjectState::Both));
    assert_eq!(ProjectState::from_str("Both"), Err(AppError::InternalError("invalid value for ProjectState")));
    assert_eq!(ProjectState::value_variants().iter().map(|s| s.to_possible_value()).collect::<Vec<_>>(), vec!["active", "archived", "both"]);
}

#[test]
fn importing() {
    let mut config = config_of(vec![project("known", None)], vec![]);
    config.settings.default_after_clone = Some("c".to_owned());
    config.settings.default_tags = Some(names(&["d"]));
    config.settings.github_token = Some("from-settings".to_owned());
    let loaded = load_project(Some(&config.settings), "git@x", "n");
    assert_eq!((loaded.after_clone.as_deref(), loaded.tags.clone(), loaded.project_config_path.as_str(), loaded.trusted), (Some("c"), Some(names(&["d"])), "default", false));
    assert_eq!(load_project(None, "git@x", "n").tags, None);
    assert_eq!(github_token(&config, Some("env".to_owned()), "org"), Ok("env".to_owned()));
    assert_eq!(github_token(&config, None, "org"), Ok("from-settings".to_owned()));
    config.settings.github_token = None;
    assert_eq!(
        github_token(&config, None, "org"),
        Err(AppError::UserError("Can't call GitHub API for org org because no github oauth token (settings.github_token) specified in the configuration.".to_owned()))
    );
    let imported = import(Err(AppError::Io("no config".to_owned())), "/srv/repos/thing", "git@host:thing.git").unwrap();
    assert_eq!((imported.name.as_str(), imported.git.as_str(), imported.override_path.as_deref()), ("thing", "git@host:thing.git", Some("/srv/repos/thing")));
    assert_eq!(import(Ok(config_of(vec![], vec![])), "/", "x"), Err(AppError::UserError("Import path needs to be valid".to_owned())));
    let repos = vec!["new".to_owned(), "known".to_owned(), "other".to_owned(), "new".to_owned()];
    let mut with_defaults = config_of(vec![project("known", None)], vec![]);
    with_defaults.settings.default_after_workon = Some("w".to_owned());
    let added = org_import(Ok(with_defaults), "brocode", &repos).unwrap();
    assert_eq!(added.len(), 2);
    assert_eq!((added[0].name.as_str(), added[0].git.as_str(), added[0].project_config_path.as_str()), ("new", "git@github.com:brocode/new.git", "brocode"));
    assert_eq!(added[0].after_workon.as_deref(), Some("w"));
    assert_eq!(added[1].name, "other");
    assert!(org_import(Err(AppError::Io("e".to_owned())), "o", &repos).is_err());
}

#[test]
fn asking_github() {
    assert_eq!(request_body("query {\n \"x\" }"), "{ \"query\": \"query {\\n \\\"x\\\" }\" }");
    assert_eq!(authorization("abc"), "token abc");
    assert_eq!(
        organization_query("brocode", &None),
        "query {organization(login: \"brocode\"){repositories(first: 100) {nodes {name, isArchived} pageInfo {endCursor hasNextPage}}}}"
    );
    assert_eq!(
        organization_query("brocode", &Some("CUR".to_owned())),
        "query {organization(login: \"brocode\"){repositories(first: 100, after:\"CUR\") {nodes {name, isArchived} pageInfo {endCursor hasNextPage}}}}"
    );
    assert_eq!(check_status(true, "200 OK"), Ok(()));
    assert_eq!(check_status(false, "401 Unauthorized"), Err(AppError::RuntimeError("Bad status from github 401 Unauthorized".to_owned())));
    let nodes = vec![
        Repository { name: "a".to_owned(), is_archived: false },
        Repository { name: "old".to_owned(), is_archived: true },
        Repository { name: "b".to_owned(), is_archived: false },
    ];
    assert_eq!(page_repositories(&nodes, "c1".to_owned(), true, false), PageResult { repository_names: vec!["a".to_owned(), "b".to_owned()], next_cursor: Some("c1".to_owned()) });
    assert_eq!(page_repositories(&nodes, "c1".to_owned(), false, true), PageResult { repository_names: vec!["a".to_owned(), "old".to_owned(), "b".to_owned()], next_cursor: None });
    let mut api = github_api("tok").unwrap();
    assert!(api.next_query("o").unwrap().contains("first: 100)"));
    api.accept(page_repositories(&nodes, "c1".to_owned(), true, false));
    assert!(api.next_query("o").unwrap().contains("after:\"c1\""));
    api.accept(PageResult { repository_names: vec!["z".to_owned()], next_cursor: None });
    assert_eq!(api.next_query("o"), None);
    assert_eq!(api.list_repositories(), vec!["a".to_owned(), "b".to_owned(), "z".to_owned()]);
    assert_eq!(api.token, "tok");
}

#[test]
fn recent_projects_of_intellij() {
    assert_eq!(
        write_recent_projects(&vec!["/a".to_owned(), "/b c".to_owned()]),
        "<application><component name=\"RecentProjectsManager\"><option name=\"additionalInfo\"><map>\n<entry key=\"/a\">\n<value>\n<RecentProjectMetaInfo>\n</RecentProjectMetaInfo>\n</value>\n</entry>\n<entry key=\"/b c\">\n<value>\n<RecentProjectMetaInfo>\n</RecentProjectMetaInfo>\n</value>\n</entry>\n</map></option></component></application>\n"
    );
    assert!(is_intellij_directory("IntelliJIdea2023.1"));
    assert!(is_intellij_directory("IdeaIC2022.3"));
    assert!(!is_intellij_directory("PyCharm2023.1"));
    assert_eq!(recent_projects_file("/c/JetBrains/IdeaIC"), "/c/JetBrains/IdeaIC/options/recentProjects.xml");
    assert_eq!(number_of_projects_warning(50, true), None);
    assert_eq!(number_of_projects_warning(51, false), None);
    let warning = number_of_projects_warning(51, true).unwrap();
    assert!(warning.starts_with("WARNING: 51 projects were added to the list. Intellij only lists 50 projects by default."));
    assert!(warning.ends_with("A high number is recommended since it won't do any harm to the system."));
    let written = intellij(Ok(config_of(vec![project("a", None)], vec![])), true).unwrap();
    assert!(written.content.contains("<entry key=\"/work/a\">"));
    assert_eq!(written.warning, None);
    assert!(intellij(Err(AppError::Io("e".to_owned())), true).is_err());
}

#[test]
fn changing_into_projects() {
    let hook = |h: &str| Tag { after_workon: Some(h.to_owned()), ..tag(None) };
    let config = || {
        let mut homely = project("h", Some(&["t"]));
        homely.override_path = Some("~/h".to_owned());
        let mut own = project("own", Some(&["t"]));
        own.after_workon = Some("nvm use".to_owned());
        config_of(vec![project("a", None), homely, own], vec![("t", hook("ls"))])
    };
    assert_eq!(gen("own", Ok(config()), false, "/work/own", true), Ok("cd '/work/own' && ls && nvm use".to_owned()));
    assert_eq!(gen("own", Ok(config()), true, "/work/own", true), Ok("cd '/work/own'".to_owned()));
    assert_eq!(gen("a", Ok(config()), false, "/work/a", true), Ok("cd '/work/a'".to_owned()));
    assert_eq!(gen("x", Ok(config()), false, "/work/x", true), Err(AppError::UserError("project key x not found in fw.json".to_owned())));
    assert_eq!(gen("a", Ok(config()), false, "/work/a", false), Err(AppError::UserError("project key a found but path /work/a does not exist".to_owned())));
    assert_eq!(project_at(&config(), "/home/me/h", &Some("/home/me".to_owned())).unwrap().name, "h");
    assert_eq!(project_at(&config(), "/home/me/h", &None), Err(AppError::UserError("No project matching expanded path /home/me/h found in config".to_owned())));
    assert_eq!(current_project(&config(), "/work/own").unwrap().name, "own");
    assert_eq!(gen_reworkon(Ok(config()), "/work/own"), Ok("cd '/work/own' && ls && nvm use".to_owned()));
    assert!(gen_reworkon(Ok(config()), "/nowhere").is_err());
    let command = reworkon(Ok(config()), "/work/own").unwrap();
    assert_eq!(command.command, "cd /work/own && ls && nvm use");
    assert_eq!((command.workdir.as_str(), command.project_name.as_str()), ("/work/own", "own"));
    assert_eq!(command.shell, vec!["sh".to_owned(), "-c".to_owned()]);
    assert!(reworkon(Err(AppError::Io("e".to_owned())), "/work/own").is_err());
    assert_eq!(picker(true, true), Picker::Fzf);
    assert_eq!(picker(false, true), Picker::Skim);
    assert_eq!(picker(false, false), Picker::Basic);
}

#[test]
fn moving_a_configuration() {
    let mut config = config_of(vec![project("a", None), project("b", None)], vec![("t", tag(Some(4)))]);
    config.settings.github_token = Some("x".to_owned());
    let moved = migrate_write_projects(&config);
    assert!(moved.iter().all(|p| p.project_config_path == "default"));
    assert_eq!(moved.iter().map(|p| p.name.as_str()).collect::<Vec<_>>(), vec!["a", "b"]);
    let tags = migrate_write_tags(&config);
    assert_eq!((tags[0].name.as_str(), tags[0].tag.priority, tags[0].tag.tag_config_path.as_str()), ("t", Some(4), "default"));
    let all = write_new(&config, &None).unwrap();
    assert_eq!(all.settings.github_token.as_deref(), Some("x"));
    assert_eq!((all.projects.len(), all.tags.len()), (2, 1));
    let mut homely = project("h", None);
    homely.override_path = Some("~/h".to_owned());
    config.projects.insert("h".to_owned(), homely);
    assert!(write_new(&config, &Some("/home/me".to_owned())).is_ok());
    assert_eq!(write_new(&config, &None).err(), Some(AppError::UserError("Path of project h is not absolute: ~/h".to_owned())));
    config.settings.tags = None;
    assert!(migrate_write_tags(&config).is_empty());
}
