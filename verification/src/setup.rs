//! Setting up a configuration from what is found on disk or at GitHub.

use vstd::prelude::*;
use vstd::string::*;
use crate::config::path::{absolute, is_absolute};
use crate::config::project::{clone_opt_names, opt_names, Project, ProjectView};
use crate::config::settings::{PersistedSettings, PersistedSettingsView, Settings};
use crate::config::Config;
use crate::errors::{AppError, ErrorView};
use crate::git::last_fragment;
use crate::name_map::NameMap;
use crate::text::{clone_opt, concat3, concat5, opt_text, or_else, str_eq};

verus! {

/// Which projects of a GitLab instance to import.
#[derive(Clone, Copy, Debug, PartialEq, Eq)]
pub enum ProjectState {
    Active,
    Archived,
    Both,
}

impl ProjectState {
    /// The word for the state.
    pub open spec fn word(self) -> Seq<char> {
        match self {
            ProjectState::Active => "active"@,
            ProjectState::Archived => "archived"@,
            ProjectState::Both => "both"@,
        }
    }

    /// All states.
    pub fn value_variants() -> (all: Vec<ProjectState>)
        ensures
            all@ == seq![ProjectState::Active, ProjectState::Archived, ProjectState::Both],
    {
        let mut all: Vec<ProjectState> = Vec::new();
        all.push(ProjectState::Active);
        all.push(ProjectState::Archived);
        all.push(ProjectState::Both);
        assert(all@ =~= seq![ProjectState::Active, ProjectState::Archived, ProjectState::Both]);
        all
    }

    /// The word under which the state is chosen on the command line.
    pub fn to_possible_value(&self) -> (word: &'static str)
        ensures
            word@ == self.word(),
    {
        match self {
            ProjectState::Active => "active",
            ProjectState::Archived => "archived",
            ProjectState::Both => "both",
        }
    }

    /// The state that `s` is the word for.
    pub fn from_str(s: &str) -> (state: Result<ProjectState, AppError>)
        ensures
            match state {
                Ok(st) => s@ == st.word(),
                Err(e) => e@ == ErrorView::InternalError("invalid value for ProjectState"@) && s@
                    != "active"@ && s@ != "archived"@ && s@ != "both"@,
            },
    {
        if str_eq(s, "active") {
            Ok(ProjectState::Active)
        } else if str_eq(s, "archived") {
            Ok(ProjectState::Archived)
        } else if str_eq(s, "both") {
            Ok(ProjectState::Both)
        } else {
            Err(AppError::InternalError("invalid value for ProjectState"))
        }
    }
}

/// Checks the directory below which a new configuration is set up: it must
/// exist, which `exists` says, and its path must be absolute.
pub fn setup(workspace_dir: &str, exists: bool) -> (result: Result<(), AppError>)
    ensures
        match result {
            Ok(_) => exists && absolute(workspace_dir@),
            Err(e) => if !exists {
                e@ == ErrorView::UserError(
                    "Given workspace path "@ + workspace_dir@ + " does not exist"@,
                )
            } else {
                !absolute(workspace_dir@) && e@ == ErrorView::UserError(
                    "Workspace path "@ + workspace_dir@ + " needs to be absolute"@,
                )
            },
        },
{
    if !exists {
        Err(AppError::UserError(concat3("Given workspace path ", workspace_dir, " does not exist")))
    } else if !is_absolute(workspace_dir) {
        Err(AppError::UserError(concat3("Workspace path ", workspace_dir, " needs to be absolute")))
    } else {
        Ok(())
    }
}

/// A copy of the projects of `projects`, in order of their names.
pub fn projects_in_order(projects: &NameMap<Project>) -> (list: Vec<Project>)
    ensures
        crate::sync::projects_view(list@) == crate::sync::projects_view(projects.values()),
{
    let mut list: Vec<Project> = Vec::new();
    let n = projects.len();
    let mut i: usize = 0;
    while i < n
        invariant
            i <= n,
            n == projects.values().len(),
            n == projects.names().len(),
            list.len() == i,
            forall|k: int| 0 <= k < i ==> list@[k]@ == projects.values()[k]@,
        decreases n - i,
    {
        list.push(projects.value_at(i).clone());
        i += 1;
    }
    assert(crate::sync::projects_view(list@) =~= crate::sync::projects_view(projects.values()));
    list
}

/// The settings of a new configuration: they name the workspace and
/// nothing else.
pub open spec fn new_settings(workspace_dir: Seq<char>) -> PersistedSettingsView {
    PersistedSettingsView {
        workspace: workspace_dir,
        shell: None,
        default_after_workon: None,
        default_after_clone: None,
        github_token: None,
        gitlab: None,
    }
}

/// What is written for a new configuration.
#[derive(Debug)]
pub struct NewConfig {
    pub settings: PersistedSettings,
    pub projects: Vec<Project>,
}

/// What is written for a new configuration with the workspace
/// `workspace_dir` and the projects `config` found in it: settings that name
/// the workspace and nothing else, and every project. Nothing is written
/// unless every project has an absolute path on a machine with the home
/// directory `home`; the first project that has none is named in the error.
pub fn write_new_config_with_projects(config: &Config, workspace_dir: &str, home: &Option<String>) -> (written:
    Result<NewConfig, AppError>)
    ensures
        written is Ok <==> forall|i: int|
            0 <= i < config.projects.values().len() ==> absolute(
                config.path_of(&#[trigger] config.projects.values()[i], opt_text(*home)),
            ),
        written matches Ok(w) ==> w.settings@ == new_settings(workspace_dir@)
            && crate::sync::projects_view(w.projects@) == crate::sync::projects_view(
            config.projects.values(),
        ),
        written matches Err(e) ==> e@ is UserError,
{
    match crate::config::store::check_paths(config, home) {
        Ok(_) => {},
        Err(e) => {
            return Err(e);
        },
    }
    let settings = PersistedSettings {
        workspace: String::from_str(workspace_dir),
        default_after_workon: None,
        default_after_clone: None,
        shell: None,
        github_token: None,
        gitlab: None,
    };
    Ok(NewConfig { settings, projects: projects_in_order(&config.projects) })
}

/// The configuration that holds `projects` below the workspace
/// `workspace_dir` and nothing else.
pub fn new_config(projects: NameMap<Project>, workspace_dir: &str) -> (config: Config)
    ensures
        config.projects == projects,
        config.settings.persisted() == new_settings(workspace_dir@),
        config.settings.tags is None,
        config.settings.default_tags is None,
{
    Config {
        projects,
        settings: Settings {
            workspace: String::from_str(workspace_dir),
            shell: None,
            default_after_workon: None,
            default_after_clone: None,
            default_tags: None,
            tags: None,
            github_token: None,
            gitlab: None,
        },
    }
}

/// The project for a repository that was found on disk: it is called
/// `name`, its address is that of the repository's `origin`, and its hooks
/// and tags are the defaults of the settings, where there are settings.
pub open spec fn found_project(settings: Option<Settings>, url: Seq<char>, name: Seq<char>) -> ProjectView {
    ProjectView {
        name,
        git: url,
        after_clone: match settings {
            Some(s) => opt_text(s.default_after_clone),
            None => None,
        },
        after_workon: match settings {
            Some(s) => opt_text(s.default_after_workon),
            None => None,
        },
        override_path: None,
        additional_remotes: None,
        tags: match settings {
            Some(s) => opt_names(s.default_tags),
            None => None,
        },
        bare: None,
        trusted: false,
        project_config_path: "default"@,
    }
}

/// The project for a repository that was found on disk.
pub fn load_project(maybe_settings: Option<&Settings>, url: &str, name: &str) -> (project: Project)
    ensures
        project@ == found_project(
            match maybe_settings {
                Some(s) => Some(*s),
                None => None,
            },
            url@,
            name@,
        ),
{
    Project {
        name: String::from_str(name),
        git: String::from_str(url),
        after_clone: match maybe_settings {
            Some(s) => clone_opt(&s.default_after_clone),
            None => None,
        },
        after_workon: match maybe_settings {
            Some(s) => clone_opt(&s.default_after_workon),
            None => None,
        },
        override_path: None,
        additional_remotes: None,
        tags: match maybe_settings {
            Some(s) => clone_opt_names(&s.default_tags),
            None => None,
        },
        bare: None,
        trusted: false,
        project_config_path: String::from_str("default"),
    }
}

/// The project to write for the repository at `path`, whose `origin` has
/// the address `url`: it is called like the last part of the path, and lies
/// at the path. A configuration that could not be read is no hindrance: the
/// project then has no hooks and no tags. A path without a last part is
/// refused.
pub fn import(maybe_config: Result<Config, AppError>, path: &str, url: &str) -> (project: Result<
    Project,
    AppError,
>)
    ensures
        match project {
            Ok(p) => last_fragment(path@).len() > 0 && p@ == (ProjectView {
                override_path: Some(path@),
                ..found_project(
                    match maybe_config {
                        Ok(c) => Some(c.settings),
                        Err(_) => None,
                    },
                    url@,
                    last_fragment(path@),
                )
            }),
            Err(e) => last_fragment(path@).len() == 0 && e@ == ErrorView::UserError(
                "Import path needs to be valid"@,
            ),
        },
{
    let file_name = crate::git::last_fragment_of(path);
    if file_name.unicode_len() == 0 {
        return Err(AppError::UserError(String::from_str("Import path needs to be valid")));
    }
    let mut new_project = match &maybe_config {
        Ok(c) => load_project(Some(&c.settings), url, file_name),
        Err(_) => load_project(None, url, file_name),
    };
    new_project.override_path = Some(String::from_str(path));
    Ok(new_project)
}

/// The token with which GitHub is asked: the one of the environment, or
/// else the one of the settings. Without a token GitHub cannot be asked.
pub fn github_token(config: &Config, from_environment: Option<String>, org_name: &str) -> (token:
    Result<String, AppError>)
    ensures
        match token {
            Ok(t) => Some(t@) == (if from_environment is Some {
                opt_text(from_environment)
            } else {
                opt_text(config.settings.github_token)
            }),
            Err(e) => from_environment is None && config.settings.github_token is None && e@
                == ErrorView::UserError(
                "Can't call GitHub API for org "@ + org_name@
                    + " because no github oauth token (settings.github_token) specified in the configuration."@,
            ),
        },
{
    match or_else(from_environment, clone_opt(&config.settings.github_token)) {
        Some(t) => Ok(t),
        None => Err(
            AppError::UserError(
                concat3(
                    "Can't call GitHub API for org ",
                    org_name,
                    " because no github oauth token (settings.github_token) specified in the configuration.",
                ),
            ),
        ),
    }
}

/// The project for the repository `name` of the organisation `org_name`.
pub open spec fn org_project(config: Config, org_name: Seq<char>, name: Seq<char>) -> ProjectView {
    ProjectView {
        name,
        git: "git@github.com:"@ + org_name + "/"@ + name + ".git"@,
        after_clone: opt_text(config.settings.default_after_clone),
        after_workon: opt_text(config.settings.default_after_workon),
        override_path: None,
        tags: opt_names(config.settings.default_tags),
        additional_remotes: None,
        bare: None,
        trusted: false,
        project_config_path: org_name,
    }
}

/// The projects to add for the repositories `names`: one for each name that
/// is no project yet and that did not come earlier in the list.
pub open spec fn org_projects(config: Config, org_name: Seq<char>, names: Seq<Seq<char>>) -> Seq<
    ProjectView,
>
    decreases names.len(),
{
    if names.len() == 0 {
        Seq::empty()
    } else if config.projects.has(names.last()) || names.drop_last().contains(names.last()) {
        org_projects(config, org_name, names.drop_last())
    } else {
        org_projects(config, org_name, names.drop_last()).push(
            org_project(config, org_name, names.last()),
        )
    }
}

/// The projects to write for the repositories `names` of the organisation
/// `org_name`: every repository that is no project yet becomes one, with the
/// default hooks and tags of the settings; a name that comes twice counts
/// once.
pub fn org_import(maybe_config: Result<Config, AppError>, org_name: &str, names: &Vec<String>) -> (added:
    Result<Vec<Project>, AppError>)
    ensures
        match maybe_config {
            Err(e) => added matches Err(f) && f@ == e@,
            Ok(config) => added matches Ok(list) && crate::sync::projects_view(list@)
                == org_projects(config, org_name@, names.deep_view()),
        },
{
    let config = match maybe_config {
        Ok(c) => c,
        Err(e) => {
            return Err(e);
        },
    };
    let mut list: Vec<Project> = Vec::new();
    let mut seen = crate::names::NameSet::new();
    let ghost all = names.deep_view();
    let mut i: usize = 0;
    assert(all.take(0) =~= Seq::<Seq<char>>::empty());
    assert(crate::sync::projects_view(list@) =~= Seq::<ProjectView>::empty());
    while i < names.len()
        invariant
            i <= names.len(),
            all == names.deep_view(),
            forall|x: Seq<char>| seen.has(x) <==> all.take(i as int).contains(x),
            crate::sync::projects_view(list@) == org_projects(config, org_name@, all.take(i as int)),
        decreases names.len() - i,
    {
        let name = &names[i];
        let ghost upto = all.take(i + 1);
        let ghost before = seen;
        proof {
            assert(upto.drop_last() =~= all.take(i as int));
            assert(upto.last() == name@);
        }
        let known = config.projects.contains_key(name.as_str()) || seen.contains(name.as_str());
        if !known {
            let ghost sofar = crate::sync::projects_view(list@);
            let mut git = concat5("git@github.com:", org_name, "/", name.as_str(), ".git");
            list.push(
                Project {
                    name: name.clone(),
                    git,
                    after_clone: clone_opt(&config.settings.default_after_clone),
                    after_workon: clone_opt(&config.settings.default_after_workon),
                    override_path: None,
                    tags: clone_opt_names(&config.settings.default_tags),
                    additional_remotes: None,
                    bare: None,
                    trusted: false,
                    project_config_path: String::from_str(org_name),
                },
            );
            assert(crate::sync::projects_view(list@) =~= sofar.push(
                org_project(config, org_name@, name@),
            ));
        }
        seen.insert(name.clone());
        proof {
            assert forall|x: Seq<char>| seen.has(x) <==> upto.contains(x) by {
                assert(seen.has(x) <==> (x == name@ || before.has(x)));
                if upto.contains(x) {
                    let k = choose|k: int| 0 <= k < upto.len() && upto[k] == x;
                    if k < i {
                        assert(all.take(i as int)[k] == x);
                    }
                }
                if before.has(x) {
                    let k = choose|k: int|
                        0 <= k < all.take(i as int).len() && all.take(i as int)[k] == x;
                    assert(upto[k] == x);
                }
                if x == name@ {
                    assert(upto[i as int] == x);
                }
            }
        }
        i += 1;
    }
    assert(all.take(names.len() as int) =~= all);
    Ok(list)
}

} // verus!
