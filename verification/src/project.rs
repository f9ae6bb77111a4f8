//! Adding, changing, removing and showing projects. Each operation works out
//! what is to be written or shown; nothing here touches a file.

use vstd::prelude::*;
use vstd::string::*;
use crate::config::project::{clone_opt_names, opt_names, remotes_view, Project, ProjectView, Remote, RemoteView};
use crate::config::Config;
use crate::errors::{AppError, ErrorView};
use crate::git::{repo_name, repo_name_from_url};
use crate::names::{ascending, NameSet};
use crate::sync::{is_wanted, wanted};
use crate::text::{clone_opt, concat3, concat5, join, join_text, opt_text, or_else, starts_with, str_eq};

verus! {

/// The first of two optional texts if there is one, else the second.
pub open spec fn either(first: Option<Seq<char>>, second: Option<Seq<char>>) -> Option<Seq<char>> {
    if first is Some {
        first
    } else {
        second
    }
}

/// Whether `tags` are the tags of a new project that was given `asked` on a
/// configuration with the default tags `defaults`: where both are given,
/// their union; else the one that is given.
pub open spec fn tags_of_new(
    tags: Option<Seq<Seq<char>>>,
    asked: Option<Seq<Seq<char>>>,
    defaults: Option<Seq<Seq<char>>>,
) -> bool {
    match (asked, defaults) {
        (Some(a), Some(d)) => tags matches Some(t) && ascending(t) && forall|x: Seq<char>|
            t.contains(x) <==> (a.contains(x) || d.contains(x)),
        (Some(a), None) => tags == Some(a),
        (None, d) => tags == d,
    }
}

/// The error for a project that is already there.
pub open spec fn exists_already(name: Seq<char>) -> ErrorView {
    ErrorView::UserError(
        "Project key "@ + name + " already exists, not gonna overwrite it for you"@,
    )
}

/// The error for a project that cannot be changed because it is not there.
pub open spec fn cannot_update(name: Seq<char>) -> ErrorView {
    ErrorView::UserError("Project key "@ + name + " does not exists. Can not update."@)
}

/// The error for a project that cannot be shown because it is not there.
pub open spec fn not_found(name: Seq<char>) -> ErrorView {
    ErrorView::UserError("project "@ + name + " not found"@)
}

/// The name of a new project: the one that was given, or the name of the
/// repository at `url`.
pub open spec fn new_name(maybe_name: Option<Seq<char>>, url: Seq<char>) -> Seq<char> {
    match maybe_name {
        Some(n) => n,
        None => repo_name(url),
    }
}

/// The project to write for a new entry. Its name is the one given or that
/// of the repository; hooks that are not given are the default hooks of the
/// settings; its tags are the given ones together with the default tags. A
/// name that is taken is refused.
pub fn add_entry(
    maybe_config: Result<Config, AppError>,
    maybe_name: Option<String>,
    url: &str,
    after_workon: Option<String>,
    after_clone: Option<String>,
    override_path: Option<String>,
    tags: Option<NameSet>,
    trusted: bool,
) -> (entry: Result<Project, AppError>)
    ensures
        match maybe_config {
            Err(e) => entry matches Err(f) && f@ == e@,
            Ok(config) => {
                let name = new_name(opt_text(maybe_name), url@);
                if config.projects.has(name) {
                    entry matches Err(f) && f@ == exists_already(name)
                } else {
                    entry matches Ok(p) && p@ == (ProjectView {
                        name,
                        git: url@,
                        after_clone: either(
                            opt_text(after_clone),
                            opt_text(config.settings.default_after_clone),
                        ),
                        after_workon: either(
                            opt_text(after_workon),
                            opt_text(config.settings.default_after_workon),
                        ),
                        override_path: opt_text(override_path),
                        bare: None,
                        tags: p@.tags,
                        additional_remotes: None,
                        trusted,
                        project_config_path: "default"@,
                    }) && tags_of_new(
                        p@.tags,
                        opt_names(tags),
                        opt_names(config.settings.default_tags),
                    )
                }
            },
        },
{
    let name = match maybe_name {
        Some(n) => n,
        None => match repo_name_from_url(url) {
            Ok(n) => String::from_str(n),
            Err(e) => {
                return Err(e);
            },
        },
    };
    let config = match maybe_config {
        Ok(c) => c,
        Err(e) => {
            return Err(e);
        },
    };
    if config.projects.contains_key(name.as_str()) {
        return Err(
            AppError::UserError(
                concat3(
                    "Project key ",
                    name.as_str(),
                    " already exists, not gonna overwrite it for you",
                ),
            ),
        );
    }
    let project_tags: Option<NameSet> = match tags {
        Some(t1) => match &config.settings.default_tags {
            Some(t2) => {
                let both = t1.union(t2);
                proof {
                    assert forall|x: Seq<char>|
                        both@.contains(x) <==> (t1@.contains(x) || t2@.contains(x)) by {
                        assert(both.has(x) <==> (t1.has(x) || t2.has(x)));
                    }
                }
                Some(both)
            },
            None => Some(t1),
        },
        None => clone_opt_names(&config.settings.default_tags),
    };
    Ok(
        Project {
            git: String::from_str(url),
            name,
            after_clone: or_else(after_clone, clone_opt(&config.settings.default_after_clone)),
            after_workon: or_else(after_workon, clone_opt(&config.settings.default_after_workon)),
            override_path,
            tags: project_tags,
            bare: None,
            additional_remotes: None,
            trusted,
            project_config_path: String::from_str("default"),
        },
    )
}

/// What removing a project comes to: the project whose file goes, and the
/// directory to purge, where that was asked for.
#[derive(Debug)]
pub struct Removal {
    pub project: Project,
    pub purge: Option<String>,
}

/// What is to be removed with the project `project_name`: its file, and its
/// directory where `purge_directory` says so.
pub fn remove_project(
    maybe_config: Result<Config, AppError>,
    project_name: &str,
    purge_directory: bool,
) -> (removal: Result<Removal, AppError>)
    ensures
        match maybe_config {
            Err(e) => removal matches Err(f) && f@ == e@,
            Ok(config) => match config.projects.lookup(project_name@) {
                None => removal matches Err(f) && f@ == ErrorView::UserError(
                    "Project key "@ + project_name@ + " does not exist in config"@,
                ),
                Some(project) => removal matches Ok(r) && r.project@ == project@ && (
                purge_directory <==> r.purge is Some) && (r.purge matches Some(path) ==> exists|
                    home: Option<Seq<char>>,
                | path@ == config.path_of(&project, home)),
            },
        },
{
    let config = match maybe_config {
        Ok(c) => c,
        Err(e) => {
            return Err(e);
        },
    };
    match config.projects.get(project_name) {
        None => Err(
            AppError::UserError(
                concat3("Project key ", project_name, " does not exist in config"),
            ),
        ),
        Some(project) => {
            let purge = if purge_directory {
                Some(config.actual_path_to_project(project))
            } else {
                None
            };
            Ok(Removal { project: project.clone(), purge })
        },
    }
}

/// Whether one of `remotes` is called `name`.
pub open spec fn has_remote(remotes: Seq<RemoteView>, name: Seq<char>) -> bool {
    exists|i: int| 0 <= i < remotes.len() && (#[trigger] remotes[i]).name == name
}

/// The additional remotes of a project, none counting as an empty list.
pub open spec fn remotes_or_none(project: ProjectView) -> Seq<RemoteView> {
    match project.additional_remotes {
        Some(list) => list,
        None => Seq::empty(),
    }
}

/// Whether one of `remotes` is called `name`.
pub fn knows_remote(remotes: &Vec<Remote>, name: &str) -> (known: bool)
    ensures
        known == has_remote(remotes_view(remotes@), name@),
{
    let mut i: usize = 0;
    let ghost views = remotes_view(remotes@);
    while i < remotes.len()
        invariant
            i <= remotes.len(),
            views == remotes_view(remotes@),
            forall|k: int| 0 <= k < i ==> (#[trigger] views[k]).name != name@,
        decreases remotes.len() - i,
    {
        if str_eq(remotes[i].name.as_str(), name) {
            assert(views[i as int].name == name@);
            return true;
        }
        i += 1;
    }
    false
}

/// The project `name` with one more remote, to be written. A remote of a
/// name that the project already has is refused.
pub fn add_remote(
    maybe_config: Result<Config, AppError>,
    name: &str,
    remote_name: String,
    git: String,
) -> (changed: Result<Project, AppError>)
    ensures
        match maybe_config {
            Err(e) => changed matches Err(f) && f@ == e@,
            Ok(config) => match config.projects.lookup(name@) {
                None => changed matches Err(f) && f@ == cannot_update(name@),
                Some(project) => if has_remote(remotes_or_none(project@), remote_name@) {
                    changed matches Err(f) && f@ == ErrorView::UserError(
                        "Remote "@ + remote_name@ + " for project "@ + name@
                            + " does already exist. Can not add."@,
                    )
                } else {
                    changed matches Ok(p) && p@ == (ProjectView {
                        additional_remotes: Some(
                            remotes_or_none(project@).push(
                                RemoteView { name: remote_name@, git: git@ },
                            ),
                        ),
                        ..project@
                    })
                },
            },
        },
{
    let config = match maybe_config {
        Ok(c) => c,
        Err(e) => {
            return Err(e);
        },
    };
    let found = match config.projects.get(name) {
        Some(p) => p,
        None => {
            return Err(
                AppError::UserError(
                    concat3("Project key ", name, " does not exists. Can not update."),
                ),
            );
        },
    };
    let mut project_config = found.clone();
    let mut additional_remotes: Vec<Remote> = match project_config.additional_remotes {
        Some(list) => list,
        None => Vec::new(),
    };
    let ghost known = remotes_view(additional_remotes@);
    assert(known =~= remotes_or_none(found@));
    if knows_remote(&additional_remotes, remote_name.as_str()) {
        return Err(
            AppError::UserError(
                concat5(
                    "Remote ",
                    remote_name.as_str(),
                    " for project ",
                    name,
                    " does already exist. Can not add.",
                ),
            ),
        );
    }
    let ghost added = RemoteView { name: remote_name@, git: git@ };
    additional_remotes.push(Remote { name: remote_name, git });
    assert(remotes_view(additional_remotes@) =~= known.push(added));
    project_config.additional_remotes = Some(additional_remotes);
    Ok(project_config)
}

/// `remotes` without those called `name`.
pub open spec fn without_remote(remotes: Seq<RemoteView>, name: Seq<char>) -> Seq<RemoteView>
    decreases remotes.len(),
{
    if remotes.len() == 0 {
        Seq::empty()
    } else if remotes.last().name == name {
        without_remote(remotes.drop_last(), name)
    } else {
        without_remote(remotes.drop_last(), name).push(remotes.last())
    }
}

/// The project `name` without the remote `remote_name`, to be written.
pub fn remove_remote(maybe_config: Result<Config, AppError>, name: &str, remote_name: String) -> (changed:
    Result<Project, AppError>)
    ensures
        match maybe_config {
            Err(e) => changed matches Err(f) && f@ == e@,
            Ok(config) => match config.projects.lookup(name@) {
                None => changed matches Err(f) && f@ == cannot_update(name@),
                Some(project) => changed matches Ok(p) && p@ == (ProjectView {
                    additional_remotes: Some(
                        without_remote(remotes_or_none(project@), remote_name@),
                    ),
                    ..project@
                }),
            },
        },
{
    let config = match maybe_config {
        Ok(c) => c,
        Err(e) => {
            return Err(e);
        },
    };
    let found = match config.projects.get(name) {
        Some(p) => p,
        None => {
            return Err(
                AppError::UserError(
                    concat3("Project key ", name, " does not exists. Can not update."),
                ),
            );
        },
    };
    let mut project_config = found.clone();
    let old_remotes: Vec<Remote> = match project_config.additional_remotes {
        Some(list) => list,
        None => Vec::new(),
    };
    let ghost known = remotes_view(old_remotes@);
    assert(known =~= remotes_or_none(found@));
    let mut kept: Vec<Remote> = Vec::new();
    let mut i: usize = 0;
    assert(known.take(0) =~= Seq::<RemoteView>::empty());
    assert(remotes_view(kept@) =~= Seq::<RemoteView>::empty());
    while i < old_remotes.len()
        invariant
            i <= old_remotes.len(),
            known == remotes_view(old_remotes@),
            remotes_view(kept@) == without_remote(known.take(i as int), remote_name@),
        decreases old_remotes.len() - i,
    {
        proof {
            let upto = known.take(i + 1);
            assert(upto.drop_last() =~= known.take(i as int));
            assert(upto.last() == old_remotes@[i as int]@);
        }
        if !str_eq(old_remotes[i].name.as_str(), remote_name.as_str()) {
            let ghost before = remotes_view(kept@);
            kept.push(old_remotes[i].clone());
            assert(remotes_view(kept@) =~= before.push(old_remotes@[i as int]@));
        }
        i += 1;
    }
    assert(known.take(known.len() as int) =~= known);
    project_config.additional_remotes = Some(kept);
    Ok(project_config)
}

/// Whether `name` looks like the address of a repository.
pub open spec fn looks_like_url(name: Seq<char>) -> bool {
    "http"@.is_prefix_of(name) || "git@"@.is_prefix_of(name)
}

/// The project `name` with what was given in place of what it had, to be
/// written. What is not given stays.
pub fn update_entry(
    maybe_config: Result<Config, AppError>,
    name: &str,
    git: Option<String>,
    after_workon: Option<String>,
    after_clone: Option<String>,
    override_path: Option<String>,
) -> (changed: Result<Project, AppError>)
    ensures
        match maybe_config {
            Err(e) => changed matches Err(f) && f@ == e@,
            Ok(config) => if looks_like_url(name@) {
                changed matches Err(f) && f@ == ErrorView::UserError(
                    name@ + " looks like a repo URL and not like a project name, please fix"@,
                )
            } else {
                match config.projects.lookup(name@) {
                    None => changed matches Err(f) && f@ == cannot_update(name@),
                    Some(old) => changed matches Ok(p) && p@ == (ProjectView {
                        git: match git {
                            Some(g) => g@,
                            None => old@.git,
                        },
                        after_clone: either(opt_text(after_clone), old@.after_clone),
                        after_workon: either(opt_text(after_workon), old@.after_workon),
                        override_path: either(opt_text(override_path), old@.override_path),
                        ..old@
                    }),
                }
            },
        },
{
    let config = match maybe_config {
        Ok(c) => c,
        Err(e) => {
            return Err(e);
        },
    };
    if starts_with(name, "http") || starts_with(name, "git@") {
        let mut text = String::from_str(name);
        text.append(" looks like a repo URL and not like a project name, please fix");
        return Err(AppError::UserError(text));
    }
    let found = match config.projects.get(name) {
        Some(p) => p,
        None => {
            return Err(
                AppError::UserError(
                    concat3("Project key ", name, " does not exists. Can not update."),
                ),
            );
        },
    };
    let old = found.clone();
    Ok(
        Project {
            git: match git {
                Some(g) => g,
                None => old.git,
            },
            name: old.name,
            after_clone: or_else(after_clone, old.after_clone),
            after_workon: or_else(after_workon, old.after_workon),
            override_path: or_else(override_path, old.override_path),
            tags: old.tags,
            bare: old.bare,
            trusted: old.trusted,
            additional_remotes: old.additional_remotes,
            project_config_path: old.project_config_path,
        },
    )
}

/// The names of those of `names` whose project at the same place of
/// `projects` is wanted under `filter`.
pub open spec fn wanted_names(
    names: Seq<Seq<char>>,
    projects: Seq<Project>,
    filter: NameSet,
) -> Seq<Seq<char>>
    decreases names.len(),
{
    if names.len() == 0 || projects.len() != names.len() {
        Seq::empty()
    } else if wanted(projects.last(), filter) {
        wanted_names(names.drop_last(), projects.drop_last(), filter).push(names.last())
    } else {
        wanted_names(names.drop_last(), projects.drop_last(), filter)
    }
}

/// The names of the projects that have one of the tags `tags`, or of all
/// projects where `tags` is empty, in ascending order.
pub fn ls(maybe_config: Result<Config, AppError>, tags: &NameSet) -> (listing: Result<
    Vec<String>,
    AppError,
>)
    ensures
        match maybe_config {
            Err(e) => listing matches Err(f) && f@ == e@,
            Ok(config) => listing matches Ok(names) && names.deep_view() == wanted_names(
                config.projects.names(),
                config.projects.values(),
                *tags,
            ),
        },
{
    let config = match maybe_config {
        Ok(c) => c,
        Err(e) => {
            return Err(e);
        },
    };
    let mut names: Vec<String> = Vec::new();
    let n = config.projects.len();
    let mut i: usize = 0;
    let ghost all_names = config.projects.names();
    let ghost all = config.projects.values();
    assert(all_names.take(0) =~= Seq::<Seq<char>>::empty());
    assert(names.deep_view() =~= Seq::<Seq<char>>::empty());
    while i < n
        invariant
            i <= n,
            n == all.len(),
            n == all_names.len(),
            all_names == config.projects.names(),
            all == config.projects.values(),
            names.deep_view() == wanted_names(all_names.take(i as int), all.take(i as int), *tags),
        decreases n - i,
    {
        let project = config.projects.value_at(i);
        proof {
            assert(all.take(i + 1).drop_last() =~= all.take(i as int));
            assert(all_names.take(i + 1).drop_last() =~= all_names.take(i as int));
            assert(all.take(i + 1).last() == *project);
        }
        if is_wanted(project, tags) {
            let ghost before = names.deep_view();
            names.push(config.projects.key_at(i).clone());
            assert(names.deep_view() =~= before.push(all_names[i as int]));
        }
        i += 1;
    }
    assert(all.take(n as int) =~= all);
    assert(all_names.take(n as int) =~= all_names);
    Ok(names)
}

/// The path of the project `name` on this machine.
pub fn print_path(maybe_config: Result<Config, AppError>, name: &str) -> (path: Result<
    String,
    AppError,
>)
    ensures
        match maybe_config {
            Err(e) => path matches Err(f) && f@ == e@,
            Ok(config) => match config.projects.lookup(name@) {
                None => path matches Err(f) && f@ == not_found(name@),
                Some(project) => path matches Ok(p) && exists|home: Option<Seq<char>>|
                    p@ == config.path_of(&project, home),
            },
        },
{
    let config = match maybe_config {
        Ok(c) => c,
        Err(e) => {
            return Err(e);
        },
    };
    match config.projects.get(name) {
        None => Err(AppError::UserError(concat3("project ", name, " not found"))),
        Some(project) => Ok(config.actual_path_to_project(project)),
    }
}

/// `label` filled up with blanks to 20 characters, then `: ` and `value`.
pub open spec fn field_line(label: Seq<char>, value: Seq<char>) -> Seq<char> {
    let fill = if label.len() < 20 {
        (20 - label.len()) as nat
    } else {
        0nat
    };
    label + crate::spawn::blanks(fill) + ": "@ + value
}

/// One line of a description: the label in a column of 20 characters, then
/// the value.
pub fn field(label: &str, value: &str) -> (line: String)
    ensures
        line@ == field_line(label@, value@),
{
    let mut line = String::from_str(label);
    let n = label.unicode_len();
    let fill: usize = if n < 20 {
        20 - n
    } else {
        0
    };
    let mut i: usize = 0;
    proof {
        reveal_strlit(" ");
        assert(line@ =~= label@ + crate::spawn::blanks(0));
    }
    while i < fill
        invariant
            i <= fill,
            " "@ == seq![' '],
            line@ == label@ + crate::spawn::blanks(i as nat),
        decreases fill - i,
    {
        line.append(" ");
        assert(line@ =~= label@ + crate::spawn::blanks((i + 1) as nat));
        i += 1;
    }
    line.append(": ");
    line.append(value);
    assert(line@ =~= field_line(label@, value@));
    line
}

/// The remotes `remotes` in words: each as its name, ` - ` and its address.
pub open spec fn remote_texts(remotes: Seq<RemoteView>) -> Seq<Seq<char>> {
    remotes.map_values(|r: RemoteView| r.name + " - "@ + r.git)
}

/// What a list that may be missing shows as: its elements with `, ` between
/// them, or `None`.
pub open spec fn listed(list: Option<Seq<Seq<char>>>) -> Seq<char> {
    match list {
        Some(l) => join_text(l, ", "@),
        None => "None"@,
    }
}

/// The description of a project: its name to stand as the heading, then one
/// line for each of its path, its storage path, its tags, its additional
/// remotes and its address.
#[derive(Debug)]
pub struct Inspection {
    pub heading: String,
    pub lines: Vec<String>,
}

/// The lines that describe `project` lying at `path`.
pub open spec fn description(project: ProjectView, path: Seq<char>) -> Seq<Seq<char>> {
    seq![
        field_line("Path"@, path),
        field_line("config path"@, project.project_config_path),
        field_line("Tags"@, listed(project.tags)),
        field_line(
            "Additional remotes"@,
            listed(
                match project.additional_remotes {
                    Some(r) => Some(remote_texts(r)),
                    None => None,
                },
            ),
        ),
        field_line("Git"@, project.git),
    ]
}

/// The description of `project` lying at `path`.
pub fn describe(project: &Project, path: &str) -> (inspection: Inspection)
    ensures
        inspection.heading@ == project@.name,
        inspection.lines.deep_view() == description(project@, path@),
{
    let tags = match &project.tags {
        Some(t) => join(&t.to_vec(), ", "),
        None => String::from_str("None"),
    };
    let additional_remotes = match &project.additional_remotes {
        Some(list) => {
            let mut texts: Vec<String> = Vec::new();
            let mut i: usize = 0;
            while i < list.len()
                invariant
                    i <= list.len(),
                    texts.len() == i,
                    forall|k: int|
                        0 <= k < i ==> texts@[k]@ == list@[k]@.name + " - "@ + list@[k]@.git,
                decreases list.len() - i,
            {
                texts.push(concat3(list[i].name.as_str(), " - ", list[i].git.as_str()));
                i += 1;
            }
            assert(texts.deep_view() =~= remote_texts(remotes_view(list@)));
            join(&texts, ", ")
        },
        None => String::from_str("None"),
    };
    let mut lines: Vec<String> = Vec::new();
    lines.push(field("Path", path));
    lines.push(field("config path", project.project_config_path.as_str()));
    lines.push(field("Tags", tags.as_str()));
    lines.push(field("Additional remotes", additional_remotes.as_str()));
    lines.push(field("Git", project.git.as_str()));
    assert(lines.deep_view() =~= description(project@, path@));
    Inspection { heading: project.name.clone(), lines }
}

/// The description of the project `name`, with its path on this machine.
pub fn inspect(name: &str, maybe_config: Result<Config, AppError>) -> (inspection: Result<
    Inspection,
    AppError,
>)
    ensures
        match maybe_config {
            Err(e) => inspection matches Err(f) && f@ == e@,
            Ok(config) => match config.projects.lookup(name@) {
                None => inspection matches Err(f) && f@ == not_found(name@),
                Some(project) => inspection matches Ok(i) && i.heading@ == project@.name && exists|
                    home: Option<Seq<char>>,
                |
                    i.lines.deep_view() == description(
                        project@,
                        #[trigger] config.path_of(&project, home),
                    ),
            },
        },
{
    let config = match maybe_config {
        Ok(c) => c,
        Err(e) => {
            return Err(e);
        },
    };
    match config.projects.get(name) {
        None => Err(AppError::UserError(concat3("project ", name, " not found"))),
        Some(project) => {
            let path = config.actual_path_to_project(project);
            let inspection = describe(project, path.as_str());
            proof {
                let home = choose|home: Option<Seq<char>>| path@ == config.path_of(project, home);
                assert(inspection.lines.deep_view() == description(
                    project@,
                    config.path_of(project, home),
                ));
            }
            Ok(inspection)
        },
    }
}

} // verus!
