//! A configuration as the commands that build it up again.

use vstd::prelude::*;
use vstd::string::*;
use crate::config::project::{remotes_view, Project, ProjectView, RemoteView};
use crate::config::settings::TagView;
use crate::config::Config;
use crate::errors::{AppError, ErrorView};
use crate::names::{ascending, lemma_ascending_unique, NameSet};
use crate::numbers::{decimal, decimal_text};
use crate::project::{not_found, remotes_or_none};
use crate::tag::{project_has_tag, tags_or_none, unknown_tag};
use crate::text::{
    concat3, concat4, concat5, join, join_text, opt_text, replace_char, replaced,
};

verus! {

/// An option of the command that adds a tag: ` --name='value'`, or nothing
/// where there is no value.
pub open spec fn option_text(name: Seq<char>, value: Option<Seq<char>>) -> Seq<char> {
    match value {
        Some(v) => " --"@ + name + "='"@ + v + "'"@,
        None => Seq::empty(),
    }
}

/// The command that adds `tag` under the name `tag_name`.
pub open spec fn tag_command(tag_name: Seq<char>, tag: TagView) -> Seq<char> {
    "fw tag add "@ + tag_name + option_text("after-workon"@, tag.after_workon) + option_text(
        "after-clone"@,
        tag.after_clone,
    ) + option_text(
        "priority"@,
        match tag.priority {
            Some(p) => Some(decimal_text(p as nat)),
            None => None,
        },
    ) + option_text("workspace"@, tag.workspace)
}

/// The command that adds the tag `tag_name` of `config`, or why there is
/// none.
pub open spec fn tag_export(tag_name: Seq<char>, config: Config) -> Result<Seq<char>, ErrorView> {
    match config.settings.tags {
        None => Err(ErrorView::UserError("No tags configured"@)),
        Some(tags) => match tags.lookup(tag_name) {
            None => Err(unknown_tag(tag_name)),
            Some(tag) => Ok(tag_command(tag_name, tag@)),
        },
    }
}

fn option(name: &str, value: Option<&str>) -> (text: String)
    ensures
        text@ == option_text(
            name@,
            match value {
                Some(v) => Some(v@),
                None => None,
            },
        ),
{
    match value {
        Some(v) => concat5(" --", name, "='", v, "'"),
        None => String::new(),
    }
}

fn as_ref(value: &Option<String>) -> (r: Option<&str>)
    ensures
        match r {
            Some(v) => opt_text(*value) == Some(v@),
            None => value is None,
        },
{
    match value {
        Some(v) => Some(v.as_str()),
        None => None,
    }
}

/// The command that adds the tag `tag_name` of `config`.
pub fn tag_to_shell_commands(tag_name: &str, config: &Config) -> (command: Result<String, AppError>)
    ensures
        match tag_export(tag_name@, *config) {
            Ok(text) => command matches Ok(c) && c@ == text,
            Err(e) => command matches Err(f) && f@ == e,
        },
{
    if let Some(tags) = &config.settings.tags {
        if let Some(tag) = tags.get(tag_name) {
            let priority = match tag.priority {
                Some(p) => Some(decimal(p as u64)),
                None => None,
            };
            let mut text = String::from_str("fw tag add ");
            text.append(tag_name);
            text.append(option("after-workon", as_ref(&tag.after_workon)).as_str());
            text.append(option("after-clone", as_ref(&tag.after_clone)).as_str());
            text.append(option("priority", as_ref(&priority)).as_str());
            text.append(option("workspace", as_ref(&tag.workspace)).as_str());
            Ok(text)
        } else {
            let mut text = String::from_str("Unknown tag ");
            text.append(tag_name);
            Err(AppError::UserError(text))
        }
    } else {
        Err(AppError::UserError(String::from_str("No tags configured")))
    }
}

/// The line that stands for the tag `tag_name`: its command, or a comment
/// that says why there is none.
pub open spec fn tag_line(tag_name: Seq<char>, config: Config) -> Seq<char> {
    match tag_export(tag_name, config) {
        Ok(text) => text,
        Err(e) => "# Error exporting tag: "@ + e.detail(),
    }
}

fn line_of_tag(tag_name: &str, config: &Config) -> (line: String)
    ensures
        line@ == tag_line(tag_name@, *config),
{
    match tag_to_shell_commands(tag_name, config) {
        Ok(commands) => commands,
        Err(e) => {
            let mut text = String::from_str("# Error exporting tag: ");
            text.append(e.detail());
            text
        },
    }
}

/// `value` between single quotes, as a shell takes it: each single quote in
/// it closes the quotes, stands for itself, and opens them again.
pub open spec fn quoted(value: Seq<char>) -> Seq<char> {
    "'"@ + replaced(value, '\'', "'\\''"@) + "'"@
}

/// The command that sets `parameter` of the project `name` to `value`.
pub open spec fn update_line(name: Seq<char>, parameter: Seq<char>, value: Seq<char>) -> Seq<char> {
    "fw update "@ + name + " --"@ + parameter + " "@ + quoted(value)
}

/// The command that sets `parameter`, where there is a value.
pub open spec fn update_lines(
    name: Seq<char>,
    parameter: Seq<char>,
    value: Option<Seq<char>>,
) -> Seq<Seq<char>> {
    match value {
        Some(v) => seq![update_line(name, parameter, v)],
        None => Seq::empty(),
    }
}

/// The commands that give the project `name` its tags.
pub open spec fn tagging_lines(name: Seq<char>, tags: Seq<Seq<char>>) -> Seq<Seq<char>> {
    tags.map_values(|t: Seq<char>| "fw tag tag-project "@ + name + " "@ + t)
}

/// The commands that give the project `name` its additional remotes.
pub open spec fn remote_lines(name: Seq<char>, remotes: Seq<RemoteView>) -> Seq<Seq<char>> {
    remotes.map_values(|r: RemoteView| "fw add-remote "@ + name + " "@ + r.name + " "@ + r.git)
}

/// The commands that build up `project`: it is added, its path and hooks
/// are set, it is tagged, and its remotes are added.
pub open spec fn project_lines(project: ProjectView) -> Seq<Seq<char>> {
    seq!["fw add "@ + project.git + " "@ + project.name] + update_lines(
        project.name,
        "override-path"@,
        project.override_path,
    ) + update_lines(project.name, "after-workon"@, project.after_workon) + update_lines(
        project.name,
        "after-clone"@,
        project.after_clone,
    ) + tagging_lines(project.name, tags_or_none(project)) + remote_lines(
        project.name,
        remotes_or_none(project),
    )
}

/// The commands that build up `projects`, one project after the other.
pub open spec fn all_project_lines(projects: Seq<Project>) -> Seq<Seq<char>>
    decreases projects.len(),
{
    if projects.len() == 0 {
        Seq::empty()
    } else {
        all_project_lines(projects.drop_last()) + project_lines(projects.last()@)
    }
}

/// The first line of every export.
pub open spec fn heading() -> Seq<char> {
    "# fw export projects"@
}

/// Whether `line` stands for a tag of one of the first `upto` of `projects`.
pub open spec fn from_projects(config: Config, projects: Seq<Project>, upto: int, line: Seq<char>) -> bool {
    exists|k: int, t: Seq<char>|
        0 <= k < upto && k < projects.len() && #[trigger] tags_or_none(projects[k]@).contains(t)
            && line == tag_line(t, config)
}

/// Whether `line` stands for one of the first `upto` of `tags`.
pub open spec fn from_tags(config: Config, tags: Seq<Seq<char>>, upto: int, line: Seq<char>) -> bool {
    exists|m: int| 0 <= m < upto && m < tags.len() && line == tag_line(#[trigger] tags[m], config)
}

/// Whether `line` is one of the lines that come first in an export of
/// `projects`: the heading, or the line of a tag of one of the projects.
pub open spec fn is_tag_line(config: Config, projects: Seq<Project>, line: Seq<char>) -> bool {
    line == heading() || from_projects(config, projects, projects.len() as int, line)
}

/// Whether `lines` are the lines that come first in an export of
/// `projects`: each once, in ascending order.
pub open spec fn are_tag_lines(lines: Seq<Seq<char>>, config: Config, projects: Seq<Project>) -> bool {
    ascending(lines) && forall|line: Seq<char>|
        lines.contains(line) <==> is_tag_line(config, projects, line)
}

/// The lines that come first in an export of `projects`.
pub open spec fn tag_lines(config: Config, projects: Seq<Project>) -> Seq<Seq<char>> {
    choose|lines: Seq<Seq<char>>| are_tag_lines(lines, config, projects)
}

/// The export of `projects`: the heading and the tags that the projects
/// have, each once and in ascending order, then the commands that build up
/// the projects, one line each.
pub open spec fn export_text(config: Config, projects: Seq<Project>) -> Seq<char> {
    join_text(tag_lines(config, projects) + all_project_lines(projects), "\n"@) + "\n"@
}

fn push_update(
    commands: &mut Vec<String>,
    parameter_name: &str,
    maybe_value: &Option<String>,
    project_name: &str,
)
    ensures
        final(commands).deep_view() == old(commands).deep_view() + update_lines(
            project_name@,
            parameter_name@,
            opt_text(*maybe_value),
        ),
{
    let ghost before = commands.deep_view();
    if let Some(value) = maybe_value {
        let value_string = replace_char(value.as_str(), '\'', "'\\''");
        let mut line = concat5("fw update ", project_name, " --", parameter_name, " ");
        line.append("'");
        line.append(value_string.as_str());
        line.append("'");
        assert(line@ =~= update_line(project_name@, parameter_name@, value@));
        commands.push(line);
        assert(commands.deep_view() =~= before + seq![
            update_line(project_name@, parameter_name@, value@),
        ]);
    } else {
        assert(commands.deep_view() =~= before + Seq::<Seq<char>>::empty());
    }
}

/// The commands that build up `project`, added to `commands`.
fn push_project(commands: &mut Vec<String>, project: &Project)
    ensures
        final(commands).deep_view() == old(commands).deep_view() + project_lines(project@),
{
    let ghost before = commands.deep_view();
    let name = project.name.as_str();
    commands.push(concat4("fw add ", project.git.as_str(), " ", name));
    assert(commands.deep_view() =~= before + seq!["fw add "@ + project@.git + " "@ + project@.name]);
    push_update(commands, "override-path", &project.override_path, name);
    push_update(commands, "after-workon", &project.after_workon, name);
    push_update(commands, "after-clone", &project.after_clone, name);
    let ghost head = commands.deep_view();
    if let Some(tags) = &project.tags {
        let list = tags.to_vec();
        let mut j: usize = 0;
        assert(commands.deep_view() =~= head + tagging_lines(name@, list.deep_view()).take(0));
        while j < list.len()
            invariant
                j <= list.len(),
                commands.deep_view() == head + tagging_lines(name@, list.deep_view()).take(j as int),
            decreases list.len() - j,
        {
            let ghost sofar = commands.deep_view();
            commands.push(concat4("fw tag tag-project ", name, " ", list[j].as_str()));
            proof {
                let all = tagging_lines(name@, list.deep_view());
                assert(all[j as int] =~= "fw tag tag-project "@ + name@ + " "@ + list@[j as int]@);
                assert(all.take(j + 1) =~= all.take(j as int).push(all[j as int]));
                assert(commands.deep_view() =~= sofar.push(all[j as int]));
            }
            j += 1;
        }
        assert(tagging_lines(name@, list.deep_view()).take(list.len() as int) =~= tagging_lines(
            name@,
            tags_or_none(project@),
        ));
    } else {
        assert(commands.deep_view() =~= head + tagging_lines(name@, tags_or_none(project@)));
    }
    let ghost tagged = commands.deep_view();
    if let Some(additional_remotes) = &project.additional_remotes {
        let mut j: usize = 0;
        let ghost all = remote_lines(name@, remotes_view(additional_remotes@));
        assert(commands.deep_view() =~= tagged + all.take(0));
        while j < additional_remotes.len()
            invariant
                j <= additional_remotes.len(),
                all == remote_lines(name@, remotes_view(additional_remotes@)),
                commands.deep_view() == tagged + all.take(j as int),
            decreases additional_remotes.len() - j,
        {
            let remote = &additional_remotes[j];
            let ghost sofar = commands.deep_view();
            let mut line = concat5("fw add-remote ", name, " ", remote.name.as_str(), " ");
            line.append(remote.git.as_str());
            commands.push(line);
            proof {
                assert(all[j as int] =~= "fw add-remote "@ + name@ + " "@ + remote@.name + " "@
                    + remote@.git);
                assert(all.take(j + 1) =~= all.take(j as int).push(all[j as int]));
                assert(commands.deep_view() =~= sofar.push(all[j as int]));
            }
            j += 1;
        }
        assert(all.take(additional_remotes.len() as int) =~= all);
    } else {
        assert(commands.deep_view() =~= tagged + remote_lines(name@, remotes_or_none(project@)));
    }
    assert(commands.deep_view() =~= before + project_lines(project@));
}

/// The lines of the tags of `project`, added to `lines`.
fn push_tags(given: NameSet, config: &Config, project: &Project) -> (lines: NameSet)
    ensures
        forall|line: Seq<char>|
            lines.has(line) <==> (given.has(line) || from_tags(
                *config,
                tags_or_none(project@),
                tags_or_none(project@).len() as int,
                line,
            )),
{
    let mut lines = given;
    if let Some(tags) = &project.tags {
        let list = tags.to_vec();
        let ghost names = list.deep_view();
        let ghost start = lines;
        let mut j: usize = 0;
        while j < list.len()
            invariant
                j <= list.len(),
                names == list.deep_view(),
                forall|line: Seq<char>|
                    lines.has(line) <==> (start.has(line) || from_tags(
                        *config,
                        names,
                        j as int,
                        line,
                    )),
            decreases list.len() - j,
        {
            let ghost before = lines;
            let new = line_of_tag(list[j].as_str(), config);
            let ghost added = new@;
            lines.insert(new);
            proof {
                assert(names[j as int] == list@[j as int]@);
                assert(added == tag_line(names[j as int], *config));
                assert forall|line: Seq<char>|
                    lines.has(line) <==> (start.has(line) || from_tags(
                        *config,
                        names,
                        j + 1,
                        line,
                    )) by {
                    assert(lines.has(line) <==> (line == added || before.has(line)));
                    assert(before.has(line) <==> (start.has(line) || from_tags(
                        *config,
                        names,
                        j as int,
                        line,
                    )));
                    if from_tags(*config, names, j as int, line) {
                        let m = choose|m: int|
                            0 <= m < j && m < names.len() && line == tag_line(
                                #[trigger] names[m],
                                *config,
                            );
                        assert(0 <= m < j + 1 && m < names.len() && line == tag_line(
                            names[m],
                            *config,
                        ));
                        assert(from_tags(*config, names, j + 1, line));
                    }
                    if line == added {
                        assert(0 <= j < j + 1 && j < names.len() && line == tag_line(
                            names[j as int],
                            *config,
                        ));
                        assert(from_tags(*config, names, j + 1, line));
                    }
                    if lines.has(line) && !start.has(line) {
                        if line == added {
                            assert(0 <= j < j + 1 && line == tag_line(names[j as int], *config));
                        } else {
                            assert(before.has(line));
                            let m = choose|m: int|
                                0 <= m < j && m < names.len() && line == tag_line(
                                    #[trigger] names[m],
                                    *config,
                                );
                            assert(0 <= m < j + 1 && line == tag_line(names[m], *config));
                        }
                    }
                    if from_tags(*config, names, j + 1, line) {
                        let m = choose|m: int|
                            0 <= m < j + 1 && m < names.len() && line == tag_line(
                                #[trigger] names[m],
                                *config,
                            );
                        if m < j {
                            assert(from_tags(*config, names, j as int, line));
                        }
                    }
                }
            }
            j += 1;
        }
    } else {
        assert forall|line: Seq<char>|
            !from_tags(*config, tags_or_none(project@), tags_or_none(project@).len() as int, line) by {
        }
    }
    lines
}

/// The export of `projects`: the commands that build up the projects and
/// the tags they have. First come the heading and one line for each tag,
/// each line once and in ascending order; a tag that the settings do not
/// know has a comment in place of its command. Then come the commands of the
/// projects. Every line ends in a line feed.
pub fn projects_to_shell_commands(config: &Config, projects: &Vec<Project>) -> (text: Result<
    String,
    AppError,
>)
    ensures
        text matches Ok(t) && t@ == export_text(*config, projects@),
        are_tag_lines(tag_lines(*config, projects@), *config, projects@),
{
    let mut project_commands: Vec<String> = Vec::new();
    let mut tag_commands = NameSet::new();
    tag_commands.insert(String::from_str("# fw export projects"));
    let mut i: usize = 0;
    assert(project_commands.deep_view() =~= all_project_lines(projects@.take(0)));
    assert forall|line: Seq<char>| !from_projects(*config, projects@, 0, line) by {}
    while i < projects.len()
        invariant
            i <= projects.len(),
            project_commands.deep_view() == all_project_lines(projects@.take(i as int)),
            forall|line: Seq<char>|
                tag_commands.has(line) <==> (line == heading() || from_projects(
                    *config,
                    projects@,
                    i as int,
                    line,
                )),
        decreases projects.len() - i,
    {
        let project = &projects[i];
        let ghost before = tag_commands;
        proof {
            assert(projects@.take(i + 1).drop_last() =~= projects@.take(i as int));
            assert(projects@.take(i + 1).last() == *project);
        }
        push_project(&mut project_commands, project);
        tag_commands = push_tags(tag_commands, config, project);
        proof {
            let own = tags_or_none(project@);
            assert forall|line: Seq<char>|
                tag_commands.has(line) <==> (line == heading() || from_projects(
                    *config,
                    projects@,
                    i + 1,
                    line,
                )) by {
                if tag_commands.has(line) && line != heading() {
                    if before.has(line) {
                        let (k, t) = choose|k: int, t: Seq<char>|
                            0 <= k < i && k < projects@.len() && #[trigger] tags_or_none(
                                projects@[k]@,
                            ).contains(t) && line == tag_line(t, *config);
                        assert(0 <= k < i + 1 && tags_or_none(projects@[k]@).contains(t));
                    } else {
                        let m = choose|m: int|
                            0 <= m < own.len() && m < own.len() && line == tag_line(
                                #[trigger] own[m],
                                *config,
                            );
                        assert(tags_or_none(projects@[i as int]@).contains(own[m]));
                    }
                }
                if from_projects(*config, projects@, i + 1, line) {
                    let (k, t) = choose|k: int, t: Seq<char>|
                        0 <= k < i + 1 && k < projects@.len() && #[trigger] tags_or_none(
                            projects@[k]@,
                        ).contains(t) && line == tag_line(t, *config);
                    if k < i {
                        assert(from_projects(*config, projects@, i as int, line));
                    } else {
                        let m = choose|m: int| 0 <= m < own.len() && own[m] == t;
                        assert(from_tags(*config, own, own.len() as int, line));
                    }
                }
            }
        }
        i += 1;
    }
    let mut all = tag_commands.to_vec();
    proof {
        assert(projects@.take(i as int) =~= projects@);
        assert forall|line: Seq<char>|
            tag_commands@.contains(line) <==> is_tag_line(*config, projects@, line) by {
            assert(tag_commands.has(line) <==> (line == heading() || from_projects(
                *config,
                projects@,
                i as int,
                line,
            )));
        }
        assert(are_tag_lines(tag_commands@, *config, projects@));
        let chosen = tag_lines(*config, projects@);
        assert forall|x: Seq<char>| tag_commands@.contains(x) <==> chosen.contains(x) by {
            assert(is_tag_line(*config, projects@, x) <==> chosen.contains(x));
        }
        lemma_ascending_unique(tag_commands@, chosen);
    }
    let ghost first = all.deep_view();
    let mut j: usize = 0;
    while j < project_commands.len()
        invariant
            j <= project_commands.len(),
            all.len() == first.len() + j,
            forall|k: int| 0 <= k < first.len() ==> all@[k]@ == first[k],
            forall|k: int| 0 <= k < j ==> all@[first.len() + k]@ == project_commands@[k]@,
        decreases project_commands.len() - j,
    {
        all.push(project_commands[j].clone());
        j += 1;
    }
    assert(all.deep_view() =~= first + project_commands.deep_view());
    let mut text = join(&all, "\n");
    text.append("\n");
    Ok(text)
}

/// The export of the project `name`.
pub fn export_project(maybe_config: Result<Config, AppError>, name: &str) -> (text: Result<
    String,
    AppError,
>)
    ensures
        match maybe_config {
            Err(e) => text matches Err(f) && f@ == e@,
            Ok(config) => match config.projects.lookup(name@) {
                None => text matches Err(f) && f@ == not_found(name@),
                Some(project) => text matches Ok(t) && exists|copy: Project|
                    copy@ == project@ && t@ == #[trigger] export_text(config, seq![copy]),
            },
        },
{
    let config = match maybe_config {
        Ok(c) => c,
        Err(e) => {
            return Err(e);
        },
    };
    let project = match config.projects.get(name) {
        Some(p) => p,
        None => {
            return Err(AppError::UserError(concat3("project ", name, " not found")));
        },
    };
    let mut projects: Vec<Project> = Vec::new();
    projects.push(project.clone());
    assert(projects@ =~= seq![projects@[0]]);
    projects_to_shell_commands(&config, &projects)
}

/// The export of the tag `tag_name`: the command that adds it.
pub fn export_tag(maybe_config: Result<Config, AppError>, tag_name: &str) -> (text: Result<
    String,
    AppError,
>)
    ensures
        match maybe_config {
            Err(e) => text matches Err(f) && f@ == e@,
            Ok(config) => match tag_export(tag_name@, config) {
                Ok(t) => text matches Ok(c) && c@ == t,
                Err(e) => text matches Err(f) && f@ == e,
            },
        },
{
    let config = match maybe_config {
        Ok(c) => c,
        Err(e) => {
            return Err(e);
        },
    };
    tag_to_shell_commands(tag_name, &config)
}

/// Those of `projects` that have the tag `tag`, in order, as plain values.
pub open spec fn having_tag(projects: Seq<Project>, tag: Seq<char>) -> Seq<ProjectView>
    decreases projects.len(),
{
    if projects.len() == 0 {
        Seq::empty()
    } else if tags_or_none(projects.last()@).contains(tag) {
        having_tag(projects.drop_last(), tag).push(projects.last()@)
    } else {
        having_tag(projects.drop_last(), tag)
    }
}

/// The export of all projects that have the tag `tag_name`.
pub fn export_tagged_projects(maybe_config: Result<Config, AppError>, tag_name: &str) -> (text:
    Result<String, AppError>)
    ensures
        match maybe_config {
            Err(e) => text matches Err(f) && f@ == e@,
            Ok(config) => text matches Ok(t) && exists|copies: Seq<Project>|
                crate::sync::projects_view(copies) == having_tag(
                    config.projects.values(),
                    tag_name@,
                ) && t@ == #[trigger] export_text(config, copies),
        },
{
    let config = match maybe_config {
        Ok(c) => c,
        Err(e) => {
            return Err(e);
        },
    };
    let mut projects: Vec<Project> = Vec::new();
    let n = config.projects.len();
    let ghost all = config.projects.values();
    let mut i: usize = 0;
    assert(all.take(0) =~= Seq::<Project>::empty());
    assert(crate::sync::projects_view(projects@) =~= Seq::<ProjectView>::empty());
    while i < n
        invariant
            i <= n,
            n == all.len(),
            n == config.projects.names().len(),
            all == config.projects.values(),
            crate::sync::projects_view(projects@) == having_tag(all.take(i as int), tag_name@),
        decreases n - i,
    {
        let project = config.projects.value_at(i);
        proof {
            assert(all.take(i + 1).drop_last() =~= all.take(i as int));
            assert(all.take(i + 1).last() == *project);
        }
        if project_has_tag(project, tag_name) {
            let ghost before = crate::sync::projects_view(projects@);
            projects.push(project.clone());
            assert(crate::sync::projects_view(projects@) =~= before.push(project@));
        }
        i += 1;
    }
    assert(all.take(n as int) =~= all);
    projects_to_shell_commands(&config, &projects)
}

} // verus!
