//! Listing, creating and removing tags, and tagging projects. Each operation
//! works out what is to be written or shown; nothing here touches a file.

use vstd::prelude::*;
use vstd::string::*;
use crate::config::project::{Project, ProjectView};
use crate::config::settings::{Tag, TagView};
use crate::config::Config;
use crate::errors::{AppError, ErrorView};

use crate::names::{is_with, is_without, NameSet};
use crate::numbers::{decimal, decimal_text};
use crate::project::{field, field_line};
use crate::spawn::{init_threads, invocation_for, invokes, Invocation, Threads};
use crate::text::{concat3, opt_text};

verus! {

/// The error for a project that is not there.
pub open spec fn unknown_project(name: Seq<char>) -> ErrorView {
    ErrorView::UserError("Unknown project "@ + name)
}

/// The error for a tag that is not there.
pub open spec fn unknown_tag(name: Seq<char>) -> ErrorView {
    ErrorView::UserError("Unknown tag "@ + name)
}

fn unknown_project_error(name: &str) -> (e: AppError)
    ensures
        e@ == unknown_project(name@),
{
    let mut text = String::from_str("Unknown project ");
    text.append(name);
    AppError::UserError(text)
}

fn unknown_tag_error(name: &str) -> (e: AppError)
    ensures
        e@ == unknown_tag(name@),
{
    let mut text = String::from_str("Unknown tag ");
    text.append(name);
    AppError::UserError(text)
}

/// Whether the settings know the tag `name`.
pub open spec fn knows_tag(config: Config, name: Seq<char>) -> bool {
    config.settings.tags matches Some(tags) && tags.has(name)
}

/// Whether the settings know the tag `name`.
pub fn has_tag(config: &Config, name: &str) -> (known: bool)
    ensures
        known == knows_tag(*config, name@),
{
    match &config.settings.tags {
        Some(tags) => tags.contains_key(name),
        None => false,
    }
}

/// The names of all tags, in ascending order; none where the settings have
/// no tags.
pub open spec fn all_tag_names(config: Config) -> Seq<Seq<char>> {
    match config.settings.tags {
        Some(tags) => tags.names(),
        None => Seq::empty(),
    }
}

/// The names of all tags, in ascending order.
pub fn list_all_tags(config: &Config) -> (names: Vec<String>)
    ensures
        names.deep_view() == all_tag_names(*config),
{
    let mut names: Vec<String> = Vec::new();
    if let Some(tags) = &config.settings.tags {
        let n = tags.len();
        let mut i: usize = 0;
        while i < n
            invariant
                i <= n,
                n == tags.names().len(),
                names.len() == i,
                forall|k: int| 0 <= k < i ==> names@[k]@ == tags.names()[k],
            decreases n - i,
        {
            names.push(tags.key_at(i).clone());
            i += 1;
        }
        assert(names.deep_view() =~= tags.names());
    } else {
        assert(names.deep_view() =~= Seq::<Seq<char>>::empty());
    }
    names
}

/// The tags of a project, none counting as no tag.
pub open spec fn tags_or_none(project: ProjectView) -> Seq<Seq<char>> {
    match project.tags {
        Some(t) => t,
        None => Seq::empty(),
    }
}

/// The names of the tags of the project `project_name`, in ascending order.
pub fn list_project_tags(config: &Config, project_name: &str) -> (names: Result<
    Vec<String>,
    AppError,
>)
    ensures
        match config.projects.lookup(project_name@) {
            Some(project) => names matches Ok(list) && list.deep_view() == tags_or_none(project@),
            None => names matches Err(e) && e@ == unknown_project(project_name@),
        },
{
    match config.projects.get(project_name) {
        Some(project) => Ok(
            match &project.tags {
                Some(tags) => tags.to_vec(),
                None => {
                    let none: Vec<String> = Vec::new();
                    assert(none.deep_view() =~= Seq::<Seq<char>>::empty());
                    none
                },
            },
        ),
        None => Err(unknown_project_error(project_name)),
    }
}

/// The names of the tags of one project, or of all tags where no project is
/// named.
pub fn list_tags(maybe_config: Result<Config, AppError>, maybe_project_name: Option<String>) -> (names:
    Result<Vec<String>, AppError>)
    ensures
        match maybe_config {
            Err(e) => names matches Err(f) && f@ == e@,
            Ok(config) => match maybe_project_name {
                None => names matches Ok(list) && list.deep_view() == all_tag_names(config),
                Some(project_name) => match config.projects.lookup(project_name@) {
                    Some(project) => names matches Ok(list) && list.deep_view() == tags_or_none(
                        project@,
                    ),
                    None => names matches Err(e) && e@ == unknown_project(project_name@),
                },
            },
        },
{
    let config = match maybe_config {
        Ok(c) => c,
        Err(e) => {
            return Err(e);
        },
    };
    if let Some(project_name) = maybe_project_name {
        list_project_tags(&config, project_name.as_str())
    } else {
        Ok(list_all_tags(&config))
    }
}

/// Whether `changed` is `project` with the tag `tag` more.
pub open spec fn tagged(changed: ProjectView, project: ProjectView, tag: Seq<char>) -> bool {
    &&& changed == (ProjectView { tags: changed.tags, ..project })
    &&& changed.tags matches Some(t) && is_with(t, tags_or_none(project), tag)
}

/// Whether `changed` is `project`, which has the tag `tag`, without that
/// tag.
pub open spec fn untagged(changed: ProjectView, project: ProjectView, tag: Seq<char>) -> bool {
    &&& project.tags matches Some(s) && s.contains(tag)
    &&& changed == (ProjectView { tags: changed.tags, ..project })
    &&& changed.tags matches Some(t) && is_without(t, tags_or_none(project), tag)
}

/// `project` with the tag `tag` more.
fn with_tag(project: &Project, tag: &str) -> (changed: Project)
    ensures
        tagged(changed@, project@, tag@),
{
    let mut changed = project.clone();
    let mut new_tags: NameSet = match changed.tags {
        Some(t) => t,
        None => NameSet::new(),
    };
    let ghost before = new_tags;
    assert(before@ =~= tags_or_none(project@));
    new_tags.insert(String::from_str(tag));
    proof {
        use_type_invariant(&new_tags);
        assert forall|x: Seq<char>|
            new_tags@.contains(x) <==> (x == tag@ || tags_or_none(project@).contains(x)) by {
            assert(new_tags.has(x) <==> (x == tag@ || before.has(x)));
        }
    }
    changed.tags = Some(new_tags);
    changed
}

/// `project` without the tag `tag`, if it has that tag.
fn without_tag(project: &Project, tag: &str) -> (changed: Option<Project>)
    ensures
        match changed {
            Some(p) => untagged(p@, project@, tag@),
            None => !tags_or_none(project@).contains(tag@),
        },
{
    match &project.tags {
        None => None,
        Some(tags) => {
            let mut new_tags = tags.clone();
            let ghost before = new_tags;
            if new_tags.remove(tag) {
                proof {
                    use_type_invariant(&new_tags);
                    assert forall|x: Seq<char>|
                        new_tags@.contains(x) <==> (x != tag@ && tags@.contains(x)) by {
                        assert(new_tags.has(x) <==> (x != tag@ && before.has(x)));
                    }
                    assert(before.has(tag@));
                }
                let mut changed = project.clone();
                changed.tags = Some(new_tags);
                Some(changed)
            } else {
                assert(!before.has(tag@));
                None
            }
        },
    }
}

/// The project `project_name` with the tag `tag_name` more, to be written.
/// The project and the tag must be there.
pub fn add_tag(config: &Config, project_name: String, tag_name: String) -> (changed: Result<
    Project,
    AppError,
>)
    ensures
        match config.projects.lookup(project_name@) {
            None => changed matches Err(e) && e@ == unknown_project(project_name@),
            Some(project) => if knows_tag(*config, tag_name@) {
                changed matches Ok(p) && tagged(p@, project@, tag_name@)
            } else {
                changed matches Err(e) && e@ == unknown_tag(tag_name@)
            },
        },
{
    if let Some(project) = config.projects.get(project_name.as_str()) {
        if has_tag(config, tag_name.as_str()) {
            Ok(with_tag(project, tag_name.as_str()))
        } else {
            Err(unknown_tag_error(tag_name.as_str()))
        }
    } else {
        Err(unknown_project_error(project_name.as_str()))
    }
}

/// The new tag `tag_name`, to be written. A name that is taken is refused.
pub fn create_tag(
    maybe_config: Result<Config, AppError>,
    tag_name: String,
    after_workon: Option<String>,
    after_clone: Option<String>,
    priority: Option<u8>,
    tag_workspace: Option<String>,
) -> (tag: Result<Tag, AppError>)
    ensures
        match maybe_config {
            Err(e) => tag matches Err(f) && f@ == e@,
            Ok(config) => if knows_tag(config, tag_name@) {
                tag matches Err(e) && e@ == ErrorView::UserError(
                    "Tag "@ + tag_name@ + " already exists, not gonna overwrite it for you"@,
                )
            } else {
                tag matches Ok(t) && t@ == (TagView {
                    after_clone: opt_text(after_clone),
                    after_workon: opt_text(after_workon),
                    priority,
                    workspace: opt_text(tag_workspace),
                    default: None,
                    tag_config_path: "default"@,
                })
            },
        },
{
    let config = match maybe_config {
        Ok(c) => c,
        Err(e) => {
            return Err(e);
        },
    };
    if has_tag(&config, tag_name.as_str()) {
        Err(
            AppError::UserError(
                concat3(
                    "Tag ",
                    tag_name.as_str(),
                    " already exists, not gonna overwrite it for you",
                ),
            ),
        )
    } else {
        Ok(
            Tag {
                after_clone,
                after_workon,
                priority,
                workspace: tag_workspace,
                default: None,
                tag_config_path: String::from_str("default"),
            },
        )
    }
}

/// The project `project_name` without the tag `tag_name`, to be written;
/// nothing where the project does not have the tag.
pub fn remove_tag(maybe_config: Result<Config, AppError>, project_name: String, tag_name: &str) -> (changed:
    Result<Option<Project>, AppError>)
    ensures
        match maybe_config {
            Err(e) => changed matches Err(f) && f@ == e@,
            Ok(config) => match config.projects.lookup(project_name@) {
                None => changed matches Err(e) && e@ == unknown_project(project_name@),
                Some(project) => changed matches Ok(c) && match c {
                    Some(p) => untagged(p@, project@, tag_name@),
                    None => !tags_or_none(project@).contains(tag_name@),
                },
            },
        },
{
    let config = match maybe_config {
        Ok(c) => c,
        Err(e) => {
            return Err(e);
        },
    };
    if let Some(project) = config.projects.get(project_name.as_str()) {
        Ok(without_tag(project, tag_name))
    } else {
        Err(unknown_project_error(project_name.as_str()))
    }
}

/// The places of those of `projects` that have the tag `tag`, in order.
pub open spec fn places_with_tag(projects: Seq<Project>, tag: Seq<char>) -> Seq<int>
    decreases projects.len(),
{
    if projects.len() == 0 {
        Seq::empty()
    } else if tags_or_none(projects.last()@).contains(tag) {
        places_with_tag(projects.drop_last(), tag).push(projects.len() - 1)
    } else {
        places_with_tag(projects.drop_last(), tag)
    }
}

/// What deleting a tag comes to: the projects that had the tag, without it,
/// to be written, and the tag whose file goes, if there is such a tag.
#[derive(Debug)]
pub struct TagRemoval {
    pub projects: Vec<Project>,
    pub tag: Option<Tag>,
}

/// Whether `changed` are the projects at `places` of `projects`, each
/// without the tag `tag`.
pub open spec fn all_untagged(
    changed: Seq<Project>,
    projects: Seq<Project>,
    places: Seq<int>,
    tag: Seq<char>,
) -> bool {
    &&& changed.len() == places.len()
    &&& forall|i: int|
        0 <= i < places.len() ==> 0 <= #[trigger] places[i] < projects.len() && untagged(
            changed[i]@,
            projects[places[i]]@,
            tag,
        )
}

/// What is to be done to delete the tag `tag_name`: every project that has
/// the tag loses it, and the file of the tag goes, if it has one.
pub fn delete_tag(maybe_config: Result<Config, AppError>, tag_name: &str) -> (removal: Result<
    TagRemoval,
    AppError,
>)
    ensures
        match maybe_config {
            Err(e) => removal matches Err(f) && f@ == e@,
            Ok(config) => removal matches Ok(r) && all_untagged(
                r.projects@,
                config.projects.values(),
                places_with_tag(config.projects.values(), tag_name@),
                tag_name@,
            ) && match config.settings.tags {
                Some(tags) => match tags.lookup(tag_name@) {
                    Some(tag) => r.tag matches Some(t) && t@ == tag@,
                    None => r.tag is None,
                },
                None => r.tag is None,
            },
        },
{
    let config = match maybe_config {
        Ok(c) => c,
        Err(e) => {
            return Err(e);
        },
    };
    let mut projects: Vec<Project> = Vec::new();
    let n = config.projects.len();
    let ghost all = config.projects.values();
    let mut i: usize = 0;
    assert(all.take(0) =~= Seq::<Project>::empty());
    while i < n
        invariant
            i <= n,
            n == all.len(),
            n == config.projects.names().len(),
            all == config.projects.values(),
            all_untagged(projects@, all, places_with_tag(all.take(i as int), tag_name@), tag_name@),
        decreases n - i,
    {
        let project = config.projects.value_at(i);
        let ghost places = places_with_tag(all.take(i as int), tag_name@);
        proof {
            assert(all.take(i + 1).drop_last() =~= all.take(i as int));
            assert(all.take(i + 1).last() == *project);
        }
        match without_tag(project, tag_name) {
            Some(changed) => {
                projects.push(changed);
                proof {
                    let now = places.push(i as int);
                    assert forall|k: int| 0 <= k < now.len() implies 0 <= #[trigger] now[k]
                        < all.len() && untagged(projects@[k]@, all[now[k]]@, tag_name@) by {
                        if k < places.len() {
                            assert(now[k] == places[k]);
                        }
                    }
                }
            },
            None => {},
        }
        i += 1;
    }
    assert(all.take(n as int) =~= all);
    let tag = match &config.settings.tags {
        Some(tags) => match tags.get(tag_name) {
            Some(t) => Some(t.clone()),
            None => None,
        },
        None => None,
    };
    Ok(TagRemoval { projects, tag })
}

/// What an optional text shows as: the text, or nothing.
pub open spec fn shown(value: Option<Seq<char>>) -> Seq<char> {
    match value {
        Some(t) => t,
        None => Seq::empty(),
    }
}

/// What an optional truth shows as.
pub open spec fn shown_bool(value: Option<bool>) -> Seq<char> {
    match value {
        Some(true) => "true"@,
        Some(false) => "false"@,
        None => Seq::empty(),
    }
}

/// The lines that describe `tag`.
pub open spec fn tag_description(tag: TagView) -> Seq<Seq<char>> {
    seq![
        field_line("config path"@, tag.tag_config_path),
        field_line("after workon"@, shown(tag.after_workon)),
        field_line("after clone"@, shown(tag.after_clone)),
        field_line(
            "priority"@,
            match tag.priority {
                Some(p) => decimal_text(p as nat),
                None => Seq::empty(),
            },
        ),
        field_line("workspace"@, shown(tag.workspace)),
        field_line("default"@, shown_bool(tag.default)),
    ]
}

/// The names of those of `projects` that have the tag `tag`, in order.
pub open spec fn names_with_tag(projects: Seq<Project>, tag: Seq<char>) -> Seq<Seq<char>>
    decreases projects.len(),
{
    if projects.len() == 0 {
        Seq::empty()
    } else if tags_or_none(projects.last()@).contains(tag) {
        names_with_tag(projects.drop_last(), tag).push(projects.last()@.name)
    } else {
        names_with_tag(projects.drop_last(), tag)
    }
}

/// The description of a tag: its name to stand as the heading, its fields,
/// and the names of the projects that have it.
#[derive(Debug)]
pub struct TagInspection {
    pub heading: String,
    pub lines: Vec<String>,
    pub projects: Vec<String>,
}

fn opt_str(value: &Option<String>) -> (text: &str)
    ensures
        text@ == shown(opt_text(*value)),
{
    match value {
        Some(t) => t.as_str(),
        None => {
            proof {
                reveal_strlit("");
                assert(""@ =~= Seq::<char>::empty());
            }
            ""
        },
    }
}

/// Whether `project` has the tag `tag`.
pub fn project_has_tag(project: &Project, tag: &str) -> (has: bool)
    ensures
        has == tags_or_none(project@).contains(tag@),
{
    match &project.tags {
        Some(tags) => tags.contains(tag),
        None => false,
    }
}

/// The description of the tag `tag_name` and the projects that have it.
pub fn inspect_tag(maybe_config: Result<Config, AppError>, tag_name: &str) -> (inspection: Result<
    TagInspection,
    AppError,
>)
    ensures
        match maybe_config {
            Err(e) => inspection matches Err(f) && f@ == e@,
            Ok(config) => if knows_tag(config, tag_name@) {
                inspection matches Ok(i) && i.heading@ == tag_name@ && i.lines.deep_view()
                    == tag_description(config.settings.tags.unwrap().lookup(tag_name@).unwrap()@)
                    && i.projects.deep_view() == names_with_tag(
                    config.projects.values(),
                    tag_name@,
                )
            } else {
                inspection matches Err(e) && e@ == ErrorView::UserError("Unkown tag "@ + tag_name@)
            },
        },
{
    let config = match maybe_config {
        Ok(c) => c,
        Err(e) => {
            return Err(e);
        },
    };
    let found = match &config.settings.tags {
        Some(tags) => tags.get(tag_name),
        None => None,
    };
    let tag = match found {
        Some(tag) => tag,
        None => {
            let mut text = String::from_str("Unkown tag ");
            text.append(tag_name);
            return Err(AppError::UserError(text));
        },
    };
    proof {
        reveal_strlit("");
        assert(""@ =~= Seq::<char>::empty());
    }
    let priority = match tag.priority {
        Some(p) => decimal(p as u64),
        None => String::new(),
    };
    let default: &str = match tag.default {
        Some(true) => "true",
        Some(false) => "false",
        None => "",
    };
    let mut lines: Vec<String> = Vec::new();
    lines.push(field("config path", tag.tag_config_path.as_str()));
    lines.push(field("after workon", opt_str(&tag.after_workon)));
    lines.push(field("after clone", opt_str(&tag.after_clone)));
    lines.push(field("priority", priority.as_str()));
    lines.push(field("workspace", opt_str(&tag.workspace)));
    lines.push(field("default", default));
    assert(lines.deep_view() =~= tag_description(tag@));
    let mut projects: Vec<String> = Vec::new();
    let n = config.projects.len();
    let ghost all = config.projects.values();
    let mut i: usize = 0;
    assert(all.take(0) =~= Seq::<Project>::empty());
    assert(projects.deep_view() =~= Seq::<Seq<char>>::empty());
    while i < n
        invariant
            i <= n,
            n == all.len(),
            n == config.projects.names().len(),
            all == config.projects.values(),
            projects.deep_view() == names_with_tag(all.take(i as int), tag_name@),
        decreases n - i,
    {
        let project = config.projects.value_at(i);
        proof {
            assert(all.take(i + 1).drop_last() =~= all.take(i as int));
            assert(all.take(i + 1).last() == *project);
        }
        if project_has_tag(project, tag_name) {
            let ghost before = projects.deep_view();
            projects.push(project.name.clone());
            assert(projects.deep_view() =~= before.push(project@.name));
        }
        i += 1;
    }
    assert(all.take(n as int) =~= all);
    Ok(TagInspection { heading: String::from_str(tag_name), lines, projects })
}

/// The commands to run for `autotag`: `cmd` once for every project, in
/// order of the projects' names. A tag that the settings do not know is
/// refused before anything runs.
pub fn autotag(
    maybe_config: Result<Config, AppError>,
    cmd: &str,
    tag_name: &str,
    parallel_raw: &Option<String>,
    threads: &mut Threads,
) -> (plan: Result<Vec<Invocation>, AppError>)
    ensures
        match maybe_config {
            Err(e) => plan matches Err(f) && f@ == e@ && final(threads).fixed() == old(threads).fixed(),
            Ok(config) => if !knows_tag(config, tag_name@) {
                plan matches Err(e) && e@ == unknown_tag(tag_name@) && final(threads).fixed() == old(
                    threads,
                ).fixed()
            } else {
                match plan {
                    Ok(list) => {
                        &&& list@.len() == config.projects.values().len()
                        &&& forall|i: int|
                            0 <= i < list@.len() ==> invokes(
                                #[trigger] list@[i],
                                config,
                                config.projects.values()[i],
                                cmd@,
                            )
                        &&& match *parallel_raw {
                            None => final(threads).fixed() == old(threads).fixed(),
                            Some(raw) => old(threads).fixed() is None && crate::numbers::parsed(
                                raw@,
                                0,
                                usize::MAX as int,
                            ) == Ok::<int, crate::numbers::IntFailure>(
                                final(threads).fixed().unwrap() as int,
                            ),
                        }
                    },
                    Err(e) => *parallel_raw matches Some(raw) && final(threads).fixed() == old(
                        threads,
                    ).fixed() && match crate::numbers::parsed(raw@, 0, usize::MAX as int) {
                        Err(failure) => e@ == crate::spawn::type_error(failure),
                        Ok(_) => old(threads).fixed() is Some && e@ == crate::spawn::fixed_twice(),
                    },
                }
            },
        },
{
    let config = match maybe_config {
        Ok(c) => c,
        Err(e) => {
            return Err(e);
        },
    };
    if !has_tag(&config, tag_name) {
        return Err(unknown_tag_error(tag_name));
    }
    match init_threads(threads, parallel_raw) {
        Ok(_) => {},
        Err(e) => {
            return Err(e);
        },
    }
    let mut list: Vec<Invocation> = Vec::new();
    let n = config.projects.len();
    let mut i: usize = 0;
    while i < n
        invariant
            i <= n,
            n == config.projects.values().len(),
            n == config.projects.names().len(),
            list.len() == i,
            forall|k: int|
                0 <= k < i ==> invokes(
                    #[trigger] list@[k],
                    config,
                    config.projects.values()[k],
                    cmd@,
                ),
        decreases n - i,
    {
        list.push(invocation_for(&config, config.projects.value_at(i), cmd));
        i += 1;
    }
    Ok(list)
}

/// The places of the results that are successes, in order.
pub open spec fn places_of_success(results: Seq<Result<(), AppError>>) -> Seq<int>
    decreases results.len(),
{
    if results.len() == 0 {
        Seq::empty()
    } else if results.last() is Ok {
        places_of_success(results.drop_last()).push(results.len() - 1)
    } else {
        places_of_success(results.drop_last())
    }
}

/// Whether `changed` are the projects at `places` of `projects`, each with
/// the tag `tag` more.
pub open spec fn all_tagged(
    changed: Seq<Project>,
    projects: Seq<Project>,
    places: Seq<int>,
    tag: Seq<char>,
) -> bool {
    &&& changed.len() == places.len()
    &&& forall|i: int|
        0 <= i < places.len() ==> 0 <= #[trigger] places[i] < projects.len() && tagged(
            changed[i]@,
            projects[places[i]]@,
            tag,
        )
}

/// The results that count: one for each project, and no more.
pub open spec fn results_for(results: Seq<Result<(), AppError>>, projects: nat) -> Seq<
    Result<(), AppError>,
> {
    if results.len() > projects {
        results.take(projects as int)
    } else {
        results
    }
}

/// The projects to write after `autotag`: every project whose command has
/// succeeded, with the tag `tag_name` more. `results` holds the outcome of
/// the command for each project, in order of the projects' names; a project
/// without an outcome is left as it is.
pub fn autotag_updates(config: &Config, results: &Vec<Result<(), AppError>>, tag_name: &str) -> (changed:
    Vec<Project>)
    ensures
        all_tagged(
            changed@,
            config.projects.values(),
            places_of_success(results_for(results@, config.projects.values().len())),
            tag_name@,
        ),
{
    let mut changed: Vec<Project> = Vec::new();
    let n = if results.len() > config.projects.len() {
        config.projects.len()
    } else {
        results.len()
    };
    let ghost all = config.projects.values();
    let mut i: usize = 0;
    assert(results@.take(0) =~= Seq::<Result<(), AppError>>::empty());
    while i < n
        invariant
            i <= n,
            n <= all.len(),
            n <= results@.len(),
            all.len() == config.projects.names().len(),
            all == config.projects.values(),
            all_tagged(changed@, all, places_of_success(results@.take(i as int)), tag_name@),
        decreases n - i,
    {
        let ghost places = places_of_success(results@.take(i as int));
        proof {
            assert(results@.take(i + 1).drop_last() =~= results@.take(i as int));
            assert(results@.take(i + 1).last() == results@[i as int]);
        }
        if results[i].is_ok() {
            changed.push(with_tag(config.projects.value_at(i), tag_name));
            proof {
                let now = places.push(i as int);
                assert forall|k: int| 0 <= k < now.len() implies 0 <= #[trigger] now[k]
                    < all.len() && tagged(changed@[k]@, all[now[k]]@, tag_name@) by {
                    if k < places.len() {
                        assert(now[k] == places[k]);
                    }
                }
            }
        }
        i += 1;
    }
    assert(results@.take(n as int) =~= results_for(results@, all.len()));
    changed
}

} // verus!
