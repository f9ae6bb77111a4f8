//! Moving a configuration to the layout with one file for each project and
//! each tag.

use vstd::prelude::*;
use vstd::string::*;
use crate::config::project::{Project, ProjectView};
use crate::config::settings::{PersistedSettings, Tag, TagView};
use crate::config::path::absolute;
use crate::config::Config;
use crate::errors::AppError;
use crate::text::opt_text;

verus! {

/// The storage path of everything that is moved.
pub open spec fn moved_to() -> Seq<char> {
    "default"@
}

/// Whether `moved` are the projects of `config` as they are written when
/// it is moved: each with the storage path `default`.
pub open spec fn moved_projects(moved: Seq<Project>, config: Config) -> bool {
    &&& moved.len() == config.projects.values().len()
    &&& forall|i: int|
        0 <= i < moved.len() ==> (#[trigger] moved[i])@ == (ProjectView {
            project_config_path: moved_to(),
            ..config.projects.values()[i]@
        })
}

/// Whether `moved` are the tags of `config` as they are written when it is
/// moved: each under its name, with the storage path `default`.
pub open spec fn moved_tags(moved: Seq<NamedTag>, config: Config) -> bool {
    match config.settings.tags {
        None => moved.len() == 0,
        Some(tags) => moved.len() == tags.values().len() && forall|i: int|
            0 <= i < moved.len() ==> (#[trigger] moved[i]).name@ == tags.names()[i]
                && moved[i].tag@ == (TagView { tag_config_path: moved_to(), ..tags.values()[i]@ }),
    }
}

/// The projects of `config` as they are written when it is moved: each with
/// the storage path `default`.
pub fn migrate_write_projects(config: &Config) -> (moved: Vec<Project>)
    ensures
        moved_projects(moved@, *config),
{
    let mut moved: Vec<Project> = Vec::new();
    let n = config.projects.len();
    let mut i: usize = 0;
    while i < n
        invariant
            i <= n,
            n == config.projects.values().len(),
            n == config.projects.names().len(),
            moved.len() == i,
            forall|k: int|
                0 <= k < i ==> (#[trigger] moved@[k])@ == (ProjectView {
                    project_config_path: moved_to(),
                    ..config.projects.values()[k]@
                }),
        decreases n - i,
    {
        let mut p = config.projects.value_at(i).clone();
        p.project_config_path = String::from_str("default");
        moved.push(p);
        i += 1;
    }
    moved
}

/// A tag under its name.
#[derive(Debug)]
pub struct NamedTag {
    pub name: String,
    pub tag: Tag,
}

/// The tags of `config` as they are written when it is moved: each with the
/// storage path `default`.
pub fn migrate_write_tags(config: &Config) -> (moved: Vec<NamedTag>)
    ensures
        moved_tags(moved@, *config),
{
    let mut moved: Vec<NamedTag> = Vec::new();
    if let Some(tags) = &config.settings.tags {
        let n = tags.len();
        let mut i: usize = 0;
        while i < n
            invariant
                i <= n,
                n == tags.values().len(),
                n == tags.names().len(),
                moved.len() == i,
                forall|k: int|
                    0 <= k < i ==> (#[trigger] moved@[k]).name@ == tags.names()[k] && moved@[k].tag@
                        == (TagView { tag_config_path: moved_to(), ..tags.values()[k]@ }),
            decreases n - i,
        {
            let mut tag = tags.value_at(i).clone();
            tag.tag_config_path = String::from_str("default");
            moved.push(NamedTag { name: tags.key_at(i).clone(), tag });
            i += 1;
        }
    }
    moved
}

/// All that is written when `config` is moved: the settings, the projects
/// and the tags.
#[derive(Debug)]
pub struct Migration {
    pub settings: PersistedSettings,
    pub projects: Vec<Project>,
    pub tags: Vec<NamedTag>,
}

/// What is written when `config` is moved, in the order in which it is
/// written: the settings, then the projects, then the tags. Nothing is
/// written unless every project has an absolute path on a machine with the
/// home directory `home`.
pub fn write_new(config: &Config, home: &Option<String>) -> (migration: Result<Migration, AppError>)
    ensures
        migration is Ok <==> forall|i: int|
            0 <= i < config.projects.values().len() ==> absolute(
                config.path_of(&#[trigger] config.projects.values()[i], opt_text(*home)),
            ),
        migration matches Ok(m) ==> m.settings@ == config.settings.persisted() && moved_projects(
            m.projects@,
            *config,
        ) && moved_tags(m.tags@, *config),
        migration matches Err(e) ==> e@ is UserError,
{
    match crate::config::store::check_paths(config, home) {
        Ok(_) => {},
        Err(e) => {
            return Err(e);
        },
    }
    Ok(
        Migration {
            settings: PersistedSettings::from_settings(&config.settings),
            projects: migrate_write_projects(config),
            tags: migrate_write_tags(config),
        },
    )
}

} // verus!
