//! The configuration: projects, tags and settings, and how a project's
//! effective hooks, workspace and path follow from its tags.

pub mod laws;
pub mod metadata;
pub mod metadata_from_repository;
pub mod path;
pub mod project;
pub mod resolve;
pub mod settings;
pub mod store;

use vstd::prelude::*;
use vstd::string::*;
use crate::config::path::{expand_path, expand_with, expanded, in_home, join_path, joined};
use crate::config::project::Project;
use crate::config::resolve::{contributes, field_of, is_resolution, lemma_resolution_step, lemma_resolution_unique, pick_before, pick_of, pick_texts, resolution, slot_for, Pick, TagField};
use crate::config::settings::{Settings, Tag};
use crate::name_map::NameMap;
use crate::names::{ascending, lemma_ascending_no_duplicates, NameSet};
use crate::text::{opt_text, text_lt};

verus! {

/// Everything that is configured: the projects by name, and the settings with
/// the tags.
#[derive(Debug, PartialEq, Eq)]
pub struct Config {
    pub projects: NameMap<Project>,
    pub settings: Settings,
}

impl Clone for Config {
    fn clone(&self) -> (copy: Self)
        ensures
            copy.projects.names() == self.projects.names(),
            copy.projects.values().len() == self.projects.values().len(),
            forall|i: int|
                0 <= i < self.projects.values().len() ==> (#[trigger] copy.projects.values()[i])@
                    == self.projects.values()[i]@,
            copy.settings.persisted() == self.settings.persisted(),
            crate::config::project::opt_names(copy.settings.default_tags)
                == crate::config::project::opt_names(self.settings.default_tags),
            copy.settings.tags is Some == self.settings.tags is Some,
            copy.settings.tags matches Some(tags) ==> crate::config::settings::same_tags(
                tags,
                self.settings.tags.unwrap(),
            ),
    {
        Config { projects: self.projects.clone(), settings: self.settings.clone() }
    }
}

/// The value that `tag` has for `field`.
pub fn field_value(tag: &Tag, field: TagField) -> (value: &Option<String>)
    ensures
        opt_text(*value) == field_of(tag@, field),
{
    match field {
        TagField::AfterClone => &tag.after_clone,
        TagField::AfterWorkon => &tag.after_workon,
        TagField::Workspace => &tag.workspace,
    }
}

/// What the tags `names` contribute for `field` under the known tags
/// `tags`; nothing where either is missing.
pub open spec fn tag_texts(
    names: Option<NameSet>,
    tags: Option<NameMap<Tag>>,
    field: TagField,
) -> Seq<Seq<char>> {
    match (names, tags) {
        (Some(n), Some(t)) => pick_texts(resolution(n@, t, field)),
        _ => Seq::empty(),
    }
}

/// A list of no element or one.
pub open spec fn opt_seq(o: Option<Seq<char>>) -> Seq<Seq<char>> {
    match o {
        Some(t) => seq![t],
        None => Seq::empty(),
    }
}

impl Config {
    /// The hooks of `field` that apply to `project`: those of its tags in
    /// order of application, then the project's own.
    pub open spec fn hooks(&self, project: &Project, field: TagField) -> Seq<Seq<char>> {
        let own = match field {
            TagField::AfterClone => project@.after_clone,
            TagField::AfterWorkon => project@.after_workon,
            TagField::Workspace => None,
        };
        tag_texts(project.tags, self.settings.tags, field) + opt_seq(own)
    }

    /// The workspace of `project`: the last that its tags contribute, or the
    /// one of the settings.
    pub open spec fn workspace_of(&self, project: &Project) -> Seq<char> {
        let texts = tag_texts(project.tags, self.settings.tags, TagField::Workspace);
        if texts.len() > 0 {
            texts.last()
        } else {
            self.settings.workspace@
        }
    }

    /// The path of `project` before any `~` is expanded: its override, or
    /// its name below its workspace.
    pub open spec fn raw_path(&self, project: &Project) -> Seq<char> {
        match project@.override_path {
            Some(p) => p,
            None => joined(self.workspace_of(project), project@.name),
        }
    }

    /// The path of `project` on a machine whose home directory is `home`.
    pub open spec fn path_of(&self, project: &Project, home: Option<Seq<char>>) -> Seq<char> {
        expanded(self.raw_path(project), home)
    }

    /// The path of `project` before any `~` is expanded.
    pub fn unexpanded_path(&self, project: &Project) -> (path: String)
        ensures
            path@ == self.raw_path(project),
    {
        match &project.override_path {
            Some(p) => p.clone(),
            None => {
                let workspace = self.resolve_workspace(project);
                join_path(workspace.as_str(), project.name.as_str())
            },
        }
    }

    /// The path of `project` on a machine whose home directory is `home`.
    pub fn path_with_home(&self, project: &Project, home: Option<String>) -> (path: String)
        ensures
            path@ == self.path_of(project, opt_text(home)),
    {
        expand_with(self.unexpanded_path(project), home)
    }

    /// Where `project` lies on this machine: its override path, or its name
    /// below its workspace, with a leading `~` expanded against the home
    /// directory that the system reports.
    pub fn actual_path_to_project(&self, project: &Project) -> (path: String)
        ensures
            !in_home(self.raw_path(project)) ==> path@ == self.raw_path(project),
            exists|home: Option<Seq<char>>| path@ == self.path_of(project, home),
    {
        let raw = self.unexpanded_path(project);
        let path = expand_path(raw);
        proof {
            let home = choose|home: Option<Seq<char>>| path@ == expanded(raw@, home);
            assert(path@ == self.path_of(project, home));
        }
        path
    }

    /// The workspace below which `project` lies unless it has a path of its
    /// own: that of its tag of highest priority that names one, or the
    /// workspace of the settings.
    pub fn resolve_workspace(&self, project: &Project) -> (workspace: String)
        ensures
            workspace@ == self.workspace_of(project),
    {
        let mut x = self.resolve_from_tags(TagField::Workspace, &project.tags);
        let ghost texts = x.deep_view();
        match x.pop() {
            Some(w) => {
                assert(w@ == texts[texts.len() - 1]);
                w
            },
            None => self.settings.workspace.clone(),
        }
    }

    /// The commands to run after `project` was cloned: those of its tags,
    /// lowest priority first, then its own.
    pub fn resolve_after_clone(&self, project: &Project) -> (commands: Vec<String>)
        ensures
            commands.deep_view() == self.hooks(project, TagField::AfterClone),
    {
        let mut commands = self.resolve_after_clone_from_tags(&project.tags);
        let ghost from_tags = commands.deep_view();
        if let Some(own) = &project.after_clone {
            commands.push(own.clone());
            assert(commands.deep_view() =~= from_tags + seq![own@]);
        } else {
            assert(commands.deep_view() =~= from_tags + Seq::<Seq<char>>::empty());
        }
        commands
    }

    /// The commands to run on entering `project`: those of its tags, lowest
    /// priority first, then its own.
    pub fn resolve_after_workon(&self, project: &Project) -> (commands: Vec<String>)
        ensures
            commands.deep_view() == self.hooks(project, TagField::AfterWorkon),
    {
        let mut commands = self.resolve_workon_from_tags(&project.tags);
        let ghost from_tags = commands.deep_view();
        if let Some(own) = &project.after_workon {
            commands.push(own.clone());
            assert(commands.deep_view() =~= from_tags + seq![own@]);
        } else {
            assert(commands.deep_view() =~= from_tags + Seq::<Seq<char>>::empty());
        }
        commands
    }

    fn resolve_workon_from_tags(&self, maybe_tags: &Option<NameSet>) -> (commands: Vec<String>)
        ensures
            commands.deep_view() == tag_texts(
                *maybe_tags,
                self.settings.tags,
                TagField::AfterWorkon,
            ),
    {
        self.resolve_from_tags(TagField::AfterWorkon, maybe_tags)
    }

    fn resolve_after_clone_from_tags(&self, maybe_tags: &Option<NameSet>) -> (commands: Vec<
        String,
    >)
        ensures
            commands.deep_view() == tag_texts(
                *maybe_tags,
                self.settings.tags,
                TagField::AfterClone,
            ),
    {
        self.resolve_from_tags(TagField::AfterClone, maybe_tags)
    }

    /// The priority of `tag` that counts: its own, or 50 where it names none.
    pub fn tag_priority_or_fallback(tag: &Tag) -> (priority: u8)
        ensures
            priority == tag@.rank(),
    {
        match tag.priority {
            None => 50,
            Some(p) => p,
        }
    }

    /// What the tags `maybe_tags` contribute for `field`, in order of
    /// application. A name that the settings do not know contributes
    /// nothing, and neither does a tag without a value for the field.
    pub fn resolve_from_tags(&self, field: TagField, maybe_tags: &Option<NameSet>) -> (texts: Vec<
        String,
    >)
        ensures
            texts.deep_view() == tag_texts(*maybe_tags, self.settings.tags, field),
    {
        let names = match maybe_tags {
            Some(n) => n,
            None => {
                let none: Vec<String> = Vec::new();
                assert(none.deep_view() =~= Seq::<Seq<char>>::empty());
                return none;
            },
        };
        let tags = match &self.settings.tags {
            Some(t) => t,
            None => {
                let none: Vec<String> = Vec::new();
                assert(none.deep_view() =~= Seq::<Seq<char>>::empty());
                return none;
            },
        };
        proof {
            use_type_invariant(names);
            lemma_ascending_no_duplicates(names@);
        }
        let mut ranks: Vec<u8> = Vec::new();
        let mut texts: Vec<String> = Vec::new();
        let ghost mut picks: Seq<Pick> = Seq::empty();
        let mut i: usize = 0;
        assert(is_resolution(picks, names@.take(0), *tags, field));
        while i < names.len()
            invariant
                i <= names@.len(),
                ascending(names@),
                names@.no_duplicates(),
                picks.len() == ranks.len(),
                picks.len() == texts.len(),
                forall|k: int|
                    0 <= k < picks.len() ==> ranks@[k] == (#[trigger] picks[k]).rank && texts@[k]@
                        == picks[k].text,
                is_resolution(picks, names@.take(i as int), *tags, field),
            decreases names@.len() - i,
        {
            let name = names.name(i);
            let ghost seen = names@.take(i as int);
            proof {
                if seen.contains(name@) {
                    let j = choose|j: int| 0 <= j < seen.len() && seen[j] == name@;
                    assert(names@[j] == names@[i as int]);
                }
                assert(seen.push(name@) =~= names@.take(i + 1));
            }
            let mut added = false;
            if let Some(tag) = tags.get(name.as_str()) {
                if let Some(text) = field_value(tag, field) {
                    let rank = Self::tag_priority_or_fallback(tag);
                    let ghost new = pick_of(*tags, field, name@);
                    let mut at: usize = 0;
                    while at < ranks.len() && ranks[at] <= rank
                        invariant
                            at <= ranks.len(),
                            forall|k: int| 0 <= k < at ==> ranks@[k] <= rank,
                        decreases ranks.len() - at,
                    {
                        at += 1;
                    }
                    proof {
                        assert forall|k: int| 0 <= k < at implies pick_before(
                            #[trigger] picks[k],
                            new,
                        ) by {
                            assert(seen.contains(picks[k].name));
                            let j = choose|j: int| 0 <= j < seen.len() && seen[j] == picks[k].name;
                            assert(names@[j] == picks[k].name);
                            assert(text_lt(names@[j], names@[i as int]));
                        }
                        assert forall|k: int| at <= k < picks.len() implies pick_before(
                            new,
                            #[trigger] picks[k],
                        ) by {
                            if k > at {
                                assert(pick_before(picks[at as int], picks[k]));
                            }
                        }
                        assert(slot_for(picks, new, at as int));
                        lemma_resolution_step(picks, seen, *tags, field, name@, at as int);
                        picks = picks.insert(at as int, new);
                    }
                    ranks.insert(at, rank);
                    texts.insert(at, text.clone());
                    added = true;
                }
            }
            proof {
                if !added {
                    lemma_resolution_step(picks, seen, *tags, field, name@, 0);
                }
            }
            i += 1;
        }
        proof {
            assert(names@.take(i as int) =~= names@);
            lemma_resolution_unique(picks, resolution(names@, *tags, field), names@, *tags, field);
            assert(texts.deep_view() =~= pick_texts(picks));
        }
        texts
    }
}

} // verus!
