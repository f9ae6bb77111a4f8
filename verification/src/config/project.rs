//! A managed repository and its remotes.

use vstd::prelude::*;
use vstd::string::*;
use crate::names::NameSet;
use crate::text::{clone_opt, opt_text};

verus! {

/// A named remote of a repository.
#[derive(Debug, PartialEq, Eq)]
pub struct Remote {
    pub name: String,
    pub git: String,
}

/// A remote as plain text.
pub struct RemoteView {
    pub name: Seq<char>,
    pub git: Seq<char>,
}

impl View for Remote {
    type V = RemoteView;

    open spec fn view(&self) -> RemoteView {
        RemoteView { name: self.name@, git: self.git@ }
    }
}

impl Clone for Remote {
    fn clone(&self) -> (copy: Self)
        ensures
            copy@ == self@,
    {
        Remote { name: self.name.clone(), git: self.git.clone() }
    }
}

/// The remotes of a list, as plain text.
pub open spec fn remotes_view(list: Seq<Remote>) -> Seq<RemoteView> {
    list.map_values(|r: Remote| r@)
}

/// The remotes of an optional list, as plain text.
pub open spec fn opt_remotes_view(list: Option<Vec<Remote>>) -> Option<Seq<RemoteView>> {
    match list {
        Some(v) => Some(remotes_view(v@)),
        None => None,
    }
}

/// The names of an optional set.
pub open spec fn opt_names(set: Option<NameSet>) -> Option<Seq<Seq<char>>> {
    match set {
        Some(s) => Some(s@),
        None => None,
    }
}

/// A copy of a list of remotes.
pub fn clone_remotes(list: &Vec<Remote>) -> (copy: Vec<Remote>)
    ensures
        remotes_view(copy@) == remotes_view(list@),
{
    let mut copy: Vec<Remote> = Vec::new();
    let mut i: usize = 0;
    while i < list.len()
        invariant
            i <= list.len(),
            copy.len() == i,
            forall|j: int| 0 <= j < i ==> copy@[j]@ == list@[j]@,
        decreases list.len() - i,
    {
        copy.push(list[i].clone());
        i += 1;
    }
    assert(remotes_view(copy@) =~= remotes_view(list@));
    copy
}

/// A copy of an optional set of names.
pub fn clone_opt_names(set: &Option<NameSet>) -> (copy: Option<NameSet>)
    ensures
        opt_names(copy) == opt_names(*set),
{
    match set {
        Some(s) => Some(s.clone()),
        None => None,
    }
}

/// One managed git repository with its hooks and overrides. The name and the
/// storage sub-path come from where the project's file lies, not from what
/// the file holds.
#[derive(Debug, PartialEq, Eq)]
pub struct Project {
    pub name: String,
    pub git: String,
    pub after_clone: Option<String>,
    pub after_workon: Option<String>,
    pub override_path: Option<String>,
    pub bare: Option<bool>,
    pub tags: Option<NameSet>,
    pub additional_remotes: Option<Vec<Remote>>,
    pub trusted: bool,
    pub project_config_path: String,
}

/// A project as plain values.
pub struct ProjectView {
    pub name: Seq<char>,
    pub git: Seq<char>,
    pub after_clone: Option<Seq<char>>,
    pub after_workon: Option<Seq<char>>,
    pub override_path: Option<Seq<char>>,
    pub bare: Option<bool>,
    pub tags: Option<Seq<Seq<char>>>,
    pub additional_remotes: Option<Seq<RemoteView>>,
    pub trusted: bool,
    pub project_config_path: Seq<char>,
}

impl View for Project {
    type V = ProjectView;

    open spec fn view(&self) -> ProjectView {
        ProjectView {
            name: self.name@,
            git: self.git@,
            after_clone: opt_text(self.after_clone),
            after_workon: opt_text(self.after_workon),
            override_path: opt_text(self.override_path),
            bare: self.bare,
            tags: opt_names(self.tags),
            additional_remotes: opt_remotes_view(self.additional_remotes),
            trusted: self.trusted,
            project_config_path: self.project_config_path@,
        }
    }
}

impl Clone for Project {
    fn clone(&self) -> (copy: Self)
        ensures
            copy@ == self@,
    {
        let additional_remotes = match &self.additional_remotes {
            Some(list) => Some(clone_remotes(list)),
            None => None,
        };
        Project {
            name: self.name.clone(),
            git: self.git.clone(),
            after_clone: clone_opt(&self.after_clone),
            after_workon: clone_opt(&self.after_workon),
            override_path: clone_opt(&self.override_path),
            bare: self.bare,
            tags: clone_opt_names(&self.tags),
            additional_remotes,
            trusted: self.trusted,
            project_config_path: self.project_config_path.clone(),
        }
    }
}

impl Project {
    /// The project whose fields are written out, as comments, below every
    /// project file.
    pub fn example() -> (project: Project)
        ensures
            project@ == (ProjectView {
                name: "fw"@,
                git: "git@github.com:brocode/fw.git"@,
                after_clone: Some("echo BROCODE!!"@),
                after_workon: Some("echo workon fw"@),
                override_path: Some("/some/fancy/path/to/fw"@),
                bare: Some(false),
                tags: project@.tags,
                additional_remotes: Some(
                    seq![RemoteView { name: "upstream"@, git: "git@..."@ }],
                ),
                trusted: false,
                project_config_path: ""@,
            }),
            project@.tags matches Some(tags) && forall|x: Seq<char>|
                tags.contains(x) <==> (x == "rust"@ || x == "brocode"@),
    {
        let mut tags = NameSet::new();
        tags.insert(String::from_str("rust"));
        tags.insert(String::from_str("brocode"));
        let mut remotes: Vec<Remote> = Vec::new();
        remotes.push(
            Remote { name: String::from_str("upstream"), git: String::from_str("git@...") },
        );
        assert(remotes_view(remotes@) =~= seq![RemoteView { name: "upstream"@, git: "git@..."@ }]);
        Project {
            name: String::from_str("fw"),
            git: String::from_str("git@github.com:brocode/fw.git"),
            tags: Some(tags),
            after_clone: Some(String::from_str("echo BROCODE!!")),
            after_workon: Some(String::from_str("echo workon fw")),
            override_path: Some(String::from_str("/some/fancy/path/to/fw")),
            additional_remotes: Some(remotes),
            bare: Some(false),
            trusted: false,
            project_config_path: String::from_str(""),
        }
    }
}

} // verus!
