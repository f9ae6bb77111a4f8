//! Tags and the global settings.

use vstd::prelude::*;
use vstd::string::*;
use crate::name_map::NameMap;
use crate::names::NameSet;
use crate::config::project::{clone_opt_names, opt_names};
use crate::text::{clone_list, clone_opt, opt_text};

verus! {

/// The priority of a tag that names none.
pub const DEFAULT_PRIORITY: u8 = 50;

/// A reusable bundle of hooks, workspace and priority that projects refer to
/// by name.
#[derive(Debug, PartialEq, Eq)]
pub struct Tag {
    pub after_clone: Option<String>,
    pub after_workon: Option<String>,
    pub priority: Option<u8>,
    pub workspace: Option<String>,
    pub default: Option<bool>,
    pub tag_config_path: String,
}

/// A tag as plain values.
pub struct TagView {
    pub after_clone: Option<Seq<char>>,
    pub after_workon: Option<Seq<char>>,
    pub priority: Option<u8>,
    pub workspace: Option<Seq<char>>,
    pub default: Option<bool>,
    pub tag_config_path: Seq<char>,
}

impl TagView {
    /// The priority that counts: the tag's own, or the default.
    pub open spec fn rank(self) -> u8 {
        match self.priority {
            Some(p) => p,
            None => DEFAULT_PRIORITY,
        }
    }
}

impl View for Tag {
    type V = TagView;

    open spec fn view(&self) -> TagView {
        TagView {
            after_clone: opt_text(self.after_clone),
            after_workon: opt_text(self.after_workon),
            priority: self.priority,
            workspace: opt_text(self.workspace),
            default: self.default,
            tag_config_path: self.tag_config_path@,
        }
    }
}

impl Clone for Tag {
    fn clone(&self) -> (copy: Self)
        ensures
            copy@ == self@,
    {
        Tag {
            after_clone: clone_opt(&self.after_clone),
            after_workon: clone_opt(&self.after_workon),
            priority: self.priority,
            workspace: clone_opt(&self.workspace),
            default: self.default,
            tag_config_path: self.tag_config_path.clone(),
        }
    }
}

impl Tag {
    /// The tag whose fields are written out, as comments, below every tag
    /// file.
    pub fn example() -> (tag: Tag)
        ensures
            tag@ == (TagView {
                after_clone: Some("echo after clone from tag"@),
                after_workon: Some("echo after workon from tag"@),
                priority: Some(0u8),
                workspace: Some("/home/other"@),
                default: Some(false),
                tag_config_path: ""@,
            }),
    {
        Tag {
            after_clone: Some(String::from_str("echo after clone from tag")),
            after_workon: Some(String::from_str("echo after workon from tag")),
            priority: Some(0),
            workspace: Some(String::from_str("/home/other")),
            default: Some(false),
            tag_config_path: String::from_str(""),
        }
    }
}

/// Access to a GitLab instance.
#[derive(Debug, PartialEq, Eq)]
pub struct GitlabSettings {
    pub token: String,
    pub host: String,
}

/// GitLab access as plain text.
pub struct GitlabView {
    pub token: Seq<char>,
    pub host: Seq<char>,
}

impl View for GitlabSettings {
    type V = GitlabView;

    open spec fn view(&self) -> GitlabView {
        GitlabView { token: self.token@, host: self.host@ }
    }
}

impl Clone for GitlabSettings {
    fn clone(&self) -> (copy: Self)
        ensures
            copy@ == self@,
    {
        GitlabSettings { token: self.token.clone(), host: self.host.clone() }
    }
}

/// The view of optional GitLab access.
pub open spec fn opt_gitlab(g: Option<GitlabSettings>) -> Option<GitlabView> {
    match g {
        Some(s) => Some(s@),
        None => None,
    }
}

/// The texts of an optional list of strings.
pub open spec fn opt_texts(list: Option<Vec<String>>) -> Option<Seq<Seq<char>>> {
    match list {
        Some(v) => Some(v.deep_view()),
        None => None,
    }
}

/// A copy of an optional list of strings.
pub fn clone_opt_list(list: &Option<Vec<String>>) -> (copy: Option<Vec<String>>)
    ensures
        opt_texts(copy) == opt_texts(*list),
{
    match list {
        Some(v) => Some(clone_list(v)),
        None => None,
    }
}

/// A copy of optional GitLab access.
pub fn clone_opt_gitlab(g: &Option<GitlabSettings>) -> (copy: Option<GitlabSettings>)
    ensures
        opt_gitlab(copy) == opt_gitlab(*g),
{
    match g {
        Some(s) => Some(s.clone()),
        None => None,
    }
}

/// The settings in force: what the settings file holds, and the tags that
/// were found beside it.
#[derive(Debug, PartialEq, Eq)]
pub struct Settings {
    pub workspace: String,
    pub shell: Option<Vec<String>>,
    pub default_after_workon: Option<String>,
    pub default_after_clone: Option<String>,
    pub default_tags: Option<NameSet>,
    pub tags: Option<NameMap<Tag>>,
    pub github_token: Option<String>,
    pub gitlab: Option<GitlabSettings>,
}

/// Whether two maps hold the same tags under the same names.
pub open spec fn same_tags(a: NameMap<Tag>, b: NameMap<Tag>) -> bool {
    &&& a.names() == b.names()
    &&& a.values().len() == b.values().len()
    &&& forall|i: int| 0 <= i < a.values().len() ==> (#[trigger] a.values()[i])@ == b.values()[i]@
}

impl Clone for Settings {
    fn clone(&self) -> (copy: Self)
        ensures
            copy.persisted() == self.persisted(),
            opt_names(copy.default_tags) == opt_names(self.default_tags),
            copy.tags is Some == self.tags is Some,
            copy.tags matches Some(tags) ==> same_tags(tags, self.tags.unwrap()),
    {
        Settings {
            workspace: self.workspace.clone(),
            shell: clone_opt_list(&self.shell),
            default_after_workon: clone_opt(&self.default_after_workon),
            default_after_clone: clone_opt(&self.default_after_clone),
            default_tags: clone_opt_names(&self.default_tags),
            tags: match &self.tags {
                Some(tags) => Some(tags.clone()),
                None => None,
            },
            github_token: clone_opt(&self.github_token),
            gitlab: clone_opt_gitlab(&self.gitlab),
        }
    }
}

/// The command line of the shell that runs hooks where the settings name
/// none.
pub open spec fn default_shell() -> Seq<Seq<char>> {
    seq!["sh"@, "-c"@]
}

impl Settings {
    /// The shell's command line, as a specification.
    pub open spec fn shell_or_default(&self) -> Seq<Seq<char>> {
        match self.shell {
            Some(v) => v.deep_view(),
            None => default_shell(),
        }
    }

    /// The command line of the shell that runs hooks: the configured one, or
    /// `sh -c`.
    pub fn get_shell_or_default(self: &Settings) -> (shell: Vec<String>)
        ensures
            shell.deep_view() == self.shell_or_default(),
    {
        match &self.shell {
            Some(v) => clone_list(v),
            None => {
                let mut shell: Vec<String> = Vec::new();
                shell.push(String::from_str("sh"));
                shell.push(String::from_str("-c"));
                assert(shell.deep_view() =~= default_shell());
                shell
            },
        }
    }
}

/// What the settings file holds.
#[derive(Debug, PartialEq, Eq)]
pub struct PersistedSettings {
    pub workspace: String,
    pub shell: Option<Vec<String>>,
    pub default_after_workon: Option<String>,
    pub default_after_clone: Option<String>,
    pub github_token: Option<String>,
    pub gitlab: Option<GitlabSettings>,
}

/// The settings file as plain values.
pub struct PersistedSettingsView {
    pub workspace: Seq<char>,
    pub shell: Option<Seq<Seq<char>>>,
    pub default_after_workon: Option<Seq<char>>,
    pub default_after_clone: Option<Seq<char>>,
    pub github_token: Option<Seq<char>>,
    pub gitlab: Option<GitlabView>,
}

impl View for PersistedSettings {
    type V = PersistedSettingsView;

    open spec fn view(&self) -> PersistedSettingsView {
        PersistedSettingsView {
            workspace: self.workspace@,
            shell: opt_texts(self.shell),
            default_after_workon: opt_text(self.default_after_workon),
            default_after_clone: opt_text(self.default_after_clone),
            github_token: opt_text(self.github_token),
            gitlab: opt_gitlab(self.gitlab),
        }
    }
}

impl Clone for PersistedSettings {
    fn clone(&self) -> (copy: Self)
        ensures
            copy@ == self@,
    {
        PersistedSettings {
            workspace: self.workspace.clone(),
            shell: clone_opt_list(&self.shell),
            default_after_workon: clone_opt(&self.default_after_workon),
            default_after_clone: clone_opt(&self.default_after_clone),
            github_token: clone_opt(&self.github_token),
            gitlab: clone_opt_gitlab(&self.gitlab),
        }
    }
}

impl Settings {
    /// The part of the settings that the settings file holds.
    pub open spec fn persisted(&self) -> PersistedSettingsView {
        PersistedSettingsView {
            workspace: self.workspace@,
            shell: opt_texts(self.shell),
            default_after_workon: opt_text(self.default_after_workon),
            default_after_clone: opt_text(self.default_after_clone),
            github_token: opt_text(self.github_token),
            gitlab: opt_gitlab(self.gitlab),
        }
    }
}

impl PersistedSettings {
    /// The settings written out, as comments, below the settings file.
    pub fn example() -> (settings: PersistedSettings)
        ensures
            settings@ == (PersistedSettingsView {
                workspace: "~/workspace"@,
                shell: Some(seq!["/usr/bin/zsh"@, "-c"@]),
                default_after_workon: Some("echo default after workon"@),
                default_after_clone: Some("echo default after clone"@),
                github_token: Some("githubtokensecret"@),
                gitlab: Some(GitlabView { host: "localhost"@, token: "token"@ }),
            }),
    {
        let mut shell: Vec<String> = Vec::new();
        shell.push(String::from_str("/usr/bin/zsh"));
        shell.push(String::from_str("-c"));
        assert(shell.deep_view() =~= seq!["/usr/bin/zsh"@, "-c"@]);
        PersistedSettings {
            workspace: String::from_str("~/workspace"),
            default_after_workon: Some(String::from_str("echo default after workon")),
            default_after_clone: Some(String::from_str("echo default after clone")),
            shell: Some(shell),
            github_token: Some(String::from_str("githubtokensecret")),
            gitlab: Some(
                GitlabSettings {
                    host: String::from_str("localhost"),
                    token: String::from_str("token"),
                },
            ),
        }
    }

    /// What of `settings` goes into the settings file: all but the tags and
    /// the default tags, which have files of their own.
    pub fn from_settings(settings: &Settings) -> (persisted: PersistedSettings)
        ensures
            persisted@ == settings.persisted(),
    {
        PersistedSettings {
            workspace: settings.workspace.clone(),
            shell: clone_opt_list(&settings.shell),
            default_after_workon: clone_opt(&settings.default_after_workon),
            default_after_clone: clone_opt(&settings.default_after_clone),
            github_token: clone_opt(&settings.github_token),
            gitlab: clone_opt_gitlab(&settings.gitlab),
        }
    }
}

} // verus!
