//! The list of recent projects of IntelliJ: every project's path.

use vstd::prelude::*;
use vstd::string::*;
use crate::config::path::{home_dir, join_path, joined};
use crate::config::Config;
use crate::errors::AppError;
use crate::numbers::{decimal, decimal_text};
use crate::projectile::{all_paths, project_paths};
use crate::text::{opt_text, starts_with};

verus! {

/// The number of recent projects that IntelliJ lists unless told otherwise.
pub const LISTED_BY_DEFAULT: usize = 50;

/// The entry of the project at `path`.
pub open spec fn entry(path: Seq<char>) -> Seq<char> {
    "<entry key=\""@ + path
        + "\">\n<value>\n<RecentProjectMetaInfo>\n</RecentProjectMetaInfo>\n</value>\n</entry>\n"@
}

/// The entries of `paths`, one after the other.
pub open spec fn entries(paths: Seq<Seq<char>>) -> Seq<char>
    decreases paths.len(),
{
    if paths.len() == 0 {
        Seq::empty()
    } else {
        entries(paths.drop_last()) + entry(paths.last())
    }
}

/// The file of recent projects for `paths`.
pub open spec fn recent_projects(paths: Seq<Seq<char>>) -> Seq<char> {
    "<application><component name=\"RecentProjectsManager\"><option name=\"additionalInfo\"><map>\n"@
        + entries(paths) + "</map></option></component></application>\n"@
}

/// The file of recent projects for `paths`.
pub fn write_recent_projects(paths: &Vec<String>) -> (text: String)
    ensures
        text@ == recent_projects(paths.deep_view()),
{
    let mut text = String::from_str(
        "<application><component name=\"RecentProjectsManager\"><option name=\"additionalInfo\"><map>\n",
    );
    let ghost head = text@;
    let ghost all = paths.deep_view();
    let mut i: usize = 0;
    assert(all.take(0) =~= Seq::<Seq<char>>::empty());
    assert(text@ =~= head + entries(all.take(0)));
    while i < paths.len()
        invariant
            i <= paths.len(),
            all == paths.deep_view(),
            text@ == head + entries(all.take(i as int)),
        decreases paths.len() - i,
    {
        let ghost before = text@;
        proof {
            assert(all.take(i + 1).drop_last() =~= all.take(i as int));
            assert(all.take(i + 1).last() == paths@[i as int]@);
        }
        text.append("<entry key=\"");
        text.append(paths[i].as_str());
        text.append(
            "\">\n<value>\n<RecentProjectMetaInfo>\n</RecentProjectMetaInfo>\n</value>\n</entry>\n",
        );
        assert(text@ =~= before + entry(paths@[i as int]@));
        i += 1;
    }
    assert(all.take(paths.len() as int) =~= all);
    text.append("</map></option></component></application>\n");
    text
}

/// Whether a directory of this name in the directory of JetBrains belongs
/// to an IntelliJ.
pub fn is_intellij_directory(name: &str) -> (yes: bool)
    ensures
        yes == ("IntelliJ"@.is_prefix_of(name@) || "Idea"@.is_prefix_of(name@)),
{
    starts_with(name, "IntelliJ") || starts_with(name, "Idea")
}

/// The file of recent projects of the IntelliJ whose directory is
/// `directory`.
pub fn recent_projects_file(directory: &str) -> (file: String)
    ensures
        file@ == joined(joined(directory@, "options"@), "recentProjects.xml"@),
{
    let options = join_path(directory, "options");
    join_path(options.as_str(), "recentProjects.xml")
}

/// The warning for a list of `number_of_projects` projects.
pub open spec fn many_projects(number_of_projects: nat) -> Seq<char> {
    "WARNING: "@ + decimal_text(number_of_projects)
        + " projects were added to the list. Intellij only lists 50 projects by default. You can change this in Intellij by going to Settings -> Search for \"recent\" -> Pick the \"Advanced Settings\" -> adjust \"Maximum number of recent projects\".A high number is recommended since it won't do any harm to the system."@
}

/// The warning to show for a list of `number_of_projects` projects: one is
/// due where warnings are wanted and the list is longer than what IntelliJ
/// shows by default.
pub fn number_of_projects_warning(number_of_projects: usize, warn: bool) -> (warning: Option<
    String,
>)
    ensures
        match warning {
            Some(text) => warn && number_of_projects > LISTED_BY_DEFAULT && text@
                == many_projects(number_of_projects as nat),
            None => !(warn && number_of_projects > LISTED_BY_DEFAULT),
        },
{
    if number_of_projects > LISTED_BY_DEFAULT && warn {
        let mut text = String::from_str("WARNING: ");
        text.append(decimal(number_of_projects as u64).as_str());
        text.append(
            " projects were added to the list. Intellij only lists 50 projects by default. You can change this in Intellij by going to Settings -> Search for \"recent\" -> Pick the \"Advanced Settings\" -> adjust \"Maximum number of recent projects\".A high number is recommended since it won't do any harm to the system.",
        );
        Some(text)
    } else {
        None
    }
}

/// What is written for IntelliJ: the file of recent projects, the same for
/// every IntelliJ that is installed, and the warning, where one is due.
#[derive(Debug)]
pub struct RecentProjects {
    pub content: String,
    pub warning: Option<String>,
}

/// The list of recent projects with the paths of all projects on this
/// machine.
pub fn intellij(maybe_config: Result<Config, AppError>, warn: bool) -> (written: Result<
    RecentProjects,
    AppError,
>)
    ensures
        match maybe_config {
            Err(e) => written matches Err(f) && f@ == e@,
            Ok(config) => written matches Ok(w) && (w.warning is Some <==> (warn
                && config.projects.values().len() > LISTED_BY_DEFAULT)) && (w.warning matches Some(
                text,
            ) ==> text@ == many_projects(config.projects.values().len())) && exists|
                home: Option<Seq<char>>,
            | w.content@ == recent_projects(#[trigger] all_paths(config, home)),
        },
{
    let config = match maybe_config {
        Ok(c) => c,
        Err(e) => {
            return Err(e);
        },
    };
    let home = home_dir();
    let paths = project_paths(&config, &home);
    let written = RecentProjects {
        content: write_recent_projects(&paths),
        warning: number_of_projects_warning(paths.len(), warn),
    };
    assert(written.content@ == recent_projects(all_paths(config, opt_text(home))));
    Ok(written)
}

} // verus!
