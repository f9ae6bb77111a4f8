//! The commands that take a shell into a project.

use vstd::prelude::*;
use vstd::string::*;
use crate::config::path::home_dir;
use crate::config::project::Project;
use crate::config::resolve::TagField;
use crate::config::Config;
use crate::errors::{AppError, ErrorView};
use crate::spawn::Invocation;
use crate::text::{clone_opt, concat3, concat5, join, join_text, opt_text, str_eq};

verus! {

/// The place of the first of the projects, in order of their names, whose
/// path on a machine with the home directory `home` is `dir`; -1 where there
/// is none.
pub open spec fn place_of_dir(config: Config, dir: Seq<char>, home: Option<Seq<char>>, upto: int) -> int
    decreases upto,
{
    if upto <= 0 {
        -1
    } else if place_of_dir(config, dir, home, upto - 1) >= 0 {
        place_of_dir(config, dir, home, upto - 1)
    } else if config.path_of(&config.projects.values()[upto - 1], home) == dir {
        upto - 1
    } else {
        -1
    }
}

proof fn lemma_place_stays(config: Config, dir: Seq<char>, home: Option<Seq<char>>, at: int, upto: int)
    requires
        0 <= at <= upto,
        place_of_dir(config, dir, home, at) >= 0,
    ensures
        place_of_dir(config, dir, home, upto) == place_of_dir(config, dir, home, at),
    decreases upto - at,
{
    if at < upto {
        lemma_place_stays(config, dir, home, at, upto - 1);
    }
}

/// The error for a directory that is no project's.
pub open spec fn no_project_at(dir: Seq<char>) -> ErrorView {
    ErrorView::UserError("No project matching expanded path "@ + dir + " found in config"@)
}

/// The project that lies at `current_dir` on a machine with the home
/// directory `home`: the first, in order of the names, whose path is that
/// directory.
pub fn project_at(config: &Config, current_dir: &str, home: &Option<String>) -> (project: Result<
    Project,
    AppError,
>)
    ensures
        ({
            let n = config.projects.values().len() as int;
            let at = place_of_dir(*config, current_dir@, opt_text(*home), n);
            match project {
                Ok(p) => 0 <= at < n && p@ == config.projects.values()[at]@,
                Err(e) => at < 0 && e@ == no_project_at(current_dir@),
            }
        }),
{
    let n = config.projects.len();
    let mut i: usize = 0;
    let ghost h = opt_text(*home);
    while i < n
        invariant
            i <= n,
            n == config.projects.values().len(),
            n == config.projects.names().len(),
            h == opt_text(*home),
            place_of_dir(*config, current_dir@, h, i as int) < 0,
        decreases n - i,
    {
        let project = config.projects.value_at(i);
        let path = config.path_with_home(project, clone_opt(home));
        if str_eq(path.as_str(), current_dir) {
            proof {
                lemma_place_stays(*config, current_dir@, h, i as int + 1, n as int);
            }
            return Ok(project.clone());
        }
        i += 1;
    }
    Err(
        AppError::UserError(
            concat3("No project matching expanded path ", current_dir, " found in config"),
        ),
    )
}

/// Whether `project` is the project that lies at `dir` on a machine with the
/// home directory `home`, or the error that says that there is none.
pub open spec fn is_project_at(
    config: Config,
    dir: Seq<char>,
    home: Option<Seq<char>>,
    project: Result<Project, AppError>,
) -> bool {
    let n = config.projects.values().len() as int;
    let at = place_of_dir(config, dir, home, n);
    match project {
        Ok(p) => 0 <= at < n && p@ == config.projects.values()[at]@,
        Err(e) => at < 0 && e@ == no_project_at(dir),
    }
}

/// Whether `line` takes a shell into the project that lies at `dir` on a
/// machine with the home directory `home`, or is the error that says that
/// there is none.
pub open spec fn is_workon_at(
    config: Config,
    dir: Seq<char>,
    home: Option<Seq<char>>,
    line: Result<String, AppError>,
) -> bool {
    let n = config.projects.values().len() as int;
    let at = place_of_dir(config, dir, home, n);
    match line {
        Ok(l) => 0 <= at < n && l@ == workon_line(
            dir,
            config.hooks(&config.projects.values()[at], TagField::AfterWorkon),
        ),
        Err(e) => at < 0 && e@ == no_project_at(dir),
    }
}

/// Whether `command` takes the running shell into the project that lies at
/// `dir` on a machine with the home directory `home` again, or is the error
/// that says that there is none.
pub open spec fn is_reworkon_at(
    config: Config,
    dir: Seq<char>,
    home: Option<Seq<char>>,
    command: Result<Invocation, AppError>,
) -> bool {
    let n = config.projects.values().len() as int;
    let at = place_of_dir(config, dir, home, n);
    match command {
        Ok(c) => 0 <= at < n && c.command@ == reworkon_line(
            dir,
            config.hooks(&config.projects.values()[at], TagField::AfterWorkon),
        ) && c.shell.deep_view() == config.settings.shell_or_default() && c.workdir@ == dir
            && c.project_name@ == config.projects.values()[at]@.name,
        Err(e) => at < 0 && e@ == no_project_at(dir),
    }
}

/// The project that lies at `current_dir` on this machine.
pub fn current_project(config: &Config, current_dir: &str) -> (project: Result<Project, AppError>)
    ensures
        exists|home: Option<Seq<char>>| is_project_at(*config, current_dir@, home, project),
{
    let home = home_dir();
    let project = project_at(config, current_dir, &home);
    assert(is_project_at(*config, current_dir@, opt_text(home), project));
    project
}

/// The line that takes a shell into the project at `path`: it changes to
/// the path, given in single quotes, and runs `hooks`, each step only if the
/// one before it has succeeded.
pub open spec fn workon_line(path: Seq<char>, hooks: Seq<Seq<char>>) -> Seq<char> {
    join_text(seq!["cd '"@ + path + "'"@] + hooks, " && "@)
}

/// The line that takes the running shell into the project at `path` again.
pub open spec fn reworkon_line(path: Seq<char>, hooks: Seq<Seq<char>>) -> Seq<char> {
    join_text(seq!["cd "@ + path] + hooks, " && "@)
}

/// The hooks of a project depend on nothing but its plain values.
pub proof fn lemma_hooks_of_view(config: Config, p: Project, q: Project, field: TagField)
    requires
        p@ == q@,
    ensures
        config.hooks(&p, field) == config.hooks(&q, field),
{
}

fn line_with(first: String, hooks: Vec<String>) -> (line: String)
    ensures
        line@ == join_text(seq![first@] + hooks.deep_view(), " && "@),
{
    let mut commands: Vec<String> = Vec::new();
    commands.push(first);
    let mut i: usize = 0;
    while i < hooks.len()
        invariant
            i <= hooks.len(),
            commands.len() == i + 1,
            commands@[0]@ == first@,
            forall|k: int| 0 <= k < i ==> commands@[k + 1]@ == hooks@[k]@,
        decreases hooks.len() - i,
    {
        commands.push(hooks[i].clone());
        i += 1;
    }
    assert(commands.deep_view() =~= seq![first@] + hooks.deep_view());
    join(&commands, " && ")
}

/// The line that takes a shell into the project `name`, which lies at
/// `path`; `exists` says whether there is anything at that path. With
/// `quick` the hooks of the project are left out.
pub fn gen(name: &str, maybe_config: Result<Config, AppError>, quick: bool, path: &str, exists: bool) -> (line:
    Result<String, AppError>)
    ensures
        match maybe_config {
            Err(e) => line matches Err(f) && f@ == e@,
            Ok(config) => match config.projects.lookup(name@) {
                None => line matches Err(f) && f@ == ErrorView::UserError(
                    "project key "@ + name@ + " not found in fw.json"@,
                ),
                Some(project) => if !exists {
                    line matches Err(f) && f@ == ErrorView::UserError(
                        "project key "@ + name@ + " found but path "@ + path@ + " does not exist"@,
                    )
                } else {
                    line matches Ok(l) && l@ == workon_line(
                        path@,
                        if quick {
                            Seq::empty()
                        } else {
                            config.hooks(&project, TagField::AfterWorkon)
                        },
                    )
                },
            },
        },
{
    let config = match maybe_config {
        Ok(c) => c,
        Err(e) => {
            return Err(e);
        },
    };
    let project = match config.projects.get(name) {
        Some(p) => p,
        None => {
            return Err(AppError::UserError(concat3("project key ", name, " not found in fw.json")));
        },
    };
    if !exists {
        Err(
            AppError::UserError(
                concat5("project key ", name, " found but path ", path, " does not exist"),
            ),
        )
    } else {
        let hooks = if quick {
            let none: Vec<String> = Vec::new();
            assert(none.deep_view() =~= Seq::<Seq<char>>::empty());
            none
        } else {
            config.resolve_after_workon(project)
        };
        Ok(line_with(concat3("cd '", path, "'"), hooks))
    }
}

/// The line that takes a shell into the project that lies at `current_dir`.
pub fn gen_reworkon(maybe_config: Result<Config, AppError>, current_dir: &str) -> (line: Result<
    String,
    AppError,
>)
    ensures
        maybe_config matches Err(e) ==> line matches Err(f) && f@ == e@,
        maybe_config matches Ok(config) ==> exists|home: Option<Seq<char>>|
            is_workon_at(config, current_dir@, home, line),
{
    let config = match maybe_config {
        Ok(c) => c,
        Err(e) => {
            return Err(e);
        },
    };
    let home = home_dir();
    let ghost h = opt_text(home);
    let project = match project_at(&config, current_dir, &home) {
        Ok(p) => p,
        Err(e) => {
            let failed: Result<String, AppError> = Err(e);
            assert(is_workon_at(config, current_dir@, h, failed));
            return failed;
        },
    };
    let hooks = config.resolve_after_workon(&project);
    let line = line_with(concat3("cd '", current_dir, "'"), hooks);
    let done: Result<String, AppError> = Ok(line);
    proof {
        let n = config.projects.values().len() as int;
        let at = place_of_dir(config, current_dir@, h, n);
        lemma_hooks_of_view(config, project, config.projects.values()[at], TagField::AfterWorkon);
        assert(is_workon_at(config, current_dir@, h, done));
    }
    done
}

/// The command that takes the running shell into the project that lies at
/// `current_dir` again: it changes to the directory and runs the hooks of the
/// project, in that directory and with the shell of the settings.
pub fn reworkon(maybe_config: Result<Config, AppError>, current_dir: &str) -> (command: Result<
    Invocation,
    AppError,
>)
    ensures
        maybe_config matches Err(e) ==> command matches Err(f) && f@ == e@,
        maybe_config matches Ok(config) ==> exists|home: Option<Seq<char>>|
            is_reworkon_at(config, current_dir@, home, command),
{
    let config = match maybe_config {
        Ok(c) => c,
        Err(e) => {
            return Err(e);
        },
    };
    let home = home_dir();
    let ghost h = opt_text(home);
    let project = match project_at(&config, current_dir, &home) {
        Ok(p) => p,
        Err(e) => {
            let failed: Result<Invocation, AppError> = Err(e);
            assert(is_reworkon_at(config, current_dir@, h, failed));
            return failed;
        },
    };
    let hooks = config.resolve_after_workon(&project);
    let mut first = String::from_str("cd ");
    first.append(current_dir);
    let command = Invocation {
        shell: config.settings.get_shell_or_default(),
        command: line_with(first, hooks),
        workdir: String::from_str(current_dir),
        project_name: project.name.clone(),
    };
    let done: Result<Invocation, AppError> = Ok(command);
    proof {
        let n = config.projects.values().len() as int;
        let at = place_of_dir(config, current_dir@, h, n);
        lemma_hooks_of_view(config, project, config.projects.values()[at], TagField::AfterWorkon);
        assert(is_reworkon_at(config, current_dir@, h, done));
    }
    done
}

} // verus!
