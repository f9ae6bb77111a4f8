//! The bookmarks of Projectile: every project's path, with the home
//! directory written as `~`.

use vstd::prelude::*;
use vstd::string::*;
use regex::Regex;
use crate::config::path::{home_dir, join_path, joined};
use crate::config::Config;
use crate::errors::{AppError, ErrorView};
use crate::text::opt_text;

verus! {

/// `regex::Regex`, a compiled regular expression, taken as it is.
#[verifier::external_type_specification]
#[verifier::external_body]
pub struct ExRegex(Regex);

/// `regex::Error`, the reason why a pattern cannot be compiled, taken as it
/// is.
#[verifier::external_type_specification]
#[verifier::external_body]
pub struct ExRegexError(regex::Error);

/// Whether `pattern` is a regular expression that can be compiled.
pub uninterp spec fn compiles(pattern: Seq<char>) -> bool;

/// `Regex::new`: the compiled expression, or the reason why `pattern` is
/// none that can be compiled. Which patterns can be compiled depends on the
/// pattern alone.
#[verifier::external_body]
fn regex_new(pattern: &str) -> (re: Result<Regex, regex::Error>)
    ensures
        re is Ok <==> compiles(pattern@),
{
    Regex::new(pattern)
}

/// `Regex::replace_all`: `text` with `with` in place of every match of the
/// expression. Nothing is claimed of the result.
#[verifier::external_body]
fn regex_replace_all(re: &Regex, text: &str, with: &str) -> (out: String) {
    re.replace_all(text, with).into_owned()
}

/// The `Display` of `regex::Error`: the reason in words. Nothing is claimed
/// of the text.
#[verifier::external_body]
fn regex_error_text(error: &regex::Error) -> (text: String) {
    error.to_string()
}

/// The expression that matches `path_to_replace` at the start of a path.
/// The directory is taken as an expression itself, not as plain text.
pub open spec fn prefix_pattern(path_to_replace: Seq<char>) -> Seq<char> {
    "^"@ + path_to_replace
}

/// `path` with `~` in place of `path_to_replace` at its start. A directory
/// that is no regular expression that can be compiled is an error.
pub fn replace_path_with_tilde(path: &str, path_to_replace: &str) -> (replaced: Result<
    String,
    AppError,
>)
    ensures
        replaced is Ok <==> compiles(prefix_pattern(path_to_replace@)),
        replaced matches Err(e) ==> e@ is Regex,
{
    let mut pattern = String::from_str("^");
    pattern.append(path_to_replace);
    match regex_new(pattern.as_str()) {
        Ok(regex) => Ok(regex_replace_all(&regex, path, "~")),
        Err(e) => Err(AppError::Regex(regex_error_text(&e))),
    }
}

/// One bookmark: the path between double quotes, with a `/` at its end and
/// a blank behind it.
pub open spec fn bookmark(path: Seq<char>) -> Seq<char> {
    "\""@ + path + "/\""@ + " "@
}

/// The bookmarks of `paths`, one after the other.
pub open spec fn bookmarks(paths: Seq<Seq<char>>) -> Seq<char>
    decreases paths.len(),
{
    if paths.len() == 0 {
        Seq::empty()
    } else {
        bookmarks(paths.drop_last()) + bookmark(paths.last())
    }
}

/// The file of bookmarks for `paths`: the bookmarks between round brackets.
pub open spec fn bookmarks_file(paths: Seq<Seq<char>>) -> Seq<char> {
    "("@ + bookmarks(paths) + ")"@
}

/// The file of bookmarks for `paths`.
pub fn write_bookmarks(paths: &Vec<String>) -> (text: String)
    ensures
        text@ == bookmarks_file(paths.deep_view()),
{
    let mut text = String::from_str("(");
    let ghost all = paths.deep_view();
    let mut i: usize = 0;
    assert(all.take(0) =~= Seq::<Seq<char>>::empty());
    assert(text@ =~= "("@ + bookmarks(all.take(0)));
    while i < paths.len()
        invariant
            i <= paths.len(),
            all == paths.deep_view(),
            text@ == "("@ + bookmarks(all.take(i as int)),
        decreases paths.len() - i,
    {
        let ghost before = text@;
        proof {
            assert(all.take(i + 1).drop_last() =~= all.take(i as int));
            assert(all.take(i + 1).last() == paths@[i as int]@);
        }
        text.append("\"");
        text.append(paths[i].as_str());
        text.append("/\"");
        text.append(" ");
        assert(text@ =~= before + bookmark(paths@[i as int]@));
        i += 1;
    }
    assert(all.take(paths.len() as int) =~= all);
    text.append(")");
    text
}

/// Whether `shown` are the paths `paths` as the bookmarks show them: each
/// either as it is, or as what came of writing the home directory as `~`.
pub open spec fn shown_paths(shown: Seq<Seq<char>>, paths: Seq<Seq<char>>, home: Seq<char>) -> bool {
    &&& shown.len() == paths.len()
    &&& !compiles(prefix_pattern(home)) ==> shown == paths
}

/// The file of bookmarks for `paths` on a machine with the home directory
/// `home_dir`: every path with the home directory written as `~`. Where the
/// home directory is no expression that can be compiled, the paths stay as
/// they are.
pub fn persist(home_dir: &str, paths: &Vec<String>) -> (text: String)
    ensures
        exists|shown: Seq<Seq<char>>|
            shown_paths(shown, paths.deep_view(), home_dir@) && text@ == #[trigger] bookmarks_file(
                shown,
            ),
{
    let mut shown: Vec<String> = Vec::new();
    let mut i: usize = 0;
    while i < paths.len()
        invariant
            i <= paths.len(),
            shown.len() == i,
            !compiles(prefix_pattern(home_dir@)) ==> forall|k: int|
                0 <= k < i ==> shown@[k]@ == paths@[k]@,
        decreases paths.len() - i,
    {
        let path = match replace_path_with_tilde(paths[i].as_str(), home_dir) {
            Ok(p) => p,
            Err(_) => paths[i].clone(),
        };
        shown.push(path);
        i += 1;
    }
    proof {
        if !compiles(prefix_pattern(home_dir@)) {
            assert(shown.deep_view() =~= paths.deep_view());
        }
        assert(shown_paths(shown.deep_view(), paths.deep_view(), home_dir@));
    }
    write_bookmarks(&shown)
}

/// Where the bookmarks are kept, below the home directory `home`.
pub open spec fn bookmarks_path(home: Seq<char>) -> Seq<char> {
    joined(joined(home, ".emacs.d"@), "projectile-bookmarks.eld"@)
}

/// A file with its content.
#[derive(Debug, PartialEq, Eq)]
pub struct Export {
    pub file: String,
    pub content: String,
}

/// The paths of all projects on a machine with the home directory `home`,
/// in order of the projects' names.
pub open spec fn all_paths(config: Config, home: Option<Seq<char>>) -> Seq<Seq<char>> {
    Seq::new(
        config.projects.values().len(),
        |i: int| config.path_of(&config.projects.values()[i], home),
    )
}

/// The paths of all projects on a machine with the home directory `home`,
/// in order of the projects' names.
pub fn project_paths(config: &Config, home: &Option<String>) -> (paths: Vec<String>)
    ensures
        paths.deep_view() == all_paths(*config, opt_text(*home)),
{
    let mut paths: Vec<String> = Vec::new();
    let n = config.projects.len();
    let mut i: usize = 0;
    while i < n
        invariant
            i <= n,
            n == config.projects.values().len(),
            n == config.projects.names().len(),
            paths.len() == i,
            forall|k: int|
                0 <= k < i ==> (#[trigger] paths@[k])@ == config.path_of(
                    &config.projects.values()[k],
                    opt_text(*home),
                ),
        decreases n - i,
    {
        paths.push(config.path_with_home(config.projects.value_at(i), crate::text::clone_opt(home)));
        i += 1;
    }
    assert(paths.deep_view() =~= all_paths(*config, opt_text(*home)));
    paths
}

/// Whether `export` holds the bookmarks of all projects of `config` on a
/// machine with the home directory `home`, and the file for them.
pub open spec fn is_bookmark_export(export: Export, config: Config, home: Seq<char>) -> bool {
    &&& export.file@ == bookmarks_path(home)
    &&& exists|shown: Seq<Seq<char>>|
        shown_paths(shown, all_paths(config, Some(home)), home) && export.content@
            == #[trigger] bookmarks_file(shown)
}

/// Whether `export` is what `projectile` comes to on a machine with the
/// home directory `home`: the bookmarks and their file, or the error that says
/// that there is no home.
pub open spec fn is_projectile_result(
    config: Config,
    home: Option<Seq<char>>,
    export: Result<Export, AppError>,
) -> bool {
    match home {
        Some(h) => export matches Ok(x) && is_bookmark_export(x, config, h),
        None => export matches Err(e) && e@ == ErrorView::UserError("$HOME not set"@),
    }
}

/// The bookmarks of all projects on a machine with the home directory
/// `home`, and the file to write them to.
pub fn projectile_at(config: &Config, home: Option<String>) -> (export: Result<Export, AppError>)
    ensures
        is_projectile_result(*config, opt_text(home), export),
{
    let paths = project_paths(config, &home);
    let home = match home {
        Some(h) => h,
        None => {
            return Err(AppError::UserError(String::from_str("$HOME not set")));
        },
    };
    let folder = join_path(home.as_str(), ".emacs.d");
    let file = join_path(folder.as_str(), "projectile-bookmarks.eld");
    let export = Export { file, content: persist(home.as_str(), &paths) };
    assert(is_bookmark_export(export, *config, home@));
    Ok(export)
}

/// The bookmarks of all projects, and the file to write them to. Without a
/// home directory there is no place for the file.
pub fn projectile(maybe_config: Result<Config, AppError>) -> (export: Result<Export, AppError>)
    ensures
        maybe_config matches Err(e) ==> export matches Err(f) && f@ == e@,
        maybe_config matches Ok(config) ==> exists|home: Option<Seq<char>>|
            is_projectile_result(config, home, export),
{
    let config = match maybe_config {
        Ok(c) => c,
        Err(e) => {
            return Err(e);
        },
    };
    let home = home_dir();
    let ghost h = opt_text(home);
    let export = projectile_at(&config, home);
    assert(is_projectile_result(config, h, export));
    export
}

} // verus!
