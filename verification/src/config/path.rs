//! Paths as text: components separated by `/`, a leading `~` standing for the
//! home directory.

use vstd::prelude::*;
use vstd::string::*;
use crate::errors::AppError;
use crate::text::{opt_text, replace_char, replaced, slice, to_chars};

verus! {

/// Where the configuration lies.
#[derive(Debug, PartialEq, Eq)]
pub struct FwPaths {
    pub settings: String,
    pub base: String,
    pub projects: String,
    pub tags: String,
}

/// The places of the configuration as plain text.
pub struct FwPathsView {
    pub settings: Seq<char>,
    pub base: Seq<char>,
    pub projects: Seq<char>,
    pub tags: Seq<char>,
}

impl View for FwPaths {
    type V = FwPathsView;

    open spec fn view(&self) -> FwPathsView {
        FwPathsView {
            settings: self.settings@,
            base: self.base@,
            projects: self.projects@,
            tags: self.tags@,
        }
    }
}

/// Whether `path` starts at the root.
pub open spec fn absolute(path: Seq<char>) -> bool {
    path.len() > 0 && path[0] == '/'
}

/// `rel` below `base`: an absolute `rel` stands for itself, otherwise it
/// follows `base`, with one separator between them unless `base` is empty or
/// already ends in one.
pub open spec fn joined(base: Seq<char>, rel: Seq<char>) -> Seq<char> {
    if absolute(rel) {
        rel
    } else if base.len() == 0 || base.last() == '/' {
        base + rel
    } else {
        base + seq!['/'] + rel
    }
}

/// Whether the first component of `path` is `~`.
pub open spec fn in_home(path: Seq<char>) -> bool {
    path.len() > 0 && path[0] == '~' && (path.len() == 1 || path[1] == '/')
}

/// The number of separators that `path` holds from place `from` on, before
/// anything else.
pub open spec fn separators_from(path: Seq<char>, from: int) -> nat
    decreases path.len() - from,
{
    if 0 <= from < path.len() && path[from] == '/' {
        1 + separators_from(path, from + 1)
    } else {
        0
    }
}

/// What follows the leading `~` and the separators after it.
pub open spec fn below_home(path: Seq<char>) -> Seq<char> {
    path.subrange(1 + separators_from(path, 1) as int, path.len() as int)
}

/// `path` with a leading `~` replaced by `home`, where there is a home.
pub open spec fn expanded(path: Seq<char>, home: Option<Seq<char>>) -> Seq<char> {
    match home {
        Some(h) if in_home(path) => joined(h, below_home(path)),
        _ => path,
    }
}

proof fn lemma_separators_bound(path: Seq<char>, from: int)
    requires
        0 <= from <= path.len(),
    ensures
        from + separators_from(path, from) <= path.len(),
    decreases path.len() - from,
{
    if from < path.len() && path[from] == '/' {
        lemma_separators_bound(path, from + 1);
    }
}

/// Whether `path` starts at the root.
pub fn is_absolute(path: &str) -> (rooted: bool)
    ensures
        rooted == absolute(path@),
{
    !path.is_empty() && path.get_char(0) == '/'
}

/// `rel` below `base`.
pub fn join_path(base: &str, rel: &str) -> (path: String)
    ensures
        path@ == joined(base@, rel@),
{
    if is_absolute(rel) {
        return String::from_str(rel);
    }
    let mut path = String::from_str(base);
    let n = base.unicode_len();
    if n > 0 && base.get_char(n - 1) != '/' {
        proof {
            reveal_strlit("/");
            assert("/"@ =~= seq!['/']);
        }
        path.append("/");
    }
    path.append(rel);
    path
}

/// Whether the first component of `path` is `~`.
pub fn starts_in_home(path: &str) -> (tilde: bool)
    ensures
        tilde == in_home(path@),
{
    let n = path.unicode_len();
    n > 0 && path.get_char(0) == '~' && (n == 1 || path.get_char(1) == '/')
}

/// `path` below `home_dir` in place of its leading `~`; without a home the
/// path stays as it is.
pub fn do_expand(path: String, home_dir: Option<String>) -> (full: String)
    requires
        home_dir is Some ==> in_home(path@),
    ensures
        full@ == expanded(path@, crate::text::opt_text(home_dir)),
{
    if let Some(home) = home_dir {
        let chars = to_chars(path.as_str());
        let mut from: usize = 1;
        while from < chars.len() && chars[from] == '/'
            invariant
                1 <= from <= chars.len(),
                from + separators_from(chars@, from as int) == 1 + separators_from(chars@, 1),
            decreases chars.len() - from,
        {
            from += 1;
        }
        proof {
            lemma_separators_bound(chars@, 1);
        }
        join_path(home.as_str(), slice(path.as_str(), from, chars.len()))
    } else {
        path
    }
}

/// `dirs::home_dir`: the user's home directory as the system reports it, or
/// none where it reports none or one that is no text. Nothing is claimed of
/// the answer: it depends on the environment of the process.
#[verifier::external_body]
pub(crate) fn home_dir() -> (home: Option<String>) {
    dirs::home_dir().and_then(|p| p.to_str().map(|s| s.to_owned()))
}

/// `path` with a leading `~` replaced by `home`.
pub fn expand_with(path: String, home: Option<String>) -> (full: String)
    ensures
        full@ == expanded(path@, crate::text::opt_text(home)),
{
    if starts_in_home(path.as_str()) {
        do_expand(path, home)
    } else {
        path
    }
}

/// `path` with a leading `~` replaced by the user's home directory. A path
/// that does not begin with `~` comes back unchanged; one that does comes
/// back expanded against whatever home the system reports, or unchanged where
/// it reports none.
pub fn expand_path(path: String) -> (full: String)
    ensures
        !in_home(path@) ==> full@ == path@,
        exists|home: Option<Seq<char>>| full@ == expanded(path@, home),
{
    if starts_in_home(path.as_str()) {
        let home = home_dir();
        let ghost h = crate::text::opt_text(home);
        let full = do_expand(path, home);
        assert(full@ == expanded(path@, h));
        full
    } else {
        assert(path@ == expanded(path@, None));
        path
    }
}

/// `dirs::config_dir`: the directory in which programs keep their
/// configuration, as the system reports it. Nothing is claimed of the answer:
/// it depends on the environment of the process.
#[verifier::external_body]
fn os_config_dir() -> (dir: Option<String>) {
    dirs::config_dir().and_then(|p| p.to_str().map(|s| s.to_owned()))
}

/// What stands before the name of the settings file: the name of the
/// environment and `_`, without any `/`; nothing where no environment is
/// named.
pub open spec fn env_prefix(env_name: Option<Seq<char>>) -> Seq<char> {
    match env_name {
        Some(e) => replaced(e + "_"@, '/', Seq::empty()),
        None => Seq::empty(),
    }
}

/// The places of the configuration below `base`.
pub open spec fn paths_below(base: Seq<char>, env_name: Option<Seq<char>>) -> FwPathsView {
    FwPathsView {
        settings: joined(base, env_prefix(env_name) + "settings.toml"@),
        base,
        projects: joined(base, "projects"@),
        tags: joined(base, "tags"@),
    }
}

/// The places of the configuration below `base`: the settings file, whose
/// name begins with the name of the environment where one is named, and the
/// directories of the projects and of the tags.
pub fn paths_in(base: String, env_name: &Option<String>) -> (paths: FwPaths)
    ensures
        paths@ == paths_below(base@, opt_text(*env_name)),
{
    let mut file = match env_name {
        Some(e) => {
            let mut named = e.clone();
            named.append("_");
            proof {
                reveal_strlit("");
                assert(""@ =~= Seq::<char>::empty());
            }
            replace_char(named.as_str(), '/', "")
        },
        None => String::new(),
    };
    file.append("settings.toml");
    let settings = join_path(base.as_str(), file.as_str());
    let projects = join_path(base.as_str(), "projects");
    let tags = join_path(base.as_str(), "tags");
    FwPaths { settings, base, projects, tags }
}

/// The directory that `fw` is called in the system's configuration
/// directory.
pub open spec fn below_config_dir(dir: Seq<char>) -> Seq<char> {
    joined(dir, "fw"@)
}

/// The base directory of the configuration: the one that the user named,
/// with a leading `~` replaced by `home`, or else `fw` in the system's
/// configuration directory.
pub open spec fn base_dir(
    named: Option<Seq<char>>,
    home: Option<Seq<char>>,
    system: Option<Seq<char>>,
) -> Option<Seq<char>> {
    match named {
        Some(dir) => Some(expanded(dir, home)),
        None => match system {
            Some(dir) => Some(below_config_dir(dir)),
            None => None,
        },
    }
}

/// The base directory of the configuration.
pub fn base_from(named: Option<String>, home: Option<String>, system: Option<String>) -> (base:
    Option<String>)
    ensures
        opt_text(base) == base_dir(opt_text(named), opt_text(home), opt_text(system)),
{
    match named {
        Some(dir) => Some(expand_with(dir, home)),
        None => match system {
            Some(dir) => Some(join_path(dir.as_str(), "fw")),
            None => None,
        },
    }
}

/// Where the configuration lies. `config_dir` is the directory that the user
/// named in `FW_CONFIG_DIR`, `env_name` the environment named in `FW_ENV`.
/// Without a directory of the user's the configuration lies in `fw` below the
/// system's configuration directory; where the system knows none, the
/// configuration cannot be found.
pub fn fw_path(config_dir: Option<String>, env_name: Option<String>) -> (paths: Result<
    FwPaths,
    AppError,
>)
    ensures
        config_dir is Some ==> paths is Ok,
        match paths {
            Ok(p) => exists|home: Option<Seq<char>>, system: Option<Seq<char>>| #[trigger]
                base_dir(opt_text(config_dir), home, system) is Some && p@ == paths_below(
                    base_dir(opt_text(config_dir), home, system).unwrap(),
                    opt_text(env_name),
                ),
            Err(e) => e@ == crate::errors::ErrorView::InternalError(
                "Cannot resolve fw config dir"@,
            ),
        },
{
    let ghost named = opt_text(config_dir);
    let base = match config_dir {
        Some(dir) => {
            let full = expand_path(dir);
            proof {
                let home = choose|home: Option<Seq<char>>| full@ == expanded(dir@, home);
                assert(base_dir(named, home, None) == Some(full@));
            }
            full
        },
        None => match os_config_dir() {
            Some(dir) => {
                let below = join_path(dir.as_str(), "fw");
                assert(base_dir(named, None, Some(dir@)) == Some(below@));
                below
            },
            None => {
                return Err(AppError::InternalError("Cannot resolve fw config dir"));
            },
        },
    };
    let ghost b = base@;
    let paths = paths_in(base, &env_name);
    proof {
        let (home, system) = choose|home: Option<Seq<char>>, system: Option<Seq<char>>| #[trigger]
            base_dir(named, home, system) == Some(b);
        assert(base_dir(named, home, system) is Some && paths@ == paths_below(
            base_dir(named, home, system).unwrap(),
            opt_text(env_name),
        ));
    }
    Ok(paths)
}

} // verus!
