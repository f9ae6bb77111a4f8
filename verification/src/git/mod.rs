//! Names of repositories, and the rules by which one project is brought in
//! line with its configuration.

pub mod laws;
pub mod reconcile;

use vstd::prelude::*;
use vstd::string::*;
use crate::errors::AppError;
use crate::text::{ends_with, slice, to_chars};

verus! {

/// Where the last path fragment of `url` begins: behind its last `/`, or at
/// its start where it has none.
pub open spec fn fragment_start(url: Seq<char>) -> int
    decreases url.len(),
{
    if url.len() == 0 {
        0
    } else if url.last() == '/' {
        url.len() as int
    } else {
        fragment_start(url.drop_last())
    }
}

/// What follows the last `/` of `url`.
pub open spec fn last_fragment(url: Seq<char>) -> Seq<char> {
    url.subrange(fragment_start(url), url.len() as int)
}

/// The name of the repository at `url`: its last path fragment, without one
/// trailing `.git`.
pub open spec fn repo_name(url: Seq<char>) -> Seq<char> {
    let fragment = last_fragment(url);
    if ".git"@.is_suffix_of(fragment) {
        fragment.subrange(0, fragment.len() - 4)
    } else {
        fragment
    }
}

/// What follows the last `/` of `url`.
pub fn last_fragment_of(url: &str) -> (fragment: &str)
    ensures
        fragment@ == last_fragment(url@),
{
    let chars = to_chars(url);
    let mut start: usize = chars.len();
    assert(chars@.take(chars@.len() as int) =~= chars@);
    while start > 0 && chars[start - 1] != '/'
        invariant
            start <= chars.len(),
            chars@ == url@,
            fragment_start(chars@) == fragment_start(chars@.take(start as int)),
        decreases start,
    {
        proof {
            let upto = chars@.take(start as int);
            assert(upto.last() == chars@[start - 1]);
            assert(upto.drop_last() =~= chars@.take(start - 1));
        }
        start -= 1;
    }
    proof {
        let upto = chars@.take(start as int);
        if start > 0 {
            assert(upto.last() == chars@[start - 1]);
        }
        assert(fragment_start(chars@) == start);
    }
    slice(url, start, chars.len())
}

/// The name of the repository at `url`: what follows the last `/`, without
/// one trailing `.git`. A second `.git` before it stays, since
/// `test.git.git` is a legal repository name.
pub fn repo_name_from_url(url: &str) -> (name: Result<&str, AppError>)
    ensures
        name matches Ok(n) && n@ == repo_name(url@),
{
    let last_fragment = last_fragment_of(url);
    let n = last_fragment.unicode_len();
    Ok(
        if ends_with(last_fragment, ".git") {
            proof {
                reveal_strlit(".git");
            }
            slice(last_fragment, 0, n - 4)
        } else {
            last_fragment
        },
    )
}

/// Whether the address that a remote is stored with is to be written anew:
/// it is, unless it is the address that the project names for the remote. A
/// remote that is stored without an address gets one.
pub fn needs_new_url(stored: Option<&str>, wanted: &str) -> (rewrite: bool)
    ensures
        rewrite == (match stored {
            Some(url) => url@ != wanted@,
            None => true,
        }),
{
    match stored {
        Some(url) => !crate::text::str_eq(url, wanted),
        None => true,
    }
}

/// Whether the checked-out branch is moved to its upstream: only a branch
/// can be moved, only to an upstream that it has, and only where nothing of
/// its own stands in the way.
pub fn fast_forward_merge(head_is_branch: bool, has_upstream: bool, fast_forward_possible: bool) -> (moves:
    bool)
    ensures
        moves == (head_is_branch && has_upstream && fast_forward_possible),
{
    head_is_branch && has_upstream && fast_forward_possible
}

/// Where the part of `url` begins that may name a user: behind `://`, or
/// at the start where there is no such mark.
pub open spec fn authority_start(url: Seq<char>, from: int) -> int
    decreases url.len() - from,
{
    if from < 0 || from + 3 > url.len() {
        0
    } else if url[from] == ':' && url[from + 1] == '/' && url[from + 2] == '/' {
        from + 3
    } else {
        authority_start(url, from + 1)
    }
}

/// Where the name of the user ends, counted from `start`: at the first `@`
/// that comes before any `/` or `:`. None where a `/` or `:` or the end
/// comes first.
pub open spec fn user_end(url: Seq<char>, at: int) -> Option<int>
    decreases url.len() - at,
{
    if at < 0 || at >= url.len() {
        None
    } else if url[at] == '@' {
        Some(at)
    } else if url[at] == '/' || url[at] == ':' {
        None
    } else {
        user_end(url, at + 1)
    }
}

/// The user that `url` names: what stands before the `@` of its host, if
/// anything does.
pub open spec fn url_user(url: Seq<char>) -> Option<Seq<char>> {
    let start = authority_start(url, 0);
    match user_end(url, start) {
        Some(end) if end > start => Some(url.subrange(start, end)),
        _ => None,
    }
}

proof fn lemma_authority_bounds(url: Seq<char>, from: int)
    requires
        0 <= from,
    ensures
        0 <= authority_start(url, from) <= url.len(),
    decreases url.len() - from,
{
    if from + 3 <= url.len() && !(url[from] == ':' && url[from + 1] == '/' && url[from + 2] == '/') {
        lemma_authority_bounds(url, from + 1);
    }
}

/// The user that `url` names.
pub fn user_from_url(url: &str) -> (user: Option<&str>)
    ensures
        match user {
            Some(u) => url_user(url@) == Some(u@),
            None => url_user(url@) is None,
        },
{
    let chars = to_chars(url);
    let n = chars.len();
    let mut from: usize = 0;
    let mut start: usize = 0;
    let mut found = false;
    while !found && n >= 3 && from <= n - 3
        invariant
            n == chars.len(),
            chars@ == url@,
            !found ==> authority_start(chars@, 0) == authority_start(chars@, from as int),
            found ==> authority_start(chars@, 0) == start && start <= n,
            from <= n,
        decreases (if found { 0int } else { 1int }), n - from,
    {
        if chars[from] == ':' && chars[from + 1] == '/' && chars[from + 2] == '/' {
            start = from + 3;
            found = true;
        } else {
            from += 1;
        }
    }
    if !found {
        start = 0;
    }
    let mut at: usize = start;
    proof {
        lemma_authority_bounds(chars@, 0);
    }
    while at < n && chars[at] != '@' && chars[at] != '/' && chars[at] != ':'
        invariant
            start <= at <= n,
            n == chars.len(),
            chars@ == url@,
            user_end(chars@, start as int) == user_end(chars@, at as int),
        decreases n - at,
    {
        at += 1;
    }
    if at < n && chars[at] == '@' && at > start {
        Some(slice(url, start, at))
    } else {
        None
    }
}

/// The user as which the SSH agent is asked: the one that the URL names,
/// else the one of the environment, else `git`.
pub fn ssh_user(url: &str, from_environment: Option<String>) -> (user: String)
    ensures
        user@ == (match url_user(url@) {
            Some(u) => u,
            None => match from_environment {
                Some(e) => e@,
                None => "git"@,
            },
        }),
{
    match user_from_url(url) {
        Some(u) => String::from_str(u),
        None => match from_environment {
            Some(e) => e,
            None => String::from_str("git"),
        },
    }
}

} // verus!
