//! Asking GitHub for the repositories of an organisation, page by page.

use vstd::prelude::*;
use vstd::string::*;
use crate::errors::{AppError, ErrorView};
use crate::text::{clone_list, concat3, opt_text, replace_char, replaced};

verus! {

/// `query` as it stands in a request: line feeds and double quotes are
/// escaped.
pub open spec fn escaped(query: Seq<char>) -> Seq<char> {
    replaced(replaced(query, '\n', "\\n"@), '"', "\\\""@)
}

/// The body of the request that asks `query`.
pub open spec fn request_text(query: Seq<char>) -> Seq<char> {
    "{ \"query\": \""@ + escaped(query) + "\" }"@
}

/// The body of the request that asks `query`.
pub fn request_body(query: &str) -> (body: String)
    ensures
        body@ == request_text(query@),
{
    let lines = replace_char(query, '\n', "\\n");
    let quotes = replace_char(lines.as_str(), '"', "\\\"");
    concat3("{ \"query\": \"", quotes.as_str(), "\" }")
}

/// The value of the header that carries `token`.
pub fn authorization(token: &str) -> (value: String)
    ensures
        value@ == "token "@ + token@,
{
    let mut value = String::from_str("token ");
    value.append(token);
    value
}

/// The part of a query that says where a page begins.
pub open spec fn after_text(after: Option<Seq<char>>) -> Seq<char> {
    match after {
        Some(a) => ", after:\""@ + a + "\""@,
        None => Seq::empty(),
    }
}

/// The query for one page of the repositories of `org`, from the start or
/// from behind the cursor `after`.
pub open spec fn page_query(org: Seq<char>, after: Option<Seq<char>>) -> Seq<char> {
    "query {organization(login: \""@ + org + "\"){repositories(first: 100"@ + after_text(after)
        + ") {nodes {name, isArchived} pageInfo {endCursor hasNextPage}}}}"@
}

/// The query for one page of the repositories of `org`.
pub fn organization_query(org: &str, after: &Option<String>) -> (query: String)
    ensures
        query@ == page_query(org@, opt_text(*after)),
{
    let mut query = String::from_str("query {organization(login: \"");
    query.append(org);
    query.append("\"){repositories(first: 100");
    let ghost before = query@;
    if let Some(a) = after {
        query.append(", after:\"");
        query.append(a.as_str());
        query.append("\"");
        assert(query@ =~= before + after_text(Some(a@)));
    } else {
        assert(query@ =~= before + after_text(None));
    }
    query.append(") {nodes {name, isArchived} pageInfo {endCursor hasNextPage}}}}");
    query
}

/// What GitHub answered, as far as it counts: whether the request was
/// served, and if not, the status in words.
pub fn check_status(success: bool, status: &str) -> (result: Result<(), AppError>)
    ensures
        success ==> result is Ok,
        !success ==> (result matches Err(e) && e@ == ErrorView::RuntimeError(
            "Bad status from github "@ + status@,
        )),
{
    if success {
        Ok(())
    } else {
        let mut text = String::from_str("Bad status from github ");
        text.append(status);
        Err(AppError::RuntimeError(text))
    }
}

/// A repository as GitHub describes it.
#[derive(Debug, PartialEq, Eq)]
pub struct Repository {
    pub name: String,
    pub is_archived: bool,
}

/// One page of repositories.
#[derive(Debug, PartialEq, Eq)]
pub struct PageResult {
    pub repository_names: Vec<String>,
    pub next_cursor: Option<String>,
}

/// The names of those of `nodes` that count: all, or those that are not
/// archived.
pub open spec fn counted(nodes: Seq<Repository>, include_archived: bool) -> Seq<Seq<char>>
    decreases nodes.len(),
{
    if nodes.len() == 0 {
        Seq::empty()
    } else if include_archived || !nodes.last().is_archived {
        counted(nodes.drop_last(), include_archived).push(nodes.last().name@)
    } else {
        counted(nodes.drop_last(), include_archived)
    }
}

/// One page as it counts: the names of its repositories, without the
/// archived ones unless they are wanted, and the cursor behind which the
/// next page begins, if there is a next page.
pub fn page_repositories(
    nodes: &Vec<Repository>,
    end_cursor: String,
    has_next_page: bool,
    include_archived: bool,
) -> (page: PageResult)
    ensures
        page.repository_names.deep_view() == counted(nodes@, include_archived),
        opt_text(page.next_cursor) == (if has_next_page {
            Some(end_cursor@)
        } else {
            None
        }),
{
    let mut names: Vec<String> = Vec::new();
    let mut i: usize = 0;
    assert(nodes@.take(0) =~= Seq::<Repository>::empty());
    assert(names.deep_view() =~= Seq::<Seq<char>>::empty());
    while i < nodes.len()
        invariant
            i <= nodes.len(),
            names.deep_view() == counted(nodes@.take(i as int), include_archived),
        decreases nodes.len() - i,
    {
        proof {
            assert(nodes@.take(i + 1).drop_last() =~= nodes@.take(i as int));
            assert(nodes@.take(i + 1).last() == nodes@[i as int]);
        }
        if include_archived || !nodes[i].is_archived {
            let ghost before = names.deep_view();
            names.push(nodes[i].name.clone());
            assert(names.deep_view() =~= before.push(nodes@[i as int].name@));
        }
        i += 1;
    }
    assert(nodes@.take(nodes@.len() as int) =~= nodes@);
    PageResult {
        repository_names: names,
        next_cursor: if has_next_page {
            Some(end_cursor)
        } else {
            None
        },
    }
}

/// The repositories of an organisation as far as they are known: the names
/// of the pages that were read, and where to read on.
#[derive(Debug)]
pub struct GithubApi {
    pub token: String,
    pub names: Vec<String>,
    pub next: Option<String>,
    pub started: bool,
}

/// A listing for the holder of `token`, of which nothing has been read.
pub fn github_api(token: &str) -> (api: Result<GithubApi, AppError>)
    ensures
        api matches Ok(a) && a.token@ == token@ && a.names@.len() == 0 && a.next is None
            && !a.started,
{
    Ok(
        GithubApi {
            token: String::from_str(token),
            names: Vec::new(),
            next: None,
            started: false,
        },
    )
}

impl GithubApi {
    /// Whether a page is still to be read: the first one, or the one behind
    /// the cursor of the last.
    pub open spec fn unfinished(&self) -> bool {
        !self.started || self.next is Some
    }

    /// The query for the next page of the repositories of `org`; none when
    /// the last page has been read.
    pub fn next_query(&self, org: &str) -> (query: Option<String>)
        ensures
            match query {
                Some(q) => self.unfinished() && q@ == page_query(org@, opt_text(self.next)),
                None => !self.unfinished(),
            },
    {
        if !self.started || self.next.is_some() {
            Some(organization_query(org, &self.next))
        } else {
            None
        }
    }

    /// Takes in a page that was read: its names follow those that are
    /// known, and its cursor says where to read on.
    pub fn accept(&mut self, page: PageResult)
        ensures
            final(self).names.deep_view() == old(self).names.deep_view()
                + page.repository_names.deep_view(),
            opt_text(final(self).next) == opt_text(page.next_cursor),
            final(self).started,
            final(self).token == old(self).token,
    {
        let ghost before = self.names.deep_view();
        let mut i: usize = 0;
        let names = page.repository_names;
        while i < names.len()
            invariant
                i <= names.len(),
                self.token == old(self).token,
                self.names.deep_view() == before + names.deep_view().take(i as int),
            decreases names.len() - i,
        {
            let ghost sofar = self.names.deep_view();
            self.names.push(names[i].clone());
            assert(self.names.deep_view() =~= sofar.push(names@[i as int]@));
            assert(names.deep_view().take(i + 1) =~= names.deep_view().take(i as int).push(
                names@[i as int]@,
            ));
            i += 1;
        }
        assert(names.deep_view().take(names.len() as int) =~= names.deep_view());
        self.next = page.next_cursor;
        self.started = true;
    }

    /// The names of all repositories that were read.
    pub fn list_repositories(&self) -> (names: Vec<String>)
        ensures
            names.deep_view() == self.names.deep_view(),
    {
        clone_list(&self.names)
    }
}

} // verus!
