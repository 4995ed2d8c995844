//! GitHub REST API, used when the GraphQL API refuses a repository: the
//! reply shapes, the request paths and when to ask for another page.

use crate::text::{decimal_text, push_decimal_i64, push_str};
use vstd::prelude::*;

verus! {

#[derive(Debug, Clone)]
pub struct RestIssue {
    pub id: i64,
    pub number: i32,
    pub title: String,
    pub body: Option<String>,
    pub state: String,
    pub user: Option<RestUser>,
    pub assignee: Option<RestUser>,
    pub milestone: Option<RestMilestone>,
    pub labels: Vec<RestLabel>,
    pub created_at: String,
    pub updated_at: String,
    pub closed_at: Option<String>,
    pub pull_request: Option<RestPullRequestRef>,
}

#[derive(Debug, Clone)]
pub struct RestPullRequest {
    pub id: i64,
    pub number: i32,
    pub title: String,
    pub body: Option<String>,
    pub state: String,
    pub user: Option<RestUser>,
    pub labels: Vec<RestLabel>,
    pub created_at: String,
    pub updated_at: String,
    pub merged_at: Option<String>,
    pub closed_at: Option<String>,
    pub additions: Option<i32>,
    pub deletions: Option<i32>,
    pub changed_files: Option<i32>,
}

#[derive(Debug, Clone)]
pub struct RestMilestone {
    pub id: i64,
    pub number: i32,
    pub title: String,
    pub description: Option<String>,
    pub state: String,
    pub due_on: Option<String>,
    pub open_issues: i32,
    pub closed_issues: i32,
}

#[derive(Debug, Clone)]
pub struct RestUser {
    pub id: i64,
    pub login: String,
}

#[derive(Debug, Clone)]
pub struct RestLabel {
    pub name: String,
}

#[derive(Debug, Clone)]
pub struct RestPullRequestRef {
    pub url: String,
}

/// Items per page asked of the REST API.
pub const REST_PAGE_SIZE: usize = 100;

/// The address of the API.
pub open spec fn api_base() -> Seq<char> {
    "https://api.github.com"@
}

/// The page of issues (of all states, updated since `since`) at `page`.
pub open spec fn issues_url_spec(owner: Seq<char>, repo: Seq<char>, since: Seq<char>, page: int) -> Seq<char> {
    api_base() + "/repos/"@ + owner + "/"@ + repo + "/issues?state=all&since="@ + since
        + "&per_page=100&page="@ + decimal_text(page)
}

/// The page of pull requests (of all states) at `page`.
pub open spec fn pulls_url_spec(owner: Seq<char>, repo: Seq<char>, page: int) -> Seq<char> {
    api_base() + "/repos/"@ + owner + "/"@ + repo + "/pulls?state=all&per_page=100&page="@ + decimal_text(page)
}

/// The milestones (of all states, up to 100).
pub open spec fn milestones_url_spec(owner: Seq<char>, repo: Seq<char>) -> Seq<char> {
    api_base() + "/repos/"@ + owner + "/"@ + repo + "/milestones?state=all&per_page=100"@
}

fn push_repo_path(s: &mut String, owner: &str, repo: &str)
    ensures
        final(s)@ == old(s)@ + api_base() + "/repos/"@ + owner@ + "/"@ + repo@,
{
    push_str(s, "https://api.github.com");
    push_str(s, "/repos/");
    push_str(s, owner);
    push_str(s, "/");
    push_str(s, repo);
}

pub fn issues_url(owner: &str, repo: &str, since: &str, page: i32) -> (r: String)
    ensures
        r@ == issues_url_spec(owner@, repo@, since@, page as int),
{
    let mut r = String::new();
    push_repo_path(&mut r, owner, repo);
    push_str(&mut r, "/issues?state=all&since=");
    push_str(&mut r, since);
    push_str(&mut r, "&per_page=100&page=");
    push_decimal_i64(&mut r, page as i64);
    assert(r@ =~= issues_url_spec(owner@, repo@, since@, page as int));
    r
}

pub fn pulls_url(owner: &str, repo: &str, page: i32) -> (r: String)
    ensures
        r@ == pulls_url_spec(owner@, repo@, page as int),
{
    let mut r = String::new();
    push_repo_path(&mut r, owner, repo);
    push_str(&mut r, "/pulls?state=all&per_page=100&page=");
    push_decimal_i64(&mut r, page as i64);
    assert(r@ =~= pulls_url_spec(owner@, repo@, page as int));
    r
}

pub fn milestones_url(owner: &str, repo: &str) -> (r: String)
    ensures
        r@ == milestones_url_spec(owner@, repo@),
{
    let mut r = String::new();
    push_repo_path(&mut r, owner, repo);
    push_str(&mut r, "/milestones?state=all&per_page=100");
    assert(r@ =~= milestones_url_spec(owner@, repo@));
    r
}

/// Adds a fetched page to what was collected. Returns the next page to ask
/// for, or `None` to stop: an empty page ends the walk, and so does a total
/// that is no longer a whole number of full pages.
pub fn absorb_page<T>(all: &mut Vec<T>, page_items: Vec<T>, page: i32) -> (next: Option<i32>)
    requires
        page < i32::MAX,
    ensures
        page_items@.len() == 0 ==> final(all)@ == old(all)@ && next is None,
        page_items@.len() > 0 ==> final(all)@ == old(all)@ + page_items@ && next == (if final(all)@.len()
            % (REST_PAGE_SIZE as nat) != 0 {
            None
        } else {
            Some((page + 1) as i32)
        }),
{
    if page_items.len() == 0 {
        return None;
    }
    let mut items = page_items;
    let ghost before = all@;
    let ghost added = items@;
    all.append(&mut items);
    assert(all@ =~= before + added);
    if all.len() % REST_PAGE_SIZE != 0 {
        None
    } else {
        Some(page + 1)
    }
}

} // verus!
