//! Sync of one tracked user's activity through the GitHub search API: the
//! search and detail addresses, when to read another page, and how a
//! detail reply becomes a record.

use crate::db::models::{Issue, PullRequest};
use crate::github::sync::{IssueUpsert, PrUpsert, UserRef};
use crate::text::{decimal_text, push_decimal_i64, push_str};
use vstd::prelude::*;

verus! {

/// The account fields of a detail reply that the sync reads: each is
/// `None` when missing or not of the expected JSON type.
#[derive(Debug, Clone)]
pub struct SearchAccount {
    pub id: Option<i64>,
    pub login: Option<String>,
}

/// The fields of an issue or pull request detail reply that the sync reads,
/// each `None` when missing or not of the expected JSON type.
#[derive(Debug, Clone)]
pub struct SearchItemDetail {
    pub id: Option<i64>,
    pub title: Option<String>,
    pub body: Option<String>,
    pub state: Option<String>,
    /// `None` when the field is not a JSON object.
    pub user: Option<SearchAccount>,
    pub assignee: Option<SearchAccount>,
    pub created_at: Option<String>,
    pub updated_at: Option<String>,
    pub merged_at: Option<String>,
    pub closed_at: Option<String>,
    pub additions: Option<i64>,
    pub deletions: Option<i64>,
    pub changed_files: Option<i64>,
    /// `None` when not an array; one entry per label, `None` when its name
    /// is not a string.
    pub labels: Option<Vec<Option<String>>>,
    /// The reply has a `pull_request` field.
    pub has_pull_request: bool,
}

/// What kind of item a search asks for.
#[derive(Debug, Clone, Copy, PartialEq, Eq, Structural)]
pub enum SearchKind {
    PullRequest,
    Issue,
}

pub open spec fn kind_word(kind: SearchKind) -> Seq<char> {
    match kind {
        SearchKind::PullRequest => "pr"@,
        SearchKind::Issue => "issue"@,
    }
}

/// Items of `kind` by `username` in `owner/name` created since `since`,
/// page `page` of 100.
pub open spec fn search_url_spec(
    kind: SearchKind,
    username: Seq<char>,
    owner: Seq<char>,
    name: Seq<char>,
    since: Seq<char>,
    page: int,
) -> Seq<char> {
    "https://api.github.com/search/issues?q=type:"@ + kind_word(kind) + "+author:"@ + username + "+repo:"@
        + owner + "/"@ + name + "+created:>="@ + since + "&per_page=100&page="@ + decimal_text(page)
}

pub fn search_url(kind: SearchKind, username: &str, owner: &str, name: &str, since: &str, page: i32) -> (r: String)
    ensures
        r@ == search_url_spec(kind, username@, owner@, name@, since@, page as int),
{
    let mut r = String::new();
    push_str(&mut r, "https://api.github.com/search/issues?q=type:");
    match kind {
        SearchKind::PullRequest => push_str(&mut r, "pr"),
        SearchKind::Issue => push_str(&mut r, "issue"),
    }
    push_str(&mut r, "+author:");
    push_str(&mut r, username);
    push_str(&mut r, "+repo:");
    push_str(&mut r, owner);
    push_str(&mut r, "/");
    push_str(&mut r, name);
    push_str(&mut r, "+created:>=");
    push_str(&mut r, since);
    push_str(&mut r, "&per_page=100&page=");
    push_decimal_i64(&mut r, page as i64);
    assert(r@ =~= search_url_spec(kind, username@, owner@, name@, since@, page as int));
    r
}

/// The detail of item `number`: `pulls/<n>` for a pull request,
/// `issues/<n>` for an issue.
pub open spec fn detail_url_spec(kind: SearchKind, owner: Seq<char>, name: Seq<char>, number: int) -> Seq<char> {
    "https://api.github.com/repos/"@ + owner + "/"@ + name + (match kind {
        SearchKind::PullRequest => "/pulls/"@,
        SearchKind::Issue => "/issues/"@,
    }) + decimal_text(number)
}

pub fn detail_url(kind: SearchKind, owner: &str, name: &str, number: i64) -> (r: String)
    ensures
        r@ == detail_url_spec(kind, owner@, name@, number as int),
{
    let mut r = String::new();
    push_str(&mut r, "https://api.github.com/repos/");
    push_str(&mut r, owner);
    push_str(&mut r, "/");
    push_str(&mut r, name);
    match kind {
        SearchKind::PullRequest => push_str(&mut r, "/pulls/"),
        SearchKind::Issue => push_str(&mut r, "/issues/"),
    }
    push_decimal_i64(&mut r, number);
    assert(r@ =~= detail_url_spec(kind, owner@, name@, number as int));
    r
}

/// Whether to read the page after `page`: only while the pages read so far
/// (100 items each) fall short of the reported total (taken as 0 when
/// missing, and as an `i32`).
pub open spec fn more_pages_spec(page: i32, total_count: Option<i64>) -> bool {
    let total: i64 = match total_count {
        Some(t) => t,
        None => 0,
    };
    !(page * 100 >= total as i32)
}

pub fn more_pages(page: i32, total_count: Option<i64>) -> (more: bool)
    requires
        page * 100 <= i32::MAX,
        page * 100 >= i32::MIN,
    ensures
        more == more_pages_spec(page, total_count),
{
    let total: i64 = match total_count {
        Some(t) => t,
        None => 0,
    };
    !(page * 100 >= total as i32)
}

pub open spec fn text_or(t: Option<String>, d: Seq<char>) -> Seq<char> {
    match t {
        Some(s) => s@,
        None => d,
    }
}

pub open spec fn opt_text(t: Option<String>) -> Option<Seq<char>> {
    match t {
        Some(s) => Some(s@),
        None => None,
    }
}

pub open spec fn int_or_zero(v: Option<i64>) -> i64 {
    match v {
        Some(x) => x,
        None => 0,
    }
}

/// The account to find or create: only when the reply has an id; a missing
/// login reads as empty.
pub open spec fn account_ref(a: Option<SearchAccount>) -> Option<(i64, Seq<char>)> {
    match a {
        Some(acc) => match acc.id {
            Some(id) => Some((id, text_or(acc.login, ""@))),
            None => None,
        },
        None => None,
    }
}

pub open spec fn ref_view(r: Option<UserRef>) -> Option<(i64, Seq<char>)> {
    match r {
        Some(u) => Some((u.github_id, u.login@)),
        None => None,
    }
}

/// The label names that are strings, in order; none when `labels` is not
/// an array.
pub open spec fn present_labels(labels: Option<Vec<Option<String>>>) -> Seq<Seq<char>> {
    match labels {
        Some(v) => v@.filter_map(|l: Option<String>| opt_text(l)),
        None => Seq::empty(),
    }
}

pub open spec fn views(v: Seq<String>) -> Seq<Seq<char>> {
    v.map_values(|s: String| s@)
}

fn text_or_default(t: &Option<String>, d: &str) -> (r: String)
    ensures
        r@ == text_or(*t, d@),
{
    match t {
        Some(s) => s.clone(),
        None => d.to_string(),
    }
}

fn clone_opt(t: &Option<String>) -> (r: Option<String>)
    ensures
        opt_text(r) == opt_text(*t),
{
    match t {
        Some(s) => Some(s.clone()),
        None => None,
    }
}

fn account(a: &Option<SearchAccount>) -> (r: Option<UserRef>)
    ensures
        ref_view(r) == account_ref(*a),
{
    match a {
        Some(acc) => match acc.id {
            Some(id) => Some(UserRef { github_id: id, login: text_or_default(&acc.login, "") }),
            None => None,
        },
        None => None,
    }
}

fn labels_of(labels: &Option<Vec<Option<String>>>) -> (r: Vec<String>)
    ensures
        views(r@) == present_labels(*labels),
{
    let mut r: Vec<String> = Vec::new();
    match labels {
        None => {
            assert(views(r@) =~= Seq::<Seq<char>>::empty());
        },
        Some(v) => {
            let mut i: usize = 0;
            while i < v.len()
                invariant
                    0 <= i <= v@.len(),
                    views(r@) == v@.take(i as int).filter_map(|l: Option<String>| opt_text(l)),
                decreases v@.len() - i,
            {
                proof {
                    v@.lemma_filter_map_take_succ(|l: Option<String>| opt_text(l), i as int);
                }
                match &v[i] {
                    Some(name) => {
                        r.push(name.clone());
                    },
                    None => {},
                }
                assert(views(r@) =~= v@.take(i + 1).filter_map(|l: Option<String>| opt_text(l)));
                i = i + 1;
            }
            assert(v@.take(v@.len() as int) =~= v@);
        },
    }
    r
}

/// The record stored for a pull request found by search: missing texts
/// read as empty (the state as `open`), missing counts as 0, counts and
/// the number taken as `i32`.
pub open spec fn search_pr_spec(d: SearchItemDetail, number: i64, repo_id: i64, u: PrUpsert) -> bool {
    &&& u.pr.id == 0
    &&& u.pr.github_id == int_or_zero(d.id)
    &&& u.pr.repo_id == repo_id
    &&& u.pr.number == number as i32
    &&& u.pr.title@ == text_or(d.title, ""@)
    &&& opt_text(u.pr.body) == opt_text(d.body)
    &&& u.pr.state@ == text_or(d.state, "open"@)
    &&& u.pr.author_id is None
    &&& u.pr.created_at@ == text_or(d.created_at, ""@)
    &&& u.pr.updated_at@ == text_or(d.updated_at, ""@)
    &&& opt_text(u.pr.sync_updated_at) == Some(text_or(d.updated_at, ""@))
    &&& opt_text(u.pr.merged_at) == opt_text(d.merged_at)
    &&& opt_text(u.pr.closed_at) == opt_text(d.closed_at)
    &&& u.pr.additions == int_or_zero(d.additions) as i32
    &&& u.pr.deletions == int_or_zero(d.deletions) as i32
    &&& u.pr.changed_files == int_or_zero(d.changed_files) as i32
    &&& u.pr.review_comments == 0
    &&& views(u.pr.labels@) == present_labels(d.labels)
    &&& ref_view(u.author) == account_ref(d.user)
    &&& u.reviews@.len() == 0
}

pub fn plan_search_pr(d: &SearchItemDetail, number: i64, repo_id: i64) -> (u: PrUpsert)
    ensures
        search_pr_spec(*d, number, repo_id, u),
{
    let updated = text_or_default(&d.updated_at, "");
    let pr = PullRequest {
        id: 0,
        github_id: match d.id { Some(v) => v, None => 0 },
        repo_id,
        number: number as i32,
        title: text_or_default(&d.title, ""),
        body: clone_opt(&d.body),
        state: text_or_default(&d.state, "open"),
        author_id: None,
        created_at: text_or_default(&d.created_at, ""),
        updated_at: updated.clone(),
        sync_updated_at: Some(updated),
        merged_at: clone_opt(&d.merged_at),
        closed_at: clone_opt(&d.closed_at),
        additions: (match d.additions { Some(v) => v, None => 0 }) as i32,
        deletions: (match d.deletions { Some(v) => v, None => 0 }) as i32,
        changed_files: (match d.changed_files { Some(v) => v, None => 0 }) as i32,
        review_comments: 0,
        labels: labels_of(&d.labels),
    };
    PrUpsert { pr, author: account(&d.user), reviews: Vec::new() }
}

/// The record stored for an issue found by search; a reply that is a pull
/// request is skipped. No milestone is resolved.
pub open spec fn search_issue_spec(d: SearchItemDetail, number: i64, repo_id: i64, r: Option<IssueUpsert>) -> bool {
    if d.has_pull_request {
        r is None
    } else {
        r matches Some(u) && {
            &&& u.issue.id == 0
            &&& u.issue.github_id == int_or_zero(d.id)
            &&& u.issue.repo_id == repo_id
            &&& u.issue.number == number as i32
            &&& u.issue.title@ == text_or(d.title, ""@)
            &&& opt_text(u.issue.body) == opt_text(d.body)
            &&& u.issue.state@ == text_or(d.state, "open"@)
            &&& u.issue.author_id is None
            &&& u.issue.assignee_id is None
            &&& u.issue.milestone_id is None
            &&& u.issue.created_at@ == text_or(d.created_at, ""@)
            &&& u.issue.updated_at@ == text_or(d.updated_at, ""@)
            &&& opt_text(u.issue.sync_updated_at) == Some(text_or(d.updated_at, ""@))
            &&& opt_text(u.issue.closed_at) == opt_text(d.closed_at)
            &&& views(u.issue.labels@) == present_labels(d.labels)
            &&& ref_view(u.author) == account_ref(d.user)
            &&& ref_view(u.assignee) == account_ref(d.assignee)
            &&& u.milestone_ref is None
        }
    }
}

pub fn plan_search_issue(d: &SearchItemDetail, number: i64, repo_id: i64) -> (r: Option<IssueUpsert>)
    ensures
        search_issue_spec(*d, number, repo_id, r),
{
    if d.has_pull_request {
        return None;
    }
    let updated = text_or_default(&d.updated_at, "");
    let issue = Issue {
        id: 0,
        github_id: match d.id { Some(v) => v, None => 0 },
        repo_id,
        number: number as i32,
        title: text_or_default(&d.title, ""),
        body: clone_opt(&d.body),
        state: text_or_default(&d.state, "open"),
        author_id: None,
        assignee_id: None,
        milestone_id: None,
        created_at: text_or_default(&d.created_at, ""),
        updated_at: updated.clone(),
        sync_updated_at: Some(updated),
        closed_at: clone_opt(&d.closed_at),
        labels: labels_of(&d.labels),
    };
    Some(IssueUpsert { issue, author: account(&d.user), assignee: account(&d.assignee), milestone_ref: None })
}

} // verus!
