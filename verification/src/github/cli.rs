//! The GitHub command-line client (`gh`) as a last resort for reading a
//! repository: whether it may be used, the arguments it is run with, and
//! how its JSON records become database records.

use crate::db::models::{Issue, Milestone, PrReview, PullRequest};
use crate::text::push_str;
use vstd::prelude::*;

verus! {

/// What is known of the local `gh` installation.
pub struct GitHubCli {
    command_path: String,
    is_available: bool,
    is_authenticated: bool,
}

impl GitHubCli {
    /// `gh` could be run.
    pub closed spec fn available(&self) -> bool {
        self.is_available
    }

    /// `gh auth status` succeeded.
    pub closed spec fn authenticated(&self) -> bool {
        self.is_authenticated
    }

    /// The command that is run.
    pub closed spec fn command(&self) -> Seq<char> {
        self.command_path@
    }

    /// The client from what probing found: whether `<command> --version`
    /// could be run, and whether `<command> auth status` succeeded (only
    /// asked when the first did).
    pub fn from_probes(command_path: String, is_available: bool, auth_status_ok: bool) -> (r: GitHubCli)
        ensures
            r.command() == command_path@,
            r.available() == is_available,
            r.authenticated() == (is_available && auth_status_ok),
    {
        GitHubCli { command_path, is_available, is_authenticated: is_available && auth_status_ok }
    }

    /// The command to run.
    pub fn command_path(&self) -> (r: &str)
        ensures
            r@ == self.command(),
    {
        self.command_path.as_str()
    }

    /// Check if CLI is available and authenticated.
    pub fn check_auth(&self) -> (r: Result<bool, String>)
        ensures
            !self.available() ==> (r matches Err(m) && m@ == not_installed_message()),
            self.available() && !self.authenticated() ==> (r matches Err(m) && m@
                == not_authenticated_message()),
            self.available() && self.authenticated() ==> r == Ok::<bool, String>(true),
    {
        if !self.is_available {
            return Err(
                "GitHub CLI (gh) is not installed. Install from: https://cli.github.com".to_string(),
            );
        }
        if !self.is_authenticated {
            return Err("GitHub CLI is not authenticated. Run: gh auth login".to_string());
        }
        Ok(true)
    }
}

pub open spec fn not_installed_message() -> Seq<char> {
    "GitHub CLI (gh) is not installed. Install from: https://cli.github.com"@
}

pub open spec fn not_authenticated_message() -> Seq<char> {
    "GitHub CLI is not authenticated. Run: gh auth login"@
}

// ---------------------------------------------------------------------------
// Arguments
// ---------------------------------------------------------------------------

/// `owner/repo`.
pub open spec fn repo_slug_spec(owner: Seq<char>, repo: Seq<char>) -> Seq<char> {
    owner + "/"@ + repo
}

pub open spec fn issue_fields() -> Seq<char> {
    "number,title,body,state,author,assignees,milestone,createdAt,updatedAt,closedAt,labels"@
}

pub open spec fn pr_fields() -> Seq<char> {
    "number,title,body,state,author,createdAt,updatedAt,mergedAt,closedAt,additions,deletions,changedFiles,labels"@
}

/// The arguments of `gh issue list` or `gh pr list` for a repository:
/// all states, up to 1000 items, the given JSON fields.
pub open spec fn list_args_spec(kind: Seq<char>, owner: Seq<char>, repo: Seq<char>, fields: Seq<char>) -> Seq<
    Seq<char>,
> {
    seq![
        kind,
        "list"@,
        "--repo"@,
        repo_slug_spec(owner, repo),
        "--state"@,
        "all"@,
        "--limit"@,
        "1000"@,
        "--json"@,
        fields,
    ]
}

/// The views of a list of strings.
pub open spec fn arg_views(v: Seq<String>) -> Seq<Seq<char>> {
    v.map_values(|s: String| s@)
}

fn repo_slug(owner: &str, repo: &str) -> (r: String)
    ensures
        r@ == repo_slug_spec(owner@, repo@),
{
    let mut r = String::new();
    push_str(&mut r, owner);
    push_str(&mut r, "/");
    push_str(&mut r, repo);
    assert(r@ =~= repo_slug_spec(owner@, repo@));
    r
}

fn list_args(kind: &str, owner: &str, repo: &str, fields: &str) -> (r: Vec<String>)
    ensures
        arg_views(r@) == list_args_spec(kind@, owner@, repo@, fields@),
{
    let mut r: Vec<String> = Vec::new();
    r.push(kind.to_string());
    r.push("list".to_string());
    r.push("--repo".to_string());
    r.push(repo_slug(owner, repo));
    r.push("--state".to_string());
    r.push("all".to_string());
    r.push("--limit".to_string());
    r.push("1000".to_string());
    r.push("--json".to_string());
    r.push(fields.to_string());
    assert(arg_views(r@) =~= list_args_spec(kind@, owner@, repo@, fields@));
    r
}

/// Arguments listing a repository's issues.
pub fn issue_list_args(owner: &str, repo: &str) -> (r: Vec<String>)
    ensures
        arg_views(r@) == list_args_spec("issue"@, owner@, repo@, issue_fields()),
{
    list_args(
        "issue",
        owner,
        repo,
        "number,title,body,state,author,assignees,milestone,createdAt,updatedAt,closedAt,labels",
    )
}

/// Arguments listing a repository's pull requests.
pub fn pr_list_args(owner: &str, repo: &str) -> (r: Vec<String>)
    ensures
        arg_views(r@) == list_args_spec("pr"@, owner@, repo@, pr_fields()),
{
    list_args(
        "pr",
        owner,
        repo,
        "number,title,body,state,author,createdAt,updatedAt,mergedAt,closedAt,additions,deletions,changedFiles,labels",
    )
}

/// Arguments reading a repository's milestones through `gh api`, all pages.
pub fn milestones_api_args(owner: &str, repo: &str) -> (r: Vec<String>)
    ensures
        arg_views(r@) == seq!["api"@, "repos/"@ + owner@ + "/"@ + repo@ + "/milestones"@, "--paginate"@],
{
    let mut path = String::new();
    push_str(&mut path, "repos/");
    push_str(&mut path, owner);
    push_str(&mut path, "/");
    push_str(&mut path, repo);
    push_str(&mut path, "/milestones");
    let mut r: Vec<String> = Vec::new();
    r.push("api".to_string());
    r.push(path);
    r.push("--paginate".to_string());
    assert(arg_views(r@) =~= seq!["api"@, "repos/"@ + owner@ + "/"@ + repo@ + "/milestones"@, "--paginate"@]);
    r
}

// ---------------------------------------------------------------------------
// Records printed by `gh`
// ---------------------------------------------------------------------------

#[derive(Debug, Clone)]
pub struct CliIssue {
    pub number: i32,
    pub title: String,
    pub body: Option<String>,
    pub state: String,
    pub author: Option<CliUser>,
    pub assignees: Vec<CliUser>,
    pub milestone: Option<CliMilestoneRef>,
    pub created_at: String,
    pub updated_at: String,
    pub closed_at: Option<String>,
    pub labels: Vec<CliLabel>,
}

#[derive(Debug, Clone)]
pub struct CliPullRequest {
    pub number: i32,
    pub title: String,
    pub body: Option<String>,
    pub state: String,
    pub author: Option<CliUser>,
    pub created_at: String,
    pub updated_at: String,
    pub merged_at: Option<String>,
    pub closed_at: Option<String>,
    pub additions: i32,
    pub deletions: i32,
    pub changed_files: i32,
    pub labels: Vec<CliLabel>,
}

#[derive(Debug, Clone)]
pub struct CliMilestone {
    pub id: i64,
    pub title: String,
    pub description: Option<String>,
    pub state: String,
    pub due_on: Option<String>,
    pub open_issues: i32,
    pub closed_issues: i32,
}

#[derive(Debug, Clone)]
pub struct CliMilestoneRef {
    pub title: String,
}

#[derive(Debug, Clone)]
pub struct CliReview {
    pub id: i64,
    pub user: Option<CliUser>,
    pub state: String,
    pub submitted_at: String,
}

#[derive(Debug, Clone)]
pub struct CliUser {
    pub login: String,
}

#[derive(Debug, Clone)]
pub struct CliLabel {
    pub name: String,
}

pub open spec fn cli_label_names(labels: Seq<CliLabel>) -> Seq<String> {
    labels.map_values(|l: CliLabel| l.name)
}

fn label_names(labels: &Vec<CliLabel>) -> (r: Vec<String>)
    ensures
        r@ == cli_label_names(labels@),
{
    let mut r: Vec<String> = Vec::new();
    let mut i: usize = 0;
    while i < labels.len()
        invariant
            0 <= i <= labels@.len(),
            r@ == cli_label_names(labels@.take(i as int)),
        decreases labels@.len() - i,
    {
        r.push(labels[i].name.clone());
        assert(cli_label_names(labels@.take(i + 1)) =~= cli_label_names(labels@.take(i as int)).push(
            labels@[i as int].name,
        ));
        i = i + 1;
    }
    assert(labels@.take(labels@.len() as int) =~= labels@);
    r
}

/// An issue as `gh` lists it, as a database record: the number stands in
/// for the GitHub id, and the ids of the repository, author, assignee and
/// milestone are left for the caller to resolve.
pub open spec fn issue_from_cli_spec(c: CliIssue, i: Issue) -> bool {
    &&& i.id == 0
    &&& i.github_id == c.number as i64
    &&& i.repo_id == 0
    &&& i.number == c.number
    &&& i.title == c.title
    &&& i.body == c.body
    &&& i.state == c.state
    &&& i.author_id is None
    &&& i.assignee_id is None
    &&& i.milestone_id is None
    &&& i.created_at == c.created_at
    &&& i.updated_at == c.updated_at
    &&& i.sync_updated_at == Some(c.updated_at)
    &&& i.closed_at == c.closed_at
    &&& i.labels@ == cli_label_names(c.labels@)
}

pub fn issue_from_cli(c: CliIssue) -> (i: Issue)
    ensures
        issue_from_cli_spec(c, i),
{
    let labels = label_names(&c.labels);
    Issue {
        id: 0,
        github_id: c.number as i64,
        repo_id: 0,
        number: c.number,
        title: c.title,
        body: c.body,
        state: c.state,
        author_id: None,
        assignee_id: None,
        milestone_id: None,
        created_at: c.created_at.clone(),
        updated_at: c.updated_at.clone(),
        sync_updated_at: Some(c.updated_at),
        closed_at: c.closed_at,
        labels,
    }
}

/// A pull request as `gh` lists it, as a database record (ids left to
/// resolve as for issues, no review comments counted).
pub open spec fn pr_from_cli_spec(c: CliPullRequest, p: PullRequest) -> bool {
    &&& p.id == 0
    &&& p.github_id == c.number as i64
    &&& p.repo_id == 0
    &&& p.number == c.number
    &&& p.title == c.title
    &&& p.body == c.body
    &&& p.state == c.state
    &&& p.author_id is None
    &&& p.created_at == c.created_at
    &&& p.updated_at == c.updated_at
    &&& p.sync_updated_at == Some(c.updated_at)
    &&& p.merged_at == c.merged_at
    &&& p.closed_at == c.closed_at
    &&& p.additions == c.additions
    &&& p.deletions == c.deletions
    &&& p.changed_files == c.changed_files
    &&& p.review_comments == 0
    &&& p.labels@ == cli_label_names(c.labels@)
}

/// The record and the author's login, if `gh` gave one.
pub fn pr_from_cli(c: CliPullRequest) -> (r: (PullRequest, Option<String>))
    ensures
        pr_from_cli_spec(c, r.0),
        r.1 == (match c.author {
            Some(a) => Some(a.login),
            None => None::<String>,
        }),
{
    let labels = label_names(&c.labels);
    let author_login = match &c.author {
        Some(a) => Some(a.login.clone()),
        None => None,
    };
    let pr = PullRequest {
        id: 0,
        github_id: c.number as i64,
        repo_id: 0,
        number: c.number,
        title: c.title,
        body: c.body,
        state: c.state,
        author_id: None,
        created_at: c.created_at.clone(),
        updated_at: c.updated_at.clone(),
        sync_updated_at: Some(c.updated_at),
        merged_at: c.merged_at,
        closed_at: c.closed_at,
        additions: c.additions,
        deletions: c.deletions,
        changed_files: c.changed_files,
        review_comments: 0,
        labels,
    };
    (pr, author_login)
}

pub open spec fn milestone_from_cli_spec(c: CliMilestone, m: Milestone) -> bool {
    &&& m.id == 0
    &&& m.github_id == c.id
    &&& m.repo_id == 0
    &&& m.title == c.title
    &&& m.description == c.description
    &&& m.state == c.state
    &&& m.due_on == c.due_on
    &&& m.open_issues == c.open_issues
    &&& m.closed_issues == c.closed_issues
}

pub fn milestone_from_cli(c: CliMilestone) -> (m: Milestone)
    ensures
        milestone_from_cli_spec(c, m),
{
    Milestone {
        id: 0,
        github_id: c.id,
        repo_id: 0,
        title: c.title,
        description: c.description,
        state: c.state,
        due_on: c.due_on,
        open_issues: c.open_issues,
        closed_issues: c.closed_issues,
    }
}

pub open spec fn review_from_cli_spec(c: CliReview, r: PrReview) -> bool {
    &&& r.id == 0
    &&& r.github_id == c.id
    &&& r.pr_id == 0
    &&& r.reviewer_id is None
    &&& r.state == c.state
    &&& r.submitted_at == c.submitted_at
    &&& r.sync_updated_at == Some(c.submitted_at)
}

pub fn review_from_cli(c: CliReview) -> (r: PrReview)
    ensures
        review_from_cli_spec(c, r),
{
    PrReview {
        id: 0,
        github_id: c.id,
        pr_id: 0,
        reviewer_id: None,
        state: c.state.clone(),
        submitted_at: c.submitted_at.clone(),
        sync_updated_at: Some(c.submitted_at),
    }
}

} // verus!
