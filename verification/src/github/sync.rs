//! Synchronisation of a repository: which source to read (GraphQL, then
//! REST, then the `gh` client), and how the items read become database
//! records — bot authors left out, user references kept for resolution.

use crate::db::models::{Issue, Milestone, PrReview, PullRequest};
use crate::db::queries::{is_bot_spec, is_bot_user, utf8_views};
use crate::github::graphql::{Actor, IssueNode, LabelNode, MilestoneNode, PullRequestNode, ReviewNode};
use crate::github::rest_api::{RestIssue, RestLabel, RestMilestone, RestPullRequest, RestUser};
use vstd::prelude::*;
use vstd::utf8::encode_utf8;

verus! {

/// Progress reported while syncing.
#[derive(Debug, Clone)]
pub struct SyncProgress {
    pub phase: String,
    pub current: usize,
    pub total: usize,
    pub message: String,
}

// ---------------------------------------------------------------------------
// Choice of source
// ---------------------------------------------------------------------------

/// Where repository data is read from, in the order they are tried.
#[derive(Debug, Clone, Copy, PartialEq, Eq, Structural)]
pub enum SyncSource {
    GraphQl,
    Rest,
    Cli,
}

/// How reading from a source went.
#[derive(Debug, Clone, Copy, PartialEq, Eq, Structural)]
pub enum SourceOutcome {
    /// Everything was read and stored.
    Succeeded,
    /// The GraphQL API refused the repository for SAML single sign-on.
    SamlRequired,
    /// Any other failure.
    Failed,
}

/// What the sync of one kind of item does next.
#[derive(Debug, Clone, Copy, PartialEq, Eq, Structural)]
pub enum SyncVerdict {
    /// Done, and the completion is recorded.
    Completed,
    /// Try the next source.
    TryNext(SyncSource),
    /// Stop with an error.
    Aborted,
    /// Every source failed: stop without an error, recording nothing.
    GaveUp,
}

/// The position of a source in the order they are tried.
pub open spec fn source_rank(s: SyncSource) -> int {
    match s {
        SyncSource::GraphQl => 0,
        SyncSource::Rest => 1,
        SyncSource::Cli => 2,
    }
}

pub open spec fn sync_verdict_spec(source: SyncSource, outcome: SourceOutcome) -> SyncVerdict {
    match outcome {
        SourceOutcome::Succeeded => SyncVerdict::Completed,
        _ => match source {
            SyncSource::GraphQl => if outcome == SourceOutcome::SamlRequired {
                SyncVerdict::TryNext(SyncSource::Rest)
            } else {
                SyncVerdict::Aborted
            },
            SyncSource::Rest => SyncVerdict::TryNext(SyncSource::Cli),
            SyncSource::Cli => SyncVerdict::GaveUp,
        },
    }
}

/// The next step after reading from `source`: GraphQL falls back to REST
/// only on a SAML refusal and fails otherwise; REST falls back to `gh` on
/// any failure; a failure of `gh` ends the sync quietly.
pub fn sync_verdict(source: SyncSource, outcome: SourceOutcome) -> (v: SyncVerdict)
    ensures
        v == sync_verdict_spec(source, outcome),
{
    match outcome {
        SourceOutcome::Succeeded => SyncVerdict::Completed,
        _ => match source {
            SyncSource::GraphQl => if outcome == SourceOutcome::SamlRequired {
                SyncVerdict::TryNext(SyncSource::Rest)
            } else {
                SyncVerdict::Aborted
            },
            SyncSource::Rest => SyncVerdict::TryNext(SyncSource::Cli),
            SyncSource::Cli => SyncVerdict::GaveUp,
        },
    }
}

/// The sync ends in an error exactly when GraphQL fails for a reason other
/// than SAML.
pub open spec fn sync_fails(v: SyncVerdict) -> bool {
    v == SyncVerdict::Aborted
}

/// The sources tried follow the fixed order and never go back: a fallback
/// always moves to the very next source, and the last source has none.
pub proof fn lemma_fallback_moves_forward(source: SyncSource, outcome: SourceOutcome)
    ensures
        sync_verdict_spec(source, outcome) matches SyncVerdict::TryNext(next) ==> source_rank(next)
            == source_rank(source) + 1,
        source == SyncSource::Cli ==> !(sync_verdict_spec(source, outcome) is TryNext),
        sync_fails(sync_verdict_spec(source, outcome)) <==> (source == SyncSource::GraphQl && outcome
            == SourceOutcome::Failed),
{
}

/// Sources tried in a run, with the outcome of each: every step follows
/// the verdict of the step before, the first is GraphQL.
pub open spec fn valid_run(run: Seq<(SyncSource, SourceOutcome)>) -> bool {
    &&& run.len() > 0 ==> run[0].0 == SyncSource::GraphQl
    &&& forall|k: int|
        0 <= k < run.len() - 1 ==> sync_verdict_spec(#[trigger] run[k].0, run[k].1) == SyncVerdict::TryNext(
            run[k + 1].0,
        )
}

/// A run tries each source at most once, in order: at most three steps,
/// the `k`-th step reading the `k`-th source.
pub proof fn lemma_run_bounded(run: Seq<(SyncSource, SourceOutcome)>)
    requires
        valid_run(run),
    ensures
        run.len() <= 3,
        forall|k: int| 0 <= k < run.len() ==> source_rank(#[trigger] run[k].0) == k,
{
    assert forall|k: int| 0 <= k < run.len() implies source_rank(#[trigger] run[k].0) == k by {
        lemma_run_rank(run, k);
    }
    if run.len() > 3 {
        lemma_run_rank(run, 3);
    }
}

proof fn lemma_run_rank(run: Seq<(SyncSource, SourceOutcome)>, k: int)
    requires
        valid_run(run),
        0 <= k < run.len(),
    ensures
        source_rank(run[k].0) == k,
    decreases k,
{
    if k > 0 {
        lemma_run_rank(run, k - 1);
        lemma_fallback_moves_forward(run[k - 1].0, run[k - 1].1);
        assert(sync_verdict_spec(run[k - 1].0, run[k - 1].1) == SyncVerdict::TryNext(run[k].0));
    }
}

/// Issues are read from the last stored update on (the watermark) when
/// there is one, else from the start of the configured history.
pub fn effective_since(watermark: Option<String>, since: &str) -> (r: String)
    ensures
        r@ == match watermark {
            Some(w) => w@,
            None => since@,
        },
{
    match watermark {
        Some(w) => w,
        None => since.to_string(),
    }
}

// ---------------------------------------------------------------------------
// Records to store
// ---------------------------------------------------------------------------

/// A GitHub account to find or create: its numeric id and login.
#[derive(Debug, Clone)]
pub struct UserRef {
    pub github_id: i64,
    pub login: String,
}

/// An issue to store, with the accounts and milestone to resolve first.
#[derive(Debug, Clone)]
pub struct IssueUpsert {
    pub issue: Issue,
    pub author: Option<UserRef>,
    pub assignee: Option<UserRef>,
    /// How the source identifies the milestone (GraphQL: its number; REST:
    /// its id).
    pub milestone_ref: Option<i64>,
}

/// A review to store, with the reviewing account to resolve first.
#[derive(Debug, Clone)]
pub struct ReviewUpsert {
    pub review: PrReview,
    pub reviewer: Option<UserRef>,
}

/// A pull request to store, with its author to resolve first and its
/// reviews (`None` for a review that was never submitted).
#[derive(Debug, Clone)]
pub struct PrUpsert {
    pub pr: PullRequest,
    pub author: Option<UserRef>,
    pub reviews: Vec<Option<ReviewUpsert>>,
}

/// The account behind a GraphQL author: only when the id is present.
pub open spec fn actor_ref(a: Option<Actor>) -> Option<UserRef> {
    match a {
        Some(x) => match x.database_id {
            Some(id) => Some(UserRef { github_id: id, login: x.login }),
            None => None,
        },
        None => None,
    }
}

/// The account behind a REST user.
pub open spec fn rest_ref(u: Option<RestUser>) -> Option<UserRef> {
    match u {
        Some(x) => Some(UserRef { github_id: x.id, login: x.login }),
        None => None,
    }
}

/// The author's login is one of the excluded bots.
pub open spec fn bot_login(login: Option<String>, bots: Seq<Seq<u8>>) -> bool {
    match login {
        Some(l) => is_bot_spec(encode_utf8(l@), bots),
        None => false,
    }
}

pub open spec fn actor_login(a: Option<Actor>) -> Option<String> {
    match a {
        Some(x) => Some(x.login),
        None => None,
    }
}

pub open spec fn rest_login(u: Option<RestUser>) -> Option<String> {
    match u {
        Some(x) => Some(x.login),
        None => None,
    }
}

pub open spec fn node_label_names(labels: Seq<LabelNode>) -> Seq<String> {
    labels.map_values(|l: LabelNode| l.name)
}

pub open spec fn rest_label_names(labels: Seq<RestLabel>) -> Seq<String> {
    labels.map_values(|l: RestLabel| l.name)
}

fn clone_actor_ref(a: &Option<Actor>) -> (r: Option<UserRef>)
    ensures
        r == actor_ref(*a),
{
    match a {
        Some(x) => match x.database_id {
            Some(id) => Some(UserRef { github_id: id, login: x.login.clone() }),
            None => None,
        },
        None => None,
    }
}

fn clone_rest_ref(u: &Option<RestUser>) -> (r: Option<UserRef>)
    ensures
        r == rest_ref(*u),
{
    match u {
        Some(x) => Some(UserRef { github_id: x.id, login: x.login.clone() }),
        None => None,
    }
}

fn clone_text(o: &Option<String>) -> (r: Option<String>)
    ensures
        r == *o,
{
    match o {
        Some(t) => Some(t.clone()),
        None => None,
    }
}

fn is_bot_author(login: Option<&String>, excluded_bots: &[String]) -> (r: bool)
    ensures
        r == match login {
            Some(l) => is_bot_spec(encode_utf8(l@), utf8_views(excluded_bots@)),
            None => false,
        },
{
    match login {
        Some(l) => is_bot_user(l.as_str(), excluded_bots),
        None => false,
    }
}

fn node_labels(labels: &Vec<LabelNode>) -> (r: Vec<String>)
    ensures
        r@ == node_label_names(labels@),
{
    let mut r: Vec<String> = Vec::new();
    let mut i: usize = 0;
    while i < labels.len()
        invariant
            0 <= i <= labels@.len(),
            r@ == node_label_names(labels@.take(i as int)),
        decreases labels@.len() - i,
    {
        r.push(labels[i].name.clone());
        assert(node_label_names(labels@.take(i + 1)) =~= node_label_names(labels@.take(i as int)).push(
            labels@[i as int].name,
        ));
        i = i + 1;
    }
    assert(labels@.take(labels@.len() as int) =~= labels@);
    r
}

fn rest_labels(labels: &Vec<RestLabel>) -> (r: Vec<String>)
    ensures
        r@ == rest_label_names(labels@),
{
    let mut r: Vec<String> = Vec::new();
    let mut i: usize = 0;
    while i < labels.len()
        invariant
            0 <= i <= labels@.len(),
            r@ == rest_label_names(labels@.take(i as int)),
        decreases labels@.len() - i,
    {
        r.push(labels[i].name.clone());
        assert(rest_label_names(labels@.take(i + 1)) =~= rest_label_names(labels@.take(i as int)).push(
            labels@[i as int].name,
        ));
        i = i + 1;
    }
    assert(labels@.take(labels@.len() as int) =~= labels@);
    r
}

// --- GraphQL issues --------------------------------------------------------

/// The record stored for a GraphQL issue node.
pub open spec fn graphql_issue_upsert(n: IssueNode, repo_id: i64, u: IssueUpsert) -> bool {
    &&& u.issue.id == 0
    &&& u.issue.github_id == n.database_id
    &&& u.issue.repo_id == repo_id
    &&& u.issue.number == n.number
    &&& u.issue.title == n.title
    &&& u.issue.body == n.body
    &&& u.issue.state == n.state
    &&& u.issue.author_id is None
    &&& u.issue.assignee_id is None
    &&& u.issue.milestone_id is None
    &&& u.issue.created_at == n.created_at
    &&& u.issue.updated_at == n.updated_at
    &&& u.issue.sync_updated_at == Some(n.updated_at)
    &&& u.issue.closed_at == n.closed_at
    &&& u.issue.labels@ == node_label_names(n.labels.nodes@)
    &&& u.author == actor_ref(n.author)
    &&& u.assignee == (if n.assignees.nodes@.len() > 0 {
        actor_ref(Some(n.assignees.nodes@[0]))
    } else {
        None
    })
    &&& u.milestone_ref == (match n.milestone {
        Some(m) => Some(m.number as i64),
        None => None,
    })
}

/// A GraphQL issue is skipped when its author is an excluded bot.
pub open spec fn graphql_issue_plan(n: IssueNode, repo_id: i64, bots: Seq<Seq<u8>>, r: Option<IssueUpsert>) -> bool {
    if bot_login(actor_login(n.author), bots) {
        r is None
    } else {
        r matches Some(u) && graphql_issue_upsert(n, repo_id, u)
    }
}

fn plan_graphql_issue(n: &IssueNode, repo_id: i64, excluded_bots: &[String]) -> (r: Option<IssueUpsert>)
    ensures
        graphql_issue_plan(*n, repo_id, utf8_views(excluded_bots@), r),
{
    let login = match &n.author {
        Some(a) => Some(&a.login),
        None => None,
    };
    if is_bot_author(login, excluded_bots) {
        return None;
    }
    let assignee = if n.assignees.nodes.len() > 0 {
        let first = &n.assignees.nodes[0];
        match first.database_id {
            Some(id) => Some(UserRef { github_id: id, login: first.login.clone() }),
            None => None,
        }
    } else {
        None
    };
    let milestone_ref = match &n.milestone {
        Some(m) => Some(m.number as i64),
        None => None,
    };
    let issue = Issue {
        id: 0,
        github_id: n.database_id,
        repo_id,
        number: n.number,
        title: n.title.clone(),
        body: clone_text(&n.body),
        state: n.state.clone(),
        author_id: None,
        assignee_id: None,
        milestone_id: None,
        created_at: n.created_at.clone(),
        updated_at: n.updated_at.clone(),
        sync_updated_at: Some(n.updated_at.clone()),
        closed_at: clone_text(&n.closed_at),
        labels: node_labels(&n.labels.nodes),
    };
    Some(IssueUpsert { issue, author: clone_actor_ref(&n.author), assignee, milestone_ref })
}

/// What to store for each node of a page of GraphQL issues.
pub fn plan_graphql_issues(nodes: &Vec<IssueNode>, repo_id: i64, excluded_bots: &[String]) -> (r: Vec<
    Option<IssueUpsert>,
>)
    ensures
        r@.len() == nodes@.len(),
        forall|k: int|
            0 <= k < nodes@.len() ==> graphql_issue_plan(nodes@[k], repo_id, utf8_views(excluded_bots@), #[trigger] r@[k]),
{
    let mut r: Vec<Option<IssueUpsert>> = Vec::new();
    let mut i: usize = 0;
    while i < nodes.len()
        invariant
            0 <= i <= nodes@.len(),
            r@.len() == i,
            forall|k: int|
                0 <= k < i ==> graphql_issue_plan(nodes@[k], repo_id, utf8_views(excluded_bots@), #[trigger] r@[k]),
        decreases nodes@.len() - i,
    {
        r.push(plan_graphql_issue(&nodes[i], repo_id, excluded_bots));
        i = i + 1;
    }
    r
}

// --- GraphQL pull requests -------------------------------------------------

/// The review stored for a GraphQL review node: only a submitted one.
pub open spec fn graphql_review_plan(n: ReviewNode, r: Option<ReviewUpsert>) -> bool {
    match n.submitted_at {
        None => r is None,
        Some(at) => r matches Some(u) && {
            &&& u.review.id == 0
            &&& u.review.github_id == n.database_id
            &&& u.review.pr_id == 0
            &&& u.review.reviewer_id is None
            &&& u.review.state == n.state
            &&& u.review.submitted_at == at
            &&& u.review.sync_updated_at == Some(at)
            &&& u.reviewer == actor_ref(n.author)
        },
    }
}

fn plan_graphql_review(n: &ReviewNode) -> (r: Option<ReviewUpsert>)
    ensures
        graphql_review_plan(*n, r),
{
    match &n.submitted_at {
        None => None,
        Some(at) => Some(
            ReviewUpsert {
                review: PrReview {
                    id: 0,
                    github_id: n.database_id,
                    pr_id: 0,
                    reviewer_id: None,
                    state: n.state.clone(),
                    submitted_at: at.clone(),
                    sync_updated_at: Some(at.clone()),
                },
                reviewer: clone_actor_ref(&n.author),
            },
        ),
    }
}

/// The record stored for a GraphQL pull request node.
pub open spec fn graphql_pr_upsert(n: PullRequestNode, repo_id: i64, u: PrUpsert) -> bool {
    &&& u.pr.id == 0
    &&& u.pr.github_id == n.database_id
    &&& u.pr.repo_id == repo_id
    &&& u.pr.number == n.number
    &&& u.pr.title == n.title
    &&& u.pr.body == n.body
    &&& u.pr.state == n.state
    &&& u.pr.author_id is None
    &&& u.pr.created_at == n.created_at
    &&& u.pr.updated_at == n.updated_at
    &&& u.pr.sync_updated_at == Some(n.updated_at)
    &&& u.pr.merged_at == n.merged_at
    &&& u.pr.closed_at == n.closed_at
    &&& u.pr.additions == n.additions
    &&& u.pr.deletions == n.deletions
    &&& u.pr.changed_files == n.changed_files
    &&& u.pr.review_comments == 0
    &&& u.pr.labels@ == node_label_names(n.labels.nodes@)
    &&& u.author == actor_ref(n.author)
    &&& u.reviews@.len() == n.reviews.nodes@.len()
    &&& forall|k: int|
        0 <= k < n.reviews.nodes@.len() ==> graphql_review_plan(n.reviews.nodes@[k], #[trigger] u.reviews@[k])
}

/// A GraphQL pull request is skipped when its author is an excluded bot.
pub open spec fn graphql_pr_plan(n: PullRequestNode, repo_id: i64, bots: Seq<Seq<u8>>, r: Option<PrUpsert>) -> bool {
    if bot_login(actor_login(n.author), bots) {
        r is None
    } else {
        r matches Some(u) && graphql_pr_upsert(n, repo_id, u)
    }
}

fn plan_graphql_pr(n: &PullRequestNode, repo_id: i64, excluded_bots: &[String]) -> (r: Option<PrUpsert>)
    ensures
        graphql_pr_plan(*n, repo_id, utf8_views(excluded_bots@), r),
{
    let login = match &n.author {
        Some(a) => Some(&a.login),
        None => None,
    };
    if is_bot_author(login, excluded_bots) {
        return None;
    }
    let mut reviews: Vec<Option<ReviewUpsert>> = Vec::new();
    let mut i: usize = 0;
    while i < n.reviews.nodes.len()
        invariant
            0 <= i <= n.reviews.nodes@.len(),
            reviews@.len() == i,
            forall|k: int| 0 <= k < i ==> graphql_review_plan(n.reviews.nodes@[k], #[trigger] reviews@[k]),
        decreases n.reviews.nodes@.len() - i,
    {
        reviews.push(plan_graphql_review(&n.reviews.nodes[i]));
        i = i + 1;
    }
    let pr = PullRequest {
        id: 0,
        github_id: n.database_id,
        repo_id,
        number: n.number,
        title: n.title.clone(),
        body: clone_text(&n.body),
        state: n.state.clone(),
        author_id: None,
        created_at: n.created_at.clone(),
        updated_at: n.updated_at.clone(),
        sync_updated_at: Some(n.updated_at.clone()),
        merged_at: clone_text(&n.merged_at),
        closed_at: clone_text(&n.closed_at),
        additions: n.additions,
        deletions: n.deletions,
        changed_files: n.changed_files,
        review_comments: 0,
        labels: node_labels(&n.labels.nodes),
    };
    Some(PrUpsert { pr, author: clone_actor_ref(&n.author), reviews })
}

/// What to store for each node of a page of GraphQL pull requests.
pub fn plan_graphql_prs(nodes: &Vec<PullRequestNode>, repo_id: i64, excluded_bots: &[String]) -> (r: Vec<
    Option<PrUpsert>,
>)
    ensures
        r@.len() == nodes@.len(),
        forall|k: int|
            0 <= k < nodes@.len() ==> graphql_pr_plan(nodes@[k], repo_id, utf8_views(excluded_bots@), #[trigger] r@[k]),
{
    let mut r: Vec<Option<PrUpsert>> = Vec::new();
    let mut i: usize = 0;
    while i < nodes.len()
        invariant
            0 <= i <= nodes@.len(),
            r@.len() == i,
            forall|k: int|
                0 <= k < i ==> graphql_pr_plan(nodes@[k], repo_id, utf8_views(excluded_bots@), #[trigger] r@[k]),
        decreases nodes@.len() - i,
    {
        r.push(plan_graphql_pr(&nodes[i], repo_id, excluded_bots));
        i = i + 1;
    }
    r
}

// --- Milestones --------------------------------------------------------------

/// The milestone stored for a GraphQL milestone node: identified by its
/// number, with the count of all its issues in the open-issues column.
pub open spec fn graphql_milestone_spec(n: MilestoneNode, repo_id: i64, m: Milestone) -> bool {
    &&& m.id == 0
    &&& m.github_id == n.number as i64
    &&& m.repo_id == repo_id
    &&& m.title == n.title
    &&& m.description == n.description
    &&& m.state == n.state
    &&& m.due_on == n.due_on
    &&& m.open_issues == n.issues.total_count
    &&& m.closed_issues == n.closed_issues.total_count
}

pub fn milestone_from_graphql(n: &MilestoneNode, repo_id: i64) -> (m: Milestone)
    ensures
        graphql_milestone_spec(*n, repo_id, m),
{
    Milestone {
        id: 0,
        github_id: n.number as i64,
        repo_id,
        title: n.title.clone(),
        description: clone_text(&n.description),
        state: n.state.clone(),
        due_on: clone_text(&n.due_on),
        open_issues: n.issues.total_count,
        closed_issues: n.closed_issues.total_count,
    }
}

/// The milestone stored for a REST milestone.
pub open spec fn rest_milestone_spec(n: RestMilestone, repo_id: i64, m: Milestone) -> bool {
    &&& m.id == 0
    &&& m.github_id == n.id
    &&& m.repo_id == repo_id
    &&& m.title == n.title
    &&& m.description == n.description
    &&& m.state == n.state
    &&& m.due_on == n.due_on
    &&& m.open_issues == n.open_issues
    &&& m.closed_issues == n.closed_issues
}

pub fn milestone_from_rest(n: &RestMilestone, repo_id: i64) -> (m: Milestone)
    ensures
        rest_milestone_spec(*n, repo_id, m),
{
    Milestone {
        id: 0,
        github_id: n.id,
        repo_id,
        title: n.title.clone(),
        description: clone_text(&n.description),
        state: n.state.clone(),
        due_on: clone_text(&n.due_on),
        open_issues: n.open_issues,
        closed_issues: n.closed_issues,
    }
}

// --- REST issues and pull requests -------------------------------------------

/// The record stored for a REST issue.
pub open spec fn rest_issue_upsert(n: RestIssue, repo_id: i64, u: IssueUpsert) -> bool {
    &&& u.issue.id == 0
    &&& u.issue.github_id == n.id
    &&& u.issue.repo_id == repo_id
    &&& u.issue.number == n.number
    &&& u.issue.title == n.title
    &&& u.issue.body == n.body
    &&& u.issue.state == n.state
    &&& u.issue.author_id is None
    &&& u.issue.assignee_id is None
    &&& u.issue.milestone_id is None
    &&& u.issue.created_at == n.created_at
    &&& u.issue.updated_at == n.updated_at
    &&& u.issue.sync_updated_at == Some(n.updated_at)
    &&& u.issue.closed_at == n.closed_at
    &&& u.issue.labels@ == rest_label_names(n.labels@)
    &&& u.author == rest_ref(n.user)
    &&& u.assignee == rest_ref(n.assignee)
    &&& u.milestone_ref == (match n.milestone {
        Some(m) => Some(m.id),
        None => None,
    })
}

/// A REST issue is skipped when it is a pull request or its author is an
/// excluded bot.
pub open spec fn rest_issue_plan(n: RestIssue, repo_id: i64, bots: Seq<Seq<u8>>, r: Option<IssueUpsert>) -> bool {
    if n.pull_request is Some || bot_login(rest_login(n.user), bots) {
        r is None
    } else {
        r matches Some(u) && rest_issue_upsert(n, repo_id, u)
    }
}

fn plan_rest_issue(n: &RestIssue, repo_id: i64, excluded_bots: &[String]) -> (r: Option<IssueUpsert>)
    ensures
        rest_issue_plan(*n, repo_id, utf8_views(excluded_bots@), r),
{
    if n.pull_request.is_some() {
        return None;
    }
    let login = match &n.user {
        Some(u) => Some(&u.login),
        None => None,
    };
    if is_bot_author(login, excluded_bots) {
        return None;
    }
    let milestone_ref = match &n.milestone {
        Some(m) => Some(m.id),
        None => None,
    };
    let issue = Issue {
        id: 0,
        github_id: n.id,
        repo_id,
        number: n.number,
        title: n.title.clone(),
        body: clone_text(&n.body),
        state: n.state.clone(),
        author_id: None,
        assignee_id: None,
        milestone_id: None,
        created_at: n.created_at.clone(),
        updated_at: n.updated_at.clone(),
        sync_updated_at: Some(n.updated_at.clone()),
        closed_at: clone_text(&n.closed_at),
        labels: rest_labels(&n.labels),
    };
    Some(IssueUpsert { issue, author: clone_rest_ref(&n.user), assignee: clone_rest_ref(&n.assignee), milestone_ref })
}

/// What to store for each issue read through the REST API.
pub fn plan_rest_issues(issues: &Vec<RestIssue>, repo_id: i64, excluded_bots: &[String]) -> (r: Vec<
    Option<IssueUpsert>,
>)
    ensures
        r@.len() == issues@.len(),
        forall|k: int|
            0 <= k < issues@.len() ==> rest_issue_plan(issues@[k], repo_id, utf8_views(excluded_bots@), #[trigger] r@[k]),
{
    let mut r: Vec<Option<IssueUpsert>> = Vec::new();
    let mut i: usize = 0;
    while i < issues.len()
        invariant
            0 <= i <= issues@.len(),
            r@.len() == i,
            forall|k: int|
                0 <= k < i ==> rest_issue_plan(issues@[k], repo_id, utf8_views(excluded_bots@), #[trigger] r@[k]),
        decreases issues@.len() - i,
    {
        r.push(plan_rest_issue(&issues[i], repo_id, excluded_bots));
        i = i + 1;
    }
    r
}

pub open spec fn count_or_zero(c: Option<i32>) -> i32 {
    match c {
        Some(v) => v,
        None => 0,
    }
}

/// The record stored for a REST pull request (no reviews; missing line
/// counts are 0).
pub open spec fn rest_pr_upsert(n: RestPullRequest, repo_id: i64, u: PrUpsert) -> bool {
    &&& u.pr.id == 0
    &&& u.pr.github_id == n.id
    &&& u.pr.repo_id == repo_id
    &&& u.pr.number == n.number
    &&& u.pr.title == n.title
    &&& u.pr.body == n.body
    &&& u.pr.state == n.state
    &&& u.pr.author_id is None
    &&& u.pr.created_at == n.created_at
    &&& u.pr.updated_at == n.updated_at
    &&& u.pr.sync_updated_at == Some(n.updated_at)
    &&& u.pr.merged_at == n.merged_at
    &&& u.pr.closed_at == n.closed_at
    &&& u.pr.additions == count_or_zero(n.additions)
    &&& u.pr.deletions == count_or_zero(n.deletions)
    &&& u.pr.changed_files == count_or_zero(n.changed_files)
    &&& u.pr.review_comments == 0
    &&& u.pr.labels@ == rest_label_names(n.labels@)
    &&& u.author == rest_ref(n.user)
    &&& u.reviews@.len() == 0
}

pub open spec fn rest_pr_plan(n: RestPullRequest, repo_id: i64, bots: Seq<Seq<u8>>, r: Option<PrUpsert>) -> bool {
    if bot_login(rest_login(n.user), bots) {
        r is None
    } else {
        r matches Some(u) && rest_pr_upsert(n, repo_id, u)
    }
}

fn plan_rest_pr(n: &RestPullRequest, repo_id: i64, excluded_bots: &[String]) -> (r: Option<PrUpsert>)
    ensures
        rest_pr_plan(*n, repo_id, utf8_views(excluded_bots@), r),
{
    let login = match &n.user {
        Some(u) => Some(&u.login),
        None => None,
    };
    if is_bot_author(login, excluded_bots) {
        return None;
    }
    let pr = PullRequest {
        id: 0,
        github_id: n.id,
        repo_id,
        number: n.number,
        title: n.title.clone(),
        body: clone_text(&n.body),
        state: n.state.clone(),
        author_id: None,
        created_at: n.created_at.clone(),
        updated_at: n.updated_at.clone(),
        sync_updated_at: Some(n.updated_at.clone()),
        merged_at: clone_text(&n.merged_at),
        closed_at: clone_text(&n.closed_at),
        additions: match n.additions { Some(v) => v, None => 0 },
        deletions: match n.deletions { Some(v) => v, None => 0 },
        changed_files: match n.changed_files { Some(v) => v, None => 0 },
        review_comments: 0,
        labels: rest_labels(&n.labels),
    };
    Some(PrUpsert { pr, author: clone_rest_ref(&n.user), reviews: Vec::new() })
}

/// What to store for each pull request read through the REST API.
pub fn plan_rest_prs(prs: &Vec<RestPullRequest>, repo_id: i64, excluded_bots: &[String]) -> (r: Vec<
    Option<PrUpsert>,
>)
    ensures
        r@.len() == prs@.len(),
        forall|k: int|
            0 <= k < prs@.len() ==> rest_pr_plan(prs@[k], repo_id, utf8_views(excluded_bots@), #[trigger] r@[k]),
{
    let mut r: Vec<Option<PrUpsert>> = Vec::new();
    let mut i: usize = 0;
    while i < prs.len()
        invariant
            0 <= i <= prs@.len(),
            r@.len() == i,
            forall|k: int|
                0 <= k < i ==> rest_pr_plan(prs@[k], repo_id, utf8_views(excluded_bots@), #[trigger] r@[k]),
        decreases prs@.len() - i,
    {
        r.push(plan_rest_pr(&prs[i], repo_id, excluded_bots));
        i = i + 1;
    }
    r
}

// --- `gh` pull requests --------------------------------------------------------

/// A pull request listed by `gh` is stored unless its author's login is an
/// excluded bot.
pub fn keep_cli_pr(author_login: &Option<String>, excluded_bots: &[String]) -> (keep: bool)
    ensures
        keep == !bot_login(*author_login, utf8_views(excluded_bots@)),
{
    let login = match author_login {
        Some(l) => Some(l),
        None => None,
    };
    !is_bot_author(login, excluded_bots)
}

} // verus!
