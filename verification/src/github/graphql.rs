//! GitHub GraphQL API: the shapes of the replies the sync reads, and what a
//! reply means (data, or which error).

use crate::text::{bytes_contains, contains_spec, join_spec, join_strings, push_str, string_views};
use vstd::prelude::*;
use vstd::utf8::encode_utf8;

verus! {

// ---------------------------------------------------------------------------
// Issues
// ---------------------------------------------------------------------------

#[derive(Debug, Clone)]
pub struct IssuesResponse {
    pub repository: RepositoryIssues,
}

#[derive(Debug, Clone)]
pub struct RepositoryIssues {
    pub issues: IssueConnection,
}

#[derive(Debug, Clone)]
pub struct IssueConnection {
    pub page_info: PageInfo,
    pub nodes: Vec<IssueNode>,
}

#[derive(Debug, Clone)]
pub struct IssueNode {
    pub id: String,
    pub database_id: i64,
    pub number: i32,
    pub title: String,
    pub body: Option<String>,
    pub state: String,
    pub created_at: String,
    pub updated_at: String,
    pub closed_at: Option<String>,
    pub author: Option<Actor>,
    pub assignees: AssigneeConnection,
    pub labels: LabelConnection,
    pub milestone: Option<MilestoneRef>,
}

// ---------------------------------------------------------------------------
// Pull requests
// ---------------------------------------------------------------------------

#[derive(Debug, Clone)]
pub struct PullRequestsResponse {
    pub repository: RepositoryPullRequests,
}

#[derive(Debug, Clone)]
pub struct RepositoryPullRequests {
    pub pull_requests: PullRequestConnection,
}

#[derive(Debug, Clone)]
pub struct PullRequestConnection {
    pub page_info: PageInfo,
    pub nodes: Vec<PullRequestNode>,
}

#[derive(Debug, Clone)]
pub struct PullRequestNode {
    pub id: String,
    pub database_id: i64,
    pub number: i32,
    pub title: String,
    pub body: Option<String>,
    pub state: String,
    pub created_at: String,
    pub updated_at: String,
    pub merged_at: Option<String>,
    pub closed_at: Option<String>,
    pub additions: i32,
    pub deletions: i32,
    pub changed_files: i32,
    pub author: Option<Actor>,
    pub labels: LabelConnection,
    pub reviews: ReviewConnection,
}

#[derive(Debug, Clone)]
pub struct ReviewConnection {
    pub nodes: Vec<ReviewNode>,
}

#[derive(Debug, Clone)]
pub struct ReviewNode {
    pub id: String,
    pub database_id: i64,
    pub state: String,
    pub submitted_at: Option<String>,
    pub author: Option<Actor>,
}

// ---------------------------------------------------------------------------
// Milestones
// ---------------------------------------------------------------------------

#[derive(Debug, Clone)]
pub struct MilestonesResponse {
    pub repository: RepositoryMilestones,
}

#[derive(Debug, Clone)]
pub struct RepositoryMilestones {
    pub milestones: MilestoneConnection,
}

#[derive(Debug, Clone)]
pub struct MilestoneConnection {
    pub nodes: Vec<MilestoneNode>,
}

#[derive(Debug, Clone)]
pub struct MilestoneNode {
    pub id: String,
    pub number: i32,
    pub title: String,
    pub description: Option<String>,
    pub state: String,
    pub due_on: Option<String>,
    pub issues: IssueCount,
    pub closed_issues: IssueCount,
}

#[derive(Debug, Clone, Copy)]
pub struct IssueCount {
    pub total_count: i32,
}

// ---------------------------------------------------------------------------
// Shared
// ---------------------------------------------------------------------------

#[derive(Debug, Clone)]
pub struct PageInfo {
    pub has_next_page: bool,
    pub end_cursor: Option<String>,
}

/// The author of an item: the login and, when the reply carries it, the
/// numeric account id.
#[derive(Debug, Clone)]
pub struct Actor {
    pub login: String,
    pub database_id: Option<i64>,
}

#[derive(Debug, Clone)]
pub struct AssigneeConnection {
    pub nodes: Vec<Actor>,
}

#[derive(Debug, Clone)]
pub struct LabelConnection {
    pub nodes: Vec<LabelNode>,
}

#[derive(Debug, Clone)]
pub struct LabelNode {
    pub name: String,
}

#[derive(Debug, Clone)]
pub struct MilestoneRef {
    pub id: String,
    pub number: i32,
    pub title: String,
}

// ---------------------------------------------------------------------------
// Paging
// ---------------------------------------------------------------------------

/// After a page: `Some(cursor)` to fetch the page after `cursor`, `None`
/// when this was the last page.
pub open spec fn next_page_spec(info: PageInfo) -> Option<Option<String>> {
    if info.has_next_page {
        Some(info.end_cursor)
    } else {
        None
    }
}

/// Where the next page starts, if there is one.
pub fn next_page(info: &PageInfo) -> (r: Option<Option<String>>)
    ensures
        r == next_page_spec(*info),
{
    if info.has_next_page {
        Some(info.end_cursor.clone())
    } else {
        None
    }
}

// ---------------------------------------------------------------------------
// Replies
// ---------------------------------------------------------------------------

/// Why a query gave no data.
#[derive(Debug, Clone)]
pub enum GraphQlError {
    /// The HTTP status was not a success: the status as displayed, and the body.
    Http { status: String, body: String },
    /// The body is not a reply of the expected shape: the parser's message, and the body.
    Parse { message: String, body: String },
    /// The reply lists errors: their messages.
    Errors { messages: Vec<String> },
    /// The reply has neither errors nor data.
    NoData,
    /// The organization owning the repository enforces SAML single sign-on
    /// and the token is not authorized for it.
    SamlRequired { owner: String, repo: String },
}

/// The bytes of `SAML`.
pub open spec fn saml_word() -> Seq<u8> {
    seq![83u8, 65u8, 77u8, 76u8]
}

/// Some error message names SAML.
pub open spec fn mentions_saml(messages: Seq<String>) -> bool {
    exists|i: int| 0 <= i < messages.len() && contains_spec(encode_utf8((#[trigger] messages[i])@), saml_word())
}

fn any_mentions_saml(messages: &Vec<String>) -> (r: bool)
    ensures
        r == mentions_saml(messages@),
{
    let word: Vec<u8> = vec![83u8, 65u8, 77u8, 76u8];
    assert(word@ =~= saml_word());
    let mut i: usize = 0;
    while i < messages.len()
        invariant
            0 <= i <= messages@.len(),
            word@ == saml_word(),
            forall|j: int| 0 <= j < i ==> !contains_spec(encode_utf8((#[trigger] messages@[j])@), saml_word()),
        decreases messages@.len() - i,
    {
        if bytes_contains(messages[i].as_str().as_bytes(), word.as_slice()) {
            return true;
        }
        i = i + 1;
    }
    false
}

/// What a well-formed reply means: its error list (if present) decides
/// first — a SAML refusal or plain errors — then missing data.
pub fn check_reply(errors: Option<Vec<String>>, has_data: bool, owner: &str, repo: &str) -> (r: Result<
    (),
    GraphQlError,
>)
    ensures
        match errors {
            Some(messages) => if mentions_saml(messages@) {
                r matches Err(GraphQlError::SamlRequired { owner: o, repo: p }) && o@ == owner@ && p@ == repo@
            } else {
                r matches Err(GraphQlError::Errors { messages: m }) && m@ == messages@
            },
            None => if has_data {
                r is Ok
            } else {
                r matches Err(GraphQlError::NoData)
            },
        },
{
    match errors {
        Some(messages) => {
            if any_mentions_saml(&messages) {
                Err(GraphQlError::SamlRequired { owner: owner.to_string(), repo: repo.to_string() })
            } else {
                Err(GraphQlError::Errors { messages })
            }
        },
        None => if has_data {
            Ok(())
        } else {
            Err(GraphQlError::NoData)
        },
    }
}

/// The text of an error.
pub open spec fn error_text_spec(e: GraphQlError) -> Seq<char> {
    match e {
        GraphQlError::Http { status, body } => "GitHub API error ("@ + status@ + "): "@ + body@,
        GraphQlError::Parse { message, body } => "Failed to parse response: "@ + message@ + ". Body: "@
            + body@,
        GraphQlError::Errors { messages } => "GraphQL errors: "@ + join_spec(string_views(messages@), ", "@),
        GraphQlError::NoData => "No data in response"@,
        GraphQlError::SamlRequired { owner, repo } => "SAML SSO required for "@ + owner@ + "/"@ + repo@,
    }
}

/// Describes an error.
pub fn error_text(e: &GraphQlError) -> (r: String)
    ensures
        r@ == error_text_spec(*e),
{
    let mut r = String::new();
    match e {
        GraphQlError::Http { status, body } => {
            push_str(&mut r, "GitHub API error (");
            push_str(&mut r, status.as_str());
            push_str(&mut r, "): ");
            push_str(&mut r, body.as_str());
        },
        GraphQlError::Parse { message, body } => {
            push_str(&mut r, "Failed to parse response: ");
            push_str(&mut r, message.as_str());
            push_str(&mut r, ". Body: ");
            push_str(&mut r, body.as_str());
        },
        GraphQlError::Errors { messages } => {
            push_str(&mut r, "GraphQL errors: ");
            let joined = join_strings(messages.as_slice(), ", ");
            push_str(&mut r, joined.as_str());
        },
        GraphQlError::NoData => {
            push_str(&mut r, "No data in response");
        },
        GraphQlError::SamlRequired { owner, repo } => {
            push_str(&mut r, "SAML SSO required for ");
            push_str(&mut r, owner.as_str());
            push_str(&mut r, "/");
            push_str(&mut r, repo.as_str());
        },
    }
    assert(r@ =~= error_text_spec(*e));
    r
}

} // verus!
