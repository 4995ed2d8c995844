//! Project deep dive: timeline merging and the filter clauses used by the
//! project queries.

use crate::db::models::User;
use crate::ordering::{bytes_key, bytes_less, in_order, key_lt, sorted_by_key, stable_sort_by_key, with_key,
    SortKey};
use crate::text::{push_char, push_decimal_i64, push_str, starts_with_spec, bytes_starts_with,
    decimal_text};
use std::collections::HashMap;
use vstd::prelude::*;
use vstd::utf8::encode_utf8;

verus! {

/// Type-specific data of a timeline event.
#[derive(Debug, Clone)]
pub enum EventMetadata {
    Issue { issue_number: i32, state: Option<String>, repository: Option<String> },
    PullRequest {
        pr_number: i32,
        additions: i32,
        deletions: i32,
        changed_files: i32,
        state: Option<String>,
        repository: Option<String>,
    },
    Review { pr_number: i32, review_state: String, repository: Option<String> },
}

/// One entry of a project or user timeline.
#[derive(Debug, Clone)]
pub struct TimelineEvent {
    pub id: String,
    pub event_type: String,
    pub timestamp: String,
    pub author: User,
    pub title: String,
    pub description: Option<String>,
    pub url: Option<String>,
    pub metadata: EventMetadata,
}

impl SortKey for TimelineEvent {
    open spec fn sort_key(&self) -> Seq<int> {
        bytes_key(encode_utf8(self.timestamp@))
    }

    fn key_less(&self, other: &Self) -> (r: bool) {
        bytes_less(self.timestamp.as_str().as_bytes(), other.timestamp.as_str().as_bytes())
    }
}

#[derive(Debug, Clone)]
pub struct ContributorStats {
    pub user: User,
    pub total_commits: i32,
    pub total_prs: i32,
    pub total_prs_reviewed: i32,
    pub total_issues: i32,
    pub lines_added: i32,
    pub lines_deleted: i32,
    pub files_changed: i32,
    pub first_contribution: String,
    pub last_contribution: String,
    pub activity_trend: String,
}

#[derive(Debug, Clone)]
pub struct ActivityHeatmapData {
    pub daily_counts: HashMap<String, i32>,
    pub hourly_counts: HashMap<u8, i32>,
    pub weekday_counts: HashMap<String, i32>,
}

#[derive(Debug, Clone)]
pub struct ProjectSummary {
    pub total_contributors: i32,
    pub total_commits: i32,
    pub total_prs: i32,
    pub total_issues: i32,
    pub last_synced_at: Option<String>,
}

/// `s` is `items` sorted by key (descending or ascending), equal keys in
/// their original order.
pub open spec fn stably_sorted<T: SortKey>(s: Seq<T>, items: Seq<T>, descending: bool) -> bool {
    &&& s.len() == items.len()
    &&& sorted_by_key(s, descending)
    &&& forall|k: Seq<int>| #[trigger] with_key(s, k) == with_key(items, k)
}

/// How many events a limit keeps: a non-negative limit caps the count.
pub open spec fn kept_count(len: int, limit: int) -> int {
    if 0 <= limit < len {
        limit
    } else {
        len
    }
}

/// Sort all events by timestamp, newest first (ties keep their order),
/// and keep the first `limit` of them.
pub fn merge_timeline(events: Vec<TimelineEvent>, limit: i32) -> (r: Vec<TimelineEvent>)
    ensures
        exists|s: Seq<TimelineEvent>|
            stably_sorted(s, events@, true) && r@ == s.take(kept_count(events@.len() as int, limit as int)),
        r@.len() == kept_count(events@.len() as int, limit as int),
        forall|i: int, j: int|
            0 <= i < j < r@.len() ==> !key_lt(
                bytes_key(encode_utf8((#[trigger] r@[i]).timestamp@)),
                bytes_key(encode_utf8((#[trigger] r@[j]).timestamp@)),
            ),
{
    let ghost input = events@;
    let mut sorted = stable_sort_by_key(events, true);
    let ghost s = sorted@;
    if limit >= 0 && (limit as usize) < sorted.len() {
        sorted.truncate(limit as usize);
    }
    assert(sorted@ =~= s.take(kept_count(input.len() as int, limit as int)));
    assert(stably_sorted(s, input, true));
    proof {
        lemma_timeline_newest_first(s, input);
    }
    sorted
}

/// A merged timeline runs newest first: no event comes before one with a
/// later timestamp (compared as `str` compares, byte by byte), and every
/// prefix of it (what a limit keeps) does too.
pub proof fn lemma_timeline_newest_first(s: Seq<TimelineEvent>, events: Seq<TimelineEvent>)
    requires
        stably_sorted(s, events, true),
    ensures
        forall|n: int, i: int, j: int|
            0 <= n <= s.len() && 0 <= i < j < n ==> !key_lt(
                bytes_key(encode_utf8((#[trigger] s.take(n)[i]).timestamp@)),
                bytes_key(encode_utf8((#[trigger] s.take(n)[j]).timestamp@)),
            ),
{
    assert forall|n: int, i: int, j: int| 0 <= n <= s.len() && 0 <= i < j < n implies !key_lt(
        bytes_key(encode_utf8((#[trigger] s.take(n)[i]).timestamp@)),
        bytes_key(encode_utf8((#[trigger] s.take(n)[j]).timestamp@)),
    ) by {
        assert(s.take(n)[i] == s[i]);
        assert(s.take(n)[j] == s[j]);
        assert(in_order(s[i].sort_key(), s[j].sort_key(), true));
    }
}

/// Which kinds of events a timeline includes.
pub struct TimelineSources {
    pub issues: bool,
    pub pull_requests: bool,
    pub reviews: bool,
}

/// The bytes of `issue`.
pub open spec fn issue_prefix() -> Seq<u8> {
    seq![105u8, 115u8, 115u8, 117u8, 101u8]
}

/// The bytes of `pr_`.
pub open spec fn pr_prefix() -> Seq<u8> {
    seq![112u8, 114u8, 95u8]
}

/// The bytes of `review`.
pub open spec fn review_word() -> Seq<u8> {
    seq![114u8, 101u8, 118u8, 105u8, 101u8, 119u8]
}

/// No filter includes everything; otherwise issues are included when some
/// requested type starts with `issue`, pull requests when one starts with
/// `pr_`, reviews when one is `review`.
pub open spec fn sources_spec(event_types: Option<Seq<Seq<u8>>>) -> (bool, bool, bool) {
    match event_types {
        None => (true, true, true),
        Some(ts) => (
            exists|i: int| 0 <= i < ts.len() && starts_with_spec(#[trigger] ts[i], issue_prefix()),
            exists|i: int| 0 <= i < ts.len() && starts_with_spec(#[trigger] ts[i], pr_prefix()),
            exists|i: int| 0 <= i < ts.len() && #[trigger] ts[i] == review_word(),
        ),
    }
}

/// The UTF-8 bytes of each string of a list.
pub open spec fn list_bytes(v: Seq<String>) -> Seq<Seq<u8>> {
    v.map_values(|s: String| encode_utf8(s@))
}

/// The bytes of each requested event type, when a filter is given.
pub open spec fn opt_list_bytes(o: Option<&Vec<String>>) -> Option<Seq<Seq<u8>>> {
    match o {
        Some(v) => Some(list_bytes(v@)),
        None => None,
    }
}

/// Decide which event kinds a timeline request covers.
pub fn timeline_sources(event_types: Option<&Vec<String>>) -> (r: TimelineSources)
    ensures
        (r.issues, r.pull_requests, r.reviews) == sources_spec(opt_list_bytes(event_types)),
{
    match event_types {
        None => {
            let r = TimelineSources { issues: true, pull_requests: true, reviews: true };
            r
        },
        Some(types) => {
            let ghost ts = list_bytes(types@);
            let issue: Vec<u8> = vec![105u8, 115u8, 115u8, 117u8, 101u8];
            let pr: Vec<u8> = vec![112u8, 114u8, 95u8];
            let review: Vec<u8> = vec![114u8, 101u8, 118u8, 105u8, 101u8, 119u8];
            assert(issue@ =~= issue_prefix());
            assert(pr@ =~= pr_prefix());
            assert(review@ =~= review_word());
            let mut issues = false;
            let mut prs = false;
            let mut reviews = false;
            let mut i: usize = 0;
            while i < types.len()
                invariant
                    0 <= i <= types@.len(),
                    ts == list_bytes(types@),
                    issue@ == issue_prefix(),
                    pr@ == pr_prefix(),
                    review@ == review_word(),
                    issues == exists|j: int| 0 <= j < i && starts_with_spec(#[trigger] ts[j], issue_prefix()),
                    prs == exists|j: int| 0 <= j < i && starts_with_spec(#[trigger] ts[j], pr_prefix()),
                    reviews == exists|j: int| 0 <= j < i && #[trigger] ts[j] == review_word(),
                decreases types@.len() - i,
            {
                let t = types[i].as_str().as_bytes();
                assert(t@ == ts[i as int]);
                if bytes_starts_with(t, issue.as_slice()) {
                    issues = true;
                }
                if bytes_starts_with(t, pr.as_slice()) {
                    prs = true;
                }
                if t.len() == review.len() && bytes_starts_with(t, review.as_slice()) {
                    assert(t@ =~= t@.subrange(0, review@.len() as int));
                    reviews = true;
                } else {
                    assert(t@.subrange(0, t@.len() as int) =~= t@);
                    assert(t@ != review@);
                }
                i = i + 1;
            }
            TimelineSources { issues, pull_requests: prs, reviews }
        },
    }
}

/// ` AND <column> >= '<start>'` and/or ` AND <column> <= '<end>'`, or
/// nothing when neither bound is given.
pub open spec fn date_clause_spec(
    column: Seq<char>,
    start: Option<Seq<char>>,
    end: Option<Seq<char>>,
) -> Seq<char> {
    let lower = match start {
        Some(s) => seq![' ', 'A', 'N', 'D', ' '] + column + seq![' ', '>', '=', ' ', '\''] + s
            + seq!['\''],
        None => seq![],
    };
    let upper = match end {
        Some(e) => seq![' ', 'A', 'N', 'D', ' '] + column + seq![' ', '<', '=', ' ', '\''] + e
            + seq!['\''],
        None => seq![],
    };
    lower + upper
}

/// The view of an optional string slice.
pub open spec fn opt_str_view(o: Option<&str>) -> Option<Seq<char>> {
    match o {
        Some(s) => Some(s@),
        None => None,
    }
}

fn push_bound(clause: &mut String, column: &str, op: char, value: &str)
    ensures
        final(clause)@ == old(clause)@ + seq![' ', 'A', 'N', 'D', ' '] + column@ + seq![
            ' ',
            op,
            '=',
            ' ',
            '\'',
        ] + value@ + seq!['\''],
{
    push_char(clause, ' ');
    push_char(clause, 'A');
    push_char(clause, 'N');
    push_char(clause, 'D');
    push_char(clause, ' ');
    push_str(clause, column);
    push_char(clause, ' ');
    push_char(clause, op);
    push_char(clause, '=');
    push_char(clause, ' ');
    push_char(clause, '\'');
    push_str(clause, value);
    push_char(clause, '\'');
    assert(final(clause)@ =~= old(clause)@ + seq![' ', 'A', 'N', 'D', ' '] + column@ + seq![
        ' ',
        op,
        '=',
        ' ',
        '\'',
    ] + value@ + seq!['\'']);
}

/// The date-range condition appended to a query on `column`.
pub fn date_filter_clause(column: &str, start: Option<&str>, end: Option<&str>) -> (r: String)
    ensures
        r@ == date_clause_spec(column@, opt_str_view(start), opt_str_view(end)),
{
    let mut clause = String::new();
    if let Some(s) = start {
        push_bound(&mut clause, column, '>', s);
    }
    if let Some(e) = end {
        push_bound(&mut clause, column, '<', e);
    }
    assert(clause@ =~= date_clause_spec(column@, opt_str_view(start), opt_str_view(end)));
    clause
}

/// ` AND author_id = <id>` when a user is given.
pub open spec fn user_clause_spec(user_id: Option<i64>) -> Seq<char> {
    match user_id {
        Some(uid) => seq![' ', 'A', 'N', 'D', ' ', 'a', 'u', 't', 'h', 'o', 'r', '_', 'i', 'd', ' ', '=', ' ']
            + decimal_text(uid as int),
        None => seq![],
    }
}

/// The author condition appended to a timeline query.
pub fn user_filter_clause(user_id: Option<i64>) -> (r: String)
    ensures
        r@ == user_clause_spec(user_id),
{
    let mut clause = String::new();
    if let Some(uid) = user_id {
        let text = " AND author_id = ";
        proof {
            reveal_strlit(" AND author_id = ");
        }
        push_str(&mut clause, text);
        push_decimal_i64(&mut clause, uid);
        assert(clause@ =~= user_clause_spec(user_id));
    } else {
        assert(clause@ =~= user_clause_spec(user_id));
    }
    clause
}

/// Weekday names, Sunday first, as numbered by SQLite's `%w`.
pub open spec fn weekday_name_spec(index: int) -> Seq<char> {
    if index == 0 {
        seq!['S', 'u', 'n', 'd', 'a', 'y']
    } else if index == 1 {
        seq!['M', 'o', 'n', 'd', 'a', 'y']
    } else if index == 2 {
        seq!['T', 'u', 'e', 's', 'd', 'a', 'y']
    } else if index == 3 {
        seq!['W', 'e', 'd', 'n', 'e', 's', 'd', 'a', 'y']
    } else if index == 4 {
        seq!['T', 'h', 'u', 'r', 's', 'd', 'a', 'y']
    } else if index == 5 {
        seq!['F', 'r', 'i', 'd', 'a', 'y']
    } else {
        seq!['S', 'a', 't', 'u', 'r', 'd', 'a', 'y']
    }
}

/// The name of a weekday number from `0` (Sunday) to `6` (Saturday).
pub fn weekday_name(index: usize) -> (r: String)
    requires
        index < 7,
    ensures
        r@ == weekday_name_spec(index as int),
{
    let name = if index == 0 {
        "Sunday"
    } else if index == 1 {
        "Monday"
    } else if index == 2 {
        "Tuesday"
    } else if index == 3 {
        "Wednesday"
    } else if index == 4 {
        "Thursday"
    } else if index == 5 {
        "Friday"
    } else {
        "Saturday"
    };
    proof {
        reveal_strlit("Sunday");
        reveal_strlit("Monday");
        reveal_strlit("Tuesday");
        reveal_strlit("Wednesday");
        reveal_strlit("Thursday");
        reveal_strlit("Friday");
        reveal_strlit("Saturday");
    }
    let r = String::from_str(name);
    assert(r@ =~= weekday_name_spec(index as int));
    r
}

/// The kinds of events a repository timeline is made of.
#[derive(Debug, Clone, Copy, PartialEq, Eq, Structural)]
pub enum TimelineKind {
    IssueOpened,
    IssueClosed,
    PrOpened,
    PrMerged,
    Review,
}

/// The event type a kind is shown with.
pub open spec fn kind_name(k: TimelineKind) -> Seq<char> {
    match k {
        TimelineKind::IssueOpened => "issue_opened"@,
        TimelineKind::IssueClosed => "issue_closed"@,
        TimelineKind::PrOpened => "pr_opened"@,
        TimelineKind::PrMerged => "pr_merged"@,
        TimelineKind::Review => "review"@,
    }
}

/// The id of an event: `issue-<id>-opened`, `issue-<id>-closed`,
/// `pr-<id>-opened`, `pr-<id>-merged` or `review-<id>`, where `<id>` is
/// the database id of the issue, pull request or review.
pub open spec fn event_id_spec(k: TimelineKind, item_id: int) -> Seq<char> {
    match k {
        TimelineKind::IssueOpened => "issue-"@ + decimal_text(item_id) + "-opened"@,
        TimelineKind::IssueClosed => "issue-"@ + decimal_text(item_id) + "-closed"@,
        TimelineKind::PrOpened => "pr-"@ + decimal_text(item_id) + "-opened"@,
        TimelineKind::PrMerged => "pr-"@ + decimal_text(item_id) + "-merged"@,
        TimelineKind::Review => "review-"@ + decimal_text(item_id),
    }
}

/// The event type of a kind (`issue_opened`, `issue_closed`, `pr_opened`,
/// `pr_merged` or `review`).
pub fn timeline_kind_name(k: TimelineKind) -> (r: String)
    ensures
        r@ == kind_name(k),
{
    let mut r = String::new();
    match k {
        TimelineKind::IssueOpened => push_str(&mut r, "issue_opened"),
        TimelineKind::IssueClosed => push_str(&mut r, "issue_closed"),
        TimelineKind::PrOpened => push_str(&mut r, "pr_opened"),
        TimelineKind::PrMerged => push_str(&mut r, "pr_merged"),
        TimelineKind::Review => push_str(&mut r, "review"),
    }
    r
}

/// The id of the event of kind `k` for the item with database id
/// `item_id`.
pub fn timeline_event_id(k: TimelineKind, item_id: i64) -> (r: String)
    ensures
        r@ == event_id_spec(k, item_id as int),
{
    let mut r = String::new();
    match k {
        TimelineKind::IssueOpened | TimelineKind::IssueClosed => push_str(&mut r, "issue-"),
        TimelineKind::PrOpened | TimelineKind::PrMerged => push_str(&mut r, "pr-"),
        TimelineKind::Review => push_str(&mut r, "review-"),
    }
    push_decimal_i64(&mut r, item_id);
    match k {
        TimelineKind::IssueOpened | TimelineKind::PrOpened => push_str(&mut r, "-opened"),
        TimelineKind::IssueClosed => push_str(&mut r, "-closed"),
        TimelineKind::PrMerged => push_str(&mut r, "-merged"),
        TimelineKind::Review => {},
    }
    r
}

} // verus!
