//! The counts and totals behind the dashboard metrics: how many issues are
//! closed and how long they took in business days, how many pull requests
//! are merged, large, or closed unmerged, their sizes, and how many issues
//! carry a bug label. Averages and rates are ratios of these.

use crate::db::models::{Issue, PullRequest};
use crate::metrics::business_days::{business_days_between, business_days_between_spec,
    business_days_spec, lemma_business_days_bounds, parse_date_spec};
use vstd::prelude::*;

verus! {

broadcast use vstd::seq_lib::group_seq_properties;

/// How many elements of `s` satisfy `p`.
pub open spec fn count_spec<T>(s: Seq<T>, p: spec_fn(T) -> bool) -> int
    decreases s.len(),
{
    if s.len() == 0 {
        0
    } else {
        count_spec(s.drop_last(), p) + if p(s.last()) {
            1int
        } else {
            0int
        }
    }
}

/// The sum of `f` over `s`.
pub open spec fn sum_spec<T>(s: Seq<T>, f: spec_fn(T) -> int) -> int
    decreases s.len(),
{
    if s.len() == 0 {
        0
    } else {
        sum_spec(s.drop_last(), f) + f(s.last())
    }
}

proof fn lemma_take_step<T>(s: Seq<T>, i: int)
    requires
        0 <= i < s.len(),
    ensures
        s.take(i + 1).drop_last() == s.take(i),
        s.take(i + 1).last() == s[i],
{
    assert(s.take(i + 1).drop_last() =~= s.take(i));
}

/// A count is never negative and never exceeds the number of items, so
/// every rate built as a count over the item count lies between 0 and 1.
pub proof fn lemma_count_bounded<T>(s: Seq<T>, p: spec_fn(T) -> bool)
    ensures
        0 <= count_spec(s, p) <= s.len(),
    decreases s.len(),
{
    if s.len() > 0 {
        lemma_count_bounded(s.drop_last(), p);
    }
}

/// Rejected pull requests are never merged ones: together they are at
/// most all pull requests.
pub proof fn lemma_rejected_and_merged_disjoint(s: Seq<PullRequest>)
    ensures
        count_spec(s, pr_rejected()) + count_spec(s, pr_merged()) <= s.len(),
    decreases s.len(),
{
    if s.len() > 0 {
        lemma_rejected_and_merged_disjoint(s.drop_last());
    }
}

pub open spec fn issue_closed() -> spec_fn(Issue) -> bool {
    |i: Issue| i.closed_at is Some
}

pub open spec fn pr_merged() -> spec_fn(PullRequest) -> bool {
    |p: PullRequest| p.merged_at is Some
}

/// Closed without being merged: a rejected pull request.
pub open spec fn pr_rejected() -> spec_fn(PullRequest) -> bool {
    |p: PullRequest| p.closed_at is Some && p.merged_at is None
}

/// More than 500 lines changed.
pub open spec fn pr_large() -> spec_fn(PullRequest) -> bool {
    |p: PullRequest| p.additions + p.deletions > 500
}

pub open spec fn pr_lines() -> spec_fn(PullRequest) -> int {
    |p: PullRequest| p.additions + p.deletions
}

pub open spec fn pr_comments() -> spec_fn(PullRequest) -> int {
    |p: PullRequest| p.review_comments as int
}

/// Business days from creation to closing (0 while open).
pub open spec fn cycle_days() -> spec_fn(Issue) -> int {
    |i: Issue| match i.closed_at {
        Some(c) => business_days_between_spec(i.created_at@, c@),
        None => 0,
    }
}

/// Business days from opening to merging (0 while unmerged).
pub open spec fn lead_days() -> spec_fn(PullRequest) -> int {
    |p: PullRequest| match p.merged_at {
        Some(m) => business_days_between_spec(p.created_at@, m@),
        None => 0,
    }
}

/// An issue label that is one of the bug labels.
pub open spec fn has_bug_label(bug_labels: Seq<Seq<char>>) -> spec_fn(Issue) -> bool {
    |i: Issue| exists|a: int, b: int|
        0 <= a < i.labels@.len() && 0 <= b < bug_labels.len() && (#[trigger] i.labels@[a])@ == #[trigger] bug_labels[b]
}

pub open spec fn text_views(v: Seq<String>) -> Seq<Seq<char>> {
    v.map_values(|s: String| s@)
}

/// How each issue metric grows by one more issue: the closed count by
/// one exactly when it has a closing date; the cycle-time total by the
/// business days from its creation to its closing (nothing while open);
/// the bug count by one exactly when one of its labels is a bug label.
/// With no issues every metric is 0.
pub proof fn lemma_issue_metric_steps(s: Seq<Issue>, x: Issue, bug_labels: Seq<Seq<char>>)
    ensures
        count_spec(s.push(x), issue_closed()) == count_spec(s, issue_closed()) + if x.closed_at is Some {
            1int
        } else {
            0int
        },
        sum_spec(s.push(x), cycle_days()) == sum_spec(s, cycle_days()) + match x.closed_at {
            Some(c) => business_days_between_spec(x.created_at@, c@),
            None => 0,
        },
        count_spec(s.push(x), has_bug_label(bug_labels)) == count_spec(s, has_bug_label(bug_labels)) + if exists|
            a: int,
            b: int,
        | 0 <= a < x.labels@.len() && 0 <= b < bug_labels.len() && (#[trigger] x.labels@[a])@ == #[trigger] bug_labels[b] {
            1int
        } else {
            0int
        },
        count_spec(Seq::<Issue>::empty(), issue_closed()) == 0,
        sum_spec(Seq::<Issue>::empty(), cycle_days()) == 0,
{
    assert(s.push(x).drop_last() =~= s);
}

/// How each pull-request metric grows by one more pull request: merged
/// count by one exactly when it has a merge date; rejected count by one
/// exactly when it is closed without a merge date; large count by one
/// exactly when more than 500 lines changed; the line total by its added
/// plus deleted lines; the comment total by its review comments.
pub proof fn lemma_pr_metric_steps(s: Seq<PullRequest>, x: PullRequest)
    ensures
        count_spec(s.push(x), pr_merged()) == count_spec(s, pr_merged()) + if x.merged_at is Some {
            1int
        } else {
            0int
        },
        count_spec(s.push(x), pr_rejected()) == count_spec(s, pr_rejected()) + if x.closed_at is Some
            && x.merged_at is None {
            1int
        } else {
            0int
        },
        count_spec(s.push(x), pr_large()) == count_spec(s, pr_large()) + if x.additions + x.deletions > 500 {
            1int
        } else {
            0int
        },
        sum_spec(s.push(x), pr_lines()) == sum_spec(s, pr_lines()) + x.additions + x.deletions,
        sum_spec(s.push(x), pr_comments()) == sum_spec(s, pr_comments()) + x.review_comments,
{
    assert(s.push(x).drop_last() =~= s);
}

/// Number of closed issues.
pub fn closed_issue_count(issues: &[Issue]) -> (n: usize)
    ensures
        n == count_spec(issues@, issue_closed()),
{
    let mut n: usize = 0;
    let mut i: usize = 0;
    while i < issues.len()
        invariant
            0 <= i <= issues@.len(),
            n == count_spec(issues@.take(i as int), issue_closed()),
            n <= i,
        decreases issues@.len() - i,
    {
        proof {
            lemma_take_step(issues@, i as int);
        }
        if issues[i].closed_at.is_some() {
            n = n + 1;
        }
        i = i + 1;
    }
    assert(issues@.take(issues@.len() as int) =~= issues@);
    n
}

/// Number of merged pull requests.
pub fn merged_pr_count(prs: &[PullRequest]) -> (n: usize)
    ensures
        n == count_spec(prs@, pr_merged()),
{
    let mut n: usize = 0;
    let mut i: usize = 0;
    while i < prs.len()
        invariant
            0 <= i <= prs@.len(),
            n == count_spec(prs@.take(i as int), pr_merged()),
            n <= i,
        decreases prs@.len() - i,
    {
        proof {
            lemma_take_step(prs@, i as int);
        }
        if prs[i].merged_at.is_some() {
            n = n + 1;
        }
        i = i + 1;
    }
    assert(prs@.take(prs@.len() as int) =~= prs@);
    n
}

/// Number of pull requests closed without being merged.
pub fn rejected_pr_count(prs: &[PullRequest]) -> (n: usize)
    ensures
        n == count_spec(prs@, pr_rejected()),
{
    let mut n: usize = 0;
    let mut i: usize = 0;
    while i < prs.len()
        invariant
            0 <= i <= prs@.len(),
            n == count_spec(prs@.take(i as int), pr_rejected()),
            n <= i,
        decreases prs@.len() - i,
    {
        proof {
            lemma_take_step(prs@, i as int);
        }
        if prs[i].closed_at.is_some() && prs[i].merged_at.is_none() {
            n = n + 1;
        }
        i = i + 1;
    }
    assert(prs@.take(prs@.len() as int) =~= prs@);
    n
}

/// The line counts of every pull request fit an `i32`.
pub open spec fn pr_lines_fit(prs: Seq<PullRequest>) -> bool {
    forall|k: int| 0 <= k < prs.len() ==> i32::MIN <= (#[trigger] prs[k]).additions + prs[k].deletions <= i32::MAX
}

/// Number of pull requests changing more than 500 lines.
pub fn large_pr_count(prs: &[PullRequest]) -> (n: usize)
    requires
        pr_lines_fit(prs@),
    ensures
        n == count_spec(prs@, pr_large()),
{
    let mut n: usize = 0;
    let mut i: usize = 0;
    while i < prs.len()
        invariant
            0 <= i <= prs@.len(),
            pr_lines_fit(prs@),
            n == count_spec(prs@.take(i as int), pr_large()),
            n <= i,
        decreases prs@.len() - i,
    {
        proof {
            lemma_take_step(prs@, i as int);
        }
        assert(i32::MIN <= prs@[i as int].additions + prs@[i as int].deletions <= i32::MAX);
        if prs[i].additions + prs[i].deletions > 500 {
            n = n + 1;
        }
        i = i + 1;
    }
    assert(prs@.take(prs@.len() as int) =~= prs@);
    n
}

/// Every running total of `f` over `s` fits an `i32`.
pub open spec fn running_sums_fit<T>(s: Seq<T>, f: spec_fn(T) -> int) -> bool {
    forall|k: int| 0 <= k <= s.len() ==> i32::MIN <= #[trigger] sum_spec(s.take(k), f) <= i32::MAX
}

/// Total lines changed over all pull requests.
pub fn total_pr_lines(prs: &[PullRequest]) -> (t: i32)
    requires
        pr_lines_fit(prs@),
        running_sums_fit(prs@, pr_lines()),
    ensures
        t == sum_spec(prs@, pr_lines()),
{
    let mut t: i32 = 0;
    let mut i: usize = 0;
    assert(prs@.take(0) =~= Seq::<PullRequest>::empty());
    while i < prs.len()
        invariant
            0 <= i <= prs@.len(),
            pr_lines_fit(prs@),
            running_sums_fit(prs@, pr_lines()),
            t == sum_spec(prs@.take(i as int), pr_lines()),
        decreases prs@.len() - i,
    {
        proof {
            lemma_take_step(prs@, i as int);
        }
        assert(i32::MIN <= sum_spec(prs@.take(i + 1), pr_lines()) <= i32::MAX);
        assert(i32::MIN <= prs@[i as int].additions + prs@[i as int].deletions <= i32::MAX);
        let lines = prs[i].additions + prs[i].deletions;
        t = t + lines;
        i = i + 1;
    }
    assert(prs@.take(prs@.len() as int) =~= prs@);
    t
}

/// Total review comments over all pull requests.
pub fn total_review_comments(prs: &[PullRequest]) -> (t: i32)
    requires
        running_sums_fit(prs@, pr_comments()),
    ensures
        t == sum_spec(prs@, pr_comments()),
{
    let mut t: i32 = 0;
    let mut i: usize = 0;
    assert(prs@.take(0) =~= Seq::<PullRequest>::empty());
    while i < prs.len()
        invariant
            0 <= i <= prs@.len(),
            running_sums_fit(prs@, pr_comments()),
            t == sum_spec(prs@.take(i as int), pr_comments()),
        decreases prs@.len() - i,
    {
        proof {
            lemma_take_step(prs@, i as int);
        }
        assert(i32::MIN <= sum_spec(prs@.take(i + 1), pr_comments()) <= i32::MAX);
        t = t + prs[i].review_comments;
        i = i + 1;
    }
    assert(prs@.take(prs@.len() as int) =~= prs@);
    t
}

/// A business-day count between two date texts is between 0 and the
/// number of days an `i32` day range can span.
proof fn lemma_between_bounds(a: Seq<char>, b: Seq<char>)
    ensures
        0 <= business_days_between_spec(a, b) <= 0x1_0000_0000,
{
    match (parse_date_spec(a), parse_date_spec(b)) {
        (Some(s), Some(e)) => {
            lemma_business_days_bounds(s, e);
        },
        _ => {},
    }
}

/// Total business days from creation to closing over the closed issues.
pub fn total_cycle_days(issues: &[Issue]) -> (t: i128)
    ensures
        t == sum_spec(issues@, cycle_days()),
        (forall|i: int| 0 <= i < issues@.len() ==> (#[trigger] issues@[i]).closed_at is None) ==> t == 0,
{
    let mut t: i128 = 0;
    let mut i: usize = 0;
    assert(issues@.take(0) =~= Seq::<Issue>::empty());
    while i < issues.len()
        invariant
            0 <= i <= issues@.len(),
            t == sum_spec(issues@.take(i as int), cycle_days()),
            0 <= t <= i * 0x1_0000_0000,
        decreases issues@.len() - i,
    {
        proof {
            lemma_take_step(issues@, i as int);
        }
        let issue = &issues[i];
        if let Some(closed) = &issue.closed_at {
            proof {
                lemma_between_bounds(issue.created_at@, closed@);
            }
            let d = business_days_between(issue.created_at.as_str(), closed.as_str());
            t = t + d as i128;
        }
        i = i + 1;
    }
    assert(issues@.take(issues@.len() as int) =~= issues@);
    proof {
        lemma_open_issues_no_cycle_days(issues@);
    }
    t
}

/// Issues still open add nothing to the cycle-time total.
pub proof fn lemma_open_issues_no_cycle_days(issues: Seq<Issue>)
    ensures
        (forall|i: int| 0 <= i < issues.len() ==> (#[trigger] issues[i]).closed_at is None) ==> sum_spec(
            issues,
            cycle_days(),
        ) == 0,
    decreases issues.len(),
{
    if issues.len() > 0 && forall|i: int| 0 <= i < issues.len() ==> (#[trigger] issues[i]).closed_at is None {
        lemma_open_issues_no_cycle_days(issues.drop_last());
        assert(issues.last().closed_at is None);
        let d = issues.drop_last();
        assert forall|i: int| 0 <= i < d.len() implies (#[trigger] d[i]).closed_at is None by {
            assert(d[i] == issues[i]);
        }
    }
}

/// Total business days from opening to merging over the merged pull
/// requests.
pub fn total_lead_days(prs: &[PullRequest]) -> (t: i128)
    ensures
        t == sum_spec(prs@, lead_days()),
        (forall|i: int| 0 <= i < prs@.len() ==> (#[trigger] prs@[i]).merged_at is None) ==> t == 0,
{
    let mut t: i128 = 0;
    let mut i: usize = 0;
    assert(prs@.take(0) =~= Seq::<PullRequest>::empty());
    while i < prs.len()
        invariant
            0 <= i <= prs@.len(),
            t == sum_spec(prs@.take(i as int), lead_days()),
            0 <= t <= i * 0x1_0000_0000,
        decreases prs@.len() - i,
    {
        proof {
            lemma_take_step(prs@, i as int);
        }
        let pr = &prs[i];
        if let Some(merged) = &pr.merged_at {
            proof {
                lemma_between_bounds(pr.created_at@, merged@);
            }
            let d = business_days_between(pr.created_at.as_str(), merged.as_str());
            t = t + d as i128;
        }
        i = i + 1;
    }
    assert(prs@.take(prs@.len() as int) =~= prs@);
    proof {
        lemma_unmerged_add_no_lead_days(prs@);
    }
    t
}

/// Lead time counts merged pull requests only: one more pull request adds
/// the business days from its creation to its merge when it is merged,
/// and nothing otherwise, whether it is open or closed unmerged.
pub proof fn lemma_lead_days_step(prs: Seq<PullRequest>, p: PullRequest)
    ensures
        sum_spec(prs.push(p), lead_days()) == sum_spec(prs, lead_days()) + match p.merged_at {
            Some(m) => business_days_between_spec(p.created_at@, m@),
            None => 0,
        },
        p.merged_at is None ==> sum_spec(prs.push(p), lead_days()) == sum_spec(prs, lead_days()),
{
    assert(prs.push(p).drop_last() =~= prs);
}

/// Pull requests that were never merged have no lead time in total,
/// whatever their closing dates.
pub proof fn lemma_unmerged_add_no_lead_days(prs: Seq<PullRequest>)
    ensures
        (forall|i: int| 0 <= i < prs.len() ==> (#[trigger] prs[i]).merged_at is None) ==> sum_spec(
            prs,
            lead_days(),
        ) == 0,
    decreases prs.len(),
{
    if prs.len() > 0 && forall|i: int| 0 <= i < prs.len() ==> (#[trigger] prs[i]).merged_at is None {
        lemma_unmerged_add_no_lead_days(prs.drop_last());
        assert(prs.last().merged_at is None);
        let d = prs.drop_last();
        assert forall|i: int| 0 <= i < d.len() implies (#[trigger] d[i]).merged_at is None by {
            assert(d[i] == prs[i]);
        }
    }
}

fn is_bug_issue(issue: &Issue, bug_labels: &[String]) -> (r: bool)
    ensures
        r == has_bug_label(text_views(bug_labels@))(*issue),
{
    let ghost bugs = text_views(bug_labels@);
    let mut a: usize = 0;
    while a < issue.labels.len()
        invariant
            0 <= a <= issue.labels@.len(),
            bugs == text_views(bug_labels@),
            forall|x: int, y: int|
                0 <= x < a && 0 <= y < bugs.len() ==> (#[trigger] issue.labels@[x])@ != #[trigger] bugs[y],
        decreases issue.labels@.len() - a,
    {
        let mut b: usize = 0;
        while b < bug_labels.len()
            invariant
                0 <= a < issue.labels@.len(),
                0 <= b <= bug_labels@.len(),
                bugs == text_views(bug_labels@),
                forall|y: int| 0 <= y < b ==> issue.labels@[a as int]@ != #[trigger] bugs[y],
            decreases bug_labels@.len() - b,
        {
            if issue.labels[a] == bug_labels[b] {
                assert(issue.labels@[a as int]@ == bugs[b as int]);
                return true;
            }
            b = b + 1;
        }
        a = a + 1;
    }
    false
}

/// Number of issues carrying one of the bug labels.
pub fn bug_issue_count(issues: &[Issue], bug_labels: &[String]) -> (n: usize)
    ensures
        n == count_spec(issues@, has_bug_label(text_views(bug_labels@))),
{
    let mut n: usize = 0;
    let mut i: usize = 0;
    while i < issues.len()
        invariant
            0 <= i <= issues@.len(),
            n == count_spec(issues@.take(i as int), has_bug_label(text_views(bug_labels@))),
            n <= i,
        decreases issues@.len() - i,
    {
        proof {
            lemma_take_step(issues@, i as int);
        }
        if is_bug_issue(&issues[i], bug_labels) {
            n = n + 1;
        }
        i = i + 1;
    }
    assert(issues@.take(issues@.len() as int) =~= issues@);
    n
}

} // verus!
