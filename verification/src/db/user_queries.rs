//! User-centric view: activity status, activity trend merging, the
//! collaboration matrix and the ranking of repository contributions.

use crate::calendar::{parse_rfc3339, rfc3339_instant};
use crate::db::models::User;
use crate::embeddings::generator::opt_view;
use crate::ordering::{bytes_key, bytes_less, key_lt, lemma_key_lt_asymmetric,
    in_order, lemma_key_lt_irreflexive, lemma_key_lt_total, lemma_key_lt_transitive, sorted_by_key,
    stable_sort_by_key, with_key, SortKey};
use crate::text::{push_char, push_str};
use vstd::prelude::*;
use vstd::utf8::encode_utf8;

verus! {

broadcast use vstd::seq_lib::group_seq_properties, vstd::utf8::encode_utf8_decode_utf8;

#[derive(Debug, Clone)]
pub struct UserSummary {
    pub user: User,
    pub total_commits: i32,
    pub total_prs_created: i32,
    pub total_prs_merged: i32,
    pub total_prs_reviewed: i32,
    pub total_issues_opened: i32,
    pub total_issues_closed: i32,
    pub lines_added: i32,
    pub lines_deleted: i32,
    pub repositories_touched: i32,
    pub first_activity: Option<String>,
    pub last_activity: Option<String>,
    pub activity_status: String,
}

// ---------------------------------------------------------------------------
// Activity status
// ---------------------------------------------------------------------------

/// `active` with at least three recent items or activity in the last three
/// days, else `quiet` with at least one recent item or activity in the last
/// week, else `idle`; `idle` as well when the last activity is unknown.
pub open spec fn activity_status_spec(days_since: Option<i64>, recent_count: i32) -> Seq<char> {
    match days_since {
        None => seq!['i', 'd', 'l', 'e'],
        Some(d) => if recent_count >= 3 || d <= 3 {
            seq!['a', 'c', 't', 'i', 'v', 'e']
        } else if recent_count >= 1 || d <= 7 {
            seq!['q', 'u', 'i', 'e', 't']
        } else {
            seq!['i', 'd', 'l', 'e']
        },
    }
}

/// Classify a user's activity from the days since the last activity (when
/// it is known) and the number of items in the last seven days.
pub fn classify_activity(days_since: Option<i64>, recent_count: i32) -> (r: String)
    ensures
        r@ == activity_status_spec(days_since, recent_count),
{
    let text = match days_since {
        None => "idle",
        Some(d) => if recent_count >= 3 || d <= 3 {
            "active"
        } else if recent_count >= 1 || d <= 7 {
            "quiet"
        } else {
            "idle"
        },
    };
    proof {
        reveal_strlit("idle");
        reveal_strlit("active");
        reveal_strlit("quiet");
    }
    let r = String::from_str(text);
    assert(r@ =~= activity_status_spec(days_since, recent_count));
    r
}

/// Seconds since midnight (UTC) of an instant.
pub open spec fn second_of_day(t: (int, int)) -> int {
    t.0 % 86400
}

/// Nanoseconds from `earlier` to `later` as `chrono` measures
/// `later - earlier`: the difference of seconds and of nanoseconds, plus
/// the leap second that one of them sits in when the other lies later in
/// its day.
pub open spec fn elapsed_nanos(earlier: (int, int), later: (int, int)) -> int {
    let leap = if second_of_day(later) > second_of_day(earlier) && earlier.1 >= 1_000_000_000 {
        1int
    } else if second_of_day(later) < second_of_day(earlier) && later.1 >= 1_000_000_000 {
        -1int
    } else {
        0int
    };
    (later.0 - earlier.0 + leap) * 1_000_000_000 + (later.1 - earlier.1)
}

/// Division rounded toward zero.
pub open spec fn div_toward_zero(a: int, d: int) -> int {
    if a >= 0 {
        a / d
    } else {
        -((-a) / d)
    }
}

/// Whole days from `earlier` to `later`, as `chrono`'s `num_days` counts
/// them: whole seconds, then whole days, each rounded toward zero.
pub open spec fn whole_days_spec(earlier: (int, int), later: (int, int)) -> int {
    div_toward_zero(div_toward_zero(elapsed_nanos(earlier, later), 1_000_000_000), 86400)
}

fn second_of_day_exec(t: i64) -> (r: i128)
    ensures
        r == (t as int) % 86400,
{
    let shifted: i128 = t as i128 + 9223372036854806400;
    proof {
        vstd::arithmetic::div_mod::lemma_mod_multiples_vanish(106751991167301, t as int, 86400);
    }
    shifted % 86400
}

/// Whole days between two instants, each given as seconds since the Unix
/// epoch and nanoseconds within the second.
pub fn whole_days_between(earlier: (i64, u32), later: (i64, u32)) -> (d: i64)
    ensures
        d == whole_days_spec((earlier.0 as int, earlier.1 as int), (later.0 as int, later.1 as int)),
{
    let se = second_of_day_exec(earlier.0);
    let sl = second_of_day_exec(later.0);
    let leap: i128 = if sl > se && earlier.1 >= 1_000_000_000 {
        1
    } else if sl < se && later.1 >= 1_000_000_000 {
        -1
    } else {
        0
    };
    let diff: i128 = (later.0 as i128 - earlier.0 as i128 + leap) * 1_000_000_000 + (later.1 as i128
        - earlier.1 as i128);
    let secs: i128 = if diff >= 0 {
        diff / 1_000_000_000
    } else {
        -((-diff) / 1_000_000_000)
    };
    assert(-18446744073709551630 <= secs <= 18446744073709551630) by (nonlinear_arith)
        requires
            -18446744073709551617000000000 - 4294967295 <= diff <= 18446744073709551617000000000
                + 4294967295,
            secs == div_toward_zero(diff as int, 1_000_000_000),
    ;
    let days: i128 = if secs >= 0 {
        secs / 86400
    } else {
        -((-secs) / 86400)
    };
    assert(-213503982334602 <= days <= 213503982334602) by (nonlinear_arith)
        requires
            -18446744073709551630 <= secs <= 18446744073709551630,
            days == div_toward_zero(secs as int, 86400),
    ;
    days as i64
}

/// Whole days since the last activity, when it is known and reads as
/// RFC 3339.
pub open spec fn days_since_spec(last_activity: Option<Seq<char>>, now: (i64, u32)) -> Option<i64> {
    match last_activity {
        None => None,
        Some(t) => match rfc3339_instant(t) {
            None => None,
            Some(instant) => Some(
                whole_days_spec((instant.0 as int, instant.1 as int), (now.0 as int, now.1 as int)) as i64,
            ),
        },
    }
}

/// The activity status of a user from the time of the last activity (an
/// RFC 3339 text, if any), the current time (seconds and nanoseconds since
/// the Unix epoch) and the number of items in the last seven days.
pub fn activity_status(last_activity: &Option<String>, now: (i64, u32), recent_count: i32) -> (r: String)
    ensures
        r@ == activity_status_spec(days_since_spec(opt_view(*last_activity), now), recent_count),
{
    let days_since = match last_activity {
        None => None,
        Some(t) => match parse_rfc3339(t.as_str()) {
            None => None,
            Some(instant) => Some(whole_days_between((instant.0, instant.1), now)),
        },
    };
    classify_activity(days_since, recent_count)
}

// ---------------------------------------------------------------------------
// Activity trend
// ---------------------------------------------------------------------------

#[derive(Debug, Clone)]
pub struct ActivityDataPoint {
    pub timestamp: String,
    pub pr_count: i32,
    pub review_count: i32,
    pub issue_count: i32,
    pub total_activity: i32,
}

/// The key by which texts are ordered (their UTF-8 bytes).
pub open spec fn text_key(s: Seq<char>) -> Seq<int> {
    bytes_key(encode_utf8(s))
}

pub proof fn lemma_text_key_injective(a: Seq<char>, b: Seq<char>)
    ensures
        text_key(a) == text_key(b) ==> a == b,
{
    if text_key(a) == text_key(b) {
        let x = encode_utf8(a);
        let y = encode_utf8(b);
        assert(x.len() == text_key(a).len());
        assert(y.len() == text_key(b).len());
        assert forall|i: int| 0 <= i < x.len() implies x[i] == y[i] by {
            assert(text_key(a)[i] == x[i] as int);
            assert(text_key(b)[i] == y[i] as int);
        }
        assert(x =~= y);
        vstd::utf8::encode_utf8_decode_utf8(a);
        vstd::utf8::encode_utf8_decode_utf8(b);
    }
}

/// Compare two texts by their bytes.
fn text_less(a: &String, b: &String) -> (r: bool)
    ensures
        r == key_lt(text_key(a@), text_key(b@)),
{
    bytes_less(a.as_str().as_bytes(), b.as_str().as_bytes())
}

/// The views of a list of (period, count) pairs.
pub open spec fn pair_views(v: Seq<(String, i32)>) -> Seq<(Seq<char>, i32)> {
    v.map_values(|p: (String, i32)| (p.0@, p.1))
}

/// The count given for period `p` by its last occurrence in the list, or 0.
pub open spec fn last_count(list: Seq<(Seq<char>, i32)>, p: Seq<char>) -> i32
    decreases list.len(),
{
    if list.len() == 0 {
        0
    } else if list.last().0 == p {
        list.last().1
    } else {
        last_count(list.drop_last(), p)
    }
}

/// The period `p` occurs in the list.
pub open spec fn appears(list: Seq<(Seq<char>, i32)>, p: Seq<char>) -> bool {
    exists|i: int| 0 <= i < list.len() && (#[trigger] list[i]).0 == p
}

/// A point carries, for its period, the counts of the three lists.
pub open spec fn point_counts_match(
    pt: ActivityDataPoint,
    prs: Seq<(Seq<char>, i32)>,
    reviews: Seq<(Seq<char>, i32)>,
    issues: Seq<(Seq<char>, i32)>,
) -> bool {
    &&& pt.pr_count == last_count(prs, pt.timestamp@)
    &&& pt.review_count == last_count(reviews, pt.timestamp@)
    &&& pt.issue_count == last_count(issues, pt.timestamp@)
}

/// Periods strictly ascending by their bytes (so all distinct).
pub open spec fn strictly_ascending(points: Seq<ActivityDataPoint>) -> bool {
    forall|i: int, j: int|
        0 <= i < j < points.len() ==> key_lt(
            text_key((#[trigger] points[i]).timestamp@),
            text_key((#[trigger] points[j]).timestamp@),
        )
}

/// The periods present are exactly those of the three lists.
pub open spec fn covers_periods(
    points: Seq<ActivityDataPoint>,
    prs: Seq<(Seq<char>, i32)>,
    reviews: Seq<(Seq<char>, i32)>,
    issues: Seq<(Seq<char>, i32)>,
) -> bool {
    forall|p: Seq<char>|
        (exists|i: int| 0 <= i < points.len() && (#[trigger] points[i]).timestamp@ == p) <==> (
        appears(prs, p) || appears(reviews, p) || appears(issues, p))
}

/// The invariant of the points while the three lists are merged.
pub open spec fn trend_state(
    points: Seq<ActivityDataPoint>,
    prs: Seq<(Seq<char>, i32)>,
    reviews: Seq<(Seq<char>, i32)>,
    issues: Seq<(Seq<char>, i32)>,
) -> bool {
    &&& strictly_ascending(points)
    &&& covers_periods(points, prs, reviews, issues)
    &&& forall|i: int| 0 <= i < points.len() ==> point_counts_match(#[trigger] points[i], prs, reviews, issues)
}

/// The sum of the three counts fits an `i32` for every period.
pub open spec fn totals_fit(
    prs: Seq<(Seq<char>, i32)>,
    reviews: Seq<(Seq<char>, i32)>,
    issues: Seq<(Seq<char>, i32)>,
) -> bool {
    forall|p: Seq<char>|
        #![trigger last_count(prs, p), last_count(reviews, p), last_count(issues, p)]
        i32::MIN <= last_count(prs, p) + last_count(reviews, p) + last_count(issues, p) <= i32::MAX
}

proof fn lemma_last_count_push(list: Seq<(Seq<char>, i32)>, e: (Seq<char>, i32), p: Seq<char>)
    ensures
        last_count(list.push(e), p) == if e.0 == p {
            e.1
        } else {
            last_count(list, p)
        },
        appears(list.push(e), p) == (appears(list, p) || e.0 == p),
{
    assert(list.push(e).drop_last() =~= list);
    if appears(list.push(e), p) {
        let i = choose|i: int| 0 <= i < list.push(e).len() && (#[trigger] list.push(e)[i]).0 == p;
        if i < list.len() {
            assert(list[i] == list.push(e)[i]);
        }
    }
    if appears(list, p) {
        let i = choose|i: int| 0 <= i < list.len() && (#[trigger] list[i]).0 == p;
        assert(list.push(e)[i] == list[i]);
    }
    if e.0 == p {
        assert(list.push(e)[list.len() as int] == e);
    }
}

proof fn lemma_last_count_absent(list: Seq<(Seq<char>, i32)>, p: Seq<char>)
    requires
        !appears(list, p),
    ensures
        last_count(list, p) == 0,
    decreases list.len(),
{
    if list.len() > 0 {
        assert(list[list.len() - 1] == list.last());
        assert forall|i: int| 0 <= i < list.drop_last().len() implies (#[trigger] list.drop_last()[i]).0 != p by {
            assert(list.drop_last()[i] == list[i]);
        }
        lemma_last_count_absent(list.drop_last(), p);
    }
}

fn copy_point(pt: &ActivityDataPoint, pr: i32, review: i32, issue: i32) -> (r: ActivityDataPoint)
    ensures
        r.timestamp@ == pt.timestamp@,
        r.pr_count == pr,
        r.review_count == review,
        r.issue_count == issue,
        r.total_activity == 0,
{
    ActivityDataPoint {
        timestamp: pt.timestamp.clone(),
        pr_count: pr,
        review_count: review,
        issue_count: issue,
        total_activity: 0,
    }
}

/// Merges one list of (period, count) pairs into the points; `kind` says
/// which count it gives (0: pull requests, 1: reviews, 2: issues).
fn absorb_counts(
    points: &mut Vec<ActivityDataPoint>,
    list: &Vec<(String, i32)>,
    kind: u8,
    Ghost(prs): Ghost<Seq<(Seq<char>, i32)>>,
    Ghost(reviews): Ghost<Seq<(Seq<char>, i32)>>,
    Ghost(issues): Ghost<Seq<(Seq<char>, i32)>>,
)
    requires
        kind < 3,
        trend_state(old(points)@, prs, reviews, issues),
    ensures
        kind == 0 ==> trend_state(final(points)@, prs + pair_views(list@), reviews, issues),
        kind == 1 ==> trend_state(final(points)@, prs, reviews + pair_views(list@), issues),
        kind == 2 ==> trend_state(final(points)@, prs, reviews, issues + pair_views(list@)),
{
    let ghost lv = pair_views(list@);
    let mut j: usize = 0;
    assert(prs + lv.take(0) =~= prs);
    assert(reviews + lv.take(0) =~= reviews);
    assert(issues + lv.take(0) =~= issues);
    while j < list.len()
        invariant
            kind < 3,
            0 <= j <= list@.len(),
            lv == pair_views(list@),
            kind == 0 ==> trend_state(points@, prs + lv.take(j as int), reviews, issues),
            kind == 1 ==> trend_state(points@, prs, reviews + lv.take(j as int), issues),
            kind == 2 ==> trend_state(points@, prs, reviews, issues + lv.take(j as int)),
        decreases list@.len() - j,
    {
        let ghost a = if kind == 0 { prs + lv.take(j as int) } else { prs };
        let ghost b = if kind == 1 { reviews + lv.take(j as int) } else { reviews };
        let ghost c = if kind == 2 { issues + lv.take(j as int) } else { issues };
        let ghost e = lv[j as int];
        let ghost a2 = if kind == 0 { a.push(e) } else { a };
        let ghost b2 = if kind == 1 { b.push(e) } else { b };
        let ghost c2 = if kind == 2 { c.push(e) } else { c };
        assert(kind == 0 ==> prs + lv.take(j + 1) =~= a.push(e));
        assert(kind == 1 ==> reviews + lv.take(j + 1) =~= b.push(e));
        assert(kind == 2 ==> issues + lv.take(j + 1) =~= c.push(e));
        assert(trend_state(points@, a, b, c));
        let period = &list[j].0;
        let count = list[j].1;
        assert(e == (period@, count));
        proof {
            lemma_step_counts(a, b, c, a2, b2, c2, e, kind);
        }
        let mut q: usize = 0;
        while q < points.len() && text_less(&points[q].timestamp, period)
            invariant
                0 <= q <= points@.len(),
                forall|i: int| 0 <= i < q ==> key_lt(text_key((#[trigger] points@[i]).timestamp@), text_key(period@)),
            decreases points@.len() - q,
        {
            q = q + 1;
        }
        let found = q < points.len() && !text_less(period, &points[q].timestamp);
        let ghost old_points = points@;
        if found {
            proof {
                lemma_key_lt_total(text_key(period@), text_key(old_points[q as int].timestamp@));
                lemma_text_key_injective(period@, old_points[q as int].timestamp@);
            }
            let pt = &points[q];
            let updated = if kind == 0 {
                copy_point(pt, count, pt.review_count, pt.issue_count)
            } else if kind == 1 {
                copy_point(pt, pt.pr_count, count, pt.issue_count)
            } else {
                copy_point(pt, pt.pr_count, pt.review_count, count)
            };
            points.set(q, updated);
            proof {
                lemma_update_keeps_state(old_points, q as int, points@[q as int], a, b, c, a2, b2, c2, e);
            }
        } else {
            let fresh = ActivityDataPoint {
                timestamp: period.clone(),
                pr_count: if kind == 0 { count } else { 0 },
                review_count: if kind == 1 { count } else { 0 },
                issue_count: if kind == 2 { count } else { 0 },
                total_activity: 0,
            };
            proof {
                lemma_insert_keeps_state(old_points, q as int, fresh, a, b, c, a2, b2, c2, e, kind);
            }
            points.insert(q, fresh);
        }
        j = j + 1;
    }
    assert(lv.take(list@.len() as int) =~= lv);
}

proof fn lemma_step_counts(
    a: Seq<(Seq<char>, i32)>,
    b: Seq<(Seq<char>, i32)>,
    c: Seq<(Seq<char>, i32)>,
    a2: Seq<(Seq<char>, i32)>,
    b2: Seq<(Seq<char>, i32)>,
    c2: Seq<(Seq<char>, i32)>,
    e: (Seq<char>, i32),
    kind: u8,
)
    requires
        kind < 3,
        a2 == (if kind == 0 { a.push(e) } else { a }),
        b2 == (if kind == 1 { b.push(e) } else { b }),
        c2 == (if kind == 2 { c.push(e) } else { c }),
    ensures
        forall|p: Seq<char>|
            #![trigger last_count(a2, p)]
            #![trigger last_count(b2, p)]
            #![trigger last_count(c2, p)]
            (last_count(a2, p) == if kind == 0 && e.0 == p { e.1 } else { last_count(a, p) })
                && (last_count(b2, p) == if kind == 1 && e.0 == p { e.1 } else { last_count(b, p) })
                && (last_count(c2, p) == if kind == 2 && e.0 == p { e.1 } else { last_count(c, p) }),
        forall|p: Seq<char>|
            #![trigger appears(a2, p)]
            #![trigger appears(b2, p)]
            #![trigger appears(c2, p)]
            (appears(a2, p) || appears(b2, p) || appears(c2, p)) == (appears(a, p) || appears(b, p)
                || appears(c, p) || e.0 == p),
{
    assert forall|p: Seq<char>|
        #![trigger last_count(a2, p)]
        #![trigger last_count(b2, p)]
        #![trigger last_count(c2, p)]
        (last_count(a2, p) == if kind == 0 && e.0 == p { e.1 } else { last_count(a, p) })
            && (last_count(b2, p) == if kind == 1 && e.0 == p { e.1 } else { last_count(b, p) })
            && (last_count(c2, p) == if kind == 2 && e.0 == p { e.1 } else { last_count(c, p) }) by {
        lemma_last_count_push(a, e, p);
        lemma_last_count_push(b, e, p);
        lemma_last_count_push(c, e, p);
    }
    assert forall|p: Seq<char>|
        #![trigger appears(a2, p)]
        #![trigger appears(b2, p)]
        #![trigger appears(c2, p)]
        (appears(a2, p) || appears(b2, p) || appears(c2, p)) == (appears(a, p) || appears(b, p)
            || appears(c, p) || e.0 == p) by {
        lemma_last_count_push(a, e, p);
        lemma_last_count_push(b, e, p);
        lemma_last_count_push(c, e, p);
    }
}

proof fn lemma_update_keeps_state(
    points: Seq<ActivityDataPoint>,
    q: int,
    pt: ActivityDataPoint,
    a: Seq<(Seq<char>, i32)>,
    b: Seq<(Seq<char>, i32)>,
    c: Seq<(Seq<char>, i32)>,
    a2: Seq<(Seq<char>, i32)>,
    b2: Seq<(Seq<char>, i32)>,
    c2: Seq<(Seq<char>, i32)>,
    e: (Seq<char>, i32),
)
    requires
        0 <= q < points.len(),
        trend_state(points, a, b, c),
        points[q].timestamp@ == e.0,
        pt.timestamp@ == e.0,
        point_counts_match(pt, a2, b2, c2),
        forall|i: int|
            0 <= i < points.len() && i != q ==> point_counts_match(#[trigger] points[i], a2, b2, c2),
        forall|p: Seq<char>|
            #![trigger appears(a2, p)]
            (appears(a2, p) || appears(b2, p) || appears(c2, p)) == (appears(a, p) || appears(b, p)
                || appears(c, p) || e.0 == p),
    ensures
        trend_state(points.update(q, pt), a2, b2, c2),
{
    let t = points.update(q, pt);
    assert forall|i: int, j: int| 0 <= i < j < t.len() implies key_lt(
        text_key((#[trigger] t[i]).timestamp@),
        text_key((#[trigger] t[j]).timestamp@),
    ) by {
        assert(key_lt(text_key(points[i].timestamp@), text_key(points[j].timestamp@)));
    }
    assert forall|p: Seq<char>|
        (exists|i: int| 0 <= i < t.len() && (#[trigger] t[i]).timestamp@ == p) <==> (appears(a2, p)
            || appears(b2, p) || appears(c2, p)) by {
        if exists|i: int| 0 <= i < t.len() && (#[trigger] t[i]).timestamp@ == p {
            let i = choose|i: int| 0 <= i < t.len() && (#[trigger] t[i]).timestamp@ == p;
            assert(points[i].timestamp@ == p);
        }
        if appears(a2, p) || appears(b2, p) || appears(c2, p) {
            if e.0 == p {
                assert(t[q].timestamp@ == p);
            } else {
                assert(appears(a, p) || appears(b, p) || appears(c, p));
                assert(exists|i: int| 0 <= i < points.len() && (#[trigger] points[i]).timestamp@ == p);
                let i = choose|i: int| 0 <= i < points.len() && (#[trigger] points[i]).timestamp@ == p;
                assert(i != q);
                assert(t[i] == points[i]);
            }
        }
    }
}

proof fn lemma_insert_keeps_state(
    points: Seq<ActivityDataPoint>,
    q: int,
    pt: ActivityDataPoint,
    a: Seq<(Seq<char>, i32)>,
    b: Seq<(Seq<char>, i32)>,
    c: Seq<(Seq<char>, i32)>,
    a2: Seq<(Seq<char>, i32)>,
    b2: Seq<(Seq<char>, i32)>,
    c2: Seq<(Seq<char>, i32)>,
    e: (Seq<char>, i32),
    kind: u8,
)
    requires
        kind < 3,
        0 <= q <= points.len(),
        trend_state(points, a, b, c),
        pt.timestamp@ == e.0,
        pt.pr_count == (if kind == 0 { e.1 } else { 0 }),
        pt.review_count == (if kind == 1 { e.1 } else { 0 }),
        pt.issue_count == (if kind == 2 { e.1 } else { 0 }),
        forall|i: int| 0 <= i < q ==> key_lt(text_key((#[trigger] points[i]).timestamp@), text_key(e.0)),
        q < points.len() ==> key_lt(text_key(e.0), text_key(points[q].timestamp@)),
        forall|p: Seq<char>|
            #![trigger last_count(a2, p)]
            #![trigger last_count(b2, p)]
            #![trigger last_count(c2, p)]
            (last_count(a2, p) == if kind == 0 && e.0 == p { e.1 } else { last_count(a, p) })
                && (last_count(b2, p) == if kind == 1 && e.0 == p { e.1 } else { last_count(b, p) })
                && (last_count(c2, p) == if kind == 2 && e.0 == p { e.1 } else { last_count(c, p) }),
        forall|p: Seq<char>|
            #![trigger appears(a2, p)]
            #![trigger appears(b2, p)]
            #![trigger appears(c2, p)]
            (appears(a2, p) || appears(b2, p) || appears(c2, p)) == (appears(a, p) || appears(b, p)
                || appears(c, p) || e.0 == p),
    ensures
        trend_state(points.insert(q, pt), a2, b2, c2),
{
    let t = points.insert(q, pt);
    // The new period was absent so far.
    assert forall|i: int| 0 <= i < points.len() implies (#[trigger] points[i]).timestamp@ != e.0 by {
        if i < q {
            lemma_key_lt_irreflexive(text_key(e.0));
        } else {
            if i > q {
                assert(key_lt(text_key(points[q].timestamp@), text_key(points[i].timestamp@)));
                lemma_key_lt_transitive(text_key(e.0), text_key(points[q].timestamp@), text_key(points[i].timestamp@));
            }
            lemma_key_lt_irreflexive(text_key(e.0));
        }
    }
    assert(!appears(a, e.0) && !appears(b, e.0) && !appears(c, e.0));
    lemma_last_count_absent(a, e.0);
    lemma_last_count_absent(b, e.0);
    lemma_last_count_absent(c, e.0);
    assert(last_count(a2, e.0) == pt.pr_count);
    assert(last_count(b2, e.0) == pt.review_count);
    assert(last_count(c2, e.0) == pt.issue_count);
    assert forall|i: int, j: int| 0 <= i < j < t.len() implies key_lt(
        text_key((#[trigger] t[i]).timestamp@),
        text_key((#[trigger] t[j]).timestamp@),
    ) by {
        if j < q {
            assert(t[i] == points[i] && t[j] == points[j]);
        } else if j == q {
            assert(t[i] == points[i]);
        } else if i == q {
            assert(t[j] == points[j - 1]);
            if j - 1 > q {
                assert(key_lt(text_key(points[q].timestamp@), text_key(points[j - 1].timestamp@)));
                lemma_key_lt_transitive(text_key(e.0), text_key(points[q].timestamp@), text_key(points[j - 1].timestamp@));
            }
        } else if i < q {
            assert(t[i] == points[i] && t[j] == points[j - 1]);
        } else {
            assert(t[i] == points[i - 1] && t[j] == points[j - 1]);
        }
    }
    assert forall|i: int| 0 <= i < t.len() implies point_counts_match(#[trigger] t[i], a2, b2, c2) by {
        if i != q {
            let k = if i < q { i } else { i - 1 };
            assert(t[i] == points[k]);
            assert(point_counts_match(points[k], a, b, c));
            assert(points[k].timestamp@ != e.0);
            assert(last_count(a2, points[k].timestamp@) == last_count(a, points[k].timestamp@));
            assert(last_count(b2, points[k].timestamp@) == last_count(b, points[k].timestamp@));
            assert(last_count(c2, points[k].timestamp@) == last_count(c, points[k].timestamp@));
        }
    }
    assert forall|p: Seq<char>|
        (exists|i: int| 0 <= i < t.len() && (#[trigger] t[i]).timestamp@ == p) <==> (appears(a2, p)
            || appears(b2, p) || appears(c2, p)) by {
        if exists|i: int| 0 <= i < t.len() && (#[trigger] t[i]).timestamp@ == p {
            let i = choose|i: int| 0 <= i < t.len() && (#[trigger] t[i]).timestamp@ == p;
            if i < q {
                assert(points[i].timestamp@ == p);
            } else if i > q {
                assert(points[i - 1].timestamp@ == p);
            }
        }
        if appears(a2, p) || appears(b2, p) || appears(c2, p) {
            if e.0 == p {
                assert(t[q].timestamp@ == p);
            } else {
                let i = choose|i: int| 0 <= i < points.len() && (#[trigger] points[i]).timestamp@ == p;
                if i < q {
                    assert(t[i].timestamp@ == p);
                } else {
                    assert(t[i + 1].timestamp@ == p);
                }
            }
        }
    }
}

/// Combine per-period counts of pull requests, reviews and issues into
/// one point per period, ordered by period; a period listed twice in one
/// list takes its last count, a period missing from a list counts 0.
pub fn merge_activity_trend(
    pr_counts: &Vec<(String, i32)>,
    review_counts: &Vec<(String, i32)>,
    issue_counts: &Vec<(String, i32)>,
) -> (r: Vec<ActivityDataPoint>)
    requires
        totals_fit(pair_views(pr_counts@), pair_views(review_counts@), pair_views(issue_counts@)),
    ensures
        strictly_ascending(r@),
        covers_periods(r@, pair_views(pr_counts@), pair_views(review_counts@), pair_views(issue_counts@)),
        forall|i: int|
            0 <= i < r@.len() ==> point_counts_match(
                #[trigger] r@[i],
                pair_views(pr_counts@),
                pair_views(review_counts@),
                pair_views(issue_counts@),
            ),
        forall|i: int|
            0 <= i < r@.len() ==> (#[trigger] r@[i]).total_activity == r@[i].pr_count
                + r@[i].review_count + r@[i].issue_count,
        forall|i: int, j: int|
            0 <= i < j < r@.len() ==> key_lt(
                bytes_key(encode_utf8((#[trigger] r@[i]).timestamp@)),
                bytes_key(encode_utf8((#[trigger] r@[j]).timestamp@)),
            ),
{
    let ghost empty = Seq::<(Seq<char>, i32)>::empty();
    let ghost pv = pair_views(pr_counts@);
    let ghost rv = pair_views(review_counts@);
    let ghost iv = pair_views(issue_counts@);
    let mut points: Vec<ActivityDataPoint> = Vec::new();
    assert(trend_state(points@, empty, empty, empty)) by {
        assert forall|p: Seq<char>| !appears(empty, p) by {}
    }
    absorb_counts(&mut points, pr_counts, 0, Ghost(empty), Ghost(empty), Ghost(empty));
    assert(empty + pv =~= pv);
    absorb_counts(&mut points, review_counts, 1, Ghost(pv), Ghost(empty), Ghost(empty));
    assert(empty + rv =~= rv);
    absorb_counts(&mut points, issue_counts, 2, Ghost(pv), Ghost(rv), Ghost(empty));
    assert(empty + iv =~= iv);
    let ghost merged = points@;
    let mut out: Vec<ActivityDataPoint> = Vec::new();
    let mut i: usize = 0;
    while i < points.len()
        invariant
            merged == points@,
            trend_state(merged, pv, rv, iv),
            totals_fit(pv, rv, iv),
            0 <= i <= merged.len(),
            out@.len() == i,
            forall|k: int| 0 <= k < i ==> (#[trigger] out@[k]).timestamp@ == merged[k].timestamp@
                && out@[k].pr_count == merged[k].pr_count && out@[k].review_count == merged[k].review_count
                && out@[k].issue_count == merged[k].issue_count && out@[k].total_activity
                == merged[k].pr_count + merged[k].review_count + merged[k].issue_count,
        decreases merged.len() - i,
    {
        let pt = &points[i];
        assert(point_counts_match(merged[i as int], pv, rv, iv));
        let total = pt.pr_count as i64 + pt.review_count as i64 + pt.issue_count as i64;
        assert(i32::MIN <= total <= i32::MAX);
        out.push(ActivityDataPoint {
            timestamp: pt.timestamp.clone(),
            pr_count: pt.pr_count,
            review_count: pt.review_count,
            issue_count: pt.issue_count,
            total_activity: total as i32,
        });
        i = i + 1;
    }
    assert forall|x: int, y: int| 0 <= x < y < out@.len() implies key_lt(
        text_key((#[trigger] out@[x]).timestamp@),
        text_key((#[trigger] out@[y]).timestamp@),
    ) by {
        assert(key_lt(text_key(merged[x].timestamp@), text_key(merged[y].timestamp@)));
    }
    assert forall|p: Seq<char>|
        (exists|k: int| 0 <= k < out@.len() && (#[trigger] out@[k]).timestamp@ == p) <==> (appears(pv, p)
            || appears(rv, p) || appears(iv, p)) by {
        if exists|k: int| 0 <= k < out@.len() && (#[trigger] out@[k]).timestamp@ == p {
            let k = choose|k: int| 0 <= k < out@.len() && (#[trigger] out@[k]).timestamp@ == p;
            assert(merged[k].timestamp@ == p);
        }
        if appears(pv, p) || appears(rv, p) || appears(iv, p) {
            let k = choose|k: int| 0 <= k < merged.len() && (#[trigger] merged[k]).timestamp@ == p;
            assert(out@[k].timestamp@ == p);
        }
    }
    assert forall|k: int| 0 <= k < out@.len() implies point_counts_match(#[trigger] out@[k], pv, rv, iv) by {
        assert(point_counts_match(merged[k], pv, rv, iv));
    }
    proof {
        lemma_trend_in_period_order(out@);
    }
    out
}

/// The points of a trend come in period order: each period text is
/// smaller than every later one in the byte-wise order of its UTF-8 text
/// (the order of `str`), so no period appears twice.
pub proof fn lemma_trend_in_period_order(points: Seq<ActivityDataPoint>)
    requires
        strictly_ascending(points),
    ensures
        forall|i: int, j: int|
            0 <= i < j < points.len() ==> key_lt(
                bytes_key(encode_utf8((#[trigger] points[i]).timestamp@)),
                bytes_key(encode_utf8((#[trigger] points[j]).timestamp@)),
            ),
        forall|i: int, j: int|
            0 <= i < j < points.len() ==> (#[trigger] points[i]).timestamp@ != (#[trigger] points[j]).timestamp@,
{
    assert forall|i: int, j: int| 0 <= i < j < points.len() implies key_lt(
        bytes_key(encode_utf8((#[trigger] points[i]).timestamp@)),
        bytes_key(encode_utf8((#[trigger] points[j]).timestamp@)),
    ) by {
        assert(key_lt(text_key(points[i].timestamp@), text_key(points[j].timestamp@)));
    }
    assert forall|i: int, j: int| 0 <= i < j < points.len() implies (#[trigger] points[i]).timestamp@
        != (#[trigger] points[j]).timestamp@ by {
        assert(key_lt(text_key(points[i].timestamp@), text_key(points[j].timestamp@)));
        if points[i].timestamp@ == points[j].timestamp@ {
            lemma_key_lt_irreflexive(text_key(points[i].timestamp@));
        }
    }
}


// ---------------------------------------------------------------------------
// Collaboration matrix
// ---------------------------------------------------------------------------

/// Reviews between two team members, seen from one of them.
#[derive(Debug, Clone, Copy, PartialEq, Eq, Structural)]
pub struct InteractionStats {
    /// How many times this user reviewed the other user's pull requests.
    pub reviews_given: i32,
    /// How many times the other user reviewed this user's pull requests.
    pub reviews_received: i32,
}

/// Who reviews whose code: `interactions[i][j]` is what `users[i]` did
/// with `users[j]`.
#[derive(Debug, Clone)]
pub struct CollaborationMatrix {
    pub users: Vec<User>,
    pub interactions: Vec<Vec<InteractionStats>>,
}

/// The count of the last row `(author, reviewing user, count)` for this pair, or 0.
pub open spec fn review_count_spec(rows: Seq<(i64, i64, i32)>, author: i64, reviewer: i64) -> i32
    decreases rows.len(),
{
    if rows.len() == 0 {
        0
    } else if rows.last().0 == author && rows.last().1 == reviewer {
        rows.last().2
    } else {
        review_count_spec(rows.drop_last(), author, reviewer)
    }
}

/// What user `i` did with user `j`: nothing for the same person.
pub open spec fn interaction_spec(
    ids: Seq<i64>,
    rows: Seq<(i64, i64, i32)>,
    i: int,
    j: int,
) -> InteractionStats {
    if ids[i] == ids[j] {
        InteractionStats { reviews_given: 0, reviews_received: 0 }
    } else {
        InteractionStats {
            reviews_given: review_count_spec(rows, ids[j], ids[i]),
            reviews_received: review_count_spec(rows, ids[i], ids[j]),
        }
    }
}

/// The ids of a list of users.
pub open spec fn user_ids(users: Seq<User>) -> Seq<i64> {
    users.map_values(|u: User| u.id)
}

/// The matrix holds, for every ordered pair of its users, their interaction
/// as the rows of review counts give it.
pub open spec fn matrix_matches(m: CollaborationMatrix, rows: Seq<(i64, i64, i32)>) -> bool {
    let n = m.users@.len();
    &&& m.interactions@.len() == n
    &&& forall|i: int| 0 <= i < n ==> (#[trigger] m.interactions@[i])@.len() == n
    &&& forall|i: int, j: int|
        0 <= i < n && 0 <= j < n ==> (#[trigger] m.interactions@[i]@[j]) == interaction_spec(
            user_ids(m.users@),
            rows,
            i,
            j,
        )
}

/// The count of the last row for this pair of author and reviewing user.
fn review_count(rows: &Vec<(i64, i64, i32)>, author: i64, reviewer: i64) -> (r: i32)
    ensures
        r == review_count_spec(rows@, author, reviewer),
{
    let mut k: usize = rows.len();
    while k > 0
        invariant
            k <= rows@.len(),
            review_count_spec(rows@, author, reviewer) == review_count_spec(rows@.take(k as int), author, reviewer),
        decreases k,
    {
        let row = rows[k - 1];
        assert(rows@.take(k as int).drop_last() =~= rows@.take(k - 1));
        if row.0 == author && row.1 == reviewer {
            return row.2;
        }
        k = k - 1;
    }
    0
}

/// Builds the collaboration matrix of the given users from the grouped
/// review counts `(pr_author_id, reviewing_user_id, count)`.
pub fn build_collaboration_matrix(users: Vec<User>, reviews: &Vec<(i64, i64, i32)>) -> (m: CollaborationMatrix)
    ensures
        m.users@ == users@,
        matrix_matches(m, reviews@),
{
    let n = users.len();
    let ghost ids = user_ids(users@);
    let mut interactions: Vec<Vec<InteractionStats>> = Vec::new();
    let mut i: usize = 0;
    while i < n
        invariant
            n == users@.len(),
            ids == user_ids(users@),
            0 <= i <= n,
            interactions@.len() == i,
            forall|a: int| 0 <= a < i ==> (#[trigger] interactions@[a])@.len() == n,
            forall|a: int, b: int|
                0 <= a < i && 0 <= b < n ==> (#[trigger] interactions@[a]@[b]) == interaction_spec(ids, reviews@, a, b),
        decreases n - i,
    {
        let mut line: Vec<InteractionStats> = Vec::new();
        let mut j: usize = 0;
        while j < n
            invariant
                n == users@.len(),
                ids == user_ids(users@),
                0 <= i < n,
                0 <= j <= n,
                line@.len() == j,
                forall|b: int| 0 <= b < j ==> (#[trigger] line@[b]) == interaction_spec(ids, reviews@, i as int, b),
            decreases n - j,
        {
            let me = users[i].id;
            let other = users[j].id;
            let stats = if me == other {
                InteractionStats { reviews_given: 0, reviews_received: 0 }
            } else {
                InteractionStats {
                    reviews_given: review_count(reviews, other, me),
                    reviews_received: review_count(reviews, me, other),
                }
            };
            line.push(stats);
            j = j + 1;
        }
        interactions.push(line);
        i = i + 1;
    }
    CollaborationMatrix { users, interactions }
}

/// What one member gave the other is what the other received from the
/// first: the matrix is a mirror of itself across the diagonal, and no one
/// reviews themselves in it.
pub proof fn lemma_collaboration_mirror(m: CollaborationMatrix, rows: Seq<(i64, i64, i32)>, i: int, j: int)
    requires
        matrix_matches(m, rows),
        0 <= i < m.users@.len(),
        0 <= j < m.users@.len(),
    ensures
        m.interactions@[i]@[j].reviews_received == m.interactions@[j]@[i].reviews_given,
        m.interactions@[i]@[j].reviews_given == m.interactions@[j]@[i].reviews_received,
        m.users@[i].id == m.users@[j].id ==> m.interactions@[i]@[j] == (InteractionStats {
            reviews_given: 0,
            reviews_received: 0,
        }),
{
    assert(m.interactions@[i]@[j] == interaction_spec(user_ids(m.users@), rows, i, j));
    assert(m.interactions@[j]@[i] == interaction_spec(user_ids(m.users@), rows, j, i));
}

// ---------------------------------------------------------------------------
// Repository distribution and focus
// ---------------------------------------------------------------------------

/// A user's contributions to one repository; the share of the user's work
/// that it is (a ratio) is derived from `total_contributions` by callers.
#[derive(Debug, Clone)]
pub struct RepositoryContribution {
    pub repo_id: i64,
    pub owner: String,
    pub name: String,
    pub pr_count: i32,
    pub issue_count: i32,
    pub review_count: i32,
    pub total_contributions: i32,
}

impl SortKey for RepositoryContribution {
    open spec fn sort_key(&self) -> Seq<int> {
        seq![self.total_contributions as int]
    }

    fn key_less(&self, other: &Self) -> (r: bool) {
        proof {
            crate::ordering::lemma_key_lt_prefixed(self.total_contributions as int, Seq::empty(), Seq::empty());
        }
        assert(seq![self.total_contributions as int] =~= seq![self.total_contributions as int] + Seq::<int>::empty());
        if self.total_contributions < other.total_contributions {
            assert(key_lt(self.sort_key(), other.sort_key()));
            true
        } else {
            assert(!key_lt(self.sort_key(), other.sort_key()));
            false
        }
    }
}

/// One repository's counts, with their sum as the total.
pub fn new_contribution(
    repo_id: i64,
    owner: String,
    name: String,
    pr_count: i32,
    issue_count: i32,
    review_count: i32,
) -> (c: RepositoryContribution)
    requires
        i32::MIN <= pr_count + issue_count <= i32::MAX,
        i32::MIN <= pr_count + issue_count + review_count <= i32::MAX,
    ensures
        c.repo_id == repo_id,
        c.owner@ == owner@,
        c.name@ == name@,
        c.pr_count == pr_count,
        c.issue_count == issue_count,
        c.review_count == review_count,
        c.total_contributions == pr_count + issue_count + review_count,
{
    RepositoryContribution {
        repo_id,
        owner,
        name,
        pr_count,
        issue_count,
        review_count,
        total_contributions: pr_count + issue_count + review_count,
    }
}

/// The sum of the totals of the first `n` contributions.
pub open spec fn total_work_spec(s: Seq<RepositoryContribution>) -> int
    decreases s.len(),
{
    if s.len() == 0 {
        0
    } else {
        total_work_spec(s.drop_last()) + s.last().total_contributions
    }
}

/// Every partial sum of the totals fits an `i32`.
pub open spec fn partial_totals_fit(s: Seq<RepositoryContribution>) -> bool {
    forall|k: int| 0 <= k <= s.len() ==> i32::MIN <= #[trigger] total_work_spec(s.take(k)) <= i32::MAX
}

/// The user's whole work: the sum of all totals.
pub fn total_work(contributions: &Vec<RepositoryContribution>) -> (t: i32)
    requires
        partial_totals_fit(contributions@),
    ensures
        t == total_work_spec(contributions@),
{
    let mut t: i32 = 0;
    let mut k: usize = 0;
    assert(contributions@.take(0) =~= Seq::<RepositoryContribution>::empty());
    while k < contributions.len()
        invariant
            0 <= k <= contributions@.len(),
            partial_totals_fit(contributions@),
            t == total_work_spec(contributions@.take(k as int)),
        decreases contributions@.len() - k,
    {
        assert(contributions@.take(k + 1).drop_last() =~= contributions@.take(k as int));
        assert(i32::MIN <= total_work_spec(contributions@.take(k + 1)) <= i32::MAX);
        t = t + contributions[k].total_contributions;
        k = k + 1;
    }
    assert(contributions@.take(contributions@.len() as int) =~= contributions@);
    t
}

/// Orders contributions by total, largest first; equal totals keep their
/// order.
pub fn rank_contributions(contributions: Vec<RepositoryContribution>) -> (r: Vec<RepositoryContribution>)
    ensures
        r@.len() == contributions@.len(),
        sorted_by_key(r@, true),
        forall|k: Seq<int>| #[trigger] with_key(r@, k) == with_key(contributions@, k),
        forall|i: int, j: int|
            0 <= i < j < r@.len() ==> (#[trigger] r@[i]).total_contributions >= (#[trigger] r@[j]).total_contributions,
{
    let r = stable_sort_by_key(contributions, true);
    proof {
        lemma_ranking_by_total(r@);
    }
    r
}

/// A ranking lists the largest totals first: no repository comes before
/// one with more contributions.
pub proof fn lemma_ranking_by_total(r: Seq<RepositoryContribution>)
    requires
        sorted_by_key(r, true),
    ensures
        forall|i: int, j: int|
            0 <= i < j < r.len() ==> (#[trigger] r[i]).total_contributions >= (#[trigger] r[j]).total_contributions,
{
    assert forall|i: int, j: int| 0 <= i < j < r.len() implies (#[trigger] r[i]).total_contributions
        >= (#[trigger] r[j]).total_contributions by {
        assert(in_order(r[i].sort_key(), r[j].sort_key(), true));
        let a = seq![r[i].total_contributions as int];
        let b = seq![r[j].total_contributions as int];
        assert(a.drop_first() =~= Seq::<int>::empty());
        assert(b.drop_first() =~= Seq::<int>::empty());
        assert(r[i].sort_key() == a);
        assert(r[j].sort_key() == b);
    }
}

/// How many repositories the focus view lists at most.
pub const FOCUS_TOP_REPOS: usize = 10;

/// `owner/name`.
pub open spec fn full_name_spec(owner: Seq<char>, name: Seq<char>) -> Seq<char> {
    owner + seq!['/'] + name
}

/// The first ten contributions as (`owner/name`, total).
pub fn focus_distribution(contributions: &Vec<RepositoryContribution>) -> (r: Vec<(String, i32)>)
    ensures
        r@.len() == if contributions@.len() < FOCUS_TOP_REPOS { contributions@.len() as int } else {
            FOCUS_TOP_REPOS as int
        },
        forall|k: int|
            0 <= k < r@.len() ==> (#[trigger] r@[k]).0@ == full_name_spec(contributions@[k].owner@, contributions@[k].name@)
                && r@[k].1 == contributions@[k].total_contributions,
{
    let mut r: Vec<(String, i32)> = Vec::new();
    let mut k: usize = 0;
    while k < contributions.len() && k < FOCUS_TOP_REPOS
        invariant
            0 <= k <= contributions@.len(),
            k <= FOCUS_TOP_REPOS,
            r@.len() == k,
            forall|x: int|
                0 <= x < k ==> (#[trigger] r@[x]).0@ == full_name_spec(contributions@[x].owner@, contributions@[x].name@)
                    && r@[x].1 == contributions@[x].total_contributions,
        decreases contributions@.len() - k,
    {
        let c = &contributions[k];
        let mut full = String::new();
        push_str(&mut full, c.owner.as_str());
        push_char(&mut full, '/');
        push_str(&mut full, c.name.as_str());
        assert(full@ =~= full_name_spec(c.owner@, c.name@));
        r.push((full, c.total_contributions));
        k = k + 1;
    }
    r
}

} // verus!
