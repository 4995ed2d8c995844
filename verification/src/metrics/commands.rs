//! Time buckets for the metric charts: a date range cut into steps of a
//! day, a week or thirty days, the last step cut at the end of the range.

use crate::calendar::{format_utc, parse_rfc3339, rfc3339_instant, utc_text, RFC3339_SECS_BOUND};
use crate::text::str_eq;
use vstd::prelude::*;

verus! {

/// Days per bucket: `daily` 1, `monthly` 30, anything else a week.
pub open spec fn step_days_spec(granularity: Seq<char>) -> i64 {
    if granularity == "daily"@ {
        1
    } else if granularity == "monthly"@ {
        30
    } else {
        7
    }
}

pub fn bucket_step_days(granularity: &str) -> (d: i64)
    ensures
        d == step_days_spec(granularity@),
{
    if str_eq(granularity, "daily") {
        1
    } else if str_eq(granularity, "monthly") {
        30
    } else {
        7
    }
}

/// An instant as seconds since the Unix epoch and nanoseconds within the
/// second (1_000_000_000 or more during a leap second).
pub open spec fn inst(t: (i64, u32)) -> (int, int) {
    (t.0 as int, t.1 as int)
}

/// Instants in time order: by second, then by nanosecond.
pub open spec fn inst_lt(a: (int, int), b: (int, int)) -> bool {
    a.0 < b.0 || (a.0 == b.0 && a.1 < b.1)
}

/// An instant moved forward by a positive whole number of seconds, as
/// `chrono` adds a duration: a leap-second fraction falls back to the
/// ordinary second.
pub open spec fn advance(a: (int, int), step: int) -> (int, int) {
    (a.0 + step, if a.1 >= 1_000_000_000 { a.1 - 1_000_000_000 } else { a.1 })
}

/// The buckets `[from, to)` covering `[start, end)`: each starts where the
/// last ended and ends `step` seconds later, the last one cut at `end`.
pub open spec fn buckets_spec(start: (int, int), end: (int, int), step: int) -> Seq<((int, int), (int, int))>
    decreases (end.0 - start.0) * 2 + if inst_lt(start, end) { 1int } else { 0int },
    when step > 0
{
    if inst_lt(start, end) {
        let a = advance(start, step);
        let next = if inst_lt(end, a) {
            end
        } else {
            a
        };
        seq![(start, next)] + buckets_spec(next, end, step)
    } else {
        Seq::empty()
    }
}

pub open spec fn bucket_views(v: Seq<((i64, u32), (i64, u32))>) -> Seq<((int, int), (int, int))> {
    v.map_values(|p: ((i64, u32), (i64, u32))| (inst(p.0), inst(p.1)))
}

pub open spec fn lt_exec(a: (i64, u32), b: (i64, u32)) -> bool {
    inst_lt(inst(a), inst(b))
}

/// Cuts `[start, end)` into buckets of `step` seconds.
pub fn date_buckets(start: (i64, u32), end: (i64, u32), step: i64) -> (r: Vec<((i64, u32), (i64, u32))>)
    requires
        step > 0,
        end.0 <= i64::MAX - step,
    ensures
        bucket_views(r@) == buckets_spec(inst(start), inst(end), step as int),
{
    let mut out: Vec<((i64, u32), (i64, u32))> = Vec::new();
    let mut current = start;
    while current.0 < end.0 || (current.0 == end.0 && current.1 < end.1)
        invariant
            step > 0,
            end.0 <= i64::MAX - step,
            bucket_views(out@) + buckets_spec(inst(current), inst(end), step as int) == buckets_spec(
                inst(start),
                inst(end),
                step as int,
            ),
        decreases (end.0 - current.0) * 2 + if lt_exec(current, end) { 1int } else { 0int },
    {
        let a: (i64, u32) = (current.0 + step, if current.1 >= 1_000_000_000 {
            current.1 - 1_000_000_000
        } else {
            current.1
        });
        assert(inst(a) == advance(inst(current), step as int));
        let next = if end.0 < a.0 || (end.0 == a.0 && end.1 < a.1) {
            end
        } else {
            a
        };
        let ghost rest = buckets_spec(inst(next), inst(end), step as int);
        assert(buckets_spec(inst(current), inst(end), step as int) == seq![(inst(current), inst(next))] + rest);
        let ghost before = out@;
        out.push((current, next));
        assert(bucket_views(out@) =~= bucket_views(before).push((inst(current), inst(next))));
        current = next;
    }
    assert(bucket_views(out@) + Seq::<((int, int), (int, int))>::empty() =~= bucket_views(out@));
    out
}

/// Some instant of the range: its start, its end, or an ordinary second
/// (no leap-second fraction) between them.
pub open spec fn bound_ok(x: (int, int), s: (int, int), e: (int, int)) -> bool {
    x == s || x == e || (x.1 < 1_000_000_000 && s.0 <= x.0 <= e.0)
}

proof fn lemma_bounds_ok(s: (int, int), cur: (int, int), e: (int, int), step: int)
    requires
        step > 0,
        bound_ok(cur, s, e),
        s.0 <= cur.0,
        cur.1 < 2_000_000_000,
        e.1 < 2_000_000_000,
    ensures
        forall|k: int|
            0 <= k < buckets_spec(cur, e, step).len() ==> bound_ok(
                (#[trigger] buckets_spec(cur, e, step)[k]).0,
                s,
                e,
            ) && bound_ok(buckets_spec(cur, e, step)[k].1, s, e),
    decreases (e.0 - cur.0) * 2 + if inst_lt(cur, e) { 1int } else { 0int },
{
    if inst_lt(cur, e) {
        let a = advance(cur, step);
        let next = if inst_lt(e, a) {
            e
        } else {
            a
        };
        lemma_bounds_ok(s, next, e, step);
        let rest = buckets_spec(next, e, step);
        let bs = buckets_spec(cur, e, step);
        assert(bs == seq![(cur, next)] + rest);
        assert forall|k: int| 0 <= k < bs.len() implies bound_ok((#[trigger] bs[k]).0, s, e) && bound_ok(
            bs[k].1,
            s,
            e,
        ) by {
            if k > 0 {
                assert(bs[k] == rest[k - 1]);
            }
        }
    }
}

/// Each bucket printed as its two bounds.
pub open spec fn buckets_printed(v: Seq<(String, String)>, bs: Seq<((int, int), (int, int))>) -> bool {
    &&& v.len() == bs.len()
    &&& forall|k: int|
        0 <= k < bs.len() ==> Some((#[trigger] v[k]).0@) == utc_text(bs[k].0.0 as i64, bs[k].0.1 as u32)
            && Some(v[k].1@) == utc_text(bs[k].1.0 as i64, bs[k].1.1 as u32)
}

/// The buckets of a range given as RFC 3339 texts, or `None` when a bound
/// does not read as RFC 3339.
pub open spec fn bucket_bounds(start: Seq<char>, end: Seq<char>, granularity: Seq<char>) -> Option<
    Seq<((int, int), (int, int))>,
> {
    match (rfc3339_instant(start), rfc3339_instant(end)) {
        (Some(s), Some(e)) => Some(
            buckets_spec((s.0 as int, s.1 as int), (e.0 as int, e.1 as int), step_days_spec(granularity) * 86400),
        ),
        _ => None,
    }
}

/// The buckets of a date range (RFC 3339 bounds) for a granularity
/// (`daily`, `weekly` or `monthly`), each printed as
/// `%Y-%m-%dT%H:%M:%SZ`; `None` when a bound cannot be read.
pub fn generate_date_buckets(start: &str, end: &str, granularity: &str) -> (r: Option<Vec<(String, String)>>)
    ensures
        match bucket_bounds(start@, end@, granularity@) {
            None => r is None,
            Some(bs) => r matches Some(v) && buckets_printed(v@, bs),
        },
{
    let s = match parse_rfc3339(start) {
        Some(i) => (i.0, i.1),
        None => return None,
    };
    let e = match parse_rfc3339(end) {
        Some(i) => (i.0, i.1),
        None => return None,
    };
    let step = bucket_step_days(granularity) * 86400;
    let bounds = date_buckets(s, e, step);
    let ghost bs = bucket_views(bounds@);
    assert(bucket_bounds(start@, end@, granularity@) == Some(bs));
    proof {
        lemma_bounds_ok(inst(s), inst(s), inst(e), step as int);
    }
    let mut out: Vec<(String, String)> = Vec::new();
    let mut k: usize = 0;
    while k < bounds.len()
        invariant
            bs == bucket_views(bounds@),
            bs == buckets_spec(inst(s), inst(e), step as int),
            bucket_bounds(start@, end@, granularity@) == Some(bs),
            -RFC3339_SECS_BOUND <= s.0 && e.0 <= RFC3339_SECS_BOUND,
            utc_text(s.0, s.1) is Some,
            utc_text(e.0, e.1) is Some,
            forall|x: int|
                0 <= x < bs.len() ==> bound_ok((#[trigger] bs[x]).0, inst(s), inst(e)) && bound_ok(
                    bs[x].1,
                    inst(s),
                    inst(e),
                ),
            0 <= k <= bounds@.len(),
            out@.len() == k,
            forall|x: int|
                0 <= x < k ==> Some((#[trigger] out@[x]).0@) == utc_text(bs[x].0.0 as i64, bs[x].0.1 as u32)
                    && Some(out@[x].1@) == utc_text(bs[x].1.0 as i64, bs[x].1.1 as u32),
        decreases bounds@.len() - k,
    {
        let (from, to) = bounds[k];
        assert(bs[k as int] == (inst(from), inst(to)));
        assert(bound_ok(inst(from), inst(s), inst(e)));
        assert(bound_ok(inst(to), inst(s), inst(e)));
        let a = match format_utc(from.0, from.1) {
            Some(t) => t,
            None => {
                assert(false);
                return None;
            },
        };
        let b = match format_utc(to.0, to.1) {
            Some(t) => t,
            None => {
                assert(false);
                return None;
            },
        };
        out.push((a, b));
        k = k + 1;
    }
    Some(out)
}

/// The buckets cut the range into consecutive non-empty pieces: the first
/// starts at `start`, each ends where the next starts, every one but the
/// last spans exactly one step, the last at most one step and ends at
/// `end`. An empty range has no bucket.
pub proof fn lemma_buckets_partition(start: (int, int), end: (int, int), step: int)
    requires
        step > 0,
    ensures
        ({
            let bs = buckets_spec(start, end, step);
            &&& (bs.len() == 0 <==> !inst_lt(start, end))
            &&& bs.len() > 0 ==> bs[0].0 == start && bs[bs.len() - 1].1 == end
            &&& bs.len() > 0 ==> !inst_lt(advance(bs[bs.len() - 1].0, step), bs[bs.len() - 1].1)
            &&& forall|k: int| 0 <= k < bs.len() ==> inst_lt((#[trigger] bs[k]).0, bs[k].1)
            &&& forall|k: int|
                0 <= k < bs.len() - 1 ==> (#[trigger] bs[k]).1 == bs[k + 1].0 && bs[k].1 == advance(
                    bs[k].0,
                    step,
                )
        }),
    decreases (end.0 - start.0) * 2 + if inst_lt(start, end) { 1int } else { 0int },
{
    if inst_lt(start, end) {
        let a = advance(start, step);
        let next = if inst_lt(end, a) {
            end
        } else {
            a
        };
        lemma_buckets_partition(next, end, step);
        let rest = buckets_spec(next, end, step);
        let bs = buckets_spec(start, end, step);
        assert(bs == seq![(start, next)] + rest);
        assert(rest.len() > 0 ==> next == a);
        assert forall|k: int| 0 <= k < bs.len() implies inst_lt((#[trigger] bs[k]).0, bs[k].1) by {
            if k > 0 {
                assert(bs[k] == rest[k - 1]);
            }
        }
        assert forall|k: int| 0 <= k < bs.len() - 1 implies (#[trigger] bs[k]).1 == bs[k + 1].0 && bs[k].1
            == advance(bs[k].0, step) by {
            assert(bs[k + 1] == rest[k]);
            if k > 0 {
                assert(bs[k] == rest[k - 1]);
            }
        }
        if rest.len() > 0 {
            assert(bs[bs.len() - 1] == rest[rest.len() - 1]);
        }
    }
}

} // verus!
