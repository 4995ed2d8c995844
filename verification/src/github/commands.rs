//! The roadmap: milestones of all repositories grouped into cycles (the
//! milestones sharing a title), with their issue totals, ordered by due
//! date.

use crate::db::models::Milestone;
use crate::ordering::{bytes_key, bytes_less, key_lt, lemma_insert_keeps_order, lemma_key_lt_prefixed,
    sorted_by_key, SortKey};
use crate::text::{decimal_text, push_decimal_i64, push_str};
use vstd::prelude::*;
use vstd::utf8::encode_utf8;

verus! {

broadcast use vstd::seq_lib::group_seq_properties;

#[derive(Debug, Clone)]
pub struct CycleGroup {
    pub title: String,
    pub due_date: Option<String>,
    pub milestones: Vec<MilestoneInfo>,
    pub total_open: i32,
    pub total_closed: i32,
}

#[derive(Debug, Clone)]
pub struct MilestoneInfo {
    pub id: String,
    pub title: String,
    pub description: Option<String>,
    pub due_date: Option<String>,
    pub repo: String,
    pub open_issues: i32,
    pub closed_issues: i32,
    pub state: String,
}

/// The order of due dates: none first, then by the text's bytes.
pub open spec fn due_key(d: Option<String>) -> Seq<int> {
    match d {
        None => Seq::empty(),
        Some(s) => seq![0int] + bytes_key(encode_utf8(s@)),
    }
}

impl SortKey for CycleGroup {
    open spec fn sort_key(&self) -> Seq<int> {
        due_key(self.due_date)
    }

    fn key_less(&self, other: &Self) -> (r: bool) {
        match (&self.due_date, &other.due_date) {
            (None, None) => false,
            (None, Some(_)) => true,
            (Some(_), None) => false,
            (Some(a), Some(b)) => {
                proof {
                    lemma_key_lt_prefixed(0, bytes_key(encode_utf8(a@)), bytes_key(encode_utf8(b@)));
                }
                bytes_less(a.as_str().as_bytes(), b.as_str().as_bytes())
            },
        }
    }
}

/// The milestones of a cycle: those with the given title.
pub open spec fn titled(t: Seq<char>) -> spec_fn(Milestone) -> bool {
    |m: Milestone| m.title@ == t
}

pub open spec fn cycle_of(ms: Seq<Milestone>, t: Seq<char>) -> Seq<Milestone> {
    ms.filter(titled(t))
}

pub open spec fn open_sum(s: Seq<Milestone>) -> int
    decreases s.len(),
{
    if s.len() == 0 {
        0
    } else {
        open_sum(s.drop_last()) + s.last().open_issues
    }
}

pub open spec fn closed_sum(s: Seq<Milestone>) -> int
    decreases s.len(),
{
    if s.len() == 0 {
        0
    } else {
        closed_sum(s.drop_last()) + s.last().closed_issues
    }
}

/// How a milestone is shown in its cycle.
pub open spec fn info_of(m: Milestone, info: MilestoneInfo) -> bool {
    &&& info.id@ == decimal_text(m.id as int)
    &&& info.title == m.title
    &&& info.description == m.description
    &&& info.due_date == m.due_on
    &&& info.repo@ == "repo-"@ + decimal_text(m.repo_id as int)
    &&& info.open_issues == m.open_issues
    &&& info.closed_issues == m.closed_issues
    &&& info.state == m.state
}

/// A cycle lists its milestones in order, takes its title and due date
/// from the first of them, and sums their issue counts.
pub open spec fn group_matches(g: CycleGroup, ms: Seq<Milestone>) -> bool {
    let f = cycle_of(ms, g.title@);
    &&& f.len() > 0
    &&& g.title == f[0].title
    &&& g.due_date == f[0].due_on
    &&& g.milestones@.len() == f.len()
    &&& forall|k: int| 0 <= k < f.len() ==> info_of(f[k], #[trigger] g.milestones@[k])
    &&& g.total_open == open_sum(f)
    &&& g.total_closed == closed_sum(f)
}

pub open spec fn has_cycle(gs: Seq<CycleGroup>, t: Seq<char>) -> bool {
    exists|i: int| 0 <= i < gs.len() && (#[trigger] gs[i]).title@ == t
}

/// The roadmap of a list of milestones: one cycle per title, each cycle
/// right, ordered by due date.
pub open spec fn roadmap_spec(gs: Seq<CycleGroup>, ms: Seq<Milestone>) -> bool {
    &&& forall|i: int| 0 <= i < gs.len() ==> group_matches(#[trigger] gs[i], ms)
    &&& forall|i: int, j: int| 0 <= i < j < gs.len() ==> (#[trigger] gs[i]).title@ != (#[trigger] gs[j]).title@
    &&& forall|k: int| 0 <= k < ms.len() ==> has_cycle(gs, (#[trigger] ms[k]).title@)
    &&& sorted_by_key(gs, false)
}

pub open spec fn totals_in_range(s: Seq<Milestone>, t: Seq<char>) -> bool {
    &&& i32::MIN <= open_sum(cycle_of(s, t)) <= i32::MAX
    &&& i32::MIN <= closed_sum(cycle_of(s, t)) <= i32::MAX
}

/// Every running total of every cycle fits an `i32`.
pub open spec fn cycle_totals_fit(ms: Seq<Milestone>) -> bool {
    forall|i: int, t: Seq<char>| 0 <= i <= ms.len() ==> #[trigger] totals_in_range(ms.take(i), t)
}

proof fn lemma_filter_push(s: Seq<Milestone>, x: Milestone, t: Seq<char>)
    ensures
        cycle_of(s.push(x), t) == if x.title@ == t {
            cycle_of(s, t).push(x)
        } else {
            cycle_of(s, t)
        },
{
    reveal(Seq::filter);
    assert(s.push(x).drop_last() =~= s);
}

proof fn lemma_sums_push(f: Seq<Milestone>, x: Milestone)
    ensures
        open_sum(f.push(x)) == open_sum(f) + x.open_issues,
        closed_sum(f.push(x)) == closed_sum(f) + x.closed_issues,
{
    assert(f.push(x).drop_last() =~= f);
}

proof fn lemma_absent_cycle_empty(s: Seq<Milestone>, t: Seq<char>)
    requires
        forall|k: int| 0 <= k < s.len() ==> (#[trigger] s[k]).title@ != t,
    ensures
        cycle_of(s, t).len() == 0,
{
    assert(s.all(|m: Milestone| !titled(t)(m)));
    s.lemma_all_neg_filter_empty(titled(t));
}

/// Adding a milestone of an existing cycle to that cycle.
proof fn lemma_roadmap_extend(gs: Seq<CycleGroup>, s: Seq<Milestone>, x: Milestone, j: int, g: CycleGroup)
    requires
        roadmap_spec(gs, s),
        0 <= j < gs.len(),
        gs[j].title@ == x.title@,
        g.title == gs[j].title,
        g.due_date == gs[j].due_date,
        g.milestones@ == gs[j].milestones@.push(g.milestones@.last()),
        info_of(x, g.milestones@.last()),
        g.total_open == gs[j].total_open + x.open_issues,
        g.total_closed == gs[j].total_closed + x.closed_issues,
    ensures
        roadmap_spec(gs.update(j, g), s.push(x)),
{
    let t = gs.update(j, g);
    let s2 = s.push(x);
    assert forall|i: int| 0 <= i < t.len() implies group_matches(#[trigger] t[i], s2) by {
        assert(group_matches(gs[i], s));
        lemma_filter_push(s, x, gs[i].title@);
        if i == j {
            let f = cycle_of(s, x.title@);
            lemma_sums_push(f, x);
            assert(cycle_of(s2, x.title@) == f.push(x));
            assert forall|k: int| 0 <= k < f.len() + 1 implies info_of(f.push(x)[k], #[trigger] g.milestones@[k]) by {
                if k < f.len() {
                    assert(g.milestones@[k] == gs[j].milestones@[k]);
                }
            }
        } else {
            assert(gs[i].title@ != x.title@) by {
                if i < j {
                    assert(gs[i].title@ != gs[j].title@);
                } else {
                    assert(gs[j].title@ != gs[i].title@);
                }
            }
        }
    }
    assert forall|a: int, b: int| 0 <= a < b < t.len() implies (#[trigger] t[a]).title@ != (#[trigger] t[b]).title@ by {
        assert(gs[a].title@ != gs[b].title@);
    }
    assert forall|k: int| 0 <= k < s2.len() implies has_cycle(t, (#[trigger] s2[k]).title@) by {
        if k < s.len() {
            assert(s2[k] == s[k]);
            assert(has_cycle(gs, s[k].title@));
            let i = choose|i: int| 0 <= i < gs.len() && (#[trigger] gs[i]).title@ == s[k].title@;
            assert(t[i].title@ == s[k].title@);
        } else {
            assert(t[j].title@ == x.title@);
        }
    }
    assert forall|a: int, b: int| 0 <= a < b < t.len() implies crate::ordering::in_order(
        #[trigger] t[a].sort_key(),
        #[trigger] t[b].sort_key(),
        false,
    ) by {
        assert(crate::ordering::in_order(gs[a].sort_key(), gs[b].sort_key(), false));
    }
}

/// Starting a new cycle with a milestone whose title has no cycle yet, at
/// its place by due date.
proof fn lemma_roadmap_new(gs: Seq<CycleGroup>, s: Seq<Milestone>, x: Milestone, p: int, g: CycleGroup)
    requires
        roadmap_spec(gs, s),
        !has_cycle(gs, x.title@),
        0 <= p <= gs.len(),
        forall|q: int| 0 <= q < p ==> crate::ordering::in_order(#[trigger] gs[q].sort_key(), g.sort_key(), false),
        p < gs.len() ==> !crate::ordering::in_order(gs[p].sort_key(), g.sort_key(), false),
        g.title == x.title,
        g.due_date == x.due_on,
        g.milestones@.len() == 1,
        info_of(x, g.milestones@[0]),
        g.total_open == x.open_issues,
        g.total_closed == x.closed_issues,
    ensures
        roadmap_spec(gs.insert(p, g), s.push(x)),
{
    let t = gs.insert(p, g);
    let s2 = s.push(x);
    assert forall|k: int| 0 <= k < s.len() implies (#[trigger] s[k]).title@ != x.title@ by {
        assert(has_cycle(gs, s[k].title@));
    }
    lemma_absent_cycle_empty(s, x.title@);
    lemma_filter_push(s, x, x.title@);
    assert(cycle_of(s2, x.title@) =~= seq![x]);
    lemma_sums_push(cycle_of(s, x.title@), x);
    assert(open_sum(Seq::<Milestone>::empty()) == 0);
    assert forall|i: int| 0 <= i < t.len() implies group_matches(#[trigger] t[i], s2) by {
        if i == p {
            assert(t[i] == g);
            assert(cycle_of(s, x.title@) =~= Seq::<Milestone>::empty());
        } else {
            let k = if i < p { i } else { i - 1 };
            assert(t[i] == gs[k]);
            assert(group_matches(gs[k], s));
            assert(gs[k].title@ != x.title@);
            lemma_filter_push(s, x, gs[k].title@);
        }
    }
    assert forall|a: int, b: int| 0 <= a < b < t.len() implies (#[trigger] t[a]).title@ != (#[trigger] t[b]).title@ by {
        if a == p {
            assert(t[b] == gs[b - 1]);
        } else if b == p {
            assert(t[a] == gs[a]);
        } else {
            let ka = if a < p { a } else { a - 1 };
            let kb = if b < p { b } else { b - 1 };
            assert(t[a] == gs[ka] && t[b] == gs[kb]);
            assert(gs[ka].title@ != gs[kb].title@);
        }
    }
    assert forall|k: int| 0 <= k < s2.len() implies has_cycle(t, (#[trigger] s2[k]).title@) by {
        if k < s.len() {
            assert(s2[k] == s[k]);
            assert(has_cycle(gs, s[k].title@));
            let i = choose|i: int| 0 <= i < gs.len() && (#[trigger] gs[i]).title@ == s[k].title@;
            if i < p {
                assert(t[i] == gs[i]);
            } else {
                assert(t[i + 1] == gs[i]);
            }
        } else {
            assert(t[p].title@ == x.title@);
        }
    }
    lemma_insert_keeps_order(gs, g, p, false);
}

/// The sum of `f` over the cycles.
pub open spec fn cycles_sum(gs: Seq<CycleGroup>, f: spec_fn(CycleGroup) -> int) -> int
    decreases gs.len(),
{
    if gs.len() == 0 {
        0
    } else {
        cycles_sum(gs.drop_last(), f) + f(gs.last())
    }
}

pub open spec fn open_of() -> spec_fn(CycleGroup) -> int {
    |g: CycleGroup| g.total_open as int
}

pub open spec fn closed_of() -> spec_fn(CycleGroup) -> int {
    |g: CycleGroup| g.total_closed as int
}

proof fn lemma_cycles_sum_update(gs: Seq<CycleGroup>, j: int, g: CycleGroup, f: spec_fn(CycleGroup) -> int)
    requires
        0 <= j < gs.len(),
    ensures
        cycles_sum(gs.update(j, g), f) == cycles_sum(gs, f) - f(gs[j]) + f(g),
    decreases gs.len(),
{
    let t = gs.update(j, g);
    if j < gs.len() - 1 {
        lemma_cycles_sum_update(gs.drop_last(), j, g, f);
        assert(t.drop_last() =~= gs.drop_last().update(j, g));
    } else {
        assert(t.drop_last() =~= gs.drop_last());
    }
}

proof fn lemma_cycles_sum_insert(gs: Seq<CycleGroup>, p: int, g: CycleGroup, f: spec_fn(CycleGroup) -> int)
    requires
        0 <= p <= gs.len(),
    ensures
        cycles_sum(gs.insert(p, g), f) == cycles_sum(gs, f) + f(g),
    decreases gs.len(),
{
    let t = gs.insert(p, g);
    if p == gs.len() {
        assert(t.drop_last() =~= gs);
    } else {
        lemma_cycles_sum_insert(gs.drop_last(), p, g, f);
        assert(t.drop_last() =~= gs.drop_last().insert(p, g));
    }
}

/// The cycles' totals add up to the issue counts of all milestones:
/// grouping loses and double-counts nothing.
pub open spec fn totals_preserved(gs: Seq<CycleGroup>, ms: Seq<Milestone>) -> bool {
    &&& cycles_sum(gs, open_of()) == open_sum(ms)
    &&& cycles_sum(gs, closed_of()) == closed_sum(ms)
}

fn clone_text(o: &Option<String>) -> (r: Option<String>)
    ensures
        r == *o,
{
    match o {
        Some(t) => Some(t.clone()),
        None => None,
    }
}

fn milestone_info(m: &Milestone) -> (info: MilestoneInfo)
    ensures
        info_of(*m, info),
{
    let mut id = String::new();
    push_decimal_i64(&mut id, m.id);
    let mut repo = String::new();
    push_str(&mut repo, "repo-");
    push_decimal_i64(&mut repo, m.repo_id);
    MilestoneInfo {
        id,
        title: m.title.clone(),
        description: clone_text(&m.description),
        due_date: clone_text(&m.due_on),
        repo,
        open_issues: m.open_issues,
        closed_issues: m.closed_issues,
        state: m.state.clone(),
    }
}

/// Group milestones by title (cycle name), ordered by due date; cycles
/// with the same due date keep the order in which their titles first
/// appear.
pub fn group_milestones_by_cycle(milestones: &Vec<Milestone>) -> (r: Vec<CycleGroup>)
    requires
        cycle_totals_fit(milestones@),
    ensures
        roadmap_spec(r@, milestones@),
        totals_preserved(r@, milestones@),
        forall|i: int, j: int|
            0 <= i < j < r@.len() ==> due_not_after((#[trigger] r@[i]).due_date, (#[trigger] r@[j]).due_date),
{
    let ghost ms = milestones@;
    let mut groups: Vec<CycleGroup> = Vec::new();
    let mut i: usize = 0;
    while i < milestones.len()
        invariant
            ms == milestones@,
            cycle_totals_fit(ms),
            0 <= i <= ms.len(),
            roadmap_spec(groups@, ms.take(i as int)),
            totals_preserved(groups@, ms.take(i as int)),
        decreases ms.len() - i,
    {
        let m = &milestones[i];
        let ghost s = ms.take(i as int);
        assert(ms.take(i + 1) =~= s.push(*m));
        proof {
            lemma_sums_push(s, *m);
        }
        let info = milestone_info(m);
        let mut j: usize = 0;
        while j < groups.len() && !(groups[j].title == m.title)
            invariant
                0 <= j <= groups@.len(),
                forall|q: int| 0 <= q < j ==> (#[trigger] groups@[q]).title@ != m.title@,
            decreases groups@.len() - j,
        {
            j = j + 1;
        }
        if j < groups.len() {
            let ghost before = groups@;
            proof {
                assert(group_matches(before[j as int], s));
                lemma_filter_push(s, *m, m.title@);
                lemma_sums_push(cycle_of(s, m.title@), *m);
                assert(totals_in_range(ms.take(i + 1), m.title@));
            }
            let mut g = groups.remove(j);
            g.total_open = g.total_open + m.open_issues;
            g.total_closed = g.total_closed + m.closed_issues;
            g.milestones.push(info);
            groups.insert(j, g);
            proof {
                assert(groups@ =~= before.update(j as int, groups@[j as int]));
                lemma_roadmap_extend(before, s, *m, j as int, groups@[j as int]);
                lemma_cycles_sum_update(before, j as int, groups@[j as int], open_of());
                lemma_cycles_sum_update(before, j as int, groups@[j as int], closed_of());
            }
        } else {
            let mut infos: Vec<MilestoneInfo> = Vec::new();
            infos.push(info);
            let g = CycleGroup {
                title: m.title.clone(),
                due_date: clone_text(&m.due_on),
                milestones: infos,
                total_open: m.open_issues,
                total_closed: m.closed_issues,
            };
            let mut p: usize = 0;
            while p < groups.len() && !g.key_less(&groups[p])
                invariant
                    0 <= p <= groups@.len(),
                    forall|q: int|
                        0 <= q < p ==> crate::ordering::in_order(#[trigger] groups@[q].sort_key(), g.sort_key(), false),
                decreases groups@.len() - p,
            {
                p = p + 1;
            }
            let ghost before = groups@;
            proof {
                lemma_roadmap_new(before, s, *m, p as int, g);
                lemma_cycles_sum_insert(before, p as int, g, open_of());
                lemma_cycles_sum_insert(before, p as int, g, closed_of());
            }
            groups.insert(p, g);
        }
        i = i + 1;
    }
    assert(ms.take(ms.len() as int) =~= ms);
    proof {
        lemma_roadmap_by_due_date(groups@, ms);
    }
    groups
}

/// Due date `a` comes no later than due date `b`: `a` is unset, or both
/// are set and `a` is not after `b` as `str` compares (byte by byte).
pub open spec fn due_not_after(a: Option<String>, b: Option<String>) -> bool {
    match a {
        None => true,
        Some(x) => match b {
            None => false,
            Some(y) => !key_lt(bytes_key(encode_utf8(y@)), bytes_key(encode_utf8(x@))),
        },
    }
}

/// The cycles of a roadmap run by due date: those without one first, then
/// by due date, none due after a cycle listed later.
pub proof fn lemma_roadmap_by_due_date(gs: Seq<CycleGroup>, ms: Seq<Milestone>)
    requires
        roadmap_spec(gs, ms),
    ensures
        forall|i: int, j: int|
            0 <= i < j < gs.len() ==> due_not_after((#[trigger] gs[i]).due_date, (#[trigger] gs[j]).due_date),
{
    assert forall|i: int, j: int| 0 <= i < j < gs.len() implies due_not_after(
        (#[trigger] gs[i]).due_date,
        (#[trigger] gs[j]).due_date,
    ) by {
        assert(crate::ordering::in_order(gs[i].sort_key(), gs[j].sort_key(), false));
        match (gs[i].due_date, gs[j].due_date) {
            (Some(x), Some(y)) => {
                lemma_key_lt_prefixed(0, bytes_key(encode_utf8(y@)), bytes_key(encode_utf8(x@)));
            },
            (Some(x), None) => {
                assert(key_lt(due_key(gs[j].due_date), due_key(gs[i].due_date)));
            },
            _ => {},
        }
    }
}

} // verus!
