//! Stable sorting by a lexicographic key, the order `sort_by` gives with
//! comparisons of strings (their UTF-8 bytes), integers, and options
//! (`None` first).

use vstd::prelude::*;

verus! {

broadcast use vstd::seq_lib::group_seq_properties;

/// Strict lexicographic order on integer sequences; a proper prefix comes
/// first.
pub open spec fn key_lt(a: Seq<int>, b: Seq<int>) -> bool
    decreases a.len(),
{
    if a.len() == 0 {
        b.len() > 0
    } else if b.len() == 0 {
        false
    } else if a[0] < b[0] {
        true
    } else if a[0] > b[0] {
        false
    } else {
        key_lt(a.drop_first(), b.drop_first())
    }
}

pub proof fn lemma_key_lt_irreflexive(a: Seq<int>)
    ensures
        !key_lt(a, a),
    decreases a.len(),
{
    if a.len() > 0 {
        lemma_key_lt_irreflexive(a.drop_first());
    }
}

pub proof fn lemma_key_lt_transitive(a: Seq<int>, b: Seq<int>, c: Seq<int>)
    requires
        key_lt(a, b),
        key_lt(b, c),
    ensures
        key_lt(a, c),
    decreases a.len(),
{
    if a.len() > 0 && b.len() > 0 && c.len() > 0 && a[0] == b[0] && b[0] == c[0] {
        lemma_key_lt_transitive(a.drop_first(), b.drop_first(), c.drop_first());
    }
}

pub proof fn lemma_key_lt_total(a: Seq<int>, b: Seq<int>)
    ensures
        a == b || key_lt(a, b) || key_lt(b, a),
    decreases a.len(),
{
    if a.len() == 0 && b.len() == 0 {
        assert(a =~= b);
    } else if a.len() > 0 && b.len() > 0 && a[0] == b[0] {
        lemma_key_lt_total(a.drop_first(), b.drop_first());
        if a.drop_first() == b.drop_first() {
            assert(a =~= seq![a[0]] + a.drop_first());
            assert(b =~= seq![b[0]] + b.drop_first());
        }
    }
}

pub proof fn lemma_key_lt_asymmetric(a: Seq<int>, b: Seq<int>)
    ensures
        key_lt(a, b) ==> !key_lt(b, a),
{
    if key_lt(a, b) && key_lt(b, a) {
        lemma_key_lt_transitive(a, b, a);
        lemma_key_lt_irreflexive(a);
    }
}

/// Comparing two sequences that share a prefix of length `i` is
/// comparing what follows it.
pub proof fn lemma_key_lt_common_prefix(a: Seq<int>, b: Seq<int>, i: int)
    requires
        0 <= i <= a.len(),
        i <= b.len(),
        a.subrange(0, i) == b.subrange(0, i),
    ensures
        key_lt(a, b) == key_lt(a.subrange(i, a.len() as int), b.subrange(i, b.len() as int)),
    decreases i,
{
    if i > 0 {
        assert(a[0] == a.subrange(0, i)[0]);
        assert(b[0] == b.subrange(0, i)[0]);
        assert(a.drop_first().subrange(0, i - 1) =~= a.subrange(0, i).drop_first());
        assert(b.drop_first().subrange(0, i - 1) =~= b.subrange(0, i).drop_first());
        lemma_key_lt_common_prefix(a.drop_first(), b.drop_first(), i - 1);
        assert(a.drop_first().subrange(i - 1, a.len() - 1) =~= a.subrange(i, a.len() as int));
        assert(b.drop_first().subrange(i - 1, b.len() - 1) =~= b.subrange(i, b.len() as int));
    } else {
        assert(a.subrange(0, a.len() as int) =~= a);
        assert(b.subrange(0, b.len() as int) =~= b);
    }
}

/// Prefixing both sequences with the same value keeps their order.
pub proof fn lemma_key_lt_prefixed(x: int, a: Seq<int>, b: Seq<int>)
    ensures
        key_lt(seq![x] + a, seq![x] + b) == key_lt(a, b),
{
    assert((seq![x] + a).drop_first() =~= a);
    assert((seq![x] + b).drop_first() =~= b);
}

/// The key of a byte string.
pub open spec fn bytes_key(s: Seq<u8>) -> Seq<int> {
    s.map_values(|b: u8| b as int)
}

/// Byte-wise lexicographic comparison, the order of `str` and `[u8]`.
pub fn bytes_less(a: &[u8], b: &[u8]) -> (r: bool)
    ensures
        r == key_lt(bytes_key(a@), bytes_key(b@)),
{
    let ghost ka = bytes_key(a@);
    let ghost kb = bytes_key(b@);
    let mut i: usize = 0;
    while i < a.len() && i < b.len()
        invariant
            0 <= i <= a@.len(),
            i <= b@.len(),
            ka == bytes_key(a@),
            kb == bytes_key(b@),
            ka.subrange(0, i as int) == kb.subrange(0, i as int),
        decreases a@.len() - i,
    {
        if a[i] != b[i] {
            proof {
                lemma_key_lt_common_prefix(ka, kb, i as int);
                let ra = ka.subrange(i as int, ka.len() as int);
                let rb = kb.subrange(i as int, kb.len() as int);
                assert(ra[0] == a@[i as int] as int);
                assert(rb[0] == b@[i as int] as int);
            }
            return a[i] < b[i];
        }
        assert(ka.subrange(0, i + 1) =~= ka.subrange(0, i as int).push(ka[i as int]));
        assert(kb.subrange(0, i + 1) =~= kb.subrange(0, i as int).push(kb[i as int]));
        i = i + 1;
    }
    proof {
        lemma_key_lt_common_prefix(ka, kb, i as int);
    }
    i == a.len() && i < b.len()
}

/// Values with a sort key.
pub trait SortKey {
    spec fn sort_key(&self) -> Seq<int>;

    fn key_less(&self, other: &Self) -> (r: bool)
        ensures
            r == key_lt(self.sort_key(), other.sort_key()),
    ;
}

/// Whether `a` may come before `b` in a sorted sequence.
pub open spec fn in_order(a: Seq<int>, b: Seq<int>, descending: bool) -> bool {
    if descending {
        !key_lt(a, b)
    } else {
        !key_lt(b, a)
    }
}

/// Every pair of elements is in order.
pub open spec fn sorted_by_key<T: SortKey>(s: Seq<T>, descending: bool) -> bool {
    forall|i: int, j: int|
        0 <= i < j < s.len() ==> in_order(#[trigger] s[i].sort_key(), #[trigger] s[j].sort_key(), descending)
}

/// Elements whose key is `k`.
pub open spec fn has_key<T: SortKey>(k: Seq<int>) -> spec_fn(T) -> bool {
    |x: T| x.sort_key() == k
}

/// The elements of `s` with key `k`, in their order in `s`.
pub open spec fn with_key<T: SortKey>(s: Seq<T>, k: Seq<int>) -> Seq<T> {
    s.filter(has_key::<T>(k))
}

/// Sorts by key, ascending or descending; elements with equal keys keep
/// their relative order (as `sort_by` does).
pub fn stable_sort_by_key<T: SortKey>(items: Vec<T>, descending: bool) -> (r: Vec<T>)
    ensures
        r@.len() == items@.len(),
        sorted_by_key(r@, descending),
        forall|k: Seq<int>| #[trigger] with_key(r@, k) == with_key(items@, k),
{
    let ghost orig = items@;
    let n = items.len();
    let mut rest = items;
    let mut out: Vec<T> = Vec::new();
    let mut c: usize = 0;
    assert(orig.take(0) =~= Seq::<T>::empty());
    assert(out@ =~= Seq::<T>::empty());
    while c < n
        invariant
            n == orig.len(),
            0 <= c <= n,
            rest@ == orig.subrange(c as int, n as int),
            out@.len() == c,
            sorted_by_key(out@, descending),
            forall|k: Seq<int>| #[trigger] with_key(out@, k) == with_key(orig.take(c as int), k),
        decreases n - c,
    {
        let x = rest.remove(0);
        assert(x == orig[c as int]);
        assert(rest@ =~= orig.subrange(c + 1, n as int));
        let mut p: usize = 0;
        while p < out.len()
            invariant
                0 <= p <= out@.len(),
                forall|q: int| 0 <= q < p ==> in_order(#[trigger] out@[q].sort_key(), x.sort_key(), descending),
            ensures
                0 <= p <= out@.len(),
                forall|q: int| 0 <= q < p ==> in_order(#[trigger] out@[q].sort_key(), x.sort_key(), descending),
                p < out@.len() ==> !in_order(out@[p as int].sort_key(), x.sort_key(), descending),
            decreases out@.len() - p,
        {
            let goes_after = if descending {
                out[p].key_less(&x)
            } else {
                x.key_less(&out[p])
            };
            if goes_after {
                break;
            }
            p = p + 1;
        }
        let ghost before = out@;
        proof {
            lemma_insert_keeps_order(before, x, p as int, descending);
            lemma_insert_filters(before, x, p as int, descending, orig.take(c as int));
            assert(orig.take(c + 1) =~= orig.take(c as int).push(x));
        }
        out.insert(p, x);
        c = c + 1;
    }
    assert(orig.take(n as int) =~= orig);
    out
}

pub proof fn lemma_insert_keeps_order<T: SortKey>(s: Seq<T>, x: T, p: int, descending: bool)
    requires
        0 <= p <= s.len(),
        sorted_by_key(s, descending),
        forall|q: int| 0 <= q < p ==> in_order(#[trigger] s[q].sort_key(), x.sort_key(), descending),
        p < s.len() ==> !in_order(s[p].sort_key(), x.sort_key(), descending),
    ensures
        sorted_by_key(s.insert(p, x), descending),
{
    let t = s.insert(p, x);
    assert forall|i: int, j: int| 0 <= i < j < t.len() implies in_order(
        #[trigger] t[i].sort_key(),
        #[trigger] t[j].sort_key(),
        descending,
    ) by {
        if j < p {
            assert(t[i] == s[i] && t[j] == s[j]);
        } else if j == p {
            assert(t[i] == s[i]);
        } else if i == p {
            // x against s[j - 1], which is at or after the insertion point.
            let y = s[j - 1];
            let z = s[p];
            assert(t[j] == y);
            lemma_key_lt_asymmetric(z.sort_key(), x.sort_key());
            lemma_key_lt_asymmetric(x.sort_key(), z.sort_key());
            if j - 1 > p {
                assert(in_order(z.sort_key(), y.sort_key(), descending));
                if descending {
                    if key_lt(x.sort_key(), y.sort_key()) {
                        lemma_key_lt_transitive(z.sort_key(), x.sort_key(), y.sort_key());
                    }
                } else {
                    if key_lt(y.sort_key(), x.sort_key()) {
                        lemma_key_lt_transitive(y.sort_key(), x.sort_key(), z.sort_key());
                    }
                }
            }
        } else if i < p {
            assert(t[i] == s[i] && t[j] == s[j - 1]);
        } else {
            assert(t[i] == s[i - 1] && t[j] == s[j - 1]);
        }
    }
}

proof fn lemma_insert_filters<T: SortKey>(s: Seq<T>, x: T, p: int, descending: bool, src: Seq<T>)
    requires
        0 <= p <= s.len(),
        sorted_by_key(s, descending),
        p < s.len() ==> !in_order(s[p].sort_key(), x.sort_key(), descending),
        forall|k: Seq<int>| #[trigger] with_key(s, k) == with_key(src, k),
    ensures
        forall|k: Seq<int>| #[trigger] with_key(s.insert(p, x), k) == with_key(src.push(x), k),
{
    let head = s.subrange(0, p);
    let tail = s.subrange(p, s.len() as int);
    assert(s =~= head + tail);
    assert(s.insert(p, x) =~= head.push(x) + tail);
    // No element of the tail has the key of x.
    assert forall|q: int| 0 <= q < tail.len() implies tail[q].sort_key() != x.sort_key() by {
        let z = s[p];
        let y = s[p + q];
        assert(tail[q] == y);
        if q > 0 {
            assert(in_order(z.sort_key(), y.sort_key(), descending));
        }
        if y.sort_key() == x.sort_key() {
            lemma_key_lt_asymmetric(z.sort_key(), x.sort_key());
            lemma_key_lt_asymmetric(x.sort_key(), z.sort_key());
        }
    }
    assert forall|k: Seq<int>| #[trigger] with_key(s.insert(p, x), k) == with_key(src.push(x), k) by {
        let f = has_key::<T>(k);
        Seq::filter_distributes_over_add(head.push(x), tail, f);
        Seq::filter_distributes_over_add(head, tail, f);
        head.lemma_filter_push(x, f);
        src.lemma_filter_push(x, f);
        assert(with_key(s, k) == with_key(src, k));
        if f(x) {
            assert forall|q: int| 0 <= q < tail.len() implies !f(tail[q]) by {}
            tail.lemma_all_neg_filter_empty(f);
            assert(tail.filter(f) =~= Seq::<T>::empty());
            assert(head.filter(f).push(x) + tail.filter(f) =~= (head.filter(f) + tail.filter(f)).push(x));
        }
    }
}

} // verus!
