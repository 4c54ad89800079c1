//! Lexicographic order on strings and a verified sort.
//!
//! `String`'s `Ord` compares UTF-8 bytes lexicographically, which orders
//! strings exactly as comparing their characters' code points does; the
//! model below compares characters.
use std::collections::HashMap;

use vstd::prelude::*;
use vstd::relations::*;
use vstd::std_specs::hash::spec_keys_iter;
use vstd::std_specs::iter::IteratorSpec;

verus! {

broadcast use vstd::seq_lib::group_to_multiset_ensures;

/// `a <= b` in lexicographic order of code points.
pub open spec fn lex_le(a: Seq<char>, b: Seq<char>) -> bool
    decreases a.len(),
{
    if a.len() == 0 {
        true
    } else if b.len() == 0 {
        false
    } else if a[0] < b[0] {
        true
    } else if a[0] > b[0] {
        false
    } else {
        lex_le(a.drop_first(), b.drop_first())
    }
}

/// `lex_le` as a closure, for `Seq::sort_by`.
pub open spec fn lex_leq() -> spec_fn(Seq<char>, Seq<char>) -> bool {
    |a: Seq<char>, b: Seq<char>| lex_le(a, b)
}

proof fn lemma_lex_refl(a: Seq<char>)
    ensures
        lex_le(a, a),
    decreases a.len(),
{
    if a.len() > 0 {
        lemma_lex_refl(a.drop_first());
    }
}

proof fn lemma_lex_total(a: Seq<char>, b: Seq<char>)
    ensures
        lex_le(a, b) || lex_le(b, a),
    decreases a.len(),
{
    if a.len() > 0 && b.len() > 0 && a[0] == b[0] {
        lemma_lex_total(a.drop_first(), b.drop_first());
    }
}

proof fn lemma_lex_antisym(a: Seq<char>, b: Seq<char>)
    requires
        lex_le(a, b),
        lex_le(b, a),
    ensures
        a == b,
    decreases a.len(),
{
    if a.len() == 0 {
        assert(b.len() == 0);
        assert(a =~= b);
    } else {
        assert(b.len() > 0);
        assert(a[0] == b[0]);
        lemma_lex_antisym(a.drop_first(), b.drop_first());
        assert(a =~= seq![a[0]] + a.drop_first());
        assert(b =~= seq![b[0]] + b.drop_first());
    }
}

proof fn lemma_lex_trans(a: Seq<char>, b: Seq<char>, c: Seq<char>)
    requires
        lex_le(a, b),
        lex_le(b, c),
    ensures
        lex_le(a, c),
    decreases a.len(),
{
    if a.len() > 0 && b.len() > 0 && c.len() > 0 && a[0] == b[0] && b[0] == c[0] {
        lemma_lex_trans(a.drop_first(), b.drop_first(), c.drop_first());
    }
}

/// `lex_le` is a total order.
pub proof fn lemma_lex_total_ordering()
    ensures
        total_ordering(lex_leq()),
{
    let r = lex_leq();
    assert forall|x: Seq<char>| #[trigger] r(x, x) by {
        lemma_lex_refl(x);
    }
    assert forall|x: Seq<char>, y: Seq<char>| #[trigger] r(x, y) && #[trigger] r(y, x) implies x
        == y by {
        lemma_lex_antisym(x, y);
    }
    assert forall|x: Seq<char>, y: Seq<char>, z: Seq<char>| #[trigger] r(x, y) && #[trigger] r(
        y,
        z,
    ) implies r(x, z) by {
        lemma_lex_trans(x, y, z);
    }
    assert forall|x: Seq<char>, y: Seq<char>| #[trigger] r(x, y) || #[trigger] r(y, x) by {
        lemma_lex_total(x, y);
    }
}

/// Compares two character buffers lexicographically.
pub fn lex_le_exec(a: &Vec<char>, b: &Vec<char>) -> (r: bool)
    ensures
        r == lex_le(a@, b@),
{
    let mut i: usize = 0;
    assert(a@.skip(0) =~= a@);
    assert(b@.skip(0) =~= b@);
    while i < a.len()
        invariant
            i <= a.len(),
            i <= b.len(),
            forall|j: int| 0 <= j < i ==> a@[j] == b@[j],
            lex_le(a@, b@) == lex_le(a@.skip(i as int), b@.skip(i as int)),
        decreases a.len() - i,
    {
        if i >= b.len() {
            return false;
        }
        let x = a[i];
        let y = b[i];
        if x < y {
            return true;
        }
        if x > y {
            return false;
        }
        assert(a@.skip(i as int).drop_first() =~= a@.skip(i + 1));
        assert(b@.skip(i as int).drop_first() =~= b@.skip(i + 1));
        i += 1;
    }
    true
}

/// The views of a list of character buffers.
pub open spec fn buffer_views(v: Seq<Vec<char>>) -> Seq<Seq<char>> {
    v.map_values(|b: Vec<char>| b@)
}

/// Sorts character buffers in lexicographic order (as `Vec<String>::sort` does).
pub fn sort_buffers(v: Vec<Vec<char>>) -> (r: Vec<Vec<char>>)
    ensures
        buffer_views(r@) == buffer_views(v@).sort_by(lex_leq()),
{
    proof {
        lemma_lex_total_ordering();
    }
    let mut r: Vec<Vec<char>> = Vec::new();
    let mut k: usize = 0;
    let ghost input = buffer_views(v@);
    while k < v.len()
        invariant
            k <= v.len(),
            input == buffer_views(v@),
            total_ordering(lex_leq()),
            sorted_by(buffer_views(r@), lex_leq()),
            buffer_views(r@).to_multiset() == input.take(k as int).to_multiset(),
        decreases v.len() - k,
    {
        let x = v[k].clone();
        assert(x@ == v@[k as int]@);
        let ghost rv = buffer_views(r@);
        // position of the first element greater than x
        let mut p: usize = 0;
        while p < r.len() && lex_le_exec(&r[p], &x)
            invariant
                p <= r.len(),
                rv == buffer_views(r@),
                forall|j: int| 0 <= j < p ==> lex_le(rv[j], x@),
            decreases r.len() - p,
        {
            p += 1;
        }
        r.insert(p, x);
        proof {
            let nv = buffer_views(r@);
            assert(nv =~= rv.insert(p as int, x@));
            assert forall|a: int, b: int| 0 <= a < b < nv.len() implies #[trigger] lex_leq()(
                nv[a],
                nv[b],
            ) by {
                if b < p {
                    assert(nv[a] == rv[a] && nv[b] == rv[b]);
                    assert(lex_leq()(rv[a], rv[b]));
                } else if b == p {
                    assert(nv[a] == rv[a]);
                } else if a == p {
                    assert(nv[b] == rv[b - 1]);
                    assert(!lex_le(rv[p as int], x@));
                    lemma_lex_total(rv[p as int], x@);
                    if b - 1 > p {
                        assert(lex_leq()(rv[p as int], rv[b - 1]));
                        lemma_lex_trans(x@, rv[p as int], rv[b - 1]);
                    }
                } else if a < p {
                    assert(nv[a] == rv[a] && nv[b] == rv[b - 1]);
                    assert(lex_leq()(rv[a], rv[b - 1]));
                } else {
                    assert(nv[a] == rv[a - 1] && nv[b] == rv[b - 1]);
                    assert(lex_leq()(rv[a - 1], rv[b - 1]));
                }
            }
            assert(rv.insert(p as int, x@) =~= rv.take(p as int).push(x@) + rv.skip(p as int));
            assert(rv =~= rv.take(p as int) + rv.skip(p as int));
            vstd::seq_lib::lemma_multiset_commutative(rv.take(p as int).push(x@), rv.skip(p as int));
            vstd::seq_lib::lemma_multiset_commutative(rv.take(p as int), rv.skip(p as int));
            assert(input.take(k + 1) =~= input.take(k as int).push(x@));
        }
        k += 1;
    }
    proof {
        assert(input.take(v.len() as int) =~= input);
        input.lemma_sort_by_ensures(lex_leq());
        vstd::seq_lib::lemma_sorted_unique(buffer_views(r@), input.sort_by(lex_leq()), lex_leq());
    }
    r
}


// ---------------------------------------------------------------------------
// Increasing sequences of indices
// ---------------------------------------------------------------------------

/// Whether `s` is strictly increasing.
pub open spec fn increasing(s: Seq<usize>) -> bool {
    forall|i: int, j: int| 0 <= i < j < s.len() ==> s[i] < s[j]
}

/// The elements of a finite set in increasing order.
pub open spec fn in_order(s: Set<usize>) -> Seq<usize> {
    choose|q: Seq<usize>| increasing(q) && q.to_set() == s
}

/// Two increasing sequences with the same elements are equal.
pub proof fn lemma_increasing_unique(a: Seq<usize>, b: Seq<usize>)
    requires
        increasing(a),
        increasing(b),
        forall|x: usize| a.contains(x) <==> b.contains(x),
    ensures
        a == b,
    decreases a.len(),
{
    if a.len() == 0 {
        if b.len() > 0 {
            assert(b.contains(b[0]));
        }
        assert(a =~= b);
    } else {
        assert(a.contains(a.last()));
        assert(b.len() > 0);
        assert(b.contains(b.last()));
        let i = choose|i: int| 0 <= i < b.len() && b[i] == a.last();
        let j = choose|j: int| 0 <= j < a.len() && a[j] == b.last();
        assert(a.last() <= b.last());
        assert(b.last() <= a.last());
        let a2 = a.drop_last();
        let b2 = b.drop_last();
        assert forall|x: usize| a2.contains(x) <==> b2.contains(x) by {
            if a2.contains(x) {
                let k = choose|k: int| 0 <= k < a2.len() && a2[k] == x;
                assert(a[k] == x && a.contains(x));
                let m = choose|m: int| 0 <= m < b.len() && b[m] == x;
                assert(m != b.len() - 1);
                assert(b2[m] == x);
            }
            if b2.contains(x) {
                let k = choose|k: int| 0 <= k < b2.len() && b2[k] == x;
                assert(b[k] == x && b.contains(x));
                let m = choose|m: int| 0 <= m < a.len() && a[m] == x;
                assert(m != a.len() - 1);
                assert(a2[m] == x);
            }
        }
        lemma_increasing_unique(a2, b2);
        assert(a =~= a2.push(a.last()));
        assert(b =~= b2.push(b.last()));
    }
}

/// An increasing sequence holding exactly the elements of `s` is `in_order(s)`.
pub proof fn lemma_in_order(q: Seq<usize>, s: Set<usize>)
    requires
        increasing(q),
        forall|x: usize| q.contains(x) <==> s.contains(x),
    ensures
        in_order(s) == q,
{
    assert(q.to_set() =~= s);
    let c = in_order(s);
    assert(increasing(c) && c.to_set() == s);
    assert forall|x: usize| c.contains(x) <==> q.contains(x) by {
        assert(c.to_set().contains(x) <==> c.contains(x));
    }
    lemma_increasing_unique(c, q);
}

/// Inserts `key` into an increasing sequence that lacks it, keeping it increasing.
pub fn insert_in_order(r: &mut Vec<usize>, key: usize)
    requires
        increasing(old(r)@),
        !old(r)@.contains(key),
    ensures
        increasing(final(r)@),
        forall|x: usize| final(r)@.contains(x) <==> (old(r)@.contains(x) || x == key),
{
    let mut p: usize = 0;
    while p < r.len() && r[p] < key
        invariant
            p <= r@.len(),
            forall|j: int| 0 <= j < p ==> r@[j] < key,
        decreases r@.len() - p,
    {
        p += 1;
    }
    assert(p < r@.len() ==> r@[p as int] > key) by {
        if p < r@.len() {
            assert(r@[p as int] != key);
        }
    }
    let ghost before = r@;
    r.insert(p, key);
    assert forall|i: int, j: int| 0 <= i < j < r@.len() implies r@[i] < r@[j] by {
        if j < p {
            assert(r@[i] == before[i] && r@[j] == before[j]);
        } else if j == p {
            assert(r@[i] == before[i]);
        } else if i < p {
            assert(r@[i] == before[i] && r@[j] == before[j - 1]);
            if j - 1 > p {
                assert(before[p as int] < before[j - 1]);
            }
        } else if i == p {
            assert(r@[j] == before[j - 1]);
            if j - 1 > p {
                assert(before[p as int] < before[j - 1]);
            }
        } else {
            assert(r@[i] == before[i - 1] && r@[j] == before[j - 1]);
        }
    }
    assert forall|x: usize| r@.contains(x) <==> (before.contains(x) || x == key) by {
        if r@.contains(x) {
            let j = choose|j: int| 0 <= j < r@.len() && r@[j] == x;
            if j < p {
                assert(before[j] == x);
            } else if j > p {
                assert(before[j - 1] == x);
            }
        }
        if before.contains(x) {
            let j = choose|j: int| 0 <= j < before.len() && before[j] == x;
            if j < p {
                assert(r@[j] == x);
            } else {
                assert(r@[j + 1] == x);
            }
        }
        if x == key {
            assert(r@[p as int] == key);
        }
    }
}

/// The keys among the first `idx + 1` of `ks` are those among the first `idx`,
/// and the one at `idx`.
pub proof fn lemma_prefix_contains(ks: Seq<&usize>, idx: int)
    requires
        0 <= idx < ks.len(),
    ensures
        forall|x: usize|
            ks.take(idx + 1).unref().contains(x) <==> (ks.take(idx).unref().contains(x) || x
                == *ks[idx]),
{
    let pre = ks.take(idx).unref();
    let post = ks.take(idx + 1).unref();
    assert forall|x: usize| post.contains(x) <==> (pre.contains(x) || x == *ks[idx]) by {
        if post.contains(x) {
            let j = choose|j: int| 0 <= j < post.len() && post[j] == x;
            if j < idx {
                assert(pre[j] == x);
            }
        }
        if pre.contains(x) {
            let j = choose|j: int| 0 <= j < pre.len() && pre[j] == x;
            assert(post[j] == x);
        }
        if x == *ks[idx] {
            assert(post[idx] == x);
        }
    }
}

/// The keys of `map` in increasing order.
pub fn sorted_keys(map: &HashMap<usize, String>) -> (r: Vec<usize>)
    ensures
        r@ == in_order(map@.dom()),
        increasing(r@),
        forall|x: usize| r@.contains(x) <==> map@.dom().contains(x),
{
    broadcast use vstd::std_specs::hash::group_hash_axioms;

    let mut r: Vec<usize> = Vec::new();
    let ghost ks = spec_keys_iter(map).remaining();
    for k in it: map.keys()
        invariant
            it.seq() == ks,
            ks.no_duplicates(),
            ks.unref().to_set() == map@.dom(),
            increasing(r@),
            forall|x: usize| r@.contains(x) <==> ks.take(it.index()).unref().contains(x),
    {
        let key = *k;
        let ghost idx = it.index();
        proof {
            lemma_prefix_contains(ks, idx);
        }
        assert(!r@.contains(key)) by {
            if r@.contains(key) {
                let j = choose|j: int| 0 <= j < idx && ks.take(idx).unref()[j] == key;
                assert(ks[j] == ks[idx]);
            }
        }
        insert_in_order(&mut r, key);
    }
    proof {
        assert(ks.take(ks.len() as int) =~= ks);
        assert forall|x: usize| r@.contains(x) <==> map@.dom().contains(x) by {
            assert(ks.unref().to_set().contains(x) <==> ks.unref().contains(x));
        }
        lemma_in_order(r@, map@.dom());
    }
    r
}

/// `x` placed in the increasing sequence `q` where it belongs.
spec fn insert_sorted(q: Seq<usize>, x: usize) -> Seq<usize>
    decreases q.len(),
{
    if q.len() == 0 {
        seq![x]
    } else if q.last() < x {
        q.push(x)
    } else {
        insert_sorted(q.drop_last(), x).push(q.last())
    }
}

proof fn lemma_insert_sorted(q: Seq<usize>, x: usize)
    requires
        increasing(q),
        !q.contains(x),
    ensures
        increasing(insert_sorted(q, x)),
        forall|y: usize| insert_sorted(q, x).contains(y) <==> (q.contains(y) || y == x),
    decreases q.len(),
{
    let r = insert_sorted(q, x);
    if q.len() == 0 {
        assert(r == seq![x]);
        assert forall|y: usize| r.contains(y) <==> (q.contains(y) || y == x) by {
            if r.contains(y) {
                assert(r[0] == x);
            }
            if y == x {
                assert(r[0] == y);
            }
        }
    } else if q.last() < x {
        assert(r == q.push(x));
        assert forall|i: int, j: int| 0 <= i < j < r.len() implies r[i] < r[j] by {
            if j == q.len() {
                assert(r[i] == q[i]);
                if i < q.len() - 1 {
                    assert(q[i] < q[q.len() - 1]);
                }
            } else {
                assert(r[i] == q[i] && r[j] == q[j]);
            }
        }
        assert forall|y: usize| r.contains(y) <==> (q.contains(y) || y == x) by {
            if r.contains(y) {
                let k = choose|k: int| 0 <= k < r.len() && r[k] == y;
                if k < q.len() {
                    assert(q[k] == y);
                }
            }
            if q.contains(y) {
                let k = choose|k: int| 0 <= k < q.len() && q[k] == y;
                assert(r[k] == y);
            }
            if y == x {
                assert(r[q.len() as int] == y);
            }
        }
    } else {
        let q2 = q.drop_last();
        let last = q.last();
        assert(increasing(q2)) by {
            assert forall|i: int, j: int| 0 <= i < j < q2.len() implies q2[i] < q2[j] by {
                assert(q2[i] == q[i] && q2[j] == q[j]);
            }
        }
        assert(!q2.contains(x)) by {
            if q2.contains(x) {
                let k = choose|k: int| 0 <= k < q2.len() && q2[k] == x;
                assert(q[k] == x);
            }
        }
        assert(x != last) by {
            assert(q[q.len() - 1] == last);
        }
        lemma_insert_sorted(q2, x);
        let inner = insert_sorted(q2, x);
        assert(r == inner.push(last));
        assert forall|k: int| 0 <= k < inner.len() implies inner[k] < last by {
            let y = inner[k];
            assert(inner.contains(y));
            assert(q2.contains(y) || y == x);
            if y != x {
                let w = choose|w: int| 0 <= w < q2.len() && q2[w] == y;
                assert(q[w] == q2[w]);
                assert(q[w] < q[q.len() - 1]);
            }
        }
        assert forall|i: int, j: int| 0 <= i < j < r.len() implies r[i] < r[j] by {
            assert(r[i] == inner[i]);
            if j < inner.len() {
                assert(r[j] == inner[j]);
            }
        }
        assert forall|y: usize| r.contains(y) <==> (q.contains(y) || y == x) by {
            if r.contains(y) {
                let k = choose|k: int| 0 <= k < r.len() && r[k] == y;
                if k < inner.len() {
                    assert(inner.contains(y));
                    if q2.contains(y) {
                        let w = choose|w: int| 0 <= w < q2.len() && q2[w] == y;
                        assert(q[w] == y);
                    }
                } else {
                    assert(q[q.len() - 1] == y);
                }
            }
            if q.contains(y) {
                let k = choose|k: int| 0 <= k < q.len() && q[k] == y;
                if k < q.len() - 1 {
                    assert(q2[k] == y);
                    assert(q2.contains(y));
                    assert(inner.contains(y));
                    let w = choose|w: int| 0 <= w < inner.len() && inner[w] == y;
                    assert(r[w] == y);
                } else {
                    assert(r[inner.len() as int] == y);
                }
            }
            if y == x {
                assert(inner.contains(y));
                let w = choose|w: int| 0 <= w < inner.len() && inner[w] == y;
                assert(r[w] == y);
            }
        }
    }
}

proof fn lemma_increasing_exists(s: Set<usize>) -> (q: Seq<usize>)
    requires
        s.finite(),
    ensures
        increasing(q),
        forall|x: usize| q.contains(x) <==> s.contains(x),
    decreases s.len(),
{
    if s.len() == 0 {
        assert forall|x: usize| !s.contains(x) by {
            if s.contains(x) {
                assert(s.remove(x).len() + 1 == s.len());
            }
        }
        Seq::<usize>::empty()
    } else {
        let x = s.choose();
        assert(s.contains(x));
        let r = s.remove(x);
        let q2 = lemma_increasing_exists(r);
        assert(!q2.contains(x));
        lemma_insert_sorted(q2, x);
        insert_sorted(q2, x)
    }
}

/// A finite set has its elements in increasing order.
pub proof fn lemma_in_order_finite(s: Set<usize>)
    requires
        s.finite(),
    ensures
        increasing(in_order(s)),
        forall|x: usize| in_order(s).contains(x) <==> s.contains(x),
{
    let q = lemma_increasing_exists(s);
    lemma_in_order(q, s);
}

} // verus!
