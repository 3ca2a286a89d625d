//! Putting things in the order of their keys.

use crate::text::not_after;
use vstd::multiset::Multiset;
use vstd::prelude::*;

verus! {

// ---------------------------------------------------------------------------
// The order of texts is total
// ---------------------------------------------------------------------------

/// Every text comes no later than itself.
pub proof fn law_not_after_reflexive(a: Seq<char>)
    ensures
        not_after(a, a),
    decreases a.len(),
{
    if a.len() > 0 {
        law_not_after_reflexive(a.drop_first());
    }
}

/// Of two texts, one comes no later than the other.
pub proof fn law_not_after_total(a: Seq<char>, b: Seq<char>)
    ensures
        not_after(a, b) || not_after(b, a),
    decreases a.len(),
{
    if a.len() > 0 && b.len() > 0 && a[0] == b[0] {
        law_not_after_total(a.drop_first(), b.drop_first());
    }
}

/// Two texts that come no later than each other are the same.
pub proof fn law_not_after_antisymmetric(a: Seq<char>, b: Seq<char>)
    requires
        not_after(a, b),
        not_after(b, a),
    ensures
        a == b,
    decreases a.len(),
{
    if a.len() > 0 && b.len() > 0 {
        law_not_after_antisymmetric(a.drop_first(), b.drop_first());
        assert(a =~= seq![a[0]] + a.drop_first());
        assert(b =~= seq![b[0]] + b.drop_first());
    } else {
        assert(a =~= b);
    }
}

/// The order carries over from text to text.
pub proof fn law_not_after_transitive(a: Seq<char>, b: Seq<char>, c: Seq<char>)
    requires
        not_after(a, b),
        not_after(b, c),
    ensures
        not_after(a, c),
    decreases a.len(),
{
    if a.len() > 0 && a[0] == b[0] && b[0] == c[0] {
        law_not_after_transitive(a.drop_first(), b.drop_first(), c.drop_first());
    }
}

/// Whether `a` comes no later than `b`.
pub fn comes_no_later(a: &Vec<char>, b: &Vec<char>) -> (r: bool)
    ensures
        r == not_after(a@, b@),
{
    let mut i: usize = 0;
    assert(a@.skip(0) =~= a@ && b@.skip(0) =~= b@);
    while i < a.len() && i < b.len()
        invariant
            i <= a@.len(),
            i <= b@.len(),
            not_after(a@, b@) == not_after(a@.skip(i as int), b@.skip(i as int)),
        decreases a@.len() - i,
    {
        if a[i] != b[i] {
            return a[i] < b[i];
        }
        assert(a@.skip(i as int).drop_first() =~= a@.skip(i + 1));
        assert(b@.skip(i as int).drop_first() =~= b@.skip(i + 1));
        i += 1;
    }
    i == a.len()
}

// ---------------------------------------------------------------------------
// Stable order
// ---------------------------------------------------------------------------

/// Position `i` goes before position `j`: its key comes first, or the keys are
/// the same and it stood first.
pub open spec fn goes_before(keys: Seq<Seq<char>>, i: int, j: int) -> bool {
    if keys[i] == keys[j] {
        i < j
    } else {
        not_after(keys[i], keys[j])
    }
}

/// The positions from `from` up to `to`.
pub open spec fn positions(from: int, to: int) -> Seq<int> {
    Seq::new((to - from) as nat, |k: int| from + k)
}

/// `p` lists every position of `keys` once, in the order of the keys; where two
/// keys are the same, the earlier position comes first.
pub open spec fn stable_order(keys: Seq<Seq<char>>, p: Seq<int>) -> bool {
    &&& p.to_multiset() == positions(0, keys.len() as int).to_multiset()
    &&& forall|i: int, j: int|
        #![trigger p[i], p[j]]
        0 <= i < j < p.len() ==> goes_before(keys, p[i], p[j])
}

proof fn lemma_goes_before_transitive(keys: Seq<Seq<char>>, i: int, j: int, k: int)
    requires
        goes_before(keys, i, j),
        goes_before(keys, j, k),
    ensures
        goes_before(keys, i, k),
{
    if keys[i] != keys[j] && keys[j] != keys[k] {
        law_not_after_transitive(keys[i], keys[j], keys[k]);
        if keys[i] == keys[k] {
            law_not_after_antisymmetric(keys[i], keys[j]);
        }
    }
}

/// The integers that a list of indices holds.
pub open spec fn indices(v: Seq<usize>) -> Seq<int> {
    v.map_values(|i: usize| i as int)
}

/// The keys that a list of character lists holds.
pub open spec fn key_texts(keys: Seq<Vec<char>>) -> Seq<Seq<char>> {
    keys.map_values(|k: Vec<char>| k@)
}

spec fn ordered(keys: Seq<Seq<char>>, p: Seq<int>) -> bool {
    forall|i: int, j: int|
        #![trigger p[i], p[j]]
        0 <= i < j < p.len() ==> goes_before(keys, p[i], p[j])
}

spec fn within(p: Seq<int>, from: int, to: int) -> bool {
    forall|i: int| 0 <= i < p.len() ==> from <= #[trigger] p[i] < to
}

proof fn lemma_push_multiset(s: Seq<int>, x: int)
    ensures
        s.push(x).to_multiset() == s.to_multiset().insert(x),
{
    broadcast use vstd::seq_lib::group_to_multiset_ensures;

}

proof fn lemma_skip_multiset(s: Seq<int>, i: int)
    requires
        0 <= i < s.len(),
    ensures
        s.skip(i).to_multiset() == s.skip(i + 1).to_multiset().insert(s[i]),
{
    broadcast use vstd::seq_lib::group_to_multiset_ensures;

    assert(s.skip(i) =~= seq![s[i]] + s.skip(i + 1));
    vstd::seq_lib::lemma_multiset_commutative(seq![s[i]], s.skip(i + 1));
    assert(seq![s[i]] =~= Seq::<int>::empty().push(s[i]));
    assert(Seq::<int>::empty().to_multiset() =~= Multiset::empty());
    assert(seq![s[i]].to_multiset() =~= Multiset::empty().insert(s[i]));
    assert(s.skip(i).to_multiset() =~= s.skip(i + 1).to_multiset().insert(s[i]));
}

/// Merges two ordered lists of positions, the first of which all stand before
/// the second.
fn merge(keys: &Vec<Vec<char>>, left: &Vec<usize>, right: &Vec<usize>, Ghost(mid): Ghost<int>) -> (r:
    Vec<usize>)
    requires
        ordered(key_texts(keys@), indices(left@)),
        ordered(key_texts(keys@), indices(right@)),
        within(indices(left@), 0, mid),
        within(indices(right@), mid, keys@.len() as int),
        0 <= mid <= keys@.len(),
    ensures
        ordered(key_texts(keys@), indices(r@)),
        indices(r@).to_multiset() == indices(left@).to_multiset().add(
            indices(right@).to_multiset(),
        ),
{
    let ghost ks = key_texts(keys@);
    let ghost l = indices(left@);
    let ghost q = indices(right@);
    let mut out: Vec<usize> = Vec::new();
    let mut i: usize = 0;
    let mut j: usize = 0;
    proof {
        broadcast use vstd::seq_lib::group_to_multiset_ensures;

        assert(l.skip(0) =~= l && q.skip(0) =~= q);
        assert(indices(out@) =~= Seq::empty());
        assert(Seq::<int>::empty().to_multiset() =~= Multiset::empty());
    }
    while i < left.len() || j < right.len()
        invariant
            i <= left@.len(),
            j <= right@.len(),
            ks == key_texts(keys@),
            l == indices(left@),
            q == indices(right@),
            0 <= mid <= keys@.len(),
            ordered(ks, l),
            ordered(ks, q),
            within(l, 0, mid),
            within(q, mid, keys@.len() as int),
            ordered(ks, indices(out@)),
            forall|a: int, b: int|
                #![trigger indices(out@)[a], l[b]]
                0 <= a < out@.len() && i <= b < l.len() ==> goes_before(ks, indices(out@)[a], l[b]),
            forall|a: int, b: int|
                #![trigger indices(out@)[a], q[b]]
                0 <= a < out@.len() && j <= b < q.len() ==> goes_before(ks, indices(out@)[a], q[b]),
            indices(out@).to_multiset().add(l.skip(i as int).to_multiset()).add(
                q.skip(j as int).to_multiset(),
            ) =~= l.to_multiset().add(q.to_multiset()),
        decreases left@.len() - i + right@.len() - j,
    {
        let take_left: bool = if i == left.len() {
            false
        } else if j == right.len() {
            true
        } else {
            assert(l[i as int] < mid && q[j as int] >= mid);
            assert(q[j as int] < keys@.len());
            comes_no_later(&keys[left[i]], &keys[right[j]])
        };
        let ghost before = indices(out@);
        if take_left {
            let x: usize = left[i];
            proof {
                lemma_push_multiset(before, x as int);
                lemma_skip_multiset(l, i as int);
                assert(l[i as int] == x as int);
                assert forall|b: int| j <= b < q.len() implies goes_before(ks, x as int, #[trigger] q[b]) by {
                    assert(goes_before(ks, x as int, q[j as int]));
                    if b > j {
                        lemma_goes_before_transitive(ks, x as int, q[j as int], q[b]);
                    }
                }
            }
            out.push(x);
            i += 1;
            assert(indices(out@) =~= before.push(x as int));
        } else {
            let x: usize = right[j];
            proof {
                lemma_push_multiset(before, x as int);
                lemma_skip_multiset(q, j as int);
                assert(q[j as int] == x as int);
                assert forall|b: int| i <= b < l.len() implies goes_before(ks, x as int, #[trigger] l[b]) by {
                    law_not_after_total(ks[l[i as int]], ks[x as int]);
                    law_not_after_reflexive(ks[x as int]);
                    assert(goes_before(ks, x as int, l[i as int]));
                    if b > i {
                        lemma_goes_before_transitive(ks, x as int, l[i as int], l[b]);
                    }
                }
            }
            out.push(x);
            j += 1;
            assert(indices(out@) =~= before.push(x as int));
        }
    }
    proof {
        broadcast use vstd::seq_lib::group_to_multiset_ensures;

        assert(l.skip(l.len() as int) =~= Seq::empty());
        assert(q.skip(q.len() as int) =~= Seq::empty());
        assert(Seq::<int>::empty().to_multiset() =~= Multiset::empty());
        assert(indices(out@).to_multiset() =~= l.to_multiset().add(q.to_multiset()));
    }
    out
}

proof fn lemma_same_members(p: Seq<int>, from: int, to: int)
    requires
        p.to_multiset() == positions(from, to).to_multiset(),
        from <= to,
    ensures
        within(p, from, to),
        p.len() == to - from,
{
    broadcast use vstd::seq_lib::group_to_multiset_ensures;

    let all = positions(from, to);
    assert forall|i: int| 0 <= i < p.len() implies from <= #[trigger] p[i] < to by {
        assert(p.contains(p[i]));
        assert(p.to_multiset().count(p[i]) > 0);
        assert(all.to_multiset().count(p[i]) > 0);
        assert(all.contains(p[i]));
    }
    assert(p.to_multiset().len() == p.len());
    assert(all.to_multiset().len() == all.len());
}

fn sort_range(keys: &Vec<Vec<char>>, from: usize, to: usize) -> (r: Vec<usize>)
    requires
        from <= to <= keys@.len(),
    ensures
        ordered(key_texts(keys@), indices(r@)),
        indices(r@).to_multiset() == positions(from as int, to as int).to_multiset(),
    decreases to - from,
{
    if to - from <= 1 {
        let mut out: Vec<usize> = Vec::new();
        if from < to {
            out.push(from);
        }
        assert(indices(out@) =~= positions(from as int, to as int));
        return out;
    }
    let mid: usize = from + (to - from) / 2;
    let left = sort_range(keys, from, mid);
    let right = sort_range(keys, mid, to);
    proof {
        lemma_same_members(indices(left@), from as int, mid as int);
        lemma_same_members(indices(right@), mid as int, to as int);
        assert(positions(from as int, to as int) =~= positions(from as int, mid as int) + positions(
            mid as int,
            to as int,
        ));
        vstd::seq_lib::lemma_multiset_commutative(
            positions(from as int, mid as int),
            positions(mid as int, to as int),
        );
    }
    merge(keys, &left, &right, Ghost(mid as int))
}

/// The positions of `keys` in the order of the keys.
pub fn order_of(keys: &Vec<Vec<char>>) -> (r: Vec<usize>)
    ensures
        stable_order(key_texts(keys@), indices(r@)),
        r@.len() == keys@.len(),
        forall|i: int| 0 <= i < r@.len() ==> 0 <= #[trigger] r@[i] < keys@.len(),
{
    let r = sort_range(keys, 0, keys.len());
    proof {
        lemma_same_members(indices(r@), 0, keys@.len() as int);
        assert forall|i: int| 0 <= i < r@.len() implies 0 <= #[trigger] r@[i] < keys@.len() by {
            assert(indices(r@)[i] == r@[i] as int);
        }
    }
    r
}

/// There is only one stable order.
pub proof fn law_stable_order_unique(keys: Seq<Seq<char>>, p: Seq<int>, q: Seq<int>)
    requires
        stable_order(keys, p),
        stable_order(keys, q),
    ensures
        p == q,
{
    lemma_unique(keys, p, q);
}

proof fn lemma_unique(keys: Seq<Seq<char>>, p: Seq<int>, q: Seq<int>)
    requires
        ordered(keys, p),
        ordered(keys, q),
        p.to_multiset() == q.to_multiset(),
    ensures
        p == q,
    decreases p.len(),
{
    broadcast use vstd::seq_lib::group_to_multiset_ensures;

    assert(p.to_multiset().len() == p.len());
    assert(q.to_multiset().len() == q.len());
    if p.len() > 0 {
        assert(p.contains(p[0]) && q.contains(q[0]));
        assert(q.to_multiset().count(p[0]) > 0);
        assert(p.to_multiset().count(q[0]) > 0);
        assert(q.contains(p[0]) && p.contains(q[0]));
        let i = choose|i: int| 0 <= i < q.len() && q[i] == p[0];
        let j = choose|j: int| 0 <= j < p.len() && p[j] == q[0];
        if i > 0 && j > 0 {
            assert(goes_before(keys, q[0], q[i]));
            assert(goes_before(keys, p[0], p[j]));
            if keys[p[0]] != keys[q[0]] {
                law_not_after_antisymmetric(keys[p[0]], keys[q[0]]);
            }
        }
        assert(p[0] == q[0]);
        let p1 = p.skip(1);
        let q1 = q.skip(1);
        lemma_skip_multiset(p, 0);
        lemma_skip_multiset(q, 0);
        assert(p.skip(0) =~= p && q.skip(0) =~= q);
        assert(p1.to_multiset() =~= p.to_multiset().remove(p[0]));
        assert(q1.to_multiset() =~= q.to_multiset().remove(q[0]));
        lemma_unique(keys, p1, q1);
        assert(p =~= seq![p[0]] + p1);
        assert(q =~= seq![q[0]] + q1);
    } else {
        assert(p =~= q);
    }
}

/// The first difference decides, by the code points, and a text comes before what
/// it starts.
pub proof fn law_first_difference_decides(
    start: Seq<char>,
    x: char,
    rest: Seq<char>,
    y: char,
    other: Seq<char>,
)
    ensures
        x < y ==> not_after(start + (seq![x] + rest), start + (seq![y] + other)),
        x < y ==> !not_after(start + (seq![y] + other), start + (seq![x] + rest)),
        not_after(start, start + rest),
        rest.len() > 0 ==> !not_after(start + rest, start),
    decreases start.len(),
{
    if start.len() == 0 {
        assert(start + (seq![x] + rest) =~= seq![x] + rest);
        assert(start + (seq![y] + other) =~= seq![y] + other);
        assert(start + rest =~= rest);
    } else {
        let s = start.drop_first();
        law_first_difference_decides(s, x, rest, y, other);
        let a = start + (seq![x] + rest);
        let b = start + (seq![y] + other);
        let c = start + rest;
        assert(a.drop_first() =~= s + (seq![x] + rest));
        assert(b.drop_first() =~= s + (seq![y] + other));
        assert(c.drop_first() =~= s + rest);
        assert(a[0] == start[0] && b[0] == start[0] && c[0] == start[0]);
    }
}

/// In a stable order no key comes before a smaller one, and of equal keys the one
/// that stood first comes first.
pub proof fn law_stable_order_goes_by_keys(keys: Seq<Seq<char>>, p: Seq<int>, i: int, j: int)
    requires
        stable_order(keys, p),
        0 <= i < j < p.len(),
    ensures
        not_after(keys[p[i]], keys[p[j]]),
        keys[p[i]] == keys[p[j]] ==> p[i] < p[j],
{
    assert(goes_before(keys, p[i], p[j]));
    law_not_after_reflexive(keys[p[i]]);
}

} // verus!
