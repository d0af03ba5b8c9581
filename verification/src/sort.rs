//! Stable sorting by a total preorder that the element type states.

use vstd::prelude::*;

verus! {

broadcast use vstd::seq_lib::group_to_multiset_ensures;

/// A total preorder on `Self`, with an executable test.
pub trait SortKey: Sized {
    spec fn spec_le(self, other: Self) -> bool;

    fn key_le(&self, other: &Self) -> (r: bool)
        ensures
            r == self.spec_le(*other),
    ;

    proof fn lemma_total(a: Self, b: Self)
        ensures
            a.spec_le(b) || b.spec_le(a),
    ;

    proof fn lemma_trans(a: Self, b: Self, c: Self)
        requires
            a.spec_le(b),
            b.spec_le(c),
        ensures
            a.spec_le(c),
    ;
}

pub open spec fn sorted_by_key<T: SortKey>(s: Seq<T>) -> bool {
    forall|i: int, j: int| 0 <= i < j < s.len() ==> (#[trigger] s[i]).spec_le(#[trigger] s[j])
}

/// Some position of `perm` takes index `k`.
pub open spec fn placed(perm: Seq<int>, k: int) -> bool {
    exists|i: int| 0 <= i < perm.len() && #[trigger] perm[i] == k
}

/// `r` is `v` rearranged by the permutation `perm` (`r[i]` is `v[perm[i]]`),
/// and elements that the order ranks equal keep their order from `v`.
pub open spec fn stable_rearrangement<T: SortKey>(r: Seq<T>, v: Seq<T>, perm: Seq<int>) -> bool {
    &&& perm.len() == v.len()
    &&& r.len() == v.len()
    &&& forall|i: int| 0 <= i < perm.len() ==> 0 <= #[trigger] perm[i] < v.len()
    &&& forall|i: int, j: int| 0 <= i < j < perm.len() ==> #[trigger] perm[i] != #[trigger] perm[j]
    &&& forall|k: int| 0 <= k < v.len() ==> #[trigger] placed(perm, k)
    &&& forall|i: int| 0 <= i < r.len() ==> #[trigger] r[i] == v[perm[i]]
    &&& forall|i: int, j: int|
        0 <= i < j < r.len() && (#[trigger] r[i]).spec_le(#[trigger] r[j]) && r[j].spec_le(r[i])
            ==> perm[i] < perm[j]
}

/// `r` is `v` rearranged with the elements that rank equal in their order
/// from `v`.
pub open spec fn in_stable_order<T: SortKey>(r: Seq<T>, v: Seq<T>) -> bool {
    exists|perm: Seq<int>| stable_rearrangement(r, v, perm)
}

/// The elements of `v`, rearranged into order; elements that rank equal keep
/// their order (an insertion sort that takes the elements from the back and
/// places each before the first one it does not exceed).
pub fn sort_by_key<T: SortKey>(v: Vec<T>) -> (r: Vec<T>)
    ensures
        sorted_by_key(r@),
        r@.to_multiset() == v@.to_multiset(),
        in_stable_order(r@, v@),
{
    let ghost whole = v@.to_multiset();
    let ghost v0 = v@;
    let ghost mut perm: Seq<int> = Seq::empty();
    let mut input = v;
    let mut out: Vec<T> = Vec::new();
    assert(out@.to_multiset() =~= vstd::multiset::Multiset::empty());
    assert(input@ =~= v0.take(v0.len() as int));
    while input.len() > 0
        invariant
            sorted_by_key(out@),
            input@.to_multiset().add(out@.to_multiset()) == whole,
            input@ == v0.take(input@.len() as int),
            input@.len() <= v0.len(),
            out@.len() == perm.len(),
            perm.len() == v0.len() - input@.len(),
            forall|k: int| 0 <= k < perm.len() ==> input@.len() <= #[trigger] perm[k] < v0.len(),
            forall|k: int| 0 <= k < perm.len() ==> #[trigger] out@[k] == v0[perm[k]],
            forall|a: int, b: int| 0 <= a < b < perm.len() ==> #[trigger] perm[a] != #[trigger] perm[b],
            forall|k: int| input@.len() <= k < v0.len() ==> #[trigger] placed(perm, k),
            forall|a: int, b: int|
                0 <= a < b < out@.len() && (#[trigger] out@[a]).spec_le(#[trigger] out@[b])
                    && out@[b].spec_le(out@[a]) ==> perm[a] < perm[b],
        decreases input.len(),
    {
        let ghost before = input@;
        let x = match input.pop() {
            Some(x) => x,
            None => {
                assert(false);
                return out;
            },
        };
        assert(before == input@.push(x));
        let ghost idx = input@.len() as int;
        assert(input@ =~= v0.take(idx));
        assert(x == v0[idx]) by {
            assert(before[idx] == v0.take(idx + 1)[idx]);
        }
        let mut p: usize = 0;
        while p < out.len() && !x.key_le(&out[p])
            invariant
                p <= out.len(),
                forall|q: int| 0 <= q < p ==> !x.spec_le(#[trigger] out@[q]),
            decreases out.len() - p,
        {
            p = p + 1;
        }
        let ghost old_out = out@;
        let ghost old_perm = perm;
        out.insert(p, x);
        proof {
            perm = old_perm.insert(p as int, idx);
            assert forall|i: int, j: int| 0 <= i < j < out@.len() implies (
            #[trigger] out@[i]).spec_le(#[trigger] out@[j]) by {
                if j < p {
                    assert(out@[i] == old_out[i] && out@[j] == old_out[j]);
                } else if j == p {
                    assert(out@[i] == old_out[i]);
                    T::lemma_total(x, old_out[i]);
                } else if i > p {
                    assert(out@[i] == old_out[i - 1] && out@[j] == old_out[j - 1]);
                } else if i == p {
                    assert(out@[j] == old_out[j - 1]);
                    assert(x.spec_le(old_out[p as int]));
                    if j - 1 > p {
                        T::lemma_trans(x, old_out[p as int], old_out[j - 1]);
                    }
                } else {
                    assert(out@[i] == old_out[i] && out@[j] == old_out[j - 1]);
                }
            }
            assert forall|k: int| 0 <= k < perm.len() implies input@.len() <= #[trigger] perm[k] < v0.len()
                && out@[k] == v0[perm[k]] by {
                if k < p {
                    assert(perm[k] == old_perm[k] && out@[k] == old_out[k]);
                } else if k > p {
                    assert(perm[k] == old_perm[k - 1] && out@[k] == old_out[k - 1]);
                }
            }
            assert forall|a: int, b: int| 0 <= a < b < perm.len() implies #[trigger] perm[a]
                != #[trigger] perm[b] by {
                if a < p && b < p {
                    assert(perm[a] == old_perm[a] && perm[b] == old_perm[b]);
                } else if a < p && b > p {
                    assert(perm[a] == old_perm[a] && perm[b] == old_perm[b - 1]);
                } else if a > p {
                    assert(perm[a] == old_perm[a - 1] && perm[b] == old_perm[b - 1]);
                } else if a == p {
                    assert(perm[b] == old_perm[b - 1]);
                } else {
                    assert(perm[a] == old_perm[a]);
                }
            }
            assert forall|k: int| input@.len() <= k < v0.len() implies #[trigger] placed(perm, k) by {
                if k == idx {
                    assert(perm[p as int] == k);
                } else {
                    assert(placed(old_perm, k));
                    let i = choose|i: int| 0 <= i < old_perm.len() && #[trigger] old_perm[i] == k;
                    if i < p {
                        assert(perm[i] == k);
                    } else {
                        assert(perm[i + 1] == k);
                    }
                }
            }
            assert forall|a: int, b: int|
                0 <= a < b < out@.len() && (#[trigger] out@[a]).spec_le(#[trigger] out@[b])
                    && out@[b].spec_le(out@[a]) implies perm[a] < perm[b] by {
                if a < p && b < p {
                    assert(out@[a] == old_out[a] && out@[b] == old_out[b]);
                    assert(perm[a] == old_perm[a] && perm[b] == old_perm[b]);
                } else if a > p {
                    assert(out@[a] == old_out[a - 1] && out@[b] == old_out[b - 1]);
                    assert(perm[a] == old_perm[a - 1] && perm[b] == old_perm[b - 1]);
                } else if a == p {
                    assert(perm[b] == old_perm[b - 1]);
                } else if b == p {
                    assert(out@[a] == old_out[a]);
                } else {
                    assert(out@[a] == old_out[a] && out@[b] == old_out[b - 1]);
                    assert(perm[a] == old_perm[a] && perm[b] == old_perm[b - 1]);
                }
            }
            assert(input@.to_multiset().add(out@.to_multiset()) =~= whole);
        }
    }
    assert(input@.to_multiset() =~= vstd::multiset::Multiset::empty());
    assert(out@.to_multiset() =~= whole);
    assert(stable_rearrangement(out@, v0, perm));
    out
}


/// Whether original index `x` goes before index `y` in a stable sort of `v`:
/// its element ranks lower, or ranks equal and comes first.
pub open spec fn goes_before<T: SortKey>(v: Seq<T>, x: int, y: int) -> bool {
    v[x].spec_le(v[y]) && (!v[y].spec_le(v[x]) || x < y)
}

proof fn lemma_positions_ordered<T: SortKey>(r: Seq<T>, v: Seq<T>, perm: Seq<int>, i: int, j: int)
    requires
        sorted_by_key(r),
        stable_rearrangement(r, v, perm),
        0 <= i < j < r.len(),
    ensures
        goes_before(v, perm[i], perm[j]),
{
    assert(r[i].spec_le(r[j]));
}

proof fn lemma_same_prefix<T: SortKey>(
    v1: Seq<T>,
    v2: Seq<T>,
    r1: Seq<T>,
    r2: Seq<T>,
    p1: Seq<int>,
    p2: Seq<int>,
    n: int,
)
    requires
        v1.len() == v2.len(),
        forall|a: int, b: int|
            0 <= a < v1.len() && 0 <= b < v1.len() ==> (#[trigger] v1[a].spec_le(v1[b]) <==> #[trigger] v2[a].spec_le(v2[b])),
        sorted_by_key(r1),
        sorted_by_key(r2),
        stable_rearrangement(r1, v1, p1),
        stable_rearrangement(r2, v2, p2),
        0 <= n <= v1.len(),
    ensures
        forall|j: int| 0 <= j < n ==> #[trigger] p1[j] == p2[j],
    decreases n,
{
    if n > 0 {
        lemma_same_prefix(v1, v2, r1, r2, p1, p2, n - 1);
        let m = n - 1;
        let a = p1[m];
        let b = p2[m];
        if a != b {
            assert(placed(p1, b));
            assert(placed(p2, a));
            let j = choose|j: int| 0 <= j < p1.len() && #[trigger] p1[j] == b;
            let k = choose|k: int| 0 <= k < p2.len() && #[trigger] p2[k] == a;
            if j < m {
                assert(p2[j] == p1[j]);
                assert(p2[j] != p2[m]);
            }
            if k < m {
                assert(p1[k] == p2[k]);
                assert(p1[k] != p1[m]);
            }
            lemma_positions_ordered(r1, v1, p1, m, j);
            lemma_positions_ordered(r2, v2, p2, m, k);
            assert(v1[a].spec_le(v1[b]) <==> v2[a].spec_le(v2[b]));
            assert(v1[b].spec_le(v1[a]) <==> v2[b].spec_le(v2[a]));
            assert(false);
        }
    }
}

/// A stable sort has one result: two stably sorted rearrangements of
/// sequences whose elements rank alike take their elements from the same
/// positions.
pub proof fn lemma_stable_sort_unique<T: SortKey>(
    v1: Seq<T>,
    v2: Seq<T>,
    r1: Seq<T>,
    r2: Seq<T>,
)
    requires
        v1.len() == v2.len(),
        forall|a: int, b: int|
            0 <= a < v1.len() && 0 <= b < v1.len() ==> (#[trigger] v1[a].spec_le(v1[b]) <==> #[trigger] v2[a].spec_le(v2[b])),
        sorted_by_key(r1),
        sorted_by_key(r2),
        in_stable_order(r1, v1),
        in_stable_order(r2, v2),
    ensures
        r1.len() == r2.len(),
        exists|perm: Seq<int>|
            stable_rearrangement(r1, v1, perm) && stable_rearrangement(r2, v2, perm),
{
    let p1 = choose|perm: Seq<int>| stable_rearrangement(r1, v1, perm);
    let p2 = choose|perm: Seq<int>| stable_rearrangement(r2, v2, perm);
    lemma_same_prefix(v1, v2, r1, r2, p1, p2, v1.len() as int);
    assert(p1 =~= p2);
}

} // verus!
