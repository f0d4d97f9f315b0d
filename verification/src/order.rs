use vstd::prelude::*;
use vstd::relations::*;
use vstd::seq_lib::*;

verus! {

broadcast use vstd::multiset::group_multiset_axioms;

/// The index stored for position `p` of a scan; zero beyond the end of the scan.
pub open spec fn index_at(indices: Seq<u32>, p: usize) -> int {
    if p < indices.len() {
        indices[p as int] as int
    } else {
        0
    }
}

/// Position `p` comes no later than position `q`: the smaller index goes first,
/// and of two equal indices the one met first in the scan.
pub open spec fn precedes(indices: Seq<u32>, p: usize, q: usize) -> bool {
    index_at(indices, p) < index_at(indices, q) || (index_at(indices, p) == index_at(indices, q)
        && p <= q)
}

/// [`precedes`] as a relation on positions.
pub open spec fn by_index(indices: Seq<u32>) -> spec_fn(usize, usize) -> bool {
    |p: usize, q: usize| precedes(indices, p, q)
}

/// The positions `lo, lo + 1, .., hi - 1` in scan order.
pub open spec fn positions(lo: int, hi: int) -> Seq<usize> {
    Seq::new((hi - lo) as nat, |i: int| (lo + i) as usize)
}

/// The positions of a scan, arranged by ascending index; equal indices keep
/// the order of the scan.
pub open spec fn stable_order(indices: Seq<u32>) -> Seq<usize> {
    positions(0, indices.len() as int).sort_by(by_index(indices))
}

/// `s` is arranged by [`precedes`].
pub open spec fn arranged(indices: Seq<u32>, s: Seq<usize>) -> bool {
    forall|i: int, j: int| 0 <= i < j < s.len() ==> precedes(indices, #[trigger] s[i], #[trigger] s[j])
}

/// Every element of `s` is a position of the scan.
pub open spec fn in_scan(indices: Seq<u32>, s: Seq<usize>) -> bool {
    forall|k: int| 0 <= k < s.len() ==> (#[trigger] s[k]) < indices.len()
}

/// [`precedes`] orders the positions totally.
pub proof fn lemma_by_index_is_total(indices: Seq<u32>)
    ensures
        total_ordering(by_index(indices)),
{
    let r = by_index(indices);
    assert(reflexive(r));
    assert(antisymmetric(r));
    assert(transitive(r));
    assert(strongly_connected(r));
}

/// The stable order lists every position of the scan exactly once, arranged by
/// ascending index with equal indices in scan order.
pub proof fn lemma_stable_order_arranges_scan(indices: Seq<u32>)
    requires
        indices.len() <= usize::MAX,
    ensures
        stable_order(indices).len() == indices.len(),
        in_scan(indices, stable_order(indices)),
        stable_order(indices).no_duplicates(),
        forall|p: usize| p < indices.len() ==> stable_order(indices).contains(p),
        arranged(indices, stable_order(indices)),
{
    let all = positions(0, indices.len() as int);
    let order = stable_order(indices);
    lemma_by_index_is_total(indices);
    all.lemma_sort_by_ensures(by_index(indices));
    to_multiset_len(all);
    to_multiset_len(order);
    assert forall|i: int, j: int| 0 <= i < all.len() && 0 <= j < all.len() && i != j implies all[i]
        != all[j] by {
        assert(all[i] == i && all[j] == j);
    }
    all.lemma_multiset_has_no_duplicates();
    order.lemma_multiset_has_no_duplicates_conv();
    assert forall|k: int| 0 <= k < order.len() implies (#[trigger] order[k]) < indices.len() by {
        to_multiset_contains(order, order[k]);
        to_multiset_contains(all, order[k]);
        assert(order.contains(order[k]));
        let i = choose|i: int| 0 <= i < all.len() && all[i] == order[k];
        assert(all[i] == i);
    }
    assert forall|p: usize| p < indices.len() implies order.contains(p) by {
        to_multiset_contains(order, p);
        to_multiset_contains(all, p);
        assert(all[p as int] == p);
        assert(all.contains(p));
    }
    assert forall|i: int, j: int| 0 <= i < j < order.len() implies precedes(
        indices,
        #[trigger] order[i],
        #[trigger] order[j],
    ) by {
        assert(by_index(indices)(order[i], order[j]));
    }
}

/// There is one way only to arrange the positions of a scan: whatever lists
/// each position as often as the scan has it, arranged by [`precedes`], is
/// the stable order.
pub proof fn lemma_stable_order_is_the_only_arrangement(indices: Seq<u32>, s: Seq<usize>)
    requires
        arranged(indices, s),
        s.to_multiset() == positions(0, indices.len() as int).to_multiset(),
    ensures
        s == stable_order(indices),
{
    let all = positions(0, indices.len() as int);
    let leq = by_index(indices);
    lemma_by_index_is_total(indices);
    all.lemma_sort_by_ensures(leq);
    assert(sorted_by(s, leq));
    lemma_sorted_unique(s, all.sort_by(leq), leq);
}

/// Every index of the scan is below the number of entries, and no index
/// occurs twice.
pub open spec fn dense_and_unique(indices: Seq<u32>) -> bool {
    &&& forall|p: int| 0 <= p < indices.len() ==> (#[trigger] indices[p]) < indices.len()
    &&& forall|p: int, q: int|
        0 <= p < q < indices.len() ==> (#[trigger] indices[p]) != (#[trigger] indices[q])
}

proof fn lemma_rising_from_below(keys: Seq<int>, i: int)
    requires
        0 <= i < keys.len(),
        keys[0] >= 0,
        forall|k: int| 0 <= k < keys.len() - 1 ==> (#[trigger] keys[k]) < keys[k + 1],
    ensures
        keys[i] >= i,
    decreases i,
{
    if i > 0 {
        lemma_rising_from_below(keys, i - 1);
        assert(keys[i - 1] < keys[i - 1 + 1]);
    }
}

proof fn lemma_rising_from_above(keys: Seq<int>, i: int)
    requires
        0 <= i < keys.len(),
        keys[keys.len() - 1] < keys.len(),
        forall|k: int| 0 <= k < keys.len() - 1 ==> (#[trigger] keys[k]) < keys[k + 1],
    ensures
        keys[i] <= i,
    decreases keys.len() - i,
{
    if i < keys.len() - 1 {
        lemma_rising_from_above(keys, i + 1);
        assert(keys[i] < keys[i + 1]);
    }
}

/// Where the indices of a scan are `0, 1, .., n - 1` in some order, the entry
/// placed `i`-th by the stable order is the one whose index is `i`.
pub proof fn lemma_dense_scan_is_ordered_by_index(indices: Seq<u32>)
    requires
        indices.len() <= usize::MAX,
        dense_and_unique(indices),
    ensures
        stable_order(indices).len() == indices.len(),
        forall|i: int|
            0 <= i < indices.len() ==> index_at(indices, #[trigger] stable_order(indices)[i]) == i,
{
    let order = stable_order(indices);
    lemma_stable_order_arranges_scan(indices);
    let keys = Seq::new(order.len(), |i: int| index_at(indices, order[i]));
    assert forall|k: int| 0 <= k < keys.len() - 1 implies (#[trigger] keys[k]) < keys[k + 1] by {
        let p = order[k];
        let q = order[k + 1];
        assert(precedes(indices, p, q));
        assert(p != q);
        assert(indices[p as int] != indices[q as int]);
    }
    assert forall|i: int| 0 <= i < indices.len() implies index_at(
        indices,
        #[trigger] order[i],
    ) == i by {
        assert(keys[0] >= 0);
        assert(keys[keys.len() - 1] == indices[order[keys.len() - 1] as int]);
        lemma_rising_from_below(keys, i);
        lemma_rising_from_above(keys, i);
        assert(keys[i] == i);
    }
}

fn takes_left(indices: &Vec<u32>, p: usize, q: usize) -> (first: bool)
    requires
        p < indices.len(),
        q < indices.len(),
    ensures
        first == precedes(indices@, p, q),
{
    indices[p] < indices[q] || (indices[p] == indices[q] && p <= q)
}

fn merge(indices: &Vec<u32>, left: &Vec<usize>, right: &Vec<usize>) -> (out: Vec<usize>)
    requires
        arranged(indices@, left@),
        arranged(indices@, right@),
        in_scan(indices@, left@),
        in_scan(indices@, right@),
    ensures
        arranged(indices@, out@),
        in_scan(indices@, out@),
        out@.to_multiset() == left@.to_multiset().add(right@.to_multiset()),
{
    let mut out: Vec<usize> = Vec::new();
    let mut i: usize = 0;
    let mut j: usize = 0;
    proof {
        let none = Seq::<usize>::empty();
        assert(out@ =~= none);
        assert(left@.subrange(0, 0) =~= none);
        assert(right@.subrange(0, 0) =~= none);
        to_multiset_len(none);
        assert(none.to_multiset() =~= vstd::multiset::Multiset::<usize>::empty());
    }
    while i < left.len() || j < right.len()
        invariant
            i <= left.len(),
            j <= right.len(),
            arranged(indices@, left@),
            arranged(indices@, right@),
            in_scan(indices@, left@),
            in_scan(indices@, right@),
            arranged(indices@, out@),
            in_scan(indices@, out@),
            forall|k: int|
                0 <= k < out.len() && i < left.len() ==> precedes(
                    indices@,
                    #[trigger] out@[k],
                    left@[i as int],
                ),
            forall|k: int|
                0 <= k < out.len() && j < right.len() ==> precedes(
                    indices@,
                    #[trigger] out@[k],
                    right@[j as int],
                ),
            out@.to_multiset() =~= left@.subrange(0, i as int).to_multiset().add(
                right@.subrange(0, j as int).to_multiset(),
            ),
        decreases left.len() - i + right.len() - j,
    {
        let from_left = if i == left.len() {
            false
        } else if j == right.len() {
            true
        } else {
            takes_left(indices, left[i], right[j])
        };
        if from_left {
            let p = left[i];
            proof {
                let taken = left@.subrange(0, i as int);
                let other = right@.subrange(0, j as int).to_multiset();
                assert(left@.subrange(0, i + 1) =~= taken.push(p));
                assert(taken.to_multiset().insert(p).add(other) =~= taken.to_multiset().add(
                    other,
                ).insert(p));
            }
            let ghost before = out@;
            out.push(p);
            i = i + 1;
            proof {
                to_multiset_build(before, p);
                to_multiset_build(left@.subrange(0, i - 1), p);
            }
        } else {
            let q = right[j];
            proof {
                let taken = right@.subrange(0, j as int);
                let other = left@.subrange(0, i as int).to_multiset();
                assert(right@.subrange(0, j + 1) =~= taken.push(q));
                assert(other.add(taken.to_multiset().insert(q)) =~= other.add(
                    taken.to_multiset(),
                ).insert(q));
            }
            let ghost before = out@;
            out.push(q);
            j = j + 1;
            proof {
                to_multiset_build(before, q);
                to_multiset_build(right@.subrange(0, j - 1), q);
            }
        }
    }
    assert(left@.subrange(0, i as int) =~= left@);
    assert(right@.subrange(0, j as int) =~= right@);
    out
}

fn sort_range(indices: &Vec<u32>, lo: usize, hi: usize) -> (out: Vec<usize>)
    requires
        lo <= hi <= indices.len(),
    ensures
        arranged(indices@, out@),
        in_scan(indices@, out@),
        out@.to_multiset() == positions(lo as int, hi as int).to_multiset(),
    decreases hi - lo,
{
    if hi - lo == 0 {
        let out: Vec<usize> = Vec::new();
        assert(out@ =~= positions(lo as int, hi as int));
        out
    } else if hi - lo == 1 {
        let mut out: Vec<usize> = Vec::new();
        out.push(lo);
        assert(out@ =~= positions(lo as int, hi as int));
        out
    } else {
        let mid = lo + (hi - lo) / 2;
        let left = sort_range(indices, lo, mid);
        let right = sort_range(indices, mid, hi);
        proof {
            assert(positions(lo as int, hi as int) =~= positions(lo as int, mid as int)
                + positions(mid as int, hi as int));
            lemma_multiset_commutative(
                positions(lo as int, mid as int),
                positions(mid as int, hi as int),
            );
        }
        merge(indices, &left, &right)
    }
}

/// Arranges the positions of a scan by ascending index, in `O(n log n)` steps;
/// positions with equal indices keep the order of the scan.
pub fn index_order(indices: &Vec<u32>) -> (order: Vec<usize>)
    ensures
        order@ == stable_order(indices@),
{
    let order = sort_range(indices, 0, indices.len());
    proof {
        lemma_stable_order_is_the_only_arrangement(indices@, order@);
    }
    order
}

} // verus!
