use vstd::prelude::*;

use crate::codec::bytes_to_u32;
use crate::error::LedgerError;
use crate::order::index_order;

verus! {

/// The bytes of each entry of a scanned column: the key, then the value.
pub open spec fn scan_view(entries: Seq<(Vec<u8>, Vec<u8>)>) -> Seq<(Seq<u8>, Seq<u8>)> {
    Seq::new(entries.len(), |i: int| (entries[i].0@, entries[i].1@))
}

/// The bytes of each leaf of a leaf sequence.
pub open spec fn leaves_view(leaves: Seq<Vec<u8>>) -> Seq<Seq<u8>> {
    Seq::new(leaves.len(), |i: int| leaves[i]@)
}

/// Every value of the scan has the width of an encoded index.
pub open spec fn well_encoded(scan: Seq<(Seq<u8>, Seq<u8>)>) -> bool {
    forall|i: int| 0 <= i < scan.len() ==> (#[trigger] scan[i]).1.len() == 4
}

/// The index that each entry of the scan stores, in scan order.
pub open spec fn scan_indices(scan: Seq<(Seq<u8>, Seq<u8>)>) -> Seq<u32> {
    Seq::new(scan.len(), |i: int| crate::codec::le_u32(scan[i].1) as u32)
}

/// The commitments of a scan of the commitment column, by ascending index.
/// Commitments stored under the same index keep the order of the scan.
pub open spec fn ordered_commitments(scan: Seq<(Seq<u8>, Seq<u8>)>) -> Seq<Seq<u8>> {
    let order = crate::order::stable_order(scan_indices(scan));
    Seq::new(scan.len(), |i: int| scan[order[i] as int].0)
}

/// Decodes the index of every entry of a scan of the commitment column.
/// Fails if some stored index is not four bytes wide.
pub fn commitment_indices(entries: &Vec<(Vec<u8>, Vec<u8>)>) -> (decoded: Result<
    Vec<u32>,
    LedgerError,
>)
    ensures
        decoded is Ok <==> well_encoded(scan_view(entries@)),
        decoded matches Ok(indices) ==> indices@ == scan_indices(scan_view(entries@)),
        decoded matches Err(e) ==> e == LedgerError::MalformedInteger,
{
    let ghost scan = scan_view(entries@);
    let mut indices: Vec<u32> = Vec::with_capacity(entries.len());
    let mut i: usize = 0;
    while i < entries.len()
        invariant
            i <= entries.len(),
            scan == scan_view(entries@),
            indices.len() == i,
            forall|k: int| 0 <= k < i ==> (#[trigger] scan[k]).1.len() == 4,
            forall|k: int| 0 <= k < i ==> #[trigger] indices@[k] == scan_indices(scan)[k],
        decreases entries.len() - i,
    {
        match bytes_to_u32(entries[i].1.as_slice()) {
            Some(index) => {
                assert(scan[i as int].1 == entries@[i as int].1@);
                indices.push(index);
            },
            None => {
                assert(scan[i as int].1.len() != 4);
                return Err(LedgerError::MalformedInteger);
            },
        }
        i = i + 1;
    }
    assert(indices@ =~= scan_indices(scan));
    Ok(indices)
}

/// Arranges the commitments of a scan of the commitment column into the leaf
/// sequence of the accumulator: ascending by stored index, whatever order the
/// column was scanned in. Fails if some stored index is not four bytes wide.
pub fn order_commitments(entries: &Vec<(Vec<u8>, Vec<u8>)>) -> (leaves: Result<
    Vec<Vec<u8>>,
    LedgerError,
>)
    ensures
        leaves is Ok <==> well_encoded(scan_view(entries@)),
        leaves matches Ok(l) ==> leaves_view(l@) == ordered_commitments(scan_view(entries@)),
        leaves matches Err(e) ==> e == LedgerError::MalformedInteger,
{
    let indices = match commitment_indices(entries) {
        Ok(indices) => indices,
        Err(e) => {
            return Err(e);
        },
    };
    let order = index_order(&indices);
    let ghost scan = scan_view(entries@);
    proof {
        assert(indices@.len() == indices.len());
        crate::order::lemma_stable_order_arranges_scan(indices@);
    }
    let mut leaves: Vec<Vec<u8>> = Vec::with_capacity(order.len());
    let mut i: usize = 0;
    while i < order.len()
        invariant
            i <= order.len(),
            order.len() == entries.len(),
            scan == scan_view(entries@),
            crate::order::in_scan(indices@, order@),
            indices.len() == entries.len(),
            leaves.len() == i,
            forall|k: int| 0 <= k < i ==> (#[trigger] leaves@[k])@ == scan[order@[k] as int].0,
        decreases order.len() - i,
    {
        let position = order[i];
        let commitment = entries[position].0.clone();
        assert(commitment@ =~= entries@[position as int].0@);
        leaves.push(commitment);
        i = i + 1;
    }
    assert(leaves_view(leaves@) =~= ordered_commitments(scan));
    Ok(leaves)
}

/// Where a scan holds `n` commitments whose indices are `0, 1, .., n - 1` in
/// some order, leaf `i` of the ordered sequence is the commitment that the scan
/// stores with index `i`.
pub proof fn lemma_dense_scan_is_ordered_by_index(scan: Seq<(Seq<u8>, Seq<u8>)>)
    requires
        scan.len() <= usize::MAX,
        well_encoded(scan),
        crate::order::dense_and_unique(scan_indices(scan)),
    ensures
        ordered_commitments(scan).len() == scan.len(),
        forall|p: int|
            0 <= p < scan.len() ==> ordered_commitments(scan)[crate::codec::le_u32(
                (#[trigger] scan[p]).1,
            )] == scan[p].0,
{
    let indices = scan_indices(scan);
    let order = crate::order::stable_order(indices);
    crate::order::lemma_dense_scan_is_ordered_by_index(indices);
    crate::order::lemma_stable_order_arranges_scan(indices);
    assert forall|p: int| 0 <= p < scan.len() implies ordered_commitments(
        scan,
    )[crate::codec::le_u32((#[trigger] scan[p]).1)] == scan[p].0 by {
        crate::codec::lemma_encode_decoded(scan[p].1);
        let i = indices[p] as int;
        assert(i == crate::codec::le_u32(scan[p].1));
        let q = order[i];
        assert(crate::order::index_at(indices, q) == i);
        assert(q as int == p);
    }
}

/// The ordered sequence holds the commitments of the scan, each as often as
/// the scan does, and their indices never fall from one leaf to the next.
pub proof fn lemma_ordered_commitments_rearrange_scan(scan: Seq<(Seq<u8>, Seq<u8>)>)
    requires
        scan.len() <= usize::MAX,
    ensures
        ordered_commitments(scan).len() == scan.len(),
        crate::order::stable_order(scan_indices(scan)).no_duplicates(),
        forall|p: usize|
            p < scan.len() ==> crate::order::stable_order(scan_indices(scan)).contains(p),
        forall|i: int, j: int|
            0 <= i < j < scan.len() ==> scan_indices(scan)[crate::order::stable_order(
                scan_indices(scan),
            )[i] as int] <= scan_indices(scan)[crate::order::stable_order(scan_indices(scan))[j] as int],
{
    let indices = scan_indices(scan);
    let order = crate::order::stable_order(indices);
    crate::order::lemma_stable_order_arranges_scan(indices);
    assert forall|i: int, j: int| 0 <= i < j < scan.len() implies indices[order[i] as int]
        <= indices[order[j] as int] by {
        assert(crate::order::precedes(indices, order[i], order[j]));
    }
}

} // verus!
