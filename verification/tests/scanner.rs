use snarkos_storage::codec::{bytes_to_u32, u32_to_bytes};
use snarkos_storage::error::LedgerError;
use snarkos_storage::order::index_order;
use snarkos_storage::scanner::{commitment_indices, order_commitments};

fn entry(commitment: &[u8], index: u32) -> (Vec<u8>, Vec<u8>) {
    (commitment.to_vec(), u32_to_bytes(index))
}

#[test]
fn rebuild_orders_three_commitments_by_index() {
    let scan = vec![entry(b"A", 2), entry(b"B", 0), entry(b"C", 1)];
    let leaves = order_commitments(&scan).unwrap();
    assert_eq!(leaves, vec![b"B".to_vec(), b"C".to_vec(), b"A".to_vec()]);
}

#[test]
fn dense_scan_places_each_commitment_at_its_index() {
    let n: u32 = 257;
    let mut scan = Vec::new();
    for k in 0..n {
        let index = (k * 101 + 7) % n;
        scan.push(entry(&index.to_be_bytes(), index));
    }
    let leaves = order_commitments(&scan).unwrap();
    assert_eq!(leaves.len(), n as usize);
    for (i, leaf) in leaves.iter().enumerate() {
        assert_eq!(leaf, &(i as u32).to_be_bytes().to_vec());
    }
}

#[test]
fn empty_scan_gives_no_leaves() {
    let scan: Vec<(Vec<u8>, Vec<u8>)> = Vec::new();
    assert_eq!(order_commitments(&scan), Ok(Vec::new()));
    assert_eq!(index_order(&Vec::new()), Vec::<usize>::new());
}

#[test]
fn equal_indices_keep_scan_order() {
    let scan = vec![entry(b"x", 1), entry(b"y", 0), entry(b"z", 1), entry(b"w", 0)];
    let leaves = order_commitments(&scan).unwrap();
    assert_eq!(leaves, vec![b"y".to_vec(), b"w".to_vec(), b"x".to_vec(), b"z".to_vec()]);
    assert_eq!(index_order(&vec![1, 0, 1, 0]), vec![1, 3, 0, 2]);
}

#[test]
fn index_order_is_ascending() {
    assert_eq!(index_order(&vec![2, 0, 1]), vec![1, 2, 0]);
    assert_eq!(index_order(&vec![5]), vec![0]);
    assert_eq!(index_order(&vec![9, 8, 7, 6, 5, 4, 3, 2, 1, 0]), vec![9, 8, 7, 6, 5, 4, 3, 2, 1, 0]);
}

#[test]
fn malformed_index_is_rejected() {
    let scan = vec![entry(b"A", 0), (b"B".to_vec(), vec![1, 0, 0])];
    assert_eq!(order_commitments(&scan), Err(LedgerError::MalformedInteger));
    assert_eq!(commitment_indices(&scan), Err(LedgerError::MalformedInteger));
    let wide = vec![(b"B".to_vec(), vec![1, 0, 0, 0, 0])];
    assert_eq!(order_commitments(&wide), Err(LedgerError::MalformedInteger));
}

#[test]
fn indices_are_little_endian() {
    let scan = vec![(b"A".to_vec(), vec![0x01, 0x02, 0x03, 0x04]), entry(b"B", 1)];
    assert_eq!(commitment_indices(&scan), Ok(vec![0x0403_0201, 1]));
    assert_eq!(bytes_to_u32(&[0x78, 0x56, 0x34, 0x12]), Some(0x1234_5678));
    assert_eq!(bytes_to_u32(&[0xff, 0xff, 0xff, 0xff]), Some(u32::MAX));
    assert_eq!(bytes_to_u32(&[]), None);
    assert_eq!(bytes_to_u32(&[1, 2, 3]), None);
    assert_eq!(u32_to_bytes(0x1234_5678), vec![0x78, 0x56, 0x34, 0x12]);
    assert_eq!(u32_to_bytes(0), vec![0, 0, 0, 0]);
}

#[test]
fn u32_round_trips_through_bytes() {
    for value in [0u32, 1, 255, 256, 65535, 65536, 16777215, 16777216, u32::MAX] {
        assert_eq!(bytes_to_u32(&u32_to_bytes(value)), Some(value));
    }
}

#[test]
fn large_scan_is_ordered_quickly() {
    let n: u32 = 200_000;
    let mut scan = Vec::with_capacity(n as usize);
    for k in 0..n {
        let index = ((k as u64 * 7919 + 13) % n as u64) as u32;
        scan.push((index.to_le_bytes().to_vec(), u32_to_bytes(index)));
    }
    let leaves = order_commitments(&scan).unwrap();
    assert_eq!(leaves.len(), n as usize);
    for (i, leaf) in leaves.iter().enumerate() {
        assert_eq!(bytes_to_u32(leaf), Some(i as u32));
    }
}
