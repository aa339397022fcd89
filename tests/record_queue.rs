use fog_view_fetcher::keys::IngressKey;
use fog_view_fetcher::queue::{ETxOutRecord, FetchedRecords, RecordQueue, MAX_QUEUED_RECORDS};

fn batch(index: u64, n: usize) -> FetchedRecords {
    FetchedRecords {
        ingress_key: IngressKey::from_bytes([3; 32]),
        block_index: index,
        records: (0..n).map(|i| ETxOutRecord { search_key: vec![i as u8], payload: vec![] }).collect(),
    }
}

#[test]
fn max_queued_records_value() {
    assert_eq!(MAX_QUEUED_RECORDS, 524288);
    assert_eq!(RecordQueue::new(MAX_QUEUED_RECORDS).max_queued_records(), 524288);
}

#[test]
fn full_queue_refuses_until_drained() {
    let mut q = RecordQueue::new(10);
    assert!(q.is_empty());
    assert!(q.try_push(batch(0, 5)).is_ok());
    assert!(q.try_push(batch(1, 5)).is_ok());
    // At the maximum a push still proceeds and overshoots it.
    assert!(q.has_room());
    assert!(q.try_push(batch(2, 5)).is_ok());
    assert_eq!(q.queued_records(), 15);
    assert!(!q.has_room());
    let refused = q.try_push(batch(3, 1));
    assert_eq!(refused, Err(batch(3, 1)));
    assert_eq!(q.len(), 3);
    let drained = q.drain_all();
    assert_eq!(drained, vec![batch(0, 5), batch(1, 5), batch(2, 5)]);
    assert_eq!(q.queued_records(), 0);
    assert!(q.has_room());
    assert!(q.try_push(batch(3, 1)).is_ok());
    assert_eq!(q.drain_all(), vec![batch(3, 1)]);
}

#[test]
fn empty_batches_count_no_records() {
    let mut q = RecordQueue::new(0);
    assert!(q.try_push(batch(0, 0)).is_ok());
    assert!(q.try_push(batch(1, 0)).is_ok());
    assert_eq!(q.queued_records(), 0);
    assert!(q.try_push(batch(2, 1)).is_ok());
    assert!(q.try_push(batch(3, 0)).is_err());
    assert_eq!(q.len(), 3);
}

#[test]
fn drain_of_empty_queue_is_empty() {
    let mut q = RecordQueue::new(4);
    assert!(q.drain_all().is_empty());
    assert!(q.drain_all().is_empty());
}
