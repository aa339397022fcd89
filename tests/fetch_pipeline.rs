use fog_view_fetcher::keys::{IngressKey, IngressPublicKeyRecord, IngressPublicKeyStatus};
use fog_view_fetcher::queue::{ETxOutRecord, FetchedRecords, MAX_QUEUED_RECORDS};
use fog_view_fetcher::sharding::{EpochShardingStrategy, ShardingStrategy};
use fog_view_fetcher::shared::DbFetcherSharedState;
use fog_view_fetcher::worker::{FetchWorker, FetcherError, RangeRequest, StoreError, WorkerPhase};

/// An in-memory recovery store: block data per key, and key records.
struct MemStore {
    blocks: Vec<(IngressKey, u64, Vec<ETxOutRecord>)>,
}

impl MemStore {
    fn new() -> MemStore {
        MemStore { blocks: Vec::new() }
    }

    fn add_block(&mut self, key: IngressKey, index: u64, num_records: usize) {
        let records = (0..num_records)
            .map(|i| ETxOutRecord {
                search_key: vec![key.bytes[0], index as u8, i as u8],
                payload: vec![index as u8; 4],
            })
            .collect();
        self.blocks.push((key, index, records));
    }

    fn records_of(&self, key: IngressKey, index: u64) -> Vec<ETxOutRecord> {
        self.blocks
            .iter()
            .find(|(k, i, _)| *k == key && *i == index)
            .map(|(_, _, r)| r.clone())
            .unwrap()
    }

    fn last_scanned(&self, key: IngressKey) -> Option<u64> {
        self.blocks.iter().filter(|(k, _, _)| *k == key).map(|(_, i, _)| *i).max()
    }

    fn range(&self, req: &RangeRequest) -> Vec<(u64, Vec<ETxOutRecord>)> {
        let mut out: Vec<(u64, Vec<ETxOutRecord>)> = self
            .blocks
            .iter()
            .filter(|(k, i, _)| {
                *k == req.ingress_key
                    && *i >= req.start_block
                    && *i < req.start_block + req.block_count
            })
            .map(|(_, i, r)| (*i, r.clone()))
            .collect();
        out.sort_by_key(|(i, _)| *i);
        out
    }
}

fn key(b: u8) -> IngressKey {
    IngressKey::from_bytes([b; 32])
}

fn record(k: IngressKey, start_block: u64, pubkey_expiry: u64, last: Option<u64>) -> IngressPublicKeyRecord {
    IngressPublicKeyRecord {
        key: k,
        status: IngressPublicKeyStatus { start_block, pubkey_expiry, retired: false, lost: false },
        last_scanned_block: last,
    }
}

fn recs(n: usize) -> Vec<ETxOutRecord> {
    (0..n).map(|i| ETxOutRecord { search_key: vec![i as u8], payload: vec![7] }).collect()
}

/// Runs fetch passes, as the worker thread does, until a pass finds nothing
/// more to fetch. Returns the number of passes.
fn fetch_until_idle<SS: ShardingStrategy>(
    worker: &mut FetchWorker<SS>,
    state: &mut DbFetcherSharedState,
    store: &MemStore,
) -> usize {
    let mut passes = 0;
    loop {
        passes += 1;
        let keys = state.get_highest_processed_block_context();
        let requests = worker.begin_pass(&keys);
        for req in requests.iter() {
            let outcome = worker.accept_range(req, Ok(store.range(req)));
            for batch in outcome.batches {
                assert!(state.try_push(batch).is_ok());
            }
        }
        if !worker.may_have_more_work() {
            return passes;
        }
        assert!(passes < 1000);
    }
}

#[test]
fn zero_batch_size_is_refused() {
    let r = FetchWorker::new(EpochShardingStrategy::default(), 0);
    assert!(matches!(r, Err(FetcherError::ZeroBatchSize)));
    assert!(FetchWorker::new(EpochShardingStrategy::default(), 1).is_ok());
}

#[test]
fn fresh_key_starts_at_start_block() {
    let mut w = FetchWorker::new(EpochShardingStrategy::default(), 4).unwrap();
    let k = key(1);
    let reqs = w.begin_pass(&vec![record(k, 10, 0, None)]);
    assert_eq!(reqs, vec![RangeRequest { ingress_key: k, start_block: 10, block_count: 4 }]);
    assert_eq!(w.block_tracker().next_block_of(&k), Some(10));
}

#[test]
fn fresh_key_starts_after_last_scanned_block() {
    let mut w = FetchWorker::new(EpochShardingStrategy::default(), 4).unwrap();
    let k = key(1);
    let reqs = w.begin_pass(&vec![record(k, 10, 0, Some(19))]);
    assert_eq!(reqs, vec![RangeRequest { ingress_key: k, start_block: 20, block_count: 4 }]);
    // A last scanned block below the start block leaves the start block.
    let mut w = FetchWorker::new(EpochShardingStrategy::default(), 4).unwrap();
    let reqs = w.begin_pass(&vec![record(k, 10, 0, Some(3))]);
    assert_eq!(reqs[0].start_block, 10);
}

#[test]
fn next_block_never_moves_back_on_stale_last_scanned() {
    let mut w = FetchWorker::new(EpochShardingStrategy::default(), 5).unwrap();
    let k = key(1);
    let reqs = w.begin_pass(&vec![record(k, 10, 0, None)]);
    let results: Vec<(u64, Vec<ETxOutRecord>)> = (10..15).map(|i| (i, recs(1))).collect();
    let out = w.accept_range(&reqs[0], Ok(results));
    assert_eq!(out.accepted, 5);
    // The store now reports a stale, lower last scanned block.
    let reqs = w.begin_pass(&vec![record(k, 10, 0, Some(11))]);
    assert_eq!(reqs[0].start_block, 15);
    let reqs = w.begin_pass(&vec![record(k, 10, 0, None)]);
    assert_eq!(reqs[0].start_block, 15);
}

#[test]
fn dropped_key_restarts_fresh() {
    let mut w = FetchWorker::new(EpochShardingStrategy::default(), 5).unwrap();
    let k = key(1);
    let reqs = w.begin_pass(&vec![record(k, 10, 0, None)]);
    w.accept_range(&reqs[0], Ok(vec![(10, recs(1))]));
    assert_eq!(w.block_tracker().next_block_of(&k), Some(11));
    assert!(w.begin_pass(&vec![]).is_empty());
    assert_eq!(w.block_tracker().next_block_of(&k), None);
    let reqs = w.begin_pass(&vec![record(k, 10, 0, Some(30))]);
    assert_eq!(reqs[0].start_block, 31);
}

#[test]
fn gap_truncates_the_batch() {
    let mut w = FetchWorker::new(EpochShardingStrategy::default(), 5).unwrap();
    let k = key(1);
    let reqs = w.begin_pass(&vec![record(k, 10, 0, None)]);
    assert_eq!(reqs[0].start_block, 10);
    let out = w.accept_range(&reqs[0], Ok(vec![(10, recs(2)), (11, recs(3)), (13, recs(4))]));
    assert_eq!(out.accepted, 2);
    assert_eq!(out.batches.len(), 2);
    assert_eq!(out.batches[0].block_index, 10);
    assert_eq!(out.batches[0].records, recs(2));
    assert_eq!(out.batches[1].block_index, 11);
    assert_eq!(out.batches[1].records, recs(3));
    assert!(!out.may_have_more);
    assert!(!out.back_off);
    assert_eq!(w.block_tracker().next_block_of(&k), Some(12));
    let reqs = w.begin_pass(&vec![record(k, 10, 0, Some(13))]);
    assert_eq!(reqs[0].start_block, 12);
}

#[test]
fn mismatch_at_first_position_accepts_nothing() {
    let mut w = FetchWorker::new(EpochShardingStrategy::default(), 5).unwrap();
    let k = key(1);
    let reqs = w.begin_pass(&vec![record(k, 10, 0, None)]);
    let out = w.accept_range(&reqs[0], Ok(vec![(11, recs(1)), (12, recs(1))]));
    assert_eq!(out.accepted, 0);
    assert!(out.batches.is_empty());
    assert!(!out.may_have_more);
    assert_eq!(w.block_tracker().next_block_of(&k), Some(10));
}

#[test]
fn excess_results_are_ignored() {
    let mut w = FetchWorker::new(EpochShardingStrategy::default(), 2).unwrap();
    let k = key(1);
    let reqs = w.begin_pass(&vec![record(k, 10, 0, None)]);
    let results: Vec<(u64, Vec<ETxOutRecord>)> = (10..14).map(|i| (i, recs(1))).collect();
    let out = w.accept_range(&reqs[0], Ok(results));
    assert_eq!(out.accepted, 2);
    assert_eq!(out.batches.len(), 2);
    assert!(out.may_have_more);
    assert!(w.may_have_more_work());
    assert_eq!(w.block_tracker().next_block_of(&k), Some(12));
}

#[test]
fn empty_answer_means_no_more_work() {
    let mut w = FetchWorker::new(EpochShardingStrategy::default(), 3).unwrap();
    let k = key(1);
    let reqs = w.begin_pass(&vec![record(k, 10, 0, None)]);
    let out = w.accept_range(&reqs[0], Ok(vec![]));
    assert_eq!(out.accepted, 0);
    assert!(out.batches.is_empty());
    assert!(!out.may_have_more);
    assert!(!out.back_off);
    assert!(!w.may_have_more_work());
}

#[test]
fn store_failure_backs_off_and_keeps_progress() {
    let mut w = FetchWorker::new(EpochShardingStrategy::default(), 3).unwrap();
    let k = key(1);
    let reqs = w.begin_pass(&vec![record(k, 10, 0, None)]);
    let out = w.accept_range(&reqs[0], Err(StoreError { message: "timeout".to_string() }));
    assert!(out.batches.is_empty());
    assert!(out.may_have_more);
    assert!(out.back_off);
    assert!(w.may_have_more_work());
    assert_eq!(w.block_tracker().next_block_of(&k), Some(10));
}

#[test]
fn unresponsible_blocks_are_skipped_but_passed() {
    let shard = EpochShardingStrategy::new(10, 12);
    let mut w = FetchWorker::new(shard, 5).unwrap();
    let k = key(1);
    let reqs = w.begin_pass(&vec![record(k, 10, 0, None)]);
    let results: Vec<(u64, Vec<ETxOutRecord>)> = (10..15).map(|i| (i, recs(1))).collect();
    let out = w.accept_range(&reqs[0], Ok(results));
    assert_eq!(out.accepted, 5);
    let indices: Vec<u64> = out.batches.iter().map(|b| b.block_index).collect();
    assert_eq!(indices, vec![10, 11]);
    assert_eq!(w.block_tracker().next_block_of(&k), Some(15));
    // Block 15 is not this replica's: the key is not planned any more.
    assert!(w.begin_pass(&vec![record(k, 10, 0, Some(20))]).is_empty());
}

#[test]
fn key_outside_shard_is_not_planned() {
    let shard = EpochShardingStrategy::new(50, 100);
    let mut w = FetchWorker::new(shard, 5).unwrap();
    assert!(!shard.is_responsible(&key(1), 10));
    assert!(shard.is_responsible(&key(1), 50));
    assert!(w.begin_pass(&vec![record(key(1), 10, 0, None)]).is_empty());
    let reqs = w.begin_pass(&vec![record(key(2), 60, 0, None)]);
    assert_eq!(reqs.len(), 1);
}

#[test]
fn drain_twice_returns_nothing_the_second_time() {
    let mut state = DbFetcherSharedState::new(MAX_QUEUED_RECORDS);
    let k = key(1);
    for i in 0..3u64 {
        let b = FetchedRecords { ingress_key: k, block_index: i, records: recs(2) };
        assert!(state.try_push(b).is_ok());
    }
    assert_eq!(state.queued_records(), 6);
    let first = state.get_pending_fetched_records();
    assert_eq!(first.len(), 3);
    assert_eq!(first[2].block_index, 2);
    assert_eq!(state.queued_records(), 0);
    let second = state.get_pending_fetched_records();
    assert!(second.is_empty());
}

#[test]
fn expiry_bounds_the_requested_range() {
    let k = key(1);
    let mut store = MemStore::new();
    for i in 30..50 {
        store.add_block(k, i, 5);
    }
    let mut w = FetchWorker::new(EpochShardingStrategy::default(), 100).unwrap();
    let rec = record(k, 10, 45, Some(29));
    let reqs = w.begin_pass(&vec![rec]);
    assert_eq!(reqs, vec![RangeRequest { ingress_key: k, start_block: 30, block_count: 15 }]);
    let out = w.accept_range(&reqs[0], Ok(store.range(&reqs[0])));
    let indices: Vec<u64> = out.batches.iter().map(|b| b.block_index).collect();
    assert_eq!(indices, (30..45).collect::<Vec<u64>>());
    assert!(w.begin_pass(&vec![rec]).is_empty());
}

#[test]
fn expiry_bounds_single_block_requests() {
    let k = key(1);
    let mut store = MemStore::new();
    for i in 30..50 {
        store.add_block(k, i, 5);
    }
    let mut w = FetchWorker::new(EpochShardingStrategy::default(), 1).unwrap();
    let mut state = DbFetcherSharedState::new(MAX_QUEUED_RECORDS);
    assert!(state.refresh_ingress_keys(Ok(vec![record(k, 10, 45, Some(29))])));
    let mut requested = Vec::new();
    loop {
        let keys = state.get_highest_processed_block_context();
        let reqs = w.begin_pass(&keys);
        if reqs.is_empty() {
            break;
        }
        for req in reqs.iter() {
            assert_eq!(req.block_count, 1);
            requested.push(req.start_block);
            let out = w.accept_range(req, Ok(store.range(req)));
            for b in out.batches {
                assert!(state.try_push(b).is_ok());
            }
        }
    }
    assert_eq!(requested, (30..45).collect::<Vec<u64>>());
    let fetched = state.get_pending_fetched_records();
    let indices: Vec<u64> = fetched.iter().map(|b| b.block_index).collect();
    assert_eq!(indices, (30..45).collect::<Vec<u64>>());
}

#[test]
fn lost_key_stops_after_last_scanned_block() {
    let k = key(1);
    let mut w = FetchWorker::new(EpochShardingStrategy::default(), 10).unwrap();
    let mut rec = record(k, 10, 0, None);
    rec.status.lost = true;
    assert_eq!(rec.fetch_limit(), 0);
    assert!(w.begin_pass(&vec![rec]).is_empty());
    let mut w = FetchWorker::new(EpochShardingStrategy::default(), 10).unwrap();
    let mut rec = record(k, 10, 0, None);
    let reqs = w.begin_pass(&vec![rec]);
    assert_eq!(reqs[0].block_count, 10);
    rec.status.lost = true;
    rec.last_scanned_block = Some(12);
    assert_eq!(rec.fetch_limit(), 13);
    let reqs = w.begin_pass(&vec![rec]);
    assert_eq!(reqs, vec![RangeRequest { ingress_key: k, start_block: 10, block_count: 3 }]);
}

#[test]
fn end_to_end_single_key() {
    let k = key(9);
    let mut store = MemStore::new();
    let mut state = DbFetcherSharedState::new(MAX_QUEUED_RECORDS);
    let mut w = FetchWorker::new(EpochShardingStrategy::default(), 1).unwrap();
    assert!(state.get_highest_processed_block_context().is_empty());
    assert!(state.get_pending_fetched_records().is_empty());

    // The key is registered with start block 10 and seen before any data.
    assert!(state.refresh_ingress_keys(Ok(vec![record(k, 10, 0, None)])));
    fetch_until_idle(&mut w, &mut state, &store);
    assert!(state.get_pending_fetched_records().is_empty());
    assert_eq!(state.get_highest_processed_block_context(), vec![record(k, 10, 0, None)]);

    for i in 10..20 {
        store.add_block(k, i, 5);
    }
    let passes = fetch_until_idle(&mut w, &mut state, &store);
    assert_eq!(passes, 11);
    let fetched = state.get_pending_fetched_records();
    assert_eq!(fetched.len(), 10);
    for (i, f) in fetched.iter().enumerate() {
        assert_eq!(f.ingress_key, k);
        assert_eq!(f.block_index, i as u64 + 10);
        assert_eq!(f.records, store.records_of(k, i as u64 + 10));
        assert_eq!(f.records.len(), 5);
    }
    assert!(state.get_pending_fetched_records().is_empty());

    // The store's own record catches up.
    assert_eq!(store.last_scanned(k), Some(19));
    assert!(state.refresh_ingress_keys(Ok(vec![record(k, 10, 0, store.last_scanned(k))])));
    assert_eq!(state.get_highest_processed_block_context(), vec![record(k, 10, 0, Some(19))]);
    fetch_until_idle(&mut w, &mut state, &store);
    assert!(state.get_pending_fetched_records().is_empty());

    // A failed refresh keeps the previous list.
    assert!(!state.refresh_ingress_keys(Err(StoreError { message: "down".to_string() })));
    assert_eq!(state.get_highest_processed_block_context(), vec![record(k, 10, 0, Some(19))]);
}

fn check_overlapping(batch_size: usize) {
    let k1 = key(1);
    let k2 = key(2);
    let mut store = MemStore::new();
    for i in 0..10 {
        store.add_block(k1, i, 5);
        store.add_block(k2, i + 5, 5);
    }
    let mut state = DbFetcherSharedState::new(MAX_QUEUED_RECORDS);
    let mut w = FetchWorker::new(EpochShardingStrategy::default(), batch_size).unwrap();
    assert!(state.refresh_ingress_keys(Ok(vec![record(k1, 0, 0, None), record(k2, 5, 0, None)])));
    fetch_until_idle(&mut w, &mut state, &store);
    let fetched = state.get_pending_fetched_records();
    assert_eq!(fetched.len(), 20);
    for (k, first) in [(k1, 0u64), (k2, 5u64)] {
        let mine: Vec<&FetchedRecords> = fetched.iter().filter(|f| f.ingress_key == k).collect();
        assert_eq!(mine.len(), 10);
        for (i, f) in mine.iter().enumerate() {
            assert_eq!(f.block_index, first + i as u64);
            assert_eq!(f.records, store.records_of(k, first + i as u64));
        }
    }
}

#[test]
fn overlapping_keys_fetch_independently() {
    check_overlapping(1);
    check_overlapping(3);
}

#[test]
fn duplicate_key_records_use_the_first() {
    let k = key(1);
    let mut w = FetchWorker::new(EpochShardingStrategy::default(), 2).unwrap();
    let reqs = w.begin_pass(&vec![record(k, 10, 0, None), record(k, 50, 0, None)]);
    assert_eq!(reqs, vec![RangeRequest { ingress_key: k, start_block: 10, block_count: 2 }]);
}

#[test]
fn phases_follow_the_polling_cycle() {
    let mut w = FetchWorker::new(EpochShardingStrategy::default(), 1).unwrap();
    assert_eq!(w.phase(), WorkerPhase::Polling);
    assert_eq!(w.advance(false), WorkerPhase::RefreshingKeys);
    assert_eq!(w.advance(true), WorkerPhase::FetchingBatch);
    // A pass that leaves more work repeats the fetch.
    let k = key(1);
    let reqs = w.begin_pass(&vec![record(k, 0, 0, None)]);
    w.accept_range(&reqs[0], Ok(vec![(0, recs(1))]));
    assert_eq!(w.advance(false), WorkerPhase::FetchingBatch);
    // A pass that finds nothing goes idle.
    let reqs = w.begin_pass(&vec![record(k, 0, 0, None)]);
    w.accept_range(&reqs[0], Ok(vec![]));
    assert_eq!(w.advance(false), WorkerPhase::Idle);
    assert_eq!(w.advance(true), WorkerPhase::Polling);
    assert_eq!(w.advance(true), WorkerPhase::Stopped);
    assert_eq!(w.advance(false), WorkerPhase::Stopped);
}

#[test]
fn stop_during_fetch_exits() {
    let mut w = FetchWorker::new(EpochShardingStrategy::default(), 1).unwrap();
    w.advance(false);
    w.advance(false);
    let k = key(1);
    let reqs = w.begin_pass(&vec![record(k, 0, 0, None)]);
    w.accept_range(&reqs[0], Ok(vec![(0, recs(1))]));
    assert!(w.may_have_more_work());
    assert_eq!(w.advance(true), WorkerPhase::Stopped);
}
