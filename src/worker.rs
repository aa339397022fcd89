//! The fetch worker's decisions: which block ranges to request, which fetched
//! blocks to accept and queue, and which phase of the polling cycle comes next.
//! The caller performs the store queries, the waiting and the sleeping.

use vstd::prelude::*;
use crate::keys::{fetch_limit, IngressKey, IngressPublicKeyRecord};
use crate::queue::{ETxOutRecord, FetchedRecords};
use crate::sharding::ShardingStrategy;
use crate::tracker::{candidate, first_record, planned, wanted, BlockTracker};

verus! {

/// A failed store operation.
#[derive(Clone, Debug, PartialEq, Eq)]
pub struct StoreError {
    pub message: String,
}

/// A configuration the worker refuses to start with.
#[derive(Clone, Copy, Debug, PartialEq, Eq)]
pub enum FetcherError {
    /// The block batch size is zero.
    ZeroBatchSize,
}

/// A request for up to `block_count` blocks of one key, starting at
/// `start_block`.
#[derive(Clone, Copy, Debug, PartialEq, Eq)]
pub struct RangeRequest {
    pub ingress_key: IngressKey,
    pub start_block: u64,
    pub block_count: u64,
}

/// What to do with the answer to one range request.
#[derive(Debug)]
pub struct RangeOutcome {
    /// Blocks to queue, in ascending block order.
    pub batches: Vec<FetchedRecords>,
    /// How many results were accepted by the gap check.
    pub accepted: u64,
    /// Whether the key may have more data available right away.
    pub may_have_more: bool,
    /// Whether to pause for one polling interval before the next key.
    pub back_off: bool,
}

/// The phases of the worker's polling cycle.
#[derive(Clone, Copy, Debug, PartialEq, Eq, Structural)]
pub enum WorkerPhase {
    /// Top of the cycle, where a stop request is honoured.
    Polling,
    /// Reloading the ingress key records from the store.
    RefreshingKeys,
    /// Fetching block ranges for every key that has a block due.
    FetchingBatch,
    /// Caught up: signal readiness, then sleep one polling interval.
    Idle,
    /// Stopped for good.
    Stopped,
}

/// The phase after `phase`, given whether a stop was requested and whether
/// the fetch pass that just ended may have left data to fetch.
pub open spec fn next_phase(phase: WorkerPhase, stop_requested: bool, more_work: bool) -> WorkerPhase {
    match phase {
        WorkerPhase::Polling => if stop_requested {
            WorkerPhase::Stopped
        } else {
            WorkerPhase::RefreshingKeys
        },
        WorkerPhase::RefreshingKeys => WorkerPhase::FetchingBatch,
        WorkerPhase::FetchingBatch => if stop_requested {
            WorkerPhase::Stopped
        } else if more_work {
            WorkerPhase::FetchingBatch
        } else {
            WorkerPhase::Idle
        },
        WorkerPhase::Idle => WorkerPhase::Polling,
        WorkerPhase::Stopped => WorkerPhase::Stopped,
    }
}

/// The range requested for a planned (key, next block) pair: at most
/// `batch_size` blocks, and none at or past the key's fetch limit.
pub open spec fn request_for(
    recs: Seq<IngressPublicKeyRecord>,
    batch_size: nat,
    entry: (IngressKey, u64),
) -> RangeRequest {
    let room = fetch_limit(first_record(recs, entry.0@)->0) - entry.1;
    RangeRequest {
        ingress_key: entry.0,
        start_block: entry.1,
        block_count: (if batch_size < room {
            batch_size as int
        } else {
            room
        }) as u64,
    }
}

/// `n` results of `results` pass the gap check for a request of `count`
/// blocks from `start`: the first `n` carry indices `start, start + 1, ...`,
/// and the next one, if any within the request, does not.
pub open spec fn gap_free_prefix(
    results: Seq<(u64, Vec<ETxOutRecord>)>,
    start: int,
    count: int,
    n: int,
) -> bool {
    &&& 0 <= n <= results.len()
    &&& n <= count
    &&& forall|j: int| 0 <= j < n ==> #[trigger] results[j].0 == start + j
    &&& (n == results.len() || n == count || results[n].0 != start + n)
}

/// The blocks queued from the first `n` accepted results: those this replica
/// is responsible for, in order.
pub open spec fn queued_batches<SS: ShardingStrategy>(
    ss: SS,
    key: IngressKey,
    start: int,
    results: Seq<(u64, Vec<ETxOutRecord>)>,
    n: int,
) -> Seq<FetchedRecords>
    decreases n,
{
    if n <= 0 {
        Seq::empty()
    } else {
        let rest = queued_batches(ss, key, start, results, n - 1);
        let index = (start + n - 1) as u64;
        if ss.responsible(key@, index) {
            rest.push(
                FetchedRecords { ingress_key: key, block_index: index, records: results[n - 1].1 },
            )
        } else {
            rest
        }
    }
}

/// Progress after `n` results were accepted from a request starting at
/// `start`: the key's next block is `start + n`.
pub open spec fn advanced(progress: Map<Seq<u8>, u64>, key: IngressKey, start: int, n: int) -> Map<
    Seq<u8>,
    u64,
> {
    if n > 0 {
        progress.insert(key@, (start + n) as u64)
    } else {
        progress
    }
}

proof fn lemma_planned_entries<SS: ShardingStrategy>(
    ss: SS,
    progress: Map<Seq<u8>, u64>,
    recs: Seq<IngressPublicKeyRecord>,
)
    ensures
        forall|i: int|
            0 <= i < planned(ss, progress, recs).len() ==> {
                let e = #[trigger] planned(ss, progress, recs)[i];
                &&& first_record(recs, e.0@) is Some
                &&& e.1 == candidate(progress, first_record(recs, e.0@)->0)
                &&& wanted(ss, progress, first_record(recs, e.0@)->0)
            },
    decreases recs.len(),
{
    if recs.len() > 0 {
        let pre = recs.drop_last();
        lemma_planned_entries(ss, progress, pre);
        let rest = planned(ss, progress, pre);
        let rec = recs.last();
        assert forall|i: int| 0 <= i < rest.len() implies first_record(recs, rest[i].0@)
            == first_record(pre, rest[i].0@) by {}
        if first_record(pre, rec.key@) is None && wanted(ss, progress, rec) {
            assert(first_record(recs, rec.key@) == Some(rec));
        }
    }
}

proof fn lemma_first_record_at(recs: Seq<IngressPublicKeyRecord>, k: Seq<u8>, j: int)
    requires
        0 <= j < recs.len(),
        recs[j].key@ == k,
        forall|m: int| 0 <= m < j ==> recs[m].key@ != k,
    ensures
        first_record(recs, k) == Some(recs[j]),
    decreases recs.len(),
{
    let pre = recs.drop_last();
    if j < recs.len() - 1 {
        lemma_first_record_at(pre, k, j);
    } else {
        lemma_first_record_none(pre, k);
    }
}

proof fn lemma_first_record_none(recs: Seq<IngressPublicKeyRecord>, k: Seq<u8>)
    requires
        forall|m: int| 0 <= m < recs.len() ==> recs[m].key@ != k,
    ensures
        first_record(recs, k) is None,
    decreases recs.len(),
{
    if recs.len() > 0 {
        lemma_first_record_none(recs.drop_last(), k);
    }
}

fn first_record_index(recs: &Vec<IngressPublicKeyRecord>, key: &IngressKey) -> (r: Option<usize>)
    ensures
        match r {
            Some(j) => j < recs@.len() && first_record(recs@, key@) == Some(recs@[j as int]),
            None => first_record(recs@, key@) is None,
        },
{
    let mut j: usize = 0;
    while j < recs.len()
        invariant
            0 <= j <= recs@.len(),
            forall|m: int| 0 <= m < j ==> recs@[m].key@ != key@,
        decreases recs@.len() - j,
    {
        if recs[j].key == *key {
            proof {
                lemma_first_record_at(recs@, key@, j as int);
            }
            return Some(j);
        }
        j = j + 1;
    }
    proof {
        lemma_first_record_none(recs@, key@);
    }
    None
}

/// The worker's own state: per-key progress, the batch size, the current
/// phase, and whether the current fetch pass may have left data to fetch.
pub struct FetchWorker<SS: ShardingStrategy> {
    block_tracker: BlockTracker<SS>,
    block_query_batch_size: usize,
    phase: WorkerPhase,
    may_have_more_work: bool,
}

impl<SS: ShardingStrategy> FetchWorker<SS> {
    pub closed spec fn wf(&self) -> bool {
        &&& self.block_tracker.wf()
        &&& self.block_query_batch_size > 0
    }

    /// Next block index per key.
    pub closed spec fn progress(&self) -> Map<Seq<u8>, u64> {
        self.block_tracker.progress()
    }

    pub closed spec fn strategy(&self) -> SS {
        self.block_tracker.strategy()
    }

    pub closed spec fn batch_size(&self) -> nat {
        self.block_query_batch_size as nat
    }

    pub closed spec fn phase_spec(&self) -> WorkerPhase {
        self.phase
    }

    pub closed spec fn more_work(&self) -> bool {
        self.may_have_more_work
    }

    /// A worker at the top of its polling cycle, with no key progress yet.
    /// Refuses a zero batch size.
    pub fn new(sharding_strategy: SS, block_query_batch_size: usize) -> (r: Result<
        FetchWorker<SS>,
        FetcherError,
    >)
        ensures
            r is Err <==> block_query_batch_size == 0,
            r matches Err(e) ==> e == FetcherError::ZeroBatchSize,
            r matches Ok(w) ==> {
                &&& w.wf()
                &&& w.progress() == Map::<Seq<u8>, u64>::empty()
                &&& w.strategy() == sharding_strategy
                &&& w.batch_size() == block_query_batch_size
                &&& w.phase_spec() == WorkerPhase::Polling
                &&& !w.more_work()
            },
    {
        if block_query_batch_size == 0 {
            return Err(FetcherError::ZeroBatchSize);
        }
        Ok(
            FetchWorker {
                block_tracker: BlockTracker::new(sharding_strategy),
                block_query_batch_size,
                phase: WorkerPhase::Polling,
                may_have_more_work: false,
            },
        )
    }

    pub fn phase(&self) -> (r: WorkerPhase)
        ensures
            r == self.phase_spec(),
    {
        self.phase
    }

    pub fn block_query_batch_size(&self) -> (r: usize)
        ensures
            r == self.batch_size(),
    {
        self.block_query_batch_size
    }

    /// Whether the current fetch pass may have left data to fetch.
    pub fn may_have_more_work(&self) -> (r: bool)
        ensures
            r == self.more_work(),
    {
        self.may_have_more_work
    }

    pub fn block_tracker(&self) -> (r: &BlockTracker<SS>)
        ensures
            self.wf() ==> r.wf(),
            r.progress() == self.progress(),
            r.strategy() == self.strategy(),
    {
        &self.block_tracker
    }

    /// Starts a fetch pass over the known key records: plans the next block
    /// of every key (see `BlockTracker::next_blocks`) and turns each planned
    /// (key, next block) pair into a range request of at most the batch size
    /// that stops short of the key's fetch limit.
    pub fn begin_pass(&mut self, ingress_keys: &Vec<IngressPublicKeyRecord>) -> (r: Vec<
        RangeRequest,
    >)
        requires
            old(self).wf(),
        ensures
            final(self).wf(),
            final(self).strategy() == old(self).strategy(),
            final(self).batch_size() == old(self).batch_size(),
            final(self).phase_spec() == old(self).phase_spec(),
            !final(self).more_work(),
            final(self).progress() == crate::tracker::replanned(
                old(self).progress(),
                ingress_keys@,
            ),
            r@.len() == planned(old(self).strategy(), old(self).progress(), ingress_keys@).len(),
            forall|i: int|
                0 <= i < r@.len() ==> #[trigger] r@[i] == request_for(
                    ingress_keys@,
                    old(self).batch_size(),
                    planned(old(self).strategy(), old(self).progress(), ingress_keys@)[i],
                ),
            forall|i: int|
                0 <= i < r@.len() ==> {
                    &&& 1 <= (#[trigger] r@[i]).block_count <= old(self).batch_size()
                    &&& r@[i].start_block + r@[i].block_count <= fetch_limit(
                        first_record(ingress_keys@, r@[i].ingress_key@)->0,
                    )
                },
    {
        let ghost progress = self.block_tracker.progress();
        let ghost ss = self.block_tracker.strategy();
        let plan = self.block_tracker.next_blocks(ingress_keys);
        let mut out: Vec<RangeRequest> = Vec::new();
        let mut i: usize = 0;
        while i < plan.len()
            invariant
                0 <= i <= plan@.len(),
                plan@ == planned(ss, progress, ingress_keys@),
                self.block_query_batch_size > 0,
                out@.len() == i,
                forall|m: int|
                    0 <= m < i ==> #[trigger] out@[m] == request_for(
                        ingress_keys@,
                        self.block_query_batch_size as nat,
                        plan@[m],
                    ),
                forall|m: int|
                    0 <= m < i ==> {
                        &&& 1 <= (#[trigger] out@[m]).block_count <= self.block_query_batch_size
                        &&& out@[m].start_block + out@[m].block_count <= fetch_limit(
                            first_record(ingress_keys@, out@[m].ingress_key@)->0,
                        )
                    },
            decreases plan@.len() - i,
        {
            let (key, start) = plan[i];
            proof {
                lemma_planned_entries(ss, progress, ingress_keys@);
            }
            let limit: u64 = match first_record_index(ingress_keys, &key) {
                Some(j) => ingress_keys[j].fetch_limit(),
                None => start,
            };
            proof {
                assert(plan@[i as int] == (key, start));
                let e = planned(ss, progress, ingress_keys@)[i as int];
                assert(wanted(ss, progress, first_record(ingress_keys@, e.0@)->0));
                assert(start < limit);
            }
            let room: u64 = limit - start;
            let count: u64 = if (self.block_query_batch_size as u64) < room {
                self.block_query_batch_size as u64
            } else {
                room
            };
            out.push(RangeRequest { ingress_key: key, start_block: start, block_count: count });
            i = i + 1;
        }
        self.may_have_more_work = false;
        out
    }

    /// Handles the store's answer to `req`.
    ///
    /// On failure nothing is queued and progress stays put; the key may still
    /// have data, and the caller backs off for one polling interval. On
    /// success the results pass the gap check in order: the result at
    /// position `i` is accepted only while its block index is
    /// `start_block + i`, within the requested count. Each accepted block
    /// advances the key's progress past it; it is queued only if this replica
    /// is responsible for it. The key may have more data when every requested
    /// block was accepted.
    pub fn accept_range(
        &mut self,
        req: &RangeRequest,
        result: Result<Vec<(u64, Vec<ETxOutRecord>)>, StoreError>,
    ) -> (r: RangeOutcome)
        requires
            old(self).wf(),
            req.start_block + req.block_count <= u64::MAX,
        ensures
            final(self).wf(),
            final(self).strategy() == old(self).strategy(),
            final(self).batch_size() == old(self).batch_size(),
            final(self).phase_spec() == old(self).phase_spec(),
            final(self).more_work() == (old(self).more_work() || r.may_have_more),
            match result {
                Err(_) => {
                    &&& r.batches@ == Seq::<FetchedRecords>::empty()
                    &&& r.accepted == 0
                    &&& r.may_have_more
                    &&& r.back_off
                    &&& final(self).progress() == old(self).progress()
                },
                Ok(results) => {
                    &&& gap_free_prefix(
                        results@,
                        req.start_block as int,
                        req.block_count as int,
                        r.accepted as int,
                    )
                    &&& r.batches@ == queued_batches(
                        old(self).strategy(),
                        req.ingress_key,
                        req.start_block as int,
                        results@,
                        r.accepted as int,
                    )
                    &&& r.may_have_more == (r.accepted > 0 && r.accepted == req.block_count)
                    &&& !r.back_off
                    &&& final(self).progress() == advanced(
                        old(self).progress(),
                        req.ingress_key,
                        req.start_block as int,
                        r.accepted as int,
                    )
                },
            },
    {
        match result {
            Err(_) => {
                self.may_have_more_work = true;
                RangeOutcome { batches: Vec::new(), accepted: 0, may_have_more: true, back_off: true }
            },
            Ok(results) => {
                let ghost all = results@;
                let ghost progress = self.block_tracker.progress();
                let ghost ss = self.block_tracker.strategy();
                let key = req.ingress_key;
                let start = req.start_block;
                let count = req.block_count;
                let mut rest = results;
                let mut batches: Vec<FetchedRecords> = Vec::new();
                let mut n: u64 = 0;
                while n < count && rest.len() > 0 && rest[0].0 == start + n
                    invariant
                        self.wf(),
                        self.block_tracker.strategy() == ss,
                        self.block_query_batch_size == old(self).block_query_batch_size,
                        self.phase == old(self).phase,
                        self.may_have_more_work == old(self).may_have_more_work,
                        start + count <= u64::MAX,
                        0 <= n <= count,
                        n <= all.len(),
                        rest@ == all.subrange(n as int, all.len() as int),
                        forall|j: int| 0 <= j < n ==> #[trigger] all[j].0 == start + j,
                        batches@ == queued_batches(ss, key, start as int, all, n as int),
                        self.block_tracker.progress() == advanced(progress, key, start as int, n as int),
                    decreases count - n,
                {
                    let (index, records) = rest.remove(0);
                    proof {
                        assert(all[n as int] == (index, records));
                    }
                    let responsible = self.block_tracker.block_processed(&key, index);
                    if responsible {
                        batches.push(FetchedRecords { ingress_key: key, block_index: index, records });
                    }
                    proof {
                        assert(advanced(progress, key, start as int, n + 1) =~= self.block_tracker.progress());
                    }
                    n = n + 1;
                }
                proof {
                    if n < all.len() && n < count {
                        assert(rest@[0] == all[n as int]);
                    }
                }
                let more = n > 0 && n == count;
                self.may_have_more_work = self.may_have_more_work || more;
                RangeOutcome { batches, accepted: n, may_have_more: more, back_off: false }
            },
        }
    }

    /// Moves to the next phase of the polling cycle and returns it.
    pub fn advance(&mut self, stop_requested: bool) -> (r: WorkerPhase)
        requires
            old(self).wf(),
        ensures
            final(self).wf(),
            final(self).strategy() == old(self).strategy(),
            final(self).batch_size() == old(self).batch_size(),
            final(self).progress() == old(self).progress(),
            final(self).more_work() == old(self).more_work(),
            r == next_phase(old(self).phase_spec(), stop_requested, old(self).more_work()),
            final(self).phase_spec() == r,
    {
        let next = match self.phase {
            WorkerPhase::Polling => if stop_requested {
                WorkerPhase::Stopped
            } else {
                WorkerPhase::RefreshingKeys
            },
            WorkerPhase::RefreshingKeys => WorkerPhase::FetchingBatch,
            WorkerPhase::FetchingBatch => if stop_requested {
                WorkerPhase::Stopped
            } else if self.may_have_more_work {
                WorkerPhase::FetchingBatch
            } else {
                WorkerPhase::Idle
            },
            WorkerPhase::Idle => WorkerPhase::Polling,
            WorkerPhase::Stopped => WorkerPhase::Stopped,
        };
        self.phase = next;
        next
    }
}

/// Every block queued from an answer belongs to the requested key, lies among
/// the accepted blocks `[start, start + n)` with the records the store gave
/// for it, is one this replica is responsible for, and comes after the blocks
/// queued before it. Blocks this replica is not responsible for are never
/// queued, yet the key's progress moves past all `n` accepted blocks, and no
/// other key's progress moves.
pub proof fn lemma_queued_batches<SS: ShardingStrategy>(
    ss: SS,
    progress: Map<Seq<u8>, u64>,
    key: IngressKey,
    start: int,
    count: int,
    results: Seq<(u64, Vec<ETxOutRecord>)>,
    n: int,
)
    requires
        gap_free_prefix(results, start, count, n),
        0 <= start,
        start + count <= u64::MAX,
    ensures
        forall|i: int|
            0 <= i < queued_batches(ss, key, start, results, n).len() ==> {
                let b = #[trigger] queued_batches(ss, key, start, results, n)[i];
                &&& b.ingress_key == key
                &&& start <= b.block_index < start + n
                &&& b.records == results[b.block_index - start].1
                &&& ss.responsible(key@, b.block_index)
            },
        forall|i: int, j: int|
            0 <= i < j < queued_batches(ss, key, start, results, n).len() ==> (
            #[trigger] queued_batches(ss, key, start, results, n)[i]).block_index < (
            #[trigger] queued_batches(ss, key, start, results, n)[j]).block_index,
        n > 0 ==> advanced(progress, key, start, n)[key@] == start + n,
        forall|other: Seq<u8>|
            other != key@ ==> (#[trigger] advanced(progress, key, start, n).contains_key(other)
                == progress.contains_key(other)),
        forall|other: Seq<u8>|
            other != key@ && progress.contains_key(other) ==> #[trigger] advanced(
                progress,
                key,
                start,
                n,
            )[other] == progress[other],
{
    lemma_queued_batches_range(ss, key, start, results, n);
}

proof fn lemma_queued_batches_range<SS: ShardingStrategy>(
    ss: SS,
    key: IngressKey,
    start: int,
    results: Seq<(u64, Vec<ETxOutRecord>)>,
    n: int,
)
    requires
        0 <= start,
        start + n <= u64::MAX,
        n <= results.len(),
    ensures
        forall|i: int|
            0 <= i < queued_batches(ss, key, start, results, n).len() ==> {
                let b = #[trigger] queued_batches(ss, key, start, results, n)[i];
                &&& b.ingress_key == key
                &&& start <= b.block_index < start + n
                &&& b.records == results[b.block_index - start].1
                &&& ss.responsible(key@, b.block_index)
            },
        forall|i: int, j: int|
            0 <= i < j < queued_batches(ss, key, start, results, n).len() ==> (
            #[trigger] queued_batches(ss, key, start, results, n)[i]).block_index < (
            #[trigger] queued_batches(ss, key, start, results, n)[j]).block_index,
    decreases n,
{
    if n > 0 {
        lemma_queued_batches_range(ss, key, start, results, n - 1);
        let rest = queued_batches(ss, key, start, results, n - 1);
        let cur = queued_batches(ss, key, start, results, n);
        let index = (start + n - 1) as u64;
        assert(index == start + n - 1);
        if ss.responsible(key@, index) {
            assert(cur.last().block_index == index);
            assert forall|i: int| 0 <= i < rest.len() implies cur[i] == rest[i] by {}
        } else {
            assert(cur == rest);
        }
    }
}

/// A key's next requested block never moves back from one fetch pass to the
/// next while the key stays listed, whatever `last_scanned_block` the store
/// reports for it in between, a stale lower one included.
///
/// In the first pass the key is planned at `replanned(progress, recs1)[key]`;
/// the answer to its request has `n` accepted blocks; the second pass, over
/// `recs2`, requests the key from no earlier block.
pub proof fn lemma_no_backward_progress<SS: ShardingStrategy>(
    ss: SS,
    progress: Map<Seq<u8>, u64>,
    recs1: Seq<IngressPublicKeyRecord>,
    recs2: Seq<IngressPublicKeyRecord>,
    key: IngressKey,
    n: int,
)
    requires
        crate::tracker::replanned(progress, recs1).contains_key(key@),
        first_record(recs2, key@) is Some,
        0 <= n,
        crate::tracker::replanned(progress, recs1)[key@] + n <= u64::MAX,
    ensures
        ({
            let before = crate::tracker::replanned(progress, recs1);
            let after = advanced(before, key, before[key@] as int, n);
            &&& candidate(after, first_record(recs2, key@)->0) >= before[key@]
            &&& crate::tracker::replanned(after, recs2).contains_key(key@)
            &&& crate::tracker::replanned(after, recs2)[key@] >= before[key@]
            &&& forall|i: int|
                0 <= i < planned(ss, after, recs2).len() && (#[trigger] planned(
                    ss,
                    after,
                    recs2,
                )[i]).0@ == key@ ==> planned(ss, after, recs2)[i].1 >= before[key@]
        }),
{
    crate::tracker::lemma_first_record(recs2, key@);
    let before = crate::tracker::replanned(progress, recs1);
    let after = advanced(before, key, before[key@] as int, n);
    lemma_planned_entries(ss, after, recs2);
}

} // verus!
