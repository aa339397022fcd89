//! Fetched blocks and the record-bounded queue that holds them until the
//! consumer drains it.

use vstd::prelude::*;
use crate::keys::IngressKey;

verus! {

/// Approximate maximum number of records held in the queue before the
/// producer has to wait for the consumer: 128 MiB of records of at most 256
/// bytes each.
pub const MAX_QUEUED_RECORDS: usize = (128 * 1024 * 1024) / 256;

/// One fetched output record: an opaque payload keyed by a search tag.
#[derive(Clone, Debug, PartialEq, Eq)]
pub struct ETxOutRecord {
    pub search_key: Vec<u8>,
    pub payload: Vec<u8>,
}

/// A single block of fetched records, with the key and block it came from.
#[derive(Clone, Debug, PartialEq, Eq)]
pub struct FetchedRecords {
    /// The ingress key the records were produced under.
    pub ingress_key: IngressKey,
    /// The block the records belong to.
    pub block_index: u64,
    /// The records, in the order the store returned them.
    pub records: Vec<ETxOutRecord>,
}

/// The number of records held in a sequence of fetched blocks.
pub open spec fn total_records(s: Seq<FetchedRecords>) -> nat
    decreases s.len(),
{
    if s.len() == 0 {
        0
    } else {
        total_records(s.drop_last()) + s.last().records@.len()
    }
}

proof fn lemma_total_records_push(s: Seq<FetchedRecords>, b: FetchedRecords)
    ensures
        total_records(s.push(b)) == total_records(s) + b.records@.len(),
{
    assert(s.push(b).drop_last() =~= s);
}

/// A queue of fetched blocks bounded by the number of records it holds.
///
/// The bound is soft: a push is admitted while the held record count is at
/// most the maximum, so one push may overshoot it by one block's records, and
/// after that no push is admitted until the queue is drained.
pub struct RecordQueue {
    pending: Vec<FetchedRecords>,
    queued_records: usize,
    max_queued_records: usize,
}

/// Whether a queue holding `queued` records, with maximum `max`, admits a
/// block of `len` records.
pub open spec fn admits(queued: nat, max: nat, len: nat) -> bool {
    queued <= max && queued + len <= usize::MAX
}

impl RecordQueue {
    /// The held record count is the number of records in the held blocks.
    pub closed spec fn wf(&self) -> bool {
        self.queued_records == total_records(self.pending@)
    }

    /// The held blocks, oldest first.
    pub closed spec fn pending(&self) -> Seq<FetchedRecords> {
        self.pending@
    }

    /// The configured maximum number of held records.
    pub closed spec fn max(&self) -> nat {
        self.max_queued_records as nat
    }

    /// The relation between a queue before and after `drain_all`, and the
    /// blocks the call returns.
    pub open spec fn drain_step(before: RecordQueue, after: RecordQueue, out: Seq<FetchedRecords>) -> bool {
        &&& after.wf()
        &&& out == before.pending()
        &&& after.pending() == Seq::<FetchedRecords>::empty()
        &&& after.max() == before.max()
    }

    /// An empty queue that admits pushes while it holds at most
    /// `max_queued_records` records.
    pub fn new(max_queued_records: usize) -> (r: RecordQueue)
        ensures
            r.wf(),
            r.pending() == Seq::<FetchedRecords>::empty(),
            r.max() == max_queued_records,
    {
        RecordQueue { pending: Vec::new(), queued_records: 0, max_queued_records }
    }

    /// Number of held blocks.
    pub fn len(&self) -> (r: usize)
        ensures
            r == self.pending().len(),
    {
        self.pending.len()
    }

    pub fn is_empty(&self) -> (r: bool)
        ensures
            r == (self.pending().len() == 0),
    {
        self.pending.len() == 0
    }

    /// Number of held records.
    pub fn queued_records(&self) -> (r: usize)
        requires
            self.wf(),
        ensures
            r == total_records(self.pending()),
    {
        self.queued_records
    }

    pub fn max_queued_records(&self) -> (r: usize)
        ensures
            r == self.max(),
    {
        self.max_queued_records
    }

    /// Whether a push may proceed now: the held record count is at most the
    /// maximum.
    pub fn has_room(&self) -> (r: bool)
        requires
            self.wf(),
        ensures
            r == (total_records(self.pending()) <= self.max()),
    {
        self.queued_records <= self.max_queued_records
    }

    /// Appends `batch` if the queue admits it now; otherwise hands it back
    /// unchanged, and the producer waits for a drain.
    pub fn try_push(&mut self, batch: FetchedRecords) -> (r: Result<(), FetchedRecords>)
        requires
            old(self).wf(),
        ensures
            final(self).wf(),
            final(self).max() == old(self).max(),
            r is Ok == admits(
                total_records(old(self).pending()),
                old(self).max(),
                batch.records@.len(),
            ),
            r is Ok ==> final(self).pending() == old(self).pending().push(batch),
            r is Err ==> r->Err_0 == batch && final(self).pending() == old(self).pending(),
    {
        let n = batch.records.len();
        if self.queued_records <= self.max_queued_records && n <= usize::MAX - self.queued_records {
            proof {
                lemma_total_records_push(self.pending@, batch);
            }
            self.pending.push(batch);
            self.queued_records = self.queued_records + n;
            Ok(())
        } else {
            Err(batch)
        }
    }

    /// Removes and returns every held block, oldest first, and resets the
    /// held record count to zero.
    pub fn drain_all(&mut self) -> (r: Vec<FetchedRecords>)
        requires
            old(self).wf(),
        ensures
            RecordQueue::drain_step(*old(self), *final(self), r@),
            total_records(final(self).pending()) == 0,
    {
        let r = self.pending.split_off(0);
        proof {
            assert(r@ =~= old(self).pending@);
            assert(self.pending@ =~= Seq::<FetchedRecords>::empty());
        }
        self.queued_records = 0;
        r
    }
}

/// Draining twice with nothing pushed in between returns every held block
/// the first time and nothing the second time.
pub proof fn lemma_drain_twice(
    q0: RecordQueue,
    q1: RecordQueue,
    q2: RecordQueue,
    first: Seq<FetchedRecords>,
    second: Seq<FetchedRecords>,
)
    requires
        RecordQueue::drain_step(q0, q1, first),
        RecordQueue::drain_step(q1, q2, second),
    ensures
        first == q0.pending(),
        second == Seq::<FetchedRecords>::empty(),
{
}

/// Once the held blocks total more records than the maximum, no push is
/// admitted, whatever its size; after a drain, every push is admitted again.
pub proof fn lemma_backpressure(q: RecordQueue, drained: RecordQueue, out: Seq<FetchedRecords>, len: nat)
    requires
        q.wf(),
        total_records(q.pending()) > q.max(),
        RecordQueue::drain_step(q, drained, out),
        len <= usize::MAX,
    ensures
        !admits(total_records(q.pending()), q.max(), len),
        admits(total_records(drained.pending()), drained.max(), len),
{
    assert(total_records(drained.pending()) == 0);
}

} // verus!
