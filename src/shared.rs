//! State shared between the fetch worker and the holder of the fetcher: the
//! last key list read from the store and the queue of fetched blocks.

use vstd::prelude::*;
use crate::keys::IngressPublicKeyRecord;
use crate::queue::{admits, total_records, FetchedRecords, RecordQueue};
use crate::worker::StoreError;

verus! {

/// The key list cache and the result queue, which the worker fills and the
/// consumer reads.
pub struct DbFetcherSharedState {
    ingress_keys: Vec<IngressPublicKeyRecord>,
    fetched_records: RecordQueue,
}

impl DbFetcherSharedState {
    pub closed spec fn wf(&self) -> bool {
        self.fetched_records.wf()
    }

    /// The key records of the last successful refresh.
    pub closed spec fn keys(&self) -> Seq<IngressPublicKeyRecord> {
        self.ingress_keys@
    }

    /// The queued blocks, oldest first.
    pub closed spec fn pending(&self) -> Seq<FetchedRecords> {
        self.fetched_records.pending()
    }

    pub closed spec fn max(&self) -> nat {
        self.fetched_records.max()
    }

    /// No keys known and nothing queued; the queue admits pushes while it
    /// holds at most `max_queued_records` records.
    pub fn new(max_queued_records: usize) -> (r: DbFetcherSharedState)
        ensures
            r.wf(),
            r.keys() == Seq::<IngressPublicKeyRecord>::empty(),
            r.pending() == Seq::<FetchedRecords>::empty(),
            r.max() == max_queued_records,
    {
        DbFetcherSharedState {
            ingress_keys: Vec::new(),
            fetched_records: RecordQueue::new(max_queued_records),
        }
    }

    /// Applies the result of reloading the key records: a successful read
    /// replaces the cached list, a failed one keeps the previous list.
    /// Returns whether the list was replaced.
    pub fn refresh_ingress_keys(
        &mut self,
        result: Result<Vec<IngressPublicKeyRecord>, StoreError>,
    ) -> (r: bool)
        requires
            old(self).wf(),
        ensures
            final(self).wf(),
            final(self).pending() == old(self).pending(),
            final(self).max() == old(self).max(),
            r == result is Ok,
            match result {
                Ok(records) => final(self).keys() == records@,
                Err(_) => final(self).keys() == old(self).keys(),
            },
    {
        match result {
            Ok(records) => {
                self.ingress_keys = records;
                true
            },
            Err(_) => false,
        }
    }

    /// A copy of the key records of the last successful refresh.
    pub fn get_highest_processed_block_context(&self) -> (r: Vec<IngressPublicKeyRecord>)
        ensures
            r@ == self.keys(),
    {
        let mut out: Vec<IngressPublicKeyRecord> = Vec::new();
        let mut i: usize = 0;
        while i < self.ingress_keys.len()
            invariant
                0 <= i <= self.ingress_keys@.len(),
                out@ == self.ingress_keys@.take(i as int),
            decreases self.ingress_keys@.len() - i,
        {
            out.push(self.ingress_keys[i]);
            proof {
                assert(self.ingress_keys@.take(i + 1) =~= self.ingress_keys@.take(i as int).push(
                    self.ingress_keys@[i as int],
                ));
            }
            i = i + 1;
        }
        proof {
            assert(self.ingress_keys@.take(i as int) =~= self.ingress_keys@);
        }
        out
    }

    /// Number of queued records.
    pub fn queued_records(&self) -> (r: usize)
        requires
            self.wf(),
        ensures
            r == total_records(self.pending()),
    {
        self.fetched_records.queued_records()
    }

    /// Number of queued blocks.
    pub fn num_pending(&self) -> (r: usize)
        ensures
            r == self.pending().len(),
    {
        self.fetched_records.len()
    }

    /// Whether a push may proceed now.
    pub fn has_room(&self) -> (r: bool)
        requires
            self.wf(),
        ensures
            r == (total_records(self.pending()) <= self.max()),
    {
        self.fetched_records.has_room()
    }

    /// Queues `batch` if the queue admits it now; otherwise hands it back.
    pub fn try_push(&mut self, batch: FetchedRecords) -> (r: Result<(), FetchedRecords>)
        requires
            old(self).wf(),
        ensures
            final(self).wf(),
            final(self).keys() == old(self).keys(),
            final(self).max() == old(self).max(),
            r is Ok == admits(
                total_records(old(self).pending()),
                old(self).max(),
                batch.records@.len(),
            ),
            r is Ok ==> final(self).pending() == old(self).pending().push(batch),
            r is Err ==> r->Err_0 == batch && final(self).pending() == old(self).pending(),
    {
        self.fetched_records.try_push(batch)
    }

    /// Removes and returns every queued block, oldest first.
    pub fn get_pending_fetched_records(&mut self) -> (r: Vec<FetchedRecords>)
        requires
            old(self).wf(),
        ensures
            final(self).wf(),
            r@ == old(self).pending(),
            final(self).pending() == Seq::<FetchedRecords>::empty(),
            total_records(final(self).pending()) == 0,
            final(self).keys() == old(self).keys(),
            final(self).max() == old(self).max(),
    {
        self.fetched_records.drain_all()
    }
}

} // verus!
