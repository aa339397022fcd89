//! Per-ingress-key fetch progress: which block to request next for each key.

use vstd::prelude::*;
use crate::keys::{first_unscanned, fetch_limit, IngressKey, IngressPublicKeyRecord};
use crate::sharding::ShardingStrategy;

verus! {

/// The first record in `recs` that belongs to key `k`.
pub open spec fn first_record(recs: Seq<IngressPublicKeyRecord>, k: Seq<u8>) -> Option<
    IngressPublicKeyRecord,
>
    decreases recs.len(),
{
    if recs.len() == 0 {
        None
    } else {
        match first_record(recs.drop_last(), k) {
            Some(r) => Some(r),
            None => if recs.last().key@ == k {
                Some(recs.last())
            } else {
                None
            },
        }
    }
}

/// The next block to request under `rec`'s key: the remembered index when the
/// key is known, else the first block the key has not scanned yet.
pub open spec fn candidate(progress: Map<Seq<u8>, u64>, rec: IngressPublicKeyRecord) -> int {
    if progress.contains_key(rec.key@) {
        progress[rec.key@] as int
    } else {
        first_unscanned(rec)
    }
}

/// Progress after a planning pass over `recs`: a key that `recs` does not
/// list is forgotten, and each listed key is remembered at its candidate index.
pub open spec fn replanned(progress: Map<Seq<u8>, u64>, recs: Seq<IngressPublicKeyRecord>) -> Map<
    Seq<u8>,
    u64,
> {
    Map::new(
        |k: Seq<u8>|
            first_record(recs, k) is Some && candidate(progress, first_record(recs, k)->0)
                <= u64::MAX,
        |k: Seq<u8>| candidate(progress, first_record(recs, k)->0) as u64,
    )
}

/// Whether a fetch is due for `rec`'s key: its candidate index is still in
/// the key's fetchable range and this replica is responsible for it.
pub open spec fn wanted<SS: ShardingStrategy>(
    ss: SS,
    progress: Map<Seq<u8>, u64>,
    rec: IngressPublicKeyRecord,
) -> bool {
    candidate(progress, rec) < fetch_limit(rec) && ss.responsible(
        rec.key@,
        candidate(progress, rec) as u64,
    )
}

/// The (key, next block) pairs a planning pass hands out, in the order of the
/// first record of each key.
pub open spec fn planned<SS: ShardingStrategy>(
    ss: SS,
    progress: Map<Seq<u8>, u64>,
    recs: Seq<IngressPublicKeyRecord>,
) -> Seq<(IngressKey, u64)>
    decreases recs.len(),
{
    if recs.len() == 0 {
        Seq::empty()
    } else {
        let rest = planned(ss, progress, recs.drop_last());
        let rec = recs.last();
        if first_record(recs.drop_last(), rec.key@) is None && wanted(ss, progress, rec) {
            rest.push((rec.key, candidate(progress, rec) as u64))
        } else {
            rest
        }
    }
}

spec fn distinct_keys(s: Seq<(IngressKey, u64)>) -> bool {
    forall|i: int, j: int|
        0 <= i < s.len() && 0 <= j < s.len() && i != j ==> s[i].0@ != s[j].0@
}

spec fn entries_map(s: Seq<(IngressKey, u64)>) -> Map<Seq<u8>, u64> {
    Map::new(
        |k: Seq<u8>| exists|i: int| 0 <= i < s.len() && s[i].0@ == k,
        |k: Seq<u8>| s[choose|i: int| 0 <= i < s.len() && s[i].0@ == k].1,
    )
}

proof fn lemma_entries_map_at(s: Seq<(IngressKey, u64)>, i: int)
    requires
        distinct_keys(s),
        0 <= i < s.len(),
    ensures
        entries_map(s).contains_key(s[i].0@),
        entries_map(s)[s[i].0@] == s[i].1,
{
    let k = s[i].0@;
    assert(exists|j: int| 0 <= j < s.len() && s[j].0@ == k);
    let j = choose|j: int| 0 <= j < s.len() && s[j].0@ == k;
    assert(j == i);
}

proof fn lemma_entries_map_push(s: Seq<(IngressKey, u64)>, key: IngressKey, v: u64)
    requires
        distinct_keys(s),
        !entries_map(s).contains_key(key@),
    ensures
        distinct_keys(s.push((key, v))),
        entries_map(s.push((key, v))) == entries_map(s).insert(key@, v),
{
    let t = s.push((key, v));
    assert forall|i: int| 0 <= i < s.len() implies s[i].0@ != key@ by {
        if s[i].0@ == key@ {
            assert(entries_map(s).contains_key(key@));
        }
    }
    assert(distinct_keys(t));
    assert forall|k: Seq<u8>| #[trigger]
        entries_map(t).contains_key(k) == entries_map(s).insert(key@, v).contains_key(k) by {
        if k != key@ && entries_map(t).contains_key(k) {
            let j = choose|j: int| 0 <= j < t.len() && t[j].0@ == k;
            assert(s[j].0@ == k);
        }
        if k == key@ {
            assert(t[s.len() as int].0@ == k);
        }
        if entries_map(s).contains_key(k) {
            let j = choose|j: int| 0 <= j < s.len() && s[j].0@ == k;
            assert(t[j].0@ == k);
        }
    }
    assert forall|k: Seq<u8>| #[trigger] entries_map(t).contains_key(k) implies entries_map(t)[k]
        == entries_map(s).insert(key@, v)[k] by {
        if k == key@ {
            lemma_entries_map_at(t, s.len() as int);
        } else {
            let j = choose|j: int| 0 <= j < t.len() && t[j].0@ == k;
            lemma_entries_map_at(t, j);
            lemma_entries_map_at(s, j);
        }
    }
    assert(entries_map(t) =~= entries_map(s).insert(key@, v));
}

proof fn lemma_entries_map_update(s: Seq<(IngressKey, u64)>, i: int, key: IngressKey, v: u64)
    requires
        distinct_keys(s),
        0 <= i < s.len(),
        s[i].0@ == key@,
    ensures
        distinct_keys(s.update(i, (key, v))),
        entries_map(s.update(i, (key, v))) == entries_map(s).insert(key@, v),
{
    let t = s.update(i, (key, v));
    assert(distinct_keys(t));
    assert forall|k: Seq<u8>| #[trigger]
        entries_map(t).contains_key(k) == entries_map(s).insert(key@, v).contains_key(k) by {
        if entries_map(t).contains_key(k) {
            let j = choose|j: int| 0 <= j < t.len() && t[j].0@ == k;
            assert(s[j].0@ == k);
        }
        if k == key@ {
            assert(t[i].0@ == k);
        }
        if entries_map(s).contains_key(k) {
            let j = choose|j: int| 0 <= j < s.len() && s[j].0@ == k;
            assert(t[j].0@ == k);
        }
    }
    assert forall|k: Seq<u8>| #[trigger] entries_map(t).contains_key(k) implies entries_map(t)[k]
        == entries_map(s).insert(key@, v)[k] by {
        let j = choose|j: int| 0 <= j < t.len() && t[j].0@ == k;
        lemma_entries_map_at(t, j);
        lemma_entries_map_at(s, j);
    }
    assert(entries_map(t) =~= entries_map(s).insert(key@, v));
}

/// The first record of a key exists exactly when some record has that key,
/// and it has that key.
pub proof fn lemma_first_record(recs: Seq<IngressPublicKeyRecord>, k: Seq<u8>)
    ensures
        (first_record(recs, k) is Some) == (exists|j: int|
            0 <= j < recs.len() && recs[j].key@ == k),
        first_record(recs, k) is Some ==> first_record(recs, k)->0.key@ == k,
    decreases recs.len(),
{
    if recs.len() > 0 {
        let pre = recs.drop_last();
        lemma_first_record(pre, k);
        if exists|j: int| 0 <= j < pre.len() && pre[j].key@ == k {
            let j = choose|j: int| 0 <= j < pre.len() && pre[j].key@ == k;
            assert(recs[j].key@ == k);
        }
        if exists|j: int| 0 <= j < recs.len() && recs[j].key@ == k {
            let j = choose|j: int| 0 <= j < recs.len() && recs[j].key@ == k;
            if j < pre.len() {
                assert(pre[j].key@ == k);
            }
        }
    }
}

proof fn lemma_plan_step<SS: ShardingStrategy>(
    ss: SS,
    progress: Map<Seq<u8>, u64>,
    recs: Seq<IngressPublicKeyRecord>,
    i: int,
)
    requires
        0 <= i < recs.len(),
    ensures
        ({
            let rec = recs[i];
            let pre = recs.take(i);
            let post = recs.take(i + 1);
            &&& first_record(pre, rec.key@) is Some ==> replanned(progress, post) == replanned(
                progress,
                pre,
            ) && planned(ss, progress, post) == planned(ss, progress, pre)
            &&& first_record(pre, rec.key@) is None && candidate(progress, rec) <= u64::MAX
                ==> replanned(progress, post) == replanned(progress, pre).insert(
                rec.key@,
                candidate(progress, rec) as u64,
            )
            &&& first_record(pre, rec.key@) is None && candidate(progress, rec) > u64::MAX
                ==> replanned(progress, post) == replanned(progress, pre)
            &&& first_record(pre, rec.key@) is None ==> planned(ss, progress, post) == if wanted(
                ss,
                progress,
                rec,
            ) {
                planned(ss, progress, pre).push((rec.key, candidate(progress, rec) as u64))
            } else {
                planned(ss, progress, pre)
            }
        }),
{
    let rec = recs[i];
    let pre = recs.take(i);
    let post = recs.take(i + 1);
    assert(post.drop_last() =~= pre);
    assert(post.last() == rec);
    assert forall|k: Seq<u8>| k != rec.key@ implies first_record(post, k) == first_record(
        pre,
        k,
    ) by {}
    if first_record(pre, rec.key@) is Some {
        assert(replanned(progress, post) =~= replanned(progress, pre));
    } else if candidate(progress, rec) <= u64::MAX {
        assert(replanned(progress, post) =~= replanned(progress, pre).insert(
            rec.key@,
            candidate(progress, rec) as u64,
        ));
    } else {
        assert(replanned(progress, post) =~= replanned(progress, pre));
    }
}

/// Keys are planned independently: whether and where a key is remembered
/// after a planning pass depends only on its own first record and its own
/// remembered index, never on other keys' records or progress.
pub proof fn lemma_plan_per_key(
    progress1: Map<Seq<u8>, u64>,
    progress2: Map<Seq<u8>, u64>,
    recs1: Seq<IngressPublicKeyRecord>,
    recs2: Seq<IngressPublicKeyRecord>,
    k: Seq<u8>,
)
    requires
        first_record(recs1, k) == first_record(recs2, k),
        progress1.contains_key(k) == progress2.contains_key(k),
        progress1.contains_key(k) ==> progress1[k] == progress2[k],
    ensures
        replanned(progress1, recs1).contains_key(k) == replanned(progress2, recs2).contains_key(k),
        replanned(progress1, recs1).contains_key(k) ==> replanned(progress1, recs1)[k]
            == replanned(progress2, recs2)[k],
{
    lemma_first_record(recs1, k);
}

/// Tracks, for each ingress key, the next block index to request, together
/// with the sharding policy that decides which blocks this replica handles.
pub struct BlockTracker<SS: ShardingStrategy> {
    next_block_per_ingress_key: Vec<(IngressKey, u64)>,
    sharding_strategy: SS,
}

impl<SS: ShardingStrategy> BlockTracker<SS> {
    /// Each key appears at most once.
    pub closed spec fn wf(&self) -> bool {
        distinct_keys(self.next_block_per_ingress_key@)
    }

    /// The remembered next block index of each key.
    pub closed spec fn progress(&self) -> Map<Seq<u8>, u64> {
        entries_map(self.next_block_per_ingress_key@)
    }

    pub closed spec fn strategy(&self) -> SS {
        self.sharding_strategy
    }

    /// A tracker that tracks no key yet.
    pub fn new(sharding_strategy: SS) -> (r: BlockTracker<SS>)
        ensures
            r.wf(),
            r.progress() == Map::<Seq<u8>, u64>::empty(),
            r.strategy() == sharding_strategy,
    {
        let r = BlockTracker { next_block_per_ingress_key: Vec::new(), sharding_strategy };
        assert(r.progress() =~= Map::<Seq<u8>, u64>::empty());
        r
    }

    pub fn sharding_strategy(&self) -> (r: &SS)
        ensures
            *r == self.strategy(),
    {
        &self.sharding_strategy
    }

    fn position_of(&self, key: &IngressKey) -> (r: Option<usize>)
        requires
            self.wf(),
        ensures
            match r {
                Some(i) => i < self.next_block_per_ingress_key@.len()
                    && self.next_block_per_ingress_key@[i as int].0@ == key@,
                None => !self.progress().contains_key(key@),
            },
    {
        let mut i: usize = 0;
        while i < self.next_block_per_ingress_key.len()
            invariant
                0 <= i <= self.next_block_per_ingress_key@.len(),
                forall|j: int| 0 <= j < i ==> self.next_block_per_ingress_key@[j].0@ != key@,
            decreases self.next_block_per_ingress_key@.len() - i,
        {
            if self.next_block_per_ingress_key[i].0 == *key {
                return Some(i);
            }
            i = i + 1;
        }
        None
    }

    /// The remembered next block index of `key`, if there is one.
    pub fn next_block_of(&self, key: &IngressKey) -> (r: Option<u64>)
        requires
            self.wf(),
        ensures
            r == (if self.progress().contains_key(key@) {
                Some(self.progress()[key@])
            } else {
                None
            }),
    {
        match self.position_of(key) {
            Some(i) => {
                proof {
                    lemma_entries_map_at(self.next_block_per_ingress_key@, i as int);
                }
                Some(self.next_block_per_ingress_key[i].1)
            },
            None => None,
        }
    }

    /// Plans one fetch cycle over the known key records.
    ///
    /// Each key is decided by its first record: its candidate index is the
    /// remembered one when there is one (so a stale `last_scanned_block`
    /// never moves it back), else `max(start_block, last_scanned_block + 1)`.
    /// Listed keys are then remembered at their candidate index and unlisted
    /// keys are forgotten. A key is handed out with its candidate index when
    /// that index is below the key's fetch limit and this replica is
    /// responsible for it.
    pub fn next_blocks(&mut self, ingress_key_records: &Vec<IngressPublicKeyRecord>) -> (r: Vec<
        (IngressKey, u64),
    >)
        requires
            old(self).wf(),
        ensures
            final(self).wf(),
            final(self).strategy() == old(self).strategy(),
            final(self).progress() == replanned(old(self).progress(), ingress_key_records@),
            r@ == planned(old(self).strategy(), old(self).progress(), ingress_key_records@),
    {
        let ghost progress = self.progress();
        let ghost recs = ingress_key_records@;
        let mut kept: Vec<(IngressKey, u64)> = Vec::new();
        let mut out: Vec<(IngressKey, u64)> = Vec::new();
        let mut i: usize = 0;
        proof {
            assert(entries_map(kept@) =~= replanned(progress, recs.take(0)));
            assert(recs.take(0) =~= Seq::<IngressPublicKeyRecord>::empty());
        }
        while i < ingress_key_records.len()
            invariant
                0 <= i <= recs.len(),
                recs == ingress_key_records@,
                self.wf(),
                self.progress() == progress,
                distinct_keys(kept@),
                entries_map(kept@) == replanned(progress, recs.take(i as int)),
                out@ == planned(self.strategy(), progress, recs.take(i as int)),
            decreases recs.len() - i,
        {
            let rec = ingress_key_records[i];
            proof {
                lemma_plan_step(self.strategy(), progress, recs, i as int);
                lemma_first_record(recs.take(i as int), rec.key@);
            }
            let mut seen = false;
            let mut j: usize = 0;
            while j < i
                invariant
                    0 <= j <= i < recs.len(),
                    recs == ingress_key_records@,
                    rec == recs[i as int],
                    seen == exists|m: int| 0 <= m < j && recs[m].key@ == rec.key@,
                decreases i - j,
            {
                if ingress_key_records[j].key == rec.key {
                    seen = true;
                }
                j = j + 1;
            }
            proof {
                assert(seen == exists|m: int|
                    0 <= m < recs.take(i as int).len() && recs.take(i as int)[m].key@
                        == rec.key@) by {
                    if seen {
                        let m = choose|m: int| 0 <= m < i && recs[m].key@ == rec.key@;
                        assert(recs.take(i as int)[m].key@ == rec.key@);
                    }
                }
            }
            if !seen {
                let cand: Option<u64> = match self.position_of(&rec.key) {
                    Some(p) => {
                        proof {
                            lemma_entries_map_at(self.next_block_per_ingress_key@, p as int);
                        }
                        Some(self.next_block_per_ingress_key[p].1)
                    },
                    None => rec.first_unscanned_block(),
                };
                if let Some(c) = cand {
                    proof {
                        lemma_entries_map_push(kept@, rec.key, c);
                    }
                    kept.push((rec.key, c));
                    if c < rec.fetch_limit() && self.sharding_strategy.is_responsible(&rec.key, c) {
                        out.push((rec.key, c));
                    }
                }
            }
            i = i + 1;
        }
        proof {
            assert(recs.take(recs.len() as int) =~= recs);
        }
        self.next_block_per_ingress_key = kept;
        out
    }

    /// Records that `block_index` was fetched under `key`: the key's next
    /// block becomes `block_index + 1`, whether or not this replica handles
    /// the block. Returns whether it does.
    pub fn block_processed(&mut self, key: &IngressKey, block_index: u64) -> (r: bool)
        requires
            old(self).wf(),
            block_index < u64::MAX,
        ensures
            final(self).wf(),
            final(self).strategy() == old(self).strategy(),
            final(self).progress() == old(self).progress().insert(key@, (block_index + 1) as u64),
            r == old(self).strategy().responsible(key@, block_index),
    {
        let next = block_index + 1;
        match self.position_of(key) {
            Some(p) => {
                proof {
                    lemma_entries_map_update(self.next_block_per_ingress_key@, p as int, *key, next);
                }
                self.next_block_per_ingress_key[p] = (*key, next);
            },
            None => {
                proof {
                    lemma_entries_map_push(self.next_block_per_ingress_key@, *key, next);
                }
                self.next_block_per_ingress_key.push((*key, next));
            },
        }
        self.sharding_strategy.is_responsible(key, block_index)
    }
}

} // verus!
