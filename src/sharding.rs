//! Which (ingress key, block index) pairs this server replica is responsible
//! for.

use vstd::prelude::*;
use crate::keys::IngressKey;

verus! {

/// A sharding policy: decides whether this replica processes the block at a
/// given index under a given ingress key. Deciding has no side effects.
pub trait ShardingStrategy {
    /// Whether this replica is responsible for `block_index` under `key`.
    spec fn responsible(&self, key: Seq<u8>, block_index: u64) -> bool;

    fn is_responsible(&self, key: &IngressKey, block_index: u64) -> (r: bool)
        ensures
            r == self.responsible(key@, block_index),
    ;
}

/// Responsible for every key over one contiguous range of blocks
/// `[start_block, end_block)`.
#[derive(Clone, Copy, Debug, PartialEq, Eq)]
pub struct EpochShardingStrategy {
    pub start_block: u64,
    pub end_block: u64,
}

impl EpochShardingStrategy {
    pub fn new(start_block: u64, end_block: u64) -> (r: EpochShardingStrategy)
        ensures
            r.start_block == start_block,
            r.end_block == end_block,
    {
        EpochShardingStrategy { start_block, end_block }
    }
}

impl Default for EpochShardingStrategy {
    /// Responsible for every block up to `u64::MAX`.
    fn default() -> (r: EpochShardingStrategy)
        ensures
            r.start_block == 0,
            r.end_block == u64::MAX,
    {
        EpochShardingStrategy { start_block: 0, end_block: u64::MAX }
    }
}

impl ShardingStrategy for EpochShardingStrategy {
    open spec fn responsible(&self, key: Seq<u8>, block_index: u64) -> bool {
        self.start_block <= block_index && block_index < self.end_block
    }

    fn is_responsible(&self, key: &IngressKey, block_index: u64) -> (r: bool) {
        self.start_block <= block_index && block_index < self.end_block
    }
}

} // verus!
