//! Transaction hashes and Merkle proof-of-membership values for transaction
//! outputs.

use vstd::prelude::*;

verus! {

/// Transaction hash length, in bytes.
pub const TX_HASH_LEN: usize = 32;

/// Hash of a transaction.
#[derive(Clone, Copy, Debug, PartialEq, Eq, PartialOrd, Ord, Hash, Default)]
pub struct TxHash(pub [u8; 32]);

fn bytes_to_vec(bytes: &[u8; 32]) -> (r: Vec<u8>)
    ensures
        r@ == bytes@,
{
    let mut out: Vec<u8> = Vec::new();
    let mut i: usize = 0;
    while i < 32
        invariant
            0 <= i <= 32,
            bytes@.len() == 32,
            out@ == bytes@.take(i as int),
        decreases 32 - i,
    {
        out.push(bytes[i]);
        proof {
            assert(bytes@.take(i + 1) =~= bytes@.take(i as int).push(bytes@[i as int]));
        }
        i = i + 1;
    }
    proof {
        assert(bytes@.take(32) =~= bytes@);
    }
    out
}

impl TxHash {
    /// Copies the hash bytes into a new vector.
    pub fn to_vec(&self) -> (r: Vec<u8>)
        ensures
            r@ == self.0@,
    {
        bytes_to_vec(&self.0)
    }

    /// The underlying byte array.
    pub fn as_bytes(&self) -> (r: &[u8; 32])
        ensures
            *r == self.0,
    {
        &self.0
    }

    /// The hash with the given bytes, or `Err(())` unless there are exactly
    /// `TX_HASH_LEN` of them.
    pub fn from_slice(src: &[u8]) -> (r: Result<TxHash, ()>)
        ensures
            r is Ok == (src@.len() == TX_HASH_LEN),
            r matches Ok(h) ==> h.0@ == src@,
    {
        if src.len() != TX_HASH_LEN {
            return Err(());
        }
        let mut bytes = [0u8; 32];
        let mut i: usize = 0;
        while i < TX_HASH_LEN
            invariant
                0 <= i <= TX_HASH_LEN,
                src@.len() == TX_HASH_LEN,
                bytes@.len() == TX_HASH_LEN,
                forall|j: int| 0 <= j < i ==> bytes@[j] == src@[j],
            decreases TX_HASH_LEN - i,
        {
            bytes[i] = src[i];
            i = i + 1;
        }
        proof {
            assert(bytes@ =~= src@);
        }
        Ok(TxHash(bytes))
    }
}

impl From<[u8; 32]> for TxHash {
    fn from(a: [u8; 32]) -> (r: TxHash) {
        TxHash(a)
    }
}

impl vstd::std_specs::convert::FromSpecImpl<[u8; 32]> for TxHash {
    open spec fn obeys_from_spec() -> bool {
        true
    }

    open spec fn from_spec(a: [u8; 32]) -> TxHash {
        TxHash(a)
    }
}

/// A range of leaf indices `[from, to]` of the TxOut Merkle tree.
#[derive(Clone, Copy, Debug, PartialEq, Eq, PartialOrd, Ord, Hash, Default)]
pub struct Range {
    pub from: u64,
    pub to: u64,
}

impl Range {
    pub fn new(from: u64, to: u64) -> (r: Range)
        ensures
            r.from == from,
            r.to == to,
    {
        Range { from, to }
    }
}

/// A hash in a TxOut membership proof.
#[derive(Clone, Copy, Debug, PartialEq, Eq, PartialOrd, Ord, Hash, Default)]
pub struct TxOutMembershipHash(pub [u8; 32]);

impl TxOutMembershipHash {
    /// Copies the hash bytes into a new vector.
    pub fn to_vec(&self) -> (r: Vec<u8>)
        ensures
            r@ == self.0@,
    {
        bytes_to_vec(&self.0)
    }
}

impl From<[u8; 32]> for TxOutMembershipHash {
    fn from(src: [u8; 32]) -> (r: TxOutMembershipHash) {
        TxOutMembershipHash(src)
    }
}

impl vstd::std_specs::convert::FromSpecImpl<[u8; 32]> for TxOutMembershipHash {
    open spec fn obeys_from_spec() -> bool {
        true
    }

    open spec fn from_spec(src: [u8; 32]) -> TxOutMembershipHash {
        TxOutMembershipHash(src)
    }
}

/// An element of a TxOut membership proof: an internal hash node of the
/// Merkle tree and the range of leaves under it.
#[derive(Clone, Copy, Debug, PartialEq, Eq, PartialOrd, Ord, Hash)]
pub struct TxOutMembershipElement {
    /// The range of leaf nodes under this internal hash.
    pub range: Range,
    /// The internal hash value.
    pub hash: TxOutMembershipHash,
}

impl TxOutMembershipElement {
    /// A membership element for `range` with hash bytes `hash`.
    pub fn new(range: Range, hash: [u8; 32]) -> (r: TxOutMembershipElement)
        ensures
            r.range == range,
            r.hash.0 == hash,
    {
        TxOutMembershipElement { range, hash: TxOutMembershipHash(hash) }
    }
}

/// A Merkle proof-of-membership for the TxOut at `index`, in a tree whose
/// last TxOut is at `highest_index`.
#[derive(Clone, Debug, PartialEq, Eq)]
pub struct TxOutMembershipProof {
    /// Index of the TxOut this proof refers to.
    pub index: u64,
    /// Index of the last TxOut at the time the proof was created.
    pub highest_index: u64,
    /// The hashes needed to recompute the root hash, in the order in which
    /// they are combined.
    pub elements: Vec<TxOutMembershipElement>,
}

impl TxOutMembershipProof {
    /// A proof for the TxOut at `index` in a tree whose last TxOut is at
    /// `highest_index`, from `elements` in the order they are combined.
    pub fn new(index: u64, highest_index: u64, elements: Vec<TxOutMembershipElement>) -> (r:
        TxOutMembershipProof)
        ensures
            r.index == index,
            r.highest_index == highest_index,
            r.elements@ == elements@,
    {
        TxOutMembershipProof { index, highest_index, elements }
    }
}

} // verus!
