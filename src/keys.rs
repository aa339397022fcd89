//! Ingress keys and the records the recovery store keeps about them.

use vstd::prelude::*;

verus! {

/// Length in bytes of a compressed ingress public key.
pub const INGRESS_KEY_LEN: usize = 32;

/// The identity of an ingress key: its compressed public-key bytes.
#[derive(Clone, Copy, Debug, Eq)]
pub struct IngressKey {
    pub bytes: [u8; 32],
}

impl View for IngressKey {
    type V = Seq<u8>;

    open spec fn view(&self) -> Seq<u8> {
        self.bytes@
    }
}

impl IngressKey {
    pub fn from_bytes(bytes: [u8; 32]) -> (r: IngressKey)
        ensures
            r.bytes == bytes,
            r@ == bytes@,
    {
        IngressKey { bytes }
    }

    /// Byte-wise comparison of two keys.
    pub fn same_as(&self, other: &IngressKey) -> (r: bool)
        ensures
            r == (self@ == other@),
    {
        let mut i: usize = 0;
        while i < INGRESS_KEY_LEN
            invariant
                0 <= i <= INGRESS_KEY_LEN,
                self@.len() == INGRESS_KEY_LEN,
                other@.len() == INGRESS_KEY_LEN,
                forall|j: int| 0 <= j < i ==> self@[j] == other@[j],
            decreases INGRESS_KEY_LEN - i,
        {
            if self.bytes[i] != other.bytes[i] {
                return false;
            }
            i = i + 1;
        }
        assert(self@ =~= other@);
        true
    }
}

impl PartialEq for IngressKey {
    fn eq(&self, other: &IngressKey) -> (r: bool) {
        self.same_as(other)
    }
}

impl vstd::std_specs::cmp::PartialEqSpecImpl for IngressKey {
    open spec fn obeys_eq_spec() -> bool {
        true
    }

    open spec fn eq_spec(&self, other: &IngressKey) -> bool {
        self@ == other@
    }
}

/// Lifecycle status of an ingress key, as the recovery store reports it.
#[derive(Clone, Copy, Debug, PartialEq, Eq)]
pub struct IngressPublicKeyStatus {
    /// First block this key is responsible for.
    pub start_block: u64,
    /// Exclusive upper bound of the key's validity; 0 while not yet published.
    pub pubkey_expiry: u64,
    /// Whether the key has been retired.
    pub retired: bool,
    /// Whether the key has been reported lost.
    pub lost: bool,
}

/// What the recovery store knows about one ingress key.
#[derive(Clone, Copy, Debug, PartialEq, Eq)]
pub struct IngressPublicKeyRecord {
    pub key: IngressKey,
    pub status: IngressPublicKeyStatus,
    /// Highest block index for which data exists under this key, if any.
    pub last_scanned_block: Option<u64>,
}

/// The first block a key has not scanned yet:
/// `max(start_block, last_scanned_block + 1)`.
pub open spec fn first_unscanned(rec: IngressPublicKeyRecord) -> int {
    match rec.last_scanned_block {
        Some(last) => if last + 1 > rec.status.start_block {
            last + 1
        } else {
            rec.status.start_block as int
        },
        None => rec.status.start_block as int,
    }
}

/// Exclusive upper bound on the block indices that may still be fetched under
/// a key: its expiry once published, one past its last scanned block once it
/// is lost (nothing at all for a lost key that never scanned a block), and
/// `u64::MAX` otherwise, so that one past a fetched index is always a `u64`.
pub open spec fn fetch_limit(rec: IngressPublicKeyRecord) -> int {
    let by_expiry: int = if rec.status.pubkey_expiry > 0 {
        rec.status.pubkey_expiry as int
    } else {
        u64::MAX as int
    };
    let by_loss: int = if rec.status.lost {
        match rec.last_scanned_block {
            Some(last) => last + 1,
            None => 0,
        }
    } else {
        u64::MAX as int
    };
    let lim = if by_expiry < by_loss { by_expiry } else { by_loss };
    if lim < u64::MAX { lim } else { u64::MAX as int }
}

impl IngressPublicKeyRecord {
    /// The first block this key has not scanned yet, or `None` when that
    /// index is past `u64::MAX`.
    pub fn first_unscanned_block(&self) -> (r: Option<u64>)
        ensures
            match r {
                Some(b) => b == first_unscanned(*self),
                None => first_unscanned(*self) > u64::MAX,
            },
    {
        match self.last_scanned_block {
            Some(last) => {
                if last == u64::MAX {
                    None
                } else if last + 1 > self.status.start_block {
                    Some(last + 1)
                } else {
                    Some(self.status.start_block)
                }
            },
            None => Some(self.status.start_block),
        }
    }

    /// Exclusive upper bound on the block indices that may still be fetched
    /// under this key.
    pub fn fetch_limit(&self) -> (r: u64)
        ensures
            r == fetch_limit(*self),
    {
        let by_expiry: u64 = if self.status.pubkey_expiry > 0 {
            self.status.pubkey_expiry
        } else {
            u64::MAX
        };
        let by_loss: u64 = if self.status.lost {
            match self.last_scanned_block {
                Some(last) => if last == u64::MAX {
                    u64::MAX
                } else {
                    last + 1
                },
                None => 0,
            }
        } else {
            u64::MAX
        };
        if by_expiry < by_loss {
            by_expiry
        } else {
            by_loss
        }
    }
}

} // verus!
