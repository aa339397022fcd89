use fog_view_fetcher::health::HealthTracker;
use fog_view_fetcher::keys::{IngressKey, IngressPublicKeyRecord, IngressPublicKeyStatus};
use fog_view_fetcher::tx::{
    Range, TxHash, TxOutMembershipElement, TxOutMembershipHash, TxOutMembershipProof, TX_HASH_LEN,
};

#[test]
fn tx_hash_bytes() {
    let mut bytes = [0u8; 32];
    for (i, b) in bytes.iter_mut().enumerate() {
        *b = i as u8;
    }
    let h = TxHash(bytes);
    assert_eq!(h.to_vec(), bytes.to_vec());
    assert_eq!(h.as_bytes(), &bytes);
    assert_eq!(TxHash::from(bytes), h);
    assert_eq!(TxHash::from_slice(&bytes[..]), Ok(h));
    assert_eq!(TxHash::from_slice(&bytes[..31]), Err(()));
    assert_eq!(TxHash::from_slice(&[0u8; 33][..]), Err(()));
    assert_eq!(TX_HASH_LEN, 32);
}

#[test]
fn membership_values() {
    let hash = [7u8; 32];
    let e = TxOutMembershipElement::new(Range::new(4, 7), hash);
    assert_eq!(e.range, Range { from: 4, to: 7 });
    assert_eq!(e.hash, TxOutMembershipHash(hash));
    assert_eq!(e.hash.to_vec(), vec![7u8; 32]);
    assert_eq!(TxOutMembershipHash::from([1u8; 32]).to_vec(), vec![1u8; 32]);
    let p = TxOutMembershipProof::new(5, 9, vec![e, e]);
    assert_eq!(p.index, 5);
    assert_eq!(p.highest_index, 9);
    assert_eq!(p.elements, vec![e, e]);
}

#[test]
fn health_heals_after_enough_transfers() {
    let mut t = HealthTracker::new(3);
    assert!(t.is_healthy());
    t.set_counter(4);
    assert!(t.is_healthy());
    t.announce_failure();
    assert!(!t.is_healthy());
    t.set_counter(5);
    assert!(!t.is_healthy());
    t.set_counter(7);
    assert!(!t.is_healthy());
    t.set_counter(8);
    assert!(t.is_healthy());
    assert_eq!(t.counter(), 8);
    t.announce_failure();
    assert!(!t.is_healthy());
    t.set_counter(11);
    assert!(!t.is_healthy());
    t.set_counter(12);
    assert!(t.is_healthy());
}

#[test]
fn ingress_key_equality_is_by_bytes() {
    let mut b = [5u8; 32];
    let a = IngressKey::from_bytes(b);
    assert_eq!(a, IngressKey::from_bytes(b));
    b[31] = 6;
    assert_ne!(a, IngressKey::from_bytes(b));
    assert!(a.same_as(&IngressKey::from_bytes([5u8; 32])));
}

#[test]
fn first_unscanned_and_fetch_limit() {
    let mut r = IngressPublicKeyRecord {
        key: IngressKey::from_bytes([1; 32]),
        status: IngressPublicKeyStatus { start_block: 10, pubkey_expiry: 0, retired: false, lost: false },
        last_scanned_block: None,
    };
    assert_eq!(r.first_unscanned_block(), Some(10));
    assert_eq!(r.fetch_limit(), u64::MAX);
    r.last_scanned_block = Some(u64::MAX);
    assert_eq!(r.first_unscanned_block(), None);
    r.last_scanned_block = Some(40);
    r.status.pubkey_expiry = 45;
    assert_eq!(r.first_unscanned_block(), Some(41));
    assert_eq!(r.fetch_limit(), 45);
    r.status.lost = true;
    assert_eq!(r.fetch_limit(), 41);
}
