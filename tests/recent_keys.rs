use polkadot_network::{InsertedRecentKey, RecentSessionKeys, SessionKey};

#[test]
fn last_keys_works() {
    let a: SessionKey = [1; 32].into();
    let b: SessionKey = [2; 32].into();
    let c: SessionKey = [3; 32].into();
    let d: SessionKey = [4; 32].into();

    let mut recent = RecentSessionKeys::default();

    match recent.insert(a) {
        InsertedRecentKey::New(None) => {},
        _ => panic!("is new, not at capacity"),
    }

    match recent.insert(a) {
        InsertedRecentKey::AlreadyKnown => {},
        _ => panic!("not new"),
    }

    match recent.insert(b) {
        InsertedRecentKey::New(None) => {},
        _ => panic!("is new, not at capacity"),
    }

    match recent.insert(b) {
        InsertedRecentKey::AlreadyKnown => {},
        _ => panic!("not new"),
    }

    match recent.insert(c) {
        InsertedRecentKey::New(None) => {},
        _ => panic!("is new, not at capacity"),
    }

    match recent.insert(c) {
        InsertedRecentKey::AlreadyKnown => {},
        _ => panic!("not new"),
    }

    match recent.insert(d) {
        InsertedRecentKey::New(Some(old)) => assert_eq!(old, a),
        _ => panic!("is new, and at capacity"),
    }

    match recent.insert(d) {
        InsertedRecentKey::AlreadyKnown => {},
        _ => panic!("not new"),
    }
}

#[test]
fn recent_keys_keep_insertion_order_and_evict_oldest() {
    let mut recent = RecentSessionKeys::new();
    for k in 1u8..=5 {
        recent.insert([k; 32]);
    }
    assert_eq!(recent.as_slice(), &[[3u8; 32], [4u8; 32], [5u8; 32]][..]);
    match recent.insert([3; 32]) {
        InsertedRecentKey::AlreadyKnown => {},
        _ => panic!("not new"),
    }
    assert_eq!(recent.as_slice().len(), 3);
    assert!(recent.contains(&[4; 32]));
    assert!(!recent.contains(&[1; 32]));
}

#[test]
fn recent_keys_remove_is_idempotent() {
    let mut recent = RecentSessionKeys::new();
    recent.insert([1; 32]);
    recent.insert([2; 32]);
    recent.remove(&[1; 32]);
    assert_eq!(recent.as_slice(), &[[2u8; 32]][..]);
    recent.remove(&[1; 32]);
    assert_eq!(recent.as_slice(), &[[2u8; 32]][..]);
    recent.remove(&[9; 32]);
    assert_eq!(recent.as_slice(), &[[2u8; 32]][..]);
}
