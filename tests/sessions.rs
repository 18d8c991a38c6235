use polkadot_network::{
    incoming_message_topic, ConsensusParams, IncomingFetch, Knowledge, LiveConsensusInstances, Statement,
};

fn params(key: Option<u8>, parent: u8) -> ConsensusParams {
    ConsensusParams { local_session_key: key.map(|k| [k; 32]), parent_hash: [parent; 32] }
}

#[test]
fn session_reuse_reports_no_key_the_second_time() {
    let mut live = LiveConsensusInstances::new();
    assert_eq!(live.new_consensus(params(Some(1), 10)), Some([1; 32]));
    assert_eq!(live.new_consensus(params(Some(2), 10)), None);
    assert_eq!(live.recent_keys(), &[[1u8; 32]][..]);
    // the session is the first one: what it knows stays reachable.
    assert!(live.note_statement(&[10; 32], [7; 32], &Statement::Valid([5; 32])));
    let (fetcher, key) = live.instantiate_consensus(params(Some(3), 10));
    assert_eq!(key, None);
    assert_eq!(fetcher.parent_hash(), [10; 32]);
    match live.with_block_data(&[10; 32], &[5; 32]) {
        Err(Some(peers)) => assert_eq!(peers, &[[7u8; 32]][..]),
        _ => panic!("session is live and the data not held"),
    }
}

#[test]
fn known_key_is_not_broadcast_again() {
    let mut live = LiveConsensusInstances::new();
    assert_eq!(live.new_consensus(params(Some(1), 10)), Some([1; 32]));
    assert_eq!(live.new_consensus(params(Some(1), 11)), None);
    assert_eq!(live.new_consensus(params(None, 12)), None);
}

#[test]
fn key_retained_while_used_by_another_session() {
    let mut live = LiveConsensusInstances::new();
    live.new_consensus(params(Some(1), 10));
    live.new_consensus(params(Some(1), 11));
    live.remove(&[10; 32]);
    assert_eq!(live.recent_keys(), &[[1u8; 32]][..]);
    live.remove(&[11; 32]);
    assert!(live.recent_keys().is_empty());
    // removing an unknown session changes nothing.
    live.new_consensus(params(Some(2), 12));
    live.remove(&[99; 32]);
    assert_eq!(live.recent_keys(), &[[2u8; 32]][..]);
}

#[test]
fn with_block_data_distinguishes_unknown_session() {
    let live = LiveConsensusInstances::new();
    assert!(matches!(live.with_block_data(&[1; 32], &[2; 32]), Err(None)));
    let mut live = LiveConsensusInstances::new();
    live.new_consensus(params(None, 1));
    match live.with_block_data(&[1; 32], &[2; 32]) {
        Err(Some(peers)) => assert!(peers.is_empty()),
        _ => panic!("session is live, candidate unknown"),
    }
    assert!(!live.note_statement(&[3; 32], [7; 32], &Statement::Valid([2; 32])));
}

#[test]
fn statements_record_knowledge() {
    let mut k = Knowledge::new();
    let c: [u8; 32] = [9; 32];
    k.note_statement([1; 32], &Statement::Candidate(c));
    k.note_statement([2; 32], &Statement::Valid(c));
    k.note_statement([3; 32], &Statement::Invalid(c));
    k.note_statement([2; 32], &Statement::Valid(c));
    match k.with_block_data(&c) {
        Err(peers) => assert_eq!(peers, &[[1u8; 32], [2; 32], [3; 32], [2; 32]][..]),
        Ok(_) => panic!("no data held"),
    }
    assert_eq!(k.extrinsic_holders(&c), vec![[1u8; 32], [2; 32], [2; 32]]);
    k.note_candidate(c, Some(vec![1, 2, 3]), None);
    k.note_candidate(c, Some(vec![4]), Some(vec![5]));
    match k.with_block_data(&c) {
        Ok(d) => assert_eq!(d, &vec![1u8, 2, 3]),
        Err(_) => panic!("data held"),
    }
    match k.with_block_data(&[8; 32]) {
        Err(peers) => assert!(peers.is_empty()),
        Ok(_) => panic!("unknown candidate"),
    }
}

#[test]
fn invalid_statement_records_block_data_only() {
    let mut k = Knowledge::new();
    k.note_statement([3; 32], &Statement::Invalid([1; 32]));
    assert!(k.extrinsic_holders(&[1; 32]).is_empty());
    match k.with_block_data(&[1; 32]) {
        Err(peers) => assert_eq!(peers, &[[3u8; 32]][..]),
        Ok(_) => panic!("no data held"),
    }
}

#[test]
fn topic_is_hash_of_parent_para_and_suffix() {
    let parent = [7u8; 32];
    let t = incoming_message_topic(parent, 0x0102_0304);
    let mut v = parent.to_vec();
    v.extend_from_slice(&[4, 3, 2, 1]);
    v.extend_from_slice(b"incoming");
    assert_eq!(&t[..], blake2_rfc::blake2b::blake2b(32, &[], &v).as_bytes());
    assert_eq!(t, incoming_message_topic(parent, 0x0102_0304));
    assert_ne!(t, incoming_message_topic(parent, 0x0102_0305));
    assert_ne!(t, incoming_message_topic([8; 32], 0x0102_0304));
    assert_ne!(t, parent);
}

#[test]
fn fetch_incoming_is_shared_and_release_drops_topics() {
    let mut live = LiveConsensusInstances::new();
    let (fetcher, _) = live.instantiate_consensus(params(Some(1), 10));
    let copy = fetcher;
    match fetcher.fetch_incoming(&mut live, 5) {
        IncomingFetch::Start(t) => assert_eq!(t, incoming_message_topic([10; 32], 5)),
        _ => panic!("first request starts the fetch"),
    }
    assert!(matches!(copy.fetch_incoming(&mut live, 5), IncomingFetch::Shared));
    assert!(matches!(fetcher.fetch_incoming(&mut live, 6), IncomingFetch::Start(_)));
    let topics = copy.release(&mut live);
    assert_eq!(topics, vec![incoming_message_topic([10; 32], 5), incoming_message_topic([10; 32], 6)]);
    assert!(live.recent_keys().is_empty());
    assert!(fetcher.release(&mut live).is_empty());
    assert!(matches!(fetcher.fetch_incoming(&mut live, 5), IncomingFetch::NoSession));
}

#[test]
fn note_candidate_in_session_serves_block_data_locally() {
    let mut live = LiveConsensusInstances::new();
    live.new_consensus(params(None, 1));
    assert!(live.note_candidate(&[1; 32], [4; 32], Some(vec![9, 9]), None));
    assert!(live.note_candidate(&[1; 32], [4; 32], Some(vec![1]), Some(vec![2])));
    match live.with_block_data(&[1; 32], &[4; 32]) {
        Ok(d) => assert_eq!(d, &vec![9u8, 9]),
        _ => panic!("data held locally"),
    }
    assert!(!live.note_candidate(&[2; 32], [4; 32], Some(vec![1]), None));
}
