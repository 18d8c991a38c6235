use polkadot_network::{compute_ingress, H256, IngressComputer, Message, ParaId};

// A commitment over a batch for the tests: BLAKE2b-256 of the messages, each
// preceded by its length.
fn queue_root(messages: &[Message]) -> H256 {
    let mut v = Vec::new();
    for m in messages {
        v.extend_from_slice(&(m.0.len() as u32).to_le_bytes());
        v.extend_from_slice(&m.0);
    }
    let mut out = [0u8; 32];
    out.copy_from_slice(blake2_rfc::blake2b::blake2b(32, &[], &v).as_bytes());
    out
}

fn with_roots(items: &[(ParaId, Vec<Message>)]) -> Vec<(ParaId, Vec<Message>, H256)> {
    items.iter().map(|(id, b)| (*id, b.clone(), queue_root(b))).collect()
}

#[test]
fn compute_ingress_works() {
    let actual_messages = [
        (
            1,
            vec![Message(vec![1, 3, 5, 6]), Message(vec![4, 4, 4, 4])],
        ),
        (
            2,
            vec![
                Message(vec![1, 3, 7, 9, 1, 2, 3, 4, 5, 6]),
                Message(b"hello world".to_vec()),
            ],
        ),
        (
            5,
            vec![Message(vec![1, 2, 3, 4, 5]), Message(vec![6, 9, 6, 9])],
        ),
    ];

    let roots: Vec<(ParaId, H256)> = actual_messages.iter()
        .map(|(para_id, messages)| (*para_id, queue_root(messages)))
        .collect();

    let inputs = [
        (
            1, // wrong message.
            vec![Message(vec![1, 1, 2, 2]), Message(vec![3, 3, 4, 4])],
        ),
        (
            1,
            vec![Message(vec![1, 3, 5, 6]), Message(vec![4, 4, 4, 4])],
        ),
        (
            1, // duplicate
            vec![Message(vec![1, 3, 5, 6]), Message(vec![4, 4, 4, 4])],
        ),

        (
            5, // out of order
            vec![Message(vec![1, 2, 3, 4, 5]), Message(vec![6, 9, 6, 9])],
        ),
        (
            1234, // un-routed parachain.
            vec![Message(vec![9, 9, 9, 9])],
        ),
        (
            2,
            vec![
                Message(vec![1, 3, 7, 9, 1, 2, 3, 4, 5, 6]),
                Message(b"hello world".to_vec()),
            ],
        ),
    ];

    let ingress = compute_ingress(roots, with_roots(&inputs));
    assert_eq!(ingress.unwrap(), actual_messages);
}

#[test]
fn ingress_happy_path_with_noise() {
    let b1 = vec![Message(vec![1, 1])];
    let b2 = vec![Message(vec![2]), Message(vec![2, 2])];
    let roots = vec![(2, queue_root(&b2)), (1, queue_root(&b1))];
    let stream = vec![
        (2, b2.clone(), queue_root(&b2)),
        (99, vec![Message(vec![7])], queue_root(&[Message(vec![7])])),
        (1, vec![Message(vec![0])], queue_root(&[Message(vec![0])])),
        (1, b1.clone(), queue_root(&b1)),
    ];
    assert_eq!(compute_ingress(roots, stream), Some(vec![(1, b1), (2, b2)]));
}

#[test]
fn ingress_redelivery_does_not_change_accumulator() {
    let b1 = vec![Message(vec![1])];
    let b2 = vec![Message(vec![2])];
    let mut c = IngressComputer::new(vec![(1, queue_root(&b1)), (2, queue_root(&b2))]);
    assert!(c.offer(1, b1.clone(), &queue_root(&b1)));
    assert!(!c.offer(1, b1.clone(), &queue_root(&b1)));
    assert!(!c.is_complete());
    assert!(c.offer(2, b2.clone(), &queue_root(&b2)));
    assert!(c.is_complete());
    assert!(!c.offer(2, b2.clone(), &queue_root(&b2)));
    assert_eq!(c.finish(), vec![(1, b1), (2, b2)]);
}

#[test]
fn ingress_incomplete_stream_gives_none() {
    let b1 = vec![Message(vec![1])];
    let b2 = vec![Message(vec![2])];
    let roots = vec![(1, queue_root(&b1)), (2, queue_root(&b2))];
    let stream = vec![(1, b1.clone(), queue_root(&b1)), (1, b1.clone(), queue_root(&b1))];
    assert_eq!(compute_ingress(roots, stream), None);
}

#[test]
fn ingress_with_no_expected_roots_completes_at_once() {
    let stream = vec![(3, vec![Message(vec![3])], [0u8; 32])];
    assert_eq!(compute_ingress(Vec::new(), stream), Some(Vec::new()));
    assert_eq!(compute_ingress(Vec::new(), Vec::new()), Some(Vec::new()));
}

#[test]
fn ingress_later_root_for_same_para_replaces_earlier() {
    let b = vec![Message(vec![5])];
    let roots = vec![(5, [0u8; 32]), (5, queue_root(&b))];
    let stream = vec![(5, b.clone(), queue_root(&b))];
    assert_eq!(compute_ingress(roots, stream), Some(vec![(5, b)]));
}
