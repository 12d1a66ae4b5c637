use foxglove::client::ClientSession;

#[test]
fn test_subscribe_and_fan_out() {
    let mut c = ClientSession::new(1, 16);
    assert!(c.subscribe(1, 42));
    // A reused subscription id is rejected.
    assert!(!c.subscribe(1, 43));

    // Fan-out filters by the subscription set.
    let frame = c.message_frame(42, 7, &vec![0xDE, 0xAD]).unwrap();
    assert_eq!(
        frame,
        vec![
            0x01, // message-data opcode
            0x01, 0x00, 0x00, 0x00, // subscription id 1, LE
            0x07, 0x00, 0x00, 0x00, 0x00, 0x00, 0x00, 0x00, // log time 7, LE
            0xDE, 0xAD,
        ]
    );
    assert!(c.message_frame(43, 7, &vec![1]).is_none());

    assert!(c.unsubscribe(1));
    assert!(!c.unsubscribe(1));
    assert!(c.message_frame(42, 7, &vec![1]).is_none());
}

#[test]
fn test_queue_drop_oldest() {
    let mut c = ClientSession::new(1, 4);
    let mut dropped_count = 0;
    for i in 0..100u8 {
        if c.enqueue(vec![i]) {
            dropped_count += 1;
        }
    }
    // Publishing never blocked, and the client keeps exactly the newest
    // `capacity` frames, in order.
    let frames = c.take_outbound();
    assert_eq!(frames, vec![vec![96], vec![97], vec![98], vec![99]]);
    assert_eq!(dropped_count, 96);
    assert!(c.take_outbound().is_empty());
}

#[test]
fn test_queue_below_capacity_keeps_all() {
    let mut c = ClientSession::new(9, 8);
    assert_eq!(c.id(), 9);
    assert!(!c.enqueue(vec![1, 2]));
    assert!(!c.enqueue(vec![3]));
    assert_eq!(c.take_outbound(), vec![vec![1, 2], vec![3]]);
}

#[test]
fn test_connection_graph_subscription() {
    let mut c = ClientSession::new(3, 4);
    // A fresh client gets no connection-graph updates.
    assert!(!c.wants_connection_graph());
    c.subscribe_connection_graph();
    assert!(c.wants_connection_graph());
    c.unsubscribe_connection_graph();
    assert!(!c.wants_connection_graph());
}
