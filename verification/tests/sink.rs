use foxglove::sink::{
    resolve_metadata, Channel, ChannelIdAllocator, LogContext, LogSink, Metadata, PartialMetadata,
};
use foxglove::FoxgloveError;
use std::sync::Mutex;

#[test]
fn test_routing_table() {
    let mut ctx = LogContext::new();

    // Attaching a sink reports the channels to announce to it.
    let announce = ctx.add_sink(10).unwrap();
    assert!(announce.is_empty());
    // An already-attached sink is left alone.
    assert!(ctx.add_sink(10).is_none());

    // Registering a channel reports the sinks to announce it to.
    let sinks = ctx.register_channel(1).unwrap();
    assert_eq!(sinks, vec![10]);
    assert!(ctx.register_channel(1).is_none());

    // A late-attached sink is told about the live channels.
    let announce = ctx.add_sink(11).unwrap();
    assert_eq!(announce, vec![1]);

    // A published message reaches every attached sink exactly once.
    assert_eq!(ctx.dispatch(1), vec![10, 11]);
    // A message on an unknown channel reaches nothing.
    assert!(ctx.dispatch(99).is_empty());

    // Detaching reports the channels to retract.
    let retract = ctx.remove_sink(10).unwrap();
    assert_eq!(retract, vec![1]);
    assert!(ctx.remove_sink(10).is_none());
    assert_eq!(ctx.dispatch(1), vec![11]);

    let retract = ctx.deregister_channel(1).unwrap();
    assert_eq!(retract, vec![11]);
    assert!(ctx.deregister_channel(1).is_none());
    assert!(ctx.dispatch(1).is_empty());
}

struct RecordingSink {
    records: Mutex<Vec<(u64, Vec<u8>, u64)>>,
}

impl LogSink for RecordingSink {
    fn log(&self, channel: &Channel, msg: &[u8], metadata: &Metadata) -> Result<(), FoxgloveError> {
        self.records
            .lock()
            .unwrap()
            .push((channel.id, msg.to_vec(), metadata.log_time));
        Ok(())
    }
}

#[test]
fn test_log_sink_trait_defaults() {
    let sink = RecordingSink {
        records: Mutex::new(Vec::new()),
    };
    let channel = Channel {
        id: 7,
        topic: "/t".to_string(),
        message_encoding: "json".to_string(),
        schema: None,
    };
    // The optional callbacks default to no-ops, and close to success.
    sink.add_channel(&channel);
    sink.remove_channel(&channel);
    assert!(sink.close().is_ok());

    let meta = Metadata {
        sequence: 0,
        log_time: 123,
        publish_time: 123,
    };
    sink.log(&channel, b"{\"k\":\"v\"}", &meta).unwrap();
    let records = sink.records.lock().unwrap();
    assert_eq!(records.len(), 1);
    assert_eq!(records[0], (7, b"{\"k\":\"v\"}".to_vec(), 123));
}

#[test]
fn test_channel_identity_allocation() {
    let mut alloc = ChannelIdAllocator::new();
    let a = Channel::new(&mut alloc, "/a", "json", None).unwrap();
    let b = Channel::new(&mut alloc, "/a", "json", None).unwrap();
    // Identities are monotonically assigned and unique, even for equal topics.
    assert_eq!(a.id, 1);
    assert_eq!(b.id, 2);
    assert_eq!(a.topic, "/a");
    assert_eq!(b.message_encoding, "json");
}

#[test]
fn test_resolve_metadata_defaults() {
    // Nothing supplied: log time falls back to now, publish time to the log
    // time, and the sequence to the channel counter.
    let m = resolve_metadata(
        PartialMetadata {
            sequence: None,
            log_time: None,
            publish_time: None,
        },
        1_000,
        5,
    );
    assert_eq!((m.sequence, m.log_time, m.publish_time), (5, 1_000, 1_000));

    // A supplied log time also backs the publish time.
    let m = resolve_metadata(
        PartialMetadata {
            sequence: Some(9),
            log_time: Some(42),
            publish_time: None,
        },
        1_000,
        5,
    );
    assert_eq!((m.sequence, m.log_time, m.publish_time), (9, 42, 42));

    // Supplied values win.
    let m = resolve_metadata(
        PartialMetadata {
            sequence: Some(1),
            log_time: Some(2),
            publish_time: Some(3),
        },
        1_000,
        5,
    );
    assert_eq!((m.sequence, m.log_time, m.publish_time), (1, 2, 3));
}
