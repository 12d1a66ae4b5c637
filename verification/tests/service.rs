use foxglove::service::{
    accept_call, CallId, Schema, Service, ServiceCallRejection, ServiceId, ServiceIdAllocator,
    ServiceMap, ServiceReply, ServiceSchema,
};

fn make_service(name: &str, id: u32) -> Service {
    let mut alloc = ServiceIdAllocator::new();
    Service::builder(&mut alloc, name, ServiceSchema::new("schema"))
        .with_id(ServiceId::new(id))
        .build()
}

#[test]
fn test_service_map() {
    let s1 = make_service("s1", 1);
    let s2 = make_service("s2", 2);
    let s3 = make_service("s3", 3);

    // init
    let mut map = ServiceMap::default();
    assert_eq!(map.values().len(), 0);
    assert!(!map.contains_name("s1"));
    assert!(!map.contains_id(ServiceId::new(1)));
    assert!(map.get_by_id(ServiceId::new(1)).is_none());

    // insert
    map.insert(s1);
    assert_eq!(map.values().len(), 1);
    assert!(map.contains_name("s1"));
    assert!(map.contains_id(ServiceId::new(1)));
    assert!(map.get_by_id(ServiceId::new(1)).is_some());
    assert!(!map.contains_name("s2"));
    assert!(!map.contains_id(ServiceId::new(2)));

    // remove
    assert!(map.remove_by_name("s1").is_some());
    assert!(!map.contains_name("s1"));
    assert!(!map.contains_id(ServiceId::new(1)));

    // insert multiple
    map.insert(s2);
    map.insert(s3);
    assert_eq!(map.values().len(), 2);
    assert!(map.get_by_id(ServiceId::new(1)).is_none());
    assert!(map.get_by_id(ServiceId::new(2)).is_some());
    assert!(map.get_by_id(ServiceId::new(3)).is_some());
}

#[test]
fn test_service_accessors() {
    let schema = ServiceSchema::new("/schema")
        .with_request("json", Schema::new("req", "jsonschema", vec![1, 2]))
        .with_response("json", Schema::new("res", "jsonschema", vec![3]));
    let mut alloc = ServiceIdAllocator::new();
    let s = Service::builder(&mut alloc, "/echo", schema)
        .with_id(ServiceId::new(7))
        .build();
    assert_eq!(s.id().value(), 7);
    assert_eq!(s.name(), "/echo");
    assert_eq!(s.request_encoding(), Some("json"));
    assert_eq!(s.response_encoding(), Some("json"));
    assert_eq!(s.schema().name, "/schema");

    let bare = make_service("bare", 9);
    assert_eq!(bare.request_encoding(), None);
    assert_eq!(bare.response_encoding(), None);
}

#[test]
fn test_service_map_from_iter() {
    let map = ServiceMap::from_iter(vec![make_service("a", 1), make_service("b", 2)]);
    assert!(map.contains_name("a"));
    assert!(map.contains_name("b"));
    assert!(map.contains_id(ServiceId::new(2)));
    assert_eq!(map.values().len(), 2);
}

#[test]
fn test_service_map_reinsert_fresh_id() {
    let mut map = ServiceMap::default();
    map.insert(make_service("echo", 1));
    assert!(map.remove_by_name("echo").is_some());
    map.insert(make_service("echo", 2));
    assert!(map.contains_name("echo"));
    assert!(!map.contains_id(ServiceId::new(1)));
    assert!(map.contains_id(ServiceId::new(2)));
}

#[test]
fn test_accept_call_lifecycle() {
    let mut alloc = ServiceIdAllocator::new();
    let echo = Service::builder(
        &mut alloc,
        "/echo",
        ServiceSchema::new("std_srvs/Echo").with_request("json", Schema::new("r", "jsonschema", vec![])),
    )
    .with_id(ServiceId::new(7))
    .build();
    let mut map = ServiceMap::default();
    map.insert(echo);

    // All four admission conditions hold: the call is accepted.
    let used: Vec<u32> = vec![];
    let fallback: Vec<String> = vec![];
    assert!(
        accept_call(&map, &used, ServiceId::new(7), CallId::new(1), "json", &fallback, true)
            .is_ok()
    );

    // Unknown service id.
    assert_eq!(
        accept_call(&map, &used, ServiceId::new(9), CallId::new(1), "json", &fallback, true),
        Err(ServiceCallRejection::UnknownService)
    );

    // A call id the client already used.
    let used = vec![1u32];
    assert_eq!(
        accept_call(&map, &used, ServiceId::new(7), CallId::new(1), "json", &fallback, true),
        Err(ServiceCallRejection::CallIdReused)
    );

    // A declared encoding that does not match.
    let used: Vec<u32> = vec![];
    assert_eq!(
        accept_call(&map, &used, ServiceId::new(7), CallId::new(2), "cdr", &fallback, true),
        Err(ServiceCallRejection::EncodingMismatch)
    );

    // No permit available.
    assert_eq!(
        accept_call(&map, &used, ServiceId::new(7), CallId::new(2), "json", &fallback, false),
        Err(ServiceCallRejection::Overloaded)
    );

    // A service without a declared request encoding defers to the fallback
    // encodings: the server's configured supported set.
    let mut map = ServiceMap::default();
    map.insert(make_service("/any", 1));
    let fallback = vec!["cdr".to_string()];
    assert!(
        accept_call(&map, &used, ServiceId::new(1), CallId::new(1), "cdr", &fallback, true)
            .is_ok()
    );
    assert_eq!(
        accept_call(&map, &used, ServiceId::new(1), CallId::new(1), "ros1", &fallback, true),
        Err(ServiceCallRejection::EncodingMismatch)
    );

    // After removal, subsequent calls find the service unknown.
    assert!(map.remove_by_name("/any").is_some());
    assert_eq!(
        accept_call(&map, &used, ServiceId::new(1), CallId::new(2), "cdr", &fallback, true),
        Err(ServiceCallRejection::UnknownService)
    );
}

#[test]
fn test_responder_ok_frame() {
    let mut sem = foxglove::semaphore::Semaphore::new(32);
    let guard = sem.try_acquire().unwrap();
    let responder = foxglove::service::Responder::new(
        5,
        ServiceId::new(3),
        CallId::new(7),
        "json",
        guard,
    );
    assert_eq!(responder.client_id(), 5);
    let payload = foxglove::buffer::bytes_from_vec(vec![0x01, 0x02, 0x03]);
    match responder.respond_ok(payload) {
        ServiceReply::Response(frame, guard) => {
            assert_eq!(
                frame,
                vec![
                    0x03, // service-response opcode
                    0x03, 0x00, 0x00, 0x00, // service id
                    0x07, 0x00, 0x00, 0x00, // call id
                    0x04, 0x00, 0x00, 0x00, // encoding length
                    b'j', b's', b'o', b'n', // encoding
                    0x01, 0x02, 0x03, // payload
                ]
            );
            sem.release(guard);
        }
        ServiceReply::Failure(doc, _) => panic!("unexpected failure: {}", doc),
    }
}

#[test]
fn test_responder_err_document() {
    let mut sem = foxglove::semaphore::Semaphore::new(1);
    let guard = sem.try_acquire().unwrap();
    let responder = foxglove::service::Responder::new(
        1,
        ServiceId::new(9),
        CallId::new(2),
        "json",
        guard,
    );
    match responder.respond_err("handler dropped without responding") {
        ServiceReply::Failure(doc, guard) => {
            assert_eq!(
                doc,
                "{\"op\":\"serviceCallFailure\",\"serviceId\":9,\"callId\":2,\
                 \"message\":\"handler dropped without responding\"}"
            );
            sem.release(guard);
        }
        ServiceReply::Response(_, _) => panic!("unexpected response"),
    }
}

#[test]
fn test_service_id_allocation() {
    let mut alloc = ServiceIdAllocator::new();
    assert!(alloc.can_allocate());
    let a = Service::builder(&mut alloc, "/a", ServiceSchema::new("s")).build();
    let b = Service::builder(&mut alloc, "/b", ServiceSchema::new("s")).build();
    // Ids are generated internally: nonzero, unique, monotonically assigned.
    assert_eq!(a.id().value(), 1);
    assert_eq!(b.id().value(), 2);
    assert_ne!(a.id().value(), 0);
    assert_ne!(b.id().value(), 0);
}
