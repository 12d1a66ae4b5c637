use foxglove::connection_graph::ConnectionGraph;
use foxglove::server::{
    Capability, FoxgloveWebSocketServer, Parameter, ParameterValue, Status, StatusLevel,
    WebSocketServer,
};
use foxglove::server::{
    encode_channel_advertise, encode_channel_unadvertise, ClientOperation,
};
use foxglove::service::{
    CallId, Schema, Service, ServiceCallRejection, ServiceId, ServiceIdAllocator, ServiceSchema,
};
use foxglove::sink::{Channel, ChannelIdAllocator};
use foxglove::FoxgloveError;

fn make_service(name: &str, id: u32) -> Service {
    let mut alloc = ServiceIdAllocator::new();
    Service::builder(&mut alloc, name, ServiceSchema::new("schema"))
        .with_id(ServiceId::new(id))
        .build()
}

#[test]
fn test_builder_into_handle() {
    let server = WebSocketServer::new()
        .name("unit-test")
        .bind("127.0.0.1", 9999)
        .capabilities(vec![Capability::Time, Capability::Services])
        .supported_encodings(vec!["json".to_string()])
        .session_id("sess-1")
        .services(vec![make_service("/echo", 1)]);
    let handle = server.into_handle().unwrap();
    let info = handle.server_info();
    assert_eq!(
        info,
        "{\"op\":\"serverInfo\",\"name\":\"unit-test\",\
         \"capabilities\":[\"time\",\"services\"],\
         \"supportedEncodings\":[\"json\"],\
         \"metadata\":{},\"sessionId\":\"sess-1\"}"
    );
    assert_eq!(handle.services().len(), 1);
    assert_eq!(handle.services()[0].name(), "/echo");
}

#[test]
fn test_services_capability_added_automatically() {
    let server = WebSocketServer::new()
        .session_id("s")
        .services(vec![make_service("/a", 1)]);
    let handle = server.into_handle().unwrap();
    assert!(handle.server_info().contains("\"services\""));
}

#[test]
fn test_services_redefinition_last_wins() {
    let server = WebSocketServer::new()
        .session_id("s")
        .services(vec![make_service("/a", 1), make_service("/a", 2)]);
    let handle = server.into_handle().unwrap();
    assert_eq!(handle.services().len(), 1);
    assert_eq!(handle.services()[0].id().value(), 2);
}

#[test]
fn test_into_handle_duplicate_id() {
    let server = WebSocketServer::new()
        .session_id("s")
        .services(vec![make_service("/a", 1), make_service("/b", 1)]);
    assert_eq!(server.into_handle().unwrap_err(), FoxgloveError::DuplicateService);
}

#[test]
fn test_add_remove_services() {
    let server = WebSocketServer::new()
        .session_id("s")
        .capabilities(vec![Capability::Services]);
    let mut handle = server.into_handle().unwrap();
    let ad = handle
        .add_services(vec![make_service("/a", 1), make_service("/b", 2)])
        .unwrap();
    assert_eq!(
        ad,
        "{\"op\":\"advertiseServices\",\"services\":[\
         {\"id\":1,\"name\":\"/a\",\"type\":\"schema\"},\
         {\"id\":2,\"name\":\"/b\",\"type\":\"schema\"}]}"
    );
    assert_eq!(handle.services().len(), 2);

    // A colliding name is refused whole, changing nothing.
    assert_eq!(
        handle.add_services(vec![make_service("/a", 3)]),
        Err(FoxgloveError::DuplicateService)
    );
    assert_eq!(handle.services().len(), 2);

    let unad = handle.remove_services(vec![ServiceId::new(1)]);
    assert_eq!(unad, "{\"op\":\"unadvertiseServices\",\"serviceIds\":[1]}");
    assert_eq!(handle.services().len(), 1);
    assert_eq!(handle.services()[0].name(), "/b");

    // A fresh id under the removed name is accepted again.
    assert!(handle.add_services(vec![make_service("/a", 3)]).is_ok());
    assert_eq!(handle.services().len(), 2);
}

#[test]
fn test_add_services_without_capability() {
    let server = WebSocketServer::new().session_id("s");
    let mut handle = server.into_handle().unwrap();
    assert_eq!(
        handle.add_services(vec![make_service("/a", 1)]),
        Err(FoxgloveError::ServicesNotSupported)
    );
}

#[test]
fn test_broadcast_time() {
    let with_time = WebSocketServer::new()
        .session_id("s")
        .capabilities(vec![Capability::Time])
        .into_handle()
        .unwrap();
    let frame = with_time.broadcast_time(0x0102030405060708).unwrap();
    assert_eq!(
        frame,
        vec![0x02, 0x08, 0x07, 0x06, 0x05, 0x04, 0x03, 0x02, 0x01]
    );

    let without_time = WebSocketServer::new().session_id("s").into_handle().unwrap();
    assert!(without_time.broadcast_time(1).is_none());
}

#[test]
fn test_clear_session() {
    let mut handle = WebSocketServer::new()
        .name("n")
        .session_id("v1")
        .into_handle()
        .unwrap();
    let info = handle.clear_session(Some("v2".to_string()));
    assert!(info.contains("\"sessionId\":\"v2\""));
    assert!(info.contains("\"op\":\"serverInfo\""));

    // With no id given, a fresh wall-clock id is generated: a decimal string.
    let info2 = handle.clear_session(None);
    let sid = info2
        .rsplit("\"sessionId\":\"")
        .next()
        .unwrap()
        .trim_end_matches("\"}");
    assert!(sid.parse::<u64>().is_ok());
}

#[test]
fn test_publish_status() {
    let handle = WebSocketServer::new().session_id("s").into_handle().unwrap();
    let status = Status::new(StatusLevel::Warning, "message queue overflow");
    assert_eq!(
        handle.publish_status(&status),
        "{\"op\":\"status\",\"level\":1,\"message\":\"message queue overflow\"}"
    );
    let status = Status::new(StatusLevel::Error, "bad \"frame\"").with_id("e1");
    assert_eq!(
        handle.publish_status(&status),
        "{\"op\":\"status\",\"level\":2,\"message\":\"bad \\\"frame\\\"\",\"id\":\"e1\"}"
    );
    assert_eq!(
        handle.remove_status(vec!["e1".to_string()]),
        "{\"op\":\"removeStatus\",\"statusIds\":[\"e1\"]}"
    );
}

#[test]
fn test_publish_parameter_values() {
    let handle = WebSocketServer::new()
        .session_id("s")
        .capabilities(vec![Capability::Parameters])
        .into_handle()
        .unwrap();
    let params = vec![
        Parameter {
            name: "count".to_string(),
            value: Some(ParameterValue::Integer(-42)),
        },
        Parameter {
            name: "label".to_string(),
            value: Some(ParameterValue::Text("on".to_string())),
        },
        Parameter {
            name: "flag".to_string(),
            value: Some(ParameterValue::Bool(true)),
        },
        Parameter {
            name: "gone".to_string(),
            value: None,
        },
    ];
    let doc = handle.publish_parameter_values(params).unwrap();
    assert_eq!(
        doc,
        "{\"op\":\"parameterValues\",\"parameters\":[\
         {\"name\":\"count\",\"value\":-42},\
         {\"name\":\"label\",\"value\":\"on\"},\
         {\"name\":\"flag\",\"value\":true},\
         {\"name\":\"gone\"}]}"
    );
    let parsed: serde_json::Value = serde_json::from_str(&doc).unwrap();
    assert_eq!(parsed["parameters"][0]["value"], -42);

    let no_cap = WebSocketServer::new().session_id("s").into_handle().unwrap();
    assert!(no_cap.publish_parameter_values(vec![]).is_none());
}

#[test]
fn test_publish_connection_graph() {
    let mut handle = WebSocketServer::new()
        .session_id("s")
        .capabilities(vec![Capability::ConnectionGraph])
        .into_handle()
        .unwrap();
    let mut g = ConnectionGraph::new();
    g.published_topics.insert("/t", vec!["p1".to_string()]);
    let doc = handle.publish_connection_graph(g).unwrap();
    assert!(doc.contains("\"publishedTopics\":[{\"name\":\"/t\",\"publisherIds\":[\"p1\"]}]"));

    let mut no_cap = WebSocketServer::new().session_id("s").into_handle().unwrap();
    assert_eq!(
        no_cap.publish_connection_graph(ConnectionGraph::new()).unwrap_err(),
        FoxgloveError::ConnectionGraphNotSupported
    );
}

#[test]
fn test_foxglove_websocket_server_lifecycle() {
    let server = WebSocketServer::new().session_id("s").name("c-api");
    let mut wrapper = FoxgloveWebSocketServer::new(server);
    assert!(wrapper.start().is_ok());
    wrapper.stop();
}

#[test]
fn test_check_client_capability() {
    let handle = WebSocketServer::new()
        .session_id("s")
        .capabilities(vec![Capability::ClientPublish])
        .into_handle()
        .unwrap();
    // Subscription management needs no capability.
    assert!(handle.check_client_capability(ClientOperation::Subscribe).is_none());
    // Client publishing was advertised.
    assert!(handle
        .check_client_capability(ClientOperation::ClientMessageData)
        .is_none());
    // Service calls were not: the request is rejected with an error status.
    let status = handle
        .check_client_capability(ClientOperation::ServiceCallRequest)
        .unwrap();
    assert_eq!(
        status,
        "{\"op\":\"status\",\"level\":2,\"message\":\"capability not granted: services\"}"
    );
}

#[test]
fn test_encoding_supported() {
    let handle = WebSocketServer::new()
        .session_id("s")
        .supported_encodings(vec!["json".to_string(), "cdr".to_string()])
        .into_handle()
        .unwrap();
    assert!(handle.encoding_supported("json"));
    assert!(handle.encoding_supported("cdr"));
    assert!(!handle.encoding_supported("ros1"));
}

#[test]
fn test_accept_client_call_uses_supported_encodings() {
    // The called service declares no request encoding: the configured
    // supported encodings decide.
    let handle = WebSocketServer::new()
        .session_id("s")
        .capabilities(vec![Capability::Services])
        .supported_encodings(vec!["json".to_string()])
        .services(vec![make_service("/echo", 1)])
        .into_handle()
        .unwrap();
    let used: Vec<u32> = vec![];
    assert!(handle
        .accept_client_call(&used, ServiceId::new(1), CallId::new(1), "json", true)
        .is_ok());
    assert_eq!(
        handle.accept_client_call(&used, ServiceId::new(1), CallId::new(1), "cdr", true),
        Err(ServiceCallRejection::EncodingMismatch)
    );
}

#[test]
fn test_channel_advertise_documents() {
    let mut alloc = ChannelIdAllocator::new();
    let plain = Channel::new(&mut alloc, "/t", "json", None).unwrap();
    assert_eq!(
        encode_channel_advertise(&plain, ""),
        "{\"op\":\"advertise\",\"channels\":[{\"id\":1,\"topic\":\"/t\",\"encoding\":\"json\"}]}"
    );
    let schema = Schema::new("my-schema", "jsonschema", vec![]);
    let with_schema = Channel::new(&mut alloc, "/u", "json", Some(schema)).unwrap();
    assert_eq!(
        encode_channel_advertise(&with_schema, "{\"type\":\"object\"}"),
        "{\"op\":\"advertise\",\"channels\":[{\"id\":2,\"topic\":\"/u\",\"encoding\":\"json\",\
         \"schemaName\":\"my-schema\",\"schemaEncoding\":\"jsonschema\",\
         \"schema\":\"{\\\"type\\\":\\\"object\\\"}\"}]}"
    );
    assert_eq!(
        encode_channel_unadvertise(2),
        "{\"op\":\"unadvertise\",\"channelIds\":[2]}"
    );
}

#[test]
fn test_default_session_id_is_wall_clock() {
    // The generated session id is a decimal count, never empty.
    let handle = WebSocketServer::new().into_handle().unwrap();
    let info = handle.server_info();
    let sid = info
        .rsplit("\"sessionId\":\"")
        .next()
        .unwrap()
        .trim_end_matches("\"}");
    assert!(!sid.is_empty());
    assert!(sid.parse::<u64>().is_ok());
}
