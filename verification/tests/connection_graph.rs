use foxglove::connection_graph::ConnectionGraph;

fn graph_with_pub(topic: &str, ids: &[&str]) -> ConnectionGraph {
    let mut g = ConnectionGraph::new();
    g.published_topics
        .insert(topic, ids.iter().map(|s| s.to_string()).collect());
    g
}

#[test]
fn test_update_add_then_remove_then_idle() {
    let mut state = ConnectionGraph::new();

    let d1 = state.update(graph_with_pub("/a", &["p1"]));
    assert_eq!(
        d1,
        "{\"op\":\"connectionGraphUpdate\",\
         \"publishedTopics\":[{\"name\":\"/a\",\"publisherIds\":[\"p1\"]}],\
         \"subscribedTopics\":[],\
         \"advertisedServices\":[],\
         \"removedTopics\":[],\
         \"removedServices\":[]}"
    );

    let d2 = state.update(ConnectionGraph::new());
    assert_eq!(
        d2,
        "{\"op\":\"connectionGraphUpdate\",\
         \"publishedTopics\":[],\
         \"subscribedTopics\":[],\
         \"advertisedServices\":[],\
         \"removedTopics\":[\"/a\"],\
         \"removedServices\":[]}"
    );

    let d3 = state.update(ConnectionGraph::new());
    assert_eq!(
        d3,
        "{\"op\":\"connectionGraphUpdate\",\
         \"publishedTopics\":[],\
         \"subscribedTopics\":[],\
         \"advertisedServices\":[],\
         \"removedTopics\":[],\
         \"removedServices\":[]}"
    );
}

#[test]
fn test_update_identical_snapshot_is_empty() {
    let mut state = ConnectionGraph::new();
    state.update(graph_with_pub("/t", &["p1", "p2"]));
    let d = state.update(graph_with_pub("/t", &["p1", "p2"]));
    assert_eq!(
        d,
        "{\"op\":\"connectionGraphUpdate\",\
         \"publishedTopics\":[],\
         \"subscribedTopics\":[],\
         \"advertisedServices\":[],\
         \"removedTopics\":[],\
         \"removedServices\":[]}"
    );
}

#[test]
fn test_update_set_equality_ignores_order() {
    let mut state = ConnectionGraph::new();
    state.update(graph_with_pub("/t", &["p1", "p2"]));
    // Same id set in a different order: no change is reported.
    let d = state.update(graph_with_pub("/t", &["p2", "p1"]));
    assert!(d.contains("\"publishedTopics\":[]"));
}

#[test]
fn test_update_services_and_subscriptions() {
    let mut state = ConnectionGraph::new();
    let mut g = ConnectionGraph::new();
    g.subscribed_topics.insert("/s", vec!["c1".to_string()]);
    g.advertised_services.insert("/echo", vec!["svc".to_string()]);
    let d = state.update(g);
    assert_eq!(
        d,
        "{\"op\":\"connectionGraphUpdate\",\
         \"publishedTopics\":[],\
         \"subscribedTopics\":[{\"name\":\"/s\",\"subscriberIds\":[\"c1\"]}],\
         \"advertisedServices\":[{\"name\":\"/echo\",\"providerIds\":[\"svc\"]}],\
         \"removedTopics\":[],\
         \"removedServices\":[]}"
    );

    let d2 = state.update(ConnectionGraph::new());
    assert_eq!(
        d2,
        "{\"op\":\"connectionGraphUpdate\",\
         \"publishedTopics\":[],\
         \"subscribedTopics\":[],\
         \"advertisedServices\":[],\
         \"removedTopics\":[\"/s\"],\
         \"removedServices\":[\"/echo\"]}"
    );
}

#[test]
fn test_diff_json_escapes_names() {
    let mut state = ConnectionGraph::new();
    let d = state.update(graph_with_pub("/a\"b\\c", &["p\n1"]));
    assert!(d.contains("{\"name\":\"/a\\\"b\\\\c\",\"publisherIds\":[\"p\\n1\"]}"));
    // The output remains parseable JSON.
    let parsed: serde_json::Value = serde_json::from_str(&d).unwrap();
    assert_eq!(parsed["publishedTopics"][0]["name"], "/a\"b\\c");
    assert_eq!(parsed["publishedTopics"][0]["publisherIds"][0], "p\n1");
    assert_eq!(parsed["op"], "connectionGraphUpdate");
}

#[test]
fn test_map_of_sets_get_and_replace() {
    let mut g = ConnectionGraph::new();
    g.published_topics.insert("/t", vec!["a".to_string()]);
    g.published_topics.insert("/t", vec!["b".to_string()]);
    assert!(g.published_topics.contains_key("/t"));
    assert!(!g.published_topics.contains_key("/u"));
    let ids = g.published_topics.get("/t").unwrap();
    assert_eq!(ids, &vec!["b".to_string()]);
}
