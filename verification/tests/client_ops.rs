use foxglove::client_ops::{parse_subscribe, parse_unsubscribe};

#[test]
fn test_parse_subscribe() {
    let subs =
        parse_subscribe("{\"op\":\"subscribe\",\"subscriptions\":[{\"id\":1,\"channelId\":42}]}")
            .unwrap();
    assert_eq!(subs, vec![(1, 42)]);

    // Whitespace may appear between any tokens, and members in any order.
    let subs = parse_subscribe(
        " { \"subscriptions\" : [ { \"channelId\" : 7 , \"id\" : 2 } , \
         {\"id\":3,\"channelId\":8} ] , \"op\" : \"subscribe\" } ",
    )
    .unwrap();
    assert_eq!(subs, vec![(2, 7), (3, 8)]);

    // An empty subscription list is a valid operation.
    let subs = parse_subscribe("{\"op\":\"subscribe\",\"subscriptions\":[]}").unwrap();
    assert_eq!(subs, vec![]);
}

#[test]
fn test_parse_subscribe_rejects_malformed() {
    // A different operation.
    assert!(parse_subscribe("{\"op\":\"unsubscribe\",\"subscriptions\":[]}").is_none());
    // Trailing content after the document.
    assert!(parse_subscribe("{\"op\":\"subscribe\",\"subscriptions\":[]} x").is_none());
    // A missing member.
    assert!(parse_subscribe("{\"op\":\"subscribe\"}").is_none());
    // JSON forbids leading zeros.
    assert!(
        parse_subscribe("{\"op\":\"subscribe\",\"subscriptions\":[{\"id\":01,\"channelId\":2}]}")
            .is_none()
    );
    // A subscription id beyond its 32-bit wire width.
    assert!(parse_subscribe(
        "{\"op\":\"subscribe\",\"subscriptions\":[{\"id\":4294967296,\"channelId\":2}]}"
    )
    .is_none());
    // A channel id at the 64-bit limit is accepted.
    let subs = parse_subscribe(
        "{\"op\":\"subscribe\",\"subscriptions\":[{\"id\":1,\"channelId\":9999999999999999999}]}",
    )
    .unwrap();
    assert_eq!(subs, vec![(1, 9_999_999_999_999_999_999)]);
    // Not an object at all.
    assert!(parse_subscribe("[]").is_none());
    assert!(parse_subscribe("").is_none());
}

#[test]
fn test_parse_unsubscribe() {
    let ids = parse_unsubscribe("{\"op\":\"unsubscribe\",\"subscriptionIds\":[1,2,3]}").unwrap();
    assert_eq!(ids, vec![1, 2, 3]);

    let ids = parse_unsubscribe(
        " { \"subscriptionIds\" : [ 9 ] , \"op\" : \"unsubscribe\" } ",
    )
    .unwrap();
    assert_eq!(ids, vec![9]);

    let ids = parse_unsubscribe("{\"op\":\"unsubscribe\",\"subscriptionIds\":[]}").unwrap();
    assert_eq!(ids, vec![]);

    assert!(parse_unsubscribe("{\"op\":\"subscribe\",\"subscriptionIds\":[]}").is_none());
    assert!(parse_unsubscribe("{\"op\":\"unsubscribe\",\"subscriptionIds\":[1,]}").is_none());
    assert!(parse_unsubscribe("{\"op\":\"unsubscribe\",\"subscriptionIds\":[4294967296]}")
        .is_none());
}
