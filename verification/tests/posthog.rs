use forwarder::event::{join_headers, request_kind};
use forwarder::openpodcast;
use forwarder::posthog::{Client, ClientConfig, Event, InnerEvent, API_ENDPOINT};
use serde_json::Value;
use std::collections::HashMap;

/// The JSON object that is sent for `inner`.
fn to_json(inner: &InnerEvent) -> Value {
    let mut properties = serde_json::Map::new();
    properties.insert(
        "distinct_id".to_string(),
        Value::String(inner.properties().distinct_id().to_string()),
    );
    for index in 0..inner.properties().len() {
        let (key, value) = inner.properties().entry(index);
        properties.insert(key.to_string(), value.clone());
    }
    let mut object = serde_json::Map::new();
    object.insert("api_key".to_string(), Value::String(inner.api_key().to_string()));
    object.insert("event".to_string(), Value::String(inner.event().to_string()));
    object.insert("properties".to_string(), Value::Object(properties));
    Value::Object(object)
}

#[test]
fn test_create_event() {
    let mut expected_properties = serde_json::Map::new();
    expected_properties.insert("distinct_id".to_string(), Value::String("user1".to_string()));
    expected_properties.insert("client".to_string(), Value::String("Podcast Client".to_string()));
    expected_properties
        .insert("url".to_string(), Value::String("https://www.example.com".to_string()));
    let mut expected = serde_json::Map::new();
    expected.insert("api_key".to_string(), Value::String("api_key".to_string()));
    expected.insert("event".to_string(), Value::String("rss_feed_request".to_string()));
    expected.insert("properties".to_string(), Value::Object(expected_properties));
    let expected = Value::Object(expected);

    let event = Event::new("rss_feed_request", "user1")
        .property("client", serde_json::to_value("Podcast Client"))
        .unwrap()
        .property("url", serde_json::to_value("https://www.example.com"))
        .unwrap();

    let inner_event = InnerEvent::new(event, "api_key".to_string());

    assert_eq!(expected, to_json(&inner_event));
}

#[test]
fn test_child_map() {
    let event = Event::new("rss_feed_request", "user1")
        .property("client", serde_json::to_value("Podcast Client"))
        .unwrap();
    let mut child_map = HashMap::new();
    child_map.insert("child_key1", "child_value1");
    event.property("key3", serde_json::to_value(child_map)).unwrap();
}

#[test]
fn property_set_twice_keeps_the_later_value() {
    let event = Event::new("e", "u")
        .property("k", serde_json::to_value("one"))
        .unwrap()
        .property("other", serde_json::to_value(true))
        .unwrap()
        .property("k", serde_json::to_value("two"))
        .unwrap();
    assert_eq!(event.name(), "e");
    assert_eq!(event.properties().distinct_id(), "u");
    assert_eq!(event.properties().get("k"), Some(&Value::String("two".to_string())));
    assert_eq!(event.properties().get("other"), Some(&Value::Bool(true)));
    assert_eq!(event.properties().get("missing"), None);
}

#[test]
fn property_that_was_refused_gives_the_error() {
    // A map whose keys are no strings is refused by serde_json.
    let mut keys = HashMap::new();
    keys.insert((1, 2), "value");
    let refused = serde_json::to_value(keys);
    assert!(refused.is_err());
    assert!(Event::new("e", "u").property("k", refused).is_err());
}

#[test]
fn client_config_from_a_key_uses_the_usual_endpoint() {
    let config = ClientConfig::from("key");
    assert_eq!(config.api_key(), "key");
    assert_eq!(config.api_endpoint(), API_ENDPOINT);
    assert_eq!(config.api_endpoint(), "https://app.posthog.com/capture/");
    let client = Client::new(ClientConfig::from("other".to_string()));
    assert_eq!(client.config().api_key(), "other");
}

#[test]
fn openpodcast_client_holds_endpoint_and_token() {
    let client = openpodcast::Client::new("https://api.example/events", "secret");
    assert_eq!(client.endpoint(), "https://api.example/events");
    assert_eq!(client.token(), "secret");
    assert_eq!(client.authorization(), "Bearer secret");
}

#[test]
fn request_kind_names_feed_and_download() {
    assert_eq!(request_kind("/".to_string()), "rss");
    assert_eq!(request_kind("/r/episode.mp3".to_string()), "mp3");
    assert_eq!(request_kind("/r/".to_string()), "mp3");
    assert_eq!(request_kind("/version".to_string()), "/version");
    assert_eq!(request_kind("/r".to_string()), "/r");
    assert_eq!(request_kind("".to_string()), "");
}

#[test]
fn headers_are_joined_in_their_order() {
    let headers = vec![
        ("accept".to_string(), "*/*".to_string()),
        ("user-agent".to_string(), "Spotify/1".to_string()),
        ("x".to_string(), "".to_string()),
    ];
    assert_eq!(join_headers(&headers), "accept: */*; user-agent: Spotify/1; x: ");
    assert_eq!(join_headers(&headers[..1].to_vec()), "accept: */*");
    assert_eq!(join_headers(&Vec::new()), "");
}

#[test]
fn settings_are_made_in_their_order() {
    let event = Event::new("e", "u")
        .with_properties(vec![
            ("a".to_string(), serde_json::to_value(1)),
            ("b".to_string(), serde_json::to_value("x")),
            ("a".to_string(), serde_json::to_value(2)),
        ])
        .unwrap();
    assert_eq!(event.properties().get("a"), Some(&Value::from(2)));
    assert_eq!(event.properties().get("b"), Some(&Value::from("x")));
    assert_eq!(event.properties().len(), 3);
    let unchanged = Event::new("e", "u").with_properties(Vec::new()).unwrap();
    assert_eq!(unchanged.properties().len(), 0);
    assert_eq!(unchanged.name(), "e");
}

#[test]
fn first_refused_setting_ends_the_settings() {
    let mut keys = HashMap::new();
    keys.insert((1, 2), "value");
    let outcome = Event::new("e", "u").with_properties(vec![
        ("a".to_string(), serde_json::to_value(1)),
        ("b".to_string(), serde_json::to_value(keys)),
        ("c".to_string(), serde_json::to_value(3)),
    ]);
    assert!(outcome.is_err());
}
