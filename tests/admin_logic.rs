use kafka_cli::config::parse_properties;
use kafka_cli::messages::{message_of_line, reached_limit};
use kafka_cli::topics::{
    alter_entries, config_resource, topic_requested, user_topics, ConfigResource, ConfigResourceError,
};

#[test]
fn topic_resource_in_any_case() {
    match config_resource("TOPICS", "orders") {
        Ok(ConfigResource::Topic(n)) => assert_eq!(n, "orders"),
        other => panic!("unexpected {:?}", other),
    }
    match config_resource("Topic", "t") {
        Ok(ConfigResource::Topic(n)) => assert_eq!(n, "t"),
        other => panic!("unexpected {:?}", other),
    }
}

#[test]
fn broker_resource_needs_numeric_id() {
    match config_resource("broker", "5") {
        Ok(ConfigResource::Broker(id)) => assert_eq!(id, 5),
        other => panic!("unexpected {:?}", other),
    }
    match config_resource("Brokers", "-12") {
        Ok(ConfigResource::Broker(id)) => assert_eq!(id, -12),
        other => panic!("unexpected {:?}", other),
    }
    assert!(matches!(config_resource("broker", "x1"), Err(ConfigResourceError::InvalidBrokerId)));
    assert!(matches!(config_resource("broker", "99999999999"), Err(ConfigResourceError::InvalidBrokerId)));
}

#[test]
fn other_entity_types_are_refused() {
    assert!(matches!(config_resource("clients", "c"), Err(ConfigResourceError::UnsupportedEntityType)));
}

#[test]
fn alter_entries_delete_with_empty_value() {
    let set = parse_properties(&["retention.ms=100".to_string(), "cleanup.policy=compact".to_string()]);
    let r = alter_entries(&set, &["cleanup.policy".to_string(), "segment.ms".to_string()]);
    let get = |k: &str| r.entries.iter().rev().find(|(key, _)| key == k).map(|(_, v)| v.clone());
    assert_eq!(get("retention.ms"), Some("100".to_string()));
    assert_eq!(get("cleanup.policy"), Some(String::new()));
    assert_eq!(get("segment.ms"), Some(String::new()));
}

#[test]
fn internal_topics_are_not_listed() {
    let names = vec!["__consumer_offsets".to_string(), "orders".to_string(), "_x".to_string()];
    assert_eq!(user_topics(&names), vec!["orders".to_string(), "_x".to_string()]);
}

#[test]
fn no_topic_names_means_all() {
    assert!(topic_requested(&vec![], "orders"));
    let names = vec!["orders".to_string()];
    assert!(topic_requested(&names, "orders"));
    assert!(!topic_requested(&names, "billing"));
}

#[test]
fn message_line_splits_at_first_separator() {
    assert_eq!(
        message_of_line("k1\tv1\tmore", None),
        Some((Some("k1".to_string()), "v1\tmore".to_string()))
    );
    assert_eq!(message_of_line("no separator", None), Some((None, "no separator".to_string())));
    assert_eq!(
        message_of_line("user::hello", Some("::")),
        Some((Some("user".to_string()), "hello".to_string()))
    );
    assert_eq!(message_of_line("", None), None);
}

#[test]
fn consumer_stops_only_at_the_given_maximum() {
    assert!(!reached_limit(4, Some(5)));
    assert!(reached_limit(5, Some(5)));
    assert!(!reached_limit(1_000, None));
}
