use kafka_cli::config::{
    build_client_config, get_consumer_config, get_consumer_config_cli, get_producer_config, parse_config_lines,
    parse_properties, Settings,
};

fn get(s: &Settings, key: &str) -> Option<String> {
    s.entries.iter().rev().find(|(k, _)| k == key).map(|(_, v)| v.clone())
}

fn strings(v: &[&str]) -> Vec<String> {
    v.iter().map(|s| s.to_string()).collect()
}

#[test]
fn properties_are_trimmed_and_later_ones_win() {
    let s = parse_properties(&strings(&[" retention.ms = 1000 ", "a=b=c", "noequals", "retention.ms=2000"]));
    assert_eq!(get(&s, "retention.ms"), Some("2000".to_string()));
    assert_eq!(get(&s, "a"), Some("b=c".to_string()));
    assert_eq!(get(&s, "noequals"), None);
}

#[test]
fn property_with_spaces_is_trimmed() {
    let s = parse_properties(&strings(&["  cleanup.policy =\tcompact  "]));
    assert_eq!(s.entries.len(), 1);
    assert_eq!(s.entries[0].0, "cleanup.policy");
    assert_eq!(s.entries[0].1, "compact");
}

#[test]
fn config_lines_skip_blanks_and_comments() {
    let lines = strings(&["# a comment", "", "   ", "security.protocol = SASL_SSL", "  # indented comment", "x=1"]);
    let s = parse_config_lines(&lines);
    assert_eq!(s.entries.len(), 2);
    assert_eq!(get(&s, "security.protocol"), Some("SASL_SSL".to_string()));
    assert_eq!(get(&s, "x"), Some("1".to_string()));
}

#[test]
fn client_settings_layer_file_then_properties() {
    let file = parse_config_lines(&strings(&["bootstrap.servers=file:9092", "client.id=from-file", "acks=1"]));
    let s = build_client_config("cli:9092", Some(&file), &strings(&["acks=all"]));
    assert_eq!(get(&s, "bootstrap.servers"), Some("file:9092".to_string()));
    assert_eq!(get(&s, "client.id"), Some("from-file".to_string()));
    assert_eq!(get(&s, "acks"), Some("all".to_string()));
    let plain = build_client_config("cli:9092", None, &[]);
    assert_eq!(get(&plain, "bootstrap.servers"), Some("cli:9092".to_string()));
}

#[test]
fn consumer_settings() {
    let base = build_client_config("b:9092", None, &[]);
    let s = get_consumer_config(base, "g1", true, &strings(&["enable.auto.commit=false", "fetch.min.bytes=10"]));
    assert_eq!(get(&s, "group.id"), Some("g1".to_string()));
    assert_eq!(get(&s, "auto.offset.reset"), Some("earliest".to_string()));
    assert_eq!(get(&s, "fetch.min.bytes"), Some("10".to_string()));
    assert_eq!(get(&s, "enable.auto.commit"), Some("true".to_string()));
}

#[test]
fn consumer_settings_from_command_line() {
    let s = get_consumer_config_cli("b:9092", None, None, &strings(&["group.id=ignored"]), false, "generated-1");
    assert_eq!(get(&s, "group.id"), Some("generated-1".to_string()));
    assert_eq!(get(&s, "auto.offset.reset"), Some("latest".to_string()));
    assert_eq!(get(&s, "enable.auto.commit"), Some("true".to_string()));
    let t = get_consumer_config_cli("b:9092", Some("mine"), None, &[], true, "generated-2");
    assert_eq!(get(&t, "group.id"), Some("mine".to_string()));
    assert_eq!(get(&t, "auto.offset.reset"), Some("earliest".to_string()));
}

#[test]
fn producer_settings() {
    let s = get_producer_config("b:9092", None, &strings(&["message.timeout.ms=5"]), Some("gzip"));
    assert_eq!(get(&s, "compression.type"), Some("gzip".to_string()));
    assert_eq!(get(&s, "message.timeout.ms"), Some("30000".to_string()));
    let t = get_producer_config("b:9092", None, &[], None);
    assert_eq!(get(&t, "compression.type"), None);
}

#[test]
fn settings_set_replaces() {
    let mut s = Settings::new();
    s.set("k", "1");
    s.set("k", "2");
    assert_eq!(get(&s, "k"), Some("2".to_string()));
    let mut other = Settings::new();
    other.set("k", "3");
    other.set("j", "4");
    s.set_all(&other);
    assert_eq!(get(&s, "k"), Some("3".to_string()));
    assert_eq!(get(&s, "j"), Some("4".to_string()));
}
