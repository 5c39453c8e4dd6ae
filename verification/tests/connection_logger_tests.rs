use lvory::connection_logger::{
    connection_from_fields, parse_connection_from_singbox_log, ConnectionLog,
    ConnectionLoggerManager, LogLineFields,
};

fn log(domain: &str, node: Option<&str>, ts: i64) -> ConnectionLog {
    ConnectionLog {
        session_id: format!("s{}", ts),
        domain: domain.to_string(),
        direction: "outbound".to_string(),
        network_type: "tcp".to_string(),
        node_group: node.map(|s| s.to_string()),
        delay: None,
        timestamp: ts,
        source_ip: None,
        destination_ip: None,
    }
}

#[test]
fn group_key_spells_unknown_node_group() {
    let k = ConnectionLoggerManager::get_group_key("a.com", "tcp", &None, "outbound");
    assert_eq!(k, "a.com:tcp:unknown:outbound");
    let k = ConnectionLoggerManager::get_group_key("a.com", "udp", &Some("hk".to_string()), "inbound");
    assert_eq!(k, "a.com:udp:hk:inbound");
}

#[test]
fn recent_logs_keep_the_latest_500_newest_first() {
    let mut m = ConnectionLoggerManager::new();
    for i in 0..501 {
        let l = log("a.com", None, i);
        assert!(m.accepts(&l));
        m.add_log(l);
    }
    let all = m.get_recent_logs(Some(1000));
    assert_eq!(all.len(), 500);
    assert_eq!(all[0].timestamp, 500);
    assert_eq!(all[499].timestamp, 1);
    assert_eq!(m.get_recent_logs(None).len(), 100);
    let one = m.get_recent_logs(Some(1));
    assert_eq!(one.len(), 1);
    assert_eq!(one[0].timestamp, 500);
}

#[test]
fn groups_count_and_keep_the_last_ten() {
    let mut m = ConnectionLoggerManager::new();
    for i in 0..12 {
        m.add_log(log("a.com", None, 100 + i));
    }
    m.add_log(log("b.com", Some("jp"), 50));
    let groups = m.get_groups();
    assert_eq!(groups.len(), 2);
    let a = &groups[0];
    assert_eq!(a.domain, "a.com");
    assert_eq!(a.count, 12);
    assert_eq!(a.first_seen, 100);
    assert_eq!(a.last_seen, 111);
    assert_eq!(a.recent_logs.len(), 10);
    assert_eq!(a.recent_logs[0].timestamp, 102);
    assert_eq!(a.recent_logs[9].timestamp, 111);
    let b = &groups[1];
    assert_eq!(b.domain, "b.com");
    assert_eq!(b.node_group.as_deref(), Some("jp"));
    assert_eq!(b.count, 1);
}

#[test]
fn groups_are_listed_most_recent_first() {
    let mut m = ConnectionLoggerManager::new();
    m.add_log(log("a.com", None, 5));
    m.add_log(log("b.com", None, 9));
    m.add_log(log("c.com", None, 7));
    let g = m.get_groups();
    let order: Vec<&str> = g.iter().map(|x| x.domain.as_str()).collect();
    assert_eq!(order, vec!["b.com", "c.com", "a.com"]);
}

#[test]
fn clearing_forgets_everything() {
    let mut m = ConnectionLoggerManager::new();
    m.add_log(log("a.com", None, 1));
    m.clear_history();
    assert!(m.get_recent_logs(None).is_empty());
    assert!(m.get_groups().is_empty());
}

#[test]
fn parses_a_json_log_line() {
    let line = r#"{"session":"abc","domain":"example.com","direction":"inbound","network":"udp","outbound":"proxy","delay":42,"source":"10.0.0.2","destination":"1.1.1.1"}"#;
    let l = parse_connection_from_singbox_log(line).expect("a connection");
    assert_eq!(l.session_id, "abc");
    assert_eq!(l.domain, "example.com");
    assert_eq!(l.direction, "inbound");
    assert_eq!(l.network_type, "udp");
    assert_eq!(l.node_group.as_deref(), Some("proxy"));
    assert_eq!(l.delay, Some(42));
    assert_eq!(l.source_ip.as_deref(), Some("10.0.0.2"));
    assert_eq!(l.destination_ip.as_deref(), Some("1.1.1.1"));
    assert!(l.timestamp > 0);
}

#[test]
fn non_string_direction_and_network_fall_back() {
    let line = r#"{"session":"s","domain":"d","direction":1,"network":null}"#;
    let l = parse_connection_from_singbox_log(line).expect("a connection");
    assert_eq!(l.direction, "outbound");
    assert_eq!(l.network_type, "tcp");
    assert_eq!(l.node_group, None);
    assert_eq!(l.delay, None);
}

#[test]
fn rejects_lines_that_make_no_connection() {
    assert!(parse_connection_from_singbox_log("not json").is_none());
    assert!(parse_connection_from_singbox_log(r#"{"domain":"d","direction":"x","network":"tcp"}"#).is_none());
    assert!(parse_connection_from_singbox_log(r#"{"session":"s","domain":"d","network":"tcp"}"#).is_none());
    assert!(parse_connection_from_singbox_log(r#"{"session":"s","domain":"d","direction":"o"}"#).is_none());
    assert!(parse_connection_from_singbox_log(r#"{"session":1,"domain":"d","direction":"o","network":"tcp"}"#).is_none());
    assert!(parse_connection_from_singbox_log("[1,2]").is_none());
}

#[test]
fn builds_a_connection_from_fields() {
    let f = LogLineFields {
        session: Some("s".to_string()),
        domain: Some("d".to_string()),
        has_direction: true,
        direction: None,
        has_network: true,
        network: Some("udp".to_string()),
        outbound: None,
        delay: Some(3),
        source: None,
        destination: None,
    };
    let l = connection_from_fields(f, 77).expect("a connection");
    assert_eq!(l.direction, "outbound");
    assert_eq!(l.network_type, "udp");
    assert_eq!(l.timestamp, 77);
    let g = LogLineFields {
        session: Some("s".to_string()),
        domain: Some("d".to_string()),
        has_direction: false,
        direction: None,
        has_network: true,
        network: None,
        outbound: None,
        delay: None,
        source: None,
        destination: None,
    };
    assert!(connection_from_fields(g, 1).is_none());
}
