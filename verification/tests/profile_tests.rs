use lvory::config_manager::{check_profile, parse_config};
use lvory::core_control::version_report;
use lvory::core_manager::{locate_core, CoreLocation, DirEntryInfo};
use lvory::event_bus::{StateChange, StateManager};
use lvory::logger::{LogLevel, LogMessage, LogType};
use lvory::subscription::completion_patch;
use lvory::traceroute::traceroute_request;
use lvory::traffic::TrafficManager;

fn entry(name: &str, is_file: bool) -> DirEntryInfo {
    DirEntryInfo { name: name.to_string(), is_file }
}

#[test]
fn parses_a_configuration() {
    let v = parse_config("{\"log\": {\"level\": \"info\"}}").unwrap();
    assert_eq!(v["log"]["level"], "info");
    assert!(parse_config("[1, 2]").unwrap().is_array());
}

#[test]
fn refuses_a_configuration_that_does_not_parse() {
    let e = parse_config("{\"log\": ").unwrap_err();
    assert!(e.starts_with("Failed to parse config JSON: "));
    assert!(e.len() > "Failed to parse config JSON: ".len());
}

#[test]
fn checks_a_profile_before_marking_it_complete() {
    assert_eq!(check_profile("{\"outbounds\": []}"), Ok(()));
    assert_eq!(check_profile("{}"), Ok(()));
    assert_eq!(check_profile("[1]"), Err("Config is not a valid JSON object".to_string()));
    assert_eq!(check_profile("\"text\""), Err("Config is not a valid JSON object".to_string()));
    let e = check_profile("not json").unwrap_err();
    assert!(e.starts_with("Failed to parse config JSON: "));
}

#[test]
fn completion_marks_the_profile_active_and_nothing_else() {
    let p = completion_patch();
    assert_eq!(p.status.as_deref(), Some("active"));
    assert!(p.url.is_none());
    assert!(p.protocol.is_none());
    assert!(p.source.is_none());
    assert!(p.update_count.is_none());
    assert!(p.fail_count.is_none());
    assert!(p.is_cache.is_none());
}

#[test]
fn plans_a_traceroute_for_a_valid_target() {
    let (command, args) = traceroute_request("8.8.8.8", false).unwrap();
    assert_eq!(command, "traceroute");
    assert_eq!(args, vec!["-n", "-m", "30", "8.8.8.8"]);
    let (command, args) = traceroute_request("example.com", true).unwrap();
    assert_eq!(command, "tracert");
    assert_eq!(args, vec!["-d", "-h", "30", "example.com"]);
}

#[test]
fn refuses_an_invalid_traceroute_target() {
    assert_eq!(traceroute_request("", false), Err("Invalid target address".to_string()));
    assert_eq!(traceroute_request("   ", true), Err("Invalid target address".to_string()));
    assert_eq!(traceroute_request("bad target!", false), Err("Invalid target address".to_string()));
    assert_eq!(traceroute_request("-host.com", false), Err("Invalid target address".to_string()));
}

#[test]
fn finds_the_core_in_the_version_directory_first() {
    let root = vec![entry("README.md", true), entry("sing-box", true), entry("sing-box.exe", true)];
    let subdirs = vec![vec![entry("sing-box", true)]];
    assert_eq!(locate_core(&root, &subdirs), Some(CoreLocation::Root(1)));
}

#[test]
fn finds_the_core_in_the_first_subdirectory_that_holds_it() {
    let root = vec![entry("sing-box", false), entry("LICENSE", true)];
    let subdirs = vec![
        vec![entry("LICENSE", true)],
        vec![entry("sing-box", false), entry("sing-box.exe", true)],
        vec![entry("sing-box", true)],
    ];
    assert_eq!(locate_core(&root, &subdirs), Some(CoreLocation::Sub(1, 1)));
}

#[test]
fn finds_no_core_where_there_is_none() {
    let root = vec![entry("sing-box-1.0", true)];
    let subdirs = vec![vec![], vec![entry("box", true)]];
    assert_eq!(locate_core(&root, &subdirs), None);
    assert_eq!(locate_core(&vec![], &vec![]), None);
}

#[test]
fn a_message_keeps_the_time_given() {
    let m = LogMessage::at(LogLevel::Warn, LogType::Proxy, "proxy set".to_string(), 1_700_000_000_123);
    assert_eq!(m.level, LogLevel::Warn);
    assert_eq!(m.log_type, LogType::Proxy);
    assert_eq!(m.message, "proxy set");
    assert_eq!(m.timestamp, 1_700_000_000_123);
    assert!(m.details.is_none());
}

#[test]
fn a_traffic_sample_keeps_the_time_given() {
    let mut t = TrafficManager::new_at(5);
    let c = t.get_current();
    assert_eq!((c.up, c.down, c.timestamp), (0, 0, 5));
    assert!(t.get_history(10).is_empty());
    t.update_at(100, 200, 1_000);
    t.update_at(300, 400, 2_000);
    let c = t.get_current();
    assert_eq!((c.up, c.down, c.timestamp), (300, 400, 2_000));
    let h = t.get_history(10);
    assert_eq!(h.len(), 2);
    assert_eq!((h[0].up, h[0].timestamp), (300, 2_000));
    assert_eq!((h[1].up, h[1].timestamp), (100, 1_000));
}

#[test]
fn traffic_history_keeps_the_latest_3600_samples() {
    let mut t = TrafficManager::new_at(0);
    for i in 0..3700u64 {
        t.update_at(i, i, i as i64);
    }
    let h = t.get_history(usize::MAX);
    assert_eq!(h.len(), 3600);
    assert_eq!(h[0].up, 3699);
    assert_eq!(h[3599].up, 100);
}

#[test]
fn state_changes_keep_further_values() {
    let mut m = StateManager::new();
    m.update(StateChange::StartRequested("c.json".to_string()));
    m.update(StateChange::Started(10));
    m.update(StateChange::Stopped);
    let s = m.get_state();
    assert!(!s.is_running);
    assert_eq!(s.config_path.as_deref(), Some("c.json"));
    assert!(s.additional.is_empty());
}

#[test]
fn reports_the_core_version() {
    assert_eq!(version_report(true, "  sing-box version 1.9.0\n", "warn"), (true, "sing-box version 1.9.0".to_string()));
    assert_eq!(version_report(false, "out", "\n bad flag \n"), (false, "bad flag".to_string()));
    assert_eq!(version_report(false, "", ""), (false, String::new()));
}

#[test]
fn parses_the_configuration_given() {
    let v = parse_config("{\"a\": 1}").unwrap();
    assert_eq!(v["a"], 1);
    assert_eq!(v.as_object().map(|o| o.len()), Some(1));
    assert_ne!(v, parse_config("{}").unwrap());
}
