use lvory::config_manager::ConfigManager;
use lvory::core_control::{
    state_after_start, check_outcome, choose_core_binary, core_binary_name, greet, run_args, start_check,
    start_outcome, stop_outcome, CoreBinary,
};
use lvory::core_manager::{
    archive_kind, find_core_entry, is_bundled_version, release_from_fields, switch_message,
    temp_file_name, ArchiveKind, AssetFields, DirEntryInfo, ReleaseFields,
};
use lvory::event_bus::{StateChange, StateManager};
use lvory::log_cleanup::{CleanupTally, LogCleanupManager};
use lvory::logger::{LogLevel, LogMessage, LogType, LoggerManager};
use lvory::node_history::{history_limit, traffic_totals, NodeHistoryManager};
use lvory::settings::{settings_or_default, Settings};
use lvory::traffic::TrafficManager;

#[test]
fn greets() {
    assert_eq!(greet("Lvory"), "Hello, Lvory! You've been greeted from Rust!");
}

#[test]
fn start_checks_and_outcomes() {
    assert_eq!(start_check(true, Some("c".to_string())), Err("SingBox core is already running".to_string()));
    assert_eq!(start_check(false, None), Err("Missing configPath".to_string()));
    assert_eq!(start_check(false, Some("c.json".to_string())), Ok("c.json".to_string()));
    assert_eq!(choose_core_binary(true), CoreBinary::Custom);
    assert_eq!(choose_core_binary(false), CoreBinary::Sidecar);
    assert_eq!(core_binary_name(true), "sing-box.exe");
    assert_eq!(core_binary_name(false), "sing-box");
    assert_eq!(run_args("c.json"), vec!["run", "-c", "c.json"]);
    assert_eq!(start_outcome(CoreBinary::Custom, Ok(())), Ok("SingBox started (Custom)".to_string()));
    assert_eq!(start_outcome(CoreBinary::Sidecar, Ok(())), Ok("SingBox started (Sidecar)".to_string()));
    assert_eq!(
        start_outcome(CoreBinary::Custom, Err("no such file".to_string())),
        Err("Failed to spawn custom binary: no such file".to_string())
    );
    assert_eq!(start_outcome(CoreBinary::Sidecar, Err("e".to_string())), Err("e".to_string()));
    assert_eq!(stop_outcome(false, Ok(())), Ok("SingBox was not running".to_string()));
    assert_eq!(stop_outcome(true, Ok(())), Ok("SingBox stopped".to_string()));
    assert_eq!(stop_outcome(true, Err("k".to_string())), Err("k".to_string()));
    assert_eq!(check_outcome(true, Err("x".to_string())), Ok("Config is valid".to_string()));
    assert_eq!(check_outcome(false, Err("bad".to_string())), Err("bad".to_string()));
}

#[test]
fn state_lifecycle() {
    let mut m = StateManager::new();
    let s = m.get_state();
    assert!(!s.is_running && !s.is_initialized && s.last_error.is_none());
    m.update(StateChange::StartRequested("c.json".to_string()));
    let s = m.get_state();
    assert!(s.is_initialized && !s.is_running && s.start_time.is_none());
    m.update(StateChange::Started(1234));
    let s = m.get_state();
    assert!(s.is_running && s.is_initialized);
    assert_eq!(s.config_path.as_deref(), Some("c.json"));
    assert_eq!(s.start_time, Some(1234));
    m.update(StateChange::Stopped);
    assert!(!m.get_state().is_running);
    m.update(StateChange::StartFailed("boom".to_string()));
    let s = m.get_state();
    assert!(!s.is_running);
    assert_eq!(s.last_error.as_deref(), Some("boom"));
}

#[test]
fn releases_from_listing_fields() {
    let f = ReleaseFields {
        tag_name: Some("v1.9.0-beta.1".to_string()),
        name: None,
        prerelease: Some(true),
        published_at: Some("2024-01-01".to_string()),
        assets: vec![
            AssetFields { name: Some("a.zip".to_string()), browser_download_url: None, size: Some(10) },
            AssetFields { name: None, browser_download_url: Some("u".to_string()), size: None },
        ],
    };
    let r = release_from_fields(f);
    assert_eq!(r.tag_name, "v1.9.0-beta.1");
    assert_eq!(r.name, "");
    assert!(r.prerelease);
    assert_eq!(r.version_type, "alpha");
    assert_eq!(r.assets.len(), 2);
    assert_eq!(r.assets[0].name, "a.zip");
    assert_eq!(r.assets[0].size, 10);
    assert_eq!(r.assets[1].browser_download_url, "u");
    assert_eq!(r.assets[1].size, 0);
    let g = ReleaseFields { tag_name: None, name: None, prerelease: None, published_at: None, assets: vec![] };
    let s = release_from_fields(g);
    assert_eq!(s.version_type, "stable");
    assert!(!s.prerelease);
}

#[test]
fn core_files() {
    assert_eq!(archive_kind("https://x/sing-box.zip"), ArchiveKind::Zip);
    assert_eq!(archive_kind("https://x/sing-box.tar.gz"), ArchiveKind::TarGz);
    assert_eq!(archive_kind("https://x/sing-box"), ArchiveKind::Other);
    assert_eq!(temp_file_name("1.8.0"), "1.8.0.tmp");
    assert!(is_bundled_version("bundled") && is_bundled_version("default"));
    assert!(!is_bundled_version("1.8.0"));
    assert_eq!(switch_message("1.8.0"), "Switched to version 1.8.0");
    let entries = vec![
        DirEntryInfo { name: "sing-box".to_string(), is_file: false },
        DirEntryInfo { name: "LICENSE".to_string(), is_file: true },
        DirEntryInfo { name: "sing-box.exe".to_string(), is_file: true },
    ];
    assert_eq!(find_core_entry(&entries), Some(2));
    assert_eq!(find_core_entry(&entries[..2].iter().map(|e| DirEntryInfo { name: e.name.clone(), is_file: e.is_file }).collect()), None);
}

#[test]
fn settings_defaults() {
    let s = Settings::default();
    assert_eq!(s.proxy_port, "7890");
    assert_eq!(s.api_address, "127.0.0.1:9090");
    assert!(s.check_update_on_boot && s.kernel_watchdog);
    assert!(!s.allow_lan && !s.tun_mode && !s.foreground_only);
    assert_eq!(s.log_level, "info");
    assert_eq!(s.traffic_stats_period, "month");
    assert_eq!(s.language, "zh_CN");
    let mut t = Settings::default();
    t.proxy_port = "1080".to_string();
    assert_eq!(settings_or_default(Some(t)).proxy_port, "1080");
    assert_eq!(settings_or_default(None).proxy_port, "7890");
}

#[test]
fn config_path_read_after_write() {
    let mut m = ConfigManager::new();
    assert_eq!(m.get_path(), None);
    m.set_path("/a/config.json".to_string());
    assert_eq!(m.get_path().as_deref(), Some("/a/config.json"));
}

#[test]
fn node_history_settings() {
    let mut m = NodeHistoryManager::new("/tmp/h.db".to_string());
    assert!(!m.records());
    m.set_enabled(true);
    assert!(m.records());
    assert_eq!(m.db_path(), "/tmp/h.db");
    assert_eq!(traffic_totals(None, Some(5)), (0, 5));
    assert_eq!(history_limit(None), 100);
    assert_eq!(history_limit(Some(7)), 7);
}

#[test]
fn log_cleanup_decisions() {
    assert_eq!(LogCleanupManager::retention_secs(7), 604800);
    assert!(LogCleanupManager::should_delete(true, Some("log"), true));
    assert!(LogCleanupManager::should_delete(true, Some("txt"), true));
    assert!(!LogCleanupManager::should_delete(true, Some("json"), true));
    assert!(!LogCleanupManager::should_delete(true, Some("log"), false));
    assert!(!LogCleanupManager::should_delete(false, Some("log"), true));
    assert!(!LogCleanupManager::should_delete(true, None, true));
    let mut t = CleanupTally::new();
    assert!(t.can_record(10));
    t.record(10);
    t.record(5);
    assert_eq!((t.deleted_count, t.deleted_size), (2, 15));
    assert!(!t.can_record(u64::MAX));
    assert_eq!(LogCleanupManager::new("/logs".to_string()).log_dir(), "/logs");
}

#[test]
fn logger_keeps_the_latest_1000() {
    let mut m = LoggerManager::new();
    for i in 0..1001 {
        m.log(LogMessage::new(LogLevel::Info, LogType::System, format!("m{}", i)));
    }
    let all = m.get_history(Some(2000));
    assert_eq!(all.len(), 1000);
    assert_eq!(all[0].message, "m1000");
    assert_eq!(all[999].message, "m1");
    assert_eq!(m.get_history(None).len(), 100);
    let d = LogMessage::new(LogLevel::Error, LogType::Proxy, "x".to_string())
        .with_details(serde_json::from_str::<serde_json::Value>(r#"{"k": 1}"#).unwrap());
    assert!(d.timestamp > 0);
    m.log(d);
    let top = m.get_history(Some(1));
    assert_eq!(top[0].details, Some(serde_json::from_str::<serde_json::Value>(r#"{"k": 1}"#).unwrap()));
    assert_eq!(top[0].level, LogLevel::Error);
    m.clear_history();
    assert!(m.get_history(None).is_empty());
}

#[test]
fn traffic_keeps_the_latest_3600() {
    let mut m = TrafficManager::new();
    assert_eq!(m.get_current().up, 0);
    assert!(m.get_history(10).is_empty());
    for i in 0..3601u64 {
        m.update(i, 2 * i);
    }
    let h = m.get_history(5000);
    assert_eq!(h.len(), 3600);
    assert_eq!(h[0].up, 3600);
    assert_eq!(h[3599].up, 1);
    let c = m.get_current();
    assert_eq!((c.up, c.down), (3600, 7200));
    assert_eq!(m.get_history(1)[0].up, c.up);
}

#[test]
fn start_outcome_decides_the_state() {
    assert!(matches!(state_after_start(&Ok("m".to_string()), 5), StateChange::Started(5)));
    match state_after_start(&Err("bad".to_string()), 5) {
        StateChange::StartFailed(e) => assert_eq!(e, "bad"),
        _ => panic!("expected a failed start"),
    }
}
