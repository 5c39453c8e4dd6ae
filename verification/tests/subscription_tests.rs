use lvory::subscription::{
    collect_subscriptions, sql_flag, update_statement, upsert_params, upsert_sql, SqlValue, Subscription,
    SubscriptionManager, SubscriptionPatch,
};

fn empty_patch() -> SubscriptionPatch {
    SubscriptionPatch {
        url: None,
        protocol: None,
        status: None,
        source: None,
        timestamp: None,
        last_updated: None,
        update_count: None,
        fail_count: None,
        last_error: None,
        last_attempt: None,
        loaded_at: None,
        singbox_cache: None,
        generated_from: None,
        last_generated: None,
        last_processed: None,
        is_cache: None,
    }
}

fn sub(name: &str, url: &str) -> Subscription {
    Subscription {
        file_name: name.to_string(),
        url: Some(url.to_string()),
        protocol: None,
        status: None,
        source: None,
        timestamp: None,
        last_updated: None,
        update_count: None,
        fail_count: None,
        last_error: None,
        last_attempt: None,
        loaded_at: None,
        singbox_cache: None,
        generated_from: None,
        last_generated: None,
        last_processed: None,
        is_cache: false,
    }
}

fn text(v: &SqlValue) -> Option<&str> {
    match v {
        SqlValue::Text(s) => Some(s.as_str()),
        _ => None,
    }
}

#[test]
fn empty_update_does_nothing() {
    assert!(update_statement("a.json", &empty_patch()).is_none());
}

#[test]
fn update_sets_the_given_fields_in_column_order() {
    let mut p = empty_patch();
    p.status = Some("active".to_string());
    p.url = Some("http://x".to_string());
    p.update_count = Some(3);
    p.is_cache = Some(true);
    let st = update_statement("a.json", &p).expect("a statement");
    assert_eq!(
        st.sql,
        "UPDATE subscriptions SET url = ?, status = ?, update_count = ?, is_cache = ?, updated_at = datetime('now') WHERE file_name = ?"
    );
    assert_eq!(st.params.len(), 5);
    assert_eq!(text(&st.params[0]), Some("http://x"));
    assert_eq!(text(&st.params[1]), Some("active"));
    assert!(matches!(st.params[2], SqlValue::Integer(3)));
    assert!(matches!(st.params[3], SqlValue::Integer(1)));
    assert_eq!(text(&st.params[4]), Some("a.json"));
}

#[test]
fn upsert_fills_defaults() {
    let p = empty_patch();
    let v = upsert_params("b.json", &p);
    assert_eq!(v.len(), 17);
    assert_eq!(text(&v[0]), Some("b.json"));
    assert!(matches!(v[1], SqlValue::Null));
    assert_eq!(text(&v[2]), Some("singbox"));
    assert_eq!(text(&v[3]), Some("active"));
    assert!(matches!(v[7], SqlValue::Integer(0)));
    assert!(matches!(v[8], SqlValue::Integer(0)));
    assert!(matches!(v[16], SqlValue::Integer(0)));
    let mut q = empty_patch();
    q.protocol = Some("clash".to_string());
    q.fail_count = Some(2);
    q.is_cache = Some(true);
    let w = upsert_params("b.json", &q);
    assert_eq!(text(&w[2]), Some("clash"));
    assert!(matches!(w[8], SqlValue::Integer(2)));
    assert!(matches!(w[16], SqlValue::Integer(1)));
}

#[test]
fn collects_subscriptions_by_name() {
    let rows = vec![Some(sub("a", "1")), None, Some(sub("b", "2")), Some(sub("a", "3"))];
    let out = collect_subscriptions(rows);
    assert_eq!(out.len(), 2);
    assert_eq!(out[0].file_name, "a");
    assert_eq!(out[0].url.as_deref(), Some("3"));
    assert_eq!(out[1].file_name, "b");
}

#[test]
fn flags_and_paths() {
    assert!(sql_flag(1));
    assert!(sql_flag(-5));
    assert!(!sql_flag(0));
    let m = SubscriptionManager::new("/tmp/s.db".to_string());
    assert_eq!(m.db_path(), "/tmp/s.db");
}

#[test]
fn upsert_binds_one_placeholder_per_parameter() {
    let sql = upsert_sql();
    let params = upsert_params("a.json", &empty_patch());
    assert_eq!(sql.matches('?').count(), params.len());
    assert!(sql.starts_with("INSERT INTO subscriptions ("));
    assert!(sql.contains("ON CONFLICT(file_name) DO UPDATE SET"));
    assert!(sql.contains("updated_at = datetime('now')"));
}
