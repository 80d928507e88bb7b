use ping_pong_latency::history::{
    clamp_window_minutes, plan_migration, MigrationPlan, CURRENT_SCHEMA_VERSION,
    HISTORY_RETENTION_HOURS, MAX_WINDOW_MINUTES,
};
use ping_pong_latency::models::Host;
use ping_pong_latency::target::{
    normalize_interval, normalize_label, normalize_target, prepare_new_host,
};
use ping_pong_latency::text::{lower_case, trimmed};

const INVALID: &str = "Use a hostname, IPv4 address, or IPv6 address";

#[test]
fn target_is_trimmed_and_lower_cased() {
    assert_eq!(normalize_target("  Example.COM \n"), Ok("example.com".to_string()));
    assert_eq!(normalize_target("192.168.1.1"), Ok("192.168.1.1".to_string()));
    assert_eq!(normalize_target("FE80::1"), Ok("fe80::1".to_string()));
}

#[test]
fn empty_target_is_required() {
    assert_eq!(normalize_target(""), Err("Target is required".to_string()));
    assert_eq!(normalize_target(" \t\u{3000} "), Err("Target is required".to_string()));
}

#[test]
fn long_target_is_refused() {
    let ok = "a".repeat(253);
    assert_eq!(normalize_target(&ok), Ok(ok.clone()));
    let long = "a".repeat(254);
    assert_eq!(normalize_target(&long), Err("Target is too long".to_string()));
}

#[test]
fn length_is_counted_in_bytes() {
    // 127 two-byte characters are 254 bytes: too long before the
    // character check is made.
    let wide = "\u{e9}".repeat(127);
    assert_eq!(normalize_target(&wide), Err("Target is too long".to_string()));
    let shorter = "\u{e9}".repeat(126);
    assert_eq!(normalize_target(&shorter), Err(INVALID.to_string()));
}

#[test]
fn target_with_other_characters_is_refused() {
    assert_eq!(normalize_target("bad host"), Err(INVALID.to_string()));
    assert_eq!(normalize_target("host_name"), Err(INVALID.to_string()));
    assert_eq!(normalize_target("h\u{e9}llo"), Err(INVALID.to_string()));
}

#[test]
fn unicode_lower_casing_applies_before_the_check() {
    // The Kelvin sign lower-cases to the ASCII letter k.
    assert_eq!(normalize_target("\u{212a}"), Ok("k".to_string()));
    assert_eq!(lower_case("\u{212a}B"), "kb");
}

#[test]
fn normalizing_twice_changes_nothing() {
    for raw in ["  Example.COM ", "\u{212a}", "A-B:C.d", "10.0.0.1"] {
        let once = normalize_target(raw).unwrap();
        assert_eq!(normalize_target(&once), Ok(once.clone()));
    }
}

#[test]
fn intervals_are_one_two_five_or_ten_seconds() {
    for seconds in [1, 2, 5, 10] {
        assert_eq!(normalize_interval(seconds), Ok(seconds));
    }
    for seconds in [0, 3, 4, 6, 11, -1, i64::MAX, i64::MIN] {
        assert_eq!(
            normalize_interval(seconds),
            Err("Interval must be 1, 2, 5, or 10 seconds".to_string())
        );
    }
}

#[test]
fn labels_are_trimmed_and_blank_ones_dropped() {
    assert_eq!(normalize_label(Some("  Home router ".to_string())), Some("Home router".to_string()));
    assert_eq!(normalize_label(Some(" \t ".to_string())), None);
    assert_eq!(normalize_label(None), None);
    assert_eq!(trimmed("\u{a0}x\u{2028}"), "x");
}

#[test]
fn new_host_reports_the_target_error_first() {
    let err = prepare_new_host("", Some("x".to_string()), 3).err().unwrap();
    assert_eq!(err, "Target is required");
    let err = prepare_new_host("host", None, 3).err().unwrap();
    assert_eq!(err, "Interval must be 1, 2, 5, or 10 seconds");
}

#[test]
fn new_host_carries_the_normalized_fields() {
    let host = prepare_new_host(" Router.Lan ", Some("  ".to_string()), 5).ok().unwrap();
    assert_eq!(host.target, "router.lan");
    assert_eq!(host.label, None);
    assert_eq!(host.interval_seconds, 5);
    let host = prepare_new_host("1.1.1.1", Some(" dns ".to_string()), 10).ok().unwrap();
    assert_eq!(host.label, Some("dns".to_string()));
}

#[test]
fn windows_are_clamped_to_twelve_hours() {
    assert_eq!(clamp_window_minutes(0), 1);
    assert_eq!(clamp_window_minutes(-30), 1);
    assert_eq!(clamp_window_minutes(15), 15);
    assert_eq!(clamp_window_minutes(720), 720);
    assert_eq!(clamp_window_minutes(10_000), 720);
    assert_eq!(clamp_window_minutes(i64::MAX), 720);
}

#[test]
fn retention_outlasts_the_longest_window() {
    assert!(HISTORY_RETENTION_HOURS * 60 > MAX_WINDOW_MINUTES);
}

#[test]
fn migration_plans() {
    assert_eq!(plan_migration(0), MigrationPlan::CreateSchema);
    assert_eq!(plan_migration(1), MigrationPlan::UpToDate);
    assert_eq!(plan_migration(2), MigrationPlan::TooNew);
    assert_eq!(plan_migration(-1), MigrationPlan::UpToDate);
    assert_eq!(plan_migration(CURRENT_SCHEMA_VERSION), MigrationPlan::UpToDate);
}

#[test]
fn host_enabled_flag_is_one() {
    let host = Host::from_columns(7, "a".to_string(), None, 2, 1, "t".to_string());
    assert!(host.enabled);
    assert_eq!(host.id, 7);
    assert_eq!(host.interval_seconds, 2);
    let host = Host::from_columns(7, "a".to_string(), Some("l".to_string()), 2, 0, "t".to_string());
    assert!(!host.enabled);
    let host = Host::from_columns(7, "a".to_string(), None, 2, 2, "t".to_string());
    assert!(!host.enabled);
}

#[test]
fn ascii_case_and_surrounding_whitespace_do_not_change_the_answer() {
    let long = "a".repeat(254);
    for s in ["example.com", "Router.LAN", "bad host", "", long.as_str(), "fe80::1"] {
        assert_eq!(normalize_target(&s.to_ascii_uppercase()), normalize_target(s));
        assert_eq!(normalize_target(&format!(" \t{}\n ", s)), normalize_target(s));
        assert_eq!(normalize_target(&format!("\u{3000}{}\u{a0}", s)), normalize_target(s));
    }
}

#[test]
fn schema_script_records_the_current_version() {
    let script = ping_pong_latency::history::schema_script();
    assert!(script.ends_with("PRAGMA user_version = 1;"));
    let conn = rusqlite::Connection::open_in_memory().unwrap();
    let before: i64 = conn.pragma_query_value(None, "user_version", |row| row.get(0)).unwrap();
    assert_eq!(plan_migration(before), MigrationPlan::CreateSchema);
    conn.execute_batch(&script).unwrap();
    let after: i64 = conn.pragma_query_value(None, "user_version", |row| row.get(0)).unwrap();
    assert_eq!(after, CURRENT_SCHEMA_VERSION);
    assert_eq!(plan_migration(after), MigrationPlan::UpToDate);
}

#[test]
fn ascii_case_does_not_change_the_answer_on_unicode_text() {
    for s in ["\u{212a}a.Com", "A\u{3a3}", "\u{e9}XAMPLE", "\u{130}x"] {
        assert_eq!(normalize_target(&s.to_ascii_uppercase()), normalize_target(s));
        assert_eq!(normalize_target(&s.to_ascii_lowercase()), normalize_target(s));
    }
}
