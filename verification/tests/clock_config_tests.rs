use claw_monitor::clock::{now_ms, timestamp_from_millis};
use claw_monitor::config::{choose_db_path, db_path_default};
use claw_monitor::log::SampleLog;
use claw_monitor::rollup::get_rollups;

const DEFAULT_TAIL: &str = "/.openclaw/workspace/projects/openclaw-usage-monitor/collector/usage.db";

#[test]
fn timestamp_from_millis_keeps_what_fits() {
    assert_eq!(timestamp_from_millis(Some(0)), Some(0));
    assert_eq!(timestamp_from_millis(Some(1_700_000_000_000)), Some(1_700_000_000_000));
    assert_eq!(timestamp_from_millis(Some(i64::MAX as u128)), Some(i64::MAX));
    assert_eq!(timestamp_from_millis(Some(i64::MAX as u128 + 1)), None);
    assert_eq!(timestamp_from_millis(Some(u128::MAX)), None);
}

#[test]
fn timestamp_of_a_clock_before_the_epoch_is_none() {
    assert_eq!(timestamp_from_millis(None), None);
}

#[test]
fn now_ms_is_after_the_epoch_and_does_not_go_back() {
    let a = now_ms().unwrap();
    let b = now_ms().unwrap();
    assert!(a > 1_600_000_000_000);
    assert!(b >= a);
}

#[test]
fn now_ms_is_a_valid_end_for_the_rollups() {
    let now = now_ms().unwrap();
    let out = get_rollups(&SampleLog::new(), now);
    assert_eq!(out.len(), 3);
    assert_eq!(out[2].start_ts_ms, now - 604_800_000);
    assert_eq!(out[2].end_ts_ms, now);
}

#[test]
fn db_path_uses_the_configured_path() {
    assert_eq!(db_path_default(Some("/tmp/usage.db".to_string()), Some("/home/u".to_string())), "/tmp/usage.db");
    assert_eq!(db_path_default(Some("  /tmp/usage.db ".to_string()), None), "  /tmp/usage.db ");
}

#[test]
fn db_path_ignores_a_blank_configured_path() {
    let expected = format!("/home/u{}", DEFAULT_TAIL);
    assert_eq!(db_path_default(Some(String::new()), Some("/home/u".to_string())), expected);
    assert_eq!(db_path_default(Some("   ".to_string()), Some("/home/u".to_string())), expected);
    assert_eq!(db_path_default(Some(" \t\n".to_string()), Some("/home/u".to_string())), expected);
}

#[test]
fn db_path_defaults_below_the_home_directory() {
    assert_eq!(db_path_default(None, Some("/home/u".to_string())), format!("/home/u{}", DEFAULT_TAIL));
    assert_eq!(db_path_default(None, Some(String::new())), DEFAULT_TAIL);
}

#[test]
fn db_path_without_a_home_directory_is_shared() {
    assert_eq!(db_path_default(None, None), format!("/Users/Shared{}", DEFAULT_TAIL));
    assert_eq!(db_path_default(Some(" ".to_string()), None), format!("/Users/Shared{}", DEFAULT_TAIL));
}

#[test]
fn choose_db_path_follows_the_flag() {
    let home = Some("/h".to_string());
    assert_eq!(choose_db_path(Some("p".to_string()), true, home.clone()), "p");
    assert_eq!(choose_db_path(Some("p".to_string()), false, home.clone()), format!("/h{}", DEFAULT_TAIL));
    assert_eq!(choose_db_path(None, true, home), format!("/h{}", DEFAULT_TAIL));
    assert_eq!(choose_db_path(None, false, None), format!("/Users/Shared{}", DEFAULT_TAIL));
}
