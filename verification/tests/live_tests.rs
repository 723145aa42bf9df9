use claw_monitor::live::{get_live_metrics, rate, LiveMetrics, Rate};
use claw_monitor::log::{NoData, SampleLog};
use claw_monitor::sample::Sample;

fn total(ts_ms: i64, session: Option<&str>, total_tokens: Option<i64>) -> Sample {
    Sample {
        ts_ms,
        session_key: session.map(|s| s.to_string()),
        model: None,
        input_tokens: None,
        output_tokens: None,
        total_tokens,
        remaining_tokens: None,
        context_tokens: None,
        percent_used: None,
        net_rx_bytes: None,
        net_tx_bytes: None,
    }
}

fn full(ts_ms: i64, session: &str, base: i64) -> Sample {
    Sample {
        ts_ms,
        session_key: Some(session.to_string()),
        model: Some("model-x".to_string()),
        input_tokens: Some(base),
        output_tokens: Some(base * 2),
        total_tokens: Some(base * 3),
        remaining_tokens: Some(1_000 - base),
        context_tokens: Some(200_000),
        percent_used: Some(base / 10),
        net_rx_bytes: Some(base * 100),
        net_tx_bytes: Some(base * 10),
    }
}

fn per_second(r: Option<Rate>) -> Option<f64> {
    r.map(|r| r.amount as f64 / (r.elapsed_ms as f64 / 1000.0))
}

fn no_rates(m: &LiveMetrics) -> bool {
    m.tokens_per_s.is_none()
        && m.in_tokens_per_s.is_none()
        && m.out_tokens_per_s.is_none()
        && m.net_rx_bytes_per_s.is_none()
        && m.net_tx_bytes_per_s.is_none()
}

#[test]
fn live_metrics_of_an_empty_log_is_no_data() {
    assert_eq!(get_live_metrics(&SampleLog::new()), Err(NoData));
}

#[test]
fn live_metrics_of_a_single_sample_reports_it_without_rates() {
    let s = full(5_000, "s1", 40);
    let m = get_live_metrics(&SampleLog::from_samples(vec![s.clone()])).unwrap();
    assert_eq!(
        m,
        LiveMetrics {
            ts_ms: 5_000,
            session_key: Some("s1".to_string()),
            model: Some("model-x".to_string()),
            input_tokens: Some(40),
            output_tokens: Some(80),
            total_tokens: Some(120),
            remaining_tokens: Some(960),
            context_tokens: Some(200_000),
            percent_used: Some(4),
            tokens_per_s: None,
            in_tokens_per_s: None,
            out_tokens_per_s: None,
            net_rx_bytes_per_s: None,
            net_tx_bytes_per_s: None,
        }
    );
}

#[test]
fn live_metrics_rate_over_one_second() {
    let log = SampleLog::from_samples(vec![
        total(1000, Some("s1"), Some(100)),
        total(2000, Some("s1"), Some(150)),
    ]);
    let m = get_live_metrics(&log).unwrap();
    assert_eq!(m.ts_ms, 2000);
    assert_eq!(m.total_tokens, Some(150));
    assert_eq!(m.tokens_per_s, Some(Rate { amount: 50, elapsed_ms: 1000 }));
    assert_eq!(per_second(m.tokens_per_s), Some(50.0));
    assert_eq!(m.in_tokens_per_s, None);
    assert_eq!(m.out_tokens_per_s, None);
    assert_eq!(m.net_rx_bytes_per_s, None);
    assert_eq!(m.net_tx_bytes_per_s, None);
}

#[test]
fn live_metrics_after_a_reset_has_no_rate() {
    let log = SampleLog::from_samples(vec![
        total(1000, Some("s1"), Some(100)),
        total(2000, Some("s1"), Some(80)),
    ]);
    let m = get_live_metrics(&log).unwrap();
    assert_eq!(m.total_tokens, Some(80));
    assert_eq!(m.tokens_per_s, None);
    assert_eq!(per_second(m.tokens_per_s), None);
}

#[test]
fn live_metrics_with_equal_timestamps_has_no_rates() {
    let log = SampleLog::from_samples(vec![full(2000, "s1", 10), full(2000, "s1", 20)]);
    let m = get_live_metrics(&log).unwrap();
    assert_eq!(m.input_tokens, Some(20));
    assert!(no_rates(&m));
}

#[test]
fn live_metrics_with_equal_timestamps_measures_against_an_older_sample() {
    let log = SampleLog::from_samples(vec![
        full(1500, "s1", 5),
        full(2000, "s1", 10),
        full(2000, "s1", 20),
    ]);
    let m = get_live_metrics(&log).unwrap();
    assert_eq!(m.in_tokens_per_s, Some(Rate { amount: 15, elapsed_ms: 500 }));
    assert_eq!(per_second(m.in_tokens_per_s), Some(30.0));
}

#[test]
fn live_metrics_all_five_rates() {
    let log = SampleLog::from_samples(vec![full(10_000, "s1", 10), full(12_000, "s1", 30)]);
    let m = get_live_metrics(&log).unwrap();
    assert_eq!(m.in_tokens_per_s, Some(Rate { amount: 20, elapsed_ms: 2000 }));
    assert_eq!(m.out_tokens_per_s, Some(Rate { amount: 40, elapsed_ms: 2000 }));
    assert_eq!(m.tokens_per_s, Some(Rate { amount: 60, elapsed_ms: 2000 }));
    assert_eq!(m.net_rx_bytes_per_s, Some(Rate { amount: 2000, elapsed_ms: 2000 }));
    assert_eq!(m.net_tx_bytes_per_s, Some(Rate { amount: 200, elapsed_ms: 2000 }));
    assert_eq!(per_second(m.in_tokens_per_s), Some(10.0));
    assert_eq!(per_second(m.out_tokens_per_s), Some(20.0));
    assert_eq!(per_second(m.tokens_per_s), Some(30.0));
    assert_eq!(per_second(m.net_rx_bytes_per_s), Some(1000.0));
    assert_eq!(per_second(m.net_tx_bytes_per_s), Some(100.0));
    assert_eq!(m.remaining_tokens, Some(970));
    assert_eq!(m.context_tokens, Some(200_000));
    assert_eq!(m.percent_used, Some(3));
    assert_eq!(m.model, Some("model-x".to_string()));
}

#[test]
fn live_metrics_byte_counter_reset_has_no_byte_rate() {
    let mut later = full(12_000, "s1", 30);
    later.net_rx_bytes = Some(5);
    let log = SampleLog::from_samples(vec![full(10_000, "s1", 10), later]);
    let m = get_live_metrics(&log).unwrap();
    assert_eq!(m.net_rx_bytes_per_s, None);
    assert_eq!(m.net_tx_bytes_per_s, Some(Rate { amount: 200, elapsed_ms: 2000 }));
    assert_eq!(m.tokens_per_s, Some(Rate { amount: 60, elapsed_ms: 2000 }));
}

#[test]
fn live_metrics_without_a_session_has_no_rates() {
    let mut a = full(10_000, "s1", 10);
    let mut b = full(12_000, "s1", 30);
    a.session_key = None;
    b.session_key = None;
    let m = get_live_metrics(&SampleLog::from_samples(vec![a, b])).unwrap();
    assert_eq!(m.session_key, None);
    assert_eq!(m.total_tokens, Some(90));
    assert!(no_rates(&m));
}

#[test]
fn live_metrics_does_not_mix_sessions() {
    let log = SampleLog::from_samples(vec![
        full(1_000, "s1", 10),
        full(2_000, "s2", 500),
        full(3_000, "s1", 40),
    ]);
    let m = get_live_metrics(&log).unwrap();
    assert_eq!(m.session_key, Some("s1".to_string()));
    assert_eq!(m.in_tokens_per_s, Some(Rate { amount: 30, elapsed_ms: 2000 }));
    let first_of_session = SampleLog::from_samples(vec![full(1_000, "s1", 10), full(2_000, "s2", 500)]);
    let m = get_live_metrics(&first_of_session).unwrap();
    assert_eq!(m.session_key, Some("s2".to_string()));
    assert!(no_rates(&m));
}

#[test]
fn assemble_guards_against_a_prior_that_is_not_older() {
    let latest = full(2_000, "s1", 40);
    let same = full(2_000, "s1", 10);
    let newer = full(2_500, "s1", 10);
    assert!(no_rates(&LiveMetrics::assemble(&latest, Some(&same))));
    assert!(no_rates(&LiveMetrics::assemble(&latest, Some(&newer))));
    assert!(no_rates(&LiveMetrics::assemble(&latest, None)));
    let older = full(1_999, "s1", 10);
    let m = LiveMetrics::assemble(&latest, Some(&older));
    assert_eq!(m.in_tokens_per_s, Some(Rate { amount: 30, elapsed_ms: 1 }));
    assert_eq!(per_second(m.in_tokens_per_s), Some(30_000.0));
}

#[test]
fn assemble_measures_time_over_the_whole_range() {
    let latest = total(i64::MAX, Some("s"), Some(1));
    let prior = total(i64::MIN, Some("s"), Some(0));
    let m = LiveMetrics::assemble(&latest, Some(&prior));
    assert_eq!(m.tokens_per_s, Some(Rate { amount: 1, elapsed_ms: u64::MAX }));
}

#[test]
fn rate_needs_a_delta() {
    assert_eq!(rate(Some(10), Some(25), 500), Some(Rate { amount: 15, elapsed_ms: 500 }));
    assert_eq!(rate(Some(10), Some(10), 500), Some(Rate { amount: 0, elapsed_ms: 500 }));
    assert_eq!(rate(Some(10), Some(9), 500), None);
    assert_eq!(rate(None, Some(9), 500), None);
    assert_eq!(rate(Some(10), None, 500), None);
}
