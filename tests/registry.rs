use gwrust::registry::{window_len_ms, Registry, Window, MAX_SPAN_SECS};

#[test]
fn window_spans_the_declared_duration() {
    let mut r = Registry::new();
    assert!(r.can_begin());
    let call = r.begin("M1".to_string(), 1_000, 210);
    assert_eq!(call, 0);
    assert_eq!(r.get(&"M1".to_string()), Some(Window { start_ms: 1_000, end_ms: 211_000, call: 0 }));
    assert_eq!(r.get(&"M2".to_string()), None);
}

#[test]
fn only_the_owning_call_removes_the_entry() {
    let mut r = Registry::new();
    let first = r.begin("M200.00".to_string(), 0, 2);
    let second = r.begin("M200.00".to_string(), 1_500, 2);
    assert_ne!(first, second);
    assert!(!r.finish(&"M200.00".to_string(), first));
    assert_eq!(r.get(&"M200.00".to_string()).map(|w| w.call), Some(second));
    assert!(r.finish(&"M200.00".to_string(), second));
    assert_eq!(r.get(&"M200.00".to_string()), None);
    assert!(!r.finish(&"M200.00".to_string(), second));
}

#[test]
fn overflowing_durations_become_empty_windows() {
    assert_eq!(window_len_ms(2), 2_000);
    assert_eq!(window_len_ms(MAX_SPAN_SECS as u64), MAX_SPAN_SECS * 1000);
    assert_eq!(window_len_ms(MAX_SPAN_SECS as u64 + 1), 0);
    assert_eq!(window_len_ms(u64::MAX), 0);
    let mut r = Registry::new();
    r.begin("far".to_string(), 5, u64::MAX);
    assert_eq!(r.get(&"far".to_string()).map(|w| w.end_ms), Some(5));
    r.begin("late".to_string(), i64::MAX - 10, 1);
    assert_eq!(r.get(&"late".to_string()).map(|w| w.end_ms), Some(i64::MAX - 10));
}
