use gwrust::fade::FadeEnvelope;
use gwrust::log_source::{log_source, Notice};
use gwrust::registry::Registry;
use gwrust::stream::{BufferStream, SampleStream};

const UNITY: i32 = 32767;

fn drain<S: SampleStream>(s: &mut S, limit: usize) -> Vec<i32> {
    let mut out = Vec::new();
    while out.len() < limit {
        match s.next_sample() {
            Some(v) => out.push(v),
            None => break,
        }
    }
    out
}

#[test]
fn fade_over_constant_source_ramps_linearly_and_ends_on_time() {
    let src = BufferStream::looped(vec![UNITY], 1, 1000);
    let mut env = FadeEnvelope::new(src, 2000, 100);
    let out = drain(&mut env, 5000);
    assert_eq!(out.len(), 2000);
    for (e, v) in out.iter().enumerate() {
        if e < 1900 {
            assert_eq!(*v, UNITY);
        } else {
            assert_eq!(*v as i64, UNITY as i64 * (2000 - e as i64) / 100);
        }
    }
    assert_eq!(out[1900], UNITY);
    assert_eq!(out[1950], 16383);
    assert_eq!(out[1999], 327);
    assert_eq!(env.next_sample(), None);
    assert_eq!(env.next_sample(), None);
}

#[test]
fn zero_fade_is_a_hard_cut() {
    let src = BufferStream::looped(vec![UNITY], 1, 1000);
    let mut env = FadeEnvelope::new(src, 2000, 0);
    let out = drain(&mut env, 5000);
    assert_eq!(out.len(), 2000);
    assert!(out.iter().all(|v| *v == UNITY));
    assert_eq!(env.next_sample(), None);
}

#[test]
fn fade_longer_than_duration_is_clamped() {
    let src = BufferStream::looped(vec![UNITY], 1, 1000);
    let mut env = FadeEnvelope::new(src, 20, 1000);
    let out = drain(&mut env, 100);
    assert_eq!(out.len(), 20);
    assert_eq!(out[0], UNITY);
    assert_eq!(out[10], UNITY * 10 / 20);
    assert_eq!(out[19], UNITY / 20);
}

#[test]
fn negative_samples_fade_symmetrically() {
    let src = BufferStream::looped(vec![-UNITY], 1, 1000);
    let mut env = FadeEnvelope::new(src, 10, 10);
    let out = drain(&mut env, 100);
    assert_eq!(out.len(), 10);
    assert_eq!(out[0], -UNITY);
    assert_eq!(out[5], -(UNITY * 5 / 10));
    assert_eq!(out[9], -(UNITY / 10));
}

#[test]
fn inner_end_propagates_without_padding() {
    let src = BufferStream::once(vec![1, 2, 3], 1, 1000);
    let mut env = FadeEnvelope::new(src, 10_000, 0);
    assert_eq!(drain(&mut env, 100), vec![1, 2, 3]);
    assert_eq!(env.next_sample(), None);
}

#[test]
fn fade_in_ramps_from_silence() {
    let src = BufferStream::looped(vec![1000], 1, 1000);
    let mut env = FadeEnvelope::new(src, 10, 0).with_fade_in(4);
    let out = drain(&mut env, 100);
    assert_eq!(out, vec![0, 250, 500, 750, 1000, 1000, 1000, 1000, 1000, 1000]);
}

#[test]
fn duration_counts_a_sample_for_each_channel() {
    let src = BufferStream::looped(vec![5, -5], 2, 1000);
    let mut env = FadeEnvelope::new(src, 10, 0);
    assert_eq!(drain(&mut env, 100).len(), 20);
}

#[test]
fn duration_counts_samples_at_the_inner_rate() {
    let src = BufferStream::looped(vec![7], 2, 48000);
    let env = FadeEnvelope::new(src, 1500, 10);
    assert_eq!(env.sample_rate(), 48000);
    assert_eq!(env.channels(), 2);
    assert_eq!(env.total_duration_ms(), Some(1500));
}

#[test]
fn play_scenario_reports_start_ramp_stop_and_clears_registry() {
    let rate = 1000u32;
    let src = BufferStream::looped(vec![UNITY], 1, rate);
    let env = FadeEnvelope::new(src, 2000, 100);
    let mut logged = log_source(env, "X".to_string());
    let mut registry = Registry::new();
    let call = registry.begin("X".to_string(), 0, 2);
    let window = registry.get(&"X".to_string()).unwrap();
    assert_eq!(window.end_ms - window.start_ms, 2000);

    let out = drain(&mut logged, 10_000);
    assert_eq!(out.len(), 2 * rate as usize);
    assert_eq!(out[1899], UNITY);
    assert_eq!(out[1950], 16383);
    assert_eq!(logged.next_sample(), None);
    let notices = logged.take_notices();
    assert_eq!(
        notices,
        vec![Notice::Started, Notice::NewMax(UNITY), Notice::Stopped, Notice::Stopped]
    );
    assert_eq!(logged.label(), "X");

    assert!(registry.finish(&"X".to_string(), call));
    assert_eq!(registry.get(&"X".to_string()), None);
}

#[test]
fn log_source_reports_each_new_maximum() {
    let src = BufferStream::once(vec![3, 1, 5, 5, 9], 1, 1000);
    let mut logged = log_source(src, "m".to_string());
    assert_eq!(drain(&mut logged, 10), vec![3, 1, 5, 5, 9]);
    assert_eq!(
        logged.take_notices(),
        vec![Notice::Started, Notice::NewMax(3), Notice::NewMax(5), Notice::NewMax(9), Notice::Stopped]
    );
    assert!(logged.take_notices().is_empty());
}

#[test]
fn log_source_reports_every_end_pull() {
    let mut logged = log_source(BufferStream::once(vec![4], 1, 1000), "e".to_string());
    assert_eq!(logged.next_sample(), Some(4));
    assert_eq!(logged.next_sample(), None);
    assert_eq!(logged.next_sample(), None);
    assert_eq!(logged.take_notices(), vec![Notice::Started, Notice::NewMax(4), Notice::Stopped, Notice::Stopped]);
}

#[test]
fn log_source_keeps_the_declared_format_and_duration() {
    let env = FadeEnvelope::new(BufferStream::looped(vec![1], 2, 48000), 1500, 10);
    let logged = log_source(env, "d".to_string());
    assert_eq!(logged.total_duration_ms(), Some(1500));
    assert_eq!(logged.channels(), 2);
    assert_eq!(logged.sample_rate(), 48000);
    assert_eq!(logged.current_frame_len(), None);
}

#[test]
fn fade_scales_any_source_by_its_gain() {
    let src = BufferStream::looped(vec![100, -300, 50, 7], 1, 1000);
    let mut env = FadeEnvelope::new(src, 8, 4);
    let out = drain(&mut env, 100);
    assert_eq!(out, vec![100, -300, 50, 7, 100, -225, 25, 1]);
}

#[test]
fn early_end_with_a_fade_is_passed_on() {
    let src = BufferStream::once(vec![100, 100, 100], 1, 1000);
    let mut env = FadeEnvelope::new(src, 4, 2);
    assert_eq!(drain(&mut env, 100), vec![100, 100, 100]);
    assert_eq!(env.next_sample(), None);
}
