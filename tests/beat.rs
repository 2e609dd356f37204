use gwrust::sine_beat::{SineBeat, BEAT_SAMPLE_RATE};

#[test]
fn beat_frequencies_are_exact() {
    let b = SineBeat::new(100_000, 2000);
    assert_eq!(b.channels(), 1);
    assert_eq!(b.sample_rate(), BEAT_SAMPLE_RATE);
    let mut b = b;
    let p = b.next_phases();
    assert_eq!(p.cycle, 96_000_000_000);
    // first sample index is 48000 + 1: half a period in, plus one
    assert_eq!(p.first, 24_200_500_000);
    assert_eq!(p.second, 72_199_500_000);
}

#[test]
fn one_beat_per_period() {
    let mut b = SineBeat::new(100_000, 2000);
    let start = b.next_phases();
    let diff0 = (start.first as i128 - start.second as i128).rem_euclid(start.cycle as i128);
    // half a turn apart at the start, plus one sample's worth
    assert_eq!(diff0, 48_001_000_000);
    let mut last = start;
    for _ in 0..48_000 {
        last = b.next_phases();
    }
    let half = (last.first as i128 - last.second as i128).rem_euclid(last.cycle as i128);
    assert_eq!(half, (48_001_000_000 + 48_000_000_000) % 96_000_000_000);
    for _ in 0..48_000 {
        last = b.next_phases();
    }
    let full = (last.first as i128 - last.second as i128).rem_euclid(last.cycle as i128);
    assert_eq!(full, diff0);
}

#[test]
fn low_base_frequency_gives_a_negative_second_wave() {
    let mut b = SineBeat::new(100, 1000);
    let p = b.next_phases();
    // first: (100*1000 + 500000) * 24001 mod 48e9; second wraps below zero
    assert_eq!(p.cycle, 48_000_000_000);
    assert_eq!(p.first, (600_000i128 * 24_001).rem_euclid(48_000_000_000) as u64);
    assert_eq!(p.second, (-400_000i128 * 24_001).rem_euclid(48_000_000_000) as u64);
}
