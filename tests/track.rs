use gwrust::track::{choreography, sleep_ms, Action, Cue, Track, CYCLE_SECS, INSTRUMENT_COUNT, JITTER_MS};

#[test]
fn jittered_sleep_never_goes_below_zero() {
    assert_eq!(sleep_ms(0, -200), 0);
    assert_eq!(sleep_ms(1, -200), 800);
    assert_eq!(sleep_ms(1, 150), 1150);
    assert_eq!(sleep_ms(4, 0), 4000);
}

#[test]
fn track_plays_its_cues_then_sleeps_out_the_cycle() {
    let cues = vec![
        Cue::Play { instrument: 3, secs: 600 },
        Cue::Sleep { secs: 30, jittered: false },
        Cue::Sleep { secs: 1, jittered: true },
    ];
    let mut t = Track::new(cues);
    assert_eq!(t.next_action(0), Action::Play { instrument: 3, secs: 600 });
    assert_eq!(t.next_action(0), Action::Sleep { ms: 30_000 });
    assert_eq!(t.next_action(-120), Action::Sleep { ms: 880 });
    assert_eq!(t.next_action(0), Action::Sleep { ms: (CYCLE_SECS as u64 - 31) * 1000 });
    assert_eq!(t.next_action(0), Action::Play { instrument: 3, secs: 600 });
}

#[test]
fn remainder_stops_at_zero() {
    let cues = vec![Cue::Sleep { secs: 700, jittered: false }];
    let mut t = Track::new(cues);
    assert_eq!(t.next_action(0), Action::Sleep { ms: 700_000 });
    assert_eq!(t.next_action(0), Action::Sleep { ms: 0 });
}

#[test]
fn advance_keeps_jitter_within_bounds() {
    let cues = vec![Cue::Sleep { secs: 1, jittered: true }, Cue::Sleep { secs: 2, jittered: false }];
    let mut t = Track::new(cues);
    let mut seen = Vec::new();
    for _ in 0..50 {
        match t.advance() {
            Action::Sleep { ms } => {
                let lo = (1000 - JITTER_MS) as u64;
                let hi = (1000 + JITTER_MS) as u64;
                assert!(lo <= ms && ms <= hi, "{ms}");
                if !seen.contains(&ms) {
                    seen.push(ms);
                }
            }
            other => panic!("unexpected {other:?}"),
        }
        assert_eq!(t.advance(), Action::Sleep { ms: 2000 });
        assert_eq!(t.advance(), Action::Sleep { ms: 597_000 });
    }
    assert!(seen.len() > 1);
}

#[test]
fn choreography_levels_to_the_cycle() {
    let cues = choreography();
    assert_eq!(cues.len(), 70);
    assert_eq!(cues[0], Cue::Play { instrument: 3, secs: 600 });
    assert_eq!(cues[13], Cue::Sleep { secs: 90, jittered: false });
    assert_eq!(cues[14], Cue::Play { instrument: 7, secs: 2 });
    assert_eq!(cues[26], Cue::Sleep { secs: 4, jittered: true });
    assert_eq!(cues[40], Cue::Sleep { secs: 30, jittered: false });
    assert_eq!(cues[43], Cue::Play { instrument: 1, secs: 190 });
    assert_eq!(cues[69], Cue::Sleep { secs: 4, jittered: true });
    let mut slept: u32 = 0;
    for c in cues.iter() {
        match c {
            Cue::Play { instrument, .. } => assert!(*instrument < INSTRUMENT_COUNT),
            Cue::Sleep { secs, .. } => slept += secs,
        }
    }
    assert_eq!(slept, 370);
    let mut t = Track::new(cues);
    for _ in 0..70 {
        t.next_action(0);
    }
    assert_eq!(t.next_action(0), Action::Sleep { ms: 230_000 });
    assert_eq!(t.next_action(0), Action::Play { instrument: 3, secs: 600 });
}
