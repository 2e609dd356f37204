use gwrust::channel::Channel;
use gwrust::log_source::Notice;
use gwrust::mixer::Mixer;
use gwrust::registry::Registry;
use gwrust::scheduler::{instruments, play_once, voice, Voice};
use gwrust::stream::{BufferStream, SampleStream};

#[test]
fn instruments_match_the_choreography() {
    let all = instruments();
    assert_eq!(all.len(), 9);
    assert_eq!(all[0].label, "M1");
    assert_eq!(all[5].label, "M44.00");
    assert_eq!((all[5].fade_ms, all[5].fade_in_ms), (30000, 30000));
    assert_eq!((all[6].fade_ms, all[6].fade_in_ms), (25000, 30000));
    assert_eq!((all[8].fade_ms, all[8].fade_in_ms), (500, 0));
    assert_eq!(all[8].label, "M201.00");
    let labels: Vec<&str> = all.iter().map(|i| i.label.as_str()).collect();
    assert_eq!(labels, vec!["M1", "M2", "M3", "M35", "M75", "M44.00", "M44.22", "M200.00", "M201.00"]);
}

#[test]
fn voice_applies_gain_and_duration() {
    let mut v = voice("M1".to_string(), BufferStream::looped(vec![1000], 1, 10), 2, 100, 0, 500);
    assert_eq!(v.label(), "M1");
    let out: Vec<Option<i32>> = (0..21).map(|_| v.next_sample()).collect();
    assert_eq!(out[0], Some(500));
    assert_eq!(out[18], Some(500));
    assert_eq!(out[19], Some(500));
    assert_eq!(out[20], None);
    assert_eq!(v.take_notices(), vec![Notice::Started, Notice::NewMax(500), Notice::Stopped]);
}

#[test]
fn play_once_enqueues_and_records() {
    let mut mixer: Mixer<Voice<BufferStream>> = Mixer::new(1, 10);
    mixer.add(Channel::new(1, 10));
    mixer.add(Channel::new(1, 10));
    let mut registry = Registry::new();
    let (ticket, call) = play_once(
        &mut mixer,
        &mut registry,
        1,
        "X".to_string(),
        BufferStream::looped(vec![100], 1, 10),
        2,
        200,
        0,
        1000,
        5_000,
    );
    assert_eq!((ticket, call), (0, 0));
    let w = registry.get(&"X".to_string()).unwrap();
    assert_eq!((w.start_ms, w.end_ms), (5_000, 7_000));
    let out: Vec<Option<i32>> = (0..21).map(|_| mixer.next_sample()).collect();
    assert!(out[..19].iter().all(|s| *s == Some(100)));
    assert_eq!(out[19], Some(50));
    assert_eq!(out[20], Some(0));
    assert_eq!(mixer.take_finished(), vec![(1, 0)]);
    assert!(registry.finish(&"X".to_string(), call));
    assert_eq!(registry.get(&"X".to_string()), None);
}
