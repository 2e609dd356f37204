use gwrust::amplify::Amplify;
use gwrust::channel::Channel;
use gwrust::stream::{BufferStream, SampleStream};

#[test]
fn sequential_streams_play_back_to_back() {
    let mut ch: Channel<BufferStream> = Channel::new(1, 1000);
    let a = ch.enqueue(BufferStream::once(vec![1, 2, 3], 1, 1000));
    let b = ch.enqueue(BufferStream::once(vec![4, 5], 1, 1000));
    assert_eq!((a, b), (0, 1));
    let mut out = Vec::new();
    for _ in 0..7 {
        out.push(ch.pull());
    }
    assert_eq!(out, vec![1, 2, 3, 4, 5, 0, 0]);
    assert_eq!(ch.take_finished(), vec![0, 1]);
    assert!(ch.take_finished().is_empty());
}

#[test]
fn completion_is_reported_once_after_the_last_sample() {
    let mut ch: Channel<BufferStream> = Channel::new(1, 1000);
    ch.enqueue(BufferStream::once(vec![1, 2], 1, 1000));
    ch.enqueue(BufferStream::once(vec![3], 1, 1000));
    assert_eq!(ch.pull(), 1);
    assert_eq!(ch.pull(), 2);
    assert!(ch.take_finished().is_empty());
    assert_eq!(ch.pull(), 3);
    assert_eq!(ch.take_finished(), vec![0]);
    assert_eq!(ch.pull(), 0);
    assert_eq!(ch.take_finished(), vec![1]);
    assert_eq!(ch.pull(), 0);
    assert!(ch.take_finished().is_empty());
}

#[test]
fn empty_streams_are_passed_over_in_the_same_tick() {
    let mut ch: Channel<BufferStream> = Channel::new(1, 1000);
    ch.enqueue(BufferStream::once(vec![], 1, 1000));
    ch.enqueue(BufferStream::once(vec![], 1, 1000));
    ch.enqueue(BufferStream::once(vec![8], 1, 1000));
    assert_eq!(ch.next_sample(), Some(8));
    assert_eq!(ch.take_finished(), vec![0, 1]);
}

#[test]
fn empty_channel_plays_silence_in_its_format() {
    let mut ch: Channel<BufferStream> = Channel::new(2, 44100);
    assert_eq!(ch.channels(), 2);
    assert_eq!(ch.sample_rate(), 44100);
    assert!(ch.can_enqueue());
    assert_eq!(ch.next_sample(), Some(0));
    assert_eq!(ch.total_duration_ms(), None);
}

#[test]
fn amplify_scales_by_thousandths() {
    let mut s = Amplify::new(BufferStream::once(vec![1000, -1000, 7, i32::MAX], 1, 1000), 500);
    assert_eq!(s.next_sample(), Some(500));
    assert_eq!(s.next_sample(), Some(-500));
    assert_eq!(s.next_sample(), Some(3));
    assert_eq!(s.next_sample(), Some(i32::MAX / 2));
    assert_eq!(s.next_sample(), None);
    let mut loud = Amplify::new(BufferStream::once(vec![i32::MAX, i32::MIN], 1, 1000), 2000);
    assert_eq!(loud.next_sample(), Some(i32::MAX));
    assert_eq!(loud.next_sample(), Some(i32::MIN));
}

#[test]
fn looped_buffer_repeats() {
    let mut s = BufferStream::looped(vec![1, 2], 1, 1000);
    let out: Vec<Option<i32>> = (0..5).map(|_| s.next_sample()).collect();
    assert_eq!(out, vec![Some(1), Some(2), Some(1), Some(2), Some(1)]);
    let mut e = BufferStream::looped(vec![], 1, 1000);
    assert_eq!(e.next_sample(), None);
}
