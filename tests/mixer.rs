use gwrust::channel::Channel;
use gwrust::mixer::Mixer;
use gwrust::stream::{BufferStream, SampleStream};

fn line(samples: Vec<i32>) -> Channel<BufferStream> {
    let mut ch = Channel::new(1, 1000);
    ch.enqueue(BufferStream::once(samples, 1, 1000));
    ch
}

#[test]
fn mixer_output_is_the_sum_of_its_inputs() {
    let mut m: Mixer<BufferStream> = Mixer::new(1, 1000);
    assert_eq!(m.add(line(vec![1, 2, 3])), 0);
    assert_eq!(m.add(line(vec![10, 20])), 1);
    assert_eq!(m.add(line(vec![-100, -100, -100, -100])), 2);
    let out: Vec<i32> = (0..5).map(|_| m.pull()).collect();
    assert_eq!(out, vec![-89, -78, -97, -100, 0]);
}

#[test]
fn removing_an_input_excludes_it_from_then_on() {
    let mut m: Mixer<BufferStream> = Mixer::new(1, 1000);
    m.add(line(vec![1, 1, 1, 1]));
    m.add(line(vec![10, 10, 10, 10]));
    assert_eq!(m.pull(), 11);
    assert_eq!(m.pull(), 11);
    let gone = m.remove(1);
    assert_eq!(m.len(), 1);
    assert_eq!(m.pull(), 1);
    assert_eq!(m.pull(), 1);
    drop(gone);
}

#[test]
fn mixer_without_inputs_is_silent() {
    let mut m: Mixer<BufferStream> = Mixer::new(2, 44100);
    assert_eq!(m.next_sample(), Some(0));
    assert_eq!(m.channels(), 2);
    assert_eq!(m.sample_rate(), 44100);
}

#[test]
fn mixer_holds_an_out_of_range_sum_to_the_sample_range() {
    let mut m: Mixer<BufferStream> = Mixer::new(1, 1000);
    m.add(line(vec![i32::MAX, i32::MIN]));
    m.add(line(vec![i32::MAX, i32::MIN]));
    assert_eq!(m.pull(), i32::MAX);
    assert_eq!(m.pull(), i32::MIN);
}

#[test]
fn mixer_reports_finished_tickets_by_line() {
    let mut m: Mixer<BufferStream> = Mixer::new(1, 1000);
    m.add(Channel::new(1, 1000));
    m.add(Channel::new(1, 1000));
    assert!(m.can_enqueue(1));
    let t = m.enqueue(1, BufferStream::once(vec![5], 1, 1000));
    assert_eq!(t, 0);
    assert_eq!(m.pull(), 5);
    assert!(m.take_finished().is_empty());
    assert_eq!(m.pull(), 0);
    assert_eq!(m.take_finished(), vec![(1, 0)]);
    assert!(m.take_finished().is_empty());
}
