use vstd::arithmetic::div_mod::{lemma_add_mod_noop, lemma_small_mod};
use vstd::prelude::*;

verus! {

/// A pull-based source of samples.
///
/// Its model is the sequence of results that successive pulls would give:
/// `ahead(k)` is what the pull after `k` further pulls returns (`None` marks the
/// end of the data).
pub trait SampleStream: Sized {
    /// Internal consistency, kept by every pull.
    spec fn wf(&self) -> bool;

    /// The result of the pull that follows `k` further pulls.
    spec fn ahead(&self, k: nat) -> Option<i32>;

    spec fn spec_channels(&self) -> u16;

    spec fn spec_sample_rate(&self) -> u32;

    /// Samples after which the format may change, if that is known.
    spec fn spec_frame_len(&self) -> Option<usize>;

    /// What is left to play in milliseconds; `None` for an unbounded stream
    /// or one whose length is not known.
    spec fn spec_total_duration_ms(&self) -> Option<u64>;

    /// Pulls one sample, or `None` at the end of the data.
    fn next_sample(&mut self) -> (r: Option<i32>)
        requires
            old(self).wf(),
        ensures
            final(self).wf(),
            r == old(self).ahead(0),
            forall|k: nat| #[trigger] final(self).ahead(k) == old(self).ahead(k + 1),
            final(self).spec_channels() == old(self).spec_channels(),
            final(self).spec_sample_rate() == old(self).spec_sample_rate(),
    ;

    /// Number of interleaved channels.
    fn channels(&self) -> (r: u16)
        ensures
            r == self.spec_channels(),
    ;

    /// Samples per second.
    fn sample_rate(&self) -> (r: u32)
        ensures
            r == self.spec_sample_rate(),
    ;

    /// Number of samples after which the format may change, if that is known.
    fn current_frame_len(&self) -> (r: Option<usize>)
        ensures
            r == self.spec_frame_len(),
    ;

    /// What is left to play in milliseconds; `None` for an unbounded stream
    /// or one whose length is not known.
    fn total_duration_ms(&self) -> (r: Option<u64>)
        ensures
            r == self.spec_total_duration_ms(),
    ;
}

/// The result of pull number `k` (counting from zero) on a stream.
pub open spec fn nth_pull<S: SampleStream>(s: S, k: nat) -> Option<i32> {
    s.ahead(k)
}

/// The samples held in memory, played once or in a loop (a decoded file).
#[derive(Clone)]
pub struct BufferStream {
    samples: Vec<i32>,
    pos: usize,
    looping: bool,
    channels: u16,
    rate: u32,
}

impl BufferStream {
    pub closed spec fn spec_samples(&self) -> Seq<i32> {
        self.samples@
    }

    pub closed spec fn spec_pos(&self) -> nat {
        self.pos as nat
    }

    pub closed spec fn spec_looping(&self) -> bool {
        self.looping
    }

    /// Plays `samples` once, then ends.
    pub fn once(samples: Vec<i32>, channels: u16, rate: u32) -> (r: Self)
        ensures
            r.wf(),
            r.spec_samples() == samples@,
            r.spec_pos() == 0,
            !r.spec_looping(),
            r.spec_channels() == channels,
            r.spec_sample_rate() == rate,
            forall|k: nat| #[trigger] r.ahead(k) == (if k < samples@.len() {
                Some(samples@[k as int])
            } else {
                None
            }),
    {
        BufferStream { samples, pos: 0, looping: false, channels, rate }
    }

    /// Plays `samples` over and over; an empty buffer ends at once.
    pub fn looped(samples: Vec<i32>, channels: u16, rate: u32) -> (r: Self)
        ensures
            r.wf(),
            r.spec_samples() == samples@,
            r.spec_pos() == 0,
            r.spec_looping(),
            r.spec_channels() == channels,
            r.spec_sample_rate() == rate,
            forall|k: nat| #[trigger] r.ahead(k) == (if samples@.len() > 0 {
                Some(samples@[(k % samples@.len()) as int])
            } else {
                None
            }),
    {
        BufferStream { samples, pos: 0, looping: true, channels, rate }
    }
}

impl SampleStream for BufferStream {
    closed spec fn wf(&self) -> bool {
        &&& self.pos <= self.samples@.len()
        &&& (self.looping && self.samples@.len() > 0) ==> self.pos < self.samples@.len()
    }

    closed spec fn ahead(&self, k: nat) -> Option<i32> {
        let n = self.samples@.len();
        if self.looping && n > 0 {
            Some(self.samples@[((self.pos + k) % (n as int)) as int])
        } else if self.pos + k < n {
            Some(self.samples@[self.pos + k])
        } else {
            None
        }
    }

    closed spec fn spec_channels(&self) -> u16 {
        self.channels
    }

    closed spec fn spec_sample_rate(&self) -> u32 {
        self.rate
    }

    open spec fn spec_frame_len(&self) -> Option<usize> {
        None
    }

    open spec fn spec_total_duration_ms(&self) -> Option<u64> {
        None
    }

    fn next_sample(&mut self) -> (r: Option<i32>) {
        if self.pos < self.samples.len() {
            let v = self.samples[self.pos];
            self.pos = self.pos + 1;
            if self.looping && self.pos == self.samples.len() {
                self.pos = 0;
            }
            proof {
                let n = old(self).samples@.len() as int;
                let p = old(self).pos as int;
                if old(self).looping {
                    lemma_small_mod(p as nat, n as nat);
                    assert(p + 0 == p);
                }
                assert forall|k: nat| #[trigger] self.ahead(k) == old(self).ahead(k + 1) by {
                    if self.looping {
                        lemma_add_mod_noop(p + 1, k as int, n);
                        lemma_add_mod_noop(self.pos as int, k as int, n);
                        assert((p + 1) % n == self.pos as int % n);
                        assert(p + (k + 1) == (p + 1) + k);
                    }
                }
            }
            Some(v)
        } else {
            None
        }
    }

    fn channels(&self) -> (r: u16) {
        self.channels
    }

    fn sample_rate(&self) -> (r: u32) {
        self.rate
    }

    fn current_frame_len(&self) -> Option<usize> {
        None
    }

    fn total_duration_ms(&self) -> Option<u64> {
        None
    }
}

} // verus!
