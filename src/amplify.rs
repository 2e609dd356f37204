use vstd::arithmetic::mul::lemma_mul_upper_bound;
use vstd::prelude::*;

use crate::fade::scale;
use crate::mixer::clamp_sample;
use crate::stream::SampleStream;

verus! {

/// A sample multiplied by `gain / 1000`, rounded toward zero and held to the
/// range of a sample.
pub open spec fn amplified(s: i32, gain_permille: u32) -> i32 {
    clamp_sample(scale(s as int, gain_permille as int, 1000))
}

/// Multiplies every sample of its inner stream by a fixed gain, given in
/// thousandths.
pub struct Amplify<S: SampleStream> {
    inner: S,
    gain_permille: u32,
}

impl<S: SampleStream> Amplify<S> {
    pub closed spec fn spec_inner(&self) -> S {
        self.inner
    }

    pub closed spec fn spec_gain(&self) -> u32 {
        self.gain_permille
    }

    /// Wraps `inner` with the gain `gain_permille / 1000`.
    pub fn new(inner: S, gain_permille: u32) -> (r: Self)
        requires
            inner.wf(),
        ensures
            r.wf(),
            r.spec_inner() == inner,
            r.spec_gain() == gain_permille,
            r.spec_channels() == inner.spec_channels(),
            r.spec_sample_rate() == inner.spec_sample_rate(),
            forall|k: nat| #[trigger] r.ahead(k) == (match inner.ahead(k) {
                None => None,
                Some(s) => Some(amplified(s, gain_permille)),
            }),
    {
        Amplify { inner, gain_permille }
    }
}

/// `amplified` computed without overflow.
fn amplify_sample(s: i32, gain_permille: u32) -> (r: i32)
    ensures
        r == amplified(s, gain_permille),
{
    let m: u64 = if s >= 0 {
        s as u64
    } else {
        (-(s as i64)) as u64
    };
    proof {
        lemma_mul_upper_bound(m as int, 0x8000_0000, gain_permille as int, u32::MAX as int);
        assert(0x8000_0000 * u32::MAX as int <= u64::MAX) by (nonlinear_arith);
    }
    let q: u64 = m * (gain_permille as u64) / 1000;
    let v: i64 = if s >= 0 {
        q as i64
    } else {
        -(q as i64)
    };
    if v < i32::MIN as i64 {
        i32::MIN
    } else if v > i32::MAX as i64 {
        i32::MAX
    } else {
        v as i32
    }
}

impl<S: SampleStream> SampleStream for Amplify<S> {
    closed spec fn wf(&self) -> bool {
        self.inner.wf()
    }

    closed spec fn ahead(&self, k: nat) -> Option<i32> {
        match self.inner.ahead(k) {
            None => None,
            Some(s) => Some(amplified(s, self.gain_permille)),
        }
    }

    open spec fn spec_channels(&self) -> u16 {
        self.spec_inner().spec_channels()
    }

    open spec fn spec_sample_rate(&self) -> u32 {
        self.spec_inner().spec_sample_rate()
    }

    open spec fn spec_frame_len(&self) -> Option<usize> {
        self.spec_inner().spec_frame_len()
    }

    open spec fn spec_total_duration_ms(&self) -> Option<u64> {
        self.spec_inner().spec_total_duration_ms()
    }

    fn next_sample(&mut self) -> (r: Option<i32>) {
        match self.inner.next_sample() {
            None => None,
            Some(s) => Some(amplify_sample(s, self.gain_permille)),
        }
    }

    fn channels(&self) -> (r: u16) {
        self.inner.channels()
    }

    fn sample_rate(&self) -> (r: u32) {
        self.inner.sample_rate()
    }

    fn current_frame_len(&self) -> Option<usize> {
        self.inner.current_frame_len()
    }

    fn total_duration_ms(&self) -> Option<u64> {
        self.inner.total_duration_ms()
    }
}

} // verus!
