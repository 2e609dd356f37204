use vstd::arithmetic::div_mod::{lemma_div_by_multiple, lemma_div_is_ordered};
use vstd::arithmetic::mul::{lemma_mul_inequality, lemma_mul_upper_bound};
use vstd::prelude::*;

use crate::stream::{nth_pull, SampleStream};

verus! {

/// `s * n / d`, rounded toward zero.
pub open spec fn scale(s: int, n: int, d: int) -> int {
    if s >= 0 {
        s * n / d
    } else {
        -((-s) * n / d)
    }
}

/// Number of samples in `ms` milliseconds at `rate` samples per second,
/// rounded down and capped at `u64::MAX`.
pub open spec fn samples_for(ms: nat, rate: nat) -> nat {
    let n = ms * rate / 1000;
    if n > u64::MAX {
        u64::MAX as nat
    } else {
        n
    }
}

/// The sample `s`, emitted at position `e` of an envelope that ends after
/// `total` samples, fades out over its last `fade` samples and fades in over
/// its first `fade_in` samples.
pub open spec fn faded(s: int, total: nat, fade: nat, fade_in: nat, e: nat) -> int {
    let out = if e + fade < total {
        s
    } else {
        scale(s, total - e, fade as int)
    };
    if e < fade_in {
        scale(out, e as int, fade_in as int)
    } else {
        out
    }
}

/// Every one of the first `k + 1` pulls of `s` yields a sample.
pub open spec fn alive<S: SampleStream>(s: S, k: nat) -> bool {
    forall|j: nat| j <= k ==> (#[trigger] s.ahead(j)).is_some()
}

/// Truncates its inner stream to a fixed number of samples, with a linear
/// fade-out over the last ones and an optional linear fade-in at the start.
pub struct FadeEnvelope<S: SampleStream> {
    inner: S,
    total: u64,
    fade: u64,
    fade_in: u64,
    elapsed: u64,
    done: bool,
}

/// `s * num / den` rounded toward zero, for a gain `num / den` of at most one.
fn apply_gain(s: i32, num: u64, den: u64) -> (r: i32)
    requires
        0 < den,
        num <= den,
    ensures
        r == scale(s as int, num as int, den as int),
{
    let m: u128 = if s >= 0 {
        s as u128
    } else {
        (-(s as i64)) as u128
    };
    proof {
        lemma_mul_upper_bound(m as int, 0x8000_0000, num as int, u64::MAX as int);
        lemma_mul_inequality(num as int, den as int, m as int);
        lemma_div_is_ordered(num as int * m as int, den as int * m as int, den as int);
        lemma_div_by_multiple(m as int, den as int);
        assert(m as int * num as int == num as int * m as int) by (nonlinear_arith);
        assert(m as int * den as int == den as int * m as int) by (nonlinear_arith);
    }
    let q: u128 = m * (num as u128) / (den as u128);
    if s >= 0 {
        q as i32
    } else {
        (-(q as i64)) as i32
    }
}

/// Samples per second of a stream: one for each channel at each tick.
pub open spec fn samples_per_sec<S: SampleStream>(s: S) -> nat {
    s.spec_sample_rate() as nat * s.spec_channels() as nat
}

/// Samples per second at `rate` ticks per second with `channels` channels.
fn per_sec(rate: u32, channels: u16) -> (r: u64)
    ensures
        r == rate as nat * channels as nat,
        r <= u32::MAX as int * u16::MAX as int,
{
    proof {
        lemma_mul_upper_bound(rate as int, u32::MAX as int, channels as int, u16::MAX as int);
    }
    rate as u64 * channels as u64
}

/// `samples_for` computed without overflow.
fn samples_in(ms: u64, rate: u64) -> (r: u64)
    requires
        rate <= u32::MAX as int * u16::MAX as int,
    ensures
        r == samples_for(ms as nat, rate as nat),
{
    proof {
        lemma_mul_upper_bound(ms as int, u64::MAX as int, rate as int, u32::MAX as int * u16::MAX as int);
        assert(u64::MAX as int * (u32::MAX as int * u16::MAX as int) <= u128::MAX) by (nonlinear_arith);
    }
    let n: u128 = (ms as u128) * (rate as u128) / 1000;
    if n > u64::MAX as u128 {
        u64::MAX
    } else {
        n as u64
    }
}

impl<S: SampleStream> FadeEnvelope<S> {
    pub closed spec fn spec_inner(&self) -> S {
        self.inner
    }

    /// Length of the envelope in samples.
    pub closed spec fn spec_total(&self) -> nat {
        self.total as nat
    }

    /// Length of the fade-out in samples (at most `spec_total`).
    pub closed spec fn spec_fade(&self) -> nat {
        self.fade as nat
    }

    /// Length of the fade-in in samples.
    pub closed spec fn spec_fade_in(&self) -> nat {
        self.fade_in as nat
    }

    /// Samples emitted so far.
    pub closed spec fn spec_elapsed(&self) -> nat {
        self.elapsed as nat
    }

    /// Whether the envelope has reported its end.
    pub closed spec fn spec_done(&self) -> bool {
        self.done
    }

    /// Wraps `inner` for `duration_ms`, fading out over the last `fade_ms`
    /// (clamped to the duration); both are converted to samples at the inner
    /// stream's rate, counting a sample for each channel.
    pub fn new(inner: S, duration_ms: u64, fade_ms: u64) -> (r: Self)
        requires
            inner.wf(),
        ensures
            r.wf(),
            r.spec_inner() == inner,
            r.spec_channels() == inner.spec_channels(),
            r.spec_sample_rate() == inner.spec_sample_rate(),
            r.spec_total() == samples_for(duration_ms as nat, samples_per_sec(inner)),
            r.spec_fade() == samples_for(
                (if fade_ms <= duration_ms { fade_ms } else { duration_ms }) as nat,
                samples_per_sec(inner),
            ),
            r.spec_fade_in() == 0,
            r.spec_elapsed() == 0,
            !r.spec_done(),
            forall|k: nat| #[trigger]
                r.ahead(k) == (if k < r.spec_total() && alive(inner, k) {
                    Some(
                        faded(inner.ahead(k).unwrap() as int, r.spec_total(), r.spec_fade(), 0, k)
                            as i32,
                    )
                } else {
                    None
                }),
    {
        let rate = per_sec(inner.sample_rate(), inner.channels());
        let fade_ms = if fade_ms <= duration_ms {
            fade_ms
        } else {
            duration_ms
        };
        let total = samples_in(duration_ms, rate);
        let fade = samples_in(fade_ms, rate);
        proof {
            lemma_mul_inequality(fade_ms as int, duration_ms as int, rate as int);
            lemma_div_is_ordered(fade_ms as int * rate as int, duration_ms as int * rate as int, 1000);
        }
        FadeEnvelope { inner, total, fade, fade_in: 0, elapsed: 0, done: false }
    }

    /// Adds a linear fade-in from silence over the first `fade_in_ms`.
    pub fn with_fade_in(self, fade_in_ms: u64) -> (r: Self)
        requires
            self.wf(),
        ensures
            r.wf(),
            r.spec_inner() == self.spec_inner(),
            r.spec_total() == self.spec_total(),
            r.spec_fade() == self.spec_fade(),
            r.spec_fade_in() == samples_for(fade_in_ms as nat, samples_per_sec(self.spec_inner())),
            r.spec_elapsed() == self.spec_elapsed(),
            r.spec_done() == self.spec_done(),
            r.spec_channels() == self.spec_channels(),
            r.spec_sample_rate() == self.spec_sample_rate(),
            forall|k: nat| #[trigger]
                r.ahead(k) == (if !self.spec_done() && self.spec_elapsed() + k < self.spec_total()
                    && alive(self.spec_inner(), k) {
                    Some(
                        faded(
                            self.spec_inner().ahead(k).unwrap() as int,
                            self.spec_total(),
                            self.spec_fade(),
                            r.spec_fade_in(),
                            self.spec_elapsed() + k,
                        ) as i32,
                    )
                } else {
                    None
                }),
    {
        let rate = per_sec(self.inner.sample_rate(), self.inner.channels());
        let fade_in = samples_in(fade_in_ms, rate);
        FadeEnvelope { fade_in, ..self }
    }

    /// Pulls one sample. Once the envelope's length is reached, or the inner
    /// stream has ended, the inner stream is left alone: it is not pulled
    /// again, and what it still holds is abandoned.
    pub fn pull(&mut self) -> (r: Option<i32>)
        requires
            old(self).wf(),
        ensures
            final(self).wf(),
            r == old(self).ahead(0),
            forall|k: nat| #[trigger] final(self).ahead(k) == old(self).ahead(k + 1),
            final(self).spec_total() == old(self).spec_total(),
            final(self).spec_fade() == old(self).spec_fade(),
            final(self).spec_fade_in() == old(self).spec_fade_in(),
            old(self).spec_done() || old(self).spec_elapsed() >= old(self).spec_total() ==> {
                &&& r == None::<i32>
                &&& final(self).spec_inner() == old(self).spec_inner()
                &&& final(self).spec_elapsed() == old(self).spec_elapsed()
                &&& final(self).spec_done()
            },
            !old(self).spec_done() && old(self).spec_elapsed() < old(self).spec_total() ==> {
                &&& r == match old(self).spec_inner().ahead(0) {
                    None => None,
                    Some(v) => Some(
                        faded(
                            v as int,
                            old(self).spec_total(),
                            old(self).spec_fade(),
                            old(self).spec_fade_in(),
                            old(self).spec_elapsed(),
                        ) as i32,
                    ),
                }
                &&& forall|k: nat| #[trigger] final(self).spec_inner().ahead(k) == old(self).spec_inner().ahead(k + 1)
                &&& final(self).spec_inner().spec_channels() == old(self).spec_inner().spec_channels()
                &&& final(self).spec_inner().spec_sample_rate() == old(self).spec_inner().spec_sample_rate()
                &&& final(self).spec_elapsed() == old(self).spec_elapsed() + (if r is Some { 1nat } else { 0nat })
                &&& final(self).spec_done() == r is None
            },
            final(self).spec_channels() == old(self).spec_channels(),
            final(self).spec_sample_rate() == old(self).spec_sample_rate(),
    {
        if self.done || self.elapsed >= self.total {
            self.done = true;
            return None;
        }
        match self.inner.next_sample() {
            None => {
                self.done = true;
                proof {
                    assert(!alive(old(self).inner, 0));
                    assert forall|k: nat| #[trigger] self.ahead(k) == old(self).ahead(k + 1) by {
                        assert(!alive(old(self).inner, k + 1));
                    }
                }
                None
            },
            Some(v) => {
                let e = self.elapsed;
                let out = if e < self.total - self.fade {
                    v
                } else {
                    apply_gain(v, self.total - e, self.fade)
                };
                let g = if e < self.fade_in {
                    apply_gain(out, e, self.fade_in)
                } else {
                    out
                };
                self.elapsed = e + 1;
                proof {
                    let inner0 = old(self).inner;
                    assert(alive(inner0, 0));
                    assert forall|k: nat| #[trigger] self.ahead(k) == old(self).ahead(k + 1) by {
                        assert(self.inner.ahead(k) == inner0.ahead(k + 1));
                        if alive(self.inner, k) {
                            assert forall|j: nat| j <= k + 1 implies (#[trigger] inner0.ahead(
                                j,
                            )).is_some() by {
                                if j > 0 {
                                    assert(self.inner.ahead((j - 1) as nat) == inner0.ahead(j));
                                }
                            }
                        }
                        if alive(inner0, k + 1) {
                            assert forall|j: nat| j <= k implies (#[trigger] self.inner.ahead(
                                j,
                            )).is_some() by {
                                assert(self.inner.ahead(j) == inner0.ahead(j + 1));
                            }
                        }
                    }
                    assert(faded(v as int, self.total as nat, self.fade as nat, self.fade_in as nat, e as nat) == g);
                }
                Some(g)
            },
        }
    }
}

impl<S: SampleStream> SampleStream for FadeEnvelope<S> {
    closed spec fn wf(&self) -> bool {
        &&& self.inner.wf()
        &&& self.fade <= self.total
    }

    open spec fn ahead(&self, k: nat) -> Option<i32> {
        if !self.spec_done() && self.spec_elapsed() + k < self.spec_total() && alive(
            self.spec_inner(),
            k,
        ) {
            Some(
                faded(
                    self.spec_inner().ahead(k).unwrap() as int,
                    self.spec_total(),
                    self.spec_fade(),
                    self.spec_fade_in(),
                    self.spec_elapsed() + k,
                ) as i32,
            )
        } else {
            None
        }
    }

    open spec fn spec_channels(&self) -> u16 {
        self.spec_inner().spec_channels()
    }

    open spec fn spec_sample_rate(&self) -> u32 {
        self.spec_inner().spec_sample_rate()
    }

    open spec fn spec_frame_len(&self) -> Option<usize> {
        self.spec_inner().spec_frame_len()
    }

    /// What is left of the envelope's length, in whole milliseconds (zero
    /// for a stream without samples per second).
    open spec fn spec_total_duration_ms(&self) -> Option<u64> {
        let rate = samples_per_sec(self.spec_inner());
        if rate == 0 || self.spec_elapsed() >= self.spec_total() {
            Some(0u64)
        } else {
            let ms = (self.spec_total() - self.spec_elapsed()) * 1000 / (rate as int);
            Some(
                if ms > u64::MAX {
                    u64::MAX
                } else {
                    ms as u64
                },
            )
        }
    }

    fn next_sample(&mut self) -> (r: Option<i32>) {
        self.pull()
    }

    fn channels(&self) -> (r: u16) {
        self.inner.channels()
    }

    fn sample_rate(&self) -> (r: u32) {
        self.inner.sample_rate()
    }

    fn current_frame_len(&self) -> Option<usize> {
        self.inner.current_frame_len()
    }

    fn total_duration_ms(&self) -> Option<u64> {
        let rate = per_sec(self.inner.sample_rate(), self.inner.channels());
        if rate == 0 || self.elapsed >= self.total {
            Some(0)
        } else {
            let ms: u128 = (self.total - self.elapsed) as u128 * 1000 / (rate as u128);
            if ms > u64::MAX as u128 {
                Some(u64::MAX)
            } else {
                Some(ms as u64)
            }
        }
    }
}

/// Scaling by a gain between zero and one keeps the sign and does not grow
/// the magnitude.
pub proof fn lemma_scale_bounded(s: int, n: int, d: int)
    requires
        0 <= n <= d,
        0 < d,
    ensures
        s >= 0 ==> 0 <= scale(s, n, d) <= s,
        s < 0 ==> s <= scale(s, n, d) <= 0,
{
    let m = if s >= 0 {
        s
    } else {
        -s
    };
    lemma_mul_inequality(n, d, m);
    lemma_div_is_ordered(n * m, d * m, d);
    lemma_div_by_multiple(m, d);
    assert(m * n == n * m) by (nonlinear_arith);
    assert(m * d == d * m) by (nonlinear_arith);
    assert(0 <= m * n) by (nonlinear_arith)
        requires
            0 <= m,
            0 <= n,
    ;
    lemma_div_is_ordered(0, m * n, d);
}

/// The envelope's gain never grows a sample: the result keeps the sample's
/// sign and is at most as large.
pub proof fn lemma_faded_bounded(s: int, total: nat, fade: nat, fade_in: nat, e: nat)
    requires
        e < total,
        fade <= total,
    ensures
        s >= 0 ==> 0 <= faded(s, total, fade, fade_in, e) <= s,
        s < 0 ==> s <= faded(s, total, fade, fade_in, e) <= 0,
{
    let out = if e + fade < total {
        s
    } else {
        scale(s, total - e, fade as int)
    };
    if e + fade >= total {
        lemma_scale_bounded(s, total - e, fade as int);
    }
    if e < fade_in {
        lemma_scale_bounded(out, e as int, fade_in as int);
    }
}

/// Over any inner stream, pull `k` of the envelope yields a sample exactly
/// when the envelope has not reached its length and the inner stream still
/// has a sample there (an early end is passed on at once, with no padding);
/// that sample is the inner one times the envelope's gain at its position,
/// and is never larger than it.
pub proof fn lemma_fade_any_source<S: SampleStream>(env: FadeEnvelope<S>)
    requires
        env.wf(),
    ensures
        forall|k: nat|
            (#[trigger] nth_pull(env, k)).is_some() <==> (!env.spec_done() && env.spec_elapsed() + k
                < env.spec_total() && alive(env.spec_inner(), k)),
        forall|k: nat|
            (#[trigger] nth_pull(env, k)).is_some() ==> {
                let s = env.spec_inner().ahead(k).unwrap() as int;
                let v = nth_pull(env, k).unwrap() as int;
                &&& v == faded(
                    s,
                    env.spec_total(),
                    env.spec_fade(),
                    env.spec_fade_in(),
                    env.spec_elapsed() + k,
                )
                &&& (s >= 0 ==> 0 <= v <= s)
                &&& (s < 0 ==> s <= v <= 0)
            },
{
    assert forall|k: nat| (#[trigger] nth_pull(env, k)).is_some() implies {
        let s = env.spec_inner().ahead(k).unwrap() as int;
        let v = nth_pull(env, k).unwrap() as int;
        &&& v == faded(
            s,
            env.spec_total(),
            env.spec_fade(),
            env.spec_fade_in(),
            env.spec_elapsed() + k,
        )
        &&& (s >= 0 ==> 0 <= v <= s)
        &&& (s < 0 ==> s <= v <= 0)
    } by {
        let s = env.spec_inner().ahead(k).unwrap() as int;
        lemma_faded_bounded(
            s,
            env.spec_total(),
            env.spec_fade(),
            env.spec_fade_in(),
            env.spec_elapsed() + k,
        );
    }
}

/// Over a stream that yields `c` forever, an envelope of `D` samples with a
/// fade-out of `F <= D` samples emits `c` unchanged at every position `e` with
/// `e < D - F`, then `c * (D - e) / F` (a linear ramp that would reach zero at
/// `e = D`), and ends after exactly `D` samples.
pub proof fn lemma_fade_over_constant<S: SampleStream>(env: FadeEnvelope<S>, c: i32)
    requires
        env.wf(),
        env.spec_elapsed() == 0,
        !env.spec_done(),
        env.spec_fade_in() == 0,
        forall|k: nat| #[trigger] env.spec_inner().ahead(k) == Some(c),
    ensures
        forall|e: nat|
            e + env.spec_fade() < env.spec_total() ==> #[trigger] nth_pull(env, e) == Some(c),
        forall|e: nat|
            e < env.spec_total() <= e + env.spec_fade() ==> (#[trigger] nth_pull(env, e)).is_some()
                && nth_pull(env, e).unwrap() as int == scale(
                c as int,
                env.spec_total() - e,
                env.spec_fade() as int,
            ),
        forall|e: nat| e >= env.spec_total() ==> #[trigger] nth_pull(env, e) == None::<i32>,
{
    let total = env.total as nat;
    let fade = env.fade as nat;
    assert forall|e: nat| e < total implies alive(env.inner, e) by {
        assert forall|j: nat| j <= e implies (#[trigger] env.inner.ahead(j)).is_some() by {
            assert(env.spec_inner().ahead(j) == Some(c));
        }
    }
    assert forall|e: nat| e < total <= e + fade implies (#[trigger] nth_pull(env, e)).is_some()
        && nth_pull(env, e).unwrap() as int == scale(c as int, total - e, fade as int) by {
        assert(env.spec_inner().ahead(e) == Some(c));
        lemma_scale_bounded(c as int, total - e, fade as int);
    }
    assert forall|e: nat| e + fade < total implies #[trigger] nth_pull(env, e) == Some(c) by {
        assert(env.spec_inner().ahead(e) == Some(c));
    }
}

/// With no fade-out the envelope is a hard cut: every sample before the end
/// passes unchanged, and nothing comes once the length is reached.
pub proof fn lemma_hard_cut<S: SampleStream>(env: FadeEnvelope<S>)
    requires
        env.wf(),
        !env.spec_done(),
        env.spec_fade() == 0,
        env.spec_fade_in() == 0,
    ensures
        forall|k: nat|
            env.spec_elapsed() + k < env.spec_total() && alive(env.spec_inner(), k)
                ==> #[trigger] nth_pull(env, k) == env.spec_inner().ahead(k),
        forall|k: nat|
            env.spec_elapsed() + k >= env.spec_total() ==> #[trigger] nth_pull(env, k) == None::<
                i32,
            >,
{
    assert forall|k: nat|
        env.spec_elapsed() + k < env.spec_total() && alive(env.spec_inner(), k) implies #[trigger] nth_pull(
        env,
        k,
    ) == env.spec_inner().ahead(k) by {
        assert(env.inner.ahead(k).is_some());
    }
}

} // verus!
