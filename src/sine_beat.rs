use vstd::arithmetic::div_mod::{
    lemma_mod_add_multiples_vanish, lemma_mod_multiples_vanish, lemma_mod_pos_bound, lemma_mul_mod_noop,
    lemma_sub_mod_noop,
};
use vstd::arithmetic::mul::lemma_mul_upper_bound;
use vstd::prelude::*;

verus! {

/// Samples per second of a beat oscillator.
pub const BEAT_SAMPLE_RATE: u32 = 48000;

/// Phase, in units of `cycle`-ths of a full turn, reached by a frequency of
/// `num / t` millihertz after `n` samples at the beat oscillator's rate.
pub open spec fn phase_of(num: int, n: int, cycle: int) -> int {
    (num * n) % cycle
}

/// The two phases of a [`SineBeat`] at one sample, each as a fraction
/// `first / cycle` (resp. `second / cycle`) of a full turn.
#[derive(Clone, Copy, Debug, PartialEq, Eq, Structural)]
pub struct BeatPhases {
    pub first: u64,
    pub second: u64,
    pub cycle: u64,
}

/// Two sine waves a little above and below a base frequency, whose sum beats
/// once per beat period. One channel at 48 kHz, unbounded.
///
/// Frequencies are kept exactly: with a base of `f` mHz and a beat period of
/// `t` ms, the first is `(f * t + 500_000) / t` mHz and the second
/// `(f * t - 500_000) / t` mHz, half of `1 / T` above and below the base.
/// The sine itself is left to the caller, which receives each sample's phases.
#[derive(Clone, Copy, Debug)]
pub struct SineBeat {
    num1: i128,
    num2: i128,
    beat_ms: u32,
    cycle: u64,
    rem1: u64,
    rem2: u64,
    num_sample: u64,
}

impl SineBeat {
    /// Numerator of the first frequency, in mHz over the beat period in ms.
    pub closed spec fn spec_num1(&self) -> int {
        self.num1 as int
    }

    /// Numerator of the second frequency, in mHz over the beat period in ms.
    pub closed spec fn spec_num2(&self) -> int {
        self.num2 as int
    }

    /// Beat period in milliseconds: the common denominator of both frequencies.
    pub closed spec fn spec_beat_ms(&self) -> nat {
        self.beat_ms as nat
    }

    /// Units of phase in a full turn: `beat_ms * 48_000_000`.
    pub closed spec fn spec_cycle(&self) -> nat {
        self.cycle as nat
    }

    /// Index of the last sample produced.
    pub closed spec fn spec_num_sample(&self) -> nat {
        self.num_sample as nat
    }

    pub closed spec fn wf(&self) -> bool {
        &&& self.beat_ms > 0
        &&& self.cycle == self.beat_ms as int * 48_000_000
        &&& self.num1 - self.num2 == 1_000_000
        &&& self.rem1 == (self.num1 as int) % (self.cycle as int)
        &&& self.rem2 == (self.num2 as int) % (self.cycle as int)
    }

    /// An oscillator around `freq_mhz` millihertz whose beat lasts
    /// `beat_ms` milliseconds. It starts half a beat in: its counter begins
    /// at the number of samples in half a period.
    pub fn new(freq_mhz: u32, beat_ms: u32) -> (r: SineBeat)
        requires
            beat_ms > 0,
        ensures
            r.wf(),
            r.spec_beat_ms() == beat_ms,
            r.spec_num1() == freq_mhz * beat_ms + 500_000,
            r.spec_num2() == freq_mhz * beat_ms - 500_000,
            r.spec_num1() + r.spec_num2() == 2 * (freq_mhz * beat_ms),
            r.spec_num1() - r.spec_num2() == 1_000_000,
            r.spec_num_sample() == 24 * beat_ms,
            2 * (r.spec_num1() - r.spec_num2()) * r.spec_num_sample() == r.spec_cycle(),
    {
        proof {
            lemma_mul_upper_bound(freq_mhz as int, u32::MAX as int, beat_ms as int, u32::MAX as int);
        }
        let ft: i128 = freq_mhz as i128 * beat_ms as i128;
        let num1: i128 = ft + 500_000;
        let num2: i128 = ft - 500_000;
        let cycle: u64 = beat_ms as u64 * 48_000_000;
        proof {
            lemma_mod_pos_bound(num1 as int, cycle as int);
            lemma_mod_pos_bound(num2 + cycle, cycle as int);
            lemma_mod_add_multiples_vanish(num2 as int, cycle as int);
        }
        let rem1: u64 = ((num1 as u128) % (cycle as u128)) as u64;
        let rem2: u64 = (((num2 + cycle as i128) as u128) % (cycle as u128)) as u64;
        let num_sample: u64 = 24 * beat_ms as u64;
        proof {
            assert(num1 - num2 == 1_000_000);
            assert(2 * (num1 - num2) * num_sample == 2 * 1_000_000 * num_sample);
        }
        SineBeat { num1, num2, beat_ms, cycle, rem1, rem2, num_sample }
    }

    /// Moves to the next sample (the counter wraps around at `u64::MAX`) and
    /// returns the phases of both waves there.
    pub fn next_phases(&mut self) -> (r: BeatPhases)
        requires
            old(self).wf(),
        ensures
            final(self).wf(),
            final(self).spec_num_sample() == (if old(self).spec_num_sample() == u64::MAX {
                0
            } else {
                old(self).spec_num_sample() + 1
            }),
            final(self).spec_num1() == old(self).spec_num1(),
            final(self).spec_num2() == old(self).spec_num2(),
            final(self).spec_cycle() == old(self).spec_cycle(),
            r.cycle == old(self).spec_cycle(),
            r.first == phase_of(
                final(self).spec_num1(),
                final(self).spec_num_sample() as int,
                r.cycle as int,
            ),
            r.second == phase_of(
                final(self).spec_num2(),
                final(self).spec_num_sample() as int,
                r.cycle as int,
            ),
    {
        self.num_sample = if self.num_sample == u64::MAX {
            0
        } else {
            self.num_sample + 1
        };
        let n = self.num_sample % self.cycle;
        proof {
            let c = self.cycle as int;
            lemma_mod_pos_bound(self.num_sample as int, c);
            lemma_mul_mod_noop(self.num1 as int, self.num_sample as int, c);
            lemma_mul_mod_noop(self.num2 as int, self.num_sample as int, c);
            lemma_mul_upper_bound(self.rem1 as int, c, n as int, c);
            lemma_mul_upper_bound(self.rem2 as int, c, n as int, c);
            lemma_mul_upper_bound(c, 0x1_0000_0000int * 48_000_000int, c, 0x1_0000_0000int * 48_000_000int);
            lemma_mod_pos_bound(self.rem1 as int * n as int, c);
            lemma_mod_pos_bound(self.rem2 as int * n as int, c);
        }
        let first = ((self.rem1 as u128 * n as u128) % (self.cycle as u128)) as u64;
        let second = ((self.rem2 as u128 * n as u128) % (self.cycle as u128)) as u64;
        BeatPhases { first, second, cycle: self.cycle }
    }

    /// Always one channel.
    pub fn channels(&self) -> (r: u16)
        ensures
            r == 1,
    {
        1
    }

    /// Always 48 kHz.
    pub fn sample_rate(&self) -> (r: u32)
        ensures
            r == BEAT_SAMPLE_RATE,
    {
        BEAT_SAMPLE_RATE
    }
}

/// Over one beat period (`48 * beat_ms` samples) the phase of the first wave
/// gains exactly one full turn more than the phase of the second: the sum of
/// the two waves goes through exactly one beat.
pub proof fn lemma_one_beat_per_period(b: SineBeat, n: int)
    requires
        b.wf(),
    ensures
        (b.spec_num1() - b.spec_num2()) * (n + 48 * b.spec_beat_ms()) == (b.spec_num1()
            - b.spec_num2()) * n + b.spec_cycle(),
{
    assert(1_000_000 * (n + 48 * b.spec_beat_ms()) == 1_000_000 * n + 48_000_000
        * b.spec_beat_ms()) by (nonlinear_arith);
}

/// The beat as the caller sees it: at every sample `n`, the first wave's
/// phase runs ahead of the second's by `1_000_000 * n` units (modulo a turn),
/// so the gap is half a turn at the starting sample and comes back to the
/// same value exactly one beat period (`48 * beat_ms` samples) later.
pub proof fn lemma_beat_of_phases(b: SineBeat, n: int)
    requires
        b.wf(),
    ensures
        (phase_of(b.spec_num1(), n, b.spec_cycle() as int) - phase_of(
            b.spec_num2(),
            n,
            b.spec_cycle() as int,
        )) % (b.spec_cycle() as int) == (1_000_000 * n) % (b.spec_cycle() as int),
        (1_000_000 * (n + 48 * b.spec_beat_ms() as int)) % (b.spec_cycle() as int) == (1_000_000 * n) % (
        b.spec_cycle() as int),
        (1_000_000 * (24 * b.spec_beat_ms() as int)) % (b.spec_cycle() as int) * 2 == b.spec_cycle(),
{
    let c = b.spec_cycle() as int;
    let t = b.spec_beat_ms() as int;
    lemma_sub_mod_noop(b.spec_num1() * n, b.spec_num2() * n, c);
    assert(b.spec_num1() * n - b.spec_num2() * n == (b.spec_num1() - b.spec_num2()) * n)
        by (nonlinear_arith);
    assert(1_000_000 * (n + 48 * t) == c * 1 + 1_000_000 * n) by (nonlinear_arith)
        requires
            c == t * 48_000_000,
    ;
    lemma_mod_multiples_vanish(1, 1_000_000 * n, c);
    assert(1_000_000 * (24 * t) == c / 2) by (nonlinear_arith)
        requires
            c == t * 48_000_000,
    ;
    lemma_mod_pos_bound(1_000_000 * (24 * t), c);
    vstd::arithmetic::div_mod::lemma_small_mod((1_000_000 * (24 * t)) as nat, c as nat);
}

} // verus!
