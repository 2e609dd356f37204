use vstd::prelude::*;

verus! {

/// Length of one pass over a track's cues, in seconds: what the sleep cues
/// leave of it is slept at the end of the pass.
pub const CYCLE_SECS: u32 = 600;

/// Bound, in milliseconds, of the random offset added to a jittered sleep.
pub const JITTER_MS: i64 = 200;

/// One step of a track.
#[allow(inconsistent_fields)]
#[derive(Clone, Copy, Debug, PartialEq, Eq, Structural)]
pub enum Cue {
    /// Play instrument number `instrument` for `secs` seconds.
    Play { instrument: usize, secs: u64 },
    /// Wait `secs` seconds, with a random offset if `jittered`.
    Sleep { secs: u32, jittered: bool },
}

/// What a track asks its runner to do next.
#[allow(inconsistent_fields)]
#[derive(Clone, Copy, Debug, PartialEq, Eq, Structural)]
pub enum Action {
    Play { instrument: usize, secs: u64 },
    Sleep { ms: u64 },
}

/// Milliseconds slept for `secs` seconds moved by `jitter` ms, never below zero.
pub open spec fn sleep_len(secs: u32, jitter: int) -> nat {
    let t = secs * 1000 + jitter;
    if t < 0 {
        0
    } else {
        t as nat
    }
}

/// The action for cue `c` when the random offset drawn is `jitter`.
pub open spec fn cue_action(c: Cue, jitter: int) -> Action {
    match c {
        Cue::Play { instrument, secs } => Action::Play { instrument, secs },
        Cue::Sleep { secs, jittered } => Action::Sleep {
            ms: (if jittered {
                sleep_len(secs, jitter)
            } else {
                (secs * 1000) as nat
            }) as u64,
        },
    }
}

/// What is left of the pass after cue `c`: sleeps count at their nominal
/// length, and nothing goes below zero.
pub open spec fn left_after(rem: u32, c: Cue) -> u32 {
    match c {
        Cue::Sleep { secs, .. } => if rem >= secs {
            (rem - secs) as u32
        } else {
            0
        },
        Cue::Play { .. } => rem,
    }
}

/// `sleep_len` computed without overflow.
pub fn sleep_ms(secs: u32, jitter_ms: i64) -> (r: u64)
    ensures
        r == sleep_len(secs, jitter_ms as int),
{
    let t: i128 = secs as i128 * 1000 + jitter_ms as i128;
    if t < 0 {
        0
    } else {
        t as u64
    }
}

/// Relies on `rand::thread_rng` and `Rng::gen_range` over an inclusive range,
/// which returns a value inside it.
#[verifier::external_body]
fn draw_jitter(bound: i64) -> (r: i64)
    requires
        0 <= bound,
    ensures
        -bound <= r <= bound,
{
    rand::Rng::gen_range(&mut rand::thread_rng(), -bound..=bound)
}

/// An endlessly repeating list of cues.
pub struct Track {
    cues: Vec<Cue>,
    pos: usize,
    remainder: u32,
}

impl Track {
    pub closed spec fn spec_cues(&self) -> Seq<Cue> {
        self.cues@
    }

    /// Index of the next cue; the length of the list means the end of the pass.
    pub closed spec fn spec_pos(&self) -> nat {
        self.pos as nat
    }

    /// Seconds of the pass not yet slept.
    pub closed spec fn spec_remainder(&self) -> u32 {
        self.remainder
    }

    pub closed spec fn wf(&self) -> bool {
        self.pos <= self.cues@.len()
    }

    /// A track at the start of its first pass.
    pub fn new(cues: Vec<Cue>) -> (r: Self)
        ensures
            r.wf(),
            r.spec_cues() == cues@,
            r.spec_pos() == 0,
            r.spec_remainder() == CYCLE_SECS,
    {
        Track { cues, pos: 0, remainder: CYCLE_SECS }
    }

    /// Takes the next step, with `jitter_ms` as the random offset of a
    /// jittered sleep. At the end of a pass the track sleeps what is left of
    /// it and starts over.
    pub fn next_action(&mut self, jitter_ms: i64) -> (a: Action)
        requires
            old(self).wf(),
        ensures
            final(self).wf(),
            final(self).spec_cues() == old(self).spec_cues(),
            old(self).spec_pos() < old(self).spec_cues().len() ==> {
                let c = old(self).spec_cues()[old(self).spec_pos() as int];
                &&& a == cue_action(c, jitter_ms as int)
                &&& final(self).spec_pos() == old(self).spec_pos() + 1
                &&& final(self).spec_remainder() == left_after(old(self).spec_remainder(), c)
            },
            old(self).spec_pos() == old(self).spec_cues().len() ==> {
                &&& a == Action::Sleep { ms: (old(self).spec_remainder() * 1000) as u64 }
                &&& final(self).spec_pos() == 0
                &&& final(self).spec_remainder() == CYCLE_SECS
            },
    {
        if self.pos == self.cues.len() {
            let ms = self.remainder as u64 * 1000;
            self.pos = 0;
            self.remainder = CYCLE_SECS;
            return Action::Sleep { ms };
        }
        let c = self.cues[self.pos];
        self.pos = self.pos + 1;
        match c {
            Cue::Play { instrument, secs } => Action::Play { instrument, secs },
            Cue::Sleep { secs, jittered } => {
                self.remainder = if self.remainder >= secs {
                    self.remainder - secs
                } else {
                    0
                };
                if jittered {
                    Action::Sleep { ms: sleep_ms(secs, jitter_ms) }
                } else {
                    Action::Sleep { ms: secs as u64 * 1000 }
                }
            },
        }
    }

    /// Takes the next step, drawing the offset of a jittered sleep uniformly
    /// within `JITTER_MS` either way.
    pub fn advance(&mut self) -> (a: Action)
        requires
            old(self).wf(),
        ensures
            final(self).wf(),
            final(self).spec_cues() == old(self).spec_cues(),
            old(self).spec_pos() < old(self).spec_cues().len() ==> {
                let c = old(self).spec_cues()[old(self).spec_pos() as int];
                &&& exists|j: int| -JITTER_MS <= j <= JITTER_MS && a == #[trigger] cue_action(c, j)
                &&& final(self).spec_pos() == old(self).spec_pos() + 1
                &&& final(self).spec_remainder() == left_after(old(self).spec_remainder(), c)
            },
            old(self).spec_pos() == old(self).spec_cues().len() ==> {
                &&& a == Action::Sleep { ms: (old(self).spec_remainder() * 1000) as u64 }
                &&& final(self).spec_pos() == 0
                &&& final(self).spec_remainder() == CYCLE_SECS
            },
    {
        let mut jitter: i64 = 0;
        if self.pos < self.cues.len() {
            if let Cue::Sleep { jittered: true, .. } = self.cues[self.pos] {
                jitter = draw_jitter(JITTER_MS);
            }
        }
        let a = self.next_action(jitter);
        proof {
            if old(self).pos < old(self).cues@.len() {
                let c = old(self).cues@[old(self).pos as int];
                assert(a == cue_action(c, jitter as int));
            }
        }
        a
    }
}

/// One round of short bursts: three times `high` then `higher` for two
/// seconds each, about a second apart, then about four seconds of rest.
pub open spec fn burst_round(high: usize, higher: usize) -> Seq<Cue> {
    let pair = seq![
        Cue::Play { instrument: high, secs: 2 },
        Cue::Sleep { secs: 1, jittered: true },
        Cue::Play { instrument: higher, secs: 2 },
        Cue::Sleep { secs: 1, jittered: true },
    ];
    pair + pair + pair + seq![Cue::Sleep { secs: 4, jittered: true }]
}

/// Two rounds of short bursts.
pub open spec fn bursts(high: usize, higher: usize) -> Seq<Cue> {
    burst_round(high, higher) + burst_round(high, higher)
}

/// One pass of the installation's choreography, cue by cue.
pub open spec fn choreography_cues() -> Seq<Cue> {
    seq![
        Cue::Play { instrument: 3, secs: 600 },
        Cue::Sleep { secs: 30, jittered: false },
        Cue::Play { instrument: 4, secs: 540 },
        Cue::Sleep { secs: 30, jittered: false },
        Cue::Play { instrument: 0, secs: 210 },
        Cue::Sleep { secs: 10, jittered: false },
        Cue::Play { instrument: 1, secs: 190 },
        Cue::Sleep { secs: 50, jittered: false },
        Cue::Sleep { secs: 20, jittered: false },
        Cue::Sleep { secs: 50, jittered: false },
        Cue::Play { instrument: 5, secs: 250 },
        Cue::Sleep { secs: 10, jittered: false },
        Cue::Play { instrument: 6, secs: 230 },
        Cue::Sleep { secs: 90, jittered: false },
    ] + bursts(7, 8) + seq![
        Cue::Sleep { secs: 30, jittered: false },
        Cue::Play { instrument: 0, secs: 210 },
        Cue::Sleep { secs: 10, jittered: false },
        Cue::Play { instrument: 1, secs: 190 },
    ] + bursts(7, 8)
}

/// Appends one round of short bursts on `high` and `higher`.
fn push_burst_round(cues: &mut Vec<Cue>, high: usize, higher: usize)
    ensures
        final(cues)@ == old(cues)@ + burst_round(high, higher),
{
    let mut k: usize = 0;
    while k < 3
        invariant
            k <= 3,
            cues@.len() == old(cues)@.len() + 4 * k,
            forall|i: int| 0 <= i < old(cues)@.len() ==> cues@[i] == old(cues)@[i],
            forall|i: int|
                0 <= i < 4 * k ==> #[trigger] cues@[old(cues)@.len() + i] == burst_round(
                    high,
                    higher,
                )[i],
        decreases 3 - k,
    {
        cues.push(Cue::Play { instrument: high, secs: 2 });
        cues.push(Cue::Sleep { secs: 1, jittered: true });
        cues.push(Cue::Play { instrument: higher, secs: 2 });
        cues.push(Cue::Sleep { secs: 1, jittered: true });
        k = k + 1;
    }
    cues.push(Cue::Sleep { secs: 4, jittered: true });
    assert(cues@ =~= old(cues)@ + burst_round(high, higher)) by {
        assert forall|i: int| 0 <= i < 13 implies #[trigger] cues@[old(cues)@.len() + i]
            == burst_round(high, higher)[i] by {
            if i < 12 {
                assert(cues@[old(cues)@.len() + i] == burst_round(high, higher)[i]);
            }
        }
        assert forall|i: int| old(cues)@.len() <= i < cues@.len() implies cues@[i] == (old(cues)@
            + burst_round(high, higher))[i] by {
            assert(cues@[old(cues)@.len() + (i - old(cues)@.len())] == burst_round(high, higher)[i
                - old(cues)@.len()]);
        }
    }
}

/// Number of instruments that the installation's choreography plays.
pub const INSTRUMENT_COUNT: usize = 9;

/// The installation's choreography, one pass of about ten minutes. It plays
/// the instruments numbered as in `crate::scheduler::instruments`: the two
/// low drones first, then two runs of the masses with the triangles between
/// them, each run followed by short bursts on the two high triangles.
pub fn choreography() -> (r: Vec<Cue>)
    ensures
        r@ == choreography_cues(),
        r@.len() == 70,
        forall|i: int|
            0 <= i < r@.len() ==> match #[trigger] r@[i] {
                Cue::Play { instrument, .. } => instrument < INSTRUMENT_COUNT,
                Cue::Sleep { .. } => true,
            },
{
    let mut cues: Vec<Cue> = Vec::new();
    cues.push(Cue::Play { instrument: 3, secs: 600 });
    cues.push(Cue::Sleep { secs: 30, jittered: false });
    cues.push(Cue::Play { instrument: 4, secs: 540 });
    cues.push(Cue::Sleep { secs: 30, jittered: false });
    cues.push(Cue::Play { instrument: 0, secs: 210 });
    cues.push(Cue::Sleep { secs: 10, jittered: false });
    cues.push(Cue::Play { instrument: 1, secs: 190 });
    cues.push(Cue::Sleep { secs: 50, jittered: false });
    cues.push(Cue::Sleep { secs: 20, jittered: false });
    cues.push(Cue::Sleep { secs: 50, jittered: false });
    cues.push(Cue::Play { instrument: 5, secs: 250 });
    cues.push(Cue::Sleep { secs: 10, jittered: false });
    cues.push(Cue::Play { instrument: 6, secs: 230 });
    cues.push(Cue::Sleep { secs: 90, jittered: false });
    let ghost head = cues@;
    push_burst_round(&mut cues, 7, 8);
    push_burst_round(&mut cues, 7, 8);
    let ghost first = cues@;
    cues.push(Cue::Sleep { secs: 30, jittered: false });
    cues.push(Cue::Play { instrument: 0, secs: 210 });
    cues.push(Cue::Sleep { secs: 10, jittered: false });
    cues.push(Cue::Play { instrument: 1, secs: 190 });
    let ghost middle = cues@;
    push_burst_round(&mut cues, 7, 8);
    push_burst_round(&mut cues, 7, 8);
    proof {
        let b = burst_round(7, 8);
        assert(first =~= head + bursts(7, 8));
        assert(cues@ =~= middle + bursts(7, 8));
        assert(cues@ =~= choreography_cues());
        assert forall|i: int| 0 <= i < cues@.len() implies match #[trigger] cues@[i] {
            Cue::Play { instrument, .. } => instrument < INSTRUMENT_COUNT,
            Cue::Sleep { .. } => true,
        } by {
            let n = cues@.len();
            assert(b.len() == 13);
            if i >= 14 && i < 40 {
                let j = (i - 14) % 13;
                assert(cues@[i] == b[j]) by {
                    if i < 27 {
                        assert(cues@[i] == b[i - 14]);
                    } else {
                        assert(cues@[i] == b[i - 27]);
                    }
                }
            } else if i >= 44 {
                if i < 57 {
                    assert(cues@[i] == b[i - 44]);
                } else {
                    assert(cues@[i] == b[i - 57]);
                }
            }
        }
    }
    cues
}

} // verus!
