use vstd::prelude::*;

use crate::channel::Channel;
use crate::stream::SampleStream;

verus! {

/// Sum of what every input plays `k` pulls from now.
pub open spec fn mix_sum<S: SampleStream>(ins: Seq<Channel<S>>, k: nat) -> int
    decreases ins.len(),
{
    if ins.len() == 0 {
        0
    } else {
        mix_sum(ins.drop_last(), k) + ins.last().ahead(k).unwrap() as int
    }
}

/// `x` held to the range of a sample.
pub open spec fn clamp_sample(x: int) -> i32 {
    if x < i32::MIN {
        i32::MIN
    } else if x > i32::MAX {
        i32::MAX
    } else {
        x as i32
    }
}

/// Sums its input lines, sample by sample, with no normalisation: callers set
/// the level of each source. Only a sum outside the range of a sample is held
/// to that range. Inputs can be added and removed between pulls.
pub struct Mixer<S: SampleStream> {
    inputs: Vec<Channel<S>>,
    channels: u16,
    rate: u32,
}

/// Two lists of inputs whose members play the same at the given distances
/// sum to the same.
proof fn lemma_mix_sum_pointwise<S: SampleStream>(
    a: Seq<Channel<S>>,
    ka: nat,
    b: Seq<Channel<S>>,
    kb: nat,
)
    requires
        a.len() == b.len(),
        forall|j: int| 0 <= j < a.len() ==> (#[trigger] a[j]).ahead(ka) == b[j].ahead(kb),
    ensures
        mix_sum(a, ka) == mix_sum(b, kb),
    decreases a.len(),
{
    if a.len() > 0 {
        lemma_mix_sum_pointwise(a.drop_last(), ka, b.drop_last(), kb);
        assert(a.last() == a[a.len() - 1]);
    }
}

/// The mix is the sum of its parts: taking one input out of the list removes
/// exactly that input's sample from the sum, at every distance.
pub proof fn lemma_mix_sum_remove<S: SampleStream>(ins: Seq<Channel<S>>, i: int, k: nat)
    requires
        0 <= i < ins.len(),
    ensures
        mix_sum(ins, k) == mix_sum(ins.remove(i), k) + ins[i].ahead(k).unwrap() as int,
    decreases ins.len(),
{
    if i == ins.len() - 1 {
        assert(ins.remove(i) =~= ins.drop_last());
    } else {
        lemma_mix_sum_remove(ins.drop_last(), i, k);
        assert(ins.remove(i).drop_last() =~= ins.drop_last().remove(i));
        assert(ins.remove(i).last() == ins.last());
    }
}

impl<S: SampleStream> Mixer<S> {
    /// The input lines in the order they were added.
    pub closed spec fn spec_inputs(&self) -> Seq<Channel<S>> {
        self.inputs@
    }

    /// A mixer with no input, which plays silence in the given format.
    pub fn new(channels: u16, rate: u32) -> (r: Self)
        ensures
            r.wf(),
            r.spec_inputs() == Seq::<Channel<S>>::empty(),
            r.spec_channels() == channels,
            r.spec_sample_rate() == rate,
    {
        Mixer { inputs: Vec::new(), channels, rate }
    }

    /// Number of input lines.
    pub fn len(&self) -> (r: usize)
        ensures
            r == self.spec_inputs().len(),
    {
        self.inputs.len()
    }

    /// Adds an input line; it takes part from the next pull on. Returns its
    /// index.
    pub fn add(&mut self, input: Channel<S>) -> (index: usize)
        requires
            old(self).wf(),
            input.wf(),
        ensures
            final(self).wf(),
            final(self).spec_inputs() == old(self).spec_inputs().push(input),
            index == old(self).spec_inputs().len(),
            final(self).spec_channels() == old(self).spec_channels(),
            final(self).spec_sample_rate() == old(self).spec_sample_rate(),
    {
        let index = self.inputs.len();
        self.inputs.push(input);
        index
    }

    /// Takes input line `index` out; from the next pull on it no longer counts.
    pub fn remove(&mut self, index: usize) -> (r: Channel<S>)
        requires
            old(self).wf(),
            index < old(self).spec_inputs().len(),
        ensures
            final(self).wf(),
            r == old(self).spec_inputs()[index as int],
            final(self).spec_inputs() == old(self).spec_inputs().remove(index as int),
            forall|k: nat| #[trigger] final(self).ahead(k) == Some(
                clamp_sample(mix_sum(old(self).spec_inputs(), k) - r.ahead(k).unwrap() as int),
            ),
            final(self).spec_channels() == old(self).spec_channels(),
            final(self).spec_sample_rate() == old(self).spec_sample_rate(),
    {
        let r = self.inputs.remove(index);
        proof {
            assert forall|k: nat| #[trigger] self.ahead(k) == Some(
                clamp_sample(mix_sum(old(self).inputs@, k) - r.ahead(k).unwrap() as int),
            ) by {
                lemma_mix_sum_remove(old(self).inputs@, index as int, k);
            }
        }
        r
    }

    /// Appends `s` to input line `index`; returns its ticket there.
    pub fn enqueue(&mut self, index: usize, s: S) -> (ticket: u64)
        requires
            old(self).wf(),
            s.wf(),
            index < old(self).spec_inputs().len(),
            old(self).spec_inputs()[index as int].spec_next_ticket() < u64::MAX,
        ensures
            final(self).wf(),
            ticket == old(self).spec_inputs()[index as int].spec_next_ticket(),
            final(self).spec_inputs().len() == old(self).spec_inputs().len(),
            final(self).spec_inputs()[index as int].spec_queue() == old(self).spec_inputs()[index as int].spec_queue().push((s, ticket)),
            final(self).spec_inputs()[index as int].spec_next_ticket() == ticket + 1,
            final(self).spec_inputs()[index as int].spec_finished() == old(self).spec_inputs()[index as int].spec_finished(),
            forall|j: int|
                0 <= j < final(self).spec_inputs().len() && j != index ==> final(self).spec_inputs()[j] == old(self).spec_inputs()[j],
            final(self).spec_channels() == old(self).spec_channels(),
            final(self).spec_sample_rate() == old(self).spec_sample_rate(),
    {
        let ticket = self.inputs[index].enqueue(s);
        ticket
    }

    /// Whether input line `index` can take another stream.
    pub fn can_enqueue(&self, index: usize) -> (r: bool)
        requires
            index < self.spec_inputs().len(),
        ensures
            r == (self.spec_inputs()[index as int].spec_next_ticket() < u64::MAX),
    {
        self.inputs[index].can_enqueue()
    }

    /// Hands out, for every input line in order, the tickets of the streams
    /// finished there since the last call, each with the line's index.
    pub fn take_finished(&mut self) -> (r: Vec<(usize, u64)>)
        requires
            old(self).wf(),
        ensures
            final(self).wf(),
            final(self).spec_inputs().len() == old(self).spec_inputs().len(),
            forall|j: int|
                0 <= j < final(self).spec_inputs().len() ==> final(self).spec_inputs()[j].spec_finished() == Seq::<u64>::empty()
                    && final(self).spec_inputs()[j].spec_queue() == old(self).spec_inputs()[j].spec_queue(),
            forall|x: (usize, u64)|
                r@.contains(x) <==> (x.0 < old(self).spec_inputs().len() && old(self).spec_inputs()[x.0 as int].spec_finished().contains(x.1)),
            forall|k: nat| #[trigger] final(self).ahead(k) == old(self).ahead(k),
            final(self).spec_channels() == old(self).spec_channels(),
            final(self).spec_sample_rate() == old(self).spec_sample_rate(),
    {
        let mut r: Vec<(usize, u64)> = Vec::new();
        let n = self.inputs.len();
        let mut i: usize = 0;
        while i < n
            invariant
                self.wf(),
                n == self.inputs@.len(),
                n == old(self).inputs@.len(),
                i <= n,
                self.channels == old(self).channels,
                self.rate == old(self).rate,
                forall|j: int|
                    0 <= j < i ==> (#[trigger] self.inputs@[j]).spec_finished() == Seq::<
                        u64,
                    >::empty(),
                forall|j: int|
                    0 <= j < n ==> (#[trigger] self.inputs@[j]).spec_queue() == old(self).inputs@[j].spec_queue(),
                forall|j: int|
                    i <= j < n ==> #[trigger] self.inputs@[j] == old(self).inputs@[j],
                forall|j: int, k: nat|
                    0 <= j < n ==> #[trigger] self.inputs@[j].ahead(k) == old(self).inputs@[j].ahead(k),
                forall|x: (usize, u64)|
                    r@.contains(x) <==> (x.0 < i && old(self).inputs@[x.0 as int].spec_finished().contains(
                        x.1,
                    )),
            decreases n - i,
        {
            let done = self.inputs[i].take_finished();
            let ghost r0 = r@;
            let mut j: usize = 0;
            while j < done.len()
                invariant
                    i < n,
                    n == old(self).inputs@.len(),
                    forall|x: (usize, u64)|
                        r0.contains(x) <==> (x.0 < i && old(self).inputs@[x.0 as int].spec_finished().contains(
                            x.1,
                        )),
                    j <= done@.len(),
                    done@ == old(self).inputs@[i as int].spec_finished(),
                    r@.len() == r0.len() + j,
                    forall|m: int| 0 <= m < r0.len() ==> #[trigger] r@[m] == r0[m],
                    forall|m: int|
                        r0.len() <= m < r@.len() ==> #[trigger] r@[m] == (i, done@[m - r0.len()]),
                decreases done@.len() - j,
            {
                r.push((i, done[j]));
                j = j + 1;
            }
            proof {
                assert forall|x: (usize, u64)|
                    r@.contains(x) <==> (x.0 < i + 1 && old(self).inputs@[x.0 as int].spec_finished().contains(
                        x.1,
                    )) by {
                    if r@.contains(x) {
                        let m = choose|m: int| 0 <= m < r@.len() && r@[m] == x;
                        if m < r0.len() {
                            assert(r0.contains(x));
                        } else {
                            assert(done@[m - r0.len()] == x.1);
                        }
                    }
                    if x.0 < i + 1 && old(self).inputs@[x.0 as int].spec_finished().contains(x.1) {
                        if x.0 < i {
                            assert(r0.contains(x));
                            let m = choose|m: int| 0 <= m < r0.len() && r0[m] == x;
                            assert(r@[m] == x);
                        } else {
                            assert(done@.contains(x.1));
                            let m = choose|m: int|
                                0 <= m < done@.len() && done@[m] == x.1;
                            assert(r@[r0.len() + m] == x);
                        }
                    }
                }
            }
            i = i + 1;
        }
        proof {
            assert forall|k: nat| #[trigger] self.ahead(k) == old(self).ahead(k) by {
                lemma_mix_sum_pointwise(self.inputs@, k, old(self).inputs@, k);
            }
        }
        r
    }

    /// Plays one sample: pulls every input line once and sums what they give.
    pub fn pull(&mut self) -> (r: i32)
        requires
            old(self).wf(),
        ensures
            final(self).wf(),
            r == clamp_sample(mix_sum(old(self).spec_inputs(), 0)),
            Some(r) == old(self).ahead(0),
            forall|k: nat| #[trigger] final(self).ahead(k) == old(self).ahead(k + 1),
            final(self).spec_inputs().len() == old(self).spec_inputs().len(),
            final(self).spec_channels() == old(self).spec_channels(),
            final(self).spec_sample_rate() == old(self).spec_sample_rate(),
    {
        let n = self.inputs.len();
        let mut sum: i128 = 0;
        let mut i: usize = 0;
        while i < n
            invariant
                self.wf(),
                n == self.inputs@.len(),
                n == old(self).inputs@.len(),
                i <= n,
                self.channels == old(self).channels,
                self.rate == old(self).rate,
                sum == mix_sum(old(self).inputs@.take(i as int), 0),
                -0x8000_0000 * i <= sum <= 0x8000_0000 * i,
                forall|j: int, k: nat|
                    0 <= j < i ==> #[trigger] self.inputs@[j].ahead(k) == old(self).inputs@[j].ahead(k + 1),
                forall|j: int| i <= j < n ==> #[trigger] self.inputs@[j] == old(self).inputs@[j],
            decreases n - i,
        {
            let v = self.inputs[i].pull();
            proof {
                let t = old(self).inputs@.take(i as int + 1);
                assert(t.drop_last() =~= old(self).inputs@.take(i as int));
                assert(t.last() == old(self).inputs@[i as int]);
            }
            sum = sum + v as i128;
            i = i + 1;
        }
        proof {
            assert(old(self).inputs@.take(n as int) =~= old(self).inputs@);
            assert forall|k: nat| #[trigger] self.ahead(k) == old(self).ahead(k + 1) by {
                lemma_mix_sum_pointwise(self.inputs@, k, old(self).inputs@, k + 1);
            }
        }
        if sum < i32::MIN as i128 {
            i32::MIN
        } else if sum > i32::MAX as i128 {
            i32::MAX
        } else {
            sum as i32
        }
    }
}

impl<S: SampleStream> SampleStream for Mixer<S> {
    closed spec fn wf(&self) -> bool {
        forall|j: int| 0 <= j < self.inputs@.len() ==> (#[trigger] self.inputs@[j]).wf()
    }

    closed spec fn ahead(&self, k: nat) -> Option<i32> {
        Some(clamp_sample(mix_sum(self.inputs@, k)))
    }

    closed spec fn spec_channels(&self) -> u16 {
        self.channels
    }

    closed spec fn spec_sample_rate(&self) -> u32 {
        self.rate
    }

    open spec fn spec_frame_len(&self) -> Option<usize> {
        None
    }

    open spec fn spec_total_duration_ms(&self) -> Option<u64> {
        None
    }

    fn next_sample(&mut self) -> (r: Option<i32>) {
        Some(self.pull())
    }

    fn channels(&self) -> (r: u16) {
        self.channels
    }

    fn sample_rate(&self) -> (r: u32) {
        self.rate
    }

    fn current_frame_len(&self) -> Option<usize> {
        None
    }

    fn total_duration_ms(&self) -> Option<u64> {
        None
    }
}

} // verus!
