use vstd::prelude::*;

use crate::stream::{nth_pull, SampleStream};

verus! {

/// What a queue of streams plays, `k` pulls from now, when its front stream
/// has already been pulled `off` times: the streams in order, each until its
/// end, then silence.
pub open spec fn queued_ahead<S: SampleStream>(q: Seq<(S, u64)>, off: nat, k: nat) -> Option<i32>
    decreases k, q.len(),
{
    if q.len() == 0 {
        Some(0i32)
    } else if q[0].0.ahead(off).is_none() {
        queued_ahead(q.drop_first(), 0, k)
    } else if k == 0 {
        q[0].0.ahead(off)
    } else {
        queued_ahead(q, off + 1, (k - 1) as nat)
    }
}

/// Tickets of the streams at the front of `q` that are at their end: the next
/// pull passes over them.
pub open spec fn ended_tickets<S: SampleStream>(q: Seq<(S, u64)>) -> Seq<u64>
    decreases q.len(),
{
    if q.len() == 0 {
        Seq::empty()
    } else if q[0].0.ahead(0).is_none() {
        seq![q[0].1].add(ended_tickets(q.drop_first()))
    } else {
        Seq::empty()
    }
}

/// `s` yields exactly the samples `xs`, then ends.
pub open spec fn yields<S: SampleStream>(s: S, xs: Seq<i32>) -> bool {
    &&& forall|i: nat| i < xs.len() ==> #[trigger] s.ahead(i) == Some(xs[i as int])
    &&& s.ahead(xs.len()) == None::<i32>
}

/// One input line of the mixer: streams played one after the other in the
/// order they were enqueued, and silence when none is left.
///
/// Each enqueued stream gets a ticket; the ticket is reported as finished once
/// the stream has given its last sample.
pub struct Channel<S: SampleStream> {
    queue: Vec<(S, u64)>,
    next_ticket: u64,
    finished: Vec<u64>,
    channels: u16,
    rate: u32,
}

impl<S: SampleStream> Channel<S> {
    /// The streams still to play with their tickets; the first one is playing.
    pub closed spec fn spec_queue(&self) -> Seq<(S, u64)> {
        self.queue@
    }

    /// Tickets of finished streams not yet taken.
    pub closed spec fn spec_finished(&self) -> Seq<u64> {
        self.finished@
    }

    pub closed spec fn spec_next_ticket(&self) -> u64 {
        self.next_ticket
    }

    /// An empty channel, which plays silence in the given format.
    pub fn new(channels: u16, rate: u32) -> (r: Self)
        ensures
            r.wf(),
            r.spec_queue() == Seq::<(S, u64)>::empty(),
            r.spec_finished() == Seq::<u64>::empty(),
            r.spec_next_ticket() == 0,
            r.spec_channels() == channels,
            r.spec_sample_rate() == rate,
    {
        Channel { queue: Vec::new(), next_ticket: 0, finished: Vec::new(), channels, rate }
    }

    /// Whether another stream can get a ticket.
    pub fn can_enqueue(&self) -> (r: bool)
        ensures
            r == (self.spec_next_ticket() < u64::MAX),
    {
        self.next_ticket < u64::MAX
    }

    /// Appends `s` behind the streams already queued and returns its ticket.
    pub fn enqueue(&mut self, s: S) -> (ticket: u64)
        requires
            old(self).wf(),
            s.wf(),
            old(self).spec_next_ticket() < u64::MAX,
        ensures
            final(self).wf(),
            ticket == old(self).spec_next_ticket(),
            final(self).spec_next_ticket() == ticket + 1,
            final(self).spec_queue() == old(self).spec_queue().push((s, ticket)),
            final(self).spec_finished() == old(self).spec_finished(),
            final(self).spec_channels() == old(self).spec_channels(),
            final(self).spec_sample_rate() == old(self).spec_sample_rate(),
    {
        let ticket = self.next_ticket;
        self.queue.push((s, ticket));
        self.next_ticket = ticket + 1;
        ticket
    }

    /// Hands out the tickets of the streams finished since the last call.
    pub fn take_finished(&mut self) -> (r: Vec<u64>)
        requires
            old(self).wf(),
        ensures
            final(self).wf(),
            r@ == old(self).spec_finished(),
            final(self).spec_finished() == Seq::<u64>::empty(),
            final(self).spec_queue() == old(self).spec_queue(),
            final(self).spec_next_ticket() == old(self).spec_next_ticket(),
            forall|k: nat| #[trigger] final(self).ahead(k) == old(self).ahead(k),
            final(self).spec_channels() == old(self).spec_channels(),
            final(self).spec_sample_rate() == old(self).spec_sample_rate(),
    {
        let mut r = Vec::new();
        std::mem::swap(&mut r, &mut self.finished);
        r
    }

    /// Plays one sample: passes over the streams that have ended, recording
    /// their tickets as finished, and pulls the first one that has a sample.
    pub fn pull(&mut self) -> (r: i32)
        requires
            old(self).wf(),
        ensures
            final(self).wf(),
            Some(r) == old(self).ahead(0),
            forall|k: nat| #[trigger] final(self).ahead(k) == old(self).ahead(k + 1),
            final(self).spec_finished() == old(self).spec_finished() + ended_tickets(
                old(self).spec_queue(),
            ),
            final(self).spec_next_ticket() == old(self).spec_next_ticket(),
            final(self).spec_channels() == old(self).spec_channels(),
            final(self).spec_sample_rate() == old(self).spec_sample_rate(),
    {
        loop
            invariant
                self.wf(),
                forall|k: nat| #[trigger] self.ahead(k) == old(self).ahead(k),
                self.finished@ + ended_tickets(self.queue@) == old(self).finished@
                    + ended_tickets(old(self).queue@),
                self.next_ticket == old(self).next_ticket,
                self.channels == old(self).channels,
                self.rate == old(self).rate,
            decreases self.queue.len(),
        {
            if self.queue.len() == 0 {
                proof {
                    assert(self.ahead(0) == Some(0i32));
                    assert(ended_tickets(self.queue@) =~= Seq::<u64>::empty());
                    assert(self.finished@ + Seq::<u64>::empty() =~= self.finished@);
                    assert forall|k: nat| #[trigger] self.ahead(k) == old(self).ahead(k + 1) by {
                        assert(self.ahead(k + 1) == Some(0i32));
                    }
                }
                return 0;
            }
            let ghost q0 = self.queue@;
            assert forall|k: nat| #[trigger] queued_ahead(q0, 0, k) == old(self).ahead(k) by {
                assert(self.ahead(k) == old(self).ahead(k));
            }
            let (mut s, t) = self.queue.remove(0);
            let ghost s0 = s;
            let got = s.next_sample();
            match got {
                None => {
                    proof {
                        assert(self.queue@ =~= q0.drop_first());
                        assert forall|k: nat| #[trigger]
                            queued_ahead(self.queue@, 0, k) == queued_ahead(q0, 0, k) by {}
                        assert(ended_tickets(q0) == seq![t].add(ended_tickets(self.queue@)));
                    }
                    self.finished.push(t);
                    proof {
                        assert(self.finished@ + ended_tickets(self.queue@) =~= old(self).finished@ + ended_tickets(old(self).queue@));
                        assert forall|k: nat| #[trigger] self.ahead(k) == old(self).ahead(k) by {
                            assert(queued_ahead(self.queue@, 0, k) == queued_ahead(q0, 0, k));
                        }
                    }
                },
                Some(v) => {
                    self.queue.insert(0, (s, t));
                    proof {
                        assert(self.queue@ =~= q0.update(0, (s, t)));
                        assert forall|k: nat| #[trigger]
                            queued_ahead(self.queue@, 0, k) == queued_ahead(q0, 0, k + 1) by {
                            lemma_shift_front(q0, s, t, 0, k);
                        }
                        assert(ended_tickets(q0) =~= Seq::<u64>::empty());
                        assert(self.finished@ + Seq::<u64>::empty() =~= self.finished@);
                        assert(queued_ahead(q0, 0, 0) == Some(v));
                        assert forall|k: nat| #[trigger] self.ahead(k) == old(self).ahead(k + 1) by {
                            assert(queued_ahead(self.queue@, 0, k) == queued_ahead(q0, 0, k + 1));
                        }
                    }
                    return v;
                },
            }
        }
    }
}

/// Replacing the front stream by the same stream pulled once moves the
/// offset by one.
proof fn lemma_shift_front<S: SampleStream>(q: Seq<(S, u64)>, s: S, t: u64, off: nat, k: nat)
    requires
        q.len() > 0,
        forall|j: nat| #[trigger] s.ahead(j) == q[0].0.ahead(j + 1),
    ensures
        queued_ahead(q.update(0, (s, t)), off, k) == queued_ahead(q, off + 1, k),
    decreases k,
{
    let q2 = q.update(0, (s, t));
    assert(q2[0].0.ahead(off) == q[0].0.ahead(off + 1));
    assert(q2.drop_first() =~= q.drop_first());
    if q2[0].0.ahead(off).is_some() && k > 0 {
        lemma_shift_front(q, s, t, off + 1, (k - 1) as nat);
    }
}

/// While the front stream has samples at offsets `off .. off + n`, the queue
/// plays them, and after them it goes on from offset `off + n`.
pub proof fn lemma_front_plays<S: SampleStream>(q: Seq<(S, u64)>, off: nat, n: nat)
    requires
        q.len() > 0,
        forall|i: nat| i < n ==> (#[trigger] q[0].0.ahead(off + i)).is_some(),
    ensures
        forall|i: nat| i < n ==> #[trigger] queued_ahead(q, off, i) == q[0].0.ahead(off + i),
        forall|k: nat| #[trigger] queued_ahead(q, off, n + k) == queued_ahead(q, off + n, k),
    decreases n,
{
    if n > 0 {
        assert(q[0].0.ahead(off + 0nat).is_some());
        assert forall|i: nat| i < (n - 1) as nat implies (#[trigger] q[0].0.ahead(
            (off + 1) + i,
        )).is_some() by {
            assert(q[0].0.ahead(off + (i + 1)).is_some());
            assert(off + 1 + i == off + (i + 1));
        }
        lemma_front_plays(q, off + 1, (n - 1) as nat);
        assert forall|i: nat| i < n implies #[trigger] queued_ahead(q, off, i) == q[0].0.ahead(
            off + i,
        ) by {
            if i > 0 {
                assert(queued_ahead(q, off, i) == queued_ahead(q, off + 1, (i - 1) as nat));
                assert(off + 1 + (i - 1) == off + i);
            }
        }
        assert forall|k: nat| #[trigger] queued_ahead(q, off, n + k) == queued_ahead(
            q,
            off + n,
            k,
        ) by {
            assert(queued_ahead(q, off, n + k) == queued_ahead(q, off + 1, ((n - 1) + k) as nat));
            assert(queued_ahead(q, off + 1, ((n - 1) as nat + k) as nat) == queued_ahead(
                q,
                (off + 1 + (n - 1)) as nat,
                k,
            ));
        }
    }
}

/// Streams enqueued one after the other play back to back: all of the first
/// stream's samples, then all of the second's, with no silence between them,
/// and silence once both have ended.
pub proof fn lemma_back_to_back<S: SampleStream>(
    ch: Channel<S>,
    a: S,
    ta: u64,
    xs: Seq<i32>,
    b: S,
    tb: u64,
    ys: Seq<i32>,
)
    requires
        ch.spec_queue() == seq![(a, ta), (b, tb)],
        yields(a, xs),
        yields(b, ys),
    ensures
        forall|i: nat| i < xs.len() + ys.len() ==> #[trigger] nth_pull(ch, i) == Some((xs + ys)[i as int]),
        forall|i: nat| i >= xs.len() + ys.len() ==> #[trigger] nth_pull(ch, i) == Some(0i32),
{
    let q = ch.spec_queue();
    let qb = q.drop_first();
    assert(qb =~= seq![(b, tb)]);
    assert forall|i: nat| i < xs.len() implies (#[trigger] q[0].0.ahead(0 + i)).is_some() by {
        assert(a.ahead(i) == Some(xs[i as int]));
    }
    lemma_front_plays(q, 0, xs.len());
    assert forall|i: nat| i < ys.len() implies (#[trigger] qb[0].0.ahead(0 + i)).is_some() by {
        assert(b.ahead(i) == Some(ys[i as int]));
    }
    lemma_front_plays(qb, 0, ys.len());
    assert forall|k: nat| #[trigger] queued_ahead(q, 0, xs.len() + k) == queued_ahead(qb, 0, k) by {
        assert(queued_ahead(q, 0, xs.len() + k) == queued_ahead(q, 0 + xs.len(), k));
        assert(q[0].0.ahead(xs.len()) == None::<i32>);
    }
    assert forall|k: nat| #[trigger] queued_ahead(qb, 0, ys.len() + k) == Some(0i32) by {
        assert(queued_ahead(qb, 0, ys.len() + k) == queued_ahead(qb, 0 + ys.len(), k));
        assert(qb[0].0.ahead(ys.len()) == None::<i32>);
        assert(qb.drop_first() =~= Seq::<(S, u64)>::empty());
        assert(queued_ahead(qb, ys.len(), k) == queued_ahead(qb.drop_first(), 0, k));
        assert(queued_ahead(Seq::<(S, u64)>::empty(), 0, k) == Some(0i32));
    }
    assert forall|i: nat| i < xs.len() + ys.len() implies #[trigger] nth_pull(ch, i) == Some(
        (xs + ys)[i as int],
    ) by {
        if i < xs.len() {
            assert(queued_ahead(q, 0, i) == q[0].0.ahead(0 + i));
            assert(a.ahead(i) == Some(xs[i as int]));
        } else {
            let j = (i - xs.len()) as nat;
            assert(queued_ahead(q, 0, xs.len() + j) == queued_ahead(qb, 0, j));
            assert(queued_ahead(qb, 0, j) == qb[0].0.ahead(0 + j));
            assert(b.ahead(j) == Some(ys[j as int]));
            assert(xs.len() + j == i);
        }
    }
    assert forall|i: nat| i >= xs.len() + ys.len() implies #[trigger] nth_pull(ch, i) == Some(
        0i32,
    ) by {
        let j = (i - xs.len()) as nat;
        let m = (j - ys.len()) as nat;
        assert(queued_ahead(q, 0, xs.len() + j) == queued_ahead(qb, 0, j));
        assert(queued_ahead(qb, 0, ys.len() + m) == Some(0i32));
        assert(xs.len() + j == i);
        assert(ys.len() + m == j);
    }
}

impl<S: SampleStream> SampleStream for Channel<S> {
    closed spec fn wf(&self) -> bool {
        forall|i: int| 0 <= i < self.queue@.len() ==> (#[trigger] self.queue@[i]).0.wf()
    }

    closed spec fn ahead(&self, k: nat) -> Option<i32> {
        queued_ahead(self.queue@, 0, k)
    }

    closed spec fn spec_channels(&self) -> u16 {
        self.channels
    }

    closed spec fn spec_sample_rate(&self) -> u32 {
        self.rate
    }

    open spec fn spec_frame_len(&self) -> Option<usize> {
        None
    }

    open spec fn spec_total_duration_ms(&self) -> Option<u64> {
        None
    }

    fn next_sample(&mut self) -> (r: Option<i32>) {
        Some(self.pull())
    }

    fn channels(&self) -> (r: u16) {
        self.channels
    }

    fn sample_rate(&self) -> (r: u32) {
        self.rate
    }

    fn current_frame_len(&self) -> Option<usize> {
        None
    }

    fn total_duration_ms(&self) -> Option<u64> {
        None
    }
}

} // verus!
