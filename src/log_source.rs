use vstd::prelude::*;

use crate::stream::SampleStream;

verus! {

/// What a [`LogSource`] observed on one pull.
#[derive(Clone, Copy, Debug, PartialEq, Eq, Structural)]
pub enum Notice {
    /// The first sample came through.
    Started,
    /// A sample larger than every earlier one came through.
    NewMax(i32),
    /// The inner stream reported its end (recorded on every pull that gets
    /// no sample).
    Stopped,
}

/// The notices for one pull that gave `r`, given whether a sample had come
/// through before and the largest one so far.
pub open spec fn notices_for(started: bool, max: Option<i32>, r: Option<i32>) -> Seq<Notice> {
    match r {
        None => seq![Notice::Stopped],
        Some(v) => {
            let first = if started {
                Seq::empty()
            } else {
                seq![Notice::Started]
            };
            let higher = match max {
                None => true,
                Some(m) => v > m,
            };
            if higher {
                first.push(Notice::NewMax(v))
            } else {
                first
            }
        },
    }
}

/// A transparent wrapper that records when its stream starts and stops and
/// the running maximum of its samples, without changing any sample.
pub struct LogSource<S: SampleStream> {
    input: S,
    log: String,
    has_logged: bool,
    max: Option<i32>,
    notices: Vec<Notice>,
}

/// Wraps `input` under the label `label`.
pub fn log_source<S: SampleStream>(input: S, label: String) -> (r: LogSource<S>)
    requires
        input.wf(),
    ensures
        r.wf(),
        r.spec_input() == input,
        r.spec_label() == label@,
        r.spec_channels() == input.spec_channels(),
        r.spec_sample_rate() == input.spec_sample_rate(),
        !r.spec_started(),
        r.spec_max() == None::<i32>,
        r.spec_notices() == Seq::<Notice>::empty(),
        forall|k: nat| #[trigger] r.ahead(k) == input.ahead(k),
{
    LogSource {
        input,
        log: label,
        has_logged: false,
        max: None,
        notices: Vec::new(),
    }
}

impl<S: SampleStream> LogSource<S> {
    pub closed spec fn spec_input(&self) -> S {
        self.input
    }

    pub closed spec fn spec_label(&self) -> Seq<char> {
        self.log@
    }

    /// Whether a sample has come through.
    pub closed spec fn spec_started(&self) -> bool {
        self.has_logged
    }

    /// The largest sample so far.
    pub closed spec fn spec_max(&self) -> Option<i32> {
        self.max
    }

    /// Notices recorded and not yet taken.
    pub closed spec fn spec_notices(&self) -> Seq<Notice> {
        self.notices@
    }

    /// The label given at construction.
    pub fn label(&self) -> (r: &String)
        ensures
            r@ == self.spec_label(),
    {
        &self.log
    }

    /// The wrapped stream, for changes that are not pulls.
    pub fn input_mut(&mut self) -> (r: &mut S)
        ensures
            *r == old(self).spec_input(),
            final(self).spec_input() == *final(r),
            final(self).spec_label() == old(self).spec_label(),
            final(self).spec_started() == old(self).spec_started(),
            final(self).spec_max() == old(self).spec_max(),
            final(self).spec_notices() == old(self).spec_notices(),
    {
        &mut self.input
    }

    /// Hands out the notices recorded since the last call.
    pub fn take_notices(&mut self) -> (r: Vec<Notice>)
        requires
            old(self).wf(),
        ensures
            final(self).wf(),
            r@ == old(self).spec_notices(),
            final(self).spec_notices() == Seq::<Notice>::empty(),
            final(self).spec_input() == old(self).spec_input(),
            final(self).spec_label() == old(self).spec_label(),
            final(self).spec_started() == old(self).spec_started(),
            final(self).spec_max() == old(self).spec_max(),
    {
        let mut r = Vec::new();
        std::mem::swap(&mut r, &mut self.notices);
        r
    }

    /// Pulls one sample through, recording what it observed.
    pub fn pull(&mut self) -> (r: Option<i32>)
        requires
            old(self).wf(),
        ensures
            final(self).wf(),
            r == old(self).spec_input().ahead(0),
            forall|k: nat| #[trigger] final(self).spec_input().ahead(k) == old(self).spec_input().ahead(k + 1),
            final(self).spec_notices() == old(self).spec_notices() + notices_for(
                old(self).spec_started(),
                old(self).spec_max(),
                r,
            ),
            final(self).spec_started() == (old(self).spec_started() || r.is_some()),
            final(self).spec_max() == (match r {
                None => old(self).spec_max(),
                Some(v) => match old(self).spec_max() {
                    None => Some(v),
                    Some(m) => if v > m { Some(v) } else { Some(m) },
                },
            }),
            final(self).spec_label() == old(self).spec_label(),
            final(self).spec_input().spec_channels() == old(self).spec_input().spec_channels(),
            final(self).spec_input().spec_sample_rate() == old(self).spec_input().spec_sample_rate(),
    {
        let ghost n0 = self.notices@;
        match self.input.next_sample() {
            Some(v) => {
                if !self.has_logged {
                    self.notices.push(Notice::Started);
                    self.has_logged = true;
                }
                let higher = match self.max {
                    None => true,
                    Some(m) => v > m,
                };
                if higher {
                    self.notices.push(Notice::NewMax(v));
                    self.max = Some(v);
                }
                proof {
                    let first = if old(self).has_logged {
                        Seq::<Notice>::empty()
                    } else {
                        seq![Notice::Started]
                    };
                    if higher {
                        assert(self.notices@ =~= n0 + first.push(Notice::NewMax(v)));
                    } else {
                        assert(self.notices@ =~= n0 + first);
                    }
                }
                Some(v)
            },
            None => {
                self.notices.push(Notice::Stopped);
                proof {
                    assert(self.notices@ =~= n0 + seq![Notice::Stopped]);
                }
                None
            },
        }
    }
}

impl<S: SampleStream> SampleStream for LogSource<S> {
    closed spec fn wf(&self) -> bool {
        self.input.wf()
    }

    closed spec fn ahead(&self, k: nat) -> Option<i32> {
        self.input.ahead(k)
    }

    open spec fn spec_channels(&self) -> u16 {
        self.spec_input().spec_channels()
    }

    open spec fn spec_sample_rate(&self) -> u32 {
        self.spec_input().spec_sample_rate()
    }

    open spec fn spec_frame_len(&self) -> Option<usize> {
        self.spec_input().spec_frame_len()
    }

    open spec fn spec_total_duration_ms(&self) -> Option<u64> {
        self.spec_input().spec_total_duration_ms()
    }

    fn next_sample(&mut self) -> (r: Option<i32>) {
        self.pull()
    }

    fn channels(&self) -> (r: u16) {
        self.input.channels()
    }

    fn sample_rate(&self) -> (r: u32) {
        self.input.sample_rate()
    }

    fn current_frame_len(&self) -> Option<usize> {
        self.input.current_frame_len()
    }

    fn total_duration_ms(&self) -> Option<u64> {
        self.input.total_duration_ms()
    }
}

} // verus!
