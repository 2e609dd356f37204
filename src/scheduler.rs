use vstd::prelude::*;

use crate::amplify::Amplify;
use crate::fade::{samples_for, samples_per_sec, FadeEnvelope};
use crate::log_source::{log_source, LogSource, Notice};
use crate::mixer::Mixer;
use crate::registry::{began, Registry};
use crate::stream::SampleStream;
use crate::track::INSTRUMENT_COUNT;

verus! {

/// The stream of one play call: a source at a gain, cut to a duration with a
/// fade-out and an optional fade-in, under its instrument's label for the
/// notices of its start and end.
pub type Voice<S> = LogSource<FadeEnvelope<Amplify<S>>>;

/// How an instrument is played.
pub struct Instrument {
    pub label: String,
    /// Length of the fade-out at the end of each play, in milliseconds.
    pub fade_ms: u64,
    /// Length of the fade-in at the start of each play, in milliseconds.
    pub fade_in_ms: u64,
}

/// Label of instrument `i`.
pub open spec fn label_of(i: int) -> Seq<char> {
    if i == 0 {
        "M1"@
    } else if i == 1 {
        "M2"@
    } else if i == 2 {
        "M3"@
    } else if i == 3 {
        "M35"@
    } else if i == 4 {
        "M75"@
    } else if i == 5 {
        "M44.00"@
    } else if i == 6 {
        "M44.22"@
    } else if i == 7 {
        "M200.00"@
    } else {
        "M201.00"@
    }
}

/// Fade-out of instrument `i`, in milliseconds.
pub open spec fn fade_of(i: int) -> u64 {
    if i < 3 {
        100
    } else if i == 5 {
        30000
    } else if i == 6 {
        25000
    } else {
        500
    }
}

/// Fade-in of instrument `i`, in milliseconds.
pub open spec fn fade_in_of(i: int) -> u64 {
    if i == 5 || i == 6 {
        30000
    } else {
        0
    }
}

fn instrument(label: &str, fade_ms: u64, fade_in_ms: u64) -> (r: Instrument)
    ensures
        r.label@ == label@,
        r.fade_ms == fade_ms,
        r.fade_in_ms == fade_in_ms,
{
    Instrument { label: label.to_owned(), fade_ms, fade_in_ms }
}

/// The installation's instruments, in the numbering the choreography uses:
/// the three masses, the two low drones, the two slow triangles (which fade
/// in over half a minute) and the two high triangles.
pub fn instruments() -> (r: Vec<Instrument>)
    ensures
        r@.len() == INSTRUMENT_COUNT,
        forall|i: int|
            0 <= i < r@.len() ==> (#[trigger] r@[i]).fade_ms == fade_of(i) && r@[i].fade_in_ms
                == fade_in_of(i) && r@[i].label@ == label_of(i),
{
    let r = vec![
        instrument("M1", 100, 0),
        instrument("M2", 100, 0),
        instrument("M3", 100, 0),
        instrument("M35", 500, 0),
        instrument("M75", 500, 0),
        instrument("M44.00", 30000, 30000),
        instrument("M44.22", 25000, 30000),
        instrument("M200.00", 500, 0),
        instrument("M201.00", 500, 0),
    ];
    r
}

/// `secs` in milliseconds, capped at `u64::MAX`.
pub open spec fn secs_to_ms(secs: u64) -> u64 {
    if secs > u64::MAX / 1000 {
        u64::MAX
    } else {
        (secs * 1000) as u64
    }
}

/// `v` is the voice built under `label` from `source` for the given play
/// parameters, not yet pulled.
pub open spec fn is_voice<S: SampleStream>(
    v: Voice<S>,
    label: Seq<char>,
    source: S,
    duration_secs: u64,
    fade_ms: u64,
    fade_in_ms: u64,
    gain_permille: u32,
) -> bool {
    let rate = samples_per_sec(source);
    let ms = secs_to_ms(duration_secs);
    let e = v.spec_input();
    &&& v.wf()
    &&& v.spec_label() == label
    &&& !v.spec_started()
    &&& v.spec_max() == None::<i32>
    &&& v.spec_notices() == Seq::<Notice>::empty()
    &&& e.wf()
    &&& e.spec_inner().spec_inner() == source
    &&& e.spec_inner().spec_gain() == gain_permille
    &&& e.spec_total() == samples_for(ms as nat, rate)
    &&& e.spec_fade() == samples_for(
        (if fade_ms <= ms {
            fade_ms
        } else {
            ms
        }) as nat,
        rate,
    )
    &&& e.spec_fade_in() == samples_for(fade_in_ms as nat, rate)
    &&& e.spec_elapsed() == 0
    &&& !e.spec_done()
}

/// Builds the voice of one play call of `label`.
pub fn voice<S: SampleStream>(
    label: String,
    source: S,
    duration_secs: u64,
    fade_ms: u64,
    fade_in_ms: u64,
    gain_permille: u32,
) -> (r: Voice<S>)
    requires
        source.wf(),
    ensures
        is_voice(r, label@, source, duration_secs, fade_ms, fade_in_ms, gain_permille),
{
    let ms = if duration_secs > u64::MAX / 1000 {
        u64::MAX
    } else {
        duration_secs * 1000
    };
    let amplified = Amplify::new(source, gain_permille);
    let envelope = FadeEnvelope::new(amplified, ms, fade_ms).with_fade_in(fade_in_ms);
    log_source(envelope, label)
}

/// One play cue: builds the voice, appends it to mixer line `line`, and
/// records `label` in the registry from `now_ms` for `duration_secs`.
/// Returns the voice's ticket on the line and the play call's identifier in
/// the registry; the caller's watcher finishes the call once the ticket is
/// reported finished.
pub fn play_once<S: SampleStream>(
    mixer: &mut Mixer<Voice<S>>,
    registry: &mut Registry,
    line: usize,
    label: String,
    source: S,
    duration_secs: u64,
    fade_ms: u64,
    fade_in_ms: u64,
    gain_permille: u32,
    now_ms: i64,
) -> (r: (u64, u64))
    requires
        old(mixer).wf(),
        source.wf(),
        line < old(mixer).spec_inputs().len(),
        old(mixer).spec_inputs()[line as int].spec_next_ticket() < u64::MAX,
        old(registry).spec_next_call() < u64::MAX,
    ensures
        final(mixer).wf(),
        final(mixer).spec_inputs().len() == old(mixer).spec_inputs().len(),
        r.0 == old(mixer).spec_inputs()[line as int].spec_next_ticket(),
        final(mixer).spec_inputs()[line as int].spec_queue().len() == old(
            mixer,
        ).spec_inputs()[line as int].spec_queue().len() + 1,
        final(mixer).spec_inputs()[line as int].spec_queue().drop_last() == old(
            mixer,
        ).spec_inputs()[line as int].spec_queue(),
        final(mixer).spec_inputs()[line as int].spec_queue().last().1 == r.0,
        is_voice(
            final(mixer).spec_inputs()[line as int].spec_queue().last().0,
            label@,
            source,
            duration_secs,
            fade_ms,
            fade_in_ms,
            gain_permille,
        ),
        forall|j: int|
            0 <= j < final(mixer).spec_inputs().len() && j != line ==> final(mixer).spec_inputs()[j]
                == old(mixer).spec_inputs()[j],
        r.1 == old(registry).spec_next_call(),
        final(registry).spec_next_call() == r.1 + 1,
        final(registry).view() == began(
            old(registry).view(),
            label@,
            now_ms,
            duration_secs as nat,
            r.1,
        ),
{
    let v = voice(label.clone(), source, duration_secs, fade_ms, fade_in_ms, gain_permille);
    let ticket = mixer.enqueue(line, v);
    let call = registry.begin(label, now_ms, duration_secs);
    proof {
        let q0 = old(mixer).spec_inputs()[line as int].spec_queue();
        assert(mixer.spec_inputs()[line as int].spec_queue().drop_last() =~= q0);
    }
    (ticket, call)
}

} // verus!
