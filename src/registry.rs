use dashmap::DashMap;
use vstd::prelude::*;

verus! {

#[verifier::external_type_specification]
#[verifier::external_body]
#[verifier::reject_recursive_types(K)]
#[verifier::reject_recursive_types(V)]
#[verifier::reject_recursive_types(S)]
pub struct ExDashMap<K, V, S>(DashMap<K, V, S>);

/// What the registry keeps for a label: start and end of the window in
/// milliseconds, and the play call that owns it.
pub type Slot = (i64, i64, u64);

/// The entries of a registry map, by label.
pub uninterp spec fn registry_entries(m: DashMap<String, (i64, i64, u64)>) -> Map<
    Seq<char>,
    (i64, i64, u64),
>;

/// Largest number of whole seconds that a time span can hold (`i64::MAX / 1000`).
pub const MAX_SPAN_SECS: i64 = 9_223_372_036_854_775;

/// Relies on `DashMap::new`: a map with no entry.
#[verifier::external_body]
fn map_new() -> (r: DashMap<String, Slot>)
    ensures
        registry_entries(r).dom() == Set::<Seq<char>>::empty(),
{
    DashMap::new()
}

/// Relies on `DashMap::insert`: afterwards `key` maps to `value`, and every
/// other key keeps its entry.
#[verifier::external_body]
fn map_insert(m: &mut DashMap<String, Slot>, key: String, value: Slot)
    ensures
        registry_entries(*final(m)) == registry_entries(*old(m)).insert(key@, value),
{
    m.insert(key, value);
}

/// Relies on `DashMap::remove`: takes out the entry of `key`, if any, and
/// returns its value.
#[verifier::external_body]
fn map_remove(m: &mut DashMap<String, Slot>, key: &String) -> (r: Option<Slot>)
    ensures
        registry_entries(*final(m)) == registry_entries(*old(m)).remove(key@),
        r == (if registry_entries(*old(m)).contains_key(key@) {
            Some(registry_entries(*old(m))[key@])
        } else {
            None
        }),
{
    match m.remove(key) {
        Some((_, v)) => Some(v),
        None => None,
    }
}

/// Relies on `DashMap::get`: the value of `key`, if any.
#[verifier::external_body]
fn map_get(m: &DashMap<String, Slot>, key: &String) -> (r: Option<Slot>)
    ensures
        r == (if registry_entries(*m).contains_key(key@) {
            Some(registry_entries(*m)[key@])
        } else {
            None
        }),
{
    match m.get(key) {
        Some(e) => Some(*e),
        None => None,
    }
}

/// Relies on `chrono::TimeDelta::try_seconds`, which gives no span beyond
/// `MAX_SPAN_SECS` seconds either way, and `TimeDelta::num_milliseconds`.
#[verifier::external_body]
fn span_millis(secs: i64) -> (r: Option<i64>)
    ensures
        r == (if -MAX_SPAN_SECS <= secs <= MAX_SPAN_SECS {
            Some((secs * 1000) as i64)
        } else {
            None
        }),
{
    match chrono::TimeDelta::try_seconds(secs) {
        Some(d) => Some(d.num_milliseconds()),
        None => None,
    }
}

/// Length in milliseconds of a window of `secs` seconds; a length that no
/// time span can hold becomes zero.
pub open spec fn window_len(secs: nat) -> int {
    if secs <= MAX_SPAN_SECS {
        (secs * 1000) as int
    } else {
        0
    }
}

/// End of a window of `secs` seconds from `start`; an end past the last
/// representable instant makes the window empty.
pub open spec fn window_end(start: i64, secs: nat) -> i64 {
    if start + window_len(secs) <= i64::MAX {
        (start + window_len(secs)) as i64
    } else {
        start
    }
}

/// The entries after a play call `call` on `label`, from `start` for `secs`.
pub open spec fn began(e: Map<Seq<char>, Slot>, label: Seq<char>, start: i64, secs: nat, call: u64) -> Map<
    Seq<char>,
    Slot,
> {
    e.insert(label, (start, window_end(start, secs), call))
}

/// The entries after the watcher of play call `call` on `label` is done: the
/// entry goes only if that call still owns it.
pub open spec fn finished(e: Map<Seq<char>, Slot>, label: Seq<char>, call: u64) -> Map<
    Seq<char>,
    Slot,
> {
    if e.contains_key(label) && e[label].2 == call {
        e.remove(label)
    } else {
        e
    }
}

/// Window length in milliseconds for a play of `secs` seconds.
pub fn window_len_ms(secs: u64) -> (r: i64)
    ensures
        r == window_len(secs as nat),
{
    if secs > MAX_SPAN_SECS as u64 {
        return 0;
    }
    match span_millis(secs as i64) {
        Some(ms) => ms,
        None => 0,
    }
}

/// The active window of one play call.
#[derive(Clone, Copy, Debug, PartialEq, Eq, Structural)]
pub struct Window {
    pub start_ms: i64,
    pub end_ms: i64,
    pub call: u64,
}

/// Labels of the instruments playing now, each with its active window.
pub struct Registry {
    map: DashMap<String, Slot>,
    next_call: u64,
}

impl Registry {
    pub closed spec fn view(&self) -> Map<Seq<char>, Slot> {
        registry_entries(self.map)
    }

    pub closed spec fn spec_next_call(&self) -> u64 {
        self.next_call
    }

    /// An empty registry.
    pub fn new() -> (r: Self)
        ensures
            r.view() == Map::<Seq<char>, Slot>::empty(),
            r.spec_next_call() == 0,
    {
        let map = map_new();
        proof {
            assert(registry_entries(map) =~= Map::<Seq<char>, Slot>::empty());
        }
        Registry { map, next_call: 0 }
    }

    /// Whether another play call can get an identifier.
    pub fn can_begin(&self) -> (r: bool)
        ensures
            r == (self.spec_next_call() < u64::MAX),
    {
        self.next_call < u64::MAX
    }

    /// Records that `label` plays from `start_ms` for `duration_secs` and
    /// returns the identifier of this play call.
    pub fn begin(&mut self, label: String, start_ms: i64, duration_secs: u64) -> (call: u64)
        requires
            old(self).spec_next_call() < u64::MAX,
        ensures
            call == old(self).spec_next_call(),
            final(self).spec_next_call() == call + 1,
            final(self).view() == began(old(self).view(), label@, start_ms, duration_secs as nat, call),
    {
        let len = window_len_ms(duration_secs);
        let end = match start_ms.checked_add(len) {
            Some(e) => e,
            None => start_ms,
        };
        let call = self.next_call;
        map_insert(&mut self.map, label, (start_ms, end, call));
        self.next_call = call + 1;
        call
    }

    /// Called when play call `call` on `label` has ended: removes the entry if
    /// that call still owns it, and says whether it did.
    pub fn finish(&mut self, label: &String, call: u64) -> (removed: bool)
        ensures
            removed == (old(self).view().contains_key(label@) && old(self).view()[label@].2 == call),
            final(self).view() == finished(old(self).view(), label@, call),
            final(self).spec_next_call() == old(self).spec_next_call(),
    {
        match map_get(&self.map, label) {
            Some(slot) => {
                if slot.2 == call {
                    let _ = map_remove(&mut self.map, label);
                    true
                } else {
                    false
                }
            },
            None => false,
        }
    }

    /// The active window of `label`, if it is playing.
    pub fn get(&self, label: &String) -> (r: Option<Window>)
        ensures
            r == (if self.view().contains_key(label@) {
                Some(
                    (Window {
                        start_ms: self.view()[label@].0,
                        end_ms: self.view()[label@].1,
                        call: self.view()[label@].2,
                    }),
                )
            } else {
                None
            }),
    {
        match map_get(&self.map, label) {
            Some(slot) => Some(Window { start_ms: slot.0, end_ms: slot.1, call: slot.2 }),
            None => None,
        }
    }
}

/// While a play call owns its label, the stored window spans exactly the
/// declared duration (when the end can be represented); once the call's own
/// watcher has finished, the label is gone; a second finish changes nothing;
/// and the watcher of an earlier call does not remove a later call's entry.
pub proof fn lemma_window_lifecycle(
    e: Map<Seq<char>, Slot>,
    label: Seq<char>,
    start: i64,
    secs: nat,
    call: u64,
    other: u64,
)
    requires
        secs <= MAX_SPAN_SECS,
        start + secs * 1000 <= i64::MAX,
        other != call,
    ensures
        began(e, label, start, secs, call)[label].1 - began(e, label, start, secs, call)[label].0
            == secs * 1000,
        !finished(began(e, label, start, secs, call), label, call).contains_key(label),
        finished(finished(began(e, label, start, secs, call), label, call), label, call)
            == finished(began(e, label, start, secs, call), label, call),
        finished(began(e, label, start, secs, call), label, other) == began(
            e,
            label,
            start,
            secs,
            call,
        ),
{
}

} // verus!
