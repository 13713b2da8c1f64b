//! Bookkeeping around the speech recognizer bridge: the recognizer settings,
//! the registry of event callbacks and the ids handed across the bridge, and
//! stopping a session once.

use vstd::prelude::*;

use std::collections::HashMap;

use crate::model::TranscriptionSettings;
use crate::text::{
    is_unicode_whitespace, leading_whitespace, lemma_trim_clean, lemma_trim_is_inner_part, trailing_whitespace, trim, trim_spec,
    trim_start_spec,
};
use crate::transcript::opt_text;

verus! {

broadcast use vstd::std_specs::hash::group_hash_axioms;

/// `value` trimmed, or nothing when that leaves it empty.
pub open spec fn trimmed_non_empty_text(value: Option<Seq<char>>) -> Option<Seq<char>> {
    match value {
        Some(v) => if trim_spec(v).len() > 0 {
            Some(trim_spec(v))
        } else {
            None
        },
        None => None,
    }
}

/// `value` without surrounding whitespace, or `None` when nothing else is left.
pub fn trimmed_non_empty(value: Option<&str>) -> (r: Option<String>)
    ensures
        opt_text(r) == trimmed_non_empty_text(
            match value {
                Some(v) => Some(v@),
                None => None,
            },
        ),
{
    match value {
        Some(v) => {
            let t = trim(v);
            if t.as_str().is_empty() {
                None
            } else {
                Some(t)
            }
        },
        None => None,
    }
}

/// A value is dropped exactly when it is missing or all whitespace; any other
/// value is kept, trimmed.
pub proof fn lemma_dropped_only_when_blank(value: Seq<char>)
    ensures
        trimmed_non_empty_text(None) is None,
        trimmed_non_empty_text(Some(value)) is None <==> forall|k: int| 0 <= k < value.len() ==> is_unicode_whitespace(#[trigger] value[k]),
        trimmed_non_empty_text(Some(value)) is Some ==> trimmed_non_empty_text(Some(value)) == Some(trim_spec(value)),
{
    lemma_trim_clean(value);
    lemma_trim_is_inner_part(value);
    let i = leading_whitespace(value) as int;
    let j = value.len() - trailing_whitespace(trim_start_spec(value));
    let t = trim_spec(value);
    if t.len() == 0 {
        assert forall|k: int| 0 <= k < value.len() implies is_unicode_whitespace(#[trigger] value[k]) by {
            if k >= i {
                assert(k >= j);
            }
        }
    } else {
        assert(t[0] == value[i]);
    }
}

/// What a trimmed, non-empty value looks like: a contiguous part of the value,
/// with only whitespace cut off before and after it, no whitespace at either
/// end, and trimming it again changes nothing.
pub proof fn lemma_trimmed_is_clean(value: Seq<char>)
    requires
        trimmed_non_empty_text(Some(value)) is Some,
    ensures
        ({
            let t = trimmed_non_empty_text(Some(value)).unwrap();
            &&& t.len() > 0
            &&& !is_unicode_whitespace(t[0])
            &&& !is_unicode_whitespace(t.last())
            &&& trimmed_non_empty_text(Some(t)) == Some(t)
            &&& exists|i: int, j: int|
                #![trigger value.subrange(i, j)]
                0 <= i <= j <= value.len() && t == value.subrange(i, j)
                    && (forall|k: int| 0 <= k < i ==> is_unicode_whitespace(#[trigger] value[k]))
                    && (forall|k: int| j <= k < value.len() ==> is_unicode_whitespace(#[trigger] value[k]))
        }),
{
    lemma_trim_clean(value);
    lemma_trim_is_inner_part(value);
    let i = leading_whitespace(value) as int;
    let j = value.len() - trailing_whitespace(trim_start_spec(value));
    assert(trim_spec(value) == value.subrange(i, j));
}

/// The settings handed to the speech recognizer.
#[derive(Debug)]
pub struct SpeechConfig {
    /// The locale to recognize, if one was chosen.
    pub locale_identifier: Option<String>,
}

/// The recognizer settings for the user's transcription settings: the locale
/// trimmed, and left out when blank.
pub fn speech_config(settings: &TranscriptionSettings) -> (r: SpeechConfig)
    ensures
        opt_text(r.locale_identifier) == trimmed_non_empty_text(opt_text(settings.locale_identifier)),
{
    let locale = match &settings.locale_identifier {
        Some(s) => trimmed_non_empty(Some(s.as_str())),
        None => trimmed_non_empty(None),
    };
    SpeechConfig { locale_identifier: locale }
}

/// Why a callback could not be registered.
#[derive(Debug, Clone, Copy, PartialEq, Eq, Structural)]
pub enum RegistryError {
    /// The id counter wrapped around to zero.
    CallbackIdOverflowed,
}

impl RegistryError {
    /// The message the error is reported with.
    pub fn message(&self) -> (r: String)
        ensures
            r@ == "Apple SpeechTranscriber callback id overflowed"@,
    {
        String::from_str("Apple SpeechTranscriber callback id overflowed")
    }
}

/// The event senders of the running recognizer sessions, by callback id.
pub struct CallbackRegistry<S> {
    next_id: usize,
    callbacks: HashMap<usize, S>,
}

/// The mathematical value of a [`CallbackRegistry`].
pub struct CallbackRegistryView<S> {
    /// The id the next registration gets.
    pub next_id: usize,
    /// The registered senders.
    pub callbacks: Map<usize, S>,
}

impl<S> View for CallbackRegistry<S> {
    type V = CallbackRegistryView<S>;

    closed spec fn view(&self) -> CallbackRegistryView<S> {
        CallbackRegistryView { next_id: self.next_id, callbacks: self.callbacks@ }
    }
}

/// The id after `id`, wrapping around as an atomic counter does.
pub open spec fn following_id(id: usize) -> usize {
    if id == usize::MAX {
        0
    } else {
        (id + 1) as usize
    }
}

/// What registering `sender` reports and leaves: the counter moves on; a zero id
/// is refused, any other is bound to `sender`.
pub open spec fn registered<S>(reg: CallbackRegistryView<S>, sender: S) -> (Result<usize, RegistryError>, CallbackRegistryView<S>) {
    let id = reg.next_id;
    if id == 0 {
        (Err(RegistryError::CallbackIdOverflowed), CallbackRegistryView { next_id: following_id(id), ..reg })
    } else {
        (Ok(id), CallbackRegistryView { next_id: following_id(id), callbacks: reg.callbacks.insert(id, sender) })
    }
}

impl<S> CallbackRegistry<S> {
    /// An empty registry whose first id is 1.
    pub fn new() -> (r: CallbackRegistry<S>)
        ensures
            r@.next_id == 1,
            r@.callbacks == Map::<usize, S>::empty(),
    {
        CallbackRegistry { next_id: 1, callbacks: HashMap::new() }
    }
}

/// Registers `sender` and returns its id.
pub fn register_callback<S>(registry: &mut CallbackRegistry<S>, sender: S) -> (r: Result<usize, RegistryError>)
    ensures
        (r, final(registry)@) == registered(old(registry)@, sender),
{
    let id = registry.next_id;
    registry.next_id = registry.next_id.wrapping_add(1);
    if id == 0 {
        return Err(RegistryError::CallbackIdOverflowed);
    }
    registry.callbacks.insert(id, sender);
    Ok(id)
}

/// Forgets the sender of `callback_id`.
pub fn unregister_callback<S>(registry: &mut CallbackRegistry<S>, callback_id: usize)
    ensures
        final(registry)@ == (CallbackRegistryView { callbacks: old(registry)@.callbacks.remove(callback_id), ..old(registry)@ }),
{
    registry.callbacks.remove(&callback_id);
}

/// The sender that events for `callback_id` go to, if it is registered.
pub fn callback_sender<S>(registry: &CallbackRegistry<S>, callback_id: usize) -> (r: Option<&S>)
    ensures
        match r {
            Some(s) => registry@.callbacks.contains_key(callback_id) && *s == registry@.callbacks[callback_id],
            None => !registry@.callbacks.contains_key(callback_id),
        },
{
    registry.callbacks.get(&callback_id)
}

/// Events for a registration go to its sender until it is unregistered, and
/// nowhere afterwards; other registrations are not touched.
pub proof fn lemma_registration_lifecycle<S>(reg: CallbackRegistryView<S>, sender: S, other: usize)
    requires
        reg.next_id != 0,
    ensures
        ({
            let (r, after) = registered(reg, sender);
            let id = r.unwrap();
            let removed = CallbackRegistryView { callbacks: after.callbacks.remove(id), ..after };
            &&& r is Ok
            &&& id != 0
            &&& after.callbacks.contains_key(id) && after.callbacks[id] == sender
            &&& !removed.callbacks.contains_key(id)
            &&& (other != id ==> removed.callbacks.contains_key(other) == reg.callbacks.contains_key(other))
            &&& (other != id && reg.callbacks.contains_key(other) ==> removed.callbacks[other] == reg.callbacks[other])
        }),
{
}

/// What registering each of `senders` in turn reports, and the registry after.
pub open spec fn registered_all<S>(reg: CallbackRegistryView<S>, senders: Seq<S>) -> (Seq<Result<usize, RegistryError>>, CallbackRegistryView<S>)
    decreases senders.len(),
{
    if senders.len() == 0 {
        (Seq::empty(), reg)
    } else {
        let (rs, mid) = registered_all(reg, senders.drop_last());
        let (r, after) = registered(mid, senders.last());
        (rs.push(r), after)
    }
}

/// Until the counter wraps, registrations get the ids that follow each other
/// from the counter, so no two of them share an id, and each sender is bound to
/// its id; where every registered id lies below the counter, as in a registry
/// that has not wrapped, none of the new ids was registered before.
pub proof fn lemma_ids_distinct_until_wrap<S>(reg: CallbackRegistryView<S>, senders: Seq<S>)
    requires
        reg.next_id >= 1,
        reg.next_id + senders.len() <= usize::MAX + 1,
    ensures
        registered_all(reg, senders).0.len() == senders.len(),
        forall|k: int| 0 <= k < senders.len() ==> #[trigger] registered_all(reg, senders).0[k] == Ok::<usize, RegistryError>((reg.next_id + k) as usize),
        forall|i: int, j: int| 0 <= i < j < senders.len() ==> #[trigger] registered_all(reg, senders).0[i] != #[trigger] registered_all(reg, senders).0[j],
        forall|id: usize| reg.next_id <= id < reg.next_id + senders.len() ==> #[trigger] registered_all(reg, senders).1.callbacks.contains_key(id)
            && registered_all(reg, senders).1.callbacks[id] == senders[id - reg.next_id],
        forall|id: usize| id < reg.next_id ==> (#[trigger] registered_all(reg, senders).1.callbacks.contains_key(id) == reg.callbacks.contains_key(id)
            && (reg.callbacks.contains_key(id) ==> registered_all(reg, senders).1.callbacks[id] == reg.callbacks[id])),
        (forall|id: usize| #[trigger] reg.callbacks.contains_key(id) ==> id < reg.next_id) ==> forall|k: int|
            0 <= k < senders.len() ==> !reg.callbacks.contains_key(#[trigger] (reg.next_id + k) as usize),
    decreases senders.len(),
{
    if senders.len() > 0 {
        let prefix = senders.drop_last();
        lemma_ids_distinct_until_wrap(reg, prefix);
        lemma_counter_after(reg, prefix);
        let rs0 = registered_all(reg, prefix).0;
        let mid = registered_all(reg, prefix).1;
        let n = prefix.len() as int;
        assert(mid.next_id == reg.next_id + n);
        let rs = registered_all(reg, senders).0;
        let after = registered_all(reg, senders).1;
        assert(rs == rs0.push(Ok::<usize, RegistryError>((reg.next_id + n) as usize)));
        assert(after.callbacks == mid.callbacks.insert((reg.next_id + n) as usize, senders.last()));
        assert forall|k: int| 0 <= k < senders.len() implies #[trigger] rs[k] == Ok::<usize, RegistryError>((reg.next_id + k) as usize) by {
            if k < n {
                assert(rs[k] == rs0[k]);
            }
        }
        assert forall|id: usize| reg.next_id <= id < reg.next_id + senders.len() implies #[trigger] after.callbacks.contains_key(id)
            && after.callbacks[id] == senders[id - reg.next_id] by {
            if id < reg.next_id + n {
                assert(senders[id - reg.next_id] == prefix[id - reg.next_id]);
                assert(mid.callbacks.contains_key(id) && mid.callbacks[id] == prefix[id - reg.next_id]);
            }
        }
        assert forall|i: int, j: int| 0 <= i < j < senders.len() implies #[trigger] rs[i] != #[trigger] rs[j] by {
            assert(rs[i] == Ok::<usize, RegistryError>((reg.next_id + i) as usize));
            assert(rs[j] == Ok::<usize, RegistryError>((reg.next_id + j) as usize));
        }
        assert forall|id: usize| id < reg.next_id implies (#[trigger] after.callbacks.contains_key(id) == reg.callbacks.contains_key(id)
            && (reg.callbacks.contains_key(id) ==> after.callbacks[id] == reg.callbacks[id])) by {
            assert(mid.callbacks.contains_key(id) == reg.callbacks.contains_key(id));
        }
    }
}

/// The counter after `senders` were registered without wrapping.
proof fn lemma_counter_after<S>(reg: CallbackRegistryView<S>, senders: Seq<S>)
    requires
        reg.next_id >= 1,
        reg.next_id + senders.len() <= usize::MAX + 1,
    ensures
        registered_all(reg, senders).1.next_id == reg.next_id + senders.len()
            || (reg.next_id + senders.len() == usize::MAX + 1 && registered_all(reg, senders).1.next_id == 0),
        reg.next_id + senders.len() <= usize::MAX ==> registered_all(reg, senders).1.next_id == reg.next_id + senders.len(),
    decreases senders.len(),
{
    if senders.len() > 0 {
        lemma_counter_after(reg, senders.drop_last());
    }
}

/// The opaque user-data word a callback id is handed across the bridge as:
/// the id shifted left by three bits.
pub open spec fn encoded_id(callback_id: usize) -> usize {
    (callback_id << 3usize) as usize
}

/// The callback id handed across the bridge as `user_data`.
pub fn encode_callback_id(callback_id: usize) -> (r: usize)
    ensures
        r == encoded_id(callback_id),
{
    callback_id << 3
}

/// The callback id a `user_data` word stands for.
pub fn decode_callback_id(user_data: usize) -> (r: usize)
    ensures
        r == user_data >> 3usize,
{
    user_data >> 3
}

/// Decoding gives back every id small enough to survive the shift.
pub proof fn lemma_callback_id_round_trip(callback_id: usize)
    requires
        callback_id <= (!0usize) >> 3usize,
    ensures
        (encoded_id(callback_id) >> 3usize) == callback_id,
{
    assert((((callback_id << 3usize) as usize) >> 3usize) == callback_id) by (bit_vector)
        requires
            callback_id <= (!0usize) >> 3usize,
    ;
}

/// A stop request on a latch that is `stopped` or not: whether the bridge is
/// told, and whether the latch is stopped afterwards.
pub open spec fn stop_step(stopped: bool) -> (bool, bool) {
    (!stopped, true)
}

/// The answers of `n` stop requests in a row on a latch that is `stopped` or not.
pub open spec fn stop_answers(stopped: bool, n: nat) -> Seq<bool>
    decreases n,
{
    if n == 0 {
        Seq::empty()
    } else {
        seq![stop_step(stopped).0] + stop_answers(stop_step(stopped).1, (n - 1) as nat)
    }
}

/// However often a running session is asked to stop, the bridge is told once,
/// at the first request; a stopped session never tells it again.
pub proof fn lemma_bridge_told_once(n: nat)
    requires
        n >= 1,
    ensures
        stop_answers(false, n).len() == n,
        stop_answers(false, n)[0],
        forall|k: int| 1 <= k < n ==> !#[trigger] stop_answers(false, n)[k],
{
    lemma_stopped_never_tells((n - 1) as nat);
    assert(stop_answers(false, n) == seq![true] + stop_answers(true, (n - 1) as nat));
}

/// A stopped latch answers every request with `false`.
pub proof fn lemma_stopped_never_tells(n: nat)
    ensures
        stop_answers(true, n).len() == n,
        forall|k: int| 0 <= k < n ==> !#[trigger] stop_answers(true, n)[k],
    decreases n,
{
    if n > 0 {
        lemma_stopped_never_tells((n - 1) as nat);
        let rest = stop_answers(true, (n - 1) as nat);
        assert forall|k: int| 0 <= k < n implies !#[trigger] stop_answers(true, n)[k] by {
            if k > 0 {
                assert(stop_answers(true, n)[k] == rest[k - 1]);
            }
        }
    }
}

/// Whether a recognizer session was asked to stop.
pub struct StopLatch {
    stopped: bool,
}

impl StopLatch {
    /// A session that runs.
    pub fn new() -> (r: StopLatch)
        ensures
            !r.is_stopped(),
    {
        StopLatch { stopped: false }
    }

    /// Whether stop was requested.
    pub closed spec fn is_stopped(&self) -> bool {
        self.stopped
    }

    /// Marks the session stopped; true only the first time, when the bridge
    /// must be told.
    pub fn begin_stop(&mut self) -> (r: bool)
        ensures
            (r, final(self).is_stopped()) == stop_step(old(self).is_stopped()),
    {
        if self.stopped {
            return false;
        }
        self.stopped = true;
        true
    }
}

} // verus!
