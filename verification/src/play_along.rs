//! The play-along matcher: reconciles file-driven notes against live user
//! key presses under a bounded leeway window, and tells the scheduler
//! whether the clock may advance.
//!
//! A file NoteOn for a key the user pressed recently (within the leeway)
//! consumes that press; otherwise the key becomes required and playback is
//! blocked until the user plays it or its NoteOff arrives. Keys outside the
//! user's keyboard range never take part.

use vstd::prelude::*;

use crate::keyboard::KeyboardRange;
use crate::events::MidiMessage;

verus! {

/// Leeway window in milliseconds: a user press and the matching file note
/// may be this far apart in either direction.
pub const LEEWAY_MS: u64 = 500;

/// One recent user key press.
#[derive(Clone, Copy, PartialEq, Eq, Structural, Debug)]
pub struct UserPress {
    pub note_id: u8,
    pub timestamp_ms: u64,
}

/// Where a note event came from: the file being played, or the user's
/// instrument.
#[derive(Clone, Copy, PartialEq, Eq, Structural, Debug)]
pub enum MidiEventSource {
    File,
    User,
}

/// How many entries of `s` are set.
pub open spec fn count_true(s: Seq<bool>) -> int
    decreases s.len(),
{
    if s.len() == 0 {
        0
    } else {
        count_true(s.drop_last()) + if s.last() {
            1int
        } else {
            0int
        }
    }
}

proof fn lemma_count_true_bounds(s: Seq<bool>)
    ensures
        0 <= count_true(s) <= s.len(),
    decreases s.len(),
{
    if s.len() > 0 {
        lemma_count_true_bounds(s.drop_last());
    }
}

proof fn lemma_count_true_update(s: Seq<bool>, i: int, v: bool)
    requires
        0 <= i < s.len(),
    ensures
        count_true(s.update(i, v)) == count_true(s) - (if s[i] {
            1int
        } else {
            0int
        }) + (if v {
            1int
        } else {
            0int
        }),
    decreases s.len(),
{
    if i == s.len() - 1 {
        assert(s.update(i, v).drop_last() =~= s.drop_last());
        assert(s.update(i, v).last() == v);
    } else {
        lemma_count_true_update(s.drop_last(), i, v);
        assert(s.update(i, v).drop_last() =~= s.drop_last().update(i, v));
        assert(s.update(i, v).last() == s.last());
    }
}

/// The count is zero exactly when no entry is set.
pub proof fn lemma_count_true_zero(s: Seq<bool>)
    ensures
        (count_true(s) == 0) <==> (forall|i: int| 0 <= i < s.len() ==> !s[i]),
    decreases s.len(),
{
    if s.len() > 0 {
        lemma_count_true_zero(s.drop_last());
        lemma_count_true_bounds(s.drop_last());
        if count_true(s) == 0 {
            assert forall|i: int| 0 <= i < s.len() implies !s[i] by {
                if i < s.len() - 1 {
                    assert(s.drop_last()[i] == s[i]);
                }
            }
        } else {
            if forall|i: int| 0 <= i < s.len() ==> !s[i] {
                assert(forall|i: int| 0 <= i < s.drop_last().len() ==> !s.drop_last()[i]);
                assert(!s.last());
                assert(false);
            }
        }
    }
}

/// How much older than `now` a press at `t` is (zero for presses that are
/// not in the past).
pub open spec fn age_ms(now: u64, t: u64) -> int {
    if now >= t {
        now - t
    } else {
        0
    }
}

/// Trim expired presses from the front of the queue: eviction stops at the
/// first press still inside the leeway window.
pub open spec fn evict(q: Seq<UserPress>, now: u64) -> Seq<UserPress>
    decreases q.len(),
{
    if q.len() == 0 {
        q
    } else if age_ms(now, q[0].timestamp_ms) > LEEWAY_MS {
        evict(q.drop_first(), now)
    } else {
        q
    }
}

/// Evicting twice at the same instant changes nothing more: the trim
/// leaves either an empty queue or a young press at the front.
pub proof fn lemma_evict_idempotent(q: Seq<UserPress>, now: u64)
    ensures
        evict(evict(q, now), now) == evict(q, now),
    decreases q.len(),
{
    if q.len() > 0 && age_ms(now, q[0].timestamp_ms) > LEEWAY_MS {
        lemma_evict_idempotent(q.drop_first(), now);
    }
}

/// The required-set value in which no key is outstanding.
pub open spec fn no_required() -> Seq<bool> {
    Seq::new(128, |i: int| false)
}

/// A press still inside the leeway window survives eviction.
proof fn lemma_evict_retains(q: Seq<UserPress>, now: u64, i: int)
    requires
        0 <= i < q.len(),
        age_ms(now, q[i].timestamp_ms) <= LEEWAY_MS,
    ensures
        exists|j: int| 0 <= j < evict(q, now).len() && evict(q, now)[j] == q[i],
    decreases q.len(),
{
    if age_ms(now, q[0].timestamp_ms) > LEEWAY_MS {
        lemma_evict_retains(q.drop_first(), now, i - 1);
        assert(q.drop_first()[i - 1] == q[i]);
        let w = choose|j: int|
            0 <= j < evict(q.drop_first(), now).len() && evict(q.drop_first(), now)[j]
                == q.drop_first()[i - 1];
        assert(evict(q, now)[w] == q[i]);
    } else {
        assert(evict(q, now) == q);
        assert(evict(q, now)[i] == q[i]);
    }
}

/// When every press has expired, eviction empties the queue.
proof fn lemma_evict_all(q: Seq<UserPress>, now: u64)
    requires
        forall|i: int| 0 <= i < q.len() ==> age_ms(now, (#[trigger] q[i]).timestamp_ms) > LEEWAY_MS,
    ensures
        evict(q, now).len() == 0,
    decreases q.len(),
{
    if q.len() > 0 {
        assert forall|i: int|
            0 <= i < q.drop_first().len() implies age_ms(
            now,
            (#[trigger] q.drop_first()[i]).timestamp_ms,
        ) > LEEWAY_MS by {
            assert(q.drop_first()[i] == q[i + 1]);
        }
        lemma_evict_all(q.drop_first(), now);
    }
}

/// Index of the first unconsumed press of `key`, or -1 if none.
pub open spec fn find_press(q: Seq<UserPress>, key: u8) -> int
    decreases q.len(),
{
    if q.len() == 0 {
        -1
    } else if q[0].note_id == key {
        0
    } else {
        let r = find_press(q.drop_first(), key);
        if r < 0 {
            -1
        } else {
            r + 1
        }
    }
}

/// [`find_press`] returns -1 exactly when no press of `key` is queued, and
/// otherwise the first matching index.
proof fn lemma_find_press_char(q: Seq<UserPress>, key: u8)
    ensures
        find_press(q, key) == -1 ==> forall|j: int|
            0 <= j < q.len() ==> (#[trigger] q[j]).note_id != key,
        find_press(q, key) >= 0 ==> {
            let r = find_press(q, key);
            &&& r < q.len()
            &&& q[r].note_id == key
            &&& forall|j: int| 0 <= j < r ==> (#[trigger] q[j]).note_id != key
        },
    decreases q.len(),
{
    if q.len() == 0 {
    } else if q[0].note_id == key {
    } else {
        lemma_find_press_char(q.drop_first(), key);
        let r0 = find_press(q.drop_first(), key);
        if r0 < 0 {
            assert forall|j: int| 0 <= j < q.len() implies (#[trigger] q[j]).note_id != key by {
                if j > 0 {
                    assert(q.drop_first()[j - 1] == q[j]);
                }
            }
        } else {
            assert(q[r0 + 1] == q.drop_first()[r0]);
            assert forall|j: int| 0 <= j < r0 + 1 implies (#[trigger] q[j]).note_id != key by {
                if j > 0 {
                    assert(q.drop_first()[j - 1] == q[j]);
                }
            }
        }
    }
}

/// Effect of a user key event on `(required, queue)`: an active press is
/// recorded and clears its key from the required set (a late match); a
/// release does nothing.
pub open spec fn user_press_spec(
    required: Seq<bool>,
    q: Seq<UserPress>,
    key: u8,
    active: bool,
    now: u64,
) -> (Seq<bool>, Seq<UserPress>) {
    if active {
        (
            required.update(key as int, false),
            q.push(UserPress { note_id: key, timestamp_ms: now }),
        )
    } else {
        (required, q)
    }
}

/// Effect of a file note event on `(required, queue)`: a NoteOn consumes
/// the first recent press of its key (an early match) or, failing that,
/// makes the key required; a NoteOff unconditionally clears the key.
pub open spec fn file_press_spec(required: Seq<bool>, q: Seq<UserPress>, key: u8, active: bool) -> (
    Seq<bool>,
    Seq<UserPress>,
) {
    if active {
        let j = find_press(q, key);
        if j >= 0 {
            (required, q.remove(j))
        } else {
            (required.update(key as int, true), q)
        }
    } else {
        (required.update(key as int, false), q)
    }
}

/// Effect of any key event: keys outside the user's range are ignored
/// entirely; inside it, the event is dispatched by source.
pub open spec fn press_key_spec(
    range: KeyboardRange,
    required: Seq<bool>,
    q: Seq<UserPress>,
    src: MidiEventSource,
    key: u8,
    active: bool,
    now: u64,
) -> (Seq<bool>, Seq<UserPress>) {
    if !range.contains_spec(key) {
        (required, q)
    } else {
        match src {
            MidiEventSource::User => user_press_spec(required, q, key, active, now),
            MidiEventSource::File => file_press_spec(required, q, key, active),
        }
    }
}

/// Effect of a raw MIDI message: NoteOn presses, NoteOff releases,
/// anything else is ignored.
pub open spec fn midi_event_spec(
    range: KeyboardRange,
    required: Seq<bool>,
    q: Seq<UserPress>,
    source: MidiEventSource,
    message: MidiMessage,
    now: u64,
) -> (Seq<bool>, Seq<UserPress>) {
    match message {
        MidiMessage::NoteOn { key, .. } => press_key_spec(range, required, q, source, key, true, now),
        MidiMessage::NoteOff { key, .. } => press_key_spec(
            range,
            required,
            q,
            source,
            key,
            false,
            now,
        ),
        _ => (required, q),
    }
}

/// The play-along matcher's state: the user's key range, one flag per MIDI
/// key for the notes the file has sounded but the user has not matched,
/// the running count of those flags, and the recent user presses.
pub struct PlayAlong {
    pub user_keyboard_range: KeyboardRange,
    pub required_notes: Vec<bool>,
    pub required_count: usize,
    pub user_pressed_recently: Vec<UserPress>,
}

/// Write one flag of the required set.
fn set_flag(flags: &mut Vec<bool>, i: usize, v: bool)
    requires
        i < old(flags)@.len(),
    ensures
        final(flags)@ == old(flags)@.update(i as int, v),
{
    let slot = &mut flags[i];
    *slot = v;
}

/// A required-set vector with no key set.
fn empty_flags() -> (r: Vec<bool>)
    ensures
        r@.len() == 128,
        forall|i: int| 0 <= i < 128 ==> !(#[trigger] r@[i]),
        count_true(r@) == 0,
{
    let mut flags: Vec<bool> = Vec::new();
    let mut i: usize = 0;
    while i < 128
        invariant
            i <= 128,
            flags@.len() == i,
            forall|j: int| 0 <= j < i ==> !(#[trigger] flags@[j]),
        decreases 128 - i,
    {
        flags.push(false);
        i = i + 1;
    }
    proof {
        lemma_count_true_zero(flags@);
    }
    flags
}

impl PlayAlong {
    /// One flag per MIDI key, a count that matches the flags, a well-formed
    /// range.
    pub open spec fn wf(&self) -> bool {
        &&& self.user_keyboard_range.wf()
        &&& self.required_notes@.len() == 128
        &&& self.required_count == count_true(self.required_notes@)
    }

    /// A fresh matcher for the given key range: nothing required, nothing
    /// recently pressed.
    pub fn new(user_keyboard_range: KeyboardRange) -> (r: PlayAlong)
        requires
            user_keyboard_range.wf(),
        ensures
            r.wf(),
            r.user_keyboard_range == user_keyboard_range,
            forall|k: int| 0 <= k < 128 ==> !(#[trigger] r.required_notes@[k]),
            r.user_pressed_recently@.len() == 0,
    {
        PlayAlong {
            user_keyboard_range,
            required_notes: empty_flags(),
            required_count: 0,
            user_pressed_recently: Vec::new(),
        }
    }

    /// Evict presses older than the leeway window from the front of the
    /// queue. Presses are recorded in time order, so the trim stops at the
    /// first press still inside the window; the required set is untouched.
    pub fn update(&mut self, now_ms: u64)
        requires
            old(self).wf(),
        ensures
            final(self).wf(),
            final(self).user_keyboard_range == old(self).user_keyboard_range,
            final(self).required_notes == old(self).required_notes,
            final(self).required_count == old(self).required_count,
            final(self).user_pressed_recently@ == evict(
                old(self).user_pressed_recently@,
                now_ms,
            ),
    {
        loop
            invariant
                self.wf(),
                self.user_keyboard_range == old(self).user_keyboard_range,
                self.required_notes == old(self).required_notes,
                self.required_count == old(self).required_count,
                evict(self.user_pressed_recently@, now_ms) == evict(
                    old(self).user_pressed_recently@,
                    now_ms,
                ),
            ensures
                self.user_pressed_recently@.len() == 0 || age_ms(
                    now_ms,
                    self.user_pressed_recently@[0].timestamp_ms,
                ) <= LEEWAY_MS,
            decreases self.user_pressed_recently@.len(),
        {
            if self.user_pressed_recently.len() == 0 {
                break;
            }
            let t = self.user_pressed_recently[0].timestamp_ms;
            let elapsed: u64 = if now_ms >= t {
                now_ms - t
            } else {
                0
            };
            if elapsed <= LEEWAY_MS {
                break;
            }
            let ghost pre = self.user_pressed_recently@;
            self.user_pressed_recently.remove(0);
            proof {
                assert(self.user_pressed_recently@ =~= pre.drop_first());
            }
        }
    }

    /// Record a user key event. An active press is pushed onto the recent
    /// queue and clears its key from the required set (a late match); a
    /// release has no gating effect.
    pub fn user_press_key(&mut self, note_id: u8, active: bool, now_ms: u64)
        requires
            old(self).wf(),
            note_id < 128,
        ensures
            final(self).wf(),
            final(self).user_keyboard_range == old(self).user_keyboard_range,
            (final(self).required_notes@, final(self).user_pressed_recently@) == user_press_spec(
                old(self).required_notes@,
                old(self).user_pressed_recently@,
                note_id,
                active,
                now_ms,
            ),
    {
        if active {
            self.user_pressed_recently.push(UserPress { note_id, timestamp_ms: now_ms });
            let was = self.required_notes[note_id as usize];
            proof {
                lemma_count_true_update(self.required_notes@, note_id as int, false);
                lemma_count_true_bounds(self.required_notes@.update(note_id as int, false));
            }
            set_flag(&mut self.required_notes, note_id as usize, false);
            if was {
                self.required_count = self.required_count - 1;
            }
        }
    }

    /// Record a file note event. A NoteOn consumes the first recent press
    /// of its key if one exists (early match); otherwise the key becomes
    /// required. A NoteOff unconditionally clears the key, so a missed note
    /// cannot block playback forever.
    pub fn file_press_key(&mut self, note_id: u8, active: bool)
        requires
            old(self).wf(),
            note_id < 128,
        ensures
            final(self).wf(),
            final(self).user_keyboard_range == old(self).user_keyboard_range,
            (final(self).required_notes@, final(self).user_pressed_recently@) == file_press_spec(
                old(self).required_notes@,
                old(self).user_pressed_recently@,
                note_id,
                active,
            ),
    {
        if active {
            match find_press_idx(&self.user_pressed_recently, note_id) {
                Some(j) => {
                    self.user_pressed_recently.remove(j);
                },
                None => {
                    let was = self.required_notes[note_id as usize];
                    proof {
                        lemma_count_true_update(self.required_notes@, note_id as int, true);
                        lemma_count_true_bounds(self.required_notes@);
                    }
                    set_flag(&mut self.required_notes, note_id as usize, true);
                    if !was {
                        self.required_count = self.required_count + 1;
                    }
                },
            }
        } else {
            let was = self.required_notes[note_id as usize];
            proof {
                lemma_count_true_update(self.required_notes@, note_id as int, false);
                lemma_count_true_bounds(self.required_notes@.update(note_id as int, false));
            }
            set_flag(&mut self.required_notes, note_id as usize, false);
            if was {
                self.required_count = self.required_count - 1;
            }
        }
    }

    /// Dispatch a key event from either source; keys outside the user's
    /// keyboard range are ignored entirely.
    pub fn press_key(&mut self, src: MidiEventSource, note_id: u8, active: bool, now_ms: u64)
        requires
            old(self).wf(),
        ensures
            final(self).wf(),
            final(self).user_keyboard_range == old(self).user_keyboard_range,
            (final(self).required_notes@, final(self).user_pressed_recently@) == press_key_spec(
                old(self).user_keyboard_range,
                old(self).required_notes@,
                old(self).user_pressed_recently@,
                src,
                note_id,
                active,
                now_ms,
            ),
    {
        if !self.user_keyboard_range.contains(note_id) {
            return ;
        }
        match src {
            MidiEventSource::User => self.user_press_key(note_id, active, now_ms),
            MidiEventSource::File => self.file_press_key(note_id, active),
        }
    }

    /// Feed one MIDI message: NoteOn presses, NoteOff releases, anything
    /// else is ignored.
    pub fn midi_event(&mut self, source: MidiEventSource, message: &MidiMessage, now_ms: u64)
        requires
            old(self).wf(),
        ensures
            final(self).wf(),
            final(self).user_keyboard_range == old(self).user_keyboard_range,
            (final(self).required_notes@, final(self).user_pressed_recently@) == midi_event_spec(
                old(self).user_keyboard_range,
                old(self).required_notes@,
                old(self).user_pressed_recently@,
                source,
                *message,
                now_ms,
            ),
    {
        match message {
            MidiMessage::NoteOn { key, .. } => self.press_key(source, *key, true, now_ms),
            MidiMessage::NoteOff { key, .. } => self.press_key(source, *key, false, now_ms),
            _ => {},
        }
    }

    /// The go-ahead for the scheduler: playback may advance only while
    /// no required key is outstanding.
    pub fn are_required_keys_pressed(&self) -> (r: bool)
        requires
            self.wf(),
        ensures
            r <==> (forall|k: int| 0 <= k < 128 ==> !(#[trigger] self.required_notes@[k])),
    {
        proof {
            lemma_count_true_zero(self.required_notes@);
        }
        self.required_count == 0
    }

    /// Forget every outstanding requirement (used after a seek, so that no
    /// stale requirement from before the jump can block playback).
    pub fn clear_required(&mut self)
        requires
            old(self).wf(),
        ensures
            final(self).wf(),
            final(self).user_keyboard_range == old(self).user_keyboard_range,
            final(self).user_pressed_recently == old(self).user_pressed_recently,
            final(self).required_notes@.len() == 128,
            forall|k: int| 0 <= k < 128 ==> !(#[trigger] final(self).required_notes@[k]),
    {
        self.required_notes = empty_flags();
        self.required_count = 0;
    }
}

/// First queued press of `key`, if any.
fn find_press_idx(q: &Vec<UserPress>, key: u8) -> (r: Option<usize>)
    ensures
        match r {
            Some(j) => find_press(q@, key) == j as int && (j as int) < q@.len(),
            None => find_press(q@, key) == -1,
        },
{
    let mut i: usize = 0;
    while i < q.len()
        invariant
            i <= q@.len(),
            forall|j: int| 0 <= j < i ==> (#[trigger] q@[j]).note_id != key,
        decreases q@.len() - i,
    {
        if q[i].note_id == key {
            proof {
                lemma_find_press_char(q@, key);
            }
            return Some(i);
        }
        i = i + 1;
    }
    proof {
        lemma_find_press_char(q@, key);
    }
    None
}

/// The leeway law: pressing a key and then receiving the file NoteOn for
/// it within the leeway window never makes the key required (the early
/// press is consumed); if the file note arrives after the window has
/// passed — and every queued press is from before the user's press, as
/// time-ordered insertion guarantees — the key does become required.
pub proof fn lemma_play_along_leeway(
    range: KeyboardRange,
    required0: Seq<bool>,
    q0: Seq<UserPress>,
    key: u8,
    t: u64,
    now: u64,
)
    requires
        range.wf(),
        range.contains_spec(key),
        required0.len() == 128,
        t <= now,
    ensures
        ({
            let (r1, q1) = press_key_spec(
                range,
                required0,
                q0,
                MidiEventSource::User,
                key,
                true,
                t,
            );
            let q2 = evict(q1, now);
            let (r3, q3) = press_key_spec(range, r1, q2, MidiEventSource::File, key, true, now);
            &&& now - t <= LEEWAY_MS ==> !r3[key as int]
            &&& (now - t > LEEWAY_MS && (forall|i: int|
                0 <= i < q0.len() ==> (#[trigger] q0[i]).timestamp_ms <= t)) ==> r3[key as int]
        }),
{
    let (r1, q1) = press_key_spec(range, required0, q0, MidiEventSource::User, key, true, t);
    let q2 = evict(q1, now);
    assert(r1 == required0.update(key as int, false));
    assert(q1 == q0.push(UserPress { note_id: key, timestamp_ms: t }));
    if now - t <= LEEWAY_MS {
        assert(q1[q1.len() - 1] == UserPress { note_id: key, timestamp_ms: t });
        assert(age_ms(now, t) <= LEEWAY_MS);
        lemma_evict_retains(q1, now, q1.len() - 1);
        lemma_find_press_char(q2, key);
        let w = choose|j: int| 0 <= j < q2.len() && q2[j] == q1[q1.len() - 1];
        assert(q2[w].note_id == key);
        assert(find_press(q2, key) >= 0);
    } else if forall|i: int| 0 <= i < q0.len() ==> (#[trigger] q0[i]).timestamp_ms <= t {
        assert forall|i: int|
            0 <= i < q1.len() implies age_ms(now, (#[trigger] q1[i]).timestamp_ms)
            > LEEWAY_MS by {
            if i < q0.len() {
                assert(q1[i] == q0[i]);
            } else {
                assert(q1[i].timestamp_ms == t);
            }
        }
        lemma_evict_all(q1, now);
        assert(find_press(q2, key) == -1);
    }
}

/// Half of the required-set law: no event other than a file NoteOn for
/// key `k` can make `k` required (and eviction never touches the required
/// set at all, as [`PlayAlong::update`] states).
pub proof fn lemma_required_added_only_by_file_note_on(
    range: KeyboardRange,
    required: Seq<bool>,
    q: Seq<UserPress>,
    src: MidiEventSource,
    key: u8,
    active: bool,
    now: u64,
    k: int,
)
    requires
        range.wf(),
        required.len() == 128,
        0 <= k < 128,
    ensures
        ({
            let (r1, q1) = press_key_spec(range, required, q, src, key, active, now);
            (r1[k] && !required[k]) ==> (src == MidiEventSource::File && active && k == key as int)
        }),
{
}

/// The other half: a required key `k` can only be cleared by a user press
/// of `k` (a late match) or by the file NoteOff for `k` (the forced
/// clear).
pub proof fn lemma_required_cleared_only_by_match(
    range: KeyboardRange,
    required: Seq<bool>,
    q: Seq<UserPress>,
    src: MidiEventSource,
    key: u8,
    active: bool,
    now: u64,
    k: int,
)
    requires
        range.wf(),
        required.len() == 128,
        0 <= k < 128,
    ensures
        ({
            let (r1, q1) = press_key_spec(range, required, q, src, key, active, now);
            (!r1[k] && required[k]) ==> (k == key as int && ((src == MidiEventSource::User
                && active) || (src == MidiEventSource::File && !active)))
        }),
{
}

} // verus!
