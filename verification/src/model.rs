//! Mathematical model of the action-rate tracker.
//!
//! A frame hands the tracker the set of pressed mouse buttons, the set of
//! pressed keys and the current time in milliseconds. The model records
//! one action per device whose set changed since the previous frame,
//! keeps only the actions inside the trailing window, and the rate is
//! the number of actions kept.

use vstd::prelude::*;

verus! {

/// Length of the trailing window in milliseconds.
pub const WINDOW_MS: u64 = 60000;

/// Code the host assigns to the left control key.
pub const KEY_LCONTROL: u16 = 1001;

/// Code the host assigns to the left alt key.
pub const KEY_LALT: u16 = 1002;

/// Code the host assigns to the Q key.
pub const KEY_Q: u16 = 1003;

/// Code the host assigns to the F4 key.
pub const KEY_F4: u16 = 1004;

/// The state of the tracker: action timestamps in insertion order,
/// and the previously observed snapshot of each input device.
pub struct TrackerModel {
    pub actions: Seq<u64>,
    pub last_mouse: Set<u16>,
    pub last_keys: Set<u16>,
}

/// One frame of input: the current snapshots and the current time.
pub struct Frame {
    pub mouse: Set<u16>,
    pub keys: Set<u16>,
    pub now: u64,
}

/// The state at process start: no actions, empty snapshots.
pub open spec fn initial_model() -> TrackerModel {
    TrackerModel {
        actions: Seq::empty(),
        last_mouse: Set::empty(),
        last_keys: Set::empty(),
    }
}

/// An action stamped `t` is kept at time `now` exactly when it is
/// strictly younger than the trailing window.
pub open spec fn retained(t: u64, now: u64) -> bool {
    t + WINDOW_MS > now
}

/// Eviction: keep exactly the actions inside the trailing window.
pub open spec fn evict_model(actions: Seq<u64>, now: u64) -> Seq<u64> {
    actions.filter(|t: u64| retained(t, now))
}

/// Whether the mouse snapshot of `f` differs from the one last seen.
pub open spec fn mouse_changed(m: TrackerModel, f: Frame) -> bool {
    f.mouse != m.last_mouse
}

/// Whether the key snapshot of `f` differs from the one last seen.
pub open spec fn keys_changed(m: TrackerModel, f: Frame) -> bool {
    f.keys != m.last_keys
}

/// One per-frame update: evict, then record one action per device
/// whose snapshot changed, then remember the snapshots.
pub open spec fn step(m: TrackerModel, f: Frame) -> TrackerModel {
    let evicted = evict_model(m.actions, f.now);
    let after_mouse = if mouse_changed(m, f) {
        evicted.push(f.now)
    } else {
        evicted
    };
    let after_keys = if keys_changed(m, f) {
        after_mouse.push(f.now)
    } else {
        after_mouse
    };
    TrackerModel { actions: after_keys, last_mouse: f.mouse, last_keys: f.keys }
}

/// The rate reported after a frame: the number of actions kept.
pub open spec fn rate_of(m: TrackerModel) -> nat {
    m.actions.len()
}

/// The quit shortcut: the key set holds both control and Q, or both
/// alt and F4.
pub open spec fn quit_spec(keys: Set<u16>) -> bool {
    (keys.contains(KEY_LCONTROL) && keys.contains(KEY_Q)) || (keys.contains(KEY_LALT)
        && keys.contains(KEY_F4))
}

/// Feeding a sequence of frames, first to last.
pub open spec fn run(m: TrackerModel, frames: Seq<Frame>) -> TrackerModel
    decreases frames.len(),
{
    if frames.len() == 0 {
        m
    } else {
        step(run(m, frames.drop_last()), frames.last())
    }
}

/// The timestamps of every transition detected over a run, in order,
/// before any eviction: one per device whose snapshot changed, so a
/// frame where both devices change contributes two.
pub open spec fn run_events(m: TrackerModel, frames: Seq<Frame>) -> Seq<u64>
    decreases frames.len(),
{
    if frames.len() == 0 {
        Seq::empty()
    } else {
        let prev = run_events(m, frames.drop_last());
        let before = run(m, frames.drop_last());
        let f = frames.last();
        let after_mouse = if mouse_changed(before, f) {
            prev.push(f.now)
        } else {
            prev
        };
        if keys_changed(before, f) {
            after_mouse.push(f.now)
        } else {
            after_mouse
        }
    }
}

/// Frame times never go backwards.
pub open spec fn frames_monotone(frames: Seq<Frame>) -> bool {
    forall|i: int, j: int| 0 <= i <= j < frames.len() ==> frames[i].now <= frames[j].now
}

/// Eviction of a sequence extended by one entry: the entry stays
/// exactly when it is retained.
pub proof fn lemma_evict_push(s: Seq<u64>, x: u64, now: u64)
    ensures
        evict_model(s.push(x), now) == (if retained(x, now) {
            evict_model(s, now).push(x)
        } else {
            evict_model(s, now)
        }),
{
    reveal(Seq::filter);
    assert(s.push(x).drop_last() =~= s);
    assert(s.push(x).last() == x);
}

/// Evicting at a later time after evicting at an earlier one is the
/// same as evicting at the later time alone.
pub proof fn lemma_evict_evict(s: Seq<u64>, n1: u64, n2: u64)
    requires
        n1 <= n2,
    ensures
        evict_model(evict_model(s, n1), n2) == evict_model(s, n2),
    decreases s.len(),
{
    reveal(Seq::filter);
    if s.len() == 0 {
    } else {
        let d = s.drop_last();
        let l = s.last();
        lemma_evict_evict(d, n1, n2);
        assert(s =~= d.push(l));
        lemma_evict_push(d, l, n1);
        lemma_evict_push(d, l, n2);
        if retained(l, n1) {
            lemma_evict_push(evict_model(d, n1), l, n2);
        }
    }
}

} // verus!
