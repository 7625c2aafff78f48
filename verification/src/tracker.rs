//! The executable action-rate tracker.

use vstd::prelude::*;
use crate::model::{
    TrackerModel, Frame, initial_model, retained, evict_model, step, rate_of, quit_spec,
    lemma_evict_push, WINDOW_MS, KEY_LCONTROL, KEY_LALT, KEY_Q, KEY_F4,
};

verus! {

/// Per-frame action-rate tracker: recorded action timestamps, the rate
/// reported after the last frame, and the previously observed snapshot
/// of each input device, as vectors of codes.
pub struct ApmTracker {
    pub actions: Vec<u64>,
    pub current_apm: u64,
    pub last_mouse_buttons: Vec<u16>,
    pub last_keys: Vec<u16>,
}

impl View for ApmTracker {
    type V = TrackerModel;

    open spec fn view(&self) -> TrackerModel {
        TrackerModel {
            actions: self.actions@,
            last_mouse: self.last_mouse_buttons@.to_set(),
            last_keys: self.last_keys@.to_set(),
        }
    }
}

impl ApmTracker {
    /// A fresh tracker: no actions, empty snapshots, rate zero.
    pub fn new() -> (t: ApmTracker)
        ensures
            t@ == initial_model(),
            t.current_apm == 0,
    {
        let t = ApmTracker {
            actions: Vec::new(),
            current_apm: 0,
            last_mouse_buttons: Vec::new(),
            last_keys: Vec::new(),
        };
        proof {
            assert(t@.actions =~= Seq::<u64>::empty());
            assert(t@.last_mouse =~= Set::<u16>::empty());
            assert(t@.last_keys =~= Set::<u16>::empty());
        }
        t
    }

    /// Keep exactly the actions inside the trailing window at `now`.
    fn evict(&mut self, now: u64)
        ensures
            final(self).actions@ == evict_model(old(self).actions@, now),
            final(self).current_apm == old(self).current_apm,
            final(self).last_mouse_buttons == old(self).last_mouse_buttons,
            final(self).last_keys == old(self).last_keys,
    {
        let mut kept: Vec<u64> = Vec::new();
        let mut i: usize = 0;
        proof {
            assert(self.actions@.subrange(0, 0) =~= Seq::<u64>::empty());
            assert(evict_model(Seq::<u64>::empty(), now) =~= Seq::<u64>::empty()) by {
                reveal(Seq::filter);
            }
        }
        while i < self.actions.len()
            invariant
                i <= self.actions@.len(),
                kept@ == evict_model(self.actions@.subrange(0, i as int), now),
            decreases self.actions@.len() - i,
        {
            let t = self.actions[i];
            let keep = if now < WINDOW_MS {
                true
            } else {
                t > now - WINDOW_MS
            };
            proof {
                assert(keep == retained(t, now));
                assert(self.actions@.subrange(0, i as int + 1) =~= self.actions@.subrange(
                    0,
                    i as int,
                ).push(t));
                lemma_evict_push(self.actions@.subrange(0, i as int), t, now);
            }
            if keep {
                kept.push(t);
            }
            i += 1;
        }
        proof {
            assert(self.actions@.subrange(0, self.actions@.len() as int) =~= self.actions@);
        }
        self.actions = kept;
    }

    /// One per-frame update, as the model's `step`: evict actions that
    /// left the trailing window, record one action per device whose
    /// snapshot changed, remember the snapshots, and recompute the rate.
    pub fn update(&mut self, mouse_buttons: Vec<u16>, keys: Vec<u16>, now: u64)
        ensures
            final(self)@ == step(
                old(self)@,
                (Frame { mouse: mouse_buttons@.to_set(), keys: keys@.to_set(), now }),
            ),
            final(self).current_apm == rate_of(final(self)@),
    {
        self.evict(now);
        if !set_eq(&self.last_mouse_buttons, &mouse_buttons) {
            self.actions.push(now);
            self.last_mouse_buttons = mouse_buttons;
        } else {
            proof {
                assert(self.last_mouse_buttons@.to_set() == mouse_buttons@.to_set());
            }
        }
        if !set_eq(&self.last_keys, &keys) {
            self.actions.push(now);
            self.last_keys = keys;
        } else {
            proof {
                assert(self.last_keys@.to_set() == keys@.to_set());
            }
        }
        self.current_apm = self.actions.len() as u64;
    }
}

/// The quit shortcut: the key snapshot holds both control and Q, or
/// both alt and F4.
pub fn should_quit(keys: &Vec<u16>) -> (r: bool)
    ensures
        r == quit_spec(keys@.to_set()),
{
    (vec_contains(keys, KEY_LCONTROL) && vec_contains(keys, KEY_Q)) || (vec_contains(
        keys,
        KEY_LALT,
    ) && vec_contains(keys, KEY_F4))
}

/// Whether `a` and `b` hold the same set of codes, whatever the order
/// and multiplicity.
fn set_eq(a: &Vec<u16>, b: &Vec<u16>) -> (r: bool)
    ensures
        r == (a@.to_set() == b@.to_set()),
{
    let ab = vec_set_subset(a, b);
    let ba = vec_set_subset(b, a);
    proof {
        if ab && ba {
            assert(a@.to_set() =~= b@.to_set()) by {
                assert forall|x: u16| a@.to_set().contains(x) implies b@.to_set().contains(
                    x,
                ) by {
                    let k = choose|k: int| 0 <= k < a@.len() && a@[k] == x;
                    assert(b@.contains(a@[k]));
                };
                assert forall|x: u16| b@.to_set().contains(x) implies a@.to_set().contains(
                    x,
                ) by {
                    let k = choose|k: int| 0 <= k < b@.len() && b@[k] == x;
                    assert(a@.contains(b@[k]));
                };
            }
        } else if !ab {
            let k = choose|k: int| 0 <= k < a@.len() && !b@.contains(a@[k]);
            assert(a@.to_set().contains(a@[k]));
            assert(!b@.to_set().contains(a@[k]));
        } else {
            let k = choose|k: int| 0 <= k < b@.len() && !a@.contains(b@[k]);
            assert(b@.to_set().contains(b@[k]));
            assert(!a@.to_set().contains(b@[k]));
        }
    }
    ab && ba
}

/// Whether every code of `a` occurs in `b`.
fn vec_set_subset(a: &Vec<u16>, b: &Vec<u16>) -> (r: bool)
    ensures
        r == (forall|k: int| 0 <= k < a@.len() ==> b@.contains(a@[k])),
{
    let mut i: usize = 0;
    while i < a.len()
        invariant
            i <= a@.len(),
            forall|k: int| 0 <= k < i ==> b@.contains(a@[k]),
        decreases a@.len() - i,
    {
        if !vec_contains(b, a[i]) {
            proof {
                assert(!b@.contains(a@[i as int]));
            }
            return false;
        }
        i += 1;
    }
    true
}

/// Whether `v` holds `x`.
fn vec_contains(v: &Vec<u16>, x: u16) -> (r: bool)
    ensures
        r == v@.contains(x),
{
    let mut i: usize = 0;
    while i < v.len()
        invariant
            i <= v@.len(),
            forall|k: int| 0 <= k < i ==> v@[k] != x,
        decreases v@.len() - i,
    {
        if v[i] == x {
            proof {
                assert(v@[i as int] == x);
            }
            return true;
        }
        i += 1;
    }
    false
}

} // verus!
