//! Laws of the tracker, stated and proved over the model.

use vstd::prelude::*;
use crate::model::{
    TrackerModel, Frame, initial_model, retained, evict_model, mouse_changed, keys_changed, step,
    quit_spec, run, run_events, frames_monotone, lemma_evict_push, lemma_evict_evict, WINDOW_MS,
    KEY_LCONTROL, KEY_LALT, KEY_Q, KEY_F4,
};

verus! {

/// An action stamped strictly inside the trailing window is kept, one
/// stamped strictly before the window is evicted, and one stamped
/// exactly at the boundary is evicted.
pub proof fn lemma_eviction_boundary(t: u64, now: u64, eps: u64)
    requires
        eps >= 1,
    ensures
        t + WINDOW_MS + eps == now ==> !retained(t, now),
        t + WINDOW_MS == now + eps ==> retained(t, now),
        t + WINDOW_MS == now ==> !retained(t, now),
{
}

/// Eviction keeps exactly the actions of the log that are still inside
/// the trailing window: membership is preserved for retained stamps
/// and lost for the rest.
pub proof fn lemma_evict_members(s: Seq<u64>, now: u64)
    ensures
        forall|t: u64| #[trigger]
            evict_model(s, now).contains(t) <==> (s.contains(t) && retained(t, now)),
    decreases s.len(),
{
    broadcast use vstd::seq_lib::group_seq_properties;

    if s.len() == 0 {
        assert(evict_model(s, now) =~= Seq::<u64>::empty()) by {
            reveal(Seq::filter);
        }
    } else {
        let d = s.drop_last();
        let l = s.last();
        lemma_evict_members(d, now);
        assert(s =~= d.push(l));
        lemma_evict_push(d, l, now);
    }
}

/// Feeding the same snapshot twice in a row records nothing new: the
/// second frame only evicts, so the log never grows on it.
pub proof fn lemma_unchanged_snapshot_adds_no_action(m: TrackerModel, f1: Frame, f2: Frame)
    requires
        f2.mouse == f1.mouse,
        f2.keys == f1.keys,
    ensures
        step(step(m, f1), f2).actions == evict_model(step(m, f1).actions, f2.now),
        step(step(m, f1), f2).actions.len() <= step(m, f1).actions.len(),
{
    broadcast use vstd::seq_lib::group_filter_ensures;

    let m1 = step(m, f1);
    assert(!mouse_changed(m1, f2));
    assert(!keys_changed(m1, f2));
}

/// The quit shortcut holds exactly when the key set is a superset of
/// {control, Q} or a superset of {alt, F4}.
pub proof fn lemma_quit_iff_superset(keys: Set<u16>)
    ensures
        quit_spec(keys) <==> (set![KEY_LCONTROL, KEY_Q].subset_of(keys) || set![
            KEY_LALT,
            KEY_F4,
        ].subset_of(keys)),
{
    assert(set![KEY_LCONTROL, KEY_Q].contains(KEY_LCONTROL));
    assert(set![KEY_LCONTROL, KEY_Q].contains(KEY_Q));
    assert(set![KEY_LALT, KEY_F4].contains(KEY_LALT));
    assert(set![KEY_LALT, KEY_F4].contains(KEY_F4));
    assert forall|x: u16| set![KEY_LCONTROL, KEY_Q].contains(x) implies (x == KEY_LCONTROL || x
        == KEY_Q) by {}
    assert forall|x: u16| set![KEY_LALT, KEY_F4].contains(x) implies (x == KEY_LALT || x
        == KEY_F4) by {}
}

/// After a run of frames whose times never go backwards, starting from
/// the initial state, the log holds exactly the timestamps of the
/// detected transitions that are still inside the trailing window of
/// the last frame; in particular the rate equals their count, mouse
/// and keyboard transitions counted independently.
pub proof fn lemma_rate_counts_windowed_transitions(frames: Seq<Frame>)
    requires
        frames.len() > 0,
        frames_monotone(frames),
    ensures
        run(initial_model(), frames).actions == evict_model(
            run_events(initial_model(), frames),
            frames.last().now,
        ),
        run(initial_model(), frames).actions.len() == evict_model(
            run_events(initial_model(), frames),
            frames.last().now,
        ).len(),
    decreases frames.len(),
{
    let m0 = initial_model();
    let d = frames.drop_last();
    let f = frames.last();
    let pm = run(m0, d);
    let pe = run_events(m0, d);
    if d.len() == 0 {
        assert(pm == m0);
        assert(pe == Seq::<u64>::empty());
        assert(evict_model(Seq::<u64>::empty(), f.now) =~= Seq::<u64>::empty()) by {
            reveal(Seq::filter);
        }
        assert(evict_model(pm.actions, f.now) == evict_model(pe, f.now));
    } else {
        assert(frames_monotone(d)) by {
            assert forall|i: int, j: int| 0 <= i <= j < d.len() implies d[i].now <= d[j].now by {
                assert(d[i] == frames[i]);
                assert(d[j] == frames[j]);
            }
        }
        lemma_rate_counts_windowed_transitions(d);
        let g = d.last();
        assert(g == frames[frames.len() - 2]);
        assert(g.now <= f.now);
        lemma_evict_evict(pe, g.now, f.now);
        assert(evict_model(pm.actions, f.now) == evict_model(pe, f.now));
    }
    assert(retained(f.now, f.now));
    let e1 = if mouse_changed(pm, f) {
        pe.push(f.now)
    } else {
        pe
    };
    if mouse_changed(pm, f) {
        lemma_evict_push(pe, f.now, f.now);
    }
    if keys_changed(pm, f) {
        lemma_evict_push(e1, f.now, f.now);
    }
}

} // verus!
