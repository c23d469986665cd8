//! ForceScreenSaver (opcode 115): turning the screen saver on, or
//! resetting it, which repaints every mapped window when it was on.

use crate::drawing::copy::events_view;
use crate::drawing::primitives::{expose_event, EXPOSURE_MASK};
use crate::input::{screen_saver_notify, build_screen_saver_off_event, build_screen_saver_on_event, InputState, ScreenSaver};
use crate::state::{ClientState, WindowState, BAD_VALUE};
use crate::wire::{build_error, error_packet, push_u16, push_u32, push_zeros};
use std::collections::HashMap;
use vstd::prelude::*;
use vstd::std_specs::iter::IteratorSpec;

verus! {

broadcast use vstd::std_specs::hash::group_hash_axioms;

/// A window a reset repaints: a mapped window other than the root.
pub open spec fn repainted(w: WindowState, root: u32) -> bool {
    w.mapped && w.id != root
}

/// `order` lists each window a reset repaints once, in some order (that
/// of the window table's walk).
pub open spec fn repaint_order(windows: Map<u32, WindowState>, root: u32, order: Seq<u32>) -> bool {
    &&& order.no_duplicates()
    &&& forall|k: u32| #[trigger] order.contains(k) <==> windows.contains_key(k) && repainted(windows[k], root)
}

/// The Expose event covering window `w`.
pub open spec fn whole_expose(w: WindowState, seq: u16, msb: bool) -> Seq<u8> {
    expose_event(seq, w.id, 0, 0, w.width, w.height, msb)
}

/// The window selected ExposureMask.
pub open spec fn wants_expose(w: WindowState) -> bool {
    w.event_mask & EXPOSURE_MASK != 0
}

/// The Expose events this client gets, in `order`: those of the windows
/// that selected ExposureMask.
pub open spec fn own_exposes(windows: Map<u32, WindowState>, order: Seq<u32>, seq: u16, msb: bool) -> Seq<Seq<u8>>
    decreases order.len(),
{
    if order.len() == 0 {
        Seq::empty()
    } else {
        let rest = own_exposes(windows, order.drop_last(), seq, msb);
        let w = windows[order.last()];
        if wants_expose(w) {
            rest.push(whole_expose(w, seq, msb))
        } else {
            rest
        }
    }
}

/// The Expose events for the other clients, in `order`, each with the
/// window and the ExposureMask bit.
pub open spec fn shared_exposes(windows: Map<u32, WindowState>, order: Seq<u32>, seq: u16, msb: bool) -> Seq<(u32, u32, Seq<u8>)> {
    order.map_values(|k: u32| (windows[k].id, EXPOSURE_MASK, whole_expose(windows[k], seq, msb)))
}

/// The broadcast queue as (window, mask, event bytes).
pub open spec fn broadcasts_view(b: Seq<(u32, u32, Vec<u8>)>) -> Seq<(u32, u32, Seq<u8>)> {
    b.map_values(|e: (u32, u32, Vec<u8>)| (e.0, e.1, e.2@))
}

/// The windows a reset repaints, in the order of a walk of the table.
fn repaint_targets(windows: &HashMap<u32, WindowState>, root: u32) -> (r: (Vec<WindowState>, Ghost<Seq<u32>>))
    ensures
        repaint_order(windows@, root, r.1@),
        r.0@.len() == r.1@.len(),
        forall|i: int| 0 <= i < r.1@.len() ==> #[trigger] r.0@[i] == windows@[r.1@[i]],
{
    let ghost m = windows@;
    let mut targets: Vec<WindowState> = Vec::new();
    let ghost mut order: Seq<u32> = Seq::empty();
    proof {
        vstd::std_specs::hash::axiom_spec_keys_iter(windows);
    }
    for k in it: windows.keys()
        invariant
            m == windows@,
            it.seq() == vstd::std_specs::hash::spec_keys_iter(windows).remaining(),
            it.seq().no_duplicates(),
            targets@.len() == order.len(),
            forall|i: int| 0 <= i < order.len() ==> #[trigger] targets@[i] == m[order[i]],
            order.no_duplicates(),
            forall|q: u32| #[trigger] order.contains(q) ==> m.contains_key(q) && repainted(m[q], root) && exists|j: int|
                0 <= j < it.index() && *it.seq()[j] == q,
            forall|j: int| 0 <= j < it.index() ==> m.contains_key(*#[trigger] it.seq()[j]),
            forall|j: int|
                0 <= j < it.index() && repainted(m[*it.seq()[j]], root) ==> order.contains(*#[trigger] it.seq()[j]),
    {
        let ghost i = it.index();
        let ghost pre_order = order;
        match windows.get(k) {
            Some(w) => {
                if w.mapped && w.id != root {
                    proof {
                        if order.contains(*k) {
                            let j = choose|j: int| 0 <= j < i && *it.seq()[j] == *k;
                            assert(it.seq()[j] == it.seq()[i]);
                        }
                        let old_order = order;
                        order = order.push(*k);
                        assert forall|q: u32| #[trigger] order.contains(q) implies m.contains_key(q) && repainted(m[q], root) && exists|j: int|
                            0 <= j < i + 1 && *it.seq()[j] == q by {
                            if q != *k {
                                let idx = choose|idx: int| 0 <= idx < order.len() && order[idx] == q;
                                assert(idx < old_order.len());
                                assert(old_order[idx] == q);
                                assert(old_order.contains(q));
                            } else {
                                assert(*it.seq()[i] == q);
                            }
                        }
                    }
                    targets.push(*w);
                }
            },
            None => {},
        }
        proof {
            assert forall|j: int|
                0 <= j < i + 1 && repainted(m[*it.seq()[j]], root) implies order.contains(*#[trigger] it.seq()[j]) by {
                let x = *it.seq()[j];
                if j < i {
                    assert(pre_order.contains(x));
                    let idx = choose|idx: int| 0 <= idx < pre_order.len() && pre_order[idx] == x;
                    assert(order[idx] == x);
                } else {
                    assert(x == *k);
                    assert(order[order.len() - 1] == x);
                }
            }
        }
    }
    proof {
        let keys = vstd::std_specs::hash::spec_keys_iter(windows).remaining();
        assert forall|q: u32| order.contains(q) <==> m.contains_key(q) && repainted(m[q], root) by {
            if m.contains_key(q) && repainted(m[q], root) {
                assert(keys.unref().to_set().contains(q));
                assert(keys.unref().contains(q));
                let j = choose|j: int| 0 <= j < keys.unref().len() && keys.unref()[j] == q;
                assert(*keys[j] == q);
            }
        }
    }
    (targets, Ghost(order))
}

/// Build the Expose event covering a window.
fn build_whole_expose(w: WindowState, seq: u16, msb: bool) -> (r: Vec<u8>)
    ensures
        r@ == whole_expose(w, seq, msb),
{
    let mut e: Vec<u8> = Vec::new();
    e.push(12u8);
    e.push(0u8);
    assert(e@ =~= seq![12u8, 0u8]);
    push_u16(&mut e, seq, msb);
    push_u32(&mut e, w.id, msb);
    push_u16(&mut e, 0, msb);
    push_u16(&mut e, 0, msb);
    push_u16(&mut e, w.width, msb);
    push_u16(&mut e, w.height, msb);
    let ghost before = e@;
    push_zeros(&mut e, 16);
    assert(before =~= seq![12u8, 0u8] + crate::wire::bytes16(seq, msb) + crate::wire::bytes32(w.id, msb)
        + crate::wire::bytes16(0u16, msb) + crate::wire::bytes16(0u16, msb) + crate::wire::bytes16(w.width, msb)
        + crate::wire::bytes16(w.height, msb));
    e
}

/// What ForceScreenSaver answers `req` with, and the client state it leaves.
pub open spec fn force_screen_saver_done(pre: ClientState, post: ClientState, req: Seq<u8>, seq: u16, out: Seq<u8>) -> bool {
    &&& (({
            let s = pre;
            let after = post;
            let mode = req[1];
            let ss = s.input.screen_saver;
            if mode == 0 {
                let reset = InputState { screen_saver: ScreenSaver { last_reset_ms: s.now, active: false, ..ss }, ..s.input };
                if ss.active {
                    &&& out == screen_saver_notify(s, 0)
                    &&& exists|order: Seq<u32>|
                        {
                            &&& #[trigger] repaint_order(s.windows@, s.root_window, order)
                            &&& events_view(after.pending_events@) == events_view(s.pending_events@) + own_exposes(
                                s.windows@,
                                order,
                                seq,
                                s.msb_first,
                            )
                            &&& broadcasts_view(after.broadcasts@) == broadcasts_view(s.broadcasts@) + shared_exposes(
                                s.windows@,
                                order,
                                seq,
                                s.msb_first,
                            )
                        }
                    &&& after == (ClientState {
                        input: reset,
                        pending_events: after.pending_events,
                        broadcasts: after.broadcasts,
                        ..s
                    })
                } else {
                    out == Seq::<u8>::empty() && after == (ClientState { input: reset, ..s })
                }
            } else if mode == 1 {
                &&& out == screen_saver_notify(s, 1)
                &&& after == (ClientState {
                    input: InputState { screen_saver: ScreenSaver { active: true, ..ss }, ..s.input },
                    ..s
                })
            } else {
                out == error_packet(BAD_VALUE, seq, mode as u32, 115, 0, false) && after == s
            }
        }))
}

/// ForceScreenSaver (opcode 115), mode in byte 1. Reset (0) restarts the
/// screen-saver timer; if the saver was on it goes off, every mapped window
/// but the root is exposed (to this client where it selected ExposureMask,
/// and to the other clients that did), and the client gets a
/// ScreenSaverNotify (Off) if it selected one. Activate (1) turns the saver
/// on, with a ScreenSaverNotify (On). Any other mode is a value error.
pub fn handle_force_screen_saver(state: &mut ClientState, data: &[u8], seq: u16) -> (r: Vec<u8>)
    requires
        data@.len() >= 2,
    ensures
        force_screen_saver_done(*old(state), *final(state), data@, seq, r@),
{
    let mode = data[1];
    if mode == 0 {
        let ghost s0 = *state;
        let was_active = state.input.screen_saver.active;
        state.input.screen_saver.last_reset_ms = state.now;
        state.input.screen_saver.active = false;
        if !was_active {
            return Vec::new();
        }
        let msb = state.msb_first;
        let (targets, Ghost(order)) = repaint_targets(&state.windows, state.root_window);
        let ghost s1 = *state;
        let mut i: usize = 0;
        while i < targets.len()
            invariant
                i <= targets@.len() == order.len(),
                msb == s0.msb_first,
                repaint_order(s0.windows@, s0.root_window, order),
                forall|j: int| 0 <= j < order.len() ==> #[trigger] targets@[j] == s0.windows@[order[j]],
                events_view(state.pending_events@) == events_view(s1.pending_events@) + own_exposes(
                    s0.windows@,
                    order.subrange(0, i as int),
                    seq,
                    msb,
                ),
                broadcasts_view(state.broadcasts@) == broadcasts_view(s1.broadcasts@) + shared_exposes(
                    s0.windows@,
                    order.subrange(0, i as int),
                    seq,
                    msb,
                ),
                *state == (ClientState { pending_events: state.pending_events, broadcasts: state.broadcasts, ..s1 }),
            decreases targets@.len() - i,
        {
            let w = targets[i];
            let ghost pre = order.subrange(0, i as int);
            let ghost next = order.subrange(0, i + 1);
            assert(next.drop_last() =~= pre);
            assert(next.last() == order[i as int]);
            let ghost pe = events_view(state.pending_events@);
            let ghost bv = broadcasts_view(state.broadcasts@);
            if w.event_mask & EXPOSURE_MASK != 0 {
                let e = build_whole_expose(w, seq, msb);
                state.pending_events.push(e);
                assert(events_view(state.pending_events@) =~= pe.push(whole_expose(w, seq, msb)));
            }
            let e2 = build_whole_expose(w, seq, msb);
            state.broadcasts.push((w.id, EXPOSURE_MASK, e2));
            assert(broadcasts_view(state.broadcasts@) =~= bv.push((w.id, EXPOSURE_MASK, whole_expose(w, seq, msb))));
            assert(shared_exposes(s0.windows@, next, seq, msb) =~= shared_exposes(s0.windows@, pre, seq, msb).push(
                (w.id, EXPOSURE_MASK, whole_expose(w, seq, msb)),
            ));
            i = i + 1;
        }
        assert(order.subrange(0, order.len() as int) =~= order);
        build_screen_saver_off_event(state)
    } else if mode == 1 {
        state.input.screen_saver.active = true;
        build_screen_saver_on_event(state)
    } else {
        build_error(BAD_VALUE, seq, mode as u32, 115, 0)
    }
}

} // verus!
