//! The Composite extension (off-screen redirection, window pixmaps, the
//! overlay window) and the DAMAGE extension: damage objects that
//! accumulate the damaged area of a drawable, and its subtraction by
//! repaired regions.

use crate::region::{coord, extents_of, rects_have, RegionRect, XFixesRegion};
use crate::state::{ClientState, PixmapState, WindowState, BAD_LENGTH, BAD_REQUEST, BAD_WINDOW};
use std::collections::HashMap;
use vstd::std_specs::iter::IteratorSpec;
use crate::wire::{build_error_bo, build_reply, bytes32, error_packet, field32, push_u32, push_zeros, read_u32, reply_packet, zeros};
use vstd::prelude::*;

verus! {

broadcast use vstd::std_specs::hash::group_hash_axioms;

/// A damage object: the drawable it watches, its report level, and the
/// damage accumulated since it was last repaired.
pub struct DamageInfo {
    pub drawable: u32,
    pub level: u8,
    pub accumulated: XFixesRegion,
}

/// The DAMAGE major opcode.
pub const DAMAGE_MAJOR: u8 = 143;

/// The damage of object `id` before a DamageSubtract (none when the object
/// is unknown).
pub open spec fn accumulated_damage(s: ClientState, id: u32) -> Seq<crate::region::RegionRect> {
    if s.damage_regions@.contains_key(id) {
        s.damage_regions@[id].accumulated.rects@
    } else {
        Seq::empty()
    }
}

/// `rest` is what DamageSubtract leaves of object `id`'s damage: nothing
/// when `repair` is None (0), the damage unchanged when `repair` is not a
/// known region, else the damaged pixels outside the repair region.
pub open spec fn damage_remainder(s: ClientState, id: u32, repair: u32, rest: Seq<crate::region::RegionRect>) -> bool {
    let acc = accumulated_damage(s, id);
    if repair == 0 {
        rest == Seq::<crate::region::RegionRect>::empty()
    } else if !s.xfixes_regions@.contains_key(repair) {
        rest == acc
    } else {
        let rep = s.xfixes_regions@[repair].rects@;
        &&& forall|x: int, y: int| #![trigger rects_have(rest, x, y)] coord(x) && coord(y) ==>
            (rects_have(rest, x, y) <==> (rects_have(acc, x, y) && !rects_have(rep, x, y)))
        &&& forall|x: int, y: int| rects_have(rest, x, y) ==> rects_have(acc, x, y)
    }
}

/// The result of DamageSubtract: what is left becomes the object's damage
/// and, when `parts` is not None (0), region `parts`.
pub open spec fn damage_subtracted(s: ClientState, after: ClientState, id: u32, repair: u32, parts: u32) -> bool {
    exists|rest: Seq<crate::region::RegionRect>| {
        &&& #[trigger] damage_remainder(s, id, repair, rest)
        &&& if parts != 0 {
            &&& after.xfixes_regions@.dom() == s.xfixes_regions@.dom().insert(parts)
            &&& after.xfixes_regions@[parts].rects@ == rest
            &&& forall|k: u32| k != parts && #[trigger] s.xfixes_regions@.contains_key(k) ==> after.xfixes_regions@[k] == s.xfixes_regions@[k]
        } else {
            after.xfixes_regions == s.xfixes_regions
        }
        &&& if s.damage_regions@.contains_key(id) {
            &&& after.damage_regions@.dom() == s.damage_regions@.dom()
            &&& after.damage_regions@[id].accumulated.rects@ == rest
            &&& after.damage_regions@[id].drawable == s.damage_regions@[id].drawable
            &&& after.damage_regions@[id].level == s.damage_regions@[id].level
            &&& forall|k: u32| k != id && #[trigger] s.damage_regions@.contains_key(k) ==> after.damage_regions@[k] == s.damage_regions@[k]
        } else {
            after.damage_regions == s.damage_regions
        }
    }
}

/// The reply to a DAMAGE request (major opcode 143).
pub open spec fn damage_reply(s: ClientState, d: Seq<u8>, seq: u16) -> Seq<u8> {
    let msb = s.msb_first;
    let minor = d[1];
    if minor == 0 {
        reply_packet(0, seq, bytes32(1, msb) + bytes32(1, msb) + zeros(16), msb)
    } else if minor == 1 && d.len() < 13 || minor == 2 && d.len() < 8 || minor == 3 && d.len() < 16
        || minor == 4 && d.len() < 12 {
        error_packet(BAD_LENGTH, seq, 0, DAMAGE_MAJOR, minor as u16, msb)
    } else if minor <= 4 {
        Seq::empty()
    } else {
        error_packet(BAD_REQUEST, seq, minor as u32, DAMAGE_MAJOR, minor as u16, msb)
    }
}

/// Remove a damage object's entry, if any, and release its id.
fn destroy_damage(state: &mut ClientState, id: u32)
    ensures
        final(state).damage_regions@ == old(state).damage_regions@.remove(id),
        final(state).recycled_xids@ == old(state).recycled_xids@.push(id),
        *final(state) == (ClientState {
            damage_regions: final(state).damage_regions,
            recycled_xids: final(state).recycled_xids,
            ..*old(state)
        }),
{
    state.damage_regions.remove(&id);
    state.recycle_xid(id);
}

/// DamageSubtract: subtract the repair region from the object's damage.
fn damage_subtract(state: &mut ClientState, id: u32, repair: u32, parts: u32)
    ensures
        damage_subtracted(*old(state), *final(state), id, repair, parts),
        *final(state) == (ClientState {
            damage_regions: final(state).damage_regions,
            xfixes_regions: final(state).xfixes_regions,
            ..*old(state)
        }),
{
    let ghost s0 = *state;
    let accumulated = match state.damage_regions.get(&id) {
        Some(d) => d.accumulated.copy(),
        None => XFixesRegion::new(),
    };
    let remainder = if repair == 0 {
        XFixesRegion::new()
    } else {
        match state.xfixes_regions.get(&repair) {
            Some(rep) => accumulated.subtract(rep),
            None => accumulated.copy(),
        }
    };
    let ghost rest = remainder.rects@;
    assert(damage_remainder(s0, id, repair, rest));
    if parts != 0 {
        state.xfixes_regions.insert(parts, remainder.copy());
    }
    if state.damage_regions.contains_key(&id) {
        match state.damage_regions.remove(&id) {
            Some(d) => {
                state.damage_regions.insert(id, DamageInfo { drawable: d.drawable, level: d.level, accumulated: remainder });
                assert(state.damage_regions@.dom() =~= s0.damage_regions@.dom());
            },
            None => {},
        }
    }
    assert(parts != 0 ==> state.xfixes_regions@.dom() =~= s0.xfixes_regions@.dom().insert(parts));
}

/// DAMAGE (major opcode 143): QueryVersion (0), Create (1), Destroy (2),
/// Subtract (3) and Add (4). Damage added by Add is reported for the event
/// layer as the added region's extents.
pub fn handle_damage_request(state: &mut ClientState, data: &[u8], seq: u16) -> (r: Vec<u8>)
    requires
        data@.len() >= 2,
    ensures
        r@ == damage_reply(*old(state), data@, seq),
        ({
            let s = *old(state);
            let d = data@;
            let msb = s.msb_first;
            let minor = d[1];
            if minor == 1 && d.len() >= 13 {
                &&& final(state).damage_regions@.dom() == s.damage_regions@.dom().insert(field32(d, 4, msb))
                &&& final(state).damage_regions@[field32(d, 4, msb)].drawable == field32(d, 8, msb)
                &&& final(state).damage_regions@[field32(d, 4, msb)].level == d[12]
                &&& final(state).damage_regions@[field32(d, 4, msb)].accumulated.rects@ == Seq::<crate::region::RegionRect>::empty()
                &&& forall|k: u32| k != field32(d, 4, msb) && #[trigger] s.damage_regions@.contains_key(k)
                    ==> final(state).damage_regions@[k] == s.damage_regions@[k]
                &&& *final(state) == (ClientState { damage_regions: final(state).damage_regions, ..s })
            } else if minor == 2 && d.len() >= 8 {
                &&& final(state).damage_regions@ == s.damage_regions@.remove(field32(d, 4, msb))
                &&& final(state).recycled_xids@ == s.recycled_xids@.push(field32(d, 4, msb))
                &&& *final(state) == (ClientState {
                    damage_regions: final(state).damage_regions,
                    recycled_xids: final(state).recycled_xids,
                    ..s
                })
            } else if minor == 3 && d.len() >= 16 {
                &&& damage_subtracted(s, *final(state), field32(d, 4, msb), field32(d, 8, msb), field32(d, 12, msb))
                &&& *final(state) == (ClientState {
                    damage_regions: final(state).damage_regions,
                    xfixes_regions: final(state).xfixes_regions,
                    ..s
                })
            } else if minor == 4 && d.len() >= 12 && s.xfixes_regions@.contains_key(field32(d, 8, msb)) {
                let e = extents_of(s.xfixes_regions@[field32(d, 8, msb)].rects@);
                &&& final(state).damage_reports@ == s.damage_reports@.push((field32(d, 4, msb), e.x, e.y, e.width, e.height))
                &&& *final(state) == (ClientState { damage_reports: final(state).damage_reports, ..s })
            } else {
                *final(state) == s
            }
        }),
{
    let msb = state.msb_first;
    let minor = data[1];
    if minor == 0 {
        let mut body: Vec<u8> = Vec::new();
        push_u32(&mut body, 1, msb);
        push_u32(&mut body, 1, msb);
        push_zeros(&mut body, 16);
        assert(body@ =~= bytes32(1, msb) + bytes32(1, msb) + zeros(16));
        build_reply(0, seq, body.as_slice(), msb)
    } else if minor == 1 {
        if data.len() < 13 {
            return build_error_bo(BAD_LENGTH, seq, 0, DAMAGE_MAJOR, 1, msb);
        }
        let damage_id = read_u32(data, 4, msb);
        let drawable = read_u32(data, 8, msb);
        let level = data[12];
        let ghost s0 = *state;
        state.damage_regions.insert(damage_id, DamageInfo { drawable, level, accumulated: XFixesRegion::new() });
        assert(state.damage_regions@.dom() =~= s0.damage_regions@.dom().insert(damage_id));
        Vec::new()
    } else if minor == 2 {
        if data.len() < 8 {
            return build_error_bo(BAD_LENGTH, seq, 0, DAMAGE_MAJOR, 2, msb);
        }
        let damage_id = read_u32(data, 4, msb);
        destroy_damage(state, damage_id);
        Vec::new()
    } else if minor == 3 {
        if data.len() < 16 {
            return build_error_bo(BAD_LENGTH, seq, 0, DAMAGE_MAJOR, 3, msb);
        }
        let damage_id = read_u32(data, 4, msb);
        let repair = read_u32(data, 8, msb);
        let parts = read_u32(data, 12, msb);
        damage_subtract(state, damage_id, repair, parts);
        Vec::new()
    } else if minor == 4 {
        if data.len() < 12 {
            return build_error_bo(BAD_LENGTH, seq, 0, DAMAGE_MAJOR, 4, msb);
        }
        let drawable = read_u32(data, 4, msb);
        let region = read_u32(data, 8, msb);
        let ext = match state.xfixes_regions.get(&region) {
            Some(reg) => Some(reg.extents()),
            None => None,
        };
        match ext {
            Some(e) => {
                state.damage_reports.push((drawable, e.x, e.y, e.width, e.height));
            },
            None => {},
        }
        Vec::new()
    } else {
        build_error_bo(BAD_REQUEST, seq, minor as u32, DAMAGE_MAJOR, minor as u16, msb)
    }
}

/// The ids of all windows, each once.
fn window_ids(windows: &HashMap<u32, WindowState>) -> (r: Vec<u32>)
    ensures
        r@.to_set() == windows@.dom(),
        r@.no_duplicates(),
{
    let mut ids: Vec<u32> = Vec::new();
    for k in it: windows.keys()
        invariant
            ids@ == it.seq().take(it.index() as int).unref(),
            it.seq() == vstd::std_specs::hash::spec_keys_iter(windows).remaining(),
        ensures
            ids@ == vstd::std_specs::hash::spec_keys_iter(windows).remaining().unref(),
    {
        ids.push(*k);
        proof {
            assert(ids@ =~= it.seq().take(it.index() + 1).unref());
        }
    }
    proof {
        vstd::std_specs::hash::axiom_spec_keys_iter(windows);
    }
    ids
}

/// The Composite major opcode.
pub const COMPOSITE_MAJOR: u8 = 142;

/// The windows with every child of `parent` (re)directed as `on` says.
pub open spec fn children_redirected(windows: Map<u32, WindowState>, parent: u32, on: bool) -> Map<u32, WindowState> {
    Map::new(
        |k: u32| windows.contains_key(k),
        |k: u32| if windows[k].parent == parent { WindowState { redirected: on, ..windows[k] } } else { windows[k] },
    )
}

/// Set the redirection of every child of `parent`.
fn redirect_children(windows: &mut HashMap<u32, WindowState>, parent: u32, on: bool)
    ensures
        final(windows)@ == children_redirected(old(windows)@, parent, on),
{
    let ids = window_ids(windows);
    let ghost w0 = windows@;
    let mut i: usize = 0;
    while i < ids.len()
        invariant
            i <= ids@.len(),
            ids@.to_set() == w0.dom(),
            ids@.no_duplicates(),
            windows@.dom() == w0.dom(),
            forall|k: u32| #[trigger] windows@.contains_key(k) ==> windows@[k] == (
                if ids@.subrange(0, i as int).contains(k) && w0[k].parent == parent {
                    WindowState { redirected: on, ..w0[k] }
                } else {
                    w0[k]
                }),
        decreases ids@.len() - i,
    {
        let id = ids[i];
        proof {
            assert(ids@.to_set().contains(id));
            assert(!ids@.subrange(0, i as int).contains(id));
            assert forall|k: u32| #[trigger] ids@.subrange(0, i + 1).contains(k)
                <==> (ids@.subrange(0, i as int).contains(k) || k == id) by {
                if ids@.subrange(0, i + 1).contains(k) {
                    let j = choose|j: int| 0 <= j < i + 1 && #[trigger] ids@.subrange(0, i + 1)[j] == k;
                    if j < i {
                        assert(ids@.subrange(0, i as int)[j] == k);
                    }
                }
                if ids@.subrange(0, i as int).contains(k) {
                    let j = choose|j: int| 0 <= j < i && #[trigger] ids@.subrange(0, i as int)[j] == k;
                    assert(ids@.subrange(0, i + 1)[j] == k);
                }
                if k == id {
                    assert(ids@.subrange(0, i + 1)[i as int] == k);
                }
            }
        }
        let w = match windows.get(&id) {
            Some(w) => *w,
            None => {
                i = i + 1;
                continue;
            },
        };
        if w.parent == parent {
            let ghost before = windows@;
            windows.insert(id, WindowState { redirected: on, ..w });
            assert(windows@.dom() =~= before.dom());
        }
        i = i + 1;
    }
    proof {
        assert(ids@.subrange(0, ids@.len() as int) =~= ids@);
        assert(windows@ =~= children_redirected(w0, parent, on));
    }
}

/// The reply to a Composite request (major opcode 142).
pub open spec fn composite_reply(s: ClientState, d: Seq<u8>, seq: u16) -> Seq<u8> {
    let msb = s.msb_first;
    let minor = d[1];
    let w4 = field32(d, 4, msb);
    let w8 = field32(d, 8, msb);
    if minor == 0 {
        reply_packet(0, seq, bytes32(0, msb) + bytes32(4, msb) + zeros(16), msb)
    } else if (minor == 1 || minor == 2) && d.len() < 9 || (minor == 3 || minor == 4 || minor == 8) && d.len() < 8
        || (minor == 5 || minor == 6) && d.len() < 12 {
        error_packet(BAD_LENGTH, seq, 0, COMPOSITE_MAJOR, minor as u16, msb)
    } else if (1 <= minor <= 4 || minor == 6) && !s.windows@.contains_key(w4) {
        error_packet(BAD_WINDOW, seq, w4, COMPOSITE_MAJOR, minor as u16, msb)
    } else if minor == 5 && !s.windows@.contains_key(w8) {
        error_packet(BAD_WINDOW, seq, w8, COMPOSITE_MAJOR, minor as u16, msb)
    } else if minor == 7 {
        reply_packet(0, seq, bytes32(s.overlay_window, msb) + zeros(20), msb)
    } else if minor <= 8 {
        Seq::empty()
    } else {
        error_packet(BAD_REQUEST, seq, minor as u32, COMPOSITE_MAJOR, minor as u16, msb)
    }
}

/// A Composite request that is answered with an error.
pub open spec fn composite_refused(s: ClientState, d: Seq<u8>) -> bool {
    let minor = d[1];
    ||| minor > 8
    ||| (minor == 1 || minor == 2) && d.len() < 9
    ||| (minor == 3 || minor == 4 || minor == 8) && d.len() < 8
    ||| (minor == 5 || minor == 6) && d.len() < 12
    ||| (1 <= minor <= 4 || minor == 6) && d.len() >= 8 && !s.windows@.contains_key(field32(d, 4, s.msb_first))
    ||| minor == 5 && d.len() >= 12 && !s.windows@.contains_key(field32(d, 8, s.msb_first))
}

/// The overlay window GetOverlayWindow makes: a mapped, override-redirect,
/// 32-bit InputOutput child of the root covering the screen, selecting no
/// events.
pub open spec fn overlay_window_of(s: ClientState) -> WindowState {
    WindowState {
        id: s.overlay_window,
        parent: s.root_window,
        x: 0,
        y: 0,
        width: s.screen_width,
        height: s.screen_height,
        depth: 32,
        class: 1,
        mapped: true,
        event_mask: 0,
        background_pixel: 0,
        override_redirect: true,
        redirected: false,
        cursor: None,
    }
}

/// The stacking order of `w`'s children, bottom first (none recorded:
/// empty).
pub open spec fn stacking_of(s: ClientState, w: u32) -> Seq<u32> {
    if s.children_order@.contains_key(w) {
        s.children_order@[w]@
    } else {
        Seq::empty()
    }
}

/// The stacking orders after the overlay window is put on top of the
/// root's children (when the root is a known window).
pub open spec fn overlay_stacked(s: ClientState, after: Map<u32, Vec<u32>>) -> bool {
    if s.windows@.contains_key(s.root_window) {
        &&& after.dom() == s.children_order@.dom().insert(s.root_window)
        &&& after[s.root_window]@ == stacking_of(s, s.root_window).push(s.overlay_window)
        &&& forall|k: u32| k != s.root_window && #[trigger] s.children_order@.contains_key(k) ==> after[k] == s.children_order@[k]
    } else {
        after == s.children_order@
    }
}

/// The state after a Composite request that the reply does not refuse.
pub open spec fn composited(s: ClientState, after: ClientState, d: Seq<u8>) -> bool {
    let msb = s.msb_first;
    let minor = d[1];
    let w4 = field32(d, 4, msb);
    let w8 = field32(d, 8, msb);
    if minor == 1 || minor == 3 {
        &&& after.windows@ == s.windows@.insert(w4, WindowState { redirected: minor == 1, ..s.windows@[w4] })
        &&& after == (ClientState { windows: after.windows, ..s })
    } else if minor == 2 || minor == 4 {
        &&& after.windows@ == children_redirected(s.windows@, w4, minor == 2)
        &&& after == (ClientState { windows: after.windows, ..s })
    } else if minor == 5 {
        let w = s.windows@[w8];
        &&& after.xfixes_regions@.dom() == s.xfixes_regions@.dom().insert(w4)
        &&& after.xfixes_regions@[w4].rects@ == seq![RegionRect { x: 0, y: 0, width: w.width, height: w.height }]
        &&& forall|k: u32| k != w4 && #[trigger] s.xfixes_regions@.contains_key(k) ==> after.xfixes_regions@[k] == s.xfixes_regions@[k]
        &&& after == (ClientState { xfixes_regions: after.xfixes_regions, ..s })
    } else if minor == 6 {
        let w = s.windows@[w4];
        &&& after.pixmaps@ == s.pixmaps@.insert(w8, PixmapState { width: w.width, height: w.height, depth: w.depth, alias_window: Some(w4) })
        &&& after == (ClientState { pixmaps: after.pixmaps, ..s })
    } else if minor == 7 {
        &&& if s.windows@.contains_key(s.overlay_window) {
            after.windows@ == s.windows@ && after.children_order@ == s.children_order@
        } else {
            after.windows@ == s.windows@.insert(s.overlay_window, overlay_window_of(s)) && overlay_stacked(s, after.children_order@)
        }
        &&& after.overlay_ref_count == s.overlay_ref_count + 1
        &&& after == (ClientState {
            windows: after.windows,
            children_order: after.children_order,
            overlay_ref_count: after.overlay_ref_count,
            ..s
        })
    } else if minor == 8 {
        after == (ClientState { overlay_ref_count: if s.overlay_ref_count > 0 { (s.overlay_ref_count - 1) as u32 } else { 0 }, ..s })
    } else {
        after == s
    }
}

/// Composite (major opcode 142): QueryVersion (0), RedirectWindow (1),
/// RedirectSubwindows (2), UnredirectWindow (3), UnredirectSubwindows (4),
/// CreateRegionFromBorderClip (5), NameWindowPixmap (6),
/// GetOverlayWindow (7), ReleaseOverlayWindow (8). The pixels a window
/// pixmap shows are the window framebuffer's, which lives outside the
/// library.
pub fn handle_x_composite_request(state: &mut ClientState, data: &[u8], seq: u16) -> (r: Vec<u8>)
    requires
        data@.len() >= 2,
        old(state).overlay_ref_count < u32::MAX,
    ensures
        r@ == composite_reply(*old(state), data@, seq),
        composite_refused(*old(state), data@) ==> *final(state) == *old(state),
        !composite_refused(*old(state), data@) ==> composited(*old(state), *final(state), data@),
{
    let msb = state.msb_first;
    let minor = data[1];
    if minor == 0 {
        let mut body: Vec<u8> = Vec::new();
        push_u32(&mut body, 0, msb);
        push_u32(&mut body, 4, msb);
        push_zeros(&mut body, 16);
        assert(body@ =~= bytes32(0, msb) + bytes32(4, msb) + zeros(16));
        return build_reply(0, seq, body.as_slice(), msb);
    }
    if minor > 8 {
        return build_error_bo(BAD_REQUEST, seq, minor as u32, COMPOSITE_MAJOR, minor as u16, msb);
    }
    if minor == 7 {
        let overlay = state.overlay_window;
        if !state.windows.contains_key(&overlay) {
            let w = WindowState {
                id: overlay,
                parent: state.root_window,
                x: 0,
                y: 0,
                width: state.screen_width,
                height: state.screen_height,
                depth: 32,
                class: 1,
                mapped: true,
                event_mask: 0,
                background_pixel: 0,
                override_redirect: true,
                redirected: false,
                cursor: None,
            };
            let root = state.root_window;
            let root_known = state.windows.contains_key(&root);
            state.windows.insert(overlay, w);
            if root_known {
                let mut order: Vec<u32> = match state.children_order.get(&root) {
                    Some(o) => o.clone(),
                    None => Vec::new(),
                };
                order.push(overlay);
                let ghost before = state.children_order@;
                state.children_order.insert(root, order);
                assert(state.children_order@.dom() =~= before.dom().insert(root));
            }
        }
        state.overlay_ref_count = state.overlay_ref_count + 1;
        let mut body: Vec<u8> = Vec::new();
        push_u32(&mut body, overlay, msb);
        push_zeros(&mut body, 20);
        assert(body@ =~= bytes32(overlay, msb) + zeros(20));
        return build_reply(0, seq, body.as_slice(), msb);
    }
    let need: usize = if minor == 1 || minor == 2 { 9 } else if minor == 5 || minor == 6 { 12 } else { 8 };
    if data.len() < need {
        return build_error_bo(BAD_LENGTH, seq, 0, COMPOSITE_MAJOR, minor as u16, msb);
    }
    let w4 = read_u32(data, 4, msb);
    if minor == 8 {
        if state.overlay_ref_count > 0 {
            state.overlay_ref_count = state.overlay_ref_count - 1;
        }
        return Vec::new();
    }
    if minor == 5 {
        let w8 = read_u32(data, 8, msb);
        let win = match state.windows.get(&w8) {
            Some(w) => *w,
            None => {
                return build_error_bo(BAD_WINDOW, seq, w8, COMPOSITE_MAJOR, 5, msb);
            },
        };
        let mut rects: Vec<RegionRect> = Vec::new();
        rects.push(RegionRect { x: 0, y: 0, width: win.width, height: win.height });
        let ghost before = state.xfixes_regions@;
        state.xfixes_regions.insert(w4, XFixesRegion::from_rects(rects));
        assert(state.xfixes_regions@.dom() =~= before.dom().insert(w4));
        return Vec::new();
    }
    let win = match state.windows.get(&w4) {
        Some(w) => *w,
        None => {
            return build_error_bo(BAD_WINDOW, seq, w4, COMPOSITE_MAJOR, minor as u16, msb);
        },
    };
    if minor == 1 || minor == 3 {
        state.windows.insert(w4, WindowState { redirected: minor == 1, ..win });
    } else if minor == 2 || minor == 4 {
        redirect_children(&mut state.windows, w4, minor == 2);
    } else {
        let pixmap = read_u32(data, 8, msb);
        state.pixmaps.insert(pixmap, PixmapState {
            width: win.width,
            height: win.height,
            depth: win.depth,
            alias_window: Some(w4),
        });
    }
    Vec::new()
}

} // verus!
