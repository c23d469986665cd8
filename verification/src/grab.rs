//! X11 grabs: active pointer and keyboard grabs, passive button and key
//! grabs, synchronous freezing and thawing of devices, and server grabs.

use crate::state::{
    ClientState, Crossing, WindowState, BAD_CURSOR, BAD_LENGTH, BAD_WINDOW, CROSSING_MODE_GRAB,
    CROSSING_MODE_UNGRAB,
};
use crate::wire::{
    build_error, bytes16, error_packet, field16, field32, push_bytes, push_u16, push_zeros, read_u16,
    read_u32, zeros,
};
use std::collections::HashMap;
use vstd::prelude::*;

verus! {

broadcast use vstd::std_specs::hash::group_hash_axioms;

/// How many ancestors a window-tree walk visits at most.
pub const MAX_TREE_DEPTH: usize = 128;

/// Maximum number of frozen events queued per device; beyond it the
/// oldest event is dropped.
pub const MAX_FROZEN_EVENTS: usize = 4096;

/// A window is viewable when it and all its ancestors up to the root are
/// mapped (the root itself always is); the walk gives up after `fuel`
/// windows.
pub open spec fn viewable(windows: Map<u32, WindowState>, wid: u32, root: u32, fuel: nat) -> bool
    decreases fuel,
{
    if fuel == 0 {
        false
    } else if wid == root {
        true
    } else if windows.contains_key(wid) && windows[wid].mapped {
        viewable(windows, windows[wid].parent, root, (fuel - 1) as nat)
    } else {
        false
    }
}

/// Whether a window is viewable: it and every ancestor up to the root are
/// mapped.
pub fn is_viewable(windows: &HashMap<u32, WindowState>, wid: u32, root: u32) -> (r: bool)
    ensures
        r == viewable(windows@, wid, root, MAX_TREE_DEPTH as nat),
{
    let mut cur = wid;
    let mut i: usize = 0;
    while i < MAX_TREE_DEPTH
        invariant
            i <= MAX_TREE_DEPTH,
            viewable(windows@, wid, root, MAX_TREE_DEPTH as nat)
                == viewable(windows@, cur, root, (MAX_TREE_DEPTH - i) as nat),
        decreases MAX_TREE_DEPTH - i,
    {
        if cur == root {
            return true;
        }
        match windows.get(&cur) {
            Some(w) => {
                if w.mapped {
                    cur = w.parent;
                } else {
                    return false;
                }
            },
            None => {
                return false;
            },
        }
        i = i + 1;
    }
    false
}

/// Add the offsets of the ancestors of `cur` (up to, not including, the
/// root) to (`ax`, `ay`), with 16-bit wrap-around; the walk stops at the
/// root, at window 0, at an unknown window, or after `fuel` windows.
pub open spec fn with_ancestor_offsets(windows: Map<u32, WindowState>, cur: u32, root: u32, fuel: nat, ax: i16, ay: i16) -> (i16, i16)
    decreases fuel,
{
    if fuel == 0 || cur == root || cur == 0 || !windows.contains_key(cur) {
        (ax, ay)
    } else {
        let p = windows[cur];
        with_ancestor_offsets(windows, p.parent, root, (fuel - 1) as nat, ax.wrapping_add(p.x), ay.wrapping_add(p.y))
    }
}

/// `a + b` clamped to the 16-bit range.
pub open spec fn sat_add16(a: i16, b: i16) -> i16 {
    if a + b > i16::MAX {
        i16::MAX
    } else if a + b < i16::MIN {
        i16::MIN
    } else {
        (a + b) as i16
    }
}

/// `a + b` clamped to the 16-bit range.
pub fn saturating_add_i16(a: i16, b: i16) -> (r: i16)
    ensures
        r == sat_add16(a, b),
{
    let s = a as i32 + b as i32;
    if s > 32767 {
        32767
    } else if s < -32768 {
        -32768
    } else {
        s as i16
    }
}

/// Screen bounds (x1, y1, x2, y2) of a window: its position plus the
/// offsets of its ancestors, and that corner plus its size.
pub open spec fn abs_bounds(windows: Map<u32, WindowState>, wid: u32, root: u32) -> Option<(i16, i16, i16, i16)> {
    if !windows.contains_key(wid) {
        None
    } else {
        let w = windows[wid];
        let (ax, ay) = with_ancestor_offsets(windows, w.parent, root, MAX_TREE_DEPTH as nat, w.x, w.y);
        Some((ax, ay, sat_add16(ax, w.width as i16), sat_add16(ay, w.height as i16)))
    }
}

/// Compute the screen-space bounds of a window by walking up to the root.
pub fn window_abs_bounds(windows: &HashMap<u32, WindowState>, wid: u32, root: u32) -> (r: Option<(i16, i16, i16, i16)>)
    ensures
        r == abs_bounds(windows@, wid, root),
{
    let w = match windows.get(&wid) {
        Some(w) => *w,
        None => {
            return None;
        },
    };
    let width = w.width as i16;
    let height = w.height as i16;
    let mut abs_x = w.x;
    let mut abs_y = w.y;
    let mut cur = w.parent;
    let mut i: usize = 0;
    while i < MAX_TREE_DEPTH
        invariant
            i <= MAX_TREE_DEPTH,
            with_ancestor_offsets(windows@, w.parent, root, MAX_TREE_DEPTH as nat, w.x, w.y)
                == with_ancestor_offsets(windows@, cur, root, (MAX_TREE_DEPTH - i) as nat, abs_x, abs_y),
        ensures
            with_ancestor_offsets(windows@, w.parent, root, MAX_TREE_DEPTH as nat, w.x, w.y) == (abs_x, abs_y),
        decreases MAX_TREE_DEPTH - i,
    {
        if cur == root || cur == 0 {
            break;
        }
        match windows.get(&cur) {
            Some(p) => {
                abs_x = abs_x.wrapping_add(p.x);
                abs_y = abs_y.wrapping_add(p.y);
                cur = p.parent;
            },
            None => {
                break;
            },
        }
        i = i + 1;
    }
    Some((abs_x, abs_y, saturating_add_i16(abs_x, width), saturating_add_i16(abs_y, height)))
}

/// The crossings queued after the pointer is reported to move from window
/// `from` to `dest`: a move between distinct windows adds one crossing at
/// the pointer position.
pub open spec fn crossings_to(before: ClientState, from: u32, dest: u32, mode: u8) -> Seq<Crossing> {
    if from != dest {
        before.crossings@.push(Crossing { from, to: dest, x: before.pointer_x, y: before.pointer_y, mode })
    } else {
        before.crossings@
    }
}

/// `after` has the crossing from `from` into `dest` queued, and `dest` as
/// the window last entered.
pub open spec fn crossed(before: ClientState, after: ClientState, from: u32, dest: u32, mode: u8) -> bool {
    &&& after.crossings@ == crossings_to(before, from, dest, mode)
    &&& after.last_entered_window == dest
}

/// No crossing was queued and the window last entered is unchanged.
pub open spec fn not_crossed(before: ClientState, after: ClientState) -> bool {
    &&& after.crossings@ == before.crossings@
    &&& after.last_entered_window == before.last_entered_window
}

/// The crossings of a grab activation: from the window the pointer is in
/// into the grab window (mode Grab).
pub open spec fn grab_crossed(before: ClientState, after: ClientState, grab_window: u32) -> bool {
    crossed(before, after, before.last_entered_window, grab_window, CROSSING_MODE_GRAB)
}

/// The crossings of a grab deactivation: from the grab window to the root
/// (mode Ungrab); none when the grab window is the root.
pub open spec fn ungrab_crossed(before: ClientState, after: ClientState, grab_window: u32) -> bool {
    if grab_window == before.root_window {
        not_crossed(before, after)
    } else {
        crossed(before, after, grab_window, before.root_window, CROSSING_MODE_UNGRAB)
    }
}

/// `after` differs from `before` at most in the queued crossings and the
/// window last entered.
pub open spec fn only_crossings_changed(before: ClientState, after: ClientState) -> bool {
    after == (ClientState { crossings: after.crossings, last_entered_window: after.last_entered_window, ..before })
}

/// `after` differs from `before` at most in the grab state, the pending
/// events, the queued crossings and the window last entered.
pub open spec fn grab_frame(before: ClientState, after: ClientState) -> bool {
    after == (ClientState {
        grabs: after.grabs,
        pending_events: after.pending_events,
        crossings: after.crossings,
        last_entered_window: after.last_entered_window,
        ..before
    })
}

/// Report the pointer's move into `dest` as a crossing of the given mode.
fn cross_to(state: &mut ClientState, dest: u32, mode: u8)
    ensures
        crossed(*old(state), *final(state), old(state).last_entered_window, dest, mode),
        only_crossings_changed(*old(state), *final(state)),
{
    let from = state.last_entered_window;
    if from != dest {
        let c = Crossing { from, to: dest, x: state.pointer_x, y: state.pointer_y, mode };
        state.crossings.push(c);
    }
    state.last_entered_window = dest;
}

/// Crossings for a grab activation: the pointer leaves the window it is in
/// and enters the grab window (mode Grab).
pub fn emit_grab_crossing_events(state: &mut ClientState, grab_window: u32)
    ensures
        grab_crossed(*old(state), *final(state), grab_window),
        only_crossings_changed(*old(state), *final(state)),
{
    cross_to(state, grab_window, CROSSING_MODE_GRAB);
}

/// Crossings for a grab deactivation: the pointer leaves the grab window
/// for the root window (mode Ungrab).
pub fn emit_ungrab_crossing_events(state: &mut ClientState, grab_window: u32)
    ensures
        ungrab_crossed(*old(state), *final(state), grab_window),
        only_crossings_changed(*old(state), *final(state)),
{
    let dest_window = state.root_window;
    if grab_window == dest_window {
        return;
    }
    state.last_entered_window = grab_window;
    cross_to(state, dest_window, CROSSING_MODE_UNGRAB);
}

/// The abstract grab state: the passive grab lists and the frozen event
/// queues as sequences.
#[verifier::ext_equal]
pub ghost struct GrabView {
    pub pointer_grab: Option<ActivePointerGrab>,
    pub keyboard_grab: Option<ActiveKeyboardGrab>,
    pub button_grabs: Seq<PassiveButtonGrab>,
    pub key_grabs: Seq<PassiveKeyGrab>,
    pub server_grab_count: u32,
    pub pointer_frozen: bool,
    pub keyboard_frozen: bool,
    pub pointer_sync_pending: bool,
    pub keyboard_sync_pending: bool,
    pub frozen_pointer_events: Seq<Vec<u8>>,
    pub frozen_keyboard_events: Seq<Vec<u8>>,
}

impl View for GrabState {
    type V = GrabView;

    open spec fn view(&self) -> GrabView {
        GrabView {
            pointer_grab: self.pointer_grab,
            keyboard_grab: self.keyboard_grab,
            button_grabs: self.button_grabs@,
            key_grabs: self.key_grabs@,
            server_grab_count: self.server_grab_count,
            pointer_frozen: self.pointer_frozen,
            keyboard_frozen: self.keyboard_frozen,
            pointer_sync_pending: self.pointer_sync_pending,
            keyboard_sync_pending: self.keyboard_sync_pending,
            frozen_pointer_events: self.frozen_pointer_events@,
            frozen_keyboard_events: self.frozen_keyboard_events@,
        }
    }
}

/// Deliver the frozen pointer events: they move, in order, to the end of
/// the pending events.
fn release_frozen_pointer_events(state: &mut ClientState)
    ensures
        final(state).pending_events@ == old(state).pending_events@ + old(state).grabs.frozen_pointer_events@,
        final(state).grabs@ == (GrabView { frozen_pointer_events: Seq::empty(), ..old(state).grabs@ }),
        *final(state) == (ClientState { pending_events: final(state).pending_events, grabs: final(state).grabs, ..*old(state) }),
{
    state.pending_events.append(&mut state.grabs.frozen_pointer_events);
}

/// Deliver the frozen keyboard events: they move, in order, to the end of
/// the pending events.
fn release_frozen_keyboard_events(state: &mut ClientState)
    ensures
        final(state).pending_events@ == old(state).pending_events@ + old(state).grabs.frozen_keyboard_events@,
        final(state).grabs@ == (GrabView { frozen_keyboard_events: Seq::empty(), ..old(state).grabs@ }),
        *final(state) == (ClientState { pending_events: final(state).pending_events, grabs: final(state).grabs, ..*old(state) }),
{
    state.pending_events.append(&mut state.grabs.frozen_keyboard_events);
}


/// The 32-byte reply of a grab request carrying its status (0 Success,
/// 2 InvalidTime, 3 NotViewable, 4 Frozen).
pub open spec fn status_reply(status: u8, seq: u16, msb: bool) -> Seq<u8> {
    seq![1u8, status] + bytes16(seq, msb) + zeros(28)
}

/// Build the reply of a grab request.
pub fn grab_status_reply(status: u8, seq: u16, msb: bool) -> (r: Vec<u8>)
    ensures
        r@ == status_reply(status, seq, msb),
{
    let mut out: Vec<u8> = Vec::new();
    out.push(1u8);
    out.push(status);
    assert(out@ =~= seq![1u8, status]);
    push_u16(&mut out, seq, msb);
    push_zeros(&mut out, 28);
    out
}

/// A window that a grab may name: a known window or the root.
pub open spec fn known_window(s: ClientState, w: u32) -> bool {
    s.windows@.contains_key(w) || w == s.root_window
}

/// A cursor that a grab may name: None (0) or a known cursor.
pub open spec fn known_cursor(s: ClientState, c: u32) -> bool {
    c == 0 || s.cursors@.contains_key(c)
}

/// A grab timestamp is refused when it is given (not CurrentTime) and lies
/// in the future of the server time, or 2^31 ms or more in its past.
pub open spec fn invalid_time(now: u32, ts: u32) -> bool {
    let delta = if now >= ts { now - ts } else { now - ts + 0x1_0000_0000 };
    ts != 0 && !(0 < delta && delta < 0x8000_0000) && ts != now
}

/// The status of an active grab request on `grab_window`: Frozen when the
/// device is frozen by a grab not held here, NotViewable, InvalidTime, or
/// Success.
pub open spec fn grab_status(s: ClientState, frozen_elsewhere: bool, grab_window: u32, ts: u32) -> u8 {
    if frozen_elsewhere {
        4
    } else if grab_window != s.root_window && !viewable(s.windows@, grab_window, s.root_window, MAX_TREE_DEPTH as nat) {
        3
    } else if invalid_time(s.now, ts) {
        2
    } else {
        0
    }
}

/// Decide the status of an active grab request.
fn check_grab_status(state: &ClientState, frozen_elsewhere: bool, grab_window: u32, ts: u32) -> (r: u8)
    ensures
        r == grab_status(*state, frozen_elsewhere, grab_window, ts),
{
    if frozen_elsewhere {
        return 4;
    }
    if grab_window != state.root_window && !is_viewable(&state.windows, grab_window, state.root_window) {
        return 3;
    }
    if ts != 0 {
        let delta = state.now.wrapping_sub(ts);
        if !(delta > 0 && delta < 0x8000_0000) && ts != state.now {
            return 2;
        }
    }
    0
}

/// The bounds a pointer grab confines the pointer to: none for None (0),
/// the screen for the root, else the window's screen bounds.
pub open spec fn confine_bounds_for(s: ClientState, confine_to: u32) -> Option<(i16, i16, i16, i16)> {
    if confine_to == 0 {
        None
    } else if confine_to == s.root_window {
        Some((0i16, 0i16, s.screen_width as i16, s.screen_height as i16))
    } else {
        abs_bounds(s.windows@, confine_to, s.root_window)
    }
}

/// Compute the bounds a pointer grab confines the pointer to.
fn confine_bounds_of(state: &ClientState, confine_to: u32) -> (r: Option<(i16, i16, i16, i16)>)
    ensures
        r == confine_bounds_for(*state, confine_to),
{
    if confine_to == 0 {
        None
    } else if confine_to == state.root_window {
        Some((0, 0, state.screen_width as i16, state.screen_height as i16))
    } else {
        window_abs_bounds(&state.windows, confine_to, state.root_window)
    }
}

/// The pointer grab a GrabPointer request asks for.
pub open spec fn requested_pointer_grab(s: ClientState, d: Seq<u8>) -> ActivePointerGrab {
    let msb = s.msb_first;
    ActivePointerGrab {
        grab_window: field32(d, 4, msb),
        event_mask: field16(d, 8, msb) as u32,
        pointer_mode: d[10],
        keyboard_mode: d[11],
        confine_to: field32(d, 12, msb),
        cursor: field32(d, 16, msb),
        owner_events: d[1] != 0,
        confine_bounds: confine_bounds_for(s, field32(d, 12, msb)),
    }
}

/// The status of a well-formed GrabPointer request.
pub open spec fn pointer_grab_status(s: ClientState, d: Seq<u8>) -> u8 {
    grab_status(s, s.grabs.pointer_frozen && s.grabs.pointer_grab is None, field32(d, 4, s.msb_first), field32(d, 20, s.msb_first))
}

/// The reply to GrabPointer: BadLength, BadWindow, BadCursor, or a status.
pub open spec fn grab_pointer_reply(s: ClientState, d: Seq<u8>, seq: u16) -> Seq<u8> {
    if d.len() < 24 {
        error_packet(BAD_LENGTH, seq, 0, 26, 0, false)
    } else if !known_window(s, field32(d, 4, s.msb_first)) {
        error_packet(BAD_WINDOW, seq, field32(d, 4, s.msb_first), 26, 0, false)
    } else if !known_cursor(s, field32(d, 16, s.msb_first)) {
        error_packet(BAD_CURSOR, seq, field32(d, 16, s.msb_first), 26, 0, false)
    } else {
        status_reply(pointer_grab_status(s, d), seq, s.msb_first)
    }
}

/// GrabPointer succeeds: the request is well formed and its status is
/// Success.
pub open spec fn grab_pointer_granted(s: ClientState, d: Seq<u8>) -> bool {
    &&& d.len() >= 24
    &&& known_window(s, field32(d, 4, s.msb_first))
    &&& known_cursor(s, field32(d, 16, s.msb_first))
    &&& pointer_grab_status(s, d) == 0
}

/// `after` holds the active pointer grab `grab`: a synchronous pointer
/// mode freezes the pointer (an asynchronous one thaws it), a synchronous
/// keyboard mode freezes the keyboard, and the grab crossings are queued.
pub open spec fn pointer_grab_activated(before: ClientState, after: ClientState, grab: ActivePointerGrab) -> bool {
    &&& after.grabs@ == (GrabView {
        pointer_grab: Some(grab),
        pointer_frozen: grab.pointer_mode == 1,
        keyboard_frozen: before.grabs.keyboard_frozen || grab.keyboard_mode == 1,
        ..before.grabs@
    })
    &&& grab_crossed(before, after, grab.grab_window)
    &&& after.pending_events == before.pending_events
    &&& grab_frame(before, after)
}

/// What GrabPointer answers `req` with, and the client state it leaves.
pub open spec fn grab_pointer_done(pre: ClientState, post: ClientState, req: Seq<u8>, seq: u16, out: Seq<u8>) -> bool {
    &&& (out == grab_pointer_reply(pre, req, seq))
    &&& (grab_pointer_granted(pre, req) ==> pointer_grab_activated(pre, post, requested_pointer_grab(pre, req)))
    &&& (!grab_pointer_granted(pre, req) ==> post == pre)
}

/// GrabPointer (opcode 26).
pub fn handle_grab_pointer(state: &mut ClientState, data: &[u8], seq: u16) -> (r: Vec<u8>)
    ensures
        grab_pointer_done(*old(state), *final(state), data@, seq, r@),
{
    if data.len() < 24 {
        return build_error(BAD_LENGTH, seq, 0, 26, 0);
    }
    let msb = state.msb_first;
    let owner_events = data[1] != 0;
    let grab_window = read_u32(data, 4, msb);
    let event_mask = read_u16(data, 8, msb) as u32;
    let pointer_mode = data[10];
    let keyboard_mode = data[11];
    let confine_to = read_u32(data, 12, msb);
    let cursor = read_u32(data, 16, msb);
    let timestamp = read_u32(data, 20, msb);
    if !state.windows.contains_key(&grab_window) && grab_window != state.root_window {
        return build_error(BAD_WINDOW, seq, grab_window, 26, 0);
    }
    if cursor != 0 && !state.cursors.contains_key(&cursor) {
        return build_error(BAD_CURSOR, seq, cursor, 26, 0);
    }
    let frozen_elsewhere = state.grabs.pointer_frozen && state.grabs.pointer_grab.is_none();
    let status = check_grab_status(state, frozen_elsewhere, grab_window, timestamp);
    if status != 0 {
        return grab_status_reply(status, seq, msb);
    }
    let confine_bounds = confine_bounds_of(state, confine_to);
    state.grabs.pointer_frozen = pointer_mode == 1;
    if keyboard_mode == 1 {
        state.grabs.keyboard_frozen = true;
    }
    state.grabs.pointer_grab = Some(ActivePointerGrab {
        grab_window,
        event_mask,
        pointer_mode,
        keyboard_mode,
        confine_to,
        cursor,
        owner_events,
        confine_bounds,
    });
    emit_grab_crossing_events(state, grab_window);
    grab_status_reply(0, seq, msb)
}

/// The pointer is thawed, its frozen events are delivered in order, its
/// grab (if any) is removed with the ungrab crossings, and its re-freeze
/// request is kept only when `keep_sync` holds.
pub open spec fn pointer_grab_released(before: ClientState, after: ClientState, keep_sync: bool) -> bool {
    &&& match before.grabs.pointer_grab {
        Some(g) => ungrab_crossed(before, after, g.grab_window),
        None => not_crossed(before, after),
    }
    &&& after.grabs@ == (GrabView {
        pointer_grab: None,
        pointer_frozen: false,
        pointer_sync_pending: keep_sync && before.grabs.pointer_sync_pending,
        frozen_pointer_events: Seq::empty(),
        ..before.grabs@
    })
    &&& after.pending_events@ == before.pending_events@ + before.grabs.frozen_pointer_events@
    &&& grab_frame(before, after)
}

/// Release the pointer grab (if any), thaw the pointer and deliver its
/// frozen events.
fn release_pointer_grab(state: &mut ClientState, keep_sync: bool)
    ensures
        pointer_grab_released(*old(state), *final(state), keep_sync),
{
    match state.grabs.pointer_grab {
        Some(g) => {
            emit_ungrab_crossing_events(state, g.grab_window);
        },
        None => {},
    }
    state.grabs.pointer_frozen = false;
    if !keep_sync {
        state.grabs.pointer_sync_pending = false;
    }
    release_frozen_pointer_events(state);
    state.grabs.pointer_grab = None;
}

/// The keyboard is thawed, its frozen events are delivered in order, and
/// its grab (if any) is removed with the ungrab crossings.
pub open spec fn keyboard_grab_released(before: ClientState, after: ClientState) -> bool {
    &&& match before.grabs.keyboard_grab {
        Some(g) => ungrab_crossed(before, after, g.grab_window),
        None => not_crossed(before, after),
    }
    &&& after.grabs@ == (GrabView {
        keyboard_grab: None,
        keyboard_frozen: false,
        keyboard_sync_pending: false,
        frozen_keyboard_events: Seq::empty(),
        ..before.grabs@
    })
    &&& after.pending_events@ == before.pending_events@ + before.grabs.frozen_keyboard_events@
    &&& grab_frame(before, after)
}

/// Release the keyboard grab (if any), thaw the keyboard and deliver its
/// frozen events.
fn release_keyboard_grab(state: &mut ClientState)
    ensures
        keyboard_grab_released(*old(state), *final(state)),
{
    match state.grabs.keyboard_grab {
        Some(g) => {
            emit_ungrab_crossing_events(state, g.grab_window);
        },
        None => {},
    }
    state.grabs.keyboard_frozen = false;
    state.grabs.keyboard_sync_pending = false;
    release_frozen_keyboard_events(state);
    state.grabs.keyboard_grab = None;
}

/// What UngrabPointer answers `req` with, and the client state it leaves.
pub open spec fn ungrab_pointer_done(pre: ClientState, post: ClientState, req: Seq<u8>, seq: u16, out: Seq<u8>) -> bool {
    &&& (out == Seq::<u8>::empty())
    &&& (pre.grabs.pointer_grab is Some ==> pointer_grab_released(pre, post, true))
    &&& (pre.grabs.pointer_grab is None ==> post == pre)
}

/// UngrabPointer (opcode 27): release an active pointer grab, thaw the
/// pointer and deliver its frozen events.
pub fn handle_ungrab_pointer(state: &mut ClientState, data: &[u8]) -> (r: Vec<u8>)
    ensures
        ungrab_pointer_done(*old(state), *final(state), data@, old(state).sequence, r@),
{
    if state.grabs.pointer_grab.is_some() {
        release_pointer_grab(state, true);
    }
    Vec::new()
}

/// ChangeActivePointerGrab (opcode 30).
pub open spec fn change_pointer_grab_reply(s: ClientState, d: Seq<u8>, seq: u16) -> Seq<u8> {
    if d.len() < 16 {
        error_packet(BAD_LENGTH, seq, 0, 30, 0, false)
    } else if !known_cursor(s, field32(d, 4, s.msb_first)) {
        error_packet(BAD_CURSOR, seq, field32(d, 4, s.msb_first), 30, 0, false)
    } else {
        Seq::empty()
    }
}

/// What ChangeActivePointerGrab answers `req` with, and the client state it leaves.
pub open spec fn change_active_pointer_grab_done(pre: ClientState, post: ClientState, req: Seq<u8>, seq: u16, out: Seq<u8>) -> bool {
    &&& (out == change_pointer_grab_reply(pre, req, seq))
    &&& (({
            let s = pre;
            let d = req;
            if d.len() >= 16 && known_cursor(s, field32(d, 4, s.msb_first)) && s.grabs.pointer_grab is Some {
                &&& post.grabs@ == (GrabView {
                    pointer_grab: Some(ActivePointerGrab {
                        cursor: field32(d, 4, s.msb_first),
                        event_mask: field16(d, 12, s.msb_first) as u32,
                        ..s.grabs.pointer_grab->0
                    }),
                    ..s.grabs@
                })
                &&& post == (ClientState { grabs: post.grabs, ..s })
            } else {
                post == s
            }
        }))
}

/// ChangeActivePointerGrab (opcode 30): change the cursor and event mask
/// of the active pointer grab.
pub fn handle_change_active_pointer_grab(state: &mut ClientState, data: &[u8], seq: u16) -> (r: Vec<u8>)
    ensures
        change_active_pointer_grab_done(*old(state), *final(state), data@, seq, r@),
{
    if data.len() < 16 {
        return build_error(BAD_LENGTH, seq, 0, 30, 0);
    }
    let msb = state.msb_first;
    let cursor = read_u32(data, 4, msb);
    if cursor != 0 && !state.cursors.contains_key(&cursor) {
        return build_error(BAD_CURSOR, seq, cursor, 30, 0);
    }
    match state.grabs.pointer_grab {
        Some(g) => {
            let event_mask = read_u16(data, 12, msb) as u32;
            state.grabs.pointer_grab = Some(ActivePointerGrab { cursor, event_mask, ..g });
        },
        None => {},
    }
    Vec::new()
}

/// The keyboard grab a GrabKeyboard request asks for.
pub open spec fn requested_keyboard_grab(s: ClientState, d: Seq<u8>) -> ActiveKeyboardGrab {
    ActiveKeyboardGrab {
        grab_window: field32(d, 4, s.msb_first),
        pointer_mode: d[12],
        keyboard_mode: d[13],
        owner_events: d[1] != 0,
    }
}

/// The status of a well-formed GrabKeyboard request.
pub open spec fn keyboard_grab_status(s: ClientState, d: Seq<u8>) -> u8 {
    grab_status(s, s.grabs.keyboard_frozen && s.grabs.keyboard_grab is None, field32(d, 4, s.msb_first), field32(d, 8, s.msb_first))
}

/// The reply to GrabKeyboard: BadLength, BadWindow, or a status.
pub open spec fn grab_keyboard_reply(s: ClientState, d: Seq<u8>, seq: u16) -> Seq<u8> {
    if d.len() < 16 {
        error_packet(BAD_LENGTH, seq, 0, 31, 0, false)
    } else if !known_window(s, field32(d, 4, s.msb_first)) {
        error_packet(BAD_WINDOW, seq, field32(d, 4, s.msb_first), 31, 0, false)
    } else {
        status_reply(keyboard_grab_status(s, d), seq, s.msb_first)
    }
}

/// GrabKeyboard succeeds: the request is well formed and its status is
/// Success.
pub open spec fn grab_keyboard_granted(s: ClientState, d: Seq<u8>) -> bool {
    &&& d.len() >= 16
    &&& known_window(s, field32(d, 4, s.msb_first))
    &&& keyboard_grab_status(s, d) == 0
}

/// `after` holds the active keyboard grab `grab`: a synchronous keyboard
/// mode freezes the keyboard (an asynchronous one thaws it), a synchronous
/// pointer mode freezes the pointer, and the grab crossings are queued.
pub open spec fn keyboard_grab_activated(before: ClientState, after: ClientState, grab: ActiveKeyboardGrab) -> bool {
    &&& after.grabs@ == (GrabView {
        keyboard_grab: Some(grab),
        keyboard_frozen: grab.keyboard_mode == 1,
        pointer_frozen: before.grabs.pointer_frozen || grab.pointer_mode == 1,
        ..before.grabs@
    })
    &&& grab_crossed(before, after, grab.grab_window)
    &&& after.pending_events == before.pending_events
    &&& grab_frame(before, after)
}

/// What GrabKeyboard answers `req` with, and the client state it leaves.
pub open spec fn grab_keyboard_done(pre: ClientState, post: ClientState, req: Seq<u8>, seq: u16, out: Seq<u8>) -> bool {
    &&& (out == grab_keyboard_reply(pre, req, seq))
    &&& (grab_keyboard_granted(pre, req) ==> keyboard_grab_activated(pre, post, requested_keyboard_grab(pre, req)))
    &&& (!grab_keyboard_granted(pre, req) ==> post == pre)
}

/// GrabKeyboard (opcode 31).
pub fn handle_grab_keyboard(state: &mut ClientState, data: &[u8], seq: u16) -> (r: Vec<u8>)
    ensures
        grab_keyboard_done(*old(state), *final(state), data@, seq, r@),
{
    if data.len() < 16 {
        return build_error(BAD_LENGTH, seq, 0, 31, 0);
    }
    let msb = state.msb_first;
    let owner_events = data[1] != 0;
    let grab_window = read_u32(data, 4, msb);
    let timestamp = read_u32(data, 8, msb);
    let pointer_mode = data[12];
    let keyboard_mode = data[13];
    if !state.windows.contains_key(&grab_window) && grab_window != state.root_window {
        return build_error(BAD_WINDOW, seq, grab_window, 31, 0);
    }
    let frozen_elsewhere = state.grabs.keyboard_frozen && state.grabs.keyboard_grab.is_none();
    let status = check_grab_status(state, frozen_elsewhere, grab_window, timestamp);
    if status != 0 {
        return grab_status_reply(status, seq, msb);
    }
    state.grabs.keyboard_frozen = keyboard_mode == 1;
    if pointer_mode == 1 {
        state.grabs.pointer_frozen = true;
    }
    state.grabs.keyboard_grab = Some(ActiveKeyboardGrab { grab_window, pointer_mode, keyboard_mode, owner_events });
    emit_grab_crossing_events(state, grab_window);
    grab_status_reply(0, seq, msb)
}

/// `after` is `before` after UngrabKeyboard with an active keyboard grab:
/// the keyboard grab is released as by ReplayKeyboard, and when that grab
/// froze the pointer and no pointer grab is held, the pointer is thawed
/// too and its frozen events follow the keyboard's.
pub open spec fn keyboard_ungrabbed(before: ClientState, after: ClientState) -> bool {
    let g = before.grabs.keyboard_grab->0;
    let thaw_pointer = g.pointer_mode == 1 && before.grabs.pointer_grab is None;
    &&& ungrab_crossed(before, after, g.grab_window)
    &&& after.grabs@ == (GrabView {
        keyboard_grab: None,
        keyboard_frozen: false,
        keyboard_sync_pending: false,
        frozen_keyboard_events: Seq::empty(),
        pointer_frozen: if thaw_pointer { false } else { before.grabs.pointer_frozen },
        pointer_sync_pending: if thaw_pointer { false } else { before.grabs.pointer_sync_pending },
        frozen_pointer_events: if thaw_pointer { Seq::empty() } else { before.grabs.frozen_pointer_events@ },
        ..before.grabs@
    })
    &&& after.pending_events@ == before.pending_events@ + before.grabs.frozen_keyboard_events@
        + (if thaw_pointer { before.grabs.frozen_pointer_events@ } else { Seq::empty() })
    &&& grab_frame(before, after)
}

/// What UngrabKeyboard answers `req` with, and the client state it leaves.
pub open spec fn ungrab_keyboard_done(pre: ClientState, post: ClientState, req: Seq<u8>, seq: u16, out: Seq<u8>) -> bool {
    &&& (out == Seq::<u8>::empty())
    &&& (pre.grabs.keyboard_grab is Some ==> keyboard_ungrabbed(pre, post))
    &&& (pre.grabs.keyboard_grab is None ==> post == pre)
}

/// UngrabKeyboard (opcode 32).
pub fn handle_ungrab_keyboard(state: &mut ClientState, data: &[u8]) -> (r: Vec<u8>)
    ensures
        ungrab_keyboard_done(*old(state), *final(state), data@, old(state).sequence, r@),
{
    match state.grabs.keyboard_grab {
        Some(g) => {
            let ghost s0 = *state;
            release_keyboard_grab(state);
            let ghost s1 = *state;
            if g.pointer_mode == 1 && state.grabs.pointer_grab.is_none() {
                state.grabs.pointer_frozen = false;
                state.grabs.pointer_sync_pending = false;
                release_frozen_pointer_events(state);
                assert(state.pending_events@ =~= s0.pending_events@ + s0.grabs.frozen_keyboard_events@
                    + s0.grabs.frozen_pointer_events@);
            } else {
                assert(state.pending_events@ =~= s0.pending_events@ + s0.grabs.frozen_keyboard_events@
                    + Seq::<Vec<u8>>::empty());
            }
        },
        None => {},
    }
    Vec::new()
}

/// The grab state after AllowEvents in `mode` for modes that only thaw:
/// AsyncPointer (0), SyncPointer (1), AsyncKeyboard (3), SyncKeyboard (4),
/// AsyncBoth (6), SyncBoth (7). A Sync mode re-freezes the device after
/// its next event.
pub open spec fn thawed(g: GrabView, mode: u8) -> GrabView {
    let pointer = mode == 0 || mode == 1 || mode == 6 || mode == 7;
    let keyboard = mode == 3 || mode == 4 || mode == 6 || mode == 7;
    let sync = mode == 1 || mode == 4 || mode == 7;
    GrabView {
        pointer_frozen: if pointer { false } else { g.pointer_frozen },
        pointer_sync_pending: if pointer { sync } else { g.pointer_sync_pending },
        frozen_pointer_events: if pointer { Seq::empty() } else { g.frozen_pointer_events },
        keyboard_frozen: if keyboard { false } else { g.keyboard_frozen },
        keyboard_sync_pending: if keyboard { sync } else { g.keyboard_sync_pending },
        frozen_keyboard_events: if keyboard { Seq::empty() } else { g.frozen_keyboard_events },
        ..g
    }
}

/// The events AllowEvents in a thawing `mode` delivers: the frozen pointer
/// events, then the frozen keyboard events, of the thawed devices.
pub open spec fn thawed_events(g: GrabView, mode: u8) -> Seq<Vec<u8>> {
    let pointer = mode == 0 || mode == 1 || mode == 6 || mode == 7;
    let keyboard = mode == 3 || mode == 4 || mode == 6 || mode == 7;
    (if pointer { g.frozen_pointer_events } else { Seq::empty() })
        + (if keyboard { g.frozen_keyboard_events } else { Seq::empty() })
}

/// The effect of AllowEvents (opcode 35) with the given mode.
pub open spec fn events_allowed(before: ClientState, after: ClientState, mode: u8) -> bool {
    if mode == 2 {
        pointer_grab_released(before, after, false)
    } else if mode == 5 {
        keyboard_grab_released(before, after)
    } else if mode <= 7 {
        &&& after.grabs@ == thawed(before.grabs@, mode)
        &&& after.pending_events@ == before.pending_events@ + thawed_events(before.grabs@, mode)
        &&& after == (ClientState { grabs: after.grabs, pending_events: after.pending_events, ..before })
    } else {
        after == before
    }
}

/// What AllowEvents answers `req` with, and the client state it leaves.
pub open spec fn allow_events_done(pre: ClientState, post: ClientState, req: Seq<u8>, seq: u16, out: Seq<u8>) -> bool {
    &&& (out == Seq::<u8>::empty())
    &&& (req.len() < 4 ==> post == pre)
    &&& (req.len() >= 4 ==> events_allowed(pre, post, req[1]))
}

/// AllowEvents (opcode 35): modes 0 AsyncPointer, 1 SyncPointer,
/// 2 ReplayPointer, 3 AsyncKeyboard, 4 SyncKeyboard, 5 ReplayKeyboard,
/// 6 AsyncBoth, 7 SyncBoth.
pub fn handle_allow_events(state: &mut ClientState, data: &[u8]) -> (r: Vec<u8>)
    ensures
        allow_events_done(*old(state), *final(state), data@, old(state).sequence, r@),
{
    if data.len() < 4 {
        return Vec::new();
    }
    let mode = data[1];
    let ghost s0 = *state;
    if mode == 2 {
        release_pointer_grab(state, false);
    } else if mode == 5 {
        release_keyboard_grab(state);
    } else if mode <= 7 {
        let pointer = mode == 0 || mode == 1 || mode == 6 || mode == 7;
        let keyboard = mode == 3 || mode == 4 || mode == 6 || mode == 7;
        let sync = mode == 1 || mode == 4 || mode == 7;
        if pointer {
            state.grabs.pointer_frozen = false;
            state.grabs.pointer_sync_pending = sync;
            release_frozen_pointer_events(state);
        }
        if keyboard {
            state.grabs.keyboard_frozen = false;
            state.grabs.keyboard_sync_pending = sync;
            release_frozen_keyboard_events(state);
        }
        assert(state.pending_events@ =~= s0.pending_events@ + thawed_events(s0.grabs@, mode));
        assert(state.grabs@ =~= thawed(s0.grabs@, mode));
    }
    Vec::new()
}

/// Release the pointer grab when a button release leaves no button
/// (Button1..Button5, mask 0x1F00) held.
pub fn check_button_release_ungrab(state: &mut ClientState, button: u8, button_mask: u16)
    ensures
        old(state).grabs.pointer_grab is Some && button_mask & 0x1F00 == 0
            ==> pointer_grab_released(*old(state), *final(state), false),
        !(old(state).grabs.pointer_grab is Some && button_mask & 0x1F00 == 0) ==> *final(state) == *old(state),
{
    if state.grabs.pointer_grab.is_some() && button_mask & 0x1F00 == 0 {
        release_pointer_grab(state, false);
    }
}

/// Which passive button grabs survive a removal on (`window`, `button`,
/// `modifiers`): with `any_on_window`, those on other windows; otherwise
/// those with another (window, button, modifiers) triple.
pub open spec fn keeps_button_grab(window: u32, button: u8, modifiers: u16, any_on_window: bool) -> spec_fn(PassiveButtonGrab) -> bool {
    |g: PassiveButtonGrab|
        if any_on_window {
            g.grab_window != window
        } else {
            !(g.grab_window == window && g.button == button && g.modifiers == modifiers)
        }
}

/// Which passive key grabs survive a removal on (`window`, `key`,
/// `modifiers`): with `any_on_window`, those on other windows; otherwise
/// those with another (window, key, modifiers) triple.
pub open spec fn keeps_key_grab(window: u32, key: u8, modifiers: u16, any_on_window: bool) -> spec_fn(PassiveKeyGrab) -> bool {
    |g: PassiveKeyGrab|
        if any_on_window {
            g.grab_window != window
        } else {
            !(g.grab_window == window && g.key == key && g.modifiers == modifiers)
        }
}

/// The passive button grabs that survive a removal, in their order.
fn retain_button_grabs(grabs: &Vec<PassiveButtonGrab>, window: u32, button: u8, modifiers: u16, any_on_window: bool) -> (r: Vec<PassiveButtonGrab>)
    ensures
        r@ == grabs@.filter(keeps_button_grab(window, button, modifiers, any_on_window)),
{
    let ghost keep = keeps_button_grab(window, button, modifiers, any_on_window);
    let mut out: Vec<PassiveButtonGrab> = Vec::new();
    let mut i: usize = 0;
    while i < grabs.len()
        invariant
            i <= grabs@.len(),
            keep == keeps_button_grab(window, button, modifiers, any_on_window),
            out@ == grabs@.subrange(0, i as int).filter(keep),
        decreases grabs@.len() - i,
    {
        let g = grabs[i];
        let same = g.grab_window == window && g.button == button && g.modifiers == modifiers;
        let kept = if any_on_window { g.grab_window != window } else { !same };
        if kept {
            out.push(g);
        }
        proof {
            reveal(Seq::filter);
            let s1 = grabs@.subrange(0, i + 1);
            assert(s1.drop_last() =~= grabs@.subrange(0, i as int));
            assert(s1.last() == g);
            assert(keep(g) == kept);
        }
        i = i + 1;
    }
    assert(grabs@.subrange(0, grabs@.len() as int) =~= grabs@);
    out
}

/// The passive key grabs that survive a removal, in their order.
fn retain_key_grabs(grabs: &Vec<PassiveKeyGrab>, window: u32, key: u8, modifiers: u16, any_on_window: bool) -> (r: Vec<PassiveKeyGrab>)
    ensures
        r@ == grabs@.filter(keeps_key_grab(window, key, modifiers, any_on_window)),
{
    let ghost keep = keeps_key_grab(window, key, modifiers, any_on_window);
    let mut out: Vec<PassiveKeyGrab> = Vec::new();
    let mut i: usize = 0;
    while i < grabs.len()
        invariant
            i <= grabs@.len(),
            keep == keeps_key_grab(window, key, modifiers, any_on_window),
            out@ == grabs@.subrange(0, i as int).filter(keep),
        decreases grabs@.len() - i,
    {
        let g = grabs[i];
        let same = g.grab_window == window && g.key == key && g.modifiers == modifiers;
        let kept = if any_on_window { g.grab_window != window } else { !same };
        if kept {
            out.push(g);
        }
        proof {
            reveal(Seq::filter);
            let s1 = grabs@.subrange(0, i + 1);
            assert(s1.drop_last() =~= grabs@.subrange(0, i as int));
            assert(s1.last() == g);
            assert(keep(g) == kept);
        }
        i = i + 1;
    }
    assert(grabs@.subrange(0, grabs@.len() as int) =~= grabs@);
    out
}

/// The passive button grabs after GrabButton establishes `g`: any grab
/// with the same (window, button, modifiers) is replaced, and `g` comes
/// first, so that the most recent grab wins.
pub open spec fn button_grabs_with(grabs: Seq<PassiveButtonGrab>, g: PassiveButtonGrab) -> Seq<PassiveButtonGrab> {
    seq![g] + grabs.filter(keeps_button_grab(g.grab_window, g.button, g.modifiers, false))
}

/// The passive key grabs after GrabKey establishes `g`: any grab with the
/// same (window, key, modifiers) is replaced, and `g` comes first.
pub open spec fn key_grabs_with(grabs: Seq<PassiveKeyGrab>, g: PassiveKeyGrab) -> Seq<PassiveKeyGrab> {
    seq![g] + grabs.filter(keeps_key_grab(g.grab_window, g.key, g.modifiers, false))
}

/// The passive button grab a GrabButton request establishes.
pub open spec fn requested_button_grab(s: ClientState, d: Seq<u8>) -> PassiveButtonGrab {
    let msb = s.msb_first;
    PassiveButtonGrab {
        grab_window: field32(d, 4, msb),
        button: d[20],
        modifiers: field16(d, 22, msb),
        event_mask: field16(d, 8, msb) as u32,
        pointer_mode: d[10],
        keyboard_mode: d[11],
        confine_to: field32(d, 12, msb),
        cursor: field32(d, 16, msb),
        owner_events: d[1] != 0,
    }
}

/// The error GrabButton answers with, if any.
pub open spec fn grab_button_error(s: ClientState, d: Seq<u8>, seq: u16) -> Option<Seq<u8>> {
    if d.len() < 24 {
        Some(error_packet(BAD_LENGTH, seq, 0, 28, 0, false))
    } else if !known_window(s, field32(d, 4, s.msb_first)) {
        Some(error_packet(BAD_WINDOW, seq, field32(d, 4, s.msb_first), 28, 0, false))
    } else if !known_cursor(s, field32(d, 16, s.msb_first)) {
        Some(error_packet(BAD_CURSOR, seq, field32(d, 16, s.msb_first), 28, 0, false))
    } else {
        None
    }
}

/// What GrabButton answers `req` with, and the client state it leaves.
pub open spec fn grab_button_done(pre: ClientState, post: ClientState, req: Seq<u8>, seq: u16, out: Seq<u8>) -> bool {
    &&& (match grab_button_error(pre, req, seq) {
            Some(e) => out == e && post == pre,
            None => {
                &&& out == Seq::<u8>::empty()
                &&& post.grabs@ == (GrabView {
                    button_grabs: button_grabs_with(pre.grabs.button_grabs@, requested_button_grab(pre, req)),
                    ..pre.grabs@
                })
                &&& post == (ClientState { grabs: post.grabs, ..pre })
            },
        })
}

/// GrabButton (opcode 28): establish a passive button grab.
pub fn handle_grab_button(state: &mut ClientState, data: &[u8], seq: u16) -> (r: Vec<u8>)
    ensures
        grab_button_done(*old(state), *final(state), data@, seq, r@),
{
    if data.len() < 24 {
        return build_error(BAD_LENGTH, seq, 0, 28, 0);
    }
    let msb = state.msb_first;
    let owner_events = data[1] != 0;
    let grab_window = read_u32(data, 4, msb);
    if !state.windows.contains_key(&grab_window) && grab_window != state.root_window {
        return build_error(BAD_WINDOW, seq, grab_window, 28, 0);
    }
    let event_mask = read_u16(data, 8, msb) as u32;
    let pointer_mode = data[10];
    let keyboard_mode = data[11];
    let confine_to = read_u32(data, 12, msb);
    let cursor = read_u32(data, 16, msb);
    if cursor != 0 && !state.cursors.contains_key(&cursor) {
        return build_error(BAD_CURSOR, seq, cursor, 28, 0);
    }
    let button = data[20];
    let modifiers = read_u16(data, 22, msb);
    let mut grabs = retain_button_grabs(&state.grabs.button_grabs, grab_window, button, modifiers, false);
    let g = PassiveButtonGrab {
        grab_window,
        button,
        modifiers,
        event_mask,
        pointer_mode,
        keyboard_mode,
        confine_to,
        cursor,
        owner_events,
    };
    grabs.insert(0, g);
    state.grabs.button_grabs = grabs;
    proof {
        assert(state.grabs.button_grabs@ =~= button_grabs_with(old(state).grabs.button_grabs@, g));
    }
    Vec::new()
}

/// The passive button grabs left by UngrabButton on (`window`, `button`,
/// `modifiers`): AnyButton (0) with AnyModifier (0x8000) removes every
/// button grab on the window, otherwise the grab with that exact triple.
pub open spec fn button_grabs_without(grabs: Seq<PassiveButtonGrab>, window: u32, button: u8, modifiers: u16) -> Seq<PassiveButtonGrab> {
    grabs.filter(keeps_button_grab(window, button, modifiers, button == 0 && modifiers == 0x8000))
}

/// What UngrabButton answers `req` with, and the client state it leaves.
pub open spec fn ungrab_button_done(pre: ClientState, post: ClientState, req: Seq<u8>, seq: u16, out: Seq<u8>) -> bool {
    &&& (req.len() < 12 ==> out == error_packet(BAD_LENGTH, seq, 0, 29, 0, false) && post == pre)
    &&& (req.len() >= 12 ==> {
            &&& out == Seq::<u8>::empty()
            &&& post.grabs@ == (GrabView {
                button_grabs: button_grabs_without(
                    pre.grabs.button_grabs@,
                    field32(req, 4, pre.msb_first),
                    req[1],
                    field16(req, 8, pre.msb_first),
                ),
                ..pre.grabs@
            })
            &&& post == (ClientState { grabs: post.grabs, ..pre })
        })
}

/// UngrabButton (opcode 29): remove passive button grabs.
pub fn handle_ungrab_button(state: &mut ClientState, data: &[u8], seq: u16) -> (r: Vec<u8>)
    ensures
        ungrab_button_done(*old(state), *final(state), data@, seq, r@),
{
    if data.len() < 12 {
        return build_error(BAD_LENGTH, seq, 0, 29, 0);
    }
    let msb = state.msb_first;
    let button = data[1];
    let grab_window = read_u32(data, 4, msb);
    let modifiers = read_u16(data, 8, msb);
    let any = button == 0 && modifiers == 0x8000;
    let grabs = retain_button_grabs(&state.grabs.button_grabs, grab_window, button, modifiers, any);
    state.grabs.button_grabs = grabs;
    Vec::new()
}

/// The passive key grab a GrabKey request establishes.
pub open spec fn requested_key_grab(s: ClientState, d: Seq<u8>) -> PassiveKeyGrab {
    PassiveKeyGrab {
        grab_window: field32(d, 4, s.msb_first),
        key: d[10],
        modifiers: field16(d, 8, s.msb_first),
        pointer_mode: d[11],
        keyboard_mode: d[12],
        owner_events: d[1] != 0,
    }
}

/// The error GrabKey answers with, if any.
pub open spec fn grab_key_error(s: ClientState, d: Seq<u8>, seq: u16) -> Option<Seq<u8>> {
    if d.len() < 16 {
        Some(error_packet(BAD_LENGTH, seq, 0, 33, 0, false))
    } else if !known_window(s, field32(d, 4, s.msb_first)) {
        Some(error_packet(BAD_WINDOW, seq, field32(d, 4, s.msb_first), 33, 0, false))
    } else {
        None
    }
}

/// What GrabKey answers `req` with, and the client state it leaves.
pub open spec fn grab_key_done(pre: ClientState, post: ClientState, req: Seq<u8>, seq: u16, out: Seq<u8>) -> bool {
    &&& (match grab_key_error(pre, req, seq) {
            Some(e) => out == e && post == pre,
            None => {
                &&& out == Seq::<u8>::empty()
                &&& post.grabs@ == (GrabView {
                    key_grabs: key_grabs_with(pre.grabs.key_grabs@, requested_key_grab(pre, req)),
                    ..pre.grabs@
                })
                &&& post == (ClientState { grabs: post.grabs, ..pre })
            },
        })
}

/// GrabKey (opcode 33): establish a passive key grab.
pub fn handle_grab_key(state: &mut ClientState, data: &[u8], seq: u16) -> (r: Vec<u8>)
    ensures
        grab_key_done(*old(state), *final(state), data@, seq, r@),
{
    if data.len() < 16 {
        return build_error(BAD_LENGTH, seq, 0, 33, 0);
    }
    let msb = state.msb_first;
    let owner_events = data[1] != 0;
    let grab_window = read_u32(data, 4, msb);
    if !state.windows.contains_key(&grab_window) && grab_window != state.root_window {
        return build_error(BAD_WINDOW, seq, grab_window, 33, 0);
    }
    let modifiers = read_u16(data, 8, msb);
    let key = data[10];
    let pointer_mode = data[11];
    let keyboard_mode = data[12];
    let mut grabs = retain_key_grabs(&state.grabs.key_grabs, grab_window, key, modifiers, false);
    let g = PassiveKeyGrab { grab_window, key, modifiers, pointer_mode, keyboard_mode, owner_events };
    grabs.insert(0, g);
    state.grabs.key_grabs = grabs;
    proof {
        assert(state.grabs.key_grabs@ =~= key_grabs_with(old(state).grabs.key_grabs@, g));
    }
    Vec::new()
}

/// The passive key grabs left by UngrabKey on (`window`, `key`,
/// `modifiers`): AnyKey (0) with AnyModifier (0x8000) removes every key
/// grab on the window, otherwise the grab with that exact triple.
pub open spec fn key_grabs_without(grabs: Seq<PassiveKeyGrab>, window: u32, key: u8, modifiers: u16) -> Seq<PassiveKeyGrab> {
    grabs.filter(keeps_key_grab(window, key, modifiers, key == 0 && modifiers == 0x8000))
}

/// What UngrabKey answers `req` with, and the client state it leaves.
pub open spec fn ungrab_key_done(pre: ClientState, post: ClientState, req: Seq<u8>, seq: u16, out: Seq<u8>) -> bool {
    &&& (req.len() < 12 ==> out == error_packet(BAD_LENGTH, seq, 0, 34, 0, false) && post == pre)
    &&& (req.len() >= 12 ==> {
            &&& out == Seq::<u8>::empty()
            &&& post.grabs@ == (GrabView {
                key_grabs: key_grabs_without(
                    pre.grabs.key_grabs@,
                    field32(req, 4, pre.msb_first),
                    req[1],
                    field16(req, 8, pre.msb_first),
                ),
                ..pre.grabs@
            })
            &&& post == (ClientState { grabs: post.grabs, ..pre })
        })
}

/// UngrabKey (opcode 34): remove passive key grabs.
pub fn handle_ungrab_key(state: &mut ClientState, data: &[u8], seq: u16) -> (r: Vec<u8>)
    ensures
        ungrab_key_done(*old(state), *final(state), data@, seq, r@),
{
    if data.len() < 12 {
        return build_error(BAD_LENGTH, seq, 0, 34, 0);
    }
    let msb = state.msb_first;
    let key = data[1];
    let grab_window = read_u32(data, 4, msb);
    let modifiers = read_u16(data, 8, msb);
    let any = key == 0 && modifiers == 0x8000;
    let grabs = retain_key_grabs(&state.grabs.key_grabs, grab_window, key, modifiers, any);
    state.grabs.key_grabs = grabs;
    Vec::new()
}

/// A passive button grab matches a press of `button` with `modifiers` in
/// `window`: AnyButton (0) and AnyModifier (0x8000) match anything.
pub open spec fn button_grab_matches(g: PassiveButtonGrab, window: u32, button: u8, modifiers: u16) -> bool {
    &&& g.grab_window == window
    &&& (g.button == 0 || g.button == button)
    &&& (g.modifiers == 0x8000 || g.modifiers == modifiers)
}

/// A passive key grab matches a press of `key` with `modifiers` in
/// `window`: AnyKey (0) and AnyModifier (0x8000) match anything.
pub open spec fn key_grab_matches(g: PassiveKeyGrab, window: u32, key: u8, modifiers: u16) -> bool {
    &&& g.grab_window == window
    &&& (g.key == 0 || g.key == key)
    &&& (g.modifiers == 0x8000 || g.modifiers == modifiers)
}

/// The first passive button grab from index `i` on that matches.
pub open spec fn first_button_grab(grabs: Seq<PassiveButtonGrab>, i: int, window: u32, button: u8, modifiers: u16) -> Option<PassiveButtonGrab>
    decreases grabs.len() - i,
{
    if i < 0 || i >= grabs.len() {
        None
    } else if button_grab_matches(grabs[i], window, button, modifiers) {
        Some(grabs[i])
    } else {
        first_button_grab(grabs, i + 1, window, button, modifiers)
    }
}

/// The first passive key grab from index `i` on that matches.
pub open spec fn first_key_grab(grabs: Seq<PassiveKeyGrab>, i: int, window: u32, key: u8, modifiers: u16) -> Option<PassiveKeyGrab>
    decreases grabs.len() - i,
{
    if i < 0 || i >= grabs.len() {
        None
    } else if key_grab_matches(grabs[i], window, key, modifiers) {
        Some(grabs[i])
    } else {
        first_key_grab(grabs, i + 1, window, key, modifiers)
    }
}

/// The window a passive-grab search moves on to from `w`: its parent,
/// unless `w` is unknown or its parent is None (0) or `w` itself.
pub open spec fn search_parent(windows: Map<u32, WindowState>, w: u32) -> Option<u32> {
    if windows.contains_key(w) && windows[w].parent != 0 && windows[w].parent != w {
        Some(windows[w].parent)
    } else {
        None
    }
}

/// The passive button grab a button press in `window` activates: the first
/// matching grab on the window, else on its ancestors, nearest first,
/// visiting at most `fuel` windows.
pub open spec fn passive_button_grab_for(s: ClientState, window: u32, button: u8, modifiers: u16, fuel: nat) -> Option<PassiveButtonGrab>
    decreases fuel,
{
    if fuel == 0 {
        None
    } else {
        match first_button_grab(s.grabs.button_grabs@, 0, window, button, modifiers) {
            Some(g) => Some(g),
            None => match search_parent(s.windows@, window) {
                Some(p) => passive_button_grab_for(s, p, button, modifiers, (fuel - 1) as nat),
                None => None,
            },
        }
    }
}

/// The passive key grab a key press in `window` activates: the first
/// matching grab on the window, else on its ancestors, nearest first,
/// visiting at most `fuel` windows.
pub open spec fn passive_key_grab_for(s: ClientState, window: u32, key: u8, modifiers: u16, fuel: nat) -> Option<PassiveKeyGrab>
    decreases fuel,
{
    if fuel == 0 {
        None
    } else {
        match first_key_grab(s.grabs.key_grabs@, 0, window, key, modifiers) {
            Some(g) => Some(g),
            None => match search_parent(s.windows@, window) {
                Some(p) => passive_key_grab_for(s, p, key, modifiers, (fuel - 1) as nat),
                None => None,
            },
        }
    }
}

/// Find the first passive button grab on `window` that matches.
fn find_button_grab(grabs: &Vec<PassiveButtonGrab>, window: u32, button: u8, modifiers: u16) -> (r: Option<PassiveButtonGrab>)
    ensures
        r == first_button_grab(grabs@, 0, window, button, modifiers),
{
    let mut i: usize = 0;
    while i < grabs.len()
        invariant
            i <= grabs@.len(),
            first_button_grab(grabs@, 0, window, button, modifiers) == first_button_grab(grabs@, i as int, window, button, modifiers),
        decreases grabs@.len() - i,
    {
        let g = grabs[i];
        if g.grab_window == window && (g.button == 0 || g.button == button) && (g.modifiers == 0x8000 || g.modifiers == modifiers) {
            return Some(g);
        }
        i = i + 1;
    }
    None
}

/// Find the first passive key grab on `window` that matches.
fn find_key_grab(grabs: &Vec<PassiveKeyGrab>, window: u32, key: u8, modifiers: u16) -> (r: Option<PassiveKeyGrab>)
    ensures
        r == first_key_grab(grabs@, 0, window, key, modifiers),
{
    let mut i: usize = 0;
    while i < grabs.len()
        invariant
            i <= grabs@.len(),
            first_key_grab(grabs@, 0, window, key, modifiers) == first_key_grab(grabs@, i as int, window, key, modifiers),
        decreases grabs@.len() - i,
    {
        let g = grabs[i];
        if g.grab_window == window && (g.key == 0 || g.key == key) && (g.modifiers == 0x8000 || g.modifiers == modifiers) {
            return Some(g);
        }
        i = i + 1;
    }
    None
}

/// The window a passive-grab search moves on to.
fn next_search_window(windows: &HashMap<u32, WindowState>, w: u32) -> (r: Option<u32>)
    ensures
        r == search_parent(windows@, w),
{
    match windows.get(&w) {
        Some(win) => {
            if win.parent != 0 && win.parent != w {
                Some(win.parent)
            } else {
                None
            }
        },
        None => None,
    }
}

/// Search the window and its ancestors for the passive button grab a press
/// activates.
fn search_button_grab(state: &ClientState, button: u8, modifiers: u16, window: u32) -> (r: Option<PassiveButtonGrab>)
    ensures
        r == passive_button_grab_for(*state, window, button, modifiers, MAX_TREE_DEPTH as nat),
{
    let mut current = window;
    let mut n: usize = 0;
    while n < MAX_TREE_DEPTH
        invariant
            n <= MAX_TREE_DEPTH,
            passive_button_grab_for(*state, window, button, modifiers, MAX_TREE_DEPTH as nat)
                == passive_button_grab_for(*state, current, button, modifiers, (MAX_TREE_DEPTH - n) as nat),
        decreases MAX_TREE_DEPTH - n,
    {
        match find_button_grab(&state.grabs.button_grabs, current, button, modifiers) {
            Some(g) => {
                return Some(g);
            },
            None => {},
        }
        match next_search_window(&state.windows, current) {
            Some(p) => {
                current = p;
            },
            None => {
                return None;
            },
        }
        n = n + 1;
    }
    None
}

/// Search the window and its ancestors for the passive key grab a press
/// activates.
fn search_key_grab(state: &ClientState, keycode: u8, modifiers: u16, window: u32) -> (r: Option<PassiveKeyGrab>)
    ensures
        r == passive_key_grab_for(*state, window, keycode, modifiers, MAX_TREE_DEPTH as nat),
{
    let mut current = window;
    let mut n: usize = 0;
    while n < MAX_TREE_DEPTH
        invariant
            n <= MAX_TREE_DEPTH,
            passive_key_grab_for(*state, window, keycode, modifiers, MAX_TREE_DEPTH as nat)
                == passive_key_grab_for(*state, current, keycode, modifiers, (MAX_TREE_DEPTH - n) as nat),
        decreases MAX_TREE_DEPTH - n,
    {
        match find_key_grab(&state.grabs.key_grabs, current, keycode, modifiers) {
            Some(g) => {
                return Some(g);
            },
            None => {},
        }
        match next_search_window(&state.windows, current) {
            Some(p) => {
                current = p;
            },
            None => {
                return None;
            },
        }
        n = n + 1;
    }
    None
}

/// The active pointer grab a passive button grab turns into.
pub open spec fn activated_button_grab(s: ClientState, g: PassiveButtonGrab) -> ActivePointerGrab {
    ActivePointerGrab {
        grab_window: g.grab_window,
        event_mask: g.event_mask,
        pointer_mode: g.pointer_mode,
        keyboard_mode: g.keyboard_mode,
        confine_to: g.confine_to,
        cursor: g.cursor,
        owner_events: g.owner_events,
        confine_bounds: confine_bounds_for(s, g.confine_to),
    }
}

/// `after` holds the pointer grab a passive grab activated: synchronous
/// modes freeze their device (asynchronous ones leave it as it was), and
/// the grab crossings are queued.
pub open spec fn passive_pointer_grab_activated(before: ClientState, after: ClientState, grab: ActivePointerGrab) -> bool {
    &&& after.grabs@ == (GrabView {
        pointer_grab: Some(grab),
        pointer_frozen: before.grabs.pointer_frozen || grab.pointer_mode == 1,
        keyboard_frozen: before.grabs.keyboard_frozen || grab.keyboard_mode == 1,
        ..before.grabs@
    })
    &&& grab_crossed(before, after, grab.grab_window)
    &&& after.pending_events == before.pending_events
    &&& grab_frame(before, after)
}

/// Activate the passive button grab that a press of `button` with
/// `modifiers` in `window` matches, if any; returns whether one did (the
/// event then goes to the grab window).
pub fn check_passive_button_grab(state: &mut ClientState, button: u8, modifiers: u16, window: u32) -> (r: bool)
    ensures
        match passive_button_grab_for(*old(state), window, button, modifiers, MAX_TREE_DEPTH as nat) {
            Some(g) => r && passive_pointer_grab_activated(*old(state), *final(state), activated_button_grab(*old(state), g)),
            None => !r && *final(state) == *old(state),
        },
{
    match search_button_grab(state, button, modifiers, window) {
        Some(g) => {
            let confine_bounds = confine_bounds_of(state, g.confine_to);
            if g.pointer_mode == 1 {
                state.grabs.pointer_frozen = true;
            }
            if g.keyboard_mode == 1 {
                state.grabs.keyboard_frozen = true;
            }
            state.grabs.pointer_grab = Some(ActivePointerGrab {
                grab_window: g.grab_window,
                event_mask: g.event_mask,
                pointer_mode: g.pointer_mode,
                keyboard_mode: g.keyboard_mode,
                confine_to: g.confine_to,
                cursor: g.cursor,
                owner_events: g.owner_events,
                confine_bounds,
            });
            emit_grab_crossing_events(state, g.grab_window);
            true
        },
        None => false,
    }
}

/// The active keyboard grab a passive key grab turns into.
pub open spec fn activated_key_grab(g: PassiveKeyGrab) -> ActiveKeyboardGrab {
    ActiveKeyboardGrab {
        grab_window: g.grab_window,
        pointer_mode: g.pointer_mode,
        keyboard_mode: g.keyboard_mode,
        owner_events: g.owner_events,
    }
}

/// `after` holds the keyboard grab a passive grab activated: synchronous
/// modes freeze their device (asynchronous ones leave it as it was), and
/// the grab crossings are queued.
pub open spec fn passive_keyboard_grab_activated(before: ClientState, after: ClientState, grab: ActiveKeyboardGrab) -> bool {
    &&& after.grabs@ == (GrabView {
        keyboard_grab: Some(grab),
        pointer_frozen: before.grabs.pointer_frozen || grab.pointer_mode == 1,
        keyboard_frozen: before.grabs.keyboard_frozen || grab.keyboard_mode == 1,
        ..before.grabs@
    })
    &&& grab_crossed(before, after, grab.grab_window)
    &&& after.pending_events == before.pending_events
    &&& grab_frame(before, after)
}

/// Activate the passive key grab that a press of `keycode` with
/// `modifiers` in `window` matches, if any; returns whether one did.
pub fn check_passive_key_grab(state: &mut ClientState, keycode: u8, modifiers: u16, window: u32) -> (r: bool)
    ensures
        match passive_key_grab_for(*old(state), window, keycode, modifiers, MAX_TREE_DEPTH as nat) {
            Some(g) => r && passive_keyboard_grab_activated(*old(state), *final(state), activated_key_grab(g)),
            None => !r && *final(state) == *old(state),
        },
{
    match search_key_grab(state, keycode, modifiers, window) {
        Some(g) => {
            if g.keyboard_mode == 1 {
                state.grabs.keyboard_frozen = true;
            }
            if g.pointer_mode == 1 {
                state.grabs.pointer_frozen = true;
            }
            state.grabs.keyboard_grab = Some(ActiveKeyboardGrab {
                grab_window: g.grab_window,
                pointer_mode: g.pointer_mode,
                keyboard_mode: g.keyboard_mode,
                owner_events: g.owner_events,
            });
            emit_grab_crossing_events(state, g.grab_window);
            true
        },
        None => false,
    }
}

/// A change to the server-grab lock that all connections share.
#[derive(Clone, Copy, PartialEq, Eq, Structural, Debug)]
pub enum ServerGrabChange {
    /// This client holds the lock: the other clients' requests wait.
    Hold,
    /// The lock is free.
    Release,
}

/// The server grab nesting depth after GrabServer.
pub open spec fn server_grabbed(count: u32) -> u32 {
    (count + 1) as u32
}

/// The server grab nesting depth after UngrabServer: one less, never below
/// zero.
pub open spec fn server_ungrabbed(count: u32) -> u32 {
    if count > 0 { (count - 1) as u32 } else { 0 }
}

/// What GrabServer answers `req` with and the client state it leaves: one
/// more level of grab, and this client to hold the shared lock.
pub open spec fn grab_server_done(pre: ClientState, post: ClientState, req: Seq<u8>, seq: u16, out: Seq<u8>) -> bool {
    &&& (out == Seq::<u8>::empty())
    &&& (post.grabs@ == (GrabView { server_grab_count: server_grabbed(pre.grabs.server_grab_count), ..pre.grabs@ }))
    &&& post.server_grab_changes@ == pre.server_grab_changes@.push(ServerGrabChange::Hold)
    &&& (post == (ClientState { grabs: post.grabs, server_grab_changes: post.server_grab_changes, ..pre }))
}

/// GrabServer (opcode 36): one more level of server grab; the other
/// clients' requests wait while this client holds the shared lock.
pub fn handle_grab_server(state: &mut ClientState, data: &[u8]) -> (r: Vec<u8>)
    requires
        old(state).grabs.server_grab_count < u32::MAX,
    ensures
        grab_server_done(*old(state), *final(state), data@, old(state).sequence, r@),
{
    state.grabs.server_grab_count = state.grabs.server_grab_count + 1;
    state.server_grab_changes.push(ServerGrabChange::Hold);
    Vec::new()
}

/// What UngrabServer answers `req` with and the client state it leaves:
/// one level of grab less (none below zero), and the shared lock freed
/// when no level is left.
pub open spec fn ungrab_server_done(pre: ClientState, post: ClientState, req: Seq<u8>, seq: u16, out: Seq<u8>) -> bool {
    let count = server_ungrabbed(pre.grabs.server_grab_count);
    &&& (out == Seq::<u8>::empty())
    &&& (post.grabs@ == (GrabView { server_grab_count: count, ..pre.grabs@ }))
    &&& post.server_grab_changes@ == (if count == 0 {
        pre.server_grab_changes@.push(ServerGrabChange::Release)
    } else {
        pre.server_grab_changes@
    })
    &&& (post == (ClientState { grabs: post.grabs, server_grab_changes: post.server_grab_changes, ..pre }))
}

/// UngrabServer (opcode 37): one level of server grab less (none below
/// zero); the grab is over, and the shared lock freed, when the count
/// reaches zero.
pub fn handle_ungrab_server(state: &mut ClientState, data: &[u8]) -> (r: Vec<u8>)
    ensures
        ungrab_server_done(*old(state), *final(state), data@, old(state).sequence, r@),
{
    if state.grabs.server_grab_count > 0 {
        state.grabs.server_grab_count = state.grabs.server_grab_count - 1;
    }
    if state.grabs.server_grab_count == 0 {
        state.server_grab_changes.push(ServerGrabChange::Release);
    }
    Vec::new()
}

/// The frozen-event queue after `event` is queued: when the queue is full
/// its oldest event is dropped first.
pub open spec fn queued_frozen(queue: Seq<Vec<u8>>, after: Seq<Vec<u8>>, event: Seq<u8>) -> bool {
    &&& after.len() > 0
    &&& after.drop_last() == (if queue.len() >= MAX_FROZEN_EVENTS { queue.drop_first() } else { queue })
    &&& after.last()@ == event
}

/// Queue an event on a frozen-event queue, dropping the oldest when full.
fn enqueue_frozen(queue: &mut Vec<Vec<u8>>, event: &[u8])
    ensures
        queued_frozen(old(queue)@, final(queue)@, event@),
{
    if queue.len() >= MAX_FROZEN_EVENTS {
        queue.remove(0);
        assert(queue@ =~= old(queue)@.drop_first());
    }
    let ghost kept = queue@;
    let mut e: Vec<u8> = Vec::new();
    push_bytes(&mut e, event);
    queue.push(e);
    assert(queue@.drop_last() =~= kept);
}

/// `after` is `before` once a pointer event was checked: while the pointer
/// is frozen the event is queued; otherwise a pending re-freeze takes
/// effect (the event itself is delivered).
pub open spec fn pointer_event_checked(before: ClientState, after: ClientState, event: Seq<u8>) -> bool {
    &&& after == (ClientState { grabs: after.grabs, ..before })
    &&& if before.grabs.pointer_frozen {
        &&& queued_frozen(before.grabs.frozen_pointer_events@, after.grabs.frozen_pointer_events@, event)
        &&& after.grabs@ == (GrabView { frozen_pointer_events: after.grabs.frozen_pointer_events@, ..before.grabs@ })
    } else {
        after.grabs@ == (GrabView {
            pointer_frozen: before.grabs.pointer_sync_pending,
            pointer_sync_pending: false,
            ..before.grabs@
        })
    }
}

/// Decide whether a pointer event is frozen: while the pointer is frozen
/// the event is queued (true); after a SyncPointer thaw the first event is
/// delivered and the pointer freezes again (false).
pub fn check_pointer_sync_freeze(state: &mut ClientState, event: &[u8]) -> (r: bool)
    ensures
        r == old(state).grabs.pointer_frozen,
        pointer_event_checked(*old(state), *final(state), event@),
{
    if state.grabs.pointer_frozen {
        enqueue_frozen(&mut state.grabs.frozen_pointer_events, event);
        return true;
    }
    if state.grabs.pointer_sync_pending {
        state.grabs.pointer_sync_pending = false;
        state.grabs.pointer_frozen = true;
    }
    false
}

/// `after` is `before` once a keyboard event was checked: while the keyboard
/// is frozen the event is queued; otherwise a pending re-freeze takes
/// effect (the event itself is delivered).
pub open spec fn keyboard_event_checked(before: ClientState, after: ClientState, event: Seq<u8>) -> bool {
    &&& after == (ClientState { grabs: after.grabs, ..before })
    &&& if before.grabs.keyboard_frozen {
        &&& queued_frozen(before.grabs.frozen_keyboard_events@, after.grabs.frozen_keyboard_events@, event)
        &&& after.grabs@ == (GrabView { frozen_keyboard_events: after.grabs.frozen_keyboard_events@, ..before.grabs@ })
    } else {
        after.grabs@ == (GrabView {
            keyboard_frozen: before.grabs.keyboard_sync_pending,
            keyboard_sync_pending: false,
            ..before.grabs@
        })
    }
}

/// Decide whether a keyboard event is frozen: while the keyboard is frozen
/// the event is queued (true); after a SyncKeyboard thaw the first event
/// is delivered and the keyboard freezes again (false).
pub fn check_keyboard_sync_freeze(state: &mut ClientState, event: &[u8]) -> (r: bool)
    ensures
        r == old(state).grabs.keyboard_frozen,
        keyboard_event_checked(*old(state), *final(state), event@),
{
    if state.grabs.keyboard_frozen {
        enqueue_frozen(&mut state.grabs.frozen_keyboard_events, event);
        return true;
    }
    if state.grabs.keyboard_sync_pending {
        state.grabs.keyboard_sync_pending = false;
        state.grabs.keyboard_frozen = true;
    }
    false
}

/// `v` clamped to [`lo`, `hi` - 1] (the upper end saturating); the upper
/// end wins when the range is empty.
pub open spec fn clamp_into(v: i16, lo: i16, hi: i16) -> i16 {
    let top = if hi - 1 < i16::MIN { i16::MIN } else { (hi - 1) as i16 };
    let low = if v < lo { lo } else { v };
    if low > top { top } else { low }
}

/// The pointer position (`x`, `y`) as a confined pointer grab allows it.
pub open spec fn confined(s: ClientState, x: i16, y: i16) -> (i16, i16) {
    match s.grabs.pointer_grab {
        Some(g) => match g.confine_bounds {
            Some((x1, y1, x2, y2)) => (clamp_into(x, x1, x2), clamp_into(y, y1, y2)),
            None => (x, y),
        },
        None => (x, y),
    }
}

/// Clamp a value into [`lo`, `hi` - 1].
fn clamp_i16(v: i16, lo: i16, hi: i16) -> (r: i16)
    ensures
        r == clamp_into(v, lo, hi),
{
    let top = if hi == i16::MIN { hi } else { hi - 1 };
    let low = if v < lo { lo } else { v };
    if low > top { top } else { low }
}

/// Clamp pointer coordinates to the bounds of the active grab's confine_to
/// window, if any.
pub fn clamp_to_confine(state: &ClientState, x: i16, y: i16) -> (r: (i16, i16))
    ensures
        r == confined(*state, x, y),
{
    match state.grabs.pointer_grab {
        Some(g) => match g.confine_bounds {
            Some((x1, y1, x2, y2)) => (clamp_i16(x, x1, x2), clamp_i16(y, y1, y2)),
            None => (x, y),
        },
        None => (x, y),
    }
}

/// Grab state of a connection.
pub struct GrabState {
    /// Active pointer grab, if any.
    pub pointer_grab: Option<ActivePointerGrab>,
    /// Active keyboard grab, if any.
    pub keyboard_grab: Option<ActiveKeyboardGrab>,
    /// Passive button grabs, most recent first.
    pub button_grabs: Vec<PassiveButtonGrab>,
    /// Passive key grabs, most recent first.
    pub key_grabs: Vec<PassiveKeyGrab>,
    /// Nesting depth of GrabServer.
    pub server_grab_count: u32,
    /// Pointer events are frozen (synchronous grab mode).
    pub pointer_frozen: bool,
    /// Keyboard events are frozen (synchronous grab mode).
    pub keyboard_frozen: bool,
    /// Re-freeze the pointer after delivering one event.
    pub pointer_sync_pending: bool,
    /// Re-freeze the keyboard after delivering one event.
    pub keyboard_sync_pending: bool,
    /// Pointer events queued while frozen.
    pub frozen_pointer_events: Vec<Vec<u8>>,
    /// Keyboard events queued while frozen.
    pub frozen_keyboard_events: Vec<Vec<u8>>,
}

impl Default for GrabState {
    /// No grab, nothing frozen, no passive grab.
    fn default() -> (g: GrabState)
        ensures
            g@ == (GrabView {
                pointer_grab: None,
                keyboard_grab: None,
                button_grabs: Seq::empty(),
                key_grabs: Seq::empty(),
                server_grab_count: 0,
                pointer_frozen: false,
                keyboard_frozen: false,
                pointer_sync_pending: false,
                keyboard_sync_pending: false,
                frozen_pointer_events: Seq::empty(),
                frozen_keyboard_events: Seq::empty(),
            }),
    {
        GrabState {
            pointer_grab: None,
            keyboard_grab: None,
            button_grabs: Vec::new(),
            key_grabs: Vec::new(),
            server_grab_count: 0,
            pointer_frozen: false,
            keyboard_frozen: false,
            pointer_sync_pending: false,
            keyboard_sync_pending: false,
            frozen_pointer_events: Vec::new(),
            frozen_keyboard_events: Vec::new(),
        }
    }
}

/// An active pointer grab.
#[derive(Clone, Copy)]
pub struct ActivePointerGrab {
    pub grab_window: u32,
    pub event_mask: u32,
    pub pointer_mode: u8,
    pub keyboard_mode: u8,
    pub confine_to: u32,
    pub cursor: u32,
    pub owner_events: bool,
    /// Screen bounds (x1, y1, x2, y2) of the confine_to window; None when
    /// the grab is not confined.
    pub confine_bounds: Option<(i16, i16, i16, i16)>,
}

/// An active keyboard grab.
#[derive(Clone, Copy)]
pub struct ActiveKeyboardGrab {
    pub grab_window: u32,
    pub pointer_mode: u8,
    pub keyboard_mode: u8,
    pub owner_events: bool,
}

/// A passive button grab (button 0 = AnyButton, modifiers 0x8000 =
/// AnyModifier).
#[derive(Clone, Copy)]
pub struct PassiveButtonGrab {
    pub grab_window: u32,
    pub button: u8,
    pub modifiers: u16,
    pub event_mask: u32,
    pub pointer_mode: u8,
    pub keyboard_mode: u8,
    pub confine_to: u32,
    pub cursor: u32,
    pub owner_events: bool,
}

/// A passive key grab (key 0 = AnyKey, modifiers 0x8000 = AnyModifier).
#[derive(Clone, Copy)]
pub struct PassiveKeyGrab {
    pub grab_window: u32,
    pub key: u8,
    pub modifiers: u16,
    pub pointer_mode: u8,
    pub keyboard_mode: u8,
    pub owner_events: bool,
}

/// The (window, button, modifiers) triple that identifies a passive button
/// grab.
pub open spec fn button_triple() -> spec_fn(PassiveButtonGrab) -> (u32, u8, u16) {
    |g: PassiveButtonGrab| (g.grab_window, g.button, g.modifiers)
}

/// The (window, key, modifiers) triple that identifies a passive key grab.
pub open spec fn key_triple() -> spec_fn(PassiveKeyGrab) -> (u32, u8, u16) {
    |g: PassiveKeyGrab| (g.grab_window, g.key, g.modifiers)
}

/// No two elements of `s` have the same key.
pub open spec fn keys_distinct<A, K>(s: Seq<A>, key: spec_fn(A) -> K) -> bool {
    forall|i: int, j: int| 0 <= i < j < s.len() ==> key(#[trigger] s[i]) != key(#[trigger] s[j])
}

/// Filtering keeps keys distinct.
pub proof fn lemma_filter_keys_distinct<A, K>(s: Seq<A>, p: spec_fn(A) -> bool, key: spec_fn(A) -> K)
    requires
        keys_distinct(s, key),
    ensures
        keys_distinct(s.filter(p), key),
    decreases s.len(),
{
    reveal(Seq::filter);
    if s.len() > 0 {
        let rest = s.drop_last();
        assert forall|i: int, j: int| 0 <= i < j < rest.len() implies key(#[trigger] rest[i]) != key(#[trigger] rest[j]) by {
            assert(rest[i] == s[i] && rest[j] == s[j]);
        }
        lemma_filter_keys_distinct(rest, p, key);
        let fr = rest.filter(p);
        if p(s.last()) {
            assert forall|i: int| 0 <= i < fr.len() implies key(fr[i]) != key(s.last()) by {
                assert(fr.contains(fr[i]));
                rest.lemma_filter_contains_rev(p, fr[i]);
                let k = choose|k: int| 0 <= k < rest.len() && rest[k] == fr[i];
                assert(s[k] == rest[k]);
                assert(s[s.len() - 1] == s.last());
            }
            let out = fr.push(s.last());
            assert forall|i: int, j: int| 0 <= i < j < out.len() implies key(#[trigger] out[i]) != key(#[trigger] out[j]) by {
                assert(out[i] == fr[i]);
                if j < out.len() - 1 {
                    assert(out[j] == fr[j]);
                }
            }
        }
    }
}

/// Filtering by `q` after `p` is filtering by `q` alone when `q` implies
/// `p`.
proof fn lemma_filter_filter<A>(s: Seq<A>, p: spec_fn(A) -> bool, q: spec_fn(A) -> bool)
    requires
        forall|x: A| #[trigger] q(x) ==> p(x),
    ensures
        s.filter(p).filter(q) == s.filter(q),
    decreases s.len(),
{
    reveal(Seq::filter);
    if s.len() > 0 {
        let rest = s.drop_last();
        lemma_filter_filter(rest, p, q);
        if p(s.last()) {
            let t = rest.filter(p).push(s.last());
            assert(t.drop_last() =~= rest.filter(p));
        }
    }
}

/// GrabButton keeps at most one passive button grab per (window, button,
/// modifiers): a grab with the new grab's triple is replaced.
pub proof fn grab_button_keeps_triples_distinct(grabs: Seq<PassiveButtonGrab>, g: PassiveButtonGrab)
    requires
        keys_distinct(grabs, button_triple()),
    ensures
        keys_distinct(button_grabs_with(grabs, g), button_triple()),
{
    let p = keeps_button_grab(g.grab_window, g.button, g.modifiers, false);
    let fr = grabs.filter(p);
    lemma_filter_keys_distinct(grabs, p, button_triple());
    let out = button_grabs_with(grabs, g);
    assert forall|i: int, j: int| 0 <= i < j < out.len() implies button_triple()(#[trigger] out[i]) != button_triple()(#[trigger] out[j]) by {
        assert(out[j] == fr[j - 1]);
        grabs.lemma_filter_pred(p, j - 1);
        if i > 0 {
            assert(out[i] == fr[i - 1]);
        }
    }
}

/// UngrabButton keeps passive button grabs distinct by triple.
pub proof fn ungrab_button_keeps_triples_distinct(grabs: Seq<PassiveButtonGrab>, window: u32, button: u8, modifiers: u16)
    requires
        keys_distinct(grabs, button_triple()),
    ensures
        keys_distinct(button_grabs_without(grabs, window, button, modifiers), button_triple()),
{
    lemma_filter_keys_distinct(grabs, keeps_button_grab(window, button, modifiers, button == 0 && modifiers == 0x8000), button_triple());
}

/// GrabKey keeps at most one passive key grab per (window, key,
/// modifiers): a grab with the new grab's triple is replaced.
pub proof fn grab_key_keeps_triples_distinct(grabs: Seq<PassiveKeyGrab>, g: PassiveKeyGrab)
    requires
        keys_distinct(grabs, key_triple()),
    ensures
        keys_distinct(key_grabs_with(grabs, g), key_triple()),
{
    let p = keeps_key_grab(g.grab_window, g.key, g.modifiers, false);
    let fr = grabs.filter(p);
    lemma_filter_keys_distinct(grabs, p, key_triple());
    let out = key_grabs_with(grabs, g);
    assert forall|i: int, j: int| 0 <= i < j < out.len() implies key_triple()(#[trigger] out[i]) != key_triple()(#[trigger] out[j]) by {
        assert(out[j] == fr[j - 1]);
        grabs.lemma_filter_pred(p, j - 1);
        if i > 0 {
            assert(out[i] == fr[i - 1]);
        }
    }
}

/// UngrabKey keeps passive key grabs distinct by triple.
pub proof fn ungrab_key_keeps_triples_distinct(grabs: Seq<PassiveKeyGrab>, window: u32, key: u8, modifiers: u16)
    requires
        keys_distinct(grabs, key_triple()),
    ensures
        keys_distinct(key_grabs_without(grabs, window, key, modifiers), key_triple()),
{
    lemma_filter_keys_distinct(grabs, keeps_key_grab(window, key, modifiers, key == 0 && modifiers == 0x8000), key_triple());
}

/// The most recently established passive button grab wins: a press that
/// it matches in its window finds it first.
pub proof fn newest_button_grab_wins(grabs: Seq<PassiveButtonGrab>, g: PassiveButtonGrab, button: u8, modifiers: u16)
    requires
        button_grab_matches(g, g.grab_window, button, modifiers),
    ensures
        first_button_grab(button_grabs_with(grabs, g), 0, g.grab_window, button, modifiers) == Some(g),
{
}

/// The most recently established passive key grab wins: a press that it
/// matches in its window finds it first.
pub proof fn newest_key_grab_wins(grabs: Seq<PassiveKeyGrab>, g: PassiveKeyGrab, key: u8, modifiers: u16)
    requires
        key_grab_matches(g, g.grab_window, key, modifiers),
    ensures
        first_key_grab(key_grabs_with(grabs, g), 0, g.grab_window, key, modifiers) == Some(g),
{
}

/// UngrabButton on the triple of a grab just established removes it again:
/// the result is what the UngrabButton alone leaves of the earlier grabs.
pub proof fn ungrab_button_undoes_grab_button(grabs: Seq<PassiveButtonGrab>, g: PassiveButtonGrab)
    ensures
        button_grabs_without(button_grabs_with(grabs, g), g.grab_window, g.button, g.modifiers)
            == button_grabs_without(grabs, g.grab_window, g.button, g.modifiers),
{
    let p = keeps_button_grab(g.grab_window, g.button, g.modifiers, false);
    let q = keeps_button_grab(g.grab_window, g.button, g.modifiers, g.button == 0 && g.modifiers == 0x8000);
    reveal(Seq::filter);
    assert(seq![g].filter(q) =~= Seq::<PassiveButtonGrab>::empty()) by {
        assert(!q(g));
        assert(seq![g].last() == g);
        assert(seq![g].drop_last() =~= Seq::<PassiveButtonGrab>::empty());
        assert(Seq::<PassiveButtonGrab>::empty().filter(q) =~= Seq::<PassiveButtonGrab>::empty());
    }
    Seq::filter_distributes_over_add(seq![g], grabs.filter(p), q);
    lemma_filter_filter(grabs, p, q);
    assert(seq![g].filter(q) + grabs.filter(q) =~= grabs.filter(q));
}

/// UngrabKey on the triple of a grab just established removes it again:
/// the result is what the UngrabKey alone leaves of the earlier grabs.
pub proof fn ungrab_key_undoes_grab_key(grabs: Seq<PassiveKeyGrab>, g: PassiveKeyGrab)
    ensures
        key_grabs_without(key_grabs_with(grabs, g), g.grab_window, g.key, g.modifiers)
            == key_grabs_without(grabs, g.grab_window, g.key, g.modifiers),
{
    let p = keeps_key_grab(g.grab_window, g.key, g.modifiers, false);
    let q = keeps_key_grab(g.grab_window, g.key, g.modifiers, g.key == 0 && g.modifiers == 0x8000);
    reveal(Seq::filter);
    assert(seq![g].filter(q) =~= Seq::<PassiveKeyGrab>::empty()) by {
        assert(!q(g));
        assert(seq![g].last() == g);
        assert(seq![g].drop_last() =~= Seq::<PassiveKeyGrab>::empty());
        assert(Seq::<PassiveKeyGrab>::empty().filter(q) =~= Seq::<PassiveKeyGrab>::empty());
    }
    Seq::filter_distributes_over_add(seq![g], grabs.filter(p), q);
    lemma_filter_filter(grabs, p, q);
    assert(seq![g].filter(q) + grabs.filter(q) =~= grabs.filter(q));
}

/// A frozen-event queue never grows beyond its bound.
pub proof fn frozen_queue_stays_bounded(queue: Seq<Vec<u8>>, after: Seq<Vec<u8>>, event: Seq<u8>)
    requires
        queue.len() <= MAX_FROZEN_EVENTS,
        queued_frozen(queue, after, event),
    ensures
        after.len() <= MAX_FROZEN_EVENTS,
{
    assert(after.drop_last().len() == after.len() - 1);
}

/// UngrabServer undoes GrabServer: the nesting depth is back where it was,
/// the lock was taken for this client, and it is freed again exactly when
/// that grab was the outermost one.
pub proof fn ungrab_server_undoes_grab_server(
    s0: ClientState,
    s1: ClientState,
    s2: ClientState,
    d1: Seq<u8>,
    d2: Seq<u8>,
    seq1: u16,
    seq2: u16,
    out1: Seq<u8>,
    out2: Seq<u8>,
)
    requires
        s0.grabs.server_grab_count < u32::MAX,
        grab_server_done(s0, s1, d1, seq1, out1),
        ungrab_server_done(s1, s2, d2, seq2, out2),
    ensures
        s2.grabs.server_grab_count == s0.grabs.server_grab_count,
        s2.grabs@ == s0.grabs@,
        s2.server_grab_changes@ == (if s0.grabs.server_grab_count == 0 {
            s0.server_grab_changes@.push(ServerGrabChange::Hold).push(ServerGrabChange::Release)
        } else {
            s0.server_grab_changes@.push(ServerGrabChange::Hold)
        }),
        s2 == (ClientState { grabs: s2.grabs, server_grab_changes: s2.server_grab_changes, ..s0 }),
{
}

/// UngrabPointer undoes a granted GrabPointer: the grab is gone, the
/// pointer is thawed with its frozen events delivered, and only a keyboard
/// freeze the grab asked for stays.
pub proof fn ungrab_pointer_undoes_grab_pointer(s0: ClientState, s1: ClientState, s2: ClientState, grab: ActivePointerGrab)
    requires
        pointer_grab_activated(s0, s1, grab),
        pointer_grab_released(s1, s2, true),
    ensures
        s2.grabs@ == (GrabView {
            pointer_grab: None,
            keyboard_frozen: s0.grabs.keyboard_frozen || grab.keyboard_mode == 1,
            pointer_frozen: false,
            frozen_pointer_events: Seq::empty(),
            ..s0.grabs@
        }),
        s2.pending_events@ == s0.pending_events@ + s0.grabs.frozen_pointer_events@,
        s2.last_entered_window == (if grab.grab_window == s0.root_window { grab.grab_window } else { s0.root_window }),
{
    assert(s1.grabs@.frozen_pointer_events == s0.grabs@.frozen_pointer_events);
}

/// After SyncPointer the pointer delivers exactly one event and freezes
/// again: the next event is queued.
pub proof fn sync_pointer_delivers_one_event(
    s0: ClientState,
    s1: ClientState,
    s2: ClientState,
    s3: ClientState,
    first: Seq<u8>,
    second: Seq<u8>,
)
    requires
        events_allowed(s0, s1, 1),
        pointer_event_checked(s1, s2, first),
        pointer_event_checked(s2, s3, second),
    ensures
        !s1.grabs.pointer_frozen,
        s2.grabs.pointer_frozen,
        s3.grabs.frozen_pointer_events@ == seq![s3.grabs.frozen_pointer_events@.last()],
        s3.grabs.frozen_pointer_events@.last()@ == second,
{
    assert(s1.grabs@ == thawed(s0.grabs@, 1));
    assert(s3.grabs.frozen_pointer_events@.drop_last() =~= Seq::<Vec<u8>>::empty());
    assert(s3.grabs.frozen_pointer_events@ =~= seq![s3.grabs.frozen_pointer_events@.last()]);
}

/// AllowEvents loses and duplicates no event: the pending events and both
/// frozen queues hold the same events before and after.
pub proof fn allow_events_conserves_events(before: ClientState, after: ClientState, mode: u8)
    requires
        events_allowed(before, after, mode),
        mode != 2 && mode != 5,
    ensures
        (after.pending_events@ + after.grabs.frozen_pointer_events@ + after.grabs.frozen_keyboard_events@).to_multiset()
            == (before.pending_events@ + before.grabs.frozen_pointer_events@ + before.grabs.frozen_keyboard_events@).to_multiset(),
{
    broadcast use vstd::seq_lib::lemma_multiset_commutative;
    broadcast use vstd::multiset::group_multiset_axioms;

    let p = before.pending_events@;
    let fp = before.grabs.frozen_pointer_events@;
    let fk = before.grabs.frozen_keyboard_events@;
    let e = Seq::<Vec<u8>>::empty();
    if mode <= 7 {
        assert((after.pending_events@ + after.grabs.frozen_pointer_events@ + after.grabs.frozen_keyboard_events@).to_multiset()
            =~= p.to_multiset().add(fp.to_multiset()).add(fk.to_multiset()));
    }
    assert((p + fp + fk).to_multiset() =~= p.to_multiset().add(fp.to_multiset()).add(fk.to_multiset()));
}

/// A confined pointer grab keeps the pointer inside the confine bounds,
/// and leaves a position already inside them unchanged.
pub proof fn confined_pointer_stays_inside(s: ClientState, x: i16, y: i16)
    requires
        s.grabs.pointer_grab matches Some(g) && g.confine_bounds matches Some((x1, y1, x2, y2)) && x1 < x2 && y1 < y2,
    ensures
        ({
            let (x1, y1, x2, y2) = s.grabs.pointer_grab->0.confine_bounds->0;
            let (cx, cy) = confined(s, x, y);
            &&& x1 <= cx < x2
            &&& y1 <= cy < y2
            &&& (x1 <= x < x2 ==> cx == x)
            &&& (y1 <= y < y2 ==> cy == y)
        }),
{
}


/// A passive button grab that a press activates becomes the active pointer
/// grab with the passive grab's window, event mask, modes, cursor and
/// owner-events; a synchronous mode freezes its device. It confines the
/// pointer as GrabPointer does for the same confine-to window: to the whole screen
/// when it is the root window, to that window's screen bounds when it is
/// another window, and not at all for None.
pub proof fn activated_button_grab_confines_pointer(
    s: ClientState,
    t: ClientState,
    window: u32,
    button: u8,
    modifiers: u16,
    g: PassiveButtonGrab,
)
    requires
        passive_button_grab_for(s, window, button, modifiers, MAX_TREE_DEPTH as nat) == Some(g),
        passive_pointer_grab_activated(s, t, activated_button_grab(s, g)),
    ensures
        t.grabs@.pointer_frozen == (s.grabs.pointer_frozen || g.pointer_mode == 1),
        t.grabs@.keyboard_frozen == (s.grabs.keyboard_frozen || g.keyboard_mode == 1),
        t.grabs@.pointer_grab matches Some(p) && {
            &&& p.grab_window == g.grab_window
            &&& p.event_mask == g.event_mask
            &&& p.pointer_mode == g.pointer_mode
            &&& p.keyboard_mode == g.keyboard_mode
            &&& p.cursor == g.cursor
            &&& p.owner_events == g.owner_events
            &&& p.confine_to == g.confine_to
            &&& (g.confine_to == 0 ==> p.confine_bounds is None)
            &&& (g.confine_to != 0 && g.confine_to == s.root_window ==> p.confine_bounds == Some(
                (0i16, 0i16, s.screen_width as i16, s.screen_height as i16),
            ))
            &&& (g.confine_to != 0 && g.confine_to != s.root_window ==> p.confine_bounds == abs_bounds(
                s.windows@,
                g.confine_to,
                s.root_window,
            ))
        },
{
}

/// The confinement a passive button grab gets on activation is the one a
/// GrabPointer request naming the same confine-to window gets.
pub proof fn activated_button_grab_confines_like_grab_pointer(s: ClientState, g: PassiveButtonGrab, d: Seq<u8>)
    requires
        d.len() >= 24,
        field32(d, 12, s.msb_first) == g.confine_to,
    ensures
        activated_button_grab(s, g).confine_bounds == requested_pointer_grab(s, d).confine_bounds,
        g.confine_to != 0 && g.confine_to == s.root_window ==> activated_button_grab(s, g).confine_bounds is Some,
{
}

/// A window's screen bounds are its rectangle moved by its ancestors'
/// positions: a window whose parent is the root lies where its own
/// position says; a window inside such a window is moved by that window's
/// position (16-bit wrap-around); an unknown window has no bounds. The far
/// corner is the near one plus the size, clamped to 16 bits.
pub proof fn window_bounds_add_ancestor_positions(windows: Map<u32, WindowState>, wid: u32, root: u32)
    ensures
        !windows.contains_key(wid) ==> abs_bounds(windows, wid, root) is None,
        windows.contains_key(wid) && windows[wid].parent == root ==> ({
            let w = windows[wid];
            abs_bounds(windows, wid, root) == Some((w.x, w.y, sat_add16(w.x, w.width as i16), sat_add16(w.y, w.height as i16)))
        }),
        windows.contains_key(wid) && windows[wid].parent != root && windows[wid].parent != 0 && windows.contains_key(
            windows[wid].parent,
        ) && windows[windows[wid].parent].parent == root ==> ({
            let w = windows[wid];
            let p = windows[w.parent];
            let x = w.x.wrapping_add(p.x);
            let y = w.y.wrapping_add(p.y);
            abs_bounds(windows, wid, root) == Some((x, y, sat_add16(x, w.width as i16), sat_add16(y, w.height as i16)))
        }),
{
    if windows.contains_key(wid) {
        let w = windows[wid];
        let p = w.parent;
        if p != root && p != 0 && windows.contains_key(p) && windows[p].parent == root {
            let fuel = MAX_TREE_DEPTH as nat;
            assert(with_ancestor_offsets(windows, p, root, fuel, w.x, w.y) == with_ancestor_offsets(
                windows,
                root,
                root,
                (fuel - 1) as nat,
                w.x.wrapping_add(windows[p].x),
                w.y.wrapping_add(windows[p].y),
            ));
        }
    }
}
} // verus!
