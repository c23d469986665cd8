//! QueryPointer (opcode 38), GetMotionEvents (opcode 39),
//! TranslateCoordinates (opcode 40) and the Bell volume (opcode 104):
//! window origins found by walking up to the root, the child window under
//! a point, and the pointer's motion history. The requests are parsed by x11rb-protocol, which reads the fields
//! in the machine's own byte order.

use crate::grab::{sat_add16, saturating_add_i16, with_ancestor_offsets, MAX_TREE_DEPTH};
use crate::state::{ClientState, WindowState, BAD_LENGTH};
use crate::wire::{build_error, build_reply, bytes16, bytes32, error_packet, field16, field32, push_u16, push_u32, push_zeros, reply_packet, zeros};
use std::collections::HashMap;
use vstd::prelude::*;
use vstd::std_specs::iter::IteratorSpec;
use x11rb_protocol::errors::ParseError;
use x11rb_protocol::protocol::xproto::{
    GetMotionEventsRequest, QueryPointerRequest, TranslateCoordinatesRequest, WarpPointerRequest,
};
use x11rb_protocol::x11_utils::RequestHeader;

verus! {

broadcast use vstd::std_specs::hash::group_hash_axioms;

/// The origin of window `w` on the screen: the sum of its own and its
/// ancestors' positions up to the root, with 16-bit wrap-around.
pub open spec fn origin_of(windows: Map<u32, WindowState>, w: u32, root: u32) -> (i16, i16) {
    with_ancestor_offsets(windows, w, root, MAX_TREE_DEPTH as nat, 0, 0)
}

/// A child of `parent` contains (`x`, `y`); its right and bottom edges are
/// the position plus the size, saturating or wrapping at 16 bits.
pub open spec fn child_contains(w: WindowState, parent: u32, x: i16, y: i16, saturating: bool) -> bool {
    let right: i16 = if saturating { sat_add16(w.x, w.width as i16) } else { w.x.wrapping_add(w.width as i16) };
    let bottom: i16 = if saturating { sat_add16(w.y, w.height as i16) } else { w.y.wrapping_add(w.height as i16) };
    w.parent == parent && w.x <= x && x < right && w.y <= y && y < bottom
}

/// The child of `parent` under (`x`, `y`): the lowest-numbered window
/// that contains it, or 0.
#[verifier::opaque]
pub open spec fn child_at(windows: Map<u32, WindowState>, parent: u32, x: i16, y: i16, saturating: bool) -> u32 {
    if exists|id: u32| windows.contains_key(id) && child_contains(windows[id], parent, x, y, saturating) {
        choose|id: u32|
            windows.contains_key(id) && child_contains(windows[id], parent, x, y, saturating) && forall|c: u32|
                windows.contains_key(c) && child_contains(windows[c], parent, x, y, saturating) ==> id <= c
    } else {
        0
    }
}

/// Find the child of `parent` under a point.
fn find_child(windows: &HashMap<u32, WindowState>, parent: u32, x: i16, y: i16, saturating: bool) -> (r: u32)
    ensures
        r == child_at(windows@, parent, x, y, saturating),
{
    let mut best: Option<u32> = None;
    let ghost m = windows@;
    for k in it: windows.keys()
        invariant
            m == windows@,
            it.seq() == vstd::std_specs::hash::spec_keys_iter(windows).remaining(),
            match best {
                Some(b) => m.contains_key(b) && child_contains(m[b], parent, x, y, saturating) && forall|j: int|
                    0 <= j < it.index() ==> #[trigger] child_contains(m[*it.seq()[j]], parent, x, y, saturating) ==> b
                        <= *it.seq()[j],
                None => forall|j: int|
                    0 <= j < it.index() ==> !#[trigger] child_contains(m[*it.seq()[j]], parent, x, y, saturating),
            },
            forall|j: int| 0 <= j < it.index() ==> m.contains_key(*#[trigger] it.seq()[j]),
    {
        match windows.get(k) {
            Some(wr) => {
                let w = *wr;
                let right = if saturating { saturating_add_i16(w.x, w.width as i16) } else { w.x.wrapping_add(w.width as i16) };
                let bottom = if saturating { saturating_add_i16(w.y, w.height as i16) } else { w.y.wrapping_add(w.height as i16) };
                if w.parent == parent && w.x <= x && x < right && w.y <= y && y < bottom {
                    best = match best {
                        Some(b) => if *k < b { Some(*k) } else { Some(b) },
                        None => Some(*k),
                    };
                }
            },
            None => {},
        }
    }
    proof {
        reveal(child_at);
        vstd::std_specs::hash::axiom_spec_keys_iter(windows);
        let keys = vstd::std_specs::hash::spec_keys_iter(windows).remaining();
        assert forall|c: u32| m.contains_key(c) implies exists|j: int| 0 <= j < keys.len() && *keys[j] == c by {
            assert(keys.unref().to_set().contains(c));
            assert(keys.unref().contains(c));
            let j = choose|j: int| 0 <= j < keys.unref().len() && keys.unref()[j] == c;
            assert(*keys[j] == c);
        }
        match best {
            Some(b) => {
                assert forall|c: u32| m.contains_key(c) && child_contains(m[c], parent, x, y, saturating) implies b <= c by {
                    let j = choose|j: int| 0 <= j < keys.len() && *keys[j] == c;
                    assert(child_contains(m[*keys[j]], parent, x, y, saturating));
                }
                let w = choose|id: u32|
                    m.contains_key(id) && child_contains(m[id], parent, x, y, saturating) && forall|c: u32|
                        m.contains_key(c) && child_contains(m[c], parent, x, y, saturating) ==> id <= c;
                assert(w == b);
            },
            None => {
                assert forall|c: u32| m.contains_key(c) implies !child_contains(m[c], parent, x, y, saturating) by {
                    let j = choose|j: int| 0 <= j < keys.len() && *keys[j] == c;
                    assert(!child_contains(m[*keys[j]], parent, x, y, saturating));
                }
            },
        }
    }
    match best {
        Some(b) => b,
        None => 0,
    }
}

/// Compute the origin of a window.
fn window_origin(windows: &HashMap<u32, WindowState>, w: u32, root: u32) -> (r: (i16, i16))
    ensures
        r == origin_of(windows@, w, root),
{
    let mut ax: i16 = 0;
    let mut ay: i16 = 0;
    let mut cur = w;
    let mut i: usize = 0;
    while i < MAX_TREE_DEPTH
        invariant
            i <= MAX_TREE_DEPTH,
            origin_of(windows@, w, root) == with_ancestor_offsets(windows@, cur, root, (MAX_TREE_DEPTH - i) as nat, ax, ay),
        ensures
            origin_of(windows@, w, root) == (ax, ay),
        decreases MAX_TREE_DEPTH - i,
    {
        if cur == root || cur == 0 {
            break;
        }
        match windows.get(&cur) {
            Some(p) => {
                ax = ax.wrapping_add(p.x);
                ay = ay.wrapping_add(p.y);
                cur = p.parent;
            },
            None => {
                break;
            },
        }
        i = i + 1;
    }
    (ax, ay)
}

/// Parse QueryPointer with
/// `x11rb_protocol::protocol::xproto::QueryPointerRequest::try_parse_request`.
/// Claimed: with at least 8 bytes it succeeds exactly when the major
/// opcode is 38, giving the window read in the machine's byte order, one
/// of the two.
#[verifier::external_body]
fn parse_query_pointer(data: &[u8]) -> (r: Result<u32, ParseError>)
    requires
        data@.len() >= 8,
    ensures
        r is Ok <==> data@[0] == 38,
        r matches Ok(w) ==> w == field32(data@, 4, false) || w == field32(data@, 4, true),
{
    let header = RequestHeader { major_opcode: data[0], minor_opcode: data[1], remaining_length: 0 };
    QueryPointerRequest::try_parse_request(header, &data[4..]).map(|q| q.window)
}

/// The QueryPointer reply for `window`: same screen, the root, the child
/// under the pointer, the pointer on the root and relative to the window,
/// and the modifier and button mask.
pub open spec fn query_pointer_reply(s: ClientState, window: u32, modifiers: u16, seq: u16) -> Seq<u8> {
    let msb = s.msb_first;
    let o = origin_of(s.windows@, window, s.root_window);
    let wx = s.pointer_x.wrapping_sub(o.0);
    let wy = s.pointer_y.wrapping_sub(o.1);
    reply_packet(1, seq, bytes32(s.root_window, msb) + bytes32(child_at(s.windows@, window, wx, wy, true), msb)
        + bytes16(s.pointer_x as u16, msb) + bytes16(s.pointer_y as u16, msb) + bytes16(wx as u16, msb) + bytes16(
        wy as u16,
        msb,
    ) + bytes16(modifiers | s.pointer_button_mask, msb) + zeros(6), msb)
}

/// Answer QueryPointer for a parsed window; `modifiers` are the keyboard's
/// effective modifiers.
pub fn query_pointer(state: &ClientState, window: u32, modifiers: u16, seq: u16) -> (r: Vec<u8>)
    ensures
        r@ == query_pointer_reply(*state, window, modifiers, seq),
{
    let msb = state.msb_first;
    let (ox, oy) = window_origin(&state.windows, window, state.root_window);
    let wx = state.pointer_x.wrapping_sub(ox);
    let wy = state.pointer_y.wrapping_sub(oy);
    let child = find_child(&state.windows, window, wx, wy, true);
    let mut body: Vec<u8> = Vec::new();
    push_u32(&mut body, state.root_window, msb);
    push_u32(&mut body, child, msb);
    push_u16(&mut body, state.pointer_x as u16, msb);
    push_u16(&mut body, state.pointer_y as u16, msb);
    push_u16(&mut body, wx as u16, msb);
    push_u16(&mut body, wy as u16, msb);
    push_u16(&mut body, modifiers | state.pointer_button_mask, msb);
    push_zeros(&mut body, 6);
    build_reply(1, seq, body.as_slice(), msb)
}

/// QueryPointer (opcode 38): the client has now seen the pointer, so a
/// held-back motion hint is released; BadLength for a request shorter than
/// 8 bytes or one that does not parse; otherwise the reply for the window
/// read in the machine's byte order.
pub fn handle_query_pointer(state: &mut ClientState, data: &[u8], seq: u16, modifiers: u16) -> (r: Vec<u8>)
    ensures
        *final(state) == (ClientState { motion_hint_suppressed: false, ..*old(state) }),
        data@.len() < 8 || data@[0] != 38 ==> r@ == error_packet(BAD_LENGTH, seq, 0, 38, 0, false),
        data@.len() >= 8 && data@[0] == 38 ==> exists|msb: bool|
            r@ == query_pointer_reply(*final(state), #[trigger] field32(data@, 4, msb), modifiers, seq),
{
    state.motion_hint_suppressed = false;
    if data.len() < 8 {
        return build_error(BAD_LENGTH, seq, 0, 38, 0);
    }
    match parse_query_pointer(data) {
        Ok(window) => {
            let ghost big = window == field32(data@, 4, true);
            let r = query_pointer(state, window, modifiers, seq);
            assert(window == field32(data@, 4, big));
            r
        },
        Err(_) => build_error(BAD_LENGTH, seq, 0, 38, 0),
    }
}

/// A parsed TranslateCoordinates request: source window, destination
/// window, x, y.
pub type Translation = (u32, u32, i16, i16);

/// The TranslateCoordinates fields read in one byte order.
pub open spec fn translation_fields(d: Seq<u8>, msb: bool) -> Translation {
    (field32(d, 4, msb), field32(d, 8, msb), field16(d, 12, msb) as i16, field16(d, 14, msb) as i16)
}

/// Parse TranslateCoordinates with
/// `x11rb_protocol::protocol::xproto::TranslateCoordinatesRequest::try_parse_request`.
/// Claimed: with at least 16 bytes it succeeds exactly when the major
/// opcode is 40, giving the fields read in the machine's byte order, one of
/// the two.
#[verifier::external_body]
fn parse_translate_coordinates(data: &[u8]) -> (r: Result<Translation, ParseError>)
    requires
        data@.len() >= 16,
    ensures
        r is Ok <==> data@[0] == 40,
        r matches Ok(t) ==> t == translation_fields(data@, false) || t == translation_fields(data@, true),
{
    let header = RequestHeader { major_opcode: data[0], minor_opcode: data[1], remaining_length: 0 };
    TranslateCoordinatesRequest::try_parse_request(header, &data[4..]).map(|q| (q.src_window, q.dst_window, q.src_x, q.src_y))
}

/// The point of the source window in the destination window's
/// coordinates.
pub open spec fn translated_point(s: ClientState, t: Translation) -> (i16, i16) {
    let os = origin_of(s.windows@, t.0, s.root_window);
    let od = origin_of(s.windows@, t.1, s.root_window);
    (t.2.wrapping_add(os.0).wrapping_sub(od.0), t.3.wrapping_add(os.1).wrapping_sub(od.1))
}

/// The TranslateCoordinates reply: same screen, the child of the
/// destination window under the point, and the point.
pub open spec fn translate_reply(s: ClientState, t: Translation, seq: u16) -> Seq<u8> {
    let msb = s.msb_first;
    let p = translated_point(s, t);
    reply_packet(1, seq, bytes32(child_at(s.windows@, t.1, p.0, p.1, false), msb) + bytes16(p.0 as u16, msb) + bytes16(
        p.1 as u16,
        msb,
    ) + zeros(16), msb)
}

/// Answer a parsed TranslateCoordinates request.
pub fn translate_coordinates(state: &ClientState, t: Translation, seq: u16) -> (r: Vec<u8>)
    ensures
        r@ == translate_reply(*state, t, seq),
{
    let msb = state.msb_first;
    let (src, dst, x, y) = t;
    let (sx, sy) = window_origin(&state.windows, src, state.root_window);
    let (dx, dy) = window_origin(&state.windows, dst, state.root_window);
    let px = x.wrapping_add(sx).wrapping_sub(dx);
    let py = y.wrapping_add(sy).wrapping_sub(dy);
    let child = find_child(&state.windows, dst, px, py, false);
    let mut body: Vec<u8> = Vec::new();
    push_u32(&mut body, child, msb);
    push_u16(&mut body, px as u16, msb);
    push_u16(&mut body, py as u16, msb);
    push_zeros(&mut body, 16);
    build_reply(1, seq, body.as_slice(), msb)
}

/// What TranslateCoordinates answers `req` with, and the client state it leaves.
pub open spec fn translate_coordinates_done(pre: ClientState, post: ClientState, req: Seq<u8>, seq: u16, out: Seq<u8>) -> bool {
    &&& (req.len() < 16 || req[0] != 40 ==> out == error_packet(BAD_LENGTH, seq, 0, 40, 0, false))
    &&& (req.len() >= 16 && req[0] == 40 ==> exists|msb: bool|
            out == translate_reply(pre, #[trigger] translation_fields(req, msb), seq))
}

/// TranslateCoordinates (opcode 40): BadLength for a request shorter than
/// 16 bytes or one that does not parse; otherwise the reply for the fields
/// read in the machine's byte order.
pub fn handle_translate_coordinates(state: &ClientState, data: &[u8], seq: u16) -> (r: Vec<u8>)
    ensures
        translate_coordinates_done(*state, *state, data@, seq, r@),
{
    if data.len() < 16 {
        return build_error(BAD_LENGTH, seq, 0, 40, 0);
    }
    match parse_translate_coordinates(data) {
        Ok(t) => {
            let ghost big = t == translation_fields(data@, true);
            let r = translate_coordinates(state, t, seq);
            assert(t == translation_fields(data@, big));
            r
        },
        Err(_) => build_error(BAD_LENGTH, seq, 0, 40, 0),
    }
}


/// Parse GetMotionEvents with
/// `x11rb_protocol::protocol::xproto::GetMotionEventsRequest::try_parse_request`.
/// Claimed: with at least 16 bytes it succeeds exactly when the major
/// opcode is 39, giving the start and stop times read in the machine's
/// byte order, one of the two.
#[verifier::external_body]
fn parse_get_motion_events(data: &[u8]) -> (r: Result<(u32, u32), ParseError>)
    requires
        data@.len() >= 16,
    ensures
        r is Ok <==> data@[0] == 39,
        r matches Ok(t) ==> t == (field32(data@, 8, false), field32(data@, 12, false)) || t == (field32(data@, 8, true),
            field32(data@, 12, true)),
{
    let header = RequestHeader { major_opcode: data[0], minor_opcode: data[1], remaining_length: 0 };
    GetMotionEventsRequest::try_parse_request(header, &data[4..]).map(|q| (q.start, q.stop))
}

/// A history entry lies in the time range (0 leaves an end open).
pub open spec fn in_time_range(e: (u32, i16, i16), start: u32, stop: u32) -> bool {
    (start == 0 || e.0 >= start) && (stop == 0 || e.0 <= stop)
}

/// The encoded history entries: time, x, y.
pub open spec fn motion_entries(events: Seq<(u32, i16, i16)>, msb: bool) -> Seq<u8>
    decreases events.len(),
{
    if events.len() == 0 {
        Seq::empty()
    } else {
        let e = events.last();
        motion_entries(events.drop_last(), msb) + bytes32(e.0, msb) + bytes16(e.1 as u16, msb) + bytes16(e.2 as u16, msb)
    }
}

/// The GetMotionEvents reply: the count and the entries in the range, in
/// order.
pub open spec fn motion_events_reply(s: ClientState, start: u32, stop: u32, seq: u16) -> Seq<u8> {
    let events = s.motion_history@.filter(|e: (u32, i16, i16)| in_time_range(e, start, stop));
    reply_packet(0, seq, bytes32(events.len() as u32, s.msb_first) + zeros(20) + motion_entries(events, s.msb_first), s.msb_first)
}

/// Answer GetMotionEvents for a parsed time range.
pub fn motion_events(state: &ClientState, start: u32, stop: u32, seq: u16) -> (r: Vec<u8>)
    requires
        state.motion_history@.len() <= 0x1000_0000,
    ensures
        r@ == motion_events_reply(*state, start, stop, seq),
{
    let msb = state.msb_first;
    let ghost keep = |e: (u32, i16, i16)| in_time_range(e, start, stop);
    let hist = &state.motion_history;
    let mut entries: Vec<u8> = Vec::new();
    let mut n: u32 = 0;
    let mut i: usize = 0;
    while i < hist.len()
        invariant
            i <= hist@.len() <= 0x1000_0000,
            hist == &state.motion_history,
            keep == (|e: (u32, i16, i16)| in_time_range(e, start, stop)),
            n as int == hist@.subrange(0, i as int).filter(keep).len(),
            n <= i,
            entries@ == motion_entries(hist@.subrange(0, i as int).filter(keep), msb),
        decreases hist@.len() - i,
    {
        let e = hist[i];
        let inside = (start == 0 || e.0 >= start) && (stop == 0 || e.0 <= stop);
        let ghost before = hist@.subrange(0, i as int).filter(keep);
        if inside {
            push_u32(&mut entries, e.0, msb);
            push_u16(&mut entries, e.1 as u16, msb);
            push_u16(&mut entries, e.2 as u16, msb);
            n = n + 1;
        }
        proof {
            reveal(Seq::filter);
            let s1 = hist@.subrange(0, i + 1);
            assert(s1.drop_last() =~= hist@.subrange(0, i as int));
            assert(s1.last() == e);
            assert(keep(e) == inside);
            if inside {
                assert(s1.filter(keep) == before.push(e));
                assert(before.push(e).drop_last() =~= before);
                assert(entries@ =~= motion_entries(before.push(e), msb));
            }
        }
        i = i + 1;
    }
    assert(hist@.subrange(0, hist@.len() as int) =~= hist@);
    let ghost events = hist@.filter(keep);
    proof {
        lemma_motion_entries_len(events, msb);
    }
    let mut body: Vec<u8> = Vec::new();
    push_u32(&mut body, n, msb);
    push_zeros(&mut body, 20);
    let mut k: usize = 0;
    while k < entries.len()
        invariant
            k <= entries@.len(),
            body@ == bytes32(n, msb) + zeros(20) + entries@.subrange(0, k as int),
        decreases entries@.len() - k,
    {
        body.push(entries[k]);
        assert(body@ =~= bytes32(n, msb) + zeros(20) + entries@.subrange(0, k + 1));
        k = k + 1;
    }
    assert(entries@.subrange(0, entries@.len() as int) =~= entries@);
    build_reply(0, seq, body.as_slice(), msb)
}

/// Each history entry takes eight bytes.
proof fn lemma_motion_entries_len(events: Seq<(u32, i16, i16)>, msb: bool)
    ensures
        motion_entries(events, msb).len() == 8 * events.len(),
    decreases events.len(),
{
    if events.len() > 0 {
        lemma_motion_entries_len(events.drop_last(), msb);
    }
}

/// What GetMotionEvents answers `req` with, and the client state it leaves.
pub open spec fn get_motion_events_done(pre: ClientState, post: ClientState, req: Seq<u8>, seq: u16, out: Seq<u8>) -> bool {
    &&& (post == (ClientState { motion_hint_suppressed: false, ..pre }))
    &&& (req.len() < 16 || req[0] != 39 ==> out == error_packet(BAD_LENGTH, seq, 0, 39, 0, false))
    &&& (req.len() >= 16 && req[0] == 39 ==> exists|msb: bool|
            out == motion_events_reply(post, #[trigger] field32(req, 8, msb), field32(req, 12, msb), seq))
}

/// GetMotionEvents (opcode 39): the client has now seen the pointer, so a
/// held-back motion hint is released; BadLength for a request shorter than
/// 16 bytes or one that does not parse; otherwise the reply for the time
/// range read in the machine's byte order.
pub fn handle_get_motion_events(state: &mut ClientState, data: &[u8], seq: u16) -> (r: Vec<u8>)
    requires
        old(state).motion_history@.len() <= 0x1000_0000,
    ensures
        get_motion_events_done(*old(state), *final(state), data@, seq, r@),
{
    state.motion_hint_suppressed = false;
    if data.len() < 16 {
        return build_error(BAD_LENGTH, seq, 0, 39, 0);
    }
    match parse_get_motion_events(data) {
        Ok((start, stop)) => {
            let ghost big = (start, stop) == (field32(data@, 8, true), field32(data@, 12, true));
            let r = motion_events(state, start, stop, seq);
            assert((start, stop) == (field32(data@, 8, big), field32(data@, 12, big)));
            r
        },
        Err(_) => build_error(BAD_LENGTH, seq, 0, 39, 0),
    }
}

/// The bell volume of a Bell request with `percent` (byte 1): 0 rings at
/// the base volume, 1 to 100 at that volume; past 100 the byte is taken as
/// signed and changes the base volume by that share (rounded toward
/// zero), kept within 0 to 100.
pub open spec fn bell_volume(base: u8, percent: u8) -> u8 {
    if percent == 0 {
        base
    } else if percent <= 100 {
        percent
    } else {
        let p: int = if percent < 128 { percent as int } else { percent - 256 };
        let delta: int = if p >= 0 { (base * p) / 100 } else { 0 - (base * (0 - p)) / 100 };
        let v = base + delta;
        if v < 0 { 0 } else if v > 100 { 100 } else { v as u8 }
    }
}

/// Bell (opcode 104): the volume to ring the bell at; a request without
/// byte 1 rings at the base volume.
pub fn handle_bell(state: &ClientState, data: &[u8]) -> (r: u8)
    ensures
        r == bell_volume(state.input.keyboard_control.bell_percent, if data@.len() >= 2 { data@[1] } else { 0 }),
{
    let percent = if data.len() >= 2 { data[1] } else { 0 };
    let base = state.input.keyboard_control.bell_percent;
    if percent == 0 {
        base
    } else if percent <= 100 {
        percent
    } else if percent < 128 {
        assert(base as u32 * percent as u32 <= 255 * 255) by (nonlinear_arith)
            requires
                base <= 255,
                percent <= 255,
        ;
        let v: u32 = base as u32 + (base as u32 * percent as u32) / 100;
        if v > 100 { 100 } else { v as u8 }
    } else {
        let down: u32 = 256 - percent as u32;
        assert(base as u32 * down <= 255 * 256) by (nonlinear_arith)
            requires
                base <= 255,
                down <= 256,
        ;
        let cut: u32 = (base as u32 * down) / 100;
        if (base as u32) < cut {
            0
        } else {
            let v = base as u32 - cut;
            if v > 100 { 100 } else { v as u8 }
        }
    }
}

// ---------------------------------------------------------------------------
// WarpPointer
// ---------------------------------------------------------------------------

/// A parsed WarpPointer request: source window, destination window,
/// source rectangle (x, y, width, height), destination offset (x, y).
pub type WarpRequest = (u32, u32, i16, i16, u16, u16, i16, i16);

/// The WarpPointer fields read in one byte order.
pub open spec fn warp_fields(d: Seq<u8>, msb: bool) -> WarpRequest {
    (
        field32(d, 4, msb),
        field32(d, 8, msb),
        field16(d, 12, msb) as i16,
        field16(d, 14, msb) as i16,
        field16(d, 16, msb),
        field16(d, 18, msb),
        field16(d, 20, msb) as i16,
        field16(d, 22, msb) as i16,
    )
}

/// Parse WarpPointer with
/// `x11rb_protocol::protocol::xproto::WarpPointerRequest::try_parse_request`.
/// Claimed: with at least 24 bytes it succeeds exactly when the major
/// opcode is 41, giving the fields read in the machine's byte order, one of
/// the two.
#[verifier::external_body]
fn parse_warp_pointer(data: &[u8]) -> (r: Result<WarpRequest, ParseError>)
    requires
        data@.len() >= 24,
    ensures
        r is Ok <==> data@[0] == 41,
        r matches Ok(q) ==> q == warp_fields(data@, false) || q == warp_fields(data@, true),
{
    let header = RequestHeader { major_opcode: data[0], minor_opcode: data[1], remaining_length: 0 };
    WarpPointerRequest::try_parse_request(header, &data[4..]).map(
        |q| (q.src_window, q.dst_window, q.src_x, q.src_y, q.src_width, q.src_height, q.dst_x, q.dst_y),
    )
}

/// The summed positions of window `cur` and its ancestors up to the root,
/// at most `fuel` of them, without wrap-around.
pub open spec fn ancestor_sum(windows: Map<u32, WindowState>, cur: u32, root: u32, fuel: nat) -> (int, int)
    decreases fuel,
{
    if fuel == 0 || cur == root || cur == 0 || !windows.contains_key(cur) {
        (0, 0)
    } else {
        let w = windows[cur];
        let r = ancestor_sum(windows, w.parent, root, (fuel - 1) as nat);
        (w.x + r.0, w.y + r.1)
    }
}

/// The area of the source window a conditional warp checks, on the root:
/// (x, y, width, height) of the window, or of the screen for the root or
/// an unknown window.
pub open spec fn source_area(s: ClientState, src: u32) -> (int, int, int, int) {
    if src != s.root_window && s.windows@.contains_key(src) {
        let w = s.windows@[src];
        let a = ancestor_sum(s.windows@, w.parent, s.root_window, MAX_TREE_DEPTH as nat);
        (w.x + a.0, w.y + a.1, w.width as int, w.height as int)
    } else {
        (0, 0, s.screen_width as int, s.screen_height as int)
    }
}

/// A warp with a source window happens only while the pointer is inside
/// the source rectangle (a zero width or height extends it over the
/// source window).
pub open spec fn warp_allowed(s: ClientState, q: WarpRequest) -> bool {
    q.0 == 0 || {
        let area = source_area(s, q.0);
        let x = area.0 + q.2;
        let y = area.1 + q.3;
        let w = if q.4 == 0 { area.2 } else { q.4 as int };
        let h = if q.5 == 0 { area.3 } else { q.5 as int };
        x <= s.pointer_x < x + w && y <= s.pointer_y < y + h
    }
}

/// `v` kept within `lo` to `hi`.
pub open spec fn clamp_int(v: int, lo: int, hi: int) -> int {
    if v < lo {
        lo
    } else if v > hi {
        hi
    } else {
        v
    }
}

/// Where the pointer goes: by the offset, saturating, without a
/// destination window; else to the offset within the destination window,
/// kept on the screen.
pub open spec fn warp_target(s: ClientState, q: WarpRequest) -> (i16, i16) {
    if q.1 == 0 {
        (sat_add16(s.pointer_x, q.6), sat_add16(s.pointer_y, q.7))
    } else {
        let a = ancestor_sum(s.windows@, q.1, s.root_window, MAX_TREE_DEPTH as nat);
        (
            clamp_int(q.6 + a.0, 0, s.screen_width - 1) as i16,
            clamp_int(q.7 + a.1, 0, s.screen_height - 1) as i16,
        )
    }
}

/// The summed positions are within `fuel` window positions.
proof fn lemma_ancestor_sum_bound(windows: Map<u32, WindowState>, cur: u32, root: u32, fuel: nat)
    ensures
        -32768 * fuel <= ancestor_sum(windows, cur, root, fuel).0 <= 32767 * fuel,
        -32768 * fuel <= ancestor_sum(windows, cur, root, fuel).1 <= 32767 * fuel,
    decreases fuel,
{
    if fuel > 0 && cur != root && cur != 0 && windows.contains_key(cur) {
        lemma_ancestor_sum_bound(windows, windows[cur].parent, root, (fuel - 1) as nat);
    }
}

/// Sum the positions of a window and its ancestors.
fn sum_ancestors(windows: &HashMap<u32, WindowState>, start: u32, root: u32) -> (r: (i32, i32))
    ensures
        r.0 == ancestor_sum(windows@, start, root, MAX_TREE_DEPTH as nat).0,
        r.1 == ancestor_sum(windows@, start, root, MAX_TREE_DEPTH as nat).1,
        -32768 * 128 <= r.0 <= 32767 * 128,
        -32768 * 128 <= r.1 <= 32767 * 128,
{
    proof {
        lemma_ancestor_sum_bound(windows@, start, root, MAX_TREE_DEPTH as nat);
    }
    let mut ax: i32 = 0;
    let mut ay: i32 = 0;
    let mut cur = start;
    let mut i: usize = 0;
    while i < MAX_TREE_DEPTH
        invariant
            i <= MAX_TREE_DEPTH,
            -32768 * i <= ax <= 32767 * i,
            -32768 * i <= ay <= 32767 * i,
            ancestor_sum(windows@, start, root, MAX_TREE_DEPTH as nat).0 == ax + ancestor_sum(windows@, cur, root, (
            MAX_TREE_DEPTH - i) as nat).0,
            ancestor_sum(windows@, start, root, MAX_TREE_DEPTH as nat).1 == ay + ancestor_sum(windows@, cur, root, (
            MAX_TREE_DEPTH - i) as nat).1,
        ensures
            ancestor_sum(windows@, start, root, MAX_TREE_DEPTH as nat).0 == ax,
            ancestor_sum(windows@, start, root, MAX_TREE_DEPTH as nat).1 == ay,
        decreases MAX_TREE_DEPTH - i,
    {
        if cur == root || cur == 0 {
            break;
        }
        match windows.get(&cur) {
            Some(w) => {
                ax = ax + w.x as i32;
                ay = ay + w.y as i32;
                cur = w.parent;
            },
            None => {
                break;
            },
        }
        i = i + 1;
    }
    (ax, ay)
}

/// The pointer position a WarpPointer request leads to, if it warps.
pub fn warp_pointer_target(state: &ClientState, q: WarpRequest) -> (r: Option<(i16, i16)>)
    requires
        state.screen_width >= 1,
        state.screen_height >= 1,
    ensures
        r == (if warp_allowed(*state, q) { Some(warp_target(*state, q)) } else { None }),
{
    let (src, dst, src_x, src_y, src_w, src_h, dst_x, dst_y) = q;
    if src != 0 {
        let (ax, ay, aw, ah) = if src != state.root_window {
            match state.windows.get(&src) {
                Some(w) => {
                    let (px, py) = sum_ancestors(&state.windows, w.parent, state.root_window);
                    (w.x as i32 + px, w.y as i32 + py, w.width as i32, w.height as i32)
                },
                None => (0i32, 0i32, state.screen_width as i32, state.screen_height as i32),
            }
        } else {
            (0i32, 0i32, state.screen_width as i32, state.screen_height as i32)
        };
        let x = ax + src_x as i32;
        let y = ay + src_y as i32;
        let w = if src_w == 0 { aw } else { src_w as i32 };
        let h = if src_h == 0 { ah } else { src_h as i32 };
        let px = state.pointer_x as i32;
        let py = state.pointer_y as i32;
        if px < x || py < y || px >= x + w || py >= y + h {
            return None;
        }
    }
    if dst == 0 {
        Some((saturating_add_i16(state.pointer_x, dst_x), saturating_add_i16(state.pointer_y, dst_y)))
    } else {
        let (ax, ay) = sum_ancestors(&state.windows, dst, state.root_window);
        let x = dst_x as i32 + ax;
        let y = dst_y as i32 + ay;
        let max_x = state.screen_width as i32 - 1;
        let max_y = state.screen_height as i32 - 1;
        let cx = if x < 0 { 0 } else if x > max_x { max_x } else { x };
        let cy = if y < 0 { 0 } else if y > max_y { max_y } else { y };
        Some((cx as i16, cy as i16))
    }
}

/// WarpPointer (opcode 41): BadLength for a request shorter than 24 bytes
/// or one that does not parse; otherwise, when the warp is allowed, the
/// pointer moves to its target (the fields read in the machine's byte
/// order), and the new position is given back.
pub fn handle_warp_pointer(state: &mut ClientState, data: &[u8], seq: u16) -> (r: Result<Option<(i16, i16)>, Vec<u8>>)
    requires
        old(state).screen_width >= 1,
        old(state).screen_height >= 1,
    ensures
        data@.len() < 24 || data@[0] != 41 ==> (r matches Err(e) && e@ == error_packet(BAD_LENGTH, seq, 0, 41, 0, false))
            && *final(state) == *old(state),
        data@.len() >= 24 && data@[0] == 41 ==> exists|msb: bool|
            {
                let q = #[trigger] warp_fields(data@, msb);
                if warp_allowed(*old(state), q) {
                    let t = warp_target(*old(state), q);
                    &&& r == Ok::<Option<(i16, i16)>, Vec<u8>>(Some(t))
                    &&& *final(state) == (ClientState { pointer_x: t.0, pointer_y: t.1, ..*old(state) })
                } else {
                    r == Ok::<Option<(i16, i16)>, Vec<u8>>(None) && *final(state) == *old(state)
                }
            },
{
    if data.len() < 24 {
        return Err(build_error(BAD_LENGTH, seq, 0, 41, 0));
    }
    let q = match parse_warp_pointer(data) {
        Ok(q) => q,
        Err(_) => {
            return Err(build_error(BAD_LENGTH, seq, 0, 41, 0));
        },
    };
    let ghost msb = q == warp_fields(data@, true);
    assert(q == warp_fields(data@, msb));
    match warp_pointer_target(state, q) {
        Some((x, y)) => {
            state.pointer_x = x;
            state.pointer_y = y;
            Ok(Some((x, y)))
        },
        None => Ok(None),
    }
}

/// A relative warp by (dx, dy) followed by one by (-dx, -dy) brings the
/// pointer back where it was, when the first does not saturate.
pub proof fn relative_warps_cancel(s: ClientState, q: WarpRequest, back: WarpRequest)
    requires
        q.0 == 0 && q.1 == 0,
        back.0 == 0 && back.1 == 0,
        back.6 == -q.6,
        back.7 == -q.7,
        i16::MIN <= s.pointer_x + q.6 <= i16::MAX,
        i16::MIN <= s.pointer_y + q.7 <= i16::MAX,
    ensures
        warp_allowed(s, q),
        ({
            let t = warp_target(s, q);
            let moved = ClientState { pointer_x: t.0, pointer_y: t.1, ..s };
            warp_allowed(moved, back) && warp_target(moved, back) == (s.pointer_x, s.pointer_y)
        }),
{
}

} // verus!
