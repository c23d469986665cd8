//! DBE, the double-buffer extension (major opcode 157): back buffers named
//! as pixmaps, buffer swaps, idioms, and the version, visual and attribute
//! replies.

use crate::drawing::primitives::{drawn, ops_view, queue_op, report_damage, DrawOp, DrawOpView, Paint, Shape, ShapeView};
use crate::state::{ClientState, PixmapState, BAD_LENGTH, BAD_REQUEST, BAD_WINDOW};
use crate::wire::{build_error_bo, build_reply, bytes16, bytes32, error_packet, field32, push_u16, push_u32, push_zeros, read_u32, reply_packet, zeros};
use std::collections::HashMap;
use vstd::std_specs::iter::IteratorSpec;
use vstd::prelude::*;

verus! {

broadcast use vstd::std_specs::hash::group_hash_axioms;

/// The DBE major opcode.
pub const DBE_MAJOR: u8 = 157;

/// The back buffer a swap of `window` uses: the lowest-numbered back
/// buffer naming the window, if any.
#[verifier::opaque]
pub open spec fn back_buffer_of(bb: Map<u32, u32>, window: u32) -> Option<u32> {
    if exists|b: u32| bb.contains_key(b) && bb[b] == window {
        Some(choose|b: u32| bb.contains_key(b) && bb[b] == window && forall|c: u32| bb.contains_key(c) && bb[c] == window ==> b <= c)
    } else {
        None
    }
}

/// The (window, swap action) items of a SwapBuffers request: as many as
/// its count says and its bytes hold.
pub open spec fn swap_items(d: Seq<u8>, msb: bool) -> Seq<(u32, u8)> {
    let n = field32(d, 4, msb) as int;
    let fit = (d.len() - 8) / 8;
    Seq::new(
        (if n < fit { n } else { fit }) as nat,
        |i: int| (field32(d, 8 + 8 * i, msb), field32(d, 12 + 8 * i, msb) as u8),
    )
}

/// A swap happens where the window has a back buffer and both still exist.
pub open spec fn swap_happens(s: ClientState, it: (u32, u8)) -> bool {
    match back_buffer_of(s.back_buffers@, it.0) {
        Some(b) => s.pixmaps@.contains_key(b) && s.windows@.contains_key(it.0),
        None => false,
    }
}

/// The swap operations of the items.
pub open spec fn swap_ops(s: ClientState, items: Seq<(u32, u8)>) -> Seq<DrawOpView>
    decreases items.len(),
{
    if items.len() == 0 {
        Seq::empty()
    } else {
        swap_ops(s, items.drop_last()) + swap_op_of(s, items.last())
    }
}

/// The swap operation of one item, if the swap happens.
pub open spec fn swap_op_of(s: ClientState, it: (u32, u8)) -> Seq<DrawOpView> {
    if swap_happens(s, it) {
        seq![DrawOpView { drawable: it.0, gc: 0, paint: Paint::Solid, shape: ShapeView::Swap {
            back: back_buffer_of(s.back_buffers@, it.0)->0, action: it.1, background: s.windows@[it.0].background_pixel } }]
    } else {
        Seq::empty()
    }
}

/// The damage of one item's swap, if it happens.
pub open spec fn swap_damage_of(s: ClientState, it: (u32, u8)) -> Seq<(u32, i16, i16, u16, u16)> {
    if swap_happens(s, it) {
        seq![(it.0, 0i16, 0i16, s.windows@[it.0].width, s.windows@[it.0].height)]
    } else {
        Seq::empty()
    }
}

/// The damage of the swaps: each swapped window whole.
pub open spec fn swap_damage(s: ClientState, items: Seq<(u32, u8)>) -> Seq<(u32, i16, i16, u16, u16)>
    decreases items.len(),
{
    if items.len() == 0 {
        Seq::empty()
    } else {
        swap_damage(s, items.drop_last()) + swap_damage_of(s, items.last())
    }
}

/// The GetVisualInfo reply body: one screen with one depth (24) listing
/// the root visual (24 bits) and the ARGB visual (32 bits), both at
/// performance level 0.
pub open spec fn visual_info_body(msb: bool) -> Seq<u8> {
    bytes32(1, msb) + zeros(20) + bytes32(1, msb) + seq![24u8, 0u8] + bytes16(2, msb) + bytes32(0x21, msb) + seq![
        24u8,
        0u8,
        0u8,
        0u8,
    ] + bytes32(0x40, msb) + seq![32u8, 0u8] + zeros(6)
}

/// The reply to a DBE request.
pub open spec fn dbe_reply(s: ClientState, d: Seq<u8>, seq: u16) -> Seq<u8> {
    let msb = s.msb_first;
    let minor = d[1];
    if minor == 0 {
        reply_packet(0, seq, seq![1u8, 0u8] + zeros(22), msb)
    } else if minor == 1 && d.len() < 16 || (minor == 2 || minor == 3 || minor == 7) && d.len() < 8 {
        error_packet(BAD_LENGTH, seq, 0, DBE_MAJOR, minor as u16, msb)
    } else if minor == 1 && !s.windows@.contains_key(field32(d, 4, msb)) {
        error_packet(BAD_WINDOW, seq, field32(d, 4, msb), DBE_MAJOR, minor as u16, msb)
    } else if minor == 6 {
        reply_packet(0, seq, visual_info_body(msb), msb)
    } else if minor == 7 {
        let b = field32(d, 4, msb);
        reply_packet(0, seq, bytes32(if s.back_buffers@.contains_key(b) { s.back_buffers@[b] } else { 0 }, msb) + zeros(20), msb)
    } else if minor <= 5 {
        Seq::empty()
    } else {
        error_packet(BAD_REQUEST, seq, minor as u32, DBE_MAJOR, minor as u16, msb)
    }
}

/// The state after a DBE request that its reply does not refuse.
pub open spec fn dbe_done(s: ClientState, after: ClientState, d: Seq<u8>) -> bool {
    let msb = s.msb_first;
    let minor = d[1];
    let id4 = field32(d, 4, msb);
    if minor == 1 {
        let win = s.windows@[id4];
        let b = field32(d, 8, msb);
        &&& after.pixmaps@ == s.pixmaps@.insert(b, PixmapState { width: win.width, height: win.height, depth: win.depth, alias_window: None })
        &&& after.back_buffers@ == s.back_buffers@.insert(b, id4)
        &&& after == (ClientState { pixmaps: after.pixmaps, back_buffers: after.back_buffers, ..s })
    } else if minor == 2 {
        &&& after.pixmaps@ == s.pixmaps@.remove(id4)
        &&& after.back_buffers@ == s.back_buffers@.remove(id4)
        &&& after.recycled_xids@ == s.recycled_xids@.push(id4)
        &&& after == (ClientState { pixmaps: after.pixmaps, back_buffers: after.back_buffers, recycled_xids: after.recycled_xids, ..s })
    } else if minor == 3 {
        let items = swap_items(d, msb);
        drawn(s, after, swap_ops(s, items), swap_damage(s, items))
    } else if minor == 4 {
        after == (ClientState { dbe_idiom_depth: (s.dbe_idiom_depth + 1) as u32, ..s })
    } else if minor == 5 {
        after == (ClientState { dbe_idiom_depth: if s.dbe_idiom_depth > 0 { (s.dbe_idiom_depth - 1) as u32 } else { 0 }, ..s })
    } else {
        after == s
    }
}

/// The requests that change nothing: errors and the queries.
pub open spec fn dbe_refused(s: ClientState, d: Seq<u8>) -> bool {
    let minor = d[1];
    ||| minor == 1 && d.len() < 16
    ||| (minor == 2 || minor == 3) && d.len() < 8
    ||| minor == 1 && !s.windows@.contains_key(field32(d, 4, s.msb_first))
}

/// Find the back buffer a swap of `window` uses.
fn find_back_buffer(bb: &HashMap<u32, u32>, window: u32) -> (r: Option<u32>)
    ensures
        r == back_buffer_of(bb@, window),
{
    let mut best: Option<u32> = None;
    let ghost m = bb@;
    for k in it: bb.keys()
        invariant
            m == bb@,
            it.seq() == vstd::std_specs::hash::spec_keys_iter(bb).remaining(),
            match best {
                Some(b) => m.contains_key(b) && m[b] == window && forall|j: int|
                    0 <= j < it.index() ==> #[trigger] m[*it.seq()[j]] == window ==> b <= *it.seq()[j],
                None => forall|j: int| 0 <= j < it.index() ==> m[*#[trigger] it.seq()[j]] != window,
            },
            forall|j: int| 0 <= j < it.index() ==> m.contains_key(*#[trigger] it.seq()[j]),
    {
        let v = match bb.get(k) {
            Some(v) => *v,
            None => 0u32,
        };
        if bb.contains_key(k) && v == window {
            best = match best {
                Some(b) => if *k < b { Some(*k) } else { Some(b) },
                None => Some(*k),
            };
        }
    }
    proof {
        reveal(back_buffer_of);
        vstd::std_specs::hash::axiom_spec_keys_iter(bb);
        let keys = vstd::std_specs::hash::spec_keys_iter(bb).remaining();
        assert forall|c: u32| m.contains_key(c) implies exists|j: int| 0 <= j < keys.len() && *keys[j] == c by {
            assert(keys.unref().to_set().contains(c));
            assert(keys.unref().contains(c));
            let j = choose|j: int| 0 <= j < keys.unref().len() && keys.unref()[j] == c;
            assert(*keys[j] == c);
        }
        match best {
            Some(b) => {
                assert forall|c: u32| m.contains_key(c) && m[c] == window implies b <= c by {
                    let j = choose|j: int| 0 <= j < keys.len() && *keys[j] == c;
                    assert(m[*keys[j]] == window);
                }
                let w = choose|x: u32| m.contains_key(x) && m[x] == window && forall|c: u32| m.contains_key(c) && m[c] == window ==> x <= c;
                assert(m.contains_key(b) && m[b] == window && forall|c: u32| m.contains_key(c) && m[c] == window ==> b <= c);
                assert(w == b);
            },
            None => {
                assert forall|c: u32| m.contains_key(c) implies m[c] != window by {
                    let j = choose|j: int| 0 <= j < keys.len() && *keys[j] == c;
                    assert(m[*keys[j]] != window);
                }
            },
        }
    }
    best
}


/// Carry out the swap of one window.
fn swap_one(state: &mut ClientState, window: u32, action: u8)
    ensures
        drawn(*old(state), *final(state), swap_op_of(*old(state), (window, action)), swap_damage_of(*old(state), (window, action))),
{
    let ghost s0 = *state;
    match find_back_buffer(&state.back_buffers, window) {
        Some(b) => {
            if state.pixmaps.contains_key(&b) {
                match state.windows.get(&window) {
                    Some(win) => {
                        let (w, h, bg) = (win.width, win.height, win.background_pixel);
                        queue_op(state, DrawOp { drawable: window, gc: 0, paint: Paint::Solid, shape: Shape::Swap { back: b, action, background: bg } });
                        report_damage(state, (window, 0, 0, w, h));
                        assert(ops_view(state.draw_ops@) =~= ops_view(s0.draw_ops@) + swap_op_of(s0, (window, action)));
                        assert(state.damage_reports@ =~= s0.damage_reports@ + swap_damage_of(s0, (window, action)));
                        return;
                    },
                    None => {},
                }
            }
        },
        None => {},
    }
    assert(ops_view(state.draw_ops@) =~= ops_view(s0.draw_ops@) + swap_op_of(s0, (window, action)));
    assert(state.damage_reports@ =~= s0.damage_reports@ + swap_damage_of(s0, (window, action)));
}

/// Carry out the swaps of a SwapBuffers request.
fn swap_buffers(state: &mut ClientState, data: &[u8])
    requires
        data@.len() >= 8,
    ensures
        drawn(*old(state), *final(state), swap_ops(*old(state), swap_items(data@, old(state).msb_first)),
            swap_damage(*old(state), swap_items(data@, old(state).msb_first))),
{
    let msb = state.msb_first;
    let n = read_u32(data, 4, msb) as usize;
    let fit = (data.len() - 8) / 8;
    let count = if n < fit { n } else { fit };
    let ghost s0 = *state;
    let ghost items = swap_items(data@, msb);
    assert(items.len() == count);
    let mut i: usize = 0;
    while i < count
        invariant
            count == items.len(),
            count <= (data@.len() - 8) / 8,
            items == swap_items(data@, msb),
            msb == s0.msb_first,
            i <= count,
            drawn(s0, *state, swap_ops(s0, items.subrange(0, i as int)), swap_damage(s0, items.subrange(0, i as int))),
        decreases count - i,
    {
        assert(8 * ((data@.len() - 8) / 8) <= data@.len() - 8);
        assert(8 * i + 16 <= data@.len());
        assert(data@.len() == data.len());
        let window = read_u32(data, 8 + 8 * i, msb);
        let action = read_u32(data, 12 + 8 * i, msb) as u8;
        assert(items[i as int] == (window, action));
        let ghost mid = *state;
        swap_one(state, window, action);
        proof {
            let pre = items.subrange(0, i as int);
            let cur = items.subrange(0, i + 1);
            assert(cur.drop_last() =~= pre);
            assert(cur.last() == (window, action));
            assert(swap_op_of(mid, (window, action)) == swap_op_of(s0, (window, action)));
            assert(swap_damage_of(mid, (window, action)) == swap_damage_of(s0, (window, action)));
            assert(ops_view(state.draw_ops@) =~= ops_view(s0.draw_ops@) + swap_ops(s0, cur));
            assert(state.damage_reports@ =~= s0.damage_reports@ + swap_damage(s0, cur));
        }
        i = i + 1;
    }
    assert(items.subrange(0, count as int) =~= items);
}

/// DBE (major opcode 157): GetVersion (0), AllocateBackBufferName (1),
/// DeallocateBackBufferName (2), SwapBuffers (3), BeginIdiom (4),
/// EndIdiom (5), GetVisualInfo (6), GetBackBufferAttributes (7).
/// A swap uses the lowest-numbered back buffer of the window; the pixels
/// move in the framebuffers, outside the library.
pub fn handle_dbe_request(state: &mut ClientState, data: &[u8], seq: u16) -> (r: Vec<u8>)
    requires
        data@.len() >= 2,
        data@[1] == 4 ==> old(state).dbe_idiom_depth < u32::MAX,
    ensures
        r@ == dbe_reply(*old(state), data@, seq),
        dbe_refused(*old(state), data@) ==> *final(state) == *old(state),
        !dbe_refused(*old(state), data@) ==> dbe_done(*old(state), *final(state), data@),
{
    let msb = state.msb_first;
    let minor = data[1];
    if minor == 0 {
        let mut body: Vec<u8> = Vec::new();
        body.push(1u8);
        body.push(0u8);
        push_zeros(&mut body, 22);
        assert(body@ =~= seq![1u8, 0u8] + zeros(22));
        return build_reply(0, seq, body.as_slice(), msb);
    }
    if minor == 1 {
        if data.len() < 16 {
            return build_error_bo(BAD_LENGTH, seq, 0, DBE_MAJOR, minor as u16, msb);
        }
        let window = read_u32(data, 4, msb);
        let back = read_u32(data, 8, msb);
        let win = match state.windows.get(&window) {
            Some(w) => *w,
            None => {
                return build_error_bo(BAD_WINDOW, seq, window, DBE_MAJOR, minor as u16, msb);
            },
        };
        state.pixmaps.insert(back, PixmapState { width: win.width, height: win.height, depth: win.depth, alias_window: None });
        state.back_buffers.insert(back, window);
        return Vec::new();
    }
    if minor == 2 {
        if data.len() < 8 {
            return build_error_bo(BAD_LENGTH, seq, 0, DBE_MAJOR, minor as u16, msb);
        }
        let back = read_u32(data, 4, msb);
        state.pixmaps.remove(&back);
        state.back_buffers.remove(&back);
        state.recycle_xid(back);
        return Vec::new();
    }
    if minor == 3 {
        if data.len() < 8 {
            return build_error_bo(BAD_LENGTH, seq, 0, DBE_MAJOR, minor as u16, msb);
        }
        swap_buffers(state, data);
        return Vec::new();
    }
    if minor == 4 {
        state.dbe_idiom_depth = state.dbe_idiom_depth + 1;
        return Vec::new();
    }
    if minor == 5 {
        if state.dbe_idiom_depth > 0 {
            state.dbe_idiom_depth = state.dbe_idiom_depth - 1;
        }
        return Vec::new();
    }
    if minor == 6 {
        let mut body: Vec<u8> = Vec::new();
        push_u32(&mut body, 1, msb);
        push_zeros(&mut body, 20);
        push_u32(&mut body, 1, msb);
        body.push(24u8);
        body.push(0u8);
        push_u16(&mut body, 2, msb);
        push_u32(&mut body, 0x21, msb);
        body.push(24u8);
        body.push(0u8);
        body.push(0u8);
        body.push(0u8);
        push_u32(&mut body, 0x40, msb);
        body.push(32u8);
        body.push(0u8);
        push_zeros(&mut body, 6);
        assert(body@ =~= visual_info_body(msb));
        return build_reply(0, seq, body.as_slice(), msb);
    }
    if minor == 7 {
        if data.len() < 8 {
            return build_error_bo(BAD_LENGTH, seq, 0, DBE_MAJOR, minor as u16, msb);
        }
        let back = read_u32(data, 4, msb);
        let window = match state.back_buffers.get(&back) {
            Some(w) => *w,
            None => 0u32,
        };
        let mut body: Vec<u8> = Vec::new();
        push_u32(&mut body, window, msb);
        push_zeros(&mut body, 20);
        return build_reply(0, seq, body.as_slice(), msb);
    }
    build_error_bo(BAD_REQUEST, seq, minor as u32, DBE_MAJOR, minor as u16, msb)
}


/// Deallocating a back buffer that AllocateBackBufferName just named,
/// with an id that was free before, gives back the pixmaps and back
/// buffers as they were.
pub proof fn deallocate_undoes_allocate(s: ClientState, s1: ClientState, s2: ClientState, alloc: Seq<u8>, dealloc: Seq<u8>)
    requires
        alloc.len() >= 16 && alloc[1] == 1,
        dealloc.len() >= 8 && dealloc[1] == 2,
        !dbe_refused(s, alloc),
        dbe_done(s, s1, alloc),
        dbe_done(s1, s2, dealloc),
        field32(dealloc, 4, s.msb_first) == field32(alloc, 8, s.msb_first),
        !s.pixmaps@.contains_key(field32(alloc, 8, s.msb_first)),
        !s.back_buffers@.contains_key(field32(alloc, 8, s.msb_first)),
    ensures
        s2.pixmaps@ == s.pixmaps@,
        s2.back_buffers@ == s.back_buffers@,
{
    assert(s2.pixmaps@ =~= s.pixmaps@);
    assert(s2.back_buffers@ =~= s.back_buffers@);
}

/// EndIdiom closes what BeginIdiom opened.
pub proof fn end_idiom_undoes_begin_idiom(s: ClientState, s1: ClientState, s2: ClientState, begin: Seq<u8>, end: Seq<u8>)
    requires
        begin.len() >= 2 && begin[1] == 4,
        end.len() >= 2 && end[1] == 5,
        s.dbe_idiom_depth < u32::MAX,
        dbe_done(s, s1, begin),
        dbe_done(s1, s2, end),
    ensures
        s2 == s,
{
}

/// Back buffers round trip: once AllocateBackBufferName has named `b` for
/// a window, `b` is a pixmap of the window's size and depth and
/// GetBackBufferAttributes of `b` answers the window; once
/// DeallocateBackBufferName has freed `b`, `b` is neither a pixmap nor a
/// back buffer and the same query answers 0.
pub proof fn back_buffer_round_trip(
    s: ClientState,
    s1: ClientState,
    s2: ClientState,
    alloc: Seq<u8>,
    query: Seq<u8>,
    dealloc: Seq<u8>,
    seq: u16,
)
    requires
        alloc.len() >= 16 && alloc[1] == 1,
        s.windows@.contains_key(field32(alloc, 4, s.msb_first)),
        dbe_done(s, s1, alloc),
        query.len() >= 8 && query[1] == 7,
        field32(query, 4, s.msb_first) == field32(alloc, 8, s.msb_first),
        dealloc.len() >= 8 && dealloc[1] == 2,
        field32(dealloc, 4, s.msb_first) == field32(alloc, 8, s.msb_first),
        dbe_done(s1, s2, dealloc),
    ensures
        ({
            let msb = s.msb_first;
            let w = field32(alloc, 4, msb);
            let b = field32(alloc, 8, msb);
            let win = s.windows@[w];
            &&& s1.pixmaps@.contains_key(b)
            &&& s1.pixmaps@[b] == (PixmapState { width: win.width, height: win.height, depth: win.depth, alias_window: None })
            &&& dbe_reply(s1, query, seq) == reply_packet(0, seq, bytes32(w, msb) + zeros(20), msb)
            &&& !s2.pixmaps@.contains_key(b)
            &&& !s2.back_buffers@.contains_key(b)
            &&& dbe_reply(s2, query, seq) == reply_packet(0, seq, bytes32(0, msb) + zeros(20), msb)
        }),
{
}

} // verus!
