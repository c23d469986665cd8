//! CopyArea (opcode 62) and CopyPlane (opcode 63): checking the request,
//! choosing how the pixels are moved, and the GraphicsExposure / NoExposure events for the parts of the
//! source that lie outside the source drawable.

use crate::drawing::gc::GcState;
use crate::drawing::primitives::{
    drawable_known, drawn, ops_view, queue_op, report_damage, DrawOp, DrawOpView, Paint, Shape, ShapeView,
};
use crate::drawing::ClipRect;
use crate::state::{ClientState, BAD_DRAWABLE, BAD_GC, BAD_LENGTH, BAD_VALUE};
use crate::wire::{build_error, bytes16, bytes32, error_packet, field16, field32, push_u16, push_u32, push_zeros, read_i16, read_u16, read_u32, zeros};
use vstd::prelude::*;

verus! {

broadcast use vstd::std_specs::hash::group_hash_axioms;

/// How CopyArea moves the pixels.
#[derive(Clone, Copy)]
pub enum CopyMode {
    /// Within one drawable, through the GC's clip rectangles.
    WithinClipped,
    /// Within one drawable, overlapping areas handled.
    Within,
    /// From a depth-1 source under a function other than GXcopy: set source
    /// pixels paint the foreground, clear ones the background.
    Bitmap,
    /// Through the GC's function, plane mask and clip rectangles.
    ThroughGc,
    /// A plain copy (GXcopy, no clip rectangles).
    Plain,
}

/// The depth CopyArea takes for a source: a pixmap's own, else 24.
pub open spec fn source_depth(s: ClientState, src: u32) -> u8 {
    if s.pixmaps@.contains_key(src) {
        s.pixmaps@[src].depth
    } else {
        24
    }
}

/// Whether the copy includes the source window's children (GC subwindow
/// mode IncludeInferiors on a window source).
pub open spec fn includes_inferiors(s: ClientState, g: GcState, src: u32) -> bool {
    g.subwindow_mode == 1 && s.windows@.contains_key(src)
}

/// How the pixels are moved from `src` to `dst`.
pub open spec fn copy_mode(s: ClientState, g: GcState, src: u32, dst: u32) -> CopyMode {
    let clipped = g.clip_rects@.len() > 0;
    if src == dst && !includes_inferiors(s, g, src) {
        if clipped { CopyMode::WithinClipped } else { CopyMode::Within }
    } else if source_depth(s, src) <= 1 && g.function != 3 {
        CopyMode::Bitmap
    } else if g.function != 3 || clipped {
        CopyMode::ThroughGc
    } else {
        CopyMode::Plain
    }
}

/// The smaller of two 16-bit values.
pub open spec fn min16(a: i16, b: i16) -> i16 {
    if a < b { a } else { b }
}

/// The parts of the destination whose source lies outside a `src_w` by
/// `src_h` source: left of it, above it, right of it, below it (16-bit
/// wrap-around arithmetic).
pub open spec fn exposed_parts(sx: i16, sy: i16, w: u16, h: u16, src_w: u16, src_h: u16, dx: i16, dy: i16) -> Seq<ClipRect> {
    let wi = w as i16;
    let hi = h as i16;
    let left: Seq<ClipRect> = if sx < 0 { seq![(dx, dy, min16(0i16.wrapping_sub(sx), wi) as u16, h)] } else { seq![] };
    let top: Seq<ClipRect> = if sy < 0 { seq![(dx, dy, w, min16(0i16.wrapping_sub(sy), hi) as u16)] } else { seq![] };
    let ex = sx.wrapping_add(wi);
    let ov_x = if ex.wrapping_sub(src_w as i16) > 0 { ex.wrapping_sub(src_w as i16) } else { 0i16 };
    let right: Seq<ClipRect> = if ex > src_w as i16 {
        seq![(dx.wrapping_add(wi).wrapping_sub(ov_x), dy, min16(ov_x, wi) as u16, h)]
    } else {
        seq![]
    };
    let ey = sy.wrapping_add(hi);
    let ov_y = if ey.wrapping_sub(src_h as i16) > 0 { ey.wrapping_sub(src_h as i16) } else { 0i16 };
    let bottom: Seq<ClipRect> = if ey > src_h as i16 {
        seq![(dx, dy.wrapping_add(hi).wrapping_sub(ov_y), w, min16(ov_y, hi) as u16)]
    } else {
        seq![]
    };
    left + top + right + bottom
}

/// Without 16-bit wrap-around, a copy exposes nothing exactly when its
/// source rectangle lies inside the source drawable.
pub proof fn nothing_exposed_iff_source_inside(sx: i16, sy: i16, w: u16, h: u16, src_w: u16, src_h: u16, dx: i16, dy: i16)
    requires
        sx + w <= 0x7FFF,
        sy + h <= 0x7FFF,
        w <= 0x7FFF,
        h <= 0x7FFF,
        src_w <= 0x7FFF,
        src_h <= 0x7FFF,
    ensures
        exposed_parts(sx, sy, w, h, src_w, src_h, dx, dy).len() == 0 <==> (0 <= sx && 0 <= sy && sx + w <= src_w && sy
            + h <= src_h),
{
    let wi = w as i16;
    let hi = h as i16;
    assert(wi == w);
    assert(hi == h);
    assert(sx.wrapping_add(wi) == sx + w);
    assert(sy.wrapping_add(hi) == sy + h);
    assert((src_w as i16) == src_w);
    assert((src_h as i16) == src_h);
}

/// The NoExposure event (14) for a copy request (major opcode `major`)
/// into `drawable`.
pub open spec fn no_exposure_event(seq: u16, drawable: u32, major: u8, msb: bool) -> Seq<u8> {
    seq![14u8, 0u8] + bytes16(seq, msb) + bytes32(drawable, msb) + bytes16(0, msb) + seq![major] + zeros(21)
}

/// The GraphicsExposure event (13) for part `r` of `drawable`, with
/// `count` more to follow.
pub open spec fn graphics_exposure_event(seq: u16, drawable: u32, r: ClipRect, count: u16, major: u8, msb: bool) -> Seq<u8> {
    seq![13u8, 0u8] + bytes16(seq, msb) + bytes32(drawable, msb) + bytes16(r.0 as u16, msb) + bytes16(r.1 as u16, msb)
        + bytes16(r.2, msb) + bytes16(r.3, msb) + bytes16(0, msb) + bytes16(count, msb) + seq![major] + zeros(11)
}

/// The events a copy reports: one GraphicsExposure per exposed part, the
/// last with count 0, or one NoExposure when nothing is exposed.
pub open spec fn exposure_events(seq: u16, drawable: u32, parts: Seq<ClipRect>, major: u8, msb: bool) -> Seq<Seq<u8>> {
    if parts.len() == 0 {
        seq![no_exposure_event(seq, drawable, major, msb)]
    } else {
        Seq::new(parts.len(), |i: int| graphics_exposure_event(seq, drawable, parts[i], (parts.len() - 1 - i) as u16, major, msb))
    }
}

/// The events as byte sequences.
pub open spec fn events_view(evs: Seq<Vec<u8>>) -> Seq<Seq<u8>> {
    evs.map_values(|e: Vec<u8>| e@)
}

/// The error CopyArea is answered with, if any.
pub open spec fn copy_area_error(s: ClientState, d: Seq<u8>) -> Option<Seq<u8>> {
    let msb = s.msb_first;
    let src = field32(d, 4, msb);
    let dst = field32(d, 8, msb);
    let gc = field32(d, 12, msb);
    if d.len() < 28 {
        Some(error_packet(BAD_LENGTH, s.sequence, 0, 62, 0, false))
    } else if !drawable_known(s, src) {
        Some(error_packet(BAD_DRAWABLE, s.sequence, src, 62, 0, false))
    } else if !drawable_known(s, dst) {
        Some(error_packet(BAD_DRAWABLE, s.sequence, dst, 62, 0, false))
    } else if !s.gcs@.contains_key(gc) {
        Some(error_packet(BAD_GC, s.sequence, gc, 62, 0, false))
    } else {
        None
    }
}

/// The size of a known drawable.
pub open spec fn known_size(s: ClientState, d: u32) -> (u16, u16) {
    if s.windows@.contains_key(d) {
        (s.windows@[d].width, s.windows@[d].height)
    } else {
        (s.pixmaps@[d].width, s.pixmaps@[d].height)
    }
}

/// The copy operation a CopyArea request queues.
pub open spec fn copy_shape(s: ClientState, d: Seq<u8>) -> ShapeView {
    let msb = s.msb_first;
    let src = field32(d, 4, msb);
    let dst = field32(d, 8, msb);
    let g = s.gcs@[field32(d, 12, msb)];
    ShapeView::Copy {
        src,
        src_x: field16(d, 16, msb) as i16,
        src_y: field16(d, 18, msb) as i16,
        x: field16(d, 20, msb) as i16,
        y: field16(d, 22, msb) as i16,
        width: field16(d, 24, msb),
        height: field16(d, 26, msb),
        include_inferiors: includes_inferiors(s, g, src),
        mode: copy_mode(s, g, src, dst),
    }
}

/// Build the NoExposure event.
fn build_no_exposure(seq: u16, drawable: u32, major: u8, msb: bool) -> (r: Vec<u8>)
    ensures
        r@ == no_exposure_event(seq, drawable, major, msb),
{
    let mut e: Vec<u8> = Vec::new();
    e.push(14u8);
    e.push(0u8);
    assert(e@ =~= seq![14u8, 0u8]);
    push_u16(&mut e, seq, msb);
    push_u32(&mut e, drawable, msb);
    push_u16(&mut e, 0, msb);
    e.push(major);
    let ghost before = e@;
    push_zeros(&mut e, 21);
    assert(before =~= seq![14u8, 0u8] + bytes16(seq, msb) + bytes32(drawable, msb) + bytes16(0, msb) + seq![major]);
    e
}

/// Build a GraphicsExposure event.
fn build_graphics_exposure(seq: u16, drawable: u32, r: ClipRect, count: u16, major: u8, msb: bool) -> (out: Vec<u8>)
    ensures
        out@ == graphics_exposure_event(seq, drawable, r, count, major, msb),
{
    let mut e: Vec<u8> = Vec::new();
    e.push(13u8);
    e.push(0u8);
    assert(e@ =~= seq![13u8, 0u8]);
    push_u16(&mut e, seq, msb);
    push_u32(&mut e, drawable, msb);
    push_u16(&mut e, r.0 as u16, msb);
    push_u16(&mut e, r.1 as u16, msb);
    push_u16(&mut e, r.2, msb);
    push_u16(&mut e, r.3, msb);
    push_u16(&mut e, 0, msb);
    push_u16(&mut e, count, msb);
    e.push(major);
    let ghost before = e@;
    push_zeros(&mut e, 11);
    assert(before =~= seq![13u8, 0u8] + bytes16(seq, msb) + bytes32(drawable, msb) + bytes16(r.0 as u16, msb)
        + bytes16(r.1 as u16, msb) + bytes16(r.2, msb) + bytes16(r.3, msb) + bytes16(0, msb) + bytes16(count, msb)
        + seq![major]);
    e
}

/// Compute the exposed parts of a copy.
pub fn exposed_rects(sx: i16, sy: i16, w: u16, h: u16, src_w: u16, src_h: u16, dx: i16, dy: i16) -> (r: Vec<ClipRect>)
    ensures
        r@ == exposed_parts(sx, sy, w, h, src_w, src_h, dx, dy),
{
    let wi = w as i16;
    let hi = h as i16;
    let mut out: Vec<ClipRect> = Vec::new();
    if sx < 0 {
        let n = 0i16.wrapping_sub(sx);
        out.push((dx, dy, (if n < wi { n } else { wi }) as u16, h));
    }
    if sy < 0 {
        let n = 0i16.wrapping_sub(sy);
        out.push((dx, dy, w, (if n < hi { n } else { hi }) as u16));
    }
    let ex = sx.wrapping_add(wi);
    if ex > src_w as i16 {
        let over = ex.wrapping_sub(src_w as i16);
        let ov = if over > 0 { over } else { 0i16 };
        out.push((dx.wrapping_add(wi).wrapping_sub(ov), dy, (if ov < wi { ov } else { wi }) as u16, h));
    }
    let ey = sy.wrapping_add(hi);
    if ey > src_h as i16 {
        let over = ey.wrapping_sub(src_h as i16);
        let ov = if over > 0 { over } else { 0i16 };
        out.push((dx, dy.wrapping_add(hi).wrapping_sub(ov), w, (if ov < hi { ov } else { hi }) as u16));
    }
    assert(out@ =~= exposed_parts(sx, sy, w, h, src_w, src_h, dx, dy));
    out
}

/// Queue the exposure events of a copy.
fn queue_exposures(events: &mut Vec<Vec<u8>>, seq: u16, drawable: u32, parts: &Vec<ClipRect>, major: u8, msb: bool)
    requires
        old(events)@.len() + parts@.len() + 1 <= usize::MAX,
        parts@.len() <= 4,
    ensures
        events_view(final(events)@) == events_view(old(events)@) + exposure_events(seq, drawable, parts@, major, msb),
{
    let ghost want = exposure_events(seq, drawable, parts@, major, msb);
    if parts.len() == 0 {
        events.push(build_no_exposure(seq, drawable, major, msb));
        assert(events_view(events@) =~= events_view(old(events)@) + want);
        return;
    }
    let n = parts.len();
    let mut i: usize = 0;
    while i < n
        invariant
            n == parts@.len(),
            0 < n <= 4,
            i <= n,
            want == exposure_events(seq, drawable, parts@, major, msb),
            events_view(events@) == events_view(old(events)@) + want.subrange(0, i as int),
        decreases n - i,
    {
        let count = (n - 1 - i) as u16;
        let ev = build_graphics_exposure(seq, drawable, parts[i], count, major, msb);
        assert(ev@ == want[i as int]);
        let ghost before = events@;
        events.push(ev);
        proof {
            assert(events_view(events@) =~= events_view(before).push(ev@));
            assert(want.subrange(0, i + 1) =~= want.subrange(0, i as int).push(want[i as int]));
            assert(events_view(events@) =~= events_view(old(events)@) + want.subrange(0, i + 1));
        }
        i = i + 1;
    }
    assert(want.subrange(0, n as int) =~= want);
}

/// What CopyArea answers `req` with, and the client state it leaves.
pub open spec fn copy_area_done(pre: ClientState, post: ClientState, req: Seq<u8>, seq: u16, out: Seq<u8>) -> bool {
    &&& (match copy_area_error(pre, req) {
            Some(e) => out == e && post == pre,
            None => {
                let s = pre;
                let msb = s.msb_first;
                let src = field32(req, 4, msb);
                let dst = field32(req, 8, msb);
                let gc_id = field32(req, 12, msb);
                let g = s.gcs@[gc_id];
                let size = known_size(s, src);
                let parts = exposed_parts(field16(req, 16, msb) as i16, field16(req, 18, msb) as i16,
                    field16(req, 24, msb), field16(req, 26, msb), size.0, size.1,
                    field16(req, 20, msb) as i16, field16(req, 22, msb) as i16);
                let after = post;
                &&& out == Seq::<u8>::empty()
                &&& events_view(after.pending_events@) == events_view(s.pending_events@) + (if g.graphics_exposures {
                    exposure_events(s.sequence, dst, parts, 62, msb)
                } else {
                    Seq::empty()
                })
                &&& drawn(ClientState { pending_events: after.pending_events, ..s }, after,
                    seq![DrawOpView { drawable: dst, gc: gc_id, paint: Paint::Solid, shape: copy_shape(s, req) }],
                    seq![(dst, field16(req, 20, msb) as i16, field16(req, 22, msb) as i16,
                        field16(req, 24, msb), field16(req, 26, msb))])
            },
        })
}

/// CopyArea (opcode 62): queue the copy, report GraphicsExposure /
/// NoExposure events when the GC asks for them, and report the destination
/// rectangle as damaged.
pub fn handle_copy_area(state: &mut ClientState, data: &[u8]) -> (r: Vec<u8>)
    requires
        old(state).pending_events@.len() + 5 <= usize::MAX,
    ensures
        copy_area_done(*old(state), *final(state), data@, old(state).sequence, r@),
{
    let seq = state.sequence;
    if data.len() < 28 {
        return build_error(BAD_LENGTH, seq, 0, 62, 0);
    }
    let msb = state.msb_first;
    let src = read_u32(data, 4, msb);
    let dst = read_u32(data, 8, msb);
    let gc_id = read_u32(data, 12, msb);
    let src_x = read_i16(data, 16, msb);
    let src_y = read_i16(data, 18, msb);
    let dst_x = read_i16(data, 20, msb);
    let dst_y = read_i16(data, 22, msb);
    let width = read_u16(data, 24, msb);
    let height = read_u16(data, 26, msb);
    if !state.windows.contains_key(&src) && !state.pixmaps.contains_key(&src) {
        return build_error(BAD_DRAWABLE, seq, src, 62, 0);
    }
    if !state.windows.contains_key(&dst) && !state.pixmaps.contains_key(&dst) {
        return build_error(BAD_DRAWABLE, seq, dst, 62, 0);
    }
    let (function, clipped, subwindow_mode, exposures) = match state.gcs.get(&gc_id) {
        Some(g) => (g.function, g.clip_rects.len() > 0, g.subwindow_mode, g.graphics_exposures),
        None => {
            return build_error(BAD_GC, seq, gc_id, 62, 0);
        },
    };
    let depth: u8 = match state.pixmaps.get(&src) {
        Some(p) => p.depth,
        None => 24,
    };
    let inferiors = subwindow_mode == 1 && state.windows.contains_key(&src);
    let mode = if src == dst && !inferiors {
        if clipped { CopyMode::WithinClipped } else { CopyMode::Within }
    } else if depth <= 1 && function != 3 {
        CopyMode::Bitmap
    } else if function != 3 || clipped {
        CopyMode::ThroughGc
    } else {
        CopyMode::Plain
    };
    let ghost s0 = *state;
    if exposures {
        let (src_w, src_h) = match state.windows.get(&src) {
            Some(w) => (w.width, w.height),
            None => match state.pixmaps.get(&src) {
                Some(p) => (p.width, p.height),
                None => (0u16, 0u16),
            },
        };
        let parts = exposed_rects(src_x, src_y, width, height, src_w, src_h, dst_x, dst_y);
        queue_exposures(&mut state.pending_events, seq, dst, &parts, 62, msb);
    }
    let ghost s1 = *state;
    assert(events_view(s1.pending_events@) =~= events_view(s0.pending_events@) + (if exposures {
        exposure_events(seq, dst, exposed_parts(src_x, src_y, width, height, known_size(s0, src).0, known_size(s0, src).1, dst_x, dst_y), 62, msb)
    } else {
        Seq::empty()
    }));
    let shape = Shape::Copy {
        src,
        src_x,
        src_y,
        x: dst_x,
        y: dst_y,
        width,
        height,
        include_inferiors: inferiors,
        mode,
    };
    queue_op(state, DrawOp { drawable: dst, gc: gc_id, paint: Paint::Solid, shape });
    report_damage(state, (dst, dst_x, dst_y, width, height));
    proof {
        assert(ops_view(state.draw_ops@) =~= ops_view(s1.draw_ops@) + seq![
            DrawOpView { drawable: dst, gc: gc_id, paint: Paint::Solid, shape: copy_shape(s0, data@) }]);
        assert(state.damage_reports@ =~= s1.damage_reports@ + seq![(dst, dst_x, dst_y, width, height)]);
    }
    Vec::new()
}


/// A plane mask with exactly one bit set.
pub open spec fn single_plane(bp: u32) -> bool {
    bp != 0 && bp & ((bp - 1) as u32) == 0
}

/// The error CopyPlane is answered with, if any.
pub open spec fn copy_plane_error(s: ClientState, d: Seq<u8>) -> Option<Seq<u8>> {
    let msb = s.msb_first;
    let src = field32(d, 4, msb);
    let dst = field32(d, 8, msb);
    let gc = field32(d, 12, msb);
    let bp = field32(d, 28, msb);
    if d.len() < 32 {
        Some(error_packet(BAD_LENGTH, s.sequence, 0, 63, 0, false))
    } else if !single_plane(bp) {
        Some(error_packet(BAD_VALUE, s.sequence, bp, 63, 0, false))
    } else if !drawable_known(s, src) {
        Some(error_packet(BAD_DRAWABLE, s.sequence, src, 63, 0, false))
    } else if !drawable_known(s, dst) {
        Some(error_packet(BAD_DRAWABLE, s.sequence, dst, 63, 0, false))
    } else if !s.gcs@.contains_key(gc) {
        Some(error_packet(BAD_GC, s.sequence, gc, 63, 0, false))
    } else {
        None
    }
}

/// What CopyPlane answers `req` with, and the client state it leaves.
pub open spec fn copy_plane_done(pre: ClientState, post: ClientState, req: Seq<u8>, seq: u16, out: Seq<u8>) -> bool {
    &&& (match copy_plane_error(pre, req) {
            Some(e) => out == e && post == pre,
            None => {
                let s = pre;
                let msb = s.msb_first;
                let src = field32(req, 4, msb);
                let dst = field32(req, 8, msb);
                let gc_id = field32(req, 12, msb);
                let size = known_size(s, src);
                let sx = field16(req, 16, msb) as i16;
                let sy = field16(req, 18, msb) as i16;
                let x = field16(req, 20, msb) as i16;
                let y = field16(req, 22, msb) as i16;
                let w = field16(req, 24, msb);
                let h = field16(req, 26, msb);
                let after = post;
                &&& out == Seq::<u8>::empty()
                &&& events_view(after.pending_events@) == events_view(s.pending_events@) + (if s.gcs@[gc_id].graphics_exposures {
                    exposure_events(s.sequence, dst, exposed_parts(sx, sy, w, h, size.0, size.1, x, y), 63, msb)
                } else {
                    Seq::empty()
                })
                &&& drawn(ClientState { pending_events: after.pending_events, ..s }, after,
                    seq![DrawOpView { drawable: dst, gc: gc_id, paint: Paint::Solid, shape: ShapeView::CopyPlane {
                        src, src_x: sx, src_y: sy, x, y, width: w, height: h, bit_plane: field32(req, 28, msb) } }],
                    seq![(dst, x, y, w, h)])
            },
        })
}

/// CopyPlane (opcode 63): queue the plane copy, report GraphicsExposure /
/// NoExposure events when the GC asks for them, and report the destination
/// rectangle as damaged.
pub fn handle_copy_plane(state: &mut ClientState, data: &[u8]) -> (r: Vec<u8>)
    requires
        old(state).pending_events@.len() + 5 <= usize::MAX,
    ensures
        copy_plane_done(*old(state), *final(state), data@, old(state).sequence, r@),
{
    let seq = state.sequence;
    if data.len() < 32 {
        return build_error(BAD_LENGTH, seq, 0, 63, 0);
    }
    let msb = state.msb_first;
    let src = read_u32(data, 4, msb);
    let dst = read_u32(data, 8, msb);
    let gc_id = read_u32(data, 12, msb);
    let src_x = read_i16(data, 16, msb);
    let src_y = read_i16(data, 18, msb);
    let dst_x = read_i16(data, 20, msb);
    let dst_y = read_i16(data, 22, msb);
    let width = read_u16(data, 24, msb);
    let height = read_u16(data, 26, msb);
    let bit_plane = read_u32(data, 28, msb);
    if bit_plane == 0 || bit_plane & (bit_plane - 1) != 0 {
        return build_error(BAD_VALUE, seq, bit_plane, 63, 0);
    }
    if !state.windows.contains_key(&src) && !state.pixmaps.contains_key(&src) {
        return build_error(BAD_DRAWABLE, seq, src, 63, 0);
    }
    if !state.windows.contains_key(&dst) && !state.pixmaps.contains_key(&dst) {
        return build_error(BAD_DRAWABLE, seq, dst, 63, 0);
    }
    let exposures = match state.gcs.get(&gc_id) {
        Some(g) => g.graphics_exposures,
        None => {
            return build_error(BAD_GC, seq, gc_id, 63, 0);
        },
    };
    let ghost s0 = *state;
    if exposures {
        let (src_w, src_h) = match state.windows.get(&src) {
            Some(w) => (w.width, w.height),
            None => match state.pixmaps.get(&src) {
                Some(p) => (p.width, p.height),
                None => (0u16, 0u16),
            },
        };
        let parts = exposed_rects(src_x, src_y, width, height, src_w, src_h, dst_x, dst_y);
        queue_exposures(&mut state.pending_events, seq, dst, &parts, 63, msb);
    }
    let ghost s1 = *state;
    let shape = Shape::CopyPlane { src, src_x, src_y, x: dst_x, y: dst_y, width, height, bit_plane };
    queue_op(state, DrawOp { drawable: dst, gc: gc_id, paint: Paint::Solid, shape });
    report_damage(state, (dst, dst_x, dst_y, width, height));
    proof {
        assert(ops_view(state.draw_ops@) =~= ops_view(s1.draw_ops@) + seq![
            DrawOpView { drawable: dst, gc: gc_id, paint: Paint::Solid, shape: ShapeView::CopyPlane {
                src, src_x, src_y, x: dst_x, y: dst_y, width, height, bit_plane } }]);
        assert(state.damage_reports@ =~= s1.damage_reports@ + seq![(dst, dst_x, dst_y, width, height)]);
        if !exposures {
            assert(events_view(state.pending_events@) =~= events_view(s0.pending_events@) + Seq::<Seq<u8>>::empty());
        }
    }
    Vec::new()
}

} // verus!
