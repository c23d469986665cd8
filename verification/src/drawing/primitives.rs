//! Drawing requests (PolyLine, PolySegment, PolyRectangle,
//! PolyFillRectangle, PolyFillArc, PolyPoint, PolyArc, FillPoly, PutImage,
//! ClearArea): the library decodes and checks a
//! request, decides how each shape is painted and which area it damages,
//! and queues the drawing operations for the framebuffer.

use crate::drawing::gc::{copy_rects, GcState};
use crate::drawing::copy::CopyMode;
use crate::drawing::image::Image;
use crate::drawing::{intersection, intersect_rects, ClipRect};
use crate::state::{ClientState, BAD_DRAWABLE, BAD_GC, BAD_LENGTH, BAD_MATCH, BAD_VALUE, BAD_WINDOW};
use crate::wire::{build_error, bytes16, bytes32, error_packet, field16, field32, push_u16, push_u32, push_zeros, read_i16, read_u16, read_u32, zeros};
use vstd::prelude::*;

verus! {

broadcast use vstd::std_specs::hash::group_hash_axioms;

/// How a shape is painted: with the GC's tile, with its stipple (opaque
/// stipple paints the background too), or solid with the GC's foreground,
/// line style and dashes.
#[derive(Clone, Copy)]
pub enum Paint {
    Tiled,
    Stippled { opaque: bool },
    Solid,
}

/// A shape to paint.
pub enum Shape {
    /// A line from (x0, y0) to (x1, y1).
    Line { x0: i32, y0: i32, x1: i32, y1: i32 },
    /// Connected lines through the points, joined by the GC's join style.
    Polyline { points: Vec<(i32, i32)> },
    /// A filled rectangle; tiled and stippled rectangles come already
    /// clipped to the GC's clip rectangles.
    FillRect { x: i16, y: i16, width: u16, height: u16 },
    /// A filled arc of the ellipse in the rectangle, from `angle1` over
    /// `angle2` (64ths of a degree), by the GC's arc mode.
    FillArc { x: i16, y: i16, width: u16, height: u16, angle1: i16, angle2: i16 },
    /// An image put with PutImage, painted by `paint_image`.
    Image { image: Image },
    /// A CopyArea of `width` by `height` pixels from (`src_x`, `src_y`) of
    /// `src` to (`x`, `y`).
    Copy {
        src: u32,
        src_x: i16,
        src_y: i16,
        x: i16,
        y: i16,
        width: u16,
        height: u16,
        include_inferiors: bool,
        mode: CopyMode,
    },
    /// A CopyPlane of `width` by `height` pixels from (`src_x`, `src_y`) of
    /// `src` to (`x`, `y`): where the source pixel has `bit_plane` set the
    /// GC's foreground is drawn, elsewhere its background, with the GC's
    /// function and clip rectangles.
    CopyPlane { src: u32, src_x: i16, src_y: i16, x: i16, y: i16, width: u16, height: u16, bit_plane: u32 },
    /// A point, in the GC's foreground.
    Point { x: i16, y: i16 },
    /// The outline of an arc, drawn with the GC's line attributes.
    Arc { x: i16, y: i16, width: u16, height: u16, angle1: i16, angle2: i16 },
    /// A filled polygon through the points, by the GC's fill rule.
    FillPolygon { points: Vec<(i16, i16)> },
    /// A rectangle of a window cleared to its background pixel.
    Clear { x: i16, y: i16, width: u16, height: u16, pixel: u32 },
    /// A DBE swap: the back buffer's pixels become the window's, and the
    /// back buffer is then cleared to the window's background (action 1),
    /// left as it is (2), given the old window pixels (3) or left undefined.
    Swap { back: u32, action: u8, background: u32 },
    /// PolyText8 items from (`x`, `y`): each moves the pen by its delta and
    /// draws its characters in the GC's font, foreground only.
    Text8 { x: i16, y: i16, items: Vec<(i8, Vec<u8>)> },
    /// PolyText16 items, with 16-bit character codes.
    Text16 { x: i16, y: i16, items: Vec<(i8, Vec<u16>)> },
    /// ImageText8: characters drawn over their background box.
    ImageText8 { x: i16, y: i16, text: Vec<u8> },
    /// ImageText16 with a character beyond the first 256.
    ImageText16 { x: i16, y: i16, chars: Vec<u16> },
}

/// A drawing operation: paint `shape` on `drawable` with GC `gc`.
pub struct DrawOp {
    pub drawable: u32,
    pub gc: u32,
    pub paint: Paint,
    pub shape: Shape,
}

/// The abstract shape, with its points as a sequence.
pub ghost enum ShapeView {
    Line { x0: int, y0: int, x1: int, y1: int },
    Polyline { points: Seq<(i32, i32)> },
    FillRect { x: i16, y: i16, width: u16, height: u16 },
    FillArc { x: i16, y: i16, width: u16, height: u16, angle1: i16, angle2: i16 },
    Image { format: u8, depth: u8, left_pad: u8, x: i16, y: i16, width: u16, height: u16, pixels: Seq<u8> },
    Copy {
        src: u32,
        src_x: i16,
        src_y: i16,
        x: i16,
        y: i16,
        width: u16,
        height: u16,
        include_inferiors: bool,
        mode: CopyMode,
    },
    CopyPlane { src: u32, src_x: i16, src_y: i16, x: i16, y: i16, width: u16, height: u16, bit_plane: u32 },
    Point { x: i16, y: i16 },
    Arc { x: i16, y: i16, width: u16, height: u16, angle1: i16, angle2: i16 },
    FillPolygon { points: Seq<(i16, i16)> },
    Clear { x: i16, y: i16, width: u16, height: u16, pixel: u32 },
    Swap { back: u32, action: u8, background: u32 },
    Text8 { x: i16, y: i16, items: Seq<(i8, Seq<u8>)> },
    Text16 { x: i16, y: i16, items: Seq<(i8, Seq<u16>)> },
    ImageText8 { x: i16, y: i16, text: Seq<u8> },
    ImageText16 { x: i16, y: i16, chars: Seq<u16> },
}

/// The abstract drawing operation.
pub ghost struct DrawOpView {
    pub drawable: u32,
    pub gc: u32,
    pub paint: Paint,
    pub shape: ShapeView,
}

impl View for DrawOp {
    type V = DrawOpView;

    open spec fn view(&self) -> DrawOpView {
        DrawOpView {
            drawable: self.drawable,
            gc: self.gc,
            paint: self.paint,
            shape: match self.shape {
                Shape::Line { x0, y0, x1, y1 } => ShapeView::Line { x0: x0 as int, y0: y0 as int, x1: x1 as int, y1: y1 as int },
                Shape::Polyline { points } => ShapeView::Polyline { points: points@ },
                Shape::FillRect { x, y, width, height } => ShapeView::FillRect { x, y, width, height },
                Shape::FillArc { x, y, width, height, angle1, angle2 } => ShapeView::FillArc { x, y, width, height, angle1, angle2 },
                Shape::Image { image } => ShapeView::Image {
                    format: image.format,
                    depth: image.depth,
                    left_pad: image.left_pad,
                    x: image.x,
                    y: image.y,
                    width: image.width,
                    height: image.height,
                    pixels: image.pixels@,
                },
                Shape::Copy { src, src_x, src_y, x, y, width, height, include_inferiors, mode } => ShapeView::Copy {
                    src,
                    src_x,
                    src_y,
                    x,
                    y,
                    width,
                    height,
                    include_inferiors,
                    mode,
                },
                Shape::CopyPlane { src, src_x, src_y, x, y, width, height, bit_plane } => ShapeView::CopyPlane {
                    src,
                    src_x,
                    src_y,
                    x,
                    y,
                    width,
                    height,
                    bit_plane,
                },
                Shape::Point { x, y } => ShapeView::Point { x, y },
                Shape::Arc { x, y, width, height, angle1, angle2 } => ShapeView::Arc { x, y, width, height, angle1, angle2 },
                Shape::FillPolygon { points } => ShapeView::FillPolygon { points: points@ },
                Shape::Clear { x, y, width, height, pixel } => ShapeView::Clear { x, y, width, height, pixel },
                Shape::Swap { back, action, background } => ShapeView::Swap { back, action, background },
                Shape::Text8 { x, y, items } => ShapeView::Text8 { x, y, items: text8_view(items@) },
                Shape::Text16 { x, y, items } => ShapeView::Text16 { x, y, items: text16_view(items@) },
                Shape::ImageText8 { x, y, text } => ShapeView::ImageText8 { x, y, text: text@ },
                Shape::ImageText16 { x, y, chars } => ShapeView::ImageText16 { x, y, chars: chars@ },
            },
        }
    }
}

/// PolyText8 items with their texts as sequences.
pub open spec fn text8_view(items: Seq<(i8, Vec<u8>)>) -> Seq<(i8, Seq<u8>)> {
    items.map_values(|it: (i8, Vec<u8>)| (it.0, it.1@))
}

/// PolyText16 items with their characters as sequences.
pub open spec fn text16_view(items: Seq<(i8, Vec<u16>)>) -> Seq<(i8, Seq<u16>)> {
    items.map_values(|it: (i8, Vec<u16>)| (it.0, it.1@))
}

/// The operations in a queue.
pub open spec fn ops_view(ops: Seq<DrawOp>) -> Seq<DrawOpView> {
    ops.map_values(|o: DrawOp| o@)
}

/// A drawable the request may name: a window or a pixmap.
pub open spec fn drawable_known(s: ClientState, d: u32) -> bool {
    s.windows@.contains_key(d) || s.pixmaps@.contains_key(d)
}

/// The error a drawing request with major opcode `major` is answered with,
/// if any: BadLength, BadDrawable, BadGC.
pub open spec fn draw_error(s: ClientState, d: Seq<u8>, major: u8) -> Option<Seq<u8>> {
    if d.len() < 12 {
        Some(error_packet(BAD_LENGTH, s.sequence, 0, major, 0, false))
    } else if !drawable_known(s, field32(d, 4, s.msb_first)) {
        Some(error_packet(BAD_DRAWABLE, s.sequence, field32(d, 4, s.msb_first), major, 0, false))
    } else if !s.gcs@.contains_key(field32(d, 8, s.msb_first)) {
        Some(error_packet(BAD_GC, s.sequence, field32(d, 8, s.msb_first), major, 0, false))
    } else {
        None
    }
}

/// Check a drawing request's length, drawable and GC.
pub(crate) fn check_draw_request(state: &ClientState, data: &[u8], major: u8) -> (r: Option<Vec<u8>>)
    ensures
        match draw_error(*state, data@, major) {
            Some(e) => r matches Some(v) && v@ == e,
            None => r is None,
        },
{
    let seq = state.sequence;
    if data.len() < 12 {
        return Some(build_error(BAD_LENGTH, seq, 0, major, 0));
    }
    let drawable = read_u32(data, 4, state.msb_first);
    let gc = read_u32(data, 8, state.msb_first);
    if !state.windows.contains_key(&drawable) && !state.pixmaps.contains_key(&drawable) {
        return Some(build_error(BAD_DRAWABLE, seq, drawable, major, 0));
    }
    if !state.gcs.contains_key(&gc) {
        return Some(build_error(BAD_GC, seq, gc, major, 0));
    }
    None
}

/// How a GC paints: tiled when its fill style is Tiled (1) and its tile is
/// a known pixmap, stippled when the style is Stippled (2) or
/// OpaqueStippled (3) and its stipple is a known pixmap, else solid.
pub open spec fn paint_of(s: ClientState, g: GcState) -> Paint {
    if g.fill_style == 1 && s.pixmaps@.contains_key(g.tile) {
        Paint::Tiled
    } else if (g.fill_style == 2 || g.fill_style == 3) && s.pixmaps@.contains_key(g.stipple) {
        Paint::Stippled { opaque: g.fill_style == 3 }
    } else {
        Paint::Solid
    }
}

/// Decide how a GC paints.
fn choose_paint(state: &ClientState, g: &GcState) -> (r: Paint)
    ensures
        r == paint_of(*state, *g),
{
    if g.fill_style == 1 && state.pixmaps.contains_key(&g.tile) {
        Paint::Tiled
    } else if (g.fill_style == 2 || g.fill_style == 3) && state.pixmaps.contains_key(&g.stipple) {
        Paint::Stippled { opaque: g.fill_style == 3 }
    } else {
        Paint::Solid
    }
}

/// The 8-byte (x, y, width, height) items of a request from byte 12 on; a
/// trailing partial item is ignored.
pub open spec fn request_rects(d: Seq<u8>, msb: bool) -> Seq<ClipRect> {
    Seq::new(
        ((d.len() - 12) / 8) as nat,
        |i: int| (field16(d, 12 + 8 * i, msb) as i16, field16(d, 14 + 8 * i, msb) as i16, field16(d, 16 + 8 * i, msb), field16(d, 18 + 8 * i, msb)),
    )
}

/// Decode the rectangles of a request.
fn decode_rects(data: &[u8], msb: bool) -> (r: Vec<ClipRect>)
    requires
        data@.len() >= 12,
    ensures
        r@ == request_rects(data@, msb),
{
    let ghost want = request_rects(data@, msb);
    let mut rects: Vec<ClipRect> = Vec::new();
    let mut offset: usize = 12;
    while offset <= data.len() - 8
        invariant
            12 <= offset <= data@.len(),
            (offset - 12) % 8 == 0,
            want == request_rects(data@, msb),
            rects@ == want.subrange(0, ((offset - 12) / 8) as int),
        decreases data@.len() - offset,
    {
        let x = read_i16(data, offset, msb);
        let y = read_i16(data, offset + 2, msb);
        let w = read_u16(data, offset + 4, msb);
        let h = read_u16(data, offset + 6, msb);
        rects.push((x, y, w, h));
        proof {
            let k = (offset - 12) / 8;
            assert(offset == 12 + 8 * k);
            assert(rects@ =~= want.subrange(0, k + 1));
        }
        offset = offset + 8;
    }
    proof {
        assert(((offset - 12) / 8) as int == want.len());
        assert(rects@ =~= want);
    }
    rects
}

/// The line width that damage is padded by: the GC's, at least 1, as a
/// 16-bit signed value.
pub open spec fn damage_pad(g: GcState) -> i16 {
    (if g.line_width > 1 { g.line_width } else { 1u16 }) as i16
}

/// The four sides of a rectangle outline, clockwise from the top.
pub open spec fn outline_side(r: ClipRect, k: int) -> ShapeView {
    let x = r.0 as int;
    let y = r.1 as int;
    let x2 = r.0 + r.2;
    let y2 = r.1 + r.3;
    if k == 0 {
        ShapeView::Line { x0: x, y0: y, x1: x2, y1: y }
    } else if k == 1 {
        ShapeView::Line { x0: x2, y0: y, x1: x2, y1: y2 }
    } else if k == 2 {
        ShapeView::Line { x0: x2, y0: y2, x1: x, y1: y2 }
    } else {
        ShapeView::Line { x0: x, y0: y2, x1: x, y1: y }
    }
}

/// The operations PolyRectangle queues: the four sides of each rectangle.
pub open spec fn outline_ops(drawable: u32, gc: u32, paint: Paint, rects: Seq<ClipRect>) -> Seq<DrawOpView> {
    Seq::new(4 * rects.len(), |k: int| DrawOpView { drawable, gc, paint, shape: outline_side(rects[k / 4], k % 4) })
}

/// The damage a PolyRectangle outline reports: the rectangle grown by the
/// line width on every side (16-bit wrap-around for the corner, saturating
/// size).
pub open spec fn outline_damage(drawable: u32, lw: i16, r: ClipRect) -> (u32, i16, i16, u16, u16) {
    let grow = (2 * (lw as u16)) as u16;
    (
        drawable,
        (r.0 - lw) as i16,
        (r.1 - lw) as i16,
        if r.2 + grow > u16::MAX { u16::MAX } else { (r.2 + grow) as u16 },
        if r.3 + grow > u16::MAX { u16::MAX } else { (r.3 + grow) as u16 },
    )
}

/// The state after a drawing request queued `ops` and reported `damage`.
pub open spec fn drawn(before: ClientState, after: ClientState, ops: Seq<DrawOpView>, damage: Seq<(u32, i16, i16, u16, u16)>) -> bool {
    &&& ops_view(after.draw_ops@) == ops_view(before.draw_ops@) + ops
    &&& after.damage_reports@ == before.damage_reports@ + damage
    &&& after == (ClientState { draw_ops: after.draw_ops, damage_reports: after.damage_reports, ..before })
}

/// Queue a drawing operation.
pub(crate) fn queue_op(state: &mut ClientState, op: DrawOp)
    ensures
        ops_view(final(state).draw_ops@) == ops_view(old(state).draw_ops@).push(op@),
        *final(state) == (ClientState { draw_ops: final(state).draw_ops, ..*old(state) }),
{
    state.draw_ops.push(op);
    assert(ops_view(state.draw_ops@) =~= ops_view(old(state).draw_ops@).push(op@));
}

/// Report damage on a drawable.
pub(crate) fn report_damage(state: &mut ClientState, d: (u32, i16, i16, u16, u16))
    ensures
        final(state).damage_reports@ == old(state).damage_reports@.push(d),
        *final(state) == (ClientState { damage_reports: final(state).damage_reports, ..*old(state) }),
{
    state.damage_reports.push(d);
}

/// What PolyRectangle answers `req` with, and the client state it leaves.
pub open spec fn poly_rectangle_done(pre: ClientState, post: ClientState, req: Seq<u8>, seq: u16, out: Seq<u8>) -> bool {
    &&& (match draw_error(pre, req, 67) {
            Some(e) => out == e && post == pre,
            None => {
                let s = pre;
                let drawable = field32(req, 4, s.msb_first);
                let gc_id = field32(req, 8, s.msb_first);
                let g = s.gcs@[gc_id];
                let rects = request_rects(req, s.msb_first);
                &&& out == Seq::<u8>::empty()
                &&& drawn(s, post, outline_ops(drawable, gc_id, paint_of(s, g), rects),
                    rects.map_values(|rc: ClipRect| outline_damage(drawable, damage_pad(g), rc)))
            },
        })
}

/// PolyRectangle (opcode 67): outline rectangles.
pub fn handle_poly_rectangle(state: &mut ClientState, data: &[u8]) -> (r: Vec<u8>)
    ensures
        poly_rectangle_done(*old(state), *final(state), data@, old(state).sequence, r@),
{
    match check_draw_request(state, data, 67) {
        Some(e) => {
            return e;
        },
        None => {},
    }
    let msb = state.msb_first;
    let drawable = read_u32(data, 4, msb);
    let gc_id = read_u32(data, 8, msb);
    let rects = decode_rects(data, msb);
    let (paint, lw) = match state.gcs.get(&gc_id) {
        Some(g) => (choose_paint(state, g), (if g.line_width > 1 { g.line_width } else { 1u16 }) as i16),
        None => {
            return Vec::new();
        },
    };
    let ghost s0 = *state;
    let ghost g = s0.gcs@[gc_id];
    let ghost all_ops = outline_ops(drawable, gc_id, paint, rects@);
    let ghost all_damage = rects@.map_values(|rc: ClipRect| outline_damage(drawable, damage_pad(g), rc));
    let mut i: usize = 0;
    while i < rects.len()
        invariant
            i <= rects@.len(),
            lw == damage_pad(g),
            all_ops == outline_ops(drawable, gc_id, paint, rects@),
            all_damage == rects@.map_values(|rc: ClipRect| outline_damage(drawable, damage_pad(g), rc)),
            drawn(s0, *state, all_ops.subrange(0, 4 * i), all_damage.subrange(0, i as int)),
        decreases rects@.len() - i,
    {
        let (x, y, w, h) = rects[i];
        let x0 = x as i32;
        let y0 = y as i32;
        let x2 = x as i32 + w as i32;
        let y2 = y as i32 + h as i32;
        let ghost before = ops_view(state.draw_ops@);
        queue_op(state, DrawOp { drawable, gc: gc_id, paint, shape: Shape::Line { x0, y0, x1: x2, y1: y0 } });
        queue_op(state, DrawOp { drawable, gc: gc_id, paint, shape: Shape::Line { x0: x2, y0, x1: x2, y1: y2 } });
        queue_op(state, DrawOp { drawable, gc: gc_id, paint, shape: Shape::Line { x0: x2, y0: y2, x1: x0, y1: y2 } });
        queue_op(state, DrawOp { drawable, gc: gc_id, paint, shape: Shape::Line { x0, y0: y2, x1: x0, y1: y0 } });
        proof {
            assert(ops_view(state.draw_ops@) =~= before + all_ops.subrange(4 * i, 4 * i + 4));
            assert(all_ops.subrange(0, 4 * i) + all_ops.subrange(4 * i, 4 * i + 4) =~= all_ops.subrange(0, 4 * (i + 1)));
            assert(ops_view(state.draw_ops@) =~= ops_view(s0.draw_ops@) + all_ops.subrange(0, 4 * (i + 1)));
        }
        let grow = (2u32 * (lw as u16) as u32) as u16;
        let dw: u16 = if w as u32 + grow as u32 > 65535 { 65535 } else { w + grow };
        let dh: u16 = if h as u32 + grow as u32 > 65535 { 65535 } else { h + grow };
        let ghost dbefore = state.damage_reports@;
        report_damage(state, (drawable, (x as i32 - lw as i32) as i16, (y as i32 - lw as i32) as i16, dw, dh));
        proof {
            assert(all_damage[i as int] == outline_damage(drawable, damage_pad(g), rects@[i as int]));
            assert(all_damage.subrange(0, i + 1) =~= all_damage.subrange(0, i as int).push(all_damage[i as int]));
            assert(state.damage_reports@ =~= s0.damage_reports@ + all_damage.subrange(0, i + 1));
        }
        i = i + 1;
    }
    proof {
        assert(all_ops.subrange(0, (4 * rects@.len()) as int) =~= all_ops);
        assert(all_damage.subrange(0, rects@.len() as int) =~= all_damage);
    }
    Vec::new()
}


/// The pieces of rectangle `r` that lie in each clip rectangle, in clip
/// order, leaving out empty ones.
pub open spec fn clipped_pieces(r: ClipRect, clips: Seq<ClipRect>) -> Seq<ClipRect>
    decreases clips.len(),
{
    if clips.len() == 0 {
        Seq::empty()
    } else {
        let rest = clipped_pieces(r, clips.drop_last());
        let c = clips.last();
        let piece = intersection(r.0, r.1, r.2, r.3, c.0, c.1, c.2, c.3);
        if piece.2 > 0 && piece.3 > 0 {
            rest.push(piece)
        } else {
            rest
        }
    }
}

/// What a filled rectangle is painted as: tiled and stippled fills are cut
/// into their pieces inside the GC's clip rectangles when it has any; a
/// solid fill is painted whole (the GC's clip applies when painting).
pub open spec fn fill_pieces(paint: Paint, clips: Seq<ClipRect>, r: ClipRect) -> Seq<ClipRect> {
    if !(paint is Solid) && clips.len() > 0 {
        clipped_pieces(r, clips)
    } else {
        seq![r]
    }
}

/// The operation that fills one rectangle.
pub open spec fn fill_rect_op(drawable: u32, gc: u32, paint: Paint, r: ClipRect) -> DrawOpView {
    DrawOpView { drawable, gc, paint, shape: ShapeView::FillRect { x: r.0, y: r.1, width: r.2, height: r.3 } }
}

/// The operations PolyFillRectangle queues for `rects`, in order.
pub open spec fn fill_rect_ops(drawable: u32, gc: u32, paint: Paint, clips: Seq<ClipRect>, rects: Seq<ClipRect>) -> Seq<DrawOpView>
    decreases rects.len(),
{
    if rects.len() == 0 {
        Seq::empty()
    } else {
        fill_rect_ops(drawable, gc, paint, clips, rects.drop_last())
            + fill_pieces(paint, clips, rects.last()).map_values(|p: ClipRect| fill_rect_op(drawable, gc, paint, p))
    }
}

/// Damage covering a rectangle exactly.
pub open spec fn exact_damage(drawable: u32, r: ClipRect) -> (u32, i16, i16, u16, u16) {
    (drawable, r.0, r.1, r.2, r.3)
}

/// Cut a rectangle by clip rectangles.
fn clip_pieces(r: ClipRect, clips: &Vec<ClipRect>) -> (out: Vec<ClipRect>)
    ensures
        out@ == clipped_pieces(r, clips@),
{
    let mut out: Vec<ClipRect> = Vec::new();
    let mut j: usize = 0;
    while j < clips.len()
        invariant
            j <= clips@.len(),
            out@ == clipped_pieces(r, clips@.subrange(0, j as int)),
        decreases clips@.len() - j,
    {
        let (cx, cy, cw, ch) = clips[j];
        let piece = intersect_rects(r.0, r.1, r.2, r.3, cx, cy, cw, ch);
        if piece.2 > 0 && piece.3 > 0 {
            out.push(piece);
        }
        proof {
            assert(clips@.subrange(0, j + 1).drop_last() =~= clips@.subrange(0, j as int));
        }
        j = j + 1;
    }
    proof {
        assert(clips@.subrange(0, clips@.len() as int) =~= clips@);
    }
    out
}

/// What PolyFillRectangle answers `req` with, and the client state it leaves.
pub open spec fn poly_fill_rectangle_done(pre: ClientState, post: ClientState, req: Seq<u8>, seq: u16, out: Seq<u8>) -> bool {
    &&& (match draw_error(pre, req, 70) {
            Some(e) => out == e && post == pre,
            None => {
                let s = pre;
                let drawable = field32(req, 4, s.msb_first);
                let gc_id = field32(req, 8, s.msb_first);
                let g = s.gcs@[gc_id];
                let rects = request_rects(req, s.msb_first);
                &&& out == Seq::<u8>::empty()
                &&& drawn(s, post, fill_rect_ops(drawable, gc_id, paint_of(s, g), g.clip_rects@, rects),
                    rects.map_values(|rc: ClipRect| exact_damage(drawable, rc)))
            },
        })
}

/// PolyFillRectangle (opcode 70): fill rectangles.
pub fn handle_poly_fill_rectangle(state: &mut ClientState, data: &[u8]) -> (r: Vec<u8>)
    ensures
        poly_fill_rectangle_done(*old(state), *final(state), data@, old(state).sequence, r@),
{
    match check_draw_request(state, data, 70) {
        Some(e) => {
            return e;
        },
        None => {},
    }
    let msb = state.msb_first;
    let drawable = read_u32(data, 4, msb);
    let gc_id = read_u32(data, 8, msb);
    let rects = decode_rects(data, msb);
    let (paint, clips) = match state.gcs.get(&gc_id) {
        Some(g) => (choose_paint(state, g), copy_rects(&g.clip_rects)),
        None => {
            return Vec::new();
        },
    };
    let ghost s0 = *state;
    let ghost all_damage = rects@.map_values(|rc: ClipRect| exact_damage(drawable, rc));
    let mut i: usize = 0;
    while i < rects.len()
        invariant
            i <= rects@.len(),
            all_damage == rects@.map_values(|rc: ClipRect| exact_damage(drawable, rc)),
            drawn(s0, *state, fill_rect_ops(drawable, gc_id, paint, clips@, rects@.subrange(0, i as int)),
                all_damage.subrange(0, i as int)),
        decreases rects@.len() - i,
    {
        let rc = rects[i];
        let pieces: Vec<ClipRect> = match paint {
            Paint::Solid => vec![rc],
            _ => {
                if clips.len() > 0 {
                    clip_pieces(rc, &clips)
                } else {
                    vec![rc]
                }
            },
        };
        let ghost before = ops_view(state.draw_ops@);
        let ghost want = pieces@.map_values(|p: ClipRect| fill_rect_op(drawable, gc_id, paint, p));
        assert(pieces@ == fill_pieces(paint, clips@, rc));
        let mut j: usize = 0;
        while j < pieces.len()
            invariant
                j <= pieces@.len(),
                want == pieces@.map_values(|p: ClipRect| fill_rect_op(drawable, gc_id, paint, p)),
                ops_view(state.draw_ops@) == before + want.subrange(0, j as int),
                state.damage_reports@ == s0.damage_reports@ + all_damage.subrange(0, i as int),
                *state == (ClientState { draw_ops: state.draw_ops, damage_reports: state.damage_reports, ..s0 }),
            decreases pieces@.len() - j,
        {
            let (px, py, pw, ph) = pieces[j];
            queue_op(state, DrawOp { drawable, gc: gc_id, paint, shape: Shape::FillRect { x: px, y: py, width: pw, height: ph } });
            proof {
                assert(want.subrange(0, j + 1) =~= want.subrange(0, j as int).push(want[j as int]));
            }
            j = j + 1;
        }
        report_damage(state, (drawable, rc.0, rc.1, rc.2, rc.3));
        proof {
            let prefix = rects@.subrange(0, i + 1);
            assert(prefix.drop_last() =~= rects@.subrange(0, i as int));
            assert(want.subrange(0, pieces@.len() as int) =~= want);
            assert(ops_view(state.draw_ops@) =~= ops_view(s0.draw_ops@) + fill_rect_ops(drawable, gc_id, paint, clips@, prefix));
            assert(all_damage.subrange(0, i + 1) =~= all_damage.subrange(0, i as int).push(all_damage[i as int]));
            assert(state.damage_reports@ =~= s0.damage_reports@ + all_damage.subrange(0, i + 1));
        }
        i = i + 1;
    }
    proof {
        assert(rects@.subrange(0, rects@.len() as int) =~= rects@);
        assert(all_damage.subrange(0, rects@.len() as int) =~= all_damage);
    }
    Vec::new()
}


/// An arc item: rectangle of the ellipse, start angle and extent.
pub type ArcItem = (i16, i16, u16, u16, i16, i16);

/// The 12-byte arc items of a request from byte 12 on.
pub open spec fn request_arcs(d: Seq<u8>, msb: bool) -> Seq<ArcItem> {
    Seq::new(
        ((d.len() - 12) / 12) as nat,
        |i: int| (
            field16(d, 12 + 12 * i, msb) as i16,
            field16(d, 14 + 12 * i, msb) as i16,
            field16(d, 16 + 12 * i, msb),
            field16(d, 18 + 12 * i, msb),
            field16(d, 20 + 12 * i, msb) as i16,
            field16(d, 22 + 12 * i, msb) as i16,
        ),
    )
}

/// The operation that fills one arc.
pub open spec fn fill_arc_op(drawable: u32, gc: u32, paint: Paint, a: ArcItem) -> DrawOpView {
    DrawOpView {
        drawable,
        gc,
        paint,
        shape: ShapeView::FillArc { x: a.0, y: a.1, width: a.2, height: a.3, angle1: a.4, angle2: a.5 },
    }
}

/// Decode the arcs of a request.
fn decode_arcs(data: &[u8], msb: bool) -> (r: Vec<ArcItem>)
    requires
        data@.len() >= 12,
    ensures
        r@ == request_arcs(data@, msb),
{
    let ghost want = request_arcs(data@, msb);
    let mut arcs: Vec<ArcItem> = Vec::new();
    let mut offset: usize = 12;
    while offset <= data.len() - 12
        invariant
            12 <= offset <= data@.len(),
            (offset - 12) % 12 == 0,
            want == request_arcs(data@, msb),
            arcs@ == want.subrange(0, ((offset - 12) / 12) as int),
        decreases data@.len() - offset,
    {
        let x = read_i16(data, offset, msb);
        let y = read_i16(data, offset + 2, msb);
        let w = read_u16(data, offset + 4, msb);
        let h = read_u16(data, offset + 6, msb);
        let a1 = read_i16(data, offset + 8, msb);
        let a2 = read_i16(data, offset + 10, msb);
        arcs.push((x, y, w, h, a1, a2));
        proof {
            let k = (offset - 12) / 12;
            assert(offset == 12 + 12 * k);
            assert(arcs@ =~= want.subrange(0, k + 1));
        }
        offset = offset + 12;
    }
    proof {
        assert(((offset - 12) / 12) as int == want.len());
        assert(arcs@ =~= want);
    }
    arcs
}

/// What PolyFillArc answers `req` with, and the client state it leaves.
pub open spec fn poly_fill_arc_done(pre: ClientState, post: ClientState, req: Seq<u8>, seq: u16, out: Seq<u8>) -> bool {
    &&& (match draw_error(pre, req, 71) {
            Some(e) => out == e && post == pre,
            None => {
                let s = pre;
                let drawable = field32(req, 4, s.msb_first);
                let gc_id = field32(req, 8, s.msb_first);
                let arcs = request_arcs(req, s.msb_first);
                &&& out == Seq::<u8>::empty()
                &&& drawn(s, post, arcs.map_values(|a: ArcItem| fill_arc_op(drawable, gc_id, paint_of(s, s.gcs@[gc_id]), a)),
                    arcs.map_values(|a: ArcItem| (drawable, a.0, a.1, a.2, a.3)))
            },
        })
}

/// PolyFillArc (opcode 71): fill arcs.
pub fn handle_poly_fill_arc(state: &mut ClientState, data: &[u8]) -> (r: Vec<u8>)
    ensures
        poly_fill_arc_done(*old(state), *final(state), data@, old(state).sequence, r@),
{
    match check_draw_request(state, data, 71) {
        Some(e) => {
            return e;
        },
        None => {},
    }
    let msb = state.msb_first;
    let drawable = read_u32(data, 4, msb);
    let gc_id = read_u32(data, 8, msb);
    let arcs = decode_arcs(data, msb);
    let paint = match state.gcs.get(&gc_id) {
        Some(g) => choose_paint(state, g),
        None => {
            return Vec::new();
        },
    };
    let ghost s0 = *state;
    let ghost all_ops = arcs@.map_values(|a: ArcItem| fill_arc_op(drawable, gc_id, paint, a));
    let ghost all_damage = arcs@.map_values(|a: ArcItem| (drawable, a.0, a.1, a.2, a.3));
    let mut i: usize = 0;
    while i < arcs.len()
        invariant
            i <= arcs@.len(),
            all_ops == arcs@.map_values(|a: ArcItem| fill_arc_op(drawable, gc_id, paint, a)),
            all_damage == arcs@.map_values(|a: ArcItem| (drawable, a.0, a.1, a.2, a.3)),
            drawn(s0, *state, all_ops.subrange(0, i as int), all_damage.subrange(0, i as int)),
        decreases arcs@.len() - i,
    {
        let (x, y, w, h, a1, a2) = arcs[i];
        queue_op(state, DrawOp { drawable, gc: gc_id, paint, shape: Shape::FillArc { x, y, width: w, height: h, angle1: a1, angle2: a2 } });
        report_damage(state, (drawable, x, y, w, h));
        proof {
            assert(all_ops.subrange(0, i + 1) =~= all_ops.subrange(0, i as int).push(all_ops[i as int]));
            assert(all_damage.subrange(0, i + 1) =~= all_damage.subrange(0, i as int).push(all_damage[i as int]));
            assert(ops_view(state.draw_ops@) =~= ops_view(s0.draw_ops@) + all_ops.subrange(0, i + 1));
            assert(state.damage_reports@ =~= s0.damage_reports@ + all_damage.subrange(0, i + 1));
        }
        i = i + 1;
    }
    proof {
        assert(all_ops.subrange(0, arcs@.len() as int) =~= all_ops);
        assert(all_damage.subrange(0, arcs@.len() as int) =~= all_damage);
    }
    Vec::new()
}


/// A bounding box as (min x, min y, max x, max y).
pub type BoundingBox = (i16, i16, i16, i16);

/// The box that contains nothing yet.
pub open spec fn empty_box() -> BoundingBox {
    (i16::MAX, i16::MAX, i16::MIN, i16::MIN)
}

/// A box grown to take in the point (x, y).
pub open spec fn box_with(b: BoundingBox, x: i16, y: i16) -> BoundingBox {
    (
        if x < b.0 { x } else { b.0 },
        if y < b.1 { y } else { b.1 },
        if x > b.2 { x } else { b.2 },
        if y > b.3 { y } else { b.3 },
    )
}

/// The bounding box of points.
pub open spec fn points_box(pts: Seq<(i16, i16)>) -> BoundingBox
    decreases pts.len(),
{
    if pts.len() == 0 {
        empty_box()
    } else {
        box_with(points_box(pts.drop_last()), pts.last().0, pts.last().1)
    }
}

/// The damage a line drawing reports: its bounding box grown by the line
/// width on every side, in 16-bit wrap-around arithmetic.
pub open spec fn box_damage(drawable: u32, lw: i16, b: BoundingBox) -> (u32, i16, i16, u16, u16) {
    (drawable, (b.0 - lw) as i16, (b.1 - lw) as i16, (b.2 - b.0 + 2 * lw) as u16, (b.3 - b.1 + 2 * lw) as u16)
}

/// Grow a box to take in a point.
fn grow_box(b: BoundingBox, x: i16, y: i16) -> (r: BoundingBox)
    ensures
        r == box_with(b, x, y),
{
    (
        if x < b.0 { x } else { b.0 },
        if y < b.1 { y } else { b.1 },
        if x > b.2 { x } else { b.2 },
        if y > b.3 { y } else { b.3 },
    )
}

/// Compute the damage of a bounding box.
fn damage_of_box(drawable: u32, lw: i16, b: BoundingBox) -> (r: (u32, i16, i16, u16, u16))
    ensures
        r == box_damage(drawable, lw, b),
{
    (
        drawable,
        (b.0 as i32 - lw as i32) as i16,
        (b.1 as i32 - lw as i32) as i16,
        (b.2 as i32 - b.0 as i32 + 2 * lw as i32) as u16,
        (b.3 as i32 - b.1 as i32 + 2 * lw as i32) as u16,
    )
}

/// A segment item: its two end points.
pub type SegmentItem = (i16, i16, i16, i16);

/// The 8-byte segments of a request from byte 12 on.
pub open spec fn request_segments(d: Seq<u8>, msb: bool) -> Seq<SegmentItem> {
    Seq::new(
        ((d.len() - 12) / 8) as nat,
        |i: int| (
            field16(d, 12 + 8 * i, msb) as i16,
            field16(d, 14 + 8 * i, msb) as i16,
            field16(d, 16 + 8 * i, msb) as i16,
            field16(d, 18 + 8 * i, msb) as i16,
        ),
    )
}

/// The bounding box of the end points of segments, first end first.
pub open spec fn segments_box(segs: Seq<SegmentItem>) -> BoundingBox
    decreases segs.len(),
{
    if segs.len() == 0 {
        empty_box()
    } else {
        let l = segs.last();
        box_with(box_with(segments_box(segs.drop_last()), l.0, l.1), l.2, l.3)
    }
}

/// The operation that draws one segment.
pub open spec fn segment_op(drawable: u32, gc: u32, paint: Paint, sg: SegmentItem) -> DrawOpView {
    DrawOpView { drawable, gc, paint, shape: ShapeView::Line { x0: sg.0 as int, y0: sg.1 as int, x1: sg.2 as int, y1: sg.3 as int } }
}

/// The damage of line drawing through a box, if anything was drawn.
pub open spec fn lines_damage(drawable: u32, lw: i16, any: bool, b: BoundingBox) -> Seq<(u32, i16, i16, u16, u16)> {
    if any {
        seq![box_damage(drawable, lw, b)]
    } else {
        Seq::empty()
    }
}

/// What PolySegment answers `req` with, and the client state it leaves.
pub open spec fn poly_segment_done(pre: ClientState, post: ClientState, req: Seq<u8>, seq: u16, out: Seq<u8>) -> bool {
    &&& (match draw_error(pre, req, 66) {
            Some(e) => out == e && post == pre,
            None => {
                let s = pre;
                let drawable = field32(req, 4, s.msb_first);
                let gc_id = field32(req, 8, s.msb_first);
                let g = s.gcs@[gc_id];
                let segs = request_segments(req, s.msb_first);
                &&& out == Seq::<u8>::empty()
                &&& drawn(s, post, segs.map_values(|sg: SegmentItem| segment_op(drawable, gc_id, paint_of(s, g), sg)),
                    lines_damage(drawable, damage_pad(g), segs.len() > 0, segments_box(segs)))
            },
        })
}

/// PolySegment (opcode 66): draw unconnected lines.
pub fn handle_poly_segment(state: &mut ClientState, data: &[u8]) -> (r: Vec<u8>)
    ensures
        poly_segment_done(*old(state), *final(state), data@, old(state).sequence, r@),
{
    match check_draw_request(state, data, 66) {
        Some(e) => {
            return e;
        },
        None => {},
    }
    let msb = state.msb_first;
    let drawable = read_u32(data, 4, msb);
    let gc_id = read_u32(data, 8, msb);
    let (paint, lw) = match state.gcs.get(&gc_id) {
        Some(g) => (choose_paint(state, g), (if g.line_width > 1 { g.line_width } else { 1u16 }) as i16),
        None => {
            return Vec::new();
        },
    };
    let ghost s0 = *state;
    let ghost segs = request_segments(data@, msb);
    let ghost all_ops = segs.map_values(|sg: SegmentItem| segment_op(drawable, gc_id, paint, sg));
    let mut b: BoundingBox = (i16::MAX, i16::MAX, i16::MIN, i16::MIN);
    let mut offset: usize = 12;
    while offset <= data.len() - 8
        invariant
            12 <= offset <= data@.len(),
            (offset - 12) % 8 == 0,
            segs == request_segments(data@, msb),
            all_ops == segs.map_values(|sg: SegmentItem| segment_op(drawable, gc_id, paint, sg)),
            b == segments_box(segs.subrange(0, ((offset - 12) / 8) as int)),
            ops_view(state.draw_ops@) == ops_view(s0.draw_ops@) + all_ops.subrange(0, ((offset - 12) / 8) as int),
            *state == (ClientState { draw_ops: state.draw_ops, ..s0 }),
        decreases data@.len() - offset,
    {
        let x1 = read_i16(data, offset, msb);
        let y1 = read_i16(data, offset + 2, msb);
        let x2 = read_i16(data, offset + 4, msb);
        let y2 = read_i16(data, offset + 6, msb);
        let ghost k = (offset - 12) / 8;
        queue_op(state, DrawOp { drawable, gc: gc_id, paint, shape: Shape::Line { x0: x1 as i32, y0: y1 as i32, x1: x2 as i32, y1: y2 as i32 } });
        b = grow_box(grow_box(b, x1, y1), x2, y2);
        proof {
            assert(offset == 12 + 8 * k);
            assert(segs.subrange(0, k + 1).drop_last() =~= segs.subrange(0, k));
            assert(all_ops.subrange(0, k + 1) =~= all_ops.subrange(0, k).push(all_ops[k]));
            assert(ops_view(state.draw_ops@) =~= ops_view(s0.draw_ops@) + all_ops.subrange(0, k + 1));
        }
        offset = offset + 8;
    }
    proof {
        assert(((offset - 12) / 8) as int == segs.len());
        assert(segs.subrange(0, segs.len() as int) =~= segs);
        assert(all_ops.subrange(0, segs.len() as int) =~= all_ops);
    }
    if offset > 12 {
        let d = damage_of_box(drawable, lw, b);
        report_damage(state, d);
        proof {
            assert(state.damage_reports@ =~= s0.damage_reports@ + seq![d]);
        }
    } else {
        proof {
            assert(state.damage_reports@ =~= s0.damage_reports@ + Seq::<(u32, i16, i16, u16, u16)>::empty());
        }
    }
    Vec::new()
}


/// The first `n` points of a request whose 4-byte points start at byte
/// `first`; in relative mode each point after the first is an offset from
/// the one before (16-bit wrap-around).
pub open spec fn points_upto(d: Seq<u8>, first: int, msb: bool, relative: bool, n: nat) -> Seq<(i16, i16)>
    decreases n,
{
    if n == 0 {
        Seq::empty()
    } else {
        let before = points_upto(d, first, msb, relative, (n - 1) as nat);
        let k = n - 1;
        let x = field16(d, first + 4 * k, msb) as i16;
        let y = field16(d, first + 2 + 4 * k, msb) as i16;
        if relative && k > 0 {
            before.push((before.last().0.wrapping_add(x), before.last().1.wrapping_add(y)))
        } else {
            before.push((x, y))
        }
    }
}

/// The points of a PolyLine request: coordinate mode Previous (1) is
/// relative, anything else absolute.
pub open spec fn line_points(d: Seq<u8>, msb: bool) -> Seq<(i16, i16)> {
    points_upto(d, 12, msb, d[1] == 1, ((d.len() - 12) / 4) as nat)
}

/// There are as many points as items read.
proof fn lemma_points_len(d: Seq<u8>, first: int, msb: bool, relative: bool, n: nat)
    ensures
        points_upto(d, first, msb, relative, n).len() == n,
    decreases n,
{
    if n > 0 {
        lemma_points_len(d, first, msb, relative, (n - 1) as nat);
    }
}

/// Decode the points of a request from byte `first` on, with their
/// bounding box.
fn decode_points(data: &[u8], first: usize, msb: bool, relative: bool) -> (r: (Vec<(i16, i16)>, BoundingBox))
    requires
        first <= data@.len(),
    ensures
        r.0@ == points_upto(data@, first as int, msb, relative, ((data@.len() - first) / 4) as nat),
        r.1 == points_box(r.0@),
{
    let mut points: Vec<(i16, i16)> = Vec::new();
    let mut b: BoundingBox = (i16::MAX, i16::MAX, i16::MIN, i16::MIN);
    let mut offset: usize = first;
    while offset < data.len() && data.len() - offset >= 4
        invariant
            first <= offset <= data@.len(),
            (offset - first) % 4 == 0,
            points@ == points_upto(data@, first as int, msb, relative, ((offset - first) / 4) as nat),
            b == points_box(points@),
        decreases data@.len() - offset,
    {
        let x = read_i16(data, offset, msb);
        let y = read_i16(data, offset + 2, msb);
        let ghost k = (offset - first) / 4;
        let ghost before = points@;
        proof {
            lemma_points_len(data@, first as int, msb, relative, k as nat);
        }
        let p = if relative && points.len() > 0 {
            let (px, py) = points[points.len() - 1];
            (px.wrapping_add(x), py.wrapping_add(y))
        } else {
            (x, y)
        };
        points.push(p);
        b = grow_box(b, p.0, p.1);
        proof {
            assert(offset == first + 4 * k);
            assert(before.len() == k);
            assert(points@.drop_last() =~= before);
        }
        offset = offset + 4;
    }
    proof {
        assert(((offset - first) / 4) as nat == ((data@.len() - first) / 4) as nat);
    }
    (points, b)
}

/// The points as 32-bit coordinates.
pub open spec fn widened(pts: Seq<(i16, i16)>) -> Seq<(i32, i32)> {
    pts.map_values(|p: (i16, i16)| (p.0 as i32, p.1 as i32))
}

/// The operations PolyLine queues: one polyline when painted solid (joined
/// by the GC's join style), else each consecutive pair as its own line.
pub open spec fn polyline_ops(drawable: u32, gc: u32, paint: Paint, pts: Seq<(i16, i16)>) -> Seq<DrawOpView> {
    if paint is Solid {
        seq![DrawOpView { drawable, gc, paint, shape: ShapeView::Polyline { points: widened(pts) } }]
    } else {
        Seq::new(
            if pts.len() > 0 { (pts.len() - 1) as nat } else { 0 },
            |k: int| DrawOpView {
                drawable,
                gc,
                paint,
                shape: ShapeView::Line { x0: pts[k].0 as int, y0: pts[k].1 as int, x1: pts[k + 1].0 as int, y1: pts[k + 1].1 as int },
            },
        )
    }
}

/// Widen points to 32-bit coordinates.
fn widen_points(pts: &Vec<(i16, i16)>) -> (r: Vec<(i32, i32)>)
    ensures
        r@ == widened(pts@),
{
    let mut out: Vec<(i32, i32)> = Vec::new();
    let mut i: usize = 0;
    while i < pts.len()
        invariant
            i <= pts@.len(),
            out@ == widened(pts@.subrange(0, i as int)),
        decreases pts@.len() - i,
    {
        let (x, y) = pts[i];
        out.push((x as i32, y as i32));
        proof {
            assert(widened(pts@.subrange(0, i + 1)) =~= widened(pts@.subrange(0, i as int)).push((x as i32, y as i32)));
        }
        i = i + 1;
    }
    proof {
        assert(pts@.subrange(0, pts@.len() as int) =~= pts@);
    }
    out
}

/// What PolyLine answers `req` with, and the client state it leaves.
pub open spec fn poly_line_done(pre: ClientState, post: ClientState, req: Seq<u8>, seq: u16, out: Seq<u8>) -> bool {
    &&& (match draw_error(pre, req, 65) {
            Some(e) => out == e && post == pre,
            None => {
                let s = pre;
                let drawable = field32(req, 4, s.msb_first);
                let gc_id = field32(req, 8, s.msb_first);
                let g = s.gcs@[gc_id];
                let pts = line_points(req, s.msb_first);
                &&& out == Seq::<u8>::empty()
                &&& drawn(s, post, polyline_ops(drawable, gc_id, paint_of(s, g), pts),
                    lines_damage(drawable, damage_pad(g), pts.len() > 0, points_box(pts)))
            },
        })
}

/// PolyLine (opcode 65): draw connected lines.
pub fn handle_poly_line(state: &mut ClientState, data: &[u8]) -> (r: Vec<u8>)
    ensures
        poly_line_done(*old(state), *final(state), data@, old(state).sequence, r@),
{
    match check_draw_request(state, data, 65) {
        Some(e) => {
            return e;
        },
        None => {},
    }
    let msb = state.msb_first;
    let relative = data[1] == 1;
    let drawable = read_u32(data, 4, msb);
    let gc_id = read_u32(data, 8, msb);
    let (paint, lw) = match state.gcs.get(&gc_id) {
        Some(g) => (choose_paint(state, g), (if g.line_width > 1 { g.line_width } else { 1u16 }) as i16),
        None => {
            return Vec::new();
        },
    };
    let ghost s0 = *state;
    let (points, b) = decode_points(data, 12, msb, relative);
    let ghost pts = points@;
    let ghost want = polyline_ops(drawable, gc_id, paint, pts);
    match paint {
        Paint::Solid => {
            let wide = widen_points(&points);
            queue_op(state, DrawOp { drawable, gc: gc_id, paint, shape: Shape::Polyline { points: wide } });
            proof {
                assert(ops_view(state.draw_ops@) =~= ops_view(s0.draw_ops@) + want);
            }
        },
        _ => {
            let mut k: usize = 1;
            while k < points.len()
                invariant
                    points@ == pts,
                    !(paint is Solid),
                    want == polyline_ops(drawable, gc_id, paint, pts),
                    1 <= k,
                    k <= pts.len() || k == 1,
                    ops_view(state.draw_ops@) == ops_view(s0.draw_ops@) + want.subrange(0, k - 1),
                    *state == (ClientState { draw_ops: state.draw_ops, ..s0 }),
                decreases pts.len() - k,
            {
                let (x0, y0) = points[k - 1];
                let (x1, y1) = points[k];
                queue_op(state, DrawOp { drawable, gc: gc_id, paint, shape: Shape::Line { x0: x0 as i32, y0: y0 as i32, x1: x1 as i32, y1: y1 as i32 } });
                proof {
                    assert(want.subrange(0, k as int) =~= want.subrange(0, k - 1).push(want[k - 1]));
                    assert(ops_view(state.draw_ops@) =~= ops_view(s0.draw_ops@) + want.subrange(0, k as int));
                }
                k = k + 1;
            }
            proof {
                assert(want.subrange(0, want.len() as int) =~= want);
            }
        },
    }
    if points.len() > 0 {
        let d = damage_of_box(drawable, lw, b);
        report_damage(state, d);
        proof {
            assert(state.damage_reports@ =~= s0.damage_reports@ + seq![d]);
        }
    } else {
        proof {
            assert(state.damage_reports@ =~= s0.damage_reports@ + Seq::<(u32, i16, i16, u16, u16)>::empty());
        }
    }
    Vec::new()
}


/// The error PutImage (opcode 72) is answered with, if any: a request
/// shorter than its 24-byte header, an unknown drawable or GC, a format
/// past ZPixmap (2), a side over 32767, or no image bytes for a non-empty
/// image.
pub open spec fn put_image_error(s: ClientState, d: Seq<u8>) -> Option<Seq<u8>> {
    let msb = s.msb_first;
    let drawable = field32(d, 4, msb);
    let gc = field32(d, 8, msb);
    let w = field16(d, 12, msb);
    let h = field16(d, 14, msb);
    if d.len() < 24 {
        Some(error_packet(BAD_LENGTH, s.sequence, 0, 72, 0, false))
    } else if !drawable_known(s, drawable) {
        Some(error_packet(BAD_DRAWABLE, s.sequence, drawable, 72, 0, false))
    } else if !s.gcs@.contains_key(gc) {
        Some(error_packet(BAD_GC, s.sequence, gc, 72, 0, false))
    } else if d[1] > 2 {
        Some(error_packet(BAD_VALUE, s.sequence, d[1] as u32, 72, 0, false))
    } else if w > 32767 || h > 32767 {
        Some(error_packet(BAD_VALUE, s.sequence, w as u32, 72, 0, false))
    } else if w > 0 && h > 0 && d.len() == 24 {
        Some(error_packet(BAD_LENGTH, s.sequence, 0, 72, 0, false))
    } else {
        None
    }
}

/// The image a PutImage request carries.
pub open spec fn put_image_shape(d: Seq<u8>, msb: bool) -> ShapeView {
    ShapeView::Image {
        format: d[1],
        depth: d[21],
        left_pad: d[20],
        x: field16(d, 16, msb) as i16,
        y: field16(d, 18, msb) as i16,
        width: field16(d, 12, msb),
        height: field16(d, 14, msb),
        pixels: d.subrange(24, d.len() as int),
    }
}

/// What PutImage answers `req` with, and the client state it leaves.
pub open spec fn put_image_done(pre: ClientState, post: ClientState, req: Seq<u8>, seq: u16, out: Seq<u8>) -> bool {
    &&& (match put_image_error(pre, req) {
            Some(e) => out == e && post == pre,
            None => {
                let s = pre;
                let msb = s.msb_first;
                let drawable = field32(req, 4, msb);
                let gc_id = field32(req, 8, msb);
                &&& out == Seq::<u8>::empty()
                &&& drawn(s, post,
                    seq![DrawOpView { drawable, gc: gc_id, paint: Paint::Solid, shape: put_image_shape(req, msb) }],
                    seq![(drawable, field16(req, 16, msb) as i16, field16(req, 18, msb) as i16,
                        field16(req, 12, msb), field16(req, 14, msb))])
            },
        })
}

/// PutImage (opcode 72): queue the image for painting and report its
/// rectangle as damaged.
pub fn handle_put_image(state: &mut ClientState, data: &[u8]) -> (r: Vec<u8>)
    ensures
        put_image_done(*old(state), *final(state), data@, old(state).sequence, r@),
{
    let seq = state.sequence;
    if data.len() < 24 {
        return build_error(BAD_LENGTH, seq, 0, 72, 0);
    }
    match check_draw_request(state, data, 72) {
        Some(e) => {
            return e;
        },
        None => {},
    }
    let msb = state.msb_first;
    let format = data[1];
    let drawable = read_u32(data, 4, msb);
    let gc_id = read_u32(data, 8, msb);
    if format > 2 {
        return build_error(BAD_VALUE, seq, format as u32, 72, 0);
    }
    let width = read_u16(data, 12, msb);
    let height = read_u16(data, 14, msb);
    let x = read_i16(data, 16, msb);
    let y = read_i16(data, 18, msb);
    if width > 32767 || height > 32767 {
        return build_error(BAD_VALUE, seq, width as u32, 72, 0);
    }
    if width > 0 && height > 0 && data.len() == 24 {
        return build_error(BAD_LENGTH, seq, 0, 72, 0);
    }
    let mut pixels: Vec<u8> = Vec::new();
    let mut i: usize = 24;
    while i < data.len()
        invariant
            24 <= i <= data@.len(),
            pixels@ == data@.subrange(24, i as int),
        decreases data@.len() - i,
    {
        pixels.push(data[i]);
        proof {
            assert(pixels@ =~= data@.subrange(24, i + 1));
        }
        i = i + 1;
    }
    let image = Image { format, depth: data[21], left_pad: data[20], x, y, width, height, pixels };
    let ghost s0 = *state;
    queue_op(state, DrawOp { drawable, gc: gc_id, paint: Paint::Solid, shape: Shape::Image { image } });
    report_damage(state, (drawable, x, y, width, height));
    proof {
        assert(ops_view(state.draw_ops@) =~= ops_view(s0.draw_ops@) + seq![
            DrawOpView { drawable, gc: gc_id, paint: Paint::Solid, shape: put_image_shape(data@, msb) }]);
        assert(state.damage_reports@ =~= s0.damage_reports@ + seq![(drawable, x, y, width, height)]);
    }
    Vec::new()
}


/// The damage of points or a polygon: exactly their bounding box.
pub open spec fn tight_damage(drawable: u32, b: BoundingBox) -> (u32, i16, i16, u16, u16) {
    (drawable, b.0, b.1, (b.2 - b.0 + 1) as u16, (b.3 - b.1 + 1) as u16)
}

/// Compute the damage of a bounding box without padding.
fn tight_damage_of(drawable: u32, b: BoundingBox) -> (r: (u32, i16, i16, u16, u16))
    ensures
        r == tight_damage(drawable, b),
{
    (drawable, b.0, b.1, (b.2 as i32 - b.0 as i32 + 1) as u16, (b.3 as i32 - b.1 as i32 + 1) as u16)
}

/// The points of a PolyPoint request (coordinate mode Previous (1) is
/// relative).
pub open spec fn request_points(d: Seq<u8>, msb: bool) -> Seq<(i16, i16)> {
    points_upto(d, 12, msb, d[1] == 1, ((d.len() - 12) / 4) as nat)
}

/// What PolyPoint answers `req` with, and the client state it leaves.
pub open spec fn poly_point_done(pre: ClientState, post: ClientState, req: Seq<u8>, seq: u16, out: Seq<u8>) -> bool {
    &&& (match draw_error(pre, req, 64) {
            Some(e) => out == e && post == pre,
            None => {
                let s = pre;
                let drawable = field32(req, 4, s.msb_first);
                let gc_id = field32(req, 8, s.msb_first);
                let pts = request_points(req, s.msb_first);
                &&& out == Seq::<u8>::empty()
                &&& drawn(s, post, pts.map_values(|p: (i16, i16)| DrawOpView {
                        drawable, gc: gc_id, paint: Paint::Solid, shape: ShapeView::Point { x: p.0, y: p.1 } }),
                    if pts.len() > 0 { seq![tight_damage(drawable, points_box(pts))] } else { Seq::empty() })
            },
        })
}

/// PolyPoint (opcode 64): draw points.
pub fn handle_poly_point(state: &mut ClientState, data: &[u8]) -> (r: Vec<u8>)
    ensures
        poly_point_done(*old(state), *final(state), data@, old(state).sequence, r@),
{
    match check_draw_request(state, data, 64) {
        Some(e) => {
            return e;
        },
        None => {},
    }
    let msb = state.msb_first;
    let drawable = read_u32(data, 4, msb);
    let gc_id = read_u32(data, 8, msb);
    let (points, b) = decode_points(data, 12, msb, data[1] == 1);
    let ghost s0 = *state;
    let ghost want = points@.map_values(|p: (i16, i16)| DrawOpView {
        drawable, gc: gc_id, paint: Paint::Solid, shape: ShapeView::Point { x: p.0, y: p.1 } });
    let mut i: usize = 0;
    while i < points.len()
        invariant
            i <= points@.len(),
            want == points@.map_values(|p: (i16, i16)| DrawOpView {
                drawable, gc: gc_id, paint: Paint::Solid, shape: ShapeView::Point { x: p.0, y: p.1 } }),
            ops_view(state.draw_ops@) == ops_view(s0.draw_ops@) + want.subrange(0, i as int),
            *state == (ClientState { draw_ops: state.draw_ops, ..s0 }),
        decreases points@.len() - i,
    {
        let (x, y) = points[i];
        queue_op(state, DrawOp { drawable, gc: gc_id, paint: Paint::Solid, shape: Shape::Point { x, y } });
        proof {
            assert(want.subrange(0, i + 1) =~= want.subrange(0, i as int).push(want[i as int]));
            assert(ops_view(state.draw_ops@) =~= ops_view(s0.draw_ops@) + want.subrange(0, i + 1));
        }
        i = i + 1;
    }
    assert(want.subrange(0, points@.len() as int) =~= want);
    if points.len() > 0 {
        let d = tight_damage_of(drawable, b);
        report_damage(state, d);
        assert(state.damage_reports@ =~= s0.damage_reports@ + seq![d]);
    } else {
        assert(state.damage_reports@ =~= s0.damage_reports@ + Seq::<(u32, i16, i16, u16, u16)>::empty());
    }
    Vec::new()
}

/// The operation that outlines one arc.
pub open spec fn arc_op(drawable: u32, gc: u32, a: ArcItem) -> DrawOpView {
    DrawOpView {
        drawable,
        gc,
        paint: Paint::Solid,
        shape: ShapeView::Arc { x: a.0, y: a.1, width: a.2, height: a.3, angle1: a.4, angle2: a.5 },
    }
}

/// What PolyArc answers `req` with, and the client state it leaves.
pub open spec fn poly_arc_done(pre: ClientState, post: ClientState, req: Seq<u8>, seq: u16, out: Seq<u8>) -> bool {
    &&& (match draw_error(pre, req, 68) {
            Some(e) => out == e && post == pre,
            None => {
                let s = pre;
                let drawable = field32(req, 4, s.msb_first);
                let gc_id = field32(req, 8, s.msb_first);
                let lw = damage_pad(s.gcs@[gc_id]);
                let arcs = request_arcs(req, s.msb_first);
                &&& out == Seq::<u8>::empty()
                &&& drawn(s, post, arcs.map_values(|a: ArcItem| arc_op(drawable, gc_id, a)),
                    arcs.map_values(|a: ArcItem| outline_damage(drawable, lw, (a.0, a.1, a.2, a.3))))
            },
        })
}

/// PolyArc (opcode 68): outline arcs; each damages its rectangle grown by
/// the line width.
pub fn handle_poly_arc(state: &mut ClientState, data: &[u8]) -> (r: Vec<u8>)
    ensures
        poly_arc_done(*old(state), *final(state), data@, old(state).sequence, r@),
{
    match check_draw_request(state, data, 68) {
        Some(e) => {
            return e;
        },
        None => {},
    }
    let msb = state.msb_first;
    let drawable = read_u32(data, 4, msb);
    let gc_id = read_u32(data, 8, msb);
    let arcs = decode_arcs(data, msb);
    let lw = match state.gcs.get(&gc_id) {
        Some(g) => (if g.line_width > 1 { g.line_width } else { 1u16 }) as i16,
        None => {
            return Vec::new();
        },
    };
    let ghost s0 = *state;
    let ghost all_ops = arcs@.map_values(|a: ArcItem| arc_op(drawable, gc_id, a));
    let ghost all_damage = arcs@.map_values(|a: ArcItem| outline_damage(drawable, lw, (a.0, a.1, a.2, a.3)));
    let mut i: usize = 0;
    while i < arcs.len()
        invariant
            i <= arcs@.len(),
            all_ops == arcs@.map_values(|a: ArcItem| arc_op(drawable, gc_id, a)),
            all_damage == arcs@.map_values(|a: ArcItem| outline_damage(drawable, lw, (a.0, a.1, a.2, a.3))),
            drawn(s0, *state, all_ops.subrange(0, i as int), all_damage.subrange(0, i as int)),
        decreases arcs@.len() - i,
    {
        let (x, y, w, h, a1, a2) = arcs[i];
        queue_op(state, DrawOp { drawable, gc: gc_id, paint: Paint::Solid, shape: Shape::Arc { x, y, width: w, height: h, angle1: a1, angle2: a2 } });
        let grow = (2u32 * (lw as u16) as u32) as u16;
        let dw: u16 = if w as u32 + grow as u32 > 65535 { 65535 } else { w + grow };
        let dh: u16 = if h as u32 + grow as u32 > 65535 { 65535 } else { h + grow };
        report_damage(state, (drawable, (x as i32 - lw as i32) as i16, (y as i32 - lw as i32) as i16, dw, dh));
        proof {
            assert(all_ops.subrange(0, i + 1) =~= all_ops.subrange(0, i as int).push(all_ops[i as int]));
            assert(all_damage.subrange(0, i + 1) =~= all_damage.subrange(0, i as int).push(all_damage[i as int]));
            assert(ops_view(state.draw_ops@) =~= ops_view(s0.draw_ops@) + all_ops.subrange(0, i + 1));
            assert(state.damage_reports@ =~= s0.damage_reports@ + all_damage.subrange(0, i + 1));
        }
        i = i + 1;
    }
    proof {
        assert(all_ops.subrange(0, arcs@.len() as int) =~= all_ops);
        assert(all_damage.subrange(0, arcs@.len() as int) =~= all_damage);
    }
    Vec::new()
}

/// The points of a FillPoly request from byte 16 on (coordinate mode at
/// byte 13; Previous (1) is relative).
pub open spec fn polygon_points(d: Seq<u8>, msb: bool) -> Seq<(i16, i16)> {
    points_upto(d, 16, msb, d[13] == 1, ((d.len() - 16) / 4) as nat)
}

/// What FillPoly answers `req` with, and the client state it leaves.
pub open spec fn fill_poly_done(pre: ClientState, post: ClientState, req: Seq<u8>, seq: u16, out: Seq<u8>) -> bool {
    &&& (({
            let s = pre;
            let drawable = field32(req, 4, s.msb_first);
            let gc_id = field32(req, 8, s.msb_first);
            let pts = polygon_points(req, s.msb_first);
            if req.len() < 16 {
                out == error_packet(BAD_LENGTH, s.sequence, 0, 69, 0, false) && post == s
            } else {
                match draw_error(s, req, 69) {
                    Some(e) => out == e && post == s,
                    None => {
                        &&& out == Seq::<u8>::empty()
                        &&& if pts.len() >= 3 {
                            drawn(s, post, seq![DrawOpView { drawable, gc: gc_id, paint: paint_of(s, s.gcs@[gc_id]),
                                shape: ShapeView::FillPolygon { points: pts } }], seq![tight_damage(drawable, points_box(pts))])
                        } else {
                            post == s
                        }
                    },
                }
            }
        }))
}

/// FillPoly (opcode 69): fill a polygon of at least three points.
pub fn handle_fill_poly(state: &mut ClientState, data: &[u8]) -> (r: Vec<u8>)
    ensures
        fill_poly_done(*old(state), *final(state), data@, old(state).sequence, r@),
{
    if data.len() < 16 {
        return build_error(BAD_LENGTH, state.sequence, 0, 69, 0);
    }
    match check_draw_request(state, data, 69) {
        Some(e) => {
            return e;
        },
        None => {},
    }
    let msb = state.msb_first;
    let drawable = read_u32(data, 4, msb);
    let gc_id = read_u32(data, 8, msb);
    let paint = match state.gcs.get(&gc_id) {
        Some(g) => choose_paint(state, g),
        None => {
            return Vec::new();
        },
    };
    let (points, b) = decode_points(data, 16, msb, data[13] == 1);
    if points.len() >= 3 {
        let ghost s0 = *state;
        let ghost pts = points@;
        queue_op(state, DrawOp { drawable, gc: gc_id, paint, shape: Shape::FillPolygon { points } });
        let d = tight_damage_of(drawable, b);
        report_damage(state, d);
        proof {
            assert(ops_view(state.draw_ops@) =~= ops_view(s0.draw_ops@) + seq![DrawOpView { drawable, gc: gc_id, paint,
                shape: ShapeView::FillPolygon { points: pts } }]);
            assert(state.damage_reports@ =~= s0.damage_reports@ + seq![d]);
        }
    }
    Vec::new()
}


/// The Expose event (12) for a rectangle of a window, the last of its
/// series (count 0).
pub open spec fn expose_event(seq: u16, window: u32, x: i16, y: i16, w: u16, h: u16, msb: bool) -> Seq<u8> {
    seq![12u8, 0u8] + bytes16(seq, msb) + bytes32(window, msb) + bytes16(x as u16, msb) + bytes16(y as u16, msb)
        + bytes16(w, msb) + bytes16(h, msb) + zeros(16)
}

/// The ExposureMask event-mask bit.
pub const EXPOSURE_MASK: u32 = 0x8000;

/// Build an Expose event.
fn build_expose(seq: u16, window: u32, x: i16, y: i16, w: u16, h: u16, msb: bool) -> (r: Vec<u8>)
    ensures
        r@ == expose_event(seq, window, x, y, w, h, msb),
{
    let mut e: Vec<u8> = Vec::new();
    e.push(12u8);
    e.push(0u8);
    assert(e@ =~= seq![12u8, 0u8]);
    push_u16(&mut e, seq, msb);
    push_u32(&mut e, window, msb);
    push_u16(&mut e, x as u16, msb);
    push_u16(&mut e, y as u16, msb);
    push_u16(&mut e, w, msb);
    push_u16(&mut e, h, msb);
    let ghost before = e@;
    push_zeros(&mut e, 16);
    assert(before =~= seq![12u8, 0u8] + bytes16(seq, msb) + bytes32(window, msb) + bytes16(x as u16, msb)
        + bytes16(y as u16, msb) + bytes16(w, msb) + bytes16(h, msb));
    e
}

/// The error ClearArea (opcode 61) is answered with, if any: short
/// request, unknown window, InputOnly window (BadMatch).
pub open spec fn clear_area_error(s: ClientState, d: Seq<u8>) -> Option<Seq<u8>> {
    let wid = field32(d, 4, s.msb_first);
    if d.len() < 16 {
        Some(error_packet(BAD_LENGTH, s.sequence, 0, 61, 0, false))
    } else if !s.windows@.contains_key(wid) {
        Some(error_packet(BAD_WINDOW, s.sequence, wid, 61, 0, false))
    } else if s.windows@[wid].class == 2 {
        Some(error_packet(BAD_MATCH, s.sequence, wid, 61, 0, false))
    } else {
        None
    }
}

/// What ClearArea answers `req` with, and the client state it leaves.
pub open spec fn clear_area_done(pre: ClientState, post: ClientState, req: Seq<u8>, seq: u16, out: Seq<u8>) -> bool {
    &&& (match clear_area_error(pre, req) {
            Some(e) => out == e && post == pre,
            None => {
                let s = pre;
                let msb = s.msb_first;
                let wid = field32(req, 4, msb);
                let win = s.windows@[wid];
                let x = field16(req, 8, msb) as i16;
                let y = field16(req, 10, msb) as i16;
                let w = if field16(req, 12, msb) == 0 { win.width } else { field16(req, 12, msb) };
                let h = if field16(req, 14, msb) == 0 { win.height } else { field16(req, 14, msb) };
                let ev = expose_event(s.sequence, wid, x, y, w, h, msb);
                let after = post;
                let mid = ClientState { pending_events: after.pending_events, broadcasts: after.broadcasts, ..s };
                &&& out == Seq::<u8>::empty()
                &&& drawn(mid, after,
                    seq![DrawOpView { drawable: wid, gc: 0, paint: Paint::Solid, shape: ShapeView::Clear {
                        x, y, width: w, height: h, pixel: win.background_pixel } }],
                    seq![(wid, x, y, w, h)])
                &&& after.pending_events@.map_values(|e: Vec<u8>| e@) == s.pending_events@.map_values(|e: Vec<u8>| e@)
                    + (if req[1] != 0 && win.event_mask & EXPOSURE_MASK != 0 { seq![ev] } else { Seq::empty() })
                &&& after.broadcasts@.map_values(|b: (u32, u32, Vec<u8>)| (b.0, b.1, b.2@)) == s.broadcasts@.map_values(
                    |b: (u32, u32, Vec<u8>)| (b.0, b.1, b.2@)) + (if req[1] != 0 { seq![(wid, EXPOSURE_MASK, ev)] } else {
                    Seq::empty() })
            },
        })
}

/// ClearArea (opcode 61): clear a rectangle of a window to its background
/// (a zero width or height extends to the window's edge, counted from
/// the window's own size), report it as damaged and, when asked, expose
/// it: to this client if it selected ExposureMask on the window, and to the
/// other clients that did.
pub fn handle_clear_area(state: &mut ClientState, data: &[u8]) -> (r: Vec<u8>)
    ensures
        clear_area_done(*old(state), *final(state), data@, old(state).sequence, r@),
{
    let seq = state.sequence;
    if data.len() < 16 {
        return build_error(BAD_LENGTH, seq, 0, 61, 0);
    }
    let msb = state.msb_first;
    let wid = read_u32(data, 4, msb);
    let win = match state.windows.get(&wid) {
        Some(w) => *w,
        None => {
            return build_error(BAD_WINDOW, seq, wid, 61, 0);
        },
    };
    if win.class == 2 {
        return build_error(BAD_MATCH, seq, wid, 61, 0);
    }
    let x = read_i16(data, 8, msb);
    let y = read_i16(data, 10, msb);
    let mut width = read_u16(data, 12, msb);
    let mut height = read_u16(data, 14, msb);
    if width == 0 {
        width = win.width;
    }
    if height == 0 {
        height = win.height;
    }
    let ghost s0 = *state;
    if data[1] != 0 {
        let ghost ev = expose_event(seq, wid, x, y, width, height, msb);
        if win.event_mask & EXPOSURE_MASK != 0 {
            let e = build_expose(seq, wid, x, y, width, height, msb);
            state.pending_events.push(e);
            assert(state.pending_events@.map_values(|e: Vec<u8>| e@) =~= s0.pending_events@.map_values(|e: Vec<u8>| e@)
                + seq![ev]);
        } else {
            assert(state.pending_events@.map_values(|e: Vec<u8>| e@) =~= s0.pending_events@.map_values(|e: Vec<u8>| e@)
                + Seq::<Seq<u8>>::empty());
        }
        let e = build_expose(seq, wid, x, y, width, height, msb);
        state.broadcasts.push((wid, EXPOSURE_MASK, e));
        assert(state.broadcasts@.map_values(|b: (u32, u32, Vec<u8>)| (b.0, b.1, b.2@)) =~= s0.broadcasts@.map_values(
            |b: (u32, u32, Vec<u8>)| (b.0, b.1, b.2@)) + seq![(wid, EXPOSURE_MASK, ev)]);
    } else {
        assert(state.pending_events@.map_values(|e: Vec<u8>| e@) =~= s0.pending_events@.map_values(|e: Vec<u8>| e@)
            + Seq::<Seq<u8>>::empty());
        assert(state.broadcasts@.map_values(|b: (u32, u32, Vec<u8>)| (b.0, b.1, b.2@)) =~= s0.broadcasts@.map_values(
            |b: (u32, u32, Vec<u8>)| (b.0, b.1, b.2@)) + Seq::<(u32, u32, Seq<u8>)>::empty());
    }
    let ghost s1 = *state;
    queue_op(state, DrawOp { drawable: wid, gc: 0, paint: Paint::Solid, shape: Shape::Clear { x, y, width, height, pixel: win.background_pixel } });
    report_damage(state, (wid, x, y, width, height));
    proof {
        assert(ops_view(state.draw_ops@) =~= ops_view(s1.draw_ops@) + seq![DrawOpView { drawable: wid, gc: 0, paint: Paint::Solid,
            shape: ShapeView::Clear { x, y, width, height, pixel: win.background_pixel } }]);
        assert(state.damage_reports@ =~= s1.damage_reports@ + seq![(wid, x, y, width, height)]);
    }
    Vec::new()
}


/// The `k`-th point of a request whose 4-byte points start at byte
/// `first`, as written, before any coordinate mode applies.
pub open spec fn raw_point(d: Seq<u8>, first: int, msb: bool, k: int) -> (i16, i16) {
    (field16(d, first + 4 * k, msb) as i16, field16(d, first + 2 + 4 * k, msb) as i16)
}

/// Fewer points read are a prefix of more points read.
proof fn lemma_points_prefix(d: Seq<u8>, first: int, msb: bool, relative: bool, n: nat, m: nat)
    requires
        n <= m,
    ensures
        points_upto(d, first, msb, relative, m).subrange(0, n as int) == points_upto(d, first, msb, relative, n),
    decreases m,
{
    lemma_points_len(d, first, msb, relative, m);
    lemma_points_len(d, first, msb, relative, n);
    if n < m {
        let p = points_upto(d, first, msb, relative, m);
        let q = points_upto(d, first, msb, relative, (m - 1) as nat);
        lemma_points_len(d, first, msb, relative, (m - 1) as nat);
        lemma_points_prefix(d, first, msb, relative, n, (m - 1) as nat);
        assert(p.subrange(0, m - 1) =~= q);
        assert(p.subrange(0, n as int) =~= q.subrange(0, n as int));
    } else {
        assert(points_upto(d, first, msb, relative, m).subrange(0, n as int) =~= points_upto(d, first, msb, relative, m));
    }
}

/// Absolute points that spell out the running sums of relative ones are
/// read as the same points.
proof fn lemma_relative_as_absolute(rel: Seq<u8>, abs: Seq<u8>, msb: bool, n: nat, total: nat)
    requires
        n <= total,
        forall|k: int| 0 <= k < total ==> raw_point(abs, 12, msb, k) == #[trigger] points_upto(rel, 12, msb, true, total)[k],
    ensures
        points_upto(abs, 12, msb, false, n) == points_upto(rel, 12, msb, true, n),
    decreases n,
{
    if n > 0 {
        let k = n - 1;
        lemma_relative_as_absolute(rel, abs, msb, (n - 1) as nat, total);
        lemma_points_prefix(rel, 12, msb, true, n, total);
        lemma_points_len(rel, 12, msb, true, n);
        lemma_points_len(rel, 12, msb, true, total);
        lemma_points_len(rel, 12, msb, true, (n - 1) as nat);
        let r = points_upto(rel, 12, msb, true, n);
        let r0 = points_upto(rel, 12, msb, true, (n - 1) as nat);
        assert(r.subrange(0, k) =~= r0);
        assert(r[k] == points_upto(rel, 12, msb, true, total)[k]);
        assert(r =~= r0.push(r[k]));
        assert(points_upto(abs, 12, msb, false, n) =~= points_upto(abs, 12, msb, false, (n - 1) as nat).push(raw_point(abs, 12, msb, k)));
    }
}

/// PolyLine in coordinate mode Previous draws what PolyLine in mode Origin
/// draws with each point written as the running (16-bit) sum of the first
/// point and the offsets up to it: same points, same reply, same state.
pub proof fn relative_poly_line_is_absolute(s: ClientState, t: ClientState, rel: Seq<u8>, abs: Seq<u8>, seq: u16, out: Seq<u8>)
    requires
        rel.len() >= 12,
        abs.len() == rel.len(),
        rel[1] == 1,
        abs[1] == 0,
        field32(abs, 4, s.msb_first) == field32(rel, 4, s.msb_first),
        field32(abs, 8, s.msb_first) == field32(rel, 8, s.msb_first),
        forall|k: int|
            0 <= k < (rel.len() - 12) / 4 ==> raw_point(abs, 12, s.msb_first, k) == #[trigger] line_points(rel, s.msb_first)[k],
    ensures
        line_points(abs, s.msb_first) == line_points(rel, s.msb_first),
        poly_line_done(s, t, rel, seq, out) <==> poly_line_done(s, t, abs, seq, out),
{
    let msb = s.msb_first;
    let total = ((rel.len() - 12) / 4) as nat;
    assert forall|k: int| 0 <= k < total implies raw_point(abs, 12, msb, k) == #[trigger] points_upto(rel, 12, msb, true, total)[k] by {
        assert(line_points(rel, msb)[k] == points_upto(rel, 12, msb, true, total)[k]);
    }
    lemma_relative_as_absolute(rel, abs, msb, total, total);
}

/// A GC whose tile (FillTiled) or stipple (FillStippled,
/// FillOpaqueStippled) names no pixmap paints as it would with FillSolid.
pub proof fn missing_pattern_paints_solid(s: ClientState, g: GcState)
    requires
        g.fill_style == 1 && !s.pixmaps@.contains_key(g.tile) || (g.fill_style == 2 || g.fill_style == 3)
            && !s.pixmaps@.contains_key(g.stipple),
    ensures
        paint_of(s, g) == Paint::Solid,
        paint_of(s, g) == paint_of(s, GcState { fill_style: 0, ..g }),
{
}

/// PolyFillArc with a GC whose tile or stipple names no pixmap answers,
/// queues and damages exactly what it does when that GC's fill style is
/// FillSolid: arcs filled with the GC's foreground, function, plane mask,
/// clip and arc mode.
pub proof fn poly_fill_arc_missing_pattern_is_solid(
    s: ClientState,
    t: ClientState,
    s_solid: ClientState,
    t_solid: ClientState,
    d: Seq<u8>,
    seq: u16,
    out: Seq<u8>,
    out_solid: Seq<u8>,
)
    requires
        d.len() >= 12,
        s.gcs@.contains_key(field32(d, 8, s.msb_first)),
        ({
            let g = s.gcs@[field32(d, 8, s.msb_first)];
            g.fill_style == 1 && !s.pixmaps@.contains_key(g.tile) || (g.fill_style == 2 || g.fill_style == 3)
                && !s.pixmaps@.contains_key(g.stipple)
        }),
        s_solid == (ClientState { gcs: s_solid.gcs, ..s }),
        s_solid.gcs@ == s.gcs@.insert(
            field32(d, 8, s.msb_first),
            GcState { fill_style: 0, ..s.gcs@[field32(d, 8, s.msb_first)] },
        ),
        poly_fill_arc_done(s, t, d, seq, out),
        poly_fill_arc_done(s_solid, t_solid, d, seq, out_solid),
    ensures
        out == out_solid,
        ops_view(t.draw_ops@) == ops_view(t_solid.draw_ops@),
        t.damage_reports@ == t_solid.damage_reports@,
{
    let gc_id = field32(d, 8, s.msb_first);
    missing_pattern_paints_solid(s, s.gcs@[gc_id]);
    assert(s_solid.gcs@[gc_id] == GcState { fill_style: 0, ..s.gcs@[gc_id] });
    assert(paint_of(s_solid, s_solid.gcs@[gc_id]) == Paint::Solid);
}


/// The first `n` points of a request as written, from byte `first` on.
pub open spec fn raw_points(d: Seq<u8>, first: int, msb: bool, n: nat) -> Seq<(i16, i16)> {
    Seq::new(n, |k: int| raw_point(d, first, msb, k))
}

/// The running sums of a list of offsets: the first point as it is, then
/// each later one added to the sum before it (16-bit wrap-around).
pub open spec fn running_sums(p: Seq<(i16, i16)>) -> Seq<(i16, i16)>
    decreases p.len(),
{
    if p.len() <= 1 {
        p
    } else {
        let before = running_sums(p.drop_last());
        before.push((before.last().0.wrapping_add(p.last().0), before.last().1.wrapping_add(p.last().1)))
    }
}

proof fn lemma_running_sums_len(p: Seq<(i16, i16)>)
    ensures
        running_sums(p).len() == p.len(),
    decreases p.len(),
{
    if p.len() > 1 {
        lemma_running_sums_len(p.drop_last());
    }
}

/// Points read in a coordinate mode are the points as written (Origin) or
/// their running sums (Previous).
proof fn lemma_points_are_running_sums(d: Seq<u8>, first: int, msb: bool, relative: bool, n: nat)
    ensures
        points_upto(d, first, msb, relative, n) == if relative {
            running_sums(raw_points(d, first, msb, n))
        } else {
            raw_points(d, first, msb, n)
        },
    decreases n,
{
    if n > 0 {
        let m = (n - 1) as nat;
        lemma_points_are_running_sums(d, first, msb, relative, m);
        lemma_points_len(d, first, msb, relative, m);
        let r = raw_points(d, first, msb, n);
        assert(r.drop_last() =~= raw_points(d, first, msb, m));
        assert(r.last() == raw_point(d, first, msb, m as int));
        if relative {
            lemma_running_sums_len(raw_points(d, first, msb, m));
            if n == 1 {
                assert(points_upto(d, first, msb, relative, 0) =~= Seq::<(i16, i16)>::empty());
                assert(points_upto(d, first, msb, relative, n) =~= r);
            }
        } else {
            assert(points_upto(d, first, msb, relative, n) =~= r);
        }
    }
}

/// The coordinate modes of the point requests: PolyPoint and PolyLine
/// (mode in byte 1) and FillPoly (mode in byte 13) take their points as
/// written in mode Origin, and in mode Previous take each point after the
/// first as an offset from the one before, so that the points drawn are
/// the running sums of the points written.
pub proof fn coordinate_mode_previous_sums_offsets(d: Seq<u8>, msb: bool)
    ensures
        d.len() >= 12 ==> line_points(d, msb) == if d[1] == 1 {
            running_sums(raw_points(d, 12, msb, ((d.len() - 12) / 4) as nat))
        } else {
            raw_points(d, 12, msb, ((d.len() - 12) / 4) as nat)
        },
        d.len() >= 12 ==> request_points(d, msb) == line_points(d, msb),
        d.len() >= 16 ==> polygon_points(d, msb) == if d[13] == 1 {
            running_sums(raw_points(d, 16, msb, ((d.len() - 16) / 4) as nat))
        } else {
            raw_points(d, 16, msb, ((d.len() - 16) / 4) as nat)
        },
{
    if d.len() >= 12 {
        lemma_points_are_running_sums(d, 12, msb, d[1] == 1, ((d.len() - 12) / 4) as nat);
    }
    if d.len() >= 16 {
        lemma_points_are_running_sums(d, 16, msb, d[13] == 1, ((d.len() - 16) / 4) as nat);
    }
}

/// FillPoly in coordinate mode Previous fills, answers and damages exactly
/// what FillPoly in mode Origin does when the latter's points are written
/// as the running sums of the former's.
pub proof fn relative_fill_poly_is_absolute(s: ClientState, t: ClientState, rel: Seq<u8>, abs: Seq<u8>, seq: u16, out: Seq<u8>)
    requires
        rel.len() >= 16,
        abs.len() == rel.len(),
        rel[13] == 1,
        abs[13] == 0,
        field32(abs, 4, s.msb_first) == field32(rel, 4, s.msb_first),
        field32(abs, 8, s.msb_first) == field32(rel, 8, s.msb_first),
        raw_points(abs, 16, s.msb_first, ((abs.len() - 16) / 4) as nat) == running_sums(
            raw_points(rel, 16, s.msb_first, ((rel.len() - 16) / 4) as nat),
        ),
    ensures
        polygon_points(abs, s.msb_first) == polygon_points(rel, s.msb_first),
        fill_poly_done(s, t, rel, seq, out) <==> fill_poly_done(s, t, abs, seq, out),
{
    coordinate_mode_previous_sums_offsets(rel, s.msb_first);
    coordinate_mode_previous_sums_offsets(abs, s.msb_first);
}

/// PolyLine in coordinate mode Previous draws, answers and damages exactly
/// what PolyLine in mode Origin does when the latter's points are written
/// as the running sums of the former's.
pub proof fn relative_poly_line_is_running_sums(s: ClientState, t: ClientState, rel: Seq<u8>, abs: Seq<u8>, seq: u16, out: Seq<u8>)
    requires
        rel.len() >= 12,
        abs.len() == rel.len(),
        rel[1] == 1,
        abs[1] == 0,
        field32(abs, 4, s.msb_first) == field32(rel, 4, s.msb_first),
        field32(abs, 8, s.msb_first) == field32(rel, 8, s.msb_first),
        raw_points(abs, 12, s.msb_first, ((abs.len() - 12) / 4) as nat) == running_sums(
            raw_points(rel, 12, s.msb_first, ((rel.len() - 12) / 4) as nat),
        ),
    ensures
        line_points(abs, s.msb_first) == line_points(rel, s.msb_first),
        poly_line_done(s, t, rel, seq, out) <==> poly_line_done(s, t, abs, seq, out),
{
    coordinate_mode_previous_sums_offsets(rel, s.msb_first);
    coordinate_mode_previous_sums_offsets(abs, s.msb_first);
}
} // verus!
