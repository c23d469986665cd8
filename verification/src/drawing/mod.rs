//! Drawing support: clip tests, raster operations, rectangle intersection,
//! and graphics contexts.

pub mod copy;
pub mod gc;
pub mod image;
pub mod primitives;
pub mod text;

use vstd::prelude::*;

verus! {

/// Clip rectangle (x, y, width, height) in drawable coordinates.
pub type ClipRect = (i16, i16, u16, u16);

/// The pixel (`x`, `y`) lies in the rectangle.
pub open spec fn in_rect(x: int, y: int, r: ClipRect) -> bool {
    &&& r.0 <= x < r.0 + r.2
    &&& r.1 <= y < r.1 + r.3
}

/// A pixel is drawn when there is no clip rectangle or when one of them
/// contains it.
pub open spec fn drawable_pixel(x: int, y: int, clip_rects: Seq<ClipRect>) -> bool {
    clip_rects.len() == 0 || exists|i: int| 0 <= i < clip_rects.len() && in_rect(x, y, #[trigger] clip_rects[i])
}

/// Whether the pixel (`x`, `y`) passes the GC's clip rectangles (no
/// rectangle: no clipping).
pub fn should_draw_pixel(x: i32, y: i32, clip_rects: &[ClipRect]) -> (r: bool)
    ensures
        r == drawable_pixel(x as int, y as int, clip_rects@),
{
    if clip_rects.len() == 0 {
        return true;
    }
    let mut i: usize = 0;
    while i < clip_rects.len()
        invariant
            i <= clip_rects@.len(),
            forall|k: int| 0 <= k < i ==> !in_rect(x as int, y as int, #[trigger] clip_rects@[k]),
        decreases clip_rects@.len() - i,
    {
        let (rx, ry, rw, rh) = clip_rects[i];
        if x >= rx as i32 && x < rx as i32 + rw as i32 && y >= ry as i32 && y < ry as i32 + rh as i32 {
            assert(in_rect(x as int, y as int, clip_rects@[i as int]));
            return true;
        }
        i = i + 1;
    }
    false
}

/// The X11 raster operation (GC function) on a source and a destination
/// pixel; an unknown function copies the source.
pub open spec fn rop(function: u8, src: u32, dst: u32) -> u32 {
    match function {
        0 => 0,
        1 => src & dst,
        2 => src & !dst,
        3 => src,
        4 => !src & dst,
        5 => dst,
        6 => src ^ dst,
        7 => src | dst,
        8 => !(src | dst),
        9 => !(src ^ dst),
        10 => !dst,
        11 => src | !dst,
        12 => !src,
        13 => !src | dst,
        14 => !(src & dst),
        15 => 0xFFFF_FFFFu32,
        _ => src,
    }
}

/// Apply a GC raster operation to a source and a destination pixel.
pub fn apply_rop(function: u8, src: u32, dst: u32) -> (r: u32)
    ensures
        r == rop(function, src, dst),
{
    match function {
        0 => 0,
        1 => src & dst,
        2 => src & !dst,
        3 => src,
        4 => !src & dst,
        5 => dst,
        6 => src ^ dst,
        7 => src | dst,
        8 => !(src | dst),
        9 => !(src ^ dst),
        10 => !dst,
        11 => src | !dst,
        12 => !src,
        13 => !src | dst,
        14 => !(src & dst),
        15 => 0xFFFF_FFFF,
        _ => src,
    }
}

/// The intersection of two rectangles, or (0, 0, 0, 0) when it is empty.
pub open spec fn intersection(x1: i16, y1: i16, w1: u16, h1: u16, x2: i16, y2: i16, w2: u16, h2: u16) -> ClipRect {
    let ix0 = if x1 >= x2 { x1 as int } else { x2 as int };
    let iy0 = if y1 >= y2 { y1 as int } else { y2 as int };
    let ix1 = if x1 + w1 <= x2 + w2 { x1 + w1 } else { x2 + w2 };
    let iy1 = if y1 + h1 <= y2 + h2 { y1 + h1 } else { y2 + h2 };
    if ix0 < ix1 && iy0 < iy1 {
        (ix0 as i16, iy0 as i16, (ix1 - ix0) as u16, (iy1 - iy0) as u16)
    } else {
        (0i16, 0i16, 0u16, 0u16)
    }
}

/// Intersect two rectangles; the result has zero size when they do not
/// overlap.
pub fn intersect_rects(x1: i16, y1: i16, w1: u16, h1: u16, x2: i16, y2: i16, w2: u16, h2: u16) -> (r: ClipRect)
    ensures
        r == intersection(x1, y1, w1, h1, x2, y2, w2, h2),
{
    let ix0: i32 = if x1 as i32 >= x2 as i32 { x1 as i32 } else { x2 as i32 };
    let iy0: i32 = if y1 as i32 >= y2 as i32 { y1 as i32 } else { y2 as i32 };
    let e1: i32 = x1 as i32 + w1 as i32;
    let e2: i32 = x2 as i32 + w2 as i32;
    let ix1: i32 = if e1 <= e2 { e1 } else { e2 };
    let f1: i32 = y1 as i32 + h1 as i32;
    let f2: i32 = y2 as i32 + h2 as i32;
    let iy1: i32 = if f1 <= f2 { f1 } else { f2 };
    if ix0 < ix1 && iy0 < iy1 {
        (ix0 as i16, iy0 as i16, (ix1 - ix0) as u16, (iy1 - iy0) as u16)
    } else {
        (0, 0, 0, 0)
    }
}

/// A pixel lies in the intersection of two rectangles exactly when it lies
/// in both.
pub proof fn intersection_contains_common_pixels(x1: i16, y1: i16, w1: u16, h1: u16, x2: i16, y2: i16, w2: u16, h2: u16, x: int, y: int)
    ensures
        in_rect(x, y, intersection(x1, y1, w1, h1, x2, y2, w2, h2))
            <==> (in_rect(x, y, (x1, y1, w1, h1)) && in_rect(x, y, (x2, y2, w2, h2))),
{
}

/// Intersection does not depend on the order of the rectangles.
pub proof fn intersection_commutes(x1: i16, y1: i16, w1: u16, h1: u16, x2: i16, y2: i16, w2: u16, h2: u16)
    ensures
        intersection(x1, y1, w1, h1, x2, y2, w2, h2) == intersection(x2, y2, w2, h2, x1, y1, w1, h1),
{
}

/// XOR drawing undoes itself: drawing the same source twice with GXxor
/// restores the destination.
pub proof fn xor_rop_undoes_itself(src: u32, dst: u32)
    ensures
        rop(6, src, rop(6, src, dst)) == dst,
{
    assert(src ^ (src ^ dst) == dst) by (bit_vector);
}

/// GXcopy yields the source, GXnoop the destination, GXclear and GXset
/// the constant pixels, whatever the other operand.
pub proof fn constant_rops(src: u32, dst: u32)
    ensures
        rop(3, src, dst) == src,
        rop(5, src, dst) == dst,
        rop(0, src, dst) == 0,
        rop(15, src, dst) == 0xFFFF_FFFFu32,
{
}

} // verus!
