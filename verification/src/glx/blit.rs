//! Copying a GL context's rendering into a drawable: RGBA pixels, row by
//! row, into the drawable's BGRA pixel data, over the area both share, and
//! the damage report that lets compositing see the update.

use crate::drawing::primitives::report_damage;
use crate::state::ClientState;
use vstd::prelude::*;

verus! {

broadcast use vstd::std_specs::hash::group_hash_axioms;

/// Where byte `c` (0 to 3) of a BGRA pixel comes from in an RGBA pixel.
pub open spec fn rgba_byte(c: int) -> int {
    if c == 3 {
        3
    } else {
        2 - c
    }
}

/// Pixel data after copying `rows` rows of `width` RGBA pixels, `src_stride`
/// bytes apart in `src`, into BGRA rows `dst_stride` bytes apart.
pub open spec fn blitted(dst: Seq<u8>, src: Seq<u8>, dst_stride: int, src_stride: int, width: int, rows: int) -> Seq<u8> {
    Seq::new(dst.len(), |p: int| {
        let y = p / dst_stride;
        let r = p % dst_stride;
        if dst_stride > 0 && y < rows && r < width * 4 {
            src[y * src_stride + (r - r % 4) + rgba_byte(r % 4)]
        } else {
            dst[p]
        }
    })
}

/// The rows of the copy fit both buffers.
pub open spec fn blit_fits(dst_len: nat, src_len: nat, dst_stride: int, src_stride: int, width: int, rows: int) -> bool {
    rows > 0 ==> (rows - 1) * src_stride + width * 4 <= src_len && (rows - 1) * dst_stride + width * 4 <= dst_len
}

/// Copy `rows` rows of `width` RGBA pixels into BGRA rows.
fn blit_rows(dst: &mut Vec<u8>, dst_stride: usize, src: &[u8], src_stride: usize, width: usize, rows: usize)
    requires
        width * 4 <= dst_stride,
        blit_fits(old(dst)@.len(), src@.len(), dst_stride as int, src_stride as int, width as int, rows as int),
    ensures
        final(dst)@ == blitted(old(dst)@, src@, dst_stride as int, src_stride as int, width as int, rows as int),
{
    let ghost d0 = dst@;
    let src_len = src.len();
    let dst_len = dst.len();
    let row_bytes = width * 4;
    let mut y: usize = 0;
    while y < rows
        invariant
            y <= rows,
            src_len == src@.len(),
            dst_len == d0.len(),
            row_bytes == width * 4,
            width * 4 <= dst_stride,
            dst@.len() == d0.len(),
            blit_fits(d0.len(), src@.len(), dst_stride as int, src_stride as int, width as int, rows as int),
            dst@ == blitted(d0, src@, dst_stride as int, src_stride as int, width as int, y as int),
        decreases rows - y,
    {
        assert(y * src_stride + width * 4 <= src@.len() && y * dst_stride + width * 4 <= dst@.len()) by (nonlinear_arith)
            requires
                y < rows,
                (rows - 1) * src_stride + width * 4 <= src@.len(),
                (rows - 1) * dst_stride + width * 4 <= dst@.len(),
                src_stride >= 0,
                dst_stride >= 0,
        ;
        let s0: usize = y * src_stride;
        let d_start: usize = y * dst_stride;
        let ghost before = dst@;
        let mut k: usize = 0;
        while k < row_bytes
            invariant
                row_bytes == width * 4,
                src_len == src@.len(),
                dst_len == dst@.len(),
                k <= width * 4,
                s0 + width * 4 <= src@.len(),
                d_start + width * 4 <= dst@.len(),
                dst@.len() == before.len(),
                forall|p: int| 0 <= p < dst@.len() ==> #[trigger] dst@[p] == (if d_start <= p < d_start + k {
                    src@[s0 + (p - d_start) - (p - d_start) % 4 + rgba_byte((p - d_start) % 4)]
                } else {
                    before[p]
                }),
            decreases row_bytes - k,
        {
            let c = k % 4;
            let from = if c == 3 { k } else { k - c + 2 - c };
            dst.set(d_start + k, src[s0 + from]);
            k = k + 1;
        }
        proof {
            let next = blitted(d0, src@, dst_stride as int, src_stride as int, width as int, y + 1);
            assert forall|p: int| 0 <= p < dst@.len() implies dst@[p] == next[p] by {
                if dst_stride > 0 {
                    let q = p / (dst_stride as int);
                    let rr = p % (dst_stride as int);
                    vstd::arithmetic::div_mod::lemma_fundamental_div_mod(p, dst_stride as int);
                    if q == y {
                        assert(p == y * dst_stride + rr) by (nonlinear_arith)
                            requires
                                p == dst_stride * q + rr,
                                q == y,
                        ;
                    } else if q < y {
                        assert(p < y * dst_stride) by (nonlinear_arith)
                            requires
                                p == dst_stride * q + rr,
                                q < y,
                                rr < dst_stride,
                        ;
                    } else {
                        assert(p >= y * dst_stride + dst_stride) by (nonlinear_arith)
                            requires
                                p == dst_stride * q + rr,
                                q > y,
                                0 <= rr,
                        ;
                    }
                } else {
                    assert(width == 0);
                }
            }
            assert(dst@ =~= next);
        }
        y = y + 1;
    }
}

/// Copy a GL context's `src_width` by `src_height` RGBA rendering into the
/// BGRA pixel data of drawable `target` (`dst_width` by `dst_height`,
/// rows `dst_stride` bytes apart) over the area both cover, and report the
/// whole window as damaged when the drawable is a window. Gives the size of
/// the area copied.
pub fn blit_osmesa_to_drawable(
    state: &mut ClientState,
    target: u32,
    dst: &mut Vec<u8>,
    dst_width: u32,
    dst_height: u32,
    dst_stride: usize,
    pixels: &[u8],
    src_width: u32,
    src_height: u32,
) -> (r: (u32, u32))
    requires
        dst_width * 4 <= dst_stride,
        blit_fits(
            old(dst)@.len(),
            pixels@.len(),
            dst_stride as int,
            src_width * 4,
            (if src_width < dst_width { src_width } else { dst_width }) as int,
            (if src_height < dst_height { src_height } else { dst_height }) as int,
        ),
    ensures
        r.0 == (if src_width < dst_width { src_width } else { dst_width }),
        r.1 == (if src_height < dst_height { src_height } else { dst_height }),
        final(dst)@ == blitted(old(dst)@, pixels@, dst_stride as int, src_width * 4, r.0 as int, r.1 as int),
        final(state).damage_reports@ == old(state).damage_reports@ + (if old(state).windows@.contains_key(target) {
            let win = old(state).windows@[target];
            seq![(target, 0i16, 0i16, win.width, win.height)]
        } else {
            Seq::empty()
        }),
        *final(state) == (ClientState { damage_reports: final(state).damage_reports, ..*old(state) }),
{
    let w = if src_width < dst_width { src_width } else { dst_width };
    let h = if src_height < dst_height { src_height } else { dst_height };
    assert(w * 4 <= dst_stride);
    let pixels_len = pixels.len();
    proof {
        if h > 1 {
            assert(src_width * 4 <= pixels@.len()) by (nonlinear_arith)
                requires
                    (h - 1) * (src_width * 4) + w * 4 <= pixels@.len(),
                    h >= 2,
                    w >= 0,
            ;
        }
    }
    let src_stride: usize = if h <= 1 { 0 } else { src_width as usize * 4 };
    blit_rows(dst, dst_stride, pixels, src_stride, w as usize, h as usize);
    proof {
        if h <= 1 {
            let a = blitted(old(dst)@, pixels@, dst_stride as int, src_stride as int, w as int, h as int);
            let b = blitted(old(dst)@, pixels@, dst_stride as int, src_width * 4, w as int, h as int);
            assert forall|p: int| 0 <= p < a.len() implies a[p] == b[p] by {
                if dst_stride > 0 && p / (dst_stride as int) < h {
                    vstd::arithmetic::div_mod::lemma_fundamental_div_mod(p, dst_stride as int);
                    assert(p / (dst_stride as int) >= 0) by (nonlinear_arith)
                        requires
                            p >= 0,
                            dst_stride > 0,
                    ;
                }
            }
            assert(a =~= b);
        }
    }
    let ghost s0 = *state;
    match state.windows.get(&target) {
        Some(win) => {
            let d = (target, 0i16, 0i16, win.width, win.height);
            report_damage(state, d);
        },
        None => {
            assert(state.damage_reports@ =~= s0.damage_reports@ + Seq::<(u32, i16, i16, u16, u16)>::empty());
        },
    }
    (w, h)
}

} // verus!
