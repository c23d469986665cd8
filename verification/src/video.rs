//! YUV buffer layouts of DRI3 pixmaps: which luma and chroma bytes each
//! pixel of an NV12, YV12 or YUY2 buffer takes. The color conversion of a
//! sample and the buffer reads happen outside the library.

use vstd::prelude::*;

verus! {

/// The YUV layouts a DRI3 buffer may have.
#[derive(Clone, Copy)]
pub enum YuvLayout {
    /// Plane 0: Y at full resolution; plane 1: interleaved U, V at half
    /// resolution both ways.
    Nv12,
    /// Plane 0: Y; plane 1: V; plane 2: U; chroma at half resolution both
    /// ways.
    Yv12,
    /// One packed plane: Y0 U Y1 V for each two pixels of a row.
    Yuy2,
}

/// Byte `i` of a buffer, or `d` where the buffer has no such byte.
pub open spec fn byte_or(b: Seq<u8>, i: int, d: u8) -> u8 {
    if 0 <= i < b.len() {
        b[i]
    } else {
        d
    }
}

/// The (Y, U, V) sample of pixel (`col`, `row`): missing luma reads as 0
/// and missing chroma as 128. For NV12 the U, V plane is `u`; for YV12 the
/// V plane is `v` and the U plane `u`; YUY2 reads `y` only.
pub open spec fn yuv_sample(
    layout: YuvLayout,
    y: Seq<u8>,
    u: Seq<u8>,
    v: Seq<u8>,
    strides: Seq<u32>,
    offsets: Seq<u32>,
    col: int,
    row: int,
) -> (u8, u8, u8) {
    match layout {
        YuvLayout::Nv12 => {
            let yi = offsets[0] + row * strides[0] + col;
            let ci = offsets[1] + (row / 2) * strides[1] + (col / 2) * 2;
            (byte_or(y, yi, 0), byte_or(u, ci, 128), byte_or(u, ci + 1, 128))
        },
        YuvLayout::Yv12 => {
            let yi = offsets[0] + row * strides[0] + col;
            let vi = offsets[1] + (row / 2) * strides[1] + col / 2;
            let ui = offsets[2] + (row / 2) * strides[2] + col / 2;
            (byte_or(y, yi, 0), byte_or(u, ui, 128), byte_or(v, vi, 128))
        },
        YuvLayout::Yuy2 => {
            let pair = offsets[0] + row * strides[0] + (col - col % 2) * 2;
            (byte_or(y, pair + 2 * (col % 2), 0), byte_or(y, pair + 1, 128), byte_or(y, pair + 3, 128))
        },
    }
}

/// The samples of the first `r` rows, `width` pixels each, row by row.
pub open spec fn yuv_rows(
    layout: YuvLayout,
    y: Seq<u8>,
    u: Seq<u8>,
    v: Seq<u8>,
    strides: Seq<u32>,
    offsets: Seq<u32>,
    width: int,
    r: nat,
) -> Seq<(u8, u8, u8)>
    decreases r,
{
    if r == 0 {
        Seq::empty()
    } else {
        yuv_rows(layout, y, u, v, strides, offsets, width, (r - 1) as nat) + Seq::new(
            width as nat,
            |c: int| yuv_sample(layout, y, u, v, strides, offsets, c, r - 1),
        )
    }
}

/// Byte `i` of a buffer, or `d` past its end.
fn get_or(b: &[u8], i: u128, d: u8) -> (r: u8)
    ensures
        r == byte_or(b@, i as int, d),
{
    if i < b.len() as u128 {
        b[i as usize]
    } else {
        d
    }
}

/// The sample of one pixel.
fn sample_at(
    layout: YuvLayout,
    y: &[u8],
    u: &[u8],
    v: &[u8],
    strides: &[u32; 4],
    offsets: &[u32; 4],
    col: u64,
    row: u64,
) -> (r: (u8, u8, u8))
    ensures
        r == yuv_sample(layout, y@, u@, v@, strides@, offsets@, col as int, row as int),
{
    let col = col as u128;
    let row = row as u128;
    assert(row * strides[0] as u128 <= 0xFFFF_FFFF_FFFF_FFFF * 0xFFFF_FFFF) by (nonlinear_arith)
        requires
            row <= 0xFFFF_FFFF_FFFF_FFFF,
            strides@[0] <= 0xFFFF_FFFF,
    ;
    assert((row / 2) * strides[1] as u128 <= 0xFFFF_FFFF_FFFF_FFFF * 0xFFFF_FFFF) by (nonlinear_arith)
        requires
            row <= 0xFFFF_FFFF_FFFF_FFFF,
            strides@[1] <= 0xFFFF_FFFF,
    ;
    assert((row / 2) * strides[2] as u128 <= 0xFFFF_FFFF_FFFF_FFFF * 0xFFFF_FFFF) by (nonlinear_arith)
        requires
            row <= 0xFFFF_FFFF_FFFF_FFFF,
            strides@[2] <= 0xFFFF_FFFF,
    ;
    match layout {
        YuvLayout::Nv12 => {
            let yi = offsets[0] as u128 + row * strides[0] as u128 + col;
            let ci = offsets[1] as u128 + (row / 2) * strides[1] as u128 + (col / 2) * 2;
            (get_or(y, yi, 0), get_or(u, ci, 128), get_or(u, ci + 1, 128))
        },
        YuvLayout::Yv12 => {
            let yi = offsets[0] as u128 + row * strides[0] as u128 + col;
            let vi = offsets[1] as u128 + (row / 2) * strides[1] as u128 + col / 2;
            let ui = offsets[2] as u128 + (row / 2) * strides[2] as u128 + col / 2;
            (get_or(y, yi, 0), get_or(u, ui, 128), get_or(v, vi, 128))
        },
        YuvLayout::Yuy2 => {
            let pair = offsets[0] as u128 + row * strides[0] as u128 + (col - col % 2) * 2;
            (get_or(y, pair + 2 * (col % 2), 0), get_or(y, pair + 1, 128), get_or(y, pair + 3, 128))
        },
    }
}

/// The (Y, U, V) samples of a `width` by `height` buffer, row by row, for
/// the color conversion to turn into framebuffer pixels.
pub fn yuv_samples(
    layout: YuvLayout,
    y: &[u8],
    u: &[u8],
    v: &[u8],
    strides: &[u32; 4],
    offsets: &[u32; 4],
    width: usize,
    height: usize,
) -> (r: Vec<(u8, u8, u8)>)
    ensures
        r@ == yuv_rows(layout, y@, u@, v@, strides@, offsets@, width as int, height as nat),
{
    let mut out: Vec<(u8, u8, u8)> = Vec::new();
    let mut row: usize = 0;
    while row < height
        invariant
            row <= height,
            out@ == yuv_rows(layout, y@, u@, v@, strides@, offsets@, width as int, row as nat),
        decreases height - row,
    {
        let ghost start = out@;
        let ghost line = Seq::new(width as nat, |c: int| yuv_sample(layout, y@, u@, v@, strides@, offsets@, c, row as int));
        let mut col: usize = 0;
        while col < width
            invariant
                row < height,
                col <= width,
                line == Seq::new(width as nat, |c: int| yuv_sample(layout, y@, u@, v@, strides@, offsets@, c, row as int)),
                out@ == start + line.subrange(0, col as int),
            decreases width - col,
        {
            let s = sample_at(layout, y, u, v, strides, offsets, col as u64, row as u64);
            out.push(s);
            assert(out@ =~= start + line.subrange(0, col + 1));
            col = col + 1;
        }
        assert(line.subrange(0, width as int) =~= line);
        row = row + 1;
    }
    out
}

/// The DRM fourcc codes of the YUV layouts.
pub const FOURCC_NV12: u32 = 0x3231_564E;
pub const FOURCC_YV12: u32 = 0x3231_5659;
pub const FOURCC_YUY2: u32 = 0x3259_5559;

/// The YUV layout a DRM fourcc code names, if any; other codes are packed
/// 32-bit pixels.
pub open spec fn layout_of(fourcc: u32) -> Option<YuvLayout> {
    if fourcc == FOURCC_NV12 {
        Some(YuvLayout::Nv12)
    } else if fourcc == FOURCC_YV12 {
        Some(YuvLayout::Yv12)
    } else if fourcc == FOURCC_YUY2 {
        Some(YuvLayout::Yuy2)
    } else {
        None
    }
}

/// The YUV layout of a fourcc code.
pub fn fourcc_layout(fourcc: u32) -> (r: Option<YuvLayout>)
    ensures
        r == layout_of(fourcc),
{
    if fourcc == FOURCC_NV12 {
        Some(YuvLayout::Nv12)
    } else if fourcc == FOURCC_YV12 {
        Some(YuvLayout::Yv12)
    } else if fourcc == FOURCC_YUY2 {
        Some(YuvLayout::Yuy2)
    } else {
        None
    }
}

/// How to get the bytes of one plane of a buffer: read `size` bytes from
/// offset 0 of descriptor `fd`, or take those of an earlier plane that
/// comes through the same descriptor.
#[derive(Clone, Copy)]
pub enum PlaneRead {
    Read { fd: i32, size: u64 },
    SameAs(usize),
}

/// The bytes a plane of `rows` rows takes from the start of its buffer.
pub open spec fn plane_size(offset: u32, stride: u32, rows: nat) -> u64 {
    (offset + stride * rows) as u64
}

/// Descriptor `i` was sent and is valid.
pub open spec fn valid_fd(fds: Seq<i32>, i: int) -> bool {
    0 <= i < fds.len() && fds[i] >= 0
}

/// Descriptor `i` if it is valid, else `d`.
pub open spec fn fd_or(fds: Seq<i32>, i: int, d: i32) -> i32 {
    if valid_fd(fds, i) {
        fds[i]
    } else {
        d
    }
}

/// The reads that fill a pixmap of `height` rows from buffers in the
/// layout `fourcc` names: nothing without a valid first descriptor; else
/// plane 0 from it and, for NV12 and YV12, the half-height chroma planes
/// from the next descriptors, a missing or invalid one standing for the
/// plane before it.
pub open spec fn plane_reads(fourcc: u32, fds: Seq<i32>, strides: Seq<u32>, offsets: Seq<u32>, height: nat) -> Seq<PlaneRead> {
    if !valid_fd(fds, 0) {
        Seq::empty()
    } else {
        let y = fds[0];
        let first = PlaneRead::Read { fd: y, size: plane_size(offsets[0], strides[0], height) };
        let half = (height + 1) / 2;
        match layout_of(fourcc) {
            Some(YuvLayout::Nv12) => {
                let c = fd_or(fds, 1, y);
                seq![first, if c == y {
                    PlaneRead::SameAs(0)
                } else {
                    PlaneRead::Read { fd: c, size: plane_size(offsets[1], strides[1], half) }
                }]
            },
            Some(YuvLayout::Yv12) => {
                let v = fd_or(fds, 1, y);
                let u = fd_or(fds, 2, v);
                seq![first, if v == y {
                    PlaneRead::SameAs(0)
                } else {
                    PlaneRead::Read { fd: v, size: plane_size(offsets[1], strides[1], half) }
                }, if u == y {
                    PlaneRead::SameAs(0)
                } else if u == v {
                    PlaneRead::SameAs(1)
                } else {
                    PlaneRead::Read { fd: u, size: plane_size(offsets[2], strides[2], half) }
                }]
            },
            _ => seq![first],
        }
    }
}

/// The bytes of a plane.
fn read_size(offset: u32, stride: u32, rows: u32) -> (r: u64)
    requires
        rows <= 0x1_0000,
    ensures
        r == plane_size(offset, stride, rows as nat),
{
    assert(stride * rows <= 0xFFFF_FFFF * 0x1_0000) by (nonlinear_arith)
        requires
            rows <= 0x1_0000,
            stride <= 0xFFFF_FFFF,
    ;
    offset as u64 + stride as u64 * rows as u64
}

/// Descriptor `i` if it is valid, else `d`.
fn pick_fd(fds: &[i32], i: usize, d: i32) -> (r: i32)
    ensures
        r == fd_or(fds@, i as int, d),
{
    if i < fds.len() && fds[i] >= 0 {
        fds[i]
    } else {
        d
    }
}

/// Plan the reads that fill a pixmap from its buffers.
pub fn plan_plane_reads(fourcc: u32, fds: &[i32], strides: &[u32; 4], offsets: &[u32; 4], height: u16) -> (r: Vec<PlaneRead>)
    ensures
        r@ == plane_reads(fourcc, fds@, strides@, offsets@, height as nat),
{
    let mut reads: Vec<PlaneRead> = Vec::new();
    if fds.len() == 0 || fds[0] < 0 {
        return reads;
    }
    let y = fds[0];
    let h = height as u32;
    let half = (h + 1) / 2;
    reads.push(PlaneRead::Read { fd: y, size: read_size(offsets[0], strides[0], h) });
    match fourcc_layout(fourcc) {
        Some(YuvLayout::Nv12) => {
            let c = pick_fd(fds, 1, y);
            reads.push(if c == y { PlaneRead::SameAs(0) } else { PlaneRead::Read { fd: c, size: read_size(offsets[1], strides[1], half) } });
        },
        Some(YuvLayout::Yv12) => {
            let v = pick_fd(fds, 1, y);
            let u = pick_fd(fds, 2, v);
            reads.push(if v == y { PlaneRead::SameAs(0) } else { PlaneRead::Read { fd: v, size: read_size(offsets[1], strides[1], half) } });
            reads.push(if u == y {
                PlaneRead::SameAs(0)
            } else if u == v {
                PlaneRead::SameAs(1)
            } else {
                PlaneRead::Read { fd: u, size: read_size(offsets[2], strides[2], half) }
            });
        },
        _ => {},
    }
    proof {
        let ghost expect = plane_reads(fourcc, fds@, strides@, offsets@, height as nat);
        assert(reads@ =~= expect);
    }
    reads
}

/// How many bytes of row `row` of a packed buffer are copied into a
/// pixmap `width` pixels wide whose pixel data has `dst_len` bytes: at
/// most a pixmap row (four bytes a pixel), a buffer row, what the buffer
/// holds from the row's start, and what the pixmap holds from its row's
/// start.
pub open spec fn packed_copy_len(buf_len: nat, dst_len: nat, stride: u32, offset: u32, width: u16, row: int) -> int {
    let src = offset + row * stride;
    let dst = row * width * 4;
    let a = if src <= buf_len { buf_len - src } else { 0 };
    let b = if dst <= dst_len { dst_len - dst } else { 0 };
    let m = if (width * 4) < stride { width * 4 } else { stride as int };
    let m2 = if m < a { m } else { a };
    if m2 < b { m2 } else { b }
}

/// Pixel data after copying the first `rows` rows of a packed buffer into
/// it: byte `j` of pixmap row `r` takes byte `offset + r * stride + j` of
/// the buffer when `j` is within that row's copy, else stays.
pub open spec fn packed_copied(dst: Seq<u8>, buf: Seq<u8>, stride: u32, offset: u32, width: u16, rows: int) -> Seq<u8> {
    Seq::new(dst.len(), |p: int| {
        let w4 = width * 4;
        if w4 > 0 && p / w4 < rows && p % w4 < packed_copy_len(buf.len(), dst.len(), stride, offset, width, p / w4) {
            buf[offset + (p / w4) * stride + p % w4]
        } else {
            dst[p]
        }
    })
}

/// Copy a packed 32-bit-pixel buffer into a pixmap's pixel data, row by
/// row.
pub fn copy_packed_rows(dst: &mut Vec<u8>, buf: &[u8], stride: u32, offset: u32, width: u16, height: u16)
    ensures
        final(dst)@ == packed_copied(old(dst)@, buf@, stride, offset, width, height as int),
{
    let ghost d0 = dst@;
    let w4: u64 = width as u64 * 4;
    let mut row: u16 = 0;
    while row < height
        invariant
            row <= height,
            w4 == width * 4,
            dst@.len() == d0.len(),
            dst@ == packed_copied(d0, buf@, stride, offset, width, row as int),
        decreases height - row,
    {
        assert(row * stride <= 0xFFFF * 0xFFFF_FFFFnat) by (nonlinear_arith)
            requires
                row <= 0xFFFF,
                stride <= 0xFFFF_FFFF,
        ;
        assert(row * w4 <= 0xFFFF * 0x4_0000nat) by (nonlinear_arith)
            requires
                row <= 0xFFFF,
                w4 <= 0x4_0000,
        ;
        let src: u64 = offset as u64 + row as u64 * stride as u64;
        let dst_start: u64 = row as u64 * w4;
        let buf_len = buf.len() as u64;
        let dst_len = dst.len() as u64;
        let a: u64 = if src <= buf_len { buf_len - src } else { 0 };
        let b: u64 = if dst_start <= dst_len { dst_len - dst_start } else { 0 };
        let m: u64 = if w4 < stride as u64 { w4 } else { stride as u64 };
        let m2: u64 = if m < a { m } else { a };
        let n: u64 = if m2 < b { m2 } else { b };
        proof {
            assert(row * width * 4 == row * w4) by (nonlinear_arith)
                requires
                    w4 == width * 4,
            ;
            assert(n == packed_copy_len(buf@.len(), d0.len(), stride, offset, width, row as int));
        }
        let ghost before = dst@;
        assert(buf@.len() <= usize::MAX && dst@.len() <= usize::MAX);
        let mut j: u64 = 0;
        while j < n
            invariant
                j <= n,
                n <= w4,
                n > 0 ==> src + n <= buf@.len() && dst_start + n <= dst@.len(),
                buf@.len() <= usize::MAX,
                dst@.len() <= usize::MAX,
                dst@.len() == before.len(),
                forall|p: int| 0 <= p < dst@.len() ==> #[trigger] dst@[p] == (if dst_start <= p < dst_start + j {
                    buf@[src + (p - dst_start)]
                } else {
                    before[p]
                }),
            decreases n - j,
        {
            let di = (dst_start + j) as usize;
            let si = (src + j) as usize;
            dst.set(di, buf[si]);
            j = j + 1;
        }
        proof {
            let next = packed_copied(d0, buf@, stride, offset, width, row + 1);
            assert forall|p: int| 0 <= p < dst@.len() implies dst@[p] == next[p] by {
                if w4 > 0 {
                    let q = p / (w4 as int);
                    let rr = p % (w4 as int);
                    vstd::arithmetic::div_mod::lemma_fundamental_div_mod(p, w4 as int);
                    if q == row {
                        assert(p == row * w4 + rr) by (nonlinear_arith)
                            requires
                                p == w4 * q + rr,
                                q == row,
                        ;
                    } else {
                        if q < row {
                            assert(p < row * w4) by (nonlinear_arith)
                                requires
                                    p == w4 * q + rr,
                                    q < row,
                                    rr < w4,
                            ;
                        } else {
                            assert(p >= row * w4 + w4) by (nonlinear_arith)
                                requires
                                    p == w4 * q + rr,
                                    q > row,
                                    0 <= rr,
                            ;
                        }
                    }
                } else {
                    assert(n == 0);
                }
            }
            assert(dst@ =~= next);
        }
        row = row + 1;
    }
}

} // verus!
