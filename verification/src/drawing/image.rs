//! PutImage: checking the request, and painting the image's pixels into a
//! 32-bit BGRA framebuffer (four bytes per pixel, rows of `width` pixels).
//! GetImage: checking the request, and encoding pixels read from a
//! framebuffer as a ZPixmap or XYPixmap reply.

use crate::drawing::gc::{copy_rects, GcState};
use crate::drawing::primitives::{DrawOp, Shape};
use crate::drawing::{drawable_pixel, rop, should_draw_pixel, ClipRect};
use crate::state::{ClientState, BAD_DRAWABLE, BAD_LENGTH, BAD_VALUE};
use crate::wire::{build_error, build_reply, bytes32, error_packet, field16, field32, le16, le32, push_u16, push_u32, push_zeros, read_i16, read_u16, read_u32, reply_packet, u32_of, zeros};
use vstd::prelude::*;

verus! {

/// The four bytes (blue, green, red, alpha) of pixel (`x`, `y`) of a
/// framebuffer `w` pixels wide.
pub open spec fn pixel_at(buf: Seq<u8>, w: int, x: int, y: int) -> (u8, u8, u8, u8) {
    let i = (y * w + x) * 4;
    (buf[i], buf[i + 1], buf[i + 2], buf[i + 3])
}

/// The pixel lies in a `w` by `h` framebuffer.
pub open spec fn on_screen(w: int, h: int, x: int, y: int) -> bool {
    0 <= x < w && 0 <= y < h
}

/// Distinct pixels have distinct places, and every place is inside the
/// framebuffer.
proof fn lemma_pixel_place(w: int, h: int, x: int, y: int, x2: int, y2: int)
    requires
        on_screen(w, h, x, y),
        on_screen(w, h, x2, y2),
    ensures
        0 <= y * w + x < w * h,
        y * w + x == y2 * w + x2 ==> x == x2 && y == y2,
{
    assert(0 <= y * w + x < w * h) by (nonlinear_arith)
        requires
            0 <= x < w,
            0 <= y < h,
    ;
    if y < y2 {
        assert(y * w + x < y2 * w + x2) by (nonlinear_arith)
            requires
                0 <= x < w,
                0 <= x2,
                y < y2,
        ;
    } else if y2 < y {
        assert(y2 * w + x2 < y * w + x) by (nonlinear_arith)
            requires
                0 <= x2 < w,
                0 <= x,
                y2 < y,
        ;
    }
}

/// Read pixel (`x`, `y`).
fn read_pixel(fb: &Vec<u8>, fb_w: u16, fb_h: u16, x: u16, y: u16) -> (r: (u8, u8, u8, u8))
    requires
        fb@.len() == fb_w * fb_h * 4,
        x < fb_w,
        y < fb_h,
    ensures
        r == pixel_at(fb@, fb_w as int, x as int, y as int),
{
    proof {
        lemma_pixel_place(fb_w as int, fb_h as int, x as int, y as int, x as int, y as int);
        assert(fb@.len() == fb.len());
        assert((y * fb_w + x) * 4 + 3 < fb@.len());
    }
    let i = (y as usize * fb_w as usize + x as usize) * 4;
    (fb[i], fb[i + 1], fb[i + 2], fb[i + 3])
}

/// Write pixel (`x`, `y`); every other pixel keeps its bytes.
fn write_pixel(fb: &mut Vec<u8>, fb_w: u16, fb_h: u16, x: u16, y: u16, q: (u8, u8, u8, u8))
    requires
        old(fb)@.len() == fb_w * fb_h * 4,
        x < fb_w,
        y < fb_h,
    ensures
        final(fb)@.len() == old(fb)@.len(),
        forall|x2: int, y2: int|
            on_screen(fb_w as int, fb_h as int, x2, y2) ==> #[trigger] pixel_at(final(fb)@, fb_w as int, x2, y2) == if x2
                == x && y2 == y {
                q
            } else {
                pixel_at(old(fb)@, fb_w as int, x2, y2)
            },
{
    proof {
        lemma_pixel_place(fb_w as int, fb_h as int, x as int, y as int, x as int, y as int);
        assert(fb@.len() == fb.len());
        assert((y * fb_w + x) * 4 + 3 < fb@.len());
    }
    let i = (y as usize * fb_w as usize + x as usize) * 4;
    fb.set(i, q.0);
    fb.set(i + 1, q.1);
    fb.set(i + 2, q.2);
    fb.set(i + 3, q.3);
    proof {
        assert forall|x2: int, y2: int| on_screen(fb_w as int, fb_h as int, x2, y2) implies #[trigger] pixel_at(
            fb@,
            fb_w as int,
            x2,
            y2,
        ) == if x2 == x && y2 == y {
            q
        } else {
            pixel_at(old(fb)@, fb_w as int, x2, y2)
        } by {
            lemma_pixel_place(fb_w as int, fb_h as int, x2, y2, x as int, y as int);
        }
    }
}


/// An image as PutImage carries it: format 0 (Bitmap), 1 (XYPixmap) or
/// 2 (ZPixmap), depth, left pad of bitmap scanlines, destination, size and
/// the image bytes (each scanline padded to 32 bits).
pub struct Image {
    pub format: u8,
    pub depth: u8,
    pub left_pad: u8,
    pub x: i16,
    pub y: i16,
    pub width: u16,
    pub height: u16,
    pub pixels: Vec<u8>,
}

/// What the GC and the drawable add to the image: raster operation, plane
/// mask, clip rectangles, the foreground and background pixels a bitmap is
/// painted with, and the 256-entry palette (blue, green, red, index) that
/// 8-bit pixels are looked up in.
pub struct ImageStyle {
    pub function: u8,
    pub plane_mask: u32,
    pub clip_rects: Vec<ClipRect>,
    pub foreground: u32,
    pub background: u32,
    pub palette: Vec<(u8, u8, u8, u8)>,
}

/// `n` rounded up to a multiple of four.
pub open spec fn pad4(n: int) -> int {
    (n + 3) / 4 * 4
}

/// The 24-bit color of a 16-bit RGB565 pixel, each channel widened by
/// repeating its top bits.
pub open spec fn rgb565(val: u16) -> u32 {
    let r = ((val >> 11u16) & 0x1Fu16) as u8;
    let g = ((val >> 5u16) & 0x3Fu16) as u8;
    let b = (val & 0x1Fu16) as u8;
    ((((r << 3u8) | (r >> 2u8)) as u32) << 16u32) | ((((g << 2u8) | (g >> 4u8)) as u32) << 8u32) | (((b << 3u8) | (b
        >> 2u8)) as u32)
}

/// The 24-bit color of a framebuffer pixel.
pub open spec fn color_of(q: (u8, u8, u8, u8)) -> u32 {
    ((q.2 as u32) << 16u32) | ((q.1 as u32) << 8u32) | (q.0 as u32)
}

/// Bit `bit_pos` of scanline `row` of a bitmap plane starting at `base`,
/// most significant bit first; 0 past the end of the data.
pub open spec fn plane_bit(p: Seq<u8>, base: int, padded: int, row: int, bit_pos: int) -> u8 {
    let idx = base + row * padded + bit_pos / 8;
    if idx < p.len() {
        (p[idx] >> ((7 - bit_pos % 8) as u8)) & 1u8
    } else {
        0u8
    }
}

/// An XYPixmap pixel: starting from the destination pixel, each plane that
/// the plane mask selects, among the first `n` (plane `k` is stored
/// `depth - 1 - k` planes into the data), sets or clears its bit where the
/// data has it.
pub open spec fn xy_value(img: Image, pm: u32, col: int, row: int, dst: u32, n: nat) -> u32
    decreases n,
{
    if n == 0 {
        dst
    } else {
        let v = xy_value(img, pm, col, row, dst, (n - 1) as nat);
        let k = n - 1;
        let pb = 1u32 << (k as u32);
        let padded = pad4((img.left_pad + img.width + 7) / 8);
        let base = (img.depth - 1 - k) * (padded * img.height);
        let idx = base + row * padded + (img.left_pad + col) / 8;
        if pm & pb == 0 || idx >= img.pixels@.len() {
            v
        } else if plane_bit(img.pixels@, base, padded, row, img.left_pad + col) != 0 {
            v | pb
        } else {
            v & !pb
        }
    }
}

/// The source pixel (color and alpha byte) the image gives at (`col`,
/// `row`) over destination color `dst`, or None where its data ends.
pub open spec fn source_pixel(img: Image, st: ImageStyle, col: int, row: int, dst: u32) -> Option<(u32, u8)> {
    let p = img.pixels@;
    let w = img.width as int;
    if img.format == 2 && img.depth == 16 {
        let off = row * pad4(w * 2) + col * 2;
        if off + 1 >= p.len() {
            None
        } else {
            Some((rgb565((p[off] as u16) | ((p[off + 1] as u16) << 8u16)), 0xFFu8))
        }
    } else if img.format == 2 && img.depth == 8 {
        let off = row * pad4(w) + col;
        if off >= p.len() {
            None
        } else {
            let e = st.palette@[p[off] as int];
            Some((color_of(e), e.3))
        }
    } else if img.format == 2 && img.depth == 4 {
        let off = row * pad4((w + 1) / 2) + col / 2;
        if off >= p.len() {
            None
        } else {
            let nib = if col % 2 == 0 { p[off] & 0x0Fu8 } else { (p[off] >> 4u8) & 0x0Fu8 };
            let v = nib | (nib << 4u8);
            Some((((v as u32) << 16u32) | ((v as u32) << 8u32) | (v as u32), 0xFFu8))
        }
    } else if img.format == 0 {
        let padded = pad4((img.left_pad + w + 7) / 8);
        if plane_bit(p, 0, padded, row, img.left_pad + col) != 0 {
            Some((st.foreground & st.plane_mask, 0xFFu8))
        } else {
            Some((st.background & st.plane_mask, 0xFFu8))
        }
    } else {
        Some((xy_value(img, st.plane_mask, col, row, dst, img.depth as nat), 0xFFu8))
    }
}

/// The formats painted through the GC: ZPixmap of depth 16, 8 or 4, Bitmap
/// and XYPixmap.
pub open spec fn through_gc(img: Image) -> bool {
    ||| img.format == 2 && (img.depth == 16 || img.depth == 8 || img.depth == 4)
    ||| img.format == 0
    ||| img.format == 1
}

/// How a source color lands on the destination: a copy for XYPixmap under
/// GXcopy and for Bitmap under GXcopy with all planes, else the raster
/// operation within the plane mask.
pub open spec fn combined(img: Image, st: ImageStyle, src: u32, dst: u32) -> u32 {
    if img.format == 1 && st.function == 3 || img.format == 0 && st.function == 3 && st.plane_mask == 0xFFFF_FFFFu32 {
        src
    } else {
        (rop(st.function, src, dst) & st.plane_mask) | (dst & !st.plane_mask)
    }
}

/// The bytes of a 24-bit color with the given alpha byte.
pub open spec fn pixel_bytes(c: u32, a: u8) -> (u8, u8, u8, u8) {
    ((c & 0xFFu32) as u8, ((c >> 8u32) & 0xFFu32) as u8, ((c >> 16u32) & 0xFFu32) as u8, a)
}

/// A depth-1 ZPixmap pixel: bit `col` of scanline `row`, least significant
/// bit first; 0 past the end of the data.
pub open spec fn z1_bit(p: Seq<u8>, w: int, col: int, row: int) -> u8 {
    let idx = row * pad4((w + 7) / 8) + col / 8;
    if idx < p.len() {
        (p[idx] >> ((col % 8) as u8)) & 1u8
    } else {
        0u8
    }
}

/// The pixel (`x`, `y`) after painting the image, given its bytes `q`
/// before. A depth-1 ZPixmap is stored as black or white with alpha 0,
/// unclipped, and only when the image starts at non-negative coordinates;
/// ZPixmaps of other depths than 16, 8, 4 and 1 are not painted here.
pub open spec fn painted(img: Image, st: ImageStyle, x: int, y: int, q: (u8, u8, u8, u8)) -> (u8, u8, u8, u8) {
    let col = x - img.x;
    let row = y - img.y;
    if !(0 <= col < img.width && 0 <= row < img.height) {
        q
    } else if img.format == 2 && img.depth == 1 {
        if img.x < 0 || img.y < 0 {
            q
        } else {
            let v: u8 = if z1_bit(img.pixels@, img.width as int, col, row) != 0 { 0xFF } else { 0 };
            (v, v, v, 0u8)
        }
    } else if !through_gc(img) || !drawable_pixel(x, y, st.clip_rects@) {
        q
    } else {
        match source_pixel(img, st, col, row, color_of(q)) {
            None => q,
            Some(sp) => pixel_bytes(combined(img, st, sp.0, color_of(q)), sp.1),
        }
    }
}


/// Painting an image changes no pixel outside the image's rectangle.
pub proof fn painting_stays_inside_the_image(img: Image, st: ImageStyle, x: int, y: int, q: (u8, u8, u8, u8))
    requires
        !(img.x <= x < img.x + img.width && img.y <= y < img.y + img.height),
    ensures
        painted(img, st, x, y, q) == q,
{
}

/// Painting an image through the GC changes no pixel outside the GC's
/// clip rectangles, when it has any.
pub proof fn painting_stays_inside_the_clip(img: Image, st: ImageStyle, x: int, y: int, q: (u8, u8, u8, u8))
    requires
        st.clip_rects@.len() > 0,
        !(img.format == 2 && img.depth == 1),
        forall|i: int| 0 <= i < st.clip_rects@.len() ==> !crate::drawing::in_rect(x, y, #[trigger] st.clip_rects@[i]),
    ensures
        painted(img, st, x, y, q) == q,
{
}

/// The length of a ZPixmap scanline holding `bytes` bytes of pixels: the
/// next multiple of four, as scanlines are padded to 32 bits.
pub open spec fn scanline_len(bytes: int) -> int {
    if bytes % 4 == 0 {
        bytes
    } else {
        bytes + 4 - bytes % 4
    }
}

proof fn lemma_pad4_is_scanline_len(n: int)
    requires
        n >= 0,
    ensures
        pad4(n) == scanline_len(n),
{
    assert(pad4(n) == scanline_len(n)) by (nonlinear_arith)
        requires
            n >= 0,
    {
        let q = n / 4;
        let r = n % 4;
        assert(n == 4 * q + r);
        assert(0 <= r < 4);
        if r == 0 {
            assert((n + 3) / 4 == q);
        } else {
            assert((n + 3) / 4 == q + 1);
        }
    }
}

/// A depth-16 ZPixmap pixel is the little-endian RGB565 word at column
/// `col` of scanline `row`, each scanline padded to 32 bits: painted with
/// GXcopy, all planes and no clipping, the pixel becomes that color, opaque.
pub proof fn zpixmap16_reads_padded_scanlines(img: Image, st: ImageStyle, col: int, row: int, q: (u8, u8, u8, u8))
    requires
        img.format == 2,
        img.depth == 16,
        0 <= col < img.width,
        0 <= row < img.height,
        st.function == 3,
        st.plane_mask == 0xFFFF_FFFFu32,
        st.clip_rects@.len() == 0,
        row * scanline_len(2 * img.width) + 2 * col + 1 < img.pixels@.len(),
    ensures
        ({
            let off = row * scanline_len(2 * img.width) + 2 * col;
            let word = (img.pixels@[off] as u16) | ((img.pixels@[off + 1] as u16) << 8u16);
            painted(img, st, img.x + col, img.y + row, q) == pixel_bytes(rgb565(word), 0xFFu8)
        }),
{
    lemma_pad4_is_scanline_len(2 * img.width);
    let off = row * scanline_len(2 * img.width) + 2 * col;
    let word = (img.pixels@[off] as u16) | ((img.pixels@[off + 1] as u16) << 8u16);
    let c = rgb565(word);
    let dst = color_of(q);
    assert((c & 0xFFFF_FFFFu32) | (dst & !0xFFFF_FFFFu32) == c) by (bit_vector);
    assert(source_pixel(img, st, col, row, dst) == Some((c, 0xFFu8)));
}

/// A depth-8 ZPixmap pixel is the palette entry named by the byte at
/// column `col` of scanline `row`, each scanline padded to 32 bits: painted
/// with GXcopy, all planes and no clipping, the pixel takes that entry's
/// color and keeps its index in the alpha byte.
pub proof fn zpixmap8_reads_padded_scanlines(img: Image, st: ImageStyle, col: int, row: int, q: (u8, u8, u8, u8))
    requires
        img.format == 2,
        img.depth == 8,
        0 <= col < img.width,
        0 <= row < img.height,
        st.function == 3,
        st.plane_mask == 0xFFFF_FFFFu32,
        st.clip_rects@.len() == 0,
        row * scanline_len(img.width as int) + col < img.pixels@.len(),
    ensures
        ({
            let e = st.palette@[img.pixels@[row * scanline_len(img.width as int) + col] as int];
            painted(img, st, img.x + col, img.y + row, q) == pixel_bytes(color_of(e), e.3)
        }),
{
    lemma_pad4_is_scanline_len(img.width as int);
    let e = st.palette@[img.pixels@[row * scanline_len(img.width as int) + col] as int];
    let c = color_of(e);
    let dst = color_of(q);
    assert((c & 0xFFFF_FFFFu32) | (dst & !0xFFFF_FFFFu32) == c) by (bit_vector);
}

/// A depth-4 ZPixmap pixel is a nibble of scanline `row` (each scanline
/// padded to 32 bits), the low nibble of its byte for an even column and
/// the high one for an odd column, as a gray level: painted with GXcopy,
/// all planes and no clipping, each color byte becomes the nibble repeated.
pub proof fn zpixmap4_reads_padded_scanlines(img: Image, st: ImageStyle, col: int, row: int, q: (u8, u8, u8, u8))
    requires
        img.format == 2,
        img.depth == 4,
        0 <= col < img.width,
        0 <= row < img.height,
        st.function == 3,
        st.plane_mask == 0xFFFF_FFFFu32,
        st.clip_rects@.len() == 0,
        row * scanline_len((img.width + 1) / 2) + col / 2 < img.pixels@.len(),
    ensures
        ({
            let byte = img.pixels@[row * scanline_len((img.width + 1) / 2) + col / 2];
            let nib: u8 = if col % 2 == 0 { byte & 0x0Fu8 } else { byte >> 4u8 };
            let v: u8 = (nib * 17) as u8;
            painted(img, st, img.x + col, img.y + row, q) == (v, v, v, 0xFFu8)
        }),
{
    lemma_pad4_is_scanline_len((img.width + 1) / 2);
    let byte = img.pixels@[row * scanline_len((img.width + 1) / 2) + col / 2];
    let nib: u8 = if col % 2 == 0 { byte & 0x0Fu8 } else { (byte >> 4u8) & 0x0Fu8 };
    let v: u8 = nib | (nib << 4u8);
    let c = ((v as u32) << 16u32) | ((v as u32) << 8u32) | (v as u32);
    let dst = color_of(q);
    assert((c & 0xFFFF_FFFFu32) | (dst & !0xFFFF_FFFFu32) == c) by (bit_vector);
    assert((c & 0xFFu32) as u8 == v && ((c >> 8u32) & 0xFFu32) as u8 == v && ((c >> 16u32) & 0xFFu32) as u8 == v)
        by (bit_vector)
        requires
            c == ((v as u32) << 16u32) | ((v as u32) << 8u32) | (v as u32),
    ;
    assert((byte >> 4u8) & 0x0Fu8 == byte >> 4u8) by (bit_vector);
    assert(byte & 0x0Fu8 <= 15 && byte >> 4u8 <= 15) by (bit_vector);
    assert((nib | (nib << 4u8)) == (nib * 17) as u8) by (bit_vector)
        requires
            nib <= 15,
    ;
}

/// A Bitmap pixel is one bit of its scanline (each scanline padded to 32
/// bits, the first `left_pad` bits skipped), most significant bit first:
/// painted with GXcopy, all planes and no clipping, a set bit gives the
/// foreground and a clear bit the background, opaque.
pub proof fn bitmap_reads_padded_scanlines(img: Image, st: ImageStyle, col: int, row: int, q: (u8, u8, u8, u8))
    requires
        img.format == 0,
        0 <= col < img.width,
        0 <= row < img.height,
        st.function == 3,
        st.plane_mask == 0xFFFF_FFFFu32,
        st.clip_rects@.len() == 0,
        row * scanline_len((img.left_pad + img.width + 7) / 8) + (img.left_pad + col) / 8 < img.pixels@.len(),
    ensures
        ({
            let pos = img.left_pad + col;
            let byte = img.pixels@[row * scanline_len((img.left_pad + img.width + 7) / 8) + pos / 8];
            let set = (byte >> ((7 - pos % 8) as u8)) & 1u8 != 0;
            painted(img, st, img.x + col, img.y + row, q) == pixel_bytes(if set { st.foreground } else { st.background }, 0xFFu8)
        }),
{
    lemma_pad4_is_scanline_len((img.left_pad + img.width + 7) / 8);
    let fg = st.foreground;
    let bg = st.background;
    assert(fg & 0xFFFF_FFFFu32 == fg && bg & 0xFFFF_FFFFu32 == bg) by (bit_vector);
}

/// A depth-1 ZPixmap pixel is one bit of its scanline (each scanline
/// padded to 32 bits), least significant bit first: painting an image
/// placed at non-negative coordinates makes the pixel white for a set bit
/// and black for a clear one, with alpha 0, whatever the GC.
pub proof fn zpixmap1_reads_padded_scanlines(img: Image, st: ImageStyle, col: int, row: int, q: (u8, u8, u8, u8))
    requires
        img.format == 2,
        img.depth == 1,
        img.x >= 0,
        img.y >= 0,
        0 <= col < img.width,
        0 <= row < img.height,
        row * scanline_len((img.width + 7) / 8) + col / 8 < img.pixels@.len(),
    ensures
        ({
            let byte = img.pixels@[row * scanline_len((img.width + 7) / 8) + col / 8];
            let v: u8 = if (byte >> ((col % 8) as u8)) & 1u8 != 0 { 0xFF } else { 0 };
            painted(img, st, img.x + col, img.y + row, q) == (v, v, v, 0u8)
        }),
{
    lemma_pad4_is_scanline_len((img.width + 7) / 8);
}

/// The RGB565 expansion keeps each channel: the 24-bit color is red in the
/// top byte, green in the middle and blue in the low byte, and taking the
/// top 5, 6 and 5 bits of those bytes gives back the 16-bit pixel; pure
/// full channels become full bytes.
pub proof fn rgb565_round_trips(val: u16)
    ensures
        rgb565(val) < 0x100_0000,
        ((((rgb565(val) >> 19u32) & 0x1Fu32) << 11u32) | (((rgb565(val) >> 10u32) & 0x3Fu32) << 5u32) | ((rgb565(val)
            >> 3u32) & 0x1Fu32)) == val as u32,
        val & 0xF800u16 == 0xF800u16 ==> (rgb565(val) >> 16u32) & 0xFFu32 == 0xFFu32,
        val & 0x07E0u16 == 0x07E0u16 ==> (rgb565(val) >> 8u32) & 0xFFu32 == 0xFFu32,
        val & 0x001Fu16 == 0x001Fu16 ==> rgb565(val) & 0xFFu32 == 0xFFu32,
{
    let c = rgb565(val);
    assert(c < 0x100_0000 && (((((c >> 19u32) & 0x1Fu32) << 11u32) | (((c >> 10u32) & 0x3Fu32) << 5u32) | ((c >> 3u32)
        & 0x1Fu32)) == val as u32) && (val & 0xF800u16 == 0xF800u16 ==> (c >> 16u32) & 0xFFu32 == 0xFFu32) && (val
        & 0x07E0u16 == 0x07E0u16 ==> (c >> 8u32) & 0xFFu32 == 0xFFu32) && (val & 0x001Fu16 == 0x001Fu16 ==> c & 0xFFu32
        == 0xFFu32)) by (bit_vector)
        requires
            c == ((((((val >> 11u16) & 0x1Fu16) as u8) << 3u8) | ((((val >> 11u16) & 0x1Fu16) as u8) >> 2u8)) as u32)
                << 16u32 | ((((((val >> 5u16) & 0x3Fu16) as u8) << 2u8) | ((((val >> 5u16) & 0x3Fu16) as u8) >> 4u8))
                as u32) << 8u32 | ((((((val & 0x1Fu16) as u8) << 3u8) | (((val & 0x1Fu16) as u8) >> 2u8))) as u32),
    ;
}

/// Round up to a multiple of four.
fn pad4_u64(n: u64) -> (r: u64)
    requires
        n < 0x1_0000_0000,
    ensures
        r == pad4(n as int),
        n <= r <= n + 3,
{
    (n + 3) / 4 * 4
}

/// Read a bit of a bitmap plane, most significant bit first.
fn plane_bit_at(p: &Vec<u8>, base: u64, padded: u64, row: u64, bit_pos: u64) -> (r: u8)
    requires
        base < 0x100_0000_0000,
        padded < 0x1_0000,
        row < 0x1_0000,
        bit_pos < 0x10_0000,
    ensures
        r == plane_bit(p@, base as int, padded as int, row as int, bit_pos as int),
{
    assert(row * padded < 0x1_0000_0000) by (nonlinear_arith)
        requires
            padded < 0x1_0000,
            row < 0x1_0000,
    ;
    let idx = base + row * padded + bit_pos / 8;
    if idx < p.len() as u64 {
        let sh = (7 - bit_pos % 8) as u8;
        (p[idx as usize] >> sh) & 1
    } else {
        0
    }
}

/// Compute an XYPixmap pixel.
fn xy_pixel(img: &Image, pm: u32, col: u16, row: u16, dst: u32) -> (r: u32)
    requires
        img.depth <= 32,
        col < img.width,
        row < img.height,
    ensures
        r == xy_value(*img, pm, col as int, row as int, dst, img.depth as nat),
{
    let bytes = (img.left_pad as u64 + img.width as u64 + 7) / 8;
    assert(bytes < 0x4000);
    let padded = pad4_u64(bytes);
    assert(padded * img.height < 0x1_0000_0000) by (nonlinear_arith)
        requires
            padded < 0x1_0000,
            img.height < 0x1_0000,
    ;
    let plane_size = padded * img.height as u64;
    let bit_pos = img.left_pad as u64 + col as u64;
    let mut v = dst;
    let mut k: u32 = 0;
    while k < img.depth as u32
        invariant
            k <= img.depth <= 32,
            col < img.width,
            row < img.height,
            padded == pad4((img.left_pad + img.width + 7) / 8),
            padded < 0x1_0000,
            plane_size == padded * img.height,
            plane_size < 0x1_0000_0000,
            bit_pos == img.left_pad + col,
            v == xy_value(*img, pm, col as int, row as int, dst, k as nat),
        decreases img.depth - k,
    {
        let pb = 1u32 << k;
        let planes_before = img.depth as u64 - 1 - k as u64;
        assert(planes_before * plane_size < 0x100_0000_0000) by (nonlinear_arith)
            requires
                planes_before < 32,
                plane_size < 0x1_0000_0000,
        ;
        let base = planes_before * plane_size;
        assert(row * padded < 0x1_0000_0000) by (nonlinear_arith)
            requires
                row < 0x1_0000,
                padded < 0x1_0000,
        ;
        let idx = base + row as u64 * padded + bit_pos / 8;
        if pm & pb == 0 || idx >= img.pixels.len() as u64 {
        } else if plane_bit_at(&img.pixels, base, padded, row as u64, bit_pos) != 0 {
            v = v | pb;
        } else {
            v = v & !pb;
        }
        k = k + 1;
    }
    v
}

/// Compute the source pixel of the image at (`col`, `row`).
fn source_of(img: &Image, st: &ImageStyle, col: u16, row: u16, dst: u32) -> (r: Option<(u32, u8)>)
    requires
        col < img.width,
        row < img.height,
        st.palette@.len() == 256,
        img.format != 1 || img.depth <= 32,
        through_gc(*img),
    ensures
        r == source_pixel(*img, *st, col as int, row as int, dst),
{
    let p = &img.pixels;
    let w = img.width as u64;
    let row64 = row as u64;
    let col64 = col as u64;
    if img.format == 2 && img.depth == 16 {
        let padded = pad4_u64(w * 2);
        assert(row64 * padded < 0x4_0000_0000) by (nonlinear_arith)
            requires
                row64 < 0x1_0000,
                padded < 0x4_0000,
        ;
        let off = row64 * padded + col64 * 2;
        if off + 1 >= p.len() as u64 {
            None
        } else {
            let val: u16 = (p[off as usize] as u16) | ((p[off as usize + 1] as u16) << 8u16);
            let r = ((val >> 11u16) & 0x1Fu16) as u8;
            let g = ((val >> 5u16) & 0x3Fu16) as u8;
            let b = (val & 0x1Fu16) as u8;
            let c = ((((r << 3u8) | (r >> 2u8)) as u32) << 16u32) | ((((g << 2u8) | (g >> 4u8)) as u32) << 8u32) | (((b
                << 3u8) | (b >> 2u8)) as u32);
            Some((c, 0xFFu8))
        }
    } else if img.format == 2 && img.depth == 8 {
        let padded = pad4_u64(w);
        assert(row64 * padded < 0x4_0000_0000) by (nonlinear_arith)
            requires
                row64 < 0x1_0000,
                padded < 0x4_0000,
        ;
        let off = row64 * padded + col64;
        if off >= p.len() as u64 {
            None
        } else {
            let e = st.palette[p[off as usize] as usize];
            Some((((e.2 as u32) << 16u32) | ((e.1 as u32) << 8u32) | (e.0 as u32), e.3))
        }
    } else if img.format == 2 && img.depth == 4 {
        let padded = pad4_u64((w + 1) / 2);
        assert(row64 * padded < 0x4_0000_0000) by (nonlinear_arith)
            requires
                row64 < 0x1_0000,
                padded < 0x4_0000,
        ;
        let off = row64 * padded + col64 / 2;
        if off >= p.len() as u64 {
            None
        } else {
            let byte = p[off as usize];
            let nib = if col % 2 == 0 { byte & 0x0Fu8 } else { (byte >> 4u8) & 0x0Fu8 };
            let v = nib | (nib << 4u8);
            Some((((v as u32) << 16u32) | ((v as u32) << 8u32) | (v as u32), 0xFFu8))
        }
    } else if img.format == 0 {
        let padded = pad4_u64((img.left_pad as u64 + w + 7) / 8);
        if plane_bit_at(p, 0, padded, row64, img.left_pad as u64 + col64) != 0 {
            Some((st.foreground & st.plane_mask, 0xFFu8))
        } else {
            Some((st.background & st.plane_mask, 0xFFu8))
        }
    } else {
        Some((xy_pixel(img, st.plane_mask, col, row, dst), 0xFFu8))
    }
}


/// Compute what pixel (`x`, `y`), image position (`col`, `row`), becomes.
fn paint_pixel(img: &Image, st: &ImageStyle, x: i32, y: i32, col: u16, row: u16, q: (u8, u8, u8, u8)) -> (r: (
    u8,
    u8,
    u8,
    u8,
))
    requires
        x == img.x + col,
        y == img.y + row,
        col < img.width,
        row < img.height,
        st.palette@.len() == 256,
        img.format != 1 || img.depth <= 32,
    ensures
        r == painted(*img, *st, x as int, y as int, q),
{
    if img.format == 2 && img.depth == 1 {
        if img.x < 0 || img.y < 0 {
            return q;
        }
        let w = img.width as u64;
        let padded = pad4_u64((w + 7) / 8);
        assert(row * padded < 0x1_0000_0000) by (nonlinear_arith)
            requires
                row < 0x1_0000,
                padded < 0x1_0000,
        ;
        let idx = row as u64 * padded + col as u64 / 8;
        let bit: u8 = if idx < img.pixels.len() as u64 {
            (img.pixels[idx as usize] >> ((col % 8) as u8)) & 1u8
        } else {
            0u8
        };
        let v: u8 = if bit != 0 { 0xFF } else { 0 };
        return (v, v, v, 0u8);
    }
    let gc_format = img.format == 2 && (img.depth == 16 || img.depth == 8 || img.depth == 4) || img.format == 0
        || img.format == 1;
    if !gc_format || !should_draw_pixel(x, y, st.clip_rects.as_slice()) {
        return q;
    }
    let dst = ((q.2 as u32) << 16u32) | ((q.1 as u32) << 8u32) | (q.0 as u32);
    match source_of(img, st, col, row, dst) {
        None => q,
        Some((src, a)) => {
            let c = if img.format == 1 && st.function == 3 || img.format == 0 && st.function == 3 && st.plane_mask
                == 0xFFFF_FFFFu32 {
                src
            } else {
                (crate::drawing::apply_rop(st.function, src, dst) & st.plane_mask) | (dst & !st.plane_mask)
            };
            ((c & 0xFFu32) as u8, ((c >> 8u32) & 0xFFu32) as u8, ((c >> 16u32) & 0xFFu32) as u8, a)
        },
    }
}

/// The pixel (`x`, `y`) is an image pixel that row-by-row painting has
/// reached before position (`c`, `r`).
pub open spec fn painted_before(img: Image, r: int, c: int, x: int, y: int) -> bool {
    let col = x - img.x;
    let row = y - img.y;
    &&& 0 <= col < img.width
    &&& 0 <= row < img.height
    &&& (row < r || row == r && col < c)
}

/// Paint an image into a framebuffer `fb_w` by `fb_h` pixels: every pixel
/// becomes what `painted` says of it, the image's scanlines read in order
/// and each covered pixel combined with the GC's raster operation, plane
/// mask and clip rectangles.
pub fn paint_image(fb: &mut Vec<u8>, fb_w: u16, fb_h: u16, img: &Image, st: &ImageStyle)
    requires
        old(fb)@.len() == fb_w * fb_h * 4,
        st.palette@.len() == 256,
        img.format != 1 || img.depth <= 32,
    ensures
        final(fb)@.len() == old(fb)@.len(),
        forall|x: int, y: int|
            on_screen(fb_w as int, fb_h as int, x, y) ==> #[trigger] pixel_at(final(fb)@, fb_w as int, x, y) == painted(
                *img,
                *st,
                x,
                y,
                pixel_at(old(fb)@, fb_w as int, x, y),
            ),
{
    let ghost before = fb@;
    let mut row: u16 = 0;
    while row < img.height
        invariant
            fb@.len() == fb_w * fb_h * 4,
            st.palette@.len() == 256,
            img.format != 1 || img.depth <= 32,
            row <= img.height,
            forall|x: int, y: int|
                on_screen(fb_w as int, fb_h as int, x, y) ==> #[trigger] pixel_at(fb@, fb_w as int, x, y) == if painted_before(
                    *img,
                    row as int,
                    0,
                    x,
                    y,
                ) {
                    painted(*img, *st, x, y, pixel_at(before, fb_w as int, x, y))
                } else {
                    pixel_at(before, fb_w as int, x, y)
                },
        decreases img.height - row,
    {
        let mut col: u16 = 0;
        while col < img.width
            invariant
                fb@.len() == fb_w * fb_h * 4,
                st.palette@.len() == 256,
                img.format != 1 || img.depth <= 32,
                row < img.height,
                col <= img.width,
                forall|x: int, y: int|
                    on_screen(fb_w as int, fb_h as int, x, y) ==> #[trigger] pixel_at(fb@, fb_w as int, x, y) == if painted_before(
                        *img,
                        row as int,
                        col as int,
                        x,
                        y,
                    ) {
                        painted(*img, *st, x, y, pixel_at(before, fb_w as int, x, y))
                    } else {
                        pixel_at(before, fb_w as int, x, y)
                    },
            decreases img.width - col,
        {
            let dx: i32 = img.x as i32 + col as i32;
            let dy: i32 = img.y as i32 + row as i32;
            if 0 <= dx && dx < fb_w as i32 && 0 <= dy && dy < fb_h as i32 {
                let q = read_pixel(fb, fb_w, fb_h, dx as u16, dy as u16);
                let nq = paint_pixel(img, st, dx, dy, col, row, q);
                write_pixel(fb, fb_w, fb_h, dx as u16, dy as u16, nq);
            }
            col = col + 1;
        }
        row = row + 1;
    }
    proof {
        assert forall|x: int, y: int| on_screen(fb_w as int, fb_h as int, x, y) implies #[trigger] pixel_at(
            fb@,
            fb_w as int,
            x,
            y,
        ) == painted(*img, *st, x, y, pixel_at(before, fb_w as int, x, y)) by {
            if !painted_before(*img, row as int, 0, x, y) {
                assert(painted(*img, *st, x, y, pixel_at(before, fb_w as int, x, y)) == pixel_at(before, fb_w as int, x, y));
            }
        }
    }
}

/// The style GC `g` paints images with on a drawable whose colormap is the
/// 256-entry `palette` and maps the GC's foreground and background pixels
/// to `foreground` and `background`.
pub fn image_style_of(g: &GcState, foreground: u32, background: u32, palette: Vec<(u8, u8, u8, u8)>) -> (r: ImageStyle)
    ensures
        r.function == g.function,
        r.plane_mask == g.plane_mask,
        r.clip_rects@ == g.clip_rects@,
        r.foreground == foreground,
        r.background == background,
        r.palette@ == palette@,
{
    ImageStyle {
        function: g.function,
        plane_mask: g.plane_mask,
        clip_rects: copy_rects(&g.clip_rects),
        foreground,
        background,
        palette,
    }
}

/// Carry out a queued PutImage operation on its drawable's framebuffer,
/// `fb_w` by `fb_h` pixels: the image is painted as `paint_image` states,
/// and the result is whether it was. Other operations, and an XYPixmap
/// deeper than 32 planes, leave the framebuffer as it is.
pub fn paint_queued_image(fb: &mut Vec<u8>, fb_w: u16, fb_h: u16, op: &DrawOp, st: &ImageStyle) -> (r: bool)
    requires
        old(fb)@.len() == fb_w * fb_h * 4,
        st.palette@.len() == 256,
    ensures
        final(fb)@.len() == old(fb)@.len(),
        match op.shape {
            Shape::Image { image } => {
                &&& r == (image.format != 1 || image.depth <= 32)
                &&& r ==> forall|x: int, y: int|
                    on_screen(fb_w as int, fb_h as int, x, y) ==> #[trigger] pixel_at(final(fb)@, fb_w as int, x, y)
                        == painted(image, *st, x, y, pixel_at(old(fb)@, fb_w as int, x, y))
                &&& !r ==> final(fb)@ == old(fb)@
            },
            _ => !r && final(fb)@ == old(fb)@,
        },
{
    match &op.shape {
        Shape::Image { image } => {
            if image.format != 1 || image.depth <= 32 {
                paint_image(fb, fb_w, fb_h, image, st);
                true
            } else {
                false
            }
        },
        _ => false,
    }
}


/// What a GetImage request asks for, once checked.
#[derive(Clone, Copy)]
pub struct ImageQuery {
    pub drawable: u32,
    /// XYPixmap (1) or ZPixmap (2).
    pub format: u8,
    pub x: i16,
    pub y: i16,
    pub width: u16,
    pub height: u16,
    pub plane_mask: u32,
    /// The drawable's depth: a pixmap's own, 24 for a window.
    pub depth: u8,
    /// The visual of the reply: 0 for a pixmap, the root visual for a
    /// window.
    pub visual: u32,
    /// A window's image includes what its children show.
    pub is_window: bool,
}

/// The root window's visual.
pub const ROOT_VISUAL: u32 = 0x21;

/// What GetImage (opcode 73) comes to: the error it is answered with, or
/// the query to read pixels for.
pub open spec fn get_image_outcome(s: ClientState, d: Seq<u8>, seq: u16) -> Result<ImageQuery, Seq<u8>> {
    let msb = s.msb_first;
    let drawable = field32(d, 4, msb);
    if d.len() < 20 {
        Err(error_packet(BAD_LENGTH, seq, 0, 73, 0, false))
    } else if !s.windows@.contains_key(drawable) && !s.pixmaps@.contains_key(drawable) {
        Err(error_packet(BAD_DRAWABLE, seq, drawable, 73, 0, false))
    } else if d[1] != 1 && d[1] != 2 {
        Err(error_packet(BAD_VALUE, seq, d[1] as u32, 73, 0, false))
    } else {
        Ok(ImageQuery {
            drawable,
            format: d[1],
            x: field16(d, 8, msb) as i16,
            y: field16(d, 10, msb) as i16,
            width: field16(d, 12, msb),
            height: field16(d, 14, msb),
            plane_mask: field32(d, 16, msb),
            depth: if s.pixmaps@.contains_key(drawable) { s.pixmaps@[drawable].depth } else { 24 },
            visual: if s.pixmaps@.contains_key(drawable) { 0 } else { ROOT_VISUAL },
            is_window: s.windows@.contains_key(drawable),
        })
    }
}

/// GetImage (opcode 73): check the request and say what to read; the
/// pixels are read from the framebuffer and encoded by `get_image_reply`.
pub fn handle_get_image(state: &ClientState, data: &[u8], seq: u16) -> (r: Result<ImageQuery, Vec<u8>>)
    ensures
        match get_image_outcome(*state, data@, seq) {
            Ok(q) => r == Ok::<ImageQuery, Vec<u8>>(q),
            Err(e) => r matches Err(v) && v@ == e,
        },
{
    if data.len() < 20 {
        return Err(build_error(BAD_LENGTH, seq, 0, 73, 0));
    }
    let msb = state.msb_first;
    let format = data[1];
    let drawable = read_u32(data, 4, msb);
    let is_window = state.windows.contains_key(&drawable);
    let (depth, visual) = match state.pixmaps.get(&drawable) {
        Some(p) => (p.depth, 0u32),
        None => {
            if !is_window {
                return Err(build_error(BAD_DRAWABLE, seq, drawable, 73, 0));
            }
            (24u8, ROOT_VISUAL)
        },
    };
    if format != 1 && format != 2 {
        return Err(build_error(BAD_VALUE, seq, format as u32, 73, 0));
    }
    Ok(ImageQuery {
        drawable,
        format,
        x: read_i16(data, 8, msb),
        y: read_i16(data, 10, msb),
        width: read_u16(data, 12, msb),
        height: read_u16(data, 14, msb),
        plane_mask: read_u32(data, 16, msb),
        depth,
        visual,
        is_window,
    })
}

/// Bytes per ZPixmap pixel at a depth.
pub open spec fn bytes_per_pixel(depth: u8) -> int {
    if depth <= 8 { 1 } else if depth <= 16 { 2 } else { 4 }
}

/// The 32-bit little-endian word at `off`.
pub open spec fn word_at(p: Seq<u8>, off: int) -> u32 {
    u32_of(p.subrange(off, off + 4), false)
}

/// A framebuffer pixel (blue, green, red) as RGB565.
pub open spec fn to_rgb565(b: u8, g: u8, r: u8) -> u16 {
    (((r as u16) >> 3u16) << 11u16) | (((g as u16) >> 2u16) << 5u16) | ((b as u16) >> 3u16)
}

/// The ZPixmap bytes of pixel (`col`, `row`) of `w`-wide BGRA pixels:
/// the masked word at depth over 16, RGB565 at depth 9 to 16, the stored
/// palette index (alpha byte) at depth 8 or less; zeros where the pixels
/// end.
pub open spec fn z_pixel(p: Seq<u8>, w: int, depth: u8, pm: u32, col: int, row: int) -> Seq<u8> {
    let off = (row * w + col) * 4;
    let bpp = bytes_per_pixel(depth);
    if off + 4 > p.len() {
        zeros(bpp as nat)
    } else if bpp == 4 {
        le32(word_at(p, off) & pm)
    } else if bpp == 2 {
        le16(to_rgb565(p[off], p[off + 1], p[off + 2]) & (pm as u16))
    } else {
        seq![p[off + 3] & (pm as u8)]
    }
}

/// The first `c` pixels of ZPixmap row `row`.
pub open spec fn z_row(p: Seq<u8>, w: int, depth: u8, pm: u32, row: int, c: nat) -> Seq<u8>
    decreases c,
{
    if c == 0 {
        Seq::empty()
    } else {
        z_row(p, w, depth, pm, row, (c - 1) as nat) + z_pixel(p, w, depth, pm, c - 1, row)
    }
}

/// The first `r` rows of a ZPixmap, each padded to 32 bits.
pub open spec fn z_rows(p: Seq<u8>, w: int, depth: u8, pm: u32, r: nat) -> Seq<u8>
    decreases r,
{
    if r == 0 {
        Seq::empty()
    } else {
        let row_bytes = w * bytes_per_pixel(depth);
        z_rows(p, w, depth, pm, (r - 1) as nat) + z_row(p, w, depth, pm, r - 1, w as nat) + zeros(
            (pad4(row_bytes) - row_bytes) as nat,
        )
    }
}

/// Pixel (`col`, `row`) has bit `plane` set.
pub open spec fn has_plane_bit(p: Seq<u8>, w: int, plane: u32, col: int, row: int) -> bool {
    let off = (row * w + col) * 4;
    off + 4 <= p.len() && (word_at(p, off) >> plane) & 1u32 != 0
}

/// Byte `j` of row `row` of plane `plane` built from its first `k` pixels,
/// most significant bit first.
pub open spec fn plane_byte(p: Seq<u8>, w: int, plane: u32, row: int, j: int, k: nat) -> u8
    decreases k,
{
    if k == 0 {
        0u8
    } else {
        let b = plane_byte(p, w, plane, row, j, (k - 1) as nat);
        let col = 8 * j + k - 1;
        if col < w && has_plane_bit(p, w, plane, col, row) {
            b | (1u8 << ((8 - k) as u8))
        } else {
            b
        }
    }
}

/// Row `row` of bitmap plane `plane`, padded to 32 bits.
pub open spec fn plane_row(p: Seq<u8>, w: int, plane: u32, row: int) -> Seq<u8> {
    Seq::new(((w + 7) / 8) as nat, |j: int| plane_byte(p, w, plane, row, j, 8)) + zeros(
        (pad4((w + 7) / 8) - (w + 7) / 8) as nat,
    )
}

/// The first `r` rows of bitmap plane `plane`.
pub open spec fn plane_rows(p: Seq<u8>, w: int, plane: u32, r: nat) -> Seq<u8>
    decreases r,
{
    if r == 0 {
        Seq::empty()
    } else {
        plane_rows(p, w, plane, (r - 1) as nat) + plane_row(p, w, plane, r - 1)
    }
}

/// The XYPixmap planes below `n` that the plane mask selects, most
/// significant first, each a bitmap of `h` rows.
pub open spec fn xy_planes(p: Seq<u8>, w: int, h: nat, pm: u32, n: nat) -> Seq<u8>
    decreases n,
{
    if n == 0 {
        Seq::empty()
    } else {
        let plane = (n - 1) as u32;
        (if pm & (1u32 << plane) != 0 { plane_rows(p, w, plane, h) } else { Seq::empty() }) + xy_planes(
            p,
            w,
            h,
            pm,
            (n - 1) as nat,
        )
    }
}

/// The image data of a GetImage reply for `w` by `h` BGRA pixels.
pub open spec fn image_data(q: ImageQuery, p: Seq<u8>) -> Seq<u8> {
    if q.format == 2 {
        z_rows(p, q.width as int, q.depth, q.plane_mask, q.height as nat)
    } else {
        xy_planes(p, q.width as int, q.height as nat, q.plane_mask, q.depth as nat)
    }
}


/// Encode `w` by `h` BGRA pixels as ZPixmap rows.
fn encode_zpixmap(q: &ImageQuery, p: &[u8]) -> (out: Vec<u8>)
    ensures
        out@ == z_rows(p@, q.width as int, q.depth, q.plane_mask, q.height as nat),
        out@.len() == q.height * pad4(q.width * bytes_per_pixel(q.depth)),
{
    let w = q.width as u64;
    let bpp: u64 = if q.depth <= 8 { 1 } else if q.depth <= 16 { 2 } else { 4 };
    let row_bytes = w * bpp;
    let padded = pad4_u64(row_bytes);
    let pm = q.plane_mask;
    let mut out: Vec<u8> = Vec::new();
    let mut row: u16 = 0;
    while row < q.height
        invariant
            w == q.width,
            bpp == bytes_per_pixel(q.depth),
            row_bytes == w * bpp,
            padded == pad4(row_bytes as int),
            row_bytes <= padded <= row_bytes + 3,
            pm == q.plane_mask,
            row <= q.height,
            out@ == z_rows(p@, w as int, q.depth, pm, row as nat),
            out@.len() == row * padded,
        decreases q.height - row,
    {
        let ghost start = out@;
        let mut col: u16 = 0;
        while col < q.width
            invariant
                w == q.width,
                bpp == bytes_per_pixel(q.depth),
                pm == q.plane_mask,
                row < q.height,
                col <= q.width,
                out@ == start + z_row(p@, w as int, q.depth, pm, row as int, col as nat),
                out@.len() == start.len() + col * bpp,
            decreases q.width - col,
        {
            assert((row as u64 * w + col as u64) * 4 < 0x10_0000_0000) by (nonlinear_arith)
                requires
                    row < 0x1_0000,
                    col < 0x1_0000,
                    w < 0x1_0000,
            ;
            let off = (row as u64 * w + col as u64) * 4;
            let ghost before = out@;
            if off + 4 > p.len() as u64 {
                push_zeros(&mut out, bpp as usize);
            } else if bpp == 4 {
                let v = read_u32(p, off as usize, false);
                push_u32(&mut out, v & pm, false);
            } else if bpp == 2 {
                let o = off as usize;
                let val: u16 = (((p[o + 2] as u16) >> 3u16) << 11u16) | (((p[o + 1] as u16) >> 2u16) << 5u16) | ((p[o] as u16)
                    >> 3u16);
                push_u16(&mut out, val & (pm as u16), false);
            } else {
                out.push(p[off as usize + 3] & (pm as u8));
            }
            proof {
                assert(out@ =~= before + z_pixel(p@, w as int, q.depth, pm, col as int, row as int));
                assert(out@ =~= start + z_row(p@, w as int, q.depth, pm, row as int, (col + 1) as nat));
            }
            col = col + 1;
        }
        push_zeros(&mut out, (padded - row_bytes) as usize);
        assert(out@ =~= z_rows(p@, w as int, q.depth, pm, (row + 1) as nat));
        assert((row + 1) * padded == row * padded + padded) by (nonlinear_arith);
        row = row + 1;
    }
    out
}

/// Pixel (`col`, `row`) has bit `plane` set.
fn plane_bit_set(p: &[u8], w: u16, plane: u32, col: u64, row: u16) -> (r: bool)
    requires
        plane < 32,
        col < 0x1_0000,
    ensures
        r == has_plane_bit(p@, w as int, plane, col as int, row as int),
{
    assert((row as u64 * w as u64 + col) * 4 < 0x10_0000_0000) by (nonlinear_arith)
        requires
            row < 0x1_0000,
            col < 0x1_0000,
            w < 0x1_0000,
    ;
    let off = (row as u64 * w as u64 + col) * 4;
    if off + 4 <= p.len() as u64 {
        let v = read_u32(p, off as usize, false);
        (v >> plane) & 1u32 != 0
    } else {
        false
    }
}

/// Byte `j` of row `row` of bitmap plane `plane`.
fn plane_byte_of(p: &[u8], w: u16, plane: u32, row: u16, j: u64) -> (b: u8)
    requires
        plane < 32,
        j < 0x2000,
    ensures
        b == plane_byte(p@, w as int, plane, row as int, j as int, 8),
{
    let mut b: u8 = 0;
    let mut k: u32 = 0;
    while k < 8
        invariant
            k <= 8,
            plane < 32,
            j < 0x2000,
            b == plane_byte(p@, w as int, plane, row as int, j as int, k as nat),
        decreases 8 - k,
    {
        let col = 8 * j + k as u64;
        if col < w as u64 && plane_bit_set(p, w, plane, col, row) {
            b = b | (1u8 << ((7 - k) as u8));
        }
        k = k + 1;
    }
    b
}

/// Encode one bitmap plane of `w` by `h` pixels.
fn encode_plane(out: &mut Vec<u8>, p: &[u8], w: u16, h: u16, plane: u32)
    requires
        plane < 32,
    ensures
        final(out)@ == old(out)@ + plane_rows(p@, w as int, plane, h as nat),
        final(out)@.len() == old(out)@.len() + h * pad4((w + 7) / 8),
{
    let scan = (w as u64 + 7) / 8;
    let padded = pad4_u64(scan);
    let mut row: u16 = 0;
    while row < h
        invariant
            plane < 32,
            scan == (w + 7) / 8,
            scan <= 0x2000,
            padded == pad4(scan as int),
            scan <= padded <= scan + 3,
            row <= h,
            out@ == old(out)@ + plane_rows(p@, w as int, plane, row as nat),
            out@.len() == old(out)@.len() + row * padded,
        decreases h - row,
    {
        let ghost start = out@;
        let ghost bytes = Seq::new(scan as nat, |j: int| plane_byte(p@, w as int, plane, row as int, j, 8));
        let mut j: u64 = 0;
        while j < scan
            invariant
                plane < 32,
                scan <= 0x2000,
                j <= scan,
                bytes == Seq::new(scan as nat, |j: int| plane_byte(p@, w as int, plane, row as int, j, 8)),
                out@ == start + bytes.subrange(0, j as int),
            decreases scan - j,
        {
            let b = plane_byte_of(p, w, plane, row, j);
            out.push(b);
            assert(out@ =~= start + bytes.subrange(0, j + 1));
            j = j + 1;
        }
        push_zeros(out, (padded - scan) as usize);
        proof {
            assert(bytes.subrange(0, scan as int) =~= bytes);
            assert(out@ =~= old(out)@ + plane_rows(p@, w as int, plane, (row + 1) as nat));
            assert((row + 1) * padded == row * padded + padded) by (nonlinear_arith);
        }
        row = row + 1;
    }
}

/// Encode `w` by `h` BGRA pixels as XYPixmap planes.
fn encode_xypixmap(q: &ImageQuery, p: &[u8]) -> (out: Vec<u8>)
    requires
        q.depth <= 32,
    ensures
        out@ == xy_planes(p@, q.width as int, q.height as nat, q.plane_mask, q.depth as nat),
        out@.len() <= 32 * (q.height * pad4((q.width + 7) / 8)),
{
    let ghost plane_len = q.height * pad4((q.width + 7) / 8);
    let mut out: Vec<u8> = Vec::new();
    let mut n: u32 = q.depth as u32;
    while n > 0
        invariant
            n <= q.depth <= 32,
            out@ + xy_planes(p@, q.width as int, q.height as nat, q.plane_mask, n as nat) == xy_planes(
                p@,
                q.width as int,
                q.height as nat,
                q.plane_mask,
                q.depth as nat,
            ),
            plane_len == q.height * pad4((q.width + 7) / 8),
            plane_len >= 0,
            out@.len() <= (q.depth - n) * plane_len,
        decreases n,
    {
        let plane = n - 1;
        let ghost before = out@;
        if q.plane_mask & (1u32 << plane) != 0 {
            encode_plane(&mut out, p, q.width, q.height, plane);
        }
        proof {
            let rest = xy_planes(p@, q.width as int, q.height as nat, q.plane_mask, plane as nat);
            let this = if q.plane_mask & (1u32 << plane) != 0 {
                plane_rows(p@, q.width as int, plane, q.height as nat)
            } else {
                Seq::empty()
            };
            assert(out@ =~= before + this);
            assert(before + (this + rest) =~= (before + this) + rest);
            assert((q.depth - n) * plane_len + plane_len == (q.depth - plane) * plane_len) by (nonlinear_arith)
                requires
                    plane == n - 1,
            ;
        }
        n = plane;
    }
    assert(out@ + Seq::<u8>::empty() =~= out@);
    assert(q.depth * plane_len <= 32 * plane_len) by (nonlinear_arith)
        requires
            q.depth <= 32,
            plane_len >= 0,
    ;
    out
}

/// The GetImage reply for pixels read from the drawable (`width` by
/// `height` BGRA pixels, row by row): the depth, the visual and the image
/// data in the query's format.
pub fn get_image_reply(q: &ImageQuery, pixels: &[u8], seq: u16, msb: bool) -> (r: Vec<u8>)
    requires
        q.format != 2 ==> q.depth <= 32,
    ensures
        r@ == reply_packet(q.depth, seq, bytes32(q.visual, msb) + zeros(20) + image_data(*q, pixels@), msb),
{
    let data = if q.format == 2 { encode_zpixmap(q, pixels) } else { encode_xypixmap(q, pixels) };
    proof {
        let bpp = bytes_per_pixel(q.depth);
        assert(q.height * pad4(q.width * bpp) <= 65535 * 262140) by (nonlinear_arith)
            requires
                q.height <= 65535,
                q.width <= 65535,
                1 <= bpp <= 4,
                pad4(q.width * bpp) <= q.width * bpp + 3,
                pad4(q.width * bpp) >= 0,
        ;
        assert(32 * (q.height * pad4((q.width + 7) / 8)) <= 32 * (65535 * 8192)) by (nonlinear_arith)
            requires
                q.height <= 65535,
                0 <= pad4((q.width + 7) / 8) <= 8192,
        ;
    }
    let mut body: Vec<u8> = Vec::new();
    push_u32(&mut body, q.visual, msb);
    push_zeros(&mut body, 20);
    let mut i: usize = 0;
    while i < data.len()
        invariant
            i <= data@.len(),
            body@ == bytes32(q.visual, msb) + zeros(20) + data@.subrange(0, i as int),
        decreases data@.len() - i,
    {
        body.push(data[i]);
        assert(body@ =~= bytes32(q.visual, msb) + zeros(20) + data@.subrange(0, i + 1));
        i = i + 1;
    }
    assert(data@.subrange(0, data@.len() as int) =~= data@);
    build_reply(q.depth, seq, body.as_slice(), msb)
}

} // verus!
