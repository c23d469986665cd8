//! Text requests (PolyText8 74, PolyText16 75, ImageText8 76,
//! ImageText16 77): checking the request and decoding its text items. The
//! glyphs come from the GC's font when the text is painted, and so do the
//! pen advance and the damaged area.

use crate::drawing::primitives::{
    check_draw_request, draw_error, ops_view, queue_op, text16_view, text8_view, DrawOp, DrawOpView, Paint, Shape,
    ShapeView,
};
use crate::state::{ClientState, BAD_LENGTH};
use crate::wire::{build_error, error_packet, field16, field32, read_i16, read_u32};
use vstd::prelude::*;

verus! {

/// The error a text request (major opcode `major`) is answered with, if
/// any: shorter than 16 bytes, unknown drawable, unknown GC.
pub open spec fn text_error(s: ClientState, d: Seq<u8>, major: u8) -> Option<Seq<u8>> {
    if d.len() < 16 {
        Some(error_packet(BAD_LENGTH, s.sequence, 0, major, 0, false))
    } else {
        draw_error(s, d, major)
    }
}

/// The PolyText8 items from byte `off` on: a length byte, a delta byte and
/// that many characters; length 255 is a font change (5 bytes, skipped);
/// length 0 or an item running past the end stops the list.
pub open spec fn text8_items(d: Seq<u8>, off: int) -> Seq<(i8, Seq<u8>)>
    decreases d.len() + 5 - off,
{
    if off >= d.len() || off < 0 {
        Seq::empty()
    } else {
        let n = d[off] as int;
        if n == 255 {
            text8_items(d, off + 5)
        } else if n == 0 || off + 2 + n > d.len() {
            Seq::empty()
        } else {
            seq![(d[off + 1] as i8, d.subrange(off + 2, off + 2 + n))] + text8_items(d, off + 2 + n)
        }
    }
}

/// The big-endian 16-bit character codes of `n` characters from byte `at`.
pub open spec fn char_codes(d: Seq<u8>, at: int, n: int) -> Seq<u16> {
    Seq::new(n as nat, |i: int| (d[at + 2 * i] * 256 + d[at + 2 * i + 1]) as u16)
}

/// The PolyText16 items from byte `off` on, as for PolyText8 with two
/// bytes per character.
pub open spec fn text16_items(d: Seq<u8>, off: int) -> Seq<(i8, Seq<u16>)>
    decreases d.len() + 5 - off,
{
    if off >= d.len() || off < 0 {
        Seq::empty()
    } else {
        let n = d[off] as int;
        if n == 255 {
            text16_items(d, off + 5)
        } else if n == 0 || off + 2 + 2 * n > d.len() {
            Seq::empty()
        } else {
            seq![(d[off + 1] as i8, char_codes(d, off + 2, n))] + text16_items(d, off + 2 + 2 * n)
        }
    }
}

/// Copy `n` bytes from `at`.
fn copy_bytes(data: &[u8], at: usize, n: usize) -> (r: Vec<u8>)
    requires
        at + n <= data@.len(),
    ensures
        r@ == data@.subrange(at as int, at + n),
{
    let mut out: Vec<u8> = Vec::new();
    let mut i: usize = 0;
    while i < n
        invariant
            at + n <= data@.len(),
            at + n <= data.len(),
            i <= n,
            out@ == data@.subrange(at as int, at + i),
        decreases n - i,
    {
        out.push(data[at + i]);
        assert(out@ =~= data@.subrange(at as int, at + i + 1));
        i = i + 1;
    }
    out
}

/// Read `n` big-endian character codes from `at`.
fn read_codes(data: &[u8], at: usize, n: usize) -> (r: Vec<u16>)
    requires
        at + 2 * n <= data@.len(),
    ensures
        r@ == char_codes(data@, at as int, n as int),
{
    let mut out: Vec<u16> = Vec::new();
    let mut i: usize = 0;
    while i < n
        invariant
            at + 2 * n <= data@.len(),
            at + 2 * n <= data.len(),
            i <= n,
            out@ == char_codes(data@, at as int, i as int),
        decreases n - i,
    {
        let hi = data[at + 2 * i] as u16;
        let lo = data[at + 2 * i + 1] as u16;
        out.push(hi * 256 + lo);
        assert(out@ =~= char_codes(data@, at as int, i + 1));
        i = i + 1;
    }
    out
}

/// Decode the PolyText8 items of a request.
fn decode_text8(data: &[u8]) -> (r: Vec<(i8, Vec<u8>)>)
    requires
        data@.len() >= 16,
    ensures
        text8_view(r@) == text8_items(data@, 16),
{
    let mut items: Vec<(i8, Vec<u8>)> = Vec::new();
    let mut off: usize = 16;
    while off < data.len()
        invariant
            16 <= off,
            text8_view(items@) + text8_items(data@, off as int) == text8_items(data@, 16),
        decreases data@.len() - off,
    {
        let n = data[off] as usize;
        if n == 255 {
            if data.len() - off < 5 {
                assert(text8_items(data@, off + 5) == Seq::<(i8, Seq<u8>)>::empty());
                assert(text8_view(items@) + Seq::<(i8, Seq<u8>)>::empty() =~= text8_view(items@));
                return items;
            }
            off = off + 5;
        } else if n == 0 || data.len() - off < 2 + n {
            assert(text8_view(items@) + Seq::<(i8, Seq<u8>)>::empty() =~= text8_view(items@));
            return items;
        } else {
            let delta = data[off + 1] as i8;
            let text = copy_bytes(data, off + 2, n);
            let ghost before = text8_view(items@);
            items.push((delta, text));
            assert(text8_view(items@) =~= before.push((delta, data@.subrange(off + 2, off + 2 + n))));
            assert(before + text8_items(data@, off as int) =~= text8_view(items@) + text8_items(data@, off + 2 + n));
            off = off + 2 + n;
        }
    }
    assert(text8_view(items@) + Seq::<(i8, Seq<u8>)>::empty() =~= text8_view(items@));
    items
}

/// Decode the PolyText16 items of a request.
fn decode_text16(data: &[u8]) -> (r: Vec<(i8, Vec<u16>)>)
    requires
        data@.len() >= 16,
    ensures
        text16_view(r@) == text16_items(data@, 16),
{
    let mut items: Vec<(i8, Vec<u16>)> = Vec::new();
    let mut off: usize = 16;
    while off < data.len()
        invariant
            16 <= off,
            text16_view(items@) + text16_items(data@, off as int) == text16_items(data@, 16),
        decreases data@.len() - off,
    {
        let n = data[off] as usize;
        if n == 255 {
            if data.len() - off < 5 {
                assert(text16_items(data@, off + 5) == Seq::<(i8, Seq<u16>)>::empty());
                assert(text16_view(items@) + Seq::<(i8, Seq<u16>)>::empty() =~= text16_view(items@));
                return items;
            }
            off = off + 5;
        } else if n == 0 || data.len() - off < 2 + 2 * n {
            assert(text16_view(items@) + Seq::<(i8, Seq<u16>)>::empty() =~= text16_view(items@));
            return items;
        } else {
            let delta = data[off + 1] as i8;
            let chars = read_codes(data, off + 2, n);
            let ghost before = text16_view(items@);
            items.push((delta, chars));
            assert(text16_view(items@) =~= before.push((delta, char_codes(data@, off + 2, n as int))));
            assert(before + text16_items(data@, off as int) =~= text16_view(items@) + text16_items(data@, off + 2 + 2 * n));
            off = off + 2 + 2 * n;
        }
    }
    assert(text16_view(items@) + Seq::<(i8, Seq<u16>)>::empty() =~= text16_view(items@));
    items
}

/// What PolyText8 answers `req` with, and the client state it leaves.
pub open spec fn poly_text8_done(pre: ClientState, post: ClientState, req: Seq<u8>, seq: u16, out: Seq<u8>) -> bool {
    &&& (match text_error(pre, req, 74) {
            Some(e) => out == e && post == pre,
            None => {
                let s = pre;
                let msb = s.msb_first;
                &&& out == Seq::<u8>::empty()
                &&& ops_view(post.draw_ops@) == ops_view(s.draw_ops@).push(DrawOpView {
                    drawable: field32(req, 4, msb),
                    gc: field32(req, 8, msb),
                    paint: Paint::Solid,
                    shape: ShapeView::Text8 { x: field16(req, 12, msb) as i16, y: field16(req, 14, msb) as i16,
                        items: text8_items(req, 16) },
                })
                &&& post == (ClientState { draw_ops: post.draw_ops, ..s })
            },
        })
}

/// PolyText8 (opcode 74): queue the text items from the request's
/// starting point.
pub fn handle_poly_text8(state: &mut ClientState, data: &[u8]) -> (r: Vec<u8>)
    ensures
        poly_text8_done(*old(state), *final(state), data@, old(state).sequence, r@),
{
    if data.len() < 16 {
        return build_error(BAD_LENGTH, state.sequence, 0, 74, 0);
    }
    match check_draw_request(state, data, 74) {
        Some(e) => {
            return e;
        },
        None => {},
    }
    let msb = state.msb_first;
    let drawable = read_u32(data, 4, msb);
    let gc = read_u32(data, 8, msb);
    let x = read_i16(data, 12, msb);
    let y = read_i16(data, 14, msb);
    let items = decode_text8(data);
    queue_op(state, DrawOp { drawable, gc, paint: Paint::Solid, shape: Shape::Text8 { x, y, items } });
    Vec::new()
}

/// What PolyText16 answers `req` with, and the client state it leaves.
pub open spec fn poly_text16_done(pre: ClientState, post: ClientState, req: Seq<u8>, seq: u16, out: Seq<u8>) -> bool {
    &&& (match text_error(pre, req, 75) {
            Some(e) => out == e && post == pre,
            None => {
                let s = pre;
                let msb = s.msb_first;
                &&& out == Seq::<u8>::empty()
                &&& ops_view(post.draw_ops@) == ops_view(s.draw_ops@).push(DrawOpView {
                    drawable: field32(req, 4, msb),
                    gc: field32(req, 8, msb),
                    paint: Paint::Solid,
                    shape: ShapeView::Text16 { x: field16(req, 12, msb) as i16, y: field16(req, 14, msb) as i16,
                        items: text16_items(req, 16) },
                })
                &&& post == (ClientState { draw_ops: post.draw_ops, ..s })
            },
        })
}

/// PolyText16 (opcode 75): queue the 16-bit text items.
pub fn handle_poly_text16(state: &mut ClientState, data: &[u8]) -> (r: Vec<u8>)
    ensures
        poly_text16_done(*old(state), *final(state), data@, old(state).sequence, r@),
{
    if data.len() < 16 {
        return build_error(BAD_LENGTH, state.sequence, 0, 75, 0);
    }
    match check_draw_request(state, data, 75) {
        Some(e) => {
            return e;
        },
        None => {},
    }
    let msb = state.msb_first;
    let drawable = read_u32(data, 4, msb);
    let gc = read_u32(data, 8, msb);
    let x = read_i16(data, 12, msb);
    let y = read_i16(data, 14, msb);
    let items = decode_text16(data);
    queue_op(state, DrawOp { drawable, gc, paint: Paint::Solid, shape: Shape::Text16 { x, y, items } });
    Vec::new()
}


/// The operation an ImageText request queues.
pub open spec fn image_text_op(s: ClientState, d: Seq<u8>, shape: ShapeView) -> DrawOpView {
    DrawOpView { drawable: field32(d, 4, s.msb_first), gc: field32(d, 8, s.msb_first), paint: Paint::Solid, shape }
}

/// What ImageText8 answers `req` with, and the client state it leaves.
pub open spec fn image_text8_done(pre: ClientState, post: ClientState, req: Seq<u8>, seq: u16, out: Seq<u8>) -> bool {
    &&& (match text_error(pre, req, 76) {
            Some(e) => out == e && post == pre,
            None => {
                let s = pre;
                let msb = s.msb_first;
                let n = req[1] as int;
                &&& out == Seq::<u8>::empty()
                &&& 16 + n <= req.len() ==> {
                    &&& ops_view(post.draw_ops@) == ops_view(s.draw_ops@).push(image_text_op(s, req,
                        ShapeView::ImageText8 { x: field16(req, 12, msb) as i16, y: field16(req, 14, msb) as i16,
                        text: req.subrange(16, 16 + n) }))
                    &&& post == (ClientState { draw_ops: post.draw_ops, ..s })
                }
                &&& 16 + n > req.len() ==> post == s
            },
        })
}

/// ImageText8 (opcode 76): queue the string (length in byte 1) drawn over
/// its background box; a string running past the request draws nothing.
pub fn handle_image_text8(state: &mut ClientState, data: &[u8]) -> (r: Vec<u8>)
    ensures
        image_text8_done(*old(state), *final(state), data@, old(state).sequence, r@),
{
    if data.len() < 16 {
        return build_error(BAD_LENGTH, state.sequence, 0, 76, 0);
    }
    match check_draw_request(state, data, 76) {
        Some(e) => {
            return e;
        },
        None => {},
    }
    let n = data[1] as usize;
    if 16 + n > data.len() {
        return Vec::new();
    }
    let msb = state.msb_first;
    let drawable = read_u32(data, 4, msb);
    let gc = read_u32(data, 8, msb);
    let x = read_i16(data, 12, msb);
    let y = read_i16(data, 14, msb);
    let text = copy_bytes(data, 16, n);
    queue_op(state, DrawOp { drawable, gc, paint: Paint::Solid, shape: Shape::ImageText8 { x, y, text } });
    Vec::new()
}

/// The high byte of 16-bit character `i` of an ImageText16 string.
pub open spec fn high_byte(d: Seq<u8>, i: int) -> u8 {
    d[16 + 2 * i]
}

/// Every character's high byte is zero.
pub open spec fn all_latin1(d: Seq<u8>, n: int) -> bool {
    forall|i: int| 0 <= i < n ==> #[trigger] high_byte(d, i) == 0
}

/// The low bytes of `n` 16-bit characters from byte 16.
pub open spec fn low_bytes(d: Seq<u8>, n: int) -> Seq<u8> {
    Seq::new(n as nat, |i: int| d[17 + 2 * i])
}

/// What ImageText16 answers `req` with, and the client state it leaves.
pub open spec fn image_text16_done(pre: ClientState, post: ClientState, req: Seq<u8>, seq: u16, out: Seq<u8>) -> bool {
    &&& (match text_error(pre, req, 77) {
            Some(e) => out == e && post == pre,
            None => {
                let s = pre;
                let msb = s.msb_first;
                let n = req[1] as int;
                let x = field16(req, 12, msb) as i16;
                let y = field16(req, 14, msb) as i16;
                &&& out == Seq::<u8>::empty()
                &&& 16 + 2 * n <= req.len() ==> {
                    &&& ops_view(post.draw_ops@) == ops_view(s.draw_ops@).push(image_text_op(s, req,
                        if all_latin1(req, n) {
                            ShapeView::ImageText8 { x, y, text: low_bytes(req, n) }
                        } else {
                            ShapeView::ImageText16 { x, y, chars: char_codes(req, 16, n) }
                        }))
                    &&& post == (ClientState { draw_ops: post.draw_ops, ..s })
                }
                &&& 16 + 2 * n > req.len() ==> post == s
            },
        })
}

/// ImageText16 (opcode 77): a string of characters that all lie in the
/// first 256 is drawn as ImageText8 of their low bytes; otherwise the
/// 16-bit codes are queued.
pub fn handle_image_text16(state: &mut ClientState, data: &[u8]) -> (r: Vec<u8>)
    ensures
        image_text16_done(*old(state), *final(state), data@, old(state).sequence, r@),
{
    if data.len() < 16 {
        return build_error(BAD_LENGTH, state.sequence, 0, 77, 0);
    }
    match check_draw_request(state, data, 77) {
        Some(e) => {
            return e;
        },
        None => {},
    }
    let n = data[1] as usize;
    if 16 + 2 * n > data.len() {
        return Vec::new();
    }
    let msb = state.msb_first;
    let drawable = read_u32(data, 4, msb);
    let gc = read_u32(data, 8, msb);
    let x = read_i16(data, 12, msb);
    let y = read_i16(data, 14, msb);
    let mut latin1 = true;
    let mut i: usize = 0;
    while i < n
        invariant
            16 + 2 * n <= data@.len(),
            16 + 2 * n <= data.len(),
            i <= n,
            latin1 == forall|k: int| 0 <= k < i ==> #[trigger] high_byte(data@, k) == 0,
        decreases n - i,
    {
        if data[16 + 2 * i] != 0 {
            latin1 = false;
        }
        assert(high_byte(data@, i as int) == data@[16 + 2 * i]);
        i = i + 1;
    }
    if latin1 {
        let mut text: Vec<u8> = Vec::new();
        let mut k: usize = 0;
        while k < n
            invariant
                16 + 2 * n <= data@.len(),
                16 + 2 * n <= data.len(),
                k <= n,
                text@ == low_bytes(data@, k as int),
            decreases n - k,
        {
            text.push(data[17 + 2 * k]);
            assert(text@ =~= low_bytes(data@, k + 1));
            k = k + 1;
        }
        queue_op(state, DrawOp { drawable, gc, paint: Paint::Solid, shape: Shape::ImageText8 { x, y, text } });
    } else {
        let chars = read_codes(data, 16, n);
        queue_op(state, DrawOp { drawable, gc, paint: Paint::Solid, shape: Shape::ImageText16 { x, y, chars } });
    }
    Vec::new()
}


/// ImageText16 whose characters all have a zero high byte draws exactly as
/// ImageText8 of their low bytes (the same header, the same length byte):
/// the same reply and the same state.
pub proof fn image_text16_latin1_is_image_text8(s: ClientState, t: ClientState, data: Seq<u8>, d8: Seq<u8>, seq: u16, out: Seq<u8>)
    requires
        text_error(s, data, 77) is None,
        16 + 2 * (data[1] as int) <= data.len(),
        all_latin1(data, data[1] as int),
        d8 == data.subrange(0, 16) + low_bytes(data, data[1] as int),
    ensures
        text_error(s, d8, 76) is None,
        image_text16_done(s, t, data, seq, out) <==> image_text8_done(s, t, d8, seq, out),
{
    let n = data[1] as int;
    let msb = s.msb_first;
    assert(d8[1] == data[1]);
    assert(d8.subrange(4, 8) =~= data.subrange(4, 8));
    assert(d8.subrange(8, 12) =~= data.subrange(8, 12));
    assert(d8.subrange(12, 14) =~= data.subrange(12, 14));
    assert(d8.subrange(14, 16) =~= data.subrange(14, 16));
    assert(d8.subrange(16, 16 + n) =~= low_bytes(data, n));
    assert(image_text_op(s, d8, ShapeView::ImageText8 { x: field16(data, 12, msb) as i16, y: field16(data, 14, msb) as i16, text: low_bytes(data, n) })
        == image_text_op(s, data, ShapeView::ImageText8 { x: field16(data, 12, msb) as i16, y: field16(data, 14, msb) as i16, text: low_bytes(data, n) }));
}

} // verus!
