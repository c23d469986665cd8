//! Byte-level encoding shared by all request handlers: integers in either
//! byte order, zero padding, and the X11 error packet.

use vstd::prelude::*;

verus! {

/// A 16-bit value in little-endian byte order.
pub open spec fn le16(v: u16) -> Seq<u8> {
    seq![(v % 256) as u8, (v / 256) as u8]
}

/// A 16-bit value in big-endian byte order.
pub open spec fn be16(v: u16) -> Seq<u8> {
    seq![(v / 256) as u8, (v % 256) as u8]
}

/// A 32-bit value in little-endian byte order.
pub open spec fn le32(v: u32) -> Seq<u8> {
    seq![(v % 256) as u8, ((v / 256) % 256) as u8, ((v / 65536) % 256) as u8, (v / 16777216) as u8]
}

/// A 32-bit value in big-endian byte order.
pub open spec fn be32(v: u32) -> Seq<u8> {
    seq![(v / 16777216) as u8, ((v / 65536) % 256) as u8, ((v / 256) % 256) as u8, (v % 256) as u8]
}

/// A 16-bit value in the byte order a client asked for (`msb` = big-endian).
pub open spec fn bytes16(v: u16, msb: bool) -> Seq<u8> {
    if msb { be16(v) } else { le16(v) }
}

/// A 32-bit value in the byte order a client asked for (`msb` = big-endian).
pub open spec fn bytes32(v: u32, msb: bool) -> Seq<u8> {
    if msb { be32(v) } else { le32(v) }
}

/// `n` zero bytes.
pub open spec fn zeros(n: nat) -> Seq<u8> {
    Seq::new(n, |i: int| 0u8)
}

/// The value of four bytes read in the given byte order.
pub open spec fn u32_of(b: Seq<u8>, msb: bool) -> u32 {
    if msb {
        (b[0] * 16777216 + b[1] * 65536 + b[2] * 256 + b[3]) as u32
    } else {
        (b[3] * 16777216 + b[2] * 65536 + b[1] * 256 + b[0]) as u32
    }
}

/// The value of two bytes read in the given byte order.
pub open spec fn u16_of(b: Seq<u8>, msb: bool) -> u16 {
    if msb {
        (b[0] * 256 + b[1]) as u16
    } else {
        (b[1] * 256 + b[0]) as u16
    }
}

/// The 32-bit field at byte offset `off` of a request.
pub open spec fn field32(data: Seq<u8>, off: int, msb: bool) -> u32 {
    u32_of(data.subrange(off, off + 4), msb)
}

/// The 16-bit field at byte offset `off` of a request.
pub open spec fn field16(data: Seq<u8>, off: int, msb: bool) -> u16 {
    u16_of(data.subrange(off, off + 2), msb)
}

/// `n` rounded up to a multiple of four.
pub open spec fn pad4(n: nat) -> nat {
    ((n + 3) / 4 * 4) as nat
}

/// Read a 32-bit field in the client's byte order.
pub fn read_u32(data: &[u8], off: usize, msb: bool) -> (r: u32)
    requires
        off + 4 <= data@.len(),
    ensures
        r == field32(data@, off as int, msb),
{
    let b0 = data[off] as u32;
    let b1 = data[off + 1] as u32;
    let b2 = data[off + 2] as u32;
    let b3 = data[off + 3] as u32;
    let ghost b = data@.subrange(off as int, off + 4);
    assert(b[0] == b0 && b[1] == b1 && b[2] == b2 && b[3] == b3);
    if msb {
        b0 * 16777216 + b1 * 65536 + b2 * 256 + b3
    } else {
        b3 * 16777216 + b2 * 65536 + b1 * 256 + b0
    }
}

/// Read a 16-bit field in the client's byte order.
pub fn read_u16(data: &[u8], off: usize, msb: bool) -> (r: u16)
    requires
        off + 2 <= data@.len(),
    ensures
        r == field16(data@, off as int, msb),
{
    let b0 = data[off] as u16;
    let b1 = data[off + 1] as u16;
    let ghost b = data@.subrange(off as int, off + 2);
    assert(b[0] == b0 && b[1] == b1);
    if msb {
        b0 * 256 + b1
    } else {
        b1 * 256 + b0
    }
}

/// Read a signed 16-bit field in the client's byte order.
pub fn read_i16(data: &[u8], off: usize, msb: bool) -> (r: i16)
    requires
        off + 2 <= data@.len(),
    ensures
        r == field16(data@, off as int, msb) as i16,
{
    read_u16(data, off, msb) as i16
}

/// Append a 16-bit value in the given byte order.
pub fn push_u16(out: &mut Vec<u8>, v: u16, msb: bool)
    ensures
        final(out)@ == old(out)@ + bytes16(v, msb),
{
    let lo = (v % 256) as u8;
    let hi = (v / 256) as u8;
    if msb {
        out.push(hi);
        out.push(lo);
    } else {
        out.push(lo);
        out.push(hi);
    }
    assert(out@ =~= old(out)@ + bytes16(v, msb));
}

/// Append a 32-bit value in the given byte order.
pub fn push_u32(out: &mut Vec<u8>, v: u32, msb: bool)
    ensures
        final(out)@ == old(out)@ + bytes32(v, msb),
{
    let b0 = (v % 256) as u8;
    let b1 = ((v / 256) % 256) as u8;
    let b2 = ((v / 65536) % 256) as u8;
    let b3 = (v / 16777216) as u8;
    if msb {
        out.push(b3);
        out.push(b2);
        out.push(b1);
        out.push(b0);
    } else {
        out.push(b0);
        out.push(b1);
        out.push(b2);
        out.push(b3);
    }
    assert(out@ =~= old(out)@ + bytes32(v, msb));
}

/// Append `n` zero bytes.
pub fn push_zeros(out: &mut Vec<u8>, n: usize)
    ensures
        final(out)@ == old(out)@ + zeros(n as nat),
{
    let mut i: usize = 0;
    while i < n
        invariant
            i <= n,
            out@ == old(out)@ + zeros(i as nat),
        decreases n - i,
    {
        out.push(0u8);
        i = i + 1;
        assert(out@ =~= old(out)@ + zeros(i as nat));
    }
}

/// Append a slice of bytes.
pub fn push_bytes(out: &mut Vec<u8>, data: &[u8])
    ensures
        final(out)@ == old(out)@ + data@,
{
    let mut i: usize = 0;
    while i < data.len()
        invariant
            i <= data@.len(),
            out@ == old(out)@ + data@.subrange(0, i as int),
        decreases data@.len() - i,
    {
        out.push(data[i]);
        i = i + 1;
        assert(out@ =~= old(out)@ + data@.subrange(0, i as int));
    }
    assert(data@.subrange(0, data@.len() as int) =~= data@);
}

/// An X11 reply: type 1, a data byte, the sequence number, the length of
/// what follows the 32-byte header in 4-byte words, then the body from
/// byte 8 on.
pub open spec fn reply_packet(data_byte: u8, seq: u16, body: Seq<u8>, msb: bool) -> Seq<u8> {
    seq![1u8, data_byte] + bytes16(seq, msb) + bytes32(((body.len() - 24) / 4) as u32, msb) + body
}

/// Build an X11 reply around a body of at least 24 bytes.
pub fn build_reply(data_byte: u8, seq: u16, body: &[u8], msb: bool) -> (r: Vec<u8>)
    requires
        24 <= body@.len() <= 24 + 4 * 0xFFFF_FFFFnat,
    ensures
        r@ == reply_packet(data_byte, seq, body@, msb),
{
    let mut out: Vec<u8> = Vec::new();
    out.push(1u8);
    out.push(data_byte);
    assert(out@ =~= seq![1u8, data_byte]);
    push_u16(&mut out, seq, msb);
    let words = ((body.len() - 24) / 4) as u32;
    push_u32(&mut out, words, msb);
    push_bytes(&mut out, body);
    out
}

/// The 32-byte X11 error packet: type 0, error code, sequence number, bad
/// value, minor opcode, major opcode, and padding.
pub open spec fn error_packet(code: u8, seq: u16, bad_value: u32, major: u8, minor: u16, msb: bool) -> Seq<u8> {
    seq![0u8, code] + bytes16(seq, msb) + bytes32(bad_value, msb) + bytes16(minor, msb) + seq![major]
        + zeros(21)
}

/// Build an X11 error packet in the given byte order.
pub fn build_error_bo(code: u8, seq: u16, bad_value: u32, major: u8, minor: u16, msb: bool) -> (r: Vec<u8>)
    ensures
        r@ == error_packet(code, seq, bad_value, major, minor, msb),
        r@.len() == 32,
{
    let mut out: Vec<u8> = Vec::new();
    out.push(0u8);
    out.push(code);
    assert(out@ =~= seq![0u8, code]);
    push_u16(&mut out, seq, msb);
    push_u32(&mut out, bad_value, msb);
    push_u16(&mut out, minor, msb);
    out.push(major);
    let ghost before = out@;
    push_zeros(&mut out, 21);
    assert(before =~= seq![0u8, code] + bytes16(seq, msb) + bytes32(bad_value, msb) + bytes16(minor, msb) + seq![major]);
    out
}

/// Build an X11 error packet in little-endian byte order.
pub fn build_error(code: u8, seq: u16, bad_value: u32, major: u8, minor: u16) -> (r: Vec<u8>)
    ensures
        r@ == error_packet(code, seq, bad_value, major, minor, false),
        r@.len() == 32,
{
    build_error_bo(code, seq, bad_value, major, minor, false)
}

} // verus!
