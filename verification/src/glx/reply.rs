//! GLX single-request replies (`xGLXSingleReply`) and string replies.
//!
//! Wire layout: type 1, an unused byte, the sequence number, `length`
//! (extra 4-byte words after the 32-byte header), `retval`, `size`
//! (element count), 16 bytes of padding, then the padded data.
//! Mesa reads a single element from `retval` when `size == 1`, so such a
//! reply carries no extra data.

use crate::wire::{le16, le32, pad4, push_bytes, push_u16, push_u32, push_zeros, zeros};
use vstd::prelude::*;

verus! {

/// The abstract content of a GLX single reply.
pub enum GlxReplyModel {
    Empty,
    Scalar(u32),
    SingleValue(Seq<u8>),
    Values(u32, Seq<u8>),
    Bytes(u32, Seq<u8>),
}

/// The 32-byte GLX reply header followed by `data`, padded to four bytes.
pub open spec fn glx_frame(seq: u16, length: u32, retval: Seq<u8>, size: u32, data: Seq<u8>) -> Seq<u8> {
    seq![1u8, 0u8] + le16(seq) + le32(length) + retval + le32(size) + zeros(16) + data
        + zeros((pad4(data.len()) - data.len()) as nat)
}

/// Words of extra data that `n` bytes occupy once padded.
pub open spec fn extra_words(n: nat) -> u32 {
    (pad4(n) / 4) as u32
}

impl GlxReplyModel {
    /// The bytes on the wire for this reply.
    pub open spec fn wire(self, seq: u16) -> Seq<u8> {
        match self {
            GlxReplyModel::Empty => glx_frame(seq, 0, zeros(4), 0, seq![]),
            GlxReplyModel::Scalar(v) => glx_frame(seq, 0, le32(v), 0, seq![]),
            GlxReplyModel::SingleValue(b) => glx_frame(seq, 0, b, 1, seq![]),
            GlxReplyModel::Values(count, data) => glx_frame(seq, extra_words(data.len()), zeros(4), count, data),
            GlxReplyModel::Bytes(count, data) => glx_frame(seq, extra_words(data.len()), zeros(4), count, data),
        }
    }
}

/// GLX single-command reply; each variant has exactly one wire encoding.
pub enum GlxReply {
    /// No data: retval 0, size 0, length 0.
    Empty,
    /// Scalar return value in `retval`; size 0, length 0.
    Scalar(u32),
    /// One 4-byte element in `retval`; size 1, length 0.
    SingleValue([u8; 4]),
    /// `count` elements in the extra data.
    Values { count: u32, data: Vec<u8> },
    /// A byte string of `count` significant bytes in the extra data.
    Bytes { count: u32, data: Vec<u8> },
}

impl View for GlxReply {
    type V = GlxReplyModel;

    open spec fn view(&self) -> GlxReplyModel {
        match self {
            GlxReply::Empty => GlxReplyModel::Empty,
            GlxReply::Scalar(v) => GlxReplyModel::Scalar(*v),
            GlxReply::SingleValue(b) => GlxReplyModel::SingleValue(b@),
            GlxReply::Values { count, data } => GlxReplyModel::Values(*count, data@),
            GlxReply::Bytes { count, data } => GlxReplyModel::Bytes(*count, data@),
        }
    }
}

/// Whether the data of a reply is small enough to be framed.
pub open spec fn encodable(m: GlxReplyModel) -> bool {
    match m {
        GlxReplyModel::SingleValue(b) => b.len() == 4,
        GlxReplyModel::Values(_, data) => data.len() + 3 <= usize::MAX,
        GlxReplyModel::Bytes(_, data) => data.len() + 3 <= usize::MAX,
        _ => true,
    }
}

/// The little-endian bytes of a 32-bit value as an array.
pub fn le_array(v: u32) -> (r: [u8; 4])
    ensures
        r@ == le32(v),
{
    let r = [(v % 256) as u8, ((v / 256) % 256) as u8, ((v / 65536) % 256) as u8, (v / 16777216) as u8];
    assert(r@ =~= le32(v));
    r
}

/// Frame a GLX reply: header with `length`, `retval`, `size`, then the data
/// padded to a multiple of four bytes.
fn frame(seq: u16, length: u32, retval: &[u8; 4], size: u32, data: &[u8]) -> (r: Vec<u8>)
    requires
        data@.len() + 3 <= usize::MAX,
    ensures
        r@ == glx_frame(seq, length, retval@, size, data@),
{
    let mut out: Vec<u8> = Vec::new();
    out.push(1u8);
    out.push(0u8);
    assert(out@ =~= seq![1u8, 0u8]);
    push_u16(&mut out, seq, false);
    push_u32(&mut out, length, false);
    push_bytes(&mut out, retval);
    push_u32(&mut out, size, false);
    push_zeros(&mut out, 16);
    push_bytes(&mut out, data);
    let padded = (data.len() + 3) / 4 * 4;
    push_zeros(&mut out, padded - data.len());
    out
}

/// The little-endian bytes of a sequence of 32-bit values, in order.
pub open spec fn le32s(s: Seq<u32>) -> Seq<u8>
    decreases s.len(),
{
    if s.len() == 0 {
        seq![]
    } else {
        le32s(s.drop_last()) + le32(s.last())
    }
}

/// The little-endian two's-complement bytes of a sequence of 32-bit signed
/// values, in order.
pub open spec fn le32s_signed(s: Seq<i32>) -> Seq<u8>
    decreases s.len(),
{
    if s.len() == 0 {
        seq![]
    } else {
        le32s_signed(s.drop_last()) + le32(s.last() as u32)
    }
}

/// The reply model for a list of 32-bit elements: one element travels in
/// `retval`, any other count in the extra data.
pub open spec fn elements_model(count: nat, bytes: Seq<u8>) -> GlxReplyModel {
    if count == 1 {
        GlxReplyModel::SingleValue(bytes)
    } else {
        GlxReplyModel::Values(count as u32, bytes)
    }
}

proof fn lemma_le32s_len(s: Seq<u32>)
    ensures
        le32s(s).len() == 4 * s.len(),
    decreases s.len(),
{
    if s.len() > 0 {
        lemma_le32s_len(s.drop_last());
    }
}

proof fn lemma_le32s_signed_len(s: Seq<i32>)
    ensures
        le32s_signed(s).len() == 4 * s.len(),
    decreases s.len(),
{
    if s.len() > 0 {
        lemma_le32s_signed_len(s.drop_last());
    }
}

/// The little-endian bytes of 32-bit values, in order.
pub fn u32s_bytes(values: &[u32]) -> (r: Vec<u8>)
    ensures
        r@ == le32s(values@),
{
    let mut out: Vec<u8> = Vec::new();
    let mut i: usize = 0;
    while i < values.len()
        invariant
            i <= values@.len(),
            out@ == le32s(values@.subrange(0, i as int)),
        decreases values@.len() - i,
    {
        let ghost prev = values@.subrange(0, i as int);
        push_u32(&mut out, values[i], false);
        i = i + 1;
        assert(values@.subrange(0, i as int).drop_last() =~= prev);
    }
    assert(values@.subrange(0, values@.len() as int) =~= values@);
    out
}

fn i32s_bytes(values: &[i32]) -> (r: Vec<u8>)
    ensures
        r@ == le32s_signed(values@),
{
    let mut out: Vec<u8> = Vec::new();
    let mut i: usize = 0;
    while i < values.len()
        invariant
            i <= values@.len(),
            out@ == le32s_signed(values@.subrange(0, i as int)),
        decreases values@.len() - i,
    {
        let ghost prev = values@.subrange(0, i as int);
        push_u32(&mut out, values[i] as u32, false);
        i = i + 1;
        assert(values@.subrange(0, i as int).drop_last() =~= prev);
    }
    assert(values@.subrange(0, values@.len() as int) =~= values@);
    out
}

impl GlxReply {
    /// Serialize to wire bytes.
    pub fn encode(self, seq: u16) -> (r: Vec<u8>)
        requires
            encodable(self@),
        ensures
            r@ == self@.wire(seq),
    {
        match self {
            GlxReply::Empty => {
                let z = [0u8, 0u8, 0u8, 0u8];
                assert(z@ =~= zeros(4));
                frame(seq, 0, &z, 0, &[])
            },
            GlxReply::Scalar(value) => {
                let rv = le_array(value);
                frame(seq, 0, &rv, 0, &[])
            },
            GlxReply::SingleValue(bytes) => frame(seq, 0, &bytes, 1, &[]),
            GlxReply::Values { count, data } => {
                let z = [0u8, 0u8, 0u8, 0u8];
                assert(z@ =~= zeros(4));
                let padded = (data.len() + 3) / 4 * 4;
                let words = (padded / 4) as u32;
                frame(seq, words, &z, count, data.as_slice())
            },
            GlxReply::Bytes { count, data } => {
                let z = [0u8, 0u8, 0u8, 0u8];
                assert(z@ =~= zeros(4));
                let padded = (data.len() + 3) / 4 * 4;
                let words = (padded / 4) as u32;
                frame(seq, words, &z, count, data.as_slice())
            },
        }
    }

    /// Build a reply from 32-bit signed values: a single value travels in
    /// `retval`, any other number in the extra data.
    pub fn from_i32s(values: &[i32]) -> (r: GlxReply)
        ensures
            r@ == elements_model(values@.len(), le32s_signed(values@)),
            4 * values@.len() + 3 <= usize::MAX ==> encodable(r@),
    {
        proof {
            lemma_le32s_signed_len(values@);
        }
        if values.len() == 1 {
            let b = le_array(values[0] as u32);
            assert(values@.drop_last() =~= Seq::<i32>::empty());
            assert(le32s_signed(values@) =~= le32(values@[0] as u32));
            GlxReply::SingleValue(b)
        } else {
            let data = i32s_bytes(values);
            GlxReply::Values { count: values.len() as u32, data }
        }
    }

    /// Build a reply from 32-bit unsigned values.
    pub fn from_u32s(values: &[u32]) -> (r: GlxReply)
        ensures
            r@ == elements_model(values@.len(), le32s(values@)),
            4 * values@.len() + 3 <= usize::MAX ==> encodable(r@),
    {
        proof {
            lemma_le32s_len(values@);
        }
        if values.len() == 1 {
            let b = le_array(values[0]);
            assert(values@.drop_last() =~= Seq::<u32>::empty());
            assert(le32s(values@) =~= le32(values@[0]));
            GlxReply::SingleValue(b)
        } else {
            let data = u32s_bytes(values);
            GlxReply::Values { count: values.len() as u32, data }
        }
    }

    /// Build a reply from boolean values (one byte each): a single value
    /// travels in `retval`, padded with zeros, any other number in the data.
    pub fn from_bools(values: &[u8]) -> (r: GlxReply)
        ensures
            r@ == (if values@.len() == 1 {
                GlxReplyModel::SingleValue(seq![values@[0], 0u8, 0u8, 0u8])
            } else {
                GlxReplyModel::Values(values@.len() as u32, values@)
            }),
            values@.len() + 3 <= usize::MAX ==> encodable(r@),
    {
        if values.len() == 1 {
            let b = [values[0], 0u8, 0u8, 0u8];
            assert(b@ =~= seq![values@[0], 0u8, 0u8, 0u8]);
            GlxReply::SingleValue(b)
        } else {
            let mut data: Vec<u8> = Vec::new();
            push_bytes(&mut data, values);
            assert(data@ =~= values@);
            GlxReply::Values { count: values.len() as u32, data }
        }
    }

    /// Build a reply from a byte string of `byte_count` significant bytes.
    pub fn from_bytes(byte_count: u32, data: Vec<u8>) -> (r: GlxReply)
        ensures
            r@ == GlxReplyModel::Bytes(byte_count, data@),
    {
        GlxReply::Bytes { count: byte_count, data }
    }
}

/// The string reply of QueryExtensionsString and QueryServerString: the
/// count includes a NUL terminator, which follows the string in the data.
pub open spec fn string_reply(seq: u16, s: Seq<u8>) -> Seq<u8> {
    let n = s.len() + 1;
    seq![1u8, 0u8] + le16(seq) + le32((pad4(n) / 4) as u32) + zeros(4) + le32(n as u32) + zeros(16) + s
        + zeros((pad4(n) - s.len()) as nat)
}

/// Build a GLX query string reply; the string is sent with its NUL terminator.
pub fn build_glx_string_reply(seq: u16, string: &[u8]) -> (r: Vec<u8>)
    requires
        string@.len() + 4 <= u32::MAX,
    ensures
        r@ == string_reply(seq, string@),
{
    let n = (string.len() + 1) as u32;
    let padded = ((n as usize) + 3) / 4 * 4;
    let mut out: Vec<u8> = Vec::new();
    out.push(1u8);
    out.push(0u8);
    assert(out@ =~= seq![1u8, 0u8]);
    push_u16(&mut out, seq, false);
    push_u32(&mut out, (padded / 4) as u32, false);
    push_zeros(&mut out, 4);
    push_u32(&mut out, n, false);
    push_zeros(&mut out, 16);
    push_bytes(&mut out, string);
    push_zeros(&mut out, padded - string.len());
    out
}

} // verus!
