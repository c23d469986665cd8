//! CreatePixmap (opcode 53) and FreePixmap (opcode 54). The request
//! fields are parsed by x11rb-protocol, which reads them in the machine's
//! own byte order.

use crate::state::{
    in_id_range, ClientState, PixmapState, BAD_ALLOC, BAD_ID_CHOICE, BAD_LENGTH, BAD_PIXMAP, BAD_VALUE,
};
use crate::wire::{build_error, error_packet, field16, field32};
use vstd::prelude::*;
use x11rb_protocol::errors::ParseError;
use x11rb_protocol::protocol::xproto::{CreatePixmapRequest, FreePixmapRequest};
use x11rb_protocol::x11_utils::RequestHeader;

verus! {

broadcast use vstd::std_specs::hash::group_hash_axioms;

/// x11rb-protocol's parse error, carried through unread.
#[verifier::external_type_specification]
#[verifier::external_body]
pub struct ExParseError(ParseError);

/// A parsed CreatePixmap request: depth, pixmap id, drawable, width,
/// height.
pub type CreatePixmap = (u8, u32, u32, u16, u16);

/// The CreatePixmap fields of a request read in one byte order (`msb` =
/// big-endian).
pub open spec fn create_pixmap_fields(d: Seq<u8>, msb: bool) -> CreatePixmap {
    (d[1], field32(d, 4, msb), field32(d, 8, msb), field16(d, 12, msb), field16(d, 14, msb))
}

/// Parse a CreatePixmap request with
/// `x11rb_protocol::protocol::xproto::CreatePixmapRequest::try_parse_request`.
/// Claimed: with at least 16 bytes, it succeeds exactly when the major
/// opcode is 53, and then gives the depth (byte 1) and the id, drawable,
/// width and height read in the machine's byte order, one of the two.
#[verifier::external_body]
fn parse_create_pixmap(data: &[u8]) -> (r: Result<CreatePixmap, ParseError>)
    requires
        data@.len() >= 16,
    ensures
        r is Ok <==> data@[0] == 53,
        r matches Ok(req) ==> req == create_pixmap_fields(data@, false) || req == create_pixmap_fields(data@, true),
{
    let header = RequestHeader { major_opcode: data[0], minor_opcode: data[1], remaining_length: 0 };
    CreatePixmapRequest::try_parse_request(header, &data[4..]).map(|q| (q.depth, q.pid, q.drawable, q.width, q.height))
}

/// Parse a FreePixmap request with
/// `x11rb_protocol::protocol::xproto::FreePixmapRequest::try_parse_request`.
/// Claimed: with at least 8 bytes, it succeeds exactly when the major
/// opcode is 54, and then gives the pixmap id read in the machine's byte
/// order, one of the two.
#[verifier::external_body]
fn parse_free_pixmap(data: &[u8]) -> (r: Result<u32, ParseError>)
    requires
        data@.len() >= 8,
    ensures
        r is Ok <==> data@[0] == 54,
        r matches Ok(id) ==> id == field32(data@, 4, false) || id == field32(data@, 4, true),
{
    let header = RequestHeader { major_opcode: data[0], minor_opcode: data[1], remaining_length: 0 };
    FreePixmapRequest::try_parse_request(header, &data[4..]).map(|q| q.pixmap)
}

/// The pixmap depths the server supports.
pub open spec fn supported_depth(depth: u8) -> bool {
    depth == 1 || depth == 4 || depth == 8 || depth == 16 || depth == 24 || depth == 32
}

/// The error a parsed CreatePixmap request is answered with, if any: an id
/// outside the client's range, no room for another pixmap, a zero or
/// oversized side, an unsupported depth, an id in use.
pub open spec fn create_pixmap_error(s: ClientState, req: CreatePixmap, room: bool) -> Option<Seq<u8>> {
    let (depth, pid, _drawable, w, h) = req;
    if !in_id_range(s, pid) {
        Some(error_packet(BAD_ID_CHOICE, s.sequence, pid, 53, 0, false))
    } else if !room {
        Some(error_packet(BAD_ALLOC, s.sequence, pid, 53, 0, false))
    } else if w == 0 || h == 0 {
        Some(error_packet(BAD_VALUE, s.sequence, 0, 53, 0, false))
    } else if w > 32767 || h > 32767 {
        Some(error_packet(BAD_VALUE, s.sequence, w as u32, 53, 0, false))
    } else if !supported_depth(depth) {
        Some(error_packet(BAD_VALUE, s.sequence, depth as u32, 53, 0, false))
    } else if s.pixmaps@.contains_key(pid) || s.windows@.contains_key(pid) {
        Some(error_packet(BAD_ID_CHOICE, s.sequence, pid, 53, 0, false))
    } else {
        None
    }
}

/// The state after a CreatePixmap request that was not refused.
pub open spec fn pixmap_created(s: ClientState, after: ClientState, req: CreatePixmap) -> bool {
    &&& after.pixmaps@ == s.pixmaps@.insert(req.1, PixmapState { width: req.3, height: req.4, depth: req.0, alias_window: None })
    &&& after == (ClientState { pixmaps: after.pixmaps, ..s })
}

/// Carry out a parsed CreatePixmap request; `room` says whether the
/// client's pixmap limit allows another one.
pub fn create_pixmap(state: &mut ClientState, req: CreatePixmap, room: bool) -> (r: Vec<u8>)
    ensures
        match create_pixmap_error(*old(state), req, room) {
            Some(e) => r@ == e && *final(state) == *old(state),
            None => r@ == Seq::<u8>::empty() && pixmap_created(*old(state), *final(state), req),
        },
{
    let (depth, pid, _drawable, width, height) = req;
    let seq = state.sequence;
    if !state.validate_resource_id(pid) {
        return build_error(BAD_ID_CHOICE, seq, pid, 53, 0);
    }
    if !room {
        return build_error(BAD_ALLOC, seq, pid, 53, 0);
    }
    if width == 0 || height == 0 {
        return build_error(BAD_VALUE, seq, 0, 53, 0);
    }
    if width > 32767 || height > 32767 {
        return build_error(BAD_VALUE, seq, width as u32, 53, 0);
    }
    if !(depth == 1 || depth == 4 || depth == 8 || depth == 16 || depth == 24 || depth == 32) {
        return build_error(BAD_VALUE, seq, depth as u32, 53, 0);
    }
    if state.pixmaps.contains_key(&pid) || state.windows.contains_key(&pid) {
        return build_error(BAD_ID_CHOICE, seq, pid, 53, 0);
    }
    state.pixmaps.insert(pid, PixmapState { width, height, depth, alias_window: None });
    Vec::new()
}

/// CreatePixmap (opcode 53): a request shorter than 16 bytes, or one that
/// does not parse, is answered with BadLength; otherwise the request,
/// its fields read in the machine's byte order, is carried out by
/// `create_pixmap`.
pub fn handle_create_pixmap(state: &mut ClientState, data: &[u8], room: bool) -> (r: Vec<u8>)
    ensures
        data@.len() < 16 || data@[0] != 53 ==> r@ == error_packet(BAD_LENGTH, old(state).sequence, 0, 53, 0, false)
            && *final(state) == *old(state),
        data@.len() >= 16 && data@[0] == 53 ==> exists|msb: bool|
            {
                let req = #[trigger] create_pixmap_fields(data@, msb);
                match create_pixmap_error(*old(state), req, room) {
                    Some(e) => r@ == e && *final(state) == *old(state),
                    None => r@ == Seq::<u8>::empty() && pixmap_created(*old(state), *final(state), req),
                }
            },
{
    if data.len() < 16 {
        return build_error(BAD_LENGTH, state.sequence, 0, 53, 0);
    }
    match parse_create_pixmap(data) {
        Ok(req) => {
            let ghost msb = req == create_pixmap_fields(data@, true);
            let r = create_pixmap(state, req, room);
            assert(req == create_pixmap_fields(data@, msb));
            r
        },
        Err(_) => build_error(BAD_LENGTH, state.sequence, 0, 53, 0),
    }
}

/// Carry out a parsed FreePixmap request.
pub fn free_pixmap(state: &mut ClientState, pid: u32) -> (r: Vec<u8>)
    ensures
        !old(state).pixmaps@.contains_key(pid) ==> r@ == error_packet(BAD_PIXMAP, old(state).sequence, pid, 54, 0, false)
            && *final(state) == *old(state),
        old(state).pixmaps@.contains_key(pid) ==> {
            &&& r@ == Seq::<u8>::empty()
            &&& final(state).pixmaps@ == old(state).pixmaps@.remove(pid)
            &&& final(state).recycled_xids@ == old(state).recycled_xids@.push(pid)
            &&& *final(state) == (ClientState { pixmaps: final(state).pixmaps, recycled_xids: final(state).recycled_xids, ..*old(state) })
        },
{
    if !state.pixmaps.contains_key(&pid) {
        return build_error(BAD_PIXMAP, state.sequence, pid, 54, 0);
    }
    state.pixmaps.remove(&pid);
    state.recycle_xid(pid);
    Vec::new()
}

/// What FreePixmap answers `req` with, and the client state it leaves.
pub open spec fn free_pixmap_done(pre: ClientState, post: ClientState, req: Seq<u8>, seq: u16, out: Seq<u8>) -> bool {
    &&& (req.len() < 8 || req[0] != 54 ==> out == error_packet(BAD_LENGTH, pre.sequence, 0, 54, 0, false)
            && post == pre)
    &&& (req.len() >= 8 && req[0] == 54 ==> exists|msb: bool|
            {
                let pid = #[trigger] field32(req, 4, msb);
                &&& !pre.pixmaps@.contains_key(pid) ==> out == error_packet(BAD_PIXMAP, pre.sequence, pid, 54, 0, false)
                    && post == pre
                &&& pre.pixmaps@.contains_key(pid) ==> {
                    &&& out == Seq::<u8>::empty()
                    &&& post.pixmaps@ == pre.pixmaps@.remove(pid)
                    &&& post.recycled_xids@ == pre.recycled_xids@.push(pid)
                    &&& post == (ClientState { pixmaps: post.pixmaps, recycled_xids: post.recycled_xids, ..pre })
                }
            })
}

/// FreePixmap (opcode 54): BadLength for a request shorter than 8 bytes or
/// one that does not parse; otherwise `free_pixmap` of the id read in the
/// machine's byte order.
pub fn handle_free_pixmap(state: &mut ClientState, data: &[u8]) -> (r: Vec<u8>)
    ensures
        free_pixmap_done(*old(state), *final(state), data@, old(state).sequence, r@),
{
    if data.len() < 8 {
        return build_error(BAD_LENGTH, state.sequence, 0, 54, 0);
    }
    match parse_free_pixmap(data) {
        Ok(pid) => {
            let ghost msb = pid == field32(data@, 4, true);
            let r = free_pixmap(state, pid);
            assert(pid == field32(data@, 4, msb));
            r
        },
        Err(_) => build_error(BAD_LENGTH, state.sequence, 0, 54, 0),
    }
}

} // verus!
