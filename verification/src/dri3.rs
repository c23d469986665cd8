//! DRI3 (extension major opcode 149): buffer sharing through file
//! descriptors. This module decides each request: what to answer, what
//! state changes, and which work on descriptors the connection has to do
//! (open the render node, read a buffer into a pixmap, copy a pixmap into
//! a memory file, export a fence). The follow-up functions turn the
//! descriptors that work produced into the reply.

use crate::state::{
    ClientState, PixmapState, BAD_ALLOC, BAD_LENGTH, BAD_PIXMAP, BAD_REQUEST, BAD_VALUE,
};
use crate::wire::{
    build_error_bo, build_reply, bytes16, bytes32, error_packet, field16, field32, push_u16, push_u32, push_zeros,
    read_u16, read_u32, reply_packet, zeros,
};
use vstd::prelude::*;

verus! {

broadcast use vstd::std_specs::hash::group_hash_axioms;

/// The DRI3 major opcode.
pub const DRI3_MAJOR_OPCODE: u8 = 149;

/// The DRI3 version this server implements.
pub const DRI3_MAJOR_VERSION: u32 = 1;
pub const DRI3_MINOR_VERSION: u32 = 4;

/// A SYNC fence: whether it is triggered, whether it was created
/// triggered, and the descriptor behind it (-1 for none).
#[derive(Clone, Copy)]
pub struct Fence {
    pub id: u32,
    pub triggered: bool,
    pub initially_triggered: bool,
    pub fd: i32,
}

/// What a DRI3 request comes to.
pub enum Dri3Outcome {
    /// Bytes to send back (empty for a request without a reply).
    Reply(Vec<u8>),
    /// An error for a short request, and the descriptors it came with,
    /// which are to be closed.
    Refuse { error: Vec<u8>, close: Vec<i32> },
    /// Open the GPU render node and answer with `open_reply`.
    OpenRenderNode,
    /// Fill the new pixmap with the first `size` bytes of the buffer behind
    /// `fd` (none: it stays empty), then close the descriptor.
    FillPixmap { pixmap: u32, fd: Option<i32>, size: u64 },
    /// Fill the new pixmap from the planes of the buffers behind `fds`,
    /// laid out as `fourcc` says with the given strides and offsets, then
    /// close the descriptors.
    FillPixmapPlanes {
        pixmap: u32,
        width: u16,
        height: u16,
        fourcc: u32,
        strides: [u32; 4],
        offsets: [u32; 4],
        fds: Vec<i32>,
    },
    /// Copy the pixmap's pixels into a new memory file and answer with
    /// `buffer_reply`.
    ExportBuffer { pixmap: u32 },
    /// Copy the pixmap's pixels into a new memory file and answer with
    /// `buffers_reply`.
    ExportBuffers { pixmap: u32 },
    /// Duplicate the fence's descriptor `fd` if it is one (at least 0); if
    /// there is none or that fails, create an event descriptor counting 1
    /// if the fence is triggered, else 0. Answer with `fence_fd_reply`.
    ExportFence { fence: u32, fd: i32, triggered: bool },
}

/// A DRI3 error.
pub open spec fn dri3_error(code: u8, seq: u16, bad: u32, minor: u8, msb: bool) -> Seq<u8> {
    error_packet(code, seq, bad, DRI3_MAJOR_OPCODE, minor as u16, msb)
}

/// Build a DRI3 error.
fn build_dri3_error(code: u8, seq: u16, bad: u32, minor: u8, msb: bool) -> (r: Vec<u8>)
    ensures
        r@ == dri3_error(code, seq, bad, minor, msb),
{
    build_error_bo(code, seq, bad, DRI3_MAJOR_OPCODE, minor as u16, msb)
}

/// The version QueryVersion answers a client's (major, minor) with: the
/// lower major; with major 1 the lower minor, with a higher major this
/// server's minor, with major 0 the client's minor.
pub open spec fn agreed_version(major: u32, minor: u32) -> (u32, u32) {
    let m = if major < DRI3_MAJOR_VERSION { major } else { DRI3_MAJOR_VERSION };
    let n = if major == DRI3_MAJOR_VERSION {
        if minor < DRI3_MINOR_VERSION { minor } else { DRI3_MINOR_VERSION }
    } else if major > DRI3_MAJOR_VERSION {
        DRI3_MINOR_VERSION
    } else {
        minor
    };
    (m, n)
}

/// The QueryVersion reply.
pub open spec fn version_reply(d: Seq<u8>, seq: u16, msb: bool) -> Seq<u8> {
    let v = agreed_version(field32(d, 4, msb), field32(d, 8, msb));
    reply_packet(0, seq, bytes32(v.0, msb) + bytes32(v.1, msb) + zeros(16), msb)
}

/// The modifiers reply: LINEAR for windows; LINEAR and INVALID for the
/// screen.
pub open spec fn modifiers_reply(seq: u16, msb: bool) -> Seq<u8> {
    reply_packet(
        0,
        seq,
        bytes32(1, msb) + bytes32(2, msb) + zeros(16) + zeros(16) + bytes32(0xFFFF_FFFF, msb) + bytes32(0x00FF_FFFF, msb),
        msb,
    )
}

/// A reply that only says one descriptor comes with it.
pub open spec fn fd_reply(seq: u16, msb: bool) -> Seq<u8> {
    reply_packet(1, seq, zeros(24), msb)
}

/// The bits per pixel of a pixmap of the given depth.
pub open spec fn bits_per_pixel(depth: u8) -> u8 {
    if depth == 1 {
        1
    } else {
        32
    }
}

/// The BufferFromPixmap reply: size, width, height, stride (four bytes a
/// pixel, cut to 16 bits), depth and bits per pixel.
pub open spec fn buffer_reply_bytes(seq: u16, size: u32, p: PixmapState, msb: bool) -> Seq<u8> {
    reply_packet(
        1,
        seq,
        bytes32(size, msb) + bytes16(p.width, msb) + bytes16(p.height, msb) + bytes16(((p.width * 4) % 0x10000) as u16, msb)
            + seq![p.depth, bits_per_pixel(p.depth)] + zeros(12),
        msb,
    )
}

/// The BuffersFromPixmap reply: one buffer, linear, with stride four
/// bytes a pixel and offset 0.
pub open spec fn buffers_reply_bytes(seq: u16, p: PixmapState, msb: bool) -> Seq<u8> {
    reply_packet(
        1,
        seq,
        bytes16(p.width, msb) + bytes16(p.height, msb) + zeros(8) + seq![p.depth, bits_per_pixel(p.depth), 1u8] + zeros(9)
            + bytes32((p.width * 4) as u32, msb) + zeros(4),
        msb,
    )
}

/// The descriptors left after taking the newest one, and that one.
pub open spec fn pop_fd(fds: Seq<i32>) -> (Seq<i32>, Option<i32>) {
    if fds.len() == 0 {
        (fds, None)
    } else {
        (fds.drop_last(), Some(fds.last()))
    }
}

/// The pixmap a buffer import creates.
pub open spec fn imported_pixmap(width: u16, height: u16, depth: u8) -> PixmapState {
    PixmapState { width, height, depth, alias_window: None }
}

/// What a DRI3 request does to the client state and what it comes to.
pub open spec fn dri3_done(s: ClientState, after: ClientState, d: Seq<u8>, seq: u16, r: Dri3Outcome) -> bool {
    let msb = s.msb_first;
    let minor = d[1];
    let len_error = dri3_error(BAD_LENGTH, seq, 0, minor, msb);
    if d.len() < 4 {
        r matches Dri3Outcome::Reply(v) && v@ == dri3_error(BAD_LENGTH, seq, 0, 0, msb) && after == s
    } else if minor == 0 {
        after == s && (r matches Dri3Outcome::Reply(v) && v@ == (if d.len() < 12 {
            len_error
        } else {
            version_reply(d, seq, msb)
        }))
    } else if minor == 1 {
        after == s && r is OpenRenderNode
    } else if minor == 2 {
        if d.len() < 24 {
            after == s && (r matches Dri3Outcome::Reply(v) && v@ == len_error)
        } else {
            let pid = field32(d, 4, msb);
            let w = field16(d, 16, msb);
            let h = field16(d, 18, msb);
            let taken = pop_fd(s.pending_fds@);
            &&& r matches Dri3Outcome::FillPixmap { pixmap, fd, size } && pixmap == pid && fd == taken.1 && size == w * h * 4
            &&& after == (ClientState { pixmaps: after.pixmaps, pending_fds: after.pending_fds, ..s })
            &&& after.pixmaps@ == s.pixmaps@.insert(pid, imported_pixmap(w, h, d[22]))
            &&& after.pending_fds@ == taken.0
        }
    } else if minor == 3 || minor == 8 {
        let pid = field32(d, 4, msb);
        &&& after == s
        &&& if d.len() < 8 {
            r matches Dri3Outcome::Reply(v) && v@ == len_error
        } else if !s.pixmaps@.contains_key(pid) {
            r matches Dri3Outcome::Reply(v) && v@ == dri3_error(BAD_PIXMAP, seq, pid, minor, msb)
        } else if minor == 3 {
            r matches Dri3Outcome::ExportBuffer { pixmap } && pixmap == pid
        } else {
            r matches Dri3Outcome::ExportBuffers { pixmap } && pixmap == pid
        }
    } else if minor == 4 {
        let taken = pop_fd(s.pending_fds@);
        &&& after.pending_fds@ == taken.0
        &&& if d.len() < 16 {
            &&& r matches Dri3Outcome::Refuse { error, close } && error@ == len_error && close@ == (match taken.1 {
                Some(fd) => seq![fd],
                None => Seq::<i32>::empty(),
            })
            &&& after == (ClientState { pending_fds: after.pending_fds, ..s })
        } else {
            let fid = field32(d, 8, msb);
            let on = d[12] != 0;
            let fd = match taken.1 {
                Some(fd) => fd,
                None => -1i32,
            };
            &&& r matches Dri3Outcome::Reply(v) && v@ == Seq::<u8>::empty()
            &&& after.fences@ == s.fences@.insert(fid, Fence { id: fid, triggered: on, initially_triggered: on, fd })
            &&& after == (ClientState { pending_fds: after.pending_fds, fences: after.fences, ..s })
        }
    } else if minor == 5 {
        let fid = field32(d, 8, msb);
        &&& after == s
        &&& if d.len() < 12 {
            r matches Dri3Outcome::Reply(v) && v@ == len_error
        } else if !s.fences@.contains_key(fid) {
            r matches Dri3Outcome::Reply(v) && v@ == dri3_error(BAD_VALUE, seq, fid, 5, msb)
        } else {
            r matches Dri3Outcome::ExportFence { fence, fd, triggered } && fence == fid && fd == s.fences@[fid].fd
                && triggered == s.fences@[fid].triggered
        }
    } else if minor == 6 {
        after == s && (r matches Dri3Outcome::Reply(v) && v@ == (if d.len() < 12 {
            len_error
        } else {
            modifiers_reply(seq, msb)
        }))
    } else if minor == 7 {
        &&& after.pending_fds@ == Seq::<i32>::empty()
        &&& if d.len() < 52 {
            &&& r matches Dri3Outcome::Refuse { error, close } && error@ == len_error && close@ == s.pending_fds@
            &&& after == (ClientState { pending_fds: after.pending_fds, ..s })
        } else {
            let pid = field32(d, 4, msb);
            let w = field16(d, 12, msb);
            let h = field16(d, 14, msb);
            &&& r matches Dri3Outcome::FillPixmapPlanes { pixmap, width, height, fourcc, strides, offsets, fds }
                && pixmap == pid && width == w && height == h && fourcc == (if d.len() > 53 {
                field32(d, 50, msb)
            } else {
                0
            }) && strides@ == seq![field32(d, 16, msb), field32(d, 24, msb), field32(d, 32, msb), field32(d, 40, msb)]
                && offsets@ == seq![field32(d, 20, msb), field32(d, 28, msb), field32(d, 36, msb), field32(d, 44, msb)]
                && fds@ == s.pending_fds@
            &&& after.pixmaps@ == s.pixmaps@.insert(pid, imported_pixmap(w, h, d[48]))
            &&& after == (ClientState { pixmaps: after.pixmaps, pending_fds: after.pending_fds, ..s })
        }
    } else if minor == 9 {
        if d.len() < 16 {
            after == s && (r matches Dri3Outcome::Reply(v) && v@ == len_error)
        } else {
            &&& r matches Dri3Outcome::Reply(v) && v@ == Seq::<u8>::empty()
            &&& after == (ClientState { dri3_drm_device: Some((field32(d, 8, msb), field32(d, 12, msb))), ..s })
        }
    } else {
        after == s && (r matches Dri3Outcome::Reply(v) && v@ == dri3_error(BAD_REQUEST, seq, minor as u32, minor, msb))
    }
}

/// Take the newest pending descriptor.
fn take_fd(state: &mut ClientState) -> (r: Option<i32>)
    ensures
        (final(state).pending_fds@, r) == pop_fd(old(state).pending_fds@),
        *final(state) == (ClientState { pending_fds: final(state).pending_fds, ..*old(state) }),
{
    state.pending_fds.pop()
}

/// Take all pending descriptors, oldest first.
fn take_all_fds(state: &mut ClientState) -> (r: Vec<i32>)
    ensures
        r@ == old(state).pending_fds@,
        final(state).pending_fds@ == Seq::<i32>::empty(),
        *final(state) == (ClientState { pending_fds: final(state).pending_fds, ..*old(state) }),
{
    let mut fds: Vec<i32> = Vec::new();
    std::mem::swap(&mut fds, &mut state.pending_fds);
    fds
}

/// QueryVersion (minor 0) on a request of at least 12 bytes.
fn query_version(data: &[u8], seq: u16, msb: bool) -> (r: Vec<u8>)
    requires
        data@.len() >= 12,
    ensures
        r@ == version_reply(data@, seq, msb),
{
    let major = read_u32(data, 4, msb);
    let minor = read_u32(data, 8, msb);
    let reply_major = if major < DRI3_MAJOR_VERSION { major } else { DRI3_MAJOR_VERSION };
    let reply_minor = if major == DRI3_MAJOR_VERSION {
        if minor < DRI3_MINOR_VERSION { minor } else { DRI3_MINOR_VERSION }
    } else if major > DRI3_MAJOR_VERSION {
        DRI3_MINOR_VERSION
    } else {
        minor
    };
    let mut body: Vec<u8> = Vec::new();
    push_u32(&mut body, reply_major, msb);
    push_u32(&mut body, reply_minor, msb);
    push_zeros(&mut body, 16);
    build_reply(0, seq, body.as_slice(), msb)
}

/// GetSupportedModifiers (minor 6).
fn supported_modifiers(seq: u16, msb: bool) -> (r: Vec<u8>)
    ensures
        r@ == modifiers_reply(seq, msb),
{
    let mut body: Vec<u8> = Vec::new();
    push_u32(&mut body, 1, msb);
    push_u32(&mut body, 2, msb);
    push_zeros(&mut body, 16);
    push_zeros(&mut body, 16);
    push_u32(&mut body, 0xFFFF_FFFF, msb);
    push_u32(&mut body, 0x00FF_FFFF, msb);
    build_reply(0, seq, body.as_slice(), msb)
}

/// Handle a DRI3 request.
pub fn handle_dri3_request(state: &mut ClientState, data: &[u8], seq: u16) -> (r: Dri3Outcome)
    ensures
        dri3_done(*old(state), *final(state), data@, seq, r),
{
    let msb = state.msb_first;
    if data.len() < 4 {
        return Dri3Outcome::Reply(build_dri3_error(BAD_LENGTH, seq, 0, 0, msb));
    }
    let minor = data[1];
    if minor == 0 {
        if data.len() < 12 {
            return Dri3Outcome::Reply(build_dri3_error(BAD_LENGTH, seq, 0, minor, msb));
        }
        Dri3Outcome::Reply(query_version(data, seq, msb))
    } else if minor == 1 {
        Dri3Outcome::OpenRenderNode
    } else if minor == 2 {
        if data.len() < 24 {
            return Dri3Outcome::Reply(build_dri3_error(BAD_LENGTH, seq, 0, minor, msb));
        }
        let pixmap = read_u32(data, 4, msb);
        let width = read_u16(data, 16, msb);
        let height = read_u16(data, 18, msb);
        let depth = data[22];
        let fd = take_fd(state);
        state.pixmaps.insert(pixmap, PixmapState { width, height, depth, alias_window: None });
        assert(width * height <= 0xFFFF * 0xFFFF) by (nonlinear_arith)
            requires
                width <= 0xFFFF,
                height <= 0xFFFF,
        ;
        let size: u64 = width as u64 * height as u64 * 4;
        Dri3Outcome::FillPixmap { pixmap, fd, size }
    } else if minor == 3 || minor == 8 {
        if data.len() < 8 {
            return Dri3Outcome::Reply(build_dri3_error(BAD_LENGTH, seq, 0, minor, msb));
        }
        let pixmap = read_u32(data, 4, msb);
        if !state.pixmaps.contains_key(&pixmap) {
            return Dri3Outcome::Reply(build_dri3_error(BAD_PIXMAP, seq, pixmap, minor, msb));
        }
        if minor == 3 {
            Dri3Outcome::ExportBuffer { pixmap }
        } else {
            Dri3Outcome::ExportBuffers { pixmap }
        }
    } else if minor == 4 {
        let fd = take_fd(state);
        if data.len() < 16 {
            let mut close: Vec<i32> = Vec::new();
            match fd {
                Some(f) => close.push(f),
                None => {},
            }
            proof {
                assert(close@ =~= (match fd {
                    Some(f) => seq![f],
                    None => Seq::<i32>::empty(),
                }));
            }
            return Dri3Outcome::Refuse { error: build_dri3_error(BAD_LENGTH, seq, 0, minor, msb), close };
        }
        let fence = read_u32(data, 8, msb);
        let on = data[12] != 0;
        let f = match fd {
            Some(f) => f,
            None => -1,
        };
        state.fences.insert(fence, Fence { id: fence, triggered: on, initially_triggered: on, fd: f });
        Dri3Outcome::Reply(Vec::new())
    } else if minor == 5 {
        if data.len() < 12 {
            return Dri3Outcome::Reply(build_dri3_error(BAD_LENGTH, seq, 0, minor, msb));
        }
        let fence = read_u32(data, 8, msb);
        match state.fences.get(&fence) {
            Some(f) => Dri3Outcome::ExportFence { fence, fd: f.fd, triggered: f.triggered },
            None => Dri3Outcome::Reply(build_dri3_error(BAD_VALUE, seq, fence, 5, msb)),
        }
    } else if minor == 6 {
        if data.len() < 12 {
            return Dri3Outcome::Reply(build_dri3_error(BAD_LENGTH, seq, 0, minor, msb));
        }
        Dri3Outcome::Reply(supported_modifiers(seq, msb))
    } else if minor == 7 {
        let fds = take_all_fds(state);
        if data.len() < 52 {
            return Dri3Outcome::Refuse { error: build_dri3_error(BAD_LENGTH, seq, 0, minor, msb), close: fds };
        }
        let pixmap = read_u32(data, 4, msb);
        let width = read_u16(data, 12, msb);
        let height = read_u16(data, 14, msb);
        let strides = [read_u32(data, 16, msb), read_u32(data, 24, msb), read_u32(data, 32, msb), read_u32(data, 40, msb)];
        let offsets = [read_u32(data, 20, msb), read_u32(data, 28, msb), read_u32(data, 36, msb), read_u32(data, 44, msb)];
        let depth = data[48];
        let fourcc = if data.len() > 53 { read_u32(data, 50, msb) } else { 0 };
        state.pixmaps.insert(pixmap, PixmapState { width, height, depth, alias_window: None });
        proof {
            assert(strides@ =~= seq![field32(data@, 16, msb), field32(data@, 24, msb), field32(data@, 32, msb), field32(data@, 40, msb)]);
            assert(offsets@ =~= seq![field32(data@, 20, msb), field32(data@, 28, msb), field32(data@, 36, msb), field32(data@, 44, msb)]);
        }
        Dri3Outcome::FillPixmapPlanes { pixmap, width, height, fourcc, strides, offsets, fds }
    } else if minor == 9 {
        if data.len() < 16 {
            return Dri3Outcome::Reply(build_dri3_error(BAD_LENGTH, seq, 0, minor, msb));
        }
        let major = read_u32(data, 8, msb);
        let minor_number = read_u32(data, 12, msb);
        state.dri3_drm_device = Some((major, minor_number));
        Dri3Outcome::Reply(Vec::new())
    } else {
        Dri3Outcome::Reply(build_dri3_error(BAD_REQUEST, seq, minor as u32, minor, msb))
    }
}

/// The answer to Open once the render node was opened (`fd` at least 0)
/// or could not be (BadAlloc).
pub fn open_reply(state: &mut ClientState, seq: u16, fd: i32) -> (r: Vec<u8>)
    ensures
        fd < 0 ==> r@ == dri3_error(BAD_ALLOC, seq, 0, 1, old(state).msb_first) && *final(state) == *old(state),
        fd >= 0 ==> r@ == fd_reply(seq, old(state).msb_first) && final(state).reply_fds@ == old(state).reply_fds@.push(fd)
            && *final(state) == (ClientState { reply_fds: final(state).reply_fds, ..*old(state) }),
{
    let msb = state.msb_first;
    if fd < 0 {
        return build_dri3_error(BAD_ALLOC, seq, 0, 1, msb);
    }
    state.reply_fds.push(fd);
    let mut body: Vec<u8> = Vec::new();
    push_zeros(&mut body, 24);
    build_reply(1, seq, body.as_slice(), msb)
}

/// The answer to BufferFromPixmap once the pixmap's `size` bytes were
/// copied into the memory file `fd`, or the file could not be made
/// (BadAlloc); BadPixmap if the pixmap is gone.
pub fn buffer_reply(state: &mut ClientState, seq: u16, pixmap: u32, fd: i32, size: u32) -> (r: Vec<u8>)
    ensures
        ({
            let s = *old(state);
            let msb = s.msb_first;
            if !s.pixmaps@.contains_key(pixmap) {
                r@ == dri3_error(BAD_PIXMAP, seq, pixmap, 3, msb) && *final(state) == s
            } else if fd < 0 {
                r@ == dri3_error(BAD_ALLOC, seq, pixmap, 3, msb) && *final(state) == s
            } else {
                &&& r@ == buffer_reply_bytes(seq, size, s.pixmaps@[pixmap], msb)
                &&& final(state).reply_fds@ == s.reply_fds@.push(fd)
                &&& *final(state) == (ClientState { reply_fds: final(state).reply_fds, ..s })
            }
        }),
{
    let msb = state.msb_first;
    let p = match state.pixmaps.get(&pixmap) {
        Some(p) => *p,
        None => {
            return build_dri3_error(BAD_PIXMAP, seq, pixmap, 3, msb);
        },
    };
    if fd < 0 {
        return build_dri3_error(BAD_ALLOC, seq, pixmap, 3, msb);
    }
    state.reply_fds.push(fd);
    let stride: u16 = ((p.width as u32 * 4) % 0x10000) as u16;
    let bpp: u8 = if p.depth == 1 { 1 } else { 32 };
    let mut body: Vec<u8> = Vec::new();
    push_u32(&mut body, size, msb);
    push_u16(&mut body, p.width, msb);
    push_u16(&mut body, p.height, msb);
    push_u16(&mut body, stride, msb);
    let ghost head = body@;
    body.push(p.depth);
    body.push(bpp);
    assert(body@ =~= head + seq![p.depth, bits_per_pixel(p.depth)]);
    push_zeros(&mut body, 12);
    build_reply(1, seq, body.as_slice(), msb)
}

/// The answer to BuffersFromPixmap once the pixmap's pixels were copied
/// into the memory file `fd`, or the file could not be made (BadAlloc);
/// BadPixmap if the pixmap is gone.
pub fn buffers_reply(state: &mut ClientState, seq: u16, pixmap: u32, fd: i32) -> (r: Vec<u8>)
    ensures
        ({
            let s = *old(state);
            let msb = s.msb_first;
            if !s.pixmaps@.contains_key(pixmap) {
                r@ == dri3_error(BAD_PIXMAP, seq, pixmap, 8, msb) && *final(state) == s
            } else if fd < 0 {
                r@ == dri3_error(BAD_ALLOC, seq, pixmap, 8, msb) && *final(state) == s
            } else {
                &&& r@ == buffers_reply_bytes(seq, s.pixmaps@[pixmap], msb)
                &&& final(state).reply_fds@ == s.reply_fds@.push(fd)
                &&& *final(state) == (ClientState { reply_fds: final(state).reply_fds, ..s })
            }
        }),
{
    let msb = state.msb_first;
    let p = match state.pixmaps.get(&pixmap) {
        Some(p) => *p,
        None => {
            return build_dri3_error(BAD_PIXMAP, seq, pixmap, 8, msb);
        },
    };
    if fd < 0 {
        return build_dri3_error(BAD_ALLOC, seq, pixmap, 8, msb);
    }
    state.reply_fds.push(fd);
    let bpp: u8 = if p.depth == 1 { 1 } else { 32 };
    let mut body: Vec<u8> = Vec::new();
    push_u16(&mut body, p.width, msb);
    push_u16(&mut body, p.height, msb);
    push_zeros(&mut body, 8);
    let ghost head = body@;
    body.push(p.depth);
    body.push(bpp);
    body.push(1u8);
    assert(body@ =~= head + seq![p.depth, bits_per_pixel(p.depth), 1u8]);
    push_zeros(&mut body, 9);
    push_u32(&mut body, p.width as u32 * 4, msb);
    push_zeros(&mut body, 4);
    build_reply(1, seq, body.as_slice(), msb)
}

/// The answer to FDFromFence once the fence's descriptor was duplicated
/// (`dup_fd` at least 0) or an event descriptor made (`event_fd` at least
/// 0); with neither, BadAlloc.
pub fn fence_fd_reply(state: &mut ClientState, seq: u16, fence: u32, dup_fd: i32, event_fd: i32) -> (r: Vec<u8>)
    ensures
        ({
            let s = *old(state);
            let msb = s.msb_first;
            if dup_fd < 0 && event_fd < 0 {
                r@ == dri3_error(BAD_ALLOC, seq, fence, 5, msb) && *final(state) == s
            } else {
                &&& r@ == fd_reply(seq, msb)
                &&& final(state).reply_fds@ == s.reply_fds@.push(if dup_fd >= 0 { dup_fd } else { event_fd })
                &&& *final(state) == (ClientState { reply_fds: final(state).reply_fds, ..s })
            }
        }),
{
    let msb = state.msb_first;
    if dup_fd < 0 && event_fd < 0 {
        return build_dri3_error(BAD_ALLOC, seq, fence, 5, msb);
    }
    state.reply_fds.push(if dup_fd >= 0 { dup_fd } else { event_fd });
    let mut body: Vec<u8> = Vec::new();
    push_zeros(&mut body, 24);
    build_reply(1, seq, body.as_slice(), msb)
}

/// A fence made by FenceFromFD is exported by FDFromFence with the
/// descriptor it was made from (-1 for none) and its initial state.
pub proof fn fence_exports_what_it_was_made_from(
    s: ClientState,
    mid: ClientState,
    after: ClientState,
    make: Seq<u8>,
    export: Seq<u8>,
    seq1: u16,
    seq2: u16,
    r1: Dri3Outcome,
    r2: Dri3Outcome,
)
    requires
        make.len() >= 16 && make[1] == 4,
        export.len() >= 12 && export[1] == 5,
        field32(export, 8, s.msb_first) == field32(make, 8, s.msb_first),
        dri3_done(s, mid, make, seq1, r1),
        dri3_done(mid, after, export, seq2, r2),
    ensures
        r2 matches Dri3Outcome::ExportFence { fence, fd, triggered } && fence == field32(make, 8, s.msb_first) && fd == (match pop_fd(
            s.pending_fds@,
        ).1 {
            Some(f) => f,
            None => -1i32,
        }) && triggered == (make[12] != 0),
{
}

} // verus!
