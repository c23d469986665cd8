//! DPMS, display power management (major opcode 151): version,
//! capability, timeouts, enabling, forced power levels and the info
//! reply. SetTimeouts and ForceLevel are parsed by x11rb-protocol, which
//! reads the fields in the machine's own byte order.

use crate::state::{ClientState, BAD_LENGTH, BAD_REQUEST, BAD_VALUE};
use crate::wire::{build_error_bo, build_reply, bytes16, error_packet, field16, push_u16, push_zeros, reply_packet, zeros};
use vstd::prelude::*;
use x11rb_protocol::errors::ParseError;
use x11rb_protocol::protocol::dpms::{ForceLevelRequest, SetTimeoutsRequest};
use x11rb_protocol::x11_utils::RequestHeader;

verus! {

/// The DPMS major opcode.
pub const DPMS_MAJOR: u8 = 151;

/// The SetTimeouts fields (standby, suspend, off) read in one byte order.
pub open spec fn timeouts_fields(d: Seq<u8>, msb: bool) -> (u16, u16, u16) {
    (field16(d, 4, msb), field16(d, 6, msb), field16(d, 8, msb))
}

/// Parse SetTimeouts with
/// `x11rb_protocol::protocol::dpms::SetTimeoutsRequest::try_parse_request`.
/// Claimed: with at least 10 bytes it succeeds exactly when the minor
/// opcode is 3, giving the three timeouts read in the machine's byte
/// order, one of the two.
#[verifier::external_body]
fn parse_set_timeouts(data: &[u8]) -> (r: Result<(u16, u16, u16), ParseError>)
    requires
        data@.len() >= 10,
    ensures
        r is Ok <==> data@[1] == 3,
        r matches Ok(t) ==> t == timeouts_fields(data@, false) || t == timeouts_fields(data@, true),
{
    let header = RequestHeader { major_opcode: data[0], minor_opcode: data[1], remaining_length: 0 };
    SetTimeoutsRequest::try_parse_request(header, &data[4..]).map(|q| (q.standby_timeout, q.suspend_timeout, q.off_timeout))
}

/// Parse ForceLevel with
/// `x11rb_protocol::protocol::dpms::ForceLevelRequest::try_parse_request`.
/// Claimed: with at least 6 bytes it succeeds exactly when the minor
/// opcode is 6, giving the power level read in the machine's byte order,
/// one of the two.
#[verifier::external_body]
fn parse_force_level(data: &[u8]) -> (r: Result<u16, ParseError>)
    requires
        data@.len() >= 6,
    ensures
        r is Ok <==> data@[1] == 6,
        r matches Ok(l) ==> l == field16(data@, 4, false) || l == field16(data@, 4, true),
{
    let header = RequestHeader { major_opcode: data[0], minor_opcode: data[1], remaining_length: 0 };
    ForceLevelRequest::try_parse_request(header, &data[4..]).map(|q| u16::from(q.power_level))
}

/// The reply to a DPMS request that needs no parsing, and the errors of
/// short or unknown requests.
pub open spec fn dpms_reply(s: ClientState, d: Seq<u8>, seq: u16) -> Seq<u8> {
    let msb = s.msb_first;
    let minor = d[1];
    if minor == 0 {
        reply_packet(0, seq, bytes16(1, msb) + bytes16(2, msb) + zeros(20), msb)
    } else if minor == 1 {
        reply_packet(0, seq, seq![1u8] + zeros(23), msb)
    } else if minor == 2 {
        reply_packet(0, seq, bytes16(s.dpms_standby_timeout, msb) + bytes16(s.dpms_suspend_timeout, msb) + bytes16(
            s.dpms_off_timeout,
            msb,
        ) + zeros(18), msb)
    } else if minor == 3 && d.len() < 10 || minor == 6 && d.len() < 6 {
        error_packet(BAD_LENGTH, seq, 0, DPMS_MAJOR, minor as u16, msb)
    } else if minor == 7 {
        reply_packet(0, seq, bytes16(s.dpms_power_level, msb) + seq![if s.dpms_enabled { 1u8 } else { 0u8 }] + zeros(21), msb)
    } else if minor > 7 {
        error_packet(BAD_REQUEST, seq, minor as u32, DPMS_MAJOR, minor as u16, msb)
    } else {
        Seq::empty()
    }
}

/// Force a parsed power level: levels past Off (3) and levels other than
/// On (0) while DPMS is disabled are refused with BadValue.
pub fn force_level(state: &mut ClientState, level: u16, seq: u16) -> (r: Vec<u8>)
    ensures
        level > 3 || !old(state).dpms_enabled && level != 0 ==> r@ == error_packet(BAD_VALUE, seq, level as u32, DPMS_MAJOR, 6,
            old(state).msb_first) && *final(state) == *old(state),
        !(level > 3 || !old(state).dpms_enabled && level != 0) ==> r@ == Seq::<u8>::empty() && *final(state) == (
        ClientState { dpms_power_level: level, ..*old(state) }),
{
    if level > 3 || !state.dpms_enabled && level != 0 {
        return build_error_bo(BAD_VALUE, seq, level as u32, DPMS_MAJOR, 6, state.msb_first);
    }
    state.dpms_power_level = level;
    Vec::new()
}

/// DPMS (major opcode 151): GetVersion (0, version 1.2), Capable (1),
/// GetTimeouts (2), SetTimeouts (3), Enable (4), Disable (5, back to On),
/// ForceLevel (6), Info (7).
pub fn handle_dpms_request(state: &mut ClientState, data: &[u8], seq: u16) -> (r: Vec<u8>)
    requires
        data@.len() >= 2,
    ensures
        ({
            let s = *old(state);
            let minor = data@[1];
            if minor == 3 && data@.len() >= 10 {
                exists|msb: bool|
                    {
                        let t = #[trigger] timeouts_fields(data@, msb);
                        r@ == Seq::<u8>::empty() && *final(state) == (ClientState {
                            dpms_standby_timeout: t.0,
                            dpms_suspend_timeout: t.1,
                            dpms_off_timeout: t.2,
                            ..s
                        })
                    }
            } else if minor == 6 && data@.len() >= 6 {
                exists|msb: bool|
                    {
                        let level = #[trigger] field16(data@, 4, msb);
                        &&& level > 3 || !s.dpms_enabled && level != 0 ==> r@ == error_packet(BAD_VALUE, seq, level as u32,
                            DPMS_MAJOR, 6, s.msb_first) && *final(state) == s
                        &&& !(level > 3 || !s.dpms_enabled && level != 0) ==> r@ == Seq::<u8>::empty() && *final(state) == (
                        ClientState { dpms_power_level: level, ..s })
                    }
            } else {
                &&& r@ == dpms_reply(s, data@, seq)
                &&& *final(state) == if minor == 4 {
                    ClientState { dpms_enabled: true, ..s }
                } else if minor == 5 {
                    ClientState { dpms_enabled: false, dpms_power_level: 0, ..s }
                } else {
                    s
                }
            }
        }),
{
    let msb = state.msb_first;
    let minor = data[1];
    if minor == 0 {
        let mut body: Vec<u8> = Vec::new();
        push_u16(&mut body, 1, msb);
        push_u16(&mut body, 2, msb);
        push_zeros(&mut body, 20);
        return build_reply(0, seq, body.as_slice(), msb);
    }
    if minor == 1 {
        let mut body: Vec<u8> = Vec::new();
        body.push(1u8);
        push_zeros(&mut body, 23);
        assert(body@ =~= seq![1u8] + zeros(23));
        return build_reply(0, seq, body.as_slice(), msb);
    }
    if minor == 2 {
        let mut body: Vec<u8> = Vec::new();
        push_u16(&mut body, state.dpms_standby_timeout, msb);
        push_u16(&mut body, state.dpms_suspend_timeout, msb);
        push_u16(&mut body, state.dpms_off_timeout, msb);
        push_zeros(&mut body, 18);
        return build_reply(0, seq, body.as_slice(), msb);
    }
    if minor == 3 {
        if data.len() < 10 {
            return build_error_bo(BAD_LENGTH, seq, 0, DPMS_MAJOR, 3, msb);
        }
        match parse_set_timeouts(data) {
            Ok(t) => {
                let ghost big = t == timeouts_fields(data@, true);
                state.dpms_standby_timeout = t.0;
                state.dpms_suspend_timeout = t.1;
                state.dpms_off_timeout = t.2;
                assert(t == timeouts_fields(data@, big));
                return Vec::new();
            },
            Err(_) => {
                return build_error_bo(BAD_LENGTH, seq, 0, DPMS_MAJOR, 3, msb);
            },
        }
    }
    if minor == 4 {
        state.dpms_enabled = true;
        return Vec::new();
    }
    if minor == 5 {
        state.dpms_enabled = false;
        state.dpms_power_level = 0;
        return Vec::new();
    }
    if minor == 6 {
        if data.len() < 6 {
            return build_error_bo(BAD_LENGTH, seq, 0, DPMS_MAJOR, 6, msb);
        }
        match parse_force_level(data) {
            Ok(level) => {
                let ghost big = level == field16(data@, 4, true);
                let r = force_level(state, level, seq);
                assert(level == field16(data@, 4, big));
                return r;
            },
            Err(_) => {
                return build_error_bo(BAD_LENGTH, seq, 0, DPMS_MAJOR, 6, msb);
            },
        }
    }
    if minor == 7 {
        let mut body: Vec<u8> = Vec::new();
        push_u16(&mut body, state.dpms_power_level, msb);
        body.push(if state.dpms_enabled { 1u8 } else { 0u8 });
        push_zeros(&mut body, 21);
        return build_reply(0, seq, body.as_slice(), msb);
    }
    build_error_bo(BAD_REQUEST, seq, minor as u32, DPMS_MAJOR, minor as u16, msb)
}

} // verus!
