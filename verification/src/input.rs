//! Input-device, keyboard, pointer, screen-saver and access-control state
//! and the requests that query it.

use crate::state::{ClientState, BAD_LENGTH, BAD_VALUE, BAD_WINDOW};
use crate::wire::{
    build_error, build_reply, bytes16, bytes32, error_packet, field16, field32, push_bytes, push_u16, push_u32,
    push_zeros, reply_packet, zeros,
};
use std::collections::HashMap;
use vstd::prelude::*;
use x11rb_protocol::errors::ParseError;
use x11rb_protocol::protocol::xproto::{ChangePointerControlRequest, SetInputFocusRequest, SetScreenSaverRequest};
use x11rb_protocol::x11_utils::RequestHeader;

verus! {

/// Keyboard control settings (GetKeyboardControl / ChangeKeyboardControl).
pub struct KeyboardControl {
    pub global_auto_repeat: u8,
    pub led_mask: u32,
    pub key_click_percent: u8,
    pub bell_percent: u8,
    pub bell_pitch: u16,
    pub bell_duration: u16,
    /// One bit per keycode: the key auto-repeats.
    pub auto_repeats: [u8; 32],
}

impl Default for KeyboardControl {
    /// Auto-repeat on for every key, all LEDs off, no key click, the bell
    /// at 50% volume, 400 Hz, 100 ms.
    fn default() -> (k: KeyboardControl)
        ensures
            k.global_auto_repeat == 1,
            k.led_mask == 0,
            k.key_click_percent == 0,
            k.bell_percent == 50,
            k.bell_pitch == 400,
            k.bell_duration == 100,
            forall|i: int| 0 <= i < 32 ==> k.auto_repeats@[i] == 0xFFu8,
    {
        KeyboardControl {
            global_auto_repeat: 1,
            led_mask: 0,
            key_click_percent: 0,
            bell_percent: 50,
            bell_pitch: 400,
            bell_duration: 100,
            auto_repeats: [0xFFu8; 32],
        }
    }
}

/// Pointer acceleration settings.
pub struct PointerControl {
    pub acceleration_numerator: u16,
    pub acceleration_denominator: u16,
    pub threshold: u16,
}

/// Screen-saver settings and state.
pub struct ScreenSaver {
    pub timeout: u16,
    pub interval: u16,
    pub prefer_blanking: u8,
    pub allow_exposures: u8,
    /// The screen saver is on.
    pub active: bool,
    /// Server time of the last reset of the screen-saver timer.
    pub last_reset_ms: u32,
}

/// A host in the access-control list.
pub struct AccessHost {
    pub family: u8,
    pub address: Vec<u8>,
}

/// Input and access-control state of a connection.
pub struct InputState {
    pub focus_window: u32,
    pub focus_revert_to: u8,
    /// One bit per keycode: the key is pressed.
    pub pressed_keys: [u8; 32],
    pub keyboard_control: KeyboardControl,
    pub pointer_control: PointerControl,
    pub screen_saver: ScreenSaver,
    /// MIT-SCREEN-SAVER events the client selected (0: none).
    pub screen_saver_event_mask: u32,
    /// The window the screen saver draws in.
    pub screen_saver_window: u32,
    pub access_hosts: Vec<AccessHost>,
    pub access_control_enabled: bool,
    pub close_down_mode: u8,
    /// Logical button for each physical button.
    pub pointer_mapping: Vec<u8>,
    /// The keycodes of each of the eight modifiers.
    pub modifier_map: Vec<Vec<u8>>,
    pub custom_keymap: HashMap<u8, Vec<u32>>,
    /// 0 = trusted client; untrusted clients are denied host-access changes.
    pub trust_level: u32,
}

/// GetInputFocus (opcode 43): revert-to mode and focus window.
pub open spec fn input_focus_reply(s: ClientState, seq: u16) -> Seq<u8> {
    reply_packet(s.input.focus_revert_to, seq, bytes32(s.input.focus_window, s.msb_first) + zeros(20), s.msb_first)
}

/// What GetInputFocus answers `req` with, and the client state it leaves.
pub open spec fn get_input_focus_done(pre: ClientState, post: ClientState, req: Seq<u8>, seq: u16, out: Seq<u8>) -> bool {
    &&& (out == input_focus_reply(pre, seq))
    &&& (post == pre)
}

/// GetInputFocus (opcode 43).
pub fn handle_get_input_focus(state: &mut ClientState, data: &[u8], seq: u16) -> (r: Vec<u8>)
    ensures
        get_input_focus_done(*old(state), *final(state), data@, seq, r@),
{
    let msb = state.msb_first;
    let mut body: Vec<u8> = Vec::new();
    push_u32(&mut body, state.input.focus_window, msb);
    push_zeros(&mut body, 20);
    assert(body@ =~= bytes32(state.input.focus_window, msb) + zeros(20));
    build_reply(state.input.focus_revert_to, seq, body.as_slice(), msb)
}

/// Parse SetInputFocus with
/// `x11rb_protocol::protocol::xproto::SetInputFocusRequest::try_parse_request`.
/// Claimed: with at least 8 bytes it gives revert-to (byte 1) and the focus
/// window, read in the machine's byte order (one of the two), exactly when
/// the major opcode is 42 and the request has its 12 bytes.
#[verifier::external_body]
fn parse_set_input_focus(data: &[u8]) -> (r: Result<(u8, u32), ParseError>)
    requires
        data@.len() >= 8,
    ensures
        r matches Ok(q) ==> data@[0] == 42 && data@.len() >= 12 && q.0 == data@[1] && (q.1 == field32(data@, 4, false)
            || q.1 == field32(data@, 4, true)),
        r is Err ==> data@[0] != 42 || data@.len() < 12,
{
    let header = RequestHeader { major_opcode: data[0], minor_opcode: data[1], remaining_length: 0 };
    SetInputFocusRequest::try_parse_request(header, &data[4..]).map(|q| (u8::from(q.revert_to), q.focus))
}

/// The error SetInputFocus with revert-to `revert` and focus `focus` is
/// answered with, if any: a revert-to other than None (0), PointerRoot
/// (1) and Parent (2); a focus other than None (0), PointerRoot (1) and a
/// known window.
pub open spec fn input_focus_error(s: ClientState, revert: u8, focus: u32) -> Option<Seq<u8>> {
    if revert > 2 {
        Some(error_packet(BAD_VALUE, s.sequence, revert as u32, 42, 0, false))
    } else if focus > 1 && !s.windows@.contains_key(focus) {
        Some(error_packet(BAD_WINDOW, s.sequence, focus, 42, 0, false))
    } else {
        None
    }
}

/// What SetInputFocus answers `req` with, and the client state it leaves.
pub open spec fn set_input_focus_done(pre: ClientState, post: ClientState, req: Seq<u8>, seq: u16, out: Seq<u8>) -> bool {
    &&& (req.len() < 12 || req[0] != 42 ==> out == error_packet(BAD_LENGTH, pre.sequence, 0, 42, 0, false)
            && post == pre)
    &&& (req.len() >= 12 && req[0] == 42 ==> exists|msb: bool|
            {
                let focus = #[trigger] field32(req, 4, msb);
                match input_focus_error(pre, req[1], focus) {
                    Some(e) => out == e && post == pre,
                    None => {
                        &&& out == Seq::<u8>::empty()
                        &&& post == (ClientState {
                            input: InputState { focus_window: focus, focus_revert_to: req[1], ..pre.input },
                            ..pre
                        })
                    },
                }
            })
}

/// SetInputFocus (opcode 42): a length error for a short or mis-addressed
/// request; otherwise, unless `input_focus_error` refuses it, the focus
/// goes to the window (its id read in the machine's byte order) and
/// revert-to is recorded.
pub fn handle_set_input_focus(state: &mut ClientState, data: &[u8]) -> (r: Vec<u8>)
    ensures
        set_input_focus_done(*old(state), *final(state), data@, old(state).sequence, r@),
{
    if data.len() < 8 {
        return build_error(BAD_LENGTH, state.sequence, 0, 42, 0);
    }
    let (revert, focus) = match parse_set_input_focus(data) {
        Ok(q) => q,
        Err(_) => {
            return build_error(BAD_LENGTH, state.sequence, 0, 42, 0);
        },
    };
    let ghost msb = focus == field32(data@, 4, true);
    assert(focus == field32(data@, 4, msb));
    if revert > 2 {
        return build_error(BAD_VALUE, state.sequence, revert as u32, 42, 0);
    }
    if focus > 1 && !state.windows.contains_key(&focus) {
        return build_error(BAD_WINDOW, state.sequence, focus, 42, 0);
    }
    state.input.focus_revert_to = revert;
    state.input.focus_window = focus;
    Vec::new()
}

/// QueryKeymap (opcode 44): a 40-byte reply whose last 8 bytes are the
/// first 8 bytes of the pressed-key bitmap.
pub open spec fn keymap_reply(s: ClientState, seq: u16) -> Seq<u8> {
    reply_packet(0, seq, zeros(24) + s.input.pressed_keys@.subrange(0, 8), s.msb_first)
}

/// What QueryKeymap answers `req` with, and the client state it leaves.
pub open spec fn query_keymap_done(pre: ClientState, post: ClientState, _req: Seq<u8>, seq: u16, out: Seq<u8>) -> bool {
    &&& (out == keymap_reply(pre, seq))
}

/// QueryKeymap (opcode 44).
pub fn handle_query_keymap(state: &ClientState, seq: u16) -> (r: Vec<u8>)
    ensures
        query_keymap_done(*state, *state, Seq::<u8>::empty(), seq, r@),
{
    let mut body: Vec<u8> = Vec::new();
    push_zeros(&mut body, 24);
    let mut i: usize = 0;
    while i < 8
        invariant
            i <= 8,
            body@ == zeros(24) + state.input.pressed_keys@.subrange(0, i as int),
        decreases 8 - i,
    {
        body.push(state.input.pressed_keys[i]);
        i = i + 1;
        assert(body@ =~= zeros(24) + state.input.pressed_keys@.subrange(0, i as int));
    }
    build_reply(0, seq, body.as_slice(), state.msb_first)
}

/// GetKeyboardControl (opcode 103): global auto-repeat, LED mask, key
/// click and bell settings, and the per-key auto-repeat bitmap.
pub open spec fn keyboard_control_reply(s: ClientState, seq: u16) -> Seq<u8> {
    let kc = s.input.keyboard_control;
    let msb = s.msb_first;
    reply_packet(
        kc.global_auto_repeat,
        seq,
        bytes32(kc.led_mask, msb) + seq![kc.key_click_percent, kc.bell_percent] + bytes16(kc.bell_pitch, msb)
            + bytes16(kc.bell_duration, msb) + zeros(2) + kc.auto_repeats@,
        msb,
    )
}

/// What GetKeyboardControl answers `req` with, and the client state it leaves.
pub open spec fn get_keyboard_control_done(pre: ClientState, post: ClientState, _req: Seq<u8>, seq: u16, out: Seq<u8>) -> bool {
    &&& (out == keyboard_control_reply(pre, seq))
}

/// GetKeyboardControl (opcode 103).
pub fn handle_get_keyboard_control(state: &ClientState, seq: u16) -> (r: Vec<u8>)
    ensures
        get_keyboard_control_done(*state, *state, Seq::<u8>::empty(), seq, r@),
{
    let msb = state.msb_first;
    let kc = &state.input.keyboard_control;
    let mut body: Vec<u8> = Vec::new();
    push_u32(&mut body, kc.led_mask, msb);
    body.push(kc.key_click_percent);
    body.push(kc.bell_percent);
    push_u16(&mut body, kc.bell_pitch, msb);
    push_u16(&mut body, kc.bell_duration, msb);
    push_zeros(&mut body, 2);
    push_bytes(&mut body, kc.auto_repeats.as_slice());
    assert(body@ =~= bytes32(kc.led_mask, msb) + seq![kc.key_click_percent, kc.bell_percent] + bytes16(kc.bell_pitch, msb)
        + bytes16(kc.bell_duration, msb) + zeros(2) + kc.auto_repeats@);
    build_reply(kc.global_auto_repeat, seq, body.as_slice(), msb)
}

/// GetPointerControl (opcode 106): acceleration numerator, denominator and
/// threshold.
pub open spec fn pointer_control_reply(s: ClientState, seq: u16) -> Seq<u8> {
    let pc = s.input.pointer_control;
    let msb = s.msb_first;
    reply_packet(
        0,
        seq,
        bytes16(pc.acceleration_numerator, msb) + bytes16(pc.acceleration_denominator, msb)
            + bytes16(pc.threshold, msb) + zeros(18),
        msb,
    )
}

/// What GetPointerControl answers `req` with, and the client state it leaves.
pub open spec fn get_pointer_control_done(pre: ClientState, post: ClientState, _req: Seq<u8>, seq: u16, out: Seq<u8>) -> bool {
    &&& (out == pointer_control_reply(pre, seq))
}

/// GetPointerControl (opcode 106).
pub fn handle_get_pointer_control(state: &ClientState, seq: u16) -> (r: Vec<u8>)
    ensures
        get_pointer_control_done(*state, *state, Seq::<u8>::empty(), seq, r@),
{
    let msb = state.msb_first;
    let pc = &state.input.pointer_control;
    let mut body: Vec<u8> = Vec::new();
    push_u16(&mut body, pc.acceleration_numerator, msb);
    push_u16(&mut body, pc.acceleration_denominator, msb);
    push_u16(&mut body, pc.threshold, msb);
    push_zeros(&mut body, 18);
    assert(body@ =~= bytes16(pc.acceleration_numerator, msb) + bytes16(pc.acceleration_denominator, msb)
        + bytes16(pc.threshold, msb) + zeros(18));
    build_reply(0, seq, body.as_slice(), msb)
}

/// GetScreenSaver (opcode 108): timeout, interval, prefer-blanking and
/// allow-exposures.
pub open spec fn screen_saver_reply(s: ClientState, seq: u16) -> Seq<u8> {
    let ss = s.input.screen_saver;
    let msb = s.msb_first;
    reply_packet(
        0,
        seq,
        bytes16(ss.timeout, msb) + bytes16(ss.interval, msb) + seq![ss.prefer_blanking, ss.allow_exposures] + zeros(18),
        msb,
    )
}

/// What GetScreenSaver answers `req` with, and the client state it leaves.
pub open spec fn get_screen_saver_done(pre: ClientState, post: ClientState, _req: Seq<u8>, seq: u16, out: Seq<u8>) -> bool {
    &&& (out == screen_saver_reply(pre, seq))
}

/// GetScreenSaver (opcode 108).
pub fn handle_get_screen_saver(state: &ClientState, seq: u16) -> (r: Vec<u8>)
    ensures
        get_screen_saver_done(*state, *state, Seq::<u8>::empty(), seq, r@),
{
    let msb = state.msb_first;
    let ss = &state.input.screen_saver;
    let mut body: Vec<u8> = Vec::new();
    push_u16(&mut body, ss.timeout, msb);
    push_u16(&mut body, ss.interval, msb);
    body.push(ss.prefer_blanking);
    body.push(ss.allow_exposures);
    push_zeros(&mut body, 18);
    assert(body@ =~= bytes16(ss.timeout, msb) + bytes16(ss.interval, msb) + seq![ss.prefer_blanking, ss.allow_exposures]
        + zeros(18));
    build_reply(0, seq, body.as_slice(), msb)
}

/// The MIT-SCREEN-SAVER ScreenSaverNotify event (code 92) with the given
/// state (0 Off, 1 On, 2 Cycle), kind Blanked and forced set; nothing when
/// the client selected no screen-saver event.
pub open spec fn screen_saver_notify(s: ClientState, saver_state: u8) -> Seq<u8> {
    let msb = s.msb_first;
    if s.input.screen_saver_event_mask == 0 {
        Seq::empty()
    } else {
        seq![92u8, saver_state] + bytes16(s.sequence, msb) + bytes32(s.now, msb) + bytes32(s.root_window, msb)
            + bytes32(s.input.screen_saver_window, msb) + seq![0u8, 1u8] + zeros(14)
    }
}

/// Build a ScreenSaverNotify event for the client, if it selected one.
fn build_screen_saver_notify(state: &ClientState, saver_state: u8) -> (r: Vec<u8>)
    ensures
        r@ == screen_saver_notify(*state, saver_state),
{
    let mut ev: Vec<u8> = Vec::new();
    if state.input.screen_saver_event_mask == 0 {
        return ev;
    }
    let msb = state.msb_first;
    ev.push(92u8);
    ev.push(saver_state);
    assert(ev@ =~= seq![92u8, saver_state]);
    push_u16(&mut ev, state.sequence, msb);
    push_u32(&mut ev, state.timestamp(), msb);
    push_u32(&mut ev, state.root_window, msb);
    push_u32(&mut ev, state.input.screen_saver_window, msb);
    let ghost head = ev@;
    ev.push(0u8);
    ev.push(1u8);
    assert(ev@ =~= head + seq![0u8, 1u8]);
    push_zeros(&mut ev, 14);
    ev
}

/// The ScreenSaverNotify (Off) event sent when input deactivates the
/// screen saver.
pub fn build_screen_saver_off_event(state: &ClientState) -> (r: Vec<u8>)
    ensures
        r@ == screen_saver_notify(*state, 0),
{
    build_screen_saver_notify(state, 0)
}

/// The ScreenSaverNotify (On) event sent when the screen saver activates
/// on timeout.
pub fn build_screen_saver_on_event(state: &ClientState) -> (r: Vec<u8>)
    ensures
        r@ == screen_saver_notify(*state, 1),
{
    build_screen_saver_notify(state, 1)
}

/// `n` rounded up to a multiple of four.
pub open spec fn round4(n: nat) -> nat {
    ((n + 3) / 4 * 4) as nat
}

/// One ListHosts entry: family, a pad byte, the address length
/// (little-endian), and the address padded to four bytes.
pub open spec fn host_entry(h: AccessHost) -> Seq<u8> {
    let n = h.address@.len();
    seq![h.family, 0u8, (n % 256) as u8, ((n / 256) % 256) as u8] + h.address@ + zeros((round4(n) - n) as nat)
}

/// The entries of the first `k` hosts.
pub open spec fn host_entries(hosts: Seq<AccessHost>, k: int) -> Seq<u8>
    decreases k,
{
    if k <= 0 {
        Seq::empty()
    } else {
        host_entries(hosts, k - 1) + host_entry(hosts[k - 1])
    }
}

/// ListHosts (opcode 110): whether access control is on, the host count,
/// and one entry per host.
pub open spec fn list_hosts_reply(s: ClientState, seq: u16) -> Seq<u8> {
    let hosts = s.input.access_hosts@;
    reply_packet(
        if s.input.access_control_enabled { 1 } else { 0 },
        seq,
        bytes16(hosts.len() as u16, s.msb_first) + zeros(22) + host_entries(hosts, hosts.len() as int),
        s.msb_first,
    )
}

/// What ListHosts answers `req` with, and the client state it leaves.
pub open spec fn list_hosts_done(pre: ClientState, post: ClientState, _req: Seq<u8>, seq: u16, out: Seq<u8>) -> bool {
    &&& (out == list_hosts_reply(pre, seq))
}

/// ListHosts (opcode 110).
pub fn handle_list_hosts(state: &ClientState, seq: u16) -> (r: Vec<u8>)
    requires
        host_entries(state.input.access_hosts@, state.input.access_hosts@.len() as int).len() <= 0xFFFF_FFFF,
    ensures
        list_hosts_done(*state, *state, Seq::<u8>::empty(), seq, r@),
{
    let msb = state.msb_first;
    let hosts = &state.input.access_hosts;
    let mut entries: Vec<u8> = Vec::new();
    let mut i: usize = 0;
    while i < hosts.len()
        invariant
            i <= hosts@.len(),
            hosts == &state.input.access_hosts,
            host_entries(hosts@, hosts@.len() as int).len() <= 0xFFFF_FFFF,
            entries@ == host_entries(hosts@, i as int),
        decreases hosts@.len() - i,
    {
        proof {
            lemma_host_entries_grow(hosts@, i as int + 1, hosts@.len() as int);
        }
        let h = &hosts[i];
        let n = h.address.len();
        let padded = n + (4 - n % 4) % 4;
        let ghost before = entries@;
        entries.push(h.family);
        entries.push(0u8);
        entries.push((n % 256) as u8);
        entries.push(((n / 256) % 256) as u8);
        push_bytes(&mut entries, h.address.as_slice());
        push_zeros(&mut entries, padded - n);
        assert(entries@ =~= before + host_entry(*h));
        i = i + 1;
    }
    let mut body: Vec<u8> = Vec::new();
    push_u16(&mut body, hosts.len() as u16, msb);
    push_zeros(&mut body, 22);
    push_bytes(&mut body, entries.as_slice());
    assert(body@ =~= bytes16(hosts@.len() as u16, msb) + zeros(22) + host_entries(hosts@, hosts@.len() as int));
    build_reply(if state.input.access_control_enabled { 1 } else { 0 }, seq, body.as_slice(), msb)
}

/// The entries of fewer hosts are no longer.
proof fn lemma_host_entries_grow(hosts: Seq<AccessHost>, j: int, k: int)
    requires
        0 <= j <= k,
    ensures
        host_entries(hosts, j).len() <= host_entries(hosts, k).len(),
    decreases k - j,
{
    if j < k {
        lemma_host_entries_grow(hosts, j, k - 1);
    }
}

/// What SetAccessControl answers `req` with, and the client state it leaves.
pub open spec fn set_access_control_done(pre: ClientState, post: ClientState, req: Seq<u8>, seq: u16, out: Seq<u8>) -> bool {
    &&& (req.len() < 4 ==> out == error_packet(BAD_LENGTH, pre.sequence, 0, 111, 0, false)
            && post == pre)
    &&& (req.len() >= 4 ==> {
            &&& out == Seq::<u8>::empty()
            &&& post.input.access_control_enabled == (req[1] != 0)
            &&& post.input == (InputState { access_control_enabled: req[1] != 0, ..pre.input })
            &&& post == (ClientState { input: post.input, ..pre })
        })
}

/// SetAccessControl (opcode 111): switch host-based access control.
pub fn handle_set_access_control(state: &mut ClientState, data: &[u8]) -> (r: Vec<u8>)
    ensures
        set_access_control_done(*old(state), *final(state), data@, old(state).sequence, r@),
{
    if data.len() < 4 {
        return build_error(BAD_LENGTH, state.sequence, 0, 111, 0);
    }
    state.input.access_control_enabled = data[1] != 0;
    Vec::new()
}

/// What SetCloseDownMode answers `req` with, and the client state it leaves.
pub open spec fn set_close_down_mode_done(pre: ClientState, post: ClientState, req: Seq<u8>, seq: u16, out: Seq<u8>) -> bool {
    &&& (req.len() < 4 ==> out == error_packet(BAD_LENGTH, pre.sequence, 0, 112, 0, false)
            && post == pre)
    &&& (req.len() >= 4 && req[1] > 2 ==> out == error_packet(BAD_VALUE, pre.sequence, req[1] as u32, 112, 0, false)
            && post == pre)
    &&& (req.len() >= 4 && req[1] <= 2 ==> {
            &&& out == Seq::<u8>::empty()
            &&& post.input == (InputState { close_down_mode: req[1], ..pre.input })
            &&& post == (ClientState { input: post.input, ..pre })
        })
}

/// SetCloseDownMode (opcode 112): 0 Destroy, 1 RetainPermanent,
/// 2 RetainTemporary; anything else is BadValue.
pub fn handle_set_close_down_mode(state: &mut ClientState, data: &[u8]) -> (r: Vec<u8>)
    ensures
        set_close_down_mode_done(*old(state), *final(state), data@, old(state).sequence, r@),
{
    if data.len() < 4 {
        return build_error(BAD_LENGTH, state.sequence, 0, 112, 0);
    }
    let mode = data[1];
    if mode > 2 {
        return build_error(BAD_VALUE, state.sequence, mode as u32, 112, 0);
    }
    state.input.close_down_mode = mode;
    Vec::new()
}

/// GetPointerMapping (opcode 117): the map's length and the map, padded
/// to four bytes.
pub open spec fn pointer_mapping_reply(s: ClientState, seq: u16) -> Seq<u8> {
    let map = s.input.pointer_mapping@;
    reply_packet(map.len() as u8, seq, zeros(24) + map + zeros((round4(map.len()) - map.len()) as nat), s.msb_first)
}

/// What GetPointerMapping answers `req` with, and the client state it leaves.
pub open spec fn get_pointer_mapping_done(pre: ClientState, post: ClientState, _req: Seq<u8>, seq: u16, out: Seq<u8>) -> bool {
    &&& (out == pointer_mapping_reply(pre, seq))
}

/// GetPointerMapping (opcode 117).
pub fn handle_get_pointer_mapping(state: &ClientState, seq: u16) -> (r: Vec<u8>)
    requires
        state.input.pointer_mapping@.len() <= 255,
    ensures
        get_pointer_mapping_done(*state, *state, Seq::<u8>::empty(), seq, r@),
{
    let map = &state.input.pointer_mapping;
    let n = map.len();
    let padded = n + (4 - n % 4) % 4;
    let mut body: Vec<u8> = Vec::new();
    push_zeros(&mut body, 24);
    push_bytes(&mut body, map.as_slice());
    push_zeros(&mut body, padded - n);
    build_reply(n as u8, seq, body.as_slice(), state.msb_first)
}

/// The keycodes per modifier GetModifierMapping reports: the longest
/// modifier's keycode count, at least 2.
pub open spec fn keycodes_per_modifier(map: Seq<Vec<u8>>) -> nat
    decreases map.len(),
{
    if map.len() == 0 {
        2
    } else {
        let rest = keycodes_per_modifier(map.drop_last());
        if map.last()@.len() > rest { map.last()@.len() } else { rest }
    }
}

/// The 8 x `k` keycode table: modifier `i`'s keycodes, zero-filled.
pub open spec fn modifier_table(map: Seq<Vec<u8>>, k: nat) -> Seq<u8> {
    Seq::new(8 * k, |p: int| {
        let i = p / (k as int);
        let j = p % (k as int);
        if i < map.len() && j < map[i]@.len() { map[i]@[j] } else { 0u8 }
    })
}

/// GetModifierMapping (opcode 119).
pub open spec fn modifier_mapping_reply(s: ClientState, seq: u16) -> Seq<u8> {
    let k = keycodes_per_modifier(s.input.modifier_map@);
    reply_packet(k as u8, seq, zeros(24) + modifier_table(s.input.modifier_map@, k), s.msb_first)
}

/// The reported keycodes per modifier is at least 2 and at least each
/// modifier's keycode count.
proof fn lemma_keycodes_per_modifier(map: Seq<Vec<u8>>)
    ensures
        keycodes_per_modifier(map) >= 2,
        forall|i: int| 0 <= i < map.len() ==> map[i]@.len() <= keycodes_per_modifier(map),
        keycodes_per_modifier(map) == 2 || exists|i: int| 0 <= i < map.len() && map[i]@.len() == keycodes_per_modifier(map),
    decreases map.len(),
{
    if map.len() > 0 {
        lemma_keycodes_per_modifier(map.drop_last());
        assert forall|i: int| 0 <= i < map.len() - 1 implies map[i] == map.drop_last()[i] by {}
        if keycodes_per_modifier(map) != 2 {
            if map.last()@.len() > keycodes_per_modifier(map.drop_last()) {
                assert(map[map.len() - 1]@.len() == keycodes_per_modifier(map));
            } else {
                let i = choose|i: int| 0 <= i < map.drop_last().len() && map.drop_last()[i]@.len() == keycodes_per_modifier(map.drop_last());
                assert(map[i] == map.drop_last()[i]);
            }
        }
    }
}

/// What GetModifierMapping answers `req` with, and the client state it leaves.
pub open spec fn get_modifier_mapping_done(pre: ClientState, post: ClientState, _req: Seq<u8>, seq: u16, out: Seq<u8>) -> bool {
    &&& (out == modifier_mapping_reply(pre, seq))
}

/// GetModifierMapping (opcode 119).
pub fn handle_get_modifier_mapping(state: &ClientState, seq: u16) -> (r: Vec<u8>)
    requires
        state.input.modifier_map@.len() <= 8,
        forall|i: int| 0 <= i < state.input.modifier_map@.len() ==> state.input.modifier_map@[i]@.len() <= 255,
    ensures
        get_modifier_mapping_done(*state, *state, Seq::<u8>::empty(), seq, r@),
{
    let map = &state.input.modifier_map;
    proof {
        lemma_keycodes_per_modifier(map@);
    }
    let mut k: usize = 2;
    let mut i: usize = 0;
    while i < map.len()
        invariant
            i <= map@.len() <= 8,
            map == &state.input.modifier_map,
            forall|m: int| 0 <= m < map@.len() ==> map@[m]@.len() <= 255,
            k == keycodes_per_modifier(map@.subrange(0, i as int)),
        decreases map@.len() - i,
    {
        assert(map@.subrange(0, i + 1).drop_last() =~= map@.subrange(0, i as int));
        if map[i].len() > k {
            k = map[i].len();
        }
        i = i + 1;
    }
    assert(map@.subrange(0, map@.len() as int) =~= map@);
    let ghost table = modifier_table(map@, k as nat);
    let mut body: Vec<u8> = Vec::new();
    push_zeros(&mut body, 24);
    let mut p: usize = 0;
    while p < 8 * k
        invariant
            k >= 2,
            k <= 255,
            p <= 8 * k,
            map == &state.input.modifier_map,
            table == modifier_table(map@, k as nat),
            body@ == zeros(24) + table.subrange(0, p as int),
        decreases 8 * k - p,
    {
        let mi = p / k;
        let j = p % k;
        let b: u8 = if mi < map.len() && j < map[mi].len() { map[mi][j] } else { 0 };
        body.push(b);
        p = p + 1;
        assert(body@ =~= zeros(24) + table.subrange(0, p as int));
    }
    assert(table.subrange(0, (8 * k) as int) =~= table);
    build_reply(k as u8, seq, body.as_slice(), state.msb_first)
}


/// A parsed ChangePointerControl request: acceleration numerator and
/// denominator, threshold, do-acceleration, do-threshold.
pub type PointerControlChange = (i16, i16, i16, bool, bool);

/// The ChangePointerControl fields read in one byte order.
pub open spec fn pointer_change_fields(d: Seq<u8>, msb: bool) -> PointerControlChange {
    (field16(d, 4, msb) as i16, field16(d, 6, msb) as i16, field16(d, 8, msb) as i16, d[10] != 0, d[11] != 0)
}

/// Parse ChangePointerControl with
/// `x11rb_protocol::protocol::xproto::ChangePointerControlRequest::try_parse_request`.
/// Claimed: with at least 12 bytes it succeeds exactly when the major
/// opcode is 105, giving the three 16-bit values read in the machine's byte
/// order, one of the two, and the two flags as bytes 10 and 11 not zero.
#[verifier::external_body]
fn parse_change_pointer_control(data: &[u8]) -> (r: Result<PointerControlChange, ParseError>)
    requires
        data@.len() >= 12,
    ensures
        r is Ok <==> data@[0] == 105,
        r matches Ok(c) ==> c == pointer_change_fields(data@, false) || c == pointer_change_fields(data@, true),
{
    let header = RequestHeader { major_opcode: data[0], minor_opcode: data[1], remaining_length: 0 };
    ChangePointerControlRequest::try_parse_request(header, &data[4..]).map(
        |q| (q.acceleration_numerator, q.acceleration_denominator, q.threshold, q.do_acceleration, q.do_threshold),
    )
}

/// The pointer control after a change: with do-acceleration, each positive
/// part of the acceleration replaces the old one; with do-threshold, a
/// non-negative threshold replaces the old one.
pub open spec fn pointer_control_changed(pc: PointerControl, c: PointerControlChange) -> PointerControl {
    PointerControl {
        acceleration_numerator: if c.3 && c.0 > 0 { c.0 as u16 } else { pc.acceleration_numerator },
        acceleration_denominator: if c.3 && c.1 > 0 { c.1 as u16 } else { pc.acceleration_denominator },
        threshold: if c.4 && c.2 >= 0 { c.2 as u16 } else { pc.threshold },
    }
}

/// Apply a parsed ChangePointerControl request.
pub fn change_pointer_control(state: &mut ClientState, c: PointerControlChange)
    ensures
        final(state).input.pointer_control == pointer_control_changed(old(state).input.pointer_control, c),
        final(state).input == (InputState { pointer_control: final(state).input.pointer_control, ..old(state).input }),
        *final(state) == (ClientState { input: final(state).input, ..*old(state) }),
{
    let (num, den, threshold, do_accel, do_threshold) = c;
    if do_accel {
        if num > 0 {
            state.input.pointer_control.acceleration_numerator = num as u16;
        }
        if den > 0 {
            state.input.pointer_control.acceleration_denominator = den as u16;
        }
    }
    if do_threshold && threshold >= 0 {
        state.input.pointer_control.threshold = threshold as u16;
    }
}

/// What ChangePointerControl answers `req` with, and the client state it leaves.
pub open spec fn change_pointer_control_done(pre: ClientState, post: ClientState, req: Seq<u8>, seq: u16, out: Seq<u8>) -> bool {
    &&& (req.len() < 12 || req[0] != 105 ==> out == error_packet(BAD_LENGTH, pre.sequence, 0, 105, 0, false)
            && post == pre)
    &&& (req.len() >= 12 && req[0] == 105 ==> out == Seq::<u8>::empty() && exists|msb: bool|
            {
                let c = #[trigger] pointer_change_fields(req, msb);
                &&& post.input.pointer_control == pointer_control_changed(pre.input.pointer_control, c)
                &&& post.input == (InputState { pointer_control: post.input.pointer_control, ..pre.input })
                &&& post == (ClientState { input: post.input, ..pre })
            })
}

/// ChangePointerControl (opcode 105): BadLength for a request shorter than
/// 12 bytes or one that does not parse; otherwise the change, its values
/// read in the machine's byte order.
pub fn handle_change_pointer_control(state: &mut ClientState, data: &[u8]) -> (r: Vec<u8>)
    ensures
        change_pointer_control_done(*old(state), *final(state), data@, old(state).sequence, r@),
{
    if data.len() < 12 {
        return build_error(BAD_LENGTH, state.sequence, 0, 105, 0);
    }
    match parse_change_pointer_control(data) {
        Ok(c) => {
            let ghost big = c == pointer_change_fields(data@, true);
            change_pointer_control(state, c);
            assert(c == pointer_change_fields(data@, big));
            Vec::new()
        },
        Err(_) => build_error(BAD_LENGTH, state.sequence, 0, 105, 0),
    }
}

/// A parsed SetScreenSaver request: timeout, interval, prefer-blanking,
/// allow-exposures.
pub type ScreenSaverChange = (i16, i16, u8, u8);

/// The SetScreenSaver fields read in one byte order.
pub open spec fn screen_saver_fields(d: Seq<u8>, msb: bool) -> ScreenSaverChange {
    (field16(d, 4, msb) as i16, field16(d, 6, msb) as i16, d[8], d[9])
}

/// Parse SetScreenSaver with
/// `x11rb_protocol::protocol::xproto::SetScreenSaverRequest::try_parse_request`.
/// Claimed: with at least 10 bytes it succeeds exactly when the major
/// opcode is 107, giving timeout and interval read in the machine's byte
/// order, one of the two, and the two mode bytes 8 and 9.
#[verifier::external_body]
fn parse_set_screen_saver(data: &[u8]) -> (r: Result<ScreenSaverChange, ParseError>)
    requires
        data@.len() >= 10,
    ensures
        r is Ok <==> data@[0] == 107,
        r matches Ok(c) ==> c == screen_saver_fields(data@, false) || c == screen_saver_fields(data@, true),
{
    let header = RequestHeader { major_opcode: data[0], minor_opcode: data[1], remaining_length: 0 };
    SetScreenSaverRequest::try_parse_request(header, &data[4..]).map(
        |q| (q.timeout, q.interval, u8::from(q.prefer_blanking), u8::from(q.allow_exposures)),
    )
}

/// The screen-saver settings after SetScreenSaver: a non-negative timeout
/// or interval replaces the old one (-1 keeps it), and so does a blanking
/// or exposure mode up to Default (2).
pub open spec fn screen_saver_changed(ss: ScreenSaver, c: ScreenSaverChange) -> ScreenSaver {
    ScreenSaver {
        timeout: if c.0 >= 0 { c.0 as u16 } else { ss.timeout },
        interval: if c.1 >= 0 { c.1 as u16 } else { ss.interval },
        prefer_blanking: if c.2 <= 2 { c.2 } else { ss.prefer_blanking },
        allow_exposures: if c.3 <= 2 { c.3 } else { ss.allow_exposures },
        ..ss
    }
}

/// Apply a parsed SetScreenSaver request.
pub fn set_screen_saver(state: &mut ClientState, c: ScreenSaverChange)
    ensures
        final(state).input.screen_saver == screen_saver_changed(old(state).input.screen_saver, c),
        final(state).input == (InputState { screen_saver: final(state).input.screen_saver, ..old(state).input }),
        *final(state) == (ClientState { input: final(state).input, ..*old(state) }),
{
    let (timeout, interval, blanking, exposures) = c;
    if timeout >= 0 {
        state.input.screen_saver.timeout = timeout as u16;
    }
    if interval >= 0 {
        state.input.screen_saver.interval = interval as u16;
    }
    if blanking <= 2 {
        state.input.screen_saver.prefer_blanking = blanking;
    }
    if exposures <= 2 {
        state.input.screen_saver.allow_exposures = exposures;
    }
}

/// What SetScreenSaver answers `req` with, and the client state it leaves.
pub open spec fn set_screen_saver_done(pre: ClientState, post: ClientState, req: Seq<u8>, seq: u16, out: Seq<u8>) -> bool {
    &&& (req.len() < 10 || req[0] != 107 ==> out == error_packet(BAD_LENGTH, pre.sequence, 0, 107, 0, false)
            && post == pre)
    &&& (req.len() >= 10 && req[0] == 107 ==> out == Seq::<u8>::empty() && exists|msb: bool|
            {
                let c = #[trigger] screen_saver_fields(req, msb);
                &&& post.input.screen_saver == screen_saver_changed(pre.input.screen_saver, c)
                &&& post.input == (InputState { screen_saver: post.input.screen_saver, ..pre.input })
                &&& post == (ClientState { input: post.input, ..pre })
            })
}

/// SetScreenSaver (opcode 107): BadLength for a request shorter than 10
/// bytes or one that does not parse; otherwise the settings, timeout and
/// interval read in the machine's byte order.
pub fn handle_set_screen_saver(state: &mut ClientState, data: &[u8]) -> (r: Vec<u8>)
    ensures
        set_screen_saver_done(*old(state), *final(state), data@, old(state).sequence, r@),
{
    if data.len() < 10 {
        return build_error(BAD_LENGTH, state.sequence, 0, 107, 0);
    }
    match parse_set_screen_saver(data) {
        Ok(c) => {
            let ghost big = c == screen_saver_fields(data@, true);
            set_screen_saver(state, c);
            assert(c == screen_saver_fields(data@, big));
            Vec::new()
        },
        Err(_) => build_error(BAD_LENGTH, state.sequence, 0, 107, 0),
    }
}

/// After SetInputFocus gives the focus to `focus` with revert-to
/// `revert`, GetInputFocus reports just that.
pub proof fn input_focus_reads_back(s: ClientState, focus: u32, revert: u8, seq: u16)
    ensures
        ({
            let after = ClientState { input: InputState { focus_window: focus, focus_revert_to: revert, ..s.input }, ..s };
            let r = input_focus_reply(after, seq);
            r[1] == revert && r.subrange(8, 12) == bytes32(focus, s.msb_first)
        }),
{
    let after = ClientState { input: InputState { focus_window: focus, focus_revert_to: revert, ..s.input }, ..s };
    let r = input_focus_reply(after, seq);
    assert(r.subrange(8, 12) =~= bytes32(focus, s.msb_first));
}

} // verus!
