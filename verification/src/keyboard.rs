//! ChangeKeyboardControl (opcode 102): key click and bell volume, bell
//! pitch and duration, LEDs and auto-repeat. The value list is parsed by
//! x11rb-protocol, which reads it in the machine's own byte order.

use crate::input::{InputState, KeyboardControl};
use crate::state::{ClientState, BAD_LENGTH, BAD_VALUE};
use crate::wire::{build_error, error_packet, field32};
use vstd::prelude::*;
use x11rb_protocol::errors::ParseError;
use x11rb_protocol::protocol::xproto::ChangeKeyboardControlRequest;
use x11rb_protocol::x11_utils::RequestHeader;

verus! {

/// The values a ChangeKeyboardControl request carries, each present when
/// its bit of the value mask is set.
pub struct KeyboardChange {
    pub key_click_percent: Option<i32>,
    pub bell_percent: Option<i32>,
    pub bell_pitch: Option<i32>,
    pub bell_duration: Option<i32>,
    pub led: Option<u32>,
    pub led_mode: Option<u32>,
    pub key: Option<u32>,
    pub auto_repeat_mode: Option<u32>,
}

/// How many of the value-mask bits below `k` are set.
pub open spec fn bits_below(mask: u32, k: nat) -> nat
    decreases k,
{
    if k == 0 {
        0
    } else {
        bits_below(mask, (k - 1) as nat) + if mask & (1u32 << ((k - 1) as u32)) != 0 { 1nat } else { 0nat }
    }
}

/// Value `k` of the list: the word after the mask at the position of bit
/// `k` among the set bits, when that bit is set.
pub open spec fn value_of(d: Seq<u8>, mask: u32, k: nat, msb: bool) -> Option<u32> {
    if mask & (1u32 << (k as u32)) != 0 {
        Some(field32(d, (8 + 4 * bits_below(mask, k)) as int, msb))
    } else {
        None
    }
}

/// A signed value of the list.
pub open spec fn signed(v: Option<u32>) -> Option<i32> {
    match v {
        Some(x) => Some(x as i32),
        None => None,
    }
}

/// The values of a request read in one byte order.
pub open spec fn keyboard_change_fields(d: Seq<u8>, msb: bool) -> KeyboardChange {
    let mask = field32(d, 4, msb);
    KeyboardChange {
        key_click_percent: signed(value_of(d, mask, 0, msb)),
        bell_percent: signed(value_of(d, mask, 1, msb)),
        bell_pitch: signed(value_of(d, mask, 2, msb)),
        bell_duration: signed(value_of(d, mask, 3, msb)),
        led: value_of(d, mask, 4, msb),
        led_mode: value_of(d, mask, 5, msb),
        key: value_of(d, mask, 6, msb),
        auto_repeat_mode: value_of(d, mask, 7, msb),
    }
}

/// The request holds the whole value list its mask asks for.
pub open spec fn values_fit(d: Seq<u8>, msb: bool) -> bool {
    d.len() >= 8 + 4 * bits_below(field32(d, 4, msb), 8)
}

/// Parse ChangeKeyboardControl with
/// `x11rb_protocol::protocol::xproto::ChangeKeyboardControlRequest::try_parse_request`.
/// Claimed: with at least 8 bytes, in the machine's byte order (one of the
/// two), it succeeds exactly when the major opcode is 102 and the value
/// list is complete, and then gives each value whose mask bit is set.
#[verifier::external_body]
fn parse_change_keyboard_control(data: &[u8]) -> (r: Result<KeyboardChange, ParseError>)
    requires
        data@.len() >= 8,
    ensures
        r matches Ok(c) ==> data@[0] == 102 && (c == keyboard_change_fields(data@, false) && values_fit(data@, false) || c
            == keyboard_change_fields(data@, true) && values_fit(data@, true)),
        r is Err ==> data@[0] != 102 || !values_fit(data@, false) || !values_fit(data@, true),
{
    let header = RequestHeader { major_opcode: data[0], minor_opcode: data[1], remaining_length: 0 };
    ChangeKeyboardControlRequest::try_parse_request(header, &data[4..]).map(
        |q| KeyboardChange {
            key_click_percent: q.value_list.key_click_percent,
            bell_percent: q.value_list.bell_percent,
            bell_pitch: q.value_list.bell_pitch,
            bell_duration: q.value_list.bell_duration,
            led: q.value_list.led,
            led_mode: q.value_list.led_mode.map(u32::from),
            key: q.value_list.key,
            auto_repeat_mode: q.value_list.auto_repeat_mode.map(u32::from),
        },
    )
}

/// A volume: the value read unsigned, at most 100.
pub open spec fn percent(old: u8, v: Option<i32>) -> u8 {
    match v {
        Some(x) => if (x as u32) < 100 { (x as u32) as u8 } else { 100 },
        None => old,
    }
}

/// A 16-bit setting: the value's low 16 bits.
pub open spec fn low16(old: u16, v: Option<i32>) -> u16 {
    match v {
        Some(x) => x as u16,
        None => old,
    }
}

/// The value the request is refused for, if any: an LED mode past On (1),
/// an auto-repeat mode past Default (2).
pub open spec fn keyboard_change_error(c: KeyboardChange) -> Option<u32> {
    if c.led_mode matches Some(m) && m > 1 {
        c.led_mode
    } else if c.auto_repeat_mode matches Some(m) && m > 2 {
        c.auto_repeat_mode
    } else {
        None
    }
}

/// The LED mask after an LED mode: one LED (1 to 32) turned on or off, or
/// all of them when no LED is named.
pub open spec fn leds_after(mask: u32, led: Option<u32>, mode: u32) -> u32 {
    match led {
        Some(l) => if 1 <= l <= 32 {
            if mode == 1 { mask | (1u32 << ((l - 1) as u32)) } else { mask & !(1u32 << ((l - 1) as u32)) }
        } else {
            mask
        },
        None => if mode == 1 { 0xFFFF_FFFF } else { 0 },
    }
}

/// The keyboard control after a change, up to where it is refused: the
/// volumes, pitch and duration always change; the LEDs unless the LED mode
/// is refused; auto-repeat unless anything is refused. Auto-repeat of one
/// key (8 to 255) is turned off by mode 0 and on by modes 1 and 2; without
/// a key, the global auto-repeat becomes the mode, at most 1.
pub open spec fn keyboard_changed(before: KeyboardControl, after: KeyboardControl, c: KeyboardChange) -> bool {
    let led_ok = !(c.led_mode matches Some(m) && m > 1);
    let auto_ok = keyboard_change_error(c) is None;
    &&& after.key_click_percent == percent(before.key_click_percent, c.key_click_percent)
    &&& after.bell_percent == percent(before.bell_percent, c.bell_percent)
    &&& after.bell_pitch == low16(before.bell_pitch, c.bell_pitch)
    &&& after.bell_duration == low16(before.bell_duration, c.bell_duration)
    &&& after.led_mask == if led_ok && c.led_mode is Some {
        leds_after(before.led_mask, c.led, c.led_mode->0)
    } else {
        before.led_mask
    }
    &&& if auto_ok && c.auto_repeat_mode is Some {
        let m = c.auto_repeat_mode->0;
        match c.key {
            Some(k) => {
                &&& after.global_auto_repeat == before.global_auto_repeat
                &&& after.auto_repeats@ == if 8 <= k <= 255 {
                    let i = (k / 8) as int;
                    let bit = 1u8 << ((k % 8) as u8);
                    before.auto_repeats@.update(i, if m == 0 { before.auto_repeats@[i] & !bit } else { before.auto_repeats@[i] | bit })
                } else {
                    before.auto_repeats@
                }
            },
            None => {
                &&& after.global_auto_repeat == if m < 1 { m as u8 } else { 1u8 }
                &&& after.auto_repeats@ == before.auto_repeats@
            },
        }
    } else {
        &&& after.global_auto_repeat == before.global_auto_repeat
        &&& after.auto_repeats@ == before.auto_repeats@
    }
}

/// Set the volumes, pitch and duration.
fn set_bell_and_click(kc: &mut KeyboardControl, c: &KeyboardChange)
    ensures
        final(kc).key_click_percent == percent(old(kc).key_click_percent, c.key_click_percent),
        final(kc).bell_percent == percent(old(kc).bell_percent, c.bell_percent),
        final(kc).bell_pitch == low16(old(kc).bell_pitch, c.bell_pitch),
        final(kc).bell_duration == low16(old(kc).bell_duration, c.bell_duration),
        final(kc).led_mask == old(kc).led_mask,
        final(kc).global_auto_repeat == old(kc).global_auto_repeat,
        final(kc).auto_repeats@ == old(kc).auto_repeats@,
{
    match c.key_click_percent {
        Some(v) => {
            kc.key_click_percent = if (v as u32) < 100 { v as u32 as u8 } else { 100 };
        },
        None => {},
    }
    match c.bell_percent {
        Some(v) => {
            kc.bell_percent = if (v as u32) < 100 { v as u32 as u8 } else { 100 };
        },
        None => {},
    }
    match c.bell_pitch {
        Some(v) => {
            kc.bell_pitch = v as u16;
        },
        None => {},
    }
    match c.bell_duration {
        Some(v) => {
            kc.bell_duration = v as u16;
        },
        None => {},
    }
}

/// Set the LEDs for an LED mode of at most 1.
fn set_leds(kc: &mut KeyboardControl, led: Option<u32>, mode: u32)
    requires
        mode <= 1,
    ensures
        final(kc).led_mask == leds_after(old(kc).led_mask, led, mode),
        final(kc).key_click_percent == old(kc).key_click_percent,
        final(kc).bell_percent == old(kc).bell_percent,
        final(kc).bell_pitch == old(kc).bell_pitch,
        final(kc).bell_duration == old(kc).bell_duration,
        final(kc).global_auto_repeat == old(kc).global_auto_repeat,
        final(kc).auto_repeats@ == old(kc).auto_repeats@,
{
    match led {
        Some(l) => {
            if 1 <= l && l <= 32 {
                let bit = 1u32 << (l - 1);
                if mode == 1 {
                    kc.led_mask = kc.led_mask | bit;
                } else {
                    kc.led_mask = kc.led_mask & !bit;
                }
            }
        },
        None => {
            kc.led_mask = if mode == 1 { 0xFFFF_FFFF } else { 0 };
        },
    }
}

/// Set auto-repeat for an auto-repeat mode of at most 2.
fn set_auto_repeat(kc: &mut KeyboardControl, key: Option<u32>, mode: u32)
    requires
        mode <= 2,
    ensures
        final(kc).led_mask == old(kc).led_mask,
        final(kc).key_click_percent == old(kc).key_click_percent,
        final(kc).bell_percent == old(kc).bell_percent,
        final(kc).bell_pitch == old(kc).bell_pitch,
        final(kc).bell_duration == old(kc).bell_duration,
        match key {
            Some(k) => {
                &&& final(kc).global_auto_repeat == old(kc).global_auto_repeat
                &&& final(kc).auto_repeats@ == if 8 <= k <= 255 {
                    let i = (k / 8) as int;
                    let bit = 1u8 << ((k % 8) as u8);
                    old(kc).auto_repeats@.update(i, if mode == 0 { old(kc).auto_repeats@[i] & !bit } else { old(kc).auto_repeats@[i] | bit })
                } else {
                    old(kc).auto_repeats@
                }
            },
            None => {
                &&& final(kc).global_auto_repeat == if mode < 1 { mode as u8 } else { 1u8 }
                &&& final(kc).auto_repeats@ == old(kc).auto_repeats@
            },
        },
{
    match key {
        Some(k) => {
            if 8 <= k && k <= 255 {
                let i = (k / 8) as usize;
                let bit = 1u8 << ((k % 8) as u8);
                let cur = kc.auto_repeats[i];
                let v = if mode == 0 { cur & !bit } else { cur | bit };
                kc.auto_repeats[i] = v;
            }
        },
        None => {
            kc.global_auto_repeat = if mode < 1 { mode as u8 } else { 1 };
        },
    }
}

/// Apply a parsed ChangeKeyboardControl request; a refused mode is
/// answered with BadValue after the settings before it were applied.
pub fn change_keyboard_control(state: &mut ClientState, c: &KeyboardChange) -> (r: Vec<u8>)
    ensures
        match keyboard_change_error(*c) {
            Some(v) => r@ == error_packet(BAD_VALUE, old(state).sequence, v, 102, 0, false),
            None => r@ == Seq::<u8>::empty(),
        },
        keyboard_changed(old(state).input.keyboard_control, final(state).input.keyboard_control, *c),
        final(state).input == (InputState { keyboard_control: final(state).input.keyboard_control, ..old(state).input }),
        *final(state) == (ClientState { input: final(state).input, ..*old(state) }),
{
    let seq = state.sequence;
    set_bell_and_click(&mut state.input.keyboard_control, c);
    match c.led_mode {
        Some(mode) => {
            if mode > 1 {
                return build_error(BAD_VALUE, seq, mode, 102, 0);
            }
            set_leds(&mut state.input.keyboard_control, c.led, mode);
        },
        None => {},
    }
    match c.auto_repeat_mode {
        Some(mode) => {
            if mode > 2 {
                return build_error(BAD_VALUE, seq, mode, 102, 0);
            }
            set_auto_repeat(&mut state.input.keyboard_control, c.key, mode);
        },
        None => {},
    }
    Vec::new()
}

/// What ChangeKeyboardControl answers `req` with, and the client state it leaves.
pub open spec fn change_keyboard_control_done(pre: ClientState, post: ClientState, req: Seq<u8>, seq: u16, out: Seq<u8>) -> bool {
    &&& (req.len() < 8 ==> out == error_packet(BAD_LENGTH, pre.sequence, 0, 102, 0, false) && post
            == pre)
    &&& (req.len() >= 8 ==> exists|msb: bool|
            {
                let c = #[trigger] keyboard_change_fields(req, msb);
                if req[0] == 102 && values_fit(req, msb) {
                    &&& match keyboard_change_error(c) {
                        Some(v) => out == error_packet(BAD_VALUE, pre.sequence, v, 102, 0, false),
                        None => out == Seq::<u8>::empty(),
                    }
                    &&& keyboard_changed(pre.input.keyboard_control, post.input.keyboard_control, c)
                    &&& post.input == (InputState { keyboard_control: post.input.keyboard_control, ..pre.input })
                    &&& post == (ClientState { input: post.input, ..pre })
                } else {
                    out == error_packet(BAD_LENGTH, pre.sequence, 0, 102, 0, false) && post == pre
                }
            })
}

/// ChangeKeyboardControl (opcode 102): BadLength for a request shorter
/// than 8 bytes or one that does not parse; otherwise the change, its
/// mask and values read in the machine's byte order.
pub fn handle_change_keyboard_control(state: &mut ClientState, data: &[u8]) -> (r: Vec<u8>)
    ensures
        change_keyboard_control_done(*old(state), *final(state), data@, old(state).sequence, r@),
{
    if data.len() < 8 {
        return build_error(BAD_LENGTH, state.sequence, 0, 102, 0);
    }
    match parse_change_keyboard_control(data) {
        Ok(c) => {
            let ghost msb = c == keyboard_change_fields(data@, true) && values_fit(data@, true);
            let r = change_keyboard_control(state, &c);
            assert(c == keyboard_change_fields(data@, msb) && values_fit(data@, msb));
            r
        },
        Err(_) => {
            let ghost msb = !values_fit(data@, true);
            assert(!(data@[0] == 102 && values_fit(data@, msb)));
            build_error(BAD_LENGTH, state.sequence, 0, 102, 0)
        },
    }
}

} // verus!
