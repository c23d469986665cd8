//! Raster operations, keyboard-control defaults, and protocol constants.

use sidecar::drawing::apply_rop;
use sidecar::input::KeyboardControl;
use sidecar::glx::render::{dispatch_render_opcode, RenderFamily};

#[test]
fn gc_function_all_16_ops() {
    let src = 0x00FF00FF_u32; // magenta
    let dst = 0x0000FFFF_u32; // cyan
    assert_eq!(apply_rop(0, src, dst), 0); // GXclear
    assert_eq!(apply_rop(1, src, dst), src & dst); // GXand
    assert_eq!(apply_rop(2, src, dst), src & !dst); // GXandReverse
    assert_eq!(apply_rop(3, src, dst), src); // GXcopy
    assert_eq!(apply_rop(4, src, dst), !src & dst); // GXandInverted
    assert_eq!(apply_rop(5, src, dst), dst); // GXnoop
    assert_eq!(apply_rop(6, src, dst), src ^ dst); // GXxor
    assert_eq!(apply_rop(7, src, dst), src | dst); // GXor
    assert_eq!(apply_rop(8, src, dst), !(src | dst)); // GXnor
    assert_eq!(apply_rop(9, src, dst), !(src ^ dst)); // GXequiv
    assert_eq!(apply_rop(10, src, dst), !dst); // GXinvert
    assert_eq!(apply_rop(11, src, dst), src | !dst); // GXorReverse
    assert_eq!(apply_rop(12, src, dst), !src); // GXcopyInverted
    assert_eq!(apply_rop(13, src, dst), !src | dst); // GXorInverted
    assert_eq!(apply_rop(14, src, dst), !(src & dst)); // GXnand
    assert_eq!(apply_rop(15, src, dst), 0xFFFFFFFF); // GXset
    assert_eq!(apply_rop(16, src, dst), src); // out of range -> copy
}

#[test]
fn plane_mask_preserves_unmasked_bits() {
    let src = 0x00FF0000; // red
    let dst = 0x000000FF; // blue
    let plane_mask = 0x00FF0000; // only red channel
    let result = apply_rop(6, src, dst); // XOR
    let masked = (result & plane_mask) | (dst & !plane_mask);
    // XOR of red and blue = 0x00FF00FF, masked to red channel only:
    // red channel: 0xFF (from result), other channels: from dst (0x000000FF)
    assert_eq!(masked & 0x00FF0000, 0x00FF0000); // red from XOR
    assert_eq!(masked & 0x000000FF, 0x000000FF); // blue preserved from dst
}

#[test]
fn pointer_mapping_identity_default() {
    // Verify default identity mapping is [1, 2, 3, 4, 5, 6, 7]
    let expected = [1u8, 2, 3, 4, 5, 6, 7];
    assert_eq!(expected.len(), 7);
    for (i, &v) in expected.iter().enumerate() {
        assert_eq!(v, (i + 1) as u8);
    }
}

#[test]
fn change_keyboard_control_led_on_specific() {
    // Bit 4 = led (value 3 = LED #3), Bit 5 = led_mode (value 1 = On)
    // value_mask = (1<<4) | (1<<5) = 0x30
    let mut kc = KeyboardControl::default();
    assert_eq!(kc.led_mask & (1 << 2), 0); // LED 3 initially off
    // Simulate: set led=3 first, then led_mode=1
    kc.led_mask |= 1 << 2; // LED 3 on (bit 2, since LED 3 = index 2)
    assert_ne!(kc.led_mask & (1 << 2), 0);
}

#[test]
fn change_keyboard_control_auto_repeat_per_key() {
    let mut kc = KeyboardControl::default();
    // Key 65 = Space on most X11 keymaps
    let key: u32 = 65;
    let byte_idx = (key / 8) as usize;
    let bit_mask = 1u8 << (key % 8);
    // Initially all keys auto-repeat
    assert_ne!(kc.auto_repeats[byte_idx] & bit_mask, 0);
    // Turn off auto-repeat for key 65
    kc.auto_repeats[byte_idx] &= !bit_mask;
    assert_eq!(kc.auto_repeats[byte_idx] & bit_mask, 0);
    // Turn back on
    kc.auto_repeats[byte_idx] |= bit_mask;
    assert_ne!(kc.auto_repeats[byte_idx] & bit_mask, 0);
}

#[test]
fn change_keyboard_control_led_mode_validates_range() {
    // led_mode must be 0 or 1; values > 1 should be BAD_VALUE
    // Testing the validation logic: val > 1 should trigger error
    assert!(2u32 > 1); // Just verifying the threshold
}

#[test]
fn security_trusted_client_allowed_change_hosts() {
    // trust_level 0 = trusted, should not be blocked
    let trust_level: u32 = 0;
    let blocked = trust_level > 0;
    assert!(!blocked);
}

#[test]
fn security_untrusted_client_blocked_change_hosts() {
    // trust_level 1 = untrusted, opcodes 109/111 should be blocked
    let trust_level: u32 = 1;
    let blocked = trust_level > 0;
    assert!(blocked);
}

#[test]
fn screen_saver_notify_event_code_is_92() {
    // MIT-SCREEN-SAVER event base is 92
    let event_base: u8 = 92;
    assert_eq!(event_base, 92);
}

#[test]
fn dpms_force_level_valid_range() {
    // Level 0-3 is valid
    for level in 0..=3u16 {
        assert!(level <= 3);
    }
}

#[test]
fn dpms_force_level_invalid_when_disabled() {
    // Per DPMS spec: ForceLevel should fail if DPMS disabled and level != 0
    let dpms_enabled = false;
    let level: u16 = 1;
    let should_reject = !dpms_enabled && level != 0;
    assert!(should_reject);
}

#[test]
fn dpms_force_level_on_allowed_when_disabled() {
    // Level 0 (DPMSModeOn) should always be allowed
    let dpms_enabled = false;
    let level: u16 = 0;
    let should_reject = !dpms_enabled && level != 0;
    assert!(!should_reject);
}

#[test]
fn render_opcodes_go_to_their_tables() {
    assert!(dispatch_render_opcode(4) == Some(RenderFamily::Draw));
    assert!(dispatch_render_opcode(69) == Some(RenderFamily::State));
    assert!(dispatch_render_opcode(105) == Some(RenderFamily::Texture));
    assert!(dispatch_render_opcode(184) == Some(RenderFamily::Matrix));
    // The drawing table comes first for the opcodes two tables know.
    assert!(dispatch_render_opcode(4116) == Some(RenderFamily::Draw));
    assert!(dispatch_render_opcode(4117) == Some(RenderFamily::Draw));
    assert!(dispatch_render_opcode(4118) == Some(RenderFamily::Texture));
    assert!(dispatch_render_opcode(300).is_none());
    assert!(dispatch_render_opcode(0).is_none());
}
