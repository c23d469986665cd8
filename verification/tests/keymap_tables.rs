//! Keycode, keysym and cursor-glyph tables.

use sidecar::keymap::{
    glyph_to_css_cursor, key_name, keycode_to_keysym, keysyms_for_keycode, legacy_fallback,
    resolve_keysym,
};

const XK_ESCAPE: u32 = 0xff1b;
const XK_RETURN: u32 = 0xff0d;
const XK_SPACE: u32 = 0x0020;
const XK_BACKSPACE: u32 = 0xff08;
const XK_TAB: u32 = 0xff09;
const XK_DELETE: u32 = 0xffff;
const XK_HOME: u32 = 0xff50;
const XK_END: u32 = 0xff57;
const XK_LEFT: u32 = 0xff51;
const XK_RIGHT: u32 = 0xff53;
const XK_UP: u32 = 0xff52;
const XK_DOWN: u32 = 0xff54;
const XK_PAGE_UP: u32 = 0xff55;
const XK_PAGE_DOWN: u32 = 0xff56;
const XK_INSERT: u32 = 0xff63;
const XK_SHIFT_L: u32 = 0xffe1;
const XK_SHIFT_R: u32 = 0xffe2;
const XK_CONTROL_L: u32 = 0xffe3;
const XK_CONTROL_R: u32 = 0xffe4;
const XK_CAPS_LOCK: u32 = 0xffe5;
const XK_ALT_L: u32 = 0xffe9;
const XK_ALT_R: u32 = 0xffea;
const XK_SUPER_L: u32 = 0xffeb;
const XK_SUPER_R: u32 = 0xffec;
const XK_F1: u32 = 0xffbe;

#[test]
fn keycode_escape_9() {
    let (normal, shifted) = keycode_to_keysym(9);
    assert_eq!(normal, XK_ESCAPE);
    assert_eq!(shifted, XK_ESCAPE);
}

#[test]
fn keycode_return_36() {
    let (normal, shifted) = keycode_to_keysym(36);
    assert_eq!(normal, XK_RETURN);
    assert_eq!(shifted, XK_RETURN);
}

#[test]
fn keycode_space_65() {
    let (normal, shifted) = keycode_to_keysym(65);
    assert_eq!(normal, XK_SPACE);
    assert_eq!(shifted, XK_SPACE);
}

#[test]
fn keycode_backspace_22() {
    let (normal, shifted) = keycode_to_keysym(22);
    assert_eq!(normal, XK_BACKSPACE);
    assert_eq!(shifted, XK_BACKSPACE);
}

#[test]
fn keycode_tab_23() {
    let (normal, shifted) = keycode_to_keysym(23);
    assert_eq!(normal, XK_TAB);
    assert_eq!(shifted, XK_TAB);
}

#[test]
fn keycode_delete_119() {
    let (normal, shifted) = keycode_to_keysym(119);
    assert_eq!(normal, XK_DELETE);
    assert_eq!(shifted, XK_DELETE);
}

#[test]
fn keycode_home_110() {
    assert_eq!(keycode_to_keysym(110), (XK_HOME, XK_HOME));
}

#[test]
fn keycode_end_115() {
    assert_eq!(keycode_to_keysym(115), (XK_END, XK_END));
}

#[test]
fn keycode_left_113() {
    assert_eq!(keycode_to_keysym(113), (XK_LEFT, XK_LEFT));
}

#[test]
fn keycode_right_114() {
    assert_eq!(keycode_to_keysym(114), (XK_RIGHT, XK_RIGHT));
}

#[test]
fn keycode_up_111() {
    assert_eq!(keycode_to_keysym(111), (XK_UP, XK_UP));
}

#[test]
fn keycode_down_116() {
    assert_eq!(keycode_to_keysym(116), (XK_DOWN, XK_DOWN));
}

#[test]
fn keycode_page_up_112() {
    assert_eq!(keycode_to_keysym(112), (XK_PAGE_UP, XK_PAGE_UP));
}

#[test]
fn keycode_page_down_117() {
    assert_eq!(keycode_to_keysym(117), (XK_PAGE_DOWN, XK_PAGE_DOWN));
}

#[test]
fn keycode_insert_118() {
    assert_eq!(keycode_to_keysym(118), (XK_INSERT, XK_INSERT));
}

#[test]
fn keycode_shift_l_50() {
    assert_eq!(keycode_to_keysym(50), (XK_SHIFT_L, XK_SHIFT_L));
}

#[test]
fn keycode_shift_r_62() {
    assert_eq!(keycode_to_keysym(62), (XK_SHIFT_R, XK_SHIFT_R));
}

#[test]
fn keycode_control_l_37() {
    assert_eq!(keycode_to_keysym(37), (XK_CONTROL_L, XK_CONTROL_L));
}

#[test]
fn keycode_control_r_105() {
    assert_eq!(keycode_to_keysym(105), (XK_CONTROL_R, XK_CONTROL_R));
}

#[test]
fn keycode_caps_lock_66() {
    assert_eq!(keycode_to_keysym(66), (XK_CAPS_LOCK, XK_CAPS_LOCK));
}

#[test]
fn keycode_alt_l_64() {
    assert_eq!(keycode_to_keysym(64), (XK_ALT_L, XK_ALT_L));
}

#[test]
fn keycode_alt_r_108() {
    assert_eq!(keycode_to_keysym(108), (XK_ALT_R, XK_ALT_R));
}

#[test]
fn keycode_super_l_133() {
    assert_eq!(keycode_to_keysym(133), (XK_SUPER_L, XK_SUPER_L));
}

#[test]
fn keycode_super_r_134() {
    assert_eq!(keycode_to_keysym(134), (XK_SUPER_R, XK_SUPER_R));
}

// -----------------------------------------------------------------------
// Letters a-z (lower row keycodes 38-52, 24-33, 52-61 — US layout)
// -----------------------------------------------------------------------

#[test]
fn keycode_letter_a_38() {
    let (normal, shifted) = keycode_to_keysym(38);
    assert_eq!(normal, 0x61, "a = 0x61");
    assert_eq!(shifted, 0x41, "A = 0x41");
}

#[test]
fn keycode_letter_z_52() {
    let (normal, shifted) = keycode_to_keysym(52);
    assert_eq!(normal, 0x7a, "z = 0x7a");
    assert_eq!(shifted, 0x5a, "Z = 0x5a");
}

#[test]
fn keycode_letter_q_24() {
    let (normal, shifted) = keycode_to_keysym(24);
    assert_eq!(normal, 0x71, "q = 0x71");
    assert_eq!(shifted, 0x51, "Q = 0x51");
}

#[test]
fn keycode_letter_m_58() {
    let (normal, shifted) = keycode_to_keysym(58);
    assert_eq!(normal, 0x6d, "m = 0x6d");
    assert_eq!(shifted, 0x4d, "M = 0x4d");
}

// -----------------------------------------------------------------------
// Digits 0-9 (keycodes 19=0, 10=1, ..., 18=9)
// -----------------------------------------------------------------------

#[test]
fn keycode_digit_1_10() {
    let (normal, shifted) = keycode_to_keysym(10);
    assert_eq!(normal, 0x31, "1 = 0x31");
    assert_eq!(shifted, 0x21, "! = 0x21");
}

#[test]
fn keycode_digit_0_19() {
    let (normal, shifted) = keycode_to_keysym(19);
    assert_eq!(normal, 0x30, "0 = 0x30");
    assert_eq!(shifted, 0x29, ") = 0x29");
}

#[test]
fn keycode_digit_5_14() {
    let (normal, shifted) = keycode_to_keysym(14);
    assert_eq!(normal, 0x35, "5 = 0x35");
    assert_eq!(shifted, 0x25, "% = 0x25");
}

#[test]
fn keycode_digit_9_18() {
    let (normal, shifted) = keycode_to_keysym(18);
    assert_eq!(normal, 0x39, "9 = 0x39");
    assert_eq!(shifted, 0x28, "( = 0x28");
}

// -----------------------------------------------------------------------
// Function keys F1-F12
// -----------------------------------------------------------------------

#[test]
fn keycode_f1_67() {
    assert_eq!(keycode_to_keysym(67), (XK_F1, XK_F1));
}

#[test]
fn keycode_f2_68() {
    assert_eq!(keycode_to_keysym(68), (XK_F1 + 1, XK_F1 + 1));
}

#[test]
fn keycode_f10_76() {
    assert_eq!(keycode_to_keysym(76), (XK_F1 + 9, XK_F1 + 9));
}

#[test]
fn keycode_f11_95() {
    assert_eq!(keycode_to_keysym(95), (XK_F1 + 10, XK_F1 + 10));
}

#[test]
fn keycode_f12_96() {
    assert_eq!(keycode_to_keysym(96), (XK_F1 + 11, XK_F1 + 11));
}

#[test]
fn keycode_f_keys_sequential() {
    // F1-F10 are keycodes 67-76
    for i in 0u32..10 {
        let kc = (67 + i) as u8;
        let (sym, _) = keycode_to_keysym(kc);
        assert_eq!(
            sym,
            XK_F1 + i,
            "F{} keycode {} expected sym 0x{:04x}",
            i + 1,
            kc,
            XK_F1 + i
        );
    }
}

// -----------------------------------------------------------------------
// Unknown keycodes
// -----------------------------------------------------------------------

#[test]
fn keycode_unknown_returns_zero_pair() {
    assert_eq!(keycode_to_keysym(0), (0, 0));
    assert_eq!(keycode_to_keysym(1), (0, 0));
    assert_eq!(keycode_to_keysym(200), (0, 0));
    assert_eq!(keycode_to_keysym(255), (0, 0));
}

// -----------------------------------------------------------------------
// resolve_keysym — custom keymap overrides
// -----------------------------------------------------------------------

#[test]
fn resolve_keysym_uses_custom_keymap() {
    let mut custom = std::collections::HashMap::new();
    // Override keycode 38 ('a') to produce 'x' / 'X'
    custom.insert(38u8, vec![0x78, 0x58]);
    let (normal, shifted) = resolve_keysym(38, &custom);
    assert_eq!(normal, 0x78); // 'x'
    assert_eq!(shifted, 0x58); // 'X'
}

#[test]
fn resolve_keysym_falls_back_to_builtin() {
    let custom = std::collections::HashMap::new();
    // No custom mapping for keycode 38 => built-in 'a'/'A'
    let (normal, shifted) = resolve_keysym(38, &custom);
    assert_eq!(normal, 0x61); // 'a'
    assert_eq!(shifted, 0x41); // 'A'
}

#[test]
fn resolve_keysym_single_sym_duplicates() {
    let mut custom = std::collections::HashMap::new();
    // Single keysym: shifted should equal normal
    custom.insert(10u8, vec![0xff1b]); // Escape
    let (normal, shifted) = resolve_keysym(10, &custom);
    assert_eq!(normal, 0xff1b);
    assert_eq!(shifted, 0xff1b);
}

// -----------------------------------------------------------------------
// glyph_to_css_cursor — standard cursor mappings
// -----------------------------------------------------------------------

#[test]
fn glyph_arrow_2_is_default() {
    assert_eq!(glyph_to_css_cursor(2), "default");
}

#[test]
fn glyph_left_ptr_30_is_default() {
    assert_eq!(glyph_to_css_cursor(30), "default");
}

#[test]
fn glyph_arrow_68_is_default() {
    assert_eq!(glyph_to_css_cursor(68), "default");
}

#[test]
fn glyph_crosshair_24() {
    assert_eq!(glyph_to_css_cursor(24), "crosshair");
}

#[test]
fn glyph_crosshair_34() {
    assert_eq!(glyph_to_css_cursor(34), "crosshair");
}

#[test]
fn glyph_not_allowed_52() {
    assert_eq!(glyph_to_css_cursor(52), "not-allowed");
}

#[test]
fn glyph_pointer_58() {
    assert_eq!(glyph_to_css_cursor(58), "pointer");
}

#[test]
fn glyph_pointer_70() {
    assert_eq!(glyph_to_css_cursor(70), "pointer");
}

#[test]
fn glyph_wait_92() {
    assert_eq!(glyph_to_css_cursor(92), "wait");
}

#[test]
fn glyph_text_130() {
    assert_eq!(glyph_to_css_cursor(130), "text");
}

#[test]
fn glyph_move_132() {
    assert_eq!(glyph_to_css_cursor(132), "move");
}

#[test]
fn glyph_help_138() {
    assert_eq!(glyph_to_css_cursor(138), "help");
}

#[test]
fn glyph_col_resize_116() {
    assert_eq!(glyph_to_css_cursor(116), "col-resize");
}

#[test]
fn glyph_row_resize_120() {
    assert_eq!(glyph_to_css_cursor(120), "row-resize");
}

#[test]
fn glyph_s_resize_12() {
    assert_eq!(glyph_to_css_cursor(12), "s-resize");
}

#[test]
fn glyph_sw_resize_14() {
    assert_eq!(glyph_to_css_cursor(14), "sw-resize");
}

#[test]
fn glyph_se_resize_16() {
    assert_eq!(glyph_to_css_cursor(16), "se-resize");
}

#[test]
fn glyph_n_resize_134() {
    assert_eq!(glyph_to_css_cursor(134), "n-resize");
}

#[test]
fn glyph_nw_resize_136() {
    assert_eq!(glyph_to_css_cursor(136), "nw-resize");
}

#[test]
fn glyph_ne_resize_100() {
    assert_eq!(glyph_to_css_cursor(100), "ne-resize");
}

#[test]
fn glyph_w_resize_108() {
    assert_eq!(glyph_to_css_cursor(108), "w-resize");
}

#[test]
fn glyph_e_resize_96() {
    assert_eq!(glyph_to_css_cursor(96), "e-resize");
}

#[test]
fn glyph_unknown_falls_back_to_default() {
    // These glyphs are not in the match table so they fall through to default
    assert_eq!(glyph_to_css_cursor(0), "default");
    assert_eq!(glyph_to_css_cursor(1), "default");
    assert_eq!(glyph_to_css_cursor(999), "default");
    assert_eq!(glyph_to_css_cursor(u16::MAX), "default");
}

#[test]
fn keymap_answer_is_used_when_in_range() {
    assert_eq!(keysyms_for_keycode(38, true, 0x61, 0x41), (0x61, 0x41));
}

#[test]
fn keymap_level_zero_fills_missing_level_one() {
    assert_eq!(keysyms_for_keycode(9, true, XK_ESCAPE, 0), (XK_ESCAPE, XK_ESCAPE));
}

#[test]
fn keymap_without_symbols_falls_back() {
    assert_eq!(keysyms_for_keycode(36, true, 0, 0), (XK_RETURN, XK_RETURN));
    assert_eq!(keysyms_for_keycode(36, false, 0x61, 0x41), (XK_RETURN, XK_RETURN));
}

#[test]
fn fallback_table_is_reduced() {
    // Keycode 11 ('2') is in the full table but not in the reduced one.
    assert_ne!(keycode_to_keysym(11), (0, 0));
    assert_eq!(legacy_fallback(11), (0, 0));
    assert_eq!(keysyms_for_keycode(11, false, 0, 0), (0, 0));
    assert_eq!(legacy_fallback(65), keycode_to_keysym(65));
}

#[test]
fn key_names_are_padded_or_truncated() {
    assert_eq!(key_name(Some(b"AE01")), *b"AE01");
    assert_eq!(key_name(Some(b"ESC")), *b"ESC ");
    assert_eq!(key_name(Some(b"LONGER")), *b"LONG");
    assert_eq!(key_name(Some(b"")), *b"    ");
    assert_eq!(key_name(None), *b"K   ");
}
