//! Keycode to keysym tables (US layout) and X cursor-font glyph names.

use std::collections::HashMap;
use vstd::prelude::*;

verus! {

broadcast use vstd::std_specs::hash::group_hash_axioms;

/// Keysym of the F1 key; F2..F12 follow it.
pub const XK_F1: u32 = 0xffbe;

/// The built-in US-layout table: keycode to (unshifted, shifted) keysym.
/// Keycodes outside the table map to (0, 0) (NoSymbol).
pub open spec fn us_keysyms(keycode: u8) -> (u32, u32) {
    if 67 <= keycode <= 76 {
        ((XK_F1 + (keycode - 67)) as u32, (XK_F1 + (keycode - 67)) as u32)
    } else {
        match keycode {
            9 => (0xff1b, 0xff1b),
            10 => (0x31, 0x21),
            11 => (0x32, 0x40),
            12 => (0x33, 0x23),
            13 => (0x34, 0x24),
            14 => (0x35, 0x25),
            15 => (0x36, 0x5e),
            16 => (0x37, 0x26),
            17 => (0x38, 0x2a),
            18 => (0x39, 0x28),
            19 => (0x30, 0x29),
            20 => (0x2d, 0x5f),
            21 => (0x3d, 0x2b),
            22 => (0xff08, 0xff08),
            23 => (0xff09, 0xff09),
            24 => (0x71, 0x51),
            25 => (0x77, 0x57),
            26 => (0x65, 0x45),
            27 => (0x72, 0x52),
            28 => (0x74, 0x54),
            29 => (0x79, 0x59),
            30 => (0x75, 0x55),
            31 => (0x69, 0x49),
            32 => (0x6f, 0x4f),
            33 => (0x70, 0x50),
            34 => (0x5b, 0x7b),
            35 => (0x5d, 0x7d),
            36 => (0xff0d, 0xff0d),
            37 => (0xffe3, 0xffe3),
            38 => (0x61, 0x41),
            39 => (0x73, 0x53),
            40 => (0x64, 0x44),
            41 => (0x66, 0x46),
            42 => (0x67, 0x47),
            43 => (0x68, 0x48),
            44 => (0x6a, 0x4a),
            45 => (0x6b, 0x4b),
            46 => (0x6c, 0x4c),
            47 => (0x3b, 0x3a),
            48 => (0x27, 0x22),
            49 => (0x60, 0x7e),
            50 => (0xffe1, 0xffe1),
            51 => (0x5c, 0x7c),
            52 => (0x7a, 0x5a),
            53 => (0x78, 0x58),
            54 => (0x63, 0x43),
            55 => (0x76, 0x56),
            56 => (0x62, 0x42),
            57 => (0x6e, 0x4e),
            58 => (0x6d, 0x4d),
            59 => (0x2c, 0x3c),
            60 => (0x2e, 0x3e),
            61 => (0x2f, 0x3f),
            62 => (0xffe2, 0xffe2),
            64 => (0xffe9, 0xffe9),
            65 => (0x20, 0x20),
            66 => (0xffe5, 0xffe5),
            95 => (0xffc8, 0xffc8),
            96 => (0xffc9, 0xffc9),
            105 => (0xffe4, 0xffe4),
            108 => (0xffea, 0xffea),
            110 => (0xff50, 0xff50),
            111 => (0xff52, 0xff52),
            112 => (0xff55, 0xff55),
            113 => (0xff51, 0xff51),
            114 => (0xff53, 0xff53),
            115 => (0xff57, 0xff57),
            116 => (0xff54, 0xff54),
            117 => (0xff56, 0xff56),
            118 => (0xff63, 0xff63),
            119 => (0xffff, 0xffff),
            133 => (0xffeb, 0xffeb),
            134 => (0xffec, 0xffec),
            _ => (0, 0),
        }
    }
}

/// What Shift makes of a Latin-1 keysym on a US keyboard: the capital of a
/// small letter, the US shifted symbol of a digit or punctuation key, and
/// the keysym itself for every other key (space, function and modifier
/// keys).
pub open spec fn us_shift(sym: u32) -> u32 {
    if 0x61 <= sym <= 0x7a {
        (sym - 0x20) as u32
    } else {
        match sym {
            0x31 => 0x21u32,
            0x32 => 0x40,
            0x33 => 0x23,
            0x34 => 0x24,
            0x35 => 0x25,
            0x36 => 0x5e,
            0x37 => 0x26,
            0x38 => 0x2a,
            0x39 => 0x28,
            0x30 => 0x29,
            0x2d => 0x5f,
            0x3d => 0x2b,
            0x5b => 0x7b,
            0x5d => 0x7d,
            0x3b => 0x3a,
            0x27 => 0x22,
            0x60 => 0x7e,
            0x5c => 0x7c,
            0x2c => 0x3c,
            0x2e => 0x3e,
            0x2f => 0x3f,
            _ => sym,
        }
    }
}

/// A keysym that prints a visible ASCII character.
pub open spec fn visible_ascii(sym: u32) -> bool {
    0x21 <= sym <= 0x7e
}

/// The key of the built-in table that types visible character `sym` with
/// Shift held, if any (0 for none).
pub open spec fn shifted_key(sym: u32) -> u8 {
    match sym {
        0x21 => 10u8,
        0x40 => 11,
        0x23 => 12,
        0x24 => 13,
        0x25 => 14,
        0x5e => 15,
        0x26 => 16,
        0x2a => 17,
        0x28 => 18,
        0x29 => 19,
        0x5f => 20,
        0x2b => 21,
        0x51 => 24,
        0x57 => 25,
        0x45 => 26,
        0x52 => 27,
        0x54 => 28,
        0x59 => 29,
        0x55 => 30,
        0x49 => 31,
        0x4f => 32,
        0x50 => 33,
        0x7b => 34,
        0x7d => 35,
        0x41 => 38,
        0x53 => 39,
        0x44 => 40,
        0x46 => 41,
        0x47 => 42,
        0x48 => 43,
        0x4a => 44,
        0x4b => 45,
        0x4c => 46,
        0x3a => 47,
        0x22 => 48,
        0x7e => 49,
        0x7c => 51,
        0x5a => 52,
        0x58 => 53,
        0x43 => 54,
        0x56 => 55,
        0x42 => 56,
        0x4e => 57,
        0x4d => 58,
        0x3c => 59,
        0x3e => 60,
        0x3f => 61,
        _ => 0,
    }
}

/// Every key of the built-in table types with Shift what Shift makes of
/// its unshifted keysym on a US keyboard (so comma gives less-than, period
/// greater-than, a letter its capital), and keys without a printable
/// symbol keep their keysym under Shift.
#[verifier::rlimit(40)]
pub proof fn us_table_shifts_like_a_us_keyboard(keycode: u8)
    ensures
        us_keysyms(keycode).1 == us_shift(us_keysyms(keycode).0),
{
}

/// No two keys of the built-in table type the same visible character with
/// Shift held: the shifted keysym names its key.
#[verifier::rlimit(40)]
pub proof fn us_table_shifted_symbols_name_their_key(keycode: u8)
    ensures
        visible_ascii(us_keysyms(keycode).1) ==> shifted_key(us_keysyms(keycode).1) == keycode,
{
}

/// Two keys with the same visible shifted character are the same key.
pub proof fn us_table_shifted_symbols_distinct(k1: u8, k2: u8)
    requires
        visible_ascii(us_keysyms(k1).1),
        us_keysyms(k1).1 == us_keysyms(k2).1,
    ensures
        k1 == k2,
{
    us_table_shifted_symbols_name_their_key(k1);
    us_table_shifted_symbols_name_their_key(k2);
}

/// The function keys of the built-in table: keycodes 67 to 76 give F1 to
/// F10 in order, 95 gives F11 and 96 gives F12, the same with Shift held;
/// no other key gives a function-key keysym.
#[verifier::rlimit(40)]
pub proof fn us_table_function_keys(keycode: u8)
    ensures
        67 <= keycode <= 76 ==> us_keysyms(keycode) == ((XK_F1 + keycode - 67) as u32, (XK_F1 + keycode - 67) as u32),
        keycode == 95 ==> us_keysyms(keycode) == ((XK_F1 + 10) as u32, (XK_F1 + 10) as u32),
        keycode == 96 ==> us_keysyms(keycode) == ((XK_F1 + 11) as u32, (XK_F1 + 11) as u32),
        !(67 <= keycode <= 76 || keycode == 95 || keycode == 96) ==> !(XK_F1 <= us_keysyms(keycode).0 < XK_F1 + 12),
{
}

/// Map an X11 keycode to its (unshifted, shifted) keysym in the built-in
/// US keyboard layout.
pub fn keycode_to_keysym(keycode: u8) -> (r: (u32, u32))
    ensures
        r == us_keysyms(keycode),
{
    if 67 <= keycode && keycode <= 76 {
        let sym = XK_F1 + (keycode - 67) as u32;
        return (sym, sym);
    }
    match keycode {
        9 => (0xff1b, 0xff1b),
        10 => (0x31, 0x21),
        11 => (0x32, 0x40),
        12 => (0x33, 0x23),
        13 => (0x34, 0x24),
        14 => (0x35, 0x25),
        15 => (0x36, 0x5e),
        16 => (0x37, 0x26),
        17 => (0x38, 0x2a),
        18 => (0x39, 0x28),
        19 => (0x30, 0x29),
        20 => (0x2d, 0x5f),
        21 => (0x3d, 0x2b),
        22 => (0xff08, 0xff08),
        23 => (0xff09, 0xff09),
        24 => (0x71, 0x51),
        25 => (0x77, 0x57),
        26 => (0x65, 0x45),
        27 => (0x72, 0x52),
        28 => (0x74, 0x54),
        29 => (0x79, 0x59),
        30 => (0x75, 0x55),
        31 => (0x69, 0x49),
        32 => (0x6f, 0x4f),
        33 => (0x70, 0x50),
        34 => (0x5b, 0x7b),
        35 => (0x5d, 0x7d),
        36 => (0xff0d, 0xff0d),
        37 => (0xffe3, 0xffe3),
        38 => (0x61, 0x41),
        39 => (0x73, 0x53),
        40 => (0x64, 0x44),
        41 => (0x66, 0x46),
        42 => (0x67, 0x47),
        43 => (0x68, 0x48),
        44 => (0x6a, 0x4a),
        45 => (0x6b, 0x4b),
        46 => (0x6c, 0x4c),
        47 => (0x3b, 0x3a),
        48 => (0x27, 0x22),
        49 => (0x60, 0x7e),
        50 => (0xffe1, 0xffe1),
        51 => (0x5c, 0x7c),
        52 => (0x7a, 0x5a),
        53 => (0x78, 0x58),
        54 => (0x63, 0x43),
        55 => (0x76, 0x56),
        56 => (0x62, 0x42),
        57 => (0x6e, 0x4e),
        58 => (0x6d, 0x4d),
        59 => (0x2c, 0x3c),
        60 => (0x2e, 0x3e),
        61 => (0x2f, 0x3f),
        62 => (0xffe2, 0xffe2),
        64 => (0xffe9, 0xffe9),
        65 => (0x20, 0x20),
        66 => (0xffe5, 0xffe5),
        95 => (XK_F1 + 10, XK_F1 + 10),
        96 => (XK_F1 + 11, XK_F1 + 11),
        105 => (0xffe4, 0xffe4),
        108 => (0xffea, 0xffea),
        110 => (0xff50, 0xff50),
        111 => (0xff52, 0xff52),
        112 => (0xff55, 0xff55),
        113 => (0xff51, 0xff51),
        114 => (0xff53, 0xff53),
        115 => (0xff57, 0xff57),
        116 => (0xff54, 0xff54),
        117 => (0xff56, 0xff56),
        118 => (0xff63, 0xff63),
        119 => (0xffff, 0xffff),
        133 => (0xffeb, 0xffeb),
        134 => (0xffec, 0xffec),
        _ => (0, 0),
    }
}

/// The keysym pair a custom mapping entry gives: its first keysym (or
/// NoSymbol when the entry is empty), and its second keysym, which defaults
/// to the first when the entry holds only one.
pub open spec fn custom_pair(syms: Seq<u32>) -> (u32, u32) {
    let normal = if syms.len() > 0 { syms[0] } else { 0u32 };
    let shifted = if syms.len() > 1 { syms[1] } else { normal };
    (normal, shifted)
}

/// What a keycode resolves to: the custom keymap entry when there is one,
/// else the built-in US layout.
pub open spec fn resolved_keysyms(keycode: u8, custom: Map<u8, Vec<u32>>) -> (u32, u32) {
    if custom.contains_key(keycode) {
        custom_pair(custom[keycode]@)
    } else {
        us_keysyms(keycode)
    }
}

/// Resolve a keycode to (unshifted, shifted) keysyms, consulting the custom
/// keymap (set by ChangeKeyboardMapping) first and then the built-in table.
pub fn resolve_keysym(keycode: u8, custom_keymap: &HashMap<u8, Vec<u32>>) -> (r: (u32, u32))
    ensures
        r == resolved_keysyms(keycode, custom_keymap@),
{
    match custom_keymap.get(&keycode) {
        Some(syms) => {
            let normal = if syms.len() > 0 { syms[0] } else { 0 };
            let shifted = if syms.len() > 1 { syms[1] } else { normal };
            (normal, shifted)
        },
        None => keycode_to_keysym(keycode),
    }
}

/// Keycodes covered by the reduced fallback table used when no XKB data
/// files are available.
pub open spec fn in_fallback_table(keycode: u8) -> bool {
    ||| 67 <= keycode <= 76
    ||| 110 <= keycode <= 119
    ||| keycode == 9 || keycode == 10 || keycode == 14 || keycode == 18 || keycode == 19
    ||| keycode == 22 || keycode == 23 || keycode == 24 || keycode == 36 || keycode == 37
    ||| keycode == 38 || keycode == 50 || keycode == 52 || keycode == 58 || keycode == 62
    ||| keycode == 64 || keycode == 65 || keycode == 66 || keycode == 95 || keycode == 96
    ||| keycode == 105 || keycode == 108 || keycode == 133 || keycode == 134
}

/// Reduced US-layout table for environments without XKB data: it agrees
/// with the built-in table on the keycodes it covers and gives NoSymbol
/// elsewhere.
pub fn legacy_fallback(keycode: u8) -> (r: (u32, u32))
    ensures
        r == (if in_fallback_table(keycode) { us_keysyms(keycode) } else { (0u32, 0u32) }),
{
    match keycode {
        9 | 10 | 14 | 18 | 19 | 22 | 23 | 24 | 36 | 37 | 38 | 50 | 52 | 58 | 62 | 64 | 65 | 66
        | 67..=76 | 95 | 96 | 105 | 108 | 110..=119 | 133 | 134 => keycode_to_keysym(keycode),
        _ => (0, 0),
    }
}

/// The keysym pair of a keycode given what the default XKB keymap says:
/// whether the keycode lies in the keymap's range, and its first keysym at
/// levels 0 and 1. Outside the range, or with nothing at either level, the
/// fallback table answers; a key with nothing at level 1 gives its level-0
/// keysym for both.
pub open spec fn keymap_keysyms(keycode: u8, in_range: bool, normal: u32, shifted: u32) -> (u32, u32) {
    if in_range && (normal != 0 || shifted != 0) {
        (normal, if shifted == 0 { normal } else { shifted })
    } else if in_fallback_table(keycode) {
        us_keysyms(keycode)
    } else {
        (0, 0)
    }
}

/// Decide a keycode's keysym pair from the default XKB keymap's answer.
pub fn keysyms_for_keycode(keycode: u8, in_range: bool, normal: u32, shifted: u32) -> (r: (u32, u32))
    ensures
        r == keymap_keysyms(keycode, in_range, normal, shifted),
{
    if in_range && (normal != 0 || shifted != 0) {
        (normal, if shifted == 0 { normal } else { shifted })
    } else {
        legacy_fallback(keycode)
    }
}

/// An XKB key name in X11's 4-byte form: its first four bytes padded with
/// spaces, or "K" and three spaces when the key has no name.
pub open spec fn key_name_bytes(name: Option<Seq<u8>>) -> Seq<u8> {
    match name {
        Some(n) => {
            let k = if n.len() < 4 { n.len() } else { 4 };
            n.subrange(0, k as int) + Seq::new((4 - k) as nat, |i: int| 0x20u8)
        },
        None => seq![0x4Bu8, 0x20, 0x20, 0x20],
    }
}

/// Form the 4-byte key name from the name XKB gives, if any.
pub fn key_name(name: Option<&[u8]>) -> (r: [u8; 4])
    ensures
        r@ == key_name_bytes(match name {
            Some(n) => Some(n@),
            None => None,
        }),
{
    match name {
        Some(n) => {
            let mut out = [0x20u8; 4];
            let k = if n.len() < 4 { n.len() } else { 4 };
            let mut i: usize = 0;
            while i < k
                invariant
                    k <= 4,
                    k <= n@.len(),
                    i <= k,
                    forall|j: int| 0 <= j < i ==> out@[j] == n@[j],
                    forall|j: int| i <= j < 4 ==> out@[j] == 0x20u8,
                decreases k - i,
            {
                out[i] = n[i];
                i = i + 1;
            }
            assert(out@ =~= n@.subrange(0, k as int) + Seq::new((4 - k) as nat, |i: int| 0x20u8));
            out
        },
        None => {
            let out = [0x4Bu8, 0x20, 0x20, 0x20];
            assert(out@ =~= seq![0x4Bu8, 0x20, 0x20, 0x20]);
            out
        },
    }
}

/// CSS cursor name for an X cursor-font glyph index.
pub open spec fn css_cursor_name(glyph: u16) -> Seq<char> {
    match glyph {
        2 | 30 | 68 => "default"@,
        24 | 34 => "crosshair"@,
        52 => "not-allowed"@,
        58 | 70 => "pointer"@,
        92 => "wait"@,
        130 => "text"@,
        132 => "move"@,
        138 => "help"@,
        116 => "col-resize"@,
        120 => "row-resize"@,
        12 => "s-resize"@,
        14 => "sw-resize"@,
        16 => "se-resize"@,
        134 => "n-resize"@,
        136 => "nw-resize"@,
        100 => "ne-resize"@,
        108 => "w-resize"@,
        96 => "e-resize"@,
        _ => "default"@,
    }
}

/// Map an X11 cursor-font glyph index to the CSS cursor name shown by the
/// front end; unknown glyphs give "default".
pub fn glyph_to_css_cursor(glyph: u16) -> (r: &'static str)
    ensures
        r@ == css_cursor_name(glyph),
{
    match glyph {
        2 | 30 | 68 => "default",
        24 | 34 => "crosshair",
        52 => "not-allowed",
        58 | 70 => "pointer",
        92 => "wait",
        130 => "text",
        132 => "move",
        138 => "help",
        116 => "col-resize",
        120 => "row-resize",
        12 => "s-resize",
        14 => "sw-resize",
        16 => "se-resize",
        134 => "n-resize",
        136 => "nw-resize",
        100 => "ne-resize",
        108 => "w-resize",
        96 => "e-resize",
        _ => "default",
    }
}

} // verus!
