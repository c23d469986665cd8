//! The font requests (opcodes 45 to 52) over font metrics the connection's
//! font store gives: the QueryFont and ListFontsWithInfo replies with their
//! font properties (some read off the font's XLFD name), the
//! QueryTextExtents arithmetic, the font-name and font-path lists, and the
//! OpenFont / CloseFont checks.

use crate::state::{ClientState, in_id_range, BAD_ID_CHOICE};
use crate::wire::{
    build_error, build_reply, bytes16, bytes32, error_packet, pad4, push_bytes, push_u16, push_u32, push_zeros, reply_packet,
    zeros,
};
use vstd::prelude::*;

verus! {

/// The font error code.
pub const BAD_FONT: u8 = 7;

/// Metrics of one character: left and right side bearings, width, ascent,
/// descent, attributes.
#[derive(Clone, Copy)]
pub struct CharMetrics {
    pub left_side_bearing: i16,
    pub right_side_bearing: i16,
    pub character_width: i16,
    pub ascent: i16,
    pub descent: i16,
    pub attributes: u16,
}

/// What the font requests read of a font: its XLFD name (UTF-8 bytes), the
/// bounds over its characters, its character range and default character,
/// its ascent and descent, and the metrics of its characters from the
/// first on.
pub struct FontMetrics {
    pub name: Vec<u8>,
    pub min_bounds: CharMetrics,
    pub max_bounds: CharMetrics,
    pub min_char: u16,
    pub max_char: u16,
    pub default_char: u16,
    pub font_ascent: i16,
    pub font_descent: i16,
    pub char_infos: Vec<CharMetrics>,
}

/// A CHARINFO on the wire.
pub open spec fn char_bytes(c: CharMetrics, msb: bool) -> Seq<u8> {
    bytes16(c.left_side_bearing as u16, msb) + bytes16(c.right_side_bearing as u16, msb) + bytes16(
        c.character_width as u16,
        msb,
    ) + bytes16(c.ascent as u16, msb) + bytes16(c.descent as u16, msb) + bytes16(c.attributes, msb)
}

/// Append a CHARINFO.
fn push_char(out: &mut Vec<u8>, c: CharMetrics, msb: bool)
    ensures
        final(out)@ == old(out)@ + char_bytes(c, msb),
        final(out)@.len() == old(out)@.len() + 12,
{
    push_u16(out, c.left_side_bearing as u16, msb);
    push_u16(out, c.right_side_bearing as u16, msb);
    push_u16(out, c.character_width as u16, msb);
    push_u16(out, c.ascent as u16, msb);
    push_u16(out, c.descent as u16, msb);
    push_u16(out, c.attributes, msb);
    assert(final(out)@ =~= old(out)@ + char_bytes(c, msb));
}

// ---------------------------------------------------------------------------
// XLFD name fields
// ---------------------------------------------------------------------------

/// The fields of a name split at each '-'.
pub open spec fn split_dash(name: Seq<u8>) -> Seq<Seq<u8>>
    decreases name.len(),
{
    if name.len() == 0 {
        seq![Seq::empty()]
    } else {
        let rest = split_dash(name.drop_last());
        if name.last() == 0x2D {
            rest.push(Seq::empty())
        } else {
            rest.update(rest.len() - 1, rest.last().push(name.last()))
        }
    }
}

/// A split has at least one field.
proof fn lemma_split_dash_len(name: Seq<u8>)
    ensures
        split_dash(name).len() >= 1,
    decreases name.len(),
{
    if name.len() > 0 {
        lemma_split_dash_len(name.drop_last());
    }
}

/// An ASCII letter in lower case.
pub open spec fn lower(b: u8) -> u8 {
    if 0x41 <= b <= 0x5A {
        (b + 32) as u8
    } else {
        b
    }
}

/// A field read without regard to the case of ASCII letters.
pub open spec fn lowered(s: Seq<u8>) -> Seq<u8> {
    s.map_values(|b: u8| lower(b))
}

/// The XLFD weight field's WEIGHT property: 200 for bold and demibold, 5
/// for light, else 10.
pub open spec fn weight_of(field: Seq<u8>) -> i32 {
    let w = lowered(field);
    if w == seq![0x62u8, 0x6F, 0x6C, 0x64] || w == seq![0x64u8, 0x65, 0x6D, 0x69, 0x62, 0x6F, 0x6C, 0x64] {
        200
    } else if w == seq![0x6Cu8, 0x69, 0x67, 0x68, 0x74] {
        5
    } else {
        10
    }
}

/// The XLFD spacing field's SPACING property: 2 for proportional (P),
/// else 1 (monospaced M, cell C, or anything else).
pub open spec fn spacing_of(field: Seq<u8>) -> i32 {
    if field == seq![0x50u8] || field == seq![0x70u8] {
        2
    } else {
        1
    }
}

/// The value of a string of ASCII digits.
pub open spec fn digits_value(s: Seq<u8>) -> int
    decreases s.len(),
{
    if s.len() == 0 {
        0
    } else {
        digits_value(s.drop_last()) * 10 + (s.last() - 0x30)
    }
}

/// A field without its leading '+', if it has one.
pub open spec fn unsigned_part(s: Seq<u8>) -> Seq<u8> {
    if s.len() > 0 && s[0] == 0x2B {
        s.subrange(1, s.len() as int)
    } else {
        s
    }
}

/// Every byte is an ASCII digit.
pub open spec fn all_digits(d: Seq<u8>) -> bool {
    forall|i: int| 0 <= i < d.len() ==> 0x30 <= #[trigger] d[i] <= 0x39
}

/// A field as a decimal number the way Rust reads an `i32`: an optional
/// '+', at least one digit, nothing else, and at most `i32::MAX`.
pub open spec fn parsed_i32(s: Seq<u8>) -> Option<i32> {
    let d = unsigned_part(s);
    if d.len() > 0 && all_digits(d) && digits_value(d) <= i32::MAX {
        Some(digits_value(d) as i32)
    } else {
        None
    }
}

/// Read a field as a decimal number.
fn parse_i32(s: &[u8]) -> (r: Option<i32>)
    ensures
        r == parsed_i32(s@),
{
    let start: usize = if s.len() > 0 && s[0] == 0x2B { 1 } else { 0 };
    let ghost d = unsigned_part(s@);
    assert(d =~= s@.subrange(start as int, s@.len() as int));
    if start >= s.len() {
        return None;
    }
    let mut v: u64 = 0;
    let mut i: usize = start;
    while i < s.len()
        invariant
            start <= i <= s@.len(),
            start < s@.len(),
            d == s@.subrange(start as int, s@.len() as int),
            d == unsigned_part(s@),
            forall|j: int| start <= j < i ==> 0x30 <= #[trigger] s@[j] <= 0x39,
            v == digits_value(s@.subrange(start as int, i as int)),
            v <= i32::MAX,
        decreases s@.len() - i,
    {
        let b = s[i];
        if b < 0x30 || b > 0x39 {
            assert(d[i - start] == b);
            assert(!all_digits(d));
            return None;
        }
        assert(s@.subrange(start as int, i + 1).drop_last() =~= s@.subrange(start as int, i as int));
        assert(s@.subrange(start as int, i + 1).last() == b);
        let next = v * 10 + (b - 0x30) as u64;
        if next > 0x7FFF_FFFF {
            proof {
                let dd = s@.subrange(start as int, s@.len() as int);
                assert(s@.subrange(start as int, i + 1).last() == b);
                if all_digits(dd) {
                    lemma_digits_grow(dd, (i + 1 - start) as nat);
                    assert(dd.subrange(0, i + 1 - start) =~= s@.subrange(start as int, i + 1));
                }
            }
            return None;
        }
        v = next;
        i = i + 1;
    }
    Some(v as i32)
}

/// A longer run of digits is worth at least as much as its beginning.
proof fn lemma_digits_grow(s: Seq<u8>, k: nat)
    requires
        k <= s.len(),
        all_digits(s),
    ensures
        digits_value(s.subrange(0, k as int)) <= digits_value(s),
    decreases s.len() - k,
{
    if k < s.len() {
        lemma_digits_grow(s, k + 1);
        let a = s.subrange(0, k as int + 1);
        assert(a.drop_last() =~= s.subrange(0, k as int));
        lemma_digits_nonneg(s.subrange(0, k as int));
    } else {
        assert(s.subrange(0, k as int) =~= s);
    }
}

/// Digits are worth at least 0.
proof fn lemma_digits_nonneg(s: Seq<u8>)
    requires
        forall|i: int| 0 <= i < s.len() ==> 0x30 <= #[trigger] s[i] <= 0x39,
    ensures
        digits_value(s) >= 0,
    decreases s.len(),
{
    if s.len() > 0 {
        lemma_digits_nonneg(s.drop_last());
    }
}

// ---------------------------------------------------------------------------
// QueryTextExtents
// ---------------------------------------------------------------------------

/// The extents of a string of characters: (overall width, overall left,
/// overall right). The left is the first character's left bearing; the
/// right is the furthest right bearing from each character's origin, or
/// the end of the string if that lies further.
pub open spec fn text_extents(chars: Seq<CharMetrics>) -> (int, int, int)
    decreases chars.len(),
{
    if chars.len() == 0 {
        (0, 0, 0)
    } else {
        let rest = text_extents(chars.drop_last());
        let c = chars.last();
        let pos = rest.0;
        let reach = pos + c.right_side_bearing;
        let left = if chars.len() == 1 { c.left_side_bearing as int } else { rest.1 };
        let right_before = if chars.len() == 1 { reach } else if reach > rest.2 { reach } else { rest.2 };
        (pos + c.character_width, left, right_before)
    }
}

/// The overall right the reply gives: the extents' right, or the string's
/// end if that lies further.
pub open spec fn overall_right(chars: Seq<CharMetrics>) -> int {
    let e = text_extents(chars);
    if e.0 > e.2 {
        e.0
    } else {
        e.2
    }
}

/// A 16-bit value of the reply, as the 32-bit field it is sent in.
pub open spec fn widened(v: int) -> u32 {
    ((v as i16) as i32) as u32
}

/// The QueryTextExtents reply: the font's ascent and descent (12 and 4
/// without a font, and then no extents), twice, then the overall width,
/// left and right.
pub open spec fn text_extents_reply(seq: u16, msb: bool, font: Option<(i16, i16)>, chars: Seq<CharMetrics>) -> Seq<u8> {
    let (ascent, descent, width, left, right) = match font {
        Some(f) => (f.0, f.1, text_extents(chars).0, text_extents(chars).1, overall_right(chars)),
        None => (12i16, 4i16, 0, 0, 0),
    };
    reply_packet(
        0,
        seq,
        bytes16(ascent as u16, msb) + bytes16(descent as u16, msb) + bytes16(ascent as u16, msb) + bytes16(descent as u16, msb)
            + bytes32(widened(width), msb) + bytes32(widened(left), msb) + bytes32(widened(right), msb) + zeros(4),
        msb,
    )
}

/// The extents stay within the characters' 16-bit metrics per character.
proof fn lemma_extents_bound(chars: Seq<CharMetrics>)
    ensures
        -32768 * chars.len() <= text_extents(chars).0 <= 32767 * chars.len(),
        -32768 * (chars.len() + 1) <= text_extents(chars).2 <= 32767 * (chars.len() + 1),
        -32768 <= text_extents(chars).1 <= 32767,
    decreases chars.len(),
{
    if chars.len() > 0 {
        lemma_extents_bound(chars.drop_last());
    }
}

/// QueryTextExtents (opcode 48) for a string whose characters have the
/// given metrics in the font (ascent, descent) the request names, or with
/// no font to be had.
pub fn handle_query_text_extents(state: &ClientState, font: Option<(i16, i16)>, chars: &[CharMetrics]) -> (r: Vec<u8>)
    ensures
        r@ == text_extents_reply(state.sequence, state.msb_first, font, chars@),
{
    let msb = state.msb_first;
    let (ascent, descent) = match font {
        Some(f) => f,
        None => (12i16, 4i16),
    };
    let mut width: i128 = 0;
    let mut left: i128 = 0;
    let mut right: i128 = 0;
    let n = chars.len();
    if font.is_some() {
        let mut i: usize = 0;
        while i < chars.len()
            invariant
                i <= chars@.len(),
                (width as int, left as int, right as int) == text_extents(chars@.subrange(0, i as int)),
                n == chars@.len(),
            decreases chars@.len() - i,
        {
            let ghost pre = chars@.subrange(0, i as int);
            proof {
                lemma_extents_bound(pre);
                assert(chars@.subrange(0, i + 1).drop_last() =~= pre);
            }
            assert(32768 * (i + 2) <= 0x7FFF_FFFF_FFFF_FFFF_FFFF_FFFF_FFFF_FFFF) by (nonlinear_arith)
                requires
                    i < n,
                    n <= 0xFFFF_FFFF_FFFF_FFFF,
            ;
            let c = chars[i];
            let reach = width + c.right_side_bearing as i128;
            if i == 0 {
                left = c.left_side_bearing as i128;
                right = reach;
            } else if reach > right {
                right = reach;
            }
            width = width + c.character_width as i128;
            i = i + 1;
        }
        assert(chars@.subrange(0, chars@.len() as int) =~= chars@);
        if width > right {
            right = width;
        }
    }
    let mut body: Vec<u8> = Vec::new();
    push_u16(&mut body, ascent as u16, msb);
    push_u16(&mut body, descent as u16, msb);
    push_u16(&mut body, ascent as u16, msb);
    push_u16(&mut body, descent as u16, msb);
    push_u32(&mut body, ((width as i16) as i32) as u32, msb);
    push_u32(&mut body, ((left as i16) as i32) as u32, msb);
    push_u32(&mut body, ((right as i16) as i32) as u32, msb);
    push_zeros(&mut body, 4);
    build_reply(0, seq_of(state), body.as_slice(), msb)
}

/// The sequence number of the request being handled.
fn seq_of(state: &ClientState) -> (r: u16)
    ensures
        r == state.sequence,
{
    state.sequence
}

// ---------------------------------------------------------------------------
// QueryFont
// ---------------------------------------------------------------------------

/// `a / b` rounded toward zero, as Rust divides.
pub open spec fn div_trunc(a: int, b: int) -> int {
    if a >= 0 {
        a / b
    } else {
        -((-a) / b)
    }
}

/// WEIGHT, SPACING and AVERAGE_WIDTH from a font's XLFD name, when it has
/// all fifteen fields; else 10, 1 and ten times the widest character.
pub open spec fn xlfd_traits(f: FontMetrics) -> (i32, i32, i32) {
    let parts = split_dash(f.name@);
    let fallback = (f.max_bounds.character_width * 10) as i32;
    if parts.len() >= 15 {
        let avg = match parsed_i32(parts[12]) {
            Some(v) => v,
            None => fallback,
        };
        (weight_of(parts[3]), spacing_of(parts[11]), avg)
    } else {
        (10, 1, fallback)
    }
}

/// The values of the seventeen QueryFont properties: PIXEL_SIZE,
/// POINT_SIZE, RESOLUTION_X, RESOLUTION_Y, WEIGHT, X_HEIGHT, QUAD_WIDTH,
/// CAP_HEIGHT, FONT_ASCENT, FONT_DESCENT, AVERAGE_WIDTH, SPACING,
/// MIN_SPACE, NORM_SPACE, MAX_SPACE, UNDERLINE_POSITION and
/// UNDERLINE_THICKNESS.
pub open spec fn font_property_values(f: FontMetrics) -> Seq<i32> {
    let pixel = f.font_ascent + f.font_descent;
    let cw = f.max_bounds.character_width as int;
    let t = xlfd_traits(f);
    let half_descent = div_trunc(f.font_descent as int, 2);
    seq![
        pixel as i32,
        (pixel * 10) as i32,
        75i32,
        75i32,
        t.0,
        div_trunc(f.font_ascent * 2, 3) as i32,
        cw as i32,
        f.font_ascent as i32,
        f.font_ascent as i32,
        f.font_descent as i32,
        t.2,
        t.1,
        cw as i32,
        cw as i32,
        cw as i32,
        (-(if half_descent > 1 { half_descent } else { 1 })) as i32,
        1i32,
    ]
}

/// The first seven of them, which ListFontsWithInfo reports, with WEIGHT
/// always 10.
pub open spec fn listed_property_values(f: FontMetrics) -> Seq<i32> {
    font_property_values(f).subrange(0, 7).update(4, 10i32)
}

/// FONTPROPs: each atom with its value.
pub open spec fn props_bytes(atoms: Seq<u32>, values: Seq<i32>, msb: bool) -> Seq<u8>
    decreases atoms.len(),
{
    if atoms.len() == 0 {
        Seq::empty()
    } else {
        let k = atoms.len() - 1;
        props_bytes(atoms.drop_last(), values, msb) + bytes32(atoms[k], msb) + bytes32(values[k] as u32, msb)
    }
}

/// The CHARINFOs of a reply with room for `n`: the font's first `n`
/// character metrics, zero-filled if it has fewer.
pub open spec fn char_area(infos: Seq<CharMetrics>, n: nat, msb: bool) -> Seq<u8>
    decreases n,
{
    if n == 0 {
        Seq::empty()
    } else {
        char_area(infos, (n - 1) as nat, msb) + (if n - 1 < infos.len() {
            char_bytes(infos[n - 1], msb)
        } else {
            zeros(12)
        })
    }
}

/// How many characters a font's range holds.
pub open spec fn char_count(f: FontMetrics) -> nat {
    (f.max_char - f.min_char + 1) as nat
}

/// The font's metrics fit the reply: a non-empty character range that
/// does not span all 65536 codes, and an ascent plus descent within 16
/// bits.
pub open spec fn font_fits(f: FontMetrics) -> bool {
    &&& f.min_char <= f.max_char
    &&& f.max_char - f.min_char < 0xFFFF
    &&& i16::MIN <= f.font_ascent + f.font_descent <= i16::MAX
}

/// The QueryFont reply body for a font, its properties named by `atoms`.
pub open spec fn query_font_body(f: FontMetrics, atoms: Seq<u32>, msb: bool) -> Seq<u8> {
    let n = char_count(f);
    let all = if f.char_infos@.len() == n { 1u8 } else { 0u8 };
    char_bytes(f.min_bounds, msb) + zeros(4) + char_bytes(f.max_bounds, msb) + zeros(4) + bytes16(f.min_char, msb)
        + bytes16(f.max_char, msb) + bytes16(f.default_char, msb) + bytes16(atoms.len() as u16, msb) + seq![0u8, 0u8, 0u8, all]
        + bytes16(f.font_ascent as u16, msb) + bytes16(f.font_descent as u16, msb) + bytes32(n as u32, msb) + props_bytes(
        atoms,
        font_property_values(f),
        msb,
    ) + char_area(f.char_infos@, n, msb)
}

/// The metrics of a 6 by 13 fixed cell.
pub open spec fn fixed_cell() -> CharMetrics {
    CharMetrics { left_side_bearing: 0, right_side_bearing: 6, character_width: 6, ascent: 10, descent: 3, attributes: 0 }
}

/// The CHARINFOs of `n` fixed cells.
pub open spec fn fixed_cells(n: nat, msb: bool) -> Seq<u8>
    decreases n,
{
    if n == 0 {
        Seq::empty()
    } else {
        fixed_cells((n - 1) as nat, msb) + char_bytes(fixed_cell(), msb)
    }
}

/// The QueryFont reply body when there is no font to describe: a 6 by 13
/// fixed font of the printable ASCII characters, without properties.
pub open spec fn fallback_font_body(msb: bool) -> Seq<u8> {
    char_bytes(fixed_cell(), msb) + zeros(4) + char_bytes(fixed_cell(), msb) + zeros(4) + bytes16(32, msb) + bytes16(126, msb)
        + bytes16(32, msb) + bytes16(0, msb) + seq![0u8, 0u8, 0u8, 1u8] + bytes16(10, msb) + bytes16(3, msb) + bytes32(95, msb)
        + fixed_cells(95, msb)
}

/// The answer to QueryFont on `fontable`: a font error unless the font
/// store knows it as a font or it names a GC; else the description of the
/// font it leads to, or of the fallback font.
pub open spec fn query_font_answer(s: ClientState, fontable: u32, known_font: bool, font: Option<FontMetrics>, atoms: Seq<u32>) -> Seq<u8> {
    if !known_font && !s.gcs@.contains_key(fontable) {
        error_packet(BAD_FONT, s.sequence, fontable, 47, 0, false)
    } else {
        match font {
            Some(f) => reply_packet(0, s.sequence, query_font_body(f, atoms, s.msb_first), s.msb_first),
            None => reply_packet(0, s.sequence, fallback_font_body(s.msb_first), s.msb_first),
        }
    }
}

/// `a / b` for a positive `b`, rounded toward zero as Rust divides.
fn div_i32(a: i32, b: i32) -> (r: i32)
    requires
        b > 0,
    ensures
        r == div_trunc(a as int, b as int),
{
    if a >= 0 {
        a / b
    } else {
        let m: i64 = -(a as i64);
        (0 - (m / b as i64)) as i32
    }
}

/// WEIGHT, SPACING and AVERAGE_WIDTH from the font's name.
fn compute_xlfd_traits(f: &FontMetrics) -> (r: (i32, i32, i32))
    ensures
        r == xlfd_traits(*f),
{
    let fallback: i32 = f.max_bounds.character_width as i32 * 10;
    let parts = split_name(&f.name);
    if parts.len() < 15 {
        return (10, 1, fallback);
    }
    let weight = field_weight(&parts[3]);
    let spacing = field_spacing(&parts[11]);
    let avg = match parse_i32(parts[12].as_slice()) {
        Some(v) => v,
        None => fallback,
    };
    (weight, spacing, avg)
}

/// The view of a list of fields.
pub open spec fn fields_view(v: Seq<Vec<u8>>) -> Seq<Seq<u8>> {
    v.map_values(|x: Vec<u8>| x@)
}

/// Split a name at each '-'.
fn split_name(name: &Vec<u8>) -> (r: Vec<Vec<u8>>)
    ensures
        fields_view(r@) == split_dash(name@),
        r@.len() == split_dash(name@).len(),
{
    let mut parts: Vec<Vec<u8>> = Vec::new();
    let mut cur: Vec<u8> = Vec::new();
    let mut i: usize = 0;
    while i < name.len()
        invariant
            i <= name@.len(),
            fields_view(parts@).push(cur@) == split_dash(name@.subrange(0, i as int)),
        decreases name@.len() - i,
    {
        let b = name[i];
        let ghost pre = name@.subrange(0, i as int);
        assert(name@.subrange(0, i + 1).drop_last() =~= pre);
        assert(name@.subrange(0, i + 1).last() == b);
        proof {
            lemma_split_dash_len(pre);
        }
        if b == 0x2D {
            let done = cur;
            parts.push(done);
            cur = Vec::new();
            assert(fields_view(parts@).push(cur@) =~= split_dash(pre).push(Seq::empty()));
        } else {
            let ghost before = fields_view(parts@).push(cur@);
            cur.push(b);
            assert(fields_view(parts@).push(cur@) =~= before.update(before.len() - 1, before.last().push(b)));
        }
        i = i + 1;
    }
    assert(name@.subrange(0, name@.len() as int) =~= name@);
    parts.push(cur);
    assert(fields_view(parts@) =~= split_dash(name@));
    parts
}

/// Whether a field equals a word, ignoring the case of ASCII letters in
/// the field (the word is in lower case).
fn equals_lowered(field: &Vec<u8>, word: &[u8]) -> (r: bool)
    ensures
        r == (lowered(field@) == word@),
{
    if field.len() != word.len() {
        assert(lowered(field@).len() != word@.len());
        return false;
    }
    let mut i: usize = 0;
    while i < field.len()
        invariant
            i <= field@.len() == word@.len(),
            forall|j: int| 0 <= j < i ==> lower(#[trigger] field@[j]) == word@[j],
        decreases field@.len() - i,
    {
        let b = field[i];
        let l: u8 = if 0x41 <= b && b <= 0x5A { b + 32 } else { b };
        if l != word[i] {
            assert(lowered(field@)[i as int] != word@[i as int]);
            return false;
        }
        i = i + 1;
    }
    assert(lowered(field@) =~= word@);
    true
}

/// The WEIGHT of an XLFD weight field.
fn field_weight(field: &Vec<u8>) -> (r: i32)
    ensures
        r == weight_of(field@),
{
    let bold: [u8; 4] = [0x62, 0x6F, 0x6C, 0x64];
    let demibold: [u8; 8] = [0x64, 0x65, 0x6D, 0x69, 0x62, 0x6F, 0x6C, 0x64];
    let light: [u8; 5] = [0x6C, 0x69, 0x67, 0x68, 0x74];
    assert(bold@ =~= seq![0x62u8, 0x6F, 0x6C, 0x64]);
    assert(demibold@ =~= seq![0x64u8, 0x65, 0x6D, 0x69, 0x62, 0x6F, 0x6C, 0x64]);
    assert(light@ =~= seq![0x6Cu8, 0x69, 0x67, 0x68, 0x74]);
    if equals_lowered(field, &bold) || equals_lowered(field, &demibold) {
        200
    } else if equals_lowered(field, &light) {
        5
    } else {
        10
    }
}

/// The SPACING of an XLFD spacing field.
fn field_spacing(field: &Vec<u8>) -> (r: i32)
    ensures
        r == spacing_of(field@),
{
    if field.len() == 1 && (field[0] == 0x50 || field[0] == 0x70) {
        assert(field@ =~= seq![field@[0]]);
        2
    } else {
        1
    }
}

/// The values of the seventeen QueryFont properties.
fn compute_property_values(f: &FontMetrics) -> (r: Vec<i32>)
    requires
        font_fits(*f),
    ensures
        r@ == font_property_values(*f),
{
    let pixel: i32 = f.font_ascent as i32 + f.font_descent as i32;
    let cw: i32 = f.max_bounds.character_width as i32;
    let (weight, spacing, avg) = compute_xlfd_traits(f);
    let half = div_i32(f.font_descent as i32, 2);
    let underline = if half > 1 { 0 - half } else { -1 };
    let v: Vec<i32> = vec![
        pixel,
        pixel * 10,
        75,
        75,
        weight,
        div_i32(f.font_ascent as i32 * 2, 3),
        cw,
        f.font_ascent as i32,
        f.font_ascent as i32,
        f.font_descent as i32,
        avg,
        spacing,
        cw,
        cw,
        cw,
        underline,
        1,
    ];
    assert(v@ =~= font_property_values(*f));
    v
}

/// Append FONTPROPs.
fn push_props(out: &mut Vec<u8>, atoms: &[u32], values: &Vec<i32>, msb: bool)
    requires
        atoms@.len() <= values@.len(),
    ensures
        final(out)@ == old(out)@ + props_bytes(atoms@, values@, msb),
        final(out)@.len() == old(out)@.len() + 8 * atoms@.len(),
{
    let mut i: usize = 0;
    while i < atoms.len()
        invariant
            i <= atoms@.len() <= values@.len(),
            out@ == old(out)@ + props_bytes(atoms@.subrange(0, i as int), values@, msb),
            out@.len() == old(out)@.len() + 8 * i,
        decreases atoms@.len() - i,
    {
        assert(atoms@.subrange(0, i + 1).drop_last() =~= atoms@.subrange(0, i as int));
        push_u32(out, atoms[i], msb);
        push_u32(out, values[i] as u32, msb);
        i = i + 1;
    }
    assert(atoms@.subrange(0, atoms@.len() as int) =~= atoms@);
}

/// Append `n` CHARINFOs from the font's character metrics.
fn push_char_area(out: &mut Vec<u8>, infos: &Vec<CharMetrics>, n: usize, msb: bool)
    ensures
        final(out)@ == old(out)@ + char_area(infos@, n as nat, msb),
        final(out)@.len() == old(out)@.len() + 12 * n,
{
    let mut i: usize = 0;
    while i < n
        invariant
            i <= n,
            out@ == old(out)@ + char_area(infos@, i as nat, msb),
            out@.len() == old(out)@.len() + 12 * i,
        decreases n - i,
    {
        if i < infos.len() {
            push_char(out, infos[i], msb);
        } else {
            push_zeros(out, 12);
        }
        i = i + 1;
    }
}

/// Append `n` fixed cells.
fn push_fixed_cells(out: &mut Vec<u8>, n: usize, msb: bool)
    ensures
        final(out)@ == old(out)@ + fixed_cells(n as nat, msb),
        final(out)@.len() == old(out)@.len() + 12 * n,
{
    let cell = CharMetrics { left_side_bearing: 0, right_side_bearing: 6, character_width: 6, ascent: 10, descent: 3, attributes: 0 };
    let mut i: usize = 0;
    while i < n
        invariant
            i <= n,
            cell == fixed_cell(),
            out@ == old(out)@ + fixed_cells(i as nat, msb),
            out@.len() == old(out)@.len() + 12 * i,
        decreases n - i,
    {
        push_char(out, cell, msb);
        i = i + 1;
    }
}

/// QueryFont (opcode 47) on `fontable`: `known_font` says whether the
/// font store has it as a font, `font` is the font it leads to (itself,
/// the GC's font, or the default font), if any, and `atoms` names the
/// seventeen properties.
pub fn handle_query_font(state: &ClientState, fontable: u32, known_font: bool, font: Option<&FontMetrics>, atoms: &[u32]) -> (r: Vec<u8>)
    requires
        atoms@.len() == 17,
        font matches Some(f) ==> font_fits(*f),
    ensures
        r@ == query_font_answer(*state, fontable, known_font, match font {
            Some(f) => Some(*f),
            None => None,
        }, atoms@),
{
    let seq = state.sequence;
    let msb = state.msb_first;
    if !known_font && !state.gcs.contains_key(&fontable) {
        return build_error(BAD_FONT, seq, fontable, 47, 0);
    }
    let cell = CharMetrics { left_side_bearing: 0, right_side_bearing: 6, character_width: 6, ascent: 10, descent: 3, attributes: 0 };
    let mut body: Vec<u8> = Vec::new();
    match font {
        Some(f) => {
            let n: u32 = (f.max_char - f.min_char) as u32 + 1;
            let all: u8 = if f.char_infos.len() == n as usize { 1 } else { 0 };
            let values = compute_property_values(f);
            push_char(&mut body, f.min_bounds, msb);
            push_zeros(&mut body, 4);
            push_char(&mut body, f.max_bounds, msb);
            push_zeros(&mut body, 4);
            push_u16(&mut body, f.min_char, msb);
            push_u16(&mut body, f.max_char, msb);
            push_u16(&mut body, f.default_char, msb);
            push_u16(&mut body, 17, msb);
            let ghost head = body@;
            body.push(0);
            body.push(0);
            body.push(0);
            body.push(all);
            assert(body@ =~= head + seq![0u8, 0u8, 0u8, all]);
            push_u16(&mut body, f.font_ascent as u16, msb);
            push_u16(&mut body, f.font_descent as u16, msb);
            push_u32(&mut body, n, msb);
            push_props(&mut body, atoms, &values, msb);
            push_char_area(&mut body, &f.char_infos, n as usize, msb);
            assert(body@ =~= query_font_body(*f, atoms@, msb));
        },
        None => {
            push_char(&mut body, cell, msb);
            push_zeros(&mut body, 4);
            push_char(&mut body, cell, msb);
            push_zeros(&mut body, 4);
            push_u16(&mut body, 32, msb);
            push_u16(&mut body, 126, msb);
            push_u16(&mut body, 32, msb);
            push_u16(&mut body, 0, msb);
            let ghost head = body@;
            body.push(0);
            body.push(0);
            body.push(0);
            body.push(1);
            assert(body@ =~= head + seq![0u8, 0u8, 0u8, 1u8]);
            push_u16(&mut body, 10, msb);
            push_u16(&mut body, 3, msb);
            push_u32(&mut body, 95, msb);
            push_fixed_cells(&mut body, 95, msb);
            assert(body@ =~= fallback_font_body(msb));
        },
    }
    build_reply(0, seq, body.as_slice(), msb)
}

// ---------------------------------------------------------------------------
// ListFonts, ListFontsWithInfo
// ---------------------------------------------------------------------------

/// A list of STRs: each name's length (cut to a byte) and its bytes.
pub open spec fn str_list(names: Seq<Vec<u8>>) -> Seq<u8>
    decreases names.len(),
{
    if names.len() == 0 {
        Seq::empty()
    } else {
        str_list(names.drop_last()) + seq![names.last()@.len() as u8] + names.last()@
    }
}

/// Zero bytes that pad `n` bytes to a multiple of four.
pub open spec fn padding(n: nat) -> Seq<u8> {
    zeros((pad4(n) - n) as nat)
}

/// Append a list of STRs.
fn push_str_list(out: &mut Vec<u8>, names: &Vec<Vec<u8>>)
    ensures
        final(out)@ == old(out)@ + str_list(names@),
{
    let mut i: usize = 0;
    while i < names.len()
        invariant
            i <= names@.len(),
            out@ == old(out)@ + str_list(names@.subrange(0, i as int)),
        decreases names@.len() - i,
    {
        assert(names@.subrange(0, i + 1).drop_last() =~= names@.subrange(0, i as int));
        let ghost before = out@;
        out.push(names[i].len() as u8);
        push_bytes(out, names[i].as_slice());
        assert(out@ =~= before + seq![names@[i as int]@.len() as u8] + names@[i as int]@);
        i = i + 1;
    }
    assert(names@.subrange(0, names@.len() as int) =~= names@);
}

/// Pad to a multiple of four bytes past `start`.
fn push_padding(out: &mut Vec<u8>, start: usize)
    requires
        start <= old(out)@.len(),
    ensures
        final(out)@ == old(out)@ + padding((old(out)@.len() - start) as nat),
{
    let n = out.len() - start;
    push_zeros(out, (4 - n % 4) % 4);
}

/// The ListFonts reply for the font names that match the request.
pub open spec fn list_fonts_reply(seq: u16, msb: bool, names: Seq<Vec<u8>>) -> Seq<u8> {
    let strs = str_list(names);
    reply_packet(0, seq, bytes16(names.len() as u16, msb) + zeros(22) + strs + padding(strs.len()), msb)
}

/// ListFonts (opcode 49) with the names the font store matched.
pub fn handle_list_fonts(state: &ClientState, names: &Vec<Vec<u8>>) -> (r: Vec<u8>)
    requires
        str_list(names@).len() <= 4 * 0xFFFF_FFFFnat - 4,
    ensures
        r@ == list_fonts_reply(state.sequence, state.msb_first, names@),
{
    let msb = state.msb_first;
    let mut body: Vec<u8> = Vec::new();
    push_u16(&mut body, names.len() as u16, msb);
    push_zeros(&mut body, 22);
    push_str_list(&mut body, names);
    push_padding(&mut body, 24);
    build_reply(0, state.sequence, body.as_slice(), msb)
}

/// A CHARINFO without its attributes.
pub open spec fn char_bytes_bare(c: CharMetrics, msb: bool) -> Seq<u8> {
    char_bytes(CharMetrics { attributes: 0, ..c }, msb)
}

/// A name as ListFontsWithInfo sends it: its first 255 bytes.
pub open spec fn info_name(name: Seq<u8>) -> Seq<u8> {
    if name.len() <= 255 {
        name
    } else {
        name.subrange(0, 255)
    }
}

/// One ListFontsWithInfo reply: the font's bounds, range, default
/// character, ascent and descent with seven properties named by `atoms`
/// when the store has the font, zeros otherwise; the replies still to
/// come; and the name.
pub open spec fn font_info_reply(seq: u16, msb: bool, name: Seq<u8>, font: Option<FontMetrics>, atoms: Seq<u32>, remaining: u32) -> Seq<u8> {
    let nm = info_name(name);
    let (head, props) = match font {
        Some(f) => (
            char_bytes_bare(f.min_bounds, msb) + zeros(4) + char_bytes_bare(f.max_bounds, msb) + zeros(4) + bytes16(
                f.min_char,
                msb,
            ) + bytes16(f.max_char, msb) + bytes16(f.default_char, msb) + bytes16(7, msb) + zeros(4) + bytes16(
                f.font_ascent as u16,
                msb,
            ) + bytes16(f.font_descent as u16, msb),
            props_bytes(atoms, listed_property_values(f), msb),
        ),
        None => (zeros(48), Seq::empty()),
    };
    reply_packet(nm.len() as u8, seq, head + bytes32(remaining, msb) + props + nm + padding(nm.len()), msb)
}

/// The replies for the first `k` names, then (with `k` the count) the
/// closing reply with an empty name.
pub open spec fn font_info_replies(seq: u16, msb: bool, names: Seq<Vec<u8>>, fonts: Seq<Option<FontMetrics>>, atoms: Seq<u32>, k: nat) -> Seq<u8>
    decreases k,
{
    if k == 0 {
        Seq::empty()
    } else {
        font_info_replies(seq, msb, names, fonts, atoms, (k - 1) as nat) + font_info_reply(
            seq,
            msb,
            names[k - 1]@,
            fonts[k - 1],
            atoms,
            (names.len() - k) as u32,
        )
    }
}

/// The whole ListFontsWithInfo answer.
pub open spec fn list_fonts_with_info_answer(seq: u16, msb: bool, names: Seq<Vec<u8>>, fonts: Seq<Option<FontMetrics>>, atoms: Seq<u32>) -> Seq<u8> {
    font_info_replies(seq, msb, names, fonts, atoms, names.len()) + reply_packet(0, seq, zeros(52), msb)
}

/// The seven ListFontsWithInfo property values.
fn compute_listed_values(f: &FontMetrics) -> (r: Vec<i32>)
    requires
        font_fits(*f),
    ensures
        r@ == listed_property_values(*f),
{
    let all = compute_property_values(f);
    let mut v: Vec<i32> = Vec::new();
    let mut i: usize = 0;
    while i < 7
        invariant
            i <= 7,
            all@ == font_property_values(*f),
            v@ == all@.subrange(0, i as int),
        decreases 7 - i,
    {
        v.push(all[i]);
        i = i + 1;
        assert(v@ =~= all@.subrange(0, i as int));
    }
    v.set(4, 10);
    assert(v@ =~= listed_property_values(*f));
    v
}

/// One ListFontsWithInfo reply.
fn font_info(seq: u16, msb: bool, name: &Vec<u8>, font: &Option<FontMetrics>, atoms: &[u32], remaining: u32) -> (r: Vec<u8>)
    requires
        atoms@.len() == 7,
        font matches Some(f) ==> font_fits(*f),
    ensures
        r@ == font_info_reply(seq, msb, name@, *font, atoms@, remaining),
{
    let n: usize = if name.len() <= 255 { name.len() } else { 255 };
    let mut body: Vec<u8> = Vec::new();
    match font {
        Some(f) => {
            let values = compute_listed_values(f);
            let bare_min = CharMetrics { attributes: 0, ..f.min_bounds };
            let bare_max = CharMetrics { attributes: 0, ..f.max_bounds };
            push_char(&mut body, bare_min, msb);
            push_zeros(&mut body, 4);
            push_char(&mut body, bare_max, msb);
            push_zeros(&mut body, 4);
            push_u16(&mut body, f.min_char, msb);
            push_u16(&mut body, f.max_char, msb);
            push_u16(&mut body, f.default_char, msb);
            push_u16(&mut body, 7, msb);
            push_zeros(&mut body, 4);
            push_u16(&mut body, f.font_ascent as u16, msb);
            push_u16(&mut body, f.font_descent as u16, msb);
            push_u32(&mut body, remaining, msb);
            push_props(&mut body, atoms, &values, msb);
        },
        None => {
            push_zeros(&mut body, 48);
            push_u32(&mut body, remaining, msb);
        },
    }
    let ghost before = body@;
    let start = body.len();
    let mut i: usize = 0;
    while i < n
        invariant
            i <= n <= name@.len(),
            n == info_name(name@).len(),
            body@ == before + name@.subrange(0, i as int),
        decreases n - i,
    {
        body.push(name[i]);
        i = i + 1;
        assert(body@ =~= before + name@.subrange(0, i as int));
    }
    assert(name@.subrange(0, n as int) =~= info_name(name@));
    push_padding(&mut body, start);
    proof {
        match font {
            Some(f) => {
                assert(body@ =~= char_bytes_bare(f.min_bounds, msb) + zeros(4) + char_bytes_bare(f.max_bounds, msb) + zeros(4)
                    + bytes16(f.min_char, msb) + bytes16(f.max_char, msb) + bytes16(f.default_char, msb) + bytes16(7, msb)
                    + zeros(4) + bytes16(f.font_ascent as u16, msb) + bytes16(f.font_descent as u16, msb) + bytes32(remaining, msb)
                    + props_bytes(atoms@, listed_property_values(*f), msb) + info_name(name@) + padding(info_name(name@).len()));
            },
            None => {
                assert(body@ =~= zeros(48) + bytes32(remaining, msb) + Seq::<u8>::empty() + info_name(name@) + padding(
                    info_name(name@).len(),
                ));
            },
        }
    }
    build_reply(n as u8, seq, body.as_slice(), msb)
}

/// ListFontsWithInfo (opcode 50) with the names the font store matched and,
/// for each, the font if the store has it; `atoms` names the seven
/// properties. The replies come one per name, then a closing one.
pub fn handle_list_fonts_with_info(
    state: &ClientState,
    names: &Vec<Vec<u8>>,
    fonts: &Vec<Option<FontMetrics>>,
    atoms: &[u32],
) -> (r: Vec<u8>)
    requires
        atoms@.len() == 7,
        fonts@.len() == names@.len() <= u32::MAX,
        forall|i: int| 0 <= i < fonts@.len() ==> (#[trigger] fonts@[i] matches Some(f) ==> font_fits(f)),
    ensures
        r@ == list_fonts_with_info_answer(state.sequence, state.msb_first, names@, fonts@, atoms@),
{
    let seq = state.sequence;
    let msb = state.msb_first;
    let mut out: Vec<u8> = Vec::new();
    let total = names.len();
    let mut i: usize = 0;
    while i < total
        invariant
            i <= total == names@.len() == fonts@.len() <= u32::MAX,
            atoms@.len() == 7,
            forall|j: int| 0 <= j < fonts@.len() ==> (#[trigger] fonts@[j] matches Some(f) ==> font_fits(f)),
            out@ == font_info_replies(seq, msb, names@, fonts@, atoms@, i as nat),
        decreases total - i,
    {
        let remaining = (total - i - 1) as u32;
        let reply = font_info(seq, msb, &names[i], &fonts[i], atoms, remaining);
        let ghost before = out@;
        push_bytes(&mut out, reply.as_slice());
        i = i + 1;
        assert(out@ =~= font_info_replies(seq, msb, names@, fonts@, atoms@, i as nat));
    }
    let mut last: Vec<u8> = Vec::new();
    push_zeros(&mut last, 52);
    let closing = build_reply(0, seq, last.as_slice(), msb);
    push_bytes(&mut out, closing.as_slice());
    out
}

// ---------------------------------------------------------------------------
// GetFontPath, SetFontPath, OpenFont, CloseFont
// ---------------------------------------------------------------------------

/// The path entries GetFontPath can send: those of at most 255 bytes.
pub open spec fn short_entry() -> spec_fn(Vec<u8>) -> bool {
    |p: Vec<u8>| p@.len() <= 255
}

/// The GetFontPath reply: the count of all path entries, then the ones
/// that fit a STR.
pub open spec fn font_path_reply(s: ClientState, seq: u16) -> Seq<u8> {
    let strs = str_list(s.font_path@.filter(short_entry()));
    reply_packet(0, seq, bytes16(s.font_path@.len() as u16, s.msb_first) + zeros(22) + strs + padding(strs.len()), s.msb_first)
}

/// GetFontPath (opcode 52).
pub fn handle_get_font_path(state: &ClientState) -> (r: Vec<u8>)
    requires
        str_list(state.font_path@.filter(short_entry())).len() <= 4 * 0xFFFF_FFFFnat - 4,
    ensures
        r@ == font_path_reply(*state, state.sequence),
{
    let msb = state.msb_first;
    let mut kept: Vec<Vec<u8>> = Vec::new();
    let mut i: usize = 0;
    while i < state.font_path.len()
        invariant
            i <= state.font_path@.len(),
            fields_view(kept@) == fields_view(state.font_path@.subrange(0, i as int).filter(short_entry())),
            kept@.len() == state.font_path@.subrange(0, i as int).filter(short_entry()).len(),
        decreases state.font_path@.len() - i,
    {
        let p = &state.font_path[i];
        let ghost pre = state.font_path@.subrange(0, i as int);
        proof {
            reveal(Seq::filter);
            assert(state.font_path@.subrange(0, i + 1).drop_last() =~= pre);
            assert(state.font_path@.subrange(0, i + 1).last() == *p);
        }
        if p.len() <= 255 {
            let ghost before = fields_view(kept@);
            kept.push(p.clone());
            assert(fields_view(kept@) =~= before.push(p@));
            assert(fields_view(pre.filter(short_entry()).push(*p)) =~= fields_view(pre.filter(short_entry())).push(p@));
        }
        i = i + 1;
    }
    assert(state.font_path@.subrange(0, state.font_path@.len() as int) =~= state.font_path@);
    let mut body: Vec<u8> = Vec::new();
    push_u16(&mut body, state.font_path.len() as u16, msb);
    push_zeros(&mut body, 22);
    proof {
        lemma_str_list_views(kept@, state.font_path@.filter(short_entry()));
    }
    push_str_list(&mut body, &kept);
    push_padding(&mut body, 24);
    build_reply(0, state.sequence, body.as_slice(), msb)
}

/// STR lists depend on the names' bytes only.
proof fn lemma_str_list_views(a: Seq<Vec<u8>>, b: Seq<Vec<u8>>)
    requires
        fields_view(a) == fields_view(b),
    ensures
        str_list(a) == str_list(b),
    decreases a.len(),
{
    assert(a.len() == fields_view(a).len());
    assert(b.len() == fields_view(b).len());
    if a.len() > 0 {
        assert(fields_view(a.drop_last()) =~= fields_view(a).drop_last());
        assert(fields_view(b.drop_last()) =~= fields_view(b).drop_last());
        assert(a.last()@ == fields_view(a)[a.len() - 1]);
        assert(b.last()@ == fields_view(b)[b.len() - 1]);
        lemma_str_list_views(a.drop_last(), b.drop_last());
    }
}

/// Well-formed UTF-8, by the Unicode table of well-formed byte sequences.
pub open spec fn utf8_valid(b: Seq<u8>) -> bool
    decreases b.len(),
{
    if b.len() == 0 {
        true
    } else {
        let n = utf8_char_len(b);
        n > 0 && utf8_valid(b.subrange(n as int, b.len() as int))
    }
}

/// A continuation byte.
pub open spec fn cont(x: u8) -> bool {
    0x80 <= x <= 0xBF
}

/// The length of the well-formed character `b` starts with, or 0.
pub open spec fn utf8_char_len(b: Seq<u8>) -> nat {
    let c = b[0];
    if c <= 0x7F {
        1
    } else if 0xC2 <= c <= 0xDF && b.len() >= 2 && cont(b[1]) {
        2
    } else if c == 0xE0 && b.len() >= 3 && 0xA0 <= b[1] <= 0xBF && cont(b[2]) {
        3
    } else if (0xE1 <= c <= 0xEC || 0xEE <= c <= 0xEF) && b.len() >= 3 && cont(b[1]) && cont(b[2]) {
        3
    } else if c == 0xED && b.len() >= 3 && 0x80 <= b[1] <= 0x9F && cont(b[2]) {
        3
    } else if c == 0xF0 && b.len() >= 4 && 0x90 <= b[1] <= 0xBF && cont(b[2]) && cont(b[3]) {
        4
    } else if 0xF1 <= c <= 0xF3 && b.len() >= 4 && cont(b[1]) && cont(b[2]) && cont(b[3]) {
        4
    } else if c == 0xF4 && b.len() >= 4 && 0x80 <= b[1] <= 0x8F && cont(b[2]) && cont(b[3]) {
        4
    } else {
        0
    }
}

/// The length of the well-formed character at byte `i` of `b`, or 0.
fn utf8_char_len_at(b: &[u8], i: usize) -> (n: usize)
    requires
        i < b@.len(),
    ensures
        n == utf8_char_len(b@.subrange(i as int, b@.len() as int)),
{
    let ghost t = b@.subrange(i as int, b@.len() as int);
    let rest = b.len() - i;
    let c = b[i];
    assert(t[0] == c);
    if c <= 0x7F {
        return 1;
    }
    if rest < 2 {
        return 0;
    }
    let c1 = b[i + 1];
    assert(t[1] == c1);
    if 0xC2 <= c && c <= 0xDF {
        return if 0x80 <= c1 && c1 <= 0xBF { 2 } else { 0 };
    }
    if rest < 3 {
        return 0;
    }
    let c2 = b[i + 2];
    assert(t[2] == c2);
    let c2_cont = 0x80 <= c2 && c2 <= 0xBF;
    if c == 0xE0 {
        return if 0xA0 <= c1 && c1 <= 0xBF && c2_cont { 3 } else { 0 };
    }
    if 0xE1 <= c && c <= 0xEC || 0xEE <= c && c <= 0xEF {
        return if 0x80 <= c1 && c1 <= 0xBF && c2_cont { 3 } else { 0 };
    }
    if c == 0xED {
        return if 0x80 <= c1 && c1 <= 0x9F && c2_cont { 3 } else { 0 };
    }
    if rest < 4 {
        return 0;
    }
    let c3 = b[i + 3];
    assert(t[3] == c3);
    let c3_cont = 0x80 <= c3 && c3 <= 0xBF;
    if c == 0xF0 {
        return if 0x90 <= c1 && c1 <= 0xBF && c2_cont && c3_cont { 4 } else { 0 };
    }
    if 0xF1 <= c && c <= 0xF3 {
        return if 0x80 <= c1 && c1 <= 0xBF && c2_cont && c3_cont { 4 } else { 0 };
    }
    if c == 0xF4 {
        return if 0x80 <= c1 && c1 <= 0x8F && c2_cont && c3_cont { 4 } else { 0 };
    }
    0
}

/// Whether `b` is well-formed UTF-8, as `std::str::from_utf8` accepts it.
fn is_utf8(b: &[u8]) -> (r: bool)
    ensures
        r == utf8_valid(b@),
{
    let mut i: usize = 0;
    assert(b@.subrange(0, b@.len() as int) =~= b@);
    while i < b.len()
        invariant
            i <= b@.len(),
            utf8_valid(b@) == utf8_valid(b@.subrange(i as int, b@.len() as int)),
        decreases b@.len() - i,
    {
        let n = utf8_char_len_at(b, i);
        let ghost t = b@.subrange(i as int, b@.len() as int);
        if n == 0 {
            return false;
        }
        assert(n <= t.len());
        assert(t.subrange(n as int, t.len() as int) =~= b@.subrange(i + n, b@.len() as int));
        i = i + n;
    }
    assert(b@.subrange(i as int, b@.len() as int) =~= Seq::<u8>::empty());
    true
}

/// The entries of a path that are UTF-8.
pub open spec fn utf8_entry() -> spec_fn(Vec<u8>) -> bool {
    |p: Vec<u8>| utf8_valid(p@)
}

/// SetFontPath (opcode 51) with the request's path entries: the font path
/// becomes the entries that are UTF-8, in order. The font store reloads
/// from it.
pub fn handle_set_font_path(state: &mut ClientState, entries: &Vec<Vec<u8>>) -> (r: Vec<u8>)
    ensures
        r@ == Seq::<u8>::empty(),
        fields_view(final(state).font_path@) == fields_view(entries@.filter(utf8_entry())),
        *final(state) == (ClientState { font_path: final(state).font_path, ..*old(state) }),
{
    let mut kept: Vec<Vec<u8>> = Vec::new();
    let mut i: usize = 0;
    while i < entries.len()
        invariant
            i <= entries@.len(),
            fields_view(kept@) == fields_view(entries@.subrange(0, i as int).filter(utf8_entry())),
        decreases entries@.len() - i,
    {
        let e = &entries[i];
        let ghost pre = entries@.subrange(0, i as int);
        proof {
            reveal(Seq::filter);
            assert(entries@.subrange(0, i + 1).drop_last() =~= pre);
            assert(entries@.subrange(0, i + 1).last() == *e);
        }
        if is_utf8(e.as_slice()) {
            let ghost before = fields_view(kept@);
            kept.push(e.clone());
            assert(fields_view(kept@) =~= before.push(e@));
            assert(fields_view(pre.filter(utf8_entry()).push(*e)) =~= fields_view(pre.filter(utf8_entry())).push(e@));
        }
        i = i + 1;
    }
    assert(entries@.subrange(0, entries@.len() as int) =~= entries@);
    state.font_path = kept;
    Vec::new()
}

/// OpenFont (opcode 45) of font id `fid`: the error it is answered with,
/// if any (an id outside the client's range, or one the font store already
/// uses); without one, the font store opens the font.
pub fn handle_open_font(state: &ClientState, fid: u32, in_use: bool) -> (r: Option<Vec<u8>>)
    ensures
        !in_id_range(*state, fid) || in_use ==> (r matches Some(e) && e@ == error_packet(BAD_ID_CHOICE, state.sequence, fid, 45, 0, false)),
        in_id_range(*state, fid) && !in_use ==> r is None,
{
    if !state.validate_resource_id(fid) || in_use {
        Some(build_error(BAD_ID_CHOICE, state.sequence, fid, 45, 0))
    } else {
        None
    }
}

/// CloseFont (opcode 46) of font `fid`, which the font store has or not:
/// a font error for an unknown font, else its id goes back for reuse.
pub fn handle_close_font(state: &mut ClientState, fid: u32, exists: bool) -> (r: Vec<u8>)
    ensures
        !exists ==> r@ == error_packet(BAD_FONT, old(state).sequence, fid, 46, 0, false) && *final(state) == *old(state),
        exists ==> r@ == Seq::<u8>::empty() && final(state).recycled_xids@ == old(state).recycled_xids@.push(fid)
            && *final(state) == (ClientState { recycled_xids: final(state).recycled_xids, ..*old(state) }),
{
    if !exists {
        return build_error(BAD_FONT, state.sequence, fid, 46, 0);
    }
    state.recycle_xid(fid);
    Vec::new()
}

/// Filtering by length keeps lists with the same bytes alike.
proof fn lemma_short_filter_views(a: Seq<Vec<u8>>, b: Seq<Vec<u8>>)
    requires
        fields_view(a) == fields_view(b),
    ensures
        fields_view(a.filter(short_entry())) == fields_view(b.filter(short_entry())),
    decreases a.len(),
{
    reveal(Seq::filter);
    assert(a.len() == fields_view(a).len());
    assert(b.len() == fields_view(b).len());
    if a.len() > 0 {
        assert(fields_view(a.drop_last()) =~= fields_view(a).drop_last());
        assert(fields_view(b.drop_last()) =~= fields_view(b).drop_last());
        assert(a.last()@ == fields_view(a)[a.len() - 1]);
        assert(b.last()@ == fields_view(b)[b.len() - 1]);
        lemma_short_filter_views(a.drop_last(), b.drop_last());
        let fa = a.drop_last().filter(short_entry());
        let fb = b.drop_last().filter(short_entry());
        if a.last()@.len() <= 255 {
            assert(fields_view(fa.push(a.last())) =~= fields_view(fa).push(a.last()@));
            assert(fields_view(fb.push(b.last())) =~= fields_view(fb).push(b.last()@));
        }
    }
}

/// After SetFontPath, GetFontPath counts the UTF-8 entries that were set
/// and lists those of them that fit a STR, in order.
pub proof fn font_path_reads_back(s: ClientState, after: ClientState, entries: Seq<Vec<u8>>, seq: u16)
    requires
        fields_view(after.font_path@) == fields_view(entries.filter(utf8_entry())),
        after.msb_first == s.msb_first,
    ensures
        ({
            let kept = entries.filter(utf8_entry());
            let strs = str_list(kept.filter(short_entry()));
            font_path_reply(after, seq) == reply_packet(
                0,
                seq,
                bytes16(kept.len() as u16, s.msb_first) + zeros(22) + strs + padding(strs.len()),
                s.msb_first,
            )
        }),
{
    let kept = entries.filter(utf8_entry());
    assert(after.font_path@.len() == fields_view(after.font_path@).len());
    assert(kept.len() == fields_view(kept).len());
    lemma_short_filter_views(after.font_path@, kept);
    lemma_str_list_views(after.font_path@.filter(short_entry()), kept.filter(short_entry()));
}

} // verus!
