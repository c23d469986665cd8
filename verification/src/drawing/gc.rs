//! Graphics contexts (CreateGC, ChangeGC, CopyGC, SetDashes,
//! SetClipRectangles, FreeGC).

use crate::drawing::ClipRect;
use crate::state::{in_id_range, ClientState, BAD_DRAWABLE, BAD_GC, BAD_ID_CHOICE, BAD_LENGTH, BAD_VALUE};
use crate::wire::{build_error, error_packet, field16, field32, read_i16, read_u16, read_u32};
use vstd::prelude::*;

verus! {

broadcast use vstd::std_specs::hash::group_hash_axioms;

/// A graphics context.
pub struct GcState {
    pub function: u8,
    pub plane_mask: u32,
    pub foreground: u32,
    pub background: u32,
    pub line_width: u16,
    pub line_style: u8,
    pub cap_style: u8,
    pub join_style: u8,
    pub fill_style: u8,
    pub fill_rule: u8,
    pub tile: u32,
    pub stipple: u32,
    pub ts_x: i16,
    pub ts_y: i16,
    pub font_id: u32,
    pub subwindow_mode: u8,
    pub graphics_exposures: bool,
    pub clip_x: i16,
    pub clip_y: i16,
    pub clip_mask: u32,
    pub dash_offset: u16,
    pub dashes: u8,
    pub arc_mode: u8,
    pub dash_list: Vec<u8>,
    /// Clip rectangles (x, y, width, height) in drawable coordinates.
    pub clip_rects: Vec<ClipRect>,
    /// The set pixels of the clip-mask bitmap as rectangles relative to the
    /// clip origin; None when no bitmap clips.
    pub clip_mask_bitmap: Option<Vec<ClipRect>>,
}

/// The abstract graphics context.
#[verifier::ext_equal]
pub ghost struct GcView {
    pub function: u8,
    pub plane_mask: u32,
    pub foreground: u32,
    pub background: u32,
    pub line_width: u16,
    pub line_style: u8,
    pub cap_style: u8,
    pub join_style: u8,
    pub fill_style: u8,
    pub fill_rule: u8,
    pub tile: u32,
    pub stipple: u32,
    pub ts_x: i16,
    pub ts_y: i16,
    pub font_id: u32,
    pub subwindow_mode: u8,
    pub graphics_exposures: bool,
    pub clip_x: i16,
    pub clip_y: i16,
    pub clip_mask: u32,
    pub dash_offset: u16,
    pub dashes: u8,
    pub arc_mode: u8,
    pub dash_list: Seq<u8>,
    pub clip_rects: Seq<ClipRect>,
    pub clip_mask_bitmap: Option<Seq<ClipRect>>,
}

/// The rectangles of an optional clip-mask bitmap.
pub open spec fn bitmap_view(bm: Option<Vec<ClipRect>>) -> Option<Seq<ClipRect>> {
    match bm {
        Some(b) => Some(b@),
        None => None,
    }
}

impl View for GcState {
    type V = GcView;

    open spec fn view(&self) -> GcView {
        GcView {
            function: self.function,
            plane_mask: self.plane_mask,
            foreground: self.foreground,
            background: self.background,
            line_width: self.line_width,
            line_style: self.line_style,
            cap_style: self.cap_style,
            join_style: self.join_style,
            fill_style: self.fill_style,
            fill_rule: self.fill_rule,
            tile: self.tile,
            stipple: self.stipple,
            ts_x: self.ts_x,
            ts_y: self.ts_y,
            font_id: self.font_id,
            subwindow_mode: self.subwindow_mode,
            graphics_exposures: self.graphics_exposures,
            clip_x: self.clip_x,
            clip_y: self.clip_y,
            clip_mask: self.clip_mask,
            dash_offset: self.dash_offset,
            dashes: self.dashes,
            arc_mode: self.arc_mode,
            dash_list: self.dash_list@,
            clip_rects: self.clip_rects@,
            clip_mask_bitmap: bitmap_view(self.clip_mask_bitmap),
        }
    }
}

/// The protocol's initial GC: GXcopy, all planes, black on white, thin
/// solid butt-capped mitred lines, solid even-odd fill, graphics exposures
/// on, no clipping, dashes of 4, pie-slice arcs.
pub open spec fn default_gc() -> GcView {
    GcView {
        function: 3,
        plane_mask: 0xFFFF_FFFF,
        foreground: 0,
        background: 1,
        line_width: 0,
        line_style: 0,
        cap_style: 1,
        join_style: 0,
        fill_style: 0,
        fill_rule: 0,
        tile: 0,
        stipple: 0,
        ts_x: 0,
        ts_y: 0,
        font_id: 0,
        subwindow_mode: 0,
        graphics_exposures: true,
        clip_x: 0,
        clip_y: 0,
        clip_mask: 0,
        dash_offset: 0,
        dashes: 4,
        arc_mode: 1,
        dash_list: Seq::empty(),
        clip_rects: Seq::empty(),
        clip_mask_bitmap: None,
    }
}

impl Default for GcState {
    /// The protocol's initial GC.
    fn default() -> (g: GcState)
        ensures
            g@ == default_gc(),
    {
        GcState {
            function: 3,
            plane_mask: 0xFFFF_FFFF,
            foreground: 0,
            background: 1,
            line_width: 0,
            line_style: 0,
            cap_style: 1,
            join_style: 0,
            fill_style: 0,
            fill_rule: 0,
            tile: 0,
            stipple: 0,
            ts_x: 0,
            ts_y: 0,
            font_id: 0,
            subwindow_mode: 0,
            graphics_exposures: true,
            clip_x: 0,
            clip_y: 0,
            clip_mask: 0,
            dash_offset: 0,
            dashes: 4,
            arc_mode: 1,
            dash_list: Vec::new(),
            clip_rects: Vec::new(),
            clip_mask_bitmap: None,
        }
    }
}

/// A value the protocol refuses for the GC component of value-mask bit
/// `bit`: function > 15, line-style > 2, cap-style > 3, join-style > 2,
/// fill-style > 3, fill-rule > 1, subwindow-mode > 1, arc-mode > 1.
pub open spec fn gc_value_invalid(bit: u32, val: u32) -> bool {
    ||| bit == 0 && val > 15
    ||| bit == 5 && val > 2
    ||| bit == 6 && val > 3
    ||| bit == 7 && val > 2
    ||| bit == 8 && val > 3
    ||| bit == 9 && val > 1
    ||| bit == 15 && val > 1
    ||| bit == 22 && val > 1
}

/// The GC with the component of value-mask bit `bit` set to `val`.
pub open spec fn set_gc_value(g: GcView, bit: u32, val: u32) -> GcView {
    match bit {
        0 => GcView { function: val as u8, ..g },
        1 => GcView { plane_mask: val, ..g },
        2 => GcView { foreground: val, ..g },
        3 => GcView { background: val, ..g },
        4 => GcView { line_width: val as u16, ..g },
        5 => GcView { line_style: val as u8, ..g },
        6 => GcView { cap_style: val as u8, ..g },
        7 => GcView { join_style: val as u8, ..g },
        8 => GcView { fill_style: val as u8, ..g },
        9 => GcView { fill_rule: val as u8, ..g },
        10 => GcView { tile: val, ..g },
        11 => GcView { stipple: val, ..g },
        12 => GcView { ts_x: val as i16, ..g },
        13 => GcView { ts_y: val as i16, ..g },
        14 => GcView { font_id: val, ..g },
        15 => GcView { subwindow_mode: val as u8, ..g },
        16 => GcView { graphics_exposures: val != 0, ..g },
        17 => GcView { clip_x: val as i16, ..g },
        18 => GcView { clip_y: val as i16, ..g },
        19 => GcView { clip_mask: val, ..g },
        20 => GcView { dash_offset: val as u16, ..g },
        21 => GcView { dashes: val as u8, ..g },
        22 => GcView { arc_mode: val as u8, ..g },
        _ => g,
    }
}

/// Apply a GC value list from value-mask bit `bit` on, with the next value
/// at byte `off` of `values`: each set bit takes the next 4-byte value
/// while one is left; the first refused value stops the list and is
/// reported with its bit, the values before it being applied.
pub open spec fn apply_gc_values(g: GcView, mask: u32, values: Seq<u8>, msb: bool, bit: u32, off: nat) -> (GcView, Option<(u8, u32)>)
    decreases 23 - bit,
{
    if bit >= 23 {
        (g, None)
    } else if mask & (1u32 << bit) != 0 && off + 4 <= values.len() {
        let val = field32(values, off as int, msb);
        if gc_value_invalid(bit, val) {
            (g, Some((bit as u8, val)))
        } else {
            apply_gc_values(set_gc_value(g, bit, val), mask, values, msb, (bit + 1) as u32, off + 4)
        }
    } else {
        apply_gc_values(g, mask, values, msb, (bit + 1) as u32, off)
    }
}

/// Set one GC component.
fn set_gc_component(gc: &mut GcState, bit: u32, val: u32)
    requires
        bit < 23,
    ensures
        final(gc)@ == set_gc_value(old(gc)@, bit, val),
{
    match bit {
        0 => gc.function = val as u8,
        1 => gc.plane_mask = val,
        2 => gc.foreground = val,
        3 => gc.background = val,
        4 => gc.line_width = val as u16,
        5 => gc.line_style = val as u8,
        6 => gc.cap_style = val as u8,
        7 => gc.join_style = val as u8,
        8 => gc.fill_style = val as u8,
        9 => gc.fill_rule = val as u8,
        10 => gc.tile = val,
        11 => gc.stipple = val,
        12 => gc.ts_x = val as i16,
        13 => gc.ts_y = val as i16,
        14 => gc.font_id = val,
        15 => gc.subwindow_mode = val as u8,
        16 => gc.graphics_exposures = val != 0,
        17 => gc.clip_x = val as i16,
        18 => gc.clip_y = val as i16,
        19 => gc.clip_mask = val,
        20 => gc.dash_offset = val as u16,
        21 => gc.dashes = val as u8,
        _ => gc.arc_mode = val as u8,
    }
}

/// Apply a GC value list to `gc`; returns the refused value's bit and value
/// when the protocol refuses one.
pub fn parse_gc_values(gc: &mut GcState, value_mask: u32, data: &[u8], msb_first: bool) -> (r: Option<(u8, u32)>)
    ensures
        (final(gc)@, r) == apply_gc_values(old(gc)@, value_mask, data@, msb_first, 0, 0),
{
    let mut offset: usize = 0;
    let mut bit: u32 = 0;
    while bit < 23
        invariant
            bit <= 23,
            offset <= data@.len(),
            apply_gc_values(old(gc)@, value_mask, data@, msb_first, 0, 0)
                == apply_gc_values(gc@, value_mask, data@, msb_first, bit, offset as nat),
        decreases 23 - bit,
    {
        if value_mask & (1u32 << bit) != 0 && data.len() >= 4 && offset <= data.len() - 4 {
            let val = read_u32(data, offset, msb_first);
            let refused = (bit == 0 && val > 15) || (bit == 5 && val > 2) || (bit == 6 && val > 3)
                || (bit == 7 && val > 2) || (bit == 8 && val > 3) || (bit == 9 && val > 1)
                || (bit == 15 && val > 1) || (bit == 22 && val > 1);
            if refused {
                return Some((bit as u8, val));
            }
            set_gc_component(gc, bit, val);
            offset = offset + 4;
        }
        bit = bit + 1;
    }
    None
}

/// Rectangles moved by (`dx`, `dy`), with 16-bit wrap-around.
pub open spec fn translated(rects: Seq<ClipRect>, dx: i16, dy: i16) -> Seq<ClipRect> {
    rects.map_values(|r: ClipRect| (r.0.wrapping_add(dx), r.1.wrapping_add(dy), r.2, r.3))
}

/// Move rectangles by (`dx`, `dy`).
fn translate_rects(rects: &Vec<ClipRect>, dx: i16, dy: i16) -> (r: Vec<ClipRect>)
    ensures
        r@ == translated(rects@, dx, dy),
{
    let mut out: Vec<ClipRect> = Vec::new();
    let mut i: usize = 0;
    while i < rects.len()
        invariant
            i <= rects@.len(),
            out@ == translated(rects@.subrange(0, i as int), dx, dy),
        decreases rects@.len() - i,
    {
        let (x, y, w, h) = rects[i];
        out.push((x.wrapping_add(dx), y.wrapping_add(dy), w, h));
        i = i + 1;
        assert(out@ =~= translated(rects@.subrange(0, i as int), dx, dy));
    }
    assert(rects@.subrange(0, rects@.len() as int) =~= rects@);
    out
}

/// Setting a clip mask (value-mask bit 19) drops the clip rectangles and
/// any earlier bitmap; the bitmap of a mask pixmap is resolved from its
/// pixels outside this library, which then sets the bitmap and its
/// rectangles.
pub open spec fn with_clip_mask_reset(g: GcView, mask: u32) -> GcView {
    if mask & (1u32 << 19u32) != 0 {
        GcView { clip_rects: Seq::empty(), clip_mask_bitmap: None, ..g }
    } else {
        g
    }
}

/// Drop the clip rectangles and bitmap when the value mask sets a clip
/// mask.
fn reset_clip_mask(gc: &mut GcState, value_mask: u32)
    ensures
        final(gc)@ == with_clip_mask_reset(old(gc)@, value_mask),
{
    if value_mask & (1u32 << 19u32) != 0 {
        gc.clip_rects = Vec::new();
        gc.clip_mask_bitmap = None;
    }
}

/// CreateGC (opcode 55): the error for a request, if any.
pub open spec fn create_gc_error(s: ClientState, d: Seq<u8>) -> Option<Seq<u8>> {
    let seq = s.sequence;
    let msb = s.msb_first;
    if d.len() < 16 {
        Some(error_packet(BAD_LENGTH, seq, 0, 55, 0, false))
    } else if !in_id_range(s, field32(d, 4, msb)) {
        Some(error_packet(BAD_ID_CHOICE, seq, field32(d, 4, msb), 55, 0, false))
    } else if !s.windows@.contains_key(field32(d, 8, msb)) && !s.pixmaps@.contains_key(field32(d, 8, msb)) {
        Some(error_packet(BAD_DRAWABLE, seq, field32(d, 8, msb), 55, 0, false))
    } else if s.gcs@.contains_key(field32(d, 4, msb)) {
        Some(error_packet(BAD_ID_CHOICE, seq, field32(d, 4, msb), 55, 0, false))
    } else {
        match apply_gc_values(default_gc(), field32(d, 12, msb), d.subrange(16, d.len() as int), msb, 0, 0).1 {
            Some((_, bad)) => Some(error_packet(BAD_VALUE, seq, bad, 55, 0, false)),
            None => None,
        }
    }
}

/// The GC CreateGC makes: the initial GC with the value list applied.
pub open spec fn created_gc(s: ClientState, d: Seq<u8>) -> GcView {
    let mask = field32(d, 12, s.msb_first);
    with_clip_mask_reset(apply_gc_values(default_gc(), mask, d.subrange(16, d.len() as int), s.msb_first, 0, 0).0, mask)
}

/// Copy a byte slice from `start` to the end.
fn tail_bytes(data: &[u8], start: usize) -> (r: Vec<u8>)
    requires
        start <= data@.len(),
    ensures
        r@ == data@.subrange(start as int, data@.len() as int),
{
    let mut out: Vec<u8> = Vec::new();
    let mut i: usize = start;
    while i < data.len()
        invariant
            start <= i <= data@.len(),
            out@ == data@.subrange(start as int, i as int),
        decreases data@.len() - i,
    {
        out.push(data[i]);
        i = i + 1;
        assert(out@ =~= data@.subrange(start as int, i as int));
    }
    out
}

/// What CreateGC answers `req` with, and the client state it leaves.
pub open spec fn create_gc_done(pre: ClientState, post: ClientState, req: Seq<u8>, seq: u16, out: Seq<u8>) -> bool {
    &&& (match create_gc_error(pre, req) {
            Some(e) => out == e && post == pre,
            None => {
                &&& out == Seq::<u8>::empty()
                &&& post.gcs@.dom() == pre.gcs@.dom().insert(field32(req, 4, pre.msb_first))
                &&& forall|id: u32| #[trigger] post.gcs@.contains_key(id) ==> post.gcs@[id]@ == (
                    if id == field32(req, 4, pre.msb_first) { created_gc(pre, req) } else { pre.gcs@[id]@ })
                &&& post == (ClientState { gcs: post.gcs, ..pre })
            },
        })
}

/// CreateGC (opcode 55).
pub fn handle_create_gc(state: &mut ClientState, data: &[u8]) -> (r: Vec<u8>)
    ensures
        create_gc_done(*old(state), *final(state), data@, old(state).sequence, r@),
{
    let seq = state.sequence;
    if data.len() < 16 {
        return build_error(BAD_LENGTH, seq, 0, 55, 0);
    }
    let msb = state.msb_first;
    let gc_id = read_u32(data, 4, msb);
    if !state.validate_resource_id(gc_id) {
        return build_error(BAD_ID_CHOICE, seq, gc_id, 55, 0);
    }
    let drawable = read_u32(data, 8, msb);
    let value_mask = read_u32(data, 12, msb);
    if !state.windows.contains_key(&drawable) && !state.pixmaps.contains_key(&drawable) {
        return build_error(BAD_DRAWABLE, seq, drawable, 55, 0);
    }
    if state.gcs.contains_key(&gc_id) {
        return build_error(BAD_ID_CHOICE, seq, gc_id, 55, 0);
    }
    let mut gc = GcState::default();
    let values = tail_bytes(data, 16);
    match parse_gc_values(&mut gc, value_mask, values.as_slice(), msb) {
        Some((_, bad_value)) => {
            return build_error(BAD_VALUE, seq, bad_value, 55, 0);
        },
        None => {},
    }
    reset_clip_mask(&mut gc, value_mask);
    state.gcs.insert(gc_id, gc);
    Vec::new()
}

/// After ChangeGC sets the clip origin (bits 17, 18) without a new clip
/// mask, the rectangles of the current bitmap follow the new origin.
pub open spec fn with_clip_origin(g: GcView, mask: u32) -> GcView {
    if mask & ((1u32 << 17u32) | (1u32 << 18u32)) != 0 && mask & (1u32 << 19u32) == 0 {
        match g.clip_mask_bitmap {
            Some(bm) => GcView { clip_rects: translated(bm, g.clip_x, g.clip_y), ..g },
            None => g,
        }
    } else {
        g
    }
}

/// The GC after a ChangeGC value list, and the refused value if any (the
/// values before it stay applied).
pub open spec fn changed_gc(g: GcView, mask: u32, values: Seq<u8>, msb: bool) -> (GcView, Option<(u8, u32)>) {
    let (g1, refused) = apply_gc_values(g, mask, values, msb, 0, 0);
    match refused {
        Some(e) => (g1, Some(e)),
        None => (with_clip_origin(with_clip_mask_reset(g1, mask), mask), None),
    }
}

/// Make the clip rectangles follow a new clip origin.
fn follow_clip_origin(gc: &mut GcState, value_mask: u32)
    ensures
        final(gc)@ == with_clip_origin(old(gc)@, value_mask),
{
    if value_mask & ((1u32 << 17u32) | (1u32 << 18u32)) != 0 && value_mask & (1u32 << 19u32) == 0 {
        let rects = match &gc.clip_mask_bitmap {
            Some(bm) => Some(translate_rects(bm, gc.clip_x, gc.clip_y)),
            None => None,
        };
        match rects {
            Some(r) => {
                gc.clip_rects = r;
            },
            None => {},
        }
    }
}

/// `after` is `before` with GC `id` now `g` (and nothing else changed).
pub open spec fn gc_updated(before: ClientState, after: ClientState, id: u32, g: GcView) -> bool {
    &&& after.gcs@.dom() == before.gcs@.dom().insert(id)
    &&& after.gcs@[id]@ == g
    &&& forall|k: u32| k != id && #[trigger] after.gcs@.contains_key(k) ==> after.gcs@[k] == before.gcs@[k]
    &&& after == (ClientState { gcs: after.gcs, ..before })
}

/// What ChangeGC answers `req` with, and the client state it leaves.
pub open spec fn change_gc_done(pre: ClientState, post: ClientState, req: Seq<u8>, seq: u16, out: Seq<u8>) -> bool {
    &&& (({
            let s = pre;
            let d = req;
            let id = field32(d, 4, s.msb_first);
            if d.len() < 12 {
                out == error_packet(BAD_LENGTH, s.sequence, 0, 56, 0, false) && post == s
            } else if !s.gcs@.contains_key(id) {
                out == error_packet(BAD_GC, s.sequence, id, 56, 0, false) && post == s
            } else {
                let (g, refused) = changed_gc(s.gcs@[id]@, field32(d, 8, s.msb_first), d.subrange(12, d.len() as int), s.msb_first);
                &&& gc_updated(s, post, id, g)
                &&& out == match refused {
                    Some((_, bad)) => error_packet(BAD_VALUE, s.sequence, bad, 56, 0, false),
                    None => Seq::<u8>::empty(),
                }
            }
        }))
}

/// ChangeGC (opcode 56).
pub fn handle_change_gc(state: &mut ClientState, data: &[u8]) -> (r: Vec<u8>)
    ensures
        change_gc_done(*old(state), *final(state), data@, old(state).sequence, r@),
{
    let seq = state.sequence;
    if data.len() < 12 {
        return build_error(BAD_LENGTH, seq, 0, 56, 0);
    }
    let msb = state.msb_first;
    let gc_id = read_u32(data, 4, msb);
    let value_mask = read_u32(data, 8, msb);
    if !state.gcs.contains_key(&gc_id) {
        return build_error(BAD_GC, seq, gc_id, 56, 0);
    }
    let ghost before = *state;
    let mut gc = match state.gcs.remove(&gc_id) {
        Some(g) => g,
        None => {
            return Vec::new();
        },
    };
    let values = tail_bytes(data, 12);
    let refused = parse_gc_values(&mut gc, value_mask, values.as_slice(), msb);
    match refused {
        Some((_, bad_value)) => {
            state.gcs.insert(gc_id, gc);
            assert(state.gcs@.dom() =~= before.gcs@.dom().insert(gc_id));
            return build_error(BAD_VALUE, seq, bad_value, 56, 0);
        },
        None => {},
    }
    reset_clip_mask(&mut gc, value_mask);
    follow_clip_origin(&mut gc, value_mask);
    state.gcs.insert(gc_id, gc);
    assert(state.gcs@.dom() =~= before.gcs@.dom().insert(gc_id));
    Vec::new()
}

/// Bit `bit` of a value mask is set.
pub open spec fn mask_has(mask: u32, bit: u32) -> bool {
    mask & (1u32 << bit) != 0
}

/// The destination GC with the function, plane mask, colors, line and
/// fill attributes, tile and stipple (bits 0-11) named by `mask` copied
/// from `src`.
#[verifier::opaque]
pub open spec fn copied_low(src: GcView, dst: GcView, mask: u32) -> GcView {
    GcView {
        function: if mask_has(mask, 0) { src.function } else { dst.function },
        plane_mask: if mask_has(mask, 1) { src.plane_mask } else { dst.plane_mask },
        foreground: if mask_has(mask, 2) { src.foreground } else { dst.foreground },
        background: if mask_has(mask, 3) { src.background } else { dst.background },
        line_width: if mask_has(mask, 4) { src.line_width } else { dst.line_width },
        line_style: if mask_has(mask, 5) { src.line_style } else { dst.line_style },
        cap_style: if mask_has(mask, 6) { src.cap_style } else { dst.cap_style },
        join_style: if mask_has(mask, 7) { src.join_style } else { dst.join_style },
        fill_style: if mask_has(mask, 8) { src.fill_style } else { dst.fill_style },
        fill_rule: if mask_has(mask, 9) { src.fill_rule } else { dst.fill_rule },
        tile: if mask_has(mask, 10) { src.tile } else { dst.tile },
        stipple: if mask_has(mask, 11) { src.stipple } else { dst.stipple },
        ..dst
    }
}

/// The destination GC with the tile origin, font, subwindow mode,
/// exposures, clip origin and mask, dashes and arc mode (bits 12-22) named
/// by `mask` copied from `src`; the clip rectangles follow the clip bits
/// (17-19) and the dash list the dashes bit (21).
#[verifier::opaque]
pub open spec fn copied_high(src: GcView, dst: GcView, mask: u32) -> GcView {
    GcView {
        ts_x: if mask_has(mask, 12) { src.ts_x } else { dst.ts_x },
        ts_y: if mask_has(mask, 13) { src.ts_y } else { dst.ts_y },
        font_id: if mask_has(mask, 14) { src.font_id } else { dst.font_id },
        subwindow_mode: if mask_has(mask, 15) { src.subwindow_mode } else { dst.subwindow_mode },
        graphics_exposures: if mask_has(mask, 16) { src.graphics_exposures } else { dst.graphics_exposures },
        clip_x: if mask_has(mask, 17) { src.clip_x } else { dst.clip_x },
        clip_y: if mask_has(mask, 18) { src.clip_y } else { dst.clip_y },
        clip_mask: if mask_has(mask, 19) { src.clip_mask } else { dst.clip_mask },
        clip_mask_bitmap: if mask_has(mask, 19) { src.clip_mask_bitmap } else { dst.clip_mask_bitmap },
        dash_offset: if mask_has(mask, 20) { src.dash_offset } else { dst.dash_offset },
        dashes: if mask_has(mask, 21) { src.dashes } else { dst.dashes },
        dash_list: if mask_has(mask, 21) { src.dash_list } else { dst.dash_list },
        arc_mode: if mask_has(mask, 22) { src.arc_mode } else { dst.arc_mode },
        clip_rects: if mask_has(mask, 17) || mask_has(mask, 18) || mask_has(mask, 19) {
            src.clip_rects
        } else {
            dst.clip_rects
        },
        ..dst
    }
}

/// The destination GC after CopyGC copies the components named by `mask`
/// from `src`.
pub open spec fn copied_gc(src: GcView, dst: GcView, mask: u32) -> GcView {
    copied_high(src, copied_low(src, dst, mask), mask)
}

/// Copy a list of rectangles.
pub(crate) fn copy_rects(rects: &Vec<ClipRect>) -> (r: Vec<ClipRect>)
    ensures
        r@ == rects@,
{
    let mut out: Vec<ClipRect> = Vec::new();
    let mut i: usize = 0;
    while i < rects.len()
        invariant
            i <= rects@.len(),
            out@ == rects@.subrange(0, i as int),
        decreases rects@.len() - i,
    {
        out.push(rects[i]);
        i = i + 1;
        assert(out@ =~= rects@.subrange(0, i as int));
    }
    assert(rects@.subrange(0, rects@.len() as int) =~= rects@);
    out
}

/// Copy an optional clip-mask bitmap.
fn copy_bitmap(bm: &Option<Vec<ClipRect>>) -> (r: Option<Vec<ClipRect>>)
    ensures
        bitmap_view(r) == bitmap_view(*bm),
{
    match bm {
        Some(b) => Some(copy_rects(b)),
        None => None,
    }
}

/// Copy the function, plane mask, colors, line and fill attributes, tile
/// and stipple (bits 0-11) named by `value_mask`.
fn copy_low_components(src: &GcState, dst: &mut GcState, value_mask: u32)
    ensures
        final(dst)@ == copied_low(src@, old(dst)@, value_mask),
{
    reveal(copied_low);
    if value_mask & (1u32 << 0u32) != 0 { dst.function = src.function; }
    if value_mask & (1u32 << 1u32) != 0 { dst.plane_mask = src.plane_mask; }
    if value_mask & (1u32 << 2u32) != 0 { dst.foreground = src.foreground; }
    if value_mask & (1u32 << 3u32) != 0 { dst.background = src.background; }
    if value_mask & (1u32 << 4u32) != 0 { dst.line_width = src.line_width; }
    if value_mask & (1u32 << 5u32) != 0 { dst.line_style = src.line_style; }
    if value_mask & (1u32 << 6u32) != 0 { dst.cap_style = src.cap_style; }
    if value_mask & (1u32 << 7u32) != 0 { dst.join_style = src.join_style; }
    if value_mask & (1u32 << 8u32) != 0 { dst.fill_style = src.fill_style; }
    if value_mask & (1u32 << 9u32) != 0 { dst.fill_rule = src.fill_rule; }
    if value_mask & (1u32 << 10u32) != 0 { dst.tile = src.tile; }
    if value_mask & (1u32 << 11u32) != 0 { dst.stipple = src.stipple; }
}

/// Copy the tile origin, font, subwindow mode, exposures, clip origin,
/// clip mask, dashes and arc mode (bits 12-22) named by `value_mask`, and
/// the clip rectangles when a clip bit (17-19) is named.
fn copy_high_components(src: &GcState, dst: &mut GcState, value_mask: u32)
    ensures
        final(dst)@ == copied_high(src@, old(dst)@, value_mask),
{
    reveal(copied_high);
    if value_mask & (1u32 << 12u32) != 0 { dst.ts_x = src.ts_x; }
    if value_mask & (1u32 << 13u32) != 0 { dst.ts_y = src.ts_y; }
    if value_mask & (1u32 << 14u32) != 0 { dst.font_id = src.font_id; }
    if value_mask & (1u32 << 15u32) != 0 { dst.subwindow_mode = src.subwindow_mode; }
    if value_mask & (1u32 << 16u32) != 0 { dst.graphics_exposures = src.graphics_exposures; }
    if value_mask & (1u32 << 17u32) != 0 { dst.clip_x = src.clip_x; }
    if value_mask & (1u32 << 18u32) != 0 { dst.clip_y = src.clip_y; }
    if value_mask & (1u32 << 19u32) != 0 {
        dst.clip_mask = src.clip_mask;
        dst.clip_mask_bitmap = copy_bitmap(&src.clip_mask_bitmap);
    }
    if value_mask & (1u32 << 20u32) != 0 { dst.dash_offset = src.dash_offset; }
    if value_mask & (1u32 << 21u32) != 0 {
        dst.dashes = src.dashes;
        assert(src.dash_list@.subrange(0, src.dash_list@.len() as int) =~= src.dash_list@);
        dst.dash_list = tail_bytes(src.dash_list.as_slice(), 0);
    }
    if value_mask & (1u32 << 22u32) != 0 { dst.arc_mode = src.arc_mode; }
    if value_mask & (1u32 << 17u32) != 0 || value_mask & (1u32 << 18u32) != 0 || value_mask & (1u32 << 19u32) != 0 {
        dst.clip_rects = copy_rects(&src.clip_rects);
    }
}

/// What CopyGC answers `req` with, and the client state it leaves.
pub open spec fn copy_gc_done(pre: ClientState, post: ClientState, req: Seq<u8>, seq: u16, out: Seq<u8>) -> bool {
    &&& (({
            let s = pre;
            let d = req;
            let src = field32(d, 4, s.msb_first);
            let dst = field32(d, 8, s.msb_first);
            if d.len() < 16 {
                out == error_packet(BAD_LENGTH, s.sequence, 0, 57, 0, false) && post == s
            } else if !s.gcs@.contains_key(src) {
                out == error_packet(BAD_GC, s.sequence, src, 57, 0, false) && post == s
            } else if !s.gcs@.contains_key(dst) {
                out == error_packet(BAD_GC, s.sequence, dst, 57, 0, false) && post == s
            } else {
                &&& out == Seq::<u8>::empty()
                &&& gc_updated(s, post, dst, copied_gc(s.gcs@[src]@, s.gcs@[dst]@, field32(d, 12, s.msb_first)))
            }
        }))
}

/// CopyGC (opcode 57).
pub fn handle_copy_gc(state: &mut ClientState, data: &[u8]) -> (r: Vec<u8>)
    ensures
        copy_gc_done(*old(state), *final(state), data@, old(state).sequence, r@),
{
    let seq = state.sequence;
    if data.len() < 16 {
        return build_error(BAD_LENGTH, seq, 0, 57, 0);
    }
    let msb = state.msb_first;
    let src_gc = read_u32(data, 4, msb);
    let dst_gc = read_u32(data, 8, msb);
    let value_mask = read_u32(data, 12, msb);
    if !state.gcs.contains_key(&src_gc) {
        return build_error(BAD_GC, seq, src_gc, 57, 0);
    }
    if !state.gcs.contains_key(&dst_gc) {
        return build_error(BAD_GC, seq, dst_gc, 57, 0);
    }
    let ghost before = *state;
    let src = match state.gcs.get(&src_gc) {
        Some(g) => copy_gc(g),
        None => {
            return Vec::new();
        },
    };
    let dst = match state.gcs.remove(&dst_gc) {
        Some(g) => g,
        None => {
            return Vec::new();
        },
    };
    let mut updated = dst;
    copy_low_components(&src, &mut updated, value_mask);
    copy_high_components(&src, &mut updated, value_mask);
    state.gcs.insert(dst_gc, updated);
    assert(state.gcs@.dom() =~= before.gcs@.dom().insert(dst_gc));
    Vec::new()
}

/// A copy of a GC.
fn copy_gc(g: &GcState) -> (r: GcState)
    ensures
        r@ == g@,
{
    GcState {
        function: g.function,
        plane_mask: g.plane_mask,
        foreground: g.foreground,
        background: g.background,
        line_width: g.line_width,
        line_style: g.line_style,
        cap_style: g.cap_style,
        join_style: g.join_style,
        fill_style: g.fill_style,
        fill_rule: g.fill_rule,
        tile: g.tile,
        stipple: g.stipple,
        ts_x: g.ts_x,
        ts_y: g.ts_y,
        font_id: g.font_id,
        subwindow_mode: g.subwindow_mode,
        graphics_exposures: g.graphics_exposures,
        clip_x: g.clip_x,
        clip_y: g.clip_y,
        clip_mask: g.clip_mask,
        dash_offset: g.dash_offset,
        dashes: g.dashes,
        arc_mode: g.arc_mode,
        dash_list: tail_bytes(g.dash_list.as_slice(), 0),
        clip_rects: copy_rects(&g.clip_rects),
        clip_mask_bitmap: copy_bitmap(&g.clip_mask_bitmap),
    }
}


/// SetDashes (opcode 58): the error for a request, if any.
pub open spec fn set_dashes_error(s: ClientState, d: Seq<u8>) -> Option<Seq<u8>> {
    let id = field32(d, 4, s.msb_first);
    let n = field16(d, 10, s.msb_first) as int;
    if d.len() < 12 {
        Some(error_packet(BAD_LENGTH, s.sequence, 0, 58, 0, false))
    } else if !s.gcs@.contains_key(id) {
        Some(error_packet(BAD_GC, s.sequence, id, 58, 0, false))
    } else if 12 + n > d.len() {
        Some(error_packet(BAD_LENGTH, s.sequence, 0, 58, 0, false))
    } else if n == 0 || d.subrange(12, 12 + n).contains(0u8) {
        Some(error_packet(BAD_VALUE, s.sequence, 0, 58, 0, false))
    } else {
        None
    }
}

/// What SetDashes answers `req` with, and the client state it leaves.
pub open spec fn set_dashes_done(pre: ClientState, post: ClientState, req: Seq<u8>, seq: u16, out: Seq<u8>) -> bool {
    &&& (match set_dashes_error(pre, req) {
            Some(e) => out == e && post == pre,
            None => {
                let s = pre;
                let d = req;
                let id = field32(d, 4, s.msb_first);
                &&& out == Seq::<u8>::empty()
                &&& gc_updated(s, post, id, GcView {
                    dash_offset: field16(d, 8, s.msb_first),
                    dash_list: d.subrange(12, 12 + field16(d, 10, s.msb_first) as int),
                    ..s.gcs@[id]@
                })
            },
        })
}

/// SetDashes (opcode 58): set the dash offset and the dash list, whose
/// entries must be non-zero.
pub fn handle_set_dashes(state: &mut ClientState, data: &[u8]) -> (r: Vec<u8>)
    ensures
        set_dashes_done(*old(state), *final(state), data@, old(state).sequence, r@),
{
    let seq = state.sequence;
    if data.len() < 12 {
        return build_error(BAD_LENGTH, seq, 0, 58, 0);
    }
    let msb = state.msb_first;
    let gc_id = read_u32(data, 4, msb);
    let dash_offset = read_u16(data, 8, msb);
    let n_dashes = read_u16(data, 10, msb) as usize;
    if !state.gcs.contains_key(&gc_id) {
        return build_error(BAD_GC, seq, gc_id, 58, 0);
    }
    if n_dashes > data.len() - 12 {
        return build_error(BAD_LENGTH, seq, 0, 58, 0);
    }
    if n_dashes == 0 {
        return build_error(BAD_VALUE, seq, 0, 58, 0);
    }
    let mut dash_list: Vec<u8> = Vec::new();
    let end = 12 + n_dashes;
    let mut i: usize = 12;
    while i < end
        invariant
            12 <= i <= end <= data@.len(),
            end == 12 + n_dashes,
            n_dashes > 0,
            n_dashes == field16(data@, 10, msb) as int,
            gc_id == field32(data@, 4, msb),
            msb == state.msb_first,
            seq == state.sequence,
            state.gcs@.contains_key(gc_id),
            dash_list@ == data@.subrange(12, i as int),
            forall|k: int| 12 <= k < i ==> data@[k] != 0u8,
        decreases end - i,
    {
        if data[i] == 0 {
            assert(data@.subrange(12, 12 + n_dashes as int)[i - 12] == 0u8);
            return build_error(BAD_VALUE, seq, 0, 58, 0);
        }
        dash_list.push(data[i]);
        i = i + 1;
        assert(dash_list@ =~= data@.subrange(12, i as int));
    }
    assert(!data@.subrange(12, end as int).contains(0u8)) by {
        assert forall|j: int| 0 <= j < n_dashes implies data@.subrange(12, end as int)[j] != 0u8 by {
            assert(data@.subrange(12, end as int)[j] == data@[12 + j]);
        }
    }
    let ghost before = *state;
    let mut gc = match state.gcs.remove(&gc_id) {
        Some(g) => g,
        None => {
            return Vec::new();
        },
    };
    gc.dash_offset = dash_offset;
    gc.dash_list = dash_list;
    state.gcs.insert(gc_id, gc);
    assert(state.gcs@.dom() =~= before.gcs@.dom().insert(gc_id));
    Vec::new()
}

/// The clip rectangles of a SetClipRectangles request: each 8-byte
/// (x, y, width, height) from byte 12 on, moved by the clip origin with
/// 16-bit wrap-around; a trailing partial rectangle is ignored.
pub open spec fn request_clip_rects(d: Seq<u8>, msb: bool, clip_x: i16, clip_y: i16) -> Seq<ClipRect> {
    Seq::new(
        ((d.len() - 12) / 8) as nat,
        |i: int|
            (
                (field16(d, 12 + 8 * i, msb) as i16).wrapping_add(clip_x),
                (field16(d, 14 + 8 * i, msb) as i16).wrapping_add(clip_y),
                field16(d, 16 + 8 * i, msb),
                field16(d, 18 + 8 * i, msb),
            ),
    )
}

/// What SetClipRectangles answers `req` with, and the client state it leaves.
pub open spec fn set_clip_rectangles_done(pre: ClientState, post: ClientState, req: Seq<u8>, seq: u16, out: Seq<u8>) -> bool {
    &&& (({
            let s = pre;
            let d = req;
            let id = field32(d, 4, s.msb_first);
            if d.len() < 12 {
                out == error_packet(BAD_LENGTH, s.sequence, 0, 59, 0, false) && post == s
            } else if !s.gcs@.contains_key(id) {
                out == error_packet(BAD_GC, s.sequence, id, 59, 0, false) && post == s
            } else {
                let cx = field16(d, 8, s.msb_first) as i16;
                let cy = field16(d, 10, s.msb_first) as i16;
                &&& out == Seq::<u8>::empty()
                &&& gc_updated(s, post, id, GcView {
                    clip_x: cx,
                    clip_y: cy,
                    clip_rects: request_clip_rects(d, s.msb_first, cx, cy),
                    clip_mask: 0,
                    clip_mask_bitmap: None,
                    ..s.gcs@[id]@
                })
            }
        }))
}

/// SetClipRectangles (opcode 59): clip by rectangles relative to the clip
/// origin, replacing any clip mask.
pub fn handle_set_clip_rectangles(state: &mut ClientState, data: &[u8]) -> (r: Vec<u8>)
    ensures
        set_clip_rectangles_done(*old(state), *final(state), data@, old(state).sequence, r@),
{
    let seq = state.sequence;
    if data.len() < 12 {
        return build_error(BAD_LENGTH, seq, 0, 59, 0);
    }
    let msb = state.msb_first;
    let gc_id = read_u32(data, 4, msb);
    if !state.gcs.contains_key(&gc_id) {
        return build_error(BAD_GC, seq, gc_id, 59, 0);
    }
    let clip_x = read_i16(data, 8, msb);
    let clip_y = read_i16(data, 10, msb);
    let ghost want = request_clip_rects(data@, msb, clip_x, clip_y);
    let mut rects: Vec<ClipRect> = Vec::new();
    let mut offset: usize = 12;
    while offset <= data.len() - 8
        invariant
            12 <= offset <= data@.len(),
            (offset - 12) % 8 == 0,
            want == request_clip_rects(data@, msb, clip_x, clip_y),
            rects@ == want.subrange(0, ((offset - 12) / 8) as int),
        decreases data@.len() - offset,
    {
        let x = read_i16(data, offset, msb);
        let y = read_i16(data, offset + 2, msb);
        let w = read_u16(data, offset + 4, msb);
        let h = read_u16(data, offset + 6, msb);
        rects.push((x.wrapping_add(clip_x), y.wrapping_add(clip_y), w, h));
        proof {
            let k = (offset - 12) / 8;
            assert(offset == 12 + 8 * k);
            assert(rects@ =~= want.subrange(0, k + 1));
        }
        offset = offset + 8;
    }
    proof {
        assert(((offset - 12) / 8) as int == want.len());
        assert(rects@ =~= want);
    }
    let ghost before = *state;
    let mut gc = match state.gcs.remove(&gc_id) {
        Some(g) => g,
        None => {
            return Vec::new();
        },
    };
    gc.clip_x = clip_x;
    gc.clip_y = clip_y;
    gc.clip_rects = rects;
    gc.clip_mask = 0;
    gc.clip_mask_bitmap = None;
    state.gcs.insert(gc_id, gc);
    assert(state.gcs@.dom() =~= before.gcs@.dom().insert(gc_id));
    Vec::new()
}

/// What FreeGC answers `req` with, and the client state it leaves.
pub open spec fn free_gc_done(pre: ClientState, post: ClientState, req: Seq<u8>, seq: u16, out: Seq<u8>) -> bool {
    &&& (({
            let s = pre;
            let d = req;
            let id = field32(d, 4, s.msb_first);
            if d.len() < 8 {
                out == error_packet(BAD_LENGTH, s.sequence, 0, 60, 0, false) && post == s
            } else if !s.gcs@.contains_key(id) {
                out == error_packet(BAD_GC, s.sequence, id, 60, 0, false) && post == s
            } else {
                &&& out == Seq::<u8>::empty()
                &&& post.gcs@ == s.gcs@.remove(id)
                &&& post.recycled_xids@ == s.recycled_xids@.push(id)
                &&& post == (ClientState { gcs: post.gcs, recycled_xids: post.recycled_xids, ..s })
            }
        }))
}

/// FreeGC (opcode 60): remove the GC and release its id for reuse.
pub fn handle_free_gc(state: &mut ClientState, data: &[u8]) -> (r: Vec<u8>)
    ensures
        free_gc_done(*old(state), *final(state), data@, old(state).sequence, r@),
{
    let seq = state.sequence;
    if data.len() < 8 {
        return build_error(BAD_LENGTH, seq, 0, 60, 0);
    }
    let gc_id = read_u32(data, 4, state.msb_first);
    if !state.gcs.contains_key(&gc_id) {
        return build_error(BAD_GC, seq, gc_id, 60, 0);
    }
    state.gcs.remove(&gc_id);
    state.recycle_xid(gc_id);
    Vec::new()
}

/// An empty value list applies nothing and refuses nothing, from any bit on.
proof fn lemma_empty_value_list(g: GcView, values: Seq<u8>, msb: bool, bit: u32, off: nat)
    ensures
        apply_gc_values(g, 0, values, msb, bit, off) == (g, Option::<(u8, u32)>::None),
    decreases 23 - bit,
{
    if bit < 23 {
        assert(0u32 & (1u32 << bit) == 0) by (bit_vector);
        lemma_empty_value_list(g, values, msb, (bit + 1) as u32, off);
    }
}

/// ChangeGC with an empty value mask leaves the GC as it was.
pub proof fn change_gc_empty_mask_changes_nothing(g: GcView, values: Seq<u8>, msb: bool)
    ensures
        changed_gc(g, 0, values, msb) == (g, Option::<(u8, u32)>::None),
{
    lemma_empty_value_list(g, values, msb, 0, 0);
    assert(0u32 & (1u32 << 19u32) == 0) by (bit_vector);
    assert(0u32 & ((1u32 << 17u32) | (1u32 << 18u32)) == 0) by (bit_vector);
}

/// CopyGC with an empty value mask leaves the destination as it was.
pub proof fn copy_gc_empty_mask_changes_nothing(src: GcView, dst: GcView)
    ensures
        copied_gc(src, dst, 0) == dst,
{
    reveal(copied_low);
    reveal(copied_high);
    assert(forall|k: u32| #![trigger mask_has(0, k)] !mask_has(0, k)) by {
        assert(forall|k: u32| 0u32 & (1u32 << k) == 0) by (bit_vector);
    }
    assert(copied_gc(src, dst, 0) =~= dst);
}

/// CopyGC with every component named (mask 0x7FFFFF) makes the
/// destination a copy of the source.
pub proof fn copy_gc_full_mask_copies_everything(src: GcView, dst: GcView)
    ensures
        copied_gc(src, dst, 0x7F_FFFF) == src,
{
    reveal(copied_low);
    reveal(copied_high);
    assert(forall|k: u32| #![trigger mask_has(0x7F_FFFF, k)] k < 23 ==> mask_has(0x7F_FFFF, k)) by {
        assert(forall|k: u32| k < 23 ==> 0x7F_FFFFu32 & (1u32 << k) != 0) by (bit_vector);
    }
    assert(mask_has(0x7F_FFFF, 0) && mask_has(0x7F_FFFF, 1) && mask_has(0x7F_FFFF, 2) && mask_has(0x7F_FFFF, 3));
    assert(mask_has(0x7F_FFFF, 4) && mask_has(0x7F_FFFF, 5) && mask_has(0x7F_FFFF, 6) && mask_has(0x7F_FFFF, 7));
    assert(mask_has(0x7F_FFFF, 8) && mask_has(0x7F_FFFF, 9) && mask_has(0x7F_FFFF, 10) && mask_has(0x7F_FFFF, 11));
    assert(mask_has(0x7F_FFFF, 12) && mask_has(0x7F_FFFF, 13) && mask_has(0x7F_FFFF, 14) && mask_has(0x7F_FFFF, 15));
    assert(mask_has(0x7F_FFFF, 16) && mask_has(0x7F_FFFF, 17) && mask_has(0x7F_FFFF, 18) && mask_has(0x7F_FFFF, 19));
    assert(mask_has(0x7F_FFFF, 20) && mask_has(0x7F_FFFF, 21) && mask_has(0x7F_FFFF, 22));
    assert(copied_gc(src, dst, 0x7F_FFFF) =~= src);
}


/// Value-mask bits with nothing set from `bit` up to (not including) `end`
/// take no values.
proof fn lemma_apply_skips_clear_bits(g: GcView, mask: u32, values: Seq<u8>, msb: bool, bit: u32, end: u32, off: nat)
    requires
        bit <= end <= 23,
        forall|b: u32| bit <= b < end ==> #[trigger] (mask & (1u32 << b)) == 0,
    ensures
        apply_gc_values(g, mask, values, msb, bit, off) == apply_gc_values(g, mask, values, msb, end, off),
    decreases end - bit,
{
    if bit < end {
        assert(mask & (1u32 << bit) == 0);
        lemma_apply_skips_clear_bits(g, mask, values, msb, (bit + 1) as u32, end, off);
    }
}

/// ChangeGC with a value mask of the single bit `k` (not a clip bit, 17 to
/// 19) and an accepted value `v` sets exactly the component the X11 value
/// mask orders at `k` and leaves every other component as it was: function,
/// plane mask, foreground, background, line width, line style, cap style,
/// join style, fill style, fill rule, tile, stipple, tile/stipple origin x
/// and y, font, subwindow mode, graphics exposures, (clip origin x and y,
/// clip mask,) dash offset, dashes, arc mode.
pub proof fn change_gc_sets_the_named_component(s: ClientState, t: ClientState, d: Seq<u8>, seq: u16, out: Seq<u8>, k: u32)
    requires
        d.len() >= 16,
        s.gcs@.contains_key(field32(d, 4, s.msb_first)),
        k < 23,
        k != 17 && k != 18 && k != 19,
        field32(d, 8, s.msb_first) == 1u32 << k,
        !gc_value_invalid(k, field32(d, 12, s.msb_first)),
        change_gc_done(s, t, d, seq, out),
    ensures
        out == Seq::<u8>::empty(),
        ({
            let g = s.gcs@[field32(d, 4, s.msb_first)]@;
            let v = field32(d, 12, s.msb_first);
            let after = t.gcs@[field32(d, 4, s.msb_first)]@;
            &&& k == 0 ==> after == GcView { function: v as u8, ..g }
            &&& k == 1 ==> after == GcView { plane_mask: v, ..g }
            &&& k == 2 ==> after == GcView { foreground: v, ..g }
            &&& k == 3 ==> after == GcView { background: v, ..g }
            &&& k == 4 ==> after == GcView { line_width: v as u16, ..g }
            &&& k == 5 ==> after == GcView { line_style: v as u8, ..g }
            &&& k == 6 ==> after == GcView { cap_style: v as u8, ..g }
            &&& k == 7 ==> after == GcView { join_style: v as u8, ..g }
            &&& k == 8 ==> after == GcView { fill_style: v as u8, ..g }
            &&& k == 9 ==> after == GcView { fill_rule: v as u8, ..g }
            &&& k == 10 ==> after == GcView { tile: v, ..g }
            &&& k == 11 ==> after == GcView { stipple: v, ..g }
            &&& k == 12 ==> after == GcView { ts_x: v as i16, ..g }
            &&& k == 13 ==> after == GcView { ts_y: v as i16, ..g }
            &&& k == 14 ==> after == GcView { font_id: v, ..g }
            &&& k == 15 ==> after == GcView { subwindow_mode: v as u8, ..g }
            &&& k == 16 ==> after == GcView { graphics_exposures: v != 0, ..g }
            &&& k == 20 ==> after == GcView { dash_offset: v as u16, ..g }
            &&& k == 21 ==> after == GcView { dashes: v as u8, ..g }
            &&& k == 22 ==> after == GcView { arc_mode: v as u8, ..g }
        }),
{
    let msb = s.msb_first;
    let id = field32(d, 4, msb);
    let g = s.gcs@[id]@;
    let mask = 1u32 << k;
    let values = d.subrange(12, d.len() as int);
    let v = field32(d, 12, msb);
    assert(values.subrange(0, 4) =~= d.subrange(12, 16));
    assert(field32(values, 0, msb) == v);
    assert forall|b: u32| 0 <= b < 32 && b != k implies #[trigger] (mask & (1u32 << b)) == 0 by {
        assert((1u32 << k) & (1u32 << b) == 0) by (bit_vector)
            requires
                k < 23,
                b < 32,
                b != k,
        ;
    }
    assert(mask & (1u32 << k) != 0) by (bit_vector)
        requires
            mask == 1u32 << k,
            k < 23,
    ;
    lemma_apply_skips_clear_bits(g, mask, values, msb, 0, k, 0);
    lemma_apply_skips_clear_bits(set_gc_value(g, k, v), mask, values, msb, (k + 1) as u32, 23, 4);
    assert(apply_gc_values(g, mask, values, msb, 0, 0) == (set_gc_value(g, k, v), None::<(u8, u32)>));
    assert(mask & (1u32 << 19u32) == 0);
    assert(mask & (1u32 << 17u32) == 0);
    assert(mask & (1u32 << 18u32) == 0);
    assert(mask & ((1u32 << 17u32) | (1u32 << 18u32)) == 0) by (bit_vector)
        requires
            mask & (1u32 << 17u32) == 0,
            mask & (1u32 << 18u32) == 0,
    ;
}

/// CopyGC with a value mask of the single bit `k` copies exactly the
/// component the X11 value mask orders at `k` (with the dashes the dash
/// list, with a clip bit the clip rectangles) and keeps every other
/// component of the destination.
pub proof fn copy_gc_copies_the_named_component(src: GcView, dst: GcView, k: u32)
    requires
        k < 23,
    ensures
        ({
            let after = copied_gc(src, dst, 1u32 << k);
            &&& k == 0 ==> after == GcView { function: src.function, ..dst }
            &&& k == 1 ==> after == GcView { plane_mask: src.plane_mask, ..dst }
            &&& k == 2 ==> after == GcView { foreground: src.foreground, ..dst }
            &&& k == 3 ==> after == GcView { background: src.background, ..dst }
            &&& k == 4 ==> after == GcView { line_width: src.line_width, ..dst }
            &&& k == 5 ==> after == GcView { line_style: src.line_style, ..dst }
            &&& k == 6 ==> after == GcView { cap_style: src.cap_style, ..dst }
            &&& k == 7 ==> after == GcView { join_style: src.join_style, ..dst }
            &&& k == 8 ==> after == GcView { fill_style: src.fill_style, ..dst }
            &&& k == 9 ==> after == GcView { fill_rule: src.fill_rule, ..dst }
            &&& k == 10 ==> after == GcView { tile: src.tile, ..dst }
            &&& k == 11 ==> after == GcView { stipple: src.stipple, ..dst }
            &&& k == 12 ==> after == GcView { ts_x: src.ts_x, ..dst }
            &&& k == 13 ==> after == GcView { ts_y: src.ts_y, ..dst }
            &&& k == 14 ==> after == GcView { font_id: src.font_id, ..dst }
            &&& k == 15 ==> after == GcView { subwindow_mode: src.subwindow_mode, ..dst }
            &&& k == 16 ==> after == GcView { graphics_exposures: src.graphics_exposures, ..dst }
            &&& k == 17 ==> after == GcView { clip_x: src.clip_x, clip_rects: src.clip_rects, ..dst }
            &&& k == 18 ==> after == GcView { clip_y: src.clip_y, clip_rects: src.clip_rects, ..dst }
            &&& k == 19 ==> after == GcView {
                clip_mask: src.clip_mask,
                clip_mask_bitmap: src.clip_mask_bitmap,
                clip_rects: src.clip_rects,
                ..dst
            }
            &&& k == 20 ==> after == GcView { dash_offset: src.dash_offset, ..dst }
            &&& k == 21 ==> after == GcView { dashes: src.dashes, dash_list: src.dash_list, ..dst }
            &&& k == 22 ==> after == GcView { arc_mode: src.arc_mode, ..dst }
        }),
{
    reveal(copied_low);
    reveal(copied_high);
    let mask = 1u32 << k;
    assert forall|b: u32| b < 32 implies #[trigger] mask_has(mask, b) == (b == k) by {
        assert(((1u32 << k) & (1u32 << b) != 0) == (b == k)) by (bit_vector)
            requires
                k < 23,
                b < 32,
        ;
    }
    assert(mask_has(mask, 0) == (k == 0) && mask_has(mask, 1) == (k == 1) && mask_has(mask, 2) == (k == 2));
    assert(mask_has(mask, 3) == (k == 3) && mask_has(mask, 4) == (k == 4) && mask_has(mask, 5) == (k == 5));
    assert(mask_has(mask, 6) == (k == 6) && mask_has(mask, 7) == (k == 7) && mask_has(mask, 8) == (k == 8));
    assert(mask_has(mask, 9) == (k == 9) && mask_has(mask, 10) == (k == 10) && mask_has(mask, 11) == (k == 11));
    assert(mask_has(mask, 12) == (k == 12) && mask_has(mask, 13) == (k == 13) && mask_has(mask, 14) == (k == 14));
    assert(mask_has(mask, 15) == (k == 15) && mask_has(mask, 16) == (k == 16) && mask_has(mask, 17) == (k == 17));
    assert(mask_has(mask, 18) == (k == 18) && mask_has(mask, 19) == (k == 19) && mask_has(mask, 20) == (k == 20));
    assert(mask_has(mask, 21) == (k == 21) && mask_has(mask, 22) == (k == 22));
}

/// CreateGC with an empty value mask makes the protocol's initial GC:
/// GXcopy on all planes, foreground 0 and background 1, zero-width solid
/// lines with butt caps and miter joins, solid even-odd fill, tile and
/// stipple origin at 0, ClipByChildren, graphics exposures on, no clip
/// mask, dashes of 4 from offset 0, and pie-slice arcs.
pub proof fn create_gc_starts_from_the_protocol_defaults(s: ClientState, d: Seq<u8>)
    requires
        d.len() >= 16,
        field32(d, 12, s.msb_first) == 0,
    ensures
        ({
            let g = created_gc(s, d);
            &&& g.function == 3 && g.plane_mask == 0xFFFF_FFFF
            &&& g.foreground == 0 && g.background == 1
            &&& g.line_width == 0 && g.line_style == 0 && g.cap_style == 1 && g.join_style == 0
            &&& g.fill_style == 0 && g.fill_rule == 0
            &&& g.ts_x == 0 && g.ts_y == 0 && g.subwindow_mode == 0 && g.graphics_exposures
            &&& g.clip_x == 0 && g.clip_y == 0 && g.clip_mask == 0 && g.clip_rects.len() == 0
            &&& g.clip_mask_bitmap is None
            &&& g.dash_offset == 0 && g.dashes == 4 && g.arc_mode == 1
        }),
{
    let msb = s.msb_first;
    let values = d.subrange(16, d.len() as int);
    assert forall|b: u32| 0 <= b < 23 implies #[trigger] (0u32 & (1u32 << b)) == 0 by {
        assert(0u32 & (1u32 << b) == 0) by (bit_vector);
    }
    lemma_apply_skips_clear_bits(default_gc(), 0, values, msb, 0, 23, 0);
    assert(0u32 & (1u32 << 19u32) == 0);
}

/// CreateGC with a value list makes the GC that ChangeGC with the same
/// value mask and values makes of the initial GC, when every value is
/// accepted.
pub proof fn create_gc_is_change_gc_of_the_initial_gc(s: ClientState, d: Seq<u8>)
    requires
        d.len() >= 16,
        apply_gc_values(default_gc(), field32(d, 12, s.msb_first), d.subrange(16, d.len() as int), s.msb_first, 0, 0).1
            is None,
    ensures
        created_gc(s, d) == changed_gc(default_gc(), field32(d, 12, s.msb_first), d.subrange(16, d.len() as int), s.msb_first).0,
{
    lemma_apply_keeps_bitmap(default_gc(), field32(d, 12, s.msb_first), d.subrange(16, d.len() as int), s.msb_first, 0, 0);
}

/// Applying a value list never touches the clip-mask bitmap.
proof fn lemma_apply_keeps_bitmap(g: GcView, mask: u32, values: Seq<u8>, msb: bool, bit: u32, off: nat)
    ensures
        apply_gc_values(g, mask, values, msb, bit, off).0.clip_mask_bitmap == g.clip_mask_bitmap,
    decreases 23 - bit,
{
    if bit < 23 {
        if mask & (1u32 << bit) != 0 && off + 4 <= values.len() {
            let val = field32(values, off as int, msb);
            if !gc_value_invalid(bit, val) {
                lemma_apply_keeps_bitmap(set_gc_value(g, bit, val), mask, values, msb, (bit + 1) as u32, off + 4);
            }
        } else {
            lemma_apply_keeps_bitmap(g, mask, values, msb, (bit + 1) as u32, off);
        }
    }
}
} // verus!
