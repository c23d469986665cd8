//! GLX contexts: creation, destruction, binding, and the single-request
//! dispatcher.

use crate::glx::query::{ARGB_VISUAL, ROOT_VISUAL};
use crate::glx::reply::GlxReplyModel;
use crate::glx::single_query::{
    gen_lists_reply, get_booleanv_reply, get_clip_plane_reply, get_doublev_reply, get_floatv_reply, get_integerv_reply, get_lightfv_reply, get_lightiv_reply, get_materialfv_reply, get_materialiv_reply, get_pixel_mapfv_reply, get_string_reply, get_tex_envfv_reply, get_tex_enviv_reply, get_tex_gendv_reply, get_tex_genfv_reply, get_tex_geniv_reply, get_tex_image_reply, get_tex_level_parameterfv_reply, get_tex_level_parameteriv_reply, get_tex_parameterfv_reply, get_tex_parameteriv_reply, is_enabled_reply, is_list_reply, is_texture_reply, gen_textures_reply, gen_textures_count, handle_gen_lists, handle_get_booleanv, handle_get_clip_plane, handle_get_doublev, handle_get_error, handle_get_floatv, handle_get_integerv, handle_get_lightfv, handle_get_lightiv, handle_get_materialfv, handle_get_materialiv, handle_get_pixel_mapfv, handle_get_polygon_stipple, handle_get_string, handle_get_tex_envfv, handle_get_tex_enviv, handle_get_tex_gendv, handle_get_tex_genfv, handle_get_tex_geniv, handle_get_tex_image, handle_get_tex_level_parameterfv, handle_get_tex_level_parameteriv, handle_get_tex_parameterfv, handle_get_tex_parameteriv, handle_gen_textures, handle_is_enabled, handle_is_list, handle_is_texture,
};
use crate::state::{ClientState, BAD_LENGTH};
use crate::wire::{build_error_bo, error_packet, field32, le16, le32, push_u16, push_u32, push_zeros, read_u32, zeros};
use std::collections::HashMap;
use vstd::prelude::*;

verus! {

/// A GLX context.
#[derive(Clone, Copy)]
pub struct GlxContext {
    pub id: u32,
    pub visual: u32,
    pub screen: u32,
    pub tag: u32,
    pub drawable: u32,
    /// The context this one shares display lists and textures with (0 = none).
    pub share_list: u32,
}

/// Per-client GLX state.
pub struct GlxState {
    pub contexts: HashMap<u32, GlxContext>,
    pub current_context: u32,
    pub current_drawable: u32,
    /// Tag handed out by the next MakeCurrent.
    pub next_tag: u32,
}


broadcast use vstd::std_specs::hash::group_hash_axioms;

/// The GLX major opcode reported in errors.
pub const GLX_ERROR_MAJOR: u8 = 159;

/// The error sent for a GLX request shorter than its fixed part.
pub open spec fn glx_length_error(seq: u16, minor: u16, msb: bool) -> Seq<u8> {
    error_packet(BAD_LENGTH, seq, 0, GLX_ERROR_MAJOR, minor, msb)
}

/// A 32-byte GLX reply with only the sequence number set.
pub open spec fn plain_reply(seq: u16) -> Seq<u8> {
    seq![1u8, 0u8] + le16(seq) + zeros(28)
}

/// A 32-byte GLX reply carrying `value` at bytes 8..12.
pub open spec fn value_reply(seq: u16, value: u32) -> Seq<u8> {
    seq![1u8, 0u8] + le16(seq) + zeros(4) + le32(value) + zeros(20)
}

fn build_plain_reply(seq: u16) -> (r: Vec<u8>)
    ensures
        r@ == plain_reply(seq),
{
    let mut out: Vec<u8> = Vec::new();
    out.push(1u8);
    out.push(0u8);
    assert(out@ =~= seq![1u8, 0u8]);
    push_u16(&mut out, seq, false);
    push_zeros(&mut out, 28);
    out
}

fn build_value_reply(seq: u16, value: u32) -> (r: Vec<u8>)
    ensures
        r@ == value_reply(seq, value),
{
    let mut out: Vec<u8> = Vec::new();
    out.push(1u8);
    out.push(0u8);
    assert(out@ =~= seq![1u8, 0u8]);
    push_u16(&mut out, seq, false);
    push_zeros(&mut out, 4);
    push_u32(&mut out, value, false);
    push_zeros(&mut out, 20);
    out
}

/// The context a create request defines: the given id, visual, screen and
/// share list, the next free tag, and no drawable.
pub open spec fn new_context(id: u32, visual: u32, screen: u32, tag: u32, share_list: u32) -> GlxContext {
    GlxContext { id, visual, screen, tag, drawable: 0, share_list }
}

/// `after` is `before` with a context added under the next tag, which then
/// advances; nothing else of the connection changes.
pub open spec fn context_added(before: ClientState, after: ClientState, ctx: GlxContext) -> bool {
    &&& after.glx.contexts@ == before.glx.contexts@.insert(ctx.id, ctx)
    &&& ctx.tag == before.glx.next_tag
    &&& after.glx.next_tag == before.glx.next_tag + 1
    &&& after.glx.current_context == before.glx.current_context
    &&& after.glx.current_drawable == before.glx.current_drawable
    &&& after == (ClientState { glx: after.glx, ..before })
}

fn add_context(state: &mut ClientState, id: u32, visual: u32, screen: u32, share_list: u32)
    requires
        old(state).glx.next_tag < u32::MAX,
    ensures
        context_added(*old(state), *final(state), new_context(id, visual, screen, old(state).glx.next_tag, share_list)),
{
    let tag = state.glx.next_tag;
    state.glx.next_tag = tag + 1;
    let context = GlxContext { id, visual, screen, tag, drawable: 0, share_list };
    state.glx.contexts.insert(id, context);
}

/// What handle_create_context does: its reply `r` and how `after` follows from `before`.
pub open spec fn create_context_done(before: ClientState, after: ClientState, data: Seq<u8>, seq: u16, r: Seq<u8>) -> bool {
    &&& (data.len() < 24 ==> r == glx_length_error(seq, 3, before.msb_first) && after == before)
    &&& (data.len() >= 24 ==> r == Seq::<u8>::empty() && context_added(before, after,
                new_context(field32(data, 4, false), field32(data, 8, false), field32(data, 12, false),
                    before.glx.next_tag, field32(data, 16, false))))
}

/// GLX CreateContext: record a context for the given visual.
pub fn handle_create_context(state: &mut ClientState, data: &[u8], seq: u16) -> (r: Vec<u8>)
    requires
        data@.len() >= 24 ==> old(state).glx.next_tag < u32::MAX,
    ensures
        create_context_done(*old(state), *final(state), data@, seq, r@),
{
    if data.len() < 24 {
        return build_error_bo(BAD_LENGTH, seq, 0, GLX_ERROR_MAJOR, 3, state.msb_first);
    }
    let ctx_id = read_u32(data, 4, false);
    let visual = read_u32(data, 8, false);
    let screen = read_u32(data, 12, false);
    let share_list = read_u32(data, 16, false);
    add_context(state, ctx_id, visual, screen, share_list);
    Vec::new()
}

/// The visual of an FBConfig: the ARGB visual for config 2, the root
/// visual otherwise.
pub open spec fn fbconfig_visual(fbconfig: u32) -> u32 {
    if fbconfig == 2 { ARGB_VISUAL } else { ROOT_VISUAL }
}

/// What handle_create_new_context does: its reply `r` and how `after` follows from `before`.
pub open spec fn create_new_context_done(before: ClientState, after: ClientState, data: Seq<u8>, seq: u16, r: Seq<u8>) -> bool {
    &&& (data.len() < 28 ==> r == glx_length_error(seq, 24, before.msb_first) && after == before)
    &&& (data.len() >= 28 ==> r == Seq::<u8>::empty() && context_added(before, after,
                new_context(field32(data, 4, false), fbconfig_visual(field32(data, 8, false)),
                    field32(data, 12, false), before.glx.next_tag, field32(data, 20, false))))
}

/// GLX CreateNewContext: record a context for the given FBConfig.
pub fn handle_create_new_context(state: &mut ClientState, data: &[u8], seq: u16) -> (r: Vec<u8>)
    requires
        data@.len() >= 28 ==> old(state).glx.next_tag < u32::MAX,
    ensures
        create_new_context_done(*old(state), *final(state), data@, seq, r@),
{
    if data.len() < 28 {
        return build_error_bo(BAD_LENGTH, seq, 0, GLX_ERROR_MAJOR, 24, state.msb_first);
    }
    let ctx_id = read_u32(data, 4, false);
    let fbconfig = read_u32(data, 8, false);
    let screen = read_u32(data, 12, false);
    let share_list = if data.len() >= 24 { read_u32(data, 20, false) } else { 0 };
    let visual = if fbconfig == 2 { ARGB_VISUAL } else { ROOT_VISUAL };
    add_context(state, ctx_id, visual, screen, share_list);
    Vec::new()
}

/// What handle_create_context_attribs does: its reply `r` and how `after` follows from `before`.
pub open spec fn create_context_attribs_done(before: ClientState, after: ClientState, data: Seq<u8>, seq: u16, r: Seq<u8>) -> bool {
    &&& (data.len() < 28 ==> r == glx_length_error(seq, 34, before.msb_first) && after == before)
    &&& (data.len() >= 28 ==> r == Seq::<u8>::empty() && context_added(before, after,
                new_context(field32(data, 4, false), fbconfig_visual(field32(data, 8, false)),
                    field32(data, 12, false), before.glx.next_tag, field32(data, 16, false))))
}

/// GLX CreateContextAttribsARB: record a context for the given FBConfig.
pub fn handle_create_context_attribs(state: &mut ClientState, data: &[u8], seq: u16) -> (r: Vec<u8>)
    requires
        data@.len() >= 28 ==> old(state).glx.next_tag < u32::MAX,
    ensures
        create_context_attribs_done(*old(state), *final(state), data@, seq, r@),
{
    if data.len() < 28 {
        return build_error_bo(BAD_LENGTH, seq, 0, GLX_ERROR_MAJOR, 34, state.msb_first);
    }
    let ctx_id = read_u32(data, 4, false);
    let fbconfig = read_u32(data, 8, false);
    let screen = read_u32(data, 12, false);
    let share_list = read_u32(data, 16, false);
    let visual = if fbconfig == 2 { ARGB_VISUAL } else { ROOT_VISUAL };
    add_context(state, ctx_id, visual, screen, share_list);
    Vec::new()
}

/// What handle_destroy_context does: its reply `r` and how `after` follows from `before`.
pub open spec fn destroy_context_done(before: ClientState, after: ClientState, data: Seq<u8>, seq: u16, r: Seq<u8>) -> bool {
    &&& (data.len() < 8 ==> r == glx_length_error(seq, 4, before.msb_first) && after == before)
    &&& (data.len() >= 8 ==> ({
                let id = field32(data, 4, false);
                let was_current = before.glx.current_context == id;
                &&& r == Seq::<u8>::empty()
                &&& after.glx.contexts@ == before.glx.contexts@.remove(id)
                &&& after.recycled_xids@ == before.recycled_xids@.push(id)
                &&& after.glx.current_context == (if was_current { 0 } else { before.glx.current_context })
                &&& after.glx.current_drawable == (if was_current { 0 } else { before.glx.current_drawable })
                &&& after.glx.next_tag == before.glx.next_tag
                &&& after == (ClientState { glx: after.glx, recycled_xids: after.recycled_xids, ..before })
            }))
}

/// GLX DestroyContext: forget the context, release its id, and unbind it
/// if it was current.
pub fn handle_destroy_context(state: &mut ClientState, data: &[u8], seq: u16) -> (r: Vec<u8>)
    ensures
        destroy_context_done(*old(state), *final(state), data@, seq, r@),
{
    if data.len() < 8 {
        return build_error_bo(BAD_LENGTH, seq, 0, GLX_ERROR_MAJOR, 4, state.msb_first);
    }
    let ctx_id = read_u32(data, 4, false);
    state.glx.contexts.remove(&ctx_id);
    state.recycle_xid(ctx_id);
    if state.glx.current_context == ctx_id {
        state.glx.current_context = 0;
        state.glx.current_drawable = 0;
    }
    Vec::new()
}

/// The effect of binding context `ctx_id` to `drawable`: binding context 0
/// unbinds; otherwise the context and drawable become current and a known
/// context remembers the drawable. The result is the context's tag (0 for
/// an unknown context or an unbind).
pub open spec fn made_current(before: ClientState, after: ClientState, ctx_id: u32, drawable: u32, tag: u32) -> bool {
    &&& after == (ClientState { glx: after.glx, ..before })
    &&& after.glx.next_tag == before.glx.next_tag
    &&& if ctx_id == 0 {
        &&& tag == 0
        &&& after.glx.current_context == 0
        &&& after.glx.current_drawable == 0
        &&& after.glx.contexts@ == before.glx.contexts@
    } else {
        &&& after.glx.current_context == ctx_id
        &&& after.glx.current_drawable == drawable
        &&& if before.glx.contexts@.contains_key(ctx_id) {
            let ctx = before.glx.contexts@[ctx_id];
            &&& tag == ctx.tag
            &&& after.glx.contexts@ == before.glx.contexts@.insert(ctx_id, GlxContext { drawable, ..ctx })
        } else {
            &&& tag == 0
            &&& after.glx.contexts@ == before.glx.contexts@
        }
    }
}

/// Bind a context to a drawable (context 0 unbinds); returns the context tag.
pub fn do_make_current(state: &mut ClientState, ctx_id: u32, drawable: u32) -> (tag: u32)
    ensures
        made_current(*old(state), *final(state), ctx_id, drawable, tag),
{
    if ctx_id == 0 {
        state.glx.current_context = 0;
        state.glx.current_drawable = 0;
        return 0;
    }
    let _size = crate::glx::get_drawable_size(state, drawable);
    state.glx.current_context = ctx_id;
    state.glx.current_drawable = drawable;
    match state.glx.contexts.remove(&ctx_id) {
        Some(ctx) => {
            let tag = ctx.tag;
            let updated = GlxContext { drawable, ..ctx };
            state.glx.contexts.insert(ctx_id, updated);
            proof {
                assert(state.glx.contexts@ =~= old(state).glx.contexts@.insert(ctx_id, updated));
            }
            tag
        },
        None => {
            proof {
                assert(state.glx.contexts@ =~= old(state).glx.contexts@);
            }
            0
        },
    }
}

/// What handle_make_current does: its reply `r` and how `after` follows from `before`.
pub open spec fn make_current_done(before: ClientState, after: ClientState, data: Seq<u8>, seq: u16, r: Seq<u8>) -> bool {
    &&& (data.len() < 16 ==> r == glx_length_error(seq, 5, before.msb_first) && after == before)
    &&& (data.len() >= 16 ==> exists|tag: u32| #[trigger] value_reply(seq, tag) == r
                && made_current(before, after, field32(data, 8, false), field32(data, 4, false), tag))
}

/// GLX MakeCurrent: bind the context and reply with its tag.
pub fn handle_make_current(state: &mut ClientState, data: &[u8], seq: u16) -> (r: Vec<u8>)
    ensures
        make_current_done(*old(state), *final(state), data@, seq, r@),
{
    if data.len() < 16 {
        return build_error_bo(BAD_LENGTH, seq, 0, GLX_ERROR_MAJOR, 5, state.msb_first);
    }
    let drawable = read_u32(data, 4, false);
    let ctx_id = read_u32(data, 8, false);
    let tag = do_make_current(state, ctx_id, drawable);
    build_value_reply(seq, tag)
}

/// What handle_make_context_current does: its reply `r` and how `after` follows from `before`.
pub open spec fn make_context_current_done(before: ClientState, after: ClientState, data: Seq<u8>, seq: u16, r: Seq<u8>) -> bool {
    &&& (data.len() < 20 ==> r == glx_length_error(seq, 26, before.msb_first) && after == before)
    &&& (data.len() >= 20 ==> exists|tag: u32| #[trigger] value_reply(seq, tag) == r
                && made_current(before, after, field32(data, 12, false), field32(data, 4, false), tag))
}

/// GLX MakeContextCurrent: bind the context to the draw drawable and reply
/// with its tag.
pub fn handle_make_context_current(state: &mut ClientState, data: &[u8], seq: u16) -> (r: Vec<u8>)
    ensures
        make_context_current_done(*old(state), *final(state), data@, seq, r@),
{
    if data.len() < 20 {
        return build_error_bo(BAD_LENGTH, seq, 0, GLX_ERROR_MAJOR, 26, state.msb_first);
    }
    let drawable = read_u32(data, 4, false);
    let _read_drawable = read_u32(data, 8, false);
    let ctx_id = read_u32(data, 12, false);
    let tag = do_make_current(state, ctx_id, drawable);
    build_value_reply(seq, tag)
}

/// GLX IsDirect: rendering is always indirect.
pub fn handle_is_direct(seq: u16) -> (r: Vec<u8>)
    ensures
        r@ == plain_reply(seq),
{
    build_plain_reply(seq)
}

/// What handle_copy_context does: its reply `r` and how `after` follows from `before`.
pub open spec fn copy_context_done(before: ClientState, after: ClientState, data: Seq<u8>, seq: u16, r: Seq<u8>) -> bool {
    &&& (after == before)
    &&& r == (if data.len() < 20 {
        glx_length_error(seq, 10, before.msb_first)
    } else if !before.glx.contexts@.contains_key(field32(data, 4, false)) {
        error_packet(160, seq, field32(data, 4, false), GLX_ERROR_MAJOR, 10, before.msb_first)
    } else if !before.glx.contexts@.contains_key(field32(data, 8, false)) {
        error_packet(160, seq, field32(data, 8, false), GLX_ERROR_MAJOR, 10, before.msb_first)
    } else {
        Seq::<u8>::empty()
    })
}

/// GLX CopyContext: both contexts must exist (GLXBadContext, code 160,
/// names the first that does not); no state is copied.
pub fn handle_copy_context(state: &mut ClientState, data: &[u8], seq: u16) -> (r: Vec<u8>)
    ensures
        copy_context_done(*old(state), *final(state), data@, seq, r@),
{
    if data.len() < 20 {
        return build_error_bo(BAD_LENGTH, seq, 0, GLX_ERROR_MAJOR, 10, state.msb_first);
    }
    let src_ctx = read_u32(data, 4, false);
    let dst_ctx = read_u32(data, 8, false);
    let _mask = read_u32(data, 12, false);
    if !state.glx.contexts.contains_key(&src_ctx) {
        return build_error_bo(160, seq, src_ctx, GLX_ERROR_MAJOR, 10, state.msb_first);
    }
    if !state.glx.contexts.contains_key(&dst_ctx) {
        return build_error_bo(160, seq, dst_ctx, GLX_ERROR_MAJOR, 10, state.msb_first);
    }
    Vec::new()
}

/// The empty reply to a GLX single request this server does not answer.
pub fn glx_single_empty_reply(seq: u16) -> (r: Vec<u8>)
    ensures
        r@ == plain_reply(seq),
{
    build_plain_reply(seq)
}

/// The payload of a GLX single request: the bytes after the context tag.
pub open spec fn single_payload(data: Seq<u8>) -> Seq<u8> {
    if data.len() > 8 { data.subrange(8, data.len() as int) } else { seq![] }
}

/// Whether a GL single opcode is a state-changing operation carried out by
/// the GL back end (DeleteLists, RenderMode, Finish, PixelStoref,
/// PixelStorei, AreTexturesResident, DeleteTextures).
pub open spec fn is_gl_operation(op: u8) -> bool {
    op == 103 || op == 107 || op == 108 || op == 109 || op == 110 || op == 143 || op == 144
}

/// The reply to the GL query with single opcode `op`; opcodes this server
/// does not know get the empty reply.
pub open spec fn single_query_reply(op: u8, payload: Seq<u8>, seq: u16) -> Seq<u8> {
    if op == 111 { get_booleanv_reply(payload, seq) }
    else if op == 112 { get_floatv_reply(payload, seq) }
    else if op == 113 { get_doublev_reply(payload, seq) }
    else if op == 115 { get_string_reply(payload, seq) }
    else if op == 116 { GlxReplyModel::Scalar(0).wire(seq) }
    else if op == 117 { get_integerv_reply(payload, seq) }
    else if op == 118 { is_enabled_reply(payload, seq) }
    else if op == 119 { is_texture_reply(payload, seq) }
    else if op == 123 { get_materialfv_reply(payload, seq) }
    else if op == 124 { get_materialiv_reply(payload, seq) }
    else if op == 125 { gen_textures_reply(payload, seq) }
    else if op == 126 { get_pixel_mapfv_reply(payload, seq) }
    else if op == 127 { get_clip_plane_reply(payload, seq) }
    else if op == 128 { GlxReplyModel::Bytes(128, zeros(128)).wire(seq) }
    else if op == 130 { get_tex_envfv_reply(payload, seq) }
    else if op == 131 { get_tex_enviv_reply(payload, seq) }
    else if op == 132 { get_tex_gendv_reply(payload, seq) }
    else if op == 133 { get_tex_genfv_reply(payload, seq) }
    else if op == 134 { get_tex_geniv_reply(payload, seq) }
    else if op == 135 { get_tex_image_reply(payload, seq) }
    else if op == 136 { get_tex_parameteriv_reply(payload, seq) }
    else if op == 137 { get_tex_parameterfv_reply(payload, seq) }
    else if op == 138 { get_tex_level_parameteriv_reply(payload, seq) }
    else if op == 139 { get_tex_level_parameterfv_reply(payload, seq) }
    else if op == 141 { is_list_reply(payload, seq) }
    else if op == 149 { get_lightfv_reply(payload, seq) }
    else if op == 150 { get_lightiv_reply(payload, seq) }
    else if op == 104 { gen_lists_reply(payload, seq) }
    else { plain_reply(seq) }
}

/// GLX single request (minor opcode = GL opcode, 101 and up): answer a GL
/// state query. `None` means the opcode is a GL operation that the GL back
/// end carries out and answers (see [`is_gl_operation`]).
pub fn handle_glx_single(state: &mut ClientState, data: &[u8], seq: u16) -> (r: Option<Vec<u8>>)
    requires
        data@.len() >= 2,
        data@.len() >= 12 && data@[1] == 125 ==> 4 * gen_textures_count(single_payload(data@)) + 3 <= usize::MAX,
    ensures
        *final(state) == *old(state),
        data@.len() < 8 ==> (r matches Some(e) && e@ == glx_length_error(seq, data@[1] as u16, old(state).msb_first)),
        data@.len() >= 8 && is_gl_operation(data@[1]) ==> r is None,
        data@.len() >= 8 && !is_gl_operation(data@[1]) ==> (r matches Some(b)
            && b@ == single_query_reply(data@[1], single_payload(data@), seq)),
{
    if data.len() < 8 {
        return Some(build_error_bo(BAD_LENGTH, seq, 0, GLX_ERROR_MAJOR, data[1] as u16, state.msb_first));
    }
    let _context_tag = read_u32(data, 4, false);
    let gl_opcode = data[1];
    let payload: &[u8] = if data.len() > 8 { &data[8..data.len()] } else { &[] };
    assert(payload@ =~= single_payload(data@));
    let reply = match gl_opcode {
        111 => handle_get_booleanv(payload, seq),
        112 => handle_get_floatv(payload, seq),
        113 => handle_get_doublev(payload, seq),
        115 => handle_get_string(payload, seq),
        116 => handle_get_error(seq),
        117 => handle_get_integerv(payload, seq),
        118 => handle_is_enabled(payload, seq),
        119 => handle_is_texture(payload, seq),
        123 => handle_get_materialfv(payload, seq),
        124 => handle_get_materialiv(payload, seq),
        125 => handle_gen_textures(payload, seq),
        126 => handle_get_pixel_mapfv(payload, seq),
        127 => handle_get_clip_plane(payload, seq),
        128 => handle_get_polygon_stipple(seq),
        130 => handle_get_tex_envfv(payload, seq),
        131 => handle_get_tex_enviv(payload, seq),
        132 => handle_get_tex_gendv(payload, seq),
        133 => handle_get_tex_genfv(payload, seq),
        134 => handle_get_tex_geniv(payload, seq),
        135 => handle_get_tex_image(payload, seq),
        136 => handle_get_tex_parameteriv(payload, seq),
        137 => handle_get_tex_parameterfv(payload, seq),
        138 => handle_get_tex_level_parameteriv(payload, seq),
        139 => handle_get_tex_level_parameterfv(payload, seq),
        141 => handle_is_list(payload, seq),
        149 => handle_get_lightfv(payload, seq),
        150 => handle_get_lightiv(payload, seq),
        104 => handle_gen_lists(payload, seq),
        103 | 107 | 108 | 109 | 110 | 143 | 144 => {
            return None;
        },
        _ => glx_single_empty_reply(seq),
    };
    Some(reply)
}

/// The reply to VendorPrivateWithReply: glXGetProcAddressARB (vendor code
/// 1296) answers a non-null stub; other codes get the empty reply.
pub open spec fn vendor_private_reply(data: Seq<u8>, seq: u16) -> Seq<u8> {
    if data.len() >= 12 && field32(data, 4, false) == 1296 {
        value_reply(seq, 1)
    } else {
        plain_reply(seq)
    }
}

/// GLX VendorPrivateWithReply.
pub fn handle_vendor_private_with_reply(data: &[u8], seq: u16) -> (r: Vec<u8>)
    ensures
        r@ == vendor_private_reply(data@, seq),
{
    if data.len() < 12 {
        return glx_single_empty_reply(seq);
    }
    let vendor_code = read_u32(data, 4, false);
    match vendor_code {
        1296 => build_value_reply(seq, 1),
        _ => glx_single_empty_reply(seq),
    }
}

/// What handle_swap_buffers does: its reply `r` and how `after` follows from `before`.
pub open spec fn swap_buffers_done(before: ClientState, after: ClientState, data: Seq<u8>, seq: u16, r: Seq<u8>) -> bool {
    &&& (after == before)
    &&& (r == (if data.len() < 12 { glx_length_error(seq, 11, before.msb_first) } else { Seq::<u8>::empty() }))
}

/// GLX SwapBuffers: there is no GL back buffer to present.
pub fn handle_swap_buffers(state: &mut ClientState, data: &[u8], seq: u16) -> (r: Vec<u8>)
    ensures
        swap_buffers_done(*old(state), *final(state), data@, seq, r@),
{
    if data.len() < 12 {
        return build_error_bo(BAD_LENGTH, seq, 0, GLX_ERROR_MAJOR, 11, state.msb_first);
    }
    let _tag = read_u32(data, 4, false);
    let _drawable = read_u32(data, 8, false);
    Vec::new()
}

/// GLX WaitGL: X rendering is synchronous, so there is nothing to wait for.
pub fn handle_wait_gl(state: &mut ClientState) -> (r: Vec<u8>)
    ensures
        *final(state) == *old(state),
        r@ == Seq::<u8>::empty(),
{
    Vec::new()
}

/// GLX WaitX: X rendering is synchronous, so there is nothing to wait for.
pub fn handle_wait_x(state: &mut ClientState) -> (r: Vec<u8>)
    ensures
        *final(state) == *old(state),
        r@ == Seq::<u8>::empty(),
{
    Vec::new()
}

/// CreateContext then MakeCurrent: MakeCurrent of the new context answers
/// the tag the context was created with and makes the context current on
/// the drawable, which the context remembers; MakeCurrent of context 0
/// answers tag 0 and leaves no context or drawable current.
pub proof fn make_current_binds_created_context(
    s0: ClientState,
    s1: ClientState,
    s2: ClientState,
    create: Seq<u8>,
    make: Seq<u8>,
    seq1: u16,
    seq2: u16,
    r1: Seq<u8>,
    r2: Seq<u8>,
)
    requires
        create.len() >= 24,
        create_context_done(s0, s1, create, seq1, r1),
        make.len() >= 16,
        make_current_done(s1, s2, make, seq2, r2),
    ensures
        ({
            let c = field32(create, 4, false);
            let drawable = field32(make, 4, false);
            let bound = field32(make, 8, false);
            &&& r1 == Seq::<u8>::empty()
            &&& bound == c && c != 0 ==> {
                &&& r2 == value_reply(seq2, s0.glx.next_tag)
                &&& s2.glx.current_context == c
                &&& s2.glx.current_drawable == drawable
                &&& s2.glx.contexts@.contains_key(c)
                &&& s2.glx.contexts@[c].drawable == drawable
            }
            &&& bound == 0 ==> {
                &&& r2 == value_reply(seq2, 0)
                &&& s2.glx.current_context == 0
                &&& s2.glx.current_drawable == 0
            }
        }),
{
    let tag = choose|tag: u32| #[trigger] value_reply(seq2, tag) == r2
        && made_current(s1, s2, field32(make, 8, false), field32(make, 4, false), tag);
    assert(value_reply(seq2, tag) == r2);
}

} // verus!
