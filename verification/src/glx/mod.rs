//! The GLX extension: reply encoders, GL state queries, visual and FBConfig
//! queries, and context bookkeeping.

pub mod reply;
pub mod single_query;
pub mod query;
pub mod context;
pub mod render;
pub mod blit;

use crate::glx::context::{
    copy_context_done, create_context_attribs_done, create_context_done, create_new_context_done,
    destroy_context_done, handle_copy_context, handle_create_context, handle_create_context_attribs,
    handle_create_new_context, handle_destroy_context, handle_glx_single, handle_is_direct,
    handle_make_context_current, handle_make_current, handle_swap_buffers, handle_vendor_private_with_reply,
    handle_wait_gl, handle_wait_x, is_gl_operation, make_context_current_done, make_current_done, plain_reply,
    single_payload, single_query_reply, swap_buffers_done, vendor_private_reply, GLX_ERROR_MAJOR,
};
use crate::glx::query::{
    fb_configs_reply, glx_extensions, handle_get_fb_configs, handle_get_visual_configs,
    handle_query_extensions_string, handle_query_server_string, handle_query_version, server_string,
    server_string_name, version_reply, visual_configs_reply,
};
use crate::glx::reply::string_reply;
use crate::glx::render::{handle_render, handle_render_large, render_commands, render_large_end};
use crate::glx::single_query::gen_textures_count;
use crate::state::{ClientState, BAD_LENGTH, BAD_REQUEST};
use crate::wire::{build_error_bo, error_packet};
use vstd::prelude::*;

verus! {

broadcast use vstd::std_specs::hash::group_hash_axioms;

/// The size of a drawable: a window's or pixmap's size, or the screen size
/// for an unknown drawable.
pub open spec fn drawable_size(state: ClientState, drawable: u32) -> (u32, u32) {
    if state.windows@.contains_key(drawable) {
        (state.windows@[drawable].width as u32, state.windows@[drawable].height as u32)
    } else if state.pixmaps@.contains_key(drawable) {
        (state.pixmaps@[drawable].width as u32, state.pixmaps@[drawable].height as u32)
    } else {
        (state.screen_width as u32, state.screen_height as u32)
    }
}

/// The size of a drawable (window, pixmap, or else the screen).
pub fn get_drawable_size(state: &ClientState, drawable: u32) -> (r: (u32, u32))
    ensures
        r == drawable_size(*state, drawable),
{
    if let Some(win) = state.windows.get(&drawable) {
        return (win.width as u32, win.height as u32);
    }
    if let Some(pix) = state.pixmaps.get(&drawable) {
        return (pix.width as u32, pix.height as u32);
    }
    (state.screen_width as u32, state.screen_height as u32)
}


/// What a GLX request comes to.
pub enum GlxOutcome {
    /// Bytes to send back (empty for requests without a reply).
    Reply(Vec<u8>),
    /// A render batch: the GL commands (render opcode and argument range
    /// within the request) for the GL back end; no reply is sent.
    Render(Vec<(u16, usize, usize)>),
    /// A request carried out outside this library: GL operations of the
    /// back end and GLX drawable management.
    Delegated,
}

/// Whether a GLX minor opcode manages GLX drawables or fonts (UseXFont,
/// CreateGLXPixmap, DestroyGLXPixmap, CreatePixmap, CreatePbuffer,
/// DestroyPbuffer, CreateWindow, DeleteWindow, GetDrawableAttributes,
/// ChangeDrawableAttributes, QueryContext).
pub open spec fn is_drawable_request(minor: u8) -> bool {
    minor == 12 || minor == 13 || minor == 15 || minor == 22 || minor == 27 || minor == 28 || minor == 31
        || minor == 32 || minor == 29 || minor == 30 || minor == 25
}

/// Whether a GLX minor opcode is answered with nothing and changes nothing:
/// ClientInfo, SetClientInfoARB, SetClientInfo2ARB, VendorPrivate.
pub open spec fn is_informational(minor: u8) -> bool {
    minor == 20 || minor == 33 || minor == 35 || minor == 16
}

/// Whether a GLX minor opcode is known to this server.
pub open spec fn is_known_minor(minor: u8) -> bool {
    ||| 1 <= minor <= 35 && minor != 23
    ||| minor >= 101
}

/// Dispatch a GLX request by minor opcode.
pub fn handle_glx_request(state: &mut ClientState, data: &[u8], seq: u16) -> (r: GlxOutcome)
    requires
        old(state).glx.next_tag < u32::MAX,
        data@.len() >= 12 && data@[1] == 125 ==> 4 * gen_textures_count(single_payload(data@)) + 3 <= usize::MAX,
    ensures
        data@.len() < 4 ==> (r matches GlxOutcome::Reply(b)
            && b@ == error_packet(BAD_LENGTH, seq, 0, GLX_ERROR_MAJOR, 0, old(state).msb_first))
            && *final(state) == *old(state),
        data@.len() >= 4 ==> ({
            let minor = data@[1];
            let before = *old(state);
            let after = *final(state);
            &&& minor == 7 ==> (r matches GlxOutcome::Reply(b) && b@ == version_reply(seq)) && after == before
            &&& minor == 14 ==> (r matches GlxOutcome::Reply(b) && b@ == visual_configs_reply(seq)) && after == before
            &&& minor == 21 ==> (r matches GlxOutcome::Reply(b) && b@ == fb_configs_reply(seq)) && after == before
            &&& minor == 3 ==> (r matches GlxOutcome::Reply(b) && create_context_done(before, after, data@, seq, b@))
            &&& minor == 24 ==> (r matches GlxOutcome::Reply(b) && create_new_context_done(before, after, data@, seq, b@))
            &&& minor == 34 ==> (r matches GlxOutcome::Reply(b) && create_context_attribs_done(before, after, data@, seq, b@))
            &&& minor == 4 ==> (r matches GlxOutcome::Reply(b) && destroy_context_done(before, after, data@, seq, b@))
            &&& minor == 5 ==> (r matches GlxOutcome::Reply(b) && make_current_done(before, after, data@, seq, b@))
            &&& minor == 26 ==> (r matches GlxOutcome::Reply(b) && make_context_current_done(before, after, data@, seq, b@))
            &&& minor == 6 ==> (r matches GlxOutcome::Reply(b) && b@ == plain_reply(seq)) && after == before
            &&& minor == 11 ==> (r matches GlxOutcome::Reply(b) && swap_buffers_done(before, after, data@, seq, b@))
            &&& (minor == 8 || minor == 9) ==> (r matches GlxOutcome::Reply(b) && b@ == Seq::<u8>::empty()) && after == before
            &&& minor == 10 ==> (r matches GlxOutcome::Reply(b) && copy_context_done(before, after, data@, seq, b@))
            &&& minor == 17 ==> (r matches GlxOutcome::Reply(b) && b@ == vendor_private_reply(data@, seq)) && after == before
            &&& minor == 1 ==> after == before && (if data@.len() < 8 {
                r matches GlxOutcome::Reply(b) && b@ == error_packet(BAD_LENGTH, seq, 0, GLX_ERROR_MAJOR, 1, before.msb_first)
            } else {
                r matches GlxOutcome::Render(c) && c@ == render_commands(data@, 8, data@.len() as int)
            })
            &&& minor == 2 ==> after == before && (if data@.len() < 16 {
                r matches GlxOutcome::Reply(b) && b@ == error_packet(BAD_LENGTH, seq, 0, GLX_ERROR_MAJOR, 2, before.msb_first)
            } else {
                r matches GlxOutcome::Render(c) && c@ == render_commands(data@, 16, render_large_end(data@))
            })
            &&& minor == 18 ==> (r matches GlxOutcome::Reply(b) && b@ == string_reply(seq, glx_extensions())) && after == before
            &&& minor == 19 ==> (r matches GlxOutcome::Reply(b) && b@ == string_reply(seq, server_string(server_string_name(data@))))
                && after == before
            &&& is_informational(minor) ==> (r matches GlxOutcome::Reply(b) && b@ == Seq::<u8>::empty()) && after == before
            &&& is_drawable_request(minor) ==> r is Delegated && after == before
            &&& minor >= 101 ==> after == before && (if data@.len() >= 8 && is_gl_operation(minor) {
                r is Delegated
            } else if data@.len() >= 8 {
                r matches GlxOutcome::Reply(b) && b@ == single_query_reply(minor, single_payload(data@), seq)
            } else {
                r matches GlxOutcome::Reply(b) && b@ == error_packet(BAD_LENGTH, seq, 0, GLX_ERROR_MAJOR, minor as u16, before.msb_first)
            })
            &&& !is_known_minor(minor) ==> (r matches GlxOutcome::Reply(b)
                && b@ == error_packet(BAD_REQUEST, seq, minor as u32, GLX_ERROR_MAJOR, minor as u16, before.msb_first))
                && after == before
        }),
{
    if data.len() < 4 {
        return GlxOutcome::Reply(build_error_bo(BAD_LENGTH, seq, 0, GLX_ERROR_MAJOR, 0, state.msb_first));
    }
    let minor = data[1];
    match minor {
        7 => GlxOutcome::Reply(handle_query_version(seq)),
        14 => GlxOutcome::Reply(handle_get_visual_configs(data, seq)),
        21 => GlxOutcome::Reply(handle_get_fb_configs(data, seq)),
        3 => GlxOutcome::Reply(handle_create_context(state, data, seq)),
        24 => GlxOutcome::Reply(handle_create_new_context(state, data, seq)),
        34 => GlxOutcome::Reply(handle_create_context_attribs(state, data, seq)),
        4 => GlxOutcome::Reply(handle_destroy_context(state, data, seq)),
        5 => GlxOutcome::Reply(handle_make_current(state, data, seq)),
        26 => GlxOutcome::Reply(handle_make_context_current(state, data, seq)),
        6 => GlxOutcome::Reply(handle_is_direct(seq)),
        11 => GlxOutcome::Reply(handle_swap_buffers(state, data, seq)),
        8 => GlxOutcome::Reply(handle_wait_gl(state)),
        9 => GlxOutcome::Reply(handle_wait_x(state)),
        10 => GlxOutcome::Reply(handle_copy_context(state, data, seq)),
        17 => GlxOutcome::Reply(handle_vendor_private_with_reply(data, seq)),
        1 => match handle_render(state, data, seq) {
            Ok(cmds) => GlxOutcome::Render(cmds),
            Err(e) => GlxOutcome::Reply(e),
        },
        2 => match handle_render_large(state, data, seq) {
            Ok(cmds) => GlxOutcome::Render(cmds),
            Err(e) => GlxOutcome::Reply(e),
        },
        18 => GlxOutcome::Reply(handle_query_extensions_string(data, seq)),
        19 => GlxOutcome::Reply(handle_query_server_string(data, seq)),
        20 | 33 | 35 | 16 => GlxOutcome::Reply(Vec::new()),
        12 | 13 | 22 | 15 | 27 | 28 | 31 | 32 | 29 | 30 | 25 => GlxOutcome::Delegated,
        101..=255 => match handle_glx_single(state, data, seq) {
            Some(b) => GlxOutcome::Reply(b),
            None => GlxOutcome::Delegated,
        },
        _ => GlxOutcome::Reply(build_error_bo(BAD_REQUEST, seq, minor as u32, GLX_ERROR_MAJOR, minor as u16, state.msb_first)),
    }
}

} // verus!
