//! The core-request dispatcher (major opcodes 1 to 127): the SECURITY
//! gate for untrusted clients, NoOperation, BadRequest for opcodes the
//! protocol does not define, and routing to the handlers of this library.

use crate::drawing::copy::{handle_copy_area, handle_copy_plane};
use crate::drawing::gc::{
    handle_change_gc, handle_copy_gc, handle_create_gc, handle_free_gc, handle_set_clip_rectangles, handle_set_dashes,
};
use crate::drawing::primitives::{
    handle_clear_area, handle_fill_poly, handle_poly_arc, handle_poly_fill_arc, handle_poly_fill_rectangle, handle_poly_line,
    handle_poly_point, handle_poly_rectangle, handle_poly_segment, handle_put_image,
};
use crate::drawing::text::{handle_image_text16, handle_image_text8, handle_poly_text16, handle_poly_text8};
use crate::grab::{
    handle_allow_events, handle_change_active_pointer_grab, handle_grab_button, handle_grab_key, handle_grab_keyboard,
    handle_grab_pointer, handle_grab_server, handle_ungrab_button, handle_ungrab_key, handle_ungrab_keyboard,
    handle_ungrab_pointer, handle_ungrab_server,
};
use crate::input::{
    handle_change_pointer_control, handle_get_input_focus, handle_get_keyboard_control, handle_get_modifier_mapping, handle_get_pointer_control,
    handle_get_pointer_mapping, handle_get_screen_saver, handle_list_hosts, handle_query_keymap,
    handle_set_access_control, handle_set_close_down_mode, handle_set_input_focus, handle_set_screen_saver, host_entries, input_focus_reply, keyboard_control_reply,
    keymap_reply, list_hosts_reply, modifier_mapping_reply, pointer_control_reply, pointer_mapping_reply,
    screen_saver_reply,
};
use crate::hosts::handle_change_hosts;
use crate::keyboard::handle_change_keyboard_control;
use crate::mapping::{
    entries_fit, handle_change_keyboard_mapping, handle_get_keyboard_mapping, handle_set_modifier_mapping,
    handle_set_pointer_mapping,
};
use crate::pixmap::handle_free_pixmap;
use crate::screen_saver::handle_force_screen_saver;
use crate::pointer::{handle_get_motion_events, handle_translate_coordinates};
use crate::state::{ClientState, BAD_ACCESS, BAD_REQUEST};
use crate::wire::{build_error, build_error_bo, error_packet};
use crate::drawing::copy::{copy_area_done, copy_plane_done};
use crate::drawing::gc::{change_gc_done, copy_gc_done, create_gc_done, free_gc_done, set_clip_rectangles_done, set_dashes_done};
use crate::drawing::primitives::{clear_area_done, fill_poly_done, poly_arc_done, poly_fill_arc_done, poly_fill_rectangle_done, poly_line_done, poly_point_done, poly_rectangle_done, poly_segment_done, put_image_done};
use crate::drawing::text::{image_text16_done, image_text8_done, poly_text16_done, poly_text8_done};
use crate::grab::{allow_events_done, change_active_pointer_grab_done, grab_button_done, grab_key_done, grab_keyboard_done, grab_pointer_done, grab_server_done, ungrab_button_done, ungrab_key_done, ungrab_keyboard_done, ungrab_pointer_done, ungrab_server_done};
use crate::hosts::{change_hosts_done};
use crate::input::{change_pointer_control_done, get_input_focus_done, get_keyboard_control_done, get_modifier_mapping_done, get_pointer_control_done, get_pointer_mapping_done, get_screen_saver_done, list_hosts_done, query_keymap_done, set_access_control_done, set_close_down_mode_done, set_input_focus_done, set_screen_saver_done};
use crate::keyboard::{change_keyboard_control_done};
use crate::mapping::{change_keyboard_mapping_done, get_keyboard_mapping_done, set_modifier_mapping_done, set_pointer_mapping_done};
use crate::pixmap::{free_pixmap_done};
use crate::pointer::{get_motion_events_done, translate_coordinates_done};
use crate::screen_saver::{force_screen_saver_done};
use vstd::prelude::*;

verus! {

/// Where a core request goes.
pub enum CoreRoute {
    /// An untrusted client may not change host access (ChangeHosts 109,
    /// SetAccessControl 111): BadAccess.
    Refused,
    /// NoOperation (127).
    NoOperation,
    /// A handler of this library.
    Here,
    /// A core request whose handling needs more than the request and the
    /// client state: window, property, font, colormap, cursor and
    /// KillClient requests, those that take a value from the caller (the pointer's modifiers for
    /// QueryPointer, whether memory is left for CreatePixmap, the
    /// framebuffer's pixels for GetImage) and those whose result the caller
    /// carries out (the bell for Bell, the property rotation for
    /// RotateProperties, the pointer's crossing events for WarpPointer).
    Elsewhere,
    /// An opcode the core protocol does not define: BadRequest.
    Unknown,
}

/// The core requests this library handles: the grabs (26 to 37),
/// GetMotionEvents, TranslateCoordinates, SetInputFocus, GetInputFocus, QueryKeymap, FreePixmap, the GC
/// requests and drawing (55 to 72), the text requests (74 to 77), and the
/// keyboard, pointer, screen-saver, host-access and mapping queries and
/// settings (100 to 119 but Bell, KillClient and RotateProperties).
/// The `Elsewhere` requests of this library (QueryPointer, WarpPointer,
/// CreatePixmap, GetImage, Bell, RotateProperties) are called directly by
/// the connection, which supplies or carries out what they need.
pub open spec fn handled_here(op: u8) -> bool {
    ||| 26 <= op <= 37
    ||| op == 39 || op == 40 || op == 42 || op == 43 || op == 44 || op == 54
    ||| 55 <= op <= 72
    ||| 74 <= op <= 77
    ||| op == 100 || op == 101 || op == 102 || op == 103 || op == 105 || op == 106 || op == 107 || op == 108
    ||| op == 109 || op == 110 || op == 111 || op == 112 || op == 115 || op == 116 || op == 117 || op == 118
    ||| op == 119
}

/// The route of a core request with major opcode `op`.
pub open spec fn core_route(s: ClientState, op: u8) -> CoreRoute {
    if s.input.trust_level > 0 && (op == 109 || op == 111) {
        CoreRoute::Refused
    } else if op == 127 {
        CoreRoute::NoOperation
    } else if op == 0 || op > 119 {
        CoreRoute::Unknown
    } else if handled_here(op) {
        CoreRoute::Here
    } else {
        CoreRoute::Elsewhere
    }
}

/// What a core request comes to.
pub enum CoreOutcome {
    /// Bytes to send back (empty for requests without a reply).
    Reply(Vec<u8>),
    /// The request is handled outside this library.
    Elsewhere,
}

/// Decide where a core request goes.
pub fn route_core_request(state: &ClientState, op: u8) -> (r: CoreRoute)
    ensures
        r == core_route(*state, op),
{
    if state.input.trust_level > 0 && (op == 109 || op == 111) {
        CoreRoute::Refused
    } else if op == 127 {
        CoreRoute::NoOperation
    } else if op == 0 || op > 119 {
        CoreRoute::Unknown
    } else if 26 <= op && op <= 37 || op == 39 || op == 40 || op == 42 || op == 43 || op == 44 || op == 54 || 55 <= op && op <= 72 || 74 <= op && op <= 77
        || op == 100 || op == 101 || op == 102 || op == 103 || op == 105 || op == 106 || op == 107 || op == 108 || op == 109 || op == 110
        || op == 111 || op == 112 || op == 115 || op == 116 || op == 117 || op == 118 || op == 119 {
        CoreRoute::Here
    } else {
        CoreRoute::Elsewhere
    }
}

/// What a request routed to a handler of this library comes to: the reply
/// and the client state that handler's contract gives.
pub open spec fn core_handled(s: ClientState, after: ClientState, d: Seq<u8>, seq: u16, v: Seq<u8>) -> bool {
    let op = d[0];
    if op == 26 {
        grab_pointer_done(s, after, d, seq, v)
    } else if op == 27 {
        ungrab_pointer_done(s, after, d, seq, v)
    } else if op == 28 {
        grab_button_done(s, after, d, seq, v)
    } else if op == 29 {
        ungrab_button_done(s, after, d, seq, v)
    } else if op == 30 {
        change_active_pointer_grab_done(s, after, d, seq, v)
    } else if op == 31 {
        grab_keyboard_done(s, after, d, seq, v)
    } else if op == 32 {
        ungrab_keyboard_done(s, after, d, seq, v)
    } else if op == 33 {
        grab_key_done(s, after, d, seq, v)
    } else if op == 34 {
        ungrab_key_done(s, after, d, seq, v)
    } else if op == 35 {
        allow_events_done(s, after, d, seq, v)
    } else if op == 36 {
        grab_server_done(s, after, d, seq, v)
    } else if op == 37 {
        ungrab_server_done(s, after, d, seq, v)
    } else if op == 39 {
        get_motion_events_done(s, after, d, seq, v)
    } else if op == 40 {
        translate_coordinates_done(s, s, d, seq, v) && after == s
    } else if op == 42 {
        set_input_focus_done(s, after, d, seq, v)
    } else if op == 43 {
        get_input_focus_done(s, after, d, seq, v)
    } else if op == 44 {
        query_keymap_done(s, s, Seq::<u8>::empty(), seq, v) && after == s
    } else if op == 54 {
        free_pixmap_done(s, after, d, seq, v)
    } else if op == 55 {
        create_gc_done(s, after, d, seq, v)
    } else if op == 56 {
        change_gc_done(s, after, d, seq, v)
    } else if op == 57 {
        copy_gc_done(s, after, d, seq, v)
    } else if op == 58 {
        set_dashes_done(s, after, d, seq, v)
    } else if op == 59 {
        set_clip_rectangles_done(s, after, d, seq, v)
    } else if op == 60 {
        free_gc_done(s, after, d, seq, v)
    } else if op == 61 {
        clear_area_done(s, after, d, seq, v)
    } else if op == 62 {
        copy_area_done(s, after, d, seq, v)
    } else if op == 63 {
        copy_plane_done(s, after, d, seq, v)
    } else if op == 64 {
        poly_point_done(s, after, d, seq, v)
    } else if op == 65 {
        poly_line_done(s, after, d, seq, v)
    } else if op == 66 {
        poly_segment_done(s, after, d, seq, v)
    } else if op == 67 {
        poly_rectangle_done(s, after, d, seq, v)
    } else if op == 68 {
        poly_arc_done(s, after, d, seq, v)
    } else if op == 69 {
        fill_poly_done(s, after, d, seq, v)
    } else if op == 70 {
        poly_fill_rectangle_done(s, after, d, seq, v)
    } else if op == 71 {
        poly_fill_arc_done(s, after, d, seq, v)
    } else if op == 72 {
        put_image_done(s, after, d, seq, v)
    } else if op == 74 {
        poly_text8_done(s, after, d, seq, v)
    } else if op == 75 {
        poly_text16_done(s, after, d, seq, v)
    } else if op == 76 {
        image_text8_done(s, after, d, seq, v)
    } else if op == 77 {
        image_text16_done(s, after, d, seq, v)
    } else if op == 100 {
        change_keyboard_mapping_done(s, after, d, seq, v)
    } else if op == 101 {
        get_keyboard_mapping_done(s, s, d, seq, v) && after == s
    } else if op == 102 {
        change_keyboard_control_done(s, after, d, seq, v)
    } else if op == 103 {
        get_keyboard_control_done(s, s, Seq::<u8>::empty(), seq, v) && after == s
    } else if op == 105 {
        change_pointer_control_done(s, after, d, seq, v)
    } else if op == 106 {
        get_pointer_control_done(s, s, Seq::<u8>::empty(), seq, v) && after == s
    } else if op == 107 {
        set_screen_saver_done(s, after, d, seq, v)
    } else if op == 108 {
        get_screen_saver_done(s, s, Seq::<u8>::empty(), seq, v) && after == s
    } else if op == 109 {
        change_hosts_done(s, after, d, seq, v)
    } else if op == 110 {
        list_hosts_done(s, s, Seq::<u8>::empty(), seq, v) && after == s
    } else if op == 111 {
        set_access_control_done(s, after, d, seq, v)
    } else if op == 112 {
        set_close_down_mode_done(s, after, d, seq, v)
    } else if op == 115 {
        force_screen_saver_done(s, after, d, seq, v)
    } else if op == 116 {
        set_pointer_mapping_done(s, after, d, seq, v)
    } else if op == 117 {
        get_pointer_mapping_done(s, s, Seq::<u8>::empty(), seq, v) && after == s
    } else if op == 118 {
        set_modifier_mapping_done(s, after, d, seq, v)
    } else if op == 119 {
        get_modifier_mapping_done(s, s, Seq::<u8>::empty(), seq, v) && after == s
    } else {
        false
    }
}

/// Dispatch a core request (opcodes 1 to 127) by its major opcode. A
/// request routed here gets what its handler's contract says.
pub fn handle_core_request(state: &mut ClientState, data: &[u8]) -> (r: CoreOutcome)
    requires
        data@.len() >= 2,
        data@[0] == 36 ==> old(state).grabs.server_grab_count < u32::MAX,
        data@[0] == 39 ==> old(state).motion_history@.len() <= 0x1000_0000,
        data@[0] == 62 || data@[0] == 63 ==> old(state).pending_events@.len() + 5 <= usize::MAX,
        data@[0] == 110 ==> host_entries(old(state).input.access_hosts@, old(state).input.access_hosts@.len() as int).len()
            <= 0xFFFF_FFFF,
        data@[0] == 101 ==> entries_fit(old(state).input.custom_keymap@),
        data@[0] == 117 ==> old(state).input.pointer_mapping@.len() <= 255,
        data@[0] == 119 ==> old(state).input.modifier_map@.len() <= 8 && forall|i: int|
            0 <= i < old(state).input.modifier_map@.len() ==> old(state).input.modifier_map@[i]@.len() <= 255,
    ensures
        ({
            let s = *old(state);
            let op = data@[0];
            let seq = s.sequence;
            match core_route(s, op) {
                CoreRoute::Refused => r matches CoreOutcome::Reply(v) && v@ == error_packet(BAD_ACCESS, seq, 0, op, 0, false)
                    && *final(state) == s,
                CoreRoute::NoOperation => r matches CoreOutcome::Reply(v) && v@ == Seq::<u8>::empty() && *final(state) == s,
                CoreRoute::Unknown => r matches CoreOutcome::Reply(v) && v@ == error_packet(BAD_REQUEST, seq, op as u32, op,
                    data@[1] as u16, s.msb_first) && *final(state) == s,
                CoreRoute::Elsewhere => r is Elsewhere && *final(state) == s,
                CoreRoute::Here => r matches CoreOutcome::Reply(v) && core_handled(s, *final(state), data@, seq, v@),
            }
        }),
{
    let op = data[0];
    let seq = state.sequence;
    match route_core_request(state, op) {
        CoreRoute::Refused => {
            return CoreOutcome::Reply(build_error(BAD_ACCESS, seq, 0, op, 0));
        },
        CoreRoute::NoOperation => {
            return CoreOutcome::Reply(Vec::new());
        },
        CoreRoute::Unknown => {
            return CoreOutcome::Reply(build_error_bo(BAD_REQUEST, seq, op as u32, op, data[1] as u16, state.msb_first));
        },
        CoreRoute::Elsewhere => {
            return CoreOutcome::Elsewhere;
        },
        CoreRoute::Here => {},
    }
    let v = if op == 26 {
        handle_grab_pointer(state, data, seq)
    } else if op == 27 {
        handle_ungrab_pointer(state, data)
    } else if op == 28 {
        handle_grab_button(state, data, seq)
    } else if op == 29 {
        handle_ungrab_button(state, data, seq)
    } else if op == 30 {
        handle_change_active_pointer_grab(state, data, seq)
    } else if op == 31 {
        handle_grab_keyboard(state, data, seq)
    } else if op == 32 {
        handle_ungrab_keyboard(state, data)
    } else if op == 33 {
        handle_grab_key(state, data, seq)
    } else if op == 34 {
        handle_ungrab_key(state, data, seq)
    } else if op == 35 {
        handle_allow_events(state, data)
    } else if op == 36 {
        handle_grab_server(state, data)
    } else if op == 37 {
        handle_ungrab_server(state, data)
    } else if op == 39 {
        handle_get_motion_events(state, data, seq)
    } else if op == 40 {
        handle_translate_coordinates(state, data, seq)
    } else if op == 42 {
        handle_set_input_focus(state, data)
    } else if op == 43 {
        handle_get_input_focus(state, data, seq)
    } else if op == 44 {
        handle_query_keymap(state, seq)
    } else if op == 54 {
        handle_free_pixmap(state, data)
    } else if op == 55 {
        handle_create_gc(state, data)
    } else if op == 56 {
        handle_change_gc(state, data)
    } else if op == 57 {
        handle_copy_gc(state, data)
    } else if op == 58 {
        handle_set_dashes(state, data)
    } else if op == 59 {
        handle_set_clip_rectangles(state, data)
    } else if op == 60 {
        handle_free_gc(state, data)
    } else if op == 61 {
        handle_clear_area(state, data)
    } else if op == 62 {
        handle_copy_area(state, data)
    } else if op == 63 {
        handle_copy_plane(state, data)
    } else if op == 64 {
        handle_poly_point(state, data)
    } else if op == 65 {
        handle_poly_line(state, data)
    } else if op == 66 {
        handle_poly_segment(state, data)
    } else if op == 67 {
        handle_poly_rectangle(state, data)
    } else if op == 68 {
        handle_poly_arc(state, data)
    } else if op == 69 {
        handle_fill_poly(state, data)
    } else if op == 70 {
        handle_poly_fill_rectangle(state, data)
    } else if op == 71 {
        handle_poly_fill_arc(state, data)
    } else if op == 72 {
        handle_put_image(state, data)
    } else if op == 74 {
        handle_poly_text8(state, data)
    } else if op == 75 {
        handle_poly_text16(state, data)
    } else if op == 76 {
        handle_image_text8(state, data)
    } else if op == 77 {
        handle_image_text16(state, data)
    } else if op == 100 {
        handle_change_keyboard_mapping(state, data, seq)
    } else if op == 101 {
        handle_get_keyboard_mapping(state, data, seq)
    } else if op == 102 {
        handle_change_keyboard_control(state, data)
    } else if op == 103 {
        handle_get_keyboard_control(state, seq)
    } else if op == 105 {
        handle_change_pointer_control(state, data)
    } else if op == 106 {
        handle_get_pointer_control(state, seq)
    } else if op == 107 {
        handle_set_screen_saver(state, data)
    } else if op == 108 {
        handle_get_screen_saver(state, seq)
    } else if op == 109 {
        handle_change_hosts(state, data)
    } else if op == 110 {
        handle_list_hosts(state, seq)
    } else if op == 111 {
        handle_set_access_control(state, data)
    } else if op == 112 {
        handle_set_close_down_mode(state, data)
    } else if op == 115 {
        handle_force_screen_saver(state, data, seq)
    } else if op == 116 {
        handle_set_pointer_mapping(state, data, seq)
    } else if op == 117 {
        handle_get_pointer_mapping(state, seq)
    } else if op == 118 {
        handle_set_modifier_mapping(state, data, seq)
    } else {
        handle_get_modifier_mapping(state, seq)
    };
    CoreOutcome::Reply(v)
}

} // verus!
