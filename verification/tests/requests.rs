//! Request handlers driven through a client connection's state.

use sidecar::cursor::{cursor_update, CursorFrame, CursorImage, CursorPicture};
use sidecar::drawing::copy::CopyMode;
use sidecar::drawing::gc::GcState;
use sidecar::drawing::image::{image_style_of, paint_queued_image};
use sidecar::drawing::primitives::{DrawOp, Paint, Shape};
use sidecar::drawing::{apply_rop, intersect_rects, should_draw_pixel};
use sidecar::glx::blit::blit_osmesa_to_drawable;
use sidecar::glx::context::GlxState;
use sidecar::dri3::{
    buffer_reply, buffers_reply, fence_fd_reply, handle_dri3_request, open_reply, Dri3Outcome,
};
use sidecar::grab::{
    check_button_release_ungrab, check_passive_button_grab, check_passive_key_grab, check_pointer_sync_freeze,
    clamp_to_confine, handle_allow_events, handle_change_active_pointer_grab, handle_grab_button,
    handle_grab_keyboard, handle_grab_key, handle_grab_pointer, handle_grab_server, handle_ungrab_button,
    handle_ungrab_key, handle_ungrab_keyboard, handle_ungrab_pointer, handle_ungrab_server, GrabState, ServerGrabChange,
    MAX_FROZEN_EVENTS,
};
use sidecar::input::{InputState, KeyboardControl, PointerControl, ScreenSaver};
use sidecar::mapping::{
    handle_change_keyboard_mapping, handle_get_keyboard_mapping, handle_set_modifier_mapping, handle_set_pointer_mapping,
};
use sidecar::present::{
    convert_mono_pixels, copy_pixels, handle_present_request, plan_present_copies, PresentCopy, PresentOutcome, PresentPixmap,
};
use sidecar::region::{RegionRect, XFixesRegion};
use sidecar::requests::{handle_core_request, route_core_request, CoreOutcome, CoreRoute};
use sidecar::state::{ClientState, PixmapState, WindowState};
use std::collections::HashMap;
use std::io::Read;

fn client() -> ClientState {
    ClientState {
        msb_first: false,
        sequence: 7,
        now: 1000,
        root_window: 1,
        screen_width: 800,
        screen_height: 600,
        pointer_x: 10,
        pointer_y: 20,
        last_entered_window: 1,
        windows: HashMap::new(),
        pixmaps: HashMap::new(),
        cursors: HashMap::new(),
        gcs: HashMap::new(),
        grabs: GrabState::default(),
        glx: GlxState { contexts: HashMap::new(), current_context: 0, current_drawable: 0, next_tag: 1 },
        input: InputState {
            focus_window: 1,
            focus_revert_to: 0,
            pressed_keys: [0; 32],
            keyboard_control: KeyboardControl::default(),
            pointer_control: PointerControl { acceleration_numerator: 2, acceleration_denominator: 1, threshold: 4 },
            screen_saver: ScreenSaver {
                timeout: 600,
                interval: 600,
                prefer_blanking: 1,
                allow_exposures: 1,
                active: false,
                last_reset_ms: 0,
            },
            screen_saver_event_mask: 0,
            screen_saver_window: 0,
            access_hosts: Vec::new(),
            access_control_enabled: false,
            close_down_mode: 0,
            pointer_mapping: vec![1, 2, 3, 4, 5, 6, 7],
            modifier_map: Vec::new(),
            custom_keymap: HashMap::new(),
            trust_level: 0,
        },
        pending_events: Vec::new(),
        crossings: Vec::new(),
        recycled_xids: Vec::new(),
        resource_id_base: 0x0040_0000,
        next_xid: 0x0040_0000,
        present_subscriptions: Vec::new(),
        present_msc: 0,
        damage_regions: HashMap::new(),
        xfixes_regions: HashMap::new(),
        damage_reports: Vec::new(),
        overlay_window: 0x0020_0001,
        overlay_ref_count: 0,
        draw_ops: Vec::new(),
        broadcasts: Vec::new(),
        back_buffers: HashMap::new(),
        dbe_idiom_depth: 0,
        dpms_standby_timeout: 600,
        dpms_suspend_timeout: 600,
        dpms_off_timeout: 600,
        dpms_enabled: true,
        dpms_power_level: 0,
        pointer_button_mask: 0,
        motion_hint_suppressed: false,
        motion_history: Vec::new(),
        server_grab_changes: Vec::new(),
        cursor_images: HashMap::new(),
        current_cursor: 0,
        cursor_event_subscribers: Vec::new(),
        global_events: Vec::new(),
        pending_fds: Vec::new(),
        reply_fds: Vec::new(),
        fences: HashMap::new(),
        dri3_drm_device: None,
        font_path: Vec::new(),
        children_order: HashMap::new(),
    }
}

fn add_window(s: &mut ClientState, id: u32, parent: u32, x: i16, y: i16, mapped: bool) {
    s.windows.insert(id, WindowState {
        id,
        parent,
        x,
        y,
        width: 100,
        height: 50,
        depth: 24,
        class: 1,
        mapped,
        event_mask: 0,
        background_pixel: 0,
        override_redirect: false,
        redirected: false,
        cursor: None,
    });
}

fn le32(v: u32) -> [u8; 4] {
    v.to_le_bytes()
}

fn request(len: usize, fields: &[(usize, &[u8])]) -> Vec<u8> {
    let mut d = vec![0u8; len];
    for (off, bytes) in fields {
        d[*off..*off + bytes.len()].copy_from_slice(bytes);
    }
    d
}

fn grab_pointer_request(window: u32, pointer_mode: u8, keyboard_mode: u8, confine_to: u32, time: u32) -> Vec<u8> {
    let mut d = request(24, &[(4, &le32(window)), (8, &[0x04, 0]), (12, &le32(confine_to)), (20, &le32(time))]);
    d[0] = 26;
    d[1] = 1;
    d[10] = pointer_mode;
    d[11] = keyboard_mode;
    d
}

fn grab_button_request(window: u32, button: u8, modifiers: u16, pointer_mode: u8) -> Vec<u8> {
    let mut d = request(24, &[(4, &le32(window)), (8, &[0x04, 0]), (22, &modifiers.to_le_bytes())]);
    d[0] = 28;
    d[10] = pointer_mode;
    d[20] = button;
    d
}

#[test]
fn grab_pointer_grants_and_replies_success() {
    let mut s = client();
    add_window(&mut s, 0x10, 1, 5, 5, true);
    let r = handle_grab_pointer(&mut s, &grab_pointer_request(0x10, 0, 0, 0, 0), 7);
    assert_eq!(r.len(), 32);
    assert_eq!(&r[0..4], &[1, 0, 7, 0]);
    let g = s.grabs.pointer_grab.expect("grab");
    assert_eq!(g.grab_window, 0x10);
    assert_eq!(g.event_mask, 4);
    assert!(g.owner_events);
    assert_eq!(s.crossings.len(), 1);
    assert_eq!((s.crossings[0].from, s.crossings[0].to, s.crossings[0].mode), (1, 0x10, 1));
    assert_eq!((s.crossings[0].x, s.crossings[0].y), (10, 20));
    assert_eq!(s.last_entered_window, 0x10);
}

#[test]
fn grab_pointer_big_endian_status_reply() {
    let mut s = client();
    s.msb_first = true;
    let mut d = grab_pointer_request(0, 0, 0, 0, 0);
    d[4..8].copy_from_slice(&1u32.to_be_bytes());
    let r = handle_grab_pointer(&mut s, &d, 0x0102);
    assert_eq!(&r[0..4], &[1, 0, 1, 2]);
}

#[test]
fn grab_pointer_unknown_window_is_bad_window() {
    let mut s = client();
    let r = handle_grab_pointer(&mut s, &grab_pointer_request(0x99, 0, 0, 0, 0), 7);
    assert_eq!(r[0], 0);
    assert_eq!(r[1], 3);
    assert_eq!(&r[4..8], &le32(0x99));
    assert_eq!(r[10], 26);
    assert!(s.grabs.pointer_grab.is_none());
}

#[test]
fn grab_pointer_short_request_is_bad_length() {
    let mut s = client();
    let r = handle_grab_pointer(&mut s, &[26, 0, 2, 0, 1, 0, 0, 0], 7);
    assert_eq!((r[0], r[1], r[10]), (0, 16, 26));
}

#[test]
fn grab_pointer_unknown_cursor_is_bad_cursor() {
    let mut s = client();
    let mut d = grab_pointer_request(1, 0, 0, 0, 0);
    d[16..20].copy_from_slice(&le32(0x77));
    let r = handle_grab_pointer(&mut s, &d, 7);
    assert_eq!((r[0], r[1]), (0, 6));
    s.cursors.insert(0x77, "pointer".to_string());
    let r = handle_grab_pointer(&mut s, &d, 7);
    assert_eq!((r[0], r[1]), (1, 0));
}

#[test]
fn grab_pointer_on_unmapped_window_is_not_viewable() {
    let mut s = client();
    add_window(&mut s, 0x10, 1, 0, 0, false);
    let r = handle_grab_pointer(&mut s, &grab_pointer_request(0x10, 0, 0, 0, 0), 7);
    assert_eq!((r[0], r[1]), (1, 3));
    assert!(s.grabs.pointer_grab.is_none());
}

#[test]
fn grab_pointer_with_future_time_is_invalid_time() {
    let mut s = client();
    let r = handle_grab_pointer(&mut s, &grab_pointer_request(1, 0, 0, 0, 1005), 7);
    assert_eq!(r[1], 2);
    let r = handle_grab_pointer(&mut s, &grab_pointer_request(1, 0, 0, 0, 995), 7);
    assert_eq!(r[1], 0);
}

#[test]
fn grab_pointer_while_frozen_elsewhere_reports_frozen() {
    let mut s = client();
    s.grabs.pointer_frozen = true;
    let r = handle_grab_pointer(&mut s, &grab_pointer_request(1, 0, 0, 0, 0), 7);
    assert_eq!(r[1], 4);
}

#[test]
fn sync_pointer_grab_queues_events_until_ungrab() {
    let mut s = client();
    add_window(&mut s, 0x10, 1, 0, 0, true);
    handle_grab_pointer(&mut s, &grab_pointer_request(0x10, 1, 0, 0, 0), 7);
    assert!(s.grabs.pointer_frozen);
    assert!(check_pointer_sync_freeze(&mut s, &[5u8; 32]));
    assert_eq!(s.grabs.frozen_pointer_events.len(), 1);
    assert!(s.pending_events.is_empty());
    let r = handle_ungrab_pointer(&mut s, &[27, 0, 2, 0]);
    assert!(r.is_empty());
    assert!(s.grabs.pointer_grab.is_none());
    assert!(!s.grabs.pointer_frozen);
    assert_eq!(s.pending_events, vec![vec![5u8; 32]]);
    assert_eq!(s.crossings.len(), 2);
    assert_eq!((s.crossings[1].from, s.crossings[1].to, s.crossings[1].mode), (0x10, 1, 2));
}

#[test]
fn confine_to_root_clamps_to_screen() {
    let mut s = client();
    handle_grab_pointer(&mut s, &grab_pointer_request(1, 0, 0, 1, 0), 7);
    assert_eq!(s.grabs.pointer_grab.unwrap().confine_bounds, Some((0, 0, 800, 600)));
    assert_eq!(clamp_to_confine(&s, 900, -5), (799, 0));
    assert_eq!(clamp_to_confine(&s, 300, 200), (300, 200));
}

#[test]
fn confine_to_child_window_uses_screen_position() {
    let mut s = client();
    add_window(&mut s, 0x10, 1, 100, 50, true);
    add_window(&mut s, 0x20, 0x10, 10, 5, true);
    handle_grab_pointer(&mut s, &grab_pointer_request(0x10, 0, 0, 0x20, 0), 7);
    assert_eq!(s.grabs.pointer_grab.unwrap().confine_bounds, Some((110, 55, 210, 105)));
    assert_eq!(clamp_to_confine(&s, 0, 0), (110, 55));
}

#[test]
fn grab_button_request_replaces_and_orders_newest_first() {
    let mut s = client();
    assert!(handle_grab_button(&mut s, &grab_button_request(1, 1, 0, 0), 7).is_empty());
    assert!(handle_grab_button(&mut s, &grab_button_request(1, 2, 0, 0), 7).is_empty());
    assert!(handle_grab_button(&mut s, &grab_button_request(1, 1, 0, 1), 7).is_empty());
    assert_eq!(s.grabs.button_grabs.len(), 2);
    assert_eq!((s.grabs.button_grabs[0].button, s.grabs.button_grabs[0].pointer_mode), (1, 1));
    assert_eq!(s.grabs.button_grabs[1].button, 2);
}

#[test]
fn ungrab_button_any_removes_only_that_window() {
    let mut s = client();
    add_window(&mut s, 0x10, 1, 0, 0, true);
    handle_grab_button(&mut s, &grab_button_request(1, 1, 0, 0), 7);
    handle_grab_button(&mut s, &grab_button_request(0x10, 3, 4, 0), 7);
    handle_grab_button(&mut s, &grab_button_request(1, 2, 0, 0), 7);
    let mut d = request(12, &[(4, &le32(1)), (8, &[0x00, 0x80])]);
    d[1] = 0;
    assert!(handle_ungrab_button(&mut s, &d, 7).is_empty());
    assert_eq!(s.grabs.button_grabs.len(), 1);
    assert_eq!(s.grabs.button_grabs[0].grab_window, 0x10);
}

#[test]
fn ungrab_button_exact_triple() {
    let mut s = client();
    handle_grab_button(&mut s, &grab_button_request(1, 1, 0, 0), 7);
    handle_grab_button(&mut s, &grab_button_request(1, 1, 4, 0), 7);
    let mut d = request(12, &[(4, &le32(1)), (8, &[4, 0])]);
    d[1] = 1;
    handle_ungrab_button(&mut s, &d, 7);
    assert_eq!(s.grabs.button_grabs.len(), 1);
    assert_eq!(s.grabs.button_grabs[0].modifiers, 0);
}

#[test]
fn grab_button_on_unknown_window_is_bad_window() {
    let mut s = client();
    let r = handle_grab_button(&mut s, &grab_button_request(0x55, 1, 0, 0), 7);
    assert_eq!((r[0], r[1], r[10]), (0, 3, 28));
    assert!(s.grabs.button_grabs.is_empty());
}

#[test]
fn passive_button_grab_activates_on_ancestor() {
    let mut s = client();
    add_window(&mut s, 0x10, 1, 0, 0, true);
    add_window(&mut s, 0x20, 0x10, 0, 0, true);
    handle_grab_button(&mut s, &grab_button_request(0x10, 0, 0x8000, 1), 7);
    assert!(check_passive_button_grab(&mut s, 3, 0x0001, 0x20));
    let g = s.grabs.pointer_grab.expect("activated");
    assert_eq!(g.grab_window, 0x10);
    assert!(s.grabs.pointer_frozen);
    assert_eq!(s.last_entered_window, 0x10);
}

#[test]
fn passive_button_grab_without_match_changes_nothing() {
    let mut s = client();
    add_window(&mut s, 0x10, 1, 0, 0, true);
    handle_grab_button(&mut s, &grab_button_request(0x10, 2, 0, 0), 7);
    assert!(!check_passive_button_grab(&mut s, 1, 0, 0x10));
    assert!(s.grabs.pointer_grab.is_none());
    assert!(s.crossings.is_empty());
}

#[test]
fn button_release_with_no_button_held_ends_the_grab() {
    let mut s = client();
    add_window(&mut s, 0x10, 1, 0, 0, true);
    handle_grab_button(&mut s, &grab_button_request(0x10, 1, 0, 0), 7);
    assert!(check_passive_button_grab(&mut s, 1, 0, 0x10));
    check_button_release_ungrab(&mut s, 1, 0x0200);
    assert!(s.grabs.pointer_grab.is_some());
    check_button_release_ungrab(&mut s, 1, 0x0001);
    assert!(s.grabs.pointer_grab.is_none());
}

#[test]
fn passive_key_grab_activates_keyboard_grab() {
    let mut s = client();
    let mut d = request(16, &[(4, &le32(1)), (8, &[0x00, 0x80])]);
    d[10] = 38;
    d[12] = 1;
    assert!(handle_grab_key(&mut s, &d, 7).is_empty());
    assert!(check_passive_key_grab(&mut s, 38, 0x0004, 1));
    assert_eq!(s.grabs.keyboard_grab.unwrap().grab_window, 1);
    assert!(s.grabs.keyboard_frozen);
    assert!(!check_passive_key_grab(&mut s, 39, 0, 0x44));
    let mut u = request(12, &[(4, &le32(1)), (8, &[0x00, 0x80])]);
    u[1] = 0;
    handle_ungrab_key(&mut s, &u, 7);
    assert!(s.grabs.key_grabs.is_empty());
}

#[test]
fn allow_events_sync_pointer_delivers_one_then_refreezes() {
    let mut s = client();
    s.grabs.pointer_frozen = true;
    s.grabs.frozen_pointer_events.push(vec![1; 32]);
    handle_allow_events(&mut s, &[35, 1, 2, 0, 0, 0, 0, 0]);
    assert_eq!(s.pending_events, vec![vec![1u8; 32]]);
    assert!(!s.grabs.pointer_frozen);
    assert!(s.grabs.pointer_sync_pending);
    assert!(!check_pointer_sync_freeze(&mut s, &[2; 32]));
    assert!(s.grabs.pointer_frozen);
    assert!(check_pointer_sync_freeze(&mut s, &[3; 32]));
    assert_eq!(s.grabs.frozen_pointer_events, vec![vec![3u8; 32]]);
}

#[test]
fn allow_events_async_both_delivers_pointer_then_keyboard_events() {
    let mut s = client();
    s.grabs.pointer_frozen = true;
    s.grabs.keyboard_frozen = true;
    s.grabs.frozen_pointer_events.push(vec![1; 32]);
    s.grabs.frozen_keyboard_events.push(vec![2; 32]);
    handle_allow_events(&mut s, &[35, 6, 2, 0]);
    assert_eq!(s.pending_events, vec![vec![1u8; 32], vec![2u8; 32]]);
    assert!(!s.grabs.pointer_frozen && !s.grabs.keyboard_frozen);
}

#[test]
fn allow_events_replay_pointer_releases_the_grab() {
    let mut s = client();
    add_window(&mut s, 0x10, 1, 0, 0, true);
    handle_grab_pointer(&mut s, &grab_pointer_request(0x10, 1, 0, 0, 0), 7);
    handle_allow_events(&mut s, &[35, 2, 2, 0]);
    assert!(s.grabs.pointer_grab.is_none());
    assert!(!s.grabs.pointer_frozen);
    assert_eq!(s.last_entered_window, 1);
}

#[test]
fn allow_events_short_or_unknown_mode_changes_nothing() {
    let mut s = client();
    s.grabs.pointer_frozen = true;
    handle_allow_events(&mut s, &[35, 0]);
    handle_allow_events(&mut s, &[35, 9, 2, 0]);
    assert!(s.grabs.pointer_frozen);
}

#[test]
fn frozen_queue_drops_oldest_beyond_bound() {
    let mut s = client();
    s.grabs.pointer_frozen = true;
    for i in 0..MAX_FROZEN_EVENTS + 3 {
        let ev = [(i % 251) as u8; 4];
        assert!(check_pointer_sync_freeze(&mut s, &ev));
    }
    assert_eq!(s.grabs.frozen_pointer_events.len(), MAX_FROZEN_EVENTS);
    assert_eq!(s.grabs.frozen_pointer_events[0], vec![3u8; 4]);
}

#[test]
fn server_grab_nests_and_stops_at_zero() {
    let mut s = client();
    handle_grab_server(&mut s, &[36, 0, 1, 0]);
    handle_grab_server(&mut s, &[36, 0, 1, 0]);
    assert_eq!(s.grabs.server_grab_count, 2);
    assert_eq!(s.server_grab_changes, vec![ServerGrabChange::Hold, ServerGrabChange::Hold]);
    handle_ungrab_server(&mut s, &[37, 0, 1, 0]);
    assert_eq!(s.grabs.server_grab_count, 1);
    assert_eq!(s.server_grab_changes.len(), 2);
    handle_ungrab_server(&mut s, &[37, 0, 1, 0]);
    assert_eq!(s.grabs.server_grab_count, 0);
    assert_eq!(s.server_grab_changes[2], ServerGrabChange::Release);
    handle_ungrab_server(&mut s, &[37, 0, 1, 0]);
    assert_eq!(s.grabs.server_grab_count, 0);
    assert_eq!(s.server_grab_changes.len(), 4);
}

#[test]
fn change_active_pointer_grab_updates_cursor_and_mask() {
    let mut s = client();
    handle_grab_pointer(&mut s, &grab_pointer_request(1, 0, 0, 0, 0), 7);
    s.cursors.insert(0x30, "wait".to_string());
    let d = request(16, &[(4, &le32(0x30)), (12, &[0x0c, 0x00])]);
    assert!(handle_change_active_pointer_grab(&mut s, &d, 7).is_empty());
    let g = s.grabs.pointer_grab.unwrap();
    assert_eq!((g.cursor, g.event_mask), (0x30, 0x0c));
    let bad = request(16, &[(4, &le32(0x31))]);
    let r = handle_change_active_pointer_grab(&mut s, &bad, 7);
    assert_eq!((r[1], r[10]), (6, 30));
}

#[test]
fn ungrab_keyboard_thaws_pointer_frozen_by_it() {
    let mut s = client();
    let mut d = request(16, &[(4, &le32(1))]);
    d[12] = 1;
    d[13] = 0;
    let r = handle_grab_keyboard(&mut s, &d, 7);
    assert_eq!(r[1], 0);
    assert!(s.grabs.pointer_frozen);
    s.grabs.frozen_pointer_events.push(vec![9; 32]);
    handle_ungrab_keyboard(&mut s, &[32, 0, 1, 0]);
    assert!(s.grabs.keyboard_grab.is_none());
    assert!(!s.grabs.pointer_frozen);
    assert_eq!(s.pending_events, vec![vec![9u8; 32]]);
}

fn gc_request(opcode: u8, id: u32, second: u32, mask: u32, values: &[u32]) -> Vec<u8> {
    let mut d = vec![opcode, 0, 0, 0];
    d.extend_from_slice(&le32(id));
    if opcode == 55 {
        d.extend_from_slice(&le32(second));
    }
    d.extend_from_slice(&le32(mask));
    for v in values {
        d.extend_from_slice(&le32(*v));
    }
    d
}

#[test]
fn create_gc_applies_value_list_over_defaults() {
    let mut s = client();
    add_window(&mut s, 0x10, 1, 0, 0, true);
    let r = sidecar::drawing::gc::handle_create_gc(&mut s, &gc_request(55, 0x0040_0001, 0x10, 0b101, &[6, 0xFF0000]));
    assert!(r.is_empty());
    let g = &s.gcs[&0x0040_0001];
    assert_eq!((g.function, g.foreground, g.background, g.plane_mask), (6, 0xFF0000, 1, 0xFFFF_FFFF));
    assert!(g.graphics_exposures);
}

#[test]
fn create_gc_errors() {
    let mut s = client();
    add_window(&mut s, 0x10, 1, 0, 0, true);
    let r = sidecar::drawing::gc::handle_create_gc(&mut s, &gc_request(55, 0x0040_0001, 0x10, 1, &[16]));
    assert_eq!((r[1], &r[4..8]), (2, &le32(16)[..]));
    let r = sidecar::drawing::gc::handle_create_gc(&mut s, &gc_request(55, 0x0080_0001, 0x10, 0, &[]));
    assert_eq!(r[1], 14);
    let r = sidecar::drawing::gc::handle_create_gc(&mut s, &gc_request(55, 0x0040_0001, 0x99, 0, &[]));
    assert_eq!(r[1], 9);
    assert!(s.gcs.is_empty());
    sidecar::drawing::gc::handle_create_gc(&mut s, &gc_request(55, 0x0040_0001, 0x10, 0, &[]));
    let r = sidecar::drawing::gc::handle_create_gc(&mut s, &gc_request(55, 0x0040_0001, 0x10, 0, &[]));
    assert_eq!(r[1], 14);
}

#[test]
fn change_gc_keeps_values_before_a_refused_one() {
    let mut s = client();
    s.gcs.insert(5, GcState::default());
    let r = sidecar::drawing::gc::handle_change_gc(&mut s, &gc_request(56, 5, 0, (1 << 2) | (1 << 5), &[0x00AB_CDEF, 7]));
    assert_eq!((r[1], &r[4..8], r[10]), (2, &le32(7)[..], 56));
    assert_eq!(s.gcs[&5].foreground, 0x00AB_CDEF);
    assert_eq!(s.gcs[&5].line_style, 0);
}

#[test]
fn change_gc_clip_origin_moves_bitmap_rectangles() {
    let mut s = client();
    let mut g = GcState::default();
    g.clip_mask = 0x77;
    g.clip_mask_bitmap = Some(vec![(0, 0, 4, 4), (8, 1, 2, 2)]);
    s.gcs.insert(5, g);
    sidecar::drawing::gc::handle_change_gc(&mut s, &gc_request(56, 5, 0, (1 << 17) | (1 << 18), &[10, 20]));
    assert_eq!(s.gcs[&5].clip_rects, vec![(10, 20, 4, 4), (18, 21, 2, 2)]);
    sidecar::drawing::gc::handle_change_gc(&mut s, &gc_request(56, 5, 0, 1 << 19, &[0]));
    assert!(s.gcs[&5].clip_rects.is_empty());
    assert!(s.gcs[&5].clip_mask_bitmap.is_none());
}

#[test]
fn copy_gc_copies_named_components_only() {
    let mut s = client();
    let mut a = GcState::default();
    a.foreground = 0x11;
    a.background = 0x22;
    a.dashes = 9;
    a.dash_list = vec![3, 1];
    s.gcs.insert(1, a);
    s.gcs.insert(2, GcState::default());
    let d = request(16, &[(4, &le32(1)), (8, &le32(2)), (12, &le32((1 << 2) | (1 << 21)))]);
    assert!(sidecar::drawing::gc::handle_copy_gc(&mut s, &d).is_empty());
    let b = &s.gcs[&2];
    assert_eq!((b.foreground, b.background, b.dashes), (0x11, 1, 9));
    assert_eq!(b.dash_list, vec![3, 1]);
    let missing = request(16, &[(4, &le32(1)), (8, &le32(3))]);
    assert_eq!(sidecar::drawing::gc::handle_copy_gc(&mut s, &missing)[1], 13);
}

#[test]
fn set_dashes_validates_and_stores() {
    let mut s = client();
    s.gcs.insert(5, GcState::default());
    let ok = [58, 0, 0, 0, 5, 0, 0, 0, 2, 0, 3, 0, 4, 2, 6];
    assert!(sidecar::drawing::gc::handle_set_dashes(&mut s, &ok).is_empty());
    assert_eq!(s.gcs[&5].dash_list, vec![4, 2, 6]);
    assert_eq!(s.gcs[&5].dash_offset, 2);
    let zero = [58, 0, 0, 0, 5, 0, 0, 0, 0, 0, 2, 0, 4, 0];
    assert_eq!(sidecar::drawing::gc::handle_set_dashes(&mut s, &zero)[1], 2);
    let long = [58, 0, 0, 0, 5, 0, 0, 0, 0, 0, 9, 0, 4];
    assert_eq!(sidecar::drawing::gc::handle_set_dashes(&mut s, &long)[1], 16);
    let none = [58, 0, 0, 0, 5, 0, 0, 0, 0, 0, 0, 0];
    assert_eq!(sidecar::drawing::gc::handle_set_dashes(&mut s, &none)[1], 2);
    assert_eq!(s.gcs[&5].dash_list, vec![4, 2, 6]);
}

#[test]
fn set_clip_rectangles_applies_origin_and_clips() {
    let mut s = client();
    let mut g = GcState::default();
    g.clip_mask = 9;
    s.gcs.insert(5, g);
    let mut d = vec![59, 0, 0, 0, 5, 0, 0, 0, 100, 0, 50, 0];
    d.extend_from_slice(&[0, 0, 0, 0, 10, 0, 10, 0]);
    d.extend_from_slice(&[20, 0, 0, 0, 5, 0, 5, 0]);
    d.extend_from_slice(&[1, 2, 3]);
    assert!(sidecar::drawing::gc::handle_set_clip_rectangles(&mut s, &d).is_empty());
    let g = &s.gcs[&5];
    assert_eq!(g.clip_rects, vec![(100, 50, 10, 10), (120, 50, 5, 5)]);
    assert_eq!(g.clip_mask, 0);
    assert!(should_draw_pixel(105, 55, &g.clip_rects));
    assert!(should_draw_pixel(124, 54, &g.clip_rects));
    assert!(!should_draw_pixel(110, 55, &g.clip_rects));
    assert!(should_draw_pixel(-3, 9999, &[]));
}

#[test]
fn free_gc_removes_and_recycles_id() {
    let mut s = client();
    s.gcs.insert(5, GcState::default());
    assert!(sidecar::drawing::gc::handle_free_gc(&mut s, &[60, 0, 2, 0, 5, 0, 0, 0]).is_empty());
    assert!(s.gcs.is_empty());
    assert_eq!(s.recycled_xids, vec![5]);
    let r = sidecar::drawing::gc::handle_free_gc(&mut s, &[60, 0, 2, 0, 5, 0, 0, 0]);
    assert_eq!((r[1], r[10]), (13, 60));
}

#[test]
fn intersect_rects_and_rops() {
    assert_eq!(intersect_rects(0, 0, 10, 10, 5, 5, 10, 10), (5, 5, 5, 5));
    assert_eq!(intersect_rects(0, 0, 10, 10, 20, 20, 5, 5), (0, 0, 0, 0));
    assert_eq!(intersect_rects(-5, -5, 10, 10, 0, 0, 100, 100), (0, 0, 5, 5));
    let (s, d) = (0x1234_5678u32, 0x0F0F_0F0Fu32);
    assert_eq!(apply_rop(6, s, apply_rop(6, s, d)), d);
}

#[test]
fn input_focus_and_control_replies() {
    let mut s = client();
    s.input.focus_window = 0x10;
    s.input.focus_revert_to = 2;
    let r = sidecar::input::handle_get_input_focus(&mut s, &[43, 0, 1, 0], 9);
    assert_eq!(r.len(), 32);
    assert_eq!(&r[0..12], &[1, 2, 9, 0, 0, 0, 0, 0, 0x10, 0, 0, 0]);
    let k = sidecar::input::handle_get_keyboard_control(&s, 9);
    assert_eq!(k.len(), 52);
    assert_eq!(&k[0..8], &[1, 1, 9, 0, 5, 0, 0, 0]);
    assert_eq!(&k[12..18], &[0, 50, 0x90, 0x01, 100, 0]);
    assert!(k[20..52].iter().all(|b| *b == 0xFF));
    let p = sidecar::input::handle_get_pointer_control(&s, 9);
    assert_eq!(&p[8..14], &[2, 0, 1, 0, 4, 0]);
    let ss = sidecar::input::handle_get_screen_saver(&s, 9);
    assert_eq!(&ss[8..14], &[0x58, 0x02, 0x58, 0x02, 1, 1]);
}

#[test]
fn query_keymap_reports_first_eight_bytes() {
    let mut s = client();
    s.input.pressed_keys[0] = 0x81;
    s.input.pressed_keys[9] = 0xFF;
    let r = sidecar::input::handle_query_keymap(&s, 3);
    assert_eq!(r.len(), 40);
    assert_eq!(&r[4..8], &[2, 0, 0, 0]);
    assert_eq!(r[32], 0x81);
    assert!(r[33..40].iter().all(|b| *b == 0));
}

#[test]
fn list_hosts_encodes_entries() {
    let mut s = client();
    s.input.access_control_enabled = true;
    s.input.access_hosts.push(sidecar::input::AccessHost { family: 0, address: vec![127, 0, 0, 1] });
    s.input.access_hosts.push(sidecar::input::AccessHost { family: 254, address: vec![7] });
    let r = sidecar::input::handle_list_hosts(&s, 4);
    assert_eq!(r.len(), 32 + 8 + 8);
    assert_eq!(r[1], 1);
    assert_eq!(&r[4..10], &[4, 0, 0, 0, 2, 0]);
    assert_eq!(&r[32..40], &[0, 0, 4, 0, 127, 0, 0, 1]);
    assert_eq!(&r[40..48], &[254, 0, 1, 0, 7, 0, 0, 0]);
}

#[test]
fn pointer_and_modifier_mapping_replies() {
    let mut s = client();
    let p = sidecar::input::handle_get_pointer_mapping(&s, 1);
    assert_eq!(p.len(), 40);
    assert_eq!((p[1], p[4]), (7, 2));
    assert_eq!(&p[32..40], &[1, 2, 3, 4, 5, 6, 7, 0]);
    s.input.modifier_map = vec![vec![50, 62], vec![66], vec![37, 105, 9]];
    let m = sidecar::input::handle_get_modifier_mapping(&s, 1);
    assert_eq!(m[1], 3);
    assert_eq!(m.len(), 32 + 24);
    assert_eq!(&m[32..41], &[50, 62, 0, 66, 0, 0, 37, 105, 9]);
    assert!(m[41..56].iter().all(|b| *b == 0));
    s.input.modifier_map.clear();
    let e = sidecar::input::handle_get_modifier_mapping(&s, 1);
    assert_eq!((e[1], e.len()), (2, 48));
}

#[test]
fn close_down_mode_and_access_control() {
    let mut s = client();
    assert!(sidecar::input::handle_set_close_down_mode(&mut s, &[112, 2, 1, 0]).is_empty());
    assert_eq!(s.input.close_down_mode, 2);
    let r = sidecar::input::handle_set_close_down_mode(&mut s, &[112, 3, 1, 0]);
    assert_eq!((r[1], r[4], r[10]), (2, 3, 112));
    assert!(sidecar::input::handle_set_access_control(&mut s, &[111, 1, 1, 0]).is_empty());
    assert!(s.input.access_control_enabled);
}

#[test]
fn screen_saver_notify_only_when_selected() {
    let mut s = client();
    assert!(sidecar::input::build_screen_saver_on_event(&s).is_empty());
    s.input.screen_saver_event_mask = 1;
    s.input.screen_saver_window = 0x44;
    let e = sidecar::input::build_screen_saver_on_event(&s);
    assert_eq!(e.len(), 32);
    assert_eq!(&e[0..4], &[92, 1, 7, 0]);
    assert_eq!(&e[4..8], &le32(1000));
    assert_eq!(&e[12..18], &[0x44, 0, 0, 0, 0, 1]);
    assert_eq!(sidecar::input::build_screen_saver_off_event(&s)[1], 0);
}

#[test]
fn xc_misc_hands_out_ids_from_the_client_range() {
    let mut s = client();
    s.next_xid = 0x0040_0010;
    let v = sidecar::present::handle_xc_misc_request(&mut s, &[141, 0, 1, 0], 2);
    assert_eq!(&v[8..12], &[1, 0, 1, 0]);
    let l = sidecar::present::handle_xc_misc_request(&mut s, &[141, 2, 2, 0, 3, 0, 0, 0], 2);
    assert_eq!(l.len(), 44);
    assert_eq!(&l[8..12], &[3, 0, 0, 0]);
    assert_eq!(&l[32..36], &le32(0x0040_0010));
    assert_eq!(&l[40..44], &le32(0x0040_0012));
    assert_eq!(s.next_xid, 0x0040_0013);
    let r = sidecar::present::handle_xc_misc_request(&mut s, &[141, 1, 1, 0], 2);
    assert_eq!(&r[8..12], &le32(0x0040_0013));
    assert_eq!(&r[12..16], &le32(65536));
    let e = sidecar::present::handle_xc_misc_request(&mut s, &[141, 5, 1, 0], 2);
    assert_eq!((e[0], e[1], e[10]), (0, 1, 141));
}

#[test]
fn present_select_input_and_notify_msc() {
    let mut s = client();
    s.present_msc = 41;
    let sel = request(16, &[(4, &le32(0x900)), (8, &le32(0x10)), (12, &le32(1))]);
    let mut sel = sel;
    sel[1] = 3;
    assert!(matches!(handle_present_request(&mut s, &sel, 5, 0), PresentOutcome::Reply(r) if r.is_empty()));
    assert_eq!(s.present_subscriptions, vec![(0x900, 0x10, 1)]);
    let mut msc = request(40, &[(4, &le32(0x10)), (8, &le32(77))]);
    msc[1] = 2;
    handle_present_request(&mut s, &msc, 5, 0x1_0000_0002);
    assert_eq!(s.pending_events.len(), 1);
    let e = &s.pending_events[0];
    assert_eq!(e.len(), 40);
    assert_eq!(&e[0..12], &[35, 148, 5, 0, 2, 0, 0, 0, 1, 0, 1, 0]);
    assert_eq!(&e[12..24], &[0, 9, 0, 0, 0x10, 0, 0, 0, 77, 0, 0, 0]);
    assert_eq!(&e[24..40], &[2, 0, 0, 0, 1, 0, 0, 0, 41, 0, 0, 0, 0, 0, 0, 0]);
    let mut off = sel.clone();
    off[12..16].copy_from_slice(&le32(0));
    handle_present_request(&mut s, &off, 5, 0);
    assert!(s.present_subscriptions.is_empty());
}

#[test]
fn present_pixmap_counts_and_notifies() {
    let mut s = client();
    s.present_subscriptions = vec![(1, 0x10, 3), (2, 0x11, 3), (3, 0x10, 2)];
    s.fences.insert(0x66, sidecar::dri3::Fence { id: 0x66, triggered: false, initially_triggered: false, fd: -1 });
    s.fences.insert(0x67, sidecar::dri3::Fence { id: 0x67, triggered: false, initially_triggered: false, fd: 4 });
    let mut d = request(72, &[(4, &le32(0x10)), (8, &le32(0x20)), (12, &le32(5)), (32, &le32(0x67)), (36, &le32(0x66))]);
    d[1] = 1;
    match handle_present_request(&mut s, &d, 5, 0) {
        PresentOutcome::Pixmap(p) => {
            assert_eq!((p.window, p.pixmap, p.serial, p.wait_fence, p.idle_fence), (0x10, 0x20, 5, 0x67, 0x66));
        },
        PresentOutcome::Reply(_) => panic!("expected a presentation"),
    }
    // Both known fences are triggered.
    assert!(s.fences[&0x66].triggered && s.fences[&0x67].triggered);
    assert_eq!(s.fences[&0x67].fd, 4);
    let events = s.pending_events.clone();
    assert_eq!(events.len(), 3);
    // A flip presentation: mode 1.
    assert_eq!((events[0].len(), events[0][8], events[0][11], events[0][12]), (40, 1, 1, 1));
    assert_eq!((events[1].len(), events[1][8], events[1][12]), (32, 2, 1));
    assert_eq!(events[2][12], 3);
    assert_eq!(&events[2][24..32], &[0x20, 0, 0, 0, 0x66, 0, 0, 0]);
    assert_eq!(s.present_msc, 1);
    // With the Copy option: mode 0, and no IdleNotify.
    d[40] = 2;
    s.pending_events.clear();
    assert!(matches!(handle_present_request(&mut s, &d, 5, 0), PresentOutcome::Pixmap(_)));
    assert_eq!(s.pending_events.len(), 1);
    assert_eq!(s.pending_events[0][11], 0);
    let short = [148u8, 1, 2, 0];
    assert!(matches!(handle_present_request(&mut s, &short, 5, 0), PresentOutcome::Reply(r) if r[1] == 16));
}

#[test]
fn present_config_notify_reaches_config_selections() {
    let mut s = client();
    s.present_subscriptions = vec![(1, 0x10, 4), (2, 0x10, 1)];
    sidecar::present::send_present_config_notify(&mut s, 0x10, -1, 2, 300, 200, 0, 0, 300, 200, 0);
    assert_eq!(s.pending_events.len(), 1);
    let e = &s.pending_events[0];
    assert_eq!(e.len(), 48);
    assert_eq!(&e[4..10], &[4, 0, 0, 0, 3, 0]);
    assert_eq!(&e[20..24], &[0xFF, 0xFF, 2, 0]);
}

#[test]
fn damage_create_subtract_and_add() {
    let mut s = client();
    let v = sidecar::composite::handle_damage_request(&mut s, &[143, 0, 1, 0], 3);
    assert_eq!(&v[8..16], &[1, 0, 0, 0, 1, 0, 0, 0]);
    let mut create = request(16, &[(4, &le32(0x500)), (8, &le32(0x10))]);
    create[1] = 1;
    create[12] = 3;
    assert!(sidecar::composite::handle_damage_request(&mut s, &create, 3).is_empty());
    assert_eq!(s.damage_regions[&0x500].level, 3);
    s.damage_regions.get_mut(&0x500).unwrap().accumulated =
        XFixesRegion::from_rects(vec![RegionRect { x: 0, y: 0, width: 100, height: 100 }]);
    s.xfixes_regions.insert(0x600, XFixesRegion::from_rects(vec![RegionRect { x: 0, y: 0, width: 100, height: 40 }]));
    let mut sub = request(16, &[(4, &le32(0x500)), (8, &le32(0x600)), (12, &le32(0x700))]);
    sub[1] = 3;
    assert!(sidecar::composite::handle_damage_request(&mut s, &sub, 3).is_empty());
    let left = s.damage_regions[&0x500].accumulated.extents();
    assert_eq!((left.x, left.y, left.width, left.height), (0, 40, 100, 60));
    let parts = s.xfixes_regions[&0x700].extents();
    assert_eq!((parts.y, parts.height), (40, 60));
    let mut add = request(12, &[(4, &le32(0x10)), (8, &le32(0x700))]);
    add[1] = 4;
    sidecar::composite::handle_damage_request(&mut s, &add, 3);
    assert_eq!(s.damage_reports, vec![(0x10, 0, 40, 100, 60)]);
    let mut none = request(16, &[(4, &le32(0x500))]);
    none[1] = 3;
    sidecar::composite::handle_damage_request(&mut s, &none, 3);
    assert!(s.damage_regions[&0x500].accumulated.rects.is_empty());
    let mut destroy = request(8, &[(4, &le32(0x500))]);
    destroy[1] = 2;
    sidecar::composite::handle_damage_request(&mut s, &destroy, 3);
    assert!(s.damage_regions.is_empty());
    assert_eq!(s.recycled_xids, vec![0x500]);
    let e = sidecar::composite::handle_damage_request(&mut s, &[143, 9, 1, 0], 3);
    assert_eq!((e[1], e[10]), (1, 143));
}

#[test]
fn region_subtract_splits_around_a_hole() {
    let a = XFixesRegion::from_rects(vec![RegionRect { x: 0, y: 0, width: 30, height: 30 }]);
    let hole = XFixesRegion::from_rects(vec![RegionRect { x: 10, y: 10, width: 10, height: 10 }]);
    let rest = a.subtract(&hole);
    let inside = |x: i16, y: i16| {
        rest.rects.iter().any(|r| x >= r.x && (x as i32) < r.x as i32 + r.width as i32 && y >= r.y && (y as i32) < r.y as i32 + r.height as i32)
    };
    for x in 0..30i16 {
        for y in 0..30i16 {
            let in_hole = (10..20).contains(&x) && (10..20).contains(&y);
            assert_eq!(inside(x, y), !in_hole, "pixel {x},{y}");
        }
    }
    let ext = rest.extents();
    assert_eq!((ext.x, ext.y, ext.width, ext.height), (0, 0, 30, 30));
    let back = rest.union(&hole);
    assert_eq!(back.extents().width, 30);
}

#[test]
fn composite_redirect_overlay_and_errors() {
    let mut s = client();
    add_window(&mut s, 1, 0, 0, 0, true);
    add_window(&mut s, 0x10, 1, 0, 0, true);
    add_window(&mut s, 0x11, 0x10, 0, 0, true);
    add_window(&mut s, 0x12, 0x10, 5, 5, true);
    s.children_order.insert(1, vec![0x10]);
    let v = sidecar::composite::handle_x_composite_request(&mut s, &[142, 0, 3, 0, 0, 0, 0, 0, 4, 0, 0, 0], 9);
    assert_eq!((v[0], v[2], &v[8..12], &v[12..16]), (1, 9, &[0, 0, 0, 0][..], &[4, 0, 0, 0][..]));
    let sub = request(12, &[(4, &le32(0x10))]);
    let mut redirect = sub.clone();
    redirect[0] = 142;
    redirect[1] = 2;
    assert!(sidecar::composite::handle_x_composite_request(&mut s, &redirect, 9).is_empty());
    assert!(s.windows[&0x11].redirected && s.windows[&0x12].redirected && !s.windows[&0x10].redirected);
    redirect[1] = 4;
    sidecar::composite::handle_x_composite_request(&mut s, &redirect, 9);
    assert!(!s.windows[&0x11].redirected);
    let get = [142, 7, 2, 0, 1, 0, 0, 0];
    let v = sidecar::composite::handle_x_composite_request(&mut s, &get, 9);
    assert_eq!(&v[8..12], &le32(0x0020_0001));
    let ov = s.windows[&0x0020_0001];
    assert_eq!((ov.parent, ov.width, ov.height, ov.depth, ov.mapped, ov.override_redirect), (1, 800, 600, 32, true, true));
    assert_eq!(s.children_order[&1], vec![0x10, 0x0020_0001]);
    assert_eq!(s.overlay_ref_count, 1);
    // A second GetOverlayWindow leaves the existing overlay alone.
    sidecar::composite::handle_x_composite_request(&mut s, &get, 9);
    assert_eq!(s.children_order[&1], vec![0x10, 0x0020_0001]);
    assert_eq!(s.overlay_ref_count, 2);
    sidecar::composite::handle_x_composite_request(&mut s, &[142, 8, 2, 0, 1, 0, 0, 0], 9);
    sidecar::composite::handle_x_composite_request(&mut s, &[142, 8, 2, 0, 1, 0, 0, 0], 9);
    sidecar::composite::handle_x_composite_request(&mut s, &[142, 8, 2, 0, 1, 0, 0, 0], 9);
    assert_eq!(s.overlay_ref_count, 0);
    let mut missing = request(12, &[(4, &le32(0x99))]);
    missing[0] = 142;
    missing[1] = 1;
    let e = sidecar::composite::handle_x_composite_request(&mut s, &missing, 9);
    assert_eq!((e[0], e[1], &e[4..8], e[10]), (0, 3, &le32(0x99)[..], 142));
    let e = sidecar::composite::handle_x_composite_request(&mut s, &[142, 9, 1, 0], 9);
    assert_eq!(e[1], 1);
    let mut name = request(12, &[(4, &le32(0x12)), (8, &le32(0x700))]);
    name[0] = 142;
    name[1] = 6;
    sidecar::composite::handle_x_composite_request(&mut s, &name, 9);
    let p = &s.pixmaps[&0x700];
    assert_eq!((p.width, p.height, p.depth, p.alias_window), (100, 50, 24, Some(0x12)));
}

fn drawing(opcode: u8, drawable: u32, gc: u32, items: &[i16]) -> Vec<u8> {
    let mut d = vec![opcode, 0, 0, 0];
    d.extend_from_slice(&le32(drawable));
    d.extend_from_slice(&le32(gc));
    for v in items {
        d.extend_from_slice(&v.to_le_bytes());
    }
    d
}

fn line_of(op: &DrawOp) -> (i32, i32, i32, i32) {
    match op.shape {
        Shape::Line { x0, y0, x1, y1 } => (x0, y0, x1, y1),
        _ => panic!("not a line"),
    }
}

#[test]
fn poly_rectangle_outlines_and_pads_damage() {
    let mut s = client();
    add_window(&mut s, 0x10, 1, 0, 0, true);
    s.gcs.insert(5, GcState::default());
    let r = sidecar::drawing::primitives::handle_poly_rectangle(&mut s, &drawing(67, 0x10, 5, &[10, 20, 30, 40]));
    assert!(r.is_empty());
    let lines: Vec<_> = s.draw_ops.iter().map(line_of).collect();
    assert_eq!(lines, vec![(10, 20, 40, 20), (40, 20, 40, 60), (40, 60, 10, 60), (10, 60, 10, 20)]);
    assert!(s.draw_ops.iter().all(|o| matches!(o.paint, Paint::Solid) && o.drawable == 0x10 && o.gc == 5));
    assert_eq!(s.damage_reports, vec![(0x10, 9, 19, 32, 42)]);
    let e = sidecar::drawing::primitives::handle_poly_rectangle(&mut s, &drawing(67, 0x99, 5, &[]));
    assert_eq!((e[1], &e[4..8], e[10]), (9, &le32(0x99)[..], 67));
    let e = sidecar::drawing::primitives::handle_poly_rectangle(&mut s, &drawing(67, 0x10, 6, &[]));
    assert_eq!((e[1], e[10]), (13, 67));
    let e = sidecar::drawing::primitives::handle_poly_rectangle(&mut s, &[67, 0, 0, 0]);
    assert_eq!(e[1], 16);
    assert_eq!(s.draw_ops.len(), 4);
}

#[test]
fn poly_fill_rectangle_tiles_inside_clip() {
    let mut s = client();
    add_window(&mut s, 0x10, 1, 0, 0, true);
    s.pixmaps.insert(0x30, PixmapState { width: 8, height: 8, depth: 24, alias_window: None });
    let mut g = GcState::default();
    g.fill_style = 1;
    g.tile = 0x30;
    g.clip_rects = vec![(0, 0, 15, 100), (200, 200, 5, 5), (30, 50, 100, 100)];
    s.gcs.insert(5, g);
    sidecar::drawing::primitives::handle_poly_fill_rectangle(&mut s, &drawing(70, 0x10, 5, &[10, 20, 30, 40]));
    let pieces: Vec<_> = s
        .draw_ops
        .iter()
        .map(|o| match o.shape {
            Shape::FillRect { x, y, width, height } => (x, y, width, height),
            _ => panic!("not a fill"),
        })
        .collect();
    assert_eq!(pieces, vec![(10, 20, 5, 40), (30, 50, 10, 10)]);
    assert!(s.draw_ops.iter().all(|o| matches!(o.paint, Paint::Tiled)));
    assert_eq!(s.damage_reports, vec![(0x10, 10, 20, 30, 40)]);
    let mut solid = GcState::default();
    solid.clip_rects = vec![(0, 0, 15, 100)];
    s.gcs.insert(6, solid);
    sidecar::drawing::primitives::handle_poly_fill_rectangle(&mut s, &drawing(70, 0x10, 6, &[1, 2, 3, 4]));
    assert!(matches!(s.draw_ops[2].shape, Shape::FillRect { x: 1, y: 2, width: 3, height: 4 }));
    assert!(matches!(s.draw_ops[2].paint, Paint::Solid));
}

#[test]
fn poly_segment_draws_each_and_damages_the_box() {
    let mut s = client();
    add_window(&mut s, 0x10, 1, 0, 0, true);
    let mut g = GcState::default();
    g.line_width = 3;
    s.gcs.insert(5, g);
    sidecar::drawing::primitives::handle_poly_segment(&mut s, &drawing(66, 0x10, 5, &[0, 0, 10, 5, 20, -4, 7, 30]));
    let lines: Vec<_> = s.draw_ops.iter().map(line_of).collect();
    assert_eq!(lines, vec![(0, 0, 10, 5), (20, -4, 7, 30)]);
    assert_eq!(s.damage_reports, vec![(0x10, -3, -7, 26, 40)]);
    sidecar::drawing::primitives::handle_poly_segment(&mut s, &drawing(66, 0x10, 5, &[]));
    assert_eq!(s.damage_reports.len(), 1);
}

#[test]
fn poly_line_relative_points_and_stippled_pairs() {
    let mut s = client();
    add_window(&mut s, 0x10, 1, 0, 0, true);
    s.gcs.insert(5, GcState::default());
    let mut d = drawing(65, 0x10, 5, &[10, 10, 5, 0, 0, 5]);
    d[1] = 1;
    sidecar::drawing::primitives::handle_poly_line(&mut s, &d);
    match &s.draw_ops[0].shape {
        Shape::Polyline { points } => assert_eq!(points, &vec![(10, 10), (15, 10), (15, 15)]),
        _ => panic!("not a polyline"),
    }
    assert_eq!(s.damage_reports, vec![(0x10, 9, 9, 7, 7)]);
    s.pixmaps.insert(0x30, PixmapState { width: 8, height: 8, depth: 1, alias_window: None });
    let mut g = GcState::default();
    g.fill_style = 3;
    g.stipple = 0x30;
    s.gcs.insert(6, g);
    sidecar::drawing::primitives::handle_poly_line(&mut s, &drawing(65, 0x10, 6, &[10, 10, 5, 0, 0, 5]));
    let lines: Vec<_> = s.draw_ops[1..].iter().map(line_of).collect();
    assert_eq!(lines, vec![(10, 10, 5, 0), (5, 0, 0, 5)]);
    assert!(matches!(s.draw_ops[1].paint, Paint::Stippled { opaque: true }));
}

#[test]
fn poly_fill_arc_queues_arcs_and_exact_damage() {
    let mut s = client();
    add_window(&mut s, 0x10, 1, 0, 0, true);
    s.gcs.insert(5, GcState::default());
    sidecar::drawing::primitives::handle_poly_fill_arc(&mut s, &drawing(71, 0x10, 5, &[4, 6, 20, 10, 0, 23040, 1, 2]));
    assert_eq!(s.draw_ops.len(), 1);
    assert!(matches!(s.draw_ops[0].shape, Shape::FillArc { x: 4, y: 6, width: 20, height: 10, angle1: 0, angle2: 23040 }));
    assert_eq!(s.damage_reports, vec![(0x10, 4, 6, 20, 10)]);
}

fn put_image_request(drawable: u32, gc: u32, format: u8, w: u16, h: u16, x: i16, y: i16, depth: u8, pixels: &[u8]) -> Vec<u8> {
    let mut d = vec![72, format, 0, 0];
    d.extend_from_slice(&le32(drawable));
    d.extend_from_slice(&le32(gc));
    d.extend_from_slice(&w.to_le_bytes());
    d.extend_from_slice(&h.to_le_bytes());
    d.extend_from_slice(&x.to_le_bytes());
    d.extend_from_slice(&y.to_le_bytes());
    d.push(0);
    d.push(depth);
    d.extend_from_slice(&[0, 0]);
    d.extend_from_slice(pixels);
    d
}

#[test]
fn put_image_queues_the_image_and_damages_its_rectangle() {
    let mut s = client();
    add_window(&mut s, 0x10, 1, 0, 0, true);
    s.gcs.insert(5, GcState::default());
    let r = sidecar::drawing::primitives::handle_put_image(&mut s, &put_image_request(0x10, 5, 2, 2, 1, -3, 4, 16, &[1, 2, 3, 4]));
    assert!(r.is_empty());
    match &s.draw_ops[0].shape {
        Shape::Image { image } => {
            assert_eq!((image.format, image.depth, image.x, image.y, image.width, image.height), (2, 16, -3, 4, 2, 1));
            assert_eq!(image.pixels, vec![1, 2, 3, 4]);
        },
        _ => panic!("not an image"),
    }
    assert_eq!(s.damage_reports, vec![(0x10, -3, 4, 2, 1)]);
}

#[test]
fn put_image_errors() {
    let mut s = client();
    add_window(&mut s, 0x10, 1, 0, 0, true);
    s.gcs.insert(5, GcState::default());
    let put = |s: &mut ClientState, d: Vec<u8>| sidecar::drawing::primitives::handle_put_image(s, &d);
    let e = put(&mut s, vec![72, 2, 0, 0, 0x10, 0, 0, 0]);
    assert_eq!((e[1], e[10]), (16, 72));
    let e = put(&mut s, put_image_request(0x11, 5, 2, 1, 1, 0, 0, 24, &[0; 4]));
    assert_eq!((e[1], &e[4..8]), (9, &le32(0x11)[..]));
    let e = put(&mut s, put_image_request(0x10, 6, 2, 1, 1, 0, 0, 24, &[0; 4]));
    assert_eq!(e[1], 13);
    let e = put(&mut s, put_image_request(0x10, 5, 3, 1, 1, 0, 0, 24, &[0; 4]));
    assert_eq!((e[1], &e[4..8]), (2, &le32(3)[..]));
    let e = put(&mut s, put_image_request(0x10, 5, 2, 40000, 1, 0, 0, 24, &[0; 4]));
    assert_eq!((e[1], &e[4..8]), (2, &le32(40000)[..]));
    let e = put(&mut s, put_image_request(0x10, 5, 2, 1, 1, 0, 0, 24, &[]));
    assert_eq!(e[1], 16);
    assert!(s.draw_ops.is_empty() && s.damage_reports.is_empty());
    assert!(put(&mut s, put_image_request(0x10, 5, 2, 0, 5, 0, 0, 24, &[])).is_empty());
}

fn copy_request(opcode: u8, src: u32, dst: u32, gc: u32, coords: [i16; 4], w: u16, h: u16, plane: Option<u32>) -> Vec<u8> {
    let mut d = vec![opcode, 0, 0, 0];
    d.extend_from_slice(&le32(src));
    d.extend_from_slice(&le32(dst));
    d.extend_from_slice(&le32(gc));
    for c in coords {
        d.extend_from_slice(&c.to_le_bytes());
    }
    d.extend_from_slice(&w.to_le_bytes());
    d.extend_from_slice(&h.to_le_bytes());
    if let Some(p) = plane {
        d.extend_from_slice(&le32(p));
    }
    d
}

#[test]
fn copy_area_reports_exposures_for_source_outside_its_drawable() {
    let mut s = client();
    add_window(&mut s, 0x10, 1, 0, 0, true);
    s.pixmaps.insert(0x20, PixmapState { width: 50, height: 50, depth: 24, alias_window: None });
    let mut g = GcState::default();
    g.graphics_exposures = true;
    s.gcs.insert(5, g);
    let r = sidecar::drawing::copy::handle_copy_area(&mut s, &copy_request(62, 0x20, 0x10, 5, [-10, 40, 100, 200], 30, 20, None));
    assert!(r.is_empty());
    assert_eq!(s.pending_events.len(), 2);
    let parts: Vec<(u16, u16, u16, u16, u16)> = s
        .pending_events
        .iter()
        .map(|e| {
            assert_eq!((e[0], e[20], &e[4..8]), (13, 62, &le32(0x10)[..]));
            let f = |i: usize| u16::from_le_bytes([e[i], e[i + 1]]);
            (f(8), f(10), f(12), f(14), f(18))
        })
        .collect();
    assert_eq!(parts, vec![(100, 200, 10, 20, 1), (100, 210, 30, 10, 0)]);
    assert_eq!(s.damage_reports, vec![(0x10, 100, 200, 30, 20)]);
    match s.draw_ops[0].shape {
        Shape::Copy { src, src_x, src_y, x, y, width, height, include_inferiors, mode } => {
            assert_eq!((src, src_x, src_y, x, y, width, height, include_inferiors), (0x20, -10, 40, 100, 200, 30, 20, false));
            assert!(matches!(mode, CopyMode::Plain));
        },
        _ => panic!("not a copy"),
    }
    sidecar::drawing::copy::handle_copy_area(&mut s, &copy_request(62, 0x20, 0x10, 5, [0, 0, 1, 1], 10, 10, None));
    let e = &s.pending_events[2];
    assert_eq!((e[0], e[10], &e[4..8]), (14, 62, &le32(0x10)[..]));
    let e = sidecar::drawing::copy::handle_copy_area(&mut s, &copy_request(62, 0x21, 0x10, 5, [0, 0, 1, 1], 10, 10, None));
    assert_eq!((e[1], &e[4..8]), (9, &le32(0x21)[..]));
    let e = sidecar::drawing::copy::handle_copy_area(&mut s, &[62, 0, 0, 0]);
    assert_eq!(e[1], 16);
}

#[test]
fn copy_area_modes() {
    let mut s = client();
    add_window(&mut s, 0x10, 1, 0, 0, true);
    s.pixmaps.insert(0x20, PixmapState { width: 8, height: 8, depth: 1, alias_window: None });
    let mut xor = GcState::default();
    xor.function = 6;
    s.gcs.insert(5, xor);
    let mut clipped = GcState::default();
    clipped.clip_rects = vec![(0, 0, 4, 4)];
    s.gcs.insert(6, clipped);
    let mode_of = |s: &ClientState, i: usize| match s.draw_ops[i].shape {
        Shape::Copy { mode, .. } => mode,
        _ => panic!("not a copy"),
    };
    sidecar::drawing::copy::handle_copy_area(&mut s, &copy_request(62, 0x20, 0x10, 5, [0, 0, 0, 0], 4, 4, None));
    assert!(matches!(mode_of(&s, 0), CopyMode::Bitmap));
    sidecar::drawing::copy::handle_copy_area(&mut s, &copy_request(62, 0x10, 0x10, 6, [0, 0, 2, 2], 4, 4, None));
    assert!(matches!(mode_of(&s, 1), CopyMode::WithinClipped));
    sidecar::drawing::copy::handle_copy_area(&mut s, &copy_request(62, 0x10, 0x20, 6, [0, 0, 2, 2], 4, 4, None));
    assert!(matches!(mode_of(&s, 2), CopyMode::ThroughGc));
    assert_eq!(s.pending_events.len(), 3);
}

#[test]
fn copy_plane_needs_a_single_plane() {
    let mut s = client();
    add_window(&mut s, 0x10, 1, 0, 0, true);
    s.gcs.insert(5, GcState::default());
    let e = sidecar::drawing::copy::handle_copy_plane(&mut s, &copy_request(63, 0x10, 0x10, 5, [0, 0, 0, 0], 4, 4, Some(6)));
    assert_eq!((e[1], &e[4..8], e[10]), (2, &le32(6)[..], 63));
    let e = sidecar::drawing::copy::handle_copy_plane(&mut s, &copy_request(63, 0x10, 0x10, 5, [0, 0, 0, 0], 4, 4, Some(0)));
    assert_eq!(e[1], 2);
    let r = sidecar::drawing::copy::handle_copy_plane(&mut s, &copy_request(63, 0x10, 0x10, 5, [0, 0, 3, 3], 4, 4, Some(4)));
    assert!(r.is_empty());
    assert!(matches!(s.draw_ops[0].shape, Shape::CopyPlane { bit_plane: 4, x: 3, y: 3, width: 4, height: 4, .. }));
    assert_eq!(s.damage_reports, vec![(0x10, 3, 3, 4, 4)]);
    assert_eq!(s.pending_events.len(), 1);
    assert_eq!((s.pending_events[0][0], s.pending_events[0][10]), (14, 63));
}

#[test]
fn clear_area_fills_to_the_edge_and_exposes() {
    let mut s = client();
    add_window(&mut s, 0x10, 1, 0, 0, true);
    s.windows.get_mut(&0x10).unwrap().background_pixel = 0x00AA_BBCC;
    s.windows.get_mut(&0x10).unwrap().event_mask = 0x8000;
    let mut d = request(16, &[(4, &le32(0x10)), (8, &[5, 0, 6, 0, 0, 0, 7, 0])]);
    d[0] = 61;
    d[1] = 1;
    assert!(sidecar::drawing::primitives::handle_clear_area(&mut s, &d).is_empty());
    assert!(matches!(s.draw_ops[0].shape, Shape::Clear { x: 5, y: 6, width: 100, height: 7, pixel: 0x00AA_BBCC }));
    assert_eq!(s.damage_reports, vec![(0x10, 5, 6, 100, 7)]);
    let e = &s.pending_events[0];
    assert_eq!((e[0], &e[4..8], &e[12..14]), (12, &le32(0x10)[..], &[100, 0][..]));
    assert_eq!(s.broadcasts.len(), 1);
    assert_eq!((s.broadcasts[0].0, s.broadcasts[0].1), (0x10, 0x8000));
    s.windows.get_mut(&0x10).unwrap().class = 2;
    let e = sidecar::drawing::primitives::handle_clear_area(&mut s, &d);
    assert_eq!((e[1], e[10]), (8, 61));
}

#[test]
fn poly_point_fill_poly_and_poly_arc() {
    let mut s = client();
    add_window(&mut s, 0x10, 1, 0, 0, true);
    s.gcs.insert(5, GcState::default());
    let mut d = drawing(64, 0x10, 5, &[3, 4, 2, 2, -1, 0]);
    d[1] = 1;
    sidecar::drawing::primitives::handle_poly_point(&mut s, &d);
    let pts: Vec<_> = s
        .draw_ops
        .iter()
        .map(|o| match o.shape {
            Shape::Point { x, y } => (x, y),
            _ => panic!("not a point"),
        })
        .collect();
    assert_eq!(pts, vec![(3, 4), (5, 6), (4, 6)]);
    assert_eq!(s.damage_reports, vec![(0x10, 3, 4, 3, 3)]);
    let mut poly = vec![69, 0, 0, 0];
    poly.extend_from_slice(&le32(0x10));
    poly.extend_from_slice(&le32(5));
    poly.extend_from_slice(&[0, 0, 0, 0]);
    for v in [0i16, 0, 10, 0, 0, 10] {
        poly.extend_from_slice(&v.to_le_bytes());
    }
    sidecar::drawing::primitives::handle_fill_poly(&mut s, &poly);
    match &s.draw_ops[3].shape {
        Shape::FillPolygon { points } => assert_eq!(points, &vec![(0, 0), (10, 0), (0, 10)]),
        _ => panic!("not a polygon"),
    }
    assert_eq!(s.damage_reports[1], (0x10, 0, 0, 11, 11));
    poly.truncate(24);
    sidecar::drawing::primitives::handle_fill_poly(&mut s, &poly);
    assert_eq!(s.draw_ops.len(), 4);
    sidecar::drawing::primitives::handle_poly_arc(&mut s, &drawing(68, 0x10, 5, &[4, 6, 20, 10, 0, 5760]));
    assert!(matches!(s.draw_ops[4].shape, Shape::Arc { x: 4, y: 6, width: 20, height: 10, angle1: 0, angle2: 5760 }));
    assert_eq!(s.damage_reports[2], (0x10, 3, 5, 22, 12));
}

#[test]
fn get_image_checks_and_describes_the_read() {
    let mut s = client();
    add_window(&mut s, 0x10, 1, 0, 0, true);
    s.pixmaps.insert(0x20, PixmapState { width: 8, height: 8, depth: 16, alias_window: None });
    let mut d = request(20, &[(4, &le32(0x20)), (8, &[1, 0, 2, 0, 3, 0, 4, 0]), (16, &le32(0xFFFF))]);
    d[0] = 73;
    d[1] = 2;
    let q = sidecar::drawing::image::handle_get_image(&s, &d, 9).ok().unwrap();
    assert_eq!((q.drawable, q.format, q.x, q.y, q.width, q.height, q.plane_mask), (0x20, 2, 1, 2, 3, 4, 0xFFFF));
    assert_eq!((q.depth, q.visual, q.is_window), (16, 0, false));
    d[4..8].copy_from_slice(&le32(0x10));
    let q = sidecar::drawing::image::handle_get_image(&s, &d, 9).ok().unwrap();
    assert_eq!((q.depth, q.visual, q.is_window), (24, 0x21, true));
    d[1] = 0;
    let e = sidecar::drawing::image::handle_get_image(&s, &d, 9).err().unwrap();
    assert_eq!((e[1], &e[4..8], e[10]), (2, &le32(0)[..], 73));
    d[1] = 2;
    d[4..8].copy_from_slice(&le32(0x30));
    let e = sidecar::drawing::image::handle_get_image(&s, &d, 9).err().unwrap();
    assert_eq!(e[1], 9);
    let e = sidecar::drawing::image::handle_get_image(&s, &d[..10], 9).err().unwrap();
    assert_eq!(e[1], 16);
}

#[test]
fn dbe_back_buffers_swaps_and_replies() {
    let mut s = client();
    add_window(&mut s, 0x10, 1, 0, 0, true);
    add_window(&mut s, 0x11, 1, 0, 0, true);
    s.windows.get_mut(&0x10).unwrap().background_pixel = 0x123456;
    let dbe = sidecar::dbe::handle_dbe_request;
    let v = dbe(&mut s, &[157, 0, 1, 0], 4);
    assert_eq!((v.len(), v[0], v[2], v[8], v[9]), (32, 1, 4, 1, 0));
    let mut alloc = request(16, &[(4, &le32(0x10)), (8, &le32(0x500))]);
    alloc[0] = 157;
    alloc[1] = 1;
    assert!(dbe(&mut s, &alloc, 4).is_empty());
    let p = &s.pixmaps[&0x500];
    assert_eq!((p.width, p.height, p.depth), (100, 50, 24));
    assert_eq!(s.back_buffers[&0x500], 0x10);
    alloc[4..8].copy_from_slice(&le32(0x99));
    let e = dbe(&mut s, &alloc, 4);
    assert_eq!((e[1], &e[4..8], e[8], e[10]), (3, &le32(0x99)[..], 1, 157));
    let mut swap = vec![157, 3, 0, 0];
    swap.extend_from_slice(&le32(3));
    swap.extend_from_slice(&le32(0x11));
    swap.extend_from_slice(&le32(1));
    swap.extend_from_slice(&le32(0x10));
    swap.extend_from_slice(&le32(1));
    assert!(dbe(&mut s, &swap, 4).is_empty());
    assert_eq!(s.draw_ops.len(), 1);
    assert_eq!(s.draw_ops[0].drawable, 0x10);
    assert!(matches!(s.draw_ops[0].shape, Shape::Swap { back: 0x500, action: 1, background: 0x123456 }));
    assert_eq!(s.damage_reports, vec![(0x10, 0, 0, 100, 50)]);
    let mut attrs = request(8, &[(4, &le32(0x500))]);
    attrs[0] = 157;
    attrs[1] = 7;
    assert_eq!(&dbe(&mut s, &attrs, 4)[8..12], &le32(0x10));
    attrs[4..8].copy_from_slice(&le32(0x501));
    assert_eq!(&dbe(&mut s, &attrs, 4)[8..12], &le32(0));
    dbe(&mut s, &[157, 4, 1, 0], 4);
    dbe(&mut s, &[157, 4, 1, 0], 4);
    dbe(&mut s, &[157, 5, 1, 0], 4);
    assert_eq!(s.dbe_idiom_depth, 1);
    let info = dbe(&mut s, &[157, 6, 1, 0], 4);
    assert_eq!(info.len(), 60);
    assert_eq!(&info[4..12], &[7, 0, 0, 0, 1, 0, 0, 0]);
    assert_eq!(&info[32..56], &[1, 0, 0, 0, 24, 0, 2, 0, 0x21, 0, 0, 0, 24, 0, 0, 0, 0x40, 0, 0, 0, 32, 0, 0, 0]);
    let mut free = request(8, &[(4, &le32(0x500))]);
    free[0] = 157;
    free[1] = 2;
    dbe(&mut s, &free, 4);
    assert!(!s.pixmaps.contains_key(&0x500) && s.back_buffers.is_empty());
    assert_eq!(s.recycled_xids, vec![0x500]);
    let e = dbe(&mut s, &[157, 9, 1, 0], 4);
    assert_eq!((e[0], e[1], &e[4..8]), (0, 1, &le32(9)[..]));
}

#[test]
fn all_core_opcodes_are_dispatched() {
    let s = client();
    let handled: Vec<u8> = (1..=119).chain(std::iter::once(127u8)).collect();
    assert_eq!(handled.len(), 120, "119 core opcodes + NoOperation = 120");
    for op in handled {
        assert!(!matches!(route_core_request(&s, op), CoreRoute::Unknown), "opcode {op}");
    }
    for op in 120..=126u8 {
        assert!(matches!(route_core_request(&s, op), CoreRoute::Unknown));
    }
}

#[test]
fn core_dispatch_gates_routes_and_refuses() {
    let mut s = client();
    s.input.trust_level = 1;
    match handle_core_request(&mut s, &[109, 0, 1, 0]) {
        CoreOutcome::Reply(v) => assert_eq!((v[0], v[1], v[10]), (0, 10, 109)),
        CoreOutcome::Elsewhere => panic!("refused request went elsewhere"),
    }
    match handle_core_request(&mut s, &[111, 1, 1, 0]) {
        CoreOutcome::Reply(v) => assert_eq!(v[1], 10),
        CoreOutcome::Elsewhere => panic!("refused request went elsewhere"),
    }
    assert!(!s.input.access_control_enabled);
    s.input.trust_level = 0;
    match handle_core_request(&mut s, &[111, 1, 1, 0]) {
        CoreOutcome::Reply(v) => assert!(v.is_empty()),
        CoreOutcome::Elsewhere => panic!("SetAccessControl went elsewhere"),
    }
    assert!(s.input.access_control_enabled);
    assert!(matches!(handle_core_request(&mut s, &[127, 0, 1, 0]), CoreOutcome::Reply(ref v) if v.is_empty()));
    match handle_core_request(&mut s, &[123, 5, 1, 0]) {
        CoreOutcome::Reply(v) => assert_eq!((v[1], &v[4..8], &v[8..10], v[10]), (1, &le32(123)[..], &[5, 0][..], 123)),
        CoreOutcome::Elsewhere => panic!("undefined opcode went elsewhere"),
    }
    assert!(matches!(handle_core_request(&mut s, &[1, 0, 8, 0]), CoreOutcome::Elsewhere));
    match handle_core_request(&mut s, &[43, 0, 1, 0]) {
        CoreOutcome::Reply(v) => assert_eq!((v[0], &v[8..12]), (1, &le32(1)[..])),
        CoreOutcome::Elsewhere => panic!("GetInputFocus went elsewhere"),
    }
}

fn text_request(opcode: u8, n: u8, items: &[u8]) -> Vec<u8> {
    let mut d = vec![opcode, n, 0, 0];
    d.extend_from_slice(&le32(0x10));
    d.extend_from_slice(&le32(5));
    d.extend_from_slice(&[10, 0, 20, 0]);
    d.extend_from_slice(items);
    d
}

#[test]
fn poly_text_items_skip_font_changes_and_stop_at_the_end() {
    let mut s = client();
    add_window(&mut s, 0x10, 1, 0, 0, true);
    s.gcs.insert(5, GcState::default());
    let items = [2, 3, b'h', b'i', 255, 0, 0, 0, 9, 1, 0xFE, b'!', 5, 0, b'x'];
    assert!(sidecar::drawing::text::handle_poly_text8(&mut s, &text_request(74, 0, &items)).is_empty());
    match &s.draw_ops[0].shape {
        Shape::Text8 { x, y, items } => {
            assert_eq!((*x, *y), (10, 20));
            assert_eq!(items, &vec![(3i8, b"hi".to_vec()), (-2i8, b"!".to_vec())]);
        },
        _ => panic!("not text"),
    }
    let wide = [2, 0, 0x01, 0x41, 0x00, 0x42, 0];
    sidecar::drawing::text::handle_poly_text16(&mut s, &text_request(75, 0, &wide));
    match &s.draw_ops[1].shape {
        Shape::Text16 { items, .. } => assert_eq!(items, &vec![(0i8, vec![0x0141u16, 0x0042])]),
        _ => panic!("not text"),
    }
    let e = sidecar::drawing::text::handle_poly_text8(&mut s, &[74, 0, 0, 0, 0x10, 0, 0, 0, 5, 0, 0, 0]);
    assert_eq!((e[1], e[10]), (16, 74));
}

#[test]
fn image_text16_of_latin1_is_image_text8() {
    let mut s = client();
    add_window(&mut s, 0x10, 1, 0, 0, true);
    s.gcs.insert(5, GcState::default());
    sidecar::drawing::text::handle_image_text16(&mut s, &text_request(77, 2, &[0, b'o', 0, b'k']));
    match &s.draw_ops[0].shape {
        Shape::ImageText8 { text, .. } => assert_eq!(text, &b"ok".to_vec()),
        _ => panic!("not image text"),
    }
    sidecar::drawing::text::handle_image_text16(&mut s, &text_request(77, 1, &[0x30, 0x42]));
    assert!(matches!(&s.draw_ops[1].shape, Shape::ImageText16 { chars, .. } if chars == &vec![0x3042u16]));
    sidecar::drawing::text::handle_image_text8(&mut s, &text_request(76, 3, b"abc"));
    assert!(matches!(&s.draw_ops[2].shape, Shape::ImageText8 { text, x: 10, y: 20 } if text == &b"abc".to_vec()));
    sidecar::drawing::text::handle_image_text8(&mut s, &text_request(76, 9, b"abc"));
    assert_eq!(s.draw_ops.len(), 3);
    let e = sidecar::drawing::text::handle_image_text8(&mut s, &{
        let mut d = text_request(76, 0, &[]);
        d[8] = 6;
        d
    });
    assert_eq!((e[1], e[10]), (13, 76));
}

#[test]
fn dpms_timeouts_levels_and_info() {
    let mut s = client();
    let dpms = sidecar::dpms::handle_dpms_request;
    let v = dpms(&mut s, &[151, 0, 1, 0], 3);
    assert_eq!((v[0], v[2], &v[8..12]), (1, 3, &[1, 0, 2, 0][..]));
    let mut set = vec![151, 3, 3, 0];
    for t in [10u16, 20, 30] {
        set.extend_from_slice(&t.to_le_bytes());
    }
    assert!(dpms(&mut s, &set, 3).is_empty());
    let v = dpms(&mut s, &[151, 2, 1, 0], 3);
    assert_eq!(&v[8..14], &[10, 0, 20, 0, 30, 0]);
    assert!(dpms(&mut s, &[151, 6, 2, 0, 2, 0], 3).is_empty());
    assert_eq!(s.dpms_power_level, 2);
    let e = dpms(&mut s, &[151, 6, 2, 0, 4, 0], 3);
    assert_eq!((e[1], &e[4..8], e[8], e[10]), (2, &le32(4)[..], 6, 151));
    dpms(&mut s, &[151, 5, 1, 0], 3);
    assert_eq!((s.dpms_enabled, s.dpms_power_level), (false, 0));
    let e = dpms(&mut s, &[151, 6, 2, 0, 1, 0], 3);
    assert_eq!(e[1], 2);
    assert!(dpms(&mut s, &[151, 6, 2, 0, 0, 0], 3).is_empty());
    let v = dpms(&mut s, &[151, 7, 1, 0], 3);
    assert_eq!(&v[8..11], &[0, 0, 0]);
    dpms(&mut s, &[151, 4, 1, 0], 3);
    let v = dpms(&mut s, &[151, 7, 1, 0], 3);
    assert_eq!(v[10], 1);
    let e = dpms(&mut s, &[151, 3, 1, 0], 3);
    assert_eq!(e[1], 16);
    let e = dpms(&mut s, &[151, 8, 1, 0], 3);
    assert_eq!(e[1], 1);
}

fn create_pixmap_request(depth: u8, pid: u32, w: u16, h: u16) -> Vec<u8> {
    let mut d = vec![53, depth, 4, 0];
    d.extend_from_slice(&le32(pid));
    d.extend_from_slice(&le32(1));
    d.extend_from_slice(&w.to_le_bytes());
    d.extend_from_slice(&h.to_le_bytes());
    d
}

#[test]
fn create_and_free_pixmap() {
    let mut s = client();
    let create = sidecar::pixmap::handle_create_pixmap;
    assert!(create(&mut s, &create_pixmap_request(24, 0x0040_0005, 64, 32), true).is_empty());
    let p = s.pixmaps[&0x0040_0005];
    assert_eq!((p.width, p.height, p.depth, p.alias_window), (64, 32, 24, None));
    let e = create(&mut s, &create_pixmap_request(24, 0x0040_0005, 64, 32), true);
    assert_eq!((e[1], &e[4..8]), (14, &le32(0x0040_0005)[..]));
    let e = create(&mut s, &create_pixmap_request(24, 0x0080_0001, 64, 32), true);
    assert_eq!(e[1], 14);
    let e = create(&mut s, &create_pixmap_request(24, 0x0040_0006, 64, 32), false);
    assert_eq!(e[1], 11);
    let e = create(&mut s, &create_pixmap_request(7, 0x0040_0006, 64, 32), true);
    assert_eq!((e[1], &e[4..8]), (2, &le32(7)[..]));
    let e = create(&mut s, &create_pixmap_request(24, 0x0040_0006, 0, 32), true);
    assert_eq!((e[1], &e[4..8]), (2, &le32(0)[..]));
    let e = create(&mut s, &create_pixmap_request(24, 0x0040_0006, 40000, 32), true);
    assert_eq!((e[1], &e[4..8]), (2, &le32(40000)[..]));
    let e = create(&mut s, &create_pixmap_request(24, 0x0040_0006, 4, 4)[..12], true);
    assert_eq!(e[1], 16);
    let free = sidecar::pixmap::handle_free_pixmap;
    let mut d = vec![54, 0, 2, 0];
    d.extend_from_slice(&le32(0x0040_0005));
    assert!(free(&mut s, &d).is_empty());
    assert!(s.pixmaps.is_empty());
    assert_eq!(s.recycled_xids, vec![0x0040_0005]);
    let e = free(&mut s, &d);
    assert_eq!((e[1], e[10]), (4, 54));
}

#[test]
fn change_pointer_control_and_set_screen_saver() {
    let mut s = client();
    let mut d = vec![105, 0, 3, 0];
    for v in [5i16, 0, 9] {
        d.extend_from_slice(&v.to_le_bytes());
    }
    d.extend_from_slice(&[1, 0]);
    assert!(sidecar::input::handle_change_pointer_control(&mut s, &d).is_empty());
    let pc = &s.input.pointer_control;
    assert_eq!((pc.acceleration_numerator, pc.acceleration_denominator, pc.threshold), (5, 1, 4));
    d[10] = 0;
    d[11] = 1;
    sidecar::input::handle_change_pointer_control(&mut s, &d);
    assert_eq!(s.input.pointer_control.threshold, 9);
    assert_eq!(sidecar::input::handle_change_pointer_control(&mut s, &d[..8])[1], 16);
    let mut ss = vec![107, 0, 3, 0];
    ss.extend_from_slice(&(-1i16).to_le_bytes());
    ss.extend_from_slice(&30i16.to_le_bytes());
    ss.extend_from_slice(&[0, 7]);
    assert!(sidecar::input::handle_set_screen_saver(&mut s, &ss).is_empty());
    let sv = &s.input.screen_saver;
    assert_eq!((sv.timeout, sv.interval, sv.prefer_blanking, sv.allow_exposures), (600, 30, 0, 1));
    ss[0] = 106;
    assert_eq!(sidecar::input::handle_set_screen_saver(&mut s, &ss)[1], 16);
}

fn keyboard_control_request(mask: u32, values: &[u32]) -> Vec<u8> {
    let mut d = vec![102, 0, 0, 0];
    d.extend_from_slice(&le32(mask));
    for v in values {
        d.extend_from_slice(&le32(*v));
    }
    d
}

#[test]
fn change_keyboard_control_sets_bell_leds_and_repeat() {
    let mut s = client();
    let change = sidecar::keyboard::handle_change_keyboard_control;
    let r = change(&mut s, &keyboard_control_request(0b0011_0110, &[150, 880, 3, 1]));
    assert!(r.is_empty());
    let kc = &s.input.keyboard_control;
    assert_eq!((kc.bell_percent, kc.bell_pitch, kc.led_mask), (100, 880, 0b100));
    let r = change(&mut s, &keyboard_control_request(0b1100_0000, &[65, 0]));
    assert!(r.is_empty());
    assert_eq!(s.input.keyboard_control.auto_repeats[8] & 0b10, 0);
    let r = change(&mut s, &keyboard_control_request(0b1000_0000, &[0]));
    assert!(r.is_empty());
    assert_eq!(s.input.keyboard_control.global_auto_repeat, 0);
    let e = change(&mut s, &keyboard_control_request(0b0010_0001, &[20, 2]));
    assert_eq!((e[1], &e[4..8], e[10]), (2, &le32(2)[..], 102));
    assert_eq!(s.input.keyboard_control.key_click_percent, 20);
    let e = change(&mut s, &keyboard_control_request(0b0000_0011, &[5]));
    assert_eq!(e[1], 16);
    assert_eq!(s.input.keyboard_control.key_click_percent, 20);
}

fn change_hosts_request(mode: u8, family: u8, addr: &[u8]) -> Vec<u8> {
    let mut d = vec![109, mode, 0, 0, family, 0];
    d.extend_from_slice(&(addr.len() as u16).to_le_bytes());
    d.extend_from_slice(addr);
    d
}

#[test]
fn change_hosts_inserts_once_and_deletes() {
    let mut s = client();
    let change = sidecar::hosts::handle_change_hosts;
    assert!(change(&mut s, &change_hosts_request(0, 0, &[10, 0, 0, 1])).is_empty());
    assert!(change(&mut s, &change_hosts_request(0, 0, &[10, 0, 0, 1])).is_empty());
    assert!(change(&mut s, &change_hosts_request(0, 254, &[])).is_empty());
    assert_eq!(s.input.access_hosts.len(), 2);
    assert_eq!((s.input.access_hosts[0].family, &s.input.access_hosts[0].address[..]), (0, &[10, 0, 0, 1][..]));
    let e = change(&mut s, &change_hosts_request(0, 0, &[10, 0, 1]));
    assert_eq!((e[1], &e[4..8]), (2, &le32(3)[..]));
    let e = change(&mut s, &change_hosts_request(2, 0, &[10, 0, 0, 1]));
    assert_eq!((e[1], &e[4..8]), (2, &le32(2)[..]));
    let e = change(&mut s, &change_hosts_request(0, 9, &[1]));
    assert_eq!((e[1], &e[4..8]), (2, &le32(9)[..]));
    assert!(change(&mut s, &change_hosts_request(1, 0, &[10, 0, 0, 1])).is_empty());
    assert_eq!(s.input.access_hosts.len(), 1);
    assert_eq!(s.input.access_hosts[0].family, 254);
    let mut short = change_hosts_request(0, 0, &[10, 0, 0, 1]);
    short.truncate(10);
    assert_eq!(change(&mut s, &short)[1], 16);
}

#[test]
fn query_pointer_and_translate_coordinates() {
    let mut s = client();
    add_window(&mut s, 0x10, 1, 10, 20, true);
    add_window(&mut s, 0x11, 0x10, 5, 5, true);
    add_window(&mut s, 0x12, 0x10, 5, 5, true);
    s.pointer_x = 30;
    s.pointer_y = 40;
    s.pointer_button_mask = 0x100;
    s.motion_hint_suppressed = true;
    let mut q = vec![38, 0, 2, 0];
    q.extend_from_slice(&le32(0x10));
    let r = sidecar::pointer::handle_query_pointer(&mut s, &q, 5, 0x4);
    assert!(!s.motion_hint_suppressed);
    assert_eq!((r[0], r[1], &r[8..12], &r[12..16]), (1, 1, &le32(1)[..], &le32(0x11)[..]));
    assert_eq!(&r[16..26], &[30, 0, 40, 0, 20, 0, 20, 0, 0x04, 0x01]);
    let mut t = vec![40, 0, 4, 0];
    t.extend_from_slice(&le32(0x11));
    t.extend_from_slice(&le32(0x10));
    t.extend_from_slice(&1i16.to_le_bytes());
    t.extend_from_slice(&2i16.to_le_bytes());
    let r = sidecar::pointer::handle_translate_coordinates(&s, &t, 5);
    assert_eq!((&r[8..12], &r[12..16]), (&le32(0x11)[..], &[6, 0, 7, 0][..]));
    assert_eq!(sidecar::pointer::handle_translate_coordinates(&s, &t[..12], 5)[1], 16);
    assert_eq!(sidecar::pointer::handle_query_pointer(&mut s, &q[..4], 5, 0)[1], 16);
}

#[test]
fn motion_history_in_a_time_range() {
    let mut s = client();
    s.motion_history = vec![(100, 1, 2), (200, 3, 4), (300, -5, 6)];
    let mut d = vec![39, 0, 4, 0];
    d.extend_from_slice(&le32(1));
    d.extend_from_slice(&le32(150));
    d.extend_from_slice(&le32(0));
    let r = sidecar::pointer::handle_get_motion_events(&mut s, &d, 8);
    assert_eq!(r.len(), 48);
    assert_eq!((&r[4..8], &r[8..12]), (&le32(4)[..], &le32(2)[..]));
    assert_eq!(&r[32..40], &[200, 0, 0, 0, 3, 0, 4, 0]);
    assert_eq!(&r[40..48], &[44, 1, 0, 0, 0xFB, 0xFF, 6, 0]);
    d[8..12].copy_from_slice(&le32(0));
    d[12..16].copy_from_slice(&le32(100));
    let r = sidecar::pointer::handle_get_motion_events(&mut s, &d, 8);
    assert_eq!(&r[8..12], &le32(1)[..]);
}

#[test]
fn bell_volume_from_the_request() {
    let s = client();
    assert_eq!(sidecar::pointer::handle_bell(&s, &[104, 0, 1, 0]), 50);
    assert_eq!(sidecar::pointer::handle_bell(&s, &[104, 70, 1, 0]), 70);
    assert_eq!(sidecar::pointer::handle_bell(&s, &[104, (-50i8) as u8, 1, 0]), 25);
    assert_eq!(sidecar::pointer::handle_bell(&s, &[104, 120, 1, 0]), 100);
    assert_eq!(sidecar::pointer::handle_bell(&s, &[104]), 50);
}

fn mapping_notify_bytes(request: u8, first: u8, count: u8, seq: u16) -> Vec<u8> {
    let mut e = vec![34, 0];
    e.extend_from_slice(&seq.to_le_bytes());
    e.extend_from_slice(&[request, first, count]);
    e.extend_from_slice(&[0; 25]);
    e
}

#[test]
fn change_keyboard_mapping_stores_runs_and_notifies_everyone() {
    let mut s = client();
    // Two keycodes from 38, two keysyms each: 'a'/'A' then 'b'/'B'.
    let mut req = vec![100, 2, 6, 0, 38, 2, 0, 0];
    for sym in [0x61u32, 0x41, 0x62, 0x42] {
        req.extend_from_slice(&sym.to_ne_bytes());
    }
    let r = handle_change_keyboard_mapping(&mut s, &req, 9);
    assert!(r.is_empty());
    assert_eq!(s.input.custom_keymap.get(&38), Some(&vec![0x61, 0x41]));
    assert_eq!(s.input.custom_keymap.get(&39), Some(&vec![0x62, 0x42]));
    assert_eq!(s.input.custom_keymap.len(), 2);
    assert_eq!(s.pending_events, vec![mapping_notify_bytes(1, 38, 2, 9)]);
    assert_eq!(s.global_events, vec![mapping_notify_bytes(1, 38, 2, 9)]);
}

#[test]
fn change_keyboard_mapping_wraps_past_keycode_255() {
    let mut s = client();
    let mut req = vec![100, 2, 4, 0, 255, 1, 0, 0];
    req.extend_from_slice(&7u32.to_ne_bytes());
    req.extend_from_slice(&8u32.to_ne_bytes());
    assert!(handle_change_keyboard_mapping(&mut s, &req, 9).is_empty());
    assert_eq!(s.input.custom_keymap.get(&255), Some(&vec![7]));
    assert_eq!(s.input.custom_keymap.get(&0), Some(&vec![8]));
}

#[test]
fn change_keyboard_mapping_errors() {
    let mut s = client();
    // Zero keysyms per keycode: BadValue.
    let r = handle_change_keyboard_mapping(&mut s, &[100, 3, 2, 0, 10, 0, 0, 0], 9);
    assert_eq!((r[0], r[1], &r[4..8], r[10]), (0, 2, &[0u8, 0, 0, 0][..], 100));
    // Keysyms missing: BadLength.
    let r = handle_change_keyboard_mapping(&mut s, &[100, 1, 3, 0, 10, 2, 0, 0, 1, 0, 0, 0], 9);
    assert_eq!((r[0], r[1], r[10]), (0, 16, 100));
    let r = handle_change_keyboard_mapping(&mut s, &[100, 1, 3, 0], 9);
    assert_eq!((r[0], r[1]), (0, 16));
    assert!(s.input.custom_keymap.is_empty());
    assert!(s.pending_events.is_empty() && s.global_events.is_empty());
}

#[test]
fn get_keyboard_mapping_uses_custom_entries_then_the_builtin_table() {
    let mut s = client();
    s.input.custom_keymap.insert(38, vec![0x61, 0x41, 0x101, 0x102, 0x103]);
    let r = handle_get_keyboard_mapping(&s, &[101, 0, 2, 0, 38, 2, 0, 0], 4);
    // Five keysyms per keycode: the longest custom entry.
    assert_eq!((r[0], r[1], &r[2..4], &r[4..8]), (1, 5, &[4u8, 0][..], &le32(10)[..]));
    assert_eq!(r.len(), 32 + 40);
    let syms: Vec<u32> = r[32..].chunks(4).map(|c| u32::from_le_bytes([c[0], c[1], c[2], c[3]])).collect();
    assert_eq!(syms, vec![0x61, 0x41, 0x101, 0x102, 0x103, 0x73, 0x53, 0, 0, 0]);
}

#[test]
fn get_keyboard_mapping_defaults_to_four_per_keycode() {
    let s = client();
    let r = handle_get_keyboard_mapping(&s, &[101, 0, 2, 0, 9, 1, 0, 0], 4);
    assert_eq!((r[1], r.len()), (4, 48));
    assert_eq!(&r[32..40], &[0x1b, 0xff, 0, 0, 0x1b, 0xff, 0, 0]);
    assert_eq!(&r[40..48], &[0; 8]);
    let r = handle_get_keyboard_mapping(&s, &[101, 0, 2, 0], 4);
    assert_eq!((r[0], r[1], r[10]), (0, 16, 101));
}

#[test]
fn set_pointer_mapping_replaces_leading_buttons() {
    let mut s = client();
    let r = handle_set_pointer_mapping(&mut s, &[116, 3, 2, 0, 3, 2, 1, 0], 5);
    assert_eq!((r[0], r[1], &r[2..4], r.len()), (1, 0, &[5u8, 0][..], 32));
    assert_eq!(s.input.pointer_mapping, vec![3, 2, 1, 4, 5, 6, 7]);
    assert_eq!(s.global_events, vec![mapping_notify_bytes(2, 0, 0, 5)]);
    assert_eq!(s.pending_events, vec![mapping_notify_bytes(2, 0, 0, 5)]);
}

#[test]
fn set_pointer_mapping_longer_than_the_map_changes_nothing() {
    let mut s = client();
    let mut req = vec![116, 8, 3, 0];
    req.extend_from_slice(&[1, 2, 3, 4, 5, 6, 7, 8]);
    let r = handle_set_pointer_mapping(&mut s, &req, 5);
    assert_eq!((r[0], r[1]), (1, 0));
    assert_eq!(s.input.pointer_mapping, vec![1, 2, 3, 4, 5, 6, 7]);
    assert!(s.global_events.is_empty());
    let r = handle_set_pointer_mapping(&mut s, &[116, 8, 3, 0, 1], 5);
    assert_eq!((r[0], r[1], r[10]), (0, 16, 116));
}

#[test]
fn set_modifier_mapping_drops_unused_slots() {
    let mut s = client();
    let mut req = vec![118, 2, 5, 0];
    // Shift: 50, 62; Lock: 66; Control: 37, 105; the rest unused.
    req.extend_from_slice(&[50, 62, 66, 0, 37, 105]);
    req.extend_from_slice(&[0; 10]);
    let r = handle_set_modifier_mapping(&mut s, &req, 6);
    assert_eq!((r[0], r[1], &r[2..4]), (1, 0, &[6u8, 0][..]));
    assert_eq!(s.input.modifier_map.len(), 8);
    assert_eq!(s.input.modifier_map[0], vec![50, 62]);
    assert_eq!(s.input.modifier_map[1], vec![66]);
    assert_eq!(s.input.modifier_map[2], vec![37, 105]);
    assert!(s.input.modifier_map[3..].iter().all(|m| m.is_empty()));
    // The event carries the connection's sequence number.
    assert_eq!(s.global_events, vec![mapping_notify_bytes(0, 0, 0, 7)]);
}

#[test]
fn set_modifier_mapping_with_no_keycodes_changes_nothing() {
    let mut s = client();
    let r = handle_set_modifier_mapping(&mut s, &[118, 0, 1, 0], 6);
    assert_eq!((r[0], r[1]), (1, 0));
    assert!(s.input.modifier_map.is_empty());
    assert!(s.pending_events.is_empty());
    let r = handle_set_modifier_mapping(&mut s, &[118, 1, 1, 0, 50], 6);
    assert_eq!((r[0], r[1], r[10]), (0, 16, 118));
}

fn dri3_reply(o: Dri3Outcome) -> Vec<u8> {
    match o {
        Dri3Outcome::Reply(v) => v,
        _ => panic!("expected a reply"),
    }
}

#[test]
fn dri3_query_version_agrees_on_1_4() {
    let mut s = client();
    let mut req = vec![149, 0, 3, 0];
    req.extend_from_slice(&le32(1));
    req.extend_from_slice(&le32(9));
    let r = dri3_reply(handle_dri3_request(&mut s, &req, 3));
    assert_eq!(r.len(), 32);
    assert_eq!((r[0], &r[2..4], &r[8..12], &r[12..16]), (1, &[3u8, 0][..], &le32(1)[..], &le32(4)[..]));
    let mut req = vec![149, 0, 3, 0];
    req.extend_from_slice(&le32(2));
    req.extend_from_slice(&le32(0));
    let r = dri3_reply(handle_dri3_request(&mut s, &req, 3));
    assert_eq!((&r[8..12], &r[12..16]), (&le32(1)[..], &le32(4)[..]));
    let mut req = vec![149, 0, 3, 0];
    req.extend_from_slice(&le32(0));
    req.extend_from_slice(&le32(7));
    let r = dri3_reply(handle_dri3_request(&mut s, &req, 3));
    assert_eq!((&r[8..12], &r[12..16]), (&le32(0)[..], &le32(7)[..]));
}

#[test]
fn dri3_short_requests_and_unknown_minors() {
    let mut s = client();
    let r = dri3_reply(handle_dri3_request(&mut s, &[149, 0, 1], 3));
    assert_eq!((r[0], r[1], r[10], &r[8..10]), (0, 16, 149, &[0u8, 0][..]));
    let r = dri3_reply(handle_dri3_request(&mut s, &[149, 6, 1, 0], 3));
    assert_eq!((r[1], &r[8..10]), (16, &[6u8, 0][..]));
    let r = dri3_reply(handle_dri3_request(&mut s, &[149, 12, 1, 0], 3));
    assert_eq!((r[1], &r[4..8], &r[8..10]), (1, &le32(12)[..], &[12u8, 0][..]));
}

#[test]
fn dri3_open_answers_with_one_descriptor() {
    let mut s = client();
    assert!(matches!(handle_dri3_request(&mut s, &[149, 1, 3, 0, 0, 0, 0, 0, 0, 0, 0, 0], 3), Dri3Outcome::OpenRenderNode));
    let r = open_reply(&mut s, 3, 17);
    assert_eq!((r[0], r[1], r.len()), (1, 1, 32));
    assert_eq!(s.reply_fds, vec![17]);
    let r = open_reply(&mut s, 3, -1);
    assert_eq!((r[0], r[1], r[10], &r[8..10]), (0, 11, 149, &[1u8, 0][..]));
    assert_eq!(s.reply_fds, vec![17]);
}

#[test]
fn dri3_pixmap_from_buffer_takes_the_newest_descriptor() {
    let mut s = client();
    s.pending_fds = vec![5, 6];
    let mut req = vec![149, 2, 6, 0];
    req.extend_from_slice(&le32(0x0040_0010));
    req.extend_from_slice(&le32(1));
    req.extend_from_slice(&le32(4096));
    req.extend_from_slice(&[16, 0, 8, 0, 64, 0, 24, 32]);
    match handle_dri3_request(&mut s, &req, 3) {
        Dri3Outcome::FillPixmap { pixmap, fd, size } => {
            assert_eq!((pixmap, fd, size), (0x0040_0010, Some(6), 16 * 8 * 4));
        },
        _ => panic!("expected a pixmap fill"),
    }
    assert_eq!(s.pending_fds, vec![5]);
    let p = s.pixmaps.get(&0x0040_0010).unwrap();
    assert_eq!((p.width, p.height, p.depth), (16, 8, 24));
}

#[test]
fn dri3_buffer_from_pixmap_reports_its_geometry() {
    let mut s = client();
    s.pixmaps.insert(0x0040_0010, PixmapState { width: 16, height: 8, depth: 24, alias_window: None });
    let mut req = vec![149, 3, 2, 0];
    req.extend_from_slice(&le32(0x0040_0010));
    match handle_dri3_request(&mut s, &req, 3) {
        Dri3Outcome::ExportBuffer { pixmap } => assert_eq!(pixmap, 0x0040_0010),
        _ => panic!("expected an export"),
    }
    let r = buffer_reply(&mut s, 3, 0x0040_0010, 9, 512);
    assert_eq!((r[0], r[1], &r[8..12]), (1, 1, &le32(512)[..]));
    assert_eq!((&r[12..14], &r[14..16], &r[16..18], r[18], r[19]), (&[16u8, 0][..], &[8u8, 0][..], &[64u8, 0][..], 24, 32));
    assert_eq!(s.reply_fds, vec![9]);
    let r = buffers_reply(&mut s, 3, 0x0040_0010, 10);
    assert_eq!((r.len(), &r[4..8], &r[8..10], &r[10..12], r[20], r[21], r[22]), (40, &le32(2)[..], &[16u8, 0][..], &[8u8, 0][..], 24, 32, 1));
    assert_eq!((&r[32..36], &r[36..40]), (&le32(64)[..], &le32(0)[..]));
    let mut req = vec![149, 8, 2, 0];
    req.extend_from_slice(&le32(0x0040_0099));
    let r = dri3_reply(handle_dri3_request(&mut s, &req, 3));
    assert_eq!((r[1], &r[4..8], &r[8..10]), (4, &le32(0x0040_0099)[..], &[8u8, 0][..]));
}

#[test]
fn dri3_fences_round_trip() {
    let mut s = client();
    s.pending_fds = vec![12];
    let mut req = vec![149, 4, 4, 0];
    req.extend_from_slice(&le32(1));
    req.extend_from_slice(&le32(0x0040_0020));
    req.extend_from_slice(&[1, 0, 0, 0]);
    assert!(dri3_reply(handle_dri3_request(&mut s, &req, 3)).is_empty());
    let f = s.fences.get(&0x0040_0020).copied().unwrap();
    assert_eq!((f.id, f.triggered, f.initially_triggered, f.fd), (0x0040_0020, true, true, 12));
    assert!(s.pending_fds.is_empty());
    let mut req = vec![149, 5, 3, 0];
    req.extend_from_slice(&le32(1));
    req.extend_from_slice(&le32(0x0040_0020));
    match handle_dri3_request(&mut s, &req, 3) {
        Dri3Outcome::ExportFence { fence, fd, triggered } => assert_eq!((fence, fd, triggered), (0x0040_0020, 12, true)),
        _ => panic!("expected a fence export"),
    }
    let r = fence_fd_reply(&mut s, 3, 0x0040_0020, -1, 30);
    assert_eq!((r[0], r[1]), (1, 1));
    assert_eq!(s.reply_fds, vec![30]);
    let r = fence_fd_reply(&mut s, 3, 0x0040_0020, -1, -1);
    assert_eq!((r[1], &r[4..8]), (11, &le32(0x0040_0020)[..]));
    let mut req = vec![149, 5, 3, 0];
    req.extend_from_slice(&le32(1));
    req.extend_from_slice(&le32(0x0040_0021));
    let r = dri3_reply(handle_dri3_request(&mut s, &req, 3));
    assert_eq!((r[1], &r[4..8], &r[8..10]), (2, &le32(0x0040_0021)[..], &[5u8, 0][..]));
}

#[test]
fn dri3_short_fence_request_closes_its_descriptor() {
    let mut s = client();
    s.pending_fds = vec![12, 13];
    match handle_dri3_request(&mut s, &[149, 4, 2, 0, 0, 0, 0, 0], 3) {
        Dri3Outcome::Refuse { error, close } => {
            assert_eq!(error[1], 16);
            assert_eq!(close, vec![13]);
        },
        _ => panic!("expected a refusal"),
    }
    assert_eq!(s.pending_fds, vec![12]);
}

#[test]
fn dri3_pixmap_from_buffers_takes_all_descriptors() {
    let mut s = client();
    s.pending_fds = vec![20, 21];
    let mut req = vec![149, 7, 16, 0];
    req.extend_from_slice(&le32(0x0040_0030));
    req.extend_from_slice(&le32(1));
    req.extend_from_slice(&[4, 0, 2, 0]);
    for (stride, offset) in [(4u32, 0u32), (4, 8), (0, 0), (0, 0)] {
        req.extend_from_slice(&le32(stride));
        req.extend_from_slice(&le32(offset));
    }
    req.extend_from_slice(&[24, 32]);
    req.extend_from_slice(&le32(0x3231_564E));
    req.extend_from_slice(&[0; 10]);
    match handle_dri3_request(&mut s, &req, 3) {
        Dri3Outcome::FillPixmapPlanes { pixmap, width, height, fourcc, strides, offsets, fds } => {
            assert_eq!((pixmap, width, height, fourcc), (0x0040_0030, 4, 2, 0x3231_564E));
            assert_eq!((strides, offsets, fds), ([4, 4, 0, 0], [0, 8, 0, 0], vec![20, 21]));
        },
        _ => panic!("expected a planes fill"),
    }
    assert!(s.pending_fds.is_empty());
    assert_eq!(s.pixmaps.get(&0x0040_0030).map(|p| p.depth), Some(24));
    s.pending_fds = vec![22];
    match handle_dri3_request(&mut s, &[149, 7, 2, 0, 0, 0, 0, 0], 3) {
        Dri3Outcome::Refuse { close, .. } => assert_eq!(close, vec![22]),
        _ => panic!("expected a refusal"),
    }
}

#[test]
fn dri3_supported_modifiers_and_device_in_use() {
    let mut s = client();
    let r = dri3_reply(handle_dri3_request(&mut s, &[149, 6, 3, 0, 1, 0, 0, 0, 24, 0, 0, 0], 3));
    assert_eq!(r.len(), 56);
    assert_eq!((&r[4..8], &r[8..12], &r[12..16]), (&le32(6)[..], &le32(1)[..], &le32(2)[..]));
    assert_eq!(&r[32..48], &[0; 16]);
    assert_eq!(&r[48..56], &[0xff, 0xff, 0xff, 0xff, 0xff, 0xff, 0xff, 0x00]);
    let mut req = vec![149, 9, 4, 0];
    req.extend_from_slice(&le32(1));
    req.extend_from_slice(&le32(226));
    req.extend_from_slice(&le32(128));
    assert!(dri3_reply(handle_dri3_request(&mut s, &req, 3)).is_empty());
    assert_eq!(s.dri3_drm_device, Some((226, 128)));
}

#[test]
fn gl_rendering_is_blitted_as_bgra_over_the_shared_area() {
    let mut s = client();
    add_window(&mut s, 0x0040_0001, 1, 0, 0, true);
    // A 3x2 RGBA rendering into a 2x3 drawable with 12-byte rows.
    let pixels: Vec<u8> = (0..24).collect();
    let mut dst = vec![0xEEu8; 36];
    let (w, h) = blit_osmesa_to_drawable(&mut s, 0x0040_0001, &mut dst, 2, 3, 12, &pixels, 3, 2);
    assert_eq!((w, h), (2, 2));
    assert_eq!(&dst[0..12], &[2, 1, 0, 3, 6, 5, 4, 7, 0xEE, 0xEE, 0xEE, 0xEE]);
    assert_eq!(&dst[12..20], &[14, 13, 12, 15, 18, 17, 16, 19]);
    assert_eq!(&dst[24..36], &[0xEE; 12]);
    let win = s.windows.get(&0x0040_0001).copied().unwrap();
    assert_eq!(s.damage_reports, vec![(0x0040_0001, 0, 0, win.width, win.height)]);
    // A pixmap target gets no damage report.
    let mut dst = vec![0u8; 8];
    blit_osmesa_to_drawable(&mut s, 0x0040_0077, &mut dst, 2, 1, 8, &pixels, 3, 2);
    assert_eq!(dst, vec![2, 1, 0, 3, 6, 5, 4, 7]);
    assert_eq!(s.damage_reports.len(), 1);
}

fn warp_request(src: u32, dst: u32, sx: i16, sy: i16, sw: u16, sh: u16, dx: i16, dy: i16) -> Vec<u8> {
    let mut r = vec![41, 0, 6, 0];
    r.extend_from_slice(&src.to_ne_bytes());
    r.extend_from_slice(&dst.to_ne_bytes());
    for v in [sx as u16, sy as u16, sw, sh, dx as u16, dy as u16] {
        r.extend_from_slice(&v.to_ne_bytes());
    }
    r
}

#[test]
fn set_input_focus_validates_and_records() {
    let mut s = client();
    add_window(&mut s, 0x0040_0001, 1, 0, 0, true);
    let mut req = vec![42, 2, 3, 0];
    req.extend_from_slice(&0x0040_0001u32.to_ne_bytes());
    req.extend_from_slice(&le32(0));
    assert!(sidecar::input::handle_set_input_focus(&mut s, &req).is_empty());
    assert_eq!((s.input.focus_window, s.input.focus_revert_to), (0x0040_0001, 2));
    // PointerRoot needs no window.
    let mut req = vec![42, 1, 3, 0];
    req.extend_from_slice(&1u32.to_ne_bytes());
    req.extend_from_slice(&le32(0));
    assert!(sidecar::input::handle_set_input_focus(&mut s, &req).is_empty());
    assert_eq!(s.input.focus_window, 1);
    // Unknown window, bad revert-to, short request.
    let mut req = vec![42, 0, 3, 0];
    req.extend_from_slice(&0x0040_0009u32.to_ne_bytes());
    req.extend_from_slice(&le32(0));
    let r = sidecar::input::handle_set_input_focus(&mut s, &req);
    assert_eq!((r[1], &r[4..8], r[10]), (3, &le32(0x0040_0009)[..], 42));
    req[1] = 3;
    let r = sidecar::input::handle_set_input_focus(&mut s, &req);
    assert_eq!((r[1], &r[4..8]), (2, &le32(3)[..]));
    let r = sidecar::input::handle_set_input_focus(&mut s, &req[..8]);
    assert_eq!((r[1], r[10]), (16, 42));
    assert_eq!((s.input.focus_window, s.input.focus_revert_to), (1, 1));
}

#[test]
fn warp_pointer_moves_relative_or_into_a_window() {
    let mut s = client();
    // The pointer is at (10, 20); a relative warp adds the offset.
    let r = sidecar::pointer::handle_warp_pointer(&mut s, &warp_request(0, 0, 0, 0, 0, 0, 5, -30), 3);
    assert_eq!(r, Ok(Some((15, -10))));
    assert_eq!((s.pointer_x, s.pointer_y), (15, -10));
    // Into a window at (30, 40) inside one at (100, 200): positions add up.
    add_window(&mut s, 0x0040_0001, 1, 100, 200, true);
    add_window(&mut s, 0x0040_0002, 0x0040_0001, 30, 40, true);
    let r = sidecar::pointer::handle_warp_pointer(&mut s, &warp_request(0, 0x0040_0002, 0, 0, 0, 0, 7, 8), 3);
    assert_eq!(r, Ok(Some((137, 248))));
    // Past the screen's edge the position is kept on the screen.
    let r = sidecar::pointer::handle_warp_pointer(&mut s, &warp_request(0, 0x0040_0002, 0, 0, 0, 0, 2000, -900), 3);
    assert_eq!(r, Ok(Some((799, 0))));
    assert_eq!((s.pointer_x, s.pointer_y), (799, 0));
}

#[test]
fn warp_pointer_from_a_source_window_needs_the_pointer_inside() {
    let mut s = client();
    add_window(&mut s, 0x0040_0001, 1, 0, 0, true);
    // The pointer (10, 20) lies in the window's (0, 0) 100x50 area.
    let r = sidecar::pointer::handle_warp_pointer(&mut s, &warp_request(0x0040_0001, 0, 0, 0, 0, 0, 1, 1), 3);
    assert_eq!(r, Ok(Some((11, 21))));
    // A source rectangle that leaves the pointer out stops the warp.
    let r = sidecar::pointer::handle_warp_pointer(&mut s, &warp_request(0x0040_0001, 0, 50, 0, 10, 10, 1, 1), 3);
    assert_eq!(r, Ok(None));
    assert_eq!((s.pointer_x, s.pointer_y), (11, 21));
    let r = sidecar::pointer::handle_warp_pointer(&mut s, &warp_request(0, 0, 0, 0, 0, 0, 1, 1)[..20], 3);
    assert_eq!(r.map_err(|e| (e[1], e[10])), Err((16, 41)));
}

#[test]
fn force_screen_saver_activate_then_reset_repaints() {
    let mut s = client();
    add_window(&mut s, 0x0040_0001, 1, 0, 0, true);
    add_window(&mut s, 0x0040_0002, 1, 5, 5, true);
    add_window(&mut s, 0x0040_0003, 1, 5, 5, false);
    s.windows.get_mut(&0x0040_0001).unwrap().event_mask = 0x8000;
    s.input.screen_saver_event_mask = 1;
    s.now = 4321;
    let r = sidecar::screen_saver::handle_force_screen_saver(&mut s, &[115, 1, 1, 0], 9);
    assert_eq!((r[0], r[1]), (92, 1));
    assert!(s.input.screen_saver.active);
    let r = sidecar::screen_saver::handle_force_screen_saver(&mut s, &[115, 0, 1, 0], 9);
    assert_eq!((r[0], r[1]), (92, 0));
    assert!(!s.input.screen_saver.active);
    assert_eq!(s.input.screen_saver.last_reset_ms, 4321);
    // Both mapped windows go to the other clients; only the one that
    // selected ExposureMask gets its Expose here.
    let mut shared: Vec<u32> = s.broadcasts.iter().map(|b| b.0).collect();
    shared.sort();
    assert_eq!(shared, vec![0x0040_0001, 0x0040_0002]);
    assert!(s.broadcasts.iter().all(|b| b.1 == 0x8000 && b.2[0] == 12));
    assert_eq!(s.pending_events.len(), 1);
    let e = &s.pending_events[0];
    assert_eq!((e[0], &e[2..4], &e[4..8], &e[12..14], &e[14..16]), (12, &[9u8, 0][..], &le32(0x0040_0001)[..], &[100u8, 0][..], &[50u8, 0][..]));
}

#[test]
fn force_screen_saver_reset_when_off_only_restarts_the_timer() {
    let mut s = client();
    add_window(&mut s, 0x0040_0001, 1, 0, 0, true);
    s.now = 77;
    let r = sidecar::screen_saver::handle_force_screen_saver(&mut s, &[115, 0, 1, 0], 9);
    assert!(r.is_empty());
    assert_eq!(s.input.screen_saver.last_reset_ms, 77);
    assert!(s.broadcasts.is_empty() && s.pending_events.is_empty());
    let r = sidecar::screen_saver::handle_force_screen_saver(&mut s, &[115, 2, 1, 0], 9);
    assert_eq!((r[1], &r[4..8], r[10]), (2, &le32(2)[..], 115));
}

fn rotate_request(window: u32, delta: i16, atoms: &[u32]) -> Vec<u8> {
    let mut r = vec![114, 0, 0, 0];
    r.extend_from_slice(&window.to_ne_bytes());
    r.extend_from_slice(&(atoms.len() as u16).to_ne_bytes());
    r.extend_from_slice(&delta.to_ne_bytes());
    for a in atoms {
        r.extend_from_slice(&a.to_ne_bytes());
    }
    r
}

#[test]
fn rotate_properties_plans_the_rotation_and_notifies() {
    let mut s = client();
    add_window(&mut s, 0x0040_0001, 1, 0, 0, true);
    s.windows.get_mut(&0x0040_0001).unwrap().event_mask = 0x0040_0000;
    let r = sidecar::properties::handle_rotate_properties(&mut s, &rotate_request(0x0040_0001, 1, &[10, 20, 30]));
    // Each atom takes the value of the atom one place before it.
    assert_eq!(r, Ok(vec![(10, 30), (20, 10), (30, 20)]));
    assert_eq!(s.pending_events.len(), 3);
    assert_eq!(s.broadcasts.len(), 3);
    let e = &s.pending_events[1];
    assert_eq!((e[0], &e[2..4], &e[4..8], &e[8..12], &e[12..16], e[16]), (28, &[7u8, 0][..], &le32(0x0040_0001)[..], &le32(20)[..], &le32(1000)[..], 0));
    let r = sidecar::properties::handle_rotate_properties(&mut s, &rotate_request(0x0040_0001, -4, &[10, 20, 30]));
    assert_eq!(r, Ok(vec![(10, 20), (20, 30), (30, 10)]));
}

#[test]
fn rotate_properties_refusals_and_no_ops() {
    let mut s = client();
    add_window(&mut s, 0x0040_0001, 1, 0, 0, true);
    let r = sidecar::properties::handle_rotate_properties(&mut s, &rotate_request(0x0040_0001, 1, &[10, 20, 10]));
    assert_eq!(r.map_err(|e| (e[1], e[4..8].to_vec())), Err((8, le32(10).to_vec())));
    let r = sidecar::properties::handle_rotate_properties(&mut s, &rotate_request(0x0040_0009, 1, &[10]));
    assert_eq!(r.map_err(|e| e[1]), Err(3));
    assert_eq!(sidecar::properties::handle_rotate_properties(&mut s, &rotate_request(0x0040_0001, 0, &[10, 20])), Ok(vec![]));
    assert_eq!(sidecar::properties::handle_rotate_properties(&mut s, &rotate_request(0x0040_0001, 3, &[10])), Ok(vec![]));
    let short = rotate_request(0x0040_0001, 1, &[10, 20]);
    let r = sidecar::properties::handle_rotate_properties(&mut s, &short[..16]);
    assert_eq!(r.map_err(|e| (e[1], e[10])), Err((16, 114)));
    assert!(s.pending_events.is_empty() && s.broadcasts.is_empty());
}

#[test]
fn opposite_rotations_restore_the_values() {
    let mut s = client();
    add_window(&mut s, 0x0040_0001, 1, 0, 0, true);
    let atoms = [1u32, 2, 3, 4, 5];
    let mut values: HashMap<u32, u32> = atoms.iter().map(|a| (*a, a * 100)).collect();
    for delta in [2i16, -2] {
        let plan = sidecar::properties::handle_rotate_properties(&mut s, &rotate_request(0x0040_0001, delta, &atoms)).unwrap();
        let before = values.clone();
        for (target, source) in plan {
            values.insert(target, before[&source]);
        }
    }
    assert!(atoms.iter().all(|a| values[a] == a * 100));
}

fn metrics(lsb: i16, rsb: i16, width: i16, ascent: i16, descent: i16) -> sidecar::fonts::CharMetrics {
    sidecar::fonts::CharMetrics {
        left_side_bearing: lsb,
        right_side_bearing: rsb,
        character_width: width,
        ascent,
        descent,
        attributes: 0,
    }
}

fn test_font(name: &str) -> sidecar::fonts::FontMetrics {
    sidecar::fonts::FontMetrics {
        name: name.as_bytes().to_vec(),
        min_bounds: metrics(0, 5, 7, 9, 2),
        max_bounds: sidecar::fonts::CharMetrics { attributes: 3, ..metrics(1, 7, 8, 11, 3) },
        min_char: 65,
        max_char: 67,
        default_char: 65,
        font_ascent: 11,
        font_descent: 3,
        char_infos: vec![metrics(0, 6, 8, 11, 0), metrics(1, 7, 8, 11, 3)],
    }
}

fn prop_values(r: &[u8], count: usize) -> Vec<(u32, i32)> {
    (0..count)
        .map(|i| {
            let o = 60 + 8 * i;
            (u32::from_le_bytes([r[o], r[o + 1], r[o + 2], r[o + 3]]), i32::from_le_bytes([r[o + 4], r[o + 5], r[o + 6], r[o + 7]]))
        })
        .collect()
}

#[test]
fn query_text_extents_sums_widths_and_reaches() {
    let s = client();
    let chars = [metrics(-1, 5, 6, 9, 2), metrics(0, 9, 6, 9, 2), metrics(1, 2, 4, 9, 2)];
    let r = sidecar::fonts::handle_query_text_extents(&s, Some((11, 3)), &chars);
    assert_eq!(r.len(), 32);
    assert_eq!((&r[8..10], &r[10..12], &r[12..14], &r[14..16]), (&[11u8, 0][..], &[3u8, 0][..], &[11u8, 0][..], &[3u8, 0][..]));
    // Width 16; left is the first bearing, -1; the second character
    // reaches 6 + 9 = 15, but the string ends at 16.
    assert_eq!((&r[16..20], &r[20..24], &r[24..28]), (&le32(16)[..], &(-1i32).to_le_bytes()[..], &le32(16)[..]));
    let r = sidecar::fonts::handle_query_text_extents(&s, Some((11, 3)), &[metrics(0, 20, 6, 9, 2)]);
    assert_eq!(&r[24..28], &le32(20)[..]);
    let r = sidecar::fonts::handle_query_text_extents(&s, None, &chars);
    assert_eq!((&r[8..10], &r[10..12], &r[16..20]), (&[12u8, 0][..], &[4u8, 0][..], &le32(0)[..]));
}

#[test]
fn query_font_describes_the_font_and_its_properties() {
    let mut s = client();
    let atoms: Vec<u32> = (100..117).collect();
    let f = test_font("-misc-fixed-bold-r-normal--14-130-75-75-P-+70-iso8859-1");
    let r = sidecar::fonts::handle_query_font(&s, 0x0040_0005, true, Some(&f), &atoms);
    // Three characters, two of which the font describes.
    assert_eq!(r.len(), 60 + 17 * 8 + 3 * 12);
    assert_eq!((&r[40..42], &r[42..44], &r[46..48], r[51], &r[56..60]), (&[65u8, 0][..], &[67u8, 0][..], &[17u8, 0][..], 0, &le32(3)[..]));
    assert_eq!(&r[34..36], &[3, 0]);
    let props = prop_values(&r, 17);
    let values: Vec<i32> = props.iter().map(|p| p.1).collect();
    assert_eq!(values, vec![14, 140, 75, 75, 200, 7, 8, 11, 11, 3, 70, 2, 8, 8, 8, -1, 1]);
    assert_eq!(props[0].0, 100);
    let chars = 60 + 17 * 8;
    assert_eq!(&r[chars..chars + 12], &[0, 0, 6, 0, 8, 0, 11, 0, 0, 0, 0, 0]);
    assert_eq!(&r[chars + 24..chars + 36], &[0; 12]);
    // A short name, or an unreadable average width, falls back to ten
    // times the widest character.
    let r = sidecar::fonts::handle_query_font(&s, 0x0040_0005, true, Some(&test_font("fixed")), &atoms);
    let values: Vec<i32> = prop_values(&r, 17).iter().map(|p| p.1).collect();
    assert_eq!((values[4], values[10], values[11]), (10, 80, 1));
    let r = sidecar::fonts::handle_query_font(&s, 0x0040_0005, true, Some(&test_font("-a-b-LIGHT-r-normal--14-130-75-75-m-7x-iso8859-1")), &atoms);
    let values: Vec<i32> = prop_values(&r, 17).iter().map(|p| p.1).collect();
    assert_eq!((values[4], values[10], values[11]), (5, 80, 1));
    // Neither a font nor a GC: BadFont.
    let r = sidecar::fonts::handle_query_font(&s, 0x0040_0009, false, None, &atoms);
    assert_eq!((r[0], r[1], &r[4..8], r[10]), (0, 7, &le32(0x0040_0009)[..], 47));
    // A font the store cannot describe: the 6x13 fallback.
    s.gcs.insert(0x0040_0009, GcState::default());
    let r = sidecar::fonts::handle_query_font(&s, 0x0040_0009, false, None, &atoms);
    assert_eq!(r.len(), 60 + 95 * 12);
    assert_eq!((&r[40..42], &r[42..44], r[51], &r[56..60]), (&[32u8, 0][..], &[126u8, 0][..], 1, &le32(95)[..]));
}

#[test]
fn list_fonts_sends_counted_padded_names() {
    let s = client();
    let names = vec![b"fixed".to_vec(), b"6x13".to_vec()];
    let r = sidecar::fonts::handle_list_fonts(&s, &names);
    assert_eq!((&r[4..8], &r[8..10]), (&le32(3)[..], &[2u8, 0][..]));
    assert_eq!(&r[32..], b"\x05fixed\x046x13\x00");
}

#[test]
fn list_fonts_with_info_counts_down_to_a_closing_reply() {
    let s = client();
    let names = vec![b"fixed".to_vec(), b"nofont".to_vec()];
    let fonts = vec![Some(test_font("fixed")), None];
    let atoms: Vec<u32> = (200..207).collect();
    let r = sidecar::fonts::handle_list_fonts_with_info(&s, &names, &fonts, &atoms);
    let first_len = 32 + 28 + 7 * 8 + 8;
    let second_len = 32 + 28 + 8;
    assert_eq!(r.len(), first_len + second_len + 60);
    assert_eq!((r[1], &r[46..48], &r[56..60]), (5, &[7u8, 0][..], &le32(1)[..]));
    assert_eq!(&r[34..36], &[0, 0]);
    let values: Vec<i32> = prop_values(&r, 7).iter().map(|p| p.1).collect();
    assert_eq!(values, vec![14, 140, 75, 75, 10, 7, 8]);
    assert_eq!(&r[60 + 56..60 + 61], b"fixed");
    let second = &r[first_len..];
    assert_eq!((second[1], &second[46..48], &second[56..60], &second[60..66]), (6, &[0u8, 0][..], &le32(0)[..], &b"nofont"[..]));
    let closing = &r[first_len + second_len..];
    assert_eq!((closing[0], closing[1], &closing[4..8]), (1, 0, &le32(7)[..]));
}

#[test]
fn font_path_keeps_utf8_entries_and_lists_short_ones() {
    let mut s = client();
    let entries = vec![b"/usr/share/fonts".to_vec(), vec![0xff, 0xfe], "caf\u{e9}".as_bytes().to_vec(), vec![b'x'; 300]];
    assert!(sidecar::fonts::handle_set_font_path(&mut s, &entries).is_empty());
    assert_eq!(s.font_path.len(), 3);
    assert_eq!(s.font_path[1], "caf\u{e9}".as_bytes().to_vec());
    let r = sidecar::fonts::handle_get_font_path(&s);
    // All three are counted; the 300-byte one does not fit a STR.
    assert_eq!(&r[8..10], &[3, 0]);
    assert_eq!(&r[32..49], b"\x10/usr/share/fonts");
    assert_eq!(&r[49..55], b"\x05caf\xc3\xa9");
    assert_eq!(r.len(), 56);
}

#[test]
fn open_and_close_font_checks() {
    let mut s = client();
    assert!(sidecar::fonts::handle_open_font(&s, 0x0040_0003, false).is_none());
    let e = sidecar::fonts::handle_open_font(&s, 0x0040_0003, true).unwrap();
    assert_eq!((e[1], &e[4..8], e[10]), (14, &le32(0x0040_0003)[..], 45));
    let e = sidecar::fonts::handle_open_font(&s, 0x0080_0003, false).unwrap();
    assert_eq!(e[1], 14);
    let r = sidecar::fonts::handle_close_font(&mut s, 0x0040_0003, false);
    assert_eq!((r[1], r[10]), (7, 46));
    assert!(sidecar::fonts::handle_close_font(&mut s, 0x0040_0003, true).is_empty());
    assert_eq!(s.recycled_xids, vec![0x0040_0003]);
}

#[test]
fn changed_keysyms_read_back() {
    let mut s = client();
    let mut req = vec![100, 1, 5, 0, 24, 3, 0, 0];
    for sym in [0x71u32, 0x51, 0x40] {
        req.extend_from_slice(&sym.to_ne_bytes());
    }
    assert!(handle_change_keyboard_mapping(&mut s, &req, 9).is_empty());
    let r = handle_get_keyboard_mapping(&s, &[101, 0, 2, 0, 24, 1, 0, 0], 10);
    assert_eq!(r[1], 4);
    let syms: Vec<u32> = r[32..].chunks(4).map(|c| u32::from_le_bytes([c[0], c[1], c[2], c[3]])).collect();
    assert_eq!(syms, vec![0x71, 0x51, 0x40, 0]);
}

#[test]
fn pointer_mapping_reads_back() {
    let mut s = client();
    handle_set_pointer_mapping(&mut s, &[116, 2, 2, 0, 3, 1, 0, 0], 5);
    let r = sidecar::input::handle_get_pointer_mapping(&s, 6);
    assert_eq!((r[1], &r[32..39]), (7, &[3u8, 1, 3, 4, 5, 6, 7][..]));
}

#[test]
fn input_focus_reads_back() {
    let mut s = client();
    add_window(&mut s, 0x0040_0001, 1, 0, 0, true);
    let mut req = vec![42, 2, 3, 0];
    req.extend_from_slice(&0x0040_0001u32.to_ne_bytes());
    req.extend_from_slice(&le32(0));
    sidecar::input::handle_set_input_focus(&mut s, &req);
    let r = sidecar::input::handle_get_input_focus(&mut s, &[43, 0, 1, 0], 8);
    assert_eq!((r[1], &r[8..12]), (2, &le32(0x0040_0001)[..]));
}

#[test]
fn relative_warps_cancel() {
    let mut s = client();
    sidecar::pointer::handle_warp_pointer(&mut s, &warp_request(0, 0, 0, 0, 0, 0, 37, -12), 3).unwrap();
    sidecar::pointer::handle_warp_pointer(&mut s, &warp_request(0, 0, 0, 0, 0, 0, -37, 12), 3).unwrap();
    assert_eq!((s.pointer_x, s.pointer_y), (10, 20));
}

#[test]
fn relative_poly_line_equals_absolute_form() {
    let mut rel_state = client();
    add_window(&mut rel_state, 0x10, 1, 0, 0, true);
    rel_state.gcs.insert(5, GcState::default());
    let mut abs_state = client();
    add_window(&mut abs_state, 0x10, 1, 0, 0, true);
    abs_state.gcs.insert(5, GcState::default());
    let mut rel = drawing(65, 0x10, 5, &[10, 10, 5, 0, 0, 5, -20, 3]);
    rel[1] = 1;
    let abs = drawing(65, 0x10, 5, &[10, 10, 15, 10, 15, 15, -5, 18]);
    let r1 = sidecar::drawing::primitives::handle_poly_line(&mut rel_state, &rel);
    let r2 = sidecar::drawing::primitives::handle_poly_line(&mut abs_state, &abs);
    assert_eq!(r1, r2);
    let points = |s: &ClientState| match &s.draw_ops[0].shape {
        Shape::Polyline { points } => points.clone(),
        _ => panic!("not a polyline"),
    };
    assert_eq!(points(&rel_state), vec![(10, 10), (15, 10), (15, 15), (-5, 18)]);
    assert_eq!(points(&rel_state), points(&abs_state));
    assert_eq!(rel_state.damage_reports, abs_state.damage_reports);
}

#[test]
fn missing_tile_or_stipple_fills_arcs_solid() {
    for (fill_style, tile, stipple) in [(1u8, 0x77u32, 0u32), (2, 0, 0x78), (3, 0, 0x79)] {
        let mut patterned = client();
        add_window(&mut patterned, 0x10, 1, 0, 0, true);
        let mut g = GcState::default();
        g.fill_style = fill_style;
        g.tile = tile;
        g.stipple = stipple;
        g.foreground = 0xff0000;
        patterned.gcs.insert(5, g);
        let mut solid = client();
        add_window(&mut solid, 0x10, 1, 0, 0, true);
        let mut g = GcState::default();
        g.fill_style = 0;
        g.tile = tile;
        g.stipple = stipple;
        g.foreground = 0xff0000;
        solid.gcs.insert(5, g);
        let d = drawing(71, 0x10, 5, &[4, 6, 20, 10, 0, 23040, 1, 2]);
        let r1 = sidecar::drawing::primitives::handle_poly_fill_arc(&mut patterned, &d);
        let r2 = sidecar::drawing::primitives::handle_poly_fill_arc(&mut solid, &d);
        assert!(r1.is_empty() && r2.is_empty());
        assert_eq!(patterned.draw_ops.len(), 1);
        assert!(matches!(patterned.draw_ops[0].paint, Paint::Solid));
        assert!(matches!(solid.draw_ops[0].paint, Paint::Solid));
        assert!(matches!(patterned.draw_ops[0].shape, Shape::FillArc { x: 4, y: 6, width: 20, height: 10, angle1: 0, angle2: 23040 }));
        assert!(matches!(solid.draw_ops[0].shape, Shape::FillArc { x: 4, y: 6, width: 20, height: 10, angle1: 0, angle2: 23040 }));
        assert_eq!(patterned.damage_reports, solid.damage_reports);
    }
}

#[test]
fn image_text16_with_zero_high_bytes_matches_image_text8() {
    let mut wide = client();
    add_window(&mut wide, 0x10, 1, 0, 0, true);
    wide.gcs.insert(5, GcState::default());
    let mut narrow = client();
    add_window(&mut narrow, 0x10, 1, 0, 0, true);
    narrow.gcs.insert(5, GcState::default());
    let d16 = text_request(77, 3, &[0, b'h', 0, b'i', 0, 0xe9, 0, 0]);
    let mut d8 = d16[0..16].to_vec();
    d8.extend_from_slice(&[b'h', b'i', 0xe9]);
    let r1 = sidecar::drawing::text::handle_image_text16(&mut wide, &d16);
    let r2 = sidecar::drawing::text::handle_image_text8(&mut narrow, &d8);
    assert_eq!(r1, r2);
    for s in [&wide, &narrow] {
        assert_eq!(s.draw_ops.len(), 1);
        assert_eq!((s.draw_ops[0].drawable, s.draw_ops[0].gc), (0x10, 5));
        assert!(matches!(&s.draw_ops[0].shape, Shape::ImageText8 { text, x: 10, y: 20 } if text == &vec![b'h', b'i', 0xe9]));
    }
}

#[test]
fn dbe_allocate_query_deallocate_round_trip() {
    let mut s = client();
    add_window(&mut s, 0x10, 1, 0, 0, true);
    let dbe = sidecar::dbe::handle_dbe_request;
    let mut alloc = request(16, &[(4, &le32(0x10)), (8, &le32(0x600))]);
    alloc[0] = 157;
    alloc[1] = 1;
    assert!(dbe(&mut s, &alloc, 9).is_empty());
    let p = &s.pixmaps[&0x600];
    assert_eq!((p.width, p.height, p.depth, p.alias_window), (100, 50, 24, None));
    let mut attrs = request(8, &[(4, &le32(0x600))]);
    attrs[0] = 157;
    attrs[1] = 7;
    let v = dbe(&mut s, &attrs, 9);
    assert_eq!((v.len(), v[0], v[2]), (32, 1, 9));
    assert_eq!(&v[8..12], &le32(0x10));
    let mut free = request(8, &[(4, &le32(0x600))]);
    free[0] = 157;
    free[1] = 2;
    assert!(dbe(&mut s, &free, 9).is_empty());
    assert!(!s.pixmaps.contains_key(&0x600));
    assert!(!s.back_buffers.contains_key(&0x600));
    assert_eq!(&dbe(&mut s, &attrs, 9)[8..12], &le32(0));
}

#[test]
fn glx_create_context_then_make_current() {
    let mut s = client();
    s.glx.next_tag = 4;
    let mut create = vec![0u8; 24];
    create[4..8].copy_from_slice(&le32(0x70));
    create[8..12].copy_from_slice(&le32(0x21));
    assert!(sidecar::glx::context::handle_create_context(&mut s, &create, 3).is_empty());
    let mut make = vec![0u8; 16];
    make[4..8].copy_from_slice(&le32(0x10));
    make[8..12].copy_from_slice(&le32(0x70));
    let v = sidecar::glx::context::handle_make_current(&mut s, &make, 3);
    assert_eq!((v.len(), v[0]), (32, 1));
    assert_eq!(&v[8..12], &4u32.to_le_bytes());
    assert_eq!((s.glx.current_context, s.glx.current_drawable), (0x70, 0x10));
    assert_eq!(s.glx.contexts[&0x70].drawable, 0x10);
    make[8..12].copy_from_slice(&le32(0));
    let v = sidecar::glx::context::handle_make_current(&mut s, &make, 3);
    assert_eq!(&v[8..12], &[0, 0, 0, 0]);
    assert_eq!((s.glx.current_context, s.glx.current_drawable), (0, 0));
}

fn inflate(data: &[u8]) -> Vec<u8> {
    let mut out = Vec::new();
    flate2::read::DeflateDecoder::new(data).read_to_end(&mut out).unwrap();
    out
}

#[test]
fn cursor_update_names_top_level_and_compresses_bitmap() {
    let mut s = client();
    add_window(&mut s, 0x11, 1, 0, 0, true);
    add_window(&mut s, 0x12, 0x11, 0, 0, true);
    s.windows.get_mut(&0x12).unwrap().cursor = Some(0x40);
    s.cursors.insert(0x40, "pointer".to_string());
    let argb: Vec<u8> = (0..64u32).map(|i| (i % 7) as u8).collect();
    s.cursor_images.insert(0x40, CursorImage { argb: argb.clone(), width: 4, height: 4, hotspot_x: 1, hotspot_y: 2, frames: Vec::new() });
    s.cursor_event_subscribers = vec![0x11, 0x12];
    let u = cursor_update(&mut s, 0x12);
    assert_eq!(u.window, 0x11);
    assert_eq!(u.css, "pointer");
    match &u.picture {
        CursorPicture::Bitmap { width, height, hotspot_x, hotspot_y, data } => {
            assert_eq!((*width, *height, *hotspot_x, *hotspot_y), (4, 4, 1, 2));
            assert_ne!(data, &argb);
            assert_eq!(inflate(data), argb);
        },
        _ => panic!("no bitmap"),
    }
    assert_eq!(s.current_cursor, 0x40);
    assert_eq!(s.pending_events.len(), 2);
    let e = &s.pending_events[1];
    assert_eq!(e.len(), 32);
    assert_eq!((e[0], e[1], e[2], e[3]), (88, 0, 7, 0));
    assert_eq!(&e[4..8], &le32(0x12));
    assert_eq!(&e[8..12], &le32(0x40));
    assert_eq!(&e[12..16], &le32(1000));
    assert_eq!(&e[16..32], &[0u8; 16]);
    let again = cursor_update(&mut s, 0x12);
    assert_eq!(again.window, 0x11);
    assert_eq!(s.pending_events.len(), 2);
}

#[test]
fn cursor_update_without_cursor_is_default_and_animated_frames_are_sent() {
    let mut s = client();
    add_window(&mut s, 0x11, 1, 0, 0, true);
    s.cursor_event_subscribers = vec![0x11];
    let u = cursor_update(&mut s, 0x11);
    assert_eq!((u.window, u.css.as_str()), (0x11, "default"));
    assert!(matches!(u.picture, CursorPicture::Named));
    assert_eq!((s.current_cursor, s.pending_events.len()), (0, 0));
    let frame = |fill: u8, delay: u32| CursorFrame { argb: vec![fill; 16], width: 2, height: 2, hotspot_x: 0, hotspot_y: 1, delay_ms: delay };
    s.windows.get_mut(&0x11).unwrap().cursor = Some(0x41);
    s.cursor_images.insert(0x41, CursorImage { argb: Vec::new(), width: 0, height: 0, hotspot_x: 0, hotspot_y: 0, frames: vec![frame(3, 50), frame(9, 80)] });
    let u = cursor_update(&mut s, 0x11);
    assert_eq!(u.css, "default");
    match &u.picture {
        CursorPicture::Animated { frames } => {
            assert_eq!(frames.len(), 2);
            assert_eq!(inflate(&frames[0].pixels), vec![3u8; 16]);
            assert_eq!(inflate(&frames[1].pixels), vec![9u8; 16]);
            assert_eq!((frames[1].width, frames[1].hotspot_y, frames[1].delay_ms), (2, 1, 80));
        },
        _ => panic!("not animated"),
    }
    assert_eq!(s.current_cursor, 0x41);
    assert_eq!(s.pending_events.len(), 1);
    add_window(&mut s, 0x13, 0x11, 0, 0, true);
    s.cursor_images.insert(0x42, CursorImage { argb: vec![1; 16], width: 0, height: 2, hotspot_x: 0, hotspot_y: 0, frames: Vec::new() });
    s.windows.get_mut(&0x13).unwrap().cursor = Some(0x42);
    assert!(matches!(cursor_update(&mut s, 0x13).picture, CursorPicture::Named));
}

#[test]
fn queued_put_image_paints_the_framebuffer() {
    let mut s = client();
    add_window(&mut s, 0x10, 1, 0, 0, true);
    let mut g = GcState::default();
    g.function = 3;
    g.plane_mask = 0xFFFF_FFFF;
    s.gcs.insert(5, g);
    let r = sidecar::drawing::primitives::handle_put_image(&mut s, &put_image_request(0x10, 5, 2, 2, 1, 1, 1, 16, &[0x00, 0xF8, 0x1F, 0x00]));
    assert!(r.is_empty());
    let palette: Vec<(u8, u8, u8, u8)> = (0..256u32).map(|i| (i as u8, 0, 0, i as u8)).collect();
    let style = image_style_of(&s.gcs[&5], 0xFF0000, 0x0000FF, palette);
    assert_eq!((style.function, style.plane_mask, style.foreground, style.background), (3, 0xFFFF_FFFF, 0xFF0000, 0x0000FF));
    let mut fb = vec![9u8; 3 * 2 * 4];
    assert!(paint_queued_image(&mut fb, 3, 2, &s.draw_ops[0], &style));
    assert_eq!(&fb[16..20], &[0, 0, 255, 255]);
    assert_eq!(&fb[20..24], &[255, 0, 0, 255]);
    assert_eq!(&fb[0..4], &[9, 9, 9, 9]);
    let mut g2 = GcState::default();
    g2.function = 3;
    s.gcs.insert(6, g2);
    sidecar::drawing::primitives::handle_poly_fill_rectangle(&mut s, &drawing(70, 0x10, 6, &[0, 0, 1, 1]));
    let before = fb.clone();
    assert!(!paint_queued_image(&mut fb, 3, 2, &s.draw_ops[1], &style));
    assert_eq!(fb, before);
}

#[test]
fn set_font_path_keeps_only_well_formed_utf8() {
    let mut s = client();
    let entries = vec![
        b"built-ins".to_vec(),
        vec![0xC3, 0xA9],
        vec![0xC0, 0x80],
        vec![0xED, 0xA0, 0x80],
        vec![0xF0, 0x9F, 0x98, 0x80],
        vec![0xE2, 0x82],
        vec![0xF4, 0x90, 0x80, 0x80],
        Vec::new(),
    ];
    assert!(sidecar::fonts::handle_set_font_path(&mut s, &entries).is_empty());
    assert_eq!(
        s.font_path,
        vec![b"built-ins".to_vec(), vec![0xC3, 0xA9], vec![0xF0, 0x9F, 0x98, 0x80], Vec::new()]
    );
}

fn present_pixmap(window: u32, update_area: u32, x_off: i16, y_off: i16) -> PresentPixmap {
    PresentPixmap {
        window,
        pixmap: 0x20,
        serial: 1,
        valid_area: 0,
        update_area,
        x_off,
        y_off,
        wait_fence: 0,
        idle_fence: 0,
        options: 0,
    }
}

#[test]
fn present_copies_whole_source_into_window_and_top_level() {
    let mut s = client();
    add_window(&mut s, 0x11, 1, 0, 0, true);
    add_window(&mut s, 0x12, 0x11, 5, 7, true);
    let plan = plan_present_copies(&mut s, &present_pixmap(0x12, 0, 2, 3), 4, 2);
    assert_eq!(plan.top_level, 0x11);
    assert_eq!(plan.copies.len(), 1);
    let c = plan.copies[0];
    assert_eq!((c.src_x, c.src_y, c.width, c.height, c.dst_x, c.dst_y, c.top_x, c.top_y), (0, 0, 4, 2, 2, 3, 7, 10));
    assert_eq!(s.damage_reports, vec![(0x12, 2, 3, 4, 2)]);
}

#[test]
fn present_copies_update_region_rectangles_cut_to_the_source() {
    let mut s = client();
    add_window(&mut s, 0x11, 1, 0, 0, true);
    let rect = |x: i16, y: i16, width: u16, height: u16| RegionRect { x, y, width, height };
    s.xfixes_regions.insert(0x50, XFixesRegion { rects: vec![rect(1, 0, 2, 1), rect(3, 1, 5, 5), rect(0, 0, 0, 3)] });
    let plan = plan_present_copies(&mut s, &present_pixmap(0x11, 0x50, 0, 0), 4, 2);
    assert_eq!(plan.top_level, 0x11);
    let got: Vec<_> = plan.copies.iter().map(|c| (c.src_x, c.src_y, c.width, c.height, c.dst_x, c.dst_y)).collect();
    assert_eq!(got, vec![(1, 0, 2, 1, 1, 0), (3, 1, 1, 1, 3, 1)]);
    assert_eq!(s.damage_reports, vec![(0x11, 1, 0, 3, 2)]);
    s.xfixes_regions.insert(0x51, XFixesRegion { rects: vec![rect(-2, 1, 10, 10)] });
    let plan = plan_present_copies(&mut s, &present_pixmap(0x11, 0x51, 1, 1), 4, 2);
    let c = plan.copies[0];
    assert_eq!((c.src_x, c.src_y, c.width, c.height, c.dst_x, c.dst_y), (0, 1, 4, 1, 1, 2));
}

#[test]
fn present_pixels_rows_and_mono_conversion() {
    let src: Vec<u8> = (0..24u8).collect();
    let mut c = plan_free_copy(1, 1, 2, 1);
    assert_eq!(copy_pixels(&src, 3, 2, &c), (16..24u8).collect::<Vec<u8>>());
    c.height = 2;
    let mut want: Vec<u8> = (16..24u8).collect();
    want.extend_from_slice(&[0u8; 8]);
    assert_eq!(copy_pixels(&src, 3, 2, &c), want);
    assert_eq!(convert_mono_pixels(&vec![0, 0, 1, 0, 0, 0, 0, 9, 5]), vec![255, 255, 255, 255, 0, 0, 0, 255, 5]);
}

fn plan_free_copy(src_x: i16, src_y: i16, width: u16, height: u16) -> PresentCopy {
    PresentCopy { src_x, src_y, width, height, dst_x: 0, dst_y: 0, top_x: 0, top_y: 0 }
}
