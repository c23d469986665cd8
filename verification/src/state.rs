//! The per-connection server state that request handlers read and update.

use crate::grab::{GrabState, ServerGrabChange};
use crate::glx::context::GlxState;
use crate::drawing::gc::GcState;
use crate::drawing::primitives::DrawOp;
use crate::input::InputState;
use crate::composite::DamageInfo;
use crate::cursor::CursorImage;
use crate::dri3::Fence;
use crate::region::XFixesRegion;
use std::collections::HashMap;
use vstd::prelude::*;

verus! {

/// X11 error codes used by the handlers.
pub const BAD_REQUEST: u8 = 1;
pub const BAD_VALUE: u8 = 2;
pub const BAD_WINDOW: u8 = 3;
pub const BAD_PIXMAP: u8 = 4;
pub const BAD_CURSOR: u8 = 6;
pub const BAD_MATCH: u8 = 8;
pub const BAD_DRAWABLE: u8 = 9;
pub const BAD_ACCESS: u8 = 10;
pub const BAD_ALLOC: u8 = 11;
pub const BAD_GC: u8 = 13;
pub const BAD_ID_CHOICE: u8 = 14;
pub const BAD_LENGTH: u8 = 16;
pub const BAD_IMPLEMENTATION: u8 = 17;

/// Crossing modes of EnterNotify / LeaveNotify.
pub const CROSSING_MODE_GRAB: u8 = 1;
pub const CROSSING_MODE_UNGRAB: u8 = 2;

/// The geometry, class, mapping state and background of a window.
#[derive(Clone, Copy)]
pub struct WindowState {
    pub id: u32,
    pub parent: u32,
    pub x: i16,
    pub y: i16,
    pub width: u16,
    pub height: u16,
    pub depth: u8,
    /// InputOutput (1) or InputOnly (2).
    pub class: u16,
    pub mapped: bool,
    /// The events the owning client selected on the window.
    pub event_mask: u32,
    pub background_pixel: u32,
    /// The window manager is not to redirect the window's configuration.
    pub override_redirect: bool,
    /// Composite redirects the window's contents off screen.
    pub redirected: bool,
    /// The cursor resource shown over the window, if one was set.
    pub cursor: Option<u32>,
}

/// The size of a pixmap.
#[derive(Clone, Copy)]
pub struct PixmapState {
    pub width: u16,
    pub height: u16,
    pub depth: u8,
    /// The window whose contents this pixmap names (Composite
    /// NameWindowPixmap), if any.
    pub alias_window: Option<u32>,
}

/// A pointer crossing between windows that the event layer turns into
/// LeaveNotify / EnterNotify events: from `from` to `to`, at root position
/// (`x`, `y`), with the given crossing mode.
#[derive(Clone, Copy)]
pub struct Crossing {
    pub from: u32,
    pub to: u32,
    pub x: i16,
    pub y: i16,
    pub mode: u8,
}

/// The state of one client connection.
pub struct ClientState {
    /// The client sends and expects multi-byte values big-endian.
    pub msb_first: bool,
    /// Sequence number of the request being handled.
    pub sequence: u16,
    /// Current server time in milliseconds.
    pub now: u32,
    pub root_window: u32,
    pub screen_width: u16,
    pub screen_height: u16,
    /// Pointer position in root coordinates.
    pub pointer_x: i16,
    pub pointer_y: i16,
    /// The window the pointer was last reported to have entered.
    pub last_entered_window: u32,
    pub windows: HashMap<u32, WindowState>,
    pub pixmaps: HashMap<u32, PixmapState>,
    /// Cursor resources: id to CSS cursor name.
    pub cursors: HashMap<u32, String>,
    pub gcs: HashMap<u32, GcState>,
    pub grabs: GrabState,
    pub glx: GlxState,
    pub input: InputState,
    /// Events queued for delivery to this client.
    pub pending_events: Vec<Vec<u8>>,
    /// Pointer crossings queued for the event layer.
    pub crossings: Vec<Crossing>,
    /// Resource ids released for reuse.
    pub recycled_xids: Vec<u32>,
    /// First resource id of this client's id range.
    pub resource_id_base: u32,
    /// Next resource id XC-MISC hands out.
    pub next_xid: u32,
    /// Present event selections: (event id, window, event mask), one per
    /// event id, in the order they were made.
    pub present_subscriptions: Vec<(u32, u32, u32)>,
    /// Present media stream counter: one per presentation.
    pub present_msc: u64,
    /// DAMAGE objects by id.
    pub damage_regions: HashMap<u32, DamageInfo>,
    /// XFixes regions by id.
    pub xfixes_regions: HashMap<u32, XFixesRegion>,
    /// Damage reported on drawables, (drawable, x, y, width, height), for
    /// the event layer to turn into DamageNotify events.
    pub damage_reports: Vec<(u32, i16, i16, u16, u16)>,
    /// The id of the Composite overlay window.
    pub overlay_window: u32,
    /// Clients holding the overlay window (GetOverlayWindow less
    /// ReleaseOverlayWindow).
    pub overlay_ref_count: u32,
    /// Drawing operations decided by the library, for the framebuffer to
    /// carry out in order.
    pub draw_ops: Vec<DrawOp>,
    /// Events for the other clients: (window, event mask, event), delivered
    /// to each client that selected a mask bit on the window.
    pub broadcasts: Vec<(u32, u32, Vec<u8>)>,
    /// Events for every other client, whatever it selected (MappingNotify).
    pub global_events: Vec<Vec<u8>>,
    /// File descriptors that came with the client's requests, oldest first.
    pub pending_fds: Vec<i32>,
    /// File descriptors to send with the next reply.
    pub reply_fds: Vec<i32>,
    /// SYNC fences by id.
    pub fences: HashMap<u32, Fence>,
    /// The DRM device (major, minor) the client said it uses (DRI3).
    pub dri3_drm_device: Option<(u32, u32)>,
    /// The stacking order of each window's children, bottom first.
    pub children_order: HashMap<u32, Vec<u32>>,
    /// The font path (SetFontPath / GetFontPath), as UTF-8 bytes.
    pub font_path: Vec<Vec<u8>>,
    /// DBE back buffers: back-buffer id to the window it belongs to.
    pub back_buffers: HashMap<u32, u32>,
    /// How many DBE idioms (BeginIdiom without EndIdiom) are open.
    pub dbe_idiom_depth: u32,
    /// DPMS: the standby, suspend and off timeouts (seconds), whether DPMS
    /// is enabled, and the power level (On 0, Standby 1, Suspend 2, Off 3).
    pub dpms_standby_timeout: u16,
    pub dpms_suspend_timeout: u16,
    pub dpms_off_timeout: u16,
    pub dpms_enabled: bool,
    pub dpms_power_level: u16,
    /// The pointer buttons held down, as key-button mask bits 8 to 12.
    pub pointer_button_mask: u16,
    /// A motion event was held back for PointerMotionHint until the
    /// client queries the pointer.
    pub motion_hint_suppressed: bool,
    /// Recent pointer positions (time, x, y), oldest first.
    pub motion_history: Vec<(u32, i16, i16)>,
    /// Changes to the server-grab lock that all connections share, for the
    /// connection to carry out in order (GrabServer takes it for this
    /// client; the UngrabServer that ends the outermost grab frees it).
    pub server_grab_changes: Vec<ServerGrabChange>,
    /// The pictures of cursor resources that have one, by cursor id.
    pub cursor_images: HashMap<u32, CursorImage>,
    /// The cursor last shown (0: none), for XFixes GetCursorImage.
    pub current_cursor: u32,
    /// The windows that asked for XFixes CursorNotify events, in the order
    /// they asked.
    pub cursor_event_subscribers: Vec<u32>,
}

/// The bits of a resource id that a client chooses within its range.
pub const RESOURCE_ID_MASK: u32 = 0x003F_FFFF;

/// An id lies in the client's resource-id range.
pub open spec fn in_id_range(s: ClientState, id: u32) -> bool {
    id & !RESOURCE_ID_MASK == s.resource_id_base
}

impl ClientState {
    /// Whether an id lies in this client's resource-id range.
    pub fn validate_resource_id(&self, id: u32) -> (r: bool)
        ensures
            r == in_id_range(*self, id),
    {
        id & !RESOURCE_ID_MASK == self.resource_id_base
    }

    /// The current server time.
    pub fn timestamp(&self) -> (r: u32)
        ensures
            r == self.now,
    {
        self.now
    }

    /// Release a resource id for reuse.
    pub fn recycle_xid(&mut self, id: u32)
        ensures
            final(self).recycled_xids@ == old(self).recycled_xids@.push(id),
            *final(self) == (ClientState { recycled_xids: final(self).recycled_xids, ..*old(self) }),
    {
        self.recycled_xids.push(id);
    }
}

} // verus!
