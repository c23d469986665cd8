//! Cursor changes: the cursor a window shows, what the front end is sent
//! for it (its CSS name, and its picture compressed with raw DEFLATE), and
//! the XFixes CursorNotify events for the windows that asked for them.

use crate::drawing::copy::events_view;
use crate::state::ClientState;
use crate::wire::{bytes16, bytes32, push_u16, push_u32, push_zeros, zeros};
use std::io::Write;
use vstd::prelude::*;

verus! {

broadcast use vstd::std_specs::hash::group_hash_axioms;

/// One frame of an animated cursor: 0xAARRGGBB pixels, size, hotspot and
/// how long the frame shows.
pub struct CursorFrame {
    pub argb: Vec<u8>,
    pub width: u16,
    pub height: u16,
    pub hotspot_x: u16,
    pub hotspot_y: u16,
    pub delay_ms: u32,
}

/// The picture of a cursor resource: 0xAARRGGBB pixels, size and hotspot;
/// an animated cursor also has its frames.
pub struct CursorImage {
    pub argb: Vec<u8>,
    pub width: u16,
    pub height: u16,
    pub hotspot_x: u16,
    pub hotspot_y: u16,
    pub frames: Vec<CursorFrame>,
}

/// An animated-cursor frame as the front end gets it: the pixels
/// compressed.
pub struct SentFrame {
    pub pixels: Vec<u8>,
    pub width: u16,
    pub height: u16,
    pub hotspot_x: u16,
    pub hotspot_y: u16,
    pub delay_ms: u32,
}

/// The picture sent with a cursor change.
pub enum CursorPicture {
    /// None: the CSS name alone.
    Named,
    /// A still picture, its pixels compressed.
    Bitmap { width: u16, height: u16, hotspot_x: u16, hotspot_y: u16, data: Vec<u8> },
    /// The frames of an animated cursor, for the front end to cycle.
    Animated { frames: Vec<SentFrame> },
}

/// What the front end is told when a window's cursor is to be shown: the
/// top-level window it concerns, the CSS cursor name, and the picture.
pub struct CursorUpdate {
    pub window: u32,
    pub css: String,
    pub picture: CursorPicture,
}

/// The event code of XFixes CursorNotify (event base 87, CursorNotify 1).
pub const XFIXES_CURSOR_NOTIFY: u8 = 88;

/// How many parents the search for a top-level window climbs at most.
pub const TOP_LEVEL_STEPS: u32 = 10;

/// The raw DEFLATE stream flate2 makes of `data` at its fast level.
pub uninterp spec fn deflated(data: Seq<u8>) -> Seq<u8>;

/// flate2's `write::DeflateEncoder` at `Compression::fast()`, writing into
/// a vector: `data` compressed as a raw DEFLATE stream (`data` itself
/// should the encoder report an error). The result is named, not stated:
/// it depends on `data` alone.
#[verifier::external_body]
fn deflate_fast(data: &Vec<u8>) -> (r: Vec<u8>)
    ensures
        r@ == deflated(data@),
{
    let mut encoder = flate2::write::DeflateEncoder::new(Vec::new(), flate2::Compression::fast());
    let _ = encoder.write_all(data.as_slice());
    match encoder.finish() {
        Ok(bytes) => bytes,
        Err(_) => data.clone(),
    }
}

/// The cursor resource window `wid` shows, if any.
pub open spec fn window_cursor(s: ClientState, wid: u32) -> Option<u32> {
    if s.windows@.contains_key(wid) {
        s.windows@[wid].cursor
    } else {
        None
    }
}

/// The CSS cursor name of `cursor`: the name the cursor resource was
/// given, else "default".
pub open spec fn cursor_css(s: ClientState, cursor: Option<u32>) -> Seq<char> {
    match cursor {
        Some(c) => if s.cursors@.contains_key(c) {
            s.cursors@[c]@
        } else {
            "default"@
        },
        None => "default"@,
    }
}

/// The window reached from `w` by climbing at most `steps` parents while
/// the window is known and its parent is neither the root nor 0.
pub open spec fn top_level(s: ClientState, w: u32, steps: nat) -> u32
    decreases steps,
{
    if steps == 0 {
        w
    } else if s.windows@.contains_key(w) && s.windows@[w].parent != s.root_window && s.windows@[w].parent != 0 {
        top_level(s, s.windows@[w].parent, (steps - 1) as nat)
    } else {
        w
    }
}

/// `sent` is frame `f` as the front end gets it.
pub open spec fn frame_sent(f: CursorFrame, sent: SentFrame) -> bool {
    &&& sent.pixels@ == deflated(f.argb@)
    &&& sent.width == f.width
    &&& sent.height == f.height
    &&& sent.hotspot_x == f.hotspot_x
    &&& sent.hotspot_y == f.hotspot_y
    &&& sent.delay_ms == f.delay_ms
}

/// `p` is the picture sent for `cursor`: the frames of a cursor with at
/// least two of them; else the still picture of a cursor with pixels and a
/// non-empty size; else none.
pub open spec fn picture_sent(s: ClientState, cursor: Option<u32>, p: CursorPicture) -> bool {
    match cursor {
        Some(c) => if s.cursor_images@.contains_key(c) {
            let img = s.cursor_images@[c];
            if img.frames@.len() >= 2 {
                &&& p matches CursorPicture::Animated { frames }
                &&& frames@.len() == img.frames@.len()
                &&& forall|i: int| 0 <= i < frames@.len() ==> frame_sent(#[trigger] img.frames@[i], frames@[i])
            } else if img.argb@.len() > 0 && img.width > 0 && img.height > 0 {
                &&& p matches CursorPicture::Bitmap { width, height, hotspot_x, hotspot_y, data }
                &&& width == img.width && height == img.height
                &&& hotspot_x == img.hotspot_x && hotspot_y == img.hotspot_y
                &&& data@ == deflated(img.argb@)
            } else {
                p is Named
            }
        } else {
            p is Named
        },
        None => p is Named,
    }
}

/// The 32-byte XFixes CursorNotify (DisplayCursor) event for `window`,
/// with the cursor id as its serial and no cursor name.
pub open spec fn cursor_notify(s: ClientState, window: u32, serial: u32) -> Seq<u8> {
    let msb = s.msb_first;
    seq![XFIXES_CURSOR_NOTIFY, 0u8] + bytes16(s.sequence, msb) + bytes32(window, msb) + bytes32(serial, msb)
        + bytes32(s.now, msb) + bytes32(0, msb) + zeros(12)
}

/// The CursorNotify events for `windows`, in order.
pub open spec fn notifies_for(s: ClientState, windows: Seq<u32>, serial: u32) -> Seq<Seq<u8>> {
    windows.map_values(|w: u32| cursor_notify(s, w, serial))
}

/// The CursorNotify events a change to cursor `serial` sends: one for each
/// window that asked, in the order they asked; none when the cursor shown
/// does not change.
pub open spec fn cursor_notifies(s: ClientState, serial: u32) -> Seq<Seq<u8>> {
    if serial != s.current_cursor {
        notifies_for(s, s.cursor_event_subscribers@, serial)
    } else {
        Seq::empty()
    }
}

fn build_cursor_notify(state: &ClientState, window: u32, serial: u32) -> (r: Vec<u8>)
    ensures
        r@ == cursor_notify(*state, window, serial),
{
    let msb = state.msb_first;
    let mut out: Vec<u8> = Vec::new();
    out.push(XFIXES_CURSOR_NOTIFY);
    out.push(0u8);
    push_u16(&mut out, state.sequence, msb);
    push_u32(&mut out, window, msb);
    push_u32(&mut out, serial, msb);
    push_u32(&mut out, state.now, msb);
    push_u32(&mut out, 0, msb);
    push_zeros(&mut out, 12);
    assert(out@ =~= cursor_notify(*state, window, serial));
    out
}

/// The picture sent for `cursor`.
fn cursor_picture(state: &ClientState, cursor: Option<u32>) -> (r: CursorPicture)
    ensures
        picture_sent(*state, cursor, r),
{
    let c = match cursor {
        Some(c) => c,
        None => {
            return CursorPicture::Named;
        },
    };
    let img = match state.cursor_images.get(&c) {
        Some(img) => img,
        None => {
            return CursorPicture::Named;
        },
    };
    if img.frames.len() >= 2 {
        let mut frames: Vec<SentFrame> = Vec::new();
        let mut i: usize = 0;
        while i < img.frames.len()
            invariant
                i <= img.frames@.len(),
                frames@.len() == i,
                forall|k: int| 0 <= k < i ==> frame_sent(#[trigger] img.frames@[k], frames@[k]),
            decreases img.frames@.len() - i,
        {
            let f = &img.frames[i];
            let pixels = deflate_fast(&f.argb);
            frames.push(
                SentFrame {
                    pixels,
                    width: f.width,
                    height: f.height,
                    hotspot_x: f.hotspot_x,
                    hotspot_y: f.hotspot_y,
                    delay_ms: f.delay_ms,
                },
            );
            i = i + 1;
        }
        CursorPicture::Animated { frames }
    } else if img.argb.len() > 0 && img.width > 0 && img.height > 0 {
        let data = deflate_fast(&img.argb);
        CursorPicture::Bitmap { width: img.width, height: img.height, hotspot_x: img.hotspot_x, hotspot_y: img.hotspot_y, data }
    } else {
        CursorPicture::Named
    }
}

/// Show window `wid`'s cursor: the update for the front end names the
/// window's top-level ancestor (at most ten parents up, stopping below the
/// root), the cursor's CSS name ("default" without one) and its picture;
/// the cursor becomes the current one (0 for none), and a change of the
/// current cursor queues a CursorNotify for each window that asked.
pub fn cursor_update(state: &mut ClientState, wid: u32) -> (r: CursorUpdate)
    ensures
        ({
            let s = *old(state);
            let cursor = window_cursor(s, wid);
            let serial = match cursor {
                Some(c) => c,
                None => 0u32,
            };
            &&& r.window == top_level(s, wid, TOP_LEVEL_STEPS as nat)
            &&& r.css@ == cursor_css(s, cursor)
            &&& picture_sent(s, cursor, r.picture)
            &&& final(state).current_cursor == serial
            &&& events_view(final(state).pending_events@) == events_view(s.pending_events@)
                + cursor_notifies(s, serial)
            &&& *final(state) == (ClientState {
                current_cursor: final(state).current_cursor,
                pending_events: final(state).pending_events,
                ..s
            })
        }),
{
    let ghost s = *state;
    let cursor = match state.windows.get(&wid) {
        Some(w) => w.cursor,
        None => None,
    };
    let css = match cursor {
        Some(c) => match state.cursors.get(&c) {
            Some(name) => name.clone(),
            None => "default".to_owned(),
        },
        None => "default".to_owned(),
    };
    let mut target = wid;
    let mut i: u32 = 0;
    let mut done = false;
    while i < TOP_LEVEL_STEPS && !done
        invariant
            i <= TOP_LEVEL_STEPS,
            top_level(s, target, (TOP_LEVEL_STEPS - i) as nat) == top_level(s, wid, TOP_LEVEL_STEPS as nat),
            done ==> top_level(s, target, (TOP_LEVEL_STEPS - i) as nat) == target,
            *state == s,
        decreases TOP_LEVEL_STEPS - i + (if done { 0int } else { 1int }),
    {
        match state.windows.get(&target) {
            Some(w) => {
                if w.parent != state.root_window && w.parent != 0 {
                    target = w.parent;
                    i = i + 1;
                } else {
                    done = true;
                }
            },
            None => {
                done = true;
            },
        }
    }
    let picture = cursor_picture(state, cursor);
    let serial = match cursor {
        Some(c) => c,
        None => 0u32,
    };
    if serial != state.current_cursor {
        let mut k: usize = 0;
        while k < state.cursor_event_subscribers.len()
            invariant
                k <= s.cursor_event_subscribers@.len(),
                state.cursor_event_subscribers@ == s.cursor_event_subscribers@,
                state.pending_events@.len() == s.pending_events@.len() + k,
                events_view(state.pending_events@) == events_view(s.pending_events@)
                    + notifies_for(s, s.cursor_event_subscribers@.subrange(0, k as int), serial),
                *state == (ClientState { pending_events: state.pending_events, ..s }),
            decreases s.cursor_event_subscribers@.len() - k,
        {
            let w = state.cursor_event_subscribers[k];
            let event = build_cursor_notify(state, w, serial);
            let ghost before = state.pending_events@;
            state.pending_events.push(event);
            proof {
                assert(cursor_notify(s, w, serial) == event@);
                assert(events_view(state.pending_events@) =~= events_view(before).push(event@));
                assert(s.cursor_event_subscribers@.subrange(0, k + 1) =~= s.cursor_event_subscribers@.subrange(0, k as int).push(w));
                assert(notifies_for(s, s.cursor_event_subscribers@.subrange(0, k + 1), serial) =~= notifies_for(
                    s,
                    s.cursor_event_subscribers@.subrange(0, k as int),
                    serial,
                ).push(cursor_notify(s, w, serial)));
            }
            k = k + 1;
        }
        proof {
            assert(s.cursor_event_subscribers@.subrange(0, s.cursor_event_subscribers@.len() as int) =~= s.cursor_event_subscribers@);
        }
    } else {
        proof {
            assert(events_view(state.pending_events@) =~= events_view(s.pending_events@)
                + Seq::<Seq<u8>>::empty());
        }
    }
    state.current_cursor = serial;
    CursorUpdate { window: target, css, picture }
}

} // verus!
