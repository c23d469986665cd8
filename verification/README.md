# sidecar

The request-handling core of an X11 display server that renders into a
browser-side framebuffer, written in Verus. Every handler takes the client's
request bytes and the per-connection state (`ClientState`), and its contract
states the reply bytes and the new state exactly, over spec functions on
`Seq<u8>` and the views of the state's maps and vectors.

## Layout

- `src/` — the verified library.
  - `wire.rs`: byte-order aware field reads, reply and error packets.
  - `state.rs`: the client state and the window and pixmap model.
  - `requests.rs`: the core-request dispatcher; each routed opcode gets
    exactly what its handler's contract states.
  - `grab.rs`, `input.rs`, `keyboard.rs`, `keymap.rs`, `mapping.rs`,
    `pointer.rs`, `hosts.rs`, `screen_saver.rs`, `properties.rs`,
    `pixmap.rs`, `fonts.rs`: core requests.
  - `drawing/`: GCs, drawing primitives, text, images and copies. Drawing
    requests queue operations (`draw_ops`) and damage reports for the
    framebuffer; `image.rs` holds the verified pixel painting of PutImage.
  - `cursor.rs`: what the front end is told when a window's cursor shows
    (its top-level window, CSS name and compressed picture) and the XFixes
    CursorNotify events.
  - `composite.rs`, `dbe.rs`, `dpms.rs`, `dri3.rs`, `present.rs`,
    `region.rs`, `video.rs`, `glx/`: extensions.
- `tests/` — tests run against the compiled library.
- `app/` — plain Rust around the library: the file-descriptor work of DRI3,
  YUV to ARGB conversion (floating point), the shared server-grab lock, and
  carrying out the pixel work the library plans (queued PutImage operations,
  PresentPixmap copies) on the framebuffers.

Outside crates: `x11rb-protocol` parses some fixed-layout requests and
`flate2` compresses cursor pictures, each behind a trusted wrapper whose
contract is stated over the bytes it is given; `libc` serves `app/`.

Laws that span several requests (an ungrab undoes a grab, a deallocation
undoes an allocation, relative PolyLine equals its absolute form, and so on)
are public proof functions next to the handlers they speak of.
