//! GLX Render and RenderLarge: batches of GL rendering commands.
//!
//! A batch is a run of commands, each with a 4-byte header (16-bit render
//! opcode, 16-bit total length including the header) followed by its
//! arguments. This module splits a batch into its commands; executing
//! them is the GL back end's work.

use crate::glx::context::GLX_ERROR_MAJOR;
use crate::state::{ClientState, BAD_LENGTH};
use crate::wire::{build_error_bo, error_packet, field16, field32, read_u16, read_u32};
use vstd::prelude::*;

verus! {

/// The commands of the batch held in `data[off..end]`: for each, its
/// render opcode and the range of its arguments. Splitting stops at a
/// command whose length is below 4 or runs past `end`.
pub open spec fn render_commands(data: Seq<u8>, off: int, end: int) -> Seq<(u16, usize, usize)>
    decreases end - off,
{
    if off + 4 > end || off < 0 {
        seq![]
    } else {
        let op = field16(data, off, false);
        let len = field16(data, off + 2, false) as int;
        if len < 4 || off + len > end {
            seq![]
        } else {
            seq![(op, (off + 4) as usize, (off + len) as usize)] + render_commands(data, off + len, end)
        }
    }
}

/// Split the batch in `data[start..end]` into its commands.
pub fn split_render_commands(data: &[u8], start: usize, end: usize) -> (r: Vec<(u16, usize, usize)>)
    requires
        start <= end <= data@.len(),
    ensures
        r@ == render_commands(data@, start as int, end as int),
{
    let mut cmds: Vec<(u16, usize, usize)> = Vec::new();
    let mut off = start;
    while off <= end && end - off >= 4
        invariant
            start <= off,
            end <= data@.len(),
            cmds@ + render_commands(data@, off as int, end as int) == render_commands(data@, start as int, end as int),
        decreases end - off,
    {
        let op = read_u16(data, off, false);
        let cmd_len = read_u16(data, off + 2, false) as usize;
        if cmd_len < 4 || cmd_len > end - off {
            assert(render_commands(data@, off as int, end as int) =~= seq![]);
            assert(cmds@ + seq![] =~= cmds@);
            return cmds;
        }
        let ghost old_cmds = cmds@;
        cmds.push((op, off + 4, off + cmd_len));
        assert(cmds@ + render_commands(data@, off + cmd_len, end as int) =~= old_cmds
            + render_commands(data@, off as int, end as int));
        off = off + cmd_len;
    }
    assert(render_commands(data@, off as int, end as int) =~= seq![]);
    assert(cmds@ + seq![] =~= cmds@);
    cmds
}

/// GLX Render: the commands of the batch that follows the context tag, or
/// a length error when the request is shorter than its fixed part.
pub fn handle_render(state: &mut ClientState, data: &[u8], seq: u16) -> (r: Result<Vec<(u16, usize, usize)>, Vec<u8>>)
    ensures
        *final(state) == *old(state),
        data@.len() < 8 ==> (r matches Err(e) && e@ == error_packet(BAD_LENGTH, seq, 0, GLX_ERROR_MAJOR, 1, old(state).msb_first)),
        data@.len() >= 8 ==> (r matches Ok(c) && c@ == render_commands(data@, 8, data@.len() as int)),
{
    if data.len() < 8 {
        return Err(build_error_bo(BAD_LENGTH, seq, 0, GLX_ERROR_MAJOR, 1, state.msb_first));
    }
    let _tag = read_u32(data, 4, false);
    Ok(split_render_commands(data, 8, data.len()))
}

/// Where the payload of a RenderLarge request ends: after its declared
/// length, or at the end of the request if that comes first.
pub open spec fn render_large_end(data: Seq<u8>) -> int {
    let declared = 16 + field32(data, 12, false) as int;
    if declared < data.len() { declared } else { data.len() as int }
}

/// GLX RenderLarge: the commands of the payload that follows the
/// 16-byte header, or a length error for a shorter request.
pub fn handle_render_large(state: &mut ClientState, data: &[u8], seq: u16) -> (r: Result<Vec<(u16, usize, usize)>, Vec<u8>>)
    ensures
        *final(state) == *old(state),
        data@.len() < 16 ==> (r matches Err(e) && e@ == error_packet(BAD_LENGTH, seq, 0, GLX_ERROR_MAJOR, 2, old(state).msb_first)),
        data@.len() >= 16 ==> (r matches Ok(c) && c@ == render_commands(data@, 16, render_large_end(data@))),
{
    if data.len() < 16 {
        return Err(build_error_bo(BAD_LENGTH, seq, 0, GLX_ERROR_MAJOR, 2, state.msb_first));
    }
    let payload_len = read_u32(data, 12, false) as usize;
    let payload_end = if payload_len < data.len() - 16 { 16 + payload_len } else { data.len() };
    Ok(split_render_commands(data, 16, payload_end))
}

/// The table of GL render commands an opcode belongs to.
#[derive(Clone, Copy, PartialEq, Eq, Structural)]
pub enum RenderFamily {
    /// Drawing: glBegin and glEnd, vertices, colors, normals, texture
    /// coordinates, display lists, arrays.
    Draw,
    /// GL state: capabilities, blending, depth, stencil, lighting, fog,
    /// pixel transfer.
    State,
    /// Textures: parameters, environment, coordinate generation, images.
    Texture,
    /// Matrices and the viewport.
    Matrix,
}

/// The opcodes of the drawing (glBegin, glVertex, glColor, lists, arrays) table.
pub open spec fn in_draw_table(op: u16) -> bool {
    ||| 1 <= op <= 67
    ||| 70 <= op <= 76
    ||| 151 <= op <= 158
    ||| 165 <= op <= 173
    ||| 193 <= op <= 196
    ||| 202 <= op <= 208
    ||| op == 230
    ||| op == 4107
    ||| 4116 <= op <= 4117
    ||| 4124 <= op <= 4128
}

/// Whether an opcode is in the drawing (glBegin, glVertex, glColor, lists, arrays) table.
fn draw_table_has(op: u16) -> (r: bool)
    ensures
        r == in_draw_table(op),
{
    match op {
        1..=67 | 70..=76 | 151..=158 | 165..=173 | 193..=196 | 202..=208 | 230 | 4107 | 4116..=4117 | 4124..=4128 => true,
        _ => false,
    }
}

/// The opcodes of the state (glEnable, blending, depth, stencil, lighting, fog) table.
pub open spec fn in_state_table(op: u16) -> bool {
    ||| 68 <= op <= 69
    ||| 77 <= op <= 104
    ||| op == 108
    ||| 110 <= op <= 114
    ||| 125 <= op <= 150
    ||| 159 <= op <= 164
    ||| op == 174
    ||| op == 192
    ||| 209 <= op <= 215
    ||| 222 <= op <= 229
    ||| 231 <= op <= 240
    ||| 4096 <= op <= 4097
    ||| 4120 <= op <= 4121
    ||| 4129 <= op <= 4131
    ||| op == 4134
    ||| op == 4222
}

/// Whether an opcode is in the state (glEnable, blending, depth, stencil, lighting, fog) table.
fn state_table_has(op: u16) -> (r: bool)
    ensures
        r == in_state_table(op),
{
    match op {
        68..=69 | 77..=104 | 108 | 110..=114 | 125..=150 | 159..=164 | 174 | 192 | 209..=215 | 222..=229 | 231..=240 | 4096..=4097 | 4120..=4121 | 4129..=4131 | 4134 | 4222 => true,
        _ => false,
    }
}

/// The opcodes of the textures (parameters, environment, images) table.
pub open spec fn in_texture_table(op: u16) -> bool {
    ||| 105 <= op <= 107
    ||| op == 109
    ||| 115 <= op <= 124
    ||| 197 <= op <= 201
    ||| 216 <= op <= 221
    ||| 4098 <= op <= 4106
    ||| 4108 <= op <= 4119
}

/// Whether an opcode is in the textures (parameters, environment, images) table.
fn texture_table_has(op: u16) -> (r: bool)
    ensures
        r == in_texture_table(op),
{
    match op {
        105..=107 | 109 | 115..=124 | 197..=201 | 216..=221 | 4098..=4106 | 4108..=4119 => true,
        _ => false,
    }
}

/// The opcodes of the matrices and the viewport table.
pub open spec fn in_matrix_table(op: u16) -> bool {
    ||| 175 <= op <= 191
}

/// Whether an opcode is in the matrices and the viewport table.
fn matrix_table_has(op: u16) -> (r: bool)
    ensures
        r == in_matrix_table(op),
{
    match op {
        175..=191 => true,
        _ => false,
    }
}

/// The table that handles a render opcode: the first of drawing, state,
/// textures and matrices that has it (two texture opcodes, 4116 and 4117,
/// are taken by the drawing table first); none for an opcode no table
/// knows, which is skipped.
pub open spec fn render_family(op: u16) -> Option<RenderFamily> {
    if in_draw_table(op) {
        Some(RenderFamily::Draw)
    } else if in_state_table(op) {
        Some(RenderFamily::State)
    } else if in_texture_table(op) {
        Some(RenderFamily::Texture)
    } else if in_matrix_table(op) {
        Some(RenderFamily::Matrix)
    } else {
        None
    }
}

/// Pick the table that carries out a render command.
pub fn dispatch_render_opcode(opcode: u16) -> (r: Option<RenderFamily>)
    ensures
        r == render_family(opcode),
{
    if draw_table_has(opcode) {
        Some(RenderFamily::Draw)
    } else if state_table_has(opcode) {
        Some(RenderFamily::State)
    } else if texture_table_has(opcode) {
        Some(RenderFamily::Texture)
    } else if matrix_table_has(opcode) {
        Some(RenderFamily::Matrix)
    } else {
        None
    }
}

} // verus!
