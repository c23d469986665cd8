//! GLX single GL queries (glGet*, glIs*, glGenTextures, glGenLists, ...).
//!
//! This server answers GL state queries without a GL back end: every query
//! reports zero-valued state of the size that the query's parameter calls
//! for, and every glIs* query answers false. (The bit pattern of a zero
//! float is all zero bytes, so float queries carry zero bytes too.)

use crate::glx::reply::{elements_model, le32s, le32s_signed, GlxReply, GlxReplyModel};
use crate::wire::{field32, read_u32, zeros};
use vstd::prelude::*;

verus! {

/// Number of values a glGetIntegerv / glGetFloatv / glGetDoublev /
/// glGetBooleanv query returns for `pname`.
pub open spec fn integer_count(pname: u32) -> nat {
    if 0x0BA6 <= pname <= 0x0BA8 {
        16
    } else if pname == 0x0B23 || pname == 0x0C23 || pname == 0x0B24 || pname == 0x0B25
        || pname == 0x0C22 || pname == 0x0B21 || pname == 0x0BA2 {
        4
    } else if pname == 0x0B70 || pname == 0x0C30 || pname == 0x0B13 {
        2
    } else {
        1
    }
}

/// Number of values for a glGetLight query.
pub open spec fn light_param_count(pname: u32) -> nat {
    if 0x1200 <= pname <= 0x1203 { 4 } else if pname == 0x1204 { 3 } else { 1 }
}

/// Number of values for a glGetMaterial query.
pub open spec fn material_param_count(pname: u32) -> nat {
    if pname == 0x1200 || pname == 0x1201 || pname == 0x1202 || pname == 0x1600 {
        4
    } else if pname == 0x1602 {
        3
    } else {
        1
    }
}

/// Number of values for a glGetTexEnv query.
pub open spec fn texenv_param_count(pname: u32) -> nat {
    if pname == 0x2201 { 4 } else { 1 }
}

/// Number of values for a glGetTexGen query.
pub open spec fn texgen_param_count(pname: u32) -> nat {
    if pname == 0x2501 || pname == 0x2502 { 4 } else { 1 }
}

/// The GL_PIXEL_MAP_*_SIZE enum of a GL_PIXEL_MAP_* enum (0 if unknown).
pub open spec fn pixel_map_size_pname(map: u32) -> u32 {
    if 0x0C70 <= map <= 0x0C79 { (map + 0x40) as u32 } else { 0 }
}

/// Number of components of a GL pixel format.
pub open spec fn format_components(format: u32) -> nat {
    if 0x1900 <= format <= 0x1906 || format == 0x1909 {
        1
    } else if format == 0x1907 || format == 0x80E0 {
        3
    } else if format == 0x190A {
        2
    } else {
        4
    }
}

/// Byte size of a GL data type.
pub open spec fn type_size(ty: u32) -> nat {
    if ty == 0x1402 || ty == 0x1403 {
        2
    } else if ty == 0x1404 || ty == 0x1405 || ty == 0x1406 {
        4
    } else {
        1
    }
}

/// Number of values for a glGetIntegerv query.
pub fn gl_integer_count(pname: u32) -> (r: usize)
    ensures
        r == integer_count(pname),
{
    if 0x0BA6 <= pname && pname <= 0x0BA8 {
        16
    } else if pname == 0x0B23 || pname == 0x0C23 || pname == 0x0B24 || pname == 0x0B25
        || pname == 0x0C22 || pname == 0x0B21 || pname == 0x0BA2 {
        4
    } else if pname == 0x0B70 || pname == 0x0C30 || pname == 0x0B13 {
        2
    } else {
        1
    }
}

/// Number of values for a float or double state query (same as integers).
pub fn gl_float_count(pname: u32) -> (r: usize)
    ensures
        r == integer_count(pname),
{
    gl_integer_count(pname)
}

/// Number of values for a glGetLight query.
pub fn gl_light_param_count(pname: u32) -> (r: usize)
    ensures
        r == light_param_count(pname),
{
    if 0x1200 <= pname && pname <= 0x1203 {
        4
    } else if pname == 0x1204 {
        3
    } else {
        1
    }
}

/// Number of values for a glGetMaterial query.
pub fn gl_material_param_count(pname: u32) -> (r: usize)
    ensures
        r == material_param_count(pname),
{
    match pname {
        0x1200 | 0x1201 | 0x1202 | 0x1600 => 4,
        0x1602 => 3,
        0x1601 => 1,
        _ => 1,
    }
}

/// Number of values for a glGetTexEnv query.
pub fn gl_texenv_param_count(pname: u32) -> (r: usize)
    ensures
        r == texenv_param_count(pname),
{
    match pname {
        0x2201 => 4,
        _ => 1,
    }
}

/// Number of values for a glGetTexGen query.
pub fn gl_texgen_param_count(pname: u32) -> (r: usize)
    ensures
        r == texgen_param_count(pname),
{
    match pname {
        0x2501 | 0x2502 => 4,
        _ => 1,
    }
}

/// Map a GL_PIXEL_MAP_* enum to its GL_PIXEL_MAP_*_SIZE enum.
pub fn gl_pixel_map_size_pname(map: u32) -> (r: u32)
    ensures
        r == pixel_map_size_pname(map),
{
    match map {
        0x0C70 => 0x0CB0,
        0x0C71 => 0x0CB1,
        0x0C72 => 0x0CB2,
        0x0C73 => 0x0CB3,
        0x0C74 => 0x0CB4,
        0x0C75 => 0x0CB5,
        0x0C76 => 0x0CB6,
        0x0C77 => 0x0CB7,
        0x0C78 => 0x0CB8,
        0x0C79 => 0x0CB9,
        _ => 0,
    }
}

/// Number of components of a GL pixel format.
pub fn gl_format_components(format: u32) -> (r: usize)
    ensures
        r == format_components(format),
{
    match format {
        0x1900 => 1,
        0x1901 => 1,
        0x1902 => 1,
        0x1903 => 1,
        0x1904 => 1,
        0x1905 => 1,
        0x1906 => 1,
        0x1907 => 3,
        0x1908 => 4,
        0x190A => 2,
        0x1909 => 1,
        0x80E0 => 3,
        0x80E1 => 4,
        _ => 4,
    }
}

/// Byte size of a GL data type.
pub fn gl_type_size(ty: u32) -> (r: usize)
    ensures
        r == type_size(ty),
{
    match ty {
        0x1400 => 1,
        0x1401 => 1,
        0x1402 => 2,
        0x1403 => 2,
        0x1404 => 4,
        0x1405 => 4,
        0x1406 => 4,
        _ => 1,
    }
}

/// The reply to a query that returns `n` zero-valued 32-bit elements.
pub open spec fn zero_elements(n: nat) -> GlxReplyModel {
    elements_model(n, zeros(4 * n))
}

/// The reply to a query that returns `n` zero-valued 64-bit elements
/// (never carried in `retval`).
pub open spec fn zero_doubles(n: nat) -> GlxReplyModel {
    GlxReplyModel::Values(n as u32, zeros(8 * n))
}

/// The reply to a query that returns `n` false booleans (one byte each).
pub open spec fn zero_booleans(n: nat) -> GlxReplyModel {
    if n == 1 {
        GlxReplyModel::SingleValue(zeros(4))
    } else {
        GlxReplyModel::Values(n as u32, zeros(n))
    }
}

/// The empty reply, sent when a query's payload is too short.
pub open spec fn empty_reply(seq: u16) -> Seq<u8> {
    GlxReplyModel::Empty.wire(seq)
}

/// The 32-bit parameter at position `i` of a query's payload.
pub open spec fn param(payload: Seq<u8>, i: int) -> u32 {
    field32(payload, 4 * i, false)
}

proof fn lemma_zero_le32s_signed(s: Seq<i32>)
    requires
        forall|i: int| 0 <= i < s.len() ==> s[i] == 0,
    ensures
        le32s_signed(s) == zeros(4 * s.len()),
    decreases s.len(),
{
    if s.len() > 0 {
        lemma_zero_le32s_signed(s.drop_last());
        assert(le32s_signed(s) =~= zeros(4 * s.len()));
    } else {
        assert(le32s_signed(s) =~= zeros(0));
    }
}

proof fn lemma_zero_le32s(s: Seq<u32>)
    requires
        forall|i: int| 0 <= i < s.len() ==> s[i] == 0,
    ensures
        le32s(s) == zeros(4 * s.len()),
    decreases s.len(),
{
    if s.len() > 0 {
        lemma_zero_le32s(s.drop_last());
        assert(le32s(s) =~= zeros(4 * s.len()));
    } else {
        assert(le32s(s) =~= zeros(0));
    }
}

/// Encode a reply of `n` zero-valued signed 32-bit elements.
fn zero_i32_reply(n: usize, seq: u16) -> (r: Vec<u8>)
    requires
        4 * n + 3 <= usize::MAX,
    ensures
        r@ == zero_elements(n as nat).wire(seq),
{
    let mut params: Vec<i32> = Vec::new();
    let mut i: usize = 0;
    while i < n
        invariant
            i <= n,
            params@.len() == i,
            forall|j: int| 0 <= j < i ==> params@[j] == 0,
        decreases n - i,
    {
        params.push(0i32);
        i = i + 1;
    }
    proof {
        lemma_zero_le32s_signed(params@);
    }
    GlxReply::from_i32s(params.as_slice()).encode(seq)
}

/// Encode a reply of `n` zero-valued unsigned 32-bit elements.
fn zero_u32_reply(n: usize, seq: u16) -> (r: Vec<u8>)
    requires
        4 * n + 3 <= usize::MAX,
    ensures
        r@ == zero_elements(n as nat).wire(seq),
{
    let mut params: Vec<u32> = Vec::new();
    let mut i: usize = 0;
    while i < n
        invariant
            i <= n,
            params@.len() == i,
            forall|j: int| 0 <= j < i ==> params@[j] == 0,
        decreases n - i,
    {
        params.push(0u32);
        i = i + 1;
    }
    proof {
        lemma_zero_le32s(params@);
    }
    GlxReply::from_u32s(params.as_slice()).encode(seq)
}

/// A vector of `n` zero bytes.
fn zero_bytes(n: usize) -> (r: Vec<u8>)
    ensures
        r@ == zeros(n as nat),
{
    let mut v: Vec<u8> = Vec::new();
    let mut i: usize = 0;
    while i < n
        invariant
            i <= n,
            v@ =~= zeros(i as nat),
        decreases n - i,
    {
        v.push(0u8);
        i = i + 1;
    }
    v
}

/// Encode a reply of `n` zero-valued 64-bit elements.
fn zero_f64_reply(n: usize, seq: u16) -> (r: Vec<u8>)
    requires
        n <= 16,
    ensures
        r@ == zero_doubles(n as nat).wire(seq),
{
    let data = zero_bytes(8 * n);
    GlxReply::Values { count: n as u32, data }.encode(seq)
}

/// Encode a reply of `n` false booleans.
fn zero_bool_reply(n: usize, seq: u16) -> (r: Vec<u8>)
    requires
        n <= 16,
    ensures
        r@ == zero_booleans(n as nat).wire(seq),
{
    let params = zero_bytes(n);
    let reply = GlxReply::from_bools(params.as_slice());
    proof {
        if n == 1 {
            assert(seq![params@[0], 0u8, 0u8, 0u8] =~= zeros(4));
        }
    }
    reply.encode(seq)
}

/// glGetError: no GL back end, so no error is pending.
pub fn handle_get_error(seq: u16) -> (r: Vec<u8>)
    ensures
        r@ == GlxReplyModel::Scalar(0).wire(seq),
{
    GlxReply::Scalar(0).encode(seq)
}

/// The reply to get integerv.
pub open spec fn get_integerv_reply(payload: Seq<u8>, seq: u16) -> Seq<u8> {
    (if payload.len() < 4 {
        empty_reply(seq)
    } else {
        zero_elements(integer_count(param(payload, 0))).wire(seq)
    })
}

/// glGetIntegerv: zero values, as many as `pname` calls for.
pub fn handle_get_integerv(payload: &[u8], seq: u16) -> (r: Vec<u8>)
    ensures
        r@ == get_integerv_reply(payload@, seq),
{
    if payload.len() < 4 {
        return GlxReply::Empty.encode(seq);
    }
    let pname = read_u32(payload, 0, false);
    let n = gl_integer_count(pname);
    zero_i32_reply(n, seq)
}

/// The reply to get floatv.
pub open spec fn get_floatv_reply(payload: Seq<u8>, seq: u16) -> Seq<u8> {
    (if payload.len() < 4 {
        empty_reply(seq)
    } else {
        zero_elements(integer_count(param(payload, 0))).wire(seq)
    })
}

/// glGetFloatv: zero values, as many as `pname` calls for.
pub fn handle_get_floatv(payload: &[u8], seq: u16) -> (r: Vec<u8>)
    ensures
        r@ == get_floatv_reply(payload@, seq),
{
    if payload.len() < 4 {
        return GlxReply::Empty.encode(seq);
    }
    let pname = read_u32(payload, 0, false);
    let n = gl_float_count(pname);
    zero_u32_reply(n, seq)
}

/// The reply to get doublev.
pub open spec fn get_doublev_reply(payload: Seq<u8>, seq: u16) -> Seq<u8> {
    (if payload.len() < 4 {
        empty_reply(seq)
    } else {
        zero_doubles(integer_count(param(payload, 0))).wire(seq)
    })
}

/// glGetDoublev: zero 64-bit values, as many as `pname` calls for.
pub fn handle_get_doublev(payload: &[u8], seq: u16) -> (r: Vec<u8>)
    ensures
        r@ == get_doublev_reply(payload@, seq),
{
    if payload.len() < 4 {
        return GlxReply::Empty.encode(seq);
    }
    let pname = read_u32(payload, 0, false);
    let n = gl_float_count(pname);
    zero_f64_reply(n, seq)
}

/// The reply to get booleanv.
pub open spec fn get_booleanv_reply(payload: Seq<u8>, seq: u16) -> Seq<u8> {
    (if payload.len() < 4 {
        empty_reply(seq)
    } else {
        zero_booleans(integer_count(param(payload, 0))).wire(seq)
    })
}

/// glGetBooleanv: false values, as many as `pname` calls for.
pub fn handle_get_booleanv(payload: &[u8], seq: u16) -> (r: Vec<u8>)
    ensures
        r@ == get_booleanv_reply(payload@, seq),
{
    if payload.len() < 4 {
        return GlxReply::Empty.encode(seq);
    }
    let pname = read_u32(payload, 0, false);
    let n = gl_float_count(pname);
    zero_bool_reply(n, seq)
}

/// The reply to get string.
pub open spec fn get_string_reply(payload: Seq<u8>, seq: u16) -> Seq<u8> {
    (if payload.len() < 4 {
        empty_reply(seq)
    } else {
        GlxReplyModel::Bytes(0, seq![]).wire(seq)
    })
}

/// glGetString: the empty string.
pub fn handle_get_string(payload: &[u8], seq: u16) -> (r: Vec<u8>)
    ensures
        r@ == get_string_reply(payload@, seq),
{
    if payload.len() < 4 {
        return GlxReply::Empty.encode(seq);
    }
    let _name = read_u32(payload, 0, false);
    let bytes: Vec<u8> = Vec::new();
    let n = bytes.len() as u32;
    GlxReply::from_bytes(n, bytes).encode(seq)
}

/// A glIs* query: always false.
pub open spec fn false_scalar(payload: Seq<u8>, seq: u16) -> Seq<u8> {
    if payload.len() < 4 {
        empty_reply(seq)
    } else {
        GlxReplyModel::Scalar(0).wire(seq)
    }
}

/// The reply to is enabled.
pub open spec fn is_enabled_reply(payload: Seq<u8>, seq: u16) -> Seq<u8> {
    false_scalar(payload, seq)
}

/// glIsEnabled: false.
pub fn handle_is_enabled(payload: &[u8], seq: u16) -> (r: Vec<u8>)
    ensures
        r@ == is_enabled_reply(payload@, seq),
{
    if payload.len() < 4 {
        return GlxReply::Empty.encode(seq);
    }
    let _cap = read_u32(payload, 0, false);
    GlxReply::Scalar(0).encode(seq)
}

/// The reply to is texture.
pub open spec fn is_texture_reply(payload: Seq<u8>, seq: u16) -> Seq<u8> {
    false_scalar(payload, seq)
}

/// glIsTexture: false.
pub fn handle_is_texture(payload: &[u8], seq: u16) -> (r: Vec<u8>)
    ensures
        r@ == is_texture_reply(payload@, seq),
{
    if payload.len() < 4 {
        return GlxReply::Empty.encode(seq);
    }
    let _texture = read_u32(payload, 0, false);
    GlxReply::Scalar(0).encode(seq)
}

/// The reply to is list.
pub open spec fn is_list_reply(payload: Seq<u8>, seq: u16) -> Seq<u8> {
    false_scalar(payload, seq)
}

/// glIsList: false.
pub fn handle_is_list(payload: &[u8], seq: u16) -> (r: Vec<u8>)
    ensures
        r@ == is_list_reply(payload@, seq),
{
    if payload.len() < 4 {
        return GlxReply::Empty.encode(seq);
    }
    let _list = read_u32(payload, 0, false);
    GlxReply::Scalar(0).encode(seq)
}

/// The reply to gen lists.
pub open spec fn gen_lists_reply(payload: Seq<u8>, seq: u16) -> Seq<u8> {
    false_scalar(payload, seq)
}

/// glGenLists: no list range can be allocated, so the base is 0.
pub fn handle_gen_lists(payload: &[u8], seq: u16) -> (r: Vec<u8>)
    ensures
        r@ == gen_lists_reply(payload@, seq),
{
    if payload.len() < 4 {
        return GlxReply::Empty.encode(seq);
    }
    let _range = read_u32(payload, 0, false) as i32;
    GlxReply::Scalar(0).encode(seq)
}

/// The number of texture names a glGenTextures payload asks for (negative
/// counts ask for none).
pub open spec fn gen_textures_count(payload: Seq<u8>) -> nat {
    let n = param(payload, 0) as i32;
    if n < 0 { 0 } else { n as nat }
}

/// The reply to gen textures.
pub open spec fn gen_textures_reply(payload: Seq<u8>, seq: u16) -> Seq<u8> {
    (if payload.len() < 4 {
        empty_reply(seq)
    } else {
        zero_elements(gen_textures_count(payload)).wire(seq)
    })
}

/// glGenTextures: as many zero names as were asked for.
pub fn handle_gen_textures(payload: &[u8], seq: u16) -> (r: Vec<u8>)
    requires
        payload@.len() >= 4 ==> 4 * gen_textures_count(payload@) + 3 <= usize::MAX,
    ensures
        r@ == gen_textures_reply(payload@, seq),
{
    if payload.len() < 4 {
        return GlxReply::Empty.encode(seq);
    }
    let n = read_u32(payload, 0, false) as i32;
    let n = if n < 0 { 0usize } else { n as usize };
    zero_u32_reply(n, seq)
}

/// A query with a fixed-size payload answered with one zero element.
pub open spec fn one_zero(payload: Seq<u8>, min_len: nat, seq: u16) -> Seq<u8> {
    if payload.len() < min_len {
        empty_reply(seq)
    } else {
        zero_elements(1).wire(seq)
    }
}

/// The reply to get tex parameteriv.
pub open spec fn get_tex_parameteriv_reply(payload: Seq<u8>, seq: u16) -> Seq<u8> {
    one_zero(payload, 8, seq)
}

/// glGetTexParameteriv: one zero value.
pub fn handle_get_tex_parameteriv(payload: &[u8], seq: u16) -> (r: Vec<u8>)
    ensures
        r@ == get_tex_parameteriv_reply(payload@, seq),
{
    if payload.len() < 8 {
        return GlxReply::Empty.encode(seq);
    }
    let _target = read_u32(payload, 0, false);
    let _pname = read_u32(payload, 4, false);
    zero_i32_reply(1, seq)
}

/// The reply to get tex parameterfv.
pub open spec fn get_tex_parameterfv_reply(payload: Seq<u8>, seq: u16) -> Seq<u8> {
    one_zero(payload, 8, seq)
}

/// glGetTexParameterfv: one zero value.
pub fn handle_get_tex_parameterfv(payload: &[u8], seq: u16) -> (r: Vec<u8>)
    ensures
        r@ == get_tex_parameterfv_reply(payload@, seq),
{
    if payload.len() < 8 {
        return GlxReply::Empty.encode(seq);
    }
    let _target = read_u32(payload, 0, false);
    let _pname = read_u32(payload, 4, false);
    zero_u32_reply(1, seq)
}

/// The reply to get tex level parameteriv.
pub open spec fn get_tex_level_parameteriv_reply(payload: Seq<u8>, seq: u16) -> Seq<u8> {
    one_zero(payload, 12, seq)
}

/// glGetTexLevelParameteriv: one zero value.
pub fn handle_get_tex_level_parameteriv(payload: &[u8], seq: u16) -> (r: Vec<u8>)
    ensures
        r@ == get_tex_level_parameteriv_reply(payload@, seq),
{
    if payload.len() < 12 {
        return GlxReply::Empty.encode(seq);
    }
    let _target = read_u32(payload, 0, false);
    let _level = read_u32(payload, 4, false);
    let _pname = read_u32(payload, 8, false);
    zero_i32_reply(1, seq)
}

/// The reply to get tex level parameterfv.
pub open spec fn get_tex_level_parameterfv_reply(payload: Seq<u8>, seq: u16) -> Seq<u8> {
    one_zero(payload, 12, seq)
}

/// glGetTexLevelParameterfv: one zero value.
pub fn handle_get_tex_level_parameterfv(payload: &[u8], seq: u16) -> (r: Vec<u8>)
    ensures
        r@ == get_tex_level_parameterfv_reply(payload@, seq),
{
    if payload.len() < 12 {
        return GlxReply::Empty.encode(seq);
    }
    let _target = read_u32(payload, 0, false);
    let _level = read_u32(payload, 4, false);
    let _pname = read_u32(payload, 8, false);
    zero_u32_reply(1, seq)
}

/// The reply to get tex image.
pub open spec fn get_tex_image_reply(payload: Seq<u8>, seq: u16) -> Seq<u8> {
    empty_reply(seq)
}

/// glGetTexImage: the texture has no extent, so the image is empty.
pub fn handle_get_tex_image(payload: &[u8], seq: u16) -> (r: Vec<u8>)
    ensures
        r@ == get_tex_image_reply(payload@, seq),
{
    if payload.len() < 16 {
        return GlxReply::Empty.encode(seq);
    }
    let format = read_u32(payload, 8, false);
    let type_ = read_u32(payload, 12, false);
    let width: usize = 0;
    let height: usize = 0;
    let components = gl_format_components(format);
    let type_size = gl_type_size(type_);
    assert(width * height == 0 && 0 * components == 0 && 0 * type_size == 0) by (nonlinear_arith)
        requires
            width == 0,
    ;
    let image_size = width * height * components * type_size;
    if image_size == 0 {
        return GlxReply::Empty.encode(seq);
    }
    let pixels = zero_bytes(image_size);
    GlxReply::from_bytes(image_size as u32, pixels).encode(seq)
}

/// A two-parameter query whose element count depends on the second
/// parameter through `count`.
pub open spec fn counted_zero(payload: Seq<u8>, count: spec_fn(u32) -> nat, seq: u16) -> Seq<u8> {
    if payload.len() < 8 {
        empty_reply(seq)
    } else {
        zero_elements(count(param(payload, 1))).wire(seq)
    }
}

/// The reply to get lightfv.
pub open spec fn get_lightfv_reply(payload: Seq<u8>, seq: u16) -> Seq<u8> {
    counted_zero(payload, |p: u32| light_param_count(p), seq)
}

/// glGetLightfv: zero values, as many as the parameter calls for.
pub fn handle_get_lightfv(payload: &[u8], seq: u16) -> (r: Vec<u8>)
    ensures
        r@ == get_lightfv_reply(payload@, seq),
{
    if payload.len() < 8 {
        return GlxReply::Empty.encode(seq);
    }
    let _light = read_u32(payload, 0, false);
    let pname = read_u32(payload, 4, false);
    let n = gl_light_param_count(pname);
    zero_u32_reply(n, seq)
}

/// The reply to get lightiv.
pub open spec fn get_lightiv_reply(payload: Seq<u8>, seq: u16) -> Seq<u8> {
    counted_zero(payload, |p: u32| light_param_count(p), seq)
}

/// glGetLightiv: zero values, as many as the parameter calls for.
pub fn handle_get_lightiv(payload: &[u8], seq: u16) -> (r: Vec<u8>)
    ensures
        r@ == get_lightiv_reply(payload@, seq),
{
    if payload.len() < 8 {
        return GlxReply::Empty.encode(seq);
    }
    let _light = read_u32(payload, 0, false);
    let pname = read_u32(payload, 4, false);
    let n = gl_light_param_count(pname);
    zero_i32_reply(n, seq)
}

/// The reply to get materialfv.
pub open spec fn get_materialfv_reply(payload: Seq<u8>, seq: u16) -> Seq<u8> {
    counted_zero(payload, |p: u32| material_param_count(p), seq)
}

/// glGetMaterialfv: zero values, as many as the parameter calls for.
pub fn handle_get_materialfv(payload: &[u8], seq: u16) -> (r: Vec<u8>)
    ensures
        r@ == get_materialfv_reply(payload@, seq),
{
    if payload.len() < 8 {
        return GlxReply::Empty.encode(seq);
    }
    let _face = read_u32(payload, 0, false);
    let pname = read_u32(payload, 4, false);
    let n = gl_material_param_count(pname);
    zero_u32_reply(n, seq)
}

/// The reply to get materialiv.
pub open spec fn get_materialiv_reply(payload: Seq<u8>, seq: u16) -> Seq<u8> {
    counted_zero(payload, |p: u32| material_param_count(p), seq)
}

/// glGetMaterialiv: zero values, as many as the parameter calls for.
pub fn handle_get_materialiv(payload: &[u8], seq: u16) -> (r: Vec<u8>)
    ensures
        r@ == get_materialiv_reply(payload@, seq),
{
    if payload.len() < 8 {
        return GlxReply::Empty.encode(seq);
    }
    let _face = read_u32(payload, 0, false);
    let pname = read_u32(payload, 4, false);
    let n = gl_material_param_count(pname);
    zero_i32_reply(n, seq)
}

/// The reply to get tex envfv.
pub open spec fn get_tex_envfv_reply(payload: Seq<u8>, seq: u16) -> Seq<u8> {
    counted_zero(payload, |p: u32| texenv_param_count(p), seq)
}

/// glGetTexEnvfv: zero values, as many as the parameter calls for.
pub fn handle_get_tex_envfv(payload: &[u8], seq: u16) -> (r: Vec<u8>)
    ensures
        r@ == get_tex_envfv_reply(payload@, seq),
{
    if payload.len() < 8 {
        return GlxReply::Empty.encode(seq);
    }
    let _target = read_u32(payload, 0, false);
    let pname = read_u32(payload, 4, false);
    let n = gl_texenv_param_count(pname);
    zero_u32_reply(n, seq)
}

/// The reply to get tex enviv.
pub open spec fn get_tex_enviv_reply(payload: Seq<u8>, seq: u16) -> Seq<u8> {
    counted_zero(payload, |p: u32| texenv_param_count(p), seq)
}

/// glGetTexEnviv: zero values, as many as the parameter calls for.
pub fn handle_get_tex_enviv(payload: &[u8], seq: u16) -> (r: Vec<u8>)
    ensures
        r@ == get_tex_enviv_reply(payload@, seq),
{
    if payload.len() < 8 {
        return GlxReply::Empty.encode(seq);
    }
    let _target = read_u32(payload, 0, false);
    let pname = read_u32(payload, 4, false);
    let n = gl_texenv_param_count(pname);
    zero_i32_reply(n, seq)
}

/// The reply to get tex gendv.
pub open spec fn get_tex_gendv_reply(payload: Seq<u8>, seq: u16) -> Seq<u8> {
    (if payload.len() < 8 {
        empty_reply(seq)
    } else {
        zero_doubles(texgen_param_count(param(payload, 1))).wire(seq)
    })
}

/// glGetTexGendv: zero 64-bit values, as many as the parameter calls for.
pub fn handle_get_tex_gendv(payload: &[u8], seq: u16) -> (r: Vec<u8>)
    ensures
        r@ == get_tex_gendv_reply(payload@, seq),
{
    if payload.len() < 8 {
        return GlxReply::Empty.encode(seq);
    }
    let _coord = read_u32(payload, 0, false);
    let pname = read_u32(payload, 4, false);
    let n = gl_texgen_param_count(pname);
    zero_f64_reply(n, seq)
}

/// The reply to get tex genfv.
pub open spec fn get_tex_genfv_reply(payload: Seq<u8>, seq: u16) -> Seq<u8> {
    counted_zero(payload, |p: u32| texgen_param_count(p), seq)
}

/// glGetTexGenfv: zero values, as many as the parameter calls for.
pub fn handle_get_tex_genfv(payload: &[u8], seq: u16) -> (r: Vec<u8>)
    ensures
        r@ == get_tex_genfv_reply(payload@, seq),
{
    if payload.len() < 8 {
        return GlxReply::Empty.encode(seq);
    }
    let _coord = read_u32(payload, 0, false);
    let pname = read_u32(payload, 4, false);
    let n = gl_texgen_param_count(pname);
    zero_u32_reply(n, seq)
}

/// The reply to get tex geniv.
pub open spec fn get_tex_geniv_reply(payload: Seq<u8>, seq: u16) -> Seq<u8> {
    counted_zero(payload, |p: u32| texgen_param_count(p), seq)
}

/// glGetTexGeniv: zero values, as many as the parameter calls for.
pub fn handle_get_tex_geniv(payload: &[u8], seq: u16) -> (r: Vec<u8>)
    ensures
        r@ == get_tex_geniv_reply(payload@, seq),
{
    if payload.len() < 8 {
        return GlxReply::Empty.encode(seq);
    }
    let _coord = read_u32(payload, 0, false);
    let pname = read_u32(payload, 4, false);
    let n = gl_texgen_param_count(pname);
    zero_i32_reply(n, seq)
}

/// The reply to get pixel mapfv.
pub open spec fn get_pixel_mapfv_reply(payload: Seq<u8>, seq: u16) -> Seq<u8> {
    (if payload.len() < 4 {
        empty_reply(seq)
    } else {
        zero_elements(0).wire(seq)
    })
}

/// glGetPixelMapfv: the map's size cannot be queried, so no values.
pub fn handle_get_pixel_mapfv(payload: &[u8], seq: u16) -> (r: Vec<u8>)
    ensures
        r@ == get_pixel_mapfv_reply(payload@, seq),
{
    if payload.len() < 4 {
        return GlxReply::Empty.encode(seq);
    }
    let map = read_u32(payload, 0, false);
    let _size_pname = gl_pixel_map_size_pname(map);
    let n: usize = 0;
    zero_u32_reply(n, seq)
}

/// The reply to get clip plane.
pub open spec fn get_clip_plane_reply(payload: Seq<u8>, seq: u16) -> Seq<u8> {
    (if payload.len() < 4 {
        empty_reply(seq)
    } else {
        zero_doubles(4).wire(seq)
    })
}

/// glGetClipPlane: four zero 64-bit coefficients.
pub fn handle_get_clip_plane(payload: &[u8], seq: u16) -> (r: Vec<u8>)
    ensures
        r@ == get_clip_plane_reply(payload@, seq),
{
    if payload.len() < 4 {
        return GlxReply::Empty.encode(seq);
    }
    let _plane = read_u32(payload, 0, false);
    zero_f64_reply(4, seq)
}

/// glGetPolygonStipple: the 32x32 stipple mask, all zero bits.
pub fn handle_get_polygon_stipple(seq: u16) -> (r: Vec<u8>)
    ensures
        r@ == GlxReplyModel::Bytes(128, zeros(128)).wire(seq),
{
    let mask = zero_bytes(128);
    GlxReply::from_bytes(128, mask).encode(seq)
}

} // verus!
