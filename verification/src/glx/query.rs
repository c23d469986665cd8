//! GLX queries: QueryVersion, GetVisualConfigs, GetFBConfigs,
//! QueryExtensionsString and QueryServerString.

use crate::glx::reply::{build_glx_string_reply, le32s, string_reply, u32s_bytes};
use crate::wire::{field32, le16, le32, push_bytes, push_u16, push_u32, push_zeros, read_u32, zeros};
use vstd::prelude::*;
use vstd::utf8::{encode_scalar, encode_utf8};

verus! {

/// The visual of the root window.
pub const ROOT_VISUAL: u32 = 0x21;

/// The 32-bit ARGB visual.
pub const ARGB_VISUAL: u32 = 0x40;

/// The reply to QueryVersion: GLX 1.4.
pub open spec fn version_reply(seq: u16) -> Seq<u8> {
    seq![1u8, 0u8] + le16(seq) + zeros(4) + le32(1) + le32(4) + zeros(16)
}

/// GLX QueryVersion: the server speaks GLX 1.4.
pub fn handle_query_version(seq: u16) -> (r: Vec<u8>)
    ensures
        r@ == version_reply(seq),
{
    let mut out: Vec<u8> = Vec::new();
    out.push(1u8);
    out.push(0u8);
    assert(out@ =~= seq![1u8, 0u8]);
    push_u16(&mut out, seq, false);
    push_zeros(&mut out, 4);
    push_u32(&mut out, 1, false);
    push_u32(&mut out, 4, false);
    push_zeros(&mut out, 16);
    out
}

/// The 18 positional properties of the single visual config: visual id,
/// class (TrueColor), RGBA, red/green/blue/alpha sizes, accumulation sizes,
/// double buffering, stereo, buffer size, depth size, stencil size, aux
/// buffers and level.
pub open spec fn visual_config_props() -> Seq<u32> {
    seq![ROOT_VISUAL, 4u32, 1u32, 8u32, 8u32, 8u32, 0u32, 0u32, 0u32, 0u32, 0u32, 1u32, 0u32, 24u32,
        24u32, 8u32, 0u32, 0u32]
}

/// The reply to GetVisualConfigs: one config of 18 properties.
pub open spec fn visual_configs_reply(seq: u16) -> Seq<u8> {
    seq![1u8, 0u8] + le16(seq) + le32(18) + le32(1) + le32(18) + zeros(16) + le32s(visual_config_props())
}

/// GLX GetVisualConfigs: one TrueColor config matching the root visual.
pub fn handle_get_visual_configs(_data: &[u8], seq: u16) -> (r: Vec<u8>)
    ensures
        r@ == visual_configs_reply(seq),
{
    let num_configs: u32 = 1;
    let props_per_config: u32 = 18;
    let total_props = num_configs * props_per_config;
    let props: [u32; 18] = [ROOT_VISUAL, 4, 1, 8, 8, 8, 0, 0, 0, 0, 0, 1, 0, 24, 24, 8, 0, 0];
    assert(props@ =~= visual_config_props());
    let mut out: Vec<u8> = Vec::new();
    out.push(1u8);
    out.push(0u8);
    assert(out@ =~= seq![1u8, 0u8]);
    push_u16(&mut out, seq, false);
    push_u32(&mut out, total_props, false);
    push_u32(&mut out, num_configs, false);
    push_u32(&mut out, props_per_config, false);
    push_zeros(&mut out, 16);
    let data = u32s_bytes(&props);
    push_bytes(&mut out, data.as_slice());
    out
}

/// The attribute pairs of an FBConfig, flattened as key, value, key, value:
/// config id, visual, X-renderable, RGBA rendering, window/pixmap/pbuffer
/// drawables, TrueColor, no caveat, 8-bit R/G/B, the given alpha and buffer
/// sizes, double buffering, 24-bit depth, 8-bit stencil, level 0, no aux
/// buffers, no stereo, no accumulation buffer, no multisampling, opaque,
/// and 4096x4096 pbuffers.
pub open spec fn fb_config(id: u32, visual: u32, alpha: u32, buffer_size: u32) -> Seq<u32> {
    seq![0x8013u32, id, 0x800Bu32, visual, 0x8012u32, 1u32, 0x8011u32, 1u32, 0x8010u32, 7u32,
        0x22u32, 0x8002u32, 0x20u32, 0x8000u32, 8u32, 8u32, 9u32, 8u32, 10u32, 8u32, 11u32, alpha,
        2u32, buffer_size, 5u32, 1u32, 12u32, 24u32, 13u32, 8u32, 3u32, 0u32, 7u32, 0u32, 6u32, 0u32,
        14u32, 0u32, 15u32, 0u32, 16u32, 0u32, 17u32, 0u32, 0x186A0u32, 0u32, 0x186A1u32, 0u32,
        0x23u32, 0x8000u32, 0x8016u32, 4096u32, 0x8017u32, 4096u32, 0x8018u32, 16777216u32]
}

/// Both FBConfigs: 24-bit XRGB on the root visual, then 32-bit ARGB.
pub open spec fn fb_configs() -> Seq<u32> {
    fb_config(1, ROOT_VISUAL, 0, 24) + fb_config(2, ARGB_VISUAL, 8, 32)
}

/// The reply to GetFBConfigs: two configs of 28 attribute pairs each.
pub open spec fn fb_configs_reply(seq: u16) -> Seq<u8> {
    seq![1u8, 0u8] + le16(seq) + le32(112) + le32(2) + le32(28) + zeros(16) + le32s(fb_configs())
}

/// The flattened attribute pairs of one FBConfig.
fn fb_config_words(id: u32, visual: u32, alpha: u32, buffer_size: u32) -> (r: [u32; 56])
    ensures
        r@ == fb_config(id, visual, alpha, buffer_size),
{
    let r: [u32; 56] = [0x8013, id, 0x800B, visual, 0x8012, 1, 0x8011, 1, 0x8010, 7, 0x22, 0x8002,
        0x20, 0x8000, 8, 8, 9, 8, 10, 8, 11, alpha, 2, buffer_size, 5, 1, 12, 24, 13, 8, 3, 0, 7, 0,
        6, 0, 14, 0, 15, 0, 16, 0, 17, 0, 0x186A0, 0, 0x186A1, 0, 0x23, 0x8000, 0x8016, 4096, 0x8017,
        4096, 0x8018, 4096 * 4096];
    assert(r@ =~= fb_config(id, visual, alpha, buffer_size));
    r
}

proof fn lemma_le32s_append(a: Seq<u32>, b: Seq<u32>)
    ensures
        le32s(a + b) == le32s(a) + le32s(b),
    decreases b.len(),
{
    if b.len() == 0 {
        assert(a + b =~= a);
        assert(le32s(a) + le32s(b) =~= le32s(a));
    } else {
        lemma_le32s_append(a, b.drop_last());
        assert((a + b).drop_last() =~= a + b.drop_last());
        assert((a + b).last() == b.last());
        assert(le32s(a + b) =~= le32s(a) + le32s(b));
    }
}

/// GLX GetFBConfigs: the XRGB and ARGB configs.
pub fn handle_get_fb_configs(_data: &[u8], seq: u16) -> (r: Vec<u8>)
    ensures
        r@ == fb_configs_reply(seq),
{
    let num_configs: u32 = 2;
    let num_attribs: u32 = 28;
    let u32s_per_config = num_attribs * 2;
    let total_u32s = num_configs * u32s_per_config;
    let mut out: Vec<u8> = Vec::new();
    out.push(1u8);
    out.push(0u8);
    assert(out@ =~= seq![1u8, 0u8]);
    push_u16(&mut out, seq, false);
    push_u32(&mut out, total_u32s, false);
    push_u32(&mut out, num_configs, false);
    push_u32(&mut out, num_attribs, false);
    push_zeros(&mut out, 16);
    let config1 = fb_config_words(1, ROOT_VISUAL, 0, 24);
    let config2 = fb_config_words(2, ARGB_VISUAL, 8, 32);
    let ghost head = out@;
    let d1 = u32s_bytes(&config1);
    push_bytes(&mut out, d1.as_slice());
    let d2 = u32s_bytes(&config2);
    push_bytes(&mut out, d2.as_slice());
    proof {
        lemma_le32s_append(config1@, config2@);
        assert(out@ =~= head + le32s(fb_configs()));
    }
    out
}

proof fn lemma_encode_utf8_len(chars: Seq<char>)
    ensures
        encode_utf8(chars).len() <= 4 * chars.len(),
    decreases chars.len(),
{
    if chars.len() > 0 {
        lemma_encode_utf8_len(chars.drop_first());
        assert(encode_scalar(chars[0] as u32).len() <= 4);
    }
}

/// The GLX extensions this server advertises.
pub open spec fn glx_extensions() -> Seq<u8> {
    encode_utf8("GLX_EXT_visual_info GLX_EXT_visual_rating GLX_MESA_copy_sub_buffer"@)
}

/// GLX QueryExtensionsString: the advertised extension list.
pub fn handle_query_extensions_string(_data: &[u8], seq: u16) -> (r: Vec<u8>)
    ensures
        r@ == string_reply(seq, glx_extensions()),
{
    let s = "GLX_EXT_visual_info GLX_EXT_visual_rating GLX_MESA_copy_sub_buffer";
    proof {
        reveal_strlit("GLX_EXT_visual_info GLX_EXT_visual_rating GLX_MESA_copy_sub_buffer");
        lemma_encode_utf8_len(s@);
    }
    build_glx_string_reply(seq, s.as_bytes())
}

/// The string a QueryServerString name selects: vendor (1), version (2),
/// extensions (3), and the empty string for any other name.
pub open spec fn server_string(name: u32) -> Seq<u8> {
    if name == 1 {
        encode_utf8("x11-web OSMesa"@)
    } else if name == 2 {
        encode_utf8("1.4"@)
    } else if name == 3 {
        glx_extensions()
    } else {
        encode_utf8(""@)
    }
}

/// The name a QueryServerString request asks for (0 if the request is
/// too short to hold one).
pub open spec fn server_string_name(data: Seq<u8>) -> u32 {
    if data.len() >= 12 { field32(data, 8, false) } else { 0 }
}

/// GLX QueryServerString: vendor, version or extension string.
pub fn handle_query_server_string(data: &[u8], seq: u16) -> (r: Vec<u8>)
    ensures
        r@ == string_reply(seq, server_string(server_string_name(data@))),
{
    let name = if data.len() >= 12 { read_u32(data, 8, false) } else { 0 };
    let s = if name == 1 {
        "x11-web OSMesa"
    } else if name == 2 {
        "1.4"
    } else if name == 3 {
        "GLX_EXT_visual_info GLX_EXT_visual_rating GLX_MESA_copy_sub_buffer"
    } else {
        ""
    };
    proof {
        reveal_strlit("x11-web OSMesa");
        reveal_strlit("1.4");
        reveal_strlit("GLX_EXT_visual_info GLX_EXT_visual_rating GLX_MESA_copy_sub_buffer");
        reveal_strlit("");
        lemma_encode_utf8_len(s@);
    }
    build_glx_string_reply(seq, s.as_bytes())
}

} // verus!
