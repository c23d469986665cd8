//! PutImage checking and painting images into a BGRA framebuffer.

use sidecar::drawing::image::{get_image_reply, paint_image, Image, ImageQuery, ImageStyle};
use sidecar::video::{copy_packed_rows, fourcc_layout, plan_plane_reads, PlaneRead, yuv_samples, YuvLayout};

fn style(function: u8, clip_rects: Vec<(i16, i16, u16, u16)>) -> ImageStyle {
    let mut palette = Vec::new();
    for i in 0..256u32 {
        palette.push((i as u8, (255 - i) as u8, 7, i as u8));
    }
    ImageStyle { function, plane_mask: 0xFFFF_FFFF, clip_rects, foreground: 0x00FF_0000, background: 0x0000_00FF, palette }
}

fn image(format: u8, depth: u8, x: i16, y: i16, width: u16, height: u16, pixels: Vec<u8>) -> Image {
    Image { format, depth, left_pad: 0, x, y, width, height, pixels }
}

fn pixel(fb: &[u8], w: usize, x: usize, y: usize) -> [u8; 4] {
    let i = (y * w + x) * 4;
    [fb[i], fb[i + 1], fb[i + 2], fb[i + 3]]
}

#[test]
fn rgb565_pixels_expand_and_land_at_the_offset() {
    let mut fb = vec![9u8; 3 * 2 * 4];
    let img = image(2, 16, 1, 1, 2, 1, vec![0x00, 0xF8, 0x1F, 0x00]);
    paint_image(&mut fb, 3, 2, &img, &style(3, vec![]));
    assert_eq!(pixel(&fb, 3, 1, 1), [0, 0, 255, 255]);
    assert_eq!(pixel(&fb, 3, 2, 1), [255, 0, 0, 255]);
    assert_eq!(pixel(&fb, 3, 0, 1), [9, 9, 9, 9]);
    assert_eq!(pixel(&fb, 3, 1, 0), [9, 9, 9, 9]);
}

#[test]
fn eight_bit_pixels_use_the_palette_and_keep_the_index() {
    let mut fb = vec![0u8; 2 * 4];
    let img = image(2, 8, 0, 0, 2, 1, vec![3, 200, 0, 0]);
    paint_image(&mut fb, 2, 1, &img, &style(3, vec![]));
    assert_eq!(pixel(&fb, 2, 0, 0), [3, 252, 7, 3]);
    assert_eq!(pixel(&fb, 2, 1, 0), [200, 55, 7, 200]);
}

#[test]
fn four_bit_pixels_become_gray() {
    let mut fb = vec![0u8; 2 * 4];
    let img = image(2, 4, 0, 0, 2, 1, vec![0xA5, 0, 0, 0]);
    paint_image(&mut fb, 2, 1, &img, &style(3, vec![]));
    assert_eq!(pixel(&fb, 2, 0, 0), [0x55, 0x55, 0x55, 0xFF]);
    assert_eq!(pixel(&fb, 2, 1, 0), [0xAA, 0xAA, 0xAA, 0xFF]);
}

#[test]
fn bitmap_paints_foreground_and_background_inside_the_clip() {
    let mut fb = vec![0u8; 3 * 4];
    let img = image(0, 1, 0, 0, 3, 1, vec![0b1010_0000, 0, 0, 0]);
    paint_image(&mut fb, 3, 1, &img, &style(3, vec![(0, 0, 2, 1)]));
    assert_eq!(pixel(&fb, 3, 0, 0), [0, 0, 255, 255]);
    assert_eq!(pixel(&fb, 3, 1, 0), [255, 0, 0, 255]);
    assert_eq!(pixel(&fb, 3, 2, 0), [0, 0, 0, 0]);
}

#[test]
fn xor_function_combines_with_the_destination() {
    let mut fb = vec![0x0F, 0x0F, 0x0F, 0x00];
    let img = image(2, 4, 0, 0, 1, 1, vec![0x0F, 0, 0, 0]);
    paint_image(&mut fb, 1, 1, &img, &style(6, vec![]));
    assert_eq!(pixel(&fb, 1, 0, 0), [0xF0, 0xF0, 0xF0, 0xFF]);
}

#[test]
fn depth_one_zpixmap_stores_black_and_white_lsb_first() {
    let mut fb = vec![7u8; 3 * 4];
    let img = image(2, 1, 0, 0, 3, 1, vec![0b0000_0101, 0, 0, 0]);
    paint_image(&mut fb, 3, 1, &img, &style(3, vec![]));
    assert_eq!(pixel(&fb, 3, 0, 0), [255, 255, 255, 0]);
    assert_eq!(pixel(&fb, 3, 1, 0), [0, 0, 0, 0]);
    assert_eq!(pixel(&fb, 3, 2, 0), [255, 255, 255, 0]);
    let mut fb2 = vec![7u8; 3 * 4];
    let shifted = image(2, 1, -1, 0, 3, 1, vec![0xFF, 0, 0, 0]);
    paint_image(&mut fb2, 3, 1, &shifted, &style(3, vec![]));
    assert_eq!(fb2, vec![7u8; 3 * 4]);
}

#[test]
fn xy_pixmap_sets_each_selected_plane() {
    let mut fb = vec![0u8; 4];
    let img = image(1, 2, 0, 0, 1, 1, vec![0x80, 0, 0, 0, 0x00, 0, 0, 0]);
    paint_image(&mut fb, 1, 1, &img, &style(3, vec![]));
    assert_eq!(pixel(&fb, 1, 0, 0), [2, 0, 0, 0xFF]);
}

#[test]
fn missing_image_bytes_leave_pixels_alone() {
    let mut fb = vec![5u8; 2 * 4];
    let img = image(2, 16, 0, 0, 2, 1, vec![0xFF, 0xFF]);
    paint_image(&mut fb, 2, 1, &img, &style(3, vec![]));
    assert_eq!(pixel(&fb, 2, 0, 0), [255, 255, 255, 255]);
    assert_eq!(pixel(&fb, 2, 1, 0), [5, 5, 5, 5]);
}

fn query(format: u8, depth: u8, width: u16, height: u16, plane_mask: u32) -> ImageQuery {
    ImageQuery { drawable: 0x20, format, x: 0, y: 0, width, height, plane_mask, depth, visual: 0, is_window: false }
}

#[test]
fn get_image_zpixmap_by_depth() {
    let r = get_image_reply(&query(2, 24, 1, 1, 0x00FF_FFFF), &[1, 2, 3, 4], 7, false);
    assert_eq!(r.len(), 36);
    assert_eq!(&r[0..8], &[1, 24, 7, 0, 1, 0, 0, 0]);
    assert_eq!(&r[32..36], &[1, 2, 3, 0]);
    let r = get_image_reply(&query(2, 16, 1, 1, 0xFFFF_FFFF), &[0xFF, 0, 0, 9], 7, false);
    assert_eq!(&r[32..36], &[31, 0, 0, 0]);
    let r = get_image_reply(&query(2, 8, 2, 1, 0xFF), &[0, 0, 0, 5, 0, 0, 0, 6], 7, false);
    assert_eq!(&r[32..36], &[5, 6, 0, 0]);
    let short = get_image_reply(&query(2, 24, 2, 1, 0xFFFF_FFFF), &[1, 2, 3, 4], 7, false);
    assert_eq!(&short[32..40], &[1, 2, 3, 4, 0, 0, 0, 0]);
}

#[test]
fn get_image_xypixmap_planes_most_significant_first() {
    let r = get_image_reply(&query(1, 2, 2, 1, 3), &[1, 0, 0, 0, 2, 0, 0, 0], 7, true);
    assert_eq!(&r[0..8], &[1, 2, 0, 7, 0, 0, 0, 2]);
    assert_eq!(&r[32..], &[0x40, 0, 0, 0, 0x80, 0, 0, 0]);
    let one = get_image_reply(&query(1, 2, 2, 1, 1), &[1, 0, 0, 0, 2, 0, 0, 0], 7, false);
    assert_eq!(&one[32..], &[0x80, 0, 0, 0]);
}

#[test]
fn yuv_layouts_pick_their_samples() {
    let y = [10u8, 20, 30, 40];
    let uv = [100u8, 200];
    let s = yuv_samples(YuvLayout::Nv12, &y, &uv, &[], &[2, 2, 0, 0], &[0, 0, 0, 0], 2, 2);
    assert_eq!(s, vec![(10, 100, 200), (20, 100, 200), (30, 100, 200), (40, 100, 200)]);
    let s = yuv_samples(YuvLayout::Yv12, &y, &[7], &[9], &[2, 1, 1, 0], &[0, 0, 0, 0], 2, 2);
    assert_eq!(s, vec![(10, 7, 9), (20, 7, 9), (30, 7, 9), (40, 7, 9)]);
    let packed = [1u8, 50, 2, 60, 3, 70];
    let s = yuv_samples(YuvLayout::Yuy2, &packed, &[], &[], &[8, 0, 0, 0], &[0, 0, 0, 0], 3, 1);
    assert_eq!(s, vec![(1, 50, 60), (2, 50, 60), (3, 70, 128)]);
    let s = yuv_samples(YuvLayout::Nv12, &y[..1], &[], &[], &[2, 2, 0, 0], &[0, 0, 0, 0], 2, 1);
    assert_eq!(s, vec![(10, 128, 128), (0, 128, 128)]);
}

fn read(r: &PlaneRead) -> (i32, u64) {
    match r {
        PlaneRead::Read { fd, size } => (*fd, *size),
        PlaneRead::SameAs(i) => (-100, *i as u64),
    }
}

#[test]
fn fourcc_codes_name_yuv_layouts() {
    assert!(matches!(fourcc_layout(0x3231_564E), Some(YuvLayout::Nv12)));
    assert!(matches!(fourcc_layout(0x3231_5659), Some(YuvLayout::Yv12)));
    assert!(matches!(fourcc_layout(0x3259_5559), Some(YuvLayout::Yuy2)));
    assert!(fourcc_layout(0x3432_5241).is_none());
}

#[test]
fn nv12_reads_luma_then_half_height_chroma() {
    let strides = [640, 640, 0, 0];
    let offsets = [0, 0, 0, 0];
    let r = plan_plane_reads(0x3231_564E, &[3, 4], &strides, &offsets, 481);
    let got: Vec<(i32, u64)> = r.iter().map(read).collect();
    assert_eq!(got, vec![(3, 640 * 481), (4, 640 * 241)]);
    // One descriptor for both planes: the chroma shares the luma's bytes.
    let r = plan_plane_reads(0x3231_564E, &[3], &strides, &[0, 640 * 480, 0, 0], 480);
    assert!(matches!(r[1], PlaneRead::SameAs(0)));
}

#[test]
fn yv12_planes_fall_back_to_the_previous_descriptor() {
    let strides = [8, 4, 4, 0];
    let offsets = [0, 0, 16, 0];
    let r = plan_plane_reads(0x3231_5659, &[3, 4, -1], &strides, &offsets, 4);
    let got: Vec<(i32, u64)> = r.iter().map(read).collect();
    assert_eq!(got, vec![(3, 32), (4, 8), (-100, 1)]);
    let r = plan_plane_reads(0x3231_5659, &[3, 4, 5], &strides, &offsets, 4);
    let got: Vec<(i32, u64)> = r.iter().map(read).collect();
    assert_eq!(got, vec![(3, 32), (4, 8), (5, 24)]);
}

#[test]
fn packed_and_missing_buffers() {
    let r = plan_plane_reads(0x3432_5241, &[7], &[256, 0, 0, 0], &[64, 0, 0, 0], 10);
    let got: Vec<(i32, u64)> = r.iter().map(read).collect();
    assert_eq!(got, vec![(7, 64 + 2560)]);
    assert!(plan_plane_reads(0x3432_5241, &[-1], &[256, 0, 0, 0], &[0; 4], 10).is_empty());
    assert!(plan_plane_reads(0x3231_564E, &[], &[256, 0, 0, 0], &[0; 4], 10).is_empty());
}

#[test]
fn packed_rows_copy_within_both_strides() {
    // Two pixels wide, two rows; the buffer rows are 12 bytes apart, after
    // a 2-byte offset, and the second row is cut short by the buffer's end.
    let buf: Vec<u8> = (0..24).collect();
    let mut dst = vec![0xAAu8; 16];
    copy_packed_rows(&mut dst, &buf, 12, 2, 2, 2);
    assert_eq!(&dst[0..8], &[2, 3, 4, 5, 6, 7, 8, 9]);
    assert_eq!(&dst[8..16], &[14, 15, 16, 17, 18, 19, 20, 21]);
    let mut dst = vec![0xAAu8; 16];
    copy_packed_rows(&mut dst, &buf[..20], 12, 2, 2, 2);
    assert_eq!(&dst[8..16], &[14, 15, 16, 17, 18, 19, 0xAA, 0xAA]);
    // A buffer row narrower than a pixmap row copies only its bytes.
    let mut dst = vec![0u8; 16];
    copy_packed_rows(&mut dst, &buf, 4, 0, 2, 2);
    assert_eq!(dst, vec![0, 1, 2, 3, 0, 0, 0, 0, 4, 5, 6, 7, 0, 0, 0, 0]);
}
