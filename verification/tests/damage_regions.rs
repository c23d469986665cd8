//! DAMAGE accumulation and XFixes region arithmetic.

use sidecar::composite::DamageInfo;
use sidecar::region::{RegionRect, XFixesRegion};

fn r(x: i16, y: i16, w: u16, h: u16) -> RegionRect {
    RegionRect {
        x,
        y,
        width: w,
        height: h,
    }
}

#[test]
fn damage_info_accumulates_regions() {
    let mut info = DamageInfo {
        drawable: 0x100,
        level: 0,
        accumulated: XFixesRegion::new(),
    };
    assert!(info.accumulated.rects.is_empty());

    // Accumulate first damage
    let r1 = XFixesRegion::from_rects(vec![r(0, 0, 10, 10)]);
    info.accumulated = info.accumulated.union(&r1);
    assert_eq!(info.accumulated.rects.len(), 1);

    // Accumulate second damage
    let r2 = XFixesRegion::from_rects(vec![r(20, 20, 5, 5)]);
    info.accumulated = info.accumulated.union(&r2);
    assert_eq!(info.accumulated.rects.len(), 2);

    // Extents should cover both
    let ext = info.accumulated.extents();
    assert_eq!(ext.x, 0);
    assert_eq!(ext.y, 0);
    assert_eq!(ext.width, 25);
    assert_eq!(ext.height, 25);
}

#[test]
fn damage_subtract_removes_repair_region() {
    let mut info = DamageInfo {
        drawable: 0x100,
        level: 0,
        accumulated: XFixesRegion::from_rects(vec![r(0, 0, 100, 100)]),
    };

    // Subtract the top half
    let repair = XFixesRegion::from_rects(vec![r(0, 0, 100, 50)]);
    info.accumulated = info.accumulated.subtract(&repair);

    // Should have bottom half remaining
    let ext = info.accumulated.extents();
    assert_eq!(ext.y, 50);
    assert_eq!(ext.height, 50);
}

#[test]
fn damage_subtract_all_clears_accumulated() {
    let mut info = DamageInfo {
        drawable: 0x100,
        level: 0,
        accumulated: XFixesRegion::from_rects(vec![r(0, 0, 10, 10), r(20, 20, 5, 5)]),
    };

    // Subtract everything (repair covers all)
    let repair = XFixesRegion::from_rects(vec![r(0, 0, 1000, 1000)]);
    info.accumulated = info.accumulated.subtract(&repair);

    assert!(info.accumulated.rects.is_empty());
}

#[test]
fn damage_subtract_partial_leaves_remainder() {
    let mut info = DamageInfo {
        drawable: 0x100,
        level: 0,
        accumulated: XFixesRegion::from_rects(vec![r(0, 0, 50, 50), r(60, 60, 20, 20)]),
    };

    // Subtract only the first rect area
    let repair = XFixesRegion::from_rects(vec![r(0, 0, 50, 50)]);
    info.accumulated = info.accumulated.subtract(&repair);

    // Second rect should remain
    assert!(!info.accumulated.rects.is_empty());
    let ext = info.accumulated.extents();
    assert_eq!(ext.x, 60);
    assert_eq!(ext.y, 60);
}
