//! XFixes regions: sets of pixels held as lists of rectangles, with union,
//! subtraction and bounding box.

use vstd::prelude::*;

verus! {

/// A rectangle of a region.
#[derive(Clone, Copy)]
pub struct RegionRect {
    pub x: i16,
    pub y: i16,
    pub width: u16,
    pub height: u16,
}

/// A region: the union of its rectangles.
pub struct XFixesRegion {
    pub rects: Vec<RegionRect>,
}

/// The pixel (`x`, `y`) lies in the rectangle.
pub open spec fn rect_has(r: RegionRect, x: int, y: int) -> bool {
    &&& r.x <= x < r.x + r.width
    &&& r.y <= y < r.y + r.height
}

/// The pixel (`x`, `y`) lies in one of the rectangles.
pub open spec fn rects_have(rects: Seq<RegionRect>, x: int, y: int) -> bool {
    exists|i: int| 0 <= i < rects.len() && rect_has(#[trigger] rects[i], x, y)
}

/// A coordinate that a 16-bit signed position can name.
pub open spec fn coord(v: int) -> bool {
    i16::MIN <= v <= i16::MAX
}

impl XFixesRegion {
    /// The empty region.
    pub fn new() -> (r: XFixesRegion)
        ensures
            r.rects@ == Seq::<RegionRect>::empty(),
    {
        XFixesRegion { rects: Vec::new() }
    }

    /// The region made of the given rectangles.
    pub fn from_rects(rects: Vec<RegionRect>) -> (r: XFixesRegion)
        ensures
            r.rects@ == rects@,
    {
        XFixesRegion { rects }
    }

    /// The union of two regions: the rectangles of both.
    pub fn union(&self, other: &XFixesRegion) -> (r: XFixesRegion)
        ensures
            r.rects@ == self.rects@ + other.rects@,
    {
        let mut rects: Vec<RegionRect> = Vec::new();
        let mut i: usize = 0;
        while i < self.rects.len()
            invariant
                i <= self.rects@.len(),
                rects@ == self.rects@.subrange(0, i as int),
            decreases self.rects@.len() - i,
        {
            rects.push(self.rects[i]);
            i = i + 1;
            assert(rects@ =~= self.rects@.subrange(0, i as int));
        }
        let mut j: usize = 0;
        while j < other.rects.len()
            invariant
                i == self.rects@.len(),
                j <= other.rects@.len(),
                rects@ == self.rects@.subrange(0, i as int) + other.rects@.subrange(0, j as int),
            decreases other.rects@.len() - j,
        {
            rects.push(other.rects[j]);
            j = j + 1;
            assert(rects@ =~= self.rects@.subrange(0, i as int) + other.rects@.subrange(0, j as int));
        }
        assert(self.rects@.subrange(0, i as int) =~= self.rects@);
        assert(other.rects@.subrange(0, j as int) =~= other.rects@);
        XFixesRegion { rects }
    }
}

/// Append the piece [`x0`, `x1`) x [`y0`, `y1`) when it is not empty and its
/// corner is a 16-bit position.
fn push_piece(out: &mut Vec<RegionRect>, x0: i32, y0: i32, x1: i32, y1: i32)
    requires
        -32768 <= x0 && -32768 <= y0,
        x1 - x0 <= 65535 && y1 - y0 <= 65535,
    ensures
        forall|x: int, y: int| #![trigger rects_have(final(out)@, x, y)] coord(x) && coord(y) ==>
            (rects_have(final(out)@, x, y) <==> (rects_have(old(out)@, x, y) || (x0 <= x < x1 && y0 <= y < y1))),
        forall|x: int, y: int| rects_have(final(out)@, x, y) ==> (rects_have(old(out)@, x, y) || (x0 <= x < x1 && y0 <= y < y1)),
{
    if x0 < x1 && y0 < y1 && x0 <= 32767 && y0 <= 32767 {
        let p = RegionRect { x: x0 as i16, y: y0 as i16, width: (x1 - x0) as u16, height: (y1 - y0) as u16 };
        out.push(p);
        proof {
            assert forall|x: int, y: int| rects_have(out@, x, y) implies (rects_have(old(out)@, x, y) || (x0 <= x < x1 && y0 <= y < y1)) by {
                let i = choose|i: int| 0 <= i < out@.len() && rect_has(out@[i], x, y);
                if i < old(out)@.len() {
                    assert(old(out)@[i] == out@[i]);
                }
            }
            assert forall|x: int, y: int| coord(x) && coord(y) && (rects_have(old(out)@, x, y) || (x0 <= x < x1 && y0 <= y < y1))
                implies rects_have(out@, x, y) by {
                if rects_have(old(out)@, x, y) {
                    let i = choose|i: int| 0 <= i < old(out)@.len() && rect_has(old(out)@[i], x, y);
                    assert(out@[i] == old(out)@[i]);
                } else {
                    assert(rect_has(out@[old(out)@.len() as int], x, y));
                }
            }
        }
    } else {
        proof {
            assert forall|x: int, y: int| coord(x) && coord(y) && x0 <= x < x1 && y0 <= y < y1 implies false by {}
        }
    }
}

/// The pieces of `r` outside `s`, appended to `out`.
fn push_difference(out: &mut Vec<RegionRect>, r: RegionRect, s: RegionRect)
    ensures
        forall|x: int, y: int| #![trigger rects_have(final(out)@, x, y)] coord(x) && coord(y) ==>
            (rects_have(final(out)@, x, y) <==> (rects_have(old(out)@, x, y) || (rect_has(r, x, y) && !rect_has(s, x, y)))),
        forall|x: int, y: int| rects_have(final(out)@, x, y) ==> (rects_have(old(out)@, x, y) || rect_has(r, x, y)),
{
    let rx0 = r.x as i32;
    let ry0 = r.y as i32;
    let rx1 = r.x as i32 + r.width as i32;
    let ry1 = r.y as i32 + r.height as i32;
    let sx0 = s.x as i32;
    let sy0 = s.y as i32;
    let sx1 = s.x as i32 + s.width as i32;
    let sy1 = s.y as i32 + s.height as i32;
    if sx1 <= rx0 || rx1 <= sx0 || sy1 <= ry0 || ry1 <= sy0 {
        push_piece(out, rx0, ry0, rx1, ry1);
        return;
    }
    let my0 = if sy0 > ry0 { sy0 } else { ry0 };
    let my1 = if sy1 < ry1 { sy1 } else { ry1 };
    let ghost o0 = out@;
    push_piece(out, rx0, ry0, rx1, my0);
    let ghost o1 = out@;
    push_piece(out, rx0, my1, rx1, ry1);
    let ghost o2 = out@;
    let lx1 = if sx0 > rx0 { sx0 } else { rx0 };
    push_piece(out, rx0, my0, lx1, my1);
    let ghost o3 = out@;
    let gx0 = if sx1 < rx1 { sx1 } else { rx1 };
    push_piece(out, gx0, my0, rx1, my1);
}

/// The pixels of `pieces` outside `s`, as rectangles.
fn pieces_minus_rect(pieces: &Vec<RegionRect>, s: RegionRect) -> (next: Vec<RegionRect>)
    ensures
        forall|x: int, y: int| #![trigger rects_have(next@, x, y)] coord(x) && coord(y) ==>
            (rects_have(next@, x, y) <==> (rects_have(pieces@, x, y) && !rect_has(s, x, y))),
        forall|x: int, y: int| rects_have(next@, x, y) ==> rects_have(pieces@, x, y),
{
    let mut next: Vec<RegionRect> = Vec::new();
    let mut k: usize = 0;
    while k < pieces.len()
        invariant
            k <= pieces@.len(),
            forall|x: int, y: int| #![trigger rects_have(next@, x, y)] coord(x) && coord(y) ==>
                (rects_have(next@, x, y) <==> (rects_have(pieces@.subrange(0, k as int), x, y) && !rect_has(s, x, y))),
            forall|x: int, y: int| rects_have(next@, x, y) ==> rects_have(pieces@.subrange(0, k as int), x, y),
        decreases pieces@.len() - k,
    {
        let ghost before = next@;
        let ghost pre = pieces@.subrange(0, k as int);
        let ghost piece = pieces@[k as int];
        push_difference(&mut next, pieces[k], s);
        proof {
            lemma_rects_have_prefix(pieces@, k as int);
            let post = pieces@.subrange(0, k + 1);
            assert forall|x: int, y: int| coord(x) && coord(y) implies
                (rects_have(next@, x, y) <==> (rects_have(post, x, y) && !rect_has(s, x, y))) by {
                assert(rects_have(post, x, y) <==> (rects_have(pre, x, y) || rect_has(piece, x, y)));
                assert(rects_have(before, x, y) <==> (rects_have(pre, x, y) && !rect_has(s, x, y)));
            }
            assert forall|x: int, y: int| rects_have(next@, x, y) implies rects_have(post, x, y) by {
                assert(rects_have(post, x, y) <==> (rects_have(pre, x, y) || rect_has(piece, x, y)));
                if rects_have(before, x, y) {
                    assert(rects_have(pre, x, y));
                }
            }
        }
        k = k + 1;
    }
    proof {
        assert(pieces@.subrange(0, pieces@.len() as int) =~= pieces@);
    }
    next
}

/// The pixels of `r` outside every rectangle of `other`, as rectangles.
fn rect_minus_rects(r: RegionRect, other: &Vec<RegionRect>) -> (pieces: Vec<RegionRect>)
    ensures
        forall|x: int, y: int| #![trigger rects_have(pieces@, x, y)] coord(x) && coord(y) ==>
            (rects_have(pieces@, x, y) <==> (rect_has(r, x, y) && !rects_have(other@, x, y))),
        forall|x: int, y: int| rects_have(pieces@, x, y) ==> rect_has(r, x, y),
{
    let mut pieces: Vec<RegionRect> = Vec::new();
    pieces.push(r);
    proof {
        assert forall|x: int, y: int| rects_have(pieces@, x, y) <==> rect_has(r, x, y) by {
            if rect_has(r, x, y) {
                assert(rect_has(pieces@[0], x, y));
            }
        }
        assert forall|x: int, y: int| !rects_have(other@.subrange(0, 0), x, y) by {}
    }
    let mut j: usize = 0;
    while j < other.len()
        invariant
            j <= other@.len(),
            forall|x: int, y: int| #![trigger rects_have(pieces@, x, y)] coord(x) && coord(y) ==>
                (rects_have(pieces@, x, y) <==> (rect_has(r, x, y) && !rects_have(other@.subrange(0, j as int), x, y))),
            forall|x: int, y: int| rects_have(pieces@, x, y) ==> rect_has(r, x, y),
        decreases other@.len() - j,
    {
        let ghost before = pieces@;
        let ghost pre = other@.subrange(0, j as int);
        let s = other[j];
        let next = pieces_minus_rect(&pieces, s);
        proof {
            lemma_rects_have_prefix(other@, j as int);
            let post = other@.subrange(0, j + 1);
            assert forall|x: int, y: int| coord(x) && coord(y) implies
                (rects_have(next@, x, y) <==> (rect_has(r, x, y) && !rects_have(post, x, y))) by {
                assert(rects_have(post, x, y) <==> (rects_have(pre, x, y) || rect_has(s, x, y)));
                assert(rects_have(before, x, y) <==> (rect_has(r, x, y) && !rects_have(pre, x, y)));
            }
            assert forall|x: int, y: int| rects_have(next@, x, y) implies rect_has(r, x, y) by {
                assert(rects_have(before, x, y));
            }
        }
        pieces = next;
        j = j + 1;
    }
    proof {
        assert(other@.subrange(0, other@.len() as int) =~= other@);
    }
    pieces
}

/// Append rectangles.
fn append_rects(out: &mut Vec<RegionRect>, more: &Vec<RegionRect>)
    ensures
        forall|x: int, y: int| #![trigger rects_have(final(out)@, x, y)]
            rects_have(final(out)@, x, y) <==> (rects_have(old(out)@, x, y) || rects_have(more@, x, y)),
{
    let mut k: usize = 0;
    while k < more.len()
        invariant
            k <= more@.len(),
            forall|x: int, y: int| #![trigger rects_have(out@, x, y)] rects_have(out@, x, y) <==> (rects_have(old(out)@, x, y) || rects_have(more@.subrange(0, k as int), x, y)),
        decreases more@.len() - k,
    {
        let ghost before = out@;
        let ghost pre = more@.subrange(0, k as int);
        let ghost piece = more@[k as int];
        out.push(more[k]);
        proof {
            lemma_rects_have_prefix(more@, k as int);
            let post = more@.subrange(0, k + 1);
            assert forall|x: int, y: int| #![trigger rects_have(out@, x, y)] rects_have(out@, x, y) <==> (rects_have(old(out)@, x, y) || rects_have(post, x, y)) by {
                lemma_rects_have_push(before, piece, x, y);
                assert(rects_have(post, x, y) <==> (rects_have(pre, x, y) || rect_has(piece, x, y)));
            }
        }
        k = k + 1;
    }
    proof {
        assert(more@.subrange(0, more@.len() as int) =~= more@);
    }
}

impl XFixesRegion {
    /// The pixels of `self` outside `other`, as rectangles.
    pub fn subtract(&self, other: &XFixesRegion) -> (r: XFixesRegion)
        ensures
            forall|x: int, y: int| #![trigger rects_have(r.rects@, x, y)] coord(x) && coord(y) ==>
                (rects_have(r.rects@, x, y) <==> (rects_have(self.rects@, x, y) && !rects_have(other.rects@, x, y))),
            forall|x: int, y: int| rects_have(r.rects@, x, y) ==> rects_have(self.rects@, x, y),
    {
        let mut result: Vec<RegionRect> = Vec::new();
        proof {
            assert forall|x: int, y: int| !rects_have(self.rects@.subrange(0, 0), x, y) by {}
        }
        let mut i: usize = 0;
        while i < self.rects.len()
            invariant
                i <= self.rects@.len(),
                forall|x: int, y: int| #![trigger rects_have(result@, x, y)] coord(x) && coord(y) ==>
                    (rects_have(result@, x, y) <==> (rects_have(self.rects@.subrange(0, i as int), x, y) && !rects_have(other.rects@, x, y))),
                forall|x: int, y: int| rects_have(result@, x, y) ==> rects_have(self.rects@.subrange(0, i as int), x, y),
            decreases self.rects@.len() - i,
        {
            let ghost before = result@;
            let ghost pre = self.rects@.subrange(0, i as int);
            let ghost r = self.rects@[i as int];
            let pieces = rect_minus_rects(self.rects[i], &other.rects);
            append_rects(&mut result, &pieces);
            proof {
                lemma_rects_have_prefix(self.rects@, i as int);
                let post = self.rects@.subrange(0, i + 1);
                assert forall|x: int, y: int| coord(x) && coord(y) implies
                    (rects_have(result@, x, y) <==> (rects_have(post, x, y) && !rects_have(other.rects@, x, y))) by {
                    assert(rects_have(post, x, y) <==> (rects_have(pre, x, y) || rect_has(r, x, y)));
                    assert(rects_have(result@, x, y) <==> (rects_have(before, x, y) || rects_have(pieces@, x, y)));
                    assert(rects_have(before, x, y) <==> (rects_have(pre, x, y) && !rects_have(other.rects@, x, y)));
                    assert(rects_have(pieces@, x, y) <==> (rect_has(r, x, y) && !rects_have(other.rects@, x, y)));
                }
                assert forall|x: int, y: int| rects_have(result@, x, y) implies rects_have(post, x, y) by {
                    assert(rects_have(post, x, y) <==> (rects_have(pre, x, y) || rect_has(r, x, y)));
                    assert(rects_have(result@, x, y) <==> (rects_have(before, x, y) || rects_have(pieces@, x, y)));
                    if rects_have(pieces@, x, y) {
                        assert(rect_has(r, x, y));
                    }
                }
            }
            i = i + 1;
        }
        proof {
            assert(self.rects@.subrange(0, self.rects@.len() as int) =~= self.rects@);
        }
        XFixesRegion { rects: result }
    }
}

/// A pixel lies in the first `k + 1` rectangles when it lies in the first
/// `k` or in rectangle `k`.
proof fn lemma_rects_have_prefix(rects: Seq<RegionRect>, k: int)
    requires
        0 <= k < rects.len(),
    ensures
        forall|x: int, y: int| rects_have(rects.subrange(0, k + 1), x, y)
            <==> (rects_have(rects.subrange(0, k), x, y) || rect_has(rects[k], x, y)),
{
    assert forall|x: int, y: int| rects_have(rects.subrange(0, k + 1), x, y)
        <==> (rects_have(rects.subrange(0, k), x, y) || rect_has(rects[k], x, y)) by {
        let a = rects.subrange(0, k + 1);
        let b = rects.subrange(0, k);
        if rects_have(a, x, y) {
            let i = choose|i: int| 0 <= i < a.len() && rect_has(a[i], x, y);
            if i < k {
                assert(b[i] == a[i]);
            }
        }
        if rects_have(b, x, y) {
            let i = choose|i: int| 0 <= i < b.len() && rect_has(b[i], x, y);
            assert(a[i] == b[i]);
        }
        if rect_has(rects[k], x, y) {
            assert(a[k] == rects[k]);
        }
    }
}

/// A pixel lies in `rects` with `r` pushed when it lies in `rects` or `r`.
proof fn lemma_rects_have_push(rects: Seq<RegionRect>, r: RegionRect, x: int, y: int)
    ensures
        rects_have(rects.push(r), x, y) <==> (rects_have(rects, x, y) || rect_has(r, x, y)),
{
    let a = rects.push(r);
    if rects_have(a, x, y) {
        let i = choose|i: int| 0 <= i < a.len() && rect_has(a[i], x, y);
        if i < rects.len() {
            assert(rects[i] == a[i]);
        }
    }
    if rects_have(rects, x, y) {
        let i = choose|i: int| 0 <= i < rects.len() && rect_has(rects[i], x, y);
        assert(a[i] == rects[i]);
    }
    if rect_has(r, x, y) {
        assert(a[rects.len() as int] == r);
    }
}

/// The bounding box of non-empty `rects` as (min x, min y, max x end,
/// max y end).
pub open spec fn bbox(rects: Seq<RegionRect>) -> (int, int, int, int)
    decreases rects.len(),
{
    if rects.len() <= 1 {
        let r = rects[0];
        (r.x as int, r.y as int, r.x + r.width, r.y + r.height)
    } else {
        let (a, b, c, d) = bbox(rects.drop_last());
        let r = rects.last();
        (
            if r.x < a { r.x as int } else { a },
            if r.y < b { r.y as int } else { b },
            if r.x + r.width > c { r.x + r.width } else { c },
            if r.y + r.height > d { r.y + r.height } else { d },
        )
    }
}

/// The extents of a region: its bounding box, or an empty rectangle at the
/// origin for an empty region.
pub open spec fn extents_of(rects: Seq<RegionRect>) -> RegionRect {
    if rects.len() == 0 {
        RegionRect { x: 0, y: 0, width: 0, height: 0 }
    } else {
        let (a, b, c, d) = bbox(rects);
        RegionRect { x: a as i16, y: b as i16, width: (c - a) as u16, height: (d - b) as u16 }
    }
}

impl XFixesRegion {
    /// The bounding box of the region.
    pub fn extents(&self) -> (e: RegionRect)
        ensures
            e == extents_of(self.rects@),
    {
        if self.rects.len() == 0 {
            return RegionRect { x: 0, y: 0, width: 0, height: 0 };
        }
        let first = self.rects[0];
        let mut x0: i32 = first.x as i32;
        let mut y0: i32 = first.y as i32;
        let mut x1: i32 = first.x as i32 + first.width as i32;
        let mut y1: i32 = first.y as i32 + first.height as i32;
        let mut i: usize = 1;
        while i < self.rects.len()
            invariant
                1 <= i <= self.rects@.len(),
                bbox(self.rects@.subrange(0, i as int)) == (x0 as int, y0 as int, x1 as int, y1 as int),
                -32768 <= x0 <= 32767,
                -32768 <= y0 <= 32767,
                x1 <= 32767 + 65535,
                y1 <= 32767 + 65535,
            decreases self.rects@.len() - i,
        {
            let r = self.rects[i];
            proof {
                assert(self.rects@.subrange(0, i + 1).drop_last() =~= self.rects@.subrange(0, i as int));
            }
            if (r.x as i32) < x0 {
                x0 = r.x as i32;
            }
            if (r.y as i32) < y0 {
                y0 = r.y as i32;
            }
            if r.x as i32 + r.width as i32 > x1 {
                x1 = r.x as i32 + r.width as i32;
            }
            if r.y as i32 + r.height as i32 > y1 {
                y1 = r.y as i32 + r.height as i32;
            }
            i = i + 1;
        }
        proof {
            assert(self.rects@.subrange(0, self.rects@.len() as int) =~= self.rects@);
        }
        RegionRect { x: x0 as i16, y: y0 as i16, width: (x1 - x0) as u16, height: (y1 - y0) as u16 }
    }

    /// A copy of the region.
    pub fn copy(&self) -> (r: XFixesRegion)
        ensures
            r.rects@ == self.rects@,
    {
        let empty = XFixesRegion::new();
        let r = self.union(&empty);
        assert(r.rects@ =~= self.rects@);
        r
    }
}

/// Every pixel of a region lies within the region's bounding box.
proof fn lemma_bbox_contains(rects: Seq<RegionRect>, x: int, y: int)
    requires
        rects_have(rects, x, y),
    ensures
        bbox(rects).0 <= x < bbox(rects).2,
        bbox(rects).1 <= y < bbox(rects).3,
    decreases rects.len(),
{
    let i = choose|i: int| 0 <= i < rects.len() && rect_has(rects[i], x, y);
    if rects.len() > 1 {
        if i < rects.len() - 1 {
            assert(rects.drop_last()[i] == rects[i]);
            lemma_bbox_contains(rects.drop_last(), x, y);
        } else {
            if rects_have(rects.drop_last(), x, y) {
                lemma_bbox_contains(rects.drop_last(), x, y);
            }
        }
    }
}

/// The bounding box starts at a 16-bit position.
proof fn lemma_bbox_origin(rects: Seq<RegionRect>)
    requires
        rects.len() > 0,
    ensures
        coord(bbox(rects).0),
        coord(bbox(rects).1),
    decreases rects.len(),
{
    if rects.len() > 1 {
        lemma_bbox_origin(rects.drop_last());
    }
}

/// Every pixel of a region lies within its extents, when the extents'
/// width and height fit 16 bits.
pub proof fn extents_cover_region(rects: Seq<RegionRect>, x: int, y: int)
    requires
        rects_have(rects, x, y),
        bbox(rects).2 - bbox(rects).0 <= 65535,
        bbox(rects).3 - bbox(rects).1 <= 65535,
    ensures
        rect_has(extents_of(rects), x, y),
{
    lemma_bbox_contains(rects, x, y);
    lemma_bbox_origin(rects);
}

/// Subtracting a region and adding it back covers every pixel of the
/// original region (at 16-bit positions).
pub proof fn subtract_then_union_covers(a: Seq<RegionRect>, b: Seq<RegionRect>, rest: Seq<RegionRect>, x: int, y: int)
    requires
        forall|x: int, y: int| #![trigger rects_have(rest, x, y)] coord(x) && coord(y) ==>
            (rects_have(rest, x, y) <==> (rects_have(a, x, y) && !rects_have(b, x, y))),
        coord(x),
        coord(y),
        rects_have(a, x, y),
    ensures
        rects_have(rest + b, x, y),
{
    let u = rest + b;
    if rects_have(rest, x, y) {
        let i = choose|i: int| 0 <= i < rest.len() && rect_has(rest[i], x, y);
        assert(u[i] == rest[i]);
    } else {
        let j = choose|j: int| 0 <= j < b.len() && rect_has(b[j], x, y);
        assert(u[rest.len() + j] == b[j]);
    }
}

} // verus!
