//! The integer side of stitching two images into one panorama.
//!
//! The corners of the first image, mapped by the homography into the frame
//! of the second, together with the corners of the second image, span the
//! panorama. The panorama is shifted so that this span starts at the
//! origin, and the second image is copied in at the shifted origin.
use vstd::prelude::*;
use crate::geometry::{Point, Rect, Size, fits_i32, min};

verus! {

/// The four corners of an image of the given width, as a quadrilateral:
/// top-left, bottom-left, bottom-right, top-right. The left and the right
/// edge are given their own heights.
pub fn quad_corners(width: i32, left_height: i32, right_height: i32) -> (c: Vec<Point>)
    requires
        width > i32::MIN,
        left_height > i32::MIN,
        right_height > i32::MIN,
    ensures
        c@ == seq![
            Point { x: 0, y: 0 },
            Point { x: 0, y: (left_height - 1) as i32 },
            Point { x: (width - 1) as i32, y: (right_height - 1) as i32 },
            Point { x: (width - 1) as i32, y: 0 },
        ],
{
    let mut c: Vec<Point> = Vec::new();
    c.push(Point { x: 0, y: 0 });
    c.push(Point { x: 0, y: left_height - 1 });
    c.push(Point { x: width - 1, y: right_height - 1 });
    c.push(Point { x: width - 1, y: 0 });
    assert(c@ =~= seq![
        Point { x: 0, y: 0 },
        Point { x: 0, y: (left_height - 1) as i32 },
        Point { x: (width - 1) as i32, y: (right_height - 1) as i32 },
        Point { x: (width - 1) as i32, y: 0 },
    ]);
    c
}

/// The smallest and largest coordinates of a set of points.
#[derive(Clone, Copy, Debug, PartialEq, Eq, Structural)]
pub struct Extent {
    pub min_x: i32,
    pub min_y: i32,
    pub max_x: i32,
    pub max_y: i32,
}

/// `e` is the extent of the points: every point lies within it and each
/// bound is reached by some point. The extent of no points starts from the
/// extreme values (`min_*` at `i32::MAX`, `max_*` at `i32::MIN`).
pub open spec fn is_extent(e: Extent, pts: Seq<Point>) -> bool {
    &&& forall|i: int|
        0 <= i < pts.len() ==> e.min_x <= (#[trigger] pts[i]).x <= e.max_x && e.min_y <= pts[i].y
            <= e.max_y
    &&& pts.len() == 0 ==> e == (Extent {
        min_x: i32::MAX,
        min_y: i32::MAX,
        max_x: i32::MIN,
        max_y: i32::MIN,
    })
    &&& pts.len() > 0 ==> {
        &&& exists|i: int| 0 <= i < pts.len() && pts[i].x == e.min_x
        &&& exists|i: int| 0 <= i < pts.len() && pts[i].y == e.min_y
        &&& exists|i: int| 0 <= i < pts.len() && pts[i].x == e.max_x
        &&& exists|i: int| 0 <= i < pts.len() && pts[i].y == e.max_y
    }
}

/// The extent of the points.
pub fn extent(pts: &Vec<Point>) -> (e: Extent)
    ensures
        is_extent(e, pts@),
{
    let mut e = Extent { min_x: i32::MAX, min_y: i32::MAX, max_x: i32::MIN, max_y: i32::MIN };
    let mut i: usize = 0;
    while i < pts.len()
        invariant
            i <= pts@.len(),
            is_extent(e, pts@.take(i as int)),
        decreases pts@.len() - i,
    {
        let p = pts[i];
        let ghost pre = pts@.take(i as int);
        let ghost old_e = e;
        if e.min_x > p.x {
            e.min_x = p.x;
        }
        if e.max_x < p.x {
            e.max_x = p.x;
        }
        if e.min_y > p.y {
            e.min_y = p.y;
        }
        if e.max_y < p.y {
            e.max_y = p.y;
        }
        proof {
            let nxt = pts@.take(i as int + 1);
            assert(nxt =~= pre.push(p));
            assert(nxt[i as int] == p);
            assert forall|j: int| 0 <= j < nxt.len() implies e.min_x <= (#[trigger] nxt[j]).x <= e.max_x
                && e.min_y <= nxt[j].y <= e.max_y by {
                if j < i {
                    assert(nxt[j] == pre[j]);
                }
            }
            if i == 0 {
                assert(e.min_x == p.x && e.max_x == p.x && e.min_y == p.y && e.max_y == p.y);
            } else {
                if e.min_x != p.x {
                    let j = choose|j: int| 0 <= j < pre.len() && pre[j].x == old_e.min_x;
                    assert(nxt[j] == pre[j]);
                }
                if e.max_x != p.x {
                    let j = choose|j: int| 0 <= j < pre.len() && pre[j].x == old_e.max_x;
                    assert(nxt[j] == pre[j]);
                }
                if e.min_y != p.y {
                    let j = choose|j: int| 0 <= j < pre.len() && pre[j].y == old_e.min_y;
                    assert(nxt[j] == pre[j]);
                }
                if e.max_y != p.y {
                    let j = choose|j: int| 0 <= j < pre.len() && pre[j].y == old_e.max_y;
                    assert(nxt[j] == pre[j]);
                }
            }
        }
        i = i + 1;
    }
    assert(pts@.take(pts@.len() as int) =~= pts@);
    e
}

/// Where the two images go on the panorama.
#[derive(Clone, Copy, Debug, PartialEq, Eq, Structural)]
pub struct StitchPlan {
    /// The size of the panorama.
    pub canvas: Size,
    /// The shift applied to the frame of the second image.
    pub offset: Point,
    /// The area of the panorama that receives the second image.
    pub canvas_roi: Rect,
    /// The area of the second image that is copied.
    pub source_roi: Rect,
}

/// Whether the plan for this extent is computable in `i32`.
pub open spec fn plan_fits(e: Extent) -> bool {
    &&& fits_i32(e.max_x - e.min_x)
    &&& fits_i32(e.max_y - e.min_y)
    &&& e.min_x > i32::MIN
    &&& e.min_y > i32::MIN
}

/// The plan for a panorama spanning `e`, when the second image has the
/// given size: the panorama is as large as the extent, everything is shifted
/// by minus its top-left corner, and the second image is copied at the
/// shifted origin, cut to at most `max_x` by `max_y`.
pub open spec fn plan_spec(e: Extent, width2: i32, height2: i32) -> StitchPlan {
    let w = min(width2 as int, e.max_x as int) as i32;
    let h = min(height2 as int, e.max_y as int) as i32;
    StitchPlan {
        canvas: Size { width: (e.max_x - e.min_x) as i32, height: (e.max_y - e.min_y) as i32 },
        offset: Point { x: -e.min_x as i32, y: -e.min_y as i32 },
        canvas_roi: Rect { x: -e.min_x as i32, y: -e.min_y as i32, width: w, height: h },
        source_roi: Rect { x: 0, y: 0, width: w, height: h },
    }
}

/// The plan for a panorama spanning `e`.
pub fn stitch_plan(e: &Extent, width2: i32, height2: i32) -> (p: StitchPlan)
    requires
        plan_fits(*e),
    ensures
        p == plan_spec(*e, width2, height2),
{
    let w = if width2 <= e.max_x {
        width2
    } else {
        e.max_x
    };
    let h = if height2 <= e.max_y {
        height2
    } else {
        e.max_y
    };
    StitchPlan {
        canvas: Size { width: e.max_x - e.min_x, height: e.max_y - e.min_y },
        offset: Point { x: -e.min_x, y: -e.min_y },
        canvas_roi: Rect { x: -e.min_x, y: -e.min_y, width: w, height: h },
        source_roi: Rect { x: 0, y: 0, width: w, height: h },
    }
}

/// When the span includes the origin of the second image, the copied area
/// lies inside the second image and the area that receives it lies inside
/// the panorama.
pub proof fn lemma_plan_inside(pts: Seq<Point>, e: Extent, width2: i32, height2: i32)
    requires
        is_extent(e, pts),
        pts.contains(Point { x: 0, y: 0 }),
        plan_fits(e),
        0 <= width2,
        0 <= height2,
    ensures
        ({
            let p = plan_spec(e, width2, height2);
            &&& 0 <= p.source_roi.width <= width2
            &&& 0 <= p.source_roi.height <= height2
            &&& 0 <= p.canvas_roi.x
            &&& 0 <= p.canvas_roi.y
            &&& p.canvas_roi.x + p.canvas_roi.width <= p.canvas.width
            &&& p.canvas_roi.y + p.canvas_roi.height <= p.canvas.height
        }),
{
    let j = choose|j: int| 0 <= j < pts.len() && pts[j] == Point { x: 0, y: 0 };
    assert(e.min_x <= pts[j].x <= e.max_x);
}

} // verus!
