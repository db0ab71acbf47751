//! Plotting a histogram as a polyline: bin `i` is drawn at
//! `x = bin_width * i`, and its (already scaled) value `v` at
//! `y = canvas_height - v`, so that larger values rise higher on the canvas.
//! Consecutive bins are joined by segments.
use vstd::prelude::*;
use crate::geometry::{Point, fits_i32};

verus! {

/// The point of bin `i` with value `v`.
pub open spec fn bin_point(bin_width: int, canvas_height: int, i: int, v: int) -> Point {
    Point { x: (bin_width * i) as i32, y: (canvas_height - v) as i32 }
}

/// The polyline of the values can be computed in `i32`.
pub open spec fn plot_fits(values: Seq<i32>, bin_width: int, canvas_height: int) -> bool {
    &&& 0 <= bin_width
    &&& values.len() <= i32::MAX
    &&& bin_width * values.len() <= i32::MAX
    &&& forall|i: int| 0 <= i < values.len() ==> fits_i32(canvas_height - #[trigger] values[i])
}

/// The segments joining the points of consecutive bins: segment `k` goes
/// from bin `k` to bin `k + 1`.
pub fn histogram_segments(values: &Vec<i32>, bin_width: i32, canvas_height: i32) -> (segs: Vec<(Point, Point)>)
    requires
        plot_fits(values@, bin_width as int, canvas_height as int),
    ensures
        segs@.len() == (if values@.len() == 0 {
            0
        } else {
            values@.len() - 1
        }),
        forall|k: int|
            0 <= k < segs@.len() ==> #[trigger] segs@[k] == (
                bin_point(bin_width as int, canvas_height as int, k, values@[k] as int),
                bin_point(bin_width as int, canvas_height as int, k + 1, values@[k + 1] as int),
            ),
{
    let mut segs: Vec<(Point, Point)> = Vec::new();
    let n = values.len();
    if n == 0 {
        return segs;
    }
    let mut i: usize = 1;
    while i < n
        invariant
            1 <= i <= n == values@.len(),
            plot_fits(values@, bin_width as int, canvas_height as int),
            segs@.len() == i - 1,
            forall|k: int|
                0 <= k < segs@.len() ==> #[trigger] segs@[k] == (
                    bin_point(bin_width as int, canvas_height as int, k, values@[k] as int),
                    bin_point(bin_width as int, canvas_height as int, k + 1, values@[k + 1] as int),
                ),
        decreases n - i,
    {
        assert(0 <= bin_width * (i - 1) <= bin_width * i <= bin_width * n) by (nonlinear_arith)
            requires
                0 <= bin_width,
                1 <= i <= n,
        ;
        let ii = i as i32;
        let from = Point { x: bin_width * (ii - 1), y: canvas_height - values[i - 1] };
        let to = Point { x: bin_width * ii, y: canvas_height - values[i] };
        segs.push((from, to));
        i = i + 1;
    }
    segs
}

} // verus!
