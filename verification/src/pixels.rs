//! Per-pixel rules on image data held as plain values, row by row.
//!
//! - The mask that a foreground cut returns labels each pixel as background
//!   (0), foreground (1), probable background (2) or probable foreground (3);
//!   it is turned into a black-and-white mask of the foreground.
//! - Before a watershed segmentation, the connected-component labels become
//!   markers: pixels of the unknown area get 0, every other label moves up by
//!   one so that the background is 1; after the segmentation, the boundary
//!   pixels (marker -1) are painted.
//! - A single-channel plane can have a rectangle filled with one value.
use vstd::prelude::*;
use crate::geometry::Rect;

verus! {

/// A colour pixel, in blue-green-red order.
#[derive(Clone, Copy, Debug, PartialEq, Eq, Structural)]
pub struct Bgr {
    pub b: u8,
    pub g: u8,
    pub r: u8,
}

/// The value of a cut-mask pixel in the black-and-white foreground mask:
/// 255 for foreground and probable foreground, 0 otherwise.
pub open spec fn foreground_value(label: u8) -> u8 {
    if label == 1 || label == 3 {
        255
    } else {
        0
    }
}

/// Turns a cut mask into a black-and-white mask of the foreground, in place.
pub fn binarize_cut_mask(mask: &mut Vec<u8>)
    ensures
        final(mask)@.len() == old(mask)@.len(),
        forall|i: int|
            0 <= i < old(mask)@.len() ==> #[trigger] final(mask)@[i] == foreground_value(
                old(mask)@[i],
            ),
{
    let n = mask.len();
    let mut i: usize = 0;
    while i < n
        invariant
            n == old(mask)@.len() == mask@.len(),
            i <= n,
            forall|j: int| 0 <= j < i ==> #[trigger] mask@[j] == foreground_value(old(mask)@[j]),
            forall|j: int| i <= j < n ==> #[trigger] mask@[j] == old(mask)@[j],
        decreases n - i,
    {
        let p = mask[i];
        if p == 1 || p == 3 {
            mask.set(i, 255);
        } else {
            mask.set(i, 0);
        }
        i = i + 1;
    }
}

/// The marker a pixel starts the segmentation with: 0 in the unknown area
/// (where `unknown` is 255), the component label plus one elsewhere.
pub open spec fn marker_value(unknown: u8, label: i32) -> i32 {
    if unknown == 255 {
        0
    } else {
        (label + 1) as i32
    }
}

/// Turns component labels into segmentation markers, in place.
pub fn prepare_markers(unknown: &Vec<u8>, markers: &mut Vec<i32>)
    requires
        unknown@.len() == old(markers)@.len(),
        forall|i: int|
            0 <= i < unknown@.len() && unknown@[i] != 255 ==> #[trigger] old(markers)@[i] < i32::MAX,
    ensures
        final(markers)@.len() == old(markers)@.len(),
        forall|i: int|
            0 <= i < unknown@.len() ==> #[trigger] final(markers)@[i] == marker_value(
                unknown@[i],
                old(markers)@[i],
            ),
{
    let n = markers.len();
    let mut i: usize = 0;
    while i < n
        invariant
            n == old(markers)@.len() == markers@.len() == unknown@.len(),
            i <= n,
            forall|j: int|
                0 <= j < n && unknown@[j] != 255 ==> #[trigger] old(markers)@[j] < i32::MAX,
            forall|j: int|
                0 <= j < i ==> #[trigger] markers@[j] == marker_value(unknown@[j], old(markers)@[j]),
            forall|j: int| i <= j < n ==> #[trigger] markers@[j] == old(markers)@[j],
        decreases n - i,
    {
        if unknown[i] == 255 {
            markers.set(i, 0);
        } else {
            let m = markers[i];
            markers.set(i, m + 1);
        }
        i = i + 1;
    }
}

/// Paints with `color` the pixels whose segmentation marker is -1 (the
/// boundaries between regions), in place.
pub fn paint_boundaries(markers: &Vec<i32>, pixels: &mut Vec<Bgr>, color: Bgr)
    requires
        markers@.len() == old(pixels)@.len(),
    ensures
        final(pixels)@.len() == old(pixels)@.len(),
        forall|i: int|
            0 <= i < markers@.len() ==> #[trigger] final(pixels)@[i] == (if markers@[i] == -1 {
                color
            } else {
                old(pixels)@[i]
            }),
{
    let n = pixels.len();
    let mut i: usize = 0;
    while i < n
        invariant
            n == old(pixels)@.len() == pixels@.len() == markers@.len(),
            i <= n,
            forall|j: int|
                0 <= j < i ==> #[trigger] pixels@[j] == (if markers@[j] == -1 {
                    color
                } else {
                    old(pixels)@[j]
                }),
            forall|j: int| i <= j < n ==> #[trigger] pixels@[j] == old(pixels)@[j],
        decreases n - i,
    {
        if markers[i] == -1 {
            pixels.set(i, color);
        }
        i = i + 1;
    }
}

/// A rectangle reaches outside the plane it is drawn on.
#[derive(Clone, Copy, Debug, PartialEq, Eq, Structural)]
pub struct OutOfBounds {
    pub rect: Rect,
}

/// A single-channel image of bytes, stored row by row.
pub struct Plane {
    width: usize,
    height: usize,
    data: Vec<u8>,
}

proof fn lemma_index_in_bounds(x: int, y: int, w: int, h: int)
    requires
        0 <= x < w,
        0 <= y < h,
    ensures
        0 <= y * w + x < w * h,
{
    assert(0 <= y * w + x < w * h) by (nonlinear_arith)
        requires
            0 <= x < w,
            0 <= y < h,
    ;
}

proof fn lemma_index_unique(x1: int, y1: int, x2: int, y2: int, w: int)
    requires
        0 <= x1 < w,
        0 <= x2 < w,
        0 <= y1,
        0 <= y2,
        y1 * w + x1 == y2 * w + x2,
    ensures
        x1 == x2,
        y1 == y2,
{
    if y1 < y2 {
        assert(y1 * w + x1 < y2 * w + x2) by (nonlinear_arith)
            requires
                0 <= x1 < w,
                0 <= x2,
                y1 < y2,
        ;
    } else if y2 < y1 {
        assert(y2 * w + x2 < y1 * w + x1) by (nonlinear_arith)
            requires
                0 <= x2 < w,
                0 <= x1,
                y2 < y1,
        ;
    }
}

/// `rect` has at least one pixel and lies inside a `width` by `height`
/// plane.
pub open spec fn rect_inside(rect: Rect, width: int, height: int) -> bool {
    &&& 0 <= rect.x
    &&& 0 <= rect.y
    &&& rect.x + rect.width <= width
    &&& rect.y + rect.height <= height
}

/// The pixel `(x, y)` lies in `rect`.
pub open spec fn in_rect(rect: Rect, x: int, y: int) -> bool {
    rect.x <= x < rect.x + rect.width && rect.y <= y < rect.y + rect.height
}

impl Plane {
    #[verifier::type_invariant]
    spec fn inv(self) -> bool {
        self.data@.len() == self.width * self.height
    }

    pub closed spec fn spec_width(&self) -> nat {
        self.width as nat
    }

    pub closed spec fn spec_height(&self) -> nat {
        self.height as nat
    }

    /// The value of the pixel in column `x` and row `y`.
    pub closed spec fn spec_at(&self, x: int, y: int) -> u8 {
        self.data@[y * self.width + x]
    }

    /// The bytes of the plane, row by row.
    pub closed spec fn spec_data(&self) -> Seq<u8> {
        self.data@
    }

    /// A plane of the given size with every pixel set to `value`; `None`
    /// when the number of pixels does not fit in memory indices.
    pub fn filled(width: usize, height: usize, value: u8) -> (p: Option<Plane>)
        ensures
            (width as int) * (height as int) <= usize::MAX <==> p is Some,
            p matches Some(p) ==> {
                &&& p.spec_width() == width
                &&& p.spec_height() == height
                &&& forall|x: int, y: int|
                    0 <= x < width && 0 <= y < height ==> #[trigger] p.spec_at(x, y) == value
            },
    {
        let n = match width.checked_mul(height) {
            Some(n) => n,
            None => return None,
        };
        let mut data: Vec<u8> = Vec::new();
        let mut i: usize = 0;
        while i < n
            invariant
                i <= n,
                data@.len() == i,
                forall|j: int| 0 <= j < i ==> #[trigger] data@[j] == value,
            decreases n - i,
        {
            data.push(value);
            i = i + 1;
        }
        let p = Plane { width, height, data };
        proof {
            assert forall|x: int, y: int| 0 <= x < width && 0 <= y < height implies #[trigger] p.spec_at(
                x,
                y,
            ) == value by {
                lemma_index_in_bounds(x, y, width as int, height as int);
            }
        }
        Some(p)
    }

    /// A plane of the given size holding `data`, row by row; `None` when
    /// `data` does not hold exactly `width * height` bytes.
    pub fn from_data(width: usize, height: usize, data: Vec<u8>) -> (p: Option<Plane>)
        ensures
            (data@.len() == (width as int) * (height as int)) <==> p is Some,
            p matches Some(p) ==> {
                &&& p.spec_width() == width
                &&& p.spec_height() == height
                &&& p.spec_data() == data@
            },
    {
        match width.checked_mul(height) {
            Some(n) => {
                if n == data.len() {
                    Some(Plane { width, height, data })
                } else {
                    None
                }
            },
            None => {
                let l = data.len();
                assert(l as int != (width as int) * (height as int));
                None
            },
        }
    }

    /// The bytes of the plane, row by row.
    pub fn into_data(self) -> (d: Vec<u8>)
        ensures
            d@ == self.spec_data(),
            d@.len() == self.spec_width() * self.spec_height(),
    {
        proof {
            use_type_invariant(&self);
        }
        self.data
    }

    pub fn width(&self) -> (w: usize)
        ensures
            w == self.spec_width(),
    {
        self.width
    }

    pub fn height(&self) -> (h: usize)
        ensures
            h == self.spec_height(),
    {
        self.height
    }

    /// The pixel in column `x` and row `y`.
    pub fn get(&self, x: usize, y: usize) -> (v: u8)
        requires
            x < self.spec_width(),
            y < self.spec_height(),
        ensures
            v == self.spec_at(x as int, y as int),
    {
        proof {
            use_type_invariant(self);
            lemma_index_in_bounds(x as int, y as int, self.width as int, self.height as int);
        }
        let n = self.data.len();
        assert(y * self.width + x < n);
        self.data[y * self.width + x]
    }

    /// Sets every pixel of `rect` to `value`. When the rectangle has pixels
    /// outside the plane, the plane is left unchanged and the rectangle is
    /// reported.
    pub fn fill_rect(&mut self, rect: Rect, value: u8) -> (res: Result<(), OutOfBounds>)
        ensures
            final(self).spec_width() == old(self).spec_width(),
            final(self).spec_height() == old(self).spec_height(),
            res is Err <==> (rect.width > 0 && rect.height > 0 && !rect_inside(
                rect,
                old(self).spec_width() as int,
                old(self).spec_height() as int,
            )),
            res matches Err(e) ==> e.rect == rect && final(self).spec_data() == old(self).spec_data(),
            res is Ok ==> forall|x: int, y: int|
                0 <= x < old(self).spec_width() && 0 <= y < old(self).spec_height()
                    ==> #[trigger] final(self).spec_at(x, y) == (if in_rect(rect, x, y) {
                    value
                } else {
                    old(self).spec_at(x, y)
                }),
    {
        proof {
            use_type_invariant(&*self);
        }
        if rect.width <= 0 || rect.height <= 0 {
            return Ok(());
        }
        if rect.x < 0 || rect.y < 0 || (rect.x as i128) + (rect.width as i128) > self.width as i128
            || (rect.y as i128) + (rect.height as i128) > self.height as i128 {
            return Err(OutOfBounds { rect });
        }
        let w = self.width;
        let h = self.height;
        assert(0 < w);
        let x0 = rect.x as usize;
        let y0 = rect.y as usize;
        let x1 = x0 + rect.width as usize;
        let y1 = y0 + rect.height as usize;
        let n = self.data.len();
        let ghost old_data = self.data@;
        let mut out: Vec<u8> = Vec::new();
        let mut i: usize = 0;
        while i < n
            invariant
                n == w * h == old_data.len(),
                self.data@ == old_data,
                self.width == w,
                0 < w,
                i <= n,
                x0 == rect.x,
                y0 == rect.y,
                x1 == rect.x + rect.width,
                y1 == rect.y + rect.height,
                out@.len() == i,
                forall|j: int|
                    0 <= j < i ==> #[trigger] out@[j] == (if in_rect(rect, j % (w as int), j / (w as int)) {
                        value
                    } else {
                        old_data[j]
                    }),
            decreases n - i,
        {
            let px = i % w;
            let py = i / w;
            let inside = x0 <= px && px < x1 && y0 <= py && py < y1;
            if inside {
                out.push(value);
            } else {
                out.push(self.data[i]);
            }
            i = i + 1;
        }
        proof {
            assert forall|x: int, y: int| 0 <= x < w && 0 <= y < h implies #[trigger] out@[y * w + x] == (
            if in_rect(rect, x, y) {
                value
            } else {
                old_data[y * w + x]
            }) by {
                lemma_index_in_bounds(x, y, w as int, h as int);
                vstd::arithmetic::div_mod::lemma_fundamental_div_mod_converse(y * w + x, w as int, y, x);
            }
        }
        self.data = out;
        Ok(())
    }
}

} // verus!
