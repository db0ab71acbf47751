//! Locating the digit groups of a card number among the bounding
//! rectangles of the contours found on the card.
//!
//! The embossed number is printed as four groups of digits that have nearly
//! the same size. Among the bounding rectangles, in the order the contour
//! search returns them, the first run of four consecutive rectangles of
//! similar size is taken as the number.
use vstd::prelude::*;
use crate::geometry::{Rect, abs};

verus! {

/// Widths and heights of `a` and `b` each differ by less than `tolerance`.
pub open spec fn similar_size(a: Rect, b: Rect, tolerance: int) -> bool {
    &&& abs(a.width - b.width) < tolerance
    &&& abs(a.height - b.height) < tolerance
}

/// The four rectangles starting at `i` form a run: each one has nearly the
/// size of the next.
pub open spec fn group_at(rects: Seq<Rect>, i: int, tolerance: int) -> bool {
    &&& 0 <= i
    &&& i + 3 < rects.len()
    &&& similar_size(rects[i], rects[i + 1], tolerance)
    &&& similar_size(rects[i + 1], rects[i + 2], tolerance)
    &&& similar_size(rects[i + 2], rects[i + 3], tolerance)
}

/// Whether two rectangles have nearly the same size.
pub fn sizes_similar(a: &Rect, b: &Rect, tolerance: i32) -> (res: bool)
    ensures
        res == similar_size(*a, *b, tolerance as int),
{
    let dw = (a.width as i64) - (b.width as i64);
    let dh = (a.height as i64) - (b.height as i64);
    let dw = if dw < 0 {
        -dw
    } else {
        dw
    };
    let dh = if dh < 0 {
        -dh
    } else {
        dh
    };
    dw < tolerance as i64 && dh < tolerance as i64
}

/// The index of the first rectangle of the first run of four consecutive
/// rectangles of similar size, or `None` when there is no such run.
pub fn find_digit_group(rects: &Vec<Rect>, tolerance: i32) -> (res: Option<usize>)
    ensures
        match res {
            Some(i) => {
                &&& group_at(rects@, i as int, tolerance as int)
                &&& forall|j: int| 0 <= j < i ==> !group_at(rects@, j, tolerance as int)
            },
            None => forall|j: int| !group_at(rects@, j, tolerance as int),
        },
{
    let len = rects.len();
    if len == 0 {
        return None;
    }
    // `prev` is the rectangle compared with the current one; `run` counts the
    // similar pairs that end at `prev`.
    let mut prev: usize = 0;
    let mut run: usize = 0;
    let mut index: usize = 1;
    while index < len
        invariant
            len == rects@.len(),
            1 <= index <= len,
            prev == index - 1,
            run <= 2,
            run <= index - 1,
            forall|k: int|
                0 <= k < run ==> similar_size(
                    #[trigger] rects@[index - 2 - k],
                    rects@[index - 1 - k],
                    tolerance as int,
                ),
            run < index - 1 ==> !similar_size(
                rects@[index - 2 - run],
                rects@[index - 1 - run],
                tolerance as int,
            ),
            forall|j: int| 0 <= j && j + 3 <= index - 1 ==> !group_at(rects@, j, tolerance as int),
        decreases len - index,
    {
        if sizes_similar(&rects[prev], &rects[index], tolerance) {
            run = run + 1;
            if run == 3 {
                assert(similar_size(rects@[index - 2 - 1], rects@[index - 1 - 1], tolerance as int));
                assert(similar_size(rects@[index - 2 - 0], rects@[index - 1 - 0], tolerance as int));
                return Some(index - 3);
            }
            assert forall|k: int| 0 <= k < run implies similar_size(
                #[trigger] rects@[index + 1 - 2 - k],
                rects@[index + 1 - 1 - k],
                tolerance as int,
            ) by {
                if k > 0 {
                    assert(rects@[index + 1 - 2 - k] == rects@[index - 2 - (k - 1)]);
                }
            }
        } else {
            run = 0;
        }
        prev = index;
        index = index + 1;
    }
    None
}

/// The rectangles `rects[lo..hi]` in reverse order. The contour search
/// returns the digits right to left; reversing puts them left to right.
pub fn reverse_range(rects: &Vec<Rect>, lo: usize, hi: usize) -> (res: Vec<Rect>)
    requires
        lo <= hi <= rects@.len(),
    ensures
        res@ == rects@.subrange(lo as int, hi as int).reverse(),
{
    let mut res: Vec<Rect> = Vec::new();
    let mut i = hi;
    while i > lo
        invariant
            lo <= i <= hi <= rects@.len(),
            res@ == rects@.subrange(i as int, hi as int).reverse(),
        decreases i,
    {
        i = i - 1;
        res.push(rects[i]);
        assert(res@ =~= rects@.subrange(i as int, hi as int).reverse());
    }
    res
}

/// The four rectangles of the first digit group, left to right, or `None`
/// when the rectangles hold no group.
pub fn digit_group(rects: &Vec<Rect>, tolerance: i32) -> (res: Option<Vec<Rect>>)
    ensures
        match res {
            Some(g) => exists|i: int|
                {
                    &&& group_at(rects@, i, tolerance as int)
                    &&& (forall|j: int| 0 <= j < i ==> !group_at(rects@, j, tolerance as int))
                    &&& g@ == rects@.subrange(i, i + 4).reverse()
                },
            None => forall|j: int| !group_at(rects@, j, tolerance as int),
        },
{
    let len = rects.len();
    match find_digit_group(rects, tolerance) {
        Some(i) => {
            assert(group_at(rects@, i as int, tolerance as int));
            assert(i + 4 <= len);
            let g = reverse_range(rects, i, i + 4);
            Some(g)
        },
        None => None,
    }
}

} // verus!
