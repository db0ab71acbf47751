//! The layout of an on-screen calculator: a display box with a 4 x 4 grid
//! of square buttons right below it.
//!
//! ```text
//!   7 8 9 *
//!   4 5 6 -
//!   1 2 3 +
//!   0 / . =
//! ```
use vstd::prelude::*;
use crate::geometry::{Point, Rect, fits_i32};

verus! {

/// A labelled area of the calculator.
#[derive(Clone, Copy, Debug)]
pub struct CalcButton {
    pub label: &'static str,
    pub rect: Rect,
}

/// The label of the button in row `row` and column `col` of the grid.
pub open spec fn label_spec(row: int, col: int) -> Seq<char> {
    if row == 0 {
        if col == 0 { "7"@ } else if col == 1 { "8"@ } else if col == 2 { "9"@ } else { "*"@ }
    } else if row == 1 {
        if col == 0 { "4"@ } else if col == 1 { "5"@ } else if col == 2 { "6"@ } else { "-"@ }
    } else if row == 2 {
        if col == 0 { "1"@ } else if col == 1 { "2"@ } else if col == 2 { "3"@ } else { "+"@ }
    } else {
        if col == 0 { "0"@ } else if col == 1 { "/"@ } else if col == 2 { "."@ } else { "="@ }
    }
}

/// The label of the button in row `row` and column `col`.
pub fn button_label(row: usize, col: usize) -> (s: &'static str)
    requires
        row < 4,
        col < 4,
    ensures
        s@ == label_spec(row as int, col as int),
{
    if row == 0 {
        if col == 0 { "7" } else if col == 1 { "8" } else if col == 2 { "9" } else { "*" }
    } else if row == 1 {
        if col == 0 { "4" } else if col == 1 { "5" } else if col == 2 { "6" } else { "-" }
    } else if row == 2 {
        if col == 0 { "1" } else if col == 1 { "2" } else if col == 2 { "3" } else { "+" }
    } else {
        if col == 0 { "0" } else if col == 1 { "/" } else if col == 2 { "." } else { "=" }
    }
}

/// The side of a button: a quarter of the calculator's width.
pub open spec fn button_side(width: int) -> int {
    width / 4
}

/// The square of button `k` (row `k / 4`, column `k % 4`) of a calculator
/// whose display box has its top-left corner at `(x, y)`, the given width
/// and the given height.
pub open spec fn button_rect(x: int, y: int, width: int, display_h: int, k: int) -> Rect {
    Rect {
        x: (x + (k % 4) * button_side(width)) as i32,
        y: (y + display_h + (k / 4) * button_side(width)) as i32,
        width: button_side(width) as i32,
        height: button_side(width) as i32,
    }
}

/// `b` is button `k` of the grid: its label and its square.
pub open spec fn button_at(b: CalcButton, x: int, y: int, width: int, display_h: int, k: int) -> bool {
    &&& b.label@ == label_spec(k / 4, k % 4)
    &&& b.rect == button_rect(x, y, width, display_h, k)
}

/// Whether the calculator's coordinates all fit in `i32`.
pub open spec fn layout_fits(x: int, y: int, width: int, display_h: int) -> bool {
    &&& 0 <= width
    &&& 0 <= display_h
    &&& fits_i32(x)
    &&& fits_i32(y)
    &&& x + width <= i32::MAX
    &&& y + display_h + width <= i32::MAX
}

proof fn lemma_grid_offset(i: int, side: int, width: int)
    requires
        0 <= i < 4,
        side == width / 4,
        0 <= width,
    ensures
        0 <= i * side,
        i * side + side <= width,
{
    assert(0 <= i * side && i * side + side <= 4 * side) by (nonlinear_arith)
        requires
            0 <= i < 4,
            0 <= side,
    ;
}

/// The buttons of the calculator in reading order, each with its label,
/// followed by the display box, whose label is empty.
pub fn calculator_layout(x: i32, y: i32, width: i32, display_h: i32) -> (buttons: Vec<CalcButton>)
    requires
        layout_fits(x as int, y as int, width as int, display_h as int),
    ensures
        buttons@.len() == 17,
        forall|k: int|
            0 <= k < 16 ==> button_at(#[trigger] buttons@[k], x as int, y as int, width as int, display_h as int, k),
        buttons@[16].label@ == ""@,
        buttons@[16].rect == (Rect { x, y, width, height: display_h }),
{
    let side = width / 4;
    let mut buttons: Vec<CalcButton> = Vec::new();
    let mut k: usize = 0;
    while k < 16
        invariant
            k <= 16,
            side == width / 4,
            layout_fits(x as int, y as int, width as int, display_h as int),
            buttons@.len() == k,
            forall|j: int|
                0 <= j < k ==> button_at(#[trigger] buttons@[j], x as int, y as int, width as int, display_h as int, j),
        decreases 16 - k,
    {
        let row = k / 4;
        let col = k % 4;
        proof {
            lemma_grid_offset(row as int, side as int, width as int);
            lemma_grid_offset(col as int, side as int, width as int);
        }
        let rect = Rect {
            x: x + (col as i32) * side,
            y: y + display_h + (row as i32) * side,
            width: side,
            height: side,
        };
        buttons.push(CalcButton { label: button_label(row, col), rect });
        k = k + 1;
    }
    buttons.push(CalcButton { label: "", rect: Rect { x, y, width, height: display_h } });
    buttons
}

/// Where a button's label is written: 30 pixels right of and 70 pixels
/// below the button's top-left corner.
pub fn label_origin(rect: &Rect) -> (p: Point)
    requires
        rect.x + 30 <= i32::MAX,
        rect.y + 70 <= i32::MAX,
    ensures
        p.x == rect.x + 30,
        p.y == rect.y + 70,
{
    Point { x: rect.x + 30, y: rect.y + 70 }
}

/// The grid is laid out in reading order: button 0 sits right below the
/// display box at its left edge; buttons in the same row share their `y`,
/// buttons in the same column share their `x`; the next button in a row lies
/// one side further right, the next row one side further down. All buttons
/// are squares of a quarter of the width.
pub proof fn lemma_grid_reading_order(x: int, y: int, width: int, display_h: int, k1: int, k2: int)
    requires
        layout_fits(x, y, width, display_h),
        0 <= k1 < 16,
        0 <= k2 < 16,
    ensures
        button_rect(x, y, width, display_h, 0).x == x,
        button_rect(x, y, width, display_h, 0).y == y + display_h,
        button_rect(x, y, width, display_h, k1).width == width / 4,
        button_rect(x, y, width, display_h, k1).height == width / 4,
        k1 / 4 == k2 / 4 ==> button_rect(x, y, width, display_h, k1).y == button_rect(
            x,
            y,
            width,
            display_h,
            k2,
        ).y,
        k1 % 4 == k2 % 4 ==> button_rect(x, y, width, display_h, k1).x == button_rect(
            x,
            y,
            width,
            display_h,
            k2,
        ).x,
        k1 % 4 < 3 ==> button_rect(x, y, width, display_h, k1 + 1).x == button_rect(
            x,
            y,
            width,
            display_h,
            k1,
        ).x + width / 4,
        k1 < 12 ==> button_rect(x, y, width, display_h, k1 + 4).y == button_rect(
            x,
            y,
            width,
            display_h,
            k1,
        ).y + width / 4,
{
    let side = button_side(width);
    lemma_grid_offset(k1 % 4, side, width);
    lemma_grid_offset(k1 / 4, side, width);
    lemma_grid_offset(k2 % 4, side, width);
    lemma_grid_offset(k2 / 4, side, width);
    if k1 % 4 < 3 {
        assert((k1 + 1) % 4 == k1 % 4 + 1);
        assert((k1 % 4 + 1) * side == k1 % 4 * side + side) by (nonlinear_arith);
        lemma_grid_offset(k1 % 4 + 1, side, width);
    }
    if k1 < 12 {
        assert((k1 + 4) / 4 == k1 / 4 + 1);
        assert((k1 / 4 + 1) * side == k1 / 4 * side + side) by (nonlinear_arith);
        lemma_grid_offset(k1 / 4 + 1, side, width);
    }
}

/// Two rectangles share some pixel.
pub open spec fn rects_overlap(a: Rect, b: Rect) -> bool {
    &&& a.x < b.x + b.width
    &&& b.x < a.x + a.width
    &&& a.y < b.y + b.height
    &&& b.y < a.y + a.height
}

proof fn lemma_cells_apart(i: int, j: int, side: int)
    requires
        0 <= i < j < 4,
        0 <= side,
    ensures
        i * side + side <= j * side,
{
    assert(i * side + side <= j * side) by (nonlinear_arith)
        requires
            0 <= i < j,
            0 <= side,
    ;
}

/// No two buttons of the grid share a pixel, no button shares a pixel with
/// the display box, and every button lies inside the square of side
/// `width` below the display box.
pub proof fn lemma_buttons_apart(x: int, y: int, width: int, display_h: int, k1: int, k2: int)
    requires
        layout_fits(x, y, width, display_h),
        0 <= k1 < 16,
        0 <= k2 < 16,
    ensures
        k1 != k2 ==> !rects_overlap(
            button_rect(x, y, width, display_h, k1),
            button_rect(x, y, width, display_h, k2),
        ),
        !rects_overlap(
            button_rect(x, y, width, display_h, k1),
            Rect { x: x as i32, y: y as i32, width: width as i32, height: display_h as i32 },
        ),
        x <= button_rect(x, y, width, display_h, k1).x,
        button_rect(x, y, width, display_h, k1).x + button_rect(x, y, width, display_h, k1).width
            <= x + width,
        y + display_h <= button_rect(x, y, width, display_h, k1).y,
        button_rect(x, y, width, display_h, k1).y + button_rect(x, y, width, display_h, k1).height
            <= y + display_h + width,
{
    let side = button_side(width);
    lemma_grid_offset(k1 % 4, side, width);
    lemma_grid_offset(k1 / 4, side, width);
    lemma_grid_offset(k2 % 4, side, width);
    lemma_grid_offset(k2 / 4, side, width);
    if k1 % 4 < k2 % 4 {
        lemma_cells_apart(k1 % 4, k2 % 4, side);
    } else if k2 % 4 < k1 % 4 {
        lemma_cells_apart(k2 % 4, k1 % 4, side);
    } else if k1 / 4 < k2 / 4 {
        lemma_cells_apart(k1 / 4, k2 / 4, side);
    } else if k2 / 4 < k1 / 4 {
        lemma_cells_apart(k2 / 4, k1 / 4, side);
    }
}

} // verus!
