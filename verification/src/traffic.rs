//! Counting vehicles that cross a horizontal line in a video.
//!
//! For each frame, the bounding boxes of the moving objects are sorted out:
//! boxes that lie well above the counting line, and boxes too small to be a
//! vehicle in both directions, are skipped; the others are drawn, and those
//! whose vertical centre lies within a few pixels of the line are counted.
use vstd::prelude::*;
use crate::geometry::{Rect, div_toward_zero};

verus! {

/// Where vehicles are counted in a frame, and which boxes are vehicles.
#[derive(Clone, Copy, Debug, PartialEq, Eq, Structural)]
pub struct CountingLine {
    /// The y coordinate of the counting line.
    pub line_y: i32,
    /// Boxes whose top lies more than this far above the line are skipped.
    pub band: i32,
    /// A box narrower than this and lower than `min_height` is skipped.
    pub min_width: i32,
    pub min_height: i32,
    /// A box is counted when its centre is strictly within this distance of
    /// the line.
    pub tolerance: i32,
}

/// What becomes of one bounding box.
#[derive(Clone, Copy, Debug, PartialEq, Eq, Structural)]
pub enum BoxVerdict {
    Skipped,
    Drawn,
    Counted,
}

/// The vertical centre of a box, with the half height rounded toward zero.
pub open spec fn center_y(r: Rect) -> int {
    r.y + div_toward_zero(r.height as int, 2)
}

/// The verdict on one box.
pub open spec fn box_verdict(line: CountingLine, r: Rect) -> BoxVerdict {
    if r.y < line.line_y - line.band {
        BoxVerdict::Skipped
    } else if r.width < line.min_width && r.height < line.min_height {
        BoxVerdict::Skipped
    } else if line.line_y - line.tolerance < center_y(r) < line.line_y + line.tolerance {
        BoxVerdict::Counted
    } else {
        BoxVerdict::Drawn
    }
}

/// The boxes that are drawn, in their order.
pub open spec fn drawn_boxes(line: CountingLine, s: Seq<Rect>) -> Seq<Rect>
    decreases s.len(),
{
    if s.len() == 0 {
        Seq::empty()
    } else if box_verdict(line, s.last()) == BoxVerdict::Skipped {
        drawn_boxes(line, s.drop_last())
    } else {
        drawn_boxes(line, s.drop_last()).push(s.last())
    }
}

/// The number of boxes that are counted.
pub open spec fn counted_boxes(line: CountingLine, s: Seq<Rect>) -> nat
    decreases s.len(),
{
    if s.len() == 0 {
        0
    } else if box_verdict(line, s.last()) == BoxVerdict::Counted {
        counted_boxes(line, s.drop_last()) + 1
    } else {
        counted_boxes(line, s.drop_last())
    }
}

impl CountingLine {
    /// The counting line for frames of the given height: the line lies at
    /// two thirds of the height (`height / 3 * 2`), boxes whose top is more
    /// than a fifth of the height above it are skipped, a vehicle is at
    /// least 40 pixels wide or high, and it is counted within 3 pixels of
    /// the line.
    pub fn for_frame(height: i32) -> (c: CountingLine)
        ensures
            c.line_y == div_toward_zero(height as int, 3) * 2,
            c.band == div_toward_zero(height as int, 5),
            c.min_width == 40,
            c.min_height == 40,
            c.tolerance == 3,
    {
        CountingLine { line_y: height / 3 * 2, band: height / 5, min_width: 40, min_height: 40, tolerance: 3 }
    }

    /// The verdict on one bounding box.
    pub fn assess(&self, r: &Rect) -> (v: BoxVerdict)
        ensures
            v == box_verdict(*self, *r),
            r.y >= self.line_y - self.band && (r.width >= self.min_width || r.height
                >= self.min_height) ==> v != BoxVerdict::Skipped,
    {
        let top_limit = (self.line_y as i64) - (self.band as i64);
        if (r.y as i64) < top_limit {
            return BoxVerdict::Skipped;
        }
        if r.width < self.min_width && r.height < self.min_height {
            return BoxVerdict::Skipped;
        }
        let cy = (r.y as i64) + ((r.height / 2) as i64);
        let lo = (self.line_y as i64) - (self.tolerance as i64);
        let hi = (self.line_y as i64) + (self.tolerance as i64);
        if lo < cy && cy < hi {
            BoxVerdict::Counted
        } else {
            BoxVerdict::Drawn
        }
    }
}

/// Sorts out one frame's boxes: returns the boxes to draw, in order, and
/// how many of them are counted.
pub fn sort_boxes(line: &CountingLine, boxes: &Vec<Rect>) -> (res: (Vec<Rect>, usize))
    ensures
        res.0@ == drawn_boxes(*line, boxes@),
        res.1 == counted_boxes(*line, boxes@),
{
    let mut drawn: Vec<Rect> = Vec::new();
    let mut counted: usize = 0;
    let mut i: usize = 0;
    while i < boxes.len()
        invariant
            i <= boxes@.len(),
            drawn@ == drawn_boxes(*line, boxes@.take(i as int)),
            counted == counted_boxes(*line, boxes@.take(i as int)),
            counted <= i,
        decreases boxes@.len() - i,
    {
        let r = boxes[i];
        assert(boxes@.take(i as int + 1).drop_last() =~= boxes@.take(i as int));
        assert(boxes@.take(i as int + 1).last() == r);
        match line.assess(&r) {
            BoxVerdict::Skipped => {},
            BoxVerdict::Drawn => {
                drawn.push(r);
            },
            BoxVerdict::Counted => {
                drawn.push(r);
                counted = counted + 1;
            },
        }
        i = i + 1;
    }
    assert(boxes@.take(boxes@.len() as int) =~= boxes@);
    (drawn, counted)
}

/// A running count of the vehicles that crossed the line.
pub struct VehicleCounter {
    pub line: CountingLine,
    pub total: i32,
}

impl VehicleCounter {
    /// A counter with no vehicle counted yet, for frames of the given
    /// height.
    pub fn new(frame_height: i32) -> (c: VehicleCounter)
        ensures
            c.line.line_y == div_toward_zero(frame_height as int, 3) * 2,
            c.line.band == div_toward_zero(frame_height as int, 5),
            c.line.min_width == 40,
            c.line.min_height == 40,
            c.line.tolerance == 3,
            c.total == 0,
    {
        VehicleCounter { line: CountingLine::for_frame(frame_height), total: 0 }
    }

    /// Processes one frame's boxes: adds the counted ones to the total and
    /// returns the boxes to draw.
    pub fn process_frame(&mut self, boxes: &Vec<Rect>) -> (drawn: Vec<Rect>)
        requires
            old(self).total + boxes@.len() <= i32::MAX,
        ensures
            final(self).line == old(self).line,
            final(self).total == old(self).total + counted_boxes(old(self).line, boxes@),
            drawn@ == drawn_boxes(old(self).line, boxes@),
    {
        let (drawn, counted) = sort_boxes(&self.line, boxes);
        proof {
            lemma_counted_at_most_drawn(self.line, boxes@);
            lemma_drawn_at_most_all(self.line, boxes@);
        }
        let sum: i64 = (self.total as i64) + (counted as i64);
        self.total = sum as i32;
        drawn
    }
}

/// Which boxes are skipped, drawn and counted: a box is skipped exactly
/// when its top lies above the band, or when it is both narrower and lower
/// than a vehicle; a box that is kept is counted exactly when its vertical
/// centre is strictly within the tolerance of the line. In particular a box
/// that is wide enough, or high enough, is never skipped for its size.
pub proof fn lemma_verdict_cases(line: CountingLine, r: Rect)
    ensures
        (box_verdict(line, r) == BoxVerdict::Skipped) <==> (r.y < line.line_y - line.band || (r.width
            < line.min_width && r.height < line.min_height)),
        r.y >= line.line_y - line.band && (r.width >= line.min_width || r.height >= line.min_height)
            ==> box_verdict(line, r) != BoxVerdict::Skipped,
        box_verdict(line, r) != BoxVerdict::Skipped ==> ((box_verdict(line, r) == BoxVerdict::Counted)
            <==> (line.line_y - line.tolerance < r.y + div_toward_zero(r.height as int, 2)
            < line.line_y + line.tolerance)),
{
}

/// Every counted box is drawn: a frame counts at most as many vehicles as it
/// draws boxes.
pub proof fn lemma_counted_at_most_drawn(line: CountingLine, s: Seq<Rect>)
    ensures
        counted_boxes(line, s) <= drawn_boxes(line, s).len(),
    decreases s.len(),
{
    if s.len() > 0 {
        lemma_counted_at_most_drawn(line, s.drop_last());
    }
}

/// No more boxes are drawn than there are boxes.
pub proof fn lemma_drawn_at_most_all(line: CountingLine, s: Seq<Rect>)
    ensures
        drawn_boxes(line, s).len() <= s.len(),
    decreases s.len(),
{
    if s.len() > 0 {
        lemma_drawn_at_most_all(line, s.drop_last());
    }
}

/// Sorting a frame's boxes in two parts gives the same boxes and the same
/// count as sorting them at once: the verdict on a box depends on that box
/// alone.
pub proof fn lemma_sort_splits(line: CountingLine, s1: Seq<Rect>, s2: Seq<Rect>)
    ensures
        drawn_boxes(line, s1 + s2) == drawn_boxes(line, s1) + drawn_boxes(line, s2),
        counted_boxes(line, s1 + s2) == counted_boxes(line, s1) + counted_boxes(line, s2),
    decreases s2.len(),
{
    if s2.len() == 0 {
        assert(s1 + s2 =~= s1);
        assert(drawn_boxes(line, s1) + drawn_boxes(line, s2) =~= drawn_boxes(line, s1));
    } else {
        lemma_sort_splits(line, s1, s2.drop_last());
        assert((s1 + s2).drop_last() =~= s1 + s2.drop_last());
        assert((s1 + s2).last() == s2.last());
        if box_verdict(line, s2.last()) != BoxVerdict::Skipped {
            assert(drawn_boxes(line, s1) + drawn_boxes(line, s2.drop_last()).push(s2.last())
                =~= (drawn_boxes(line, s1) + drawn_boxes(line, s2.drop_last())).push(s2.last()));
        }
    }
}

} // verus!
