//! The colour spaces that the colour-space viewer cycles through with its
//! slider, in slider order.
use vstd::prelude::*;

verus! {

/// A conversion from the BGR colour space of a loaded image.
#[derive(Clone, Copy, Debug, PartialEq, Eq, Structural)]
pub enum ColorSpace {
    Bgra,
    Gray,
    Rgb,
    Luv,
    Yuv,
    Xyz,
    Lab,
    YCrCb,
    HsvFull,
    /// Converted as if the image were RGB.
    HlsFullFromRgb,
}

/// The number of colour spaces; the slider goes from 0 to one less.
pub const COLOR_SPACE_COUNT: usize = 10;

/// The colour space at slider position `pos`.
pub open spec fn color_space_spec(pos: int) -> ColorSpace {
    if pos == 0 {
        ColorSpace::Bgra
    } else if pos == 1 {
        ColorSpace::Gray
    } else if pos == 2 {
        ColorSpace::Rgb
    } else if pos == 3 {
        ColorSpace::Luv
    } else if pos == 4 {
        ColorSpace::Yuv
    } else if pos == 5 {
        ColorSpace::Xyz
    } else if pos == 6 {
        ColorSpace::Lab
    } else if pos == 7 {
        ColorSpace::YCrCb
    } else if pos == 8 {
        ColorSpace::HsvFull
    } else {
        ColorSpace::HlsFullFromRgb
    }
}

/// The colour space at slider position `pos`.
pub fn color_space_at(pos: usize) -> (c: ColorSpace)
    requires
        pos < COLOR_SPACE_COUNT,
    ensures
        c == color_space_spec(pos as int),
{
    if pos == 0 {
        ColorSpace::Bgra
    } else if pos == 1 {
        ColorSpace::Gray
    } else if pos == 2 {
        ColorSpace::Rgb
    } else if pos == 3 {
        ColorSpace::Luv
    } else if pos == 4 {
        ColorSpace::Yuv
    } else if pos == 5 {
        ColorSpace::Xyz
    } else if pos == 6 {
        ColorSpace::Lab
    } else if pos == 7 {
        ColorSpace::YCrCb
    } else if pos == 8 {
        ColorSpace::HsvFull
    } else {
        ColorSpace::HlsFullFromRgb
    }
}

/// Every slider position selects a different colour space.
pub proof fn lemma_positions_distinct(p1: int, p2: int)
    requires
        0 <= p1 < COLOR_SPACE_COUNT,
        0 <= p2 < COLOR_SPACE_COUNT,
        p1 != p2,
    ensures
        color_space_spec(p1) != color_space_spec(p2),
{
}

} // verus!
