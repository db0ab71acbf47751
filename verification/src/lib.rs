//! Verified geometry, tracking, layout and pixel logic for small
//! computer-vision tools: the parts of the tools that decide and compute on
//! plain values, apart from the image processing itself.
pub mod calculator;
pub mod card;
pub mod controls;
pub mod faces;
pub mod geometry;
pub mod histogram;
pub mod matching;
pub mod pacing;
pub mod palette;
pub mod pixels;
pub mod stitch;
pub mod traffic;
