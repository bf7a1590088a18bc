//! Core logic for a collaborative pixel-art canvas assistant: a fixed color
//! palette, quantization of RGBA images into palette-index grids, and
//! selection of a target pixel for the user, preferring positions where the
//! shared canvas does not yet match the goal image.

pub mod grid;
pub mod palette;
pub mod select;
