//! Fits vector path art into a fixed output frame.
//!
//! A document is a sequence of paths, each a sequence of move, line and close
//! commands. The library scans every path for the bounding box of its absolute
//! points, turns that box into a coordinate mapper, and rewrites every path
//! with absolute, rescaled coordinates and a trailing close.
//!
//! Coordinates are fixed-point integers that count thousandths of a user unit.
use vstd::prelude::*;

pub mod geometry;
pub mod extent;
pub mod mapper;
pub mod rewrite;
pub mod laws;
pub mod document;

verus! {

} // verus!
