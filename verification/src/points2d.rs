//! Fixed-point points in the plane of a face.

use vstd::prelude::*;

verus! {

/// A position on a face. Each coordinate counts millionths of a unit of
/// length.
#[derive(Clone, Copy, Debug, PartialEq, Eq, Structural)]
pub struct Point {
    pub x: i64,
    pub y: i64,
}

} // verus!
