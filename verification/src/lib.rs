//! Part classification for a ten-axis dodecahedral twisty puzzle.
//!
//! The puzzle is a ball cut along ten axes. For a point near the surface of
//! the ball, `DecaminxCreator::get_part_index` tells which part of the
//! puzzle it belongs to, or that it belongs to none; where two neighbouring
//! sample points differ, `find_root` narrows down the surface between them.
//!
//! Every length is a fixed-point number with six decimal places, held in a
//! signed 64-bit integer: the integer `1_000_000` stands for one unit of
//! length. Vector algebra on such values is exact; the only operations that
//! round are the ones that divide or take a square root, and they round
//! towards negative infinity.
//!
//! - `fixed`: floor division and the integer square root.
//! - `points3d`: vectors and their algebra, bisection, distance to a segment.
//! - `points2d`: points on a face.
//! - `partition`: the definition of the part index of every point.
//! - `decaminx_creator`: the classifier that computes it.
//! - `partition_laws`, `corner_laws`, `cut_angles`, `symmetry`,
//!   `bisection`, `segment_laws`: what is proved of the definitions.

pub mod fixed;
pub mod points2d;
pub mod points3d;
pub mod partition;
pub mod decaminx_creator;
pub mod partition_laws;
pub mod corner_laws;
pub mod cut_angles;
pub mod symmetry;
pub mod bisection;
pub mod segment_laws;
