//! A geometry kernel for a document compiler: path segments with fixed-point
//! coordinates, solving a segment for a coordinate value, a recursive
//! bounding-box intersection search, transforms, and the finished-layout frame
//! tree that places elements at positions.

pub mod geom;
pub mod bez;
pub mod frame;
pub mod raw;
