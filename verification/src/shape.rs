//! The shape data model: points, sizes, the two shape variants, and the
//! error reported when a payload cannot be decoded.

use vstd::prelude::*;

verus! {

/// A position on the drawing surface.
#[derive(Clone, Copy, Debug, PartialEq, Eq, Structural)]
pub struct Point {
    pub x: i32,
    pub y: i32,
}

/// Extent of an axis-aligned bounding box.
#[derive(Clone, Copy, Debug, PartialEq, Eq, Structural)]
pub struct Size {
    pub x: u32,
    pub y: u32,
}

/// A drawable primitive: a triangle given by its corners, or an ellipse
/// given by the top-left corner and the size of its bounding box.
/// Degenerate triangles and zero-size ellipses are accepted.
#[derive(Clone, Copy, Debug, PartialEq, Eq, Structural)]
pub enum Shape {
    Triangle { a: Point, b: Point, c: Point },
    Ellipse { top_left: Point, size: Size },
}

/// An ordered batch of shapes; order is the order of submission and is
/// preserved when the batch is published.
#[derive(Debug, PartialEq)]
pub struct Shapes(pub Vec<Shape>);

/// Why a payload could not be turned into a shape.
#[derive(Debug)]
pub enum ShapeError {
    DeserializationError(String),
}

impl ShapeError {
    /// The human-readable description carried by the error.
    pub fn message(&self) -> (r: &str)
        ensures
            self matches ShapeError::DeserializationError(m) && r@ == m@,
    {
        match self {
            ShapeError::DeserializationError(m) => m.as_str(),
        }
    }
}

} // verus!
