//! Plain-value geometry: 2D/3D points, displacement vectors, and the
//! hit-regions that interactables register. Coordinates are integers
//! (the application converts to and from its own coordinate scale).

use vstd::prelude::*;

verus! {

/// A 2D point (screen / region space).
#[derive(Clone, Copy, Debug, PartialEq, Eq, Structural)]
pub struct P2 {
    pub x: i64,
    pub y: i64,
}

/// A 3D point (world space).
#[derive(Clone, Copy, Debug, PartialEq, Eq, Structural)]
pub struct P3 {
    pub x: i64,
    pub y: i64,
    pub z: i64,
}

/// A 3D displacement, e.g. a camera-pan delta.
#[derive(Clone, Copy, Debug, PartialEq, Eq, Structural)]
pub struct V3 {
    pub x: i64,
    pub y: i64,
    pub z: i64,
}

/// The fixed geometric transform from world space into the registry's
/// 2D region space: drop the height coordinate.
pub open spec fn flatten(p: P3) -> P2 {
    P2 { x: p.x, y: p.y }
}

impl P3 {
    /// Project this world-space point into region space.
    pub fn into_2d(self) -> (r: P2)
        ensures
            r == flatten(self),
    {
        P2 { x: self.x, y: self.y }
    }
}

/// A hit-region supporting point-containment queries.
///
/// `Rect` is the closed axis-aligned rectangle between `min` and `max`
/// (empty when they are out of order); `Everywhere` contains every point.
#[derive(Clone, Copy, Debug, PartialEq, Eq, Structural)]
pub enum Region {
    Everywhere,
    Rect { min: P2, max: P2 },
}

/// Containment of a 2D point in a region.
pub open spec fn region_contains(r: Region, p: P2) -> bool {
    match r {
        Region::Everywhere => true,
        Region::Rect { min, max } => min.x <= p.x <= max.x && min.y <= p.y <= max.y,
    }
}

impl Region {
    /// Point-containment query.
    pub fn contains(&self, p: P2) -> (r: bool)
        ensures
            r == region_contains(*self, p),
    {
        match *self {
            Region::Everywhere => true,
            Region::Rect { min, max } => {
                min.x <= p.x && p.x <= max.x && min.y <= p.y && p.y <= max.y
            },
        }
    }
}

} // verus!
