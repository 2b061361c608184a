//! Screen geometry, edges, relative positions, and barrier types.

use vstd::prelude::*;

verus! {

/// Screen geometry for a machine's display: size in pixels and an optional
/// origin offset for multi-monitor layouts.
#[derive(Debug, Clone, Copy, PartialEq, Eq, Structural)]
pub struct ScreenGeometry {
    /// Width in pixels.
    pub width: u32,
    /// Height in pixels.
    pub height: u32,
    /// X offset for multi-monitor setups.
    pub x: i32,
    /// Y offset for multi-monitor setups.
    pub y: i32,
}

/// Clamp an unbounded coordinate into the `i32` range.
pub open spec fn sat_i32(v: int) -> int {
    if v > i32::MAX {
        i32::MAX as int
    } else if v < i32::MIN {
        i32::MIN as int
    } else {
        v
    }
}

impl ScreenGeometry {
    /// The x coordinate of the rightmost column, computed with saturation.
    pub open spec fn spec_right(self) -> int {
        sat_i32(sat_i32(self.x + sat_i32(self.width as int)) - 1)
    }

    /// The y coordinate of the bottom row, computed with saturation.
    pub open spec fn spec_bottom(self) -> int {
        sat_i32(sat_i32(self.y + sat_i32(self.height as int)) - 1)
    }

    /// Whether the pixel `(px, py)` lies on the given edge of this screen.
    pub open spec fn spec_at_edge(self, px: int, py: int, edge: ScreenEdge) -> bool {
        match edge {
            ScreenEdge::Left => px <= self.x,
            ScreenEdge::Right => px >= self.spec_right(),
            ScreenEdge::Top => py <= self.y,
            ScreenEdge::Bottom => py >= self.spec_bottom(),
        }
    }

    /// Build a geometry with the given size and origin `(0, 0)`.
    pub fn new(width: u32, height: u32) -> (r: Self)
        ensures
            r == (ScreenGeometry { width, height, x: 0, y: 0 }),
    {
        Self { width, height, x: 0, y: 0 }
    }

    /// Check whether a pixel coordinate is on a given screen edge.
    pub fn is_at_edge(&self, px: i32, py: i32, edge: ScreenEdge) -> (r: bool)
        ensures
            r == self.spec_at_edge(px as int, py as int, edge),
    {
        let w: i32 = if self.width > 0x7FFF_FFFF {
            i32::MAX
        } else {
            self.width as i32
        };
        let h: i32 = if self.height > 0x7FFF_FFFF {
            i32::MAX
        } else {
            self.height as i32
        };
        let rsum64: i64 = self.x as i64 + w as i64;
        let rsum: i32 = if rsum64 > i32::MAX as i64 {
            i32::MAX
        } else {
            rsum64 as i32
        };
        let right: i32 = if rsum == i32::MIN {
            i32::MIN
        } else {
            rsum - 1
        };
        let bsum64: i64 = self.y as i64 + h as i64;
        let bsum: i32 = if bsum64 > i32::MAX as i64 {
            i32::MAX
        } else {
            bsum64 as i32
        };
        let bottom: i32 = if bsum == i32::MIN {
            i32::MIN
        } else {
            bsum - 1
        };
        match edge {
            ScreenEdge::Left => px <= self.x,
            ScreenEdge::Right => px >= right,
            ScreenEdge::Top => py <= self.y,
            ScreenEdge::Bottom => py >= bottom,
        }
    }
}

/// Which edge of a screen a cursor can cross.
#[derive(Debug, Clone, Copy, PartialEq, Eq, Hash, Structural)]
pub enum ScreenEdge {
    Left,
    Right,
    Top,
    Bottom,
}

/// The edge opposite to `e`.
pub open spec fn spec_opposite(e: ScreenEdge) -> ScreenEdge {
    match e {
        ScreenEdge::Left => ScreenEdge::Right,
        ScreenEdge::Right => ScreenEdge::Left,
        ScreenEdge::Top => ScreenEdge::Bottom,
        ScreenEdge::Bottom => ScreenEdge::Top,
    }
}

impl ScreenEdge {
    /// Return the opposite edge.
    pub fn opposite(self) -> (r: Self)
        ensures
            r == spec_opposite(self),
    {
        match self {
            Self::Left => Self::Right,
            Self::Right => Self::Left,
            Self::Top => Self::Bottom,
            Self::Bottom => Self::Top,
        }
    }
}

/// Law: `opposite` is an involution on screen edges.
pub proof fn lemma_opposite_involution(e: ScreenEdge)
    ensures
        spec_opposite(spec_opposite(e)) == e,
{
}

/// A barrier defines a region on a screen edge that triggers switching.
#[derive(Debug, Clone, Copy, PartialEq, Eq, Structural)]
pub struct Barrier {
    pub id: BarrierId,
    /// Which edge this barrier is on.
    pub edge: ScreenEdge,
    /// Start position along the edge (pixels, inclusive).
    pub start: u32,
    /// End position along the edge (pixels, inclusive).
    pub end: u32,
}

/// Unique identifier for a barrier.
#[derive(Debug, Clone, Copy, PartialEq, Eq, Hash, Structural)]
pub struct BarrierId(pub u32);

/// Position of a remote screen relative to the local screen.
#[derive(Debug, Clone, Copy, PartialEq, Eq, Hash, Structural)]
pub enum Position {
    Left,
    Right,
    Above,
    Below,
}

/// The local screen edge that leads to a neighbour at position `p`.
pub open spec fn spec_local_edge(p: Position) -> ScreenEdge {
    match p {
        Position::Left => ScreenEdge::Left,
        Position::Right => ScreenEdge::Right,
        Position::Above => ScreenEdge::Top,
        Position::Below => ScreenEdge::Bottom,
    }
}

impl Position {
    /// The screen edge on the local machine that corresponds to this position.
    pub fn local_edge(&self) -> (r: ScreenEdge)
        ensures
            r == spec_local_edge(*self),
    {
        match self {
            Self::Left => ScreenEdge::Left,
            Self::Right => ScreenEdge::Right,
            Self::Above => ScreenEdge::Top,
            Self::Below => ScreenEdge::Bottom,
        }
    }

    /// The screen edge on the remote machine where the cursor enters.
    pub fn remote_entry_edge(&self) -> (r: ScreenEdge)
        ensures
            r == spec_opposite(spec_local_edge(*self)),
    {
        match self {
            Self::Left => ScreenEdge::Right,
            Self::Right => ScreenEdge::Left,
            Self::Above => ScreenEdge::Bottom,
            Self::Below => ScreenEdge::Top,
        }
    }
}

} // verus!
