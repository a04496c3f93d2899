use vstd::prelude::*;

verus! {

pub const I26_MIN: i32 = -33_554_432;

pub const I26_MAX: i32 = 33_554_431;

pub const I12_MIN: i16 = -2048;

pub const I12_MAX: i16 = 2047;

/// A block position; `x` and `z` fit in 26 signed bits and `y` in 12 when it
/// is built with [`Position::new`].
#[derive(Debug, Clone, Copy, PartialEq, Eq, PartialOrd, Ord, Hash)]
pub struct Position {
    pub x: i32,
    pub y: i16,
    pub z: i32,
}

impl Position {
    /// Whether the coordinates fit the bit widths of the wire format.
    pub open spec fn in_range(self) -> bool {
        &&& I26_MIN <= self.x <= I26_MAX
        &&& I12_MIN <= self.y <= I12_MAX
        &&& I26_MIN <= self.z <= I26_MAX
    }

    /// Creates a position; the coordinates must fit 26, 12 and 26 signed
    /// bits.
    pub fn new(x: i32, y: i16, z: i32) -> (p: Self)
        requires
            I26_MIN <= x <= I26_MAX,
            I12_MIN <= y <= I12_MAX,
            I26_MIN <= z <= I26_MAX,
        ensures
            p == (Position { x, y, z }),
    {
        Position { x, y, z }
    }
}

#[derive(Debug, Clone, Copy, PartialEq, Eq, PartialOrd, Ord, Hash)]
pub struct Coordinates {
    pub kind: CoordinatesKind,
    pub position: Position,
}

#[derive(Debug, Clone, Copy, PartialEq, Eq, PartialOrd, Ord, Hash)]
pub enum CoordinatesKind {
    Absolute,
    Relative,
    Local,
}

} // verus!
