use vstd::prelude::*;

verus! {

/// The bit pattern of the single precision number 0.
pub const ZERO: u32 = 0;

/// The bit pattern of the single precision number 1.
pub const ONE: u32 = 0x3F80_0000;

/// The bit pattern of the single precision number -1.
pub const MINUS_ONE: u32 = 0xBF80_0000;

/// Two scalars, each the bit pattern of a single precision number.
#[derive(Debug, Clone, Copy, PartialEq, Eq, Structural)]
pub struct Vector2 {
    pub x: u32,
    pub y: u32,
}

/// Three scalars, each the bit pattern of a single precision number.
#[derive(Debug, Clone, Copy, PartialEq, Eq, Structural)]
pub struct Vector3 {
    pub x: u32,
    pub y: u32,
    pub z: u32,
}

impl Vector2 {
    /// The components in order.
    pub open spec fn scalars(self) -> Seq<u32> {
        seq![self.x, self.y]
    }

    /// The vector with the given components.
    pub fn new(x: u32, y: u32) -> (v: Vector2)
        ensures
            v == (Vector2 { x, y }),
    {
        Vector2 { x, y }
    }

    /// Both components 0.
    pub fn zero() -> (v: Vector2)
        ensures
            v == (Vector2 { x: ZERO, y: ZERO }),
    {
        Vector2 { x: ZERO, y: ZERO }
    }

    /// Both components 1.
    pub fn one() -> (v: Vector2)
        ensures
            v == (Vector2 { x: ONE, y: ONE }),
    {
        Vector2 { x: ONE, y: ONE }
    }
}

impl Vector3 {
    /// The components in order.
    pub open spec fn scalars(self) -> Seq<u32> {
        seq![self.x, self.y, self.z]
    }

    /// The vector with the given components.
    pub fn new(x: u32, y: u32, z: u32) -> (v: Vector3)
        ensures
            v == (Vector3 { x, y, z }),
    {
        Vector3 { x, y, z }
    }

    /// All components 0.
    pub fn zero() -> (v: Vector3)
        ensures
            v == (Vector3 { x: ZERO, y: ZERO, z: ZERO }),
    {
        Vector3 { x: ZERO, y: ZERO, z: ZERO }
    }

    /// All components 1.
    pub fn one() -> (v: Vector3)
        ensures
            v == (Vector3 { x: ONE, y: ONE, z: ONE }),
    {
        Vector3 { x: ONE, y: ONE, z: ONE }
    }
}

} // verus!
