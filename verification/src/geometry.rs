//! Pixel-space points, sizes and rectangles shared by every layout in the library.

use vstd::prelude::*;

verus! {

/// A point in physical pixels.
#[derive(Debug, Clone, Copy, PartialEq, Eq, Structural)]
pub struct PixelPoint {
    pub x: i32,
    pub y: i32,
}

/// A size in physical pixels.
#[derive(Debug, Clone, Copy, PartialEq, Eq, Structural)]
pub struct PixelSize {
    pub width: u32,
    pub height: u32,
}

/// An axis-aligned rectangle: an origin and a size.
#[derive(Debug, Clone, Copy, PartialEq, Eq, Structural)]
pub struct PixelRect {
    pub origin: PixelPoint,
    pub size: PixelSize,
}

/// Clamps a mathematical integer into the `i32` range.
pub open spec fn clamp_i32(v: int) -> int {
    if v < i32::MIN as int {
        i32::MIN as int
    } else if v > i32::MAX as int {
        i32::MAX as int
    } else {
        v
    }
}

impl PixelPoint {
    pub fn new(x: i32, y: i32) -> (p: PixelPoint)
        ensures
            p.x == x,
            p.y == y,
    {
        PixelPoint { x, y }
    }
}

impl PixelSize {
    pub fn new(width: u32, height: u32) -> (s: PixelSize)
        ensures
            s.width == width,
            s.height == height,
    {
        PixelSize { width, height }
    }

    /// Number of pixels covered.
    pub open spec fn spec_area(self) -> int {
        self.width as int * self.height as int
    }

    pub fn area(&self) -> (a: u64)
        ensures
            a == self.spec_area(),
    {
        proof {
            vstd::arithmetic::mul::lemma_mul_upper_bound(
                self.width as int,
                u32::MAX as int,
                self.height as int,
                u32::MAX as int,
            );
        }
        (self.width as u64) * (self.height as u64)
    }
}

impl PixelRect {
    /// The rectangle with these coordinates (each taken within its field's range).
    pub open spec fn rect(x: int, y: int, width: int, height: int) -> PixelRect {
        PixelRect {
            origin: PixelPoint { x: x as i32, y: y as i32 },
            size: PixelSize { width: width as u32, height: height as u32 },
        }
    }

    pub fn new(x: i32, y: i32, width: u32, height: u32) -> (r: PixelRect)
        ensures
            r.origin.x == x,
            r.origin.y == y,
            r.size.width == width,
            r.size.height == height,
    {
        PixelRect { origin: PixelPoint { x, y }, size: PixelSize { width, height } }
    }

    /// Exclusive right edge, saturated to the `i32` range.
    pub open spec fn spec_right(self) -> int {
        clamp_i32(self.origin.x + self.size.width)
    }

    /// Exclusive bottom edge, saturated to the `i32` range.
    pub open spec fn spec_bottom(self) -> int {
        clamp_i32(self.origin.y + self.size.height)
    }

    /// Whether `p` lies inside the half-open rectangle.
    pub open spec fn spec_contains(self, p: PixelPoint) -> bool {
        &&& self.origin.x <= p.x
        &&& p.x < self.spec_right()
        &&& self.origin.y <= p.y
        &&& p.y < self.spec_bottom()
    }

    pub fn right(&self) -> (r: i32)
        ensures
            r == self.spec_right(),
    {
        let v: i64 = self.origin.x as i64 + self.size.width as i64;
        if v > i32::MAX as i64 {
            i32::MAX
        } else {
            v as i32
        }
    }

    pub fn bottom(&self) -> (b: i32)
        ensures
            b == self.spec_bottom(),
    {
        let v: i64 = self.origin.y as i64 + self.size.height as i64;
        if v > i32::MAX as i64 {
            i32::MAX
        } else {
            v as i32
        }
    }

    pub fn contains_point(&self, p: PixelPoint) -> (b: bool)
        ensures
            b == self.spec_contains(p),
    {
        self.origin.x <= p.x && p.x < self.right() && self.origin.y <= p.y && p.y < self.bottom()
    }
}

} // verus!
