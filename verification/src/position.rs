//! A discrete 2D location on the unsigned grid.
//!
//! Coordinates are grid cells and never negative. Arithmetic truncates into
//! the grid: a sum that would leave it on either side is clamped to the
//! nearest cell, so every operation is total. Bounds enforcement against a
//! playing field is the owning entity's responsibility, not Position's.

use vstd::prelude::*;
use crate::vector::DIR_LIMIT;

verus! {

/// The mathematical sum of two cell coordinates, truncated into the grid.
pub open spec fn sat_add(a: int, b: int) -> int {
    if a + b > 0xffff {
        0xffff
    } else {
        a + b
    }
}

/// The mathematical difference of two cell coordinates, truncated into the
/// grid: the grid has no negative cells.
pub open spec fn sat_sub(a: int, b: int) -> int {
    if a - b < 0 {
        0
    } else {
        a - b
    }
}

/// An arbitrary integer truncated into the grid on both sides.
pub open spec fn sat_cell(a: int) -> int {
    if a < 0 {
        0
    } else if a > 0xffff {
        0xffff
    } else {
        a
    }
}

/// A generic position.
#[derive(Clone, Copy, Debug, PartialEq, Eq, Structural)]
pub struct Position {
    pub x: u16,
    pub y: u16,
}

impl Position {
    /// Create a new position.
    pub fn new(x: u16, y: u16) -> (p: Position)
        ensures
            p.x == x,
            p.y == y,
    {
        Position { x, y }
    }

    /// Get the x coordinate.
    pub fn x(&self) -> (r: u16)
        ensures
            r == self.x,
    {
        self.x
    }

    /// Get the y coordinate.
    pub fn y(&self) -> (r: u16)
        ensures
            r == self.y,
    {
        self.y
    }

    /// Component-wise sum with another position, truncated into the grid.
    pub fn add(&self, other: &Position) -> (r: Position)
        ensures
            r.x == sat_add(self.x as int, other.x as int),
            r.y == sat_add(self.y as int, other.y as int),
    {
        Position { x: sat_add_u16(self.x, other.x), y: sat_add_u16(self.y, other.y) }
    }

    /// Add another position onto this one, truncated into the grid.
    pub fn add_assign(&mut self, other: &Position)
        ensures
            final(self).x == sat_add(old(self).x as int, other.x as int),
            final(self).y == sat_add(old(self).y as int, other.y as int),
    {
        *self = self.add(other);
    }

    /// Component-wise difference with another position, truncated into the
    /// grid.
    pub fn sub(&self, other: &Position) -> (r: Position)
        ensures
            r.x == sat_sub(self.x as int, other.x as int),
            r.y == sat_sub(self.y as int, other.y as int),
    {
        Position { x: sat_sub_u16(self.x, other.x), y: sat_sub_u16(self.y, other.y) }
    }

    /// Subtract another position from this one, truncated into the grid.
    pub fn sub_assign(&mut self, other: &Position)
        ensures
            final(self).x == sat_sub(old(self).x as int, other.x as int),
            final(self).y == sat_sub(old(self).y as int, other.y as int),
    {
        *self = self.sub(other);
    }

    /// The position displaced by a direction step, truncated into the grid.
    /// This is how a position and a vector are added: the signed components
    /// land on the nearest cell of the unsigned grid.
    pub fn offset(&self, dx: i64, dy: i64) -> (r: Position)
        requires
            -DIR_LIMIT <= dx <= DIR_LIMIT,
            -DIR_LIMIT <= dy <= DIR_LIMIT,
        ensures
            r.x == sat_cell(self.x + dx),
            r.y == sat_cell(self.y + dy),
    {
        Position { x: sat_offset_u16(self.x, dx), y: sat_offset_u16(self.y, dy) }
    }
}

/// One coordinate of a truncated sum.
fn sat_add_u16(a: u16, b: u16) -> (r: u16)
    ensures
        r == sat_add(a as int, b as int),
{
    if a as u32 + b as u32 > 0xffff {
        0xffff
    } else {
        a + b
    }
}

/// One coordinate of a truncated difference.
fn sat_sub_u16(a: u16, b: u16) -> (r: u16)
    ensures
        r == sat_sub(a as int, b as int),
{
    if b > a {
        0
    } else {
        a - b
    }
}

/// One coordinate of a truncated displacement.
fn sat_offset_u16(a: u16, d: i64) -> (r: u16)
    requires
        -DIR_LIMIT <= d <= DIR_LIMIT,
    ensures
        r == sat_cell(a + d),
{
    let v = a as i64 + d;
    if v < 0 {
        0
    } else if v > 0xffff {
        0xffff
    } else {
        v as u16
    }
}

} // verus!
