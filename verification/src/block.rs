//! A single destructible block in the game.
//!
//! Each block has a position, a size, and a remaining strength. It absorbs
//! damage by saturating subtraction and merely reports the zero-strength
//! (destroyed) state; removing a destroyed block from play is the owner's
//! job, not the block's.

use vstd::prelude::*;
use crate::dimensions::Dimensions;
use crate::position::Position;

verus! {

/// A single block in the game.
#[derive(Clone, Copy, Debug, PartialEq, Eq, Structural)]
pub struct Block {
    pub position: Position,
    pub dimensions: Dimensions,
    pub strength: u16,
}

/// A block after absorbing `amount` damage: strength drops by `amount` but
/// never below zero, and never wraps.
pub open spec fn damaged(b: Block, amount: u16) -> Block {
    Block {
        strength: if amount > b.strength {
            0u16
        } else {
            (b.strength - amount) as u16
        },
        ..b
    }
}

impl Block {
    /// Create a new block.
    pub fn new(position: Position, dimensions: Dimensions, strength: u16) -> (b: Block)
        ensures
            b.position == position,
            b.dimensions == dimensions,
            b.strength == strength,
    {
        Block { position, dimensions, strength }
    }

    /// Get the x coordinate of the block.
    pub fn x(&self) -> (r: u16)
        ensures
            r == self.position.x,
    {
        self.position.x()
    }

    /// Get the y coordinate of the block.
    pub fn y(&self) -> (r: u16)
        ensures
            r == self.position.y,
    {
        self.position.y()
    }

    /// Get the width of the block.
    pub fn width(&self) -> (r: u16)
        ensures
            r == self.dimensions.width,
    {
        self.dimensions.width()
    }

    /// Get the height of the block.
    pub fn height(&self) -> (r: u16)
        ensures
            r == self.dimensions.height,
    {
        self.dimensions.height()
    }

    /// Damage the block, from a contact with the ball: strength drops by
    /// `amount` but never below zero, and never wraps.
    pub fn damage(&mut self, amount: u16)
        ensures
            *final(self) == damaged(*old(self), amount),
    {
        if amount > self.strength {
            self.strength = 0
        } else {
            self.strength = self.strength - amount
        }
    }

    /// Get the strength of the block.
    pub fn strength(&self) -> (r: u16)
        ensures
            r == self.strength,
    {
        self.strength
    }
}

} // verus!
