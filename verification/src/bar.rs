//! The user-controlled bar.
//!
//! Restricted to moving left and right, one cell at a time, and clamped so it
//! stays fully inside the playing field. Its row is pinned one above the
//! bottom edge of the field and re-pinned on every resize. The right-bound
//! convention here: a move is refused unless the bar's rightmost cell stays
//! strictly inside the field, and resizing clamps with the same rule.

use vstd::prelude::*;
use crate::dimensions::Dimensions;
use crate::position::Position;

verus! {

/// The user-controlled bar. The ball bounces off this at one of three
/// angles, depending on where it lands relative to the bar's midpoint.
#[derive(Clone, Copy, Debug, PartialEq, Eq, Structural)]
pub struct Bar {
    pub dimensions: Dimensions,
    pub position: Position,
    pub game_dimensions: Dimensions,
}

impl Bar {
    /// The bar lies fully inside the field and sits on its pinned row, one
    /// above the bottom edge.
    pub open spec fn wf(self) -> bool {
        &&& self.position.x + self.dimensions.width <= self.game_dimensions.width
        &&& self.game_dimensions.height >= 2
        &&& self.position.y == self.game_dimensions.height - 2
    }

    /// Create a new bar. The given position supplies the starting column;
    /// the row is pinned one above the bottom edge of the field.
    pub fn new(position: Position, dimensions: Dimensions, game_dimensions: Dimensions) -> (b: Bar)
        requires
            position.x + dimensions.width <= game_dimensions.width,
            game_dimensions.height >= 2,
        ensures
            b.position.x == position.x,
            b.position.y == game_dimensions.height - 2,
            b.dimensions == dimensions,
            b.game_dimensions == game_dimensions,
            b.wf(),
    {
        Bar {
            dimensions,
            position: Position::new(position.x(), game_dimensions.height() - 2),
            game_dimensions,
        }
    }

    /// Move the bar one unit left; at the left edge the move is refused, so
    /// repeating it there changes nothing.
    pub fn move_left(&mut self)
        requires
            old(self).wf(),
        ensures
            final(self).position.x == if old(self).position.x > 0 {
                old(self).position.x - 1
            } else {
                0int
            },
            final(self).position.y == old(self).position.y,
            final(self).dimensions == old(self).dimensions,
            final(self).game_dimensions == old(self).game_dimensions,
            final(self).wf(),
    {
        if self.x() > 0 {
            let one = Position::new(1, 0);
            self.position.sub_assign(&one);
        }
    }

    /// Move the bar one unit right; when the move would carry its rightmost
    /// cell to the field edge it is refused, so repeating it there changes
    /// nothing.
    pub fn move_right(&mut self)
        requires
            old(self).wf(),
        ensures
            final(self).position.x == if old(self).position.x + old(self).dimensions.width
                < old(self).game_dimensions.width {
                old(self).position.x + 1
            } else {
                old(self).position.x as int
            },
            final(self).position.y == old(self).position.y,
            final(self).dimensions == old(self).dimensions,
            final(self).game_dimensions == old(self).game_dimensions,
            final(self).wf(),
    {
        if self.x() + self.width() < self.game_dimensions.width() {
            let one = Position::new(1, 0);
            self.position.add_assign(&one);
        }
    }

    /// Update the game dimensions stored in the bar. The row is re-pinned
    /// one above the new bottom edge, and the column is clamped so the bar
    /// stays fully inside the new field.
    pub fn update_dimensions(&mut self, dimensions: Dimensions)
        requires
            old(self).wf(),
            dimensions.width >= old(self).dimensions.width,
            dimensions.height >= 2,
        ensures
            final(self).position.x == if old(self).position.x + old(self).dimensions.width
                >= dimensions.width {
                dimensions.width - old(self).dimensions.width
            } else {
                old(self).position.x as int
            },
            final(self).position.y == dimensions.height - 2,
            final(self).dimensions == old(self).dimensions,
            final(self).game_dimensions == dimensions,
            final(self).wf(),
    {
        let mut new_position = Position::new(self.x(), dimensions.height() - 2);
        if self.x() + self.width() >= dimensions.width() {
            new_position = Position::new(dimensions.width() - self.width(), new_position.y());
        }
        self.position = new_position;
        self.game_dimensions = dimensions;
    }

    /// Get the x coordinate of the bar.
    pub fn x(&self) -> (r: u16)
        ensures
            r == self.position.x,
    {
        self.position.x()
    }

    /// Get the y coordinate of the bar.
    pub fn y(&self) -> (r: u16)
        ensures
            r == self.position.y,
    {
        self.position.y()
    }

    /// Get the height of the bar.
    pub fn height(&self) -> (r: u16)
        ensures
            r == self.dimensions.height,
    {
        self.dimensions.height()
    }

    /// Get the width of the bar.
    pub fn width(&self) -> (r: u16)
        ensures
            r == self.dimensions.width,
    {
        self.dimensions.width()
    }
}

} // verus!
