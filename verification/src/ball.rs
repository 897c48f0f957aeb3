//! The ball.
//!
//! The ball owns a position, a velocity direction, and a power; it advances
//! one step per tick, clamps itself to the field bounds, and reflects its
//! velocity off a given surface normal.
//!
//! Motion follows the exact line of the velocity direction: each axis keeps
//! an accumulator of sub-cell progress in units of one over the direction's
//! larger component magnitude, and crosses one cell when the accumulator
//! fills. The ball therefore moves at most one cell per axis per tick, and
//! the accumulators carry the exact remainder, so an unobstructed walk
//! follows the ideal grid line of the direction with no drift
//! (see [`lemma_axis_walk`]).
//!
//! Two clamping rules differ by one on purpose: `x` clamps to the last
//! column, while `y` clamps to the field height itself, one past the last
//! row; the rows at the bottom edge are terminal (the velocity zeroes there
//! and the game is over).

use vstd::prelude::*;
use vstd::arithmetic::div_mod::{
    lemma_fundamental_div_mod, lemma_fundamental_div_mod_converse_div,
    lemma_fundamental_div_mod_converse_mod, lemma_mod_bound, lemma_small_mod,
};
use crate::dimensions::Dimensions;
use crate::gcd::mag;
use crate::position::{sat_cell, Position};
use crate::vector::{bounced, Vector, DIR_LIMIT};

verus! {

/// The sign of an integer: `-1`, `0`, or `1`.
pub open spec fn sign(x: int) -> int {
    if x > 0 {
        1
    } else if x < 0 {
        -1
    } else {
        0
    }
}

/// The stepping denominator of a direction: its larger component magnitude.
/// Sub-cell progress is counted in units of one over this.
pub open spec fn step_denom(v: Vector) -> nat {
    if mag(v.x as int) >= mag(v.y as int) {
        mag(v.x as int)
    } else {
        mag(v.y as int)
    }
}

/// Whether one axis crosses a cell this tick: its accumulator, grown by the
/// component magnitude `m`, reaches the stepping denominator `l`.
pub open spec fn axis_crossed(acc: nat, m: nat, l: nat) -> bool {
    l > 0 && acc + m >= l
}

/// The axis accumulator after one tick: grown by `m`, less one denominator
/// if the axis crossed a cell.
pub open spec fn axis_acc_after(acc: nat, m: nat, l: nat) -> nat {
    if l == 0 {
        0
    } else if acc + m >= l {
        (acc + m - l) as nat
    } else {
        acc + m
    }
}

/// One axis of the walk iterated from a fresh accumulator: the accumulator
/// and the number of cells crossed after `t` ticks.
pub open spec fn axis_walk(t: nat, m: nat, l: nat) -> (nat, nat)
    decreases t,
{
    if t == 0 {
        (0, 0)
    } else {
        let (acc, crossed) = axis_walk((t - 1) as nat, m, l);
        (
            axis_acc_after(acc, m, l),
            if axis_crossed(acc, m, l) {
                crossed + 1
            } else {
                crossed
            },
        )
    }
}

/// Law: the walk follows the ideal line of the direction. After `t` ticks,
/// an axis with component magnitude `m` of a direction with stepping
/// denominator `l` has crossed exactly `t * m / l` cells, and the
/// accumulator holds the exact remainder — no drift, ever.
pub proof fn lemma_axis_walk(t: nat, m: nat, l: nat)
    requires
        m <= l,
        l > 0,
    ensures
        axis_walk(t, m, l).0 == (t * m) % l,
        axis_walk(t, m, l).1 == (t * m) / l,
    decreases t,
{
    let li = l as int;
    lemma_mod_bound((t * m) as int, li);
    if t == 0 {
        assert(t * m == 0) by (nonlinear_arith)
            requires
                t == 0,
        {
        }
        lemma_small_mod(0, l);
    } else {
        let s = (t - 1) as nat;
        lemma_axis_walk(s, m, l);
        let acc = axis_walk(s, m, l).0 as int;
        let crossed = axis_walk(s, m, l).1 as int;
        let sm = (s * m) as int;
        let tm = (t * m) as int;
        lemma_fundamental_div_mod(sm, li);
        lemma_mod_bound(sm, li);
        assert(tm == sm + m) by (nonlinear_arith)
            requires
                t == s + 1,
                tm == t * m,
                sm == s * m,
        {
        }
        if axis_crossed(axis_walk(s, m, l).0, m, l) {
            assert(tm == (crossed + 1) * li + (acc + m - li)) by (nonlinear_arith)
                requires
                    tm == sm + m,
                    sm == li * (sm / li) + sm % li,
                    crossed == sm / li,
                    acc == sm % li,
            {
            }
            lemma_fundamental_div_mod_converse_mod(tm, li, crossed + 1, acc + m - li);
            lemma_fundamental_div_mod_converse_div(tm, li, crossed + 1, acc + m - li);
        } else {
            assert(tm == crossed * li + (acc + m)) by (nonlinear_arith)
                requires
                    tm == sm + m,
                    sm == li * (sm / li) + sm % li,
                    crossed == sm / li,
                    acc == sm % li,
            {
            }
            lemma_fundamental_div_mod_converse_mod(tm, li, crossed, acc + m);
            lemma_fundamental_div_mod_converse_div(tm, li, crossed, acc + m);
        }
    }
}

/// The ball.
#[derive(Clone, Copy, Debug, PartialEq, Eq, Structural)]
pub struct Ball {
    pub position: Position,
    pub velocity: Vector,
    /// Sub-cell progress along x, in units of one over the stepping
    /// denominator of `velocity`.
    pub acc_x: u32,
    /// Sub-cell progress along y; see `acc_x`.
    pub acc_y: u32,
    pub power: u16,
    pub game_dimensions: Dimensions,
}

/// The ball after one unhindered step: each axis advances by at most one
/// cell along the exact line of the velocity, the position is clamped into
/// the field, and on reaching the bottom rows the velocity zeroes — the
/// terminal condition.
pub open spec fn ticked(b: Ball) -> Ball {
    let l = step_denom(b.velocity);
    let mx = mag(b.velocity.x as int);
    let my = mag(b.velocity.y as int);
    let dx = if axis_crossed(b.acc_x as nat, mx, l) {
        sign(b.velocity.x as int)
    } else {
        0
    };
    let dy = if axis_crossed(b.acc_y as nat, my, l) {
        sign(b.velocity.y as int)
    } else {
        0
    };
    let cx0 = sat_cell(b.position.x + dx);
    let cy0 = sat_cell(b.position.y + dy);
    let cx = if cx0 >= b.game_dimensions.width {
        b.game_dimensions.width - 1
    } else {
        cx0
    };
    let cy = if cy0 >= b.game_dimensions.height {
        b.game_dimensions.height as int
    } else {
        cy0
    };
    let stopped = cy >= b.game_dimensions.height - 1;
    Ball {
        position: Position { x: cx as u16, y: cy as u16 },
        velocity: if stopped {
            Vector { x: 0, y: 0 }
        } else {
            b.velocity
        },
        acc_x: if stopped {
            0
        } else {
            axis_acc_after(b.acc_x as nat, mx, l) as u32
        },
        acc_y: if stopped {
            0
        } else {
            axis_acc_after(b.acc_y as nat, my, l) as u32
        },
        power: b.power,
        game_dimensions: b.game_dimensions,
    }
}

impl Ball {
    /// The velocity is a unit direction or the terminal zero, the
    /// accumulators hold strictly sub-cell progress, and the position lies
    /// within the field — except that `y` may reach the height itself, the
    /// terminal row one past the last (see the module doc).
    pub open spec fn wf(self) -> bool {
        &&& self.velocity.bounded()
        &&& self.velocity.is_unit() || self.velocity.is_zero()
        &&& if self.velocity.is_zero() {
            self.acc_x == 0 && self.acc_y == 0
        } else {
            self.acc_x < step_denom(self.velocity) && self.acc_y < step_denom(self.velocity)
        }
        &&& self.game_dimensions.width >= 1
        &&& self.game_dimensions.height >= 1
        &&& self.position.x < self.game_dimensions.width
        &&& self.position.y <= self.game_dimensions.height
    }

    /// Create a new ball, initially travelling straight down.
    ///
    /// The power of a ball is the amount of damage it does to blocks when it
    /// collides.
    pub fn new(position: Position, game_dimensions: Dimensions, power: u16) -> (b: Ball)
        requires
            game_dimensions.width >= 1,
            game_dimensions.height >= 1,
            position.x < game_dimensions.width,
            position.y <= game_dimensions.height,
        ensures
            b.position == position,
            b.velocity == (Vector { x: 0, y: 1 }),
            b.acc_x == 0,
            b.acc_y == 0,
            b.power == power,
            b.game_dimensions == game_dimensions,
            b.wf(),
    {
        let velocity = Vector::new(0, 1);
        proof {
            reveal_with_fuel(crate::gcd::gcd, 3);
        }
        Ball { position, velocity, acc_x: 0, acc_y: 0, power, game_dimensions }
    }

    /// Get the x coordinate of the ball.
    pub fn x(&self) -> (r: u16)
        ensures
            r == self.position.x,
    {
        self.position.x()
    }

    /// Get the y coordinate of the ball.
    pub fn y(&self) -> (r: u16)
        ensures
            r == self.position.y,
    {
        self.position.y()
    }

    /// Get the power of the ball.
    pub fn power(&self) -> (r: u16)
        ensures
            r == self.power,
    {
        self.power
    }

    /// Get the velocity of the ball.
    pub fn velocity(&self) -> (r: Vector)
        ensures
            r == self.velocity,
    {
        self.velocity
    }

    /// Update the game dimensions; this moves the ball back into view if it
    /// would not be within the new dimensions, clamping each axis
    /// independently to the last valid cell.
    pub fn update_dimensions(&mut self, dimensions: Dimensions)
        requires
            old(self).wf(),
            dimensions.width >= 1,
            dimensions.height >= 1,
        ensures
            final(self).game_dimensions == dimensions,
            final(self).position.x == if old(self).position.x >= dimensions.width {
                dimensions.width - 1
            } else {
                old(self).position.x as int
            },
            final(self).position.y == if old(self).position.y >= dimensions.height {
                dimensions.height - 1
            } else {
                old(self).position.y as int
            },
            final(self).velocity == old(self).velocity,
            final(self).acc_x == old(self).acc_x,
            final(self).acc_y == old(self).acc_y,
            final(self).power == old(self).power,
            final(self).wf(),
    {
        self.game_dimensions = dimensions;
        if self.x() >= self.game_dimensions.width() {
            self.position = Position::new(self.game_dimensions.width() - 1, self.y());
        }
        if self.y() >= self.game_dimensions.height() {
            self.position = Position::new(self.x(), self.game_dimensions.height() - 1);
        }
    }

    /// Make the ball take a step; see [`ticked`] for exactly what one step
    /// does.
    pub fn tick(&mut self)
        requires
            old(self).wf(),
        ensures
            *final(self) == ticked(*old(self)),
            final(self).wf(),
    {
        let vx = self.velocity.x();
        let vy = self.velocity.y();
        let mx: u32 = (if vx < 0 {
            -vx
        } else {
            vx
        }) as u32;
        let my: u32 = (if vy < 0 {
            -vy
        } else {
            vy
        }) as u32;
        let l: u32 = if mx >= my {
            mx
        } else {
            my
        };
        let mut dx: i64 = 0;
        let mut dy: i64 = 0;
        if l > 0 {
            self.acc_x = self.acc_x + mx;
            if self.acc_x >= l {
                self.acc_x = self.acc_x - l;
                dx = if vx > 0 {
                    1
                } else if vx < 0 {
                    -1
                } else {
                    0
                };
            }
            self.acc_y = self.acc_y + my;
            if self.acc_y >= l {
                self.acc_y = self.acc_y - l;
                dy = if vy > 0 {
                    1
                } else if vy < 0 {
                    -1
                } else {
                    0
                };
            }
        }
        let mut new_position = self.position.offset(dx, dy);
        if new_position.x() >= self.game_dimensions.width() {
            new_position = Position::new(self.game_dimensions.width() - 1, new_position.y());
        }
        if new_position.y() >= self.game_dimensions.height() {
            new_position = Position::new(new_position.x(), self.game_dimensions.height());
        }
        if new_position.y() >= self.game_dimensions.height() - 1 {
            self.velocity = Vector::new(0, 0);
            self.acc_x = 0;
            self.acc_y = 0;
        }
        self.position = new_position;
    }

    /// Bounce the ball off in a normal: the velocity becomes its specular
    /// reflection about the given unit normal, exactly, in lowest terms (see
    /// [`Vector::reflect`] for the one unrepresentable case), and the
    /// sub-cell progress of the old direction is discarded.
    pub fn bounce(&mut self, normal: Vector)
        requires
            old(self).wf(),
            normal.bounded(),
            normal.is_unit(),
        ensures
            final(self).velocity == bounced(old(self).velocity, normal.x as int, normal.y as int),
            final(self).position == old(self).position,
            final(self).acc_x == 0,
            final(self).acc_y == 0,
            final(self).power == old(self).power,
            final(self).game_dimensions == old(self).game_dimensions,
            final(self).wf(),
    {
        self.velocity.reflect(&normal);
        self.acc_x = 0;
        self.acc_y = 0;
    }
}

} // verus!
