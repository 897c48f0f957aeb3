//! The simulation core: one ball, one bar, a collection of blocks, the field
//! dimensions, and a pause flag.
//!
//! Each tick advances the ball one step, then runs one collision-resolution
//! pass: the bar's top edge, the top, right and left field edges, and every
//! block, in that fixed order. The bar and edge checks each trigger their own
//! bounce independently, so bounces can stack within one tick; across the
//! block loop, the last matching block wins and is the one block that both
//! sets the bounce normal and absorbs damage. Reaching the bottom rows is the
//! terminal condition: the ball zeroes its own velocity and `game_over`
//! reports it.

use vstd::prelude::*;
use vstd::arithmetic::div_mod::{lemma_mod_add_multiples_vanish, lemma_small_mod, lemma_sub_mod_noop};
use crate::ball::{ticked, Ball};
use crate::bar::Bar;
use crate::block::{damaged, Block};
use crate::dimensions::Dimensions;
use crate::gcd::gcd;
use crate::position::Position;
use crate::vector::{bounced, reduced, Vector};
use rand::Rng;

verus! {

/// The ball sits exactly one row above the bar's row, within the bar's
/// horizontal span.
pub open spec fn bar_contact(ball: Ball, bar: Bar) -> bool {
    &&& ball.position.y + 1 == bar.position.y
    &&& bar.position.x <= ball.position.x
    &&& ball.position.x < bar.position.x + bar.dimensions.width
}

/// The bounce normal a bar contact gives: straight up from the exact
/// midpoint cell, up-and-right from right of it, up-and-left from left of
/// it. The slanted pairs are directions, not magnitudes: the ratio alone
/// sets the bounce angle.
pub open spec fn bar_normal(ball: Ball, bar: Bar) -> (int, int) {
    let midpoint = bar.position.x + bar.dimensions.width / 2;
    if ball.position.x == midpoint {
        (0, -1)
    } else if ball.position.x > midpoint {
        (1, -3)
    } else {
        (-1, -3)
    }
}

/// The normal from testing the ball at `(bx, by)` against one block: four
/// edge-proximity tests in order (top, bottom, right, left), overridden by a
/// full interior-overlap test that yields the diagonal normal. `None` when
/// nothing matches.
pub open spec fn block_hit_normal(bx: int, by: int, b: Block) -> Option<(int, int)> {
    let x = b.position.x as int;
    let y = b.position.y as int;
    let w = b.dimensions.width as int;
    let h = b.dimensions.height as int;
    if x <= bx < x + w && y <= by < y + h {
        Some((1, 1))
    } else if by + 1 == y && x <= bx < x + w {
        Some((0, -1))
    } else if by == y + h && x <= bx < x + w {
        Some((0, 1))
    } else if bx == x + w && y <= by < y + h {
        Some((1, 0))
    } else if bx + 1 == x && y <= by < y + h {
        Some((-1, 0))
    } else {
        None
    }
}

/// The block the collision pass settles on: the index and normal of the
/// *last* block in collection order that the ball contacts — later matches
/// overwrite earlier ones — or `None` when no block matches.
pub open spec fn scan_blocks(bx: int, by: int, blocks: Seq<Block>) -> Option<(int, (int, int))>
    decreases blocks.len(),
{
    if blocks.len() == 0 {
        None
    } else {
        let last = blocks.len() - 1;
        match block_hit_normal(bx, by, blocks[last]) {
            Some(n) => Some((last, n)),
            None => scan_blocks(bx, by, blocks.drop_last()),
        }
    }
}

/// Struct to store the game items.
///
/// Stored items include: ball, bar and blocks as well as game dimensions and
/// paused state.
#[verifier::ext_equal]
pub struct GameState {
    pub ball: Ball,
    pub bar: Bar,
    pub blocks: Vec<Block>,
    pub dimensions: Dimensions,
    pub paused: bool,
}

/// The game is over: the ball's row has reached the row above the bottom
/// edge, or gone past it.
pub open spec fn game_over_spec(gs: GameState) -> bool {
    gs.ball.position.y >= gs.dimensions.height - 1
}

/// The ball's velocity after the bar and edge checks of one collision pass:
/// each check whose condition holds applies its own bounce, in this fixed
/// order, so several may stack.
pub open spec fn velocity_after_walls(gs: GameState) -> Vector {
    let v0 = gs.ball.velocity;
    let v1 = if bar_contact(gs.ball, gs.bar) {
        bounced(v0, bar_normal(gs.ball, gs.bar).0, bar_normal(gs.ball, gs.bar).1)
    } else {
        v0
    };
    let v2 = if gs.ball.position.y == 0 {
        bounced(v1, 0, 1)
    } else {
        v1
    };
    let v3 = if gs.ball.position.x + 1 == gs.dimensions.width {
        bounced(v2, -1, 0)
    } else {
        v2
    };
    if gs.ball.position.x == 0 {
        bounced(v3, 1, 0)
    } else {
        v3
    }
}

/// The ball's velocity after one whole collision pass: the wall bounces,
/// then at most one block bounce, off the normal the block scan settled on.
pub open spec fn velocity_after_collisions(gs: GameState) -> Vector {
    let vw = velocity_after_walls(gs);
    match scan_blocks(gs.ball.position.x as int, gs.ball.position.y as int, gs.blocks@) {
        Some(hit) => bounced(vw, hit.1.0, hit.1.1),
        None => vw,
    }
}

/// The block collection after one collision pass: the one block the scan
/// settled on absorbs the ball's power, and leaves the collection if its
/// strength reaches zero.
pub open spec fn blocks_after_collisions(gs: GameState) -> Seq<Block> {
    match scan_blocks(gs.ball.position.x as int, gs.ball.position.y as int, gs.blocks@) {
        Some(hit) => {
            let b = damaged(gs.blocks@[hit.0], gs.ball.power);
            if b.strength == 0 {
                gs.blocks@.remove(hit.0)
            } else {
                gs.blocks@.update(hit.0, b)
            }
        },
        None => gs.blocks@,
    }
}

/// Some bar or edge check of the collision pass fires.
pub open spec fn wall_contact(gs: GameState) -> bool {
    ||| bar_contact(gs.ball, gs.bar)
    ||| gs.ball.position.y == 0
    ||| gs.ball.position.x + 1 == gs.dimensions.width
    ||| gs.ball.position.x == 0
}

/// Some check of the collision pass fires: any bounce discards the ball's
/// sub-cell progress.
pub open spec fn any_contact(gs: GameState) -> bool {
    wall_contact(gs) || scan_blocks(
        gs.ball.position.x as int,
        gs.ball.position.y as int,
        gs.blocks@,
    ) is Some
}

/// Where and how generated blocks lie: size three by one, strength one, in
/// the padded interior region, outside the central gap above the bar's
/// starting column, and on the width-three grid.
pub open spec fn gen_block_ok(b: Block, width: int, height: int) -> bool {
    &&& b.dimensions.width == 3
    &&& b.dimensions.height == 1
    &&& b.strength == 1
    &&& width / 10 <= b.position.x < width * 9 / 10
    &&& height / 10 <= b.position.y < height * 7 / 10
    &&& (b.position.x + 3 <= width / 2 || b.position.x >= width / 2 + 3)
    &&& (b.position.x - width / 10) % 3 == 0
}

/// Strict generation order: columns left to right, rows top to bottom within
/// a column.
pub open spec fn lex_before(a: Block, b: Block) -> bool {
    a.position.x < b.position.x || (a.position.x == b.position.x && a.position.y < b.position.y)
}

/// The two blocks occupy no common cell.
pub open spec fn blocks_disjoint(a: Block, b: Block) -> bool {
    ||| a.position.x + a.dimensions.width <= b.position.x
    ||| b.position.x + b.dimensions.width <= a.position.x
    ||| a.position.y + a.dimensions.height <= b.position.y
    ||| b.position.y + b.dimensions.height <= a.position.y
}

/// Two generated blocks in generation order never overlap: distinct columns
/// lie a full block width apart on the width-three grid, and within one
/// column the rows are distinct and blocks are one row tall.
pub proof fn lemma_generated_blocks_disjoint(a: Block, b: Block, width: int, height: int)
    requires
        gen_block_ok(a, width, height),
        gen_block_ok(b, width, height),
        lex_before(a, b),
    ensures
        blocks_disjoint(a, b),
{
    if a.position.x != b.position.x {
        let s = width / 10;
        let da = a.position.x - s;
        let db = b.position.x - s;
        lemma_sub_mod_noop(db, da, 3);
        assert((db - da) % 3 == 0);
        if db - da < 3 {
            lemma_small_mod((db - da) as nat, 3);
        }
    }
}

/// The option state the block loop carries, against the scan of the prefix
/// walked so far.
spec fn scan_state(
    bx: int,
    by: int,
    prefix: Seq<Block>,
    normal: Option<Vector>,
    index: Option<usize>,
) -> bool {
    match scan_blocks(bx, by, prefix) {
        None => normal is None && index is None,
        Some(hit) => {
            &&& 0 <= hit.0 < prefix.len()
            &&& index == Some(hit.0 as usize)
            &&& normal matches Some(v) && (v.x as int, v.y as int) == hit.1 && v.bounded()
                && v.is_unit()
        },
    }
}

/// The seven bounce normals the game hands out are already in lowest terms.
proof fn lemma_game_normals()
    ensures
        reduced(0, -1) == (0int, -1int),
        reduced(1, -3) == (1int, -3int),
        reduced(-1, -3) == (-1int, -3int),
        reduced(0, 1) == (0int, 1int),
        reduced(-1, 0) == (-1int, 0int),
        reduced(1, 0) == (1int, 0int),
        reduced(1, 1) == (1int, 1int),
{
    reveal_with_fuel(gcd, 4);
    crate::vector::lemma_reduced_of_coprime(0, -1);
    crate::vector::lemma_reduced_of_coprime(1, -3);
    crate::vector::lemma_reduced_of_coprime(-1, -3);
    crate::vector::lemma_reduced_of_coprime(0, 1);
    crate::vector::lemma_reduced_of_coprime(-1, 0);
    crate::vector::lemma_reduced_of_coprime(1, 0);
    crate::vector::lemma_reduced_of_coprime(1, 1);
}

/// Relies on `rand::Rng::gen_range` over `0..bound` from a thread-local
/// generator: it panics only on an empty range and returns a draw that lies
/// within the range. Nothing is assumed about which value comes back.
#[verifier::external_body]
fn random_below(bound: u32) -> (r: u32)
    requires
        bound >= 1,
    ensures
        r < bound,
{
    rand::thread_rng().gen_range(0..bound)
}

impl GameState {
    /// This state with the ball replaced and everything else as it was.
    pub open spec fn with_ball(self, ball: Ball) -> GameState {
        GameState { ball, ..self }
    }

    /// The entities agree on the field and each is itself well-formed.
    pub open spec fn wf(self) -> bool {
        &&& self.ball.wf()
        &&& self.bar.wf()
        &&& self.ball.game_dimensions == self.dimensions
        &&& self.bar.game_dimensions == self.dimensions
    }

    /// Create a new GameState struct.
    ///
    /// Uses width and height to set the game dimensions and, along with
    /// `block_density` (in thousandths: `0` never, `1000` always), generates
    /// the blocks in the game by an independent draw per candidate grid
    /// cell. Generation pads the field edges so blocks are not too close to
    /// them, and skips the columns directly above the bar's starting
    /// position.
    pub fn new(width: u16, height: u16, block_density: u16) -> (gs: GameState)
        requires
            width >= 10,
            height >= 2,
            block_density <= 1000,
        ensures
            gs.dimensions == (Dimensions { width, height }),
            gs.paused == true,
            gs.ball.position == (Position { x: (width / 2) as u16, y: (height / 2) as u16 }),
            gs.ball.velocity == (Vector { x: 0, y: 1 }),
            gs.ball.acc_x == 0 && gs.ball.acc_y == 0,
            gs.ball.power == 1,
            gs.ball.game_dimensions == gs.dimensions,
            gs.bar.position.x == width / 2 - 5,
            gs.bar.position.y == height - 2,
            gs.bar.dimensions == (Dimensions { width: 10u16, height: 1u16 }),
            gs.bar.game_dimensions == gs.dimensions,
            forall|i: int|
                0 <= i < gs.blocks@.len() ==> gen_block_ok(
                    #[trigger] gs.blocks@[i],
                    width as int,
                    height as int,
                ),
            forall|i: int, j: int|
                0 <= i < j < gs.blocks@.len() ==> lex_before(gs.blocks@[i], gs.blocks@[j]),
            forall|i: int, j: int|
                0 <= i < j < gs.blocks@.len() ==> blocks_disjoint(gs.blocks@[i], gs.blocks@[j]),
            gs.wf(),
    {
        let w10: u32 = width as u32 / 10;
        let w90: u32 = width as u32 * 9 / 10;
        let h10: u16 = height / 10;
        let h70: u16 = ((height as u32) * 7 / 10) as u16;
        let half: u32 = width as u32 / 2;
        let mut blocks: Vec<Block> = Vec::new();
        let mut x: u32 = w10;
        while x < w90
            invariant
                w10 == width as int / 10,
                w90 == width as int * 9 / 10,
                h10 == height as int / 10,
                h70 == height as int * 7 / 10,
                half == width as int / 2,
                w90 < width,
                width >= 10,
                height >= 2,
                x >= w10,
                (x - w10) % 3 == 0,
                forall|i: int|
                    0 <= i < blocks@.len() ==> gen_block_ok(
                        #[trigger] blocks@[i],
                        width as int,
                        height as int,
                    ),
                forall|i: int| 0 <= i < blocks@.len() ==> (#[trigger] blocks@[i]).position.x < x,
                forall|i: int, j: int|
                    0 <= i < j < blocks@.len() ==> lex_before(blocks@[i], blocks@[j]),
            decreases w90 + 3 - x,
        {
            if x + 3 <= half || x >= half + 3 {
                let mut y: u16 = h10;
                while y < h70
                    invariant
                        w10 == width as int / 10,
                        w90 == width as int * 9 / 10,
                        h10 == height as int / 10,
                        h70 == height as int * 7 / 10,
                        half == width as int / 2,
                        w90 < width,
                        width >= 10,
                        height >= 2,
                        x >= w10,
                        x < w90,
                        (x - w10) % 3 == 0,
                        x + 3 <= half || x >= half + 3,
                        y >= h10,
                        forall|i: int|
                            0 <= i < blocks@.len() ==> gen_block_ok(
                                #[trigger] blocks@[i],
                                width as int,
                                height as int,
                            ),
                        forall|i: int|
                            0 <= i < blocks@.len() ==> (#[trigger] blocks@[i]).position.x < x || (
                            blocks@[i].position.x == x && blocks@[i].position.y < y),
                        forall|i: int, j: int|
                            0 <= i < j < blocks@.len() ==> lex_before(blocks@[i], blocks@[j]),
                    decreases h70 - y,
                {
                    let roll = random_below(1000);
                    if roll < block_density as u32 {
                        blocks.push(
                            Block::new(Position::new(x as u16, y), Dimensions::new(3, 1), 1),
                        );
                    }
                    y = y + 1;
                }
            }
            proof {
                lemma_mod_add_multiples_vanish(x - w10, 3);
            }
            x = x + 3;
        }
        let game_dimensions = Dimensions::new(width, height);
        let bar_width: u16 = 10;
        let gs = GameState {
            ball: Ball::new(
                Position::new(width / 2, height / 2),
                game_dimensions,
                1,
            ),
            bar: Bar::new(
                Position::new((width / 2) - (bar_width / 2), height / 2),
                Dimensions::new(bar_width, 1),
                game_dimensions,
            ),
            blocks,
            dimensions: game_dimensions,
            paused: true,
        };
        proof {
            assert forall|i: int, j: int| 0 <= i < j < gs.blocks@.len() implies blocks_disjoint(
                gs.blocks@[i],
                gs.blocks@[j],
            ) by {
                lemma_generated_blocks_disjoint(
                    gs.blocks@[i],
                    gs.blocks@[j],
                    width as int,
                    height as int,
                );
            }
        }
        gs
    }

    /// Updates the dimensions of the game, triggering updates to the bar and
    /// ball too.
    pub fn update_dimensions(&mut self, width: u16, height: u16)
        requires
            old(self).wf(),
            width >= old(self).bar.dimensions.width,
            width >= 1,
            height >= 2,
        ensures
            final(self).dimensions == (Dimensions { width, height }),
            final(self).bar.position.x == if old(self).bar.position.x
                + old(self).bar.dimensions.width >= width {
                width - old(self).bar.dimensions.width
            } else {
                old(self).bar.position.x as int
            },
            final(self).bar.position.y == height - 2,
            final(self).bar.dimensions == old(self).bar.dimensions,
            final(self).ball.position.x == if old(self).ball.position.x >= width {
                width - 1
            } else {
                old(self).ball.position.x as int
            },
            final(self).ball.position.y == if old(self).ball.position.y >= height {
                height - 1
            } else {
                old(self).ball.position.y as int
            },
            final(self).ball.velocity == old(self).ball.velocity,
            final(self).ball.acc_x == old(self).ball.acc_x,
            final(self).ball.acc_y == old(self).ball.acc_y,
            final(self).ball.power == old(self).ball.power,
            final(self).blocks@ == old(self).blocks@,
            final(self).paused == old(self).paused,
            final(self).wf(),
    {
        let new_dimensions = Dimensions::new(width, height);
        self.bar.update_dimensions(new_dimensions);
        self.ball.update_dimensions(new_dimensions);
        self.dimensions = new_dimensions;
    }

    /// Retrieve a mutable reference to the bar.
    pub fn bar_mut(&mut self) -> (r: &mut Bar)
        ensures
            *r == old(self).bar,
            final(self).bar == *final(r),
            final(self).ball == old(self).ball,
            final(self).blocks@ == old(self).blocks@,
            final(self).dimensions == old(self).dimensions,
            final(self).paused == old(self).paused,
    {
        &mut self.bar
    }

    /// Retrieve an immutable reference to the bar.
    pub fn bar(&self) -> (r: &Bar)
        ensures
            *r == self.bar,
    {
        &self.bar
    }

    /// Retrieve a mutable reference to the ball.
    pub fn ball_mut(&mut self) -> (r: &mut Ball)
        ensures
            *r == old(self).ball,
            final(self).ball == *final(r),
            final(self).bar == old(self).bar,
            final(self).blocks@ == old(self).blocks@,
            final(self).dimensions == old(self).dimensions,
            final(self).paused == old(self).paused,
    {
        &mut self.ball
    }

    /// Retrieve an immutable reference to the ball.
    pub fn ball(&self) -> (r: &Ball)
        ensures
            *r == self.ball,
    {
        &self.ball
    }

    /// Retrieve a slice of the blocks.
    pub fn blocks(&self) -> (r: &[Block])
        ensures
            r@ == self.blocks@,
    {
        self.blocks.as_slice()
    }

    /// Retrieve the game width.
    pub fn width(&self) -> (r: u16)
        ensures
            r == self.dimensions.width,
    {
        self.dimensions.width()
    }

    /// Retrieve the game height.
    pub fn height(&self) -> (r: u16)
        ensures
            r == self.dimensions.height,
    {
        self.dimensions.height()
    }

    /// One collision-resolution pass; see the module doc for the order of
    /// checks and the last-match-wins rule across blocks.
    #[verifier::rlimit(100)]
    fn collisions(&mut self)
        requires
            old(self).wf(),
        ensures
            final(self).wf(),
            final(self).ball.position == old(self).ball.position,
            final(self).ball.velocity == velocity_after_collisions(*old(self)),
            final(self).ball.acc_x == if any_contact(*old(self)) {
                0int
            } else {
                old(self).ball.acc_x as int
            },
            final(self).ball.acc_y == if any_contact(*old(self)) {
                0int
            } else {
                old(self).ball.acc_y as int
            },
            final(self).ball.power == old(self).ball.power,
            final(self).ball.game_dimensions == old(self).ball.game_dimensions,
            final(self).blocks@ == blocks_after_collisions(*old(self)),
            final(self).bar == old(self).bar,
            final(self).dimensions == old(self).dimensions,
            final(self).paused == old(self).paused,
    {
        proof {
            lemma_game_normals();
        }
        // check ball with bar (simple first)
        if self.ball.y() as u32 + 1 == self.bar.y() as u32 && self.bar.x() <= self.ball.x()
            && self.ball.x() < self.bar.x() + self.bar.width() {
            // The ball bounces at one of three fixed angles, by which side of
            // the bar's midpoint it hit.
            let bar_midpoint = self.bar.x() + self.bar.width() / 2;
            if self.ball.x() == bar_midpoint {
                self.ball.bounce(Vector::new(0, -1));
            } else if self.ball.x() > bar_midpoint {
                self.ball.bounce(Vector::new(1, -3));
            } else {
                self.ball.bounce(Vector::new(-1, -3));
            }
        }
        // check ball with top edge of window
        if self.ball.y() == 0 {
            self.ball.bounce(Vector::new(0, 1));
        }
        // check ball with right edge
        if self.ball.x() + 1 == self.dimensions.width() {
            self.ball.bounce(Vector::new(-1, 0));
        }
        // check ball with left edge
        if self.ball.x() == 0 {
            self.ball.bounce(Vector::new(1, 0));
        }
        proof {
            assert(self.ball.velocity == velocity_after_walls(*old(self)));
        }
        let ghost bx = self.ball.position.x as int;
        let ghost by = self.ball.position.y as int;
        let mut block_normal: Option<Vector> = None;
        let mut block_index: Option<usize> = None;
        let mut i: usize = 0;
        // check ball with each block; the last match wins
        while i < self.blocks.len()
            invariant
                self.bar == old(self).bar,
                self.blocks == old(self).blocks,
                self.dimensions == old(self).dimensions,
                self.paused == old(self).paused,
                self.ball.position == old(self).ball.position,
                self.ball.power == old(self).ball.power,
                self.ball.game_dimensions == old(self).ball.game_dimensions,
                self.ball.wf(),
                self.ball.velocity == velocity_after_walls(*old(self)),
                self.ball.acc_x == if wall_contact(*old(self)) {
                    0int
                } else {
                    old(self).ball.acc_x as int
                },
                self.ball.acc_y == if wall_contact(*old(self)) {
                    0int
                } else {
                    old(self).ball.acc_y as int
                },
                bx == self.ball.position.x as int,
                by == self.ball.position.y as int,
                i <= self.blocks.len(),
                scan_state(bx, by, self.blocks@.take(i as int), block_normal, block_index),
            decreases self.blocks.len() - i,
        {
            let blk = self.blocks[i];
            let cx = self.ball.x() as u32;
            let cy = self.ball.y() as u32;
            let x = blk.x() as u32;
            let y = blk.y() as u32;
            let w = blk.width() as u32;
            let h = blk.height() as u32;
            if x <= cx && cx < x + w && y <= cy && cy < y + h {
                // ball collides with this block's interior
                block_normal = Some(Vector::new(1, 1));
                block_index = Some(i);
            } else if cy + 1 == y && x <= cx && cx < x + w {
                // ball collided with top edge of block
                block_normal = Some(Vector::new(0, -1));
                block_index = Some(i);
            } else if cy == y + h && x <= cx && cx < x + w {
                // ball collided with bottom edge of block
                block_normal = Some(Vector::new(0, 1));
                block_index = Some(i);
            } else if cx == x + w && y <= cy && cy < y + h {
                // ball collided with right edge of block
                block_normal = Some(Vector::new(1, 0));
                block_index = Some(i);
            } else if cx + 1 == x && y <= cy && cy < y + h {
                // ball collided with left edge of block
                block_normal = Some(Vector::new(-1, 0));
                block_index = Some(i);
            }
            proof {
                lemma_game_normals();
                assert(self.blocks@.take(i as int + 1).drop_last() =~= self.blocks@.take(
                    i as int,
                ));
                assert(self.blocks@.take(i as int + 1).last() == self.blocks@[i as int]);
            }
            i = i + 1;
        }
        proof {
            assert(self.blocks@.take(self.blocks@.len() as int) =~= self.blocks@);
        }
        if let Some(normal) = block_normal {
            self.ball.bounce(normal);
        }
        if let Some(idx) = block_index {
            let power = self.ball.power();
            let ghost pre = self.blocks@;
            self.blocks[idx].damage(power);
            if self.blocks[idx].strength() == 0 {
                self.blocks.remove(idx);
                proof {
                    assert(pre.update(idx as int, damaged(pre[idx as int], power)).remove(
                        idx as int,
                    ) =~= pre.remove(idx as int));
                }
            }
        }
    }

    /// Tick the game state.
    ///
    /// This checks if the game is paused or over and if not causes the game
    /// to take a tick. This means updating the position of the ball by one
    /// step and checking for collisions of the ball with the blocks or the
    /// bar. If there is a collision then the ball's velocity is updated for
    /// the next tick to use.
    pub fn tick(&mut self)
        requires
            old(self).wf(),
        ensures
            final(self).wf(),
            old(self).paused || game_over_spec(*old(self)) ==> *final(self) == *old(self),
            !old(self).paused && !game_over_spec(*old(self)) ==> ({
                let moved = old(self).with_ball(ticked(old(self).ball));
                &&& final(self).ball.position == ticked(old(self).ball).position
                &&& final(self).ball.velocity == velocity_after_collisions(moved)
                &&& final(self).ball.acc_x == if any_contact(moved) {
                    0int
                } else {
                    ticked(old(self).ball).acc_x as int
                }
                &&& final(self).ball.acc_y == if any_contact(moved) {
                    0int
                } else {
                    ticked(old(self).ball).acc_y as int
                }
                &&& final(self).ball.power == old(self).ball.power
                &&& final(self).ball.game_dimensions == old(self).ball.game_dimensions
                &&& final(self).blocks@ == blocks_after_collisions(moved)
                &&& final(self).bar == old(self).bar
                &&& final(self).dimensions == old(self).dimensions
                &&& final(self).paused == old(self).paused
            }),
    {
        if !self.paused && !self.game_over() {
            let ghost pre = *self;
            self.ball.tick();
            proof {
                assert(*self =~= pre.with_ball(ticked(pre.ball)));
            }
            self.collisions();
        }
    }

    /// Return whether the game is over or not: true exactly when the ball's
    /// row has reached the row above the bottom edge, recomputed from the
    /// current state on every call.
    pub fn game_over(&self) -> (r: bool)
        requires
            self.wf(),
        ensures
            r == game_over_spec(*self),
    {
        self.ball.y() >= self.dimensions.height() - 1
    }

    /// Return whether the game is paused or not.
    pub fn is_paused(&self) -> (r: bool)
        ensures
            r == self.paused,
    {
        self.paused
    }

    /// Pause the game.
    pub fn pause(&mut self)
        ensures
            final(self).paused == true,
            final(self).ball == old(self).ball,
            final(self).bar == old(self).bar,
            final(self).blocks@ == old(self).blocks@,
            final(self).dimensions == old(self).dimensions,
    {
        self.paused = true
    }

    /// Unpause the game.
    pub fn unpause(&mut self)
        ensures
            final(self).paused == false,
            final(self).ball == old(self).ball,
            final(self).bar == old(self).bar,
            final(self).blocks@ == old(self).blocks@,
            final(self).dimensions == old(self).dimensions,
    {
        self.paused = false
    }

    /// Toggle the paused state of the game.
    pub fn toggle_pause(&mut self)
        ensures
            final(self).paused == !old(self).paused,
            final(self).ball == old(self).ball,
            final(self).bar == old(self).bar,
            final(self).blocks@ == old(self).blocks@,
            final(self).dimensions == old(self).dimensions,
    {
        self.paused = !self.paused
    }
}

} // verus!
