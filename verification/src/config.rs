//! Game configuration values.

use vstd::prelude::*;

verus! {

/// A struct for holding the config.
pub struct Config {
    /// The density to generate blocks at, in thousandths of certainty:
    /// `0` never places a block, `1000` places one at every candidate cell.
    pub block_density: u16,
    /// The strength of each block.
    pub block_strength: u16,
    /// The width of the bar.
    pub bar_width: u16,
    /// The strength of the ball.
    pub ball_power: u16,
}

impl Config {
    /// Create a new config.
    pub fn new(block_density: u16, block_strength: u16, bar_width: u16, ball_power: u16) -> (c:
        Self)
        requires
            block_density <= 1000,
        ensures
            c.block_density == block_density,
            c.block_strength == block_strength,
            c.bar_width == bar_width,
            c.ball_power == ball_power,
    {
        Self { block_density, block_strength, bar_width, ball_power }
    }
}

} // verus!
