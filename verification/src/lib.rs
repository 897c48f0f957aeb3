//! A deterministic, tick-driven simulation core for a block-breaker arcade
//! game: a ball bounces between a player-controlled bar, destructible blocks,
//! and the edges of a rectangular playing field.
//!
//! All coordinates are integer grid cells, and directions are exact integer
//! pairs kept in lowest terms, so every collision and reflection is computed
//! without rounding error.

use vstd::prelude::*;

pub mod ball;
pub mod bar;
pub mod block;
pub mod config;
pub mod dimensions;
pub mod gamestate;
pub mod gcd;
pub mod position;
pub mod vector;

pub use ball::Ball;
pub use bar::Bar;
pub use block::Block;
pub use config::Config;
pub use dimensions::Dimensions;
pub use gamestate::GameState;
pub use position::Position;
pub use vector::Vector;
