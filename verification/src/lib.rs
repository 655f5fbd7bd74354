//! The Food Pyramid's rules: the discrete decisions of a breakout match on a kitchen
//! counter, verified.
//!
//! - `bricks`: what a ball's touch does to a brick.
//! - `types`: the match's states, the paddles' sides, the tongs' facings and jaw
//!   controls, and the clip names they share with the art.
//! - `jaw`: which of the five jaw poses each frame of a tong clip draws.
//! - `paddles`: what the jaw's devices ask, which ask the jaw keeps, and where a resting
//!   tong moves.
//! - `flow`: launching, restarting, winning, spending a life and who serves next.
//! - `foods`: the six foods of the wall, their sheets, and the whole-number tuning.
//! - `levels`: the brick names and tags a level scene is read from.
//! - `spawning`: brick names and payouts, the playfield per mode, and the clip tables.
//! - `power_ups`: what the candies grant.
//! - `menu`: the title screen's rows and what confirming each does.
//! - `hud`: the words the match draws.
//! - `volley`: the balls in flight, the chomped balls, and what losing a volley costs.
//! - `text`: the character-level helpers the names and tags are read with.

pub mod bricks;
pub mod flow;
pub mod foods;
pub mod hud;
pub mod jaw;
pub mod levels;
pub mod menu;
pub mod paddles;
pub mod power_ups;
pub mod spawning;
pub mod text;
pub mod types;
pub mod volley;
