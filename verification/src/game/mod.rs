//! The game state and its rules: rounds, the snake's steps, food, bombs,
//! power-ups, challenges and the recording of high scores.
//!
//! Times are kept in microseconds. The frame loop that reads keys, draws,
//! plays sounds, animates particles and saves the score file lives outside
//! this crate; it hands in the keys pressed and the time elapsed, and gets
//! back the cues to play, the bursts to draw and whether the table changed.

pub mod frame;
pub mod input;
pub mod round;
pub mod showcase;
pub mod state;
pub mod step;

pub use frame::FrameOutcome;
pub use input::{direction_from_keys, InputState};
pub use round::ActiveEffect;
pub use state::Game;
pub use step::{Burst, StepOutcome};
