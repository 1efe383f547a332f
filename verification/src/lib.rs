//! NeonSnake's game rules: the board, the snake state machine, hazards,
//! power-ups, level themes, the high-score table and its file format, and
//! the WAV container used for the generated sound effects.

pub mod grid;
pub mod kinds;
pub mod pace;
pub mod hazards;
pub mod scores;
pub mod score_file;
pub mod wav;
pub mod random;
pub mod game;
