//! A small real-time presentation engine: a fixed-timestep update/render
//! loop, a pixel canvas with clipped drawing, keyboard state tracking, and a
//! terminal backend that redraws only what changed between frames; and the
//! game objects of programs built on it (a breakout game, falling tetrominoes).
pub mod board;
pub mod canvas;
pub mod color;
pub mod engine;
pub mod in_memory;
pub mod input;
pub mod noop_input;
pub mod number_animations;
pub mod shell_smash;
pub mod terminal;
pub mod tetromino;
pub mod terminal_input;
pub mod window_input;
