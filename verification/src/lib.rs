//! The drawing core of a screen-annotation overlay: colours and stroke
//! styles, the drawing tools and their geometry, the per-output draw list,
//! and the state machine that routes pointer and keyboard events to the
//! draw in progress.
//!
//! All lengths and coordinates are fixed-point numbers with eight fractional
//! bits, the resolution at which a Wayland compositor reports pointer
//! positions: the integer `n` stands for `n / 256` pixels.

pub mod color;
pub mod config;
pub mod draw;
pub mod keymap;
pub mod mousemap;
pub mod output;
pub mod pause;
pub mod record;
pub mod render;
pub mod runtime;
pub mod text;
pub mod tools;
