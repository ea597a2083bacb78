//! The shapes.

pub mod circle;
pub mod draw;
pub mod line;
pub mod pen;
pub mod rekt;
