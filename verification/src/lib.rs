//! Where a pointing ray meets a screen: the corner bookkeeping, the screen's
//! validity rule and the text protocol that carries the computed point.
//!
//! Coordinates travel through this crate as binary64 bit patterns, so every
//! value keeps exactly the number it was given.

pub mod binary64;
pub mod point3d;
pub mod screen;
pub mod protocol;
pub mod pointer;
pub mod points;
