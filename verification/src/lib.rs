//! Player motion and cursor-facing logic for a top-down 2D game.
//!
//! The library models the two per-frame systems of the game exactly:
//! keyboard-driven movement of the player and rotation of the player towards
//! the mouse cursor.  All quantities are kept as exact numbers of the form
//! `(a + b*sqrt(2)) / d` (the square root of two enters when a diagonal key
//! combination is normalized to unit length), so every contract states the
//! resulting position and orientation precisely, with no rounding.

pub mod player;
pub mod scalar;
pub mod vec2;
