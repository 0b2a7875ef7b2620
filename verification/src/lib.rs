//! Escape-time fractal rendering: brightness arithmetic, the escape
//! classification of an orbit, colour derivation and the filling of a
//! pixel canvas, each with a machine-checked contract.

pub mod brightness;
pub mod canvas;
pub mod color;
pub mod escape;
pub mod render;
