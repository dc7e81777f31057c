//! Deterministic grayscale static for an RGBA8 pixel buffer.
//!
//! A surface owns its dimensions, a flat pixel buffer and the state word of
//! an xorshift32 generator. Rendering a frame draws one byte per pixel from
//! the generator and writes it to the three colour channels.
//!
//! - `generator`: the xorshift32 step and what is proved of it.
//! - `model`: a surface as a mathematical value, and what each operation
//!   makes of it.
//! - `surface`: the surface itself, `AntWar`.
//! - `laws`: what holds of the operations taken together.

pub mod generator;
pub mod laws;
pub mod model;
pub mod surface;

pub use surface::AntWar;
