//! Pixel-level color compositing and blending.
//!
//! Colors are four-channel (red, green, blue, alpha) values generic over a
//! channel kind: 8-bit, 16-bit, or a normalized fixed-point kind in which a
//! channel holds `v` to mean the real value `v / UNIT` on the unit interval.
//! The fixed-point kind carries the Porter-Duff compositing algebra, the
//! separable per-channel blend modes and the non-separable HSL-style modes,
//! each with an exact arithmetic contract.

pub mod arith;
pub mod blend;
pub mod color;
