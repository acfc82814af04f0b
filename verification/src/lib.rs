//! Core of an interactive vector-graphics renderer: a layer cache with stable
//! identities, a mesh joiner for single-draw-call geometry, a two-tier
//! CPU/GPU mesh cache, a vectorized glyph cache, and a cubic Bezier
//! arc-length sampler.
//!
//! All geometry is carried in fixed-point "milli" units (one thousandth of a
//! pixel), the same quantization the stroke options use so that styles stay
//! hashable and cache keys stay exact.

pub mod ids;
pub mod style;
pub mod geometry;
pub mod mesh;
pub mod cache;
pub mod bezier;
pub mod font;
pub mod scene;
