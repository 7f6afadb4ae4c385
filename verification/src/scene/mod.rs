//! Scene data: texture layout.
pub mod material;
