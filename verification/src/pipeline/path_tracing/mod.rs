//! Path-tracing configuration and per-pixel sampling seeds.
pub mod tracer;
pub mod samples;
