//! Rewrites an animated GIF's frame sequence so that every frame carries one
//! uniform inter-frame delay while preserving the original visual timing.
//!
//! The uniform delay is the iterated GCD of all per-frame delays (with a floor
//! of two hundredths of a second); each original frame is then expanded into
//! `ceil(delay / uniform)` output frames, substituting cheap 1x1 transparent
//! fillers where the frame's disposal method allows it. Before expansion the
//! transparent palette index of every frame (and of the global palette) is
//! relocated to index 0.
//!
//! Decoding and encoding the on-disk GIF structure is left to a separate
//! front end; this crate works on plain frame values.

pub mod cli;
pub mod delay;
pub mod expand;
pub mod frame;
pub mod pipeline;
pub mod transparency;
