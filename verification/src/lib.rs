//! Signal-processing core of a stereo slap-delay effect.
//!
//! The engine keeps one circular delay line per channel and a single write
//! cursor shared by both.  `configure` sizes and clears the lines for a
//! sample rate; `process_block` delays a block of samples in place and
//! crossfades the delayed signal with the dry one.  Samples are fixed-point
//! integers; the surrounding host adapter converts to and from its own
//! sample format and hands parameter values in as plain integers.

pub mod engine;
pub mod laws;
pub mod model;
