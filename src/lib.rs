//! Motion detection for a fixed camera: a double buffer for staged frame
//! transforms, a verified frame-comparison pipeline, and a single-slot store
//! that hands the latest sighting to readers.

pub mod double_buffer;
pub mod frame;
pub mod motion;
pub mod sighting;
