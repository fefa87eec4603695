//! Long-exposure image synthesis: selects frames extracted from a video,
//! blends them pixel by pixel with one of two strategies (per-channel maximum
//! or a brightness-weighted average), and renders the composite as a PNG.

pub mod blend;
pub mod codec;
pub mod compose;
pub mod engine;
pub mod error;
pub mod frame;
pub mod laws;
pub mod math;
pub mod names;
pub mod paths;
pub mod pixel;
pub mod project;
pub mod select;
