//! Pattern rendering for an addressable LED strip: a fixed-point HSV color
//! model, a triangle phase generator, sparkle envelopes, the pattern
//! renderers, the frame encoding and the per-tick render state machine.

pub mod color;
pub mod control;
pub mod engine;
pub mod envelope;
pub mod frame;
pub mod pattern;
mod random;
pub mod wave;

pub use control::index;
pub use color::{hsv_to_rgb8, interpolate2, interpolate3, HsvColor, Rgb8, ONE};
pub use engine::{EngineConfig, PatternCommand, RenderEngine};
pub use envelope::{SparkleEnvelope, SparkleSeed, Stage};
pub use frame::encode_frame;
pub use pattern::{Palette, Pattern};
pub use wave::triangle_wave;
