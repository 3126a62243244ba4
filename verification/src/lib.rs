//! Playback-synchronized audio spectrum pipeline.
//!
//! The crate has two halves, consumed in sequence once per rendered frame:
//! a sample extractor that keeps a fixed-capacity overwriting ring of the
//! most recent stereo frames in lock-step with a playback clock, and a
//! spectral processor that windows those frames, hands them to a forward
//! Fourier transform, and averages the resulting magnitudes into a fixed
//! number of output bins.
//!
//! All amplitudes are integers: decoded samples are `i16`, and the window
//! table uses 16.16 fixed-point scaling, so the whole pipeline around the
//! transform itself is verified. The transform runs on floating-point
//! complex values and therefore lives with the caller; the processor
//! states exactly what it does before handing samples out and after
//! taking magnitudes back.

mod ring;
mod extractor;
mod processing;

pub use ring::{StereoFrame, FrameRing};
pub use extractor::{Extractor, PullRequest};
pub use processing::{Processor, ProcessorOutput, Channel};
pub use processing::fft::{HannWindow, Mean, MeanExt};
