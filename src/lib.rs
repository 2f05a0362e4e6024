//! Pitch detection core: a sample buffer filled by a capture source and
//! drained by the analyzer, the layout of overlapping analysis frames, the
//! strongest-bin estimator over a magnitude spectrum, the equal-tempered note
//! quantizer, and the published detection result.
pub mod buffer;
pub mod detection;
pub mod note;
pub mod spectrum;
