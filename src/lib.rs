//! Per-key volume compensation for sampled pianos: the integer and byte-level
//! parts of the analysis pipeline, with their contracts.
pub mod channels;
pub mod encoding;
pub mod slices;
pub mod smoothing;
