//! A sample-by-sample synthesizer core: a registry of sounding notes, each with an
//! attack / sustain / release envelope, driven by a monotone sample clock.
//!
//! The library works in exact integers: intensities are fixed point (`envelope::UNITY`
//! is full level), times are microseconds, and each produced sample is described by
//! an `engine::Frame` (its clock index and the intensities of the notes sounding in
//! it), from which a renderer forms the signal.
pub mod envelope;
pub mod note;
pub mod engine;
pub mod laws;
