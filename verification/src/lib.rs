//! Compares two sets of separated audio stems (bass, drums, vocals, other) by
//! their time-frequency energy distributions.
//!
//! Audio samples and spectrogram energies are carried as 16-bit fixed-point
//! integers (see [`types::FP_ONE`]): the scale at which the decoder's output is
//! handed to this crate.  The short-time Fourier transform itself is delegated
//! to an outside FFT library through a trusted wrapper; the windowing, framing,
//! and both comparison metrics are verified here.

pub mod compare;
pub mod errors;
pub mod importerts;
pub mod progress;
pub mod spectograms;
pub mod types;
pub mod window;
