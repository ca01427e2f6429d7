//! Recovery of Manchester-coded bits from a one-bit-per-byte sample stream:
//! a 16-tap low-pass FIR filter in fixed point, a threshold slicer, and an
//! edge-tracking decoder that rejects single-sample glitches.
pub mod decoder;
pub mod fir;
pub mod pipeline;
pub mod slicer;

pub use decoder::{decode, Demanchesterer, HalfBit, Level, RESYNC_RUN};
pub use fir::{filter, kernel_coefficient, FirFilter, KERNEL_SUM, SCALE, TAPS};
pub use pipeline::demodulate;
pub use slicer::{slice, symbols, THRESHOLD, WARM_UP};
