//! Numeric analysis kernel for one-dimensional and batched signal arrays.
//!
//! A signal is a read-only sequence of exact integer samples. The kernel
//! locates the global maximum of a signal, computes first differences, and
//! detects local maxima together with their prominence (the height of a peak
//! above the higher of its two flanking valley minima). A batched entry point
//! applies the detector to each row of a two-dimensional input in parallel,
//! preserving row order in the output.

pub mod batch;
pub mod laws;
pub mod peaks;
pub mod scan;
