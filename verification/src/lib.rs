//! Rendering core of a small path tracer.
//!
//! The geometric and optical arithmetic of the tracer runs on `f64`
//! values, which the verifier does not accept; that arithmetic lives with
//! the program around this library. What the library holds, fully
//! verified, are the exact integer parts of the pipeline: the order of
//! binary64 values read from their bit patterns, on which every decision
//! of the tracer rests; the intersection protocol's root acceptance rule
//! with its closed interval; the near-zero guard of the scatter code; the
//! rule that quantizes a gamma-corrected color channel to a display
//! integer in 0..=255; and the plain-text image output — decimal
//! formatting, per-pixel lines, the header, and the assembly of a whole
//! document from pixels or from per-scanline rows in row-major order.

pub mod color;
pub mod f64bits;
pub mod hittable;
pub mod image;
pub mod vec3;
