//! A library for a single-endpoint QR-code service: it decides, from a
//! request's path and `Accept` header, which representation of a QR code to
//! produce (glyph text, a PNG image, or an HTML page embedding that PNG),
//! and renders a QR module matrix into that representation.

use vstd::prelude::*;

pub mod classify;
pub mod render;
pub mod service;
pub mod text;

pub use text::truncate_str;

verus! {

/// Upper bound, in characters, on header values and paths as used for
/// classification; longer values are cut before inspection.
pub const TRUNCATE_LEN: usize = 1024;

} // verus!
