//! Verified core of a small ray tracer: the encoding of a finished image
//! into the portable pixmap formats, and the errors that encoding reports.
//!
//! The light-transport computation itself works on floating-point values and
//! is driven from the application crate; this library receives its output as
//! plain bytes and text.
pub mod decimal;
pub mod output_formats;
