//! Image export formats and the errors they report.
use vstd::prelude::*;

use crate::decimal::{as_text, decimal, push_decimal_text};

pub mod ppm;

verus! {

/// Errors in image generation.
#[derive(Debug, Clone, Copy, PartialEq, Eq, Structural)]
pub enum ExportError {
    /// The promised width and height, then the number of pixels actually given.
    SizeExceedsData(usize, usize, usize),
}

/// Whether a `width` × `height` image needs more pixels than `available`.
pub open spec fn size_exceeds(width: nat, height: nat, available: nat) -> bool {
    width * height > available
}

/// The text that describes an export error.
pub open spec fn message_text(error: ExportError) -> Seq<char> {
    match error {
        ExportError::SizeExceedsData(width, height, size) => {
            "PPMError: Promised size ("@ + as_text(decimal(width as nat)) + "x"@ + as_text(
                decimal(height as nat),
            ) + "="@ + as_text(decimal(width as nat * height as nat))
                + ") exceeds the actual data ("@ + as_text(decimal(size as nat)) + ")"@
        },
    }
}

impl ExportError {
    /// Describes the error in words, with its figures in decimal.
    pub fn message(&self) -> (r: String)
        ensures
            r@ == message_text(*self),
    {
        match self {
            ExportError::SizeExceedsData(width, height, size) => {
                let w: u128 = *width as u128;
                let h: u128 = *height as u128;
                proof {
                    lemma_product_fits(*width, *height);
                }
                let mut out = String::from_str("PPMError: Promised size (");
                push_decimal_text(&mut out, w);
                out.append("x");
                push_decimal_text(&mut out, h);
                out.append("=");
                push_decimal_text(&mut out, w * h);
                out.append(") exceeds the actual data (");
                push_decimal_text(&mut out, *size as u128);
                out.append(")");
                out
            },
        }
    }
}

/// The product of two `usize` values fits in a `u128`.
proof fn lemma_product_fits(a: usize, b: usize)
    ensures
        a as int * b as int <= u128::MAX,
{
    assert(a as int * b as int <= (u64::MAX as int) * (u64::MAX as int)) by (nonlinear_arith)
        requires
            a as int <= u64::MAX,
            b as int <= u64::MAX,
            0 <= a,
            0 <= b,
    ;
}

} // verus!
