//! Error taxonomy of the codec: malformed containers on the decode side,
//! unrepresentable residuals or bad dimensions on the encode side.
use vstd::prelude::*;

verus! {

/// A container (header bytes or pixel payload) that cannot be decoded.
#[derive(Clone, Copy, Debug, PartialEq, Eq, Structural)]
pub enum DecodeError {
    /// A header buffer whose length is not exactly 1024 bytes.
    WrongBufferLength,
    /// A text field of the header that is not valid UTF-8.
    InvalidText,
    /// Dimensions under which no payload is well formed: zero width, height
    /// below two, or a lookup table region too small for its codes.
    InvalidDims,
    /// A payload that ends before every pixel has been produced.
    Truncated,
    /// A 2-bit lookup table code with the reserved value 3.
    InvalidLutCode,
    /// A reconstructed pixel value outside the unsigned 32-bit range.
    PixelOutOfRange,
}

/// A pixel grid that cannot be encoded.
#[derive(Clone, Copy, Debug, PartialEq, Eq, Structural)]
pub enum EncodeError {
    /// Zero width, height below two, a lookup table region too small for its
    /// codes, or a grid whose length is not `width * height`.
    InvalidDims,
    /// A residual outside the signed 32-bit range.
    ResidualOverflow,
}

} // verus!
