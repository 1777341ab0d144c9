//! Codec and container library for the Varian HND radiographic image format.
//!
//! An HND container is a fixed-layout 1024-byte metadata header followed by a
//! differentially compressed pixel payload: a packed 2-bit-per-pixel lookup
//! table selecting variable-width residual encodings, a raw-copy region
//! holding the first image row plus one pixel, and a stream of signed
//! residuals against a three-neighbour spatial predictor.
//!
//! The crate is organised leaf first: byte-level encodings (`bytes`), the
//! sequential cursor over a byte buffer (`cursor`), the header codec
//! (`header`), the pixel codec (`codec`) and the image container types
//! (`image`).
#![allow(non_snake_case)]
#![allow(non_camel_case_types)]

pub mod bytes;
pub mod codec;
pub mod cursor;
pub mod errors;
pub mod header;
pub mod image;

pub use codec::decode;
pub use codec::encode_u16;
pub use codec::encode_u32;
pub use errors::DecodeError;
pub use errors::EncodeError;
pub use header::hnd_header_t;
pub use image::HndImage;
pub use image::RawImage;
pub use image::Size2D;
