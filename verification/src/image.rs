//! Container types: a compressed image (header plus payload bytes), a raw
//! decoded image, and the dimension trait both share.
use crate::codec::{decode, decode_ok, dec_pix};
use crate::errors::DecodeError;
use crate::header::{hnd_header_t, spec_default_header, spec_header_bytes, HeaderV};
use vstd::prelude::*;

verus! {

/// Width and height of a two-dimensional image value.
pub trait Size2D {
    /// The width, as the contracts see it.
    spec fn spec_width(&self) -> usize;

    /// The height, as the contracts see it.
    spec fn spec_height(&self) -> usize;

    fn width(&self) -> (w: usize)
        ensures
            w == self.spec_width(),
    ;

    fn height(&self) -> (h: usize)
        ensures
            h == self.spec_height(),
    ;
}

/// A compressed container image: the parsed header and the payload bytes
/// that follow it on the wire.
pub struct HndImage {
    pub header: hnd_header_t,
    pub data: Vec<u8>,
}

/// A raw image: dimensions and the row-major flat grid of samples.
pub struct RawImage<T> {
    pub width: usize,
    pub height: usize,
    pub data: Vec<T>,
}

impl Size2D for HndImage {
    open spec fn spec_width(&self) -> usize {
        self.header.SizeX as usize
    }

    open spec fn spec_height(&self) -> usize {
        self.header.SizeY as usize
    }

    fn width(&self) -> usize {
        self.header.SizeX as usize
    }

    fn height(&self) -> usize {
        self.header.SizeY as usize
    }
}

impl<T> Size2D for RawImage<T> {
    open spec fn spec_width(&self) -> usize {
        self.width
    }

    open spec fn spec_height(&self) -> usize {
        self.height
    }

    fn width(&self) -> usize {
        self.width
    }

    fn height(&self) -> usize {
        self.height
    }
}

impl Size2D for hnd_header_t {
    open spec fn spec_width(&self) -> usize {
        self.SizeX as usize
    }

    open spec fn spec_height(&self) -> usize {
        self.SizeY as usize
    }

    fn width(&self) -> usize {
        self.SizeX as usize
    }

    fn height(&self) -> usize {
        self.SizeY as usize
    }
}

impl HndImage {
    /// Decodes the payload against the header's dimensions.
    pub fn to_raw_image(self) -> (r: Result<RawImage<u32>, DecodeError>)
        ensures
            r is Ok <==> decode_ok(
                self.data@,
                self.header.SizeX as int,
                self.header.SizeY as int,
            ),
            r matches Ok(img) ==> img.width == self.header.SizeX as usize && img.height
                == self.header.SizeY as usize && img.data@.len() == img.width * img.height
                && forall|i: int|
                0 <= i < img.data@.len() ==> img.data@[i] as int == dec_pix(
                    self.data@,
                    self.header.SizeX as int,
                    self.header.SizeY as int,
                    i,
                ),
    {
        let width = self.header.SizeX as usize;
        let height = self.header.SizeY as usize;
        let data = match decode(&self.data, width, height) {
            Ok(d) => d,
            Err(e) => {
                return Err(e);
            },
        };
        Ok(RawImage { width, height, data })
    }
}

/// A whole container: header record and payload, as read from or written
/// to one file.
pub struct hnd_t {
    pub header: hnd_header_t,
    pub data: Vec<u8>,
}

impl hnd_t {
    pub fn new(header: hnd_header_t, data: Vec<u8>) -> (r: hnd_t)
        ensures
            r.header@ == header@,
            r.data@ == data@,
    {
        hnd_t { header, data }
    }

    pub fn width(&self) -> (w: usize)
        ensures
            w == self.header.SizeX as usize,
    {
        self.header.SizeX as usize
    }

    pub fn height(&self) -> (h: usize)
        ensures
            h == self.header.SizeY as usize,
    {
        self.header.SizeY as usize
    }

    /// The container's wire form: the 1024 header bytes followed by the
    /// payload.
    pub fn to_raw(&self) -> (r: Vec<u8>)
        ensures
            r@ == spec_header_bytes(self.header@) + self.data@,
    {
        let mut out = self.header.to_raw();
        let n = self.data.len();
        let mut i: usize = 0;
        while i < n
            invariant
                i <= n == self.data@.len(),
                out@ == spec_header_bytes(self.header@) + self.data@.take(i as int),
            decreases n - i,
        {
            let b = self.data[i];
            out.push(b);
            proof {
                assert(out@ =~= spec_header_bytes(self.header@) + self.data@.take(i + 1));
            }
            i = i + 1;
        }
        proof {
            assert(self.data@.take(n as int) =~= self.data@);
        }
        out
    }

    /// A container around a bare payload of the given dimensions: the
    /// header carries only the dimensions, every other field is zero or
    /// empty.
    pub fn from_raw(raw_data: Vec<u8>, width: usize, height: usize) -> (r: hnd_t)
        requires
            width <= u32::MAX,
            height <= u32::MAX,
        ensures
            r.header@ == (HeaderV {
                SizeX: width as u32,
                SizeY: height as u32,
                ..spec_default_header()
            }),
            r.data@ == raw_data@,
    {
        let mut header = hnd_header_t::new();
        header.SizeX = width as u32;
        header.SizeY = height as u32;
        proof {
            assert(header@ =~= (HeaderV {
                SizeX: width as u32,
                SizeY: height as u32,
                ..spec_default_header()
            }));
        }
        hnd_t { header, data: raw_data }
    }
}

} // verus!
