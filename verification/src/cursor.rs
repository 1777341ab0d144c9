//! Sequential byte cursor: typed fixed-width reads over a byte buffer and
//! typed appending writes building one up, as the header codec needs them.
use crate::bytes::{
    is_utf8, le_bytes_of, le_val, pad_bytes, read_le_u32, read_le_u64, push_le_u32, push_le_u64,
    trim_zeros, utf8_range_valid,
};
use crate::errors::DecodeError;
use vstd::prelude::*;

verus! {

/// A byte buffer with a cursor. Reads advance `pos` over `data`; writes
/// append to `data` and leave `pos` at its end.
pub struct Buf {
    pub data: Vec<u8>,
    pub pos: usize,
}

impl Buf {
    /// A fresh, empty write buffer.
    pub fn new() -> (b: Buf)
        ensures
            b.data@ == Seq::<u8>::empty(),
            b.pos == 0,
    {
        Buf { data: Vec::new(), pos: 0 }
    }

    /// A read cursor at the start of `d`.
    pub fn from(d: Vec<u8>) -> (b: Buf)
        ensures
            b.data@ == d@,
            b.pos == 0,
    {
        Buf { data: d, pos: 0 }
    }

    /// Reads a fixed-width text slot of `size` bytes: the slot must be
    /// well-formed UTF-8, and trailing zero padding is stripped.
    pub fn read_string(&mut self, size: usize) -> (r: Result<Vec<u8>, DecodeError>)
        requires
            old(self).pos + size <= old(self).data@.len(),
        ensures
            final(self).data@ == old(self).data@,
            final(self).pos == old(self).pos + size,
            ({
                let slot = old(self).data@.subrange(
                    old(self).pos as int,
                    old(self).pos + size,
                );
                &&& r is Ok <==> is_utf8(slot)
                &&& (r matches Ok(v) ==> v@ == trim_zeros(slot))
                &&& (r is Err ==> r == Err::<Vec<u8>, DecodeError>(DecodeError::InvalidText))
            }),
    {
        let ghost slot = self.data@.subrange(self.pos as int, self.pos + size);
        let _n = self.data.len();
        let start = self.pos;
        let end = self.pos + size;
        self.pos = end;
        if !utf8_range_valid(&self.data, start, end) {
            return Err(DecodeError::InvalidText);
        }
        let mut stop = end;
        while stop > start && self.data[stop - 1] == 0
            invariant
                start <= stop <= end <= self.data@.len(),
                self.data@.subrange(start as int, end as int) == slot,
                trim_zeros(self.data@.subrange(start as int, stop as int)) == trim_zeros(slot),
            decreases stop,
        {
            proof {
                let cur = self.data@.subrange(start as int, stop as int);
                assert(cur[cur.len() - 1] == 0);
                assert(cur.drop_last() =~= self.data@.subrange(start as int, stop as int - 1));
            }
            stop = stop - 1;
        }
        proof {
            let cur = self.data@.subrange(start as int, stop as int);
            if stop > start {
                assert(cur[cur.len() - 1] != 0);
            }
            assert(trim_zeros(cur) == cur);
        }
        let mut v: Vec<u8> = Vec::new();
        let mut j = start;
        while j < stop
            invariant
                start <= j <= stop <= self.data@.len(),
                v@.len() == j - start,
                forall|p: int| 0 <= p < v@.len() ==> v@[p] == self.data@[start + p],
            decreases stop - j,
        {
            let b = self.data[j];
            v.push(b);
            j = j + 1;
        }
        proof {
            assert(v@ =~= self.data@.subrange(start as int, stop as int));
        }
        Ok(v)
    }

    /// Reads a little-endian 32-bit integer.
    pub fn read_u32(&mut self) -> (v: u32)
        requires
            old(self).pos + 4 <= old(self).data@.len(),
        ensures
            final(self).data@ == old(self).data@,
            final(self).pos == old(self).pos + 4,
            v as int == le_val(old(self).data@, old(self).pos as int, 4),
    {
        let _n = self.data.len();
        let v = read_le_u32(&self.data, self.pos);
        self.pos = self.pos + 4;
        v
    }

    /// Reads the bit pattern of a little-endian 64-bit field. The eight
    /// bytes carry an IEEE-754 double; the codec treats it as an opaque
    /// 64-bit pattern and never interprets it.
    pub fn read_f64_bits(&mut self) -> (v: u64)
        requires
            old(self).pos + 8 <= old(self).data@.len(),
        ensures
            final(self).data@ == old(self).data@,
            final(self).pos == old(self).pos + 8,
            v as int == le_val(old(self).data@, old(self).pos as int, 8),
    {
        let _n = self.data.len();
        let v = read_le_u64(&self.data, self.pos);
        self.pos = self.pos + 8;
        v
    }

    /// Appends a fixed-width text slot of `size` bytes: up to `size`
    /// bytes of `s`, zero-padded to the slot width. A longer `s` is
    /// silently truncated.
    pub fn write_string(&mut self, s: &Vec<u8>, size: usize)
        ensures
            final(self).data@ == old(self).data@ + pad_bytes(s@, size as nat),
            final(self).pos == final(self).data@.len(),
    {
        let mut i: usize = 0;
        while i < size
            invariant
                i <= size,
                self.data@ == old(self).data@ + pad_bytes(s@, i as nat),
            decreases size - i,
        {
            let b = if i < s.len() {
                s[i]
            } else {
                0u8
            };
            self.data.push(b);
            proof {
                assert(self.data@ =~= old(self).data@ + pad_bytes(s@, i as nat + 1));
            }
            i = i + 1;
        }
        self.pos = self.data.len();
    }

    /// Appends a little-endian 32-bit integer.
    pub fn write_u32(&mut self, v: u32)
        ensures
            final(self).data@ == old(self).data@ + le_bytes_of(v as int, 4),
            final(self).pos == final(self).data@.len(),
    {
        push_le_u32(&mut self.data, v);
        self.pos = self.data.len();
    }

    /// Appends the bit pattern of a little-endian 64-bit field (the wire
    /// form of an IEEE-754 double, handled as an opaque pattern).
    pub fn write_f64_bits(&mut self, v: u64)
        ensures
            final(self).data@ == old(self).data@ + le_bytes_of(v as int, 8),
            final(self).pos == final(self).data@.len(),
    {
        push_le_u64(&mut self.data, v);
        self.pos = self.data.len();
    }
}

} // verus!
