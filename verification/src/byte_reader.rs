//! A cursor over a byte slice that reads big-endian primitives and
//! Modified UTF-8 (Java's CESU-8 variant) strings with bounds checking.

use vstd::prelude::*;
use vstd::slice::{slice_index_get, slice_subrange, slice_to_vec};

verus! {

/// How a read of the underlying bytes can fail.
#[derive(Debug, Clone, Copy, PartialEq, Eq, Structural)]
pub enum ReadError {
    /// Fewer bytes remain than the read requires.
    UnexpectedEOF,
    /// The bytes are not valid Modified UTF-8. The decoding library
    /// reports this failure through a fieldless error value, so there
    /// is no underlying cause to carry.
    Cesu8DecodingError,
}

/// The big-endian `u16` held at offset `i` of `s`.
pub open spec fn u16_at(s: Seq<u8>, i: int) -> u16 {
    ((s[i] as int) * 0x100 + (s[i + 1] as int)) as u16
}

/// The big-endian `u32` held at offset `i` of `s`.
pub open spec fn u32_at(s: Seq<u8>, i: int) -> u32 {
    ((s[i] as int) * 0x100_0000 + (s[i + 1] as int) * 0x1_0000 + (s[i + 2] as int) * 0x100 + (s[i
        + 3] as int)) as u32
}

/// The big-endian `u64` held at offset `i` of `s`.
pub open spec fn u64_at(s: Seq<u8>, i: int) -> u64 {
    ((u32_at(s, i) as int) * 0x1_0000_0000 + (u32_at(s, i + 4) as int)) as u64
}

/// The big-endian two's-complement `i8` held at offset `i` of `s`.
pub open spec fn i8_at(s: Seq<u8>, i: int) -> i8 {
    if s[i] < 0x80 {
        s[i] as i8
    } else {
        ((s[i] as int) - 0x100) as i8
    }
}

/// The big-endian two's-complement `i16` held at offset `i` of `s`.
pub open spec fn i16_at(s: Seq<u8>, i: int) -> i16 {
    if u16_at(s, i) < 0x8000 {
        u16_at(s, i) as i16
    } else {
        ((u16_at(s, i) as int) - 0x1_0000) as i16
    }
}

/// The big-endian two's-complement `i32` held at offset `i` of `s`.
pub open spec fn i32_at(s: Seq<u8>, i: int) -> i32 {
    if u32_at(s, i) < 0x8000_0000 {
        u32_at(s, i) as i32
    } else {
        ((u32_at(s, i) as int) - 0x1_0000_0000) as i32
    }
}

/// The big-endian two's-complement `i64` held at offset `i` of `s`.
pub open spec fn i64_at(s: Seq<u8>, i: int) -> i64 {
    if u64_at(s, i) < 0x8000_0000_0000_0000 {
        u64_at(s, i) as i64
    } else {
        ((u64_at(s, i) as int) - 0x1_0000_0000_0000_0000) as i64
    }
}

/// What `cesu8::from_java_cesu8` decodes a byte sequence to: the character
/// sequence, or `None` when the bytes are not valid Modified UTF-8. The
/// decoding depends on the bytes alone.
pub uninterp spec fn java_cesu8_decoded(b: Seq<u8>) -> Option<Seq<char>>;

/// Relies on `cesu8::from_java_cesu8`: it decodes Modified UTF-8 bytes,
/// failing exactly on malformed input, and hands bytes that are already
/// valid UTF-8 (in particular, pure ASCII) back unchanged.
#[verifier::external_body]
fn decode_java_cesu8(bytes: &[u8]) -> (r: Option<String>)
    ensures
        (match r {
            Some(t) => java_cesu8_decoded(bytes@) == Some(t@),
            None => java_cesu8_decoded(bytes@) is None,
        }),
        (match r {
            Some(t) => (forall|i: int| 0 <= i < bytes@.len() ==> bytes@[i] < 0x80) ==> t@
                == Seq::new(bytes@.len(), |i: int| bytes@[i] as char),
            None => exists|i: int| 0 <= i < bytes@.len() && bytes@[i] >= 0x80,
        }),
{
    match cesu8::from_java_cesu8(bytes) {
        Ok(s) => Some(s.into_owned()),
        Err(_) => None,
    }
}

/// A cursor over an immutable byte slice. The current offset only grows,
/// and is the single authority for the parse position.
#[derive(Debug, Clone)]
pub struct ByteReader<'a> {
    buf: &'a [u8],
    pos: usize,
}

impl<'a> ByteReader<'a> {
    /// The bytes the cursor reads from.
    pub closed spec fn data(self) -> Seq<u8> {
        self.buf@
    }

    /// The current offset into the bytes.
    pub closed spec fn position(self) -> int {
        self.pos as int
    }

    /// The offset never exceeds the length of the underlying slice.
    pub open spec fn wf(self) -> bool {
        0 <= self.position() <= self.data().len()
    }

    pub fn new(data: &'a [u8]) -> (r: Self)
        ensures
            r.data() == data@,
            r.position() == 0,
            r.wf(),
    {
        ByteReader { buf: data, pos: 0 }
    }

    /// The current offset, as a value.
    pub fn pos(&self) -> (r: usize)
        ensures
            r == self.position(),
    {
        self.pos
    }

    /// Reads `size` bytes, or fails without moving when fewer remain.
    pub fn read_bytes(&mut self, size: usize) -> (r: Result<&'a [u8], ReadError>)
        requires
            old(self).wf(),
        ensures
            final(self).wf(),
            final(self).data() == old(self).data(),
            old(self).position() + size <= old(self).data().len() ==> (r matches Ok(b)
                && b@ == old(self).data().subrange(
                old(self).position(),
                old(self).position() + size,
            ) && final(self).position() == old(self).position() + size),
            old(self).position() + size > old(self).data().len() ==> (r == Err::<
                &[u8],
                ReadError,
            >(ReadError::UnexpectedEOF) && final(self).position() == old(self).position()),
    {
        if size > self.buf.len() - self.pos {
            Err(ReadError::UnexpectedEOF)
        } else {
            let bytes = slice_subrange(self.buf, self.pos, self.pos + size);
            self.pos = self.pos + size;
            Ok(bytes)
        }
    }

    pub fn read_u8(&mut self) -> (r: Result<u8, ReadError>)
        requires
            old(self).wf(),
        ensures
            final(self).wf(),
            final(self).data() == old(self).data(),
            old(self).position() + 1 <= old(self).data().len() ==> (r == Ok::<u8, ReadError>(
                old(self).data()[old(self).position()],
            ) && final(self).position() == old(self).position() + 1),
            old(self).position() + 1 > old(self).data().len() ==> (r == Err::<u8, ReadError>(
                ReadError::UnexpectedEOF,
            ) && final(self).position() == old(self).position()),
    {
        let bytes = self.read_bytes(1)?;
        Ok(*slice_index_get(bytes, 0))
    }

    pub fn read_u16(&mut self) -> (r: Result<u16, ReadError>)
        requires
            old(self).wf(),
        ensures
            final(self).wf(),
            final(self).data() == old(self).data(),
            old(self).position() + 2 <= old(self).data().len() ==> (r == Ok::<u16, ReadError>(
                u16_at(old(self).data(), old(self).position()),
            ) && final(self).position() == old(self).position() + 2),
            old(self).position() + 2 > old(self).data().len() ==> (r == Err::<u16, ReadError>(
                ReadError::UnexpectedEOF,
            ) && final(self).position() == old(self).position()),
    {
        let bytes = self.read_bytes(2)?;
        let b0 = *slice_index_get(bytes, 0);
        let b1 = *slice_index_get(bytes, 1);
        Ok((b0 as u16) * 0x100 + (b1 as u16))
    }

    pub fn read_u32(&mut self) -> (r: Result<u32, ReadError>)
        requires
            old(self).wf(),
        ensures
            final(self).wf(),
            final(self).data() == old(self).data(),
            old(self).position() + 4 <= old(self).data().len() ==> (r == Ok::<u32, ReadError>(
                u32_at(old(self).data(), old(self).position()),
            ) && final(self).position() == old(self).position() + 4),
            old(self).position() + 4 > old(self).data().len() ==> (r == Err::<u32, ReadError>(
                ReadError::UnexpectedEOF,
            ) && final(self).position() == old(self).position()),
    {
        let bytes = self.read_bytes(4)?;
        let b0 = *slice_index_get(bytes, 0);
        let b1 = *slice_index_get(bytes, 1);
        let b2 = *slice_index_get(bytes, 2);
        let b3 = *slice_index_get(bytes, 3);
        Ok((b0 as u32) * 0x100_0000 + (b1 as u32) * 0x1_0000 + (b2 as u32) * 0x100 + (b3 as u32))
    }

    pub fn read_u64(&mut self) -> (r: Result<u64, ReadError>)
        requires
            old(self).wf(),
        ensures
            final(self).wf(),
            final(self).data() == old(self).data(),
            old(self).position() + 8 <= old(self).data().len() ==> (r == Ok::<u64, ReadError>(
                u64_at(old(self).data(), old(self).position()),
            ) && final(self).position() == old(self).position() + 8),
            old(self).position() + 8 > old(self).data().len() ==> (r == Err::<u64, ReadError>(
                ReadError::UnexpectedEOF,
            ) && final(self).position() == old(self).position()),
    {
        if self.buf.len() - self.pos < 8 {
            return Err(ReadError::UnexpectedEOF);
        }
        let hi = match self.read_u32() {
            Ok(v) => v,
            Err(e) => {
                return Err(e);
            },
        };
        let lo = match self.read_u32() {
            Ok(v) => v,
            Err(e) => {
                return Err(e);
            },
        };
        Ok((hi as u64) * 0x1_0000_0000 + (lo as u64))
    }

    pub fn read_i32(&mut self) -> (r: Result<i32, ReadError>)
        requires
            old(self).wf(),
        ensures
            final(self).wf(),
            final(self).data() == old(self).data(),
            old(self).position() + 4 <= old(self).data().len() ==> (r == Ok::<i32, ReadError>(
                i32_at(old(self).data(), old(self).position()),
            ) && final(self).position() == old(self).position() + 4),
            old(self).position() + 4 > old(self).data().len() ==> (r == Err::<i32, ReadError>(
                ReadError::UnexpectedEOF,
            ) && final(self).position() == old(self).position()),
    {
        let v = self.read_u32()?;
        if v >= 0x8000_0000 {
            Ok(-((u32::MAX - v) as i32) - 1)
        } else {
            Ok(v as i32)
        }
    }

    pub fn read_i64(&mut self) -> (r: Result<i64, ReadError>)
        requires
            old(self).wf(),
        ensures
            final(self).wf(),
            final(self).data() == old(self).data(),
            old(self).position() + 8 <= old(self).data().len() ==> (r == Ok::<i64, ReadError>(
                i64_at(old(self).data(), old(self).position()),
            ) && final(self).position() == old(self).position() + 8),
            old(self).position() + 8 > old(self).data().len() ==> (r == Err::<i64, ReadError>(
                ReadError::UnexpectedEOF,
            ) && final(self).position() == old(self).position()),
    {
        let v = self.read_u64()?;
        if v >= 0x8000_0000_0000_0000 {
            Ok(-((u64::MAX - v) as i64) - 1)
        } else {
            Ok(v as i64)
        }
    }

    /// Reads `len` bytes and decodes them as Modified UTF-8.
    pub fn read_utf8(&mut self, len: u32) -> (r: Result<String, ReadError>)
        requires
            old(self).wf(),
        ensures
            final(self).wf(),
            final(self).data() == old(self).data(),
            old(self).position() + len > old(self).data().len() ==> (r == Err::<String, ReadError>(
                ReadError::UnexpectedEOF,
            ) && final(self).position() == old(self).position()),
            old(self).position() + len <= old(self).data().len() ==> {
                let decoded = java_cesu8_decoded(
                    old(self).data().subrange(old(self).position(), old(self).position() + len),
                );
                final(self).position() == old(self).position() + len && (match r {
                    Ok(t) => decoded == Some(t@),
                    Err(e) => decoded is None && e == ReadError::Cesu8DecodingError,
                })
            },
    {
        let bytes = self.read_bytes(len as usize)?;
        match decode_java_cesu8(bytes) {
            Some(t) => Ok(t),
            None => Err(ReadError::Cesu8DecodingError),
        }
    }

    /// The start of the diagnostic window around position `p` of `s`.
    pub open spec fn snippet_lo(s: Seq<u8>, p: int) -> int {
        if p >= 8 {
            p - 8
        } else {
            0
        }
    }

    /// The end of the diagnostic window around position `p` of `s`.
    pub open spec fn snippet_hi(s: Seq<u8>, p: int) -> int {
        if p + 8 <= s.len() {
            p + 8
        } else {
            s.len() as int
        }
    }

    /// A small window of bytes around the current position, for error
    /// reports. It includes the byte at the current position when one
    /// remains.
    pub fn snippet(&self) -> (r: Vec<u8>)
        requires
            self.wf(),
        ensures
            r@ == self.data().subrange(
                Self::snippet_lo(self.data(), self.position()),
                Self::snippet_hi(self.data(), self.position()),
            ),
    {
        let lo = if self.pos >= 8 {
            self.pos - 8
        } else {
            0
        };
        let hi = if self.buf.len() - self.pos >= 8 {
            self.pos + 8
        } else {
            self.buf.len()
        };
        slice_to_vec(slice_subrange(self.buf, lo, hi))
    }
}

} // verus!
