//! A reduced big-endian cursor over a byte slice. It offers the plain
//! integer reads and nothing else; `byte_reader` is the full cursor.

use vstd::prelude::*;
use vstd::slice::{slice_index_get, slice_subrange};

use crate::byte_reader::{u16_at, u32_at};

verus! {

/// How a read can fail: only by running out of bytes.
#[derive(Debug, Clone, Copy, PartialEq, Eq, Structural)]
pub enum ReadError {
    UnexpectedEOF,
}

/// A cursor over an immutable byte slice with a monotonic offset.
pub struct ClassReader<'a> {
    buf: &'a [u8],
    pos: usize,
}

impl<'a> ClassReader<'a> {
    /// The bytes the cursor reads from.
    pub closed spec fn data(self) -> Seq<u8> {
        self.buf@
    }

    /// The current offset into the bytes.
    pub closed spec fn position(self) -> int {
        self.pos as int
    }

    /// The offset never exceeds the length of the underlying slice.
    pub open spec fn wf(self) -> bool {
        0 <= self.position() <= self.data().len()
    }

    pub fn new(data: &'a [u8]) -> (r: Self)
        ensures
            r.data() == data@,
            r.position() == 0,
            r.wf(),
    {
        ClassReader { buf: data, pos: 0 }
    }

    /// Reads `size` bytes, or fails without moving when fewer remain.
    pub fn read_bytes(&mut self, size: usize) -> (r: Result<&'a [u8], ReadError>)
        requires
            old(self).wf(),
        ensures
            final(self).wf(),
            final(self).data() == old(self).data(),
            old(self).position() + size <= old(self).data().len() ==> (r matches Ok(b)
                && b@ == old(self).data().subrange(
                old(self).position(),
                old(self).position() + size,
            ) && final(self).position() == old(self).position() + size),
            old(self).position() + size > old(self).data().len() ==> (r == Err::<
                &[u8],
                ReadError,
            >(ReadError::UnexpectedEOF) && final(self).position() == old(self).position()),
    {
        if size > self.buf.len() - self.pos {
            Err(ReadError::UnexpectedEOF)
        } else {
            let bytes = slice_subrange(self.buf, self.pos, self.pos + size);
            self.pos = self.pos + size;
            Ok(bytes)
        }
    }

    pub fn read_u8(&mut self) -> (r: Result<u8, ReadError>)
        requires
            old(self).wf(),
        ensures
            final(self).wf(),
            final(self).data() == old(self).data(),
            old(self).position() + 1 <= old(self).data().len() ==> (r == Ok::<u8, ReadError>(
                old(self).data()[old(self).position()],
            ) && final(self).position() == old(self).position() + 1),
            old(self).position() + 1 > old(self).data().len() ==> (r == Err::<u8, ReadError>(
                ReadError::UnexpectedEOF,
            ) && final(self).position() == old(self).position()),
    {
        let bytes = self.read_bytes(1)?;
        Ok(*slice_index_get(bytes, 0))
    }

    pub fn read_u16(&mut self) -> (r: Result<u16, ReadError>)
        requires
            old(self).wf(),
        ensures
            final(self).wf(),
            final(self).data() == old(self).data(),
            old(self).position() + 2 <= old(self).data().len() ==> (r == Ok::<u16, ReadError>(
                u16_at(old(self).data(), old(self).position()),
            ) && final(self).position() == old(self).position() + 2),
            old(self).position() + 2 > old(self).data().len() ==> (r == Err::<u16, ReadError>(
                ReadError::UnexpectedEOF,
            ) && final(self).position() == old(self).position()),
    {
        let bytes = self.read_bytes(2)?;
        let b0 = *slice_index_get(bytes, 0);
        let b1 = *slice_index_get(bytes, 1);
        Ok((b0 as u16) * 0x100 + (b1 as u16))
    }

    pub fn read_u32(&mut self) -> (r: Result<u32, ReadError>)
        requires
            old(self).wf(),
        ensures
            final(self).wf(),
            final(self).data() == old(self).data(),
            old(self).position() + 4 <= old(self).data().len() ==> (r == Ok::<u32, ReadError>(
                u32_at(old(self).data(), old(self).position()),
            ) && final(self).position() == old(self).position() + 4),
            old(self).position() + 4 > old(self).data().len() ==> (r == Err::<u32, ReadError>(
                ReadError::UnexpectedEOF,
            ) && final(self).position() == old(self).position()),
    {
        let bytes = self.read_bytes(4)?;
        let b0 = *slice_index_get(bytes, 0);
        let b1 = *slice_index_get(bytes, 1);
        let b2 = *slice_index_get(bytes, 2);
        let b3 = *slice_index_get(bytes, 3);
        Ok((b0 as u32) * 0x100_0000 + (b1 as u32) * 0x1_0000 + (b2 as u32) * 0x100 + (b3 as u32))
    }
}

} // verus!
