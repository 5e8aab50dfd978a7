//! Sequential big-endian binary cursors: a writer (`Packer`) that appends
//! scalars into a fixed-capacity byte buffer, and a reader (`Unpacker`) that
//! consumes scalars from a byte slice. Neither knows anything about the
//! protocol's framing; both enforce bounds and fail fast without partial
//! reads or writes.

use vstd::prelude::*;

verus! {

use crate::command::Error;

/// The two big-endian bytes of a 16-bit value, most significant first.
pub open spec fn u16_be(v: u16) -> Seq<u8> {
    seq![(v / 0x100) as u8, (v % 0x100) as u8]
}

/// The four big-endian bytes of a 32-bit value, most significant first.
pub open spec fn u32_be(v: u32) -> Seq<u8> {
    seq![
        (v / 0x1000000) as u8,
        ((v / 0x10000) % 0x100) as u8,
        ((v / 0x100) % 0x100) as u8,
        (v % 0x100) as u8,
    ]
}

/// A 32-bit signed value is transmitted as the big-endian bytes of its
/// two's-complement bit pattern.
pub open spec fn i32_be(v: i32) -> Seq<u8> {
    u32_be(v as u32)
}

/// A 16-bit signed value is transmitted as the big-endian bytes of its
/// two's-complement bit pattern.
pub open spec fn i16_be(v: i16) -> Seq<u8> {
    u16_be(v as u16)
}

/// The big-endian 16-bit value stored at `pos` in `s`.
pub open spec fn be_u16(s: Seq<u8>, pos: int) -> u16 {
    (s[pos] * 0x100 + s[pos + 1]) as u16
}

/// The big-endian 32-bit value stored at `pos` in `s`.
pub open spec fn be_u32(s: Seq<u8>, pos: int) -> u32 {
    (s[pos] * 0x1000000 + s[pos + 1] * 0x10000 + s[pos + 2] * 0x100 + s[pos + 3]) as u32
}

/// The big-endian 16-bit signed value stored at `pos` in `s`.
pub open spec fn be_i16(s: Seq<u8>, pos: int) -> i16 {
    be_u16(s, pos) as i16
}

/// The big-endian 32-bit signed value stored at `pos` in `s`.
pub open spec fn be_i32(s: Seq<u8>, pos: int) -> i32 {
    be_u32(s, pos) as i32
}

/// Reading back the two bytes written for a 16-bit value yields the value.
pub proof fn lemma_be_u16_roundtrip(s: Seq<u8>, pos: int, v: u16)
    requires
        0 <= pos,
        pos + 2 <= s.len(),
        s[pos] == u16_be(v)[0],
        s[pos + 1] == u16_be(v)[1],
    ensures
        be_u16(s, pos) == v,
{
}

/// Reading back the four bytes written for a 32-bit value yields the value.
pub proof fn lemma_be_u32_roundtrip(s: Seq<u8>, pos: int, v: u32)
    requires
        0 <= pos,
        pos + 4 <= s.len(),
        s[pos] == u32_be(v)[0],
        s[pos + 1] == u32_be(v)[1],
        s[pos + 2] == u32_be(v)[2],
        s[pos + 3] == u32_be(v)[3],
    ensures
        be_u32(s, pos) == v,
{
    assert((v / 0x1000000) * 0x1000000 + ((v / 0x10000) % 0x100) * 0x10000 + ((v / 0x100)
        % 0x100) * 0x100 + (v % 0x100) == v) by (bit_vector);
}

/// Reading back the four bytes written for a 32-bit signed value yields the value.
pub proof fn lemma_be_i32_roundtrip(s: Seq<u8>, pos: int, v: i32)
    requires
        0 <= pos,
        pos + 4 <= s.len(),
        s[pos] == i32_be(v)[0],
        s[pos + 1] == i32_be(v)[1],
        s[pos + 2] == i32_be(v)[2],
        s[pos + 3] == i32_be(v)[3],
    ensures
        be_i32(s, pos) == v,
{
    lemma_be_u32_roundtrip(s, pos, v as u32);
    assert((v as u32) as i32 == v) by (bit_vector);
}

/// Reading back the two bytes written for a 16-bit signed value yields the value.
pub proof fn lemma_be_i16_roundtrip(s: Seq<u8>, pos: int, v: i16)
    requires
        0 <= pos,
        pos + 2 <= s.len(),
        s[pos] == i16_be(v)[0],
        s[pos + 1] == i16_be(v)[1],
    ensures
        be_i16(s, pos) == v,
{
    lemma_be_u16_roundtrip(s, pos, v as u16);
    assert((v as u16) as i16 == v) by (bit_vector);
}

/// A sequential writer over a caller-owned, fixed-capacity byte buffer.
/// Values are appended in big-endian order at `pos`; the buffer is never
/// grown, and a write that does not fit leaves the cursor untouched.
pub struct Packer {
    pub buf: Vec<u8>,
    pub pos: usize,
}

impl Packer {
    /// The cursor never points past the end of the buffer.
    pub open spec fn wf(self) -> bool {
        self.pos <= self.buf@.len()
    }

    pub fn new(buf: Vec<u8>) -> (r: Packer)
        ensures
            r.wf(),
            r.buf == buf,
            r.pos == 0,
    {
        Packer { buf, pos: 0 }
    }

    /// Appends raw bytes at the cursor. On success the bytes land at
    /// `old pos`; on failure nothing changes. Fails exactly when the bytes
    /// do not fit in the remaining capacity.
    fn pack(&mut self, bytes: &[u8]) -> (r: Result<(), Error>)
        requires
            old(self).wf(),
        ensures
            final(self).wf(),
            final(self).buf@.len() == old(self).buf@.len(),
            r is Ok <==> old(self).pos + bytes@.len() <= old(self).buf@.len(),
            r matches Ok(()) ==> final(self).pos == old(self).pos + bytes@.len()
                && final(self).buf@ == old(self).buf@.take(old(self).pos as int) + bytes@
                    + old(self).buf@.skip(old(self).pos + bytes@.len()),
            r is Err ==> r == Err::<(), Error>(Error::BufferTooSmall) && *final(self) == *old(
                self,
            ),
    {
        let need: usize = bytes.len();
        if need > self.buf.len() - self.pos {
            return Err(Error::BufferTooSmall);
        }
        let buf_len: usize = self.buf.len();
        let mut i: usize = 0;
        while i < need
            invariant
                i <= need,
                need == bytes@.len(),
                self.pos == old(self).pos,
                self.pos + need <= buf_len,
                self.buf@.len() == buf_len,
                self.buf@.len() == old(self).buf@.len(),
                forall|j: int|
                    0 <= j < self.buf@.len() && !(self.pos <= j < self.pos + i) ==> self.buf@[j]
                        == old(self).buf@[j],
                forall|j: int| 0 <= j < i ==> self.buf@[self.pos + j] == bytes@[j],
            decreases need - i,
        {
            let idx: usize = self.pos + i;
            self.buf[idx] = bytes[i];
            i += 1;
        }
        self.pos = self.pos + need;
        proof {
            assert(self.buf@ =~= old(self).buf@.take(old(self).pos as int) + bytes@ + old(
                self,
            ).buf@.skip(old(self).pos + bytes@.len()));
        }
        Ok(())
    }

    /// Appends a 32-bit unsigned value as four big-endian bytes.
    pub fn pack_u32(&mut self, value: u32) -> (r: Result<(), Error>)
        requires
            old(self).wf(),
        ensures
            final(self).wf(),
            final(self).buf@.len() == old(self).buf@.len(),
            r is Ok <==> old(self).pos + 4 <= old(self).buf@.len(),
            r matches Ok(()) ==> final(self).pos == old(self).pos + 4 && final(self).buf@ == old(
                self,
            ).buf@.take(old(self).pos as int) + u32_be(value) + old(self).buf@.skip(
                old(self).pos + 4,
            ),
            r is Err ==> r == Err::<(), Error>(Error::BufferTooSmall) && *final(self) == *old(
                self,
            ),
    {
        let bytes: [u8; 4] = [
            (value / 0x1000000) as u8,
            ((value / 0x10000) % 0x100) as u8,
            ((value / 0x100) % 0x100) as u8,
            (value % 0x100) as u8,
        ];
        proof {
            assert(bytes@ =~= u32_be(value));
        }
        self.pack(bytes.as_slice())
    }

    /// Appends a 32-bit signed value as the four big-endian bytes of its
    /// two's-complement bit pattern.
    pub fn pack_i32(&mut self, value: i32) -> (r: Result<(), Error>)
        requires
            old(self).wf(),
        ensures
            final(self).wf(),
            final(self).buf@.len() == old(self).buf@.len(),
            r is Ok <==> old(self).pos + 4 <= old(self).buf@.len(),
            r matches Ok(()) ==> final(self).pos == old(self).pos + 4 && final(self).buf@ == old(
                self,
            ).buf@.take(old(self).pos as int) + i32_be(value) + old(self).buf@.skip(
                old(self).pos + 4,
            ),
            r is Err ==> r == Err::<(), Error>(Error::BufferTooSmall) && *final(self) == *old(
                self,
            ),
    {
        self.pack_u32(value as u32)
    }

    /// Appends a 16-bit unsigned value as two big-endian bytes.
    pub fn pack_u16(&mut self, value: u16) -> (r: Result<(), Error>)
        requires
            old(self).wf(),
        ensures
            final(self).wf(),
            final(self).buf@.len() == old(self).buf@.len(),
            r is Ok <==> old(self).pos + 2 <= old(self).buf@.len(),
            r matches Ok(()) ==> final(self).pos == old(self).pos + 2 && final(self).buf@ == old(
                self,
            ).buf@.take(old(self).pos as int) + u16_be(value) + old(self).buf@.skip(
                old(self).pos + 2,
            ),
            r is Err ==> r == Err::<(), Error>(Error::BufferTooSmall) && *final(self) == *old(
                self,
            ),
    {
        let bytes: [u8; 2] = [(value / 0x100) as u8, (value % 0x100) as u8];
        proof {
            assert(bytes@ =~= u16_be(value));
        }
        self.pack(bytes.as_slice())
    }

    /// Appends one byte.
    pub fn pack_u8(&mut self, value: u8) -> (r: Result<(), Error>)
        requires
            old(self).wf(),
        ensures
            final(self).wf(),
            final(self).buf@.len() == old(self).buf@.len(),
            r is Ok <==> old(self).pos + 1 <= old(self).buf@.len(),
            r matches Ok(()) ==> final(self).pos == old(self).pos + 1 && final(self).buf@ == old(
                self,
            ).buf@.take(old(self).pos as int) + seq![value] + old(self).buf@.skip(
                old(self).pos + 1,
            ),
            r is Err ==> r == Err::<(), Error>(Error::BufferTooSmall) && *final(self) == *old(
                self,
            ),
    {
        let bytes: [u8; 1] = [value];
        proof {
            assert(bytes@ =~= seq![value]);
        }
        self.pack(bytes.as_slice())
    }
}

/// A read-only, forward-only cursor over a byte slice. Values are consumed
/// in big-endian order at `pos`; a read past the end of the slice fails and
/// leaves the cursor untouched.
pub struct Unpacker<'a> {
    pub buf: &'a [u8],
    pub pos: usize,
}

impl<'a> Unpacker<'a> {
    /// The cursor never points past the end of the slice.
    pub open spec fn wf(self) -> bool {
        self.pos <= self.buf@.len()
    }

    pub fn new(buf: &'a [u8]) -> (r: Unpacker<'a>)
        ensures
            r.wf(),
            r.buf == buf,
            r.pos == 0,
    {
        Unpacker { buf, pos: 0 }
    }

    /// Consumes `amount` bytes and returns them as a subslice. Fails exactly
    /// when fewer than `amount` bytes remain.
    fn consume(&mut self, amount: usize) -> (r: Result<&'a [u8], Error>)
        requires
            old(self).wf(),
        ensures
            final(self).wf(),
            final(self).buf == old(self).buf,
            r is Ok <==> old(self).pos + amount <= old(self).buf@.len(),
            r matches Ok(s) ==> final(self).pos == old(self).pos + amount && s@ == old(
                self,
            ).buf@.subrange(old(self).pos as int, old(self).pos + amount),
            r is Err ==> r == Err::<&'a [u8], Error>(Error::IncompleteData) && *final(self)
                == *old(self),
    {
        if amount > self.buf.len() - self.pos {
            return Err(Error::IncompleteData);
        }
        let start: usize = self.pos;
        self.pos = self.pos + amount;
        Ok(vstd::slice::slice_subrange(self.buf, start, start + amount))
    }

    /// Consumes one byte.
    pub fn unpack_u8(&mut self) -> (r: Result<u8, Error>)
        requires
            old(self).wf(),
        ensures
            final(self).wf(),
            final(self).buf == old(self).buf,
            r is Ok <==> old(self).pos + 1 <= old(self).buf@.len(),
            r matches Ok(v) ==> final(self).pos == old(self).pos + 1 && v == old(self).buf@[old(
                self,
            ).pos as int],
            r is Err ==> r == Err::<u8, Error>(Error::IncompleteData) && *final(self) == *old(
                self,
            ),
    {
        let bytes = self.consume(1)?;
        Ok(*vstd::slice::slice_index_get(bytes, 0))
    }

    /// Consumes two bytes as a big-endian 16-bit unsigned value.
    pub fn unpack_u16(&mut self) -> (r: Result<u16, Error>)
        requires
            old(self).wf(),
        ensures
            final(self).wf(),
            final(self).buf == old(self).buf,
            r is Ok <==> old(self).pos + 2 <= old(self).buf@.len(),
            r matches Ok(v) ==> final(self).pos == old(self).pos + 2 && v == be_u16(
                old(self).buf@,
                old(self).pos as int,
            ),
            r is Err ==> r == Err::<u16, Error>(Error::IncompleteData) && *final(self) == *old(
                self,
            ),
    {
        let bytes = self.consume(2)?;
        let hi: u8 = *vstd::slice::slice_index_get(bytes, 0);
        let lo: u8 = *vstd::slice::slice_index_get(bytes, 1);
        Ok((hi as u16) * 0x100 + (lo as u16))
    }

    /// Consumes two bytes as a big-endian 16-bit signed value.
    pub fn unpack_i16(&mut self) -> (r: Result<i16, Error>)
        requires
            old(self).wf(),
        ensures
            final(self).wf(),
            final(self).buf == old(self).buf,
            r is Ok <==> old(self).pos + 2 <= old(self).buf@.len(),
            r matches Ok(v) ==> final(self).pos == old(self).pos + 2 && v == be_i16(
                old(self).buf@,
                old(self).pos as int,
            ),
            r is Err ==> r == Err::<i16, Error>(Error::IncompleteData) && *final(self) == *old(
                self,
            ),
    {
        let v = self.unpack_u16()?;
        Ok(v as i16)
    }

    /// Consumes four bytes as a big-endian 32-bit unsigned value.
    pub fn unpack_u32(&mut self) -> (r: Result<u32, Error>)
        requires
            old(self).wf(),
        ensures
            final(self).wf(),
            final(self).buf == old(self).buf,
            r is Ok <==> old(self).pos + 4 <= old(self).buf@.len(),
            r matches Ok(v) ==> final(self).pos == old(self).pos + 4 && v == be_u32(
                old(self).buf@,
                old(self).pos as int,
            ),
            r is Err ==> r == Err::<u32, Error>(Error::IncompleteData) && *final(self) == *old(
                self,
            ),
    {
        let bytes = self.consume(4)?;
        let b0: u8 = *vstd::slice::slice_index_get(bytes, 0);
        let b1: u8 = *vstd::slice::slice_index_get(bytes, 1);
        let b2: u8 = *vstd::slice::slice_index_get(bytes, 2);
        let b3: u8 = *vstd::slice::slice_index_get(bytes, 3);
        Ok((b0 as u32) * 0x1000000 + (b1 as u32) * 0x10000 + (b2 as u32) * 0x100 + (b3 as u32))
    }

    /// Consumes four bytes as a big-endian 32-bit signed value.
    pub fn unpack_i32(&mut self) -> (r: Result<i32, Error>)
        requires
            old(self).wf(),
        ensures
            final(self).wf(),
            final(self).buf == old(self).buf,
            r is Ok <==> old(self).pos + 4 <= old(self).buf@.len(),
            r matches Ok(v) ==> final(self).pos == old(self).pos + 4 && v == be_i32(
                old(self).buf@,
                old(self).pos as int,
            ),
            r is Err ==> r == Err::<i32, Error>(Error::IncompleteData) && *final(self) == *old(
                self,
            ),
    {
        let v = self.unpack_u32()?;
        Ok(v as i32)
    }
}

} // verus!
