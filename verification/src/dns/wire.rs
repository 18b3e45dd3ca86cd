//! Big-endian numbers at a position in a buffer, read and written with
//! `byteorder`.

use vstd::prelude::*;
use byteorder::{BigEndian, ByteOrder};
use crate::dns::error::DecodeError;

verus! {

/// The 16-bit value whose big-endian bytes are `hi`, `lo`.
pub open spec fn spec_u16(hi: u8, lo: u8) -> u16 {
    (hi as int * 256 + lo as int) as u16
}

/// The 32-bit value whose big-endian bytes are `b0`, `b1`, `b2`, `b3`.
pub open spec fn spec_u32(b0: u8, b1: u8, b2: u8, b3: u8) -> u32 {
    (b0 as int * 16777216 + b1 as int * 65536 + b2 as int * 256 + b3 as int) as u32
}

/// The two big-endian bytes of `n`.
pub open spec fn spec_u16_bytes(n: u16) -> Seq<u8> {
    seq![(n / 256) as u8, (n % 256) as u8]
}

/// The four big-endian bytes of `n`.
pub open spec fn spec_u32_bytes(n: u32) -> Seq<u8> {
    seq![
        (n / 16777216) as u8,
        (n / 65536 % 256) as u8,
        (n / 256 % 256) as u8,
        (n % 256) as u8,
    ]
}

/// One byte at `pos`, and the position after it.
pub open spec fn spec_read_u8(data: Seq<u8>, pos: int) -> Result<(u8, int), DecodeError> {
    if 0 <= pos < data.len() {
        Ok((data[pos], pos + 1))
    } else {
        Err(DecodeError::UnexpectedEof)
    }
}

/// A big-endian 16-bit value at `pos`, and the position after it.
pub open spec fn spec_read_u16(data: Seq<u8>, pos: int) -> Result<(u16, int), DecodeError> {
    if 0 <= pos && pos + 2 <= data.len() {
        Ok((spec_u16(data[pos], data[pos + 1]), pos + 2))
    } else {
        Err(DecodeError::UnexpectedEof)
    }
}

/// A big-endian 32-bit value at `pos`, and the position after it.
pub open spec fn spec_read_u32(data: Seq<u8>, pos: int) -> Result<(u32, int), DecodeError> {
    if 0 <= pos && pos + 4 <= data.len() {
        Ok((spec_u32(data[pos], data[pos + 1], data[pos + 2], data[pos + 3]), pos + 4))
    } else {
        Err(DecodeError::UnexpectedEof)
    }
}

/// `byteorder::BigEndian::read_u16`: the first two bytes of `buf`, the first
/// being the more significant. It panics on a shorter slice.
#[verifier::external_body]
fn be_read_u16(buf: &[u8]) -> (n: u16)
    requires
        buf@.len() >= 2,
    ensures
        n == spec_u16(buf@[0], buf@[1]),
{
    BigEndian::read_u16(buf)
}

/// `byteorder::BigEndian::read_u32`: the first four bytes of `buf`, most
/// significant first. It panics on a shorter slice.
#[verifier::external_body]
fn be_read_u32(buf: &[u8]) -> (n: u32)
    requires
        buf@.len() >= 4,
    ensures
        n == spec_u32(buf@[0], buf@[1], buf@[2], buf@[3]),
{
    BigEndian::read_u32(buf)
}

/// `byteorder::BigEndian::write_u16` into a buffer of two bytes: the more
/// significant byte of `n` comes first.
#[verifier::external_body]
fn be_write_u16(n: u16) -> (buf: [u8; 2])
    ensures
        buf@ == spec_u16_bytes(n),
{
    let mut buf = [0u8; 2];
    BigEndian::write_u16(&mut buf, n);
    buf
}

/// `byteorder::BigEndian::write_u32` into a buffer of four bytes, most
/// significant first.
#[verifier::external_body]
fn be_write_u32(n: u32) -> (buf: [u8; 4])
    ensures
        buf@ == spec_u32_bytes(n),
{
    let mut buf = [0u8; 4];
    BigEndian::write_u32(&mut buf, n);
    buf
}

/// A read position in a byte buffer.
///
/// The position may lie past the end of the buffer: every read from there
/// fails. A read that fails leaves the cursor where it was.
pub struct Cursor<'a> {
    pub data: &'a [u8],
    pub position: usize,
}

impl<'a> Cursor<'a> {
    /// A cursor at the start of `data`.
    pub fn new(data: &'a [u8]) -> (c: Self)
        ensures
            c.data@ == data@,
            c.position == 0,
    {
        Cursor { data, position: 0 }
    }

    /// The offset of the next byte to read.
    pub fn position(&self) -> (p: usize)
        ensures
            p == self.position,
    {
        self.position
    }

    /// Moves the cursor to `position`, which may be past the end.
    pub fn set_position(&mut self, position: usize)
        ensures
            final(self).data@ == old(self).data@,
            final(self).position == position,
    {
        self.position = position;
    }

    /// Reads one byte, or fails with `UnexpectedEof` at the end of the buffer.
    pub fn read_u8(&mut self) -> (r: Result<u8, DecodeError>)
        ensures
            final(self).data@ == old(self).data@,
            match r {
                Ok(v) => spec_read_u8(old(self).data@, old(self).position as int) == Ok::<
                    (u8, int),
                    DecodeError,
                >((v, final(self).position as int)),
                Err(e) => spec_read_u8(old(self).data@, old(self).position as int) == Err::<
                    (u8, int),
                    DecodeError,
                >(e) && final(self).position == old(self).position,
            },
    {
        match read_u8_at(self.data, self.position) {
            Ok((v, next)) => {
                self.position = next;
                Ok(v)
            },
            Err(e) => Err(e),
        }
    }

    /// Reads a big-endian 16-bit value, or fails with `UnexpectedEof` where
    /// fewer than two bytes remain.
    pub fn read_u16(&mut self) -> (r: Result<u16, DecodeError>)
        ensures
            final(self).data@ == old(self).data@,
            match r {
                Ok(v) => spec_read_u16(old(self).data@, old(self).position as int) == Ok::<
                    (u16, int),
                    DecodeError,
                >((v, final(self).position as int)),
                Err(e) => spec_read_u16(old(self).data@, old(self).position as int) == Err::<
                    (u16, int),
                    DecodeError,
                >(e) && final(self).position == old(self).position,
            },
    {
        match read_u16_at(self.data, self.position) {
            Ok((v, next)) => {
                self.position = next;
                Ok(v)
            },
            Err(e) => Err(e),
        }
    }

    /// Reads a big-endian 32-bit value, or fails with `UnexpectedEof` where
    /// fewer than four bytes remain.
    pub fn read_u32(&mut self) -> (r: Result<u32, DecodeError>)
        ensures
            final(self).data@ == old(self).data@,
            match r {
                Ok(v) => spec_read_u32(old(self).data@, old(self).position as int) == Ok::<
                    (u32, int),
                    DecodeError,
                >((v, final(self).position as int)),
                Err(e) => spec_read_u32(old(self).data@, old(self).position as int) == Err::<
                    (u32, int),
                    DecodeError,
                >(e) && final(self).position == old(self).position,
            },
    {
        match read_u32_at(self.data, self.position) {
            Ok((v, next)) => {
                self.position = next;
                Ok(v)
            },
            Err(e) => Err(e),
        }
    }
}

/// Reads the byte at `pos`.
pub fn read_u8_at(data: &[u8], pos: usize) -> (r: Result<(u8, usize), DecodeError>)
    ensures
        match r {
            Ok((v, next)) => spec_read_u8(data@, pos as int) == Ok::<(u8, int), DecodeError>(
                (v, next as int),
            ),
            Err(e) => spec_read_u8(data@, pos as int) == Err::<(u8, int), DecodeError>(e),
        },
{
    if pos < data.len() {
        Ok((data[pos], pos + 1))
    } else {
        Err(DecodeError::UnexpectedEof)
    }
}

/// Reads the big-endian 16-bit value at `pos`.
pub fn read_u16_at(data: &[u8], pos: usize) -> (r: Result<(u16, usize), DecodeError>)
    ensures
        match r {
            Ok((v, next)) => spec_read_u16(data@, pos as int) == Ok::<(u16, int), DecodeError>(
                (v, next as int),
            ),
            Err(e) => spec_read_u16(data@, pos as int) == Err::<(u16, int), DecodeError>(e),
        },
{
    if pos <= data.len() && data.len() - pos >= 2 {
        let v = be_read_u16(&data[pos..pos + 2]);
        Ok((v, pos + 2))
    } else {
        Err(DecodeError::UnexpectedEof)
    }
}

/// Reads the big-endian 32-bit value at `pos`.
pub fn read_u32_at(data: &[u8], pos: usize) -> (r: Result<(u32, usize), DecodeError>)
    ensures
        match r {
            Ok((v, next)) => spec_read_u32(data@, pos as int) == Ok::<(u32, int), DecodeError>(
                (v, next as int),
            ),
            Err(e) => spec_read_u32(data@, pos as int) == Err::<(u32, int), DecodeError>(e),
        },
{
    if pos <= data.len() && data.len() - pos >= 4 {
        let v = be_read_u32(&data[pos..pos + 4]);
        Ok((v, pos + 4))
    } else {
        Err(DecodeError::UnexpectedEof)
    }
}

/// Appends the two big-endian bytes of `n` to `buffer`.
pub fn write_u16(buffer: &mut Vec<u8>, n: u16)
    ensures
        final(buffer)@ == old(buffer)@ + spec_u16_bytes(n),
{
    let bytes = be_write_u16(n);
    buffer.push(bytes[0]);
    buffer.push(bytes[1]);
    assert(buffer@ =~= old(buffer)@ + spec_u16_bytes(n));
}

/// Appends the four big-endian bytes of `n` to `buffer`.
pub fn write_u32(buffer: &mut Vec<u8>, n: u32)
    ensures
        final(buffer)@ == old(buffer)@ + spec_u32_bytes(n),
{
    let bytes = be_write_u32(n);
    buffer.push(bytes[0]);
    buffer.push(bytes[1]);
    buffer.push(bytes[2]);
    buffer.push(bytes[3]);
    assert(buffer@ =~= old(buffer)@ + spec_u32_bytes(n));
}

/// Appends `data[from..to]` to `out`.
pub fn push_range(out: &mut Vec<u8>, data: &[u8], from: usize, to: usize)
    requires
        from <= to <= data@.len(),
    ensures
        final(out)@ == old(out)@ + data@.subrange(from as int, to as int),
{
    let mut i: usize = from;
    while i < to
        invariant
            from <= i <= to <= data@.len(),
            out@ == old(out)@ + data@.subrange(from as int, i as int),
        decreases to - i,
    {
        out.push(data[i]);
        i = i + 1;
        assert(out@ =~= old(out)@ + data@.subrange(from as int, i as int));
    }
}

} // verus!
