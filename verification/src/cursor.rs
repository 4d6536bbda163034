use vstd::prelude::*;

use crate::codec::{compact_readable, compact_val, compact_width, i32_le, i8_of, u32_le};
use crate::error::WzError;

verus! {

/// Relies on byteorder's `LittleEndian::read_u32`: the little-endian unsigned
/// value of the first four bytes of the slice (`u32::from_le_bytes`); it
/// panics when fewer than four bytes remain, which the precondition rules out.
#[verifier::external_body]
fn le_read_u32_at(buf: &Vec<u8>, pos: usize) -> (r: u32)
    requires
        pos + 4 <= buf@.len(),
    ensures
        r as int == u32_le(buf@.subrange(pos as int, pos as int + 4)),
{
    <byteorder::LittleEndian as byteorder::ByteOrder>::read_u32(&buf[pos..])
}

/// Relies on byteorder's `LittleEndian::read_i32`: the same four little-endian
/// bytes reinterpreted as a signed two's-complement value; it panics when
/// fewer than four bytes remain, which the precondition rules out.
#[verifier::external_body]
fn le_read_i32_at(buf: &Vec<u8>, pos: usize) -> (r: i32)
    requires
        pos + 4 <= buf@.len(),
    ensures
        r as int == i32_le(buf@.subrange(pos as int, pos as int + 4)),
{
    <byteorder::LittleEndian as byteorder::ByteOrder>::read_i32(&buf[pos..])
}

/// A read cursor over an immutable byte buffer: the sole interface for all
/// binary decoding. Seeking and skipping are unchecked; every read whose
/// required range would run past the end of the buffer fails with
/// `WzError::OutOfBounds` and leaves the cursor where it was.
pub struct ByteCursor {
    buf: Vec<u8>,
    pos: usize,
}

impl ByteCursor {
    /// The bytes of the underlying buffer.
    pub closed spec fn data(&self) -> Seq<u8> {
        self.buf@
    }

    /// The current read position.
    pub closed spec fn position(&self) -> int {
        self.pos as int
    }

    /// Wraps a buffer, with the position at its start.
    pub fn new(buf: Vec<u8>) -> (c: ByteCursor)
        ensures
            c.data() == buf@,
            c.position() == 0,
    {
        ByteCursor { buf, pos: 0 }
    }

    /// The number of bytes in the buffer.
    pub fn len(&self) -> (n: usize)
        ensures
            n == self.data().len(),
    {
        self.buf.len()
    }

    /// Sets the position to `offset`. No bounds check happens here; a later
    /// read past the end of the buffer fails instead.
    pub fn seek(&mut self, offset: usize)
        ensures
            final(self).data() == old(self).data(),
            final(self).position() == offset,
    {
        self.pos = offset;
    }

    /// Advances the position by `n`, saturating at `usize::MAX`. A position
    /// at or past the end of the buffer makes every later read fail, so the
    /// saturation point is unreachable by any position inside a buffer.
    pub fn skip(&mut self, n: usize)
        ensures
            final(self).data() == old(self).data(),
            final(self).position() == if old(self).position() + n <= usize::MAX {
                old(self).position() + n
            } else {
                usize::MAX as int
            },
    {
        if self.pos <= usize::MAX - n {
            self.pos = self.pos + n;
        } else {
            self.pos = usize::MAX;
        }
    }

    /// The position always lies in the machine's address range: callers may
    /// rely on that without an exec-mode call to `tell`.
    pub proof fn lemma_position_in_range(&self)
        ensures
            0 <= self.position() <= usize::MAX,
    {
    }

    /// The current position.
    pub fn tell(&self) -> (r: usize)
        ensures
            r == self.position(),
    {
        self.pos
    }

    /// Reads one byte and advances past it.
    pub fn read_u8(&mut self) -> (r: Result<u8, WzError>)
        ensures
            final(self).data() == old(self).data(),
            match r {
                Ok(b) => old(self).position() + 1 <= old(self).data().len()
                    && b == old(self).data()[old(self).position()]
                    && final(self).position() == old(self).position() + 1,
                Err(e) => e == WzError::OutOfBounds
                    && old(self).position() + 1 > old(self).data().len()
                    && final(self).position() == old(self).position(),
            },
    {
        if self.pos < self.buf.len() {
            let b: u8 = self.buf[self.pos];
            self.pos = self.pos + 1;
            Ok(b)
        } else {
            Err(WzError::OutOfBounds)
        }
    }

    /// Reads one byte as a signed two's-complement value and advances past it.
    pub fn read_i8(&mut self) -> (r: Result<i8, WzError>)
        ensures
            final(self).data() == old(self).data(),
            match r {
                Ok(v) => old(self).position() + 1 <= old(self).data().len()
                    && v as int == i8_of(old(self).data()[old(self).position()])
                    && final(self).position() == old(self).position() + 1,
                Err(e) => e == WzError::OutOfBounds
                    && old(self).position() + 1 > old(self).data().len()
                    && final(self).position() == old(self).position(),
            },
    {
        if self.pos < self.buf.len() {
            let b: u8 = self.buf[self.pos];
            let v: i8 = if b < 0x80 {
                b as i8
            } else {
                (b as i32 - 0x100) as i8
            };
            self.pos = self.pos + 1;
            Ok(v)
        } else {
            Err(WzError::OutOfBounds)
        }
    }

    /// Decodes four little-endian bytes as an unsigned 32-bit integer and
    /// advances past them.
    pub fn read_u32_le(&mut self) -> (r: Result<u32, WzError>)
        ensures
            final(self).data() == old(self).data(),
            match r {
                Ok(v) => old(self).position() + 4 <= old(self).data().len()
                    && v as int == u32_le(
                        old(self).data().subrange(old(self).position(), old(self).position() + 4),
                    )
                    && final(self).position() == old(self).position() + 4,
                Err(e) => e == WzError::OutOfBounds
                    && old(self).position() + 4 > old(self).data().len()
                    && final(self).position() == old(self).position(),
            },
    {
        if self.buf.len() >= 4 && self.pos <= self.buf.len() - 4 {
            let v: u32 = le_read_u32_at(&self.buf, self.pos);
            self.pos = self.pos + 4;
            Ok(v)
        } else {
            Err(WzError::OutOfBounds)
        }
    }

    /// Decodes four little-endian bytes as a signed two's-complement 32-bit
    /// integer and advances past them.
    pub fn read_i32_le(&mut self) -> (r: Result<i32, WzError>)
        ensures
            final(self).data() == old(self).data(),
            match r {
                Ok(v) => old(self).position() + 4 <= old(self).data().len()
                    && v as int == i32_le(
                        old(self).data().subrange(old(self).position(), old(self).position() + 4),
                    )
                    && final(self).position() == old(self).position() + 4,
                Err(e) => e == WzError::OutOfBounds
                    && old(self).position() + 4 > old(self).data().len()
                    && final(self).position() == old(self).position(),
            },
    {
        if self.buf.len() >= 4 && self.pos <= self.buf.len() - 4 {
            let v: i32 = le_read_i32_at(&self.buf, self.pos);
            self.pos = self.pos + 4;
            Ok(v)
        } else {
            Err(WzError::OutOfBounds)
        }
    }

    /// Decodes a compact integer: one signed byte carries a value in
    /// [-127, 127]; the sentinel -128 announces a full signed 32-bit
    /// little-endian word behind it. Advances past whichever form was read.
    pub fn read_compact_int(&mut self) -> (r: Result<i32, WzError>)
        ensures
            final(self).data() == old(self).data(),
            match r {
                Ok(v) => compact_readable(old(self).data(), old(self).position())
                    && v as int == compact_val(old(self).data(), old(self).position())
                    && final(self).position() == old(self).position()
                        + compact_width(old(self).data(), old(self).position()),
                Err(e) => e == WzError::OutOfBounds
                    && !compact_readable(old(self).data(), old(self).position())
                    && final(self).position() == old(self).position(),
            },
    {
        if self.pos >= self.buf.len() {
            return Err(WzError::OutOfBounds);
        }
        let b: u8 = self.buf[self.pos];
        if b != 0x80 {
            let v: i32 = if b < 0x80 {
                b as i32
            } else {
                b as i32 - 0x100
            };
            self.pos = self.pos + 1;
            Ok(v)
        } else if self.buf.len() - self.pos >= 5 {
            let v: i32 = le_read_i32_at(&self.buf, self.pos + 1);
            self.pos = self.pos + 5;
            Ok(v)
        } else {
            Err(WzError::OutOfBounds)
        }
    }

    /// Reads exactly `len` bytes starting at the current position and
    /// advances past them. The bytes come back as an owned copy of the
    /// range, valid independently of the cursor and its buffer.
    pub fn read_bytes(&mut self, len: usize) -> (r: Result<Vec<u8>, WzError>)
        ensures
            final(self).data() == old(self).data(),
            match r {
                Ok(v) => old(self).position() + len <= old(self).data().len()
                    && v@ == old(self).data().subrange(old(self).position(), old(self).position() + len)
                    && final(self).position() == old(self).position() + len,
                Err(e) => e == WzError::OutOfBounds
                    && old(self).position() + len > old(self).data().len()
                    && final(self).position() == old(self).position(),
            },
    {
        if len <= self.buf.len() && self.pos <= self.buf.len() - len {
            let mut out: Vec<u8> = Vec::new();
            let mut i: usize = 0;
            while i < len
                invariant
                    i <= len,
                    self.buf@ == old(self).data(),
                    self.pos == old(self).position(),
                    self.pos + len <= self.buf@.len(),
                    self.buf@.len() <= usize::MAX,
                    out@ == old(self).data().subrange(self.pos as int, self.pos + i),
                decreases len - i,
            {
                let b: u8 = self.buf[self.pos + i];
                out.push(b);
                proof {
                    assert(out@ =~= old(self).data().subrange(
                        self.pos as int,
                        self.pos + i + 1,
                    ));
                }
                i = i + 1;
            }
            self.pos = self.pos + len;
            Ok(out)
        } else {
            Err(WzError::OutOfBounds)
        }
    }
}

} // verus!
