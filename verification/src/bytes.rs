//! Bounds-checked, endian-aware reading of integers from a byte buffer.
//!
//! Every multi-byte field of a minidump is read through the [`Cursor`]
//! here: a reference to the whole buffer plus a current offset. Reads
//! never assume alignment and never go out of bounds; a read past the
//! end reports failure instead.

use vstd::prelude::*;
use crate::Endianness;

verus! {

/// The 16-bit value stored little-endian in a 2-byte sequence.
pub open spec fn le16(s: Seq<u8>) -> u16
    recommends
        s.len() == 2,
{
    (s[0] + s[1] * 0x100) as u16
}

/// The 16-bit value stored big-endian in a 2-byte sequence.
pub open spec fn be16(s: Seq<u8>) -> u16 {
    (s[1] + s[0] * 0x100) as u16
}

/// The 32-bit value stored little-endian in a 4-byte sequence.
pub open spec fn le32(s: Seq<u8>) -> u32
    recommends
        s.len() == 4,
{
    (s[0] + s[1] * 0x100 + s[2] * 0x10000 + s[3] * 0x1000000) as u32
}

/// The 32-bit value stored big-endian in a 4-byte sequence.
pub open spec fn be32(s: Seq<u8>) -> u32 {
    (s[3] + s[2] * 0x100 + s[1] * 0x10000 + s[0] * 0x1000000) as u32
}

/// The 64-bit value stored little-endian in an 8-byte sequence.
pub open spec fn le64(s: Seq<u8>) -> u64
    recommends
        s.len() == 8,
{
    (s[0] + s[1] * 0x100 + s[2] * 0x10000 + s[3] * 0x1000000 + s[4] * 0x100000000
        + s[5] * 0x10000000000 + s[6] * 0x1000000000000 + s[7] * 0x100000000000000) as u64
}

/// The 64-bit value stored big-endian in an 8-byte sequence.
pub open spec fn be64(s: Seq<u8>) -> u64 {
    (s[7] + s[6] * 0x100 + s[5] * 0x10000 + s[4] * 0x1000000 + s[3] * 0x100000000
        + s[2] * 0x10000000000 + s[1] * 0x1000000000000 + s[0] * 0x100000000000000) as u64
}

/// The 128-bit value stored little-endian in a 16-byte sequence.
pub open spec fn le128(s: Seq<u8>) -> u128
    recommends
        s.len() == 16,
{
    (le64(s.subrange(0, 8)) + le64(s.subrange(8, 16)) * 0x10000000000000000) as u128
}

/// The 128-bit value stored big-endian in a 16-byte sequence.
pub open spec fn be128(s: Seq<u8>) -> u128 {
    (be64(s.subrange(8, 16)) + be64(s.subrange(0, 8)) * 0x10000000000000000) as u128
}

/// The 128-bit value stored in a 16-byte sequence in byte order `e`.
pub open spec fn u128_of(e: Endianness, s: Seq<u8>) -> u128 {
    if e == Endianness::Little {
        le128(s)
    } else {
        be128(s)
    }
}

/// The 16-bit value stored in a 2-byte sequence in byte order `e`.
pub open spec fn u16_of(e: Endianness, s: Seq<u8>) -> u16 {
    if e == Endianness::Little {
        le16(s)
    } else {
        be16(s)
    }
}

/// The 32-bit value stored in a 4-byte sequence in byte order `e`.
pub open spec fn u32_of(e: Endianness, s: Seq<u8>) -> u32 {
    if e == Endianness::Little {
        le32(s)
    } else {
        be32(s)
    }
}

/// The 64-bit value stored in an 8-byte sequence in byte order `e`.
pub open spec fn u64_of(e: Endianness, s: Seq<u8>) -> u64 {
    if e == Endianness::Little {
        le64(s)
    } else {
        be64(s)
    }
}

/// A bounds-checked reader over a byte buffer: the whole buffer and a
/// current offset. Multi-byte reads advance the offset and fail, without
/// reading, when fewer bytes remain than the field needs.
pub struct Cursor<'a> {
    buf: &'a [u8],
    pos: usize,
}

impl<'a> Cursor<'a> {
    /// The bytes this cursor reads from.
    pub closed spec fn spec_buf(self) -> Seq<u8> {
        self.buf@
    }

    /// The current offset.
    pub closed spec fn spec_pos(self) -> int {
        self.pos as int
    }

    /// The offset never exceeds the buffer length.
    pub open spec fn wf(self) -> bool {
        self.spec_pos() <= self.spec_buf().len()
    }

    /// A cursor at offset 0.
    pub fn new(buf: &'a [u8]) -> (r: Cursor<'a>)
        ensures
            r.wf(),
            r.spec_buf() == buf@,
            r.spec_pos() == 0,
    {
        Cursor { buf, pos: 0 }
    }

    /// A cursor at an absolute offset; fails if the offset is past the end.
    pub fn at(buf: &'a [u8], pos: usize) -> (r: Option<Cursor<'a>>)
        ensures
            match r {
                Option::Some(c) => {
                    &&& pos <= buf@.len()
                    &&& c.wf()
                    &&& c.spec_buf() == buf@
                    &&& c.spec_pos() == pos as int
                },
                Option::None => pos > buf@.len(),
            },
    {
        if pos <= buf.len() {
            Option::Some(Cursor { buf, pos })
        } else {
            Option::None
        }
    }

    /// The current offset.
    pub fn position(&self) -> (r: usize)
        ensures
            r as int == self.spec_pos(),
    {
        self.pos
    }

    /// How many bytes remain from the current offset to the end.
    pub fn remaining(&self) -> (r: usize)
        requires
            self.wf(),
        ensures
            r as int == self.spec_buf().len() - self.spec_pos(),
    {
        self.buf.len() - self.pos
    }

    /// Read one byte and advance.
    pub fn read_u8(&mut self) -> (r: Option<u8>)
        requires
            old(self).wf(),
        ensures
            final(self).wf(),
            final(self).spec_buf() == old(self).spec_buf(),
            match r {
                Option::Some(v) => {
                    &&& old(self).spec_pos() + 1 <= old(self).spec_buf().len()
                    &&& final(self).spec_pos() == old(self).spec_pos() + 1
                    &&& v == old(self).spec_buf()[old(self).spec_pos()]
                },
                Option::None => {
                    &&& old(self).spec_pos() + 1 > old(self).spec_buf().len()
                    &&& *final(self) == *old(self)
                },
            },
    {
        if self.pos < self.buf.len() {
            let v = self.buf[self.pos];
            self.pos = self.pos + 1;
            Option::Some(v)
        } else {
            Option::None
        }
    }

    /// Read a 16-bit integer in byte order `e` and advance.
    pub fn read_u16(&mut self, e: Endianness) -> (r: Option<u16>)
        requires
            old(self).wf(),
        ensures
            final(self).wf(),
            final(self).spec_buf() == old(self).spec_buf(),
            match r {
                Option::Some(v) => {
                    &&& old(self).spec_pos() + 2 <= old(self).spec_buf().len()
                    &&& final(self).spec_pos() == old(self).spec_pos() + 2
                    &&& v == u16_of(
                        e,
                        old(self).spec_buf().subrange(
                            old(self).spec_pos(),
                            old(self).spec_pos() + 2,
                        ),
                    )
                },
                Option::None => {
                    &&& old(self).spec_pos() + 2 > old(self).spec_buf().len()
                    &&& *final(self) == *old(self)
                },
            },
    {
        if self.buf.len() - self.pos >= 2 {
            let b0 = self.buf[self.pos];
            let b1 = self.buf[self.pos + 1];
            self.pos = self.pos + 2;
            let v: u16 = if e == Endianness::Little {
                b0 as u16 + b1 as u16 * 0x100
            } else {
                b1 as u16 + b0 as u16 * 0x100
            };
            Option::Some(v)
        } else {
            Option::None
        }
    }

    /// Read a 32-bit integer in byte order `e` and advance.
    pub fn read_u32(&mut self, e: Endianness) -> (r: Option<u32>)
        requires
            old(self).wf(),
        ensures
            final(self).wf(),
            final(self).spec_buf() == old(self).spec_buf(),
            match r {
                Option::Some(v) => {
                    &&& old(self).spec_pos() + 4 <= old(self).spec_buf().len()
                    &&& final(self).spec_pos() == old(self).spec_pos() + 4
                    &&& v == u32_of(
                        e,
                        old(self).spec_buf().subrange(
                            old(self).spec_pos(),
                            old(self).spec_pos() + 4,
                        ),
                    )
                },
                Option::None => {
                    &&& old(self).spec_pos() + 4 > old(self).spec_buf().len()
                    &&& *final(self) == *old(self)
                },
            },
    {
        if self.buf.len() - self.pos >= 4 {
            let b0 = self.buf[self.pos] as u32;
            let b1 = self.buf[self.pos + 1] as u32;
            let b2 = self.buf[self.pos + 2] as u32;
            let b3 = self.buf[self.pos + 3] as u32;
            self.pos = self.pos + 4;
            let v: u32 = if e == Endianness::Little {
                b0 + b1 * 0x100 + b2 * 0x10000 + b3 * 0x1000000
            } else {
                b3 + b2 * 0x100 + b1 * 0x10000 + b0 * 0x1000000
            };
            Option::Some(v)
        } else {
            Option::None
        }
    }

    /// Read a 64-bit integer in byte order `e` and advance.
    pub fn read_u64(&mut self, e: Endianness) -> (r: Option<u64>)
        requires
            old(self).wf(),
        ensures
            final(self).wf(),
            final(self).spec_buf() == old(self).spec_buf(),
            match r {
                Option::Some(v) => {
                    &&& old(self).spec_pos() + 8 <= old(self).spec_buf().len()
                    &&& final(self).spec_pos() == old(self).spec_pos() + 8
                    &&& v == u64_of(
                        e,
                        old(self).spec_buf().subrange(
                            old(self).spec_pos(),
                            old(self).spec_pos() + 8,
                        ),
                    )
                },
                Option::None => {
                    &&& old(self).spec_pos() + 8 > old(self).spec_buf().len()
                    &&& *final(self) == *old(self)
                },
            },
    {
        if self.buf.len() - self.pos >= 8 {
            let b0 = self.buf[self.pos] as u64;
            let b1 = self.buf[self.pos + 1] as u64;
            let b2 = self.buf[self.pos + 2] as u64;
            let b3 = self.buf[self.pos + 3] as u64;
            let b4 = self.buf[self.pos + 4] as u64;
            let b5 = self.buf[self.pos + 5] as u64;
            let b6 = self.buf[self.pos + 6] as u64;
            let b7 = self.buf[self.pos + 7] as u64;
            self.pos = self.pos + 8;
            let v: u64 = if e == Endianness::Little {
                b0 + b1 * 0x100 + b2 * 0x10000 + b3 * 0x1000000 + b4 * 0x100000000 + b5
                    * 0x10000000000 + b6 * 0x1000000000000 + b7 * 0x100000000000000
            } else {
                b7 + b6 * 0x100 + b5 * 0x10000 + b4 * 0x1000000 + b3 * 0x100000000 + b2
                    * 0x10000000000 + b1 * 0x1000000000000 + b0 * 0x100000000000000
            };
            Option::Some(v)
        } else {
            Option::None
        }
    }

    /// Read a 128-bit integer in byte order `e` and advance.
    pub fn read_u128(&mut self, e: Endianness) -> (r: Option<u128>)
        requires
            old(self).wf(),
        ensures
            final(self).wf(),
            final(self).spec_buf() == old(self).spec_buf(),
            match r {
                Option::Some(v) => {
                    &&& old(self).spec_pos() + 16 <= old(self).spec_buf().len()
                    &&& final(self).spec_pos() == old(self).spec_pos() + 16
                    &&& v == u128_of(
                        e,
                        old(self).spec_buf().subrange(
                            old(self).spec_pos(),
                            old(self).spec_pos() + 16,
                        ),
                    )
                },
                Option::None => {
                    &&& old(self).spec_pos() + 16 > old(self).spec_buf().len()
                    &&& *final(self) == *old(self)
                },
            },
    {
        if self.buf.len() - self.pos >= 16 {
            let ghost whole = self.spec_buf().subrange(self.spec_pos(), self.spec_pos() + 16);
            let a = self.read_u64(e).unwrap();
            let b = self.read_u64(e).unwrap();
            proof {
                assert(old(self).spec_buf().subrange(
                    old(self).spec_pos(),
                    old(self).spec_pos() + 8,
                ) =~= whole.subrange(0, 8));
                assert(old(self).spec_buf().subrange(
                    old(self).spec_pos() + 8,
                    old(self).spec_pos() + 16,
                ) =~= whole.subrange(8, 16));
            }
            let v: u128 = if e == Endianness::Little {
                a as u128 + b as u128 * 0x10000000000000000
            } else {
                b as u128 + a as u128 * 0x10000000000000000
            };
            Option::Some(v)
        } else {
            Option::None
        }
    }

    /// Skip `n` bytes; fails without moving when fewer remain.
    pub fn skip(&mut self, n: usize) -> (r: bool)
        requires
            old(self).wf(),
        ensures
            final(self).wf(),
            final(self).spec_buf() == old(self).spec_buf(),
            r == (old(self).spec_pos() + n <= old(self).spec_buf().len()),
            r ==> final(self).spec_pos() == old(self).spec_pos() + n,
            !r ==> *final(self) == *old(self),
    {
        if self.buf.len() - self.pos >= n {
            self.pos = self.pos + n;
            true
        } else {
            false
        }
    }

    /// Read `n` raw bytes as a sub-slice and advance.
    pub fn read_bytes(&mut self, n: usize) -> (r: Option<&'a [u8]>)
        requires
            old(self).wf(),
        ensures
            final(self).wf(),
            final(self).spec_buf() == old(self).spec_buf(),
            match r {
                Option::Some(s) => {
                    &&& old(self).spec_pos() + n <= old(self).spec_buf().len()
                    &&& final(self).spec_pos() == old(self).spec_pos() + n
                    &&& s@ == old(self).spec_buf().subrange(
                        old(self).spec_pos(),
                        old(self).spec_pos() + n,
                    )
                },
                Option::None => {
                    &&& old(self).spec_pos() + n > old(self).spec_buf().len()
                    &&& *final(self) == *old(self)
                },
            },
    {
        if self.buf.len() - self.pos >= n {
            let s = vstd::slice::slice_subrange(self.buf, self.pos, self.pos + n);
            self.pos = self.pos + n;
            Option::Some(s)
        } else {
            Option::None
        }
    }
}

} // verus!
