//! The minidump root: header, stream directory, and raw stream
//! access.
//!
//! `Minidump::read` checks the magic and version, detects the byte
//! order, and reads the directory, validating that every entry lies
//! inside the buffer. Payloads are not decoded here; the typed stream
//! accessors decode them on demand, so a malformed stream never
//! invalidates the root.

use vstd::prelude::*;
use crate::Endianness;
use crate::bytes::{Cursor, u32_of, u64_of, le32, be32};

verus! {

/// The minidump magic, `MDMP` read little-endian.
pub const HEADER_SIGNATURE: u32 = 0x504d444d;

/// The expected low word of the header's version field.
pub const HEADER_VERSION_LOW: u32 = 0xa793;

/// Byte size of the fixed header.
pub const HEADER_SIZE: usize = 32;

/// Byte size of one directory entry.
pub const DIRECTORY_ENTRY_SIZE: usize = 12;

/// Stream kind codes.
pub const THREAD_LIST_STREAM: u32 = 3;
pub const MODULE_LIST_STREAM: u32 = 4;
pub const MEMORY_LIST_STREAM: u32 = 5;
pub const EXCEPTION_STREAM: u32 = 6;
pub const SYSTEM_INFO_STREAM: u32 = 7;
pub const UNLOADED_MODULE_LIST_STREAM: u32 = 14;
pub const MISC_INFO_STREAM: u32 = 15;
pub const MEMORY_INFO_LIST_STREAM: u32 = 16;
pub const BREAKPAD_INFO_STREAM: u32 = 0x47670001;
pub const ASSERTION_INFO_STREAM: u32 = 0x47670002;

/// The sentinel kinds that the directory mapping ignores.
pub const UNUSED_STREAM: u32 = 0;
pub const LAST_RESERVED_STREAM: u32 = 0xffffffff;

/// Errors encountered while reading a minidump.
#[derive(Clone, Copy, Debug, PartialEq, Eq, Structural)]
pub enum Error {
    /// The buffer does not begin with a well-formed minidump header:
    /// bad magic or wrong version low word. Fatal.
    HeaderMismatch,
    /// The stream directory, or bytes a directory entry points at,
    /// lie outside the buffer. Fatal.
    DirectoryTruncated,
    /// The requested stream kind is absent. Recoverable.
    StreamNotFound,
    /// The requested stream is present but malformed. Recoverable;
    /// other streams stay readable.
    StreamReadFailure,
}

/// The fixed minidump header.
#[derive(Clone, Copy, Debug, PartialEq, Eq, Structural)]
pub struct MinidumpHeader {
    pub signature: u32,
    pub version: u32,
    pub stream_count: u32,
    pub stream_directory_rva: u32,
    pub checksum: u32,
    pub time_date_stamp: u32,
    pub flags: u64,
}

/// One stream directory entry: a kind and the stream's bytes.
#[derive(Clone, Copy, Debug, PartialEq, Eq, Structural)]
pub struct MinidumpDirectoryEntry {
    pub stream_type: u32,
    pub data_size: u32,
    pub rva: u32,
}

/// The byte order a buffer's magic declares, if either order yields
/// the minidump signature.
pub open spec fn spec_detect_endian(s: Seq<u8>) -> Option<Endianness> {
    if le32(s.subrange(0, 4)) == HEADER_SIGNATURE {
        Option::Some(Endianness::Little)
    } else if be32(s.subrange(0, 4)) == HEADER_SIGNATURE {
        Option::Some(Endianness::Big)
    } else {
        Option::None
    }
}

/// Whether `h` holds exactly the header fields stored at the start of
/// `s` in byte order `e`.
pub open spec fn header_decodes(s: Seq<u8>, e: Endianness, h: MinidumpHeader) -> bool {
    &&& h.signature == u32_of(e, s.subrange(0, 4))
    &&& h.version == u32_of(e, s.subrange(4, 8))
    &&& h.stream_count == u32_of(e, s.subrange(8, 12))
    &&& h.stream_directory_rva == u32_of(e, s.subrange(12, 16))
    &&& h.checksum == u32_of(e, s.subrange(16, 20))
    &&& h.time_date_stamp == u32_of(e, s.subrange(20, 24))
    &&& h.flags == u64_of(e, s.subrange(24, 32))
}

/// The directory entry stored at offset `off` of `s` in byte order
/// `e`.
pub open spec fn spec_dir_entry_at(s: Seq<u8>, e: Endianness, off: int) -> MinidumpDirectoryEntry {
    MinidumpDirectoryEntry {
        stream_type: u32_of(e, s.subrange(off, off + 4)),
        data_size: u32_of(e, s.subrange(off + 4, off + 8)),
        rva: u32_of(e, s.subrange(off + 8, off + 12)),
    }
}

/// Whether a buffer passes the header checks: long enough, a magic in
/// some byte order, and the right version low word.
pub open spec fn spec_header_ok(s: Seq<u8>) -> bool {
    &&& s.len() >= HEADER_SIZE
    &&& spec_detect_endian(s) is Some
    &&& (u32_of(spec_detect_endian(s).unwrap(), s.subrange(4, 8)) & 0xffff) == HEADER_VERSION_LOW
}

/// Whether the whole directory that the header names fits in the
/// buffer.
pub open spec fn spec_directory_fits(s: Seq<u8>, e: Endianness) -> bool
    recommends
        s.len() >= HEADER_SIZE,
{
    u32_of(e, s.subrange(12, 16)) + 12 * (u32_of(e, s.subrange(8, 12)) as int) <= s.len()
}

/// Whether the directory the header names, or bytes one of its
/// entries points at, fall outside the buffer.
pub open spec fn spec_directory_broken(s: Seq<u8>, e: Endianness) -> bool
    recommends
        s.len() >= HEADER_SIZE,
{
    ||| !spec_directory_fits(s, e)
    ||| exists|i: int|
        {
            &&& 0 <= i < u32_of(e, s.subrange(8, 12))
            &&& {
                let d = #[trigger] spec_dir_entry_at(
                    s,
                    e,
                    u32_of(e, s.subrange(12, 16)) + 12 * i,
                );
                d.rva + d.data_size > s.len()
            }
        }
}

/// A parsed minidump: the owned backing bytes, the header, the
/// directory, and the detected byte order.
///
/// Decoded streams are never cached here; accessors decode on demand,
/// so the root stays read-only after construction.
#[derive(Debug)]
pub struct Minidump {
    buf: Vec<u8>,
    /// The fixed header.
    pub header: MinidumpHeader,
    directory: Vec<MinidumpDirectoryEntry>,
    endian: Endianness,
}

impl Minidump {
    /// The raw bytes of the whole dump.
    pub closed spec fn spec_buf(self) -> Seq<u8> {
        self.buf@
    }

    /// The directory entries, in file order, duplicates included.
    pub closed spec fn spec_directory(self) -> Seq<MinidumpDirectoryEntry> {
        self.directory@
    }

    /// The detected byte order.
    pub closed spec fn spec_endian(self) -> Endianness {
        self.endian
    }

    /// The fixed header.
    pub closed spec fn spec_header(self) -> MinidumpHeader {
        self.header
    }

    /// Every recorded `(rva, size)` pair lies inside the buffer, the
    /// header matches the bytes, and the directory is the one the
    /// header names.
    pub open spec fn wf(self) -> bool {
        &&& spec_header_ok(self.spec_buf())
        &&& spec_detect_endian(self.spec_buf()) == Option::Some(self.spec_endian())
        &&& header_decodes(self.spec_buf(), self.spec_endian(), self.spec_header())
        &&& self.spec_directory().len() == self.spec_header().stream_count
        &&& spec_directory_fits(self.spec_buf(), self.spec_endian())
        &&& forall|i: int|
            0 <= i < self.spec_directory().len() ==> #[trigger] self.spec_directory()[i]
                == spec_dir_entry_at(
                self.spec_buf(),
                self.spec_endian(),
                self.spec_header().stream_directory_rva + 12 * i,
            )
        &&& forall|i: int|
            0 <= i < self.spec_directory().len() ==> (#[trigger] self.spec_directory()[i]).rva
                + self.spec_directory()[i].data_size <= self.spec_buf().len()
    }

    /// The detected byte order.
    pub fn endian(&self) -> (r: Endianness)
        ensures
            r == self.spec_endian(),
    {
        self.endian
    }

    /// The directory entries, in file order, duplicates included.
    pub fn directory_entries(&self) -> (r: &Vec<MinidumpDirectoryEntry>)
        ensures
            r@ == self.spec_directory(),
    {
        &self.directory
    }

    /// Read a `Minidump` from a byte buffer.
    ///
    /// Builds the directory; does not decode stream payloads. Fails
    /// with `HeaderMismatch` exactly when the buffer is shorter than
    /// the header, carries no minidump magic in either byte order, or
    /// has the wrong version low word; with `DirectoryTruncated`
    /// exactly when the named directory, or bytes an entry points at,
    /// fall outside the buffer.
    pub fn read(bytes: Vec<u8>) -> (r: Result<Minidump, Error>)
        ensures
            match r {
                Result::Ok(md) => {
                    &&& md.wf()
                    &&& md.spec_buf() == bytes@
                },
                Result::Err(Error::HeaderMismatch) => !spec_header_ok(bytes@),
                Result::Err(Error::DirectoryTruncated) => {
                    &&& spec_header_ok(bytes@)
                    &&& spec_directory_broken(bytes@, spec_detect_endian(bytes@).unwrap())
                },
                _ => false,
            },
    {
        if bytes.len() < HEADER_SIZE {
            return Result::Err(Error::HeaderMismatch);
        }
        let mut cur = Cursor::new(bytes.as_slice());
        let sig_le = cur.read_u32(Endianness::Little).unwrap();
        let endian = if sig_le == HEADER_SIGNATURE {
            Endianness::Little
        } else {
            let mut cur2 = Cursor::new(bytes.as_slice());
            let sig_be = cur2.read_u32(Endianness::Big).unwrap();
            if sig_be == HEADER_SIGNATURE {
                Endianness::Big
            } else {
                return Result::Err(Error::HeaderMismatch);
            }
        };
        let mut cur = Cursor::new(bytes.as_slice());
        let signature = cur.read_u32(endian).unwrap();
        let version = cur.read_u32(endian).unwrap();
        let stream_count = cur.read_u32(endian).unwrap();
        let stream_directory_rva = cur.read_u32(endian).unwrap();
        let checksum = cur.read_u32(endian).unwrap();
        let time_date_stamp = cur.read_u32(endian).unwrap();
        let flags = cur.read_u64(endian).unwrap();
        if version & 0xffff != HEADER_VERSION_LOW {
            return Result::Err(Error::HeaderMismatch);
        }
        let header = MinidumpHeader {
            signature,
            version,
            stream_count,
            stream_directory_rva,
            checksum,
            time_date_stamp,
            flags,
        };
        let count = stream_count as usize;
        if stream_directory_rva as u64 + (DIRECTORY_ENTRY_SIZE as u64) * (count as u64)
            > bytes.len() as u64 {
            proof {
                assert(!spec_directory_fits(bytes@, endian));
            }
            return Result::Err(Error::DirectoryTruncated);
        }
        let mut dcur = Cursor::at(bytes.as_slice(), stream_directory_rva as usize).unwrap();
        let mut directory: Vec<MinidumpDirectoryEntry> = Vec::new();
        let mut i: usize = 0;
        while i < count
            invariant
                i <= count,
                dcur.wf(),
                dcur.spec_buf() == bytes@,
                dcur.spec_pos() == stream_directory_rva + 12 * i,
                stream_directory_rva + 12 * count <= bytes@.len(),
                bytes@.len() >= HEADER_SIZE,
                spec_header_ok(bytes@),
                spec_detect_endian(bytes@) == Option::Some(endian),
                stream_directory_rva == u32_of(endian, bytes@.subrange(12, 16)),
                count == u32_of(endian, bytes@.subrange(8, 12)),
                directory@.len() == i as int,
                forall|j: int|
                    0 <= j < i ==> #[trigger] directory@[j] == spec_dir_entry_at(
                        bytes@,
                        endian,
                        stream_directory_rva + 12 * j,
                    ),
                forall|j: int|
                    0 <= j < i ==> (#[trigger] directory@[j]).rva + directory@[j].data_size
                        <= bytes@.len(),
            decreases count - i,
        {
            let stream_type = dcur.read_u32(endian).unwrap();
            let data_size = dcur.read_u32(endian).unwrap();
            let rva = dcur.read_u32(endian).unwrap();
            if rva as u64 + data_size as u64 > bytes.len() as u64 {
                proof {
                    let d = spec_dir_entry_at(
                        bytes@,
                        endian,
                        u32_of(endian, bytes@.subrange(12, 16)) + 12 * (i as int),
                    );
                    assert(d.stream_type == stream_type && d.data_size == data_size && d.rva
                        == rva);
                    assert(d.rva + d.data_size > bytes@.len());
                    assert(spec_directory_broken(bytes@, endian));
                }
                return Result::Err(Error::DirectoryTruncated);
            }
            directory.push(MinidumpDirectoryEntry { stream_type, data_size, rva });
            i = i + 1;
        }
        Result::Ok(Minidump { buf: bytes, header, directory, endian })
    }

    /// Index of the first directory entry of the given kind, sentinel
    /// kinds never matching.
    pub open spec fn spec_first_stream(self, kind: u32) -> Option<int> {
        if kind == UNUSED_STREAM || kind == LAST_RESERVED_STREAM {
            Option::None
        } else if exists|i: int|
            0 <= i < self.spec_directory().len() && (#[trigger] self.spec_directory()[i]).stream_type
                == kind {
            Option::Some(
                choose|i: int|
                    {
                        &&& 0 <= i < self.spec_directory().len()
                        &&& (#[trigger] self.spec_directory()[i]).stream_type == kind
                        &&& forall|j: int|
                            0 <= j < i ==> (#[trigger] self.spec_directory()[j]).stream_type != kind
                    },
            )
        } else {
            Option::None
        }
    }

    /// The raw bytes of the first stream of the given kind.
    ///
    /// Duplicates for a kind are tolerated; only the first occurrence
    /// is found here, the rest stay reachable by `all_streams`. The
    /// sentinel kinds are never found.
    pub fn get_raw_stream(&self, kind: u32) -> (r: Result<&[u8], Error>)
        requires
            self.wf(),
        ensures
            match r {
                Result::Ok(s) => {
                    &&& exists|i: int|
                        {
                            &&& 0 <= i < self.spec_directory().len()
                            &&& (#[trigger] self.spec_directory()[i]).stream_type == kind
                            &&& forall|j: int|
                                0 <= j < i ==> (#[trigger] self.spec_directory()[j]).stream_type
                                    != kind
                            &&& s@ == self.spec_buf().subrange(
                                self.spec_directory()[i].rva as int,
                                self.spec_directory()[i].rva + self.spec_directory()[i].data_size,
                            )
                        }
                    &&& kind != UNUSED_STREAM && kind != LAST_RESERVED_STREAM
                },
                Result::Err(Error::StreamNotFound) => kind == UNUSED_STREAM || kind
                    == LAST_RESERVED_STREAM || forall|i: int|
                    0 <= i < self.spec_directory().len() ==> (
                    #[trigger] self.spec_directory()[i]).stream_type != kind,
                _ => false,
            },
    {
        if kind == UNUSED_STREAM || kind == LAST_RESERVED_STREAM {
            return Result::Err(Error::StreamNotFound);
        }
        let mut i: usize = 0;
        while i < self.directory.len()
            invariant
                self.wf(),
                kind != UNUSED_STREAM,
                kind != LAST_RESERVED_STREAM,
                i <= self.spec_directory().len(),
                forall|j: int|
                    0 <= j < i ==> (#[trigger] self.spec_directory()[j]).stream_type != kind,
            decreases self.spec_directory().len() - i,
        {
            if self.directory[i].stream_type == kind {
                let entry = self.directory[i];
                proof {
                    assert(self.spec_directory()[i as int].rva
                        + self.spec_directory()[i as int].data_size <= self.spec_buf().len());
                }
                let blen = self.buf.len();
                let s = vstd::slice::slice_subrange(
                    self.buf.as_slice(),
                    entry.rva as usize,
                    entry.rva as usize + entry.data_size as usize,
                );
                proof {
                    assert((i as int) < self.spec_directory().len());
                    assert(self.spec_directory()[i as int].stream_type == kind);
                    assert(s@ == self.spec_buf().subrange(
                        self.spec_directory()[i as int].rva as int,
                        self.spec_directory()[i as int].rva + self.spec_directory()[
                            i as int].data_size,
                    ));
                }
                return Result::Ok(s);
            }
            i = i + 1;
        }
        Result::Err(Error::StreamNotFound)
    }

    /// The raw bytes of the whole dump.
    pub fn dump_bytes(&self) -> (r: &[u8])
        ensures
            r@ == self.spec_buf(),
    {
        self.buf.as_slice()
    }

    /// Whether some directory entry names this kind; the sentinel
    /// kinds never count.
    pub open spec fn spec_has_stream(self, kind: u32) -> bool {
        &&& kind != UNUSED_STREAM
        &&& kind != LAST_RESERVED_STREAM
        &&& exists|i: int|
            0 <= i < self.spec_directory().len() && (#[trigger] self.spec_directory()[i]).stream_type
                == kind
    }

    /// Whether `i` is the first directory entry of this kind.
    pub open spec fn spec_is_first(self, i: int, kind: u32) -> bool {
        &&& 0 <= i < self.spec_directory().len()
        &&& self.spec_directory()[i].stream_type == kind
        &&& forall|j: int| 0 <= j < i ==> (#[trigger] self.spec_directory()[j]).stream_type != kind
    }

    /// The raw bytes of directory entry `i`'s stream.
    pub open spec fn spec_stream_bytes(self, i: int) -> Seq<u8>
        recommends
            0 <= i < self.spec_directory().len(),
    {
        self.spec_buf().subrange(
            self.spec_directory()[i].rva as int,
            self.spec_directory()[i].rva + self.spec_directory()[i].data_size,
        )
    }

    /// The bytes a location descriptor points at, when they lie inside
    /// the buffer.
    pub fn location_bytes(&self, loc: crate::streams::MinidumpLocationDescriptor) -> (r: Option<
        &[u8],
    >)
        ensures
            match r {
                Option::Some(s) => {
                    &&& loc.rva + loc.data_size <= self.spec_buf().len()
                    &&& s@ == self.spec_buf().subrange(loc.rva as int, loc.rva + loc.data_size)
                },
                Option::None => loc.rva + loc.data_size > self.spec_buf().len(),
            },
    {
        let blen = self.buf.len();
        if loc.rva as u64 + loc.data_size as u64 > blen as u64 {
            return Option::None;
        }
        Option::Some(
            vstd::slice::slice_subrange(
                self.buf.as_slice(),
                loc.rva as usize,
                loc.rva as usize + loc.data_size as usize,
            ),
        )
    }

    /// Every stream in directory order, duplicates included: each
    /// entry's kind with its raw bytes.
    pub fn all_streams(&self) -> (r: Vec<(u32, &[u8])>)
        requires
            self.wf(),
        ensures
            r@.len() == self.spec_directory().len(),
            forall|i: int|
                0 <= i < r@.len() ==> {
                    &&& (#[trigger] r@[i]).0 == self.spec_directory()[i].stream_type
                    &&& r@[i].1@ == self.spec_buf().subrange(
                        self.spec_directory()[i].rva as int,
                        self.spec_directory()[i].rva + self.spec_directory()[i].data_size,
                    )
                },
    {
        let mut out: Vec<(u32, &[u8])> = Vec::new();
        let mut i: usize = 0;
        while i < self.directory.len()
            invariant
                self.wf(),
                i <= self.spec_directory().len(),
                out@.len() == i as int,
                forall|j: int|
                    0 <= j < i ==> {
                        &&& (#[trigger] out@[j]).0 == self.spec_directory()[j].stream_type
                        &&& out@[j].1@ == self.spec_buf().subrange(
                            self.spec_directory()[j].rva as int,
                            self.spec_directory()[j].rva + self.spec_directory()[j].data_size,
                        )
                    },
            decreases self.spec_directory().len() - i,
        {
            let entry = self.directory[i];
            proof {
                assert(self.spec_directory()[i as int].rva
                    + self.spec_directory()[i as int].data_size <= self.spec_buf().len());
            }
            let blen = self.buf.len();
            let s = vstd::slice::slice_subrange(
                self.buf.as_slice(),
                entry.rva as usize,
                entry.rva as usize + entry.data_size as usize,
            );
            out.push((entry.stream_type, s));
            i = i + 1;
        }
        out
    }
}

} // verus!