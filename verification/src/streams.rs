//! Typed stream decoders.
//!
//! Each decoder is a pure function from a stream's raw bytes (and,
//! where records point back into the dump, the whole buffer) to a
//! typed view. Count-prefixed list streams must match their declared
//! size exactly; fixed records tolerate trailing bytes. A malformed
//! stream fails only itself: the minidump root and its other streams
//! stay readable.

use vstd::prelude::*;
use crate::Endianness;
use crate::bytes::{Cursor, u16_of, u32_of, u64_of};
use crate::text::{dec_digits, format_dec_u32, utf16_lossy, utf16_units};
use vstd::string::StringExecFns;

verus! {

/// Size and file offset of a byte region inside the dump.
#[derive(Clone, Copy, Debug, PartialEq, Eq, Structural)]
pub struct MinidumpLocationDescriptor {
    pub data_size: u32,
    pub rva: u32,
}

/// A region of the failing process's memory: where it lived and
/// where its bytes sit in the dump.
#[derive(Clone, Copy, Debug, PartialEq, Eq, Structural)]
pub struct MinidumpMemoryDescriptor {
    pub start_of_memory_range: u64,
    pub memory: MinidumpLocationDescriptor,
}

/// The location descriptor stored at offset `off`.
pub open spec fn spec_location_at(s: Seq<u8>, e: Endianness, off: int) -> MinidumpLocationDescriptor {
    MinidumpLocationDescriptor {
        data_size: u32_of(e, s.subrange(off, off + 4)),
        rva: u32_of(e, s.subrange(off + 4, off + 8)),
    }
}

/// The memory descriptor stored at offset `off`.
pub open spec fn spec_memory_descriptor_at(
    s: Seq<u8>,
    e: Endianness,
    off: int,
) -> MinidumpMemoryDescriptor {
    MinidumpMemoryDescriptor {
        start_of_memory_range: u64_of(e, s.subrange(off, off + 8)),
        memory: spec_location_at(s, e, off + 8),
    }
}

/// Read a location descriptor.
fn read_location<'a>(cur: &mut Cursor<'a>, e: Endianness) -> (r: Option<MinidumpLocationDescriptor>)
    requires
        old(cur).wf(),
    ensures
        final(cur).wf(),
        final(cur).spec_buf() == old(cur).spec_buf(),
        match r {
            Option::Some(d) => {
                &&& old(cur).spec_pos() + 8 <= old(cur).spec_buf().len()
                &&& final(cur).spec_pos() == old(cur).spec_pos() + 8
                &&& d == spec_location_at(old(cur).spec_buf(), e, old(cur).spec_pos())
            },
            Option::None => {
                &&& old(cur).spec_pos() + 8 > old(cur).spec_buf().len()
                &&& *final(cur) == *old(cur)
            },
        },
{
    if cur.remaining() < 8 {
        return Option::None;
    }
    let data_size = cur.read_u32(e).unwrap();
    let rva = cur.read_u32(e).unwrap();
    Option::Some(MinidumpLocationDescriptor { data_size, rva })
}

/// Read a memory descriptor.
fn read_memory_descriptor<'a>(cur: &mut Cursor<'a>, e: Endianness) -> (r: Option<
    MinidumpMemoryDescriptor,
>)
    requires
        old(cur).wf(),
    ensures
        final(cur).wf(),
        final(cur).spec_buf() == old(cur).spec_buf(),
        match r {
            Option::Some(d) => {
                &&& old(cur).spec_pos() + 16 <= old(cur).spec_buf().len()
                &&& final(cur).spec_pos() == old(cur).spec_pos() + 16
                &&& d == spec_memory_descriptor_at(old(cur).spec_buf(), e, old(cur).spec_pos())
            },
            Option::None => {
                &&& old(cur).spec_pos() + 16 > old(cur).spec_buf().len()
                &&& *final(cur) == *old(cur)
            },
        },
{
    if cur.remaining() < 16 {
        return Option::None;
    }
    let start_of_memory_range = cur.read_u64(e).unwrap();
    let memory = read_location(cur, e).unwrap();
    Option::Some(MinidumpMemoryDescriptor { start_of_memory_range, memory })
}

/// Byte size of one thread record.
pub const THREAD_RECORD_SIZE: usize = 48;

/// One thread of the failing process: identity, scheduling state,
/// its stack region, and where its CPU context record sits.
#[derive(Clone, Copy, Debug, PartialEq, Eq, Structural)]
pub struct MinidumpThread {
    pub thread_id: u32,
    pub suspend_count: u32,
    pub priority_class: u32,
    pub priority: u32,
    pub teb: u64,
    pub stack: MinidumpMemoryDescriptor,
    pub thread_context: MinidumpLocationDescriptor,
}

/// The thread record stored at offset `off`.
pub open spec fn spec_thread_at(s: Seq<u8>, e: Endianness, off: int) -> MinidumpThread {
    MinidumpThread {
        thread_id: u32_of(e, s.subrange(off, off + 4)),
        suspend_count: u32_of(e, s.subrange(off + 4, off + 8)),
        priority_class: u32_of(e, s.subrange(off + 8, off + 12)),
        priority: u32_of(e, s.subrange(off + 12, off + 16)),
        teb: u64_of(e, s.subrange(off + 16, off + 24)),
        stack: spec_memory_descriptor_at(s, e, off + 24),
        thread_context: spec_location_at(s, e, off + 40),
    }
}

/// The threads of a dump, in file order.
#[derive(Clone, Debug, PartialEq)]
pub struct MinidumpThreadList {
    pub threads: Vec<MinidumpThread>,
}

/// Decode a thread-list stream: a 32-bit count followed by exactly
/// that many thread records. Fails exactly when the stream is shorter
/// than its count asks or carries trailing bytes.
pub fn read_thread_list(stream: &[u8], e: Endianness) -> (r: Option<MinidumpThreadList>)
    ensures
        match r {
            Option::Some(l) => {
                &&& stream@.len() >= 4
                &&& stream@.len() == 4 + 48 * (u32_of(e, stream@.subrange(0, 4)) as int)
                &&& l.threads@.len() == u32_of(e, stream@.subrange(0, 4))
                &&& forall|i: int|
                    0 <= i < l.threads@.len() ==> #[trigger] l.threads@[i] == spec_thread_at(
                        stream@,
                        e,
                        4 + 48 * i,
                    )
            },
            Option::None => stream@.len() < 4 || stream@.len() != 4 + 48 * (u32_of(
                e,
                stream@.subrange(0, 4),
            ) as int),
        },
{
    let mut cur = Cursor::new(stream);
    let count = match cur.read_u32(e) {
        Option::Some(c) => c,
        Option::None => {
            return Option::None;
        },
    };
    if stream.len() as u64 != 4 + (THREAD_RECORD_SIZE as u64) * (count as u64) {
        return Option::None;
    }
    let mut threads: Vec<MinidumpThread> = Vec::new();
    let mut i: usize = 0;
    while i < count as usize
        invariant
            i <= count,
            cur.wf(),
            cur.spec_buf() == stream@,
            cur.spec_pos() == 4 + 48 * i,
            stream@.len() == 4 + 48 * (count as int),
            threads@.len() == i as int,
            forall|j: int|
                0 <= j < i ==> #[trigger] threads@[j] == spec_thread_at(stream@, e, 4 + 48 * j),
        decreases count - i,
    {
        let thread_id = cur.read_u32(e).unwrap();
        let suspend_count = cur.read_u32(e).unwrap();
        let priority_class = cur.read_u32(e).unwrap();
        let priority = cur.read_u32(e).unwrap();
        let teb = cur.read_u64(e).unwrap();
        let stack = read_memory_descriptor(&mut cur, e).unwrap();
        let thread_context = read_location(&mut cur, e).unwrap();
        threads.push(
            MinidumpThread {
                thread_id,
                suspend_count,
                priority_class,
                priority,
                teb,
                stack,
                thread_context,
            },
        );
        i = i + 1;
    }
    Option::Some(MinidumpThreadList { threads })
}

/// Decode a memory-list stream: a 32-bit count followed by exactly
/// that many memory descriptors. Fails exactly when the stream is
/// shorter than its count asks or carries trailing bytes.
pub fn read_memory_list(stream: &[u8], e: Endianness) -> (r: Option<Vec<MinidumpMemoryDescriptor>>)
    ensures
        match r {
            Option::Some(ds) => {
                &&& stream@.len() >= 4
                &&& stream@.len() == 4 + 16 * (u32_of(e, stream@.subrange(0, 4)) as int)
                &&& ds@.len() == u32_of(e, stream@.subrange(0, 4))
                &&& forall|i: int|
                    0 <= i < ds@.len() ==> #[trigger] ds@[i] == spec_memory_descriptor_at(
                        stream@,
                        e,
                        4 + 16 * i,
                    )
            },
            Option::None => stream@.len() < 4 || stream@.len() != 4 + 16 * (u32_of(
                e,
                stream@.subrange(0, 4),
            ) as int),
        },
{
    let mut cur = Cursor::new(stream);
    let count = match cur.read_u32(e) {
        Option::Some(c) => c,
        Option::None => {
            return Option::None;
        },
    };
    if stream.len() as u64 != 4 + (MEMORY_DESCRIPTOR_SIZE as u64) * (count as u64) {
        return Option::None;
    }
    let mut descriptors: Vec<MinidumpMemoryDescriptor> = Vec::new();
    let mut i: usize = 0;
    while i < count as usize
        invariant
            i <= count,
            cur.wf(),
            cur.spec_buf() == stream@,
            cur.spec_pos() == 4 + 16 * i,
            stream@.len() == 4 + 16 * (count as int),
            descriptors@.len() == i as int,
            forall|j: int|
                0 <= j < i ==> #[trigger] descriptors@[j] == spec_memory_descriptor_at(
                    stream@,
                    e,
                    4 + 16 * j,
                ),
        decreases count - i,
    {
        let d = read_memory_descriptor(&mut cur, e).unwrap();
        descriptors.push(d);
        i = i + 1;
    }
    Option::Some(descriptors)
}

/// The address range a memory region occupies, when its size gives it
/// one inside the address space.
impl MinidumpMemoryDescriptor {
    /// The region's address range, when it has one.
    pub open spec fn spec_range(self) -> Option<crate::range_index::AddressRange> {
        if self.memory.data_size > 0 && self.start_of_memory_range + self.memory.data_size - 1
            <= 0xffffffffffffffff {
            Option::Some(
                crate::range_index::AddressRange {
                    start: self.start_of_memory_range,
                    end: (self.start_of_memory_range + self.memory.data_size - 1) as u64,
                },
            )
        } else {
            Option::None
        }
    }

    /// The region's address range, when it has one.
    pub fn range(&self) -> (r: Option<crate::range_index::AddressRange>)
        ensures
            r == self.spec_range(),
    {
        if self.memory.data_size > 0 && self.start_of_memory_range
            <= 0xffffffffffffffff - (self.memory.data_size as u64 - 1) {
            Option::Some(
                crate::range_index::AddressRange {
                    start: self.start_of_memory_range,
                    end: self.start_of_memory_range + (self.memory.data_size as u64 - 1),
                },
            )
        } else {
            Option::None
        }
    }
}

/// The `(range, index)` entries that feed the memory address index:
/// one per region with a usable range, carrying its position.
pub open spec fn spec_memory_entries(ds: Seq<MinidumpMemoryDescriptor>) -> Seq<
    (crate::range_index::AddressRange, u64),
>
    decreases ds.len(),
{
    if ds.len() == 0 {
        Seq::empty()
    } else {
        let pre = spec_memory_entries(ds.drop_last());
        match ds.last().spec_range() {
            Option::Some(rg) => pre.push((rg, (ds.len() - 1) as u64)),
            Option::None => pre,
        }
    }
}

/// Every entry's index names a region of the list.
proof fn lemma_memory_entries_indexed(ds: Seq<MinidumpMemoryDescriptor>)
    ensures
        forall|i: int|
            0 <= i < spec_memory_entries(ds).len() ==> (#[trigger] spec_memory_entries(ds)[i]).1
                < ds.len(),
        forall|i: int|
            0 <= i < spec_memory_entries(ds).len() ==> (#[trigger] spec_memory_entries(
                ds,
            )[i]).0.wf(),
    decreases ds.len(),
{
    if ds.len() > 0 {
        lemma_memory_entries_indexed(ds.drop_last());
        let pre = spec_memory_entries(ds.drop_last());
        let cur = spec_memory_entries(ds);
        assert forall|i: int| 0 <= i < cur.len() implies (#[trigger] cur[i]).1 < ds.len()
            && (cur[i].0).wf() by {
            match ds.last().spec_range() {
                Option::Some(rg) => {
                    if i < pre.len() {
                        assert(cur[i] == pre[i]);
                    } else {
                        assert(cur[i] == (rg, (ds.len() - 1) as u64));
                    }
                },
                Option::None => {
                    assert(cur[i] == pre[i]);
                },
            }
        }
    }
}

/// The memory regions of a dump, in file order, with an
/// overlap-tolerant index from address to region.
#[derive(Debug, Clone)]
pub struct MinidumpMemoryList {
    descriptors: Vec<MinidumpMemoryDescriptor>,
    by_addr: crate::range_index::RangeIndex<u64>,
}

impl MinidumpMemoryList {
    /// The regions, in file order.
    pub closed spec fn spec_descriptors(self) -> Seq<MinidumpMemoryDescriptor> {
        self.descriptors@
    }

    /// The address index entries.
    pub closed spec fn spec_index(self) -> Seq<(crate::range_index::AddressRange, u64)> {
        self.by_addr.spec_entries()
    }

    /// The index is the merged, sorted view of the regions' ranges,
    /// and every index value names a region.
    pub open spec fn wf(self) -> bool {
        &&& crate::range_index::entries_disjoint(self.spec_index())
        &&& crate::range_index::entries_wf(self.spec_index())
        &&& self.spec_index() == crate::range_index::spec_merge(
            crate::range_index::spec_sort_entries(spec_memory_entries(self.spec_descriptors())),
        )
        &&& forall|i: int|
            0 <= i < self.spec_index().len() ==> (#[trigger] self.spec_index()[i]).1
                < self.spec_descriptors().len()
    }

    /// Index the regions by address, eagerly, so later lookups are a
    /// binary search. Overlapping regions conflict; the dropped
    /// entries come back beside the list, one per conflict, for the
    /// caller to report.
    pub fn from_descriptors(descriptors: Vec<MinidumpMemoryDescriptor>) -> (r: (
        MinidumpMemoryList,
        Vec<(crate::range_index::AddressRange, u64)>,
    ))
        ensures
            r.0.wf(),
            r.0.spec_descriptors() == descriptors@,
            r.1@ == crate::range_index::spec_merge_dropped(
                crate::range_index::spec_sort_entries(spec_memory_entries(descriptors@)),
            ),
    {
        let ghost dsg = descriptors@;
        let mut entries: Vec<(crate::range_index::AddressRange, u64)> = Vec::new();
        let mut i: usize = 0;
        while i < descriptors.len()
            invariant
                i <= descriptors@.len(),
                entries@ == spec_memory_entries(descriptors@.subrange(0, i as int)),
            decreases descriptors@.len() - i,
        {
            match descriptors[i].range() {
                Option::Some(rg) => {
                    entries.push((rg, i as u64));
                },
                Option::None => {},
            }
            proof {
                assert(descriptors@.subrange(0, i + 1).drop_last() =~= descriptors@.subrange(
                    0,
                    i as int,
                ));
                assert(descriptors@.subrange(0, i + 1).last() == descriptors@[i as int]);
            }
            i = i + 1;
        }
        proof {
            assert(descriptors@.subrange(0, descriptors@.len() as int) =~= descriptors@);
            lemma_memory_entries_indexed(dsg);
        }
        let (idx, dropped) = crate::range_index::into_range_index(entries);
        proof {
            crate::range_index::lemma_sort_entries_props(spec_memory_entries(dsg));
            crate::range_index::lemma_merge_values(
                crate::range_index::spec_sort_entries(spec_memory_entries(dsg)),
            );
            assert forall|i: int| 0 <= i < idx.spec_entries().len() implies (
            #[trigger] idx.spec_entries()[i]).1 < dsg.len() by {
                let srt = crate::range_index::spec_sort_entries(spec_memory_entries(dsg));
                let j = choose|j: int| 0 <= j < srt.len() && idx.spec_entries()[i].1 == srt[j].1;
                assert(spec_memory_entries(dsg).contains(srt[j]));
                let k = choose|k: int|
                    0 <= k < spec_memory_entries(dsg).len() && spec_memory_entries(dsg)[k]
                        == srt[j];
            }
        }
        (MinidumpMemoryList { descriptors, by_addr: idx }, dropped)
    }

    /// The regions, in file order.
    pub fn descriptors(&self) -> (r: &Vec<MinidumpMemoryDescriptor>)
        ensures
            r@ == self.spec_descriptors(),
    {
        &self.descriptors
    }

    /// The region that covers `addr`, if the index maps one.
    pub fn memory_at_address(&self, addr: u64) -> (r: Option<&MinidumpMemoryDescriptor>)
        requires
            self.wf(),
        ensures
            match r {
                Option::Some(d) => exists|i: int|
                    {
                        &&& 0 <= i < self.spec_index().len()
                        &&& (#[trigger] self.spec_index()[i]).0.spec_contains(addr)
                        &&& *d == self.spec_descriptors()[self.spec_index()[i].1 as int]
                    },
                Option::None => !crate::range_index::covered(self.spec_index(), addr),
            },
    {
        match self.by_addr.get(addr) {
            Option::Some(iv) => {
                let idx = *iv;
                let n = self.descriptors.len();
                proof {
                    let i = choose|i: int|
                        0 <= i < self.spec_index().len() && (
                        #[trigger] self.spec_index()[i]).0.spec_contains(addr) && idx
                            == self.spec_index()[i].1;
                    assert(self.spec_index()[i].1 < self.spec_descriptors().len());
                    assert(idx < n);
                }
                let d = &self.descriptors[idx as usize];
                proof {
                    let i = choose|i: int|
                        0 <= i < self.spec_index().len() && (
                        #[trigger] self.spec_index()[i]).0.spec_contains(addr) && idx
                            == self.spec_index()[i].1;
                    assert(*d == self.spec_descriptors()[self.spec_index()[i].1 as int]);
                }
                Option::Some(d)
            },
            Option::None => Option::None,
        }
    }
}

/// The CPU family a dump's system-information stream names.
#[derive(Clone, Copy, Debug, PartialEq, Eq, Structural)]
pub enum Cpu {
    X86,
    X86_64,
    Ppc,
    Ppc64,
    Sparc,
    Arm,
    Arm64,
    Mips,
    Unknown(u16),
}

/// Processor-architecture codes of the system-information record.
pub const PROCESSOR_ARCHITECTURE_INTEL: u16 = 0;
pub const PROCESSOR_ARCHITECTURE_MIPS: u16 = 1;
pub const PROCESSOR_ARCHITECTURE_PPC: u16 = 3;
pub const PROCESSOR_ARCHITECTURE_ARM: u16 = 5;
pub const PROCESSOR_ARCHITECTURE_AMD64: u16 = 9;
pub const PROCESSOR_ARCHITECTURE_SPARC: u16 = 0x8001;
pub const PROCESSOR_ARCHITECTURE_PPC64: u16 = 0x8002;
pub const PROCESSOR_ARCHITECTURE_ARM64: u16 = 0x8003;

/// The CPU family a processor-architecture code names.
pub open spec fn spec_cpu_of(arch: u16) -> Cpu {
    if arch == PROCESSOR_ARCHITECTURE_INTEL {
        Cpu::X86
    } else if arch == PROCESSOR_ARCHITECTURE_AMD64 {
        Cpu::X86_64
    } else if arch == PROCESSOR_ARCHITECTURE_PPC {
        Cpu::Ppc
    } else if arch == PROCESSOR_ARCHITECTURE_PPC64 {
        Cpu::Ppc64
    } else if arch == PROCESSOR_ARCHITECTURE_SPARC {
        Cpu::Sparc
    } else if arch == PROCESSOR_ARCHITECTURE_ARM {
        Cpu::Arm
    } else if arch == PROCESSOR_ARCHITECTURE_ARM64 {
        Cpu::Arm64
    } else if arch == PROCESSOR_ARCHITECTURE_MIPS {
        Cpu::Mips
    } else {
        Cpu::Unknown(arch)
    }
}

impl Cpu {
    /// The CPU family a processor-architecture code names.
    pub fn from_architecture(arch: u16) -> (r: Cpu)
        ensures
            r == spec_cpu_of(arch),
    {
        if arch == PROCESSOR_ARCHITECTURE_INTEL {
            Cpu::X86
        } else if arch == PROCESSOR_ARCHITECTURE_AMD64 {
            Cpu::X86_64
        } else if arch == PROCESSOR_ARCHITECTURE_PPC {
            Cpu::Ppc
        } else if arch == PROCESSOR_ARCHITECTURE_PPC64 {
            Cpu::Ppc64
        } else if arch == PROCESSOR_ARCHITECTURE_SPARC {
            Cpu::Sparc
        } else if arch == PROCESSOR_ARCHITECTURE_ARM {
            Cpu::Arm
        } else if arch == PROCESSOR_ARCHITECTURE_ARM64 {
            Cpu::Arm64
        } else if arch == PROCESSOR_ARCHITECTURE_MIPS {
            Cpu::Mips
        } else {
            Cpu::Unknown(arch)
        }
    }

    /// The short display name of the CPU family.
    pub fn name(&self) -> (r: &'static str)
        ensures
            r@ == self.spec_name(),
    {
        proof {
            reveal_strlit("x86");
            reveal_strlit("amd64");
            reveal_strlit("ppc");
            reveal_strlit("ppc64");
            reveal_strlit("sparc");
            reveal_strlit("arm");
            reveal_strlit("arm64");
            reveal_strlit("mips");
            reveal_strlit("unknown");
        }
        match self {
            Cpu::X86 => "x86",
            Cpu::X86_64 => "amd64",
            Cpu::Ppc => "ppc",
            Cpu::Ppc64 => "ppc64",
            Cpu::Sparc => "sparc",
            Cpu::Arm => "arm",
            Cpu::Arm64 => "arm64",
            Cpu::Mips => "mips",
            Cpu::Unknown(_) => "unknown",
        }
    }

    /// The short display name of the CPU family.
    pub open spec fn spec_name(self) -> Seq<char> {
        match self {
            Cpu::X86 => "x86"@,
            Cpu::X86_64 => "amd64"@,
            Cpu::Ppc => "ppc"@,
            Cpu::Ppc64 => "ppc64"@,
            Cpu::Sparc => "sparc"@,
            Cpu::Arm => "arm"@,
            Cpu::Arm64 => "arm64"@,
            Cpu::Mips => "mips"@,
            Cpu::Unknown(_) => "unknown"@,
        }
    }
}

/// The operating system a dump's system-information stream names.
#[derive(Clone, Copy, Debug, PartialEq, Eq, Structural)]
pub enum Os {
    Windows,
    MacOsX,
    Ios,
    Linux,
    Solaris,
    Android,
    Ps3,
    NaCl,
    Unknown(u32),
}

/// Platform codes of the system-information record.
pub const PLATFORM_WIN32_NT: u32 = 2;
pub const PLATFORM_MAC_OS_X: u32 = 0x8101;
pub const PLATFORM_IOS: u32 = 0x8102;
pub const PLATFORM_LINUX: u32 = 0x8201;
pub const PLATFORM_SOLARIS: u32 = 0x8202;
pub const PLATFORM_ANDROID: u32 = 0x8203;
pub const PLATFORM_PS3: u32 = 0x8204;
pub const PLATFORM_NACL: u32 = 0x8205;

/// The operating system a platform code names.
pub open spec fn spec_os_of(platform: u32) -> Os {
    if platform == PLATFORM_WIN32_NT {
        Os::Windows
    } else if platform == PLATFORM_MAC_OS_X {
        Os::MacOsX
    } else if platform == PLATFORM_IOS {
        Os::Ios
    } else if platform == PLATFORM_LINUX {
        Os::Linux
    } else if platform == PLATFORM_SOLARIS {
        Os::Solaris
    } else if platform == PLATFORM_ANDROID {
        Os::Android
    } else if platform == PLATFORM_PS3 {
        Os::Ps3
    } else if platform == PLATFORM_NACL {
        Os::NaCl
    } else {
        Os::Unknown(platform)
    }
}

impl Os {
    /// The operating system a platform code names.
    pub fn from_platform_id(platform: u32) -> (r: Os)
        ensures
            r == spec_os_of(platform),
    {
        if platform == PLATFORM_WIN32_NT {
            Os::Windows
        } else if platform == PLATFORM_MAC_OS_X {
            Os::MacOsX
        } else if platform == PLATFORM_IOS {
            Os::Ios
        } else if platform == PLATFORM_LINUX {
            Os::Linux
        } else if platform == PLATFORM_SOLARIS {
            Os::Solaris
        } else if platform == PLATFORM_ANDROID {
            Os::Android
        } else if platform == PLATFORM_PS3 {
            Os::Ps3
        } else if platform == PLATFORM_NACL {
            Os::NaCl
        } else {
            Os::Unknown(platform)
        }
    }

    /// The long display name of the operating system.
    pub open spec fn spec_long_name(self) -> Seq<char> {
        match self {
            Os::Windows => "Windows NT"@,
            Os::MacOsX => "Mac OS X"@,
            Os::Ios => "iOS"@,
            Os::Linux => "Linux"@,
            Os::Solaris => "Solaris"@,
            Os::Android => "Android"@,
            Os::Ps3 => "PS3"@,
            Os::NaCl => "NaCl"@,
            Os::Unknown(_) => "unknown"@,
        }
    }

    /// The long display name of the operating system.
    pub fn long_name(&self) -> (r: &'static str)
        ensures
            r@ == self.spec_long_name(),
    {
        proof {
            reveal_strlit("Windows NT");
            reveal_strlit("Mac OS X");
            reveal_strlit("iOS");
            reveal_strlit("Linux");
            reveal_strlit("Solaris");
            reveal_strlit("Android");
            reveal_strlit("PS3");
            reveal_strlit("NaCl");
            reveal_strlit("unknown");
        }
        match self {
            Os::Windows => "Windows NT",
            Os::MacOsX => "Mac OS X",
            Os::Ios => "iOS",
            Os::Linux => "Linux",
            Os::Solaris => "Solaris",
            Os::Android => "Android",
            Os::Ps3 => "PS3",
            Os::NaCl => "NaCl",
            Os::Unknown(_) => "unknown",
        }
    }
}

/// Byte size of the fixed system-information record.
pub const SYSTEM_INFO_SIZE: usize = 56;

/// Information about the system that wrote the dump.
#[derive(Clone, Debug, PartialEq)]
pub struct MinidumpSystemInfo {
    pub processor_architecture: u16,
    pub processor_level: u16,
    pub processor_revision: u16,
    pub number_of_processors: u8,
    pub product_type: u8,
    pub major_version: u32,
    pub minor_version: u32,
    pub build_number: u32,
    pub platform_id: u32,
    pub csd_version_rva: u32,
    pub suite_mask: u16,
    pub reserved2: u16,
    pub cpu_info: Vec<u8>,
    /// The CPU family the architecture code names.
    pub cpu: Cpu,
    /// The operating system the platform code names.
    pub os: Os,
}

/// Whether `si` holds exactly the system-information record at the
/// start of `s` in byte order `e`.
pub open spec fn system_info_decodes(s: Seq<u8>, e: Endianness, si: MinidumpSystemInfo) -> bool {
    &&& si.processor_architecture == u16_of(e, s.subrange(0, 2))
    &&& si.processor_level == u16_of(e, s.subrange(2, 4))
    &&& si.processor_revision == u16_of(e, s.subrange(4, 6))
    &&& si.number_of_processors == s[6]
    &&& si.product_type == s[7]
    &&& si.major_version == u32_of(e, s.subrange(8, 12))
    &&& si.minor_version == u32_of(e, s.subrange(12, 16))
    &&& si.build_number == u32_of(e, s.subrange(16, 20))
    &&& si.platform_id == u32_of(e, s.subrange(20, 24))
    &&& si.csd_version_rva == u32_of(e, s.subrange(24, 28))
    &&& si.suite_mask == u16_of(e, s.subrange(28, 30))
    &&& si.reserved2 == u16_of(e, s.subrange(30, 32))
    &&& si.cpu_info@ == s.subrange(32, 56)
    &&& si.cpu == spec_cpu_of(u16_of(e, s.subrange(0, 2)))
    &&& si.os == spec_os_of(u32_of(e, s.subrange(20, 24)))
}

/// Decode a system-information stream. A fixed record; trailing bytes
/// are tolerated. Fails exactly when the stream is shorter than the
/// record.
pub fn read_system_info(stream: &[u8], e: Endianness) -> (r: Option<MinidumpSystemInfo>)
    ensures
        match r {
            Option::Some(si) => stream@.len() >= SYSTEM_INFO_SIZE && system_info_decodes(
                stream@,
                e,
                si,
            ),
            Option::None => stream@.len() < SYSTEM_INFO_SIZE,
        },
{
    if stream.len() < SYSTEM_INFO_SIZE {
        return Option::None;
    }
    let mut cur = Cursor::new(stream);
    let processor_architecture = cur.read_u16(e).unwrap();
    let processor_level = cur.read_u16(e).unwrap();
    let processor_revision = cur.read_u16(e).unwrap();
    let number_of_processors = cur.read_u8().unwrap();
    let product_type = cur.read_u8().unwrap();
    let major_version = cur.read_u32(e).unwrap();
    let minor_version = cur.read_u32(e).unwrap();
    let build_number = cur.read_u32(e).unwrap();
    let platform_id = cur.read_u32(e).unwrap();
    let csd_version_rva = cur.read_u32(e).unwrap();
    let suite_mask = cur.read_u16(e).unwrap();
    let reserved2 = cur.read_u16(e).unwrap();
    let cpu_info = vstd::slice::slice_to_vec(cur.read_bytes(24).unwrap());
    let cpu = Cpu::from_architecture(processor_architecture);
    let os = Os::from_platform_id(platform_id);
    Option::Some(
        MinidumpSystemInfo {
            processor_architecture,
            processor_level,
            processor_revision,
            number_of_processors,
            product_type,
            major_version,
            minor_version,
            build_number,
            platform_id,
            csd_version_rva,
            suite_mask,
            reserved2,
            cpu_info,
            cpu,
            os,
        },
    )
}

impl MinidumpSystemInfo {
    /// The dotted `major.minor.build` version of the operating
    /// system.
    pub fn os_version(&self) -> (r: String)
        ensures
            r@ == dec_digits(self.major_version as nat) + "."@ + dec_digits(
                self.minor_version as nat,
            ) + "."@ + dec_digits(self.build_number as nat),
    {
        let mut s = format_dec_u32(self.major_version);
        s.append(".");
        crate::text::push_dec_u32(self.minor_version, &mut s);
        s.append(".");
        crate::text::push_dec_u32(self.build_number, &mut s);
        s
    }
}

/// Byte size of one module record.
pub const MODULE_RECORD_SIZE: usize = 108;

/// Byte size of one memory descriptor.
pub const MEMORY_DESCRIPTOR_SIZE: usize = 16;

/// Fixed version record of a module.
#[derive(Clone, Copy, Debug, PartialEq, Eq, Structural)]
pub struct VsFixedFileInfo {
    pub signature: u32,
    pub struct_version: u32,
    pub file_version_hi: u32,
    pub file_version_lo: u32,
    pub product_version_hi: u32,
    pub product_version_lo: u32,
    pub file_flags_mask: u32,
    pub file_flags: u32,
    pub file_os: u32,
    pub file_type: u32,
    pub file_subtype: u32,
    pub file_date_hi: u32,
    pub file_date_lo: u32,
}

/// The version record stored at offset `off`.
pub open spec fn spec_version_info_at(s: Seq<u8>, e: Endianness, off: int) -> VsFixedFileInfo {
    VsFixedFileInfo {
        signature: u32_of(e, s.subrange(off, off + 4)),
        struct_version: u32_of(e, s.subrange(off + 4, off + 8)),
        file_version_hi: u32_of(e, s.subrange(off + 8, off + 12)),
        file_version_lo: u32_of(e, s.subrange(off + 12, off + 16)),
        product_version_hi: u32_of(e, s.subrange(off + 16, off + 20)),
        product_version_lo: u32_of(e, s.subrange(off + 20, off + 24)),
        file_flags_mask: u32_of(e, s.subrange(off + 24, off + 28)),
        file_flags: u32_of(e, s.subrange(off + 28, off + 32)),
        file_os: u32_of(e, s.subrange(off + 32, off + 36)),
        file_type: u32_of(e, s.subrange(off + 36, off + 40)),
        file_subtype: u32_of(e, s.subrange(off + 40, off + 44)),
        file_date_hi: u32_of(e, s.subrange(off + 44, off + 48)),
        file_date_lo: u32_of(e, s.subrange(off + 48, off + 52)),
    }
}

/// An executable or shared library that was loaded in the process:
/// the fixed record plus its name, resolved from the dump at decode
/// time.
#[derive(Clone, Debug, PartialEq)]
pub struct MinidumpModule {
    pub base_of_image: u64,
    pub size_of_image: u32,
    pub checksum: u32,
    pub time_date_stamp: u32,
    pub module_name_rva: u32,
    pub version_info: VsFixedFileInfo,
    pub cv_record: MinidumpLocationDescriptor,
    pub misc_record: MinidumpLocationDescriptor,
    pub reserved0: u64,
    pub reserved1: u64,
    /// The path the module was loaded from.
    pub name: String,
}

/// Whether the fixed fields of `m` are exactly the module record
/// stored at offset `off` of the stream.
pub open spec fn module_record_decodes(
    s: Seq<u8>,
    e: Endianness,
    off: int,
    m: MinidumpModule,
) -> bool {
    &&& m.base_of_image == u64_of(e, s.subrange(off, off + 8))
    &&& m.size_of_image == u32_of(e, s.subrange(off + 8, off + 12))
    &&& m.checksum == u32_of(e, s.subrange(off + 12, off + 16))
    &&& m.time_date_stamp == u32_of(e, s.subrange(off + 16, off + 20))
    &&& m.module_name_rva == u32_of(e, s.subrange(off + 20, off + 24))
    &&& m.version_info == spec_version_info_at(s, e, off + 24)
    &&& m.cv_record == spec_location_at(s, e, off + 76)
    &&& m.misc_record == spec_location_at(s, e, off + 84)
    &&& m.reserved0 == u64_of(e, s.subrange(off + 92, off + 100))
    &&& m.reserved1 == u64_of(e, s.subrange(off + 100, off + 108))
}

impl MinidumpModule {
    /// The base address of this module as it was loaded.
    pub fn base_address(&self) -> (r: u64)
        ensures
            r == self.base_of_image,
    {
        self.base_of_image
    }

    /// The size of the module's image.
    pub fn size(&self) -> (r: u64)
        ensures
            r == self.size_of_image as u64,
    {
        self.size_of_image as u64
    }

    /// The path or file name the module was loaded from.
    pub fn code_file(&self) -> (r: &String)
        ensures
            r@ == self.name@,
    {
        &self.name
    }

    /// The address range the module's image occupies, when its size
    /// gives it one inside the address space.
    pub open spec fn spec_range(self) -> Option<crate::range_index::AddressRange> {
        if self.size_of_image > 0 && self.base_of_image + self.size_of_image - 1
            <= 0xffffffffffffffff {
            Option::Some(
                crate::range_index::AddressRange {
                    start: self.base_of_image,
                    end: (self.base_of_image + self.size_of_image - 1) as u64,
                },
            )
        } else {
            Option::None
        }
    }

    /// The address range the module's image occupies, when its size
    /// gives it one inside the address space.
    pub fn range(&self) -> (r: Option<crate::range_index::AddressRange>)
        ensures
            r == self.spec_range(),
    {
        if self.size_of_image > 0 && self.base_of_image
            <= 0xffffffffffffffff - (self.size_of_image as u64 - 1) {
            Option::Some(
                crate::range_index::AddressRange {
                    start: self.base_of_image,
                    end: self.base_of_image + (self.size_of_image as u64 - 1),
                },
            )
        } else {
            Option::None
        }
    }
}

/// The signature a filled-in module version record carries.
pub const VS_FFI_SIGNATURE: u32 = 0xfeef04bd;

/// A module's code identifier: its timestamp in eight upper-case
/// hexadecimal digits, then its image size in minimal lower-case
/// hexadecimal digits.
pub open spec fn spec_code_identifier(m: MinidumpModule) -> Seq<char> {
    crate::text::hex_digits_upper(m.time_date_stamp as nat, 8) + crate::text::hex_min_digits(
        m.size_of_image as nat,
    )
}

/// A module's dotted four-part version, when its version record is
/// filled in.
pub open spec fn spec_module_version(m: MinidumpModule) -> Option<Seq<char>> {
    if m.version_info.signature == VS_FFI_SIGNATURE {
        Option::Some(
            dec_digits((m.version_info.file_version_hi / 0x10000) as nat) + "."@ + dec_digits(
                (m.version_info.file_version_hi % 0x10000) as nat,
            ) + "."@ + dec_digits((m.version_info.file_version_lo / 0x10000) as nat) + "."@
                + dec_digits((m.version_info.file_version_lo % 0x10000) as nat),
        )
    } else {
        Option::None
    }
}

/// The decoded module record feeds symbolizers through the module
/// interface: addresses and names straight from the record, the
/// Breakpad-style code identifier built from timestamp and size, and
/// the dotted version when the version record is filled in. Debug
/// identity lives in the code-view record, which stays undecoded
/// here, so none is offered.
impl crate::traits::Module for MinidumpModule {
    fn base_address(&self) -> u64 {
        self.base_of_image
    }

    fn size(&self) -> u64 {
        self.size_of_image as u64
    }

    fn code_file(&self) -> String {
        self.name.clone()
    }

    fn code_identifier(&self) -> (r: String)
        ensures
            r@ == spec_code_identifier(*self),
    {
        let mut s = String::new();
        crate::text::push_hex_upper_u64(self.time_date_stamp as u64, 8, &mut s);
        crate::text::push_hex_min_u64(self.size_of_image as u64, &mut s);
        proof {
            assert(s@ =~= spec_code_identifier(*self));
        }
        s
    }

    fn debug_file(&self) -> Option<String> {
        Option::None
    }

    fn debug_identifier(&self) -> Option<String> {
        Option::None
    }

    fn version(&self) -> (r: Option<String>)
        ensures
            match r {
                Option::Some(v) => spec_module_version(*self) == Option::Some(v@),
                Option::None => spec_module_version(*self) is None,
            },
    {
        if self.version_info.signature == VS_FFI_SIGNATURE {
            let hi = self.version_info.file_version_hi;
            let lo = self.version_info.file_version_lo;
            let mut s = crate::text::format_dec_u32(hi / 0x10000);
            s.append(".");
            crate::text::push_dec_u32(hi % 0x10000, &mut s);
            s.append(".");
            crate::text::push_dec_u32(lo / 0x10000, &mut s);
            s.append(".");
            crate::text::push_dec_u32(lo % 0x10000, &mut s);
            proof {
                assert(s@ =~= spec_module_version(*self).unwrap());
            }
            Option::Some(s)
        } else {
            Option::None
        }
    }
}

/// The `(range, index)` entries that feed the module address index:
/// one per module with a usable range, carrying its position.
pub open spec fn spec_module_entries(ms: Seq<MinidumpModule>) -> Seq<
    (crate::range_index::AddressRange, u64),
>
    decreases ms.len(),
{
    if ms.len() == 0 {
        Seq::empty()
    } else {
        let pre = spec_module_entries(ms.drop_last());
        match ms.last().spec_range() {
            Option::Some(rg) => pre.push((rg, (ms.len() - 1) as u64)),
            Option::None => pre,
        }
    }
}

/// Every entry's index names a module of the list.
proof fn lemma_module_entries_indexed(ms: Seq<MinidumpModule>)
    ensures
        forall|i: int|
            0 <= i < spec_module_entries(ms).len() ==> (#[trigger] spec_module_entries(ms)[i]).1
                < ms.len(),
        forall|i: int|
            0 <= i < spec_module_entries(ms).len() ==> (#[trigger] spec_module_entries(
                ms,
            )[i]).0.wf(),
    decreases ms.len(),
{
    if ms.len() > 0 {
        lemma_module_entries_indexed(ms.drop_last());
        let pre = spec_module_entries(ms.drop_last());
        let cur = spec_module_entries(ms);
        assert forall|i: int| 0 <= i < cur.len() implies (#[trigger] cur[i]).1 < ms.len()
            && (cur[i].0).wf() by {
            match ms.last().spec_range() {
                Option::Some(rg) => {
                    if i < pre.len() {
                        assert(cur[i] == pre[i]);
                    } else {
                        assert(cur[i] == (rg, (ms.len() - 1) as u64));
                    }
                },
                Option::None => {
                    assert(cur[i] == pre[i]);
                },
            }
        }
    }
}

/// The modules of a dump, in file order, with an overlap-tolerant
/// index from address to module.
#[derive(Debug, Clone)]
pub struct MinidumpModuleList {
    modules: Vec<MinidumpModule>,
    by_addr: crate::range_index::RangeIndex<u64>,
}

impl MinidumpModuleList {
    /// The modules, in file order.
    pub closed spec fn spec_modules(self) -> Seq<MinidumpModule> {
        self.modules@
    }

    /// The address index entries.
    pub closed spec fn spec_index(self) -> Seq<(crate::range_index::AddressRange, u64)> {
        self.by_addr.spec_entries()
    }

    /// The index is the merged, sorted view of the modules' ranges,
    /// and every index value names a module.
    pub open spec fn wf(self) -> bool {
        &&& crate::range_index::entries_disjoint(self.spec_index())
        &&& crate::range_index::entries_wf(self.spec_index())
        &&& self.spec_index() == crate::range_index::spec_merge(
            crate::range_index::spec_sort_entries(spec_module_entries(self.spec_modules())),
        )
        &&& forall|i: int|
            0 <= i < self.spec_index().len() ==> (#[trigger] self.spec_index()[i]).1
                < self.spec_modules().len()
    }

    /// Index the modules by address. Overlapping modules conflict;
    /// the dropped entries come back beside the list, one per
    /// conflict, for the caller to report.
    pub fn from_modules(modules: Vec<MinidumpModule>) -> (r: (
        MinidumpModuleList,
        Vec<(crate::range_index::AddressRange, u64)>,
    ))
        ensures
            r.0.wf(),
            r.0.spec_modules() == modules@,
            r.1@ == crate::range_index::spec_merge_dropped(
                crate::range_index::spec_sort_entries(spec_module_entries(modules@)),
            ),
    {
        let ghost ms = modules@;
        let mut entries: Vec<(crate::range_index::AddressRange, u64)> = Vec::new();
        let mut i: usize = 0;
        while i < modules.len()
            invariant
                i <= modules@.len(),
                entries@ == spec_module_entries(modules@.subrange(0, i as int)),
            decreases modules@.len() - i,
        {
            let ghost pre = entries@;
            match modules[i].range() {
                Option::Some(rg) => {
                    entries.push((rg, i as u64));
                },
                Option::None => {},
            }
            proof {
                assert(modules@.subrange(0, i + 1).drop_last() =~= modules@.subrange(0, i as int));
                assert(modules@.subrange(0, i + 1).last() == modules@[i as int]);
            }
            i = i + 1;
        }
        proof {
            assert(modules@.subrange(0, modules@.len() as int) =~= modules@);
            lemma_module_entries_indexed(ms);
        }
        let (idx, dropped) = crate::range_index::into_range_index(entries);
        proof {
            crate::range_index::lemma_sort_entries_props(spec_module_entries(ms));
            crate::range_index::lemma_merge_values(
                crate::range_index::spec_sort_entries(spec_module_entries(ms)),
            );
            assert forall|i: int| 0 <= i < idx.spec_entries().len() implies (
            #[trigger] idx.spec_entries()[i]).1 < ms.len() by {
                let srt = crate::range_index::spec_sort_entries(spec_module_entries(ms));
                let j = choose|j: int| 0 <= j < srt.len() && idx.spec_entries()[i].1 == srt[j].1;
                assert(spec_module_entries(ms).contains(srt[j]));
                let k = choose|k: int|
                    0 <= k < spec_module_entries(ms).len() && spec_module_entries(ms)[k] == srt[j];
            }
        }
        (MinidumpModuleList { modules, by_addr: idx }, dropped)
    }

    /// The modules, in file order.
    pub fn modules(&self) -> (r: &Vec<MinidumpModule>)
        ensures
            r@ == self.spec_modules(),
    {
        &self.modules
    }

    /// The first module of the list: by convention the executable
    /// itself.
    pub fn main_module(&self) -> (r: Option<&MinidumpModule>)
        ensures
            match r {
                Option::Some(m) => self.spec_modules().len() > 0 && *m == self.spec_modules()[0],
                Option::None => self.spec_modules().len() == 0,
            },
    {
        if self.modules.len() > 0 {
            Option::Some(&self.modules[0])
        } else {
            Option::None
        }
    }

    /// The module whose image covers `addr`, if the index maps one.
    pub fn module_at_address(&self, addr: u64) -> (r: Option<&MinidumpModule>)
        requires
            self.wf(),
        ensures
            match r {
                Option::Some(m) => exists|i: int|
                    {
                        &&& 0 <= i < self.spec_index().len()
                        &&& (#[trigger] self.spec_index()[i]).0.spec_contains(addr)
                        &&& *m == self.spec_modules()[self.spec_index()[i].1 as int]
                    },
                Option::None => !crate::range_index::covered(self.spec_index(), addr),
            },
    {
        match self.by_addr.get(addr) {
            Option::Some(iv) => {
                let idx = *iv;
                let n = self.modules.len();
                proof {
                    let i = choose|i: int|
                        0 <= i < self.spec_index().len() && (
                        #[trigger] self.spec_index()[i]).0.spec_contains(addr) && idx
                            == self.spec_index()[i].1;
                    assert(self.spec_index()[i].1 < self.spec_modules().len());
                    assert(idx < n);
                }
                let m = &self.modules[idx as usize];
                proof {
                    let i = choose|i: int|
                        0 <= i < self.spec_index().len() && (
                        #[trigger] self.spec_index()[i]).0.spec_contains(addr) && idx
                            == self.spec_index()[i].1;
                    assert(*m == self.spec_modules()[self.spec_index()[i].1 as int]);
                }
                Option::Some(m)
            },
            Option::None => Option::None,
        }
    }

    /// The indexed modules in address order: for each disjoint range,
    /// the module it maps to.
    pub fn by_addr(&self) -> (r: Vec<&MinidumpModule>)
        requires
            self.wf(),
        ensures
            r@.len() == self.spec_index().len(),
            forall|i: int|
                0 <= i < r@.len() ==> *(#[trigger] r@[i]) == self.spec_modules()[(
                self.spec_index()[i].1) as int],
    {
        let es = self.by_addr.entries();
        let mut out: Vec<&MinidumpModule> = Vec::new();
        let mut i: usize = 0;
        while i < es.len()
            invariant
                self.wf(),
                es@ == self.spec_index(),
                i <= es@.len(),
                out@.len() == i as int,
                forall|j: int|
                    0 <= j < i ==> *(#[trigger] out@[j]) == self.spec_modules()[(
                    self.spec_index()[j].1) as int],
            decreases es@.len() - i,
        {
            let idx = es[i].1;
            let n = self.modules.len();
            proof {
                assert(self.spec_index()[i as int].1 < self.spec_modules().len());
                assert(idx < n);
            }
            let m = &self.modules[idx as usize];
            proof {
                assert(*m == self.spec_modules()[(self.spec_index()[i as int].1) as int]);
            }
            out.push(m);
            i = i + 1;
        }
        out
    }
}

/// Decode a module-list stream: a 32-bit count followed by exactly
/// that many module records, each name resolved from the dump at
/// once. Fails exactly when the size does not match the count or a
/// name reference leaves the buffer.
pub fn read_module_list(buf: &[u8], stream: &[u8], e: Endianness) -> (r: Option<Vec<MinidumpModule>>)
    ensures
        match r {
            Option::Some(ms) => {
                &&& stream@.len() >= 4
                &&& stream@.len() == 4 + 108 * (u32_of(e, stream@.subrange(0, 4)) as int)
                &&& ms@.len() == u32_of(e, stream@.subrange(0, 4))
                &&& forall|i: int|
                    0 <= i < ms@.len() ==> module_record_decodes(
                        stream@,
                        e,
                        4 + 108 * i,
                        #[trigger] ms@[i],
                    ) && crate::text::spec_string_at(buf@, ms@[i].module_name_rva, e)
                        == Option::Some(ms@[i].name@)
            },
            Option::None => stream@.len() < 4 || stream@.len() != 4 + 108 * (u32_of(
                e,
                stream@.subrange(0, 4),
            ) as int) || exists|i: int|
                {
                    &&& 0 <= i < u32_of(e, stream@.subrange(0, 4))
                    &&& crate::text::spec_string_at(
                        buf@,
                        u32_of(e, #[trigger] stream@.subrange(4 + 108 * i + 20, 4 + 108 * i + 24)),
                        e,
                    ) is None
                },
        },
{
    let mut cur = Cursor::new(stream);
    let count = match cur.read_u32(e) {
        Option::Some(c) => c,
        Option::None => {
            return Option::None;
        },
    };
    if stream.len() as u64 != 4 + (MODULE_RECORD_SIZE as u64) * (count as u64) {
        return Option::None;
    }
    let mut ms: Vec<MinidumpModule> = Vec::new();
    let mut i: usize = 0;
    while i < count as usize
        invariant
            i <= count,
            cur.wf(),
            cur.spec_buf() == stream@,
            cur.spec_pos() == 4 + 108 * i,
            stream@.len() == 4 + 108 * (count as int),
            ms@.len() == i as int,
            forall|j: int|
                0 <= j < i ==> module_record_decodes(stream@, e, 4 + 108 * j, #[trigger] ms@[j])
                    && crate::text::spec_string_at(buf@, ms@[j].module_name_rva, e)
                    == Option::Some(ms@[j].name@),
        decreases count - i,
    {
        let base_of_image = cur.read_u64(e).unwrap();
        let size_of_image = cur.read_u32(e).unwrap();
        let checksum = cur.read_u32(e).unwrap();
        let time_date_stamp = cur.read_u32(e).unwrap();
        let module_name_rva = cur.read_u32(e).unwrap();
        let signature = cur.read_u32(e).unwrap();
        let struct_version = cur.read_u32(e).unwrap();
        let file_version_hi = cur.read_u32(e).unwrap();
        let file_version_lo = cur.read_u32(e).unwrap();
        let product_version_hi = cur.read_u32(e).unwrap();
        let product_version_lo = cur.read_u32(e).unwrap();
        let file_flags_mask = cur.read_u32(e).unwrap();
        let file_flags = cur.read_u32(e).unwrap();
        let file_os = cur.read_u32(e).unwrap();
        let file_type = cur.read_u32(e).unwrap();
        let file_subtype = cur.read_u32(e).unwrap();
        let file_date_hi = cur.read_u32(e).unwrap();
        let file_date_lo = cur.read_u32(e).unwrap();
        let cv_record = read_location(&mut cur, e).unwrap();
        let misc_record = read_location(&mut cur, e).unwrap();
        let reserved0 = cur.read_u64(e).unwrap();
        let reserved1 = cur.read_u64(e).unwrap();
        let name = match crate::text::read_string_utf16(buf, module_name_rva, e) {
            Option::Some(n) => n,
            Option::None => {
                proof {
                    assert(u32_of(
                        e,
                        stream@.subrange(4 + 108 * (i as int) + 20, 4 + 108 * (i as int) + 24),
                    ) == module_name_rva);
                }
                return Option::None;
            },
        };
        ms.push(
            MinidumpModule {
                base_of_image,
                size_of_image,
                checksum,
                time_date_stamp,
                module_name_rva,
                version_info: VsFixedFileInfo {
                    signature,
                    struct_version,
                    file_version_hi,
                    file_version_lo,
                    product_version_hi,
                    product_version_lo,
                    file_flags_mask,
                    file_flags,
                    file_os,
                    file_type,
                    file_subtype,
                    file_date_hi,
                    file_date_lo,
                },
                cv_record,
                misc_record,
                reserved0,
                reserved1,
                name,
            },
        );
        i = i + 1;
    }
    Option::Some(ms)
}

/// Byte size of one unloaded-module record and of the list header.
pub const UNLOADED_MODULE_RECORD_SIZE: usize = 24;
pub const UNLOADED_MODULE_LIST_HEADER_SIZE: usize = 12;

/// A module the process had unloaded before the dump was written.
#[derive(Clone, Debug, PartialEq)]
pub struct MinidumpUnloadedModule {
    pub base_of_image: u64,
    pub size_of_image: u32,
    pub checksum: u32,
    pub time_date_stamp: u32,
    pub module_name_rva: u32,
    /// The path the module had been loaded from.
    pub name: String,
}

/// Whether the fixed fields of `m` are exactly the unloaded-module
/// record stored at offset `off` of the stream.
pub open spec fn unloaded_module_record_decodes(
    s: Seq<u8>,
    e: Endianness,
    off: int,
    m: MinidumpUnloadedModule,
) -> bool {
    &&& m.base_of_image == u64_of(e, s.subrange(off, off + 8))
    &&& m.size_of_image == u32_of(e, s.subrange(off + 8, off + 12))
    &&& m.checksum == u32_of(e, s.subrange(off + 12, off + 16))
    &&& m.time_date_stamp == u32_of(e, s.subrange(off + 16, off + 20))
    &&& m.module_name_rva == u32_of(e, s.subrange(off + 20, off + 24))
}

impl MinidumpUnloadedModule {
    /// The base address of this module as it had been loaded.
    pub fn base_address(&self) -> (r: u64)
        ensures
            r == self.base_of_image,
    {
        self.base_of_image
    }

    /// The size of the module's image.
    pub fn size(&self) -> (r: u64)
        ensures
            r == self.size_of_image as u64,
    {
        self.size_of_image as u64
    }

    /// The path or file name the module had been loaded from.
    pub fn code_file(&self) -> (r: &String)
        ensures
            r@ == self.name@,
    {
        &self.name
    }
}

/// The unloaded modules of a dump, in file order.
#[derive(Clone, Debug, PartialEq)]
pub struct MinidumpUnloadedModuleList {
    pub modules: Vec<MinidumpUnloadedModule>,
}

/// Decode an unloaded-module-list stream: a header giving its own
/// size, the entry size and the entry count, then the entries, each
/// name resolved from the dump. Fails exactly when the header sizes
/// are smaller than the known records, the entries overrun the
/// stream, or a name reference leaves the buffer.
pub fn read_unloaded_module_list(buf: &[u8], stream: &[u8], e: Endianness) -> (r: Option<
    MinidumpUnloadedModuleList,
>)
    ensures
        match r {
            Option::Some(l) => {
                &&& stream@.len() >= 12
                &&& u32_of(e, stream@.subrange(0, 4)) >= 12
                &&& u32_of(e, stream@.subrange(4, 8)) >= 24
                &&& u32_of(e, stream@.subrange(0, 4)) + (u32_of(e, stream@.subrange(8, 12)) as int)
                    * u32_of(e, stream@.subrange(4, 8)) <= stream@.len()
                &&& l.modules@.len() == u32_of(e, stream@.subrange(8, 12))
                &&& forall|i: int|
                    0 <= i < l.modules@.len() ==> unloaded_module_record_decodes(
                        stream@,
                        e,
                        u32_of(e, stream@.subrange(0, 4)) + i * u32_of(e, stream@.subrange(4, 8)),
                        #[trigger] l.modules@[i],
                    ) && crate::text::spec_string_at(buf@, l.modules@[i].module_name_rva, e)
                        == Option::Some(l.modules@[i].name@)
            },
            Option::None => stream@.len() < 12 || u32_of(e, stream@.subrange(0, 4)) < 12 || u32_of(
                e,
                stream@.subrange(4, 8),
            ) < 24 || u32_of(e, stream@.subrange(0, 4)) + (u32_of(e, stream@.subrange(8, 12)) as int)
                * u32_of(e, stream@.subrange(4, 8)) > stream@.len() || exists|i: int|
                {
                    &&& 0 <= i < u32_of(e, stream@.subrange(8, 12))
                    &&& crate::text::spec_string_at(
                        buf@,
                        u32_of(
                            e,
                            #[trigger] stream@.subrange(
                                u32_of(e, stream@.subrange(0, 4)) + i * u32_of(
                                    e,
                                    stream@.subrange(4, 8),
                                ) + 20,
                                u32_of(e, stream@.subrange(0, 4)) + i * u32_of(
                                    e,
                                    stream@.subrange(4, 8),
                                ) + 24,
                            ),
                        ),
                        e,
                    ) is None
                },
        },
{
    let mut cur = Cursor::new(stream);
    let size_of_header = match cur.read_u32(e) {
        Option::Some(c) => c,
        Option::None => {
            return Option::None;
        },
    };
    let size_of_entry = match cur.read_u32(e) {
        Option::Some(c) => c,
        Option::None => {
            return Option::None;
        },
    };
    let number_of_entries = match cur.read_u32(e) {
        Option::Some(c) => c,
        Option::None => {
            return Option::None;
        },
    };
    if size_of_header < UNLOADED_MODULE_LIST_HEADER_SIZE as u32 || size_of_entry
        < UNLOADED_MODULE_RECORD_SIZE as u32 {
        return Option::None;
    }
    proof {
        assert((number_of_entries as int) * (size_of_entry as int) <= 0xffffffff * 0xffffffff) by (
        nonlinear_arith)
            requires
                number_of_entries <= 0xffffffff,
                size_of_entry <= 0xffffffff,
        ;
    }
    if size_of_header as u64 + (number_of_entries as u64) * (size_of_entry as u64)
        > stream.len() as u64 {
        return Option::None;
    }
    let slen = stream.len();
    let mut modules: Vec<MinidumpUnloadedModule> = Vec::new();
    let mut i: usize = 0;
    while i < number_of_entries as usize
        invariant
            i <= number_of_entries,
            size_of_header >= 12,
            size_of_entry >= 24,
            slen == stream@.len(),
            size_of_header + (number_of_entries as int) * size_of_entry <= stream@.len(),
            size_of_header == u32_of(e, stream@.subrange(0, 4)),
            size_of_entry == u32_of(e, stream@.subrange(4, 8)),
            number_of_entries == u32_of(e, stream@.subrange(8, 12)),
            modules@.len() == i as int,
            forall|j: int|
                0 <= j < i ==> unloaded_module_record_decodes(
                    stream@,
                    e,
                    size_of_header + j * size_of_entry,
                    #[trigger] modules@[j],
                ) && crate::text::spec_string_at(buf@, modules@[j].module_name_rva, e)
                    == Option::Some(modules@[j].name@),
        decreases number_of_entries - i,
    {
        proof {
            assert((i as int) * size_of_entry + size_of_entry == (i + 1) * size_of_entry) by (
            nonlinear_arith);
            assert((i + 1) * size_of_entry <= (number_of_entries as int) * size_of_entry) by (
            nonlinear_arith)
                requires
                    i + 1 <= number_of_entries as int,
                    size_of_entry >= 0,
            ;
            assert((i as int) * size_of_entry >= 0) by (nonlinear_arith)
                requires
                    i >= 0,
                    size_of_entry >= 0,
            ;
        }
        let off = size_of_header as u64 + (i as u64) * (size_of_entry as u64);
        proof {
            assert(off == size_of_header + (i as int) * size_of_entry);
            assert(off + 24 <= slen);
        }
        let mut ecur = Cursor::at(stream, off as usize).unwrap();
        let base_of_image = ecur.read_u64(e).unwrap();
        let size_of_image = ecur.read_u32(e).unwrap();
        let checksum = ecur.read_u32(e).unwrap();
        let time_date_stamp = ecur.read_u32(e).unwrap();
        let module_name_rva = ecur.read_u32(e).unwrap();
        let name = match crate::text::read_string_utf16(buf, module_name_rva, e) {
            Option::Some(n) => n,
            Option::None => {
                proof {
                    let off_i = size_of_header + (i as int) * size_of_entry;
                    assert(u32_of(e, stream@.subrange(off_i + 20, off_i + 24)) == module_name_rva);
                }
                return Option::None;
            },
        };
        modules.push(
            MinidumpUnloadedModule {
                base_of_image,
                size_of_image,
                checksum,
                time_date_stamp,
                module_name_rva,
                name,
            },
        );
        i = i + 1;
    }
    Option::Some(MinidumpUnloadedModuleList { modules })
}

/// Byte size of the fixed exception stream.
pub const EXCEPTION_STREAM_SIZE: usize = 168;

/// The exception that caused the dump, if one did: which thread, what
/// code, where, and where that thread's CPU context record sits.
#[derive(Clone, Debug, PartialEq)]
pub struct MinidumpException {
    pub thread_id: u32,
    pub exception_code: u32,
    pub exception_flags: u32,
    pub exception_record: u64,
    pub exception_address: u64,
    pub number_parameters: u32,
    pub exception_information: Vec<u64>,
    pub thread_context: MinidumpLocationDescriptor,
}

/// Whether `x` holds exactly the exception stream stored at the start
/// of `s` in byte order `e`.
pub open spec fn exception_decodes(s: Seq<u8>, e: Endianness, x: MinidumpException) -> bool {
    &&& x.thread_id == u32_of(e, s.subrange(0, 4))
    &&& x.exception_code == u32_of(e, s.subrange(8, 12))
    &&& x.exception_flags == u32_of(e, s.subrange(12, 16))
    &&& x.exception_record == u64_of(e, s.subrange(16, 24))
    &&& x.exception_address == u64_of(e, s.subrange(24, 32))
    &&& x.number_parameters == u32_of(e, s.subrange(32, 36))
    &&& x.exception_information@.len() == 15
    &&& forall|i: int|
        0 <= i < 15 ==> x.exception_information@[i] == u64_of(
            e,
            s.subrange(40 + 8 * i, 40 + 8 * i + 8),
        )
    &&& x.thread_context == spec_location_at(s, e, 160)
}

/// Decode an exception stream. A fixed record; trailing bytes are
/// tolerated. Fails exactly when the stream is shorter than the
/// record.
pub fn read_exception(stream: &[u8], e: Endianness) -> (r: Option<MinidumpException>)
    ensures
        match r {
            Option::Some(x) => stream@.len() >= EXCEPTION_STREAM_SIZE && exception_decodes(
                stream@,
                e,
                x,
            ),
            Option::None => stream@.len() < EXCEPTION_STREAM_SIZE,
        },
{
    if stream.len() < EXCEPTION_STREAM_SIZE {
        return Option::None;
    }
    let mut cur = Cursor::new(stream);
    let thread_id = cur.read_u32(e).unwrap();
    let _alignment = cur.read_u32(e).unwrap();
    let exception_code = cur.read_u32(e).unwrap();
    let exception_flags = cur.read_u32(e).unwrap();
    let exception_record = cur.read_u64(e).unwrap();
    let exception_address = cur.read_u64(e).unwrap();
    let number_parameters = cur.read_u32(e).unwrap();
    let _align2 = cur.read_u32(e).unwrap();
    let mut exception_information: Vec<u64> = Vec::new();
    let mut i: usize = 0;
    while i < 15
        invariant
            i <= 15,
            cur.wf(),
            cur.spec_buf() == stream@,
            cur.spec_pos() == 40 + 8 * i,
            stream@.len() >= EXCEPTION_STREAM_SIZE,
            exception_information@.len() == i as int,
            forall|j: int|
                0 <= j < i ==> exception_information@[j] == u64_of(
                    e,
                    stream@.subrange(40 + 8 * j, 40 + 8 * j + 8),
                ),
        decreases 15 - i,
    {
        let v = cur.read_u64(e).unwrap();
        exception_information.push(v);
        i = i + 1;
    }
    let thread_context = read_location(&mut cur, e).unwrap();
    Option::Some(
        MinidumpException {
            thread_id,
            exception_code,
            exception_flags,
            exception_record,
            exception_address,
            number_parameters,
            exception_information,
            thread_context,
        },
    )
}

/// Byte size of the fixed Breakpad-information stream.
pub const BREAKPAD_INFO_SIZE: usize = 12;

/// Validity bits of the Breakpad-information stream.
pub const BREAKPAD_INFO_VALID_DUMP_THREAD_ID: u32 = 1;
pub const BREAKPAD_INFO_VALID_REQUESTING_THREAD_ID: u32 = 2;

/// Breakpad's extension stream: which thread wrote the dump and which
/// asked for it.
#[derive(Clone, Copy, Debug, PartialEq, Eq, Structural)]
pub struct MinidumpBreakpadInfo {
    pub validity: u32,
    pub dump_thread_id: u32,
    pub requesting_thread_id: u32,
}

/// Whether `b` holds exactly the Breakpad-information record at the
/// start of `s` in byte order `e`.
pub open spec fn breakpad_info_decodes(s: Seq<u8>, e: Endianness, b: MinidumpBreakpadInfo) -> bool {
    &&& b.validity == u32_of(e, s.subrange(0, 4))
    &&& b.dump_thread_id == u32_of(e, s.subrange(4, 8))
    &&& b.requesting_thread_id == u32_of(e, s.subrange(8, 12))
}

/// Decode a Breakpad-information stream. A fixed record; trailing
/// bytes are tolerated. Fails exactly when the stream is shorter than
/// the record.
pub fn read_breakpad_info(stream: &[u8], e: Endianness) -> (r: Option<MinidumpBreakpadInfo>)
    ensures
        match r {
            Option::Some(b) => stream@.len() >= BREAKPAD_INFO_SIZE && breakpad_info_decodes(
                stream@,
                e,
                b,
            ),
            Option::None => stream@.len() < BREAKPAD_INFO_SIZE,
        },
{
    if stream.len() < BREAKPAD_INFO_SIZE {
        return Option::None;
    }
    let mut cur = Cursor::new(stream);
    let validity = cur.read_u32(e).unwrap();
    let dump_thread_id = cur.read_u32(e).unwrap();
    let requesting_thread_id = cur.read_u32(e).unwrap();
    Option::Some(MinidumpBreakpadInfo { validity, dump_thread_id, requesting_thread_id })
}

/// Byte sizes of the two decoded miscellaneous-information record
/// shapes: the smallest, and the one that adds processor speeds.
pub const MISC_INFO_SIZE: usize = 24;
pub const MISC_INFO_2_SIZE: usize = 44;

/// Validity bits of the miscellaneous-information record.
pub const MISC_INFO_FLAG_PROCESS_ID: u32 = 1;
pub const MISC_INFO_FLAG_PROCESS_TIMES: u32 = 2;

/// Miscellaneous process information: identity and times, each field
/// present only when its validity bit says so, and the larger record
/// shape's processor speeds, present only when the declared size
/// covers them.
#[derive(Clone, Copy, Debug, PartialEq, Eq, Structural)]
pub struct MinidumpMiscInfo {
    pub size_of_info: u32,
    pub flags1: u32,
    pub process_id_raw: u32,
    pub process_create_time_raw: u32,
    pub process_user_time_raw: u32,
    pub process_kernel_time_raw: u32,
    pub processor_max_mhz: Option<u32>,
    pub processor_current_mhz: Option<u32>,
    pub processor_mhz_limit: Option<u32>,
    pub processor_max_idle_state: Option<u32>,
    pub processor_current_idle_state: Option<u32>,
}

/// Whether `m` holds exactly the miscellaneous-information record at
/// the start of `s` in byte order `e`: the smallest shape's fields
/// always, the larger shape's exactly when the declared size covers
/// them.
pub open spec fn misc_info_decodes(s: Seq<u8>, e: Endianness, m: MinidumpMiscInfo) -> bool {
    &&& m.size_of_info == u32_of(e, s.subrange(0, 4))
    &&& m.flags1 == u32_of(e, s.subrange(4, 8))
    &&& m.process_id_raw == u32_of(e, s.subrange(8, 12))
    &&& m.process_create_time_raw == u32_of(e, s.subrange(12, 16))
    &&& m.process_user_time_raw == u32_of(e, s.subrange(16, 20))
    &&& m.process_kernel_time_raw == u32_of(e, s.subrange(20, 24))
    &&& if u32_of(e, s.subrange(0, 4)) >= MISC_INFO_2_SIZE {
        &&& m.processor_max_mhz == Option::Some(u32_of(e, s.subrange(24, 28)))
        &&& m.processor_current_mhz == Option::Some(u32_of(e, s.subrange(28, 32)))
        &&& m.processor_mhz_limit == Option::Some(u32_of(e, s.subrange(32, 36)))
        &&& m.processor_max_idle_state == Option::Some(u32_of(e, s.subrange(36, 40)))
        &&& m.processor_current_idle_state == Option::Some(u32_of(e, s.subrange(40, 44)))
    } else {
        &&& m.processor_max_mhz is None
        &&& m.processor_current_mhz is None
        &&& m.processor_mhz_limit is None
        &&& m.processor_max_idle_state is None
        &&& m.processor_current_idle_state is None
    }
}

impl MinidumpMiscInfo {
    /// The process id, when its validity bit is set.
    pub fn process_id(&self) -> (r: Option<u32>)
        ensures
            r == if self.flags1 & MISC_INFO_FLAG_PROCESS_ID != 0 {
                Option::Some(self.process_id_raw)
            } else {
                Option::<u32>::None
            },
    {
        if self.flags1 & MISC_INFO_FLAG_PROCESS_ID != 0 {
            Option::Some(self.process_id_raw)
        } else {
            Option::None
        }
    }

    /// The process creation time, in seconds since the epoch, when
    /// its validity bit is set.
    pub fn process_create_time(&self) -> (r: Option<u32>)
        ensures
            r == if self.flags1 & MISC_INFO_FLAG_PROCESS_TIMES != 0 {
                Option::Some(self.process_create_time_raw)
            } else {
                Option::<u32>::None
            },
    {
        if self.flags1 & MISC_INFO_FLAG_PROCESS_TIMES != 0 {
            Option::Some(self.process_create_time_raw)
        } else {
            Option::None
        }
    }
}

/// Decode a miscellaneous-information stream. The record declares its
/// own size; the fields of the smallest shape are decoded, and larger
/// shapes' extra bytes are tolerated. Fails exactly when the stream
/// or its declared size is shorter than the smallest shape, or the
/// declared size overruns the stream.
pub fn read_misc_info(stream: &[u8], e: Endianness) -> (r: Option<MinidumpMiscInfo>)
    ensures
        match r {
            Option::Some(m) => {
                &&& stream@.len() >= MISC_INFO_SIZE
                &&& misc_info_decodes(stream@, e, m)
                &&& MISC_INFO_SIZE <= u32_of(e, stream@.subrange(0, 4)) <= stream@.len()
            },
            Option::None => stream@.len() < MISC_INFO_SIZE || u32_of(e, stream@.subrange(0, 4))
                < MISC_INFO_SIZE || u32_of(e, stream@.subrange(0, 4)) > stream@.len(),
        },
{
    if stream.len() < MISC_INFO_SIZE {
        return Option::None;
    }
    let mut cur = Cursor::new(stream);
    let size_of_info = cur.read_u32(e).unwrap();
    if size_of_info < MISC_INFO_SIZE as u32 || size_of_info as u64 > stream.len() as u64 {
        return Option::None;
    }
    let flags1 = cur.read_u32(e).unwrap();
    let process_id_raw = cur.read_u32(e).unwrap();
    let process_create_time_raw = cur.read_u32(e).unwrap();
    let process_user_time_raw = cur.read_u32(e).unwrap();
    let process_kernel_time_raw = cur.read_u32(e).unwrap();
    let mut processor_max_mhz: Option<u32> = Option::None;
    let mut processor_current_mhz: Option<u32> = Option::None;
    let mut processor_mhz_limit: Option<u32> = Option::None;
    let mut processor_max_idle_state: Option<u32> = Option::None;
    let mut processor_current_idle_state: Option<u32> = Option::None;
    if size_of_info >= MISC_INFO_2_SIZE as u32 {
        processor_max_mhz = Option::Some(cur.read_u32(e).unwrap());
        processor_current_mhz = Option::Some(cur.read_u32(e).unwrap());
        processor_mhz_limit = Option::Some(cur.read_u32(e).unwrap());
        processor_max_idle_state = Option::Some(cur.read_u32(e).unwrap());
        processor_current_idle_state = Option::Some(cur.read_u32(e).unwrap());
    }
    Option::Some(
        MinidumpMiscInfo {
            size_of_info,
            flags1,
            process_id_raw,
            process_create_time_raw,
            process_user_time_raw,
            process_kernel_time_raw,
            processor_max_mhz,
            processor_current_mhz,
            processor_mhz_limit,
            processor_max_idle_state,
            processor_current_idle_state,
        },
    )
}

/// Byte size of the fixed assertion-information record.
pub const ASSERTION_INFO_SIZE: usize = 776;

/// An assertion the process hit before the dump: expression, function
/// and file as fixed UTF-16 arrays, with the line and an assertion
/// kind code.
#[derive(Clone, Debug, PartialEq)]
pub struct MinidumpAssertion {
    pub expression: String,
    pub function: String,
    pub file: String,
    pub line: u32,
    pub assertion_type: u32,
}

/// The code units of `s` up to its first nul, or all of them when it
/// has none.
pub open spec fn spec_until_nul(units: Seq<u16>) -> Seq<u16>
    decreases units.len(),
{
    if units.len() == 0 || units[0] == 0 {
        Seq::empty()
    } else {
        seq![units[0]] + spec_until_nul(units.drop_first())
    }
}

/// Keep the code units up to the first nul, or all of them when none
/// occurs.
fn take_until_nul(units: Vec<u16>) -> (r: Vec<u16>)
    ensures
        r@ == spec_until_nul(units@),
{
    let mut out: Vec<u16> = Vec::new();
    let mut i: usize = 0;
    while i < units.len()
        invariant
            i <= units@.len(),
            forall|j: int| 0 <= j < i ==> units@[j] != 0,
            out@ == units@.subrange(0, i as int),
        decreases units@.len() - i,
    {
        let u = units[i];
        if u == 0 {
            proof {
                lemma_until_nul_prefix(units@, i as int);
            }
            return out;
        }
        out.push(u);
        proof {
            assert(out@ =~= units@.subrange(0, i + 1));
        }
        i = i + 1;
    }
    proof {
        lemma_until_nul_prefix(units@, units@.len() as int);
        assert(out@ =~= units@.subrange(0, units@.len() as int));
    }
    out
}

/// When the first `i` units are non-nul and unit `i`, if any, is nul,
/// the until-nul prefix is exactly the first `i` units.
proof fn lemma_until_nul_prefix(units: Seq<u16>, i: int)
    requires
        0 <= i <= units.len(),
        forall|j: int| 0 <= j < i ==> units[j] != 0,
        i < units.len() ==> units[i] == 0,
    ensures
        spec_until_nul(units) == units.subrange(0, i),
    decreases units.len(),
{
    if units.len() == 0 || units[0] == 0 {
        assert(i == 0);
        assert(spec_until_nul(units) =~= units.subrange(0, 0));
    } else {
        assert(i >= 1);
        lemma_until_nul_prefix(units.drop_first(), i - 1);
        assert(units.drop_first().subrange(0, i - 1) =~= units.subrange(1, i));
        assert(spec_until_nul(units) =~= units.subrange(0, i));
    }
}

/// What one fixed UTF-16 array of the assertion record decodes to:
/// its code units up to the first nul or the array end, whichever
/// comes first, decoded lossily.
pub open spec fn spec_assertion_text(s: Seq<u8>, e: Endianness, off: int) -> Seq<char> {
    utf16_lossy(spec_until_nul(utf16_units(s.subrange(off, off + 256), e)))
}

/// Whether `a` holds exactly the assertion record at the start of `s`
/// in byte order `e`.
pub open spec fn assertion_decodes(s: Seq<u8>, e: Endianness, a: MinidumpAssertion) -> bool {
    &&& a.expression@ == spec_assertion_text(s, e, 0)
    &&& a.function@ == spec_assertion_text(s, e, 256)
    &&& a.file@ == spec_assertion_text(s, e, 512)
    &&& a.line == u32_of(e, s.subrange(768, 772))
    &&& a.assertion_type == u32_of(e, s.subrange(772, 776))
}

/// Read one fixed UTF-16 array of the assertion record.
fn read_assertion_text(stream: &[u8], off: usize, e: Endianness) -> (r: String)
    requires
        off + 256 <= stream@.len(),
    ensures
        r@ == spec_assertion_text(stream@, e, off as int),
{
    let mut cur = Cursor::at(stream, off).unwrap();
    let bytes = cur.read_bytes(256).unwrap();
    let units = crate::text::read_utf16_units(bytes, e);
    let kept = take_until_nul(units);
    crate::text::utf16_lossy_to_string(&kept)
}

/// Decode an assertion-information stream. A fixed record; trailing
/// bytes are tolerated; each text array is taken up to its first nul
/// or the array end, whichever comes first. Fails exactly when the
/// stream is shorter than the record.
pub fn read_assertion(stream: &[u8], e: Endianness) -> (r: Option<MinidumpAssertion>)
    ensures
        match r {
            Option::Some(a) => stream@.len() >= ASSERTION_INFO_SIZE && assertion_decodes(
                stream@,
                e,
                a,
            ),
            Option::None => stream@.len() < ASSERTION_INFO_SIZE,
        },
{
    if stream.len() < ASSERTION_INFO_SIZE {
        return Option::None;
    }
    let expression = read_assertion_text(stream, 0, e);
    let function = read_assertion_text(stream, 256, e);
    let file = read_assertion_text(stream, 512, e);
    let mut cur = Cursor::at(stream, 768).unwrap();
    let line = cur.read_u32(e).unwrap();
    let assertion_type = cur.read_u32(e).unwrap();
    Option::Some(MinidumpAssertion { expression, function, file, line, assertion_type })
}

/// Byte sizes of the memory-information list header and of one of
/// its entries.
pub const MEMORY_INFO_LIST_HEADER_SIZE: usize = 16;
pub const MEMORY_INFO_RECORD_SIZE: usize = 48;

/// One region of the process's address space as the kernel described
/// it: allocation, size, state, protection and kind.
#[derive(Clone, Copy, Debug, PartialEq, Eq, Structural)]
pub struct MinidumpMemoryInfo {
    pub base_address: u64,
    pub allocation_base: u64,
    pub allocation_protection: u32,
    pub region_size: u64,
    pub state: u32,
    pub protection: u32,
    pub memory_type: u32,
}

/// Whether `m` holds exactly the memory-information record stored at
/// offset `off` of the stream.
pub open spec fn memory_info_record_decodes(
    s: Seq<u8>,
    e: Endianness,
    off: int,
    m: MinidumpMemoryInfo,
) -> bool {
    &&& m.base_address == u64_of(e, s.subrange(off, off + 8))
    &&& m.allocation_base == u64_of(e, s.subrange(off + 8, off + 16))
    &&& m.allocation_protection == u32_of(e, s.subrange(off + 16, off + 20))
    &&& m.region_size == u64_of(e, s.subrange(off + 24, off + 32))
    &&& m.state == u32_of(e, s.subrange(off + 32, off + 36))
    &&& m.protection == u32_of(e, s.subrange(off + 36, off + 40))
    &&& m.memory_type == u32_of(e, s.subrange(off + 40, off + 44))
}

/// The memory-information regions of a dump, in file order.
#[derive(Clone, Debug, PartialEq)]
pub struct MinidumpMemoryInfoList {
    pub regions: Vec<MinidumpMemoryInfo>,
}

/// Decode a memory-information-list stream: a header giving its own
/// size, the entry size and a 64-bit entry count, then the entries.
/// Fails exactly when the header sizes are smaller than the known
/// records or the entries overrun the stream.
pub fn read_memory_info_list(stream: &[u8], e: Endianness) -> (r: Option<MinidumpMemoryInfoList>)
    ensures
        match r {
            Option::Some(l) => {
                &&& stream@.len() >= MEMORY_INFO_LIST_HEADER_SIZE
                &&& u32_of(e, stream@.subrange(0, 4)) >= MEMORY_INFO_LIST_HEADER_SIZE
                &&& u32_of(e, stream@.subrange(4, 8)) >= MEMORY_INFO_RECORD_SIZE
                &&& u32_of(e, stream@.subrange(0, 4)) + (u64_of(
                    e,
                    stream@.subrange(8, 16),
                ) as int) * u32_of(e, stream@.subrange(4, 8)) <= stream@.len()
                &&& l.regions@.len() == u64_of(e, stream@.subrange(8, 16))
                &&& forall|i: int|
                    0 <= i < l.regions@.len() ==> memory_info_record_decodes(
                        stream@,
                        e,
                        u32_of(e, stream@.subrange(0, 4)) + i * u32_of(e, stream@.subrange(4, 8)),
                        #[trigger] l.regions@[i],
                    )
            },
            Option::None => stream@.len() < MEMORY_INFO_LIST_HEADER_SIZE || u32_of(
                e,
                stream@.subrange(0, 4),
            ) < MEMORY_INFO_LIST_HEADER_SIZE || u32_of(e, stream@.subrange(4, 8))
                < MEMORY_INFO_RECORD_SIZE || u32_of(e, stream@.subrange(0, 4)) + (u64_of(
                e,
                stream@.subrange(8, 16),
            ) as int) * u32_of(e, stream@.subrange(4, 8)) > stream@.len(),
        },
{
    let mut cur = Cursor::new(stream);
    let size_of_header = match cur.read_u32(e) {
        Option::Some(c) => c,
        Option::None => {
            return Option::None;
        },
    };
    let size_of_entry = match cur.read_u32(e) {
        Option::Some(c) => c,
        Option::None => {
            return Option::None;
        },
    };
    let number_of_entries = match cur.read_u64(e) {
        Option::Some(c) => c,
        Option::None => {
            return Option::None;
        },
    };
    if size_of_header < MEMORY_INFO_LIST_HEADER_SIZE as u32 || size_of_entry
        < MEMORY_INFO_RECORD_SIZE as u32 {
        return Option::None;
    }
    let slen = stream.len();
    if number_of_entries > slen as u64 {
        proof {
            assert((number_of_entries as int) * (size_of_entry as int) >= (number_of_entries as int)
                * 48) by (nonlinear_arith)
                requires
                    size_of_entry >= 48,
                    number_of_entries >= 0,
            ;
            assert((number_of_entries as int) * 48 >= number_of_entries as int) by (
            nonlinear_arith);
        }
        return Option::None;
    }
    proof {
        assert((number_of_entries as int) * (size_of_entry as int) <= 0xffffffffffffffff
            * 0xffffffff) by (nonlinear_arith)
            requires
                number_of_entries <= 0xffffffffffffffff,
                size_of_entry <= 0xffffffff,
        ;
    }
    if size_of_header as u128 + (number_of_entries as u128) * (size_of_entry as u128)
        > slen as u128 {
        return Option::None;
    }
    let mut regions: Vec<MinidumpMemoryInfo> = Vec::new();
    let mut i: u64 = 0;
    while i < number_of_entries
        invariant
            i <= number_of_entries,
            size_of_header >= 16,
            size_of_entry >= 48,
            slen == stream@.len(),
            size_of_header + (number_of_entries as int) * size_of_entry <= stream@.len(),
            size_of_header == u32_of(e, stream@.subrange(0, 4)),
            size_of_entry == u32_of(e, stream@.subrange(4, 8)),
            number_of_entries == u64_of(e, stream@.subrange(8, 16)),
            regions@.len() == i as int,
            forall|j: int|
                0 <= j < i ==> memory_info_record_decodes(
                    stream@,
                    e,
                    size_of_header + j * size_of_entry,
                    #[trigger] regions@[j],
                ),
        decreases number_of_entries - i,
    {
        proof {
            assert((i as int) * size_of_entry + size_of_entry == (i + 1) * size_of_entry) by (
            nonlinear_arith);
            assert((i + 1) * size_of_entry <= (number_of_entries as int) * size_of_entry) by (
            nonlinear_arith)
                requires
                    i + 1 <= number_of_entries as int,
                    size_of_entry >= 0,
            ;
            assert((i as int) * size_of_entry >= 0) by (nonlinear_arith)
                requires
                    i >= 0,
                    size_of_entry >= 0,
            ;
        }
        let off = size_of_header as u64 + i * (size_of_entry as u64);
        proof {
            assert(off == size_of_header + (i as int) * size_of_entry);
            assert(off + 48 <= slen);
        }
        let mut ecur = Cursor::at(stream, off as usize).unwrap();
        let base_address = ecur.read_u64(e).unwrap();
        let allocation_base = ecur.read_u64(e).unwrap();
        let allocation_protection = ecur.read_u32(e).unwrap();
        let _alignment1 = ecur.read_u32(e).unwrap();
        let region_size = ecur.read_u64(e).unwrap();
        let state = ecur.read_u32(e).unwrap();
        let protection = ecur.read_u32(e).unwrap();
        let memory_type = ecur.read_u32(e).unwrap();
        regions.push(
            MinidumpMemoryInfo {
                base_address,
                allocation_base,
                allocation_protection,
                region_size,
                state,
                protection,
                memory_type,
            },
        );
        i = i + 1;
    }
    Option::Some(MinidumpMemoryInfoList { regions })
}

/// Truncating the last byte of a well-formed thread-list stream
/// leaves a stream its decoder refuses. Since each stream decoder is
/// a function of its own stream's bytes alone, truncating one stream
/// changes nothing about what the others decode to.
pub proof fn lemma_truncated_thread_list_fails(s: Seq<u8>, e: Endianness)
    requires
        s.len() >= 4,
        s.len() == 4 + 48 * (u32_of(e, s.subrange(0, 4)) as int),
    ensures
        s.drop_last().len() < 4 || s.drop_last().len() != 4 + 48 * (u32_of(
            e,
            s.drop_last().subrange(0, 4),
        ) as int),
{
    if s.len() >= 5 {
        assert(s.drop_last().subrange(0, 4) =~= s.subrange(0, 4));
    }
}

/// Truncating the last byte of a well-formed memory-list stream
/// leaves a stream its decoder refuses, while every other stream
/// stays decodable.
pub proof fn lemma_truncated_memory_list_fails(s: Seq<u8>, e: Endianness)
    requires
        s.len() >= 4,
        s.len() == 4 + 16 * (u32_of(e, s.subrange(0, 4)) as int),
    ensures
        s.drop_last().len() < 4 || s.drop_last().len() != 4 + 16 * (u32_of(
            e,
            s.drop_last().subrange(0, 4),
        ) as int),
{
    if s.len() >= 5 {
        assert(s.drop_last().subrange(0, 4) =~= s.subrange(0, 4));
    }
}

/// Truncating the last byte of a well-formed module-list stream
/// leaves a stream its decoder refuses, while every other stream
/// stays decodable.
pub proof fn lemma_truncated_module_list_fails(s: Seq<u8>, e: Endianness)
    requires
        s.len() >= 4,
        s.len() == 4 + 108 * (u32_of(e, s.subrange(0, 4)) as int),
    ensures
        s.drop_last().len() < 4 || s.drop_last().len() != 4 + 108 * (u32_of(
            e,
            s.drop_last().subrange(0, 4),
        ) as int),
{
    if s.len() >= 5 {
        assert(s.drop_last().subrange(0, 4) =~= s.subrange(0, 4));
    }
}

impl crate::minidump::Minidump {
    /// The decoded system-information stream.
    pub fn get_system_info(&self) -> (r: Result<MinidumpSystemInfo, crate::minidump::Error>)
        requires
            self.wf(),
        ensures
            match r {
                Result::Ok(si) => exists|i: int|
                    {
                        &&& #[trigger] self.spec_is_first(i, crate::minidump::SYSTEM_INFO_STREAM)
                        &&& self.spec_stream_bytes(i).len() >= SYSTEM_INFO_SIZE
                        &&& system_info_decodes(self.spec_stream_bytes(i), self.spec_endian(), si)
                    },
                Result::Err(crate::minidump::Error::StreamNotFound) => !self.spec_has_stream(
                    crate::minidump::SYSTEM_INFO_STREAM,
                ),
                Result::Err(crate::minidump::Error::StreamReadFailure) => exists|i: int|
                    {
                        &&& #[trigger] self.spec_is_first(i, crate::minidump::SYSTEM_INFO_STREAM)
                        &&& self.spec_stream_bytes(i).len() < SYSTEM_INFO_SIZE
                    },
                _ => false,
            },
    {
        match self.get_raw_stream(crate::minidump::SYSTEM_INFO_STREAM) {
            Result::Ok(s) => {
                proof {
                    let i = choose|i: int|
                        {
                            &&& 0 <= i < self.spec_directory().len()
                            &&& (#[trigger] self.spec_directory()[i]).stream_type
                                == crate::minidump::SYSTEM_INFO_STREAM
                            &&& forall|j: int|
                                0 <= j < i ==> (#[trigger] self.spec_directory()[j]).stream_type
                                    != crate::minidump::SYSTEM_INFO_STREAM
                            &&& s@ == self.spec_stream_bytes(i)
                        };
                    assert(self.spec_is_first(i, crate::minidump::SYSTEM_INFO_STREAM));
                }
                match read_system_info(s, self.endian()) {
                    Option::Some(si) => Result::Ok(si),
                    Option::None => Result::Err(crate::minidump::Error::StreamReadFailure),
                }
            },
            Result::Err(_) => Result::Err(crate::minidump::Error::StreamNotFound),
        }
    }

    /// The decoded thread-list stream.
    pub fn get_thread_list(&self) -> (r: Result<MinidumpThreadList, crate::minidump::Error>)
        requires
            self.wf(),
        ensures
            match r {
                Result::Ok(l) => exists|i: int|
                    {
                        &&& #[trigger] self.spec_is_first(i, crate::minidump::THREAD_LIST_STREAM)
                        &&& self.spec_stream_bytes(i).len() >= 4
                        &&& self.spec_stream_bytes(i).len() == 4 + 48 * (u32_of(
                            self.spec_endian(),
                            self.spec_stream_bytes(i).subrange(0, 4),
                        ) as int)
                        &&& l.threads@.len() == u32_of(
                            self.spec_endian(),
                            self.spec_stream_bytes(i).subrange(0, 4),
                        )
                        &&& forall|k: int|
                            0 <= k < l.threads@.len() ==> #[trigger] l.threads@[k]
                                == spec_thread_at(
                                self.spec_stream_bytes(i),
                                self.spec_endian(),
                                4 + 48 * k,
                            )
                    },
                Result::Err(crate::minidump::Error::StreamNotFound) => !self.spec_has_stream(
                    crate::minidump::THREAD_LIST_STREAM,
                ),
                Result::Err(crate::minidump::Error::StreamReadFailure) => exists|i: int|
                    {
                        &&& #[trigger] self.spec_is_first(i, crate::minidump::THREAD_LIST_STREAM)
                        &&& (self.spec_stream_bytes(i).len() < 4 || self.spec_stream_bytes(i).len()
                            != 4 + 48 * (u32_of(
                            self.spec_endian(),
                            self.spec_stream_bytes(i).subrange(0, 4),
                        ) as int))
                    },
                _ => false,
            },
    {
        match self.get_raw_stream(crate::minidump::THREAD_LIST_STREAM) {
            Result::Ok(s) => {
                proof {
                    let i = choose|i: int|
                        {
                            &&& 0 <= i < self.spec_directory().len()
                            &&& (#[trigger] self.spec_directory()[i]).stream_type
                                == crate::minidump::THREAD_LIST_STREAM
                            &&& forall|j: int|
                                0 <= j < i ==> (#[trigger] self.spec_directory()[j]).stream_type
                                    != crate::minidump::THREAD_LIST_STREAM
                            &&& s@ == self.spec_stream_bytes(i)
                        };
                    assert(self.spec_is_first(i, crate::minidump::THREAD_LIST_STREAM));
                }
                match read_thread_list(s, self.endian()) {
                    Option::Some(l) => Result::Ok(l),
                    Option::None => Result::Err(crate::minidump::Error::StreamReadFailure),
                }
            },
            Result::Err(_) => Result::Err(crate::minidump::Error::StreamNotFound),
        }
    }

    /// The decoded memory-list stream, indexed by address, beside the
    /// overlap conflicts that were dropped building the index, for
    /// the caller to report.
    pub fn get_memory_list(&self) -> (r: Result<
        (MinidumpMemoryList, Vec<(crate::range_index::AddressRange, u64)>),
        crate::minidump::Error,
    >)
        requires
            self.wf(),
        ensures
            match r {
                Result::Ok(p) => p.0.wf() && exists|i: int|
                    {
                        &&& #[trigger] self.spec_is_first(i, crate::minidump::MEMORY_LIST_STREAM)
                        &&& self.spec_stream_bytes(i).len() >= 4
                        &&& self.spec_stream_bytes(i).len() == 4 + 16 * (u32_of(
                            self.spec_endian(),
                            self.spec_stream_bytes(i).subrange(0, 4),
                        ) as int)
                        &&& p.0.spec_descriptors().len() == u32_of(
                            self.spec_endian(),
                            self.spec_stream_bytes(i).subrange(0, 4),
                        )
                        &&& forall|k: int|
                            0 <= k < p.0.spec_descriptors().len() ==> #[trigger] p.0.spec_descriptors()[k]
                                == spec_memory_descriptor_at(
                                self.spec_stream_bytes(i),
                                self.spec_endian(),
                                4 + 16 * k,
                            )
                    },
                Result::Err(crate::minidump::Error::StreamNotFound) => !self.spec_has_stream(
                    crate::minidump::MEMORY_LIST_STREAM,
                ),
                Result::Err(crate::minidump::Error::StreamReadFailure) => exists|i: int|
                    {
                        &&& #[trigger] self.spec_is_first(i, crate::minidump::MEMORY_LIST_STREAM)
                        &&& (self.spec_stream_bytes(i).len() < 4 || self.spec_stream_bytes(i).len()
                            != 4 + 16 * (u32_of(
                            self.spec_endian(),
                            self.spec_stream_bytes(i).subrange(0, 4),
                        ) as int))
                    },
                _ => false,
            },
    {
        match self.get_raw_stream(crate::minidump::MEMORY_LIST_STREAM) {
            Result::Ok(s) => {
                proof {
                    let i = choose|i: int|
                        {
                            &&& 0 <= i < self.spec_directory().len()
                            &&& (#[trigger] self.spec_directory()[i]).stream_type
                                == crate::minidump::MEMORY_LIST_STREAM
                            &&& forall|j: int|
                                0 <= j < i ==> (#[trigger] self.spec_directory()[j]).stream_type
                                    != crate::minidump::MEMORY_LIST_STREAM
                            &&& s@ == self.spec_stream_bytes(i)
                        };
                    assert(self.spec_is_first(i, crate::minidump::MEMORY_LIST_STREAM));
                }
                match read_memory_list(s, self.endian()) {
                    Option::Some(ds) => {
                        let (list, dropped) = MinidumpMemoryList::from_descriptors(ds);
                        Result::Ok((list, dropped))
                    },
                    Option::None => Result::Err(crate::minidump::Error::StreamReadFailure),
                }
            },
            Result::Err(_) => Result::Err(crate::minidump::Error::StreamNotFound),
        }
    }

    /// The decoded module-list stream, indexed by address, beside the
    /// overlap conflicts that were dropped building the index, for
    /// the caller to report.
    pub fn get_module_list(&self) -> (r: Result<
        (MinidumpModuleList, Vec<(crate::range_index::AddressRange, u64)>),
        crate::minidump::Error,
    >)
        requires
            self.wf(),
        ensures
            match r {
                Result::Ok(p) => p.0.wf() && exists|i: int|
                    {
                        &&& #[trigger] self.spec_is_first(i, crate::minidump::MODULE_LIST_STREAM)
                        &&& self.spec_stream_bytes(i).len() >= 4
                        &&& self.spec_stream_bytes(i).len() == 4 + 108 * (u32_of(
                            self.spec_endian(),
                            self.spec_stream_bytes(i).subrange(0, 4),
                        ) as int)
                        &&& p.0.spec_modules().len() == u32_of(
                            self.spec_endian(),
                            self.spec_stream_bytes(i).subrange(0, 4),
                        )
                        &&& forall|k: int|
                            0 <= k < p.0.spec_modules().len() ==> module_record_decodes(
                                self.spec_stream_bytes(i),
                                self.spec_endian(),
                                4 + 108 * k,
                                #[trigger] p.0.spec_modules()[k],
                            ) && crate::text::spec_string_at(
                                self.spec_buf(),
                                p.0.spec_modules()[k].module_name_rva,
                                self.spec_endian(),
                            ) == Option::Some(p.0.spec_modules()[k].name@)
                    },
                Result::Err(crate::minidump::Error::StreamNotFound) => !self.spec_has_stream(
                    crate::minidump::MODULE_LIST_STREAM,
                ),
                Result::Err(crate::minidump::Error::StreamReadFailure) => exists|i: int|
                    {
                        let s = self.spec_stream_bytes(i);
                        let e = self.spec_endian();
                        &&& #[trigger] self.spec_is_first(i, crate::minidump::MODULE_LIST_STREAM)
                        &&& (s.len() < 4 || s.len() != 4 + 108 * (u32_of(
                            e,
                            s.subrange(0, 4),
                        ) as int) || exists|k: int|
                            {
                                &&& 0 <= k < u32_of(e, s.subrange(0, 4))
                                &&& crate::text::spec_string_at(
                                    self.spec_buf(),
                                    u32_of(
                                        e,
                                        #[trigger] s.subrange(4 + 108 * k + 20, 4 + 108 * k + 24),
                                    ),
                                    e,
                                ) is None
                            })
                    },
                _ => false,
            },
    {
        match self.get_raw_stream(crate::minidump::MODULE_LIST_STREAM) {
            Result::Ok(s) => {
                proof {
                    let i = choose|i: int|
                        {
                            &&& 0 <= i < self.spec_directory().len()
                            &&& (#[trigger] self.spec_directory()[i]).stream_type
                                == crate::minidump::MODULE_LIST_STREAM
                            &&& forall|j: int|
                                0 <= j < i ==> (#[trigger] self.spec_directory()[j]).stream_type
                                    != crate::minidump::MODULE_LIST_STREAM
                            &&& s@ == self.spec_stream_bytes(i)
                        };
                    assert(self.spec_is_first(i, crate::minidump::MODULE_LIST_STREAM));
                }
                match read_module_list(self.dump_bytes(), s, self.endian()) {
                    Option::Some(ms) => {
                        let (list, dropped) = MinidumpModuleList::from_modules(ms);
                        Result::Ok((list, dropped))
                    },
                    Option::None => Result::Err(crate::minidump::Error::StreamReadFailure),
                }
            },
            Result::Err(_) => Result::Err(crate::minidump::Error::StreamNotFound),
        }
    }

    /// The decoded unloaded-module-list stream.
    pub fn get_unloaded_module_list(&self) -> (r: Result<
        MinidumpUnloadedModuleList,
        crate::minidump::Error,
    >)
        requires
            self.wf(),
        ensures
            match r {
                Result::Ok(l) => exists|i: int|
                    {
                        &&& #[trigger] self.spec_is_first(
                            i,
                            crate::minidump::UNLOADED_MODULE_LIST_STREAM,
                        )
                        &&& forall|k: int|
                            0 <= k < l.modules@.len() ==> crate::text::spec_string_at(
                                self.spec_buf(),
                                (#[trigger] l.modules@[k]).module_name_rva,
                                self.spec_endian(),
                            ) == Option::Some(l.modules@[k].name@)
                    },
                Result::Err(crate::minidump::Error::StreamNotFound) => !self.spec_has_stream(
                    crate::minidump::UNLOADED_MODULE_LIST_STREAM,
                ),
                Result::Err(crate::minidump::Error::StreamReadFailure) => exists|i: int|
                    {
                        let s = self.spec_stream_bytes(i);
                        let e = self.spec_endian();
                        &&& #[trigger] self.spec_is_first(
                            i,
                            crate::minidump::UNLOADED_MODULE_LIST_STREAM,
                        )
                        &&& (s.len() < 12 || u32_of(e, s.subrange(0, 4)) < 12 || u32_of(
                            e,
                            s.subrange(4, 8),
                        ) < 24 || u32_of(e, s.subrange(0, 4)) + (u32_of(
                            e,
                            s.subrange(8, 12),
                        ) as int) * u32_of(e, s.subrange(4, 8)) > s.len() || exists|k: int|
                            {
                                &&& 0 <= k < u32_of(e, s.subrange(8, 12))
                                &&& crate::text::spec_string_at(
                                    self.spec_buf(),
                                    u32_of(
                                        e,
                                        #[trigger] s.subrange(
                                            u32_of(e, s.subrange(0, 4)) + k * u32_of(
                                                e,
                                                s.subrange(4, 8),
                                            ) + 20,
                                            u32_of(e, s.subrange(0, 4)) + k * u32_of(
                                                e,
                                                s.subrange(4, 8),
                                            ) + 24,
                                        ),
                                    ),
                                    e,
                                ) is None
                            })
                    },
                _ => false,
            },
    {
        match self.get_raw_stream(crate::minidump::UNLOADED_MODULE_LIST_STREAM) {
            Result::Ok(s) => {
                proof {
                    let i = choose|i: int|
                        {
                            &&& 0 <= i < self.spec_directory().len()
                            &&& (#[trigger] self.spec_directory()[i]).stream_type
                                == crate::minidump::UNLOADED_MODULE_LIST_STREAM
                            &&& forall|j: int|
                                0 <= j < i ==> (#[trigger] self.spec_directory()[j]).stream_type
                                    != crate::minidump::UNLOADED_MODULE_LIST_STREAM
                            &&& s@ == self.spec_stream_bytes(i)
                        };
                    assert(self.spec_is_first(i, crate::minidump::UNLOADED_MODULE_LIST_STREAM));
                }
                match read_unloaded_module_list(self.dump_bytes(), s, self.endian()) {
                    Option::Some(l) => Result::Ok(l),
                    Option::None => Result::Err(crate::minidump::Error::StreamReadFailure),
                }
            },
            Result::Err(_) => Result::Err(crate::minidump::Error::StreamNotFound),
        }
    }

    /// The decoded exception stream.
    pub fn get_exception(&self) -> (r: Result<MinidumpException, crate::minidump::Error>)
        requires
            self.wf(),
        ensures
            match r {
                Result::Ok(x) => exists|i: int|
                    {
                        &&& #[trigger] self.spec_is_first(i, crate::minidump::EXCEPTION_STREAM)
                        &&& self.spec_stream_bytes(i).len() >= EXCEPTION_STREAM_SIZE
                        &&& exception_decodes(self.spec_stream_bytes(i), self.spec_endian(), x)
                    },
                Result::Err(crate::minidump::Error::StreamNotFound) => !self.spec_has_stream(
                    crate::minidump::EXCEPTION_STREAM,
                ),
                Result::Err(crate::minidump::Error::StreamReadFailure) => exists|i: int|
                    {
                        &&& #[trigger] self.spec_is_first(i, crate::minidump::EXCEPTION_STREAM)
                        &&& self.spec_stream_bytes(i).len() < EXCEPTION_STREAM_SIZE
                    },
                _ => false,
            },
    {
        match self.get_raw_stream(crate::minidump::EXCEPTION_STREAM) {
            Result::Ok(s) => {
                proof {
                    let i = choose|i: int|
                        {
                            &&& 0 <= i < self.spec_directory().len()
                            &&& (#[trigger] self.spec_directory()[i]).stream_type
                                == crate::minidump::EXCEPTION_STREAM
                            &&& forall|j: int|
                                0 <= j < i ==> (#[trigger] self.spec_directory()[j]).stream_type
                                    != crate::minidump::EXCEPTION_STREAM
                            &&& s@ == self.spec_stream_bytes(i)
                        };
                    assert(self.spec_is_first(i, crate::minidump::EXCEPTION_STREAM));
                }
                match read_exception(s, self.endian()) {
                    Option::Some(x) => Result::Ok(x),
                    Option::None => Result::Err(crate::minidump::Error::StreamReadFailure),
                }
            },
            Result::Err(_) => Result::Err(crate::minidump::Error::StreamNotFound),
        }
    }

    /// The decoded Breakpad-information stream.
    pub fn get_breakpad_info(&self) -> (r: Result<MinidumpBreakpadInfo, crate::minidump::Error>)
        requires
            self.wf(),
        ensures
            match r {
                Result::Ok(b) => exists|i: int|
                    {
                        &&& #[trigger] self.spec_is_first(i, crate::minidump::BREAKPAD_INFO_STREAM)
                        &&& self.spec_stream_bytes(i).len() >= BREAKPAD_INFO_SIZE
                        &&& breakpad_info_decodes(self.spec_stream_bytes(i), self.spec_endian(), b)
                    },
                Result::Err(crate::minidump::Error::StreamNotFound) => !self.spec_has_stream(
                    crate::minidump::BREAKPAD_INFO_STREAM,
                ),
                Result::Err(crate::minidump::Error::StreamReadFailure) => exists|i: int|
                    {
                        &&& #[trigger] self.spec_is_first(i, crate::minidump::BREAKPAD_INFO_STREAM)
                        &&& self.spec_stream_bytes(i).len() < BREAKPAD_INFO_SIZE
                    },
                _ => false,
            },
    {
        match self.get_raw_stream(crate::minidump::BREAKPAD_INFO_STREAM) {
            Result::Ok(s) => {
                proof {
                    let i = choose|i: int|
                        {
                            &&& 0 <= i < self.spec_directory().len()
                            &&& (#[trigger] self.spec_directory()[i]).stream_type
                                == crate::minidump::BREAKPAD_INFO_STREAM
                            &&& forall|j: int|
                                0 <= j < i ==> (#[trigger] self.spec_directory()[j]).stream_type
                                    != crate::minidump::BREAKPAD_INFO_STREAM
                            &&& s@ == self.spec_stream_bytes(i)
                        };
                    assert(self.spec_is_first(i, crate::minidump::BREAKPAD_INFO_STREAM));
                }
                match read_breakpad_info(s, self.endian()) {
                    Option::Some(b) => Result::Ok(b),
                    Option::None => Result::Err(crate::minidump::Error::StreamReadFailure),
                }
            },
            Result::Err(_) => Result::Err(crate::minidump::Error::StreamNotFound),
        }
    }

    /// The decoded miscellaneous-information stream.
    pub fn get_misc_info(&self) -> (r: Result<MinidumpMiscInfo, crate::minidump::Error>)
        requires
            self.wf(),
        ensures
            match r {
                Result::Ok(m) => exists|i: int|
                    {
                        &&& #[trigger] self.spec_is_first(i, crate::minidump::MISC_INFO_STREAM)
                        &&& self.spec_stream_bytes(i).len() >= MISC_INFO_SIZE
                        &&& misc_info_decodes(self.spec_stream_bytes(i), self.spec_endian(), m)
                    },
                Result::Err(crate::minidump::Error::StreamNotFound) => !self.spec_has_stream(
                    crate::minidump::MISC_INFO_STREAM,
                ),
                Result::Err(crate::minidump::Error::StreamReadFailure) => exists|i: int|
                    {
                        &&& #[trigger] self.spec_is_first(i, crate::minidump::MISC_INFO_STREAM)
                        &&& (self.spec_stream_bytes(i).len() < MISC_INFO_SIZE || u32_of(
                            self.spec_endian(),
                            self.spec_stream_bytes(i).subrange(0, 4),
                        ) < MISC_INFO_SIZE || u32_of(
                            self.spec_endian(),
                            self.spec_stream_bytes(i).subrange(0, 4),
                        ) > self.spec_stream_bytes(i).len())
                    },
                _ => false,
            },
    {
        match self.get_raw_stream(crate::minidump::MISC_INFO_STREAM) {
            Result::Ok(s) => {
                proof {
                    let i = choose|i: int|
                        {
                            &&& 0 <= i < self.spec_directory().len()
                            &&& (#[trigger] self.spec_directory()[i]).stream_type
                                == crate::minidump::MISC_INFO_STREAM
                            &&& forall|j: int|
                                0 <= j < i ==> (#[trigger] self.spec_directory()[j]).stream_type
                                    != crate::minidump::MISC_INFO_STREAM
                            &&& s@ == self.spec_stream_bytes(i)
                        };
                    assert(self.spec_is_first(i, crate::minidump::MISC_INFO_STREAM));
                }
                match read_misc_info(s, self.endian()) {
                    Option::Some(m) => Result::Ok(m),
                    Option::None => Result::Err(crate::minidump::Error::StreamReadFailure),
                }
            },
            Result::Err(_) => Result::Err(crate::minidump::Error::StreamNotFound),
        }
    }

    /// The decoded assertion-information stream.
    pub fn get_assertion(&self) -> (r: Result<MinidumpAssertion, crate::minidump::Error>)
        requires
            self.wf(),
        ensures
            match r {
                Result::Ok(a) => exists|i: int|
                    {
                        &&& #[trigger] self.spec_is_first(i, crate::minidump::ASSERTION_INFO_STREAM)
                        &&& self.spec_stream_bytes(i).len() >= ASSERTION_INFO_SIZE
                        &&& assertion_decodes(self.spec_stream_bytes(i), self.spec_endian(), a)
                    },
                Result::Err(crate::minidump::Error::StreamNotFound) => !self.spec_has_stream(
                    crate::minidump::ASSERTION_INFO_STREAM,
                ),
                Result::Err(crate::minidump::Error::StreamReadFailure) => exists|i: int|
                    {
                        &&& #[trigger] self.spec_is_first(i, crate::minidump::ASSERTION_INFO_STREAM)
                        &&& self.spec_stream_bytes(i).len() < ASSERTION_INFO_SIZE
                    },
                _ => false,
            },
    {
        match self.get_raw_stream(crate::minidump::ASSERTION_INFO_STREAM) {
            Result::Ok(s) => {
                proof {
                    let i = choose|i: int|
                        {
                            &&& 0 <= i < self.spec_directory().len()
                            &&& (#[trigger] self.spec_directory()[i]).stream_type
                                == crate::minidump::ASSERTION_INFO_STREAM
                            &&& forall|j: int|
                                0 <= j < i ==> (#[trigger] self.spec_directory()[j]).stream_type
                                    != crate::minidump::ASSERTION_INFO_STREAM
                            &&& s@ == self.spec_stream_bytes(i)
                        };
                    assert(self.spec_is_first(i, crate::minidump::ASSERTION_INFO_STREAM));
                }
                match read_assertion(s, self.endian()) {
                    Option::Some(a) => Result::Ok(a),
                    Option::None => Result::Err(crate::minidump::Error::StreamReadFailure),
                }
            },
            Result::Err(_) => Result::Err(crate::minidump::Error::StreamNotFound),
        }
    }

    /// The decoded memory-information-list stream.
    pub fn get_memory_info_list(&self) -> (r: Result<
        MinidumpMemoryInfoList,
        crate::minidump::Error,
    >)
        requires
            self.wf(),
        ensures
            match r {
                Result::Ok(l) => exists|i: int|
                    {
                        &&& #[trigger] self.spec_is_first(
                            i,
                            crate::minidump::MEMORY_INFO_LIST_STREAM,
                        )
                        &&& l.regions@.len() == crate::bytes::u64_of(
                            self.spec_endian(),
                            self.spec_stream_bytes(i).subrange(8, 16),
                        )
                        &&& forall|k: int|
                            0 <= k < l.regions@.len() ==> memory_info_record_decodes(
                                self.spec_stream_bytes(i),
                                self.spec_endian(),
                                u32_of(
                                    self.spec_endian(),
                                    self.spec_stream_bytes(i).subrange(0, 4),
                                ) + k * u32_of(
                                    self.spec_endian(),
                                    self.spec_stream_bytes(i).subrange(4, 8),
                                ),
                                #[trigger] l.regions@[k],
                            )
                    },
                Result::Err(crate::minidump::Error::StreamNotFound) => !self.spec_has_stream(
                    crate::minidump::MEMORY_INFO_LIST_STREAM,
                ),
                Result::Err(crate::minidump::Error::StreamReadFailure) => exists|i: int|
                    {
                        let s = self.spec_stream_bytes(i);
                        let e = self.spec_endian();
                        &&& #[trigger] self.spec_is_first(
                            i,
                            crate::minidump::MEMORY_INFO_LIST_STREAM,
                        )
                        &&& (s.len() < MEMORY_INFO_LIST_HEADER_SIZE || u32_of(e, s.subrange(0, 4))
                            < MEMORY_INFO_LIST_HEADER_SIZE || u32_of(e, s.subrange(4, 8))
                            < MEMORY_INFO_RECORD_SIZE || u32_of(e, s.subrange(0, 4)) + (u64_of(
                            e,
                            s.subrange(8, 16),
                        ) as int) * u32_of(e, s.subrange(4, 8)) > s.len())
                    },
                _ => false,
            },
    {
        match self.get_raw_stream(crate::minidump::MEMORY_INFO_LIST_STREAM) {
            Result::Ok(s) => {
                proof {
                    let i = choose|i: int|
                        {
                            &&& 0 <= i < self.spec_directory().len()
                            &&& (#[trigger] self.spec_directory()[i]).stream_type
                                == crate::minidump::MEMORY_INFO_LIST_STREAM
                            &&& forall|j: int|
                                0 <= j < i ==> (#[trigger] self.spec_directory()[j]).stream_type
                                    != crate::minidump::MEMORY_INFO_LIST_STREAM
                            &&& s@ == self.spec_stream_bytes(i)
                        };
                    assert(self.spec_is_first(i, crate::minidump::MEMORY_INFO_LIST_STREAM));
                }
                match read_memory_info_list(s, self.endian()) {
                    Option::Some(l) => Result::Ok(l),
                    Option::None => Result::Err(crate::minidump::Error::StreamReadFailure),
                }
            },
            Result::Err(_) => Result::Err(crate::minidump::Error::StreamNotFound),
        }
    }

    /// Decode the CPU context record a location descriptor points at:
    /// a thread's or the exception's saved register state.
    pub fn read_context_at(&self, loc: MinidumpLocationDescriptor) -> (r: Result<
        crate::context::MinidumpContext,
        crate::context::ContextError,
    >)
        requires
            self.wf(),
        ensures
            match r {
                Result::Ok(ctx) => {
                    &&& loc.rva + loc.data_size <= self.spec_buf().len()
                    &&& ctx.wf()
                    &&& ctx.valid == crate::context::MinidumpContextValidity::All
                    &&& crate::context::spec_read_ok(
                        self.spec_buf().subrange(loc.rva as int, loc.rva + loc.data_size),
                        self.spec_endian(),
                        ctx.raw,
                    )
                },
                Result::Err(crate::context::ContextError::UnknownCpuContext) => {
                    &&& loc.rva + loc.data_size <= self.spec_buf().len()
                    &&& crate::context::spec_read_unknown(
                        self.spec_buf().subrange(loc.rva as int, loc.rva + loc.data_size),
                        self.spec_endian(),
                    )
                },
                Result::Err(crate::context::ContextError::ReadFailure) => loc.rva + loc.data_size
                    > self.spec_buf().len() || crate::context::spec_read_failure(
                    self.spec_buf().subrange(loc.rva as int, loc.rva + loc.data_size),
                    self.spec_endian(),
                ),
            },
    {
        match self.location_bytes(loc) {
            Option::Some(s) => crate::context::MinidumpContext::read(s, self.endian()),
            Option::None => Result::Err(crate::context::ContextError::ReadFailure),
        }
    }
}

} // verus!
