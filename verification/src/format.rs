//! Record shapes of the minidump format.
//!
//! The layouts here follow the Microsoft and Breakpad definitions
//! byte for byte, reserved and padding fields included. Fixed-size
//! register and save areas are held as vectors whose lengths are fixed
//! by each record's well-formedness predicate. Each record has a reader
//! that decodes it field by field from a byte buffer through
//! [`crate::bytes::Cursor`]; no alignment is ever assumed.

use vstd::prelude::*;
use crate::Endianness;
use crate::bytes::{Cursor, u32_of, u64_of, u16_of, u128_of};

verus! {

/// Read `n` 32-bit integers into a vector.
fn read_u32_array<'a>(cur: &mut Cursor<'a>, e: Endianness, n: usize) -> (r: Option<Vec<u32>>)
    requires
        old(cur).wf(),
        n <= 4096,
    ensures
        final(cur).wf(),
        final(cur).spec_buf() == old(cur).spec_buf(),
        match r {
            Option::Some(v) => {
                &&& old(cur).spec_pos() + 4 * n <= old(cur).spec_buf().len()
                &&& final(cur).spec_pos() == old(cur).spec_pos() + 4 * n
                &&& v@.len() == n
                &&& forall|i: int|
                    0 <= i < n ==> v@[i] == u32_of(
                        e,
                        old(cur).spec_buf().subrange(
                            old(cur).spec_pos() + 4 * i,
                            old(cur).spec_pos() + 4 * i + 4,
                        ),
                    )
            },
            Option::None => {
                &&& old(cur).spec_pos() + 4 * n > old(cur).spec_buf().len()
                &&& *final(cur) == *old(cur)
            },
        },
{
    if cur.remaining() < 4 * n {
        return Option::None;
    }
    let mut v: Vec<u32> = Vec::new();
    let mut i: usize = 0;
    while i < n
        invariant
            i <= n,
            cur.wf(),
            cur.spec_buf() == old(cur).spec_buf(),
            cur.spec_pos() == old(cur).spec_pos() + 4 * i,
            old(cur).spec_pos() + 4 * n <= old(cur).spec_buf().len(),
            n <= 4096,
            v@.len() == i,
            forall|j: int|
                0 <= j < i ==> v@[j] == u32_of(
                    e,
                    old(cur).spec_buf().subrange(
                        old(cur).spec_pos() + 4 * j,
                        old(cur).spec_pos() + 4 * j + 4,
                    ),
                ),
        decreases n - i,
    {
        let x = cur.read_u32(e).unwrap();
        v.push(x);
        i = i + 1;
    }
    Option::Some(v)
}

/// Read `n` 64-bit integers into a vector.
fn read_u64_array<'a>(cur: &mut Cursor<'a>, e: Endianness, n: usize) -> (r: Option<Vec<u64>>)
    requires
        old(cur).wf(),
        n <= 4096,
    ensures
        final(cur).wf(),
        final(cur).spec_buf() == old(cur).spec_buf(),
        match r {
            Option::Some(v) => {
                &&& old(cur).spec_pos() + 8 * n <= old(cur).spec_buf().len()
                &&& final(cur).spec_pos() == old(cur).spec_pos() + 8 * n
                &&& v@.len() == n
                &&& forall|i: int|
                    0 <= i < n ==> v@[i] == u64_of(
                        e,
                        old(cur).spec_buf().subrange(
                            old(cur).spec_pos() + 8 * i,
                            old(cur).spec_pos() + 8 * i + 8,
                        ),
                    )
            },
            Option::None => {
                &&& old(cur).spec_pos() + 8 * n > old(cur).spec_buf().len()
                &&& *final(cur) == *old(cur)
            },
        },
{
    if cur.remaining() < 8 * n {
        return Option::None;
    }
    let mut v: Vec<u64> = Vec::new();
    let mut i: usize = 0;
    while i < n
        invariant
            i <= n,
            cur.wf(),
            cur.spec_buf() == old(cur).spec_buf(),
            cur.spec_pos() == old(cur).spec_pos() + 8 * i,
            old(cur).spec_pos() + 8 * n <= old(cur).spec_buf().len(),
            n <= 4096,
            v@.len() == i,
            forall|j: int|
                0 <= j < i ==> v@[j] == u64_of(
                    e,
                    old(cur).spec_buf().subrange(
                        old(cur).spec_pos() + 8 * j,
                        old(cur).spec_pos() + 8 * j + 8,
                    ),
                ),
        decreases n - i,
    {
        let x = cur.read_u64(e).unwrap();
        v.push(x);
        i = i + 1;
    }
    Option::Some(v)
}

/// Read `n` 128-bit integers into a vector.
fn read_u128_array<'a>(cur: &mut Cursor<'a>, e: Endianness, n: usize) -> (r: Option<Vec<u128>>)
    requires
        old(cur).wf(),
        n <= 4096,
    ensures
        final(cur).wf(),
        final(cur).spec_buf() == old(cur).spec_buf(),
        match r {
            Option::Some(v) => {
                &&& old(cur).spec_pos() + 16 * n <= old(cur).spec_buf().len()
                &&& final(cur).spec_pos() == old(cur).spec_pos() + 16 * n
                &&& v@.len() == n
                &&& forall|i: int|
                    0 <= i < n ==> v@[i] == u128_of(
                        e,
                        old(cur).spec_buf().subrange(
                            old(cur).spec_pos() + 16 * i,
                            old(cur).spec_pos() + 16 * i + 16,
                        ),
                    )
            },
            Option::None => {
                &&& old(cur).spec_pos() + 16 * n > old(cur).spec_buf().len()
                &&& *final(cur) == *old(cur)
            },
        },
{
    if cur.remaining() < 16 * n {
        return Option::None;
    }
    let mut v: Vec<u128> = Vec::new();
    let mut i: usize = 0;
    while i < n
        invariant
            i <= n,
            cur.wf(),
            cur.spec_buf() == old(cur).spec_buf(),
            cur.spec_pos() == old(cur).spec_pos() + 16 * i,
            old(cur).spec_pos() + 16 * n <= old(cur).spec_buf().len(),
            n <= 4096,
            v@.len() == i,
            forall|j: int|
                0 <= j < i ==> v@[j] == u128_of(
                    e,
                    old(cur).spec_buf().subrange(
                        old(cur).spec_pos() + 16 * j,
                        old(cur).spec_pos() + 16 * j + 16,
                    ),
                ),
        decreases n - i,
    {
        let x = cur.read_u128(e).unwrap();
        v.push(x);
        i = i + 1;
    }
    Option::Some(v)
}

/// The bits of `context_flags` that select a CPU architecture.
pub const CONTEXT_CPU_MASK: u32 = 0xffffff00;

/// CPU bits of `context_flags` for each architecture.
pub const CONTEXT_X86_FLAG: u32 = 0x10000;
pub const CONTEXT_MIPS_FLAG: u32 = 0x40000;
pub const CONTEXT_AMD64_FLAG: u32 = 0x100000;
pub const CONTEXT_ARM64_FLAG: u32 = 0x400000;
pub const CONTEXT_PPC64_FLAG: u32 = 0x1000000;
pub const CONTEXT_SPARC_FLAG: u32 = 0x10000000;
pub const CONTEXT_PPC_FLAG: u32 = 0x20000000;
pub const CONTEXT_ARM_FLAG: u32 = 0x40000000;
pub const CONTEXT_ARM64_OLD_FLAG: u32 = 0x80000000;

/// The union of all recognised CPU bits.
pub const CONTEXT_KNOWN_CPU_BITS: u32 = 0xf1550000;

/// The CPU-selecting bits of a `context_flags` word: the flag word
/// masked to its CPU portion, truncated to the recognised bits.
pub open spec fn spec_cpu_flags(flags: u32) -> u32 {
    (flags & CONTEXT_CPU_MASK) & CONTEXT_KNOWN_CPU_BITS
}

/// Extract the CPU-selecting bits of a `context_flags` word.
pub fn cpu_flags(flags: u32) -> (r: u32)
    ensures
        r == spec_cpu_flags(flags),
{
    (flags & CONTEXT_CPU_MASK) & CONTEXT_KNOWN_CPU_BITS
}

/// Byte size of each context record.
pub const CONTEXT_X86_SIZE: usize = 716;
pub const CONTEXT_AMD64_SIZE: usize = 1232;
pub const CONTEXT_ARM_SIZE: usize = 368;
pub const CONTEXT_ARM64_SIZE: usize = 912;
pub const CONTEXT_ARM64_OLD_SIZE: usize = 796;
pub const CONTEXT_PPC_SIZE: usize = 1004;
pub const CONTEXT_PPC64_SIZE: usize = 1160;
pub const CONTEXT_SPARC_SIZE: usize = 584;
pub const CONTEXT_MIPS_SIZE: usize = 600;

/// x87 floating-point save area of an x86 context.
#[allow(non_camel_case_types)]
#[derive(Debug, Clone, PartialEq)]
pub struct FLOATING_SAVE_AREA_X86 {
    pub control_word: u32,
    pub status_word: u32,
    pub tag_word: u32,
    pub error_offset: u32,
    pub error_selector: u32,
    pub data_offset: u32,
    pub data_selector: u32,
    pub register_area: Vec<u8>,
    pub cr0_npx_state: u32,
}

impl FLOATING_SAVE_AREA_X86 {
    /// The register area holds exactly 80 bytes.
    pub open spec fn wf(self) -> bool {
        self.register_area@.len() == 80
    }
}

/// An x86 CPU context.
#[allow(non_camel_case_types)]
#[derive(Debug, Clone, PartialEq)]
pub struct CONTEXT_X86 {
    pub context_flags: u32,
    pub dr0: u32,
    pub dr1: u32,
    pub dr2: u32,
    pub dr3: u32,
    pub dr6: u32,
    pub dr7: u32,
    pub float_save: FLOATING_SAVE_AREA_X86,
    pub gs: u32,
    pub fs: u32,
    pub es: u32,
    pub ds: u32,
    pub edi: u32,
    pub esi: u32,
    pub ebx: u32,
    pub edx: u32,
    pub ecx: u32,
    pub eax: u32,
    pub ebp: u32,
    pub eip: u32,
    pub cs: u32,
    pub eflags: u32,
    pub esp: u32,
    pub ss: u32,
    pub extended_registers: Vec<u8>,
}

impl CONTEXT_X86 {
    /// The save areas hold exactly their layout-defined byte counts.
    pub open spec fn wf(self) -> bool {
        &&& self.float_save.wf()
        &&& self.extended_registers@.len() == 512
    }
}

/// Whether `c` holds exactly the fields of the x86 context record
/// stored at the start of `s` in byte order `e`.
pub open spec fn x86_decodes(s: Seq<u8>, e: Endianness, c: CONTEXT_X86) -> bool {
    &&& c.wf()
    &&& c.context_flags == u32_of(e, s.subrange(0, 4))
    &&& c.dr0 == u32_of(e, s.subrange(4, 8))
    &&& c.dr1 == u32_of(e, s.subrange(8, 12))
    &&& c.dr2 == u32_of(e, s.subrange(12, 16))
    &&& c.dr3 == u32_of(e, s.subrange(16, 20))
    &&& c.dr6 == u32_of(e, s.subrange(20, 24))
    &&& c.dr7 == u32_of(e, s.subrange(24, 28))
    &&& c.float_save.control_word == u32_of(e, s.subrange(28, 32))
    &&& c.float_save.status_word == u32_of(e, s.subrange(32, 36))
    &&& c.float_save.tag_word == u32_of(e, s.subrange(36, 40))
    &&& c.float_save.error_offset == u32_of(e, s.subrange(40, 44))
    &&& c.float_save.error_selector == u32_of(e, s.subrange(44, 48))
    &&& c.float_save.data_offset == u32_of(e, s.subrange(48, 52))
    &&& c.float_save.data_selector == u32_of(e, s.subrange(52, 56))
    &&& c.float_save.register_area@ == s.subrange(56, 136)
    &&& c.float_save.cr0_npx_state == u32_of(e, s.subrange(136, 140))
    &&& c.gs == u32_of(e, s.subrange(140, 144))
    &&& c.fs == u32_of(e, s.subrange(144, 148))
    &&& c.es == u32_of(e, s.subrange(148, 152))
    &&& c.ds == u32_of(e, s.subrange(152, 156))
    &&& c.edi == u32_of(e, s.subrange(156, 160))
    &&& c.esi == u32_of(e, s.subrange(160, 164))
    &&& c.ebx == u32_of(e, s.subrange(164, 168))
    &&& c.edx == u32_of(e, s.subrange(168, 172))
    &&& c.ecx == u32_of(e, s.subrange(172, 176))
    &&& c.eax == u32_of(e, s.subrange(176, 180))
    &&& c.ebp == u32_of(e, s.subrange(180, 184))
    &&& c.eip == u32_of(e, s.subrange(184, 188))
    &&& c.cs == u32_of(e, s.subrange(188, 192))
    &&& c.eflags == u32_of(e, s.subrange(192, 196))
    &&& c.esp == u32_of(e, s.subrange(196, 200))
    &&& c.ss == u32_of(e, s.subrange(200, 204))
    &&& c.extended_registers@ == s.subrange(204, 716)
}

/// Decode an x86 context record from the start of `bytes`.
/// Fails exactly when the buffer is shorter than the record.
pub fn read_context_x86(bytes: &[u8], e: Endianness) -> (r: Option<CONTEXT_X86>)
    ensures
        match r {
            Option::Some(c) => bytes@.len() >= CONTEXT_X86_SIZE && x86_decodes(bytes@, e, c),
            Option::None => bytes@.len() < CONTEXT_X86_SIZE,
        },
{
    if bytes.len() < CONTEXT_X86_SIZE {
        return Option::None;
    }
    let mut cur = Cursor::new(bytes);
    let context_flags = cur.read_u32(e).unwrap();
    let dr0 = cur.read_u32(e).unwrap();
    let dr1 = cur.read_u32(e).unwrap();
    let dr2 = cur.read_u32(e).unwrap();
    let dr3 = cur.read_u32(e).unwrap();
    let dr6 = cur.read_u32(e).unwrap();
    let dr7 = cur.read_u32(e).unwrap();
    let control_word = cur.read_u32(e).unwrap();
    let status_word = cur.read_u32(e).unwrap();
    let tag_word = cur.read_u32(e).unwrap();
    let error_offset = cur.read_u32(e).unwrap();
    let error_selector = cur.read_u32(e).unwrap();
    let data_offset = cur.read_u32(e).unwrap();
    let data_selector = cur.read_u32(e).unwrap();
    let register_area = vstd::slice::slice_to_vec(cur.read_bytes(80).unwrap());
    let cr0_npx_state = cur.read_u32(e).unwrap();
    let gs = cur.read_u32(e).unwrap();
    let fs = cur.read_u32(e).unwrap();
    let es = cur.read_u32(e).unwrap();
    let ds = cur.read_u32(e).unwrap();
    let edi = cur.read_u32(e).unwrap();
    let esi = cur.read_u32(e).unwrap();
    let ebx = cur.read_u32(e).unwrap();
    let edx = cur.read_u32(e).unwrap();
    let ecx = cur.read_u32(e).unwrap();
    let eax = cur.read_u32(e).unwrap();
    let ebp = cur.read_u32(e).unwrap();
    let eip = cur.read_u32(e).unwrap();
    let cs = cur.read_u32(e).unwrap();
    let eflags = cur.read_u32(e).unwrap();
    let esp = cur.read_u32(e).unwrap();
    let ss = cur.read_u32(e).unwrap();
    let extended_registers = vstd::slice::slice_to_vec(cur.read_bytes(512).unwrap());
    Option::Some(CONTEXT_X86 {
        context_flags,
        dr0,
        dr1,
        dr2,
        dr3,
        dr6,
        dr7,
        float_save: FLOATING_SAVE_AREA_X86 {
            control_word,
            status_word,
            tag_word,
            error_offset,
            error_selector,
            data_offset,
            data_selector,
            register_area,
            cr0_npx_state,
        },
        gs,
        fs,
        es,
        ds,
        edi,
        esi,
        ebx,
        edx,
        ecx,
        eax,
        ebp,
        eip,
        cs,
        eflags,
        esp,
        ss,
        extended_registers,
    })
}

/// An x86-64 CPU context. The SSE and vector save areas are carried as
/// raw bytes.
#[allow(non_camel_case_types)]
#[derive(Debug, Clone, PartialEq)]
pub struct CONTEXT_AMD64 {
    pub p1_home: u64,
    pub p2_home: u64,
    pub p3_home: u64,
    pub p4_home: u64,
    pub p5_home: u64,
    pub p6_home: u64,
    pub context_flags: u32,
    pub mx_csr: u32,
    pub cs: u16,
    pub ds: u16,
    pub es: u16,
    pub fs: u16,
    pub gs: u16,
    pub ss: u16,
    pub eflags: u32,
    pub dr0: u64,
    pub dr1: u64,
    pub dr2: u64,
    pub dr3: u64,
    pub dr6: u64,
    pub dr7: u64,
    pub rax: u64,
    pub rcx: u64,
    pub rdx: u64,
    pub rbx: u64,
    pub rsp: u64,
    pub rbp: u64,
    pub rsi: u64,
    pub rdi: u64,
    pub r8: u64,
    pub r9: u64,
    pub r10: u64,
    pub r11: u64,
    pub r12: u64,
    pub r13: u64,
    pub r14: u64,
    pub r15: u64,
    pub rip: u64,
    pub float_save: Vec<u8>,
    pub vector_register: Vec<u8>,
    pub vector_control: u64,
    pub debug_control: u64,
    pub last_branch_to_rip: u64,
    pub last_branch_from_rip: u64,
    pub last_exception_to_rip: u64,
    pub last_exception_from_rip: u64,
}

impl CONTEXT_AMD64 {
    /// The save areas hold exactly their layout-defined byte counts.
    pub open spec fn wf(self) -> bool {
        &&& self.float_save@.len() == 512
        &&& self.vector_register@.len() == 416
    }
}

/// Whether `c` holds exactly the fields of the x86-64 context record
/// stored at the start of `s` in byte order `e`.
pub open spec fn amd64_decodes(s: Seq<u8>, e: Endianness, c: CONTEXT_AMD64) -> bool {
    &&& c.wf()
    &&& c.p1_home == u64_of(e, s.subrange(0, 8))
    &&& c.p2_home == u64_of(e, s.subrange(8, 16))
    &&& c.p3_home == u64_of(e, s.subrange(16, 24))
    &&& c.p4_home == u64_of(e, s.subrange(24, 32))
    &&& c.p5_home == u64_of(e, s.subrange(32, 40))
    &&& c.p6_home == u64_of(e, s.subrange(40, 48))
    &&& c.context_flags == u32_of(e, s.subrange(48, 52))
    &&& c.mx_csr == u32_of(e, s.subrange(52, 56))
    &&& c.cs == u16_of(e, s.subrange(56, 58))
    &&& c.ds == u16_of(e, s.subrange(58, 60))
    &&& c.es == u16_of(e, s.subrange(60, 62))
    &&& c.fs == u16_of(e, s.subrange(62, 64))
    &&& c.gs == u16_of(e, s.subrange(64, 66))
    &&& c.ss == u16_of(e, s.subrange(66, 68))
    &&& c.eflags == u32_of(e, s.subrange(68, 72))
    &&& c.dr0 == u64_of(e, s.subrange(72, 80))
    &&& c.dr1 == u64_of(e, s.subrange(80, 88))
    &&& c.dr2 == u64_of(e, s.subrange(88, 96))
    &&& c.dr3 == u64_of(e, s.subrange(96, 104))
    &&& c.dr6 == u64_of(e, s.subrange(104, 112))
    &&& c.dr7 == u64_of(e, s.subrange(112, 120))
    &&& c.rax == u64_of(e, s.subrange(120, 128))
    &&& c.rcx == u64_of(e, s.subrange(128, 136))
    &&& c.rdx == u64_of(e, s.subrange(136, 144))
    &&& c.rbx == u64_of(e, s.subrange(144, 152))
    &&& c.rsp == u64_of(e, s.subrange(152, 160))
    &&& c.rbp == u64_of(e, s.subrange(160, 168))
    &&& c.rsi == u64_of(e, s.subrange(168, 176))
    &&& c.rdi == u64_of(e, s.subrange(176, 184))
    &&& c.r8 == u64_of(e, s.subrange(184, 192))
    &&& c.r9 == u64_of(e, s.subrange(192, 200))
    &&& c.r10 == u64_of(e, s.subrange(200, 208))
    &&& c.r11 == u64_of(e, s.subrange(208, 216))
    &&& c.r12 == u64_of(e, s.subrange(216, 224))
    &&& c.r13 == u64_of(e, s.subrange(224, 232))
    &&& c.r14 == u64_of(e, s.subrange(232, 240))
    &&& c.r15 == u64_of(e, s.subrange(240, 248))
    &&& c.rip == u64_of(e, s.subrange(248, 256))
    &&& c.float_save@ == s.subrange(256, 768)
    &&& c.vector_register@ == s.subrange(768, 1184)
    &&& c.vector_control == u64_of(e, s.subrange(1184, 1192))
    &&& c.debug_control == u64_of(e, s.subrange(1192, 1200))
    &&& c.last_branch_to_rip == u64_of(e, s.subrange(1200, 1208))
    &&& c.last_branch_from_rip == u64_of(e, s.subrange(1208, 1216))
    &&& c.last_exception_to_rip == u64_of(e, s.subrange(1216, 1224))
    &&& c.last_exception_from_rip == u64_of(e, s.subrange(1224, 1232))
}

/// Decode an x86-64 context record from the start of `bytes`.
/// Fails exactly when the buffer is shorter than the record.
pub fn read_context_amd64(bytes: &[u8], e: Endianness) -> (r: Option<CONTEXT_AMD64>)
    ensures
        match r {
            Option::Some(c) => bytes@.len() >= CONTEXT_AMD64_SIZE && amd64_decodes(bytes@, e, c),
            Option::None => bytes@.len() < CONTEXT_AMD64_SIZE,
        },
{
    if bytes.len() < CONTEXT_AMD64_SIZE {
        return Option::None;
    }
    let mut cur = Cursor::new(bytes);
    let p1_home = cur.read_u64(e).unwrap();
    let p2_home = cur.read_u64(e).unwrap();
    let p3_home = cur.read_u64(e).unwrap();
    let p4_home = cur.read_u64(e).unwrap();
    let p5_home = cur.read_u64(e).unwrap();
    let p6_home = cur.read_u64(e).unwrap();
    let context_flags = cur.read_u32(e).unwrap();
    let mx_csr = cur.read_u32(e).unwrap();
    let cs = cur.read_u16(e).unwrap();
    let ds = cur.read_u16(e).unwrap();
    let es = cur.read_u16(e).unwrap();
    let fs = cur.read_u16(e).unwrap();
    let gs = cur.read_u16(e).unwrap();
    let ss = cur.read_u16(e).unwrap();
    let eflags = cur.read_u32(e).unwrap();
    let dr0 = cur.read_u64(e).unwrap();
    let dr1 = cur.read_u64(e).unwrap();
    let dr2 = cur.read_u64(e).unwrap();
    let dr3 = cur.read_u64(e).unwrap();
    let dr6 = cur.read_u64(e).unwrap();
    let dr7 = cur.read_u64(e).unwrap();
    let rax = cur.read_u64(e).unwrap();
    let rcx = cur.read_u64(e).unwrap();
    let rdx = cur.read_u64(e).unwrap();
    let rbx = cur.read_u64(e).unwrap();
    let rsp = cur.read_u64(e).unwrap();
    let rbp = cur.read_u64(e).unwrap();
    let rsi = cur.read_u64(e).unwrap();
    let rdi = cur.read_u64(e).unwrap();
    let r8 = cur.read_u64(e).unwrap();
    let r9 = cur.read_u64(e).unwrap();
    let r10 = cur.read_u64(e).unwrap();
    let r11 = cur.read_u64(e).unwrap();
    let r12 = cur.read_u64(e).unwrap();
    let r13 = cur.read_u64(e).unwrap();
    let r14 = cur.read_u64(e).unwrap();
    let r15 = cur.read_u64(e).unwrap();
    let rip = cur.read_u64(e).unwrap();
    let float_save = vstd::slice::slice_to_vec(cur.read_bytes(512).unwrap());
    let vector_register = vstd::slice::slice_to_vec(cur.read_bytes(416).unwrap());
    let vector_control = cur.read_u64(e).unwrap();
    let debug_control = cur.read_u64(e).unwrap();
    let last_branch_to_rip = cur.read_u64(e).unwrap();
    let last_branch_from_rip = cur.read_u64(e).unwrap();
    let last_exception_to_rip = cur.read_u64(e).unwrap();
    let last_exception_from_rip = cur.read_u64(e).unwrap();
    Option::Some(CONTEXT_AMD64 {
        p1_home,
        p2_home,
        p3_home,
        p4_home,
        p5_home,
        p6_home,
        context_flags,
        mx_csr,
        cs,
        ds,
        es,
        fs,
        gs,
        ss,
        eflags,
        dr0,
        dr1,
        dr2,
        dr3,
        dr6,
        dr7,
        rax,
        rcx,
        rdx,
        rbx,
        rsp,
        rbp,
        rsi,
        rdi,
        r8,
        r9,
        r10,
        r11,
        r12,
        r13,
        r14,
        r15,
        rip,
        float_save,
        vector_register,
        vector_control,
        debug_control,
        last_branch_to_rip,
        last_branch_from_rip,
        last_exception_to_rip,
        last_exception_from_rip,
    })
}

/// Floating-point save area of an ARM context.
#[allow(non_camel_case_types)]
#[derive(Debug, Clone, PartialEq)]
pub struct FLOATING_SAVE_AREA_ARM {
    pub fpscr: u64,
    pub regs: Vec<u64>,
    pub extra: Vec<u32>,
}

impl FLOATING_SAVE_AREA_ARM {
    /// The register areas hold exactly their layout-defined counts.
    pub open spec fn wf(self) -> bool {
        &&& self.regs@.len() == 32
        &&& self.extra@.len() == 8
    }
}

/// An ARM (32-bit) CPU context.
#[allow(non_camel_case_types)]
#[derive(Debug, Clone, PartialEq)]
pub struct CONTEXT_ARM {
    pub context_flags: u32,
    pub iregs: Vec<u32>,
    pub cpsr: u32,
    pub float_save: FLOATING_SAVE_AREA_ARM,
}

impl CONTEXT_ARM {
    /// Sixteen integer registers and a well-formed save area.
    pub open spec fn wf(self) -> bool {
        &&& self.iregs@.len() == 16
        &&& self.float_save.wf()
    }
}

/// Whether `c` holds exactly the fields of the ARM context record
/// stored at the start of `s` in byte order `e`.
pub open spec fn arm_decodes(s: Seq<u8>, e: Endianness, c: CONTEXT_ARM) -> bool {
    &&& c.wf()
    &&& c.context_flags == u32_of(e, s.subrange(0, 4))
    &&& forall|i: int| 0 <= i < 16 ==> c.iregs@[i] == u32_of(e, s.subrange(4 + 4 * i, 4 + 4 * i + 4))
    &&& c.cpsr == u32_of(e, s.subrange(68, 72))
    &&& c.float_save.fpscr == u64_of(e, s.subrange(72, 80))
    &&& forall|i: int|
        0 <= i < 32 ==> c.float_save.regs@[i] == u64_of(e, s.subrange(80 + 8 * i, 80 + 8 * i + 8))
    &&& forall|i: int|
        0 <= i < 8 ==> c.float_save.extra@[i] == u32_of(
            e,
            s.subrange(336 + 4 * i, 336 + 4 * i + 4),
        )
}

/// Decode an ARM context record from the start of `bytes`.
/// Fails exactly when the buffer is shorter than the record.
pub fn read_context_arm(bytes: &[u8], e: Endianness) -> (r: Option<CONTEXT_ARM>)
    ensures
        match r {
            Option::Some(c) => bytes@.len() >= CONTEXT_ARM_SIZE && arm_decodes(bytes@, e, c),
            Option::None => bytes@.len() < CONTEXT_ARM_SIZE,
        },
{
    if bytes.len() < CONTEXT_ARM_SIZE {
        return Option::None;
    }
    let mut cur = Cursor::new(bytes);
    let context_flags = cur.read_u32(e).unwrap();
    let iregs = read_u32_array(&mut cur, e, 16).unwrap();
    let cpsr = cur.read_u32(e).unwrap();
    let fpscr = cur.read_u64(e).unwrap();
    let regs = read_u64_array(&mut cur, e, 32).unwrap();
    let extra = read_u32_array(&mut cur, e, 8).unwrap();
    Option::Some(CONTEXT_ARM {
        context_flags,
        iregs,
        cpsr,
        float_save: FLOATING_SAVE_AREA_ARM { fpscr, regs, extra },
    })
}

/// Floating-point save area of an ARM64 context.
#[allow(non_camel_case_types)]
#[derive(Debug, Clone, PartialEq)]
pub struct FLOATING_SAVE_AREA_ARM64 {
    pub regs: Vec<u128>,
    pub fpcr: u32,
    pub fpsr: u32,
}

impl FLOATING_SAVE_AREA_ARM64 {
    /// Thirty-two vector registers.
    pub open spec fn wf(self) -> bool {
        self.regs@.len() == 32
    }
}

/// An ARM64 CPU context in the standardized layout.
#[allow(non_camel_case_types)]
#[derive(Debug, Clone, PartialEq)]
pub struct CONTEXT_ARM64 {
    pub context_flags: u32,
    pub cpsr: u32,
    pub iregs: Vec<u64>,
    pub pc: u64,
    pub float_save: FLOATING_SAVE_AREA_ARM64,
    pub bcr: Vec<u32>,
    pub bvr: Vec<u64>,
    pub wcr: Vec<u32>,
    pub wvr: Vec<u64>,
}

impl CONTEXT_ARM64 {
    /// Register and debug areas hold exactly their layout-defined counts.
    pub open spec fn wf(self) -> bool {
        &&& self.iregs@.len() == 32
        &&& self.float_save.wf()
        &&& self.bcr@.len() == 8
        &&& self.bvr@.len() == 8
        &&& self.wcr@.len() == 2
        &&& self.wvr@.len() == 2
    }
}

/// Whether `c` holds exactly the fields of the ARM64 context record
/// stored at the start of `s` in byte order `e`.
pub open spec fn arm64_decodes(s: Seq<u8>, e: Endianness, c: CONTEXT_ARM64) -> bool {
    &&& c.wf()
    &&& c.context_flags == u32_of(e, s.subrange(0, 4))
    &&& c.cpsr == u32_of(e, s.subrange(4, 8))
    &&& forall|i: int| 0 <= i < 32 ==> c.iregs@[i] == u64_of(e, s.subrange(8 + 8 * i, 8 + 8 * i + 8))
    &&& c.pc == u64_of(e, s.subrange(264, 272))
    &&& forall|i: int|
        0 <= i < 32 ==> c.float_save.regs@[i] == u128_of(
            e,
            s.subrange(272 + 16 * i, 272 + 16 * i + 16),
        )
    &&& c.float_save.fpcr == u32_of(e, s.subrange(784, 788))
    &&& c.float_save.fpsr == u32_of(e, s.subrange(788, 792))
    &&& forall|i: int| 0 <= i < 8 ==> c.bcr@[i] == u32_of(e, s.subrange(792 + 4 * i, 792 + 4 * i + 4))
    &&& forall|i: int| 0 <= i < 8 ==> c.bvr@[i] == u64_of(e, s.subrange(824 + 8 * i, 824 + 8 * i + 8))
    &&& forall|i: int| 0 <= i < 2 ==> c.wcr@[i] == u32_of(e, s.subrange(888 + 4 * i, 888 + 4 * i + 4))
    &&& forall|i: int| 0 <= i < 2 ==> c.wvr@[i] == u64_of(e, s.subrange(896 + 8 * i, 896 + 8 * i + 8))
}

/// Decode an ARM64 context record from the start of `bytes`.
/// Fails exactly when the buffer is shorter than the record.
pub fn read_context_arm64(bytes: &[u8], e: Endianness) -> (r: Option<CONTEXT_ARM64>)
    ensures
        match r {
            Option::Some(c) => bytes@.len() >= CONTEXT_ARM64_SIZE && arm64_decodes(bytes@, e, c),
            Option::None => bytes@.len() < CONTEXT_ARM64_SIZE,
        },
{
    if bytes.len() < CONTEXT_ARM64_SIZE {
        return Option::None;
    }
    let mut cur = Cursor::new(bytes);
    let context_flags = cur.read_u32(e).unwrap();
    let cpsr = cur.read_u32(e).unwrap();
    let iregs = read_u64_array(&mut cur, e, 32).unwrap();
    let pc = cur.read_u64(e).unwrap();
    let regs = read_u128_array(&mut cur, e, 32).unwrap();
    let fpcr = cur.read_u32(e).unwrap();
    let fpsr = cur.read_u32(e).unwrap();
    let bcr = read_u32_array(&mut cur, e, 8).unwrap();
    let bvr = read_u64_array(&mut cur, e, 8).unwrap();
    let wcr = read_u32_array(&mut cur, e, 2).unwrap();
    let wvr = read_u64_array(&mut cur, e, 2).unwrap();
    Option::Some(CONTEXT_ARM64 {
        context_flags,
        cpsr,
        iregs,
        pc,
        float_save: FLOATING_SAVE_AREA_ARM64 { regs, fpcr, fpsr },
        bcr,
        bvr,
        wcr,
        wvr,
    })
}

/// Floating-point save area of the older ARM64 context layout.
#[allow(non_camel_case_types)]
#[derive(Debug, Clone, PartialEq)]
pub struct FLOATING_SAVE_AREA_ARM64_OLD {
    pub fpsr: u32,
    pub fpcr: u32,
    pub regs: Vec<u128>,
}

impl FLOATING_SAVE_AREA_ARM64_OLD {
    /// Thirty-two vector registers.
    pub open spec fn wf(self) -> bool {
        self.regs@.len() == 32
    }
}

/// An ARM64 CPU context in the older Breakpad layout, recognised by
/// its size because it carries no CPU bits at a fixed offset shared
/// with the other layouts.
#[allow(non_camel_case_types)]
#[derive(Debug, Clone, PartialEq)]
pub struct CONTEXT_ARM64_OLD {
    pub context_flags: u64,
    pub iregs: Vec<u64>,
    pub pc: u64,
    pub cpsr: u32,
    pub float_save: FLOATING_SAVE_AREA_ARM64_OLD,
}

impl CONTEXT_ARM64_OLD {
    /// Thirty-two integer registers and a well-formed save area.
    pub open spec fn wf(self) -> bool {
        &&& self.iregs@.len() == 32
        &&& self.float_save.wf()
    }
}

/// Whether `c` holds exactly the fields of the older ARM64 context
/// record stored at the start of `s` in byte order `e`.
pub open spec fn arm64_old_decodes(s: Seq<u8>, e: Endianness, c: CONTEXT_ARM64_OLD) -> bool {
    &&& c.wf()
    &&& c.context_flags == u64_of(e, s.subrange(0, 8))
    &&& forall|i: int| 0 <= i < 32 ==> c.iregs@[i] == u64_of(e, s.subrange(8 + 8 * i, 8 + 8 * i + 8))
    &&& c.pc == u64_of(e, s.subrange(264, 272))
    &&& c.cpsr == u32_of(e, s.subrange(272, 276))
    &&& c.float_save.fpsr == u32_of(e, s.subrange(276, 280))
    &&& c.float_save.fpcr == u32_of(e, s.subrange(280, 284))
    &&& forall|i: int|
        0 <= i < 32 ==> c.float_save.regs@[i] == u128_of(
            e,
            s.subrange(284 + 16 * i, 284 + 16 * i + 16),
        )
}

/// Decode an older-layout ARM64 context record from the start of
/// `bytes`. Fails exactly when the buffer is shorter than the record.
pub fn read_context_arm64_old(bytes: &[u8], e: Endianness) -> (r: Option<CONTEXT_ARM64_OLD>)
    ensures
        match r {
            Option::Some(c) => bytes@.len() >= CONTEXT_ARM64_OLD_SIZE && arm64_old_decodes(
                bytes@,
                e,
                c,
            ),
            Option::None => bytes@.len() < CONTEXT_ARM64_OLD_SIZE,
        },
{
    if bytes.len() < CONTEXT_ARM64_OLD_SIZE {
        return Option::None;
    }
    let mut cur = Cursor::new(bytes);
    let context_flags = cur.read_u64(e).unwrap();
    let iregs = read_u64_array(&mut cur, e, 32).unwrap();
    let pc = cur.read_u64(e).unwrap();
    let cpsr = cur.read_u32(e).unwrap();
    let fpsr = cur.read_u32(e).unwrap();
    let fpcr = cur.read_u32(e).unwrap();
    let regs = read_u128_array(&mut cur, e, 32).unwrap();
    Option::Some(CONTEXT_ARM64_OLD {
        context_flags,
        iregs,
        pc,
        cpsr,
        float_save: FLOATING_SAVE_AREA_ARM64_OLD { fpsr, fpcr, regs },
    })
}

/// A PowerPC (32-bit) CPU context. The floating-point and vector save
/// areas are carried as raw bytes.
#[allow(non_camel_case_types)]
#[derive(Debug, Clone, PartialEq)]
pub struct CONTEXT_PPC {
    pub context_flags: u32,
    pub srr0: u32,
    pub srr1: u32,
    pub gpr: Vec<u32>,
    pub cr: u32,
    pub xer: u32,
    pub lr: u32,
    pub ctr: u32,
    pub mq: u32,
    pub vrsave: u32,
    pub float_save: Vec<u8>,
    pub vector_save: Vec<u8>,
}

impl CONTEXT_PPC {
    /// Register and save areas hold exactly their layout-defined counts.
    pub open spec fn wf(self) -> bool {
        &&& self.gpr@.len() == 32
        &&& self.float_save@.len() == 264
        &&& self.vector_save@.len() == 576
    }
}

/// Whether `c` holds exactly the fields of the PPC context record
/// stored at the start of `s` in byte order `e`.
pub open spec fn ppc_decodes(s: Seq<u8>, e: Endianness, c: CONTEXT_PPC) -> bool {
    &&& c.wf()
    &&& c.context_flags == u32_of(e, s.subrange(0, 4))
    &&& c.srr0 == u32_of(e, s.subrange(4, 8))
    &&& c.srr1 == u32_of(e, s.subrange(8, 12))
    &&& forall|i: int| 0 <= i < 32 ==> c.gpr@[i] == u32_of(e, s.subrange(12 + 4 * i, 12 + 4 * i + 4))
    &&& c.cr == u32_of(e, s.subrange(140, 144))
    &&& c.xer == u32_of(e, s.subrange(144, 148))
    &&& c.lr == u32_of(e, s.subrange(148, 152))
    &&& c.ctr == u32_of(e, s.subrange(152, 156))
    &&& c.mq == u32_of(e, s.subrange(156, 160))
    &&& c.vrsave == u32_of(e, s.subrange(160, 164))
    &&& c.float_save@ == s.subrange(164, 428)
    &&& c.vector_save@ == s.subrange(428, 1004)
}

/// Decode a PPC context record from the start of `bytes`.
/// Fails exactly when the buffer is shorter than the record.
pub fn read_context_ppc(bytes: &[u8], e: Endianness) -> (r: Option<CONTEXT_PPC>)
    ensures
        match r {
            Option::Some(c) => bytes@.len() >= CONTEXT_PPC_SIZE && ppc_decodes(bytes@, e, c),
            Option::None => bytes@.len() < CONTEXT_PPC_SIZE,
        },
{
    if bytes.len() < CONTEXT_PPC_SIZE {
        return Option::None;
    }
    let mut cur = Cursor::new(bytes);
    let context_flags = cur.read_u32(e).unwrap();
    let srr0 = cur.read_u32(e).unwrap();
    let srr1 = cur.read_u32(e).unwrap();
    let gpr = read_u32_array(&mut cur, e, 32).unwrap();
    let cr = cur.read_u32(e).unwrap();
    let xer = cur.read_u32(e).unwrap();
    let lr = cur.read_u32(e).unwrap();
    let ctr = cur.read_u32(e).unwrap();
    let mq = cur.read_u32(e).unwrap();
    let vrsave = cur.read_u32(e).unwrap();
    let float_save = vstd::slice::slice_to_vec(cur.read_bytes(264).unwrap());
    let vector_save = vstd::slice::slice_to_vec(cur.read_bytes(576).unwrap());
    Option::Some(CONTEXT_PPC {
        context_flags,
        srr0,
        srr1,
        gpr,
        cr,
        xer,
        lr,
        ctr,
        mq,
        vrsave,
        float_save,
        vector_save,
    })
}

/// A PowerPC64 CPU context. The floating-point and vector save areas
/// are carried as raw bytes.
#[allow(non_camel_case_types)]
#[derive(Debug, Clone, PartialEq)]
pub struct CONTEXT_PPC64 {
    pub context_flags: u64,
    pub srr0: u64,
    pub srr1: u64,
    pub gpr: Vec<u64>,
    pub cr: u64,
    pub xer: u64,
    pub lr: u64,
    pub ctr: u64,
    pub vrsave: u64,
    pub float_save: Vec<u8>,
    pub vector_save: Vec<u8>,
}

impl CONTEXT_PPC64 {
    /// Register and save areas hold exactly their layout-defined counts.
    pub open spec fn wf(self) -> bool {
        &&& self.gpr@.len() == 32
        &&& self.float_save@.len() == 264
        &&& self.vector_save@.len() == 576
    }
}

/// Whether `c` holds exactly the fields of the PPC64 context record
/// stored at the start of `s` in byte order `e`.
pub open spec fn ppc64_decodes(s: Seq<u8>, e: Endianness, c: CONTEXT_PPC64) -> bool {
    &&& c.wf()
    &&& c.context_flags == u64_of(e, s.subrange(0, 8))
    &&& c.srr0 == u64_of(e, s.subrange(8, 16))
    &&& c.srr1 == u64_of(e, s.subrange(16, 24))
    &&& forall|i: int| 0 <= i < 32 ==> c.gpr@[i] == u64_of(e, s.subrange(24 + 8 * i, 24 + 8 * i + 8))
    &&& c.cr == u64_of(e, s.subrange(280, 288))
    &&& c.xer == u64_of(e, s.subrange(288, 296))
    &&& c.lr == u64_of(e, s.subrange(296, 304))
    &&& c.ctr == u64_of(e, s.subrange(304, 312))
    &&& c.vrsave == u64_of(e, s.subrange(312, 320))
    &&& c.float_save@ == s.subrange(320, 584)
    &&& c.vector_save@ == s.subrange(584, 1160)
}

/// Decode a PPC64 context record from the start of `bytes`.
/// Fails exactly when the buffer is shorter than the record.
pub fn read_context_ppc64(bytes: &[u8], e: Endianness) -> (r: Option<CONTEXT_PPC64>)
    ensures
        match r {
            Option::Some(c) => bytes@.len() >= CONTEXT_PPC64_SIZE && ppc64_decodes(bytes@, e, c),
            Option::None => bytes@.len() < CONTEXT_PPC64_SIZE,
        },
{
    if bytes.len() < CONTEXT_PPC64_SIZE {
        return Option::None;
    }
    let mut cur = Cursor::new(bytes);
    let context_flags = cur.read_u64(e).unwrap();
    let srr0 = cur.read_u64(e).unwrap();
    let srr1 = cur.read_u64(e).unwrap();
    let gpr = read_u64_array(&mut cur, e, 32).unwrap();
    let cr = cur.read_u64(e).unwrap();
    let xer = cur.read_u64(e).unwrap();
    let lr = cur.read_u64(e).unwrap();
    let ctr = cur.read_u64(e).unwrap();
    let vrsave = cur.read_u64(e).unwrap();
    let float_save = vstd::slice::slice_to_vec(cur.read_bytes(264).unwrap());
    let vector_save = vstd::slice::slice_to_vec(cur.read_bytes(576).unwrap());
    Option::Some(CONTEXT_PPC64 {
        context_flags,
        srr0,
        srr1,
        gpr,
        cr,
        xer,
        lr,
        ctr,
        vrsave,
        float_save,
        vector_save,
    })
}

/// A SPARC CPU context. The floating-point save area is carried as raw
/// bytes.
#[allow(non_camel_case_types)]
#[derive(Debug, Clone, PartialEq)]
pub struct CONTEXT_SPARC {
    pub context_flags: u32,
    pub flag_pad: u32,
    pub g_r: Vec<u64>,
    pub ccr: u64,
    pub pc: u64,
    pub npc: u64,
    pub y: u64,
    pub asi: u64,
    pub fprs: u64,
    pub float_save: Vec<u8>,
}

impl CONTEXT_SPARC {
    /// Register and save areas hold exactly their layout-defined counts.
    pub open spec fn wf(self) -> bool {
        &&& self.g_r@.len() == 32
        &&& self.float_save@.len() == 272
    }
}

/// Whether `c` holds exactly the fields of the SPARC context record
/// stored at the start of `s` in byte order `e`.
pub open spec fn sparc_decodes(s: Seq<u8>, e: Endianness, c: CONTEXT_SPARC) -> bool {
    &&& c.wf()
    &&& c.context_flags == u32_of(e, s.subrange(0, 4))
    &&& c.flag_pad == u32_of(e, s.subrange(4, 8))
    &&& forall|i: int| 0 <= i < 32 ==> c.g_r@[i] == u64_of(e, s.subrange(8 + 8 * i, 8 + 8 * i + 8))
    &&& c.ccr == u64_of(e, s.subrange(264, 272))
    &&& c.pc == u64_of(e, s.subrange(272, 280))
    &&& c.npc == u64_of(e, s.subrange(280, 288))
    &&& c.y == u64_of(e, s.subrange(288, 296))
    &&& c.asi == u64_of(e, s.subrange(296, 304))
    &&& c.fprs == u64_of(e, s.subrange(304, 312))
    &&& c.float_save@ == s.subrange(312, 584)
}

/// Decode a SPARC context record from the start of `bytes`.
/// Fails exactly when the buffer is shorter than the record.
pub fn read_context_sparc(bytes: &[u8], e: Endianness) -> (r: Option<CONTEXT_SPARC>)
    ensures
        match r {
            Option::Some(c) => bytes@.len() >= CONTEXT_SPARC_SIZE && sparc_decodes(bytes@, e, c),
            Option::None => bytes@.len() < CONTEXT_SPARC_SIZE,
        },
{
    if bytes.len() < CONTEXT_SPARC_SIZE {
        return Option::None;
    }
    let mut cur = Cursor::new(bytes);
    let context_flags = cur.read_u32(e).unwrap();
    let flag_pad = cur.read_u32(e).unwrap();
    let g_r = read_u64_array(&mut cur, e, 32).unwrap();
    let ccr = cur.read_u64(e).unwrap();
    let pc = cur.read_u64(e).unwrap();
    let npc = cur.read_u64(e).unwrap();
    let y = cur.read_u64(e).unwrap();
    let asi = cur.read_u64(e).unwrap();
    let fprs = cur.read_u64(e).unwrap();
    let float_save = vstd::slice::slice_to_vec(cur.read_bytes(272).unwrap());
    Option::Some(CONTEXT_SPARC {
        context_flags,
        flag_pad,
        g_r,
        ccr,
        pc,
        npc,
        y,
        asi,
        fprs,
        float_save,
    })
}

/// A MIPS CPU context. The floating-point save area is carried as raw
/// bytes.
#[allow(non_camel_case_types)]
#[derive(Debug, Clone, PartialEq)]
pub struct CONTEXT_MIPS {
    pub context_flags: u32,
    pub flag_pad: u32,
    pub iregs: Vec<u64>,
    pub mdhi: u64,
    pub mdlo: u64,
    pub hi: Vec<u32>,
    pub lo: Vec<u32>,
    pub dsp_control: u32,
    pub dsp_pad: u32,
    pub epc: u64,
    pub badvaddr: u64,
    pub status: u32,
    pub cause: u32,
    pub float_save: Vec<u8>,
}

impl CONTEXT_MIPS {
    /// Register and save areas hold exactly their layout-defined counts.
    pub open spec fn wf(self) -> bool {
        &&& self.iregs@.len() == 32
        &&& self.hi@.len() == 3
        &&& self.lo@.len() == 3
        &&& self.float_save@.len() == 264
    }
}

/// Whether `c` holds exactly the fields of the MIPS context record
/// stored at the start of `s` in byte order `e`.
pub open spec fn mips_decodes(s: Seq<u8>, e: Endianness, c: CONTEXT_MIPS) -> bool {
    &&& c.wf()
    &&& c.context_flags == u32_of(e, s.subrange(0, 4))
    &&& c.flag_pad == u32_of(e, s.subrange(4, 8))
    &&& forall|i: int| 0 <= i < 32 ==> c.iregs@[i] == u64_of(e, s.subrange(8 + 8 * i, 8 + 8 * i + 8))
    &&& c.mdhi == u64_of(e, s.subrange(264, 272))
    &&& c.mdlo == u64_of(e, s.subrange(272, 280))
    &&& forall|i: int| 0 <= i < 3 ==> c.hi@[i] == u32_of(e, s.subrange(280 + 4 * i, 280 + 4 * i + 4))
    &&& forall|i: int| 0 <= i < 3 ==> c.lo@[i] == u32_of(e, s.subrange(292 + 4 * i, 292 + 4 * i + 4))
    &&& c.dsp_control == u32_of(e, s.subrange(304, 308))
    &&& c.dsp_pad == u32_of(e, s.subrange(308, 312))
    &&& c.epc == u64_of(e, s.subrange(312, 320))
    &&& c.badvaddr == u64_of(e, s.subrange(320, 328))
    &&& c.status == u32_of(e, s.subrange(328, 332))
    &&& c.cause == u32_of(e, s.subrange(332, 336))
    &&& c.float_save@ == s.subrange(336, 600)
}

/// Decode a MIPS context record from the start of `bytes`.
/// Fails exactly when the buffer is shorter than the record.
pub fn read_context_mips(bytes: &[u8], e: Endianness) -> (r: Option<CONTEXT_MIPS>)
    ensures
        match r {
            Option::Some(c) => bytes@.len() >= CONTEXT_MIPS_SIZE && mips_decodes(bytes@, e, c),
            Option::None => bytes@.len() < CONTEXT_MIPS_SIZE,
        },
{
    if bytes.len() < CONTEXT_MIPS_SIZE {
        return Option::None;
    }
    let mut cur = Cursor::new(bytes);
    let context_flags = cur.read_u32(e).unwrap();
    let flag_pad = cur.read_u32(e).unwrap();
    let iregs = read_u64_array(&mut cur, e, 32).unwrap();
    let mdhi = cur.read_u64(e).unwrap();
    let mdlo = cur.read_u64(e).unwrap();
    let hi = read_u32_array(&mut cur, e, 3).unwrap();
    let lo = read_u32_array(&mut cur, e, 3).unwrap();
    let dsp_control = cur.read_u32(e).unwrap();
    let dsp_pad = cur.read_u32(e).unwrap();
    let epc = cur.read_u64(e).unwrap();
    let badvaddr = cur.read_u64(e).unwrap();
    let status = cur.read_u32(e).unwrap();
    let cause = cur.read_u32(e).unwrap();
    let float_save = vstd::slice::slice_to_vec(cur.read_bytes(264).unwrap());
    Option::Some(CONTEXT_MIPS {
        context_flags,
        flag_pad,
        iregs,
        mdhi,
        mdlo,
        hi,
        lo,
        dsp_control,
        dsp_pad,
        epc,
        badvaddr,
        status,
        cause,
        float_save,
    })
}

} // verus!
