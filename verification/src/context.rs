//! CPU contexts.
//!
//! A context record carries the CPU register state of one thread. Nine
//! architecture-specific layouts are understood; a record is decoded by
//! size (for the layouts that carry no flag word at a fixed shared
//! offset) or by the CPU bits of its leading flag word. The decoded
//! record offers a uniform, name-keyed register interface through
//! [`CpuContext`].

use vstd::prelude::*;
use vstd::pervasive::VecAdditionalExecFns;
use crate::Endianness;
use crate::format::{
    CONTEXT_X86, CONTEXT_AMD64, CONTEXT_ARM, CONTEXT_ARM64, CONTEXT_ARM64_OLD, CONTEXT_PPC,
    CONTEXT_PPC64, CONTEXT_SPARC, CONTEXT_MIPS, CONTEXT_X86_SIZE, CONTEXT_AMD64_SIZE,
    CONTEXT_ARM_SIZE, CONTEXT_ARM64_SIZE, CONTEXT_ARM64_OLD_SIZE, CONTEXT_PPC_SIZE,
    CONTEXT_PPC64_SIZE, CONTEXT_SPARC_SIZE, CONTEXT_MIPS_SIZE, CONTEXT_X86_FLAG,
    CONTEXT_AMD64_FLAG, CONTEXT_ARM_FLAG, CONTEXT_ARM64_FLAG, CONTEXT_ARM64_OLD_FLAG,
    CONTEXT_PPC_FLAG, CONTEXT_PPC64_FLAG, CONTEXT_SPARC_FLAG, CONTEXT_MIPS_FLAG,
    spec_cpu_flags, cpu_flags, x86_decodes, amd64_decodes, arm_decodes, arm64_decodes,
    arm64_old_decodes, ppc_decodes, ppc64_decodes, sparc_decodes, mips_decodes,
    read_context_x86, read_context_amd64, read_context_arm, read_context_arm64,
    read_context_arm64_old, read_context_ppc, read_context_ppc64, read_context_sparc,
    read_context_mips,
};
use crate::text::{
    str_eq, hex_format, line_hex, indexed_line, indexed_lines, bytes_hex, push_line_hex,
    push_indexed_line, push_indexed_line_u128,
};

verus! {

/// Which registers of a context hold trustworthy values.
///
/// At decode time every register is valid; stack unwinding may later
/// narrow the set to the registers it could recover.
#[derive(Clone, Debug, PartialEq)]
pub enum MinidumpContextValidity {
    /// All registers are valid.
    All,
    /// Only the named registers are valid.
    Restricted(Vec<String>),
}

/// Whether some entry of `names` spells `name`.
pub open spec fn name_listed(names: Seq<String>, name: Seq<char>) -> bool {
    exists|i: int| 0 <= i < names.len() && #[trigger] names[i]@ == name
}

impl MinidumpContextValidity {
    /// Whether the named register is marked valid.
    pub open spec fn spec_allows(self, name: Seq<char>) -> bool {
        match self {
            MinidumpContextValidity::All => true,
            MinidumpContextValidity::Restricted(v) => name_listed(v@, name),
        }
    }

    /// Whether the named register is marked valid.
    pub fn allows(&self, reg: &str) -> (r: bool)
        ensures
            r == self.spec_allows(reg@),
    {
        match self {
            MinidumpContextValidity::All => true,
            MinidumpContextValidity::Restricted(v) => {
                let mut i: usize = 0;
                while i < v.len()
                    invariant
                        *self == MinidumpContextValidity::Restricted(*v),
                        i <= v@.len(),
                        forall|j: int| 0 <= j < i ==> v@[j]@ != reg@,
                    decreases v@.len() - i,
                {
                    if str_eq(v[i].as_str(), reg) {
                        proof {
                            assert(v@[i as int]@ == reg@);
                        }
                        return true;
                    }
                    i = i + 1;
                }
                false
            },
        }
    }
}

/// Errors encountered while reading a context record.
#[derive(Clone, Copy, Debug, PartialEq, Eq, Structural)]
pub enum ContextError {
    /// The record was shorter than its layout, or its flag word named
    /// a different architecture than its size promised.
    ReadFailure,
    /// The flag word named no supported architecture.
    UnknownCpuContext,
}

/// Generic over the specifics of a CPU context.
pub trait CpuContext: Sized {
    /// The word size of general-purpose registers in the context.
    type Register: Copy;

    /// The register file holds its layout-defined counts.
    spec fn wf_regs(&self) -> bool;

    /// The value of the named register; `None` when this architecture
    /// has no register of that name.
    spec fn spec_reg(&self, name: Seq<char>) -> Option<Self::Register>;

    /// The canonical name of the storage slot a register name denotes;
    /// distinct names may alias one slot.
    spec fn spec_canon(name: Seq<char>) -> Seq<char>;

    /// Both contexts agree outside the register slots.
    spec fn spec_same_frame(&self, other: &Self) -> bool;

    /// The named register's value as a natural number.
    spec fn spec_reg_nat(&self, name: Seq<char>) -> nat;

    /// Hexadecimal digits of this architecture's natural register width.
    spec fn spec_hex_digits() -> nat;

    /// The stack-pointer register name.
    spec fn spec_sp_name() -> Seq<char>;

    /// The instruction-pointer register name.
    spec fn spec_ip_name() -> Seq<char>;

    /// The ordered general-purpose register names.
    spec fn spec_names() -> Seq<Seq<char>>;

    /// Get the value of the register named `reg` from this CPU context
    /// if `valid` indicates that it has a valid value, otherwise return
    /// `None`.
    fn get_register(&self, reg: &str, valid: &MinidumpContextValidity) -> (r: Option<
        Self::Register,
    >)
        requires
            self.wf_regs(),
            self.spec_reg(reg@) is Some,
        ensures
            r == if valid.spec_allows(reg@) {
                self.spec_reg(reg@)
            } else {
                Option::<Self::Register>::None
            },
    ;

    /// Get a register value regardless of whether it is valid.
    fn get_register_always(&self, reg: &str) -> (r: Self::Register)
        requires
            self.wf_regs(),
            self.spec_reg(reg@) is Some,
        ensures
            Option::Some(r) == self.spec_reg(reg@),
    ;

    /// Set a register value, if a register of that name exists.
    ///
    /// Returns `None`, changing nothing, when the name is unknown.
    fn set_register(&mut self, reg: &str, val: Self::Register) -> (r: Option<()>)
        requires
            old(self).wf_regs(),
        ensures
            final(self).wf_regs(),
            match r {
                Option::Some(_) => {
                    &&& old(self).spec_reg(reg@) is Some
                    &&& final(self).spec_reg(reg@) == Option::Some(val)
                    &&& forall|n: Seq<char>|
                        old(self).spec_reg(n) is Some && Self::spec_canon(n) != Self::spec_canon(
                            reg@,
                        ) ==> #[trigger] final(self).spec_reg(n) == old(self).spec_reg(n)
                    &&& final(self).spec_same_frame(old(self))
                },
                Option::None => {
                    &&& old(self).spec_reg(reg@) is None
                    &&& *final(self) == *old(self)
                },
            },
    ;

    /// Gets a static version of the given register name, if it is one
    /// of this architecture's listed general-purpose registers.
    fn memoize_register(&self, reg: &str) -> (r: Option<&'static str>)
        ensures
            match r {
                Option::Some(s) => s@ == reg@ && Self::spec_names().contains(reg@),
                Option::None => !Self::spec_names().contains(reg@),
            },
    ;

    /// The value of `reg` formatted as zero-padded hexadecimal at the
    /// architecture's natural width.
    fn format_register(&self, reg: &str) -> (r: String)
        requires
            self.wf_regs(),
            self.spec_reg(reg@) is Some,
        ensures
            r@ == hex_format(self.spec_reg_nat(reg@), Self::spec_hex_digits()),
    ;

    /// The name of the stack pointer register.
    fn stack_pointer_register_name(&self) -> (r: &'static str)
        ensures
            r@ == Self::spec_sp_name(),
    ;

    /// The name of the instruction pointer register.
    fn instruction_pointer_register_name(&self) -> (r: &'static str)
        ensures
            r@ == Self::spec_ip_name(),
    ;
}

/// Find `reg` in an ordered name list, handing back the list's own
/// (static) copy of the name.
fn find_name(names: &Vec<&'static str>, reg: &str) -> (r: Option<&'static str>)
    ensures
        match r {
            Option::Some(s) => s@ == reg@ && exists|i: int|
                0 <= i < names@.len() && names@[i]@ == reg@,
            Option::None => forall|i: int| 0 <= i < names@.len() ==> names@[i]@ != reg@,
        },
{
    let mut i: usize = 0;
    while i < names.len()
        invariant
            i <= names@.len(),
            forall|j: int| 0 <= j < i ==> names@[j]@ != reg@,
        decreases names@.len() - i,
    {
        if str_eq(names[i], reg) {
            return Option::Some(names[i]);
        }
        i = i + 1;
    }
    Option::None
}

/// The ordered general-purpose register names of x86.
pub open spec fn x86_register_names() -> Seq<Seq<char>> {
    seq!["eip"@, "esp"@, "ebp"@, "ebx"@, "esi"@, "edi"@, "eax"@, "ecx"@, "edx"@, "efl"@]
}

/// General-purpose registers for x86, in display order.
pub fn x86_registers() -> (r: Vec<&'static str>)
    ensures
        r@.len() == x86_register_names().len(),
        forall|i: int| 0 <= i < r@.len() ==> r@[i]@ == #[trigger] x86_register_names()[i],
{
    let r: Vec<&'static str> = vec!["eip", "esp", "ebp", "ebx", "esi", "edi", "eax", "ecx", "edx", "efl"];
    r
}

impl CpuContext for CONTEXT_X86 {
    type Register = u32;

    open spec fn wf_regs(&self) -> bool {
        CONTEXT_X86::wf(*self)
    }

    open spec fn spec_reg(&self, name: Seq<char>) -> Option<u32> {
        if name == "eip"@ {
            Option::Some(self.eip)
        } else if name == "esp"@ {
            Option::Some(self.esp)
        } else if name == "ebp"@ {
            Option::Some(self.ebp)
        } else if name == "ebx"@ {
            Option::Some(self.ebx)
        } else if name == "esi"@ {
            Option::Some(self.esi)
        } else if name == "edi"@ {
            Option::Some(self.edi)
        } else if name == "eax"@ {
            Option::Some(self.eax)
        } else if name == "ecx"@ {
            Option::Some(self.ecx)
        } else if name == "edx"@ {
            Option::Some(self.edx)
        } else if name == "efl"@ {
            Option::Some(self.eflags)
        } else {
            Option::None
        }
    }

    open spec fn spec_canon(name: Seq<char>) -> Seq<char> {
        name
    }

    open spec fn spec_same_frame(&self, other: &Self) -> bool {
        &&& self.context_flags == other.context_flags
        &&& self.dr0 == other.dr0
        &&& self.dr1 == other.dr1
        &&& self.dr2 == other.dr2
        &&& self.dr3 == other.dr3
        &&& self.dr6 == other.dr6
        &&& self.dr7 == other.dr7
        &&& self.float_save == other.float_save
        &&& self.gs == other.gs
        &&& self.fs == other.fs
        &&& self.es == other.es
        &&& self.ds == other.ds
        &&& self.cs == other.cs
        &&& self.ss == other.ss
        &&& self.extended_registers == other.extended_registers
    }

    open spec fn spec_reg_nat(&self, name: Seq<char>) -> nat {
        match self.spec_reg(name) {
            Option::Some(v) => v as nat,
            Option::None => 0,
        }
    }

    open spec fn spec_hex_digits() -> nat {
        8
    }

    open spec fn spec_sp_name() -> Seq<char> {
        "esp"@
    }

    open spec fn spec_ip_name() -> Seq<char> {
        "eip"@
    }

    open spec fn spec_names() -> Seq<Seq<char>> {
        x86_register_names()
    }

    fn get_register(&self, reg: &str, valid: &MinidumpContextValidity) -> (r: Option<u32>) {
        if valid.allows(reg) {
            Option::Some(self.get_register_always(reg))
        } else {
            Option::None
        }
    }

    fn get_register_always(&self, reg: &str) -> (r: u32) {
        if str_eq(reg, "eip") {
            self.eip
        } else if str_eq(reg, "esp") {
            self.esp
        } else if str_eq(reg, "ebp") {
            self.ebp
        } else if str_eq(reg, "ebx") {
            self.ebx
        } else if str_eq(reg, "esi") {
            self.esi
        } else if str_eq(reg, "edi") {
            self.edi
        } else if str_eq(reg, "eax") {
            self.eax
        } else if str_eq(reg, "ecx") {
            self.ecx
        } else if str_eq(reg, "edx") {
            self.edx
        } else if str_eq(reg, "efl") {
            self.eflags
        } else {
            vstd::pervasive::unreached()
        }
    }

    fn set_register(&mut self, reg: &str, val: u32) -> (r: Option<()>) {
        if str_eq(reg, "eip") {
            self.eip = val;
        } else if str_eq(reg, "esp") {
            self.esp = val;
        } else if str_eq(reg, "ebp") {
            self.ebp = val;
        } else if str_eq(reg, "ebx") {
            self.ebx = val;
        } else if str_eq(reg, "esi") {
            self.esi = val;
        } else if str_eq(reg, "edi") {
            self.edi = val;
        } else if str_eq(reg, "eax") {
            self.eax = val;
        } else if str_eq(reg, "ecx") {
            self.ecx = val;
        } else if str_eq(reg, "edx") {
            self.edx = val;
        } else if str_eq(reg, "efl") {
            self.eflags = val;
        } else {
            return Option::None;
        }
        Option::Some(())
    }

    fn memoize_register(&self, reg: &str) -> (r: Option<&'static str>) {
        let names = x86_registers();
        find_name(&names, reg)
    }

    fn format_register(&self, reg: &str) -> (r: String) {
        let v = self.get_register_always(reg);
        crate::text::format_hex_u64(v as u64, 8)
    }

    fn stack_pointer_register_name(&self) -> (r: &'static str) {
        "esp"
    }

    fn instruction_pointer_register_name(&self) -> (r: &'static str) {
        "eip"
    }
}

/// The ordered general-purpose register names of x86-64.
pub open spec fn amd64_register_names() -> Seq<Seq<char>> {
    seq![
        "rax"@,
        "rdx"@,
        "rcx"@,
        "rbx"@,
        "rsi"@,
        "rdi"@,
        "rbp"@,
        "rsp"@,
        "r8"@,
        "r9"@,
        "r10"@,
        "r11"@,
        "r12"@,
        "r13"@,
        "r14"@,
        "r15"@,
        "rip"@,
    ]
}

/// General-purpose registers for x86-64, in display order.
pub fn amd64_registers() -> (r: Vec<&'static str>)
    ensures
        r@.len() == amd64_register_names().len(),
        forall|i: int| 0 <= i < r@.len() ==> r@[i]@ == #[trigger] amd64_register_names()[i],
{
    let r: Vec<&'static str> = vec![
        "rax",
        "rdx",
        "rcx",
        "rbx",
        "rsi",
        "rdi",
        "rbp",
        "rsp",
        "r8",
        "r9",
        "r10",
        "r11",
        "r12",
        "r13",
        "r14",
        "r15",
        "rip",
    ];
    r
}

impl CpuContext for CONTEXT_AMD64 {
    type Register = u64;

    open spec fn wf_regs(&self) -> bool {
        CONTEXT_AMD64::wf(*self)
    }

    open spec fn spec_reg(&self, name: Seq<char>) -> Option<u64> {
        if name == "rax"@ {
            Option::Some(self.rax)
        } else if name == "rdx"@ {
            Option::Some(self.rdx)
        } else if name == "rcx"@ {
            Option::Some(self.rcx)
        } else if name == "rbx"@ {
            Option::Some(self.rbx)
        } else if name == "rsi"@ {
            Option::Some(self.rsi)
        } else if name == "rdi"@ {
            Option::Some(self.rdi)
        } else if name == "rbp"@ {
            Option::Some(self.rbp)
        } else if name == "rsp"@ {
            Option::Some(self.rsp)
        } else if name == "r8"@ {
            Option::Some(self.r8)
        } else if name == "r9"@ {
            Option::Some(self.r9)
        } else if name == "r10"@ {
            Option::Some(self.r10)
        } else if name == "r11"@ {
            Option::Some(self.r11)
        } else if name == "r12"@ {
            Option::Some(self.r12)
        } else if name == "r13"@ {
            Option::Some(self.r13)
        } else if name == "r14"@ {
            Option::Some(self.r14)
        } else if name == "r15"@ {
            Option::Some(self.r15)
        } else if name == "rip"@ {
            Option::Some(self.rip)
        } else {
            Option::None
        }
    }

    open spec fn spec_canon(name: Seq<char>) -> Seq<char> {
        name
    }

    open spec fn spec_same_frame(&self, other: &Self) -> bool {
        &&& self.p1_home == other.p1_home
        &&& self.p2_home == other.p2_home
        &&& self.p3_home == other.p3_home
        &&& self.p4_home == other.p4_home
        &&& self.p5_home == other.p5_home
        &&& self.p6_home == other.p6_home
        &&& self.context_flags == other.context_flags
        &&& self.mx_csr == other.mx_csr
        &&& self.cs == other.cs
        &&& self.ds == other.ds
        &&& self.es == other.es
        &&& self.fs == other.fs
        &&& self.gs == other.gs
        &&& self.ss == other.ss
        &&& self.eflags == other.eflags
        &&& self.dr0 == other.dr0
        &&& self.dr1 == other.dr1
        &&& self.dr2 == other.dr2
        &&& self.dr3 == other.dr3
        &&& self.dr6 == other.dr6
        &&& self.dr7 == other.dr7
        &&& self.float_save == other.float_save
        &&& self.vector_register == other.vector_register
        &&& self.vector_control == other.vector_control
        &&& self.debug_control == other.debug_control
        &&& self.last_branch_to_rip == other.last_branch_to_rip
        &&& self.last_branch_from_rip == other.last_branch_from_rip
        &&& self.last_exception_to_rip == other.last_exception_to_rip
        &&& self.last_exception_from_rip == other.last_exception_from_rip
    }

    open spec fn spec_reg_nat(&self, name: Seq<char>) -> nat {
        match self.spec_reg(name) {
            Option::Some(v) => v as nat,
            Option::None => 0,
        }
    }

    open spec fn spec_hex_digits() -> nat {
        16
    }

    open spec fn spec_sp_name() -> Seq<char> {
        "rsp"@
    }

    open spec fn spec_ip_name() -> Seq<char> {
        "rip"@
    }

    open spec fn spec_names() -> Seq<Seq<char>> {
        amd64_register_names()
    }

    fn get_register(&self, reg: &str, valid: &MinidumpContextValidity) -> (r: Option<u64>) {
        if valid.allows(reg) {
            Option::Some(self.get_register_always(reg))
        } else {
            Option::None
        }
    }

    fn get_register_always(&self, reg: &str) -> (r: u64) {
        if str_eq(reg, "rax") {
            self.rax
        } else if str_eq(reg, "rdx") {
            self.rdx
        } else if str_eq(reg, "rcx") {
            self.rcx
        } else if str_eq(reg, "rbx") {
            self.rbx
        } else if str_eq(reg, "rsi") {
            self.rsi
        } else if str_eq(reg, "rdi") {
            self.rdi
        } else if str_eq(reg, "rbp") {
            self.rbp
        } else if str_eq(reg, "rsp") {
            self.rsp
        } else if str_eq(reg, "r8") {
            self.r8
        } else if str_eq(reg, "r9") {
            self.r9
        } else if str_eq(reg, "r10") {
            self.r10
        } else if str_eq(reg, "r11") {
            self.r11
        } else if str_eq(reg, "r12") {
            self.r12
        } else if str_eq(reg, "r13") {
            self.r13
        } else if str_eq(reg, "r14") {
            self.r14
        } else if str_eq(reg, "r15") {
            self.r15
        } else if str_eq(reg, "rip") {
            self.rip
        } else {
            vstd::pervasive::unreached()
        }
    }

    fn set_register(&mut self, reg: &str, val: u64) -> (r: Option<()>) {
        if str_eq(reg, "rax") {
            self.rax = val;
        } else if str_eq(reg, "rdx") {
            self.rdx = val;
        } else if str_eq(reg, "rcx") {
            self.rcx = val;
        } else if str_eq(reg, "rbx") {
            self.rbx = val;
        } else if str_eq(reg, "rsi") {
            self.rsi = val;
        } else if str_eq(reg, "rdi") {
            self.rdi = val;
        } else if str_eq(reg, "rbp") {
            self.rbp = val;
        } else if str_eq(reg, "rsp") {
            self.rsp = val;
        } else if str_eq(reg, "r8") {
            self.r8 = val;
        } else if str_eq(reg, "r9") {
            self.r9 = val;
        } else if str_eq(reg, "r10") {
            self.r10 = val;
        } else if str_eq(reg, "r11") {
            self.r11 = val;
        } else if str_eq(reg, "r12") {
            self.r12 = val;
        } else if str_eq(reg, "r13") {
            self.r13 = val;
        } else if str_eq(reg, "r14") {
            self.r14 = val;
        } else if str_eq(reg, "r15") {
            self.r15 = val;
        } else if str_eq(reg, "rip") {
            self.rip = val;
        } else {
            return Option::None;
        }
        Option::Some(())
    }

    fn memoize_register(&self, reg: &str) -> (r: Option<&'static str>) {
        let names = amd64_registers();
        find_name(&names, reg)
    }

    fn format_register(&self, reg: &str) -> (r: String) {
        let v = self.get_register_always(reg);
        crate::text::format_hex_u64(v, 16)
    }

    fn stack_pointer_register_name(&self) -> (r: &'static str) {
        "rsp"
    }

    fn instruction_pointer_register_name(&self) -> (r: &'static str) {
        "rip"
    }
}

/// The ordered general-purpose register names of ARM64.
pub open spec fn arm64_register_names() -> Seq<Seq<char>> {
    seq![
        "x0"@,
        "x1"@,
        "x2"@,
        "x3"@,
        "x4"@,
        "x5"@,
        "x6"@,
        "x7"@,
        "x8"@,
        "x9"@,
        "x10"@,
        "x11"@,
        "x12"@,
        "x13"@,
        "x14"@,
        "x15"@,
        "x16"@,
        "x17"@,
        "x18"@,
        "x19"@,
        "x20"@,
        "x21"@,
        "x22"@,
        "x23"@,
        "x24"@,
        "x25"@,
        "x26"@,
        "x27"@,
        "x28"@,
        "x29"@,
        "x30"@,
        "x31"@,
        "pc"@,
    ]
}

/// General-purpose registers for ARM64, in display order.
pub fn arm64_registers() -> (r: Vec<&'static str>)
    ensures
        r@.len() == arm64_register_names().len(),
        forall|i: int| 0 <= i < r@.len() ==> r@[i]@ == #[trigger] arm64_register_names()[i],
{
    let r: Vec<&'static str> = vec![
        "x0",
        "x1",
        "x2",
        "x3",
        "x4",
        "x5",
        "x6",
        "x7",
        "x8",
        "x9",
        "x10",
        "x11",
        "x12",
        "x13",
        "x14",
        "x15",
        "x16",
        "x17",
        "x18",
        "x19",
        "x20",
        "x21",
        "x22",
        "x23",
        "x24",
        "x25",
        "x26",
        "x27",
        "x28",
        "x29",
        "x30",
        "x31",
        "pc",
    ];
    r
}

/// Index of the ARM64 register slot a name denotes: `x0` through
/// `x31`, with `fp` for `x29` and `sp` for `x31`; the program counter
/// is not a slot.
pub open spec fn arm64_slot(name: Seq<char>) -> Option<int> {
    if name == "fp"@ {
        Option::Some(29int)
    } else if name == "sp"@ {
        Option::Some(31int)
    } else if name == "x0"@ {
        Option::Some(0int)
    } else if name == "x1"@ {
        Option::Some(1int)
    } else if name == "x2"@ {
        Option::Some(2int)
    } else if name == "x3"@ {
        Option::Some(3int)
    } else if name == "x4"@ {
        Option::Some(4int)
    } else if name == "x5"@ {
        Option::Some(5int)
    } else if name == "x6"@ {
        Option::Some(6int)
    } else if name == "x7"@ {
        Option::Some(7int)
    } else if name == "x8"@ {
        Option::Some(8int)
    } else if name == "x9"@ {
        Option::Some(9int)
    } else if name == "x10"@ {
        Option::Some(10int)
    } else if name == "x11"@ {
        Option::Some(11int)
    } else if name == "x12"@ {
        Option::Some(12int)
    } else if name == "x13"@ {
        Option::Some(13int)
    } else if name == "x14"@ {
        Option::Some(14int)
    } else if name == "x15"@ {
        Option::Some(15int)
    } else if name == "x16"@ {
        Option::Some(16int)
    } else if name == "x17"@ {
        Option::Some(17int)
    } else if name == "x18"@ {
        Option::Some(18int)
    } else if name == "x19"@ {
        Option::Some(19int)
    } else if name == "x20"@ {
        Option::Some(20int)
    } else if name == "x21"@ {
        Option::Some(21int)
    } else if name == "x22"@ {
        Option::Some(22int)
    } else if name == "x23"@ {
        Option::Some(23int)
    } else if name == "x24"@ {
        Option::Some(24int)
    } else if name == "x25"@ {
        Option::Some(25int)
    } else if name == "x26"@ {
        Option::Some(26int)
    } else if name == "x27"@ {
        Option::Some(27int)
    } else if name == "x28"@ {
        Option::Some(28int)
    } else if name == "x29"@ {
        Option::Some(29int)
    } else if name == "x30"@ {
        Option::Some(30int)
    } else if name == "x31"@ {
        Option::Some(31int)
    } else {
        Option::None
    }
}

/// The canonical slot name for an ARM64 register name: aliases `fp`
/// and `sp` fold onto `x29` and `x31`.
pub open spec fn arm64_canon(name: Seq<char>) -> Seq<char> {
    if name == "fp"@ {
        "x29"@
    } else if name == "sp"@ {
        "x31"@
    } else {
        name
    }
}

/// Look up the slot index for an ARM64 register name.
fn arm64_slot_of(reg: &str) -> (r: Option<usize>)
    ensures
        match r {
            Option::Some(i) => arm64_slot(reg@) == Option::Some(i as int) && i < 32,
            Option::None => arm64_slot(reg@) is None,
        },
{
    if str_eq(reg, "fp") {
        Option::Some(29)
    } else if str_eq(reg, "sp") {
        Option::Some(31)
    } else if str_eq(reg, "x0") {
        Option::Some(0)
    } else if str_eq(reg, "x1") {
        Option::Some(1)
    } else if str_eq(reg, "x2") {
        Option::Some(2)
    } else if str_eq(reg, "x3") {
        Option::Some(3)
    } else if str_eq(reg, "x4") {
        Option::Some(4)
    } else if str_eq(reg, "x5") {
        Option::Some(5)
    } else if str_eq(reg, "x6") {
        Option::Some(6)
    } else if str_eq(reg, "x7") {
        Option::Some(7)
    } else if str_eq(reg, "x8") {
        Option::Some(8)
    } else if str_eq(reg, "x9") {
        Option::Some(9)
    } else if str_eq(reg, "x10") {
        Option::Some(10)
    } else if str_eq(reg, "x11") {
        Option::Some(11)
    } else if str_eq(reg, "x12") {
        Option::Some(12)
    } else if str_eq(reg, "x13") {
        Option::Some(13)
    } else if str_eq(reg, "x14") {
        Option::Some(14)
    } else if str_eq(reg, "x15") {
        Option::Some(15)
    } else if str_eq(reg, "x16") {
        Option::Some(16)
    } else if str_eq(reg, "x17") {
        Option::Some(17)
    } else if str_eq(reg, "x18") {
        Option::Some(18)
    } else if str_eq(reg, "x19") {
        Option::Some(19)
    } else if str_eq(reg, "x20") {
        Option::Some(20)
    } else if str_eq(reg, "x21") {
        Option::Some(21)
    } else if str_eq(reg, "x22") {
        Option::Some(22)
    } else if str_eq(reg, "x23") {
        Option::Some(23)
    } else if str_eq(reg, "x24") {
        Option::Some(24)
    } else if str_eq(reg, "x25") {
        Option::Some(25)
    } else if str_eq(reg, "x26") {
        Option::Some(26)
    } else if str_eq(reg, "x27") {
        Option::Some(27)
    } else if str_eq(reg, "x28") {
        Option::Some(28)
    } else if str_eq(reg, "x29") {
        Option::Some(29)
    } else if str_eq(reg, "x30") {
        Option::Some(30)
    } else if str_eq(reg, "x31") {
        Option::Some(31)
    } else {
        Option::None
    }
}

impl CpuContext for CONTEXT_ARM64 {
    type Register = u64;

    open spec fn wf_regs(&self) -> bool {
        CONTEXT_ARM64::wf(*self)
    }

    open spec fn spec_reg(&self, name: Seq<char>) -> Option<u64> {
        if name == "pc"@ {
            Option::Some(self.pc)
        } else {
            match arm64_slot(name) {
                Option::Some(i) => Option::Some(self.iregs@[i]),
                Option::None => Option::None,
            }
        }
    }

    open spec fn spec_canon(name: Seq<char>) -> Seq<char> {
        arm64_canon(name)
    }

    open spec fn spec_same_frame(&self, other: &Self) -> bool {
        &&& self.context_flags == other.context_flags
        &&& self.cpsr == other.cpsr
        &&& self.float_save == other.float_save
        &&& self.bcr == other.bcr
        &&& self.bvr == other.bvr
        &&& self.wcr == other.wcr
        &&& self.wvr == other.wvr
    }

    open spec fn spec_reg_nat(&self, name: Seq<char>) -> nat {
        match self.spec_reg(name) {
            Option::Some(v) => v as nat,
            Option::None => 0,
        }
    }

    open spec fn spec_hex_digits() -> nat {
        16
    }

    open spec fn spec_sp_name() -> Seq<char> {
        "sp"@
    }

    open spec fn spec_ip_name() -> Seq<char> {
        "pc"@
    }

    open spec fn spec_names() -> Seq<Seq<char>> {
        arm64_register_names()
    }

    fn get_register(&self, reg: &str, valid: &MinidumpContextValidity) -> (r: Option<u64>) {
        if valid.allows(reg) {
            Option::Some(self.get_register_always(reg))
        } else {
            Option::None
        }
    }

    fn get_register_always(&self, reg: &str) -> (r: u64) {
        if str_eq(reg, "pc") {
            self.pc
        } else {
            match arm64_slot_of(reg) {
                Option::Some(i) => self.iregs[i],
                Option::None => vstd::pervasive::unreached(),
            }
        }
    }

    #[verifier::rlimit(50)]
    fn set_register(&mut self, reg: &str, val: u64) -> (r: Option<()>) {
        if str_eq(reg, "pc") {
            self.pc = val;
            proof {
                assert forall|n: Seq<char>|
                    old(self).spec_reg(n) is Some && Self::spec_canon(n) != Self::spec_canon(
                        reg@,
                    ) implies self.spec_reg(n) == old(self).spec_reg(n) by {
                    assert(self.iregs == old(self).iregs);
                }
            }
            Option::Some(())
        } else {
            match arm64_slot_of(reg) {
                Option::Some(i) => {
                    self.iregs.set(i, val);
                    proof {
                        assert forall|n: Seq<char>|
                            old(self).spec_reg(n) is Some && Self::spec_canon(n)
                                != Self::spec_canon(reg@) implies self.spec_reg(n) == old(
                            self,
                        ).spec_reg(n) by {
                            assert(self.iregs@ == old(self).iregs@.update(i as int, val));
                        }
                    }
                    Option::Some(())
                },
                Option::None => Option::None,
            }
        }
    }

    fn memoize_register(&self, reg: &str) -> (r: Option<&'static str>) {
        let names = arm64_registers();
        find_name(&names, reg)
    }

    fn format_register(&self, reg: &str) -> (r: String) {
        let v = self.get_register_always(reg);
        crate::text::format_hex_u64(v, 16)
    }

    fn stack_pointer_register_name(&self) -> (r: &'static str) {
        "sp"
    }

    fn instruction_pointer_register_name(&self) -> (r: &'static str) {
        "pc"
    }
}

impl CpuContext for CONTEXT_ARM64_OLD {
    type Register = u64;

    open spec fn wf_regs(&self) -> bool {
        CONTEXT_ARM64_OLD::wf(*self)
    }

    open spec fn spec_reg(&self, name: Seq<char>) -> Option<u64> {
        if name == "pc"@ {
            Option::Some(self.pc)
        } else {
            match arm64_slot(name) {
                Option::Some(i) => Option::Some(self.iregs@[i]),
                Option::None => Option::None,
            }
        }
    }

    open spec fn spec_canon(name: Seq<char>) -> Seq<char> {
        arm64_canon(name)
    }

    open spec fn spec_same_frame(&self, other: &Self) -> bool {
        &&& self.context_flags == other.context_flags
        &&& self.cpsr == other.cpsr
        &&& self.float_save == other.float_save
    }

    open spec fn spec_reg_nat(&self, name: Seq<char>) -> nat {
        match self.spec_reg(name) {
            Option::Some(v) => v as nat,
            Option::None => 0,
        }
    }

    open spec fn spec_hex_digits() -> nat {
        16
    }

    open spec fn spec_sp_name() -> Seq<char> {
        "sp"@
    }

    open spec fn spec_ip_name() -> Seq<char> {
        "pc"@
    }

    open spec fn spec_names() -> Seq<Seq<char>> {
        arm64_register_names()
    }

    fn get_register(&self, reg: &str, valid: &MinidumpContextValidity) -> (r: Option<u64>) {
        if valid.allows(reg) {
            Option::Some(self.get_register_always(reg))
        } else {
            Option::None
        }
    }

    fn get_register_always(&self, reg: &str) -> (r: u64) {
        if str_eq(reg, "pc") {
            self.pc
        } else {
            match arm64_slot_of(reg) {
                Option::Some(i) => self.iregs[i],
                Option::None => vstd::pervasive::unreached(),
            }
        }
    }

    #[verifier::rlimit(50)]
    fn set_register(&mut self, reg: &str, val: u64) -> (r: Option<()>) {
        if str_eq(reg, "pc") {
            self.pc = val;
            proof {
                assert forall|n: Seq<char>|
                    old(self).spec_reg(n) is Some && Self::spec_canon(n) != Self::spec_canon(
                        reg@,
                    ) implies self.spec_reg(n) == old(self).spec_reg(n) by {
                    assert(self.iregs == old(self).iregs);
                }
            }
            Option::Some(())
        } else {
            match arm64_slot_of(reg) {
                Option::Some(i) => {
                    self.iregs.set(i, val);
                    proof {
                        assert forall|n: Seq<char>|
                            old(self).spec_reg(n) is Some && Self::spec_canon(n)
                                != Self::spec_canon(reg@) implies self.spec_reg(n) == old(
                            self,
                        ).spec_reg(n) by {
                            assert(self.iregs@ == old(self).iregs@.update(i as int, val));
                        }
                    }
                    Option::Some(())
                },
                Option::None => Option::None,
            }
        }
    }

    fn memoize_register(&self, reg: &str) -> (r: Option<&'static str>) {
        let names = arm64_registers();
        find_name(&names, reg)
    }

    fn format_register(&self, reg: &str) -> (r: String) {
        let v = self.get_register_always(reg);
        crate::text::format_hex_u64(v, 16)
    }

    fn stack_pointer_register_name(&self) -> (r: &'static str) {
        "sp"
    }

    fn instruction_pointer_register_name(&self) -> (r: &'static str) {
        "pc"
    }
}


/// Register slot indices used by the cross-architecture accessors.
pub const ARM_REG_PC: usize = 15;
pub const ARM_REG_SP: usize = 13;
pub const ARM64_REG_FP: usize = 29;
pub const ARM64_REG_SP: usize = 31;
pub const PPC_REG_SP: usize = 1;
pub const SPARC_REG_SP: usize = 14;
pub const MIPS_REG_SP: usize = 29;

/// The CPU-specific context structure.
#[derive(Debug, Clone, PartialEq)]
pub enum MinidumpRawContext {
    X86(CONTEXT_X86),
    Ppc(CONTEXT_PPC),
    Ppc64(CONTEXT_PPC64),
    Amd64(CONTEXT_AMD64),
    Sparc(CONTEXT_SPARC),
    Arm(CONTEXT_ARM),
    Arm64(CONTEXT_ARM64),
    OldArm64(CONTEXT_ARM64_OLD),
    Mips(CONTEXT_MIPS),
}

impl MinidumpRawContext {
    /// The carried record is well-formed.
    pub open spec fn wf(self) -> bool {
        match self {
            MinidumpRawContext::X86(c) => c.wf(),
            MinidumpRawContext::Ppc(c) => c.wf(),
            MinidumpRawContext::Ppc64(c) => c.wf(),
            MinidumpRawContext::Amd64(c) => c.wf(),
            MinidumpRawContext::Sparc(c) => c.wf(),
            MinidumpRawContext::Arm(c) => c.wf(),
            MinidumpRawContext::Arm64(c) => c.wf(),
            MinidumpRawContext::OldArm64(c) => c.wf(),
            MinidumpRawContext::Mips(c) => c.wf(),
        }
    }
}

/// CPU context such as register states.
///
/// Each thread has its own context, and the exception record, if
/// present, also has its own. The `valid` member narrows which
/// registers hold trustworthy values after unwinding hypotheses; at
/// decode time it is `All`.
#[derive(Debug, Clone, PartialEq)]
pub struct MinidumpContext {
    /// The raw CPU register state.
    pub raw: MinidumpRawContext,
    /// Which registers are valid in `raw`.
    pub valid: MinidumpContextValidity,
}

/// Whether a context buffer's length selects a size-dispatched layout:
/// these records carry no flag word at an offset shared with the rest.
pub open spec fn spec_size_dispatched(len: nat) -> bool {
    ||| len == CONTEXT_AMD64_SIZE
    ||| len == CONTEXT_PPC64_SIZE
    ||| len == CONTEXT_ARM64_OLD_SIZE
}

/// The CPU bits of the leading 32-bit flag word of a context buffer.
pub open spec fn spec_leading_cpu(s: Seq<u8>, e: Endianness) -> u32
    recommends
        s.len() >= 4,
{
    spec_cpu_flags(crate::bytes::u32_of(e, s.subrange(0, 4)))
}

/// Whether the CPU bits name an architecture that is dispatched by
/// flag word.
pub open spec fn spec_flag_known(f: u32) -> bool {
    ||| f == CONTEXT_X86_FLAG
    ||| f == CONTEXT_PPC_FLAG
    ||| f == CONTEXT_SPARC_FLAG
    ||| f == CONTEXT_ARM_FLAG
    ||| f == CONTEXT_MIPS_FLAG
    ||| f == CONTEXT_ARM64_FLAG
}

/// The record size of a flag-dispatched architecture.
pub open spec fn spec_flag_size(f: u32) -> int {
    if f == CONTEXT_X86_FLAG {
        CONTEXT_X86_SIZE as int
    } else if f == CONTEXT_PPC_FLAG {
        CONTEXT_PPC_SIZE as int
    } else if f == CONTEXT_SPARC_FLAG {
        CONTEXT_SPARC_SIZE as int
    } else if f == CONTEXT_ARM_FLAG {
        CONTEXT_ARM_SIZE as int
    } else if f == CONTEXT_MIPS_FLAG {
        CONTEXT_MIPS_SIZE as int
    } else if f == CONTEXT_ARM64_FLAG {
        CONTEXT_ARM64_SIZE as int
    } else {
        0
    }
}

/// What `MinidumpContext::read` decodes on success: the variant is
/// fixed by the dispatch policy (size first, then the flag word), and
/// the record's fields are exactly the bytes' fields.
pub open spec fn spec_read_ok(s: Seq<u8>, e: Endianness, raw: MinidumpRawContext) -> bool {
    match raw {
        MinidumpRawContext::Amd64(c) => {
            &&& s.len() == CONTEXT_AMD64_SIZE
            &&& amd64_decodes(s, e, c)
            &&& spec_cpu_flags(c.context_flags) == CONTEXT_AMD64_FLAG
        },
        MinidumpRawContext::Ppc64(c) => {
            &&& s.len() == CONTEXT_PPC64_SIZE
            &&& ppc64_decodes(s, e, c)
            &&& spec_cpu_flags(c.context_flags as u32) == CONTEXT_PPC64_FLAG
        },
        MinidumpRawContext::OldArm64(c) => {
            &&& s.len() == CONTEXT_ARM64_OLD_SIZE
            &&& arm64_old_decodes(s, e, c)
            &&& spec_cpu_flags(c.context_flags as u32) == CONTEXT_ARM64_OLD_FLAG
        },
        MinidumpRawContext::X86(c) => {
            &&& !spec_size_dispatched(s.len())
            &&& s.len() >= CONTEXT_X86_SIZE
            &&& spec_leading_cpu(s, e) == CONTEXT_X86_FLAG
            &&& x86_decodes(s, e, c)
        },
        MinidumpRawContext::Ppc(c) => {
            &&& !spec_size_dispatched(s.len())
            &&& s.len() >= CONTEXT_PPC_SIZE
            &&& spec_leading_cpu(s, e) == CONTEXT_PPC_FLAG
            &&& ppc_decodes(s, e, c)
        },
        MinidumpRawContext::Sparc(c) => {
            &&& !spec_size_dispatched(s.len())
            &&& s.len() >= CONTEXT_SPARC_SIZE
            &&& spec_leading_cpu(s, e) == CONTEXT_SPARC_FLAG
            &&& sparc_decodes(s, e, c)
        },
        MinidumpRawContext::Arm(c) => {
            &&& !spec_size_dispatched(s.len())
            &&& s.len() >= CONTEXT_ARM_SIZE
            &&& spec_leading_cpu(s, e) == CONTEXT_ARM_FLAG
            &&& arm_decodes(s, e, c)
        },
        MinidumpRawContext::Mips(c) => {
            &&& !spec_size_dispatched(s.len())
            &&& s.len() >= CONTEXT_MIPS_SIZE
            &&& spec_leading_cpu(s, e) == CONTEXT_MIPS_FLAG
            &&& mips_decodes(s, e, c)
        },
        MinidumpRawContext::Arm64(c) => {
            &&& !spec_size_dispatched(s.len())
            &&& s.len() >= CONTEXT_ARM64_SIZE
            &&& spec_leading_cpu(s, e) == CONTEXT_ARM64_FLAG
            &&& arm64_decodes(s, e, c)
        },
    }
}

/// Exactly when `MinidumpContext::read` reports an unknown CPU: the
/// size selects no layout and the flag word names no known one.
pub open spec fn spec_read_unknown(s: Seq<u8>, e: Endianness) -> bool {
    &&& !spec_size_dispatched(s.len())
    &&& s.len() >= 4
    &&& !spec_flag_known(spec_leading_cpu(s, e))
}

/// Exactly when `MinidumpContext::read` reports a read failure: a
/// size-dispatched record whose flag word disagrees with its size, a
/// buffer too short for its flag word, or one too short for any flag
/// word at all.
pub open spec fn spec_read_failure(s: Seq<u8>, e: Endianness) -> bool {
    if s.len() == CONTEXT_AMD64_SIZE {
        spec_cpu_flags(crate::bytes::u32_of(e, s.subrange(48, 52))) != CONTEXT_AMD64_FLAG
    } else if s.len() == CONTEXT_PPC64_SIZE {
        spec_cpu_flags(crate::bytes::u64_of(e, s.subrange(0, 8)) as u32) != CONTEXT_PPC64_FLAG
    } else if s.len() == CONTEXT_ARM64_OLD_SIZE {
        spec_cpu_flags(crate::bytes::u64_of(e, s.subrange(0, 8)) as u32) != CONTEXT_ARM64_OLD_FLAG
    } else if s.len() < 4 {
        true
    } else {
        spec_flag_known(spec_leading_cpu(s, e)) && s.len() < spec_flag_size(spec_leading_cpu(s, e))
    }
}

impl MinidumpContext {
    /// The carried record is well-formed.
    pub open spec fn wf(self) -> bool {
        self.raw.wf()
    }

    /// Return a MinidumpContext given a `MinidumpRawContext`.
    pub fn from_raw(raw: MinidumpRawContext) -> (r: MinidumpContext)
        ensures
            r.raw == raw,
            r.valid == MinidumpContextValidity::All,
    {
        MinidumpContext { raw, valid: MinidumpContextValidity::All }
    }

    /// Read a `MinidumpContext` from `bytes`.
    ///
    /// Layouts that carry no flag word at a shared offset are selected
    /// by their exact size and their flag word is then checked against
    /// the size's architecture; everything else is selected by the CPU
    /// bits of the leading flag word.
    pub fn read(bytes: &[u8], endian: Endianness) -> (r: Result<MinidumpContext, ContextError>)
        ensures
            match r {
                Result::Ok(ctx) => {
                    &&& ctx.wf()
                    &&& ctx.valid == MinidumpContextValidity::All
                    &&& spec_read_ok(bytes@, endian, ctx.raw)
                },
                Result::Err(ContextError::UnknownCpuContext) => spec_read_unknown(bytes@, endian),
                Result::Err(ContextError::ReadFailure) => spec_read_failure(bytes@, endian),
            },
    {
        if bytes.len() == CONTEXT_AMD64_SIZE {
            let c = read_context_amd64(bytes, endian).unwrap();
            if cpu_flags(c.context_flags) != CONTEXT_AMD64_FLAG {
                return Result::Err(ContextError::ReadFailure);
            }
            return Result::Ok(MinidumpContext::from_raw(MinidumpRawContext::Amd64(c)));
        }
        if bytes.len() == CONTEXT_PPC64_SIZE {
            let c = read_context_ppc64(bytes, endian).unwrap();
            if cpu_flags(c.context_flags as u32) != CONTEXT_PPC64_FLAG {
                return Result::Err(ContextError::ReadFailure);
            }
            return Result::Ok(MinidumpContext::from_raw(MinidumpRawContext::Ppc64(c)));
        }
        if bytes.len() == CONTEXT_ARM64_OLD_SIZE {
            let c = read_context_arm64_old(bytes, endian).unwrap();
            if cpu_flags(c.context_flags as u32) != CONTEXT_ARM64_OLD_FLAG {
                return Result::Err(ContextError::ReadFailure);
            }
            return Result::Ok(MinidumpContext::from_raw(MinidumpRawContext::OldArm64(c)));
        }
        if bytes.len() < 4 {
            return Result::Err(ContextError::ReadFailure);
        }
        let mut cur = crate::bytes::Cursor::new(bytes);
        let flags = cur.read_u32(endian).unwrap();
        let f = cpu_flags(flags);
        if f == CONTEXT_X86_FLAG {
            match read_context_x86(bytes, endian) {
                Option::Some(c) => Result::Ok(
                    MinidumpContext::from_raw(MinidumpRawContext::X86(c)),
                ),
                Option::None => Result::Err(ContextError::ReadFailure),
            }
        } else if f == CONTEXT_PPC_FLAG {
            match read_context_ppc(bytes, endian) {
                Option::Some(c) => Result::Ok(
                    MinidumpContext::from_raw(MinidumpRawContext::Ppc(c)),
                ),
                Option::None => Result::Err(ContextError::ReadFailure),
            }
        } else if f == CONTEXT_SPARC_FLAG {
            match read_context_sparc(bytes, endian) {
                Option::Some(c) => Result::Ok(
                    MinidumpContext::from_raw(MinidumpRawContext::Sparc(c)),
                ),
                Option::None => Result::Err(ContextError::ReadFailure),
            }
        } else if f == CONTEXT_ARM_FLAG {
            match read_context_arm(bytes, endian) {
                Option::Some(c) => Result::Ok(
                    MinidumpContext::from_raw(MinidumpRawContext::Arm(c)),
                ),
                Option::None => Result::Err(ContextError::ReadFailure),
            }
        } else if f == CONTEXT_MIPS_FLAG {
            match read_context_mips(bytes, endian) {
                Option::Some(c) => Result::Ok(
                    MinidumpContext::from_raw(MinidumpRawContext::Mips(c)),
                ),
                Option::None => Result::Err(ContextError::ReadFailure),
            }
        } else if f == CONTEXT_ARM64_FLAG {
            match read_context_arm64(bytes, endian) {
                Option::Some(c) => Result::Ok(
                    MinidumpContext::from_raw(MinidumpRawContext::Arm64(c)),
                ),
                Option::None => Result::Err(ContextError::ReadFailure),
            }
        } else {
            Result::Err(ContextError::UnknownCpuContext)
        }
    }

    /// The instruction pointer, widened to 64 bits.
    pub open spec fn spec_instruction_pointer(self) -> u64 {
        match self.raw {
            MinidumpRawContext::Amd64(c) => c.rip,
            MinidumpRawContext::Arm(c) => c.iregs@[ARM_REG_PC as int] as u64,
            MinidumpRawContext::Arm64(c) => c.pc,
            MinidumpRawContext::OldArm64(c) => c.pc,
            MinidumpRawContext::Ppc(c) => c.srr0 as u64,
            MinidumpRawContext::Ppc64(c) => c.srr0,
            MinidumpRawContext::Sparc(c) => c.pc,
            MinidumpRawContext::X86(c) => c.eip as u64,
            MinidumpRawContext::Mips(c) => c.epc,
        }
    }

    /// The instruction pointer, widened to 64 bits. Every architecture
    /// has one, so this never fails.
    pub fn get_instruction_pointer(&self) -> (r: u64)
        requires
            self.wf(),
        ensures
            r == self.spec_instruction_pointer(),
    {
        match &self.raw {
            MinidumpRawContext::Amd64(c) => c.rip,
            MinidumpRawContext::Arm(c) => c.iregs[ARM_REG_PC] as u64,
            MinidumpRawContext::Arm64(c) => c.pc,
            MinidumpRawContext::OldArm64(c) => c.pc,
            MinidumpRawContext::Ppc(c) => c.srr0 as u64,
            MinidumpRawContext::Ppc64(c) => c.srr0,
            MinidumpRawContext::Sparc(c) => c.pc,
            MinidumpRawContext::X86(c) => c.eip as u64,
            MinidumpRawContext::Mips(c) => c.epc,
        }
    }

    /// The stack pointer, widened to 64 bits.
    pub open spec fn spec_stack_pointer(self) -> u64 {
        match self.raw {
            MinidumpRawContext::Amd64(c) => c.rsp,
            MinidumpRawContext::Arm(c) => c.iregs@[ARM_REG_SP as int] as u64,
            MinidumpRawContext::Arm64(c) => c.iregs@[ARM64_REG_SP as int],
            MinidumpRawContext::OldArm64(c) => c.iregs@[ARM64_REG_SP as int],
            MinidumpRawContext::Ppc(c) => c.gpr@[PPC_REG_SP as int] as u64,
            MinidumpRawContext::Ppc64(c) => c.gpr@[PPC_REG_SP as int],
            MinidumpRawContext::Sparc(c) => c.g_r@[SPARC_REG_SP as int],
            MinidumpRawContext::X86(c) => c.esp as u64,
            MinidumpRawContext::Mips(c) => c.iregs@[MIPS_REG_SP as int],
        }
    }

    /// The stack pointer, widened to 64 bits. Every architecture has
    /// one, so this never fails.
    pub fn get_stack_pointer(&self) -> (r: u64)
        requires
            self.wf(),
        ensures
            r == self.spec_stack_pointer(),
    {
        match &self.raw {
            MinidumpRawContext::Amd64(c) => c.rsp,
            MinidumpRawContext::Arm(c) => c.iregs[ARM_REG_SP] as u64,
            MinidumpRawContext::Arm64(c) => c.iregs[ARM64_REG_SP],
            MinidumpRawContext::OldArm64(c) => c.iregs[ARM64_REG_SP],
            MinidumpRawContext::Ppc(c) => c.gpr[PPC_REG_SP] as u64,
            MinidumpRawContext::Ppc64(c) => c.gpr[PPC_REG_SP],
            MinidumpRawContext::Sparc(c) => c.g_r[SPARC_REG_SP],
            MinidumpRawContext::X86(c) => c.esp as u64,
            MinidumpRawContext::Mips(c) => c.iregs[MIPS_REG_SP],
        }
    }

    /// Whether the register-name interface covers this architecture.
    pub open spec fn spec_supports_registers(self) -> bool {
        match self.raw {
            MinidumpRawContext::X86(_) => true,
            MinidumpRawContext::Amd64(_) => true,
            MinidumpRawContext::Arm64(_) => true,
            MinidumpRawContext::OldArm64(_) => true,
            _ => false,
        }
    }

    /// Whether `name` is a register of this context's architecture.
    pub open spec fn spec_reg_defined(self, name: Seq<char>) -> bool {
        match self.raw {
            MinidumpRawContext::X86(c) => c.spec_reg(name) is Some,
            MinidumpRawContext::Amd64(c) => c.spec_reg(name) is Some,
            MinidumpRawContext::Arm64(c) => c.spec_reg(name) is Some,
            MinidumpRawContext::OldArm64(c) => c.spec_reg(name) is Some,
            _ => false,
        }
    }

    /// Bytes of this architecture's natural register width.
    pub open spec fn spec_register_width_bytes(self) -> nat {
        match self.raw {
            MinidumpRawContext::X86(_) => 4,
            _ => 8,
        }
    }

    /// The named register rendered as zero-padded hexadecimal at the
    /// architecture's natural width.
    pub open spec fn spec_format_register(self, name: Seq<char>) -> Seq<char> {
        match self.raw {
            MinidumpRawContext::X86(c) => hex_format(c.spec_reg_nat(name), 8),
            MinidumpRawContext::Amd64(c) => hex_format(c.spec_reg_nat(name), 16),
            MinidumpRawContext::Arm64(c) => hex_format(c.spec_reg_nat(name), 16),
            MinidumpRawContext::OldArm64(c) => hex_format(c.spec_reg_nat(name), 16),
            _ => Seq::empty(),
        }
    }

    /// Render the named register as zero-padded hexadecimal at the
    /// architecture's natural width.
    pub fn format_register(&self, reg: &str) -> (r: String)
        requires
            self.wf(),
            self.spec_reg_defined(reg@),
        ensures
            r@ == self.spec_format_register(reg@),
    {
        match &self.raw {
            MinidumpRawContext::X86(c) => c.format_register(reg),
            MinidumpRawContext::Amd64(c) => c.format_register(reg),
            MinidumpRawContext::Arm64(c) => c.format_register(reg),
            MinidumpRawContext::OldArm64(c) => c.format_register(reg),
            _ => vstd::pervasive::unreached(),
        }
    }

    /// The architecture's ordered general-purpose register names.
    pub open spec fn spec_register_names(self) -> Seq<Seq<char>> {
        match self.raw {
            MinidumpRawContext::X86(_) => x86_register_names(),
            MinidumpRawContext::Amd64(_) => amd64_register_names(),
            MinidumpRawContext::Arm64(_) => arm64_register_names(),
            MinidumpRawContext::OldArm64(_) => arm64_register_names(),
            _ => Seq::empty(),
        }
    }

    /// The architecture's general-purpose register names, in display
    /// order.
    pub fn general_purpose_registers(&self) -> (r: Vec<&'static str>)
        requires
            self.spec_supports_registers(),
        ensures
            r@.len() == self.spec_register_names().len(),
            forall|i: int| 0 <= i < r@.len() ==> r@[i]@ == #[trigger] self.spec_register_names()[i],
    {
        match &self.raw {
            MinidumpRawContext::X86(_) => x86_registers(),
            MinidumpRawContext::Amd64(_) => amd64_registers(),
            MinidumpRawContext::Arm64(_) => arm64_registers(),
            MinidumpRawContext::OldArm64(_) => arm64_registers(),
            _ => vstd::pervasive::unreached(),
        }
    }
}

/// The verbose x86 context listing.
pub open spec fn spec_print_x86(c: CONTEXT_X86) -> Seq<char> {
    line_hex("CONTEXT_X86\n  context_flags                = "@, c.context_flags as nat) + line_hex(
        "  dr0                          = "@,
        c.dr0 as nat,
    ) + line_hex("  dr1                          = "@, c.dr1 as nat) + line_hex(
        "  dr2                          = "@,
        c.dr2 as nat,
    ) + line_hex("  dr3                          = "@, c.dr3 as nat) + line_hex(
        "  dr6                          = "@,
        c.dr6 as nat,
    ) + line_hex("  dr7                          = "@, c.dr7 as nat) + line_hex(
        "  float_save.control_word      = "@,
        c.float_save.control_word as nat,
    ) + line_hex("  float_save.status_word       = "@, c.float_save.status_word as nat) + line_hex(
        "  float_save.tag_word          = "@,
        c.float_save.tag_word as nat,
    ) + line_hex("  float_save.error_offset      = "@, c.float_save.error_offset as nat)
        + line_hex("  float_save.error_selector    = "@, c.float_save.error_selector as nat)
        + line_hex("  float_save.data_offset       = "@, c.float_save.data_offset as nat)
        + line_hex("  float_save.data_selector     = "@, c.float_save.data_selector as nat)
        + "  float_save.register_area[80] = 0x"@ + bytes_hex(c.float_save.register_area@) + "\n"@
        + line_hex("  float_save.cr0_npx_state     = "@, c.float_save.cr0_npx_state as nat)
        + line_hex("  gs                           = "@, c.gs as nat) + line_hex(
        "  fs                           = "@,
        c.fs as nat,
    ) + line_hex("  es                           = "@, c.es as nat) + line_hex(
        "  ds                           = "@,
        c.ds as nat,
    ) + line_hex("  edi                          = "@, c.edi as nat) + line_hex(
        "  esi                          = "@,
        c.esi as nat,
    ) + line_hex("  ebx                          = "@, c.ebx as nat) + line_hex(
        "  edx                          = "@,
        c.edx as nat,
    ) + line_hex("  ecx                          = "@, c.ecx as nat) + line_hex(
        "  eax                          = "@,
        c.eax as nat,
    ) + line_hex("  ebp                          = "@, c.ebp as nat) + line_hex(
        "  eip                          = "@,
        c.eip as nat,
    ) + line_hex("  cs                           = "@, c.cs as nat) + line_hex(
        "  eflags                       = "@,
        c.eflags as nat,
    ) + line_hex("  esp                          = "@, c.esp as nat) + line_hex(
        "  ss                           = "@,
        c.ss as nat,
    ) + "  extended_registers[512]      = 0x"@ + bytes_hex(c.extended_registers@) + "\n\n"@
}

/// The verbose x86-64 context listing.
pub open spec fn spec_print_amd64(c: CONTEXT_AMD64) -> Seq<char> {
    line_hex("CONTEXT_AMD64\n  p1_home       = "@, c.p1_home as nat) + line_hex(
        "  p2_home       = "@,
        c.p2_home as nat,
    ) + line_hex("  p3_home       = "@, c.p3_home as nat) + line_hex(
        "  p4_home       = "@,
        c.p4_home as nat,
    ) + line_hex("  p5_home       = "@, c.p5_home as nat) + line_hex(
        "  p6_home       = "@,
        c.p6_home as nat,
    ) + line_hex("  context_flags = "@, c.context_flags as nat) + line_hex(
        "  mx_csr        = "@,
        c.mx_csr as nat,
    ) + line_hex("  cs            = "@, c.cs as nat) + line_hex(
        "  ds            = "@,
        c.ds as nat,
    ) + line_hex("  es            = "@, c.es as nat) + line_hex(
        "  fs            = "@,
        c.fs as nat,
    ) + line_hex("  gs            = "@, c.gs as nat) + line_hex(
        "  ss            = "@,
        c.ss as nat,
    ) + line_hex("  eflags        = "@, c.eflags as nat) + line_hex(
        "  dr0           = "@,
        c.dr0 as nat,
    ) + line_hex("  dr1           = "@, c.dr1 as nat) + line_hex(
        "  dr2           = "@,
        c.dr2 as nat,
    ) + line_hex("  dr3           = "@, c.dr3 as nat) + line_hex(
        "  dr6           = "@,
        c.dr6 as nat,
    ) + line_hex("  dr7           = "@, c.dr7 as nat) + line_hex(
        "  rax           = "@,
        c.rax as nat,
    ) + line_hex("  rcx           = "@, c.rcx as nat) + line_hex(
        "  rdx           = "@,
        c.rdx as nat,
    ) + line_hex("  rbx           = "@, c.rbx as nat) + line_hex(
        "  rsp           = "@,
        c.rsp as nat,
    ) + line_hex("  rbp           = "@, c.rbp as nat) + line_hex(
        "  rsi           = "@,
        c.rsi as nat,
    ) + line_hex("  rdi           = "@, c.rdi as nat) + line_hex(
        "  r8            = "@,
        c.r8 as nat,
    ) + line_hex("  r9            = "@, c.r9 as nat) + line_hex(
        "  r10           = "@,
        c.r10 as nat,
    ) + line_hex("  r11           = "@, c.r11 as nat) + line_hex(
        "  r12           = "@,
        c.r12 as nat,
    ) + line_hex("  r13           = "@, c.r13 as nat) + line_hex(
        "  r14           = "@,
        c.r14 as nat,
    ) + line_hex("  r15           = "@, c.r15 as nat) + line_hex(
        "  rip           = "@,
        c.rip as nat,
    ) + "\n"@
}

/// The verbose ARM context listing.
pub open spec fn spec_print_arm(c: CONTEXT_ARM) -> Seq<char> {
    line_hex("CONTEXT_ARM\n  context_flags       = "@, c.context_flags as nat) + indexed_lines(
        "  iregs["@,
        "]            = "@,
        c.iregs@.map_values(|x: u32| x as nat),
        16,
    ) + line_hex("  cpsr                = "@, c.cpsr as nat) + line_hex(
        "  float_save.fpscr     = "@,
        c.float_save.fpscr as nat,
    ) + indexed_lines(
        "  float_save.regs["@,
        "] = "@,
        c.float_save.regs@.map_values(|x: u64| x as nat),
        32,
    ) + indexed_lines(
        "  float_save.extra["@,
        "] = "@,
        c.float_save.extra@.map_values(|x: u32| x as nat),
        8,
    )
}

/// The verbose ARM64 context listing, shared by both layouts.
pub open spec fn spec_print_arm64_regs(
    context_flags: nat,
    iregs: Seq<nat>,
    pc: nat,
    cpsr: nat,
    fpsr: nat,
    fpcr: nat,
    fregs: Seq<nat>,
) -> Seq<char> {
    line_hex("CONTEXT_ARM64\n  context_flags        = "@, context_flags) + indexed_lines(
        "  iregs["@,
        "]            = "@,
        iregs,
        32,
    ) + line_hex("  pc                   = "@, pc) + line_hex(
        "  cpsr                 = "@,
        cpsr,
    ) + line_hex("  float_save.fpsr     = "@, fpsr) + line_hex(
        "  float_save.fpcr     = "@,
        fpcr,
    ) + indexed_lines("  float_save.regs["@, "] = "@, fregs, 32)
}

/// Whether the verbose listing covers this context's architecture.
pub open spec fn spec_printable(ctx: MinidumpContext) -> bool {
    match ctx.raw {
        MinidumpRawContext::X86(_) => true,
        MinidumpRawContext::Amd64(_) => true,
        MinidumpRawContext::Arm(_) => true,
        MinidumpRawContext::Arm64(_) => true,
        MinidumpRawContext::OldArm64(_) => true,
        _ => false,
    }
}

/// The verbose listing of a context.
pub open spec fn spec_print(ctx: MinidumpContext) -> Seq<char> {
    match ctx.raw {
        MinidumpRawContext::X86(c) => spec_print_x86(c),
        MinidumpRawContext::Amd64(c) => spec_print_amd64(c),
        MinidumpRawContext::Arm(c) => spec_print_arm(c),
        MinidumpRawContext::Arm64(c) => spec_print_arm64_regs(
            c.context_flags as nat,
            c.iregs@.map_values(|x: u64| x as nat),
            c.pc as nat,
            c.cpsr as nat,
            c.float_save.fpsr as nat,
            c.float_save.fpcr as nat,
            c.float_save.regs@.map_values(|x: u128| x as nat),
        ),
        MinidumpRawContext::OldArm64(c) => spec_print_arm64_regs(
            c.context_flags as nat,
            c.iregs@.map_values(|x: u64| x as nat),
            c.pc as nat,
            c.cpsr as nat,
            c.float_save.fpsr as nat,
            c.float_save.fpcr as nat,
            c.float_save.regs@.map_values(|x: u128| x as nat),
        ),
        _ => Seq::empty(),
    }
}

/// Render the shared ARM64 register listing.
#[verifier::rlimit(60)]
fn print_arm64_regs(
    context_flags: u64,
    iregs: &Vec<u64>,
    pc: u64,
    cpsr: u32,
    fpsr: u32,
    fpcr: u32,
    fregs: &Vec<u128>,
) -> (r: String)
    requires
        iregs@.len() == 32,
        fregs@.len() == 32,
    ensures
        r@ == spec_print_arm64_regs(
            context_flags as nat,
            iregs@.map_values(|x: u64| x as nat),
            pc as nat,
            cpsr as nat,
            fpsr as nat,
            fpcr as nat,
            fregs@.map_values(|x: u128| x as nat),
        ),
{
    let mut s = String::new();
    push_line_hex("CONTEXT_ARM64\n  context_flags        = ", context_flags, &mut s);
    let ghost base1 = s@;
    let ghost ivs = iregs@.map_values(|x: u64| x as nat);
    let mut i: usize = 0;
    proof {
        assert(s@ =~= base1 + indexed_lines("  iregs["@, "]            = "@, ivs, 0));
    }
    while i < 32
        invariant
            i <= 32,
            iregs@.len() == 32,
            ivs == iregs@.map_values(|x: u64| x as nat),
            s@ == base1 + indexed_lines("  iregs["@, "]            = "@, ivs, i as int),
        decreases 32 - i,
    {
        push_indexed_line("  iregs[", i as u32, "]            = ", iregs[i], &mut s);
        proof {
            assert(ivs[i as int] == iregs@[i as int] as nat);
            assert(s@ =~= base1 + indexed_lines("  iregs["@, "]            = "@, ivs, i + 1));
        }
        i = i + 1;
    }
    push_line_hex("  pc                   = ", pc, &mut s);
    push_line_hex("  cpsr                 = ", cpsr as u64, &mut s);
    push_line_hex("  float_save.fpsr     = ", fpsr as u64, &mut s);
    push_line_hex("  float_save.fpcr     = ", fpcr as u64, &mut s);
    let ghost base2 = s@;
    let ghost fvs = fregs@.map_values(|x: u128| x as nat);
    let mut j: usize = 0;
    proof {
        assert(s@ =~= base2 + indexed_lines("  float_save.regs["@, "] = "@, fvs, 0));
    }
    while j < 32
        invariant
            j <= 32,
            fregs@.len() == 32,
            fvs == fregs@.map_values(|x: u128| x as nat),
            s@ == base2 + indexed_lines("  float_save.regs["@, "] = "@, fvs, j as int),
        decreases 32 - j,
    {
        push_indexed_line_u128("  float_save.regs[", j as u32, "] = ", fregs[j], &mut s);
        proof {
            assert(fvs[j as int] == fregs@[j as int] as nat);
            assert(s@ =~= base2 + indexed_lines("  float_save.regs["@, "] = "@, fvs, j + 1));
        }
        j = j + 1;
    }
    proof {
        assert(s@ =~= spec_print_arm64_regs(
            context_flags as nat,
            ivs,
            pc as nat,
            cpsr as nat,
            fpsr as nat,
            fpcr as nat,
            fvs,
        ));
    }
    s
}

impl MinidumpContext {
    /// Write a verbose, line-per-field description of this context,
    /// in the format a dump lister uses. Architectures without a
    /// listing are left out by precondition.
    #[verifier::rlimit(100)]
    pub fn print(&self) -> (r: String)
        requires
            self.wf(),
            spec_printable(*self),
        ensures
            r@ == spec_print(*self),
    {
        let mut s = String::new();
        match &self.raw {
            MinidumpRawContext::X86(c) => {
                push_line_hex(
                    "CONTEXT_X86\n  context_flags                = ",
                    c.context_flags as u64,
                    &mut s,
                );
                push_line_hex("  dr0                          = ", c.dr0 as u64, &mut s);
                push_line_hex("  dr1                          = ", c.dr1 as u64, &mut s);
                push_line_hex("  dr2                          = ", c.dr2 as u64, &mut s);
                push_line_hex("  dr3                          = ", c.dr3 as u64, &mut s);
                push_line_hex("  dr6                          = ", c.dr6 as u64, &mut s);
                push_line_hex("  dr7                          = ", c.dr7 as u64, &mut s);
                push_line_hex(
                    "  float_save.control_word      = ",
                    c.float_save.control_word as u64,
                    &mut s,
                );
                push_line_hex(
                    "  float_save.status_word       = ",
                    c.float_save.status_word as u64,
                    &mut s,
                );
                push_line_hex(
                    "  float_save.tag_word          = ",
                    c.float_save.tag_word as u64,
                    &mut s,
                );
                push_line_hex(
                    "  float_save.error_offset      = ",
                    c.float_save.error_offset as u64,
                    &mut s,
                );
                push_line_hex(
                    "  float_save.error_selector    = ",
                    c.float_save.error_selector as u64,
                    &mut s,
                );
                push_line_hex(
                    "  float_save.data_offset       = ",
                    c.float_save.data_offset as u64,
                    &mut s,
                );
                push_line_hex(
                    "  float_save.data_selector     = ",
                    c.float_save.data_selector as u64,
                    &mut s,
                );
                s.append("  float_save.register_area[80] = 0x");
                crate::text::push_bytes_hex(c.float_save.register_area.as_slice(), &mut s);
                s.append("\n");
                push_line_hex(
                    "  float_save.cr0_npx_state     = ",
                    c.float_save.cr0_npx_state as u64,
                    &mut s,
                );
                push_line_hex("  gs                           = ", c.gs as u64, &mut s);
                push_line_hex("  fs                           = ", c.fs as u64, &mut s);
                push_line_hex("  es                           = ", c.es as u64, &mut s);
                push_line_hex("  ds                           = ", c.ds as u64, &mut s);
                push_line_hex("  edi                          = ", c.edi as u64, &mut s);
                push_line_hex("  esi                          = ", c.esi as u64, &mut s);
                push_line_hex("  ebx                          = ", c.ebx as u64, &mut s);
                push_line_hex("  edx                          = ", c.edx as u64, &mut s);
                push_line_hex("  ecx                          = ", c.ecx as u64, &mut s);
                push_line_hex("  eax                          = ", c.eax as u64, &mut s);
                push_line_hex("  ebp                          = ", c.ebp as u64, &mut s);
                push_line_hex("  eip                          = ", c.eip as u64, &mut s);
                push_line_hex("  cs                           = ", c.cs as u64, &mut s);
                push_line_hex("  eflags                       = ", c.eflags as u64, &mut s);
                push_line_hex("  esp                          = ", c.esp as u64, &mut s);
                push_line_hex("  ss                           = ", c.ss as u64, &mut s);
                s.append("  extended_registers[512]      = 0x");
                crate::text::push_bytes_hex(c.extended_registers.as_slice(), &mut s);
                s.append("\n\n");
                proof {
                    assert(s@ =~= spec_print_x86(*c));
                }
            },
            MinidumpRawContext::Amd64(c) => {
                push_line_hex("CONTEXT_AMD64\n  p1_home       = ", c.p1_home, &mut s);
                push_line_hex("  p2_home       = ", c.p2_home, &mut s);
                push_line_hex("  p3_home       = ", c.p3_home, &mut s);
                push_line_hex("  p4_home       = ", c.p4_home, &mut s);
                push_line_hex("  p5_home       = ", c.p5_home, &mut s);
                push_line_hex("  p6_home       = ", c.p6_home, &mut s);
                push_line_hex("  context_flags = ", c.context_flags as u64, &mut s);
                push_line_hex("  mx_csr        = ", c.mx_csr as u64, &mut s);
                push_line_hex("  cs            = ", c.cs as u64, &mut s);
                push_line_hex("  ds            = ", c.ds as u64, &mut s);
                push_line_hex("  es            = ", c.es as u64, &mut s);
                push_line_hex("  fs            = ", c.fs as u64, &mut s);
                push_line_hex("  gs            = ", c.gs as u64, &mut s);
                push_line_hex("  ss            = ", c.ss as u64, &mut s);
                push_line_hex("  eflags        = ", c.eflags as u64, &mut s);
                push_line_hex("  dr0           = ", c.dr0, &mut s);
                push_line_hex("  dr1           = ", c.dr1, &mut s);
                push_line_hex("  dr2           = ", c.dr2, &mut s);
                push_line_hex("  dr3           = ", c.dr3, &mut s);
                push_line_hex("  dr6           = ", c.dr6, &mut s);
                push_line_hex("  dr7           = ", c.dr7, &mut s);
                push_line_hex("  rax           = ", c.rax, &mut s);
                push_line_hex("  rcx           = ", c.rcx, &mut s);
                push_line_hex("  rdx           = ", c.rdx, &mut s);
                push_line_hex("  rbx           = ", c.rbx, &mut s);
                push_line_hex("  rsp           = ", c.rsp, &mut s);
                push_line_hex("  rbp           = ", c.rbp, &mut s);
                push_line_hex("  rsi           = ", c.rsi, &mut s);
                push_line_hex("  rdi           = ", c.rdi, &mut s);
                push_line_hex("  r8            = ", c.r8, &mut s);
                push_line_hex("  r9            = ", c.r9, &mut s);
                push_line_hex("  r10           = ", c.r10, &mut s);
                push_line_hex("  r11           = ", c.r11, &mut s);
                push_line_hex("  r12           = ", c.r12, &mut s);
                push_line_hex("  r13           = ", c.r13, &mut s);
                push_line_hex("  r14           = ", c.r14, &mut s);
                push_line_hex("  r15           = ", c.r15, &mut s);
                push_line_hex("  rip           = ", c.rip, &mut s);
                s.append("\n");
                proof {
                    assert(s@ =~= spec_print_amd64(*c));
                }
            },
            MinidumpRawContext::Arm(c) => {
                push_line_hex("CONTEXT_ARM\n  context_flags       = ", c.context_flags as u64, &mut s);
                let ghost base1 = s@;
                let ghost ivs = c.iregs@.map_values(|x: u32| x as nat);
                let mut i: usize = 0;
                proof {
                    assert(s@ =~= base1 + indexed_lines("  iregs["@, "]            = "@, ivs, 0));
                }
                while i < 16
                    invariant
                        i <= 16,
                        c.iregs@.len() == 16,
                        ivs == c.iregs@.map_values(|x: u32| x as nat),
                        s@ == base1 + indexed_lines("  iregs["@, "]            = "@, ivs, i as int),
                    decreases 16 - i,
                {
                    push_indexed_line("  iregs[", i as u32, "]            = ", c.iregs[i] as u64, &mut s);
                    proof {
                        assert(ivs[i as int] == c.iregs@[i as int] as nat);
                        assert(s@ =~= base1 + indexed_lines(
                            "  iregs["@,
                            "]            = "@,
                            ivs,
                            i + 1,
                        ));
                    }
                    i = i + 1;
                }
                push_line_hex("  cpsr                = ", c.cpsr as u64, &mut s);
                push_line_hex("  float_save.fpscr     = ", c.float_save.fpscr, &mut s);
                let ghost base2 = s@;
                let ghost fvs = c.float_save.regs@.map_values(|x: u64| x as nat);
                let mut j: usize = 0;
                proof {
                    assert(s@ =~= base2 + indexed_lines("  float_save.regs["@, "] = "@, fvs, 0));
                }
                while j < 32
                    invariant
                        j <= 32,
                        c.float_save.regs@.len() == 32,
                        fvs == c.float_save.regs@.map_values(|x: u64| x as nat),
                        s@ == base2 + indexed_lines("  float_save.regs["@, "] = "@, fvs, j as int),
                    decreases 32 - j,
                {
                    push_indexed_line("  float_save.regs[", j as u32, "] = ", c.float_save.regs[j], &mut s);
                    proof {
                        assert(fvs[j as int] == c.float_save.regs@[j as int] as nat);
                        assert(s@ =~= base2 + indexed_lines(
                            "  float_save.regs["@,
                            "] = "@,
                            fvs,
                            j + 1,
                        ));
                    }
                    j = j + 1;
                }
                let ghost base3 = s@;
                let ghost evs = c.float_save.extra@.map_values(|x: u32| x as nat);
                let mut k: usize = 0;
                proof {
                    assert(s@ =~= base3 + indexed_lines("  float_save.extra["@, "] = "@, evs, 0));
                }
                while k < 8
                    invariant
                        k <= 8,
                        c.float_save.extra@.len() == 8,
                        evs == c.float_save.extra@.map_values(|x: u32| x as nat),
                        s@ == base3 + indexed_lines("  float_save.extra["@, "] = "@, evs, k as int),
                    decreases 8 - k,
                {
                    push_indexed_line(
                        "  float_save.extra[",
                        k as u32,
                        "] = ",
                        c.float_save.extra[k] as u64,
                        &mut s,
                    );
                    proof {
                        assert(evs[k as int] == c.float_save.extra@[k as int] as nat);
                        assert(s@ =~= base3 + indexed_lines(
                            "  float_save.extra["@,
                            "] = "@,
                            evs,
                            k + 1,
                        ));
                    }
                    k = k + 1;
                }
                proof {
                    assert(s@ =~= spec_print_arm(*c));
                }
            },
            MinidumpRawContext::Arm64(c) => {
                s = print_arm64_regs(
                    c.context_flags as u64,
                    &c.iregs,
                    c.pc,
                    c.cpsr,
                    c.float_save.fpsr,
                    c.float_save.fpcr,
                    &c.float_save.regs,
                );
            },
            MinidumpRawContext::OldArm64(c) => {
                s = print_arm64_regs(
                    c.context_flags as u64,
                    &c.iregs,
                    c.pc,
                    c.cpsr,
                    c.float_save.fpsr,
                    c.float_save.fpcr,
                    &c.float_save.regs,
                );
            },
            _ => {
                proof {
                    assert(false);
                }
            },
        }
        s
    }
}

/// The `All` validity admits every register name. By the contracts
/// of `get_register` and `get_register_always`, a register lookup
/// with validity `All` therefore always hands back `Some` of the
/// unconditional lookup's value, for every listed register of every
/// supported architecture.
pub proof fn lemma_all_validity_allows(name: Seq<char>)
    ensures
        MinidumpContextValidity::All.spec_allows(name),
{
}

/// A formatted register value has exactly `2 + 2 * width` characters,
/// `width` the architecture's natural register width in bytes, and is
/// the register's value rendered as zero-padded lower-case
/// hexadecimal behind `0x`.
pub proof fn lemma_format_register_shape(ctx: MinidumpContext, name: Seq<char>)
    requires
        ctx.spec_supports_registers(),
    ensures
        ctx.spec_format_register(name).len() == 2 + 2 * ctx.spec_register_width_bytes(),
        match ctx.raw {
            MinidumpRawContext::X86(c) => ctx.spec_format_register(name) == hex_format(
                c.spec_reg_nat(name),
                8,
            ),
            MinidumpRawContext::Amd64(c) => ctx.spec_format_register(name) == hex_format(
                c.spec_reg_nat(name),
                16,
            ),
            MinidumpRawContext::Arm64(c) => ctx.spec_format_register(name) == hex_format(
                c.spec_reg_nat(name),
                16,
            ),
            MinidumpRawContext::OldArm64(c) => ctx.spec_format_register(name) == hex_format(
                c.spec_reg_nat(name),
                16,
            ),
            _ => true,
        },
{
    match ctx.raw {
        MinidumpRawContext::X86(c) => {
            crate::text::lemma_hex_format_len(c.spec_reg_nat(name), 8);
        },
        MinidumpRawContext::Amd64(c) => {
            crate::text::lemma_hex_format_len(c.spec_reg_nat(name), 16);
        },
        MinidumpRawContext::Arm64(c) => {
            crate::text::lemma_hex_format_len(c.spec_reg_nat(name), 16);
        },
        MinidumpRawContext::OldArm64(c) => {
            crate::text::lemma_hex_format_len(c.spec_reg_nat(name), 16);
        },
        _ => {
        },
    }
}

/// Round trip: a context whose instruction-pointer and stack-pointer
/// registers hold the same values as before — exactly what
/// `set_register`'s contract gives when those registers are written
/// with the values `get_register_always` read — reports the same
/// instruction pointer and stack pointer.
pub proof fn lemma_pointer_roundtrip(pre: MinidumpContext, post: MinidumpContext)
    requires
        pre.wf(),
        post.wf(),
        pre.spec_supports_registers(),
        match (pre.raw, post.raw) {
            (MinidumpRawContext::X86(a), MinidumpRawContext::X86(b)) => {
                &&& b.spec_reg(CONTEXT_X86::spec_ip_name()) == a.spec_reg(
                    CONTEXT_X86::spec_ip_name(),
                )
                &&& b.spec_reg(CONTEXT_X86::spec_sp_name()) == a.spec_reg(
                    CONTEXT_X86::spec_sp_name(),
                )
            },
            (MinidumpRawContext::Amd64(a), MinidumpRawContext::Amd64(b)) => {
                &&& b.spec_reg(CONTEXT_AMD64::spec_ip_name()) == a.spec_reg(
                    CONTEXT_AMD64::spec_ip_name(),
                )
                &&& b.spec_reg(CONTEXT_AMD64::spec_sp_name()) == a.spec_reg(
                    CONTEXT_AMD64::spec_sp_name(),
                )
            },
            (MinidumpRawContext::Arm64(a), MinidumpRawContext::Arm64(b)) => {
                &&& b.spec_reg(CONTEXT_ARM64::spec_ip_name()) == a.spec_reg(
                    CONTEXT_ARM64::spec_ip_name(),
                )
                &&& b.spec_reg(CONTEXT_ARM64::spec_sp_name()) == a.spec_reg(
                    CONTEXT_ARM64::spec_sp_name(),
                )
            },
            (MinidumpRawContext::OldArm64(a), MinidumpRawContext::OldArm64(b)) => {
                &&& b.spec_reg(CONTEXT_ARM64_OLD::spec_ip_name()) == a.spec_reg(
                    CONTEXT_ARM64_OLD::spec_ip_name(),
                )
                &&& b.spec_reg(CONTEXT_ARM64_OLD::spec_sp_name()) == a.spec_reg(
                    CONTEXT_ARM64_OLD::spec_sp_name(),
                )
            },
            _ => false,
        },
    ensures
        post.spec_instruction_pointer() == pre.spec_instruction_pointer(),
        post.spec_stack_pointer() == pre.spec_stack_pointer(),
{
    reveal_strlit("eip");
    reveal_strlit("esp");
    reveal_strlit("rax");
    reveal_strlit("rdx");
    reveal_strlit("rcx");
    reveal_strlit("rbx");
    reveal_strlit("rsi");
    reveal_strlit("rdi");
    reveal_strlit("rbp");
    reveal_strlit("rsp");
    reveal_strlit("r8");
    reveal_strlit("r9");
    reveal_strlit("r10");
    reveal_strlit("r11");
    reveal_strlit("r12");
    reveal_strlit("r13");
    reveal_strlit("r14");
    reveal_strlit("r15");
    reveal_strlit("rip");
    reveal_strlit("pc");
    reveal_strlit("fp");
    reveal_strlit("sp");
    assert("esp"@ != "eip"@) by {
        assert("esp"@[1] == 's');
        assert("eip"@[1] == 'i');
    }
    assert("rip"@ != "rax"@) by {
        assert("rip"@[1] == 'i');
        assert("rax"@[1] == 'a');
    }
    assert("rip"@ != "rdx"@) by {
        assert("rip"@[1] == 'i');
        assert("rdx"@[1] == 'd');
    }
    assert("rip"@ != "rcx"@) by {
        assert("rip"@[1] == 'i');
        assert("rcx"@[1] == 'c');
    }
    assert("rip"@ != "rbx"@) by {
        assert("rip"@[1] == 'i');
        assert("rbx"@[1] == 'b');
    }
    assert("rip"@ != "rsi"@) by {
        assert("rip"@[1] == 'i');
        assert("rsi"@[1] == 's');
    }
    assert("rip"@ != "rdi"@) by {
        assert("rip"@[1] == 'i');
        assert("rdi"@[1] == 'd');
    }
    assert("rip"@ != "rbp"@) by {
        assert("rip"@[1] == 'i');
        assert("rbp"@[1] == 'b');
    }
    assert("rip"@ != "rsp"@) by {
        assert("rip"@[1] == 'i');
        assert("rsp"@[1] == 's');
    }
    assert("rip"@ != "r8"@) by {
        assert("rip"@.len() == 3);
        assert("r8"@.len() == 2);
    }
    assert("rip"@ != "r9"@) by {
        assert("rip"@.len() == 3);
        assert("r9"@.len() == 2);
    }
    assert("rip"@ != "r10"@) by {
        assert("rip"@[1] == 'i');
        assert("r10"@[1] == '1');
    }
    assert("rip"@ != "r11"@) by {
        assert("rip"@[1] == 'i');
        assert("r11"@[1] == '1');
    }
    assert("rip"@ != "r12"@) by {
        assert("rip"@[1] == 'i');
        assert("r12"@[1] == '1');
    }
    assert("rip"@ != "r13"@) by {
        assert("rip"@[1] == 'i');
        assert("r13"@[1] == '1');
    }
    assert("rip"@ != "r14"@) by {
        assert("rip"@[1] == 'i');
        assert("r14"@[1] == '1');
    }
    assert("rip"@ != "r15"@) by {
        assert("rip"@[1] == 'i');
        assert("r15"@[1] == '1');
    }
    assert("rsp"@ != "rax"@) by {
        assert("rsp"@[1] == 's');
        assert("rax"@[1] == 'a');
    }
    assert("rsp"@ != "rdx"@) by {
        assert("rsp"@[1] == 's');
        assert("rdx"@[1] == 'd');
    }
    assert("rsp"@ != "rcx"@) by {
        assert("rsp"@[1] == 's');
        assert("rcx"@[1] == 'c');
    }
    assert("rsp"@ != "rbx"@) by {
        assert("rsp"@[1] == 's');
        assert("rbx"@[1] == 'b');
    }
    assert("rsp"@ != "rsi"@) by {
        assert("rsp"@[2] == 'p');
        assert("rsi"@[2] == 'i');
    }
    assert("rsp"@ != "rdi"@) by {
        assert("rsp"@[1] == 's');
        assert("rdi"@[1] == 'd');
    }
    assert("rsp"@ != "rbp"@) by {
        assert("rsp"@[1] == 's');
        assert("rbp"@[1] == 'b');
    }
    assert("sp"@ != "pc"@) by {
        assert("sp"@[0] == 's');
        assert("pc"@[0] == 'p');
    }
    assert("sp"@ != "fp"@) by {
        assert("sp"@[0] == 's');
        assert("fp"@[0] == 'f');
    }
    match (pre.raw, post.raw) {
        (MinidumpRawContext::X86(a), MinidumpRawContext::X86(b)) => {
            assert(a.spec_reg("eip"@) == Option::Some(a.eip));
            assert(b.spec_reg("eip"@) == Option::Some(b.eip));
            assert(a.spec_reg("esp"@) == Option::Some(a.esp));
            assert(b.spec_reg("esp"@) == Option::Some(b.esp));
        },
        (MinidumpRawContext::Amd64(a), MinidumpRawContext::Amd64(b)) => {
            assert(a.spec_reg("rip"@) == Option::Some(a.rip));
            assert(b.spec_reg("rip"@) == Option::Some(b.rip));
            assert(a.spec_reg("rsp"@) == Option::Some(a.rsp));
            assert(b.spec_reg("rsp"@) == Option::Some(b.rsp));
        },
        (MinidumpRawContext::Arm64(a), MinidumpRawContext::Arm64(b)) => {
            assert(arm64_slot("sp"@) == Option::Some(31int));
            assert(a.spec_reg("pc"@) == Option::Some(a.pc));
            assert(b.spec_reg("pc"@) == Option::Some(b.pc));
            assert(a.spec_reg("sp"@) == Option::Some(a.iregs@[31]));
            assert(b.spec_reg("sp"@) == Option::Some(b.iregs@[31]));
        },
        (MinidumpRawContext::OldArm64(a), MinidumpRawContext::OldArm64(b)) => {
            assert(arm64_slot("sp"@) == Option::Some(31int));
            assert(a.spec_reg("pc"@) == Option::Some(a.pc));
            assert(b.spec_reg("pc"@) == Option::Some(b.pc));
            assert(a.spec_reg("sp"@) == Option::Some(a.iregs@[31]));
            assert(b.spec_reg("sp"@) == Option::Some(b.iregs@[31]));
        },
        _ => {
        },
    }
}

} // verus!
