//! The state of a process, as analysis of a dump reconstructs it:
//! per-thread call stacks of frames, and the system and module
//! information the dump carried.

use vstd::prelude::*;
use vstd::string::StringExecFns;
use vstd::std_specs::cmp::PartialEqSpec;
use crate::context::MinidumpContext;
use crate::streams::{Cpu, Os, MinidumpModule, MinidumpModuleList, MinidumpUnloadedModuleList};
use crate::text::hex_zero_pad;

verus! {

/// Indicates how well the instruction pointer derived during stack
/// walking is trusted. Since a stack walker can resort to stack
/// scanning, it can wind up with dubious frames.
#[derive(Clone, Copy, Debug, PartialEq, Eq, Structural)]
pub enum FrameTrust {
    /// Unknown.
    Unknown,
    /// Scanned the stack, found this.
    Scan,
    /// Found while scanning stack using call frame info.
    CfiScan,
    /// Derived from frame pointer.
    FramePointer,
    /// Derived from call frame info.
    CallFrameInfo,
    /// Explicitly provided by some external stack walker.
    PreWalked,
    /// Given as instruction pointer in a context.
    Context,
}

impl FrameTrust {
    /// How the stack walker found the frame, in words.
    pub open spec fn spec_description(self) -> Seq<char> {
        match self {
            FrameTrust::Context => "given as instruction pointer in context"@,
            FrameTrust::PreWalked => "recovered by external stack walker"@,
            FrameTrust::CallFrameInfo => "call frame info"@,
            FrameTrust::CfiScan => "call frame info with scanning"@,
            FrameTrust::FramePointer => "previous frame's frame pointer"@,
            FrameTrust::Scan => "stack scanning"@,
            FrameTrust::Unknown => "unknown"@,
        }
    }

    /// Return a string describing how a stack frame was found by the
    /// stackwalker.
    pub fn description(&self) -> (r: &'static str)
        ensures
            r@ == self.spec_description(),
    {
        proof {
            reveal_strlit("given as instruction pointer in context");
            reveal_strlit("recovered by external stack walker");
            reveal_strlit("call frame info");
            reveal_strlit("call frame info with scanning");
            reveal_strlit("previous frame's frame pointer");
            reveal_strlit("stack scanning");
            reveal_strlit("unknown");
        }
        match self {
            FrameTrust::Context => "given as instruction pointer in context",
            FrameTrust::PreWalked => "recovered by external stack walker",
            FrameTrust::CallFrameInfo => "call frame info",
            FrameTrust::CfiScan => "call frame info with scanning",
            FrameTrust::FramePointer => "previous frame's frame pointer",
            FrameTrust::Scan => "stack scanning",
            FrameTrust::Unknown => "unknown",
        }
    }

    /// The short name the JSON report schema uses for the trust level.
    pub open spec fn spec_json_name(self) -> Seq<char> {
        match self {
            FrameTrust::Context => "context"@,
            FrameTrust::PreWalked => "prewalked"@,
            FrameTrust::CallFrameInfo => "cfi"@,
            FrameTrust::CfiScan => "cfi_scan"@,
            FrameTrust::FramePointer => "frame_pointer"@,
            FrameTrust::Scan => "scan"@,
            FrameTrust::Unknown => "non"@,
        }
    }

    /// The short name the JSON report schema uses for the trust level.
    pub fn json_name(&self) -> (r: &'static str)
        ensures
            r@ == self.spec_json_name(),
    {
        proof {
            reveal_strlit("context");
            reveal_strlit("prewalked");
            reveal_strlit("cfi");
            reveal_strlit("cfi_scan");
            reveal_strlit("frame_pointer");
            reveal_strlit("scan");
            reveal_strlit("non");
        }
        match self {
            FrameTrust::Context => "context",
            FrameTrust::PreWalked => "prewalked",
            FrameTrust::CallFrameInfo => "cfi",
            FrameTrust::CfiScan => "cfi_scan",
            FrameTrust::FramePointer => "frame_pointer",
            FrameTrust::Scan => "scan",
            FrameTrust::Unknown => "non",
        }
    }
}

/// A single stack frame produced from unwinding a thread's stack.
///
/// The program counter is an absolute virtual address: exact for the
/// innermost frame, and within the calling instruction for every
/// other frame.
#[derive(Debug, Clone)]
pub struct StackFrame {
    /// The program counter location as an absolute virtual address.
    pub instruction: u64,
    /// The module in which the instruction resides.
    pub module: Option<MinidumpModule>,
    /// The function name, if debug symbols supplied one.
    pub function_name: Option<String>,
    /// The start address of the function, if known.
    pub function_base: Option<u64>,
    /// The size, in bytes, of the arguments pushed on the stack for
    /// this function.
    pub parameter_size: Option<u32>,
    /// The source file name, if debug symbols supplied one.
    pub source_file_name: Option<String>,
    /// The (1-based) source line number, if known.
    pub source_line: Option<u32>,
    /// The start address of the source line, if known.
    pub source_line_base: Option<u64>,
    /// Amount of trust the stack walker has in the instruction
    /// pointer of this frame.
    pub trust: FrameTrust,
    /// The CPU context containing register state for this frame.
    pub context: MinidumpContext,
}

impl StackFrame {
    /// Create a `StackFrame` from a `MinidumpContext`: its
    /// instruction pointer, the given trust, and nothing symbolized
    /// yet.
    pub fn from_context(context: MinidumpContext, trust: FrameTrust) -> (r: StackFrame)
        requires
            context.wf(),
        ensures
            r.instruction == context.spec_instruction_pointer(),
            r.module is None,
            r.function_name is None,
            r.function_base is None,
            r.parameter_size is None,
            r.source_file_name is None,
            r.source_line is None,
            r.source_line_base is None,
            r.trust == trust,
            r.context == context,
    {
        let instruction = context.get_instruction_pointer();
        StackFrame {
            instruction,
            module: Option::None,
            function_name: Option::None,
            function_base: Option::None,
            parameter_size: Option::None,
            source_file_name: Option::None,
            source_line: Option::None,
            source_line_base: Option::None,
            trust,
            context,
        }
    }

    /// The actual return address, as saved on the stack or in a
    /// register.
    pub fn return_address(&self) -> (r: u64)
        ensures
            r == self.instruction,
    {
        self.instruction
    }

    /// The frame's program counter, for a symbolizer to look up.
    pub fn get_instruction(&self) -> (r: u64)
        ensures
            r == self.instruction,
    {
        self.instruction
    }

    /// Record the function a symbolizer resolved for this frame.
    pub fn set_function(&mut self, name: &str, base: u64, parameter_size: u32)
        ensures
            *final(self) == (StackFrame {
                function_name: Option::Some(final(self).function_name.unwrap()),
                function_base: Option::Some(base),
                parameter_size: Option::Some(parameter_size),
                ..*old(self)
            }),
            final(self).function_name.unwrap()@ == name@,
    {
        self.function_name = Option::Some(String::from_str(name));
        self.function_base = Option::Some(base);
        self.parameter_size = Option::Some(parameter_size);
    }

    /// Record the source location a symbolizer resolved for this
    /// frame.
    pub fn set_source_file(&mut self, file: &str, line: u32, base: u64)
        ensures
            *final(self) == (StackFrame {
                source_file_name: Option::Some(final(self).source_file_name.unwrap()),
                source_line: Option::Some(line),
                source_line_base: Option::Some(base),
                ..*old(self)
            }),
            final(self).source_file_name.unwrap()@ == file@,
    {
        self.source_file_name = Option::Some(String::from_str(file));
        self.source_line = Option::Some(line);
        self.source_line_base = Option::Some(base);
    }
}

/// Information about the results of unwinding a thread's stack.
#[derive(Clone, Copy, Debug, PartialEq, Eq, Structural)]
pub enum CallStackInfo {
    /// Everything went great.
    Complete,
    /// No context was provided, couldn't do anything.
    MissingContext,
    /// No stack memory was provided, couldn't unwind past the top
    /// frame.
    MissingMemory,
    /// The CPU type is unsupported.
    UnsupportedCpu,
    /// This thread wrote the minidump, it was skipped.
    DumpThreadSkipped,
}

/// A stack of frames produced as a result of unwinding a thread.
///
/// By convention, the frame at index 0 is the innermost callee frame,
/// and the frame at the highest index is the outermost caller.
#[derive(Debug, Clone)]
pub struct CallStack {
    /// The stack frames, innermost first.
    pub frames: Vec<StackFrame>,
    /// Information about this stack.
    pub info: CallStackInfo,
}

impl CallStack {
    /// Create a `CallStack` with `info` and no frames.
    pub fn with_info(info: CallStackInfo) -> (r: CallStack)
        ensures
            r.info == info,
            r.frames@.len() == 0,
    {
        CallStack { frames: Vec::new(), info }
    }
}

/// Why the process crashed: the exception code of its exception
/// record.
#[derive(Clone, Copy, Debug, PartialEq, Eq, Structural)]
pub struct CrashReason {
    pub exception_code: u32,
}

/// Information about the system the dump was written on.
#[derive(Clone, Debug, PartialEq)]
pub struct SystemInfo {
    /// The operating system that wrote the dump.
    pub os: Os,
    /// The OS version, dotted `major.minor.build`, when known.
    pub os_version: Option<String>,
    /// The CPU family.
    pub cpu: Cpu,
    /// A string further identifying the CPU, when the dump had one.
    pub cpu_info: Option<String>,
    /// How many processors the system had.
    pub cpu_count: usize,
}

/// Whether an optional value is present and equal to `val`.
pub fn eq_some<T: PartialEqSpec>(opt: Option<T>, val: T) -> (r: bool)
    ensures
        T::obeys_eq_spec() ==> r == match opt {
            Option::Some(v) => v.eq_spec(&val),
            Option::None => false,
        },
{
    match opt {
        Option::Some(v) => v == val,
        Option::None => false,
    }
}

/// The index of the last path separator of `s`, either slash kind.
pub open spec fn spec_last_separator(s: Seq<char>) -> Option<int>
    decreases s.len(),
{
    if s.len() == 0 {
        Option::None
    } else if s.last() == '/' || s.last() == '\\' {
        Option::Some(s.len() - 1)
    } else {
        spec_last_separator(s.drop_last())
    }
}

/// What follows the last path separator of `s`; all of it when it has
/// none.
pub open spec fn spec_basename(s: Seq<char>) -> Seq<char> {
    match spec_last_separator(s) {
        Option::Some(i) => s.subrange(i + 1, s.len() as int),
        Option::None => s,
    }
}

/// The file name of a path: what follows its last slash or backslash.
pub fn basename<'a>(f: &'a str) -> (r: &'a str)
    ensures
        r@ == spec_basename(f@),
{
    let n = f.unicode_len();
    proof {
        assert(f@.subrange(0, n as int) =~= f@);
    }
    let mut i: usize = n;
    while i > 0
        invariant
            i <= n,
            n == f@.len(),
            spec_last_separator(f@) == spec_last_separator(f@.subrange(0, i as int)),
        decreases i,
    {
        let c = f.get_char(i - 1);
        if c == '/' || c == '\\' {
            proof {
                assert(f@.subrange(0, i as int).last() == f@[i - 1]);
                assert(spec_last_separator(f@) == Option::Some(i - 1));
            }
            let r = f.substring_char(i, n);
            return r;
        }
        proof {
            assert(f@.subrange(0, i as int).drop_last() =~= f@.subrange(0, i - 1));
            assert(f@.subrange(0, i as int).last() == f@[i - 1]);
        }
        i = i - 1;
    }
    proof {
        assert(f@.subrange(0, 0) =~= Seq::<char>::empty());
        assert(spec_last_separator(f@) is None);
        assert(spec_basename(f@) == f@);
    }
    f
}

/// The state of a process as recorded by a minidump.
#[derive(Debug, Clone)]
pub struct ProcessState {
    /// The PID of the process, when known.
    pub process_id: Option<u32>,
    /// When the minidump was written, in seconds since the epoch.
    pub time: u64,
    /// When the process started, in seconds since the epoch, if
    /// available.
    pub process_create_time: Option<u64>,
    /// If the process crashed, why.
    pub crash_reason: Option<CrashReason>,
    /// The memory address implicated in the crash, if it crashed.
    pub crash_address: Option<u64>,
    /// A string describing an assertion that was hit, if present.
    pub assertion: Option<String>,
    /// The index of the thread that requested a dump be written; for
    /// a crash, the thread that crashed.
    pub requesting_thread: Option<usize>,
    /// Stacks for each thread at the time of the crash.
    pub threads: Vec<CallStack>,
    /// Information about the system on which the minidump was
    /// written.
    pub system_info: SystemInfo,
    /// The modules that were loaded into the process.
    pub modules: MinidumpModuleList,
    /// The modules the process had unloaded.
    pub unloaded_modules: MinidumpUnloadedModuleList,
}

impl ProcessState {
    /// `true` if the minidump was written in response to a process
    /// crash.
    pub fn crashed(&self) -> (r: bool)
        ensures
            r == (self.crash_reason is Some && self.crash_address is Some),
    {
        self.crash_reason.is_some() && self.crash_address.is_some()
    }

    /// An address rendered as zero-padded hexadecimal at the dump
    /// CPU's natural width: eight digits for 32-bit families, sixteen
    /// for the rest.
    pub open spec fn spec_hex_width(self) -> nat {
        match self.system_info.cpu {
            Cpu::X86 => 8,
            Cpu::Ppc => 8,
            Cpu::Sparc => 8,
            Cpu::Arm => 8,
            Cpu::Mips => 8,
            _ => 16,
        }
    }

    /// Convert an address to a hex string of uniform minimum width
    /// for the dump's CPU: zero-padded to the width, never truncated.
    pub fn json_hex(&self, val: u64) -> (r: String)
        ensures
            r@ == "0x"@ + hex_zero_pad(val as nat, self.spec_hex_width()),
    {
        let w: usize = match self.system_info.cpu {
            Cpu::X86 => 8,
            Cpu::Ppc => 8,
            Cpu::Sparc => 8,
            Cpu::Arm => 8,
            Cpu::Mips => 8,
            _ => 16,
        };
        let mut s = String::from_str("0x");
        crate::text::push_hex_zero_pad_u64(val, w, &mut s);
        s
    }
}

} // verus!
