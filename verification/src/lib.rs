//! A verified parser for the minidump file format.
//!
//! A minidump is a compact binary snapshot of a crashed process. This
//! crate locates the dump's stream directory, decodes the streams it
//! understands (thread list, module lists, memory lists, system info,
//! exception, and more), decodes per-thread CPU register contexts for
//! nine architectures, and indexes modules and memory regions by
//! address through an overlap-tolerant range index.

use vstd::prelude::*;

pub mod bytes;
pub mod context;
pub mod format;
pub mod minidump;
pub mod range_index;
pub mod rangemap;
pub mod streams;
pub mod traits;
pub mod process_state;
pub mod text;

pub use crate::context::{
    ContextError, CpuContext, MinidumpContext, MinidumpContextValidity, MinidumpRawContext,
};
pub use crate::minidump::{Error, Minidump, MinidumpDirectoryEntry, MinidumpHeader};
pub use crate::streams::{
    MinidumpBreakpadInfo, MinidumpException, MinidumpMemoryList, MinidumpModule,
    MinidumpModuleList, MinidumpSystemInfo, MinidumpThreadList, MinidumpUnloadedModuleList,
};
pub use crate::traits::Module;

verus! {

/// Byte order of the integer fields of a minidump.
#[derive(Clone, Copy, Debug, PartialEq, Eq, Structural)]
pub enum Endianness {
    Little,
    Big,
}

} // verus!
