//! Common traits for minidump consumers.

use vstd::prelude::*;
use vstd::string::StringExecFns;

verus! {

/// An executable or shared library loaded in a process, as a
/// symbolizer consumes it.
///
/// Implementations are supplied by minidump consumers; the decoded
/// module records feed this interface downstream.
pub trait Module {
    /// The base address of this code module as it was loaded by the
    /// process.
    fn base_address(&self) -> u64;

    /// The size of the code module.
    fn size(&self) -> u64;

    /// The path or file name that the code module was loaded from.
    fn code_file(&self) -> String;

    /// An identifying string used to discriminate between multiple
    /// versions and builds of the same code module.
    fn code_identifier(&self) -> String;

    /// The filename containing debugging information associated with
    /// the code module, when debugging information is stored
    /// separately from the module itself.
    fn debug_file(&self) -> Option<String>;

    /// An identifying string similar to `code_identifier`, naming the
    /// specific version and build of the associated debug file.
    fn debug_identifier(&self) -> Option<String>;

    /// A human-readable representation of the code module's version.
    fn version(&self) -> Option<String>;
}

/// A bare `(debug_file, debug_identifier)` pair acts as a module for
/// symbolizers that look up symbols by debug identity alone.
impl<'a> Module for (&'a str, &'a str) {
    fn base_address(&self) -> u64 {
        0
    }

    fn size(&self) -> u64 {
        0
    }

    fn code_file(&self) -> String {
        String::new()
    }

    fn code_identifier(&self) -> String {
        String::new()
    }

    fn debug_file(&self) -> Option<String> {
        Option::Some(String::from_str(self.0))
    }

    fn debug_identifier(&self) -> Option<String> {
        Option::Some(String::from_str(self.1))
    }

    fn version(&self) -> Option<String> {
        Option::None
    }
}

} // verus!
