use minidump::Endianness;
use minidump::context::{MinidumpContext, MinidumpContextValidity, MinidumpRawContext};
use minidump::format::CONTEXT_X86_SIZE;
use minidump::process_state::{basename, eq_some, CallStack, CallStackInfo, FrameTrust, StackFrame};
use minidump::process_state::{CrashReason, ProcessState, SystemInfo};
use minidump::streams::{Cpu, MinidumpModuleList, MinidumpUnloadedModuleList, Os};
use minidump::text::{format_dec_u32, format_hex_u64, read_string_utf16, str_eq};

#[test]
fn hex_formatting_is_zero_padded() {
    assert_eq!(format_hex_u64(0x2a, 8), "0x0000002a");
    assert_eq!(format_hex_u64(0, 8), "0x00000000");
    assert_eq!(format_hex_u64(0x7ff712345678, 16), "0x00007ff712345678");
    assert_eq!(format_hex_u64(u64::MAX, 16), "0xffffffffffffffff");
    assert_eq!(format_hex_u64(0xabc, 2), "0xbc");
}

#[test]
fn decimal_formatting() {
    assert_eq!(format_dec_u32(0), "0");
    assert_eq!(format_dec_u32(7), "7");
    assert_eq!(format_dec_u32(19041), "19041");
    assert_eq!(format_dec_u32(u32::MAX), "4294967295");
}

#[test]
fn string_equality() {
    assert!(str_eq("eip", "eip"));
    assert!(!str_eq("eip", "esp"));
    assert!(!str_eq("", "a"));
}

#[test]
fn utf16_strings_read_from_buffers() {
    // "Hi!" as a length-prefixed UTF-16LE string at offset 2.
    let mut buf = vec![0u8; 2];
    buf.extend_from_slice(&6u32.to_le_bytes());
    for u in "Hi!".encode_utf16() {
        buf.extend_from_slice(&u.to_le_bytes());
    }
    assert_eq!(read_string_utf16(&buf, 2, Endianness::Little), Some(String::from("Hi!")));
    // A length that runs past the end fails.
    assert_eq!(read_string_utf16(&buf, 4, Endianness::Little), None);
    // An offset past the end fails.
    assert_eq!(read_string_utf16(&buf, buf.len() as u32, Endianness::Little), None);
}

#[test]
fn utf16_lossy_replaces_unpaired_surrogates() {
    let mut buf = Vec::new();
    buf.extend_from_slice(&2u32.to_le_bytes());
    buf.extend_from_slice(&0xd800u16.to_le_bytes());
    let s = read_string_utf16(&buf, 0, Endianness::Little).unwrap();
    assert_eq!(s, "\u{fffd}");
}

#[test]
fn basename_takes_the_last_separator() {
    assert_eq!(basename("a/b/c.txt"), "c.txt");
    assert_eq!(basename("C:\\dir\\mod.dll"), "mod.dll");
    assert_eq!(basename("plain"), "plain");
    assert_eq!(basename("trailing/"), "");
    assert_eq!(basename(""), "");
    assert_eq!(basename("mixed/dir\\leaf"), "leaf");
}

#[test]
fn frame_trust_descriptions() {
    assert_eq!(FrameTrust::Context.description(), "given as instruction pointer in context");
    assert_eq!(FrameTrust::Scan.description(), "stack scanning");
    assert_eq!(FrameTrust::Unknown.description(), "unknown");
    assert_eq!(FrameTrust::CallFrameInfo.json_name(), "cfi");
    assert_eq!(FrameTrust::Unknown.json_name(), "non");
    assert_eq!(FrameTrust::FramePointer.json_name(), "frame_pointer");
}

fn x86_context(eip: u32) -> MinidumpContext {
    let mut blob = vec![0u8; CONTEXT_X86_SIZE];
    blob[0..4].copy_from_slice(&0x10007u32.to_le_bytes());
    blob[184..188].copy_from_slice(&eip.to_le_bytes());
    MinidumpContext::read(&blob, Endianness::Little).unwrap()
}

#[test]
fn stack_frame_from_context() {
    let ctx = x86_context(0x401234);
    let frame = StackFrame::from_context(ctx, FrameTrust::Context);
    assert_eq!(frame.instruction, 0x401234);
    assert_eq!(frame.return_address(), 0x401234);
    assert_eq!(frame.get_instruction(), 0x401234);
    assert!(frame.module.is_none());
    assert!(frame.function_name.is_none());
    assert_eq!(frame.trust, FrameTrust::Context);
    assert_eq!(frame.context.valid, MinidumpContextValidity::All);
    assert!(matches!(frame.context.raw, MinidumpRawContext::X86(_)));
}

#[test]
fn stack_frame_symbolization_setters() {
    let ctx = x86_context(0x401234);
    let mut frame = StackFrame::from_context(ctx, FrameTrust::Context);
    frame.set_function("main", 0x401000, 8);
    frame.set_source_file("main.c", 17, 0x401230);
    assert_eq!(frame.function_name.as_deref(), Some("main"));
    assert_eq!(frame.function_base, Some(0x401000));
    assert_eq!(frame.parameter_size, Some(8));
    assert_eq!(frame.source_file_name.as_deref(), Some("main.c"));
    assert_eq!(frame.source_line, Some(17));
    assert_eq!(frame.source_line_base, Some(0x401230));
}

#[test]
fn call_stack_with_info_is_empty() {
    let stack = CallStack::with_info(CallStackInfo::MissingContext);
    assert!(stack.frames.is_empty());
    assert_eq!(stack.info, CallStackInfo::MissingContext);
}

#[test]
fn eq_some_compares_present_values() {
    assert!(eq_some(Some(3u64), 3));
    assert!(!eq_some(Some(3u64), 4));
    assert!(!eq_some(None, 3u64));
}

#[test]
fn process_state_crash_and_hex_width() {
    let (modules, _) = MinidumpModuleList::from_modules(vec![]);
    let mut state = ProcessState {
        process_id: Some(1234),
        time: 1_600_000_000,
        process_create_time: Some(1_599_999_000),
        crash_reason: None,
        crash_address: None,
        assertion: None,
        requesting_thread: None,
        threads: vec![],
        system_info: SystemInfo {
            os: Os::Windows,
            os_version: Some(String::from("10.0.19041")),
            cpu: Cpu::X86,
            cpu_info: None,
            cpu_count: 1,
        },
        modules,
        unloaded_modules: MinidumpUnloadedModuleList { modules: vec![] },
    };
    assert!(!state.crashed());
    state.crash_reason = Some(CrashReason { exception_code: 0xc0000005 });
    assert!(!state.crashed());
    state.crash_address = Some(0x401000);
    assert!(state.crashed());
    assert_eq!(state.json_hex(0x401000), "0x00401000");
    // Values above the CPU's natural width keep all their digits.
    assert_eq!(state.json_hex(0x1_0000_0000), "0x100000000");
    assert_eq!(state.json_hex(u64::MAX), "0xffffffffffffffff");
    state.system_info.cpu = Cpu::X86_64;
    assert_eq!(state.json_hex(0x401000), "0x0000000000401000");
    assert_eq!(state.json_hex(0), "0x0000000000000000");
}

#[test]
fn cpu_and_os_names() {
    assert_eq!(Cpu::X86.name(), "x86");
    assert_eq!(Cpu::X86_64.name(), "amd64");
    assert_eq!(Cpu::Unknown(0x1234).name(), "unknown");
    assert_eq!(minidump::streams::Os::Windows.long_name(), "Windows NT");
    assert_eq!(minidump::streams::Os::Linux.long_name(), "Linux");
}
