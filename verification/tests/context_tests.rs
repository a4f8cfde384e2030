use minidump::Endianness;
use minidump::context::{
    ContextError, CpuContext, MinidumpContext, MinidumpContextValidity, MinidumpRawContext,
};
use minidump::format::{CONTEXT_AMD64_SIZE, CONTEXT_X86_SIZE, CONTEXT_ARM64_OLD_SIZE};

fn put_u32_le(buf: &mut Vec<u8>, off: usize, v: u32) {
    let b = v.to_le_bytes();
    buf[off..off + 4].copy_from_slice(&b);
}

fn put_u64_le(buf: &mut Vec<u8>, off: usize, v: u64) {
    let b = v.to_le_bytes();
    buf[off..off + 8].copy_from_slice(&b);
}

/// A 1232-byte x86-64 context blob with the given flags and rip.
fn amd64_blob(flags: u32, rip: u64) -> Vec<u8> {
    let mut buf = vec![0u8; CONTEXT_AMD64_SIZE];
    put_u32_le(&mut buf, 48, flags);
    put_u64_le(&mut buf, 248, rip);
    buf
}

/// A 716-byte x86 context blob with the given flags, eip and esp.
fn x86_blob(flags: u32, eip: u32, esp: u32) -> Vec<u8> {
    let mut buf = vec![0u8; CONTEXT_X86_SIZE];
    put_u32_le(&mut buf, 0, flags);
    put_u32_le(&mut buf, 184, eip);
    put_u32_le(&mut buf, 196, esp);
    buf
}

#[test]
fn amd64_context_by_size() {
    let blob = amd64_blob(0x10003f, 0x7ff712345678);
    let ctx = MinidumpContext::read(&blob, Endianness::Little).unwrap();
    assert_eq!(ctx.get_instruction_pointer(), 0x7ff712345678);
    assert_eq!(ctx.format_register("rip"), "0x00007ff712345678");
    match &ctx.raw {
        MinidumpRawContext::Amd64(c) => {
            assert_eq!(c.context_flags, 0x10003f);
            assert_eq!(c.rip, 0x7ff712345678);
        }
        other => panic!("wrong architecture decoded: {:?}", other),
    }
    assert_eq!(ctx.valid, MinidumpContextValidity::All);
}

#[test]
fn amd64_sized_blob_with_wrong_flags_fails() {
    // The size selects the x86-64 layout, but the flag word names x86.
    let blob = amd64_blob(0x10007, 0);
    match MinidumpContext::read(&blob, Endianness::Little) {
        Err(ContextError::ReadFailure) => {}
        other => panic!("expected a read failure, got {:?}", other),
    }
}

#[test]
fn unknown_cpu_context() {
    let mut blob = vec![0u8; 200];
    put_u32_le(&mut blob, 0, 0xdead0000);
    match MinidumpContext::read(&blob, Endianness::Little) {
        Err(ContextError::UnknownCpuContext) => {}
        other => panic!("expected an unknown CPU, got {:?}", other),
    }
}

#[test]
fn short_context_fails() {
    let blob = vec![0u8; 3];
    match MinidumpContext::read(&blob, Endianness::Little) {
        Err(ContextError::ReadFailure) => {}
        other => panic!("expected a read failure, got {:?}", other),
    }
}

#[test]
fn x86_context_by_flags() {
    let blob = x86_blob(0x10007, 0x401000, 0x7ffe0000);
    let ctx = MinidumpContext::read(&blob, Endianness::Little).unwrap();
    assert_eq!(ctx.get_instruction_pointer(), 0x401000);
    assert_eq!(ctx.get_stack_pointer(), 0x7ffe0000);
    assert_eq!(ctx.format_register("eip"), "0x00401000");
}

#[test]
fn x86_context_with_trailing_bytes() {
    // Flag-dispatched records tolerate extra bytes after the record.
    let mut blob = x86_blob(0x10007, 0x1234, 0x5678);
    blob.extend_from_slice(&[0u8; 10]);
    let ctx = MinidumpContext::read(&blob, Endianness::Little).unwrap();
    assert_eq!(ctx.get_instruction_pointer(), 0x1234);
}

#[test]
fn get_register_with_all_validity_matches_always() {
    let blob = x86_blob(0x10007, 0xdead, 0xbeef);
    let ctx = MinidumpContext::read(&blob, Endianness::Little).unwrap();
    let names = ctx.general_purpose_registers();
    match &ctx.raw {
        MinidumpRawContext::X86(c) => {
            for name in names {
                let always = c.get_register_always(name);
                assert_eq!(c.get_register(name, &MinidumpContextValidity::All), Some(always));
            }
        }
        other => panic!("wrong architecture decoded: {:?}", other),
    }
}

#[test]
fn get_register_respects_restricted_validity() {
    let blob = x86_blob(0x10007, 0xdead, 0xbeef);
    let ctx = MinidumpContext::read(&blob, Endianness::Little).unwrap();
    let valid = MinidumpContextValidity::Restricted(vec![String::from("eip")]);
    match &ctx.raw {
        MinidumpRawContext::X86(c) => {
            assert_eq!(c.get_register("eip", &valid), Some(0xdead));
            assert_eq!(c.get_register("esp", &valid), None);
        }
        other => panic!("wrong architecture decoded: {:?}", other),
    }
}

#[test]
fn format_register_width_per_architecture() {
    let blob = x86_blob(0x10007, 0x2a, 0);
    let ctx = MinidumpContext::read(&blob, Endianness::Little).unwrap();
    for name in ctx.general_purpose_registers() {
        let s = ctx.format_register(name);
        assert_eq!(s.len(), 2 + 2 * 4);
    }
    assert_eq!(ctx.format_register("eip"), "0x0000002a");

    let blob = amd64_blob(0x10003f, 0x2a);
    let ctx = MinidumpContext::read(&blob, Endianness::Little).unwrap();
    for name in ctx.general_purpose_registers() {
        let s = ctx.format_register(name);
        assert_eq!(s.len(), 2 + 2 * 8);
    }
}

#[test]
fn set_register_roundtrip_keeps_pointers() {
    let blob = x86_blob(0x10007, 0xcafe, 0xf00d);
    let ctx = MinidumpContext::read(&blob, Endianness::Little).unwrap();
    let ip_before = ctx.get_instruction_pointer();
    let sp_before = ctx.get_stack_pointer();
    let mut raw = match ctx.raw {
        MinidumpRawContext::X86(c) => c,
        other => panic!("wrong architecture decoded: {:?}", other),
    };
    let ip_name = raw.instruction_pointer_register_name();
    let sp_name = raw.stack_pointer_register_name();
    let ip = raw.get_register_always(ip_name);
    let sp = raw.get_register_always(sp_name);
    assert_eq!(raw.set_register(ip_name, ip), Some(()));
    assert_eq!(raw.set_register(sp_name, sp), Some(()));
    let after = MinidumpContext::from_raw(MinidumpRawContext::X86(raw));
    assert_eq!(after.get_instruction_pointer(), ip_before);
    assert_eq!(after.get_stack_pointer(), sp_before);
}

#[test]
fn set_register_unknown_name_is_refused() {
    let blob = x86_blob(0x10007, 1, 2);
    let mut raw = match MinidumpContext::read(&blob, Endianness::Little).unwrap().raw {
        MinidumpRawContext::X86(c) => c,
        other => panic!("wrong architecture decoded: {:?}", other),
    };
    assert_eq!(raw.set_register("rip", 7), None);
    assert_eq!(raw.get_register_always("eip"), 1);
}

#[test]
fn memoize_register_finds_listed_names() {
    let blob = x86_blob(0x10007, 1, 2);
    let raw = match MinidumpContext::read(&blob, Endianness::Little).unwrap().raw {
        MinidumpRawContext::X86(c) => c,
        other => panic!("wrong architecture decoded: {:?}", other),
    };
    assert_eq!(raw.memoize_register("ebx"), Some("ebx"));
    assert_eq!(raw.memoize_register("rax"), None);
}

#[test]
fn arm64_old_context_by_size() {
    let mut blob = vec![0u8; CONTEXT_ARM64_OLD_SIZE];
    // context_flags is 64 bits wide in the older layout.
    put_u64_le(&mut blob, 0, 0x80000002);
    put_u64_le(&mut blob, 264, 0x11223344);
    // x31 is the stack pointer slot.
    put_u64_le(&mut blob, 8 + 31 * 8, 0x55667788);
    let ctx = MinidumpContext::read(&blob, Endianness::Little).unwrap();
    assert_eq!(ctx.get_instruction_pointer(), 0x11223344);
    assert_eq!(ctx.get_stack_pointer(), 0x55667788);
    match &ctx.raw {
        MinidumpRawContext::OldArm64(c) => {
            assert_eq!(c.get_register_always("sp"), 0x55667788);
            assert_eq!(c.get_register_always("x31"), 0x55667788);
            assert_eq!(c.get_register_always("pc"), 0x11223344);
        }
        other => panic!("wrong architecture decoded: {:?}", other),
    }
}

#[test]
fn print_lists_x86_fields() {
    let blob = x86_blob(0x10007, 0xcafe, 0xf00d);
    let ctx = MinidumpContext::read(&blob, Endianness::Little).unwrap();
    let text = ctx.print();
    assert!(text.starts_with("CONTEXT_X86\n  context_flags                = 0x10007\n"));
    assert!(text.contains("  eip                          = 0xcafe\n"));
    assert!(text.contains("  esp                          = 0xf00d\n"));
    // The 80-byte x87 register area prints as 160 hex digits.
    let area_line = text
        .lines()
        .find(|l| l.starts_with("  float_save.register_area[80] = 0x"))
        .unwrap();
    assert_eq!(area_line.len(), "  float_save.register_area[80] = 0x".len() + 160);
    assert!(text.ends_with("\n\n"));
}

#[test]
fn print_lists_amd64_fields() {
    let blob = amd64_blob(0x10003f, 0x7ff712345678);
    let ctx = MinidumpContext::read(&blob, Endianness::Little).unwrap();
    let text = ctx.print();
    assert!(text.starts_with("CONTEXT_AMD64\n  p1_home       = 0x0\n"));
    assert!(text.contains("  context_flags = 0x10003f\n"));
    assert!(text.contains("  rip           = 0x7ff712345678\n"));
}

#[test]
fn print_lists_arm64_registers() {
    let mut blob = vec![0u8; minidump::format::CONTEXT_ARM64_OLD_SIZE];
    blob[0..8].copy_from_slice(&0x80000002u64.to_le_bytes());
    blob[264..272].copy_from_slice(&0x1234u64.to_le_bytes());
    blob[8 + 5 * 8..8 + 5 * 8 + 8].copy_from_slice(&0xabcdu64.to_le_bytes());
    let ctx = MinidumpContext::read(&blob, Endianness::Little).unwrap();
    let text = ctx.print();
    assert!(text.starts_with("CONTEXT_ARM64\n  context_flags        = 0x80000002\n"));
    assert!(text.contains("  iregs[ 5]            = 0xabcd\n"));
    assert!(text.contains("  iregs[31]            = 0x0\n"));
    assert!(text.contains("  pc                   = 0x1234\n"));
}

#[test]
fn big_endian_context_decodes() {
    let mut blob = vec![0u8; CONTEXT_X86_SIZE];
    blob[0..4].copy_from_slice(&0x10007u32.to_be_bytes());
    blob[184..188].copy_from_slice(&0xabcdefu32.to_be_bytes());
    let ctx = MinidumpContext::read(&blob, Endianness::Big).unwrap();
    assert_eq!(ctx.get_instruction_pointer(), 0xabcdef);
}
