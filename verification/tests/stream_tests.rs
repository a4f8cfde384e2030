use minidump::Endianness;
use minidump::minidump::{
    Error, Minidump, BREAKPAD_INFO_STREAM, EXCEPTION_STREAM, MEMORY_LIST_STREAM,
    MODULE_LIST_STREAM, UNLOADED_MODULE_LIST_STREAM,
};
use minidump::streams::MinidumpLocationDescriptor;
use minidump::traits::Module;

fn push_u16_le(buf: &mut Vec<u8>, v: u16) {
    buf.extend_from_slice(&v.to_le_bytes());
}

fn push_u32_le(buf: &mut Vec<u8>, v: u32) {
    buf.extend_from_slice(&v.to_le_bytes());
}

fn push_u64_le(buf: &mut Vec<u8>, v: u64) {
    buf.extend_from_slice(&v.to_le_bytes());
}

/// A header plus a directory of `(kind, payload)` streams, payloads
/// laid out after the directory, then `extra` bytes at the tail.
fn build_dump_with_extra(streams: &[(u32, Vec<u8>)], extra: &[u8]) -> Vec<u8> {
    let mut buf = Vec::new();
    let dir_rva = 32u32;
    let mut payload_rva = dir_rva + 12 * streams.len() as u32;
    push_u32_le(&mut buf, 0x504d444d);
    push_u32_le(&mut buf, 0x0001a793);
    push_u32_le(&mut buf, streams.len() as u32);
    push_u32_le(&mut buf, dir_rva);
    push_u32_le(&mut buf, 0);
    push_u32_le(&mut buf, 0);
    push_u64_le(&mut buf, 0);
    for (kind, payload) in streams {
        push_u32_le(&mut buf, *kind);
        push_u32_le(&mut buf, payload.len() as u32);
        push_u32_le(&mut buf, payload_rva);
        payload_rva += payload.len() as u32;
    }
    for (_, payload) in streams {
        buf.extend_from_slice(payload);
    }
    buf.extend_from_slice(extra);
    buf
}

/// A length-prefixed UTF-16LE string blob.
fn utf16_string_blob(s: &str) -> Vec<u8> {
    let units: Vec<u16> = s.encode_utf16().collect();
    let mut b = Vec::new();
    push_u32_le(&mut b, (units.len() * 2) as u32);
    for u in units {
        push_u16_le(&mut b, u);
    }
    b
}

/// One module record pointing its name at `name_rva`.
fn module_record(base: u64, size: u32, name_rva: u32) -> Vec<u8> {
    let mut p = Vec::new();
    push_u64_le(&mut p, base);
    push_u32_le(&mut p, size);
    push_u32_le(&mut p, 0xc0ffee); // checksum
    push_u32_le(&mut p, 0x5f000000); // time_date_stamp
    push_u32_le(&mut p, name_rva);
    for _ in 0..13 {
        push_u32_le(&mut p, 0); // version record
    }
    push_u64_le(&mut p, 0); // cv_record
    push_u64_le(&mut p, 0); // misc_record
    push_u64_le(&mut p, 0);
    push_u64_le(&mut p, 0);
    p
}

#[test]
fn module_list_resolves_names_and_indexes_addresses() {
    // Two modules; the second's name sits at the tail of the dump.
    let name_a = utf16_string_blob("a.dll");
    let name_b = utf16_string_blob("b.dll");
    // Compute layout: header 32 + dir 12 + stream (4 + 2*108) = byte
    // 264 onward holds the names.
    let stream_len = 4 + 2 * 108;
    let names_rva = 32 + 12 + stream_len as u32;
    let mut payload = Vec::new();
    push_u32_le(&mut payload, 2);
    payload.extend_from_slice(&module_record(0x10000, 0x1000, names_rva));
    payload.extend_from_slice(&module_record(
        0x20000,
        0x2000,
        names_rva + name_a.len() as u32,
    ));
    let mut extra = name_a.clone();
    extra.extend_from_slice(&name_b);
    let dump = build_dump_with_extra(&[(MODULE_LIST_STREAM, payload)], &extra);
    let md = Minidump::read(dump).unwrap();
    let (modules, conflicts) = md.get_module_list().unwrap();
    assert!(conflicts.is_empty());
    let ms = modules.modules();
    assert_eq!(ms.len(), 2);
    assert_eq!(ms[0].name, "a.dll");
    assert_eq!(ms[1].name, "b.dll");
    assert_eq!(ms[0].base_address(), 0x10000);
    assert_eq!(ms[0].size(), 0x1000);
    assert_eq!(ms[0].checksum, 0xc0ffee);
    let hit = modules.module_at_address(0x10800).unwrap();
    assert_eq!(hit.name, "a.dll");
    assert!(modules.module_at_address(0x18000).is_none());
    let by_addr = modules.by_addr();
    assert_eq!(by_addr.len(), 2);
    assert_eq!(by_addr[0].name, "a.dll");
    assert_eq!(by_addr[1].name, "b.dll");
    assert_eq!(modules.main_module().unwrap().name, "a.dll");
}

#[test]
fn module_list_with_bad_name_reference_fails() {
    let mut payload = Vec::new();
    push_u32_le(&mut payload, 1);
    payload.extend_from_slice(&module_record(0x10000, 0x1000, 0xffff0000));
    let dump = build_dump_with_extra(&[(MODULE_LIST_STREAM, payload)], &[]);
    let md = Minidump::read(dump).unwrap();
    match md.get_module_list() {
        Err(Error::StreamReadFailure) => {}
        other => panic!("expected a stream read failure, got {:?}", other.map(|_| ())),
    }
}

#[test]
fn memory_list_decodes() {
    let mut payload = Vec::new();
    push_u32_le(&mut payload, 2);
    push_u64_le(&mut payload, 0x1000);
    push_u32_le(&mut payload, 0x100);
    push_u32_le(&mut payload, 0x500);
    push_u64_le(&mut payload, 0x9000);
    push_u32_le(&mut payload, 0x40);
    push_u32_le(&mut payload, 0x600);
    let dump = build_dump_with_extra(&[(MEMORY_LIST_STREAM, payload)], &[]);
    let md = Minidump::read(dump).unwrap();
    let (ml, dropped) = md.get_memory_list().unwrap();
    assert!(dropped.is_empty());
    let ds = ml.descriptors();
    assert_eq!(ds.len(), 2);
    assert_eq!(ds[0].start_of_memory_range, 0x1000);
    assert_eq!(ds[0].memory.data_size, 0x100);
    assert_eq!(ds[0].memory.rva, 0x500);
    assert_eq!(ds[1].start_of_memory_range, 0x9000);
    // The eager index answers address lookups.
    assert_eq!(ml.memory_at_address(0x1080).unwrap().memory.rva, 0x500);
    assert_eq!(ml.memory_at_address(0x9030).unwrap().memory.rva, 0x600);
    assert!(ml.memory_at_address(0x2000).is_none());
}

#[test]
fn memory_list_with_trailing_bytes_fails() {
    let mut payload = Vec::new();
    push_u32_le(&mut payload, 1);
    push_u64_le(&mut payload, 0x1000);
    push_u32_le(&mut payload, 0x100);
    push_u32_le(&mut payload, 0x500);
    payload.push(0);
    let dump = build_dump_with_extra(&[(MEMORY_LIST_STREAM, payload)], &[]);
    let md = Minidump::read(dump).unwrap();
    assert!(matches!(md.get_memory_list(), Err(Error::StreamReadFailure)));
}

#[test]
fn unloaded_module_list_decodes() {
    let name = utf16_string_blob("gone.dll");
    let stream_len = 12 + 24;
    let name_rva = 32 + 12 + stream_len as u32;
    let mut payload = Vec::new();
    push_u32_le(&mut payload, 12); // size_of_header
    push_u32_le(&mut payload, 24); // size_of_entry
    push_u32_le(&mut payload, 1); // number_of_entries
    push_u64_le(&mut payload, 0x70000);
    push_u32_le(&mut payload, 0x3000);
    push_u32_le(&mut payload, 0);
    push_u32_le(&mut payload, 0x5e000000);
    push_u32_le(&mut payload, name_rva);
    let dump = build_dump_with_extra(&[(UNLOADED_MODULE_LIST_STREAM, payload)], &name);
    let md = Minidump::read(dump).unwrap();
    let ul = md.get_unloaded_module_list().unwrap();
    assert_eq!(ul.modules.len(), 1);
    assert_eq!(ul.modules[0].name, "gone.dll");
    assert_eq!(ul.modules[0].base_address(), 0x70000);
    assert_eq!(ul.modules[0].size(), 0x3000);
}

#[test]
fn unloaded_module_list_rejects_small_entry_size() {
    let mut payload = Vec::new();
    push_u32_le(&mut payload, 12);
    push_u32_le(&mut payload, 8); // smaller than the known record
    push_u32_le(&mut payload, 0);
    let dump = build_dump_with_extra(&[(UNLOADED_MODULE_LIST_STREAM, payload)], &[]);
    let md = Minidump::read(dump).unwrap();
    assert!(matches!(md.get_unloaded_module_list(), Err(Error::StreamReadFailure)));
}

#[test]
fn exception_stream_decodes_with_context() {
    // The exception's context location points at an x86 context at
    // the tail of the dump.
    let mut ctx_blob = vec![0u8; 716];
    ctx_blob[0..4].copy_from_slice(&0x10007u32.to_le_bytes());
    ctx_blob[184..188].copy_from_slice(&0xdeadbeefu32.to_le_bytes());
    let stream_len = 168;
    let ctx_rva = 32 + 12 + stream_len as u32;
    let mut payload = Vec::new();
    push_u32_le(&mut payload, 42); // thread_id
    push_u32_le(&mut payload, 0); // alignment
    push_u32_le(&mut payload, 0xc0000005); // exception_code
    push_u32_le(&mut payload, 0); // exception_flags
    push_u64_le(&mut payload, 0); // chained record
    push_u64_le(&mut payload, 0x401000); // exception_address
    push_u32_le(&mut payload, 2); // number_parameters
    push_u32_le(&mut payload, 0); // alignment
    for i in 0..15u64 {
        push_u64_le(&mut payload, i);
    }
    push_u32_le(&mut payload, 716); // context size
    push_u32_le(&mut payload, ctx_rva); // context rva
    let dump = build_dump_with_extra(&[(EXCEPTION_STREAM, payload)], &ctx_blob);
    let md = Minidump::read(dump).unwrap();
    let exc = md.get_exception().unwrap();
    assert_eq!(exc.thread_id, 42);
    assert_eq!(exc.exception_code, 0xc0000005);
    assert_eq!(exc.exception_address, 0x401000);
    assert_eq!(exc.exception_information[1], 1);
    let ctx = md.read_context_at(exc.thread_context).unwrap();
    assert_eq!(ctx.get_instruction_pointer(), 0xdeadbeef);
}

#[test]
fn context_location_out_of_bounds_fails() {
    let dump = build_dump_with_extra(&[], &[]);
    let md = Minidump::read(dump).unwrap();
    let loc = MinidumpLocationDescriptor { data_size: 100, rva: 0xffff };
    assert!(md.read_context_at(loc).is_err());
}

#[test]
fn breakpad_info_decodes() {
    let mut payload = Vec::new();
    push_u32_le(&mut payload, 3); // both ids valid
    push_u32_le(&mut payload, 7);
    push_u32_le(&mut payload, 9);
    let dump = build_dump_with_extra(&[(BREAKPAD_INFO_STREAM, payload)], &[]);
    let md = Minidump::read(dump).unwrap();
    let bi = md.get_breakpad_info().unwrap();
    assert_eq!(bi.validity, 3);
    assert_eq!(bi.dump_thread_id, 7);
    assert_eq!(bi.requesting_thread_id, 9);
}

#[test]
fn breakpad_info_too_short_fails() {
    let payload = vec![1u8, 0, 0, 0];
    let dump = build_dump_with_extra(&[(BREAKPAD_INFO_STREAM, payload)], &[]);
    let md = Minidump::read(dump).unwrap();
    assert!(matches!(md.get_breakpad_info(), Err(Error::StreamReadFailure)));
}

#[test]
fn module_interface_identifiers() {
    let name = utf16_string_blob("app.exe");
    let stream_len = 4 + 108;
    let name_rva = 32 + 12 + stream_len as u32;
    let mut record = module_record(0x400000, 0x2d000, name_rva);
    // Fill in the version record: signature, then 1.2.3.4.
    record[24..28].copy_from_slice(&0xfeef04bdu32.to_le_bytes());
    record[32..36].copy_from_slice(&0x00010002u32.to_le_bytes());
    record[36..40].copy_from_slice(&0x00030004u32.to_le_bytes());
    let mut payload = Vec::new();
    push_u32_le(&mut payload, 1);
    payload.extend_from_slice(&record);
    let dump = build_dump_with_extra(&[(MODULE_LIST_STREAM, payload)], &name);
    let md = Minidump::read(dump).unwrap();
    let (modules, _) = md.get_module_list().unwrap();
    let m = &modules.modules()[0];
    assert_eq!(m.code_file(), "app.exe");
    assert_eq!(Module::code_file(m), "app.exe");
    assert_eq!(Module::base_address(m), 0x400000);
    assert_eq!(Module::size(m), 0x2d000);
    // timestamp 0x5f000000 upper-case padded, size minimal lower-case
    assert_eq!(Module::code_identifier(m), "5F0000002d000");
    assert_eq!(Module::version(m).as_deref(), Some("1.2.3.4"));
    assert_eq!(Module::debug_file(m), None);
    assert_eq!(Module::debug_identifier(m), None);
}

#[test]
fn module_pair_acts_as_module() {
    let pair = ("app.pdb", "5F0000002d000");
    assert_eq!(pair.debug_file().as_deref(), Some("app.pdb"));
    assert_eq!(pair.debug_identifier().as_deref(), Some("5F0000002d000"));
    assert_eq!(pair.base_address(), 0);
    assert_eq!(pair.version(), None);
}

#[test]
fn misc_info_decodes_with_validity_bits() {
    let mut payload = Vec::new();
    push_u32_le(&mut payload, 24); // size_of_info
    push_u32_le(&mut payload, 1); // only the process id is valid
    push_u32_le(&mut payload, 4242); // process_id
    push_u32_le(&mut payload, 1_600_000_000); // process_create_time
    push_u32_le(&mut payload, 5); // user time
    push_u32_le(&mut payload, 7); // kernel time
    let dump = build_dump_with_extra(&[(minidump::minidump::MISC_INFO_STREAM, payload)], &[]);
    let md = Minidump::read(dump).unwrap();
    let mi = md.get_misc_info().unwrap();
    assert_eq!(mi.process_id(), Some(4242));
    assert_eq!(mi.process_create_time(), None);
    // The smallest shape declares no processor speeds.
    assert_eq!(mi.processor_max_mhz, None);
}

#[test]
fn misc_info_larger_shape_declares_processor_speeds() {
    let mut payload = Vec::new();
    push_u32_le(&mut payload, 44); // size_of_info: the larger shape
    push_u32_le(&mut payload, 3); // id and times valid
    push_u32_le(&mut payload, 77); // process_id
    push_u32_le(&mut payload, 1_600_000_000); // process_create_time
    push_u32_le(&mut payload, 5); // user time
    push_u32_le(&mut payload, 7); // kernel time
    push_u32_le(&mut payload, 2600); // processor_max_mhz
    push_u32_le(&mut payload, 1800); // processor_current_mhz
    push_u32_le(&mut payload, 2600); // processor_mhz_limit
    push_u32_le(&mut payload, 2); // processor_max_idle_state
    push_u32_le(&mut payload, 1); // processor_current_idle_state
    let dump = build_dump_with_extra(&[(minidump::minidump::MISC_INFO_STREAM, payload)], &[]);
    let md = Minidump::read(dump).unwrap();
    let mi = md.get_misc_info().unwrap();
    assert_eq!(mi.process_id(), Some(77));
    assert_eq!(mi.process_create_time(), Some(1_600_000_000));
    assert_eq!(mi.processor_max_mhz, Some(2600));
    assert_eq!(mi.processor_current_mhz, Some(1800));
    assert_eq!(mi.processor_mhz_limit, Some(2600));
    assert_eq!(mi.processor_max_idle_state, Some(2));
    assert_eq!(mi.processor_current_idle_state, Some(1));
}

#[test]
fn misc_info_with_overrunning_declared_size_fails() {
    let mut payload = Vec::new();
    push_u32_le(&mut payload, 44); // declares more than the stream holds
    push_u32_le(&mut payload, 0);
    push_u32_le(&mut payload, 0);
    push_u32_le(&mut payload, 0);
    push_u32_le(&mut payload, 0);
    push_u32_le(&mut payload, 0);
    let dump = build_dump_with_extra(&[(minidump::minidump::MISC_INFO_STREAM, payload)], &[]);
    let md = Minidump::read(dump).unwrap();
    assert!(matches!(md.get_misc_info(), Err(Error::StreamReadFailure)));
}

#[test]
fn assertion_info_takes_text_to_the_first_nul() {
    let mut payload = vec![0u8; 776];
    for (i, u) in "1 == 2".encode_utf16().enumerate() {
        payload[2 * i..2 * i + 2].copy_from_slice(&u.to_le_bytes());
    }
    for (i, u) in "check".encode_utf16().enumerate() {
        payload[256 + 2 * i..256 + 2 * i + 2].copy_from_slice(&u.to_le_bytes());
    }
    for (i, u) in "main.c".encode_utf16().enumerate() {
        payload[512 + 2 * i..512 + 2 * i + 2].copy_from_slice(&u.to_le_bytes());
    }
    payload[768..772].copy_from_slice(&99u32.to_le_bytes());
    payload[772..776].copy_from_slice(&1u32.to_le_bytes());
    let dump = build_dump_with_extra(&[(minidump::minidump::ASSERTION_INFO_STREAM, payload)], &[]);
    let md = Minidump::read(dump).unwrap();
    let a = md.get_assertion().unwrap();
    assert_eq!(a.expression, "1 == 2");
    assert_eq!(a.function, "check");
    assert_eq!(a.file, "main.c");
    assert_eq!(a.line, 99);
    assert_eq!(a.assertion_type, 1);
}

#[test]
fn memory_info_list_decodes() {
    let mut payload = Vec::new();
    push_u32_le(&mut payload, 16); // size_of_header
    push_u32_le(&mut payload, 48); // size_of_entry
    push_u64_le(&mut payload, 1); // number_of_entries
    push_u64_le(&mut payload, 0x7f0000); // base_address
    push_u64_le(&mut payload, 0x7f0000); // allocation_base
    push_u32_le(&mut payload, 0x04); // allocation_protection
    push_u32_le(&mut payload, 0); // alignment
    push_u64_le(&mut payload, 0x1000); // region_size
    push_u32_le(&mut payload, 0x1000); // state: committed
    push_u32_le(&mut payload, 0x04); // protection
    push_u32_le(&mut payload, 0x20000); // type: private
    push_u32_le(&mut payload, 0); // alignment
    let dump = build_dump_with_extra(
        &[(minidump::minidump::MEMORY_INFO_LIST_STREAM, payload)],
        &[],
    );
    let md = Minidump::read(dump).unwrap();
    let mi = md.get_memory_info_list().unwrap();
    assert_eq!(mi.regions.len(), 1);
    assert_eq!(mi.regions[0].base_address, 0x7f0000);
    assert_eq!(mi.regions[0].region_size, 0x1000);
    assert_eq!(mi.regions[0].state, 0x1000);
}

#[test]
fn memory_info_list_rejects_overrun() {
    let mut payload = Vec::new();
    push_u32_le(&mut payload, 16);
    push_u32_le(&mut payload, 48);
    push_u64_le(&mut payload, 3); // more entries than the stream holds
    payload.extend_from_slice(&[0u8; 48]);
    let dump = build_dump_with_extra(
        &[(minidump::minidump::MEMORY_INFO_LIST_STREAM, payload)],
        &[],
    );
    let md = Minidump::read(dump).unwrap();
    assert!(matches!(md.get_memory_info_list(), Err(Error::StreamReadFailure)));
}

#[test]
fn overlapping_modules_conflict_once() {
    // Two modules overlap: the second is dropped from the index with
    // one conflict reported, but both stay in the list.
    let name = utf16_string_blob("m.dll");
    let stream_len = 4 + 2 * 108;
    let names_rva = 32 + 12 + stream_len as u32;
    let mut payload = Vec::new();
    push_u32_le(&mut payload, 2);
    payload.extend_from_slice(&module_record(0x1000, 0x1000, names_rva));
    payload.extend_from_slice(&module_record(0x1800, 0x1100, names_rva));
    let dump = build_dump_with_extra(&[(MODULE_LIST_STREAM, payload)], &name);
    let md = Minidump::read(dump).unwrap();
    let (modules, conflicts) = md.get_module_list().unwrap();
    assert_eq!(modules.modules().len(), 2);
    assert_eq!(conflicts.len(), 1);
    assert_eq!(conflicts[0].0.start, 0x1800);
    assert_eq!(modules.module_at_address(0x1100).unwrap().base_address(), 0x1000);
    assert!(modules.module_at_address(0x2200).is_none());
}
