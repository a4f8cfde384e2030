use minidump::Endianness;
use minidump::minidump::{Error, Minidump, SYSTEM_INFO_STREAM, THREAD_LIST_STREAM};
use minidump::streams::{Cpu, Os};

fn push_u16_le(buf: &mut Vec<u8>, v: u16) {
    buf.extend_from_slice(&v.to_le_bytes());
}

fn push_u32_le(buf: &mut Vec<u8>, v: u32) {
    buf.extend_from_slice(&v.to_le_bytes());
}

fn push_u64_le(buf: &mut Vec<u8>, v: u64) {
    buf.extend_from_slice(&v.to_le_bytes());
}

/// A header plus a directory of `(kind, payload)` streams, payloads
/// laid out after the directory.
fn build_dump(streams: &[(u32, Vec<u8>)]) -> Vec<u8> {
    let mut buf = Vec::new();
    let dir_rva = 32u32;
    let mut payload_rva = dir_rva + 12 * streams.len() as u32;
    push_u32_le(&mut buf, 0x504d444d);
    push_u32_le(&mut buf, 0x0002a793);
    push_u32_le(&mut buf, streams.len() as u32);
    push_u32_le(&mut buf, dir_rva);
    push_u32_le(&mut buf, 0);
    push_u32_le(&mut buf, 0);
    push_u64_le(&mut buf, 0);
    for (kind, payload) in streams {
        push_u32_le(&mut buf, *kind);
        push_u32_le(&mut buf, payload.len() as u32);
        push_u32_le(&mut buf, payload_rva);
        payload_rva += payload.len() as u32;
    }
    for (_, payload) in streams {
        buf.extend_from_slice(payload);
    }
    buf
}

/// A system-information payload for an x86 Windows NT system.
fn system_info_payload() -> Vec<u8> {
    let mut p = Vec::new();
    push_u16_le(&mut p, 0); // processor_architecture: x86
    push_u16_le(&mut p, 6); // processor_level
    push_u16_le(&mut p, 0); // processor_revision
    p.push(1); // number_of_processors
    p.push(1); // product_type
    push_u32_le(&mut p, 10); // major_version
    push_u32_le(&mut p, 0); // minor_version
    push_u32_le(&mut p, 19041); // build_number
    push_u32_le(&mut p, 2); // platform_id: Windows NT
    push_u32_le(&mut p, 0); // csd_version_rva
    push_u16_le(&mut p, 0); // suite_mask
    push_u16_le(&mut p, 0); // reserved2
    p.extend_from_slice(&[0u8; 24]); // cpu information
    p
}

#[test]
fn minimal_x86_dump() {
    let dump = build_dump(&[(SYSTEM_INFO_STREAM, system_info_payload())]);
    let md = Minidump::read(dump).unwrap();
    assert_eq!(md.endian(), Endianness::Little);
    assert_eq!(md.header.signature, 0x504d444d);
    assert_eq!(md.header.stream_count, 1);
    let si = md.get_system_info().unwrap();
    assert_eq!(si.cpu, Cpu::X86);
    assert_eq!(si.os, Os::Windows);
    assert_eq!(si.number_of_processors, 1);
    assert_eq!(si.os_version(), "10.0.19041");
}

#[test]
fn short_buffers_mismatch_the_header() {
    for n in [0usize, 1, 4, 10, 31] {
        match Minidump::read(vec![0u8; n]) {
            Err(Error::HeaderMismatch) => {}
            other => panic!("expected a header mismatch for length {}, got {:?}", n, other),
        }
    }
}

#[test]
fn bad_magic_mismatches_the_header() {
    let mut dump = build_dump(&[(SYSTEM_INFO_STREAM, system_info_payload())]);
    dump[0] = 0x00;
    match Minidump::read(dump) {
        Err(Error::HeaderMismatch) => {}
        other => panic!("expected a header mismatch, got {:?}", other),
    }
}

#[test]
fn wrong_version_low_word_mismatches_the_header() {
    let mut dump = build_dump(&[(SYSTEM_INFO_STREAM, system_info_payload())]);
    dump[4] = 0x00;
    match Minidump::read(dump) {
        Err(Error::HeaderMismatch) => {}
        other => panic!("expected a header mismatch, got {:?}", other),
    }
}

#[test]
fn directory_past_the_end_is_truncated() {
    let mut dump = build_dump(&[(SYSTEM_INFO_STREAM, system_info_payload())]);
    // Point the directory past the end of the buffer.
    let rva = (dump.len() as u32).to_le_bytes();
    dump[12..16].copy_from_slice(&rva);
    match Minidump::read(dump) {
        Err(Error::DirectoryTruncated) => {}
        other => panic!("expected a truncated directory, got {:?}", other),
    }
}

#[test]
fn entry_past_the_end_is_truncated() {
    let mut dump = build_dump(&[(SYSTEM_INFO_STREAM, system_info_payload())]);
    // Grow the first entry's size so it runs past the buffer.
    let size = (dump.len() as u32).to_le_bytes();
    dump[36..40].copy_from_slice(&size);
    match Minidump::read(dump) {
        Err(Error::DirectoryTruncated) => {}
        other => panic!("expected a truncated directory, got {:?}", other),
    }
}

#[test]
fn missing_stream_is_not_found() {
    let dump = build_dump(&[(SYSTEM_INFO_STREAM, system_info_payload())]);
    let md = Minidump::read(dump).unwrap();
    match md.get_thread_list() {
        Err(Error::StreamNotFound) => {}
        other => panic!("expected a missing stream, got {:?}", other),
    }
}

#[test]
fn duplicate_stream_first_wins() {
    let first = vec![1u8, 2, 3, 4];
    let second = vec![5u8, 6, 7, 8, 9];
    let dump = build_dump(&[(0x1234, first.clone()), (0x1234, second.clone())]);
    let md = Minidump::read(dump).unwrap();
    assert_eq!(md.get_raw_stream(0x1234).unwrap(), first.as_slice());
    let all = md.all_streams();
    assert_eq!(all.len(), 2);
    assert_eq!(all[0].0, 0x1234);
    assert_eq!(all[0].1, first.as_slice());
    assert_eq!(all[1].0, 0x1234);
    assert_eq!(all[1].1, second.as_slice());
}

#[test]
fn sentinel_kinds_are_never_found() {
    let dump = build_dump(&[(0, vec![1, 2, 3]), (0xffffffff, vec![4, 5])]);
    let md = Minidump::read(dump).unwrap();
    assert!(matches!(md.get_raw_stream(0), Err(Error::StreamNotFound)));
    assert!(matches!(md.get_raw_stream(0xffffffff), Err(Error::StreamNotFound)));
    // They stay reachable by enumeration.
    assert_eq!(md.all_streams().len(), 2);
}

/// A thread-list payload of one thread with zeroed descriptors.
fn thread_list_payload() -> Vec<u8> {
    let mut p = Vec::new();
    push_u32_le(&mut p, 1); // count
    push_u32_le(&mut p, 42); // thread_id
    push_u32_le(&mut p, 0); // suspend_count
    push_u32_le(&mut p, 0); // priority_class
    push_u32_le(&mut p, 0); // priority
    push_u64_le(&mut p, 0x7000); // teb
    push_u64_le(&mut p, 0x1000); // stack start
    push_u32_le(&mut p, 0); // stack size
    push_u32_le(&mut p, 0); // stack rva
    push_u32_le(&mut p, 0); // context size
    push_u32_le(&mut p, 0); // context rva
    p
}

#[test]
fn thread_list_decodes() {
    let dump = build_dump(&[(THREAD_LIST_STREAM, thread_list_payload())]);
    let md = Minidump::read(dump).unwrap();
    let tl = md.get_thread_list().unwrap();
    assert_eq!(tl.threads.len(), 1);
    assert_eq!(tl.threads[0].thread_id, 42);
    assert_eq!(tl.threads[0].teb, 0x7000);
    assert_eq!(tl.threads[0].stack.start_of_memory_range, 0x1000);
}

#[test]
fn truncated_stream_fails_alone() {
    let dump = build_dump(&[
        (THREAD_LIST_STREAM, thread_list_payload()),
        (SYSTEM_INFO_STREAM, system_info_payload()),
    ]);
    let mut md_bytes = dump.clone();
    // Shrink the thread-list entry's size by one byte: its last byte
    // is no longer part of the stream.
    let size = (thread_list_payload().len() as u32 - 1).to_le_bytes();
    md_bytes[36..40].copy_from_slice(&size);
    let md = Minidump::read(md_bytes).unwrap();
    match md.get_thread_list() {
        Err(Error::StreamReadFailure) => {}
        other => panic!("expected a stream read failure, got {:?}", other),
    }
    // The other stream stays decodable.
    let si = md.get_system_info().unwrap();
    assert_eq!(si.cpu, Cpu::X86);
}

#[test]
fn big_endian_dump_detected() {
    let mut buf = Vec::new();
    buf.extend_from_slice(&0x504d444du32.to_be_bytes());
    buf.extend_from_slice(&0x0002a793u32.to_be_bytes());
    buf.extend_from_slice(&0u32.to_be_bytes()); // no streams
    buf.extend_from_slice(&32u32.to_be_bytes());
    buf.extend_from_slice(&0u32.to_be_bytes());
    buf.extend_from_slice(&0u32.to_be_bytes());
    buf.extend_from_slice(&0u64.to_be_bytes());
    let md = Minidump::read(buf).unwrap();
    assert_eq!(md.endian(), Endianness::Big);
    assert_eq!(md.header.stream_count, 0);
}
