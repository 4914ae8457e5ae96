//! Program headers of Linux binaries.

use kumo_userland::persona_linux::elf::{
    parse_header, parse_program_header, ELF_HEADER_LEN, ELF_PHDR_LEN, EM_AARCH64, ET_EXEC, PF_R,
    PF_X, PT_LOAD,
};

fn put_u16(buf: &mut [u8], offset: usize, value: u16) {
    buf[offset..offset + 2].copy_from_slice(&value.to_le_bytes());
}

fn put_u32(buf: &mut [u8], offset: usize, value: u32) {
    buf[offset..offset + 4].copy_from_slice(&value.to_le_bytes());
}

fn put_u64(buf: &mut [u8], offset: usize, value: u64) {
    buf[offset..offset + 8].copy_from_slice(&value.to_le_bytes());
}

#[test]
fn parses_aarch64_exec_header_and_load_segment() {
    let mut header = [0u8; ELF_HEADER_LEN];
    header[0..4].copy_from_slice(b"\x7fELF");
    header[4] = 2;
    header[5] = 1;
    put_u16(&mut header, 16, ET_EXEC);
    put_u16(&mut header, 18, EM_AARCH64);
    put_u64(&mut header, 24, 0x1000_1000);
    put_u64(&mut header, 32, ELF_HEADER_LEN as u64);
    put_u16(&mut header, 54, ELF_PHDR_LEN as u16);
    put_u16(&mut header, 56, 1);

    let parsed = parse_header(&header).unwrap();
    assert_eq!(parsed.entry, 0x1000_1000);
    assert_eq!(parsed.phnum, 1);

    let mut ph = [0u8; ELF_PHDR_LEN];
    put_u32(&mut ph, 0, PT_LOAD);
    put_u32(&mut ph, 4, PF_R | PF_X);
    put_u64(&mut ph, 8, 0x1000);
    put_u64(&mut ph, 16, 0x1000_1000);
    put_u64(&mut ph, 32, 36);
    put_u64(&mut ph, 40, 36);
    let segment = parse_program_header(&ph).unwrap();
    assert_eq!(segment.kind, PT_LOAD);
    assert_eq!(segment.flags, PF_R | PF_X);
    assert_eq!(segment.file_offset, 0x1000);
}


fn exec_header() -> [u8; ELF_HEADER_LEN] {
    let mut header = [0u8; ELF_HEADER_LEN];
    header[0..4].copy_from_slice(b"\x7fELF");
    header[4] = 2;
    header[5] = 1;
    put_u16(&mut header, 16, ET_EXEC);
    put_u16(&mut header, 18, EM_AARCH64);
    put_u64(&mut header, 32, ELF_HEADER_LEN as u64);
    put_u16(&mut header, 54, ELF_PHDR_LEN as u16);
    put_u16(&mut header, 56, 1);
    header
}

#[test]
fn headers_that_cannot_run_are_refused() {
    assert!(parse_header(&exec_header()).is_ok());
    assert!(parse_header(&exec_header()[..ELF_HEADER_LEN - 1]).is_err());
    let mut header = exec_header();
    header[0] = 0;
    assert!(parse_header(&header).is_err());
    let mut header = exec_header();
    header[4] = 1;
    assert!(parse_header(&header).is_err());
    let mut header = exec_header();
    put_u16(&mut header, 18, 62);
    assert!(parse_header(&header).is_err());
    assert!(parse_program_header(&[0u8; ELF_PHDR_LEN - 1]).is_err());
}
