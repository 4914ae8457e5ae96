//! The filesystem server, over a volume with one file and one directory.

use kumo_userland::fatfs::{
    dispatch, DirEntry, FatServer, OpenTable, Transport, VfsCodes, VfsRequest, MAX_OPEN_FILES,
    REPLY_BUF_BYTES,
};
use std::collections::VecDeque;

const VFS_OK: u8 = 0;
const VFS_NOT_FOUND: u8 = 1;
const VFS_IS_DIR: u8 = 2;
const VFS_BAD_HANDLE: u8 = 3;
const VFS_BAD_REQUEST: u8 = 4;

const CODES: VfsCodes = VfsCodes {
    ok: VFS_OK,
    not_found: VFS_NOT_FOUND,
    is_dir: VFS_IS_DIR,
    bad_handle: VFS_BAD_HANDLE,
    bad_request: VFS_BAD_REQUEST,
};

const REQUEST_BUF_BYTES: usize = 64;

fn resolve(path: &Vec<u8>) -> Option<DirEntry> {
    match path.as_slice() {
        b"/HELLO.TXT" => Some(DirEntry {
            first_cluster: 3,
            size: 6,
            directory: false,
        }),
        b"/EFI" => Some(DirEntry {
            first_cluster: 4,
            size: 0,
            directory: true,
        }),
        _ => None,
    }
}

fn read_at(entry: DirEntry, offset: u64, len: usize) -> Vec<u8> {
    assert_eq!(entry.first_cluster, 3);
    let text = b"hello!";
    let from = (offset as usize).min(text.len());
    let to = (from + len).min(text.len());
    text[from..to].to_vec()
}

fn open_frame(handle: u32, size: u64) -> Vec<u8> {
    let mut frame = vec![VFS_OK];
    frame.extend_from_slice(&handle.to_le_bytes());
    frame.extend_from_slice(&size.to_le_bytes());
    frame
}

fn parse_open_reply(reply: &[u8]) -> Result<(u32, u64), u8> {
    if reply[0] != VFS_OK {
        return Err(reply[0]);
    }
    Ok((
        u32::from_le_bytes(reply[1..5].try_into().unwrap()),
        u64::from_le_bytes(reply[5..13].try_into().unwrap()),
    ))
}

fn read_payload(reply: &[u8]) -> Result<&[u8], u8> {
    if reply[0] != VFS_OK {
        return Err(reply[0]);
    }
    Ok(&reply[1..])
}

fn open(path: &[u8]) -> Option<VfsRequest> {
    Some(VfsRequest::Open {
        path: path.to_vec(),
    })
}

fn read(handle: u32, offset: u64, len: u32) -> Option<VfsRequest> {
    Some(VfsRequest::Read {
        handle,
        offset,
        len,
    })
}

/// Frames of the transport: `o` and a path, or `r` and three numbers of one byte each.
fn decode(raw: &[u8]) -> Option<VfsRequest> {
    match raw {
        [b'o', path @ ..] => open(path),
        [b'r', handle, offset, len] => read(*handle as u32, *offset as u64, *len as u32),
        _ => None,
    }
}

fn run(table: &mut OpenTable, request: Option<VfsRequest>, reply: &mut [u8]) -> usize {
    dispatch(
        &CODES,
        &resolve,
        &read_at,
        &open_frame,
        table,
        &request,
        reply,
    )
}

struct MockTransport {
    incoming: VecDeque<Vec<u8>>,
    sent: Vec<Vec<u8>>,
}

impl Transport for MockTransport {
    fn recv(&mut self, buf: &mut [u8]) -> Option<usize> {
        let frame = self.incoming.pop_front()?;
        buf[..frame.len()].copy_from_slice(&frame);
        Some(frame.len())
    }

    fn send(&mut self, frame: &[u8]) {
        self.sent.push(frame.to_vec());
    }
}

fn serve_once(server: &mut FatServer, transport: &mut MockTransport) -> bool {
    let mut request_buf = [0u8; REQUEST_BUF_BYTES];
    let mut reply_buf = [0u8; REPLY_BUF_BYTES];
    server.serve_once(
        &CODES,
        &decode,
        &resolve,
        &read_at,
        &open_frame,
        transport,
        &mut request_buf,
        &mut reply_buf,
    )
}

#[test]
fn open_file_returns_handle_and_size() {
    let mut table = OpenTable::new();
    let mut reply = [0u8; 32];
    let n = run(&mut table, open(b"/HELLO.TXT"), &mut reply);
    assert_eq!(parse_open_reply(&reply[..n]), Ok((1, 6)));
}

#[test]
fn open_missing_and_directory_report_status() {
    let mut table = OpenTable::new();
    let mut reply = [0u8; 32];
    let n = run(&mut table, open(b"/NOPE.TXT"), &mut reply);
    assert_eq!(reply[..n], [VFS_NOT_FOUND]);
    let n = run(&mut table, open(b"/EFI"), &mut reply);
    assert_eq!(reply[..n], [VFS_IS_DIR]);
}

#[test]
fn read_uses_open_handle_offset_and_length() {
    let mut table = OpenTable::new();
    let mut reply = [0u8; 32];
    run(&mut table, open(b"/HELLO.TXT"), &mut reply);
    let n = run(&mut table, read(1, 1, 4), &mut reply);
    assert_eq!(read_payload(&reply[..n]), Ok(&b"ello"[..]));
}

#[test]
fn read_bad_handle_and_bad_request_report_status() {
    let mut table = OpenTable::new();
    let mut reply = [0u8; 32];
    let n = run(&mut table, read(9, 0, 4), &mut reply);
    assert_eq!(reply[..n], [VFS_BAD_HANDLE]);
    let n = run(&mut table, decode(&[0xFF]), &mut reply);
    assert_eq!(reply[..n], [VFS_BAD_REQUEST]);
}

#[test]
fn read_reply_is_bounded_by_reply_buffer() {
    let mut table = OpenTable::new();
    let mut open_reply = [0u8; 32];
    run(&mut table, open(b"/HELLO.TXT"), &mut open_reply);
    let mut tiny_reply = [0u8; 4];
    let n = run(&mut table, read(1, 0, 6), &mut tiny_reply);
    assert_eq!(n, 4);
    assert_eq!(read_payload(&tiny_reply[..n]), Ok(&b"hel"[..]));
}

#[test]
fn serve_once_replies_to_open_over_transport() {
    let mut server = FatServer::new();
    let mut transport = MockTransport {
        incoming: VecDeque::from([b"o/HELLO.TXT".to_vec()]),
        sent: Vec::new(),
    };
    assert!(serve_once(&mut server, &mut transport));
    assert_eq!(transport.sent.len(), 1);
    assert_eq!(parse_open_reply(&transport.sent[0]), Ok((1, 6)));
}

#[test]
fn serve_preserves_open_table_across_requests() {
    let mut server = FatServer::new();
    let mut transport = MockTransport {
        incoming: VecDeque::from([b"o/HELLO.TXT".to_vec(), vec![b'r', 1, 1, 4]]),
        sent: Vec::new(),
    };
    let mut request_buf = [0u8; REQUEST_BUF_BYTES];
    server.serve(
        &CODES,
        &decode,
        &resolve,
        &read_at,
        &open_frame,
        &mut transport,
        &mut request_buf,
    );
    assert_eq!(transport.sent.len(), 2);
    assert_eq!(parse_open_reply(&transport.sent[0]), Ok((1, 6)));
    assert_eq!(read_payload(&transport.sent[1]), Ok(&b"ello"[..]));
}

#[test]
fn serve_stops_when_transport_closes() {
    let mut server = FatServer::new();
    let mut transport = MockTransport {
        incoming: VecDeque::new(),
        sent: Vec::new(),
    };
    assert!(!serve_once(&mut server, &mut transport));
    assert!(transport.sent.is_empty());
}

#[test]
fn a_full_table_refuses_another_file() {
    let mut table = OpenTable::new();
    let mut reply = [0u8; 32];
    for handle in 1..=MAX_OPEN_FILES as u32 {
        let n = run(&mut table, open(b"/HELLO.TXT"), &mut reply);
        assert_eq!(parse_open_reply(&reply[..n]), Ok((handle, 6)));
    }
    let n = run(&mut table, open(b"/HELLO.TXT"), &mut reply);
    assert_eq!(reply[..n], [VFS_BAD_HANDLE]);
    assert_eq!(table.get(0), None);
    assert!(table.get(1).is_some());
}

#[test]
fn a_reply_buffer_too_small_for_an_open_is_a_bad_request() {
    let mut table = OpenTable::new();
    for room in 1..13 {
        let mut reply = vec![0xEE; room];
        let n = run(&mut table, open(b"/HELLO.TXT"), &mut reply);
        assert_eq!(reply[..n], [VFS_BAD_REQUEST]);
        assert!(reply[1..].iter().all(|b| *b == 0xEE));
        assert_eq!(table.get(1), None);
    }
    assert_eq!(run(&mut table, read(1, 0, 4), &mut []), 0);
    let mut reply = [0u8; 13];
    let n = run(&mut table, open(b"/HELLO.TXT"), &mut reply);
    assert_eq!(parse_open_reply(&reply[..n]), Ok((1, 6)));
}
