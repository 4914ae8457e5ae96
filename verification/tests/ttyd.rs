//! The terminal server.

use kumo_userland::ttyd::{
    Echo, InputResult, LineDiscipline, LineEvent, Reply, Request, Transport, TtyServer,
    DEFAULT_LINE_BYTES, EVENT_LINE, EVENT_NONE, OP_INPUT, REPLY_BUF_BYTES, REQUEST_BUF_BYTES,
    TTY_BAD_REQUEST, TTY_OK, TTY_OVERFLOW,
};
use std::collections::VecDeque;

fn feed<const N: usize>(tty: &mut LineDiscipline<N>, bytes: &[u8]) -> ([u8; 16], usize) {
    let mut submitted = [0u8; 16];
    let mut echo = [0u8; 16];
    let mut pos = 0;
    for &byte in bytes {
        let result = tty.feed_byte(byte, &mut submitted);
        let e = result.echo.as_bytes();
        echo[pos..pos + e.len()].copy_from_slice(e);
        pos += e.len();
    }
    (echo, pos)
}

#[test]
fn printable_bytes_echo_and_buffer() {
    let mut tty = LineDiscipline::<8>::new();
    let (echo, n) = feed(&mut tty, b"abc");

    assert_eq!(&echo[..n], b"abc");
    assert_eq!(tty.pending(), b"abc");
}

#[test]
fn enter_submits_line_and_resets_buffer() {
    let mut tty = LineDiscipline::<8>::new();
    let mut submitted = [0u8; 8];
    feed(&mut tty, b"run");

    let result = tty.feed_byte(b'\n', &mut submitted);

    assert_eq!(result.echo.as_bytes(), b"\r\n");
    assert_eq!(result.event, LineEvent::Submitted { len: 3 });
    assert_eq!(&submitted[..3], b"run");
    assert_eq!(tty.pending(), b"");
}

#[test]
fn carriage_return_also_submits() {
    let mut tty = LineDiscipline::<8>::new();
    let mut submitted = [0u8; 8];
    feed(&mut tty, b"ls");

    let result = tty.feed_byte(b'\r', &mut submitted);

    assert_eq!(result.event, LineEvent::Submitted { len: 2 });
    assert_eq!(&submitted[..2], b"ls");
}

#[test]
fn backspace_erases_one_byte_and_echoes_erase_sequence() {
    let mut tty = LineDiscipline::<8>::new();
    let (echo, n) = feed(&mut tty, b"ab\x08c");

    assert_eq!(&echo[..n], b"ab\x08 \x08c");
    assert_eq!(tty.pending(), b"ac");
}

#[test]
fn delete_is_treated_as_backspace() {
    let mut tty = LineDiscipline::<8>::new();
    feed(&mut tty, b"xy");

    let result = tty.feed_byte(0x7f, &mut [0u8; 8]);

    assert_eq!(result.echo.as_bytes(), b"\x08 \x08");
    assert_eq!(tty.pending(), b"x");
}

#[test]
fn empty_backspace_and_other_controls_are_ignored() {
    let mut tty = LineDiscipline::<8>::new();
    let mut submitted = [0u8; 8];

    assert_eq!(tty.feed_byte(0x08, &mut submitted), InputResult::none());
    assert_eq!(tty.feed_byte(0x01, &mut submitted), InputResult::none());
    assert_eq!(tty.pending(), b"");
}

#[test]
fn full_line_rejects_more_input_with_bell() {
    let mut tty = LineDiscipline::<3>::new();
    feed(&mut tty, b"abc");

    let result = tty.feed_byte(b'd', &mut [0u8; 8]);

    assert_eq!(result.echo.as_bytes(), b"\x07");
    assert_eq!(result.event, LineEvent::Overflow);
    assert_eq!(tty.pending(), b"abc");
}

#[test]
fn too_small_submission_buffer_preserves_line() {
    let mut tty = LineDiscipline::<8>::new();
    feed(&mut tty, b"abcd");

    let result = tty.feed_byte(b'\n', &mut [0u8; 2]);

    assert_eq!(result.echo.as_bytes(), b"\x07");
    assert_eq!(result.event, LineEvent::Overflow);
    assert_eq!(tty.pending(), b"abcd");
}

fn encode_request(request: Request) -> Vec<u8> {
    let mut buf = [0u8; REQUEST_BUF_BYTES];
    let n = request.encode_into(&mut buf).expect("encode tty request");
    buf[..n].to_vec()
}

struct MockTransport {
    incoming: VecDeque<Vec<u8>>,
    sent: Vec<Vec<u8>>,
}

impl Transport for MockTransport {
    fn recv(&mut self, buf: &mut [u8]) -> Option<usize> {
        let frame = self.incoming.pop_front()?;
        buf[..frame.len()].copy_from_slice(&frame);
        Some(frame.len())
    }

    fn send(&mut self, frame: &[u8]) {
        self.sent.push(frame.to_vec());
    }
}

#[test]
fn request_codec_round_trips() {
    let mut buf = [0u8; REQUEST_BUF_BYTES];

    let n = Request::input(b'a').encode_into(&mut buf).unwrap();
    assert_eq!(Request::decode(&buf[..n]), Some(Request::Input(b'a')));
    let n = Request::write(b'\n').encode_into(&mut buf).unwrap();
    assert_eq!(Request::decode(&buf[..n]), Some(Request::Write(b'\n')));

    let n = Request::clear().encode_into(&mut buf).unwrap();
    assert_eq!(Request::decode(&buf[..n]), Some(Request::Clear));
    let n = Request::read().encode_into(&mut buf).unwrap();
    assert_eq!(Request::decode(&buf[..n]), Some(Request::Read));
    let n = Request::shutdown().encode_into(&mut buf).unwrap();
    assert_eq!(Request::decode(&buf[..n]), Some(Request::Shutdown));
    assert_eq!(Request::decode(&[OP_INPUT]), None);
}

#[test]
fn dispatch_input_replies_with_echo() {
    let mut server = TtyServer::<8>::new();
    let mut reply = [0u8; REPLY_BUF_BYTES];

    let n = server.dispatch(&encode_request(Request::input(b'x')), &mut reply);
    let parsed = Reply::parse(&reply[..n]).unwrap();

    assert_eq!(parsed.status, TTY_OK);
    assert_eq!(parsed.echo, b"x");
    assert_eq!(parsed.line, None);
    assert_eq!(server.pending(), b"x");
}

#[test]
fn dispatch_write_replies_with_output_without_touching_line() {
    let mut server = TtyServer::<8>::new();
    let mut reply = [0u8; REPLY_BUF_BYTES];
    server.dispatch(&encode_request(Request::input(b'x')), &mut reply);

    let n = server.dispatch(&encode_request(Request::write(b'\n')), &mut reply);
    let parsed = Reply::parse(&reply[..n]).unwrap();

    assert_eq!(parsed.status, TTY_OK);
    assert_eq!(parsed.echo, b"\n");
    assert_eq!(parsed.line, None);
    assert_eq!(server.pending(), b"x");
}

#[test]
fn dispatch_enter_replies_with_submitted_line() {
    let mut server = TtyServer::<8>::new();
    let mut reply = [0u8; REPLY_BUF_BYTES];
    server.dispatch(&encode_request(Request::input(b'l')), &mut reply);
    server.dispatch(&encode_request(Request::input(b's')), &mut reply);

    let n = server.dispatch(&encode_request(Request::input(b'\n')), &mut reply);
    let parsed = Reply::parse(&reply[..n]).unwrap();

    assert_eq!(parsed.status, TTY_OK);
    assert_eq!(parsed.echo, b"\r\n");
    assert_eq!(parsed.line, Some(&b"ls"[..]));
    assert_eq!(server.pending(), b"");
}

#[test]
fn dispatch_read_returns_submitted_line_once() {
    let mut server = TtyServer::<8>::new();
    let mut reply = [0u8; REPLY_BUF_BYTES];
    server.dispatch(&encode_request(Request::input(b'l')), &mut reply);
    server.dispatch(&encode_request(Request::input(b's')), &mut reply);
    server.dispatch(&encode_request(Request::input(b'\n')), &mut reply);

    let n = server.dispatch(&encode_request(Request::read()), &mut reply);
    let parsed = Reply::parse(&reply[..n]).unwrap();

    assert_eq!(parsed.status, TTY_OK);
    assert_eq!(parsed.echo, b"");
    assert_eq!(parsed.line, Some(&b"ls"[..]));

    let n = server.dispatch(&encode_request(Request::read()), &mut reply);
    let parsed = Reply::parse(&reply[..n]).unwrap();

    assert_eq!(parsed.status, TTY_OK);
    assert_eq!(parsed.line, None);
}

#[test]
fn dispatch_read_before_submit_is_empty() {
    let mut server = TtyServer::<8>::new();
    let mut reply = [0u8; REPLY_BUF_BYTES];

    let n = server.dispatch(&encode_request(Request::read()), &mut reply);
    let parsed = Reply::parse(&reply[..n]).unwrap();

    assert_eq!(parsed.status, TTY_OK);
    assert_eq!(parsed.echo, b"");
    assert_eq!(parsed.line, None);
}

#[test]
fn dispatch_bad_request_reports_status() {
    let mut server = TtyServer::<8>::new();
    let mut reply = [0u8; REPLY_BUF_BYTES];

    let n = server.dispatch(&[0xfd], &mut reply);
    let parsed = Reply::parse(&reply[..n]).unwrap();

    assert_eq!(parsed.status, TTY_BAD_REQUEST);
    assert_eq!(parsed.echo, b"");
    assert_eq!(parsed.line, None);
}

#[test]
fn clear_request_drops_pending_line() {
    let mut server = TtyServer::<8>::new();
    let mut reply = [0u8; REPLY_BUF_BYTES];
    server.dispatch(&encode_request(Request::input(b'a')), &mut reply);

    let n = server.dispatch(&encode_request(Request::clear()), &mut reply);
    let parsed = Reply::parse(&reply[..n]).unwrap();

    assert_eq!(parsed.status, TTY_OK);
    assert_eq!(server.pending(), b"");
}

#[test]
fn serve_preserves_line_across_transport_frames() {
    let mut server = TtyServer::<DEFAULT_LINE_BYTES>::new();
    let mut transport = MockTransport {
        incoming: VecDeque::from([
            encode_request(Request::input(b'h')),
            encode_request(Request::input(b'i')),
            encode_request(Request::input(b'\n')),
        ]),
        sent: Vec::new(),
    };

    server.serve(&mut transport);

    assert_eq!(transport.sent.len(), 3);
    assert_eq!(Reply::parse(&transport.sent[0]).unwrap().echo, b"h");
    assert_eq!(Reply::parse(&transport.sent[1]).unwrap().echo, b"i");
    let third = Reply::parse(&transport.sent[2]).unwrap();
    assert_eq!(third.echo, b"\r\n");
    assert_eq!(third.line, Some(&b"hi"[..]));
}

#[test]
fn serve_once_stops_when_transport_closes() {
    let mut server = TtyServer::<DEFAULT_LINE_BYTES>::new();
    let mut transport = MockTransport {
        incoming: VecDeque::new(),
        sent: Vec::new(),
    };
    let mut request_buf = [0u8; REQUEST_BUF_BYTES];
    let mut reply_buf = [0u8; REPLY_BUF_BYTES];

    assert!(!server.serve_once(&mut transport, &mut request_buf, &mut reply_buf));
    assert!(transport.sent.is_empty());
}

#[test]
fn shutdown_request_stops_without_reply() {
    let mut server = TtyServer::<DEFAULT_LINE_BYTES>::new();
    let mut transport = MockTransport {
        incoming: VecDeque::from([encode_request(Request::shutdown())]),
        sent: Vec::new(),
    };
    let mut request_buf = [0u8; REQUEST_BUF_BYTES];
    let mut reply_buf = [0u8; REPLY_BUF_BYTES];

    assert!(!server.serve_once(&mut transport, &mut request_buf, &mut reply_buf));
    assert!(transport.sent.is_empty());
}

#[test]
fn an_empty_line_is_submitted_as_a_line() {
    let mut server = TtyServer::<8>::new();
    let mut reply = [0u8; REPLY_BUF_BYTES];
    let n = server.dispatch(&encode_request(Request::input(b'\n')), &mut reply);
    assert_eq!(&reply[..n], &[TTY_OK, EVENT_LINE, 2, 0, 0, b'\r', b'\n']);
    assert_eq!(Reply::parse(&reply[..n]).unwrap().line, Some(&b""[..]));
}

#[test]
fn a_full_line_answers_overflow() {
    let mut server = TtyServer::<1>::new();
    let mut reply = [0u8; REPLY_BUF_BYTES];
    server.dispatch(&encode_request(Request::input(b'a')), &mut reply);
    let n = server.dispatch(&encode_request(Request::input(b'b')), &mut reply);
    assert_eq!(&reply[..n], &[TTY_OVERFLOW, EVENT_NONE, 1, 0, 0, 0x07]);
}

#[test]
fn a_reply_that_does_not_fit_is_not_written() {
    let mut server = TtyServer::<8>::new();
    let mut reply = [9u8; 5];
    assert_eq!(server.dispatch(&encode_request(Request::write(b'x')), &mut reply), 0);
    assert_eq!(reply, [9u8; 5]);
}

#[test]
fn replies_with_a_wrong_event_or_length_do_not_parse() {
    assert_eq!(Reply::parse(&[TTY_OK, EVENT_NONE, 0, 1, 0, b'x']), None);
    assert_eq!(Reply::parse(&[TTY_OK, 7, 0, 0, 0]), None);
    assert_eq!(Reply::parse(&[TTY_OK, EVENT_NONE, 2, 0, 0, b'x']), None);
    assert_eq!(Reply::parse(&[TTY_OK, EVENT_NONE, 0, 0]), None);
}

#[test]
fn serving_stops_at_a_shutdown() {
    let mut server = TtyServer::<DEFAULT_LINE_BYTES>::new();
    let mut transport = MockTransport {
        incoming: VecDeque::from([
            encode_request(Request::input(b'h')),
            encode_request(Request::shutdown()),
            encode_request(Request::input(b'i')),
        ]),
        sent: Vec::new(),
    };
    server.serve(&mut transport);
    assert_eq!(transport.sent.len(), 1);
    assert_eq!(transport.incoming.len(), 1);
    assert_eq!(server.pending(), b"h");
}

#[test]
fn echoes_of_the_same_bytes_are_equal() {
    assert_eq!(Echo::bytes(b"x"), Echo::byte(b'x'));
    assert_eq!(Echo::bytes(b""), Echo::none());
    assert_eq!(Echo::bytes(b"abcd").as_bytes(), b"abc");
    assert_eq!(Echo::bytes(b"abcd"), Echo::bytes(b"abc"));
    assert_ne!(Echo::bytes(b"a"), Echo::bytes(b"a\0"));
    assert!(Echo::bytes(b"").is_empty() && !Echo::bytes(b"a").is_empty());
}
