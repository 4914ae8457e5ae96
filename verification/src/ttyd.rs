//! The terminal server: a cooked line discipline and its request protocol.
//!
//! Drivers feed input bytes; the server answers with the bytes to echo and,
//! once a line is complete, with the line. The edit buffer is soft state: a
//! half-typed line does not survive a restart.

use vstd::prelude::*;

use crate::bytes;
pub use crate::transport::Transport;
use crate::transport::{frames_add_up, since};

verus! {

/// Default capacity of a line.
pub const DEFAULT_LINE_BYTES: usize = 256;

/// One-byte request: clear the current edit line.
pub const OP_CLEAR: u8 = 0x00;

/// Two-byte request: feed one input byte.
pub const OP_INPUT: u8 = 0x01;

/// Two-byte request: write one output byte.
pub const OP_WRITE: u8 = 0x02;

/// One-byte request: read the last submitted line, if any.
pub const OP_READ: u8 = 0x03;

/// One-byte request: end the serve loop without a reply.
pub const OP_SHUTDOWN: u8 = 0xff;

/// Reply status: request handled.
pub const TTY_OK: u8 = 0x00;

/// Reply status: malformed request frame.
pub const TTY_BAD_REQUEST: u8 = 0x01;

/// Reply status: the line or reply buffer was full.
pub const TTY_OVERFLOW: u8 = 0x02;

/// Reply event: no completed line in this reply.
pub const EVENT_NONE: u8 = 0x00;

/// Reply event: the reply carries one submitted line.
pub const EVENT_LINE: u8 = 0x01;

/// Size of a request buffer.
pub const REQUEST_BUF_BYTES: usize = 2;

/// Reply header: status, event, echo length, line length.
pub const REPLY_HEADER_BYTES: usize = 5;

/// Size of a reply buffer for a default-sized session.
pub const REPLY_BUF_BYTES: usize = 264;

/// A decoded request.
#[derive(Clone, Copy, Debug, PartialEq, Eq, Structural)]
pub enum Request {
    /// Drop the current edit line.
    Clear,
    /// Feed one raw input byte.
    Input(u8),
    /// Write one byte to the terminal output stream.
    Write(u8),
    /// Read one submitted line.
    Read,
    /// Stop the server.
    Shutdown,
}

/// The frame of a request.
pub open spec fn request_frame(r: Request) -> Seq<u8> {
    match r {
        Request::Clear => seq![0x00u8],
        Request::Input(b) => seq![0x01u8, b],
        Request::Write(b) => seq![0x02u8, b],
        Request::Read => seq![0x03u8],
        Request::Shutdown => seq![0xffu8],
    }
}

/// The request in a frame.
pub open spec fn request_of(s: Seq<u8>) -> Option<Request> {
    if s.len() == 1 && s[0] == 0x00 {
        Some(Request::Clear)
    } else if s.len() == 2 && s[0] == 0x01 {
        Some(Request::Input(s[1]))
    } else if s.len() == 2 && s[0] == 0x02 {
        Some(Request::Write(s[1]))
    } else if s.len() == 1 && s[0] == 0x03 {
        Some(Request::Read)
    } else if s.len() == 1 && s[0] == 0xff {
        Some(Request::Shutdown)
    } else {
        None
    }
}

/// Every request is decoded from its own frame, and from no other.
pub proof fn request_frames_are_unambiguous(r: Request, s: Seq<u8>)
    ensures
        request_of(request_frame(r)) == Some(r),
        request_of(s) == Some(r) ==> s == request_frame(r),
{
    if request_of(s) == Some(r) {
        assert(s =~= request_frame(r));
    }
}

impl Request {
    pub fn input(byte: u8) -> (r: Request)
        ensures
            r == Request::Input(byte),
    {
        Request::Input(byte)
    }

    pub fn clear() -> (r: Request)
        ensures
            r == Request::Clear,
    {
        Request::Clear
    }

    pub fn write(byte: u8) -> (r: Request)
        ensures
            r == Request::Write(byte),
    {
        Request::Write(byte)
    }

    pub fn read() -> (r: Request)
        ensures
            r == Request::Read,
    {
        Request::Read
    }

    pub fn shutdown() -> (r: Request)
        ensures
            r == Request::Shutdown,
    {
        Request::Shutdown
    }

    /// Stores the request's frame at the start of `out` and returns its length.
    /// `None`, with nothing stored, where it does not fit.
    pub fn encode_into(&self, out: &mut [u8]) -> (n: Option<usize>)
        ensures
            n is Some <==> request_frame(*self).len() <= old(out)@.len(),
            n matches Some(len) ==> len == request_frame(*self).len() && final(out)@
                == bytes::overwrite(old(out)@, 0, request_frame(*self)),
            n is None ==> final(out)@ == old(out)@,
    {
        let (op, arg): (u8, Option<u8>) = match *self {
            Request::Clear => (OP_CLEAR, None),
            Request::Input(b) => (OP_INPUT, Some(b)),
            Request::Write(b) => (OP_WRITE, Some(b)),
            Request::Read => (OP_READ, None),
            Request::Shutdown => (OP_SHUTDOWN, None),
        };
        let len: usize = if arg.is_some() {
            2
        } else {
            1
        };
        if out.len() < len {
            return None;
        }
        out[0] = op;
        match arg {
            Some(b) => {
                out[1] = b;
            },
            None => {},
        }
        assert(out@ =~= bytes::overwrite(old(out)@, 0, request_frame(*self)));
        Some(len)
    }

    /// Decodes a request frame.
    pub fn decode(raw: &[u8]) -> (r: Option<Request>)
        ensures
            r == request_of(raw@),
    {
        if raw.len() == 1 {
            if raw[0] == OP_CLEAR {
                Some(Request::Clear)
            } else if raw[0] == OP_READ {
                Some(Request::Read)
            } else if raw[0] == OP_SHUTDOWN {
                Some(Request::Shutdown)
            } else {
                None
            }
        } else if raw.len() == 2 {
            if raw[0] == OP_INPUT {
                Some(Request::Input(raw[1]))
            } else if raw[0] == OP_WRITE {
                Some(Request::Write(raw[1]))
            } else {
                None
            }
        } else {
            None
        }
    }
}

/// The frame of a reply: status, event, the two lengths, the bytes to echo and
/// the line.
pub open spec fn reply_frame(status: u8, echo: Seq<u8>, line: Option<Seq<u8>>) -> Seq<u8> {
    let text = match line {
        Some(l) => l,
        None => Seq::empty(),
    };
    let event: u8 = if line is Some {
        0x01
    } else {
        0x00
    };
    seq![status, event, echo.len() as u8] + bytes::le_bytes2(text.len() as int) + echo + text
}

/// What a reply says.
#[verifier::ext_equal]
pub struct ReplyView {
    pub status: u8,
    pub echo: Seq<u8>,
    pub line: Option<Seq<u8>>,
}

/// The reply in a frame. Bytes behind it are ignored.
pub open spec fn reply_of(s: Seq<u8>) -> Option<ReplyView> {
    let echo_end = 5 + s[2];
    let line_end = echo_end + bytes::le16(s, 3);
    if s.len() < 5 || s.len() < line_end {
        None
    } else if s[1] == 0x00 && bytes::le16(s, 3) == 0 {
        Some(ReplyView { status: s[0], echo: s.subrange(5, echo_end), line: None })
    } else if s[1] == 0x01 {
        Some(
            ReplyView {
                status: s[0],
                echo: s.subrange(5, echo_end),
                line: Some(s.subrange(echo_end, line_end)),
            },
        )
    } else {
        None
    }
}

/// A reply frame says what it was made of.
pub proof fn replies_round_trip(status: u8, echo: Seq<u8>, line: Option<Seq<u8>>)
    requires
        echo.len() <= 255,
        line matches Some(l) ==> l.len() <= u16::MAX,
    ensures
        reply_of(reply_frame(status, echo, line)) == Some(ReplyView { status, echo, line }),
{
    let text = match line {
        Some(l) => l,
        None => Seq::empty(),
    };
    let s = reply_frame(status, echo, line);
    assert(s[2] == echo.len());
    assert(s[3] == bytes::le_bytes2(text.len() as int)[0]);
    assert(s[4] == bytes::le_bytes2(text.len() as int)[1]);
    bytes::lemma_le16_round_trip(text.len() as int);
    let echo_end = 5 + echo.len() as int;
    assert(s.subrange(5, echo_end) =~= echo);
    assert(s.subrange(echo_end, echo_end + text.len()) =~= text);
}

/// Parsed view of a reply frame.
#[derive(Clone, Copy, Debug, PartialEq, Eq)]
pub struct Reply<'a> {
    pub status: u8,
    pub echo: &'a [u8],
    pub line: Option<&'a [u8]>,
}

impl<'a> View for Reply<'a> {
    type V = ReplyView;

    open spec fn view(&self) -> ReplyView {
        ReplyView {
            status: self.status,
            echo: self.echo@,
            line: match self.line {
                Some(l) => Some(l@),
                None => None,
            },
        }
    }
}

impl<'a> Reply<'a> {
    /// Parses a reply frame.
    pub fn parse(raw: &'a [u8]) -> (r: Option<Reply<'a>>)
        ensures
            match r {
                Some(reply) => reply_of(raw@) == Some(reply@),
                None => reply_of(raw@) is None,
            },
    {
        if raw.len() < REPLY_HEADER_BYTES {
            return None;
        }
        let status: u8 = raw[0];
        let event: u8 = raw[1];
        let echo_len: usize = raw[2] as usize;
        let line_len: usize = bytes::read_u16(raw, 3) as usize;
        let line_start: usize = REPLY_HEADER_BYTES + echo_len;
        let line_end: usize = line_start + line_len;
        if raw.len() < line_end {
            return None;
        }
        let echo: &[u8] = &raw[REPLY_HEADER_BYTES..line_start];
        if event == EVENT_NONE && line_len == 0 {
            Some(Reply { status, echo, line: None })
        } else if event == EVENT_LINE {
            Some(Reply { status, echo, line: Some(&raw[line_start..line_end]) })
        } else {
            None
        }
    }
}

/// At most three bytes from the start of some.
pub open spec fn first_three(bytes: Seq<u8>) -> Seq<u8> {
    bytes.subrange(
        0,
        if bytes.len() < 3 {
            bytes.len() as int
        } else {
            3
        },
    )
}

/// Up to three bytes to echo for one input byte.
#[derive(Clone, Copy, Debug, PartialEq, Eq)]
pub struct Echo {
    bytes: [u8; 3],
    len: u8,
}

impl View for Echo {
    type V = Seq<u8>;

    closed spec fn view(&self) -> Seq<u8> {
        self.bytes@.subrange(0, self.len as int)
    }
}

impl Echo {
    /// The bytes that are not echoed are zero.
    pub closed spec fn wf(self) -> bool {
        &&& self.len <= 3
        &&& forall|i: int| self.len <= i < 3 ==> #[trigger] self.bytes@[i] == 0
    }

    pub fn none() -> (e: Echo)
        ensures
            e.wf(),
            e@ == Seq::<u8>::empty(),
    {
        let e = Echo { bytes: [0; 3], len: 0 };
        assert(e@ =~= Seq::<u8>::empty());
        e
    }

    pub fn byte(byte: u8) -> (e: Echo)
        ensures
            e.wf(),
            e@ == seq![byte],
    {
        let e = Echo { bytes: [byte, 0, 0], len: 1 };
        assert(e@ =~= seq![byte]);
        e
    }

    /// The first three of some bytes.
    pub fn bytes(bytes: &[u8]) -> (e: Echo)
        ensures
            e.wf(),
            e@ == first_three(bytes@),
    {
        let mut out = [0u8; 3];
        let mut i: usize = 0;
        while i < bytes.len() && i < 3
            invariant
                i <= bytes@.len(),
                i <= 3,
                forall|j: int| 0 <= j < i ==> out@[j] == bytes@[j],
                forall|j: int| i <= j < 3 ==> #[trigger] out@[j] == 0,
            decreases 3 - i,
        {
            out[i] = bytes[i];
            i += 1;
        }
        let e = Echo { bytes: out, len: i as u8 };
        assert(e@ =~= bytes@.subrange(0, i as int));
        e
    }

    pub fn as_bytes(&self) -> (r: &[u8])
        requires
            self.wf(),
        ensures
            r@ == self@,
            r@.len() <= 3,
    {
        let all: &[u8] = &self.bytes;
        &all[0..self.len as usize]
    }

    pub fn is_empty(&self) -> (r: bool)
        requires
            self.wf(),
        ensures
            r == (self@.len() == 0),
    {
        self.len == 0
    }
}

/// Two echoes of the same bytes are the same, however they were made.
pub proof fn equal_bytes_make_equal_echoes(a: Echo, b: Echo)
    requires
        a.wf(),
        b.wf(),
    ensures
        a == b <==> a@ == b@,
{
    if a@ == b@ {
        assert(a.len == a@.len() && b.len == b@.len());
        assert forall|i: int| 0 <= i < 3 implies a.bytes@[i] == b.bytes@[i] by {
            if i < a.len {
                assert(a.bytes@[i] == a@[i]);
                assert(b.bytes@[i] == b@[i]);
            }
        }
        assert(a.bytes =~= b.bytes);
    }
}

/// One byte is echoed alike as a slice and as a byte, and an empty slice like
/// nothing. Only an empty slice has an empty echo.
pub proof fn slices_echo_like_bytes(input: Seq<u8>, x: u8, slice: Echo, byte: Echo, nothing: Echo)
    requires
        slice.wf() && slice@ == first_three(input),
        byte.wf() && byte@ == seq![x],
        nothing.wf() && nothing@ == Seq::<u8>::empty(),
    ensures
        input == seq![x] ==> slice == byte,
        input == Seq::<u8>::empty() ==> slice == nothing,
        slice@.len() == 0 <==> input.len() == 0,
{
    equal_bytes_make_equal_echoes(slice, byte);
    equal_bytes_make_equal_echoes(slice, nothing);
    assert(first_three(seq![x]) =~= seq![x]);
    assert(first_three(Seq::<u8>::empty()) =~= Seq::<u8>::empty());
}

/// What one input byte did to the line.
#[derive(Clone, Copy, Debug, PartialEq, Eq, Structural)]
pub enum LineEvent {
    /// No completed line yet.
    Nothing,
    /// A line was copied into the output buffer.
    Submitted { len: usize },
    /// The input or output buffer was full, so the byte or line was not taken.
    Overflow,
}

/// Result of feeding one byte.
#[derive(Clone, Copy, Debug, PartialEq, Eq)]
pub struct InputResult {
    pub echo: Echo,
    pub event: LineEvent,
}

impl InputResult {
    pub fn none() -> (r: InputResult)
        ensures
            r.echo.wf(),
            r.echo@ == Seq::<u8>::empty(),
            r.event == LineEvent::Nothing,
    {
        InputResult { echo: Echo::none(), event: LineEvent::Nothing }
    }
}

pub open spec fn is_enter(b: u8) -> bool {
    b == 0x0d || b == 0x0a
}

pub open spec fn is_erase(b: u8) -> bool {
    b == 0x08 || b == 0x7f
}

pub open spec fn is_printable(b: u8) -> bool {
    0x20 <= b <= 0x7e
}

/// The line after input byte `b`: with room, a printable byte is added; an
/// erase byte takes the last one away; Enter empties the line if `room` bytes
/// can take it.
pub open spec fn line_after(line: Seq<u8>, cap: int, b: u8, room: int) -> Seq<u8> {
    if is_enter(b) {
        if room < line.len() {
            line
        } else {
            Seq::empty()
        }
    } else if is_erase(b) {
        if line.len() == 0 {
            line
        } else {
            line.drop_last()
        }
    } else if is_printable(b) && line.len() < cap {
        line.push(b)
    } else {
        line
    }
}

/// The bytes to echo for input byte `b`.
pub open spec fn echo_for(line: Seq<u8>, cap: int, b: u8, room: int) -> Seq<u8> {
    if is_enter(b) {
        if room < line.len() {
            seq![0x07u8]
        } else {
            seq![0x0du8, 0x0a]
        }
    } else if is_erase(b) {
        if line.len() == 0 {
            Seq::empty()
        } else {
            seq![0x08u8, 0x20, 0x08]
        }
    } else if is_printable(b) {
        if line.len() < cap {
            seq![b]
        } else {
            seq![0x07u8]
        }
    } else {
        Seq::empty()
    }
}

/// The event of input byte `b`.
pub open spec fn event_for(line: Seq<u8>, cap: int, b: u8, room: int) -> LineEvent {
    if is_enter(b) {
        if room < line.len() {
            LineEvent::Overflow
        } else {
            LineEvent::Submitted { len: line.len() as usize }
        }
    } else if is_printable(b) && line.len() >= cap && !is_erase(b) {
        LineEvent::Overflow
    } else {
        LineEvent::Nothing
    }
}

/// Erasing takes back the byte typed last.
pub proof fn erase_undoes_a_typed_byte(line: Seq<u8>, cap: int, b: u8, erase: u8, room: int)
    requires
        line.len() < cap,
        is_printable(b),
        is_erase(erase),
    ensures
        line_after(line_after(line, cap, b, room), cap, erase, room) == line,
{
    assert(line.push(b).drop_last() =~= line);
}

/// Cooked line discipline for one session.
#[derive(Clone, Copy, Debug, PartialEq, Eq)]
pub struct LineDiscipline<const N: usize> {
    buf: [u8; N],
    len: usize,
}

impl<const N: usize> View for LineDiscipline<N> {
    type V = Seq<u8>;

    closed spec fn view(&self) -> Seq<u8> {
        self.buf@.subrange(0, self.len as int)
    }
}

impl<const N: usize> LineDiscipline<N> {
    pub closed spec fn wf(self) -> bool {
        self.len <= N
    }

    /// The line never outgrows its buffer.
    pub proof fn lemma_len(self)
        requires
            self.wf(),
        ensures
            self@.len() <= N,
    {
    }

    pub fn new() -> (t: LineDiscipline<N>)
        ensures
            t.wf(),
            t@ == Seq::<u8>::empty(),
    {
        let t = LineDiscipline { buf: vstd::array::array_fill_for_copy_types(0u8), len: 0 };
        assert(t@ =~= Seq::<u8>::empty());
        t
    }

    /// Bytes typed but not yet submitted.
    pub fn pending(&self) -> (r: &[u8])
        requires
            self.wf(),
        ensures
            r@ == self@,
    {
        let all: &[u8] = &self.buf;
        &all[0..self.len]
    }

    /// Drops the current line.
    pub fn clear(&mut self)
        requires
            old(self).wf(),
        ensures
            final(self).wf(),
            final(self)@ == Seq::<u8>::empty(),
    {
        self.len = 0;
        assert(self@ =~= Seq::<u8>::empty());
    }

    /// Feeds one raw input byte. A printable byte is added and echoed, an erase
    /// byte removes one, Enter moves the line to `submitted`; other control
    /// bytes do nothing.
    pub fn feed_byte(&mut self, byte: u8, submitted: &mut [u8]) -> (r: InputResult)
        requires
            old(self).wf(),
        ensures
            final(self).wf(),
            r.echo.wf(),
            final(self)@ == line_after(old(self)@, N as int, byte, old(submitted)@.len() as int),
            r.echo@ == echo_for(old(self)@, N as int, byte, old(submitted)@.len() as int),
            r.event == event_for(old(self)@, N as int, byte, old(submitted)@.len() as int),
            final(submitted)@ == (if r.event is Submitted {
                bytes::overwrite(old(submitted)@, 0, old(self)@)
            } else {
                old(submitted)@
            }),
    {
        if byte == 0x0d || byte == 0x0a {
            self.submit(submitted)
        } else if byte == 0x08 || byte == 0x7f {
            self.backspace()
        } else if 0x20 <= byte && byte <= 0x7e {
            self.printable(byte)
        } else {
            InputResult::none()
        }
    }

    fn printable(&mut self, byte: u8) -> (r: InputResult)
        requires
            old(self).wf(),
        ensures
            final(self).wf(),
            r.echo.wf(),
            final(self)@ == (if old(self)@.len() < N {
                old(self)@.push(byte)
            } else {
                old(self)@
            }),
            r.echo@ == (if old(self)@.len() < N {
                seq![byte]
            } else {
                seq![0x07u8]
            }),
            r.event == (if old(self)@.len() < N {
                LineEvent::Nothing
            } else {
                LineEvent::Overflow
            }),
    {
        if self.len >= N {
            return InputResult { echo: Echo::byte(0x07), event: LineEvent::Overflow };
        }
        self.buf[self.len] = byte;
        self.len = self.len + 1;
        assert(self@ =~= old(self)@.push(byte));
        InputResult { echo: Echo::byte(byte), event: LineEvent::Nothing }
    }

    fn backspace(&mut self) -> (r: InputResult)
        requires
            old(self).wf(),
        ensures
            final(self).wf(),
            r.echo.wf(),
            final(self)@ == (if old(self)@.len() == 0 {
                old(self)@
            } else {
                old(self)@.drop_last()
            }),
            r.echo@ == (if old(self)@.len() == 0 {
                Seq::<u8>::empty()
            } else {
                seq![0x08u8, 0x20, 0x08]
            }),
            r.event == LineEvent::Nothing,
    {
        if self.len == 0 {
            return InputResult::none();
        }
        self.len = self.len - 1;
        assert(self@ =~= old(self)@.drop_last());
        let erase: [u8; 3] = [0x08, 0x20, 0x08];
        let echo: Echo = Echo::bytes(&erase);
        assert(echo@ =~= seq![0x08u8, 0x20, 0x08]);
        InputResult { echo, event: LineEvent::Nothing }
    }

    fn submit(&mut self, submitted: &mut [u8]) -> (r: InputResult)
        requires
            old(self).wf(),
        ensures
            final(self).wf(),
            r.echo.wf(),
            final(self)@ == (if old(submitted)@.len() < old(self)@.len() {
                old(self)@
            } else {
                Seq::<u8>::empty()
            }),
            r.echo@ == (if old(submitted)@.len() < old(self)@.len() {
                seq![0x07u8]
            } else {
                seq![0x0du8, 0x0a]
            }),
            r.event == (if old(submitted)@.len() < old(self)@.len() {
                LineEvent::Overflow
            } else {
                LineEvent::Submitted { len: old(self)@.len() as usize }
            }),
            final(submitted)@ == (if r.event is Submitted {
                bytes::overwrite(old(submitted)@, 0, old(self)@)
            } else {
                old(submitted)@
            }),
    {
        if submitted.len() < self.len {
            return InputResult { echo: Echo::byte(0x07), event: LineEvent::Overflow };
        }
        let len: usize = self.len;
        bytes::put_bytes(submitted, 0, self.pending());
        self.len = 0;
        assert(self@ =~= Seq::<u8>::empty());
        let crlf: [u8; 2] = [0x0d, 0x0a];
        let echo: Echo = Echo::bytes(&crlf);
        assert(echo@ =~= seq![0x0du8, 0x0a]);
        InputResult { echo, event: LineEvent::Submitted { len } }
    }
}

impl<const N: usize> Default for LineDiscipline<N> {
    fn default() -> (t: Self)
        ensures
            t.wf(),
            t@ == Seq::<u8>::empty(),
    {
        LineDiscipline::new()
    }
}

/// A session: the line being typed, and the submitted line that waits for a
/// read.
#[verifier::ext_equal]
pub struct TtyView {
    pub line: Seq<u8>,
    pub submitted: Option<Seq<u8>>,
}

/// What a request does to a session and what it is answered: the new session
/// and the reply's status, echo and line. Shutdown is not answered.
pub open spec fn respond(t: TtyView, cap: int, request: Seq<u8>) -> (TtyView, Option<ReplyView>) {
    match request_of(request) {
        None => (t, Some(ReplyView { status: 0x01, echo: Seq::empty(), line: None })),
        Some(Request::Clear) => (
            TtyView { line: Seq::empty(), ..t },
            Some(ReplyView { status: 0x00, echo: Seq::empty(), line: None }),
        ),
        Some(Request::Shutdown) => (t, None),
        Some(Request::Write(b)) => (
            t,
            Some(ReplyView { status: 0x00, echo: seq![b], line: None }),
        ),
        Some(Request::Read) => (
            TtyView { submitted: None, ..t },
            Some(ReplyView { status: 0x00, echo: Seq::empty(), line: t.submitted }),
        ),
        Some(Request::Input(b)) => {
            let line = line_after(t.line, cap, b, cap);
            let echo = echo_for(t.line, cap, b, cap);
            match event_for(t.line, cap, b, cap) {
                LineEvent::Nothing => (
                    TtyView { line, ..t },
                    Some(ReplyView { status: 0x00, echo, line: None }),
                ),
                LineEvent::Submitted { .. } => (
                    TtyView { line, submitted: Some(t.line) },
                    Some(ReplyView { status: 0x00, echo, line: Some(t.line) }),
                ),
                LineEvent::Overflow => (
                    TtyView { line, ..t },
                    Some(ReplyView { status: 0x02, echo, line: None }),
                ),
            }
        },
    }
}

/// The reply frame, or nothing where it does not fit `room` bytes or its line
/// is too long for the header.
pub open spec fn fitting_frame(r: ReplyView, room: int) -> Seq<u8> {
    let frame = reply_frame(r.status, r.echo, r.line);
    if frame.len() > room || (r.line matches Some(l) && l.len() > u16::MAX) {
        Seq::empty()
    } else {
        frame
    }
}

/// The bytes that answer a request, at most `room` of them.
pub open spec fn answer(t: TtyView, cap: int, request: Seq<u8>, room: int) -> Seq<u8> {
    match respond(t, cap, request).1 {
        None => Seq::empty(),
        Some(r) => fitting_frame(r, room),
    }
}

/// A submitted line comes back from the next read, whole, and from no read
/// after that.
pub proof fn submitted_line_is_read_once(t: TtyView, cap: int, enter: u8)
    requires
        t.line.len() <= cap,
        is_enter(enter),
    ensures
        ({
            let read = request_frame(Request::Read);
            let t1 = respond(t, cap, request_frame(Request::Input(enter))).0;
            let (t2, first) = respond(t1, cap, read);
            let (t3, second) = respond(t2, cap, read);
            &&& first == Some(
                ReplyView { status: 0x00, echo: Seq::empty(), line: Some(t.line) },
            )
            &&& second == Some(ReplyView { status: 0x00, echo: Seq::empty(), line: None })
            &&& t3 == t2
            &&& t2.line == Seq::<u8>::empty()
        }),
{
    let e = request_frame(Request::Input(enter));
    let read = request_frame(Request::Read);
    assert(e[0] == 0x01 && e[1] == enter && e.len() == 2);
    assert(read[0] == 0x03 && read.len() == 1);
    assert(request_of(e) == Some(Request::Input(enter)));
    assert(request_of(read) == Some(Request::Read));
}

/// Output leaves the line and the submitted line alone.
pub proof fn output_does_not_touch_the_session(t: TtyView, cap: int, b: u8)
    ensures
        respond(t, cap, request_frame(Request::Write(b))).0 == t,
        respond(t, cap, request_frame(Request::Write(b))).1 == Some(
            ReplyView { status: 0x00, echo: seq![b], line: None },
        ),
{
    let w = request_frame(Request::Write(b));
    assert(w[0] == 0x02 && w[1] == b && w.len() == 2);
}

/// Server state for one session.
#[derive(Clone, Copy, Debug, PartialEq, Eq)]
pub struct TtyServer<const N: usize> {
    line: LineDiscipline<N>,
    submitted: [u8; N],
    submitted_len: usize,
    submitted_ready: bool,
}

impl<const N: usize> View for TtyServer<N> {
    type V = TtyView;

    closed spec fn view(&self) -> TtyView {
        TtyView {
            line: self.line@,
            submitted: if self.submitted_ready {
                Some(self.submitted@.subrange(0, self.submitted_len as int))
            } else {
                None
            },
        }
    }
}

/// Writes a reply frame to the start of `reply` and returns its length. Zero,
/// with nothing written, where it does not fit.
fn write_reply(reply: &mut [u8], status: u8, echo: Echo, line: Option<&[u8]>) -> (n: usize)
    requires
        echo.wf(),
    ensures
        ({
            let frame = fitting_frame(
                ReplyView {
                    status,
                    echo: echo@,
                    line: match line {
                        Some(l) => Some(l@),
                        None => None,
                    },
                },
                old(reply)@.len() as int,
            );
            &&& n == frame.len()
            &&& final(reply)@ == bytes::overwrite(old(reply)@, 0, frame)
        }),
{
    let ghost before = reply@;
    assert(bytes::overwrite(before, 0, Seq::<u8>::empty()) =~= before);
    let shown: &[u8] = echo.as_bytes();
    let none: [u8; 0] = [];
    let (event, text): (u8, &[u8]) = match line {
        Some(l) => (EVENT_LINE, l),
        None => (EVENT_NONE, &none),
    };
    let ghost line_view = match line {
        Some(l) => Some(l@),
        None => None,
    };
    let ghost frame = reply_frame(status, shown@, line_view);
    assert(frame.len() == 5 + shown@.len() + text@.len());
    if text.len() > 0xffff {
        return 0;
    }
    let total: usize = REPLY_HEADER_BYTES + shown.len() + text.len();
    if reply.len() < total {
        return 0;
    }
    reply[0] = status;
    reply[1] = event;
    reply[2] = shown.len() as u8;
    bytes::put_u16(reply, 3, text.len() as u16);
    bytes::put_bytes(reply, 5, shown);
    bytes::put_bytes(reply, 5 + shown.len(), text);
    assert(reply@ =~= bytes::overwrite(before, 0, frame));
    total
}

impl<const N: usize> TtyServer<N> {
    pub closed spec fn wf(self) -> bool {
        self.line.wf() && self.submitted_len <= N
    }

    /// Neither line is longer than its buffer.
    pub proof fn lemma_len(self)
        requires
            self.wf(),
        ensures
            self@.line.len() <= N,
            self@.submitted matches Some(line) ==> line.len() <= N,
    {
        self.line.lemma_len();
    }

    pub fn new() -> (t: TtyServer<N>)
        ensures
            t.wf(),
            t@ == (TtyView { line: Seq::empty(), submitted: None }),
    {
        TtyServer {
            line: LineDiscipline::new(),
            submitted: vstd::array::array_fill_for_copy_types(0u8),
            submitted_len: 0,
            submitted_ready: false,
        }
    }

    /// Bytes typed but not yet submitted.
    pub fn pending(&self) -> (r: &[u8])
        requires
            self.wf(),
        ensures
            r@ == self@.line,
    {
        self.line.pending()
    }

    /// Handles one request frame, writes the reply frame to the start of
    /// `reply` and returns its length.
    pub fn dispatch(&mut self, request: &[u8], reply: &mut [u8]) -> (n: usize)
        requires
            old(self).wf(),
        ensures
            final(self).wf(),
            final(self)@ == respond(old(self)@, N as int, request@).0,
            n == answer(old(self)@, N as int, request@, old(reply)@.len() as int).len(),
            final(reply)@ == bytes::overwrite(
                old(reply)@,
                0,
                answer(old(self)@, N as int, request@, old(reply)@.len() as int),
            ),
    {
        let ghost t = self@;
        let request: Request = match Request::decode(request) {
            None => return write_reply(reply, TTY_BAD_REQUEST, Echo::none(), None),
            Some(r) => r,
        };
        match request {
            Request::Clear => {
                self.line.clear();
                write_reply(reply, TTY_OK, Echo::none(), None)
            },
            Request::Shutdown => {
                assert(bytes::overwrite(reply@, 0, Seq::<u8>::empty()) =~= reply@);
                0
            },
            Request::Write(byte) => write_reply(reply, TTY_OK, Echo::byte(byte), None),
            Request::Read => {
                if self.submitted_ready {
                    let n: usize = self.submitted_len;
                    self.submitted_ready = false;
                    self.submitted_len = 0;
                    let all: &[u8] = &self.submitted;
                    write_reply(reply, TTY_OK, Echo::none(), Some(&all[0..n]))
                } else {
                    write_reply(reply, TTY_OK, Echo::none(), None)
                }
            },
            Request::Input(byte) => {
                proof {
                    self.line.lemma_len();
                }
                let ghost typed = self.line@;
                let mut submitted: [u8; N] = vstd::array::array_fill_for_copy_types(0u8);
                let result: InputResult = self.line.feed_byte(byte, &mut submitted);
                match result.event {
                    LineEvent::Nothing => write_reply(reply, TTY_OK, result.echo, None),
                    LineEvent::Submitted { len } => {
                        let fresh: &[u8] = &submitted;
                        let text: &[u8] = &fresh[0..len];
                        assert(text@ =~= typed);
                        bytes::put_bytes(&mut self.submitted, 0, text);
                        self.submitted_len = len;
                        self.submitted_ready = true;
                        assert(self.submitted@.subrange(0, len as int) =~= typed);
                        write_reply(reply, TTY_OK, result.echo, Some(text))
                    },
                    LineEvent::Overflow => write_reply(reply, TTY_OVERFLOW, result.echo, None),
                }
            },
        }
    }

    /// Handles one request and its reply. `false` once the transport has closed
    /// or asked for shutdown; nothing is sent then.
    pub fn serve_once<T: Transport>(
        &mut self,
        transport: &mut T,
        request_buf: &mut [u8],
        reply_buf: &mut [u8],
    ) -> (go_on: bool)
        requires
            old(self).wf(),
        ensures
            final(self).wf(),
            final(request_buf)@.len() == old(request_buf)@.len(),
            final(reply_buf)@.len() == old(reply_buf)@.len(),
            !go_on ==> final(self)@ == old(self)@ && final(transport).sent() == old(
                transport,
            ).sent(),
            go_on ==> final(transport).incoming() < old(transport).incoming(),
            ({
                ||| !go_on && final(transport).received() == old(transport).received() && final(transport).closed()
                ||| exists|request: Seq<u8>|
                    final(transport).received() == #[trigger] old(transport).received().push(
                        request,
                    ) && if go_on {
                        served(
                            old(self)@,
                            N as int,
                            request,
                            old(reply_buf)@.len() as int,
                            old(transport).sent(),
                            final(self)@,
                            final(transport).sent(),
                        )
                    } else {
                        request_of(request) == Some(Request::Shutdown)
                    }
            }),
    {
        let ghost heard = transport.received();
        let n: usize = match transport.recv(request_buf) {
            None => return false,
            Some(n) => n,
        };
        let request: &[u8] = &request_buf[0..n];
        assert(transport.received() == heard.push(request@));
        match Request::decode(request) {
            Some(Request::Shutdown) => return false,
            _ => {},
        }
        let ghost room = reply_buf@.len() as int;
        let ghost before = self@;
        let ghost had = transport.sent();
        let len: usize = self.dispatch(request, reply_buf);
        let ghost frame = answer(before, N as int, request@, room);
        if len != 0 {
            assert(reply_buf@.subrange(0, len as int) =~= frame);
            transport.send(&reply_buf[0..len]);
        }
        assert(served(before, N as int, request@, room, had, self@, transport.sent()));
        true
    }
}

/// One exchange: the request was not a shutdown, the session moved on, and the
/// answer was sent unless it is empty.
pub open spec fn served(
    before: TtyView,
    cap: int,
    request: Seq<u8>,
    room: int,
    sent_before: Seq<Seq<u8>>,
    after: TtyView,
    sent_after: Seq<Seq<u8>>,
) -> bool {
    &&& request_of(request) != Some(Request::Shutdown)
    &&& after == respond(before, cap, request).0
    &&& sent_after == if answer(before, cap, request, room).len() == 0 {
        sent_before
    } else {
        sent_before.push(answer(before, cap, request, room))
    }
}

/// The session after a series of requests.
pub open spec fn session_after(t: TtyView, cap: int, requests: Seq<Seq<u8>>) -> TtyView
    decreases requests.len(),
{
    if requests.len() == 0 {
        t
    } else {
        respond(session_after(t, cap, requests.drop_last()), cap, requests.last()).0
    }
}

/// What is sent in the course of a series of requests: `sent`, and then every
/// answer that is not empty.
pub open spec fn sent_after(
    t: TtyView,
    cap: int,
    requests: Seq<Seq<u8>>,
    room: int,
    sent: Seq<Seq<u8>>,
) -> Seq<Seq<u8>>
    decreases requests.len(),
{
    if requests.len() == 0 {
        sent
    } else {
        let before = session_after(t, cap, requests.drop_last());
        let frame = answer(before, cap, requests.last(), room);
        let earlier = sent_after(t, cap, requests.drop_last(), room, sent);
        if frame.len() == 0 {
            earlier
        } else {
            earlier.push(frame)
        }
    }
}

/// Whether the last of some requests is a shutdown.
pub open spec fn ends_in_shutdown(requests: Seq<Seq<u8>>) -> bool {
    requests.len() > 0 && request_of(requests.last()) == Some(Request::Shutdown)
}

/// The requests that are answered: all but a shutdown at the end.
pub open spec fn answered(requests: Seq<Seq<u8>>) -> Seq<Seq<u8>> {
    if ends_in_shutdown(requests) {
        requests.drop_last()
    } else {
        requests
    }
}

impl TtyServer<256> {
    /// Runs request/reply exchanges until the transport closes or asks for
    /// shutdown: every request that was received is served in order, every
    /// answer is sent, and nothing is read behind a shutdown.
    pub fn serve<T: Transport>(&mut self, transport: &mut T)
        requires
            old(self).wf(),
        ensures
            final(self).wf(),
            old(transport).received().is_prefix_of(final(transport).received()),
            ({
                let all = since(old(transport).received(), final(transport).received());
                &&& final(transport).closed() || ends_in_shutdown(all)
                &&& forall|i: int|
                    0 <= i < all.len() - 1 ==> request_of(#[trigger] all[i]) != Some(
                        Request::Shutdown,
                    )
                &&& final(self)@ == session_after(old(self)@, 256, answered(all))
                &&& final(transport).sent() == sent_after(
                    old(self)@,
                    256,
                    answered(all),
                    264,
                    old(transport).sent(),
                )
            }),
    {
        let mut request_buf = [0u8; REQUEST_BUF_BYTES];
        let mut reply_buf = [0u8; REPLY_BUF_BYTES];
        let ghost heard = transport.received();
        let mut go_on: bool = true;
        assert(since(heard, transport.received()) =~= Seq::<Seq<u8>>::empty());
        assert(transport.received().subrange(0, heard.len() as int) =~= heard);
        while go_on
            invariant
                self.wf(),
                heard == old(transport).received(),
                heard.is_prefix_of(transport.received()),
                go_on ==> forall|i: int|
                    0 <= i < since(heard, transport.received()).len() ==> request_of(
                        #[trigger] since(heard, transport.received())[i],
                    ) != Some(Request::Shutdown),
                forall|i: int|
                    0 <= i < since(heard, transport.received()).len() - 1 ==> request_of(
                        #[trigger] since(heard, transport.received())[i],
                    ) != Some(Request::Shutdown),
                !go_on ==> transport.closed() || ends_in_shutdown(
                    since(heard, transport.received()),
                ),
                self@ == session_after(
                    old(self)@,
                    256,
                    answered(since(heard, transport.received())),
                ),
                transport.sent() == sent_after(
                    old(self)@,
                    256,
                    answered(since(heard, transport.received())),
                    264,
                    old(transport).sent(),
                ),
            decreases (if go_on {
                transport.incoming() + 1
            } else {
                0
            }),
        {
            let ghost so_far = transport.received();
            let ghost all = since(heard, so_far);
            go_on = self.serve_once(transport, &mut request_buf, &mut reply_buf);
            proof {
                if transport.received() != so_far {
                    let request = transport.received().last();
                    assert(transport.received() == so_far.push(request));
                    frames_add_up(heard, so_far, request);
                    assert(all.push(request).drop_last() =~= all);
                }
            }
        }
    }
}

impl<const N: usize> Default for TtyServer<N> {
    fn default() -> (t: Self)
        ensures
            t.wf(),
            t@ == (TtyView { line: Seq::empty(), submitted: None }),
    {
        TtyServer::new()
    }
}

/// What each input byte does, byte by byte. The bytes from 0x20 to 0x7e are added to the line and
/// echoed, or answered with a bell where the line is full. Carriage return and line feed hand the
/// whole line over, and are answered with a bell where there is no room for it. Backspace and
/// delete take the last byte away, and wipe it from the screen. All other bytes do nothing.
pub proof fn every_byte_does_one_thing(line: Seq<u8>, cap: int, b: u8, room: int)
    requires
        line.len() <= usize::MAX,
    ensures
        ({
            let after = line_after(line, cap, b, room);
            let echo = echo_for(line, cap, b, room);
            let event = event_for(line, cap, b, room);
            &&& 0x20 <= b && b <= 0x7e && line.len() < cap ==> {
                &&& after == line + seq![b]
                &&& echo == seq![b]
                &&& event == LineEvent::Nothing
            }
            &&& 0x20 <= b && b <= 0x7e && line.len() >= cap ==> {
                &&& after == line
                &&& echo == seq![0x07u8]
                &&& event == LineEvent::Overflow
            }
            &&& (b == 0x0d || b == 0x0a) && line.len() <= room ==> {
                &&& after == Seq::<u8>::empty()
                &&& echo == seq![0x0du8, 0x0au8]
                &&& event is Submitted
                &&& event->len == line.len()
            }
            &&& (b == 0x0d || b == 0x0a) && line.len() > room ==> {
                &&& after == line
                &&& echo == seq![0x07u8]
                &&& event == LineEvent::Overflow
            }
            &&& (b == 0x08 || b == 0x7f) && line.len() > 0 ==> {
                &&& after.len() == line.len() - 1
                &&& forall|i: int| 0 <= i < line.len() - 1 ==> #[trigger] after[i] == line[i]
                &&& echo == seq![0x08u8, 0x20u8, 0x08u8]
                &&& event == LineEvent::Nothing
            }
            &&& (b == 0x08 || b == 0x7f) && line.len() == 0 ==> {
                &&& after == line
                &&& echo == Seq::<u8>::empty()
                &&& event == LineEvent::Nothing
            }
            &&& (b < 0x20 && b != 0x08 && b != 0x0a && b != 0x0d) || b > 0x7f ==> {
                &&& after == line
                &&& echo == Seq::<u8>::empty()
                &&& event == LineEvent::Nothing
            }
        }),
{
    assert(line.push(b) =~= line + seq![b]);
}

/// The line after some input bytes.
pub open spec fn line_after_all(line: Seq<u8>, cap: int, text: Seq<u8>, room: int) -> Seq<u8>
    decreases text.len(),
{
    if text.len() == 0 {
        line
    } else {
        line_after(line_after_all(line, cap, text.drop_last(), room), cap, text.last(), room)
    }
}

/// Text of bytes from 0x20 to 0x7e that fits is typed as it is: the line grows by the text, and
/// Enter then submits the whole line and leaves an empty one.
pub proof fn typed_text_is_submitted(line: Seq<u8>, cap: int, text: Seq<u8>, room: int, enter: u8)
    requires
        forall|i: int| 0 <= i < text.len() ==> 0x20 <= #[trigger] text[i] && text[i] <= 0x7e,
        line.len() + text.len() <= cap,
        line.len() + text.len() <= room,
        line.len() + text.len() <= usize::MAX,
        enter == 0x0d || enter == 0x0a,
    ensures
        line_after_all(line, cap, text, room) == line + text,
        event_for(line + text, cap, enter, room) is Submitted,
        event_for(line + text, cap, enter, room)->len == line.len() + text.len(),
        line_after_all(line, cap, text.push(enter), room) == Seq::<u8>::empty(),
{
    lemma_typed(line, cap, text, room);
    assert(text.push(enter).drop_last() =~= text);
}

proof fn lemma_typed(line: Seq<u8>, cap: int, text: Seq<u8>, room: int)
    requires
        forall|i: int| 0 <= i < text.len() ==> 0x20 <= #[trigger] text[i] && text[i] <= 0x7e,
        line.len() + text.len() <= cap,
    ensures
        line_after_all(line, cap, text, room) == line + text,
    decreases text.len(),
{
    if text.len() == 0 {
        assert(line + text =~= line);
    } else {
        let part = text.drop_last();
        assert forall|i: int| 0 <= i < part.len() implies 0x20 <= #[trigger] part[i] && part[i]
            <= 0x7e by {
            assert(part[i] == text[i]);
        }
        lemma_typed(line, cap, part, room);
        assert(text[text.len() - 1] == text.last());
        assert((line + part).push(text.last()) =~= line + text);
    }
}

/// A frame is a request just where it is one byte 0x00, 0x03 or 0xff, or two bytes of which the
/// first is 0x01 or 0x02; the second byte is then the one to type or to write.
pub proof fn requests_are_one_or_two_bytes(s: Seq<u8>, b: u8)
    ensures
        request_of(seq![0x00u8]) == Some(Request::Clear),
        request_of(seq![0x01u8, b]) == Some(Request::Input(b)),
        request_of(seq![0x02u8, b]) == Some(Request::Write(b)),
        request_of(seq![0x03u8]) == Some(Request::Read),
        request_of(seq![0xffu8]) == Some(Request::Shutdown),
        s.len() == 0 || s.len() > 2 ==> request_of(s) is None,
        s.len() == 1 && s[0] != 0x00 && s[0] != 0x03 && s[0] != 0xff ==> request_of(s) is None,
        s.len() == 2 && s[0] != 0x01 && s[0] != 0x02 ==> request_of(s) is None,
        request_frame(Request::Clear) == seq![0x00u8],
        request_frame(Request::Input(b)) == seq![0x01u8, b],
        request_frame(Request::Write(b)) == seq![0x02u8, b],
        request_frame(Request::Read) == seq![0x03u8],
        request_frame(Request::Shutdown) == seq![0xffu8],
{
}

/// What each frame is answered. Clearing empties the line and keeps a submitted one. A read hands
/// a submitted line out once. Output is echoed. A frame that is no request changes nothing.
pub proof fn every_request_has_its_answer(t: TtyView, cap: int, s: Seq<u8>, b: u8)
    requires
        t.line.len() <= usize::MAX,
    ensures
        respond(t, cap, seq![0x00u8]) == (
            TtyView { line: Seq::empty(), submitted: t.submitted },
            Some(ReplyView { status: 0x00, echo: Seq::empty(), line: None }),
        ),
        respond(t, cap, seq![0x02u8, b]) == (
            t,
            Some(ReplyView { status: 0x00, echo: seq![b], line: None }),
        ),
        respond(t, cap, seq![0x03u8]) == (
            TtyView { line: t.line, submitted: None },
            Some(ReplyView { status: 0x00, echo: Seq::empty(), line: t.submitted }),
        ),
        respond(t, cap, seq![0xffu8]) == (t, None::<ReplyView>),
        s.len() == 0 || s.len() > 2 || (s.len() == 1 && s[0] != 0x00 && s[0] != 0x03 && s[0]
            != 0xff) || (s.len() == 2 && s[0] != 0x01 && s[0] != 0x02) ==> respond(t, cap, s) == (
            t,
            Some(ReplyView { status: 0x01, echo: Seq::empty(), line: None }),
        ),
        0x20 <= b && b <= 0x7e && t.line.len() < cap ==> respond(t, cap, seq![0x01u8, b]) == (
            TtyView { line: t.line + seq![b], submitted: t.submitted },
            Some(ReplyView { status: 0x00, echo: seq![b], line: None }),
        ),
        0x20 <= b && b <= 0x7e && t.line.len() >= cap ==> respond(t, cap, seq![0x01u8, b]) == (
            t,
            Some(ReplyView { status: 0x02, echo: seq![0x07u8], line: None }),
        ),
        (b == 0x0d || b == 0x0a) && t.line.len() <= cap ==> respond(t, cap, seq![0x01u8, b]) == (
            TtyView { line: Seq::empty(), submitted: Some(t.line) },
            Some(ReplyView { status: 0x00, echo: seq![0x0du8, 0x0au8], line: Some(t.line) }),
        ),
        (b == 0x08 || b == 0x7f) && t.line.len() > 0 ==> respond(t, cap, seq![0x01u8, b]) == (
            TtyView { line: t.line.subrange(0, t.line.len() - 1), submitted: t.submitted },
            Some(ReplyView { status: 0x00, echo: seq![0x08u8, 0x20u8, 0x08u8], line: None }),
        ),
{
    every_byte_does_one_thing(t.line, cap, b, cap);
    assert(t.line.drop_last() =~= t.line.subrange(0, t.line.len() - 1));
    assert(seq![0x01u8, b][1] == b);
    assert(seq![0x02u8, b][1] == b);
}

/// Typing a text byte by byte and then Enter submits exactly that text, whatever session it is
/// typed into.
pub proof fn typing_a_session_submits_the_text(t: TtyView, cap: int, text: Seq<u8>, enter: u8)
    requires
        forall|i: int| 0 <= i < text.len() ==> 0x20 <= #[trigger] text[i] && text[i] <= 0x7e,
        t.line.len() + text.len() <= cap,
        t.line.len() + text.len() <= usize::MAX,
        enter == 0x0d || enter == 0x0a,
    ensures
        ({
            let typed = Seq::new(text.len(), |i: int| seq![0x01u8, text[i]]);
            let before = session_after(t, cap, typed);
            &&& before == (TtyView { line: t.line + text, submitted: t.submitted })
            &&& respond(before, cap, seq![0x01u8, enter]) == (
                TtyView { line: Seq::empty(), submitted: Some(t.line + text) },
                Some(
                    ReplyView {
                        status: 0x00,
                        echo: seq![0x0du8, 0x0au8],
                        line: Some(t.line + text),
                    },
                ),
            )
        }),
    decreases text.len(),
{
    let typed = Seq::new(text.len(), |i: int| seq![0x01u8, text[i]]);
    let before = TtyView { line: t.line + text, submitted: t.submitted };
    if text.len() == 0 {
        assert(t.line + text =~= t.line);
    } else {
        let part = text.drop_last();
        assert forall|i: int| 0 <= i < part.len() implies 0x20 <= #[trigger] part[i] && part[i]
            <= 0x7e by {
            assert(part[i] == text[i]);
        }
        typing_a_session_submits_the_text(t, cap, part, enter);
        let fewer = Seq::new(part.len(), |i: int| seq![0x01u8, part[i]]);
        assert(typed.drop_last() =~= fewer) by {
            assert forall|i: int| 0 <= i < fewer.len() implies typed.drop_last()[i] == fewer[i] by {
                assert(part[i] == text[i]);
            }
        }
        assert(text[text.len() - 1] == text.last());
        every_request_has_its_answer(session_after(t, cap, fewer), cap, seq![], text.last());
        assert(t.line + part + seq![text.last()] =~= t.line + text);
    }
    every_request_has_its_answer(before, cap, seq![], enter);
}

/// Where each part of a reply frame stands: the status, 1 for a line and 0 for none, the length of
/// the echo, the length of the line in two bytes, low byte first, the echo and the line.
pub proof fn reply_frames_are_laid_out(status: u8, echo: Seq<u8>, line: Option<Seq<u8>>)
    requires
        echo.len() <= 255,
        line matches Some(l) ==> l.len() <= 0xffff,
    ensures
        ({
            let frame = reply_frame(status, echo, line);
            let len = match line {
                Some(l) => l.len() as int,
                None => 0,
            };
            &&& frame.len() == 5 + echo.len() + len
            &&& frame[0] == status
            &&& frame[1] == if line is Some {
                1u8
            } else {
                0u8
            }
            &&& frame[2] == echo.len()
            &&& frame[3] + 0x100 * frame[4] == len
            &&& forall|i: int| 0 <= i < echo.len() ==> frame[5 + i] == #[trigger] echo[i]
            &&& line matches Some(l) ==> forall|i: int|
                0 <= i < l.len() ==> frame[5 + echo.len() + i] == #[trigger] l[i]
        }),
{
    let len = match line {
        Some(l) => l.len() as int,
        None => 0,
    };
    bytes::lemma_le16_round_trip(len);
    let frame = reply_frame(status, echo, line);
    assert(frame[3] == bytes::le_bytes2(len)[0]);
    assert(frame[4] == bytes::le_bytes2(len)[1]);
}

/// A reply frame that is long enough for what it announces is read part by part; bytes behind it
/// do not count. Any other is no reply.
pub proof fn replies_are_read_by_position(s: Seq<u8>)
    ensures
        s.len() < 5 ==> reply_of(s) is None,
        s.len() >= 5 ==> {
            let len = s[3] + 0x100 * s[4];
            &&& s.len() < 5 + s[2] + len ==> reply_of(s) is None
            &&& s[1] > 1 ==> reply_of(s) is None
            &&& s[1] == 0 && len > 0 ==> reply_of(s) is None
            &&& s.len() >= 5 + s[2] + len && (s[1] == 1 || (s[1] == 0 && len == 0)) ==> {
                &&& reply_of(s) is Some
                &&& reply_of(s)->0.status == s[0]
                &&& reply_of(s)->0.echo == s.subrange(5, 5 + s[2])
                &&& reply_of(s)->0.line is Some <==> s[1] == 1
                &&& s[1] == 1 ==> reply_of(s)->0.line->0 == s.subrange(
                    5 + s[2],
                    5 + s[2] + len,
                )
            }
        },
{
}

/// A reply is sent whole or not at all: it is sent where it fits the buffer and its line fits the
/// two bytes of its length.
pub proof fn replies_are_sent_whole(r: ReplyView, room: int)
    requires
        r.echo.len() <= 255,
    ensures
        ({
            let len = match r.line {
                Some(l) => l.len() as int,
                None => 0,
            };
            &&& len <= 0xffff && 5 + r.echo.len() + len <= room ==> fitting_frame(r, room)
                == reply_frame(r.status, r.echo, r.line)
            &&& len > 0xffff || 5 + r.echo.len() + len > room ==> fitting_frame(r, room).len() == 0
        }),
{
}

/// An echo holds the bytes that it is made of, up to the third.
pub proof fn echoes_hold_three_bytes(input: Seq<u8>)
    ensures
        input.len() <= 3 ==> first_three(input) == input,
        input.len() > 3 ==> first_three(input) == seq![input[0], input[1], input[2]],
{
    assert(input.len() <= 3 ==> first_three(input) =~= input);
    assert(input.len() > 3 ==> first_three(input) =~= seq![input[0], input[1], input[2]]);
}

/// Requests are served one after the other: what comes after some of them starts from where those
/// left the session, and every answer is sent behind the answers before it.
pub proof fn requests_are_served_in_order(
    t: TtyView,
    cap: int,
    a: Seq<Seq<u8>>,
    b: Seq<Seq<u8>>,
    room: int,
    sent: Seq<Seq<u8>>,
)
    ensures
        session_after(t, cap, Seq::empty()) == t,
        sent_after(t, cap, Seq::empty(), room, sent) == sent,
        b.len() == 1 ==> session_after(t, cap, b) == respond(t, cap, b[0]).0,
        b.len() == 1 ==> sent_after(t, cap, b, room, sent) == sent + (if answer(
            t,
            cap,
            b[0],
            room,
        ).len() == 0 {
            Seq::empty()
        } else {
            seq![answer(t, cap, b[0], room)]
        }),
        session_after(t, cap, a + b) == session_after(session_after(t, cap, a), cap, b),
        sent_after(t, cap, a + b, room, sent) == sent_after(
            session_after(t, cap, a),
            cap,
            b,
            room,
            sent_after(t, cap, a, room, sent),
        ),
    decreases b.len(),
{
    reveal_with_fuel(session_after, 2);
    reveal_with_fuel(sent_after, 2);
    if b.len() == 0 {
        assert(a + b =~= a);
    } else {
        requests_are_served_in_order(t, cap, a, b.drop_last(), room, sent);
        assert((a + b).drop_last() =~= a + b.drop_last());
        assert((a + b).last() == b.last());
    }
    if b.len() == 1 {
        let frame = answer(t, cap, b[0], room);
        assert(b.drop_last() =~= Seq::empty());
        assert(sent.push(frame) =~= sent + seq![frame]);
        assert(sent =~= sent + Seq::<Seq<u8>>::empty());
    }
}

/// The requests that are answered are all of them but a last frame of the single byte 0xff.
pub proof fn all_but_a_shutdown_is_answered(requests: Seq<Seq<u8>>, last: Seq<u8>)
    ensures
        last.len() == 1 && last[0] == 0xff ==> answered(requests.push(last)) == requests,
        !(last.len() == 1 && last[0] == 0xff) ==> answered(requests.push(last)) == requests.push(
            last,
        ),
        answered(Seq::empty()) == Seq::<Seq<u8>>::empty(),
{
    assert(requests.push(last).drop_last() =~= requests);
}

} // verus!
