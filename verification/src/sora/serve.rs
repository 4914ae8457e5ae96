//! The serve loop: which channel woke it, and what each request is answered.

use vstd::prelude::*;

use crate::abi::Handle;
use crate::bytes;
use crate::sora::fat;
use crate::sora::vmo;
use crate::ttyd;

verus! {

/// The objects that the loop waits on.
#[derive(Clone, Copy, Debug, PartialEq, Eq, Structural)]
pub struct Sources {
    pub terminal: Option<Handle>,
    pub console: Handle,
    pub block: Handle,
    pub net: Handle,
    pub keyboard: Handle,
}

/// What a wake-up is about. A terminal's end is handled alone.
#[derive(Clone, Copy, Debug, PartialEq, Eq, Structural)]
pub struct Wake {
    pub terminal: bool,
    pub console: bool,
    pub block: bool,
    pub net: bool,
    pub keyboard: bool,
}

/// The handlers that a wake-up by `source` concerns.
pub open spec fn wake_of(s: Sources, source: Handle) -> Wake {
    let terminal = s.terminal == Some(source);
    Wake {
        terminal,
        console: !terminal && source == s.console,
        block: !terminal && source == s.block,
        net: !terminal && source == s.net,
        keyboard: !terminal && source == s.keyboard,
    }
}

/// Finds the handlers for the object that woke the loop.
pub fn route(s: &Sources, source: Handle) -> (w: Wake)
    ensures
        w == wake_of(*s, source),
{
    let terminal: bool = match s.terminal {
        Some(h) => h == source,
        None => false,
    };
    Wake {
        terminal,
        console: !terminal && source == s.console,
        block: !terminal && source == s.block,
        net: !terminal && source == s.net,
        keyboard: !terminal && source == s.keyboard,
    }
}

/// Where the objects are different ones, a wake-up concerns at most one
/// handler.
pub proof fn one_handler_per_wake_up(s: Sources, source: Handle)
    requires
        s.console != s.block,
        s.console != s.net,
        s.console != s.keyboard,
        s.block != s.net,
        s.block != s.keyboard,
        s.net != s.keyboard,
    ensures
        ({
            let w = wake_of(s, source);
            &&& w.terminal ==> !w.console && !w.block && !w.net && !w.keyboard
            &&& w.console ==> !w.block && !w.net && !w.keyboard
            &&& w.block ==> !w.net && !w.keyboard
            &&& w.net ==> !w.keyboard
        }),
{
}

/// A request to the block service. An empty frame is the echo of the service's
/// own reply and asks for nothing.
pub enum BlockRequest {
    Spurious,
    Raw { offset: u64, len: u64 },
    FileAt { offset: u64, len: u64, path: Seq<u8> },
    File { path: Seq<u8> },
}

/// The request in a frame: sixteen bytes are an offset and a length in the boot
/// image; a one, an offset, a length and a path ask for part of a file; any
/// other frame is a path.
pub open spec fn block_request_of(frame: Seq<u8>) -> BlockRequest {
    if frame.len() == 0 {
        BlockRequest::Spurious
    } else if frame.len() == 16 {
        BlockRequest::Raw {
            offset: bytes::le64(frame, 0) as u64,
            len: bytes::le64(frame, 8) as u64,
        }
    } else if frame[0] == 0x01 && frame.len() >= 17 {
        BlockRequest::FileAt {
            offset: bytes::le64(frame, 1) as u64,
            len: bytes::le64(frame, 9) as u64,
            path: frame.subrange(17, frame.len() as int),
        }
    } else {
        BlockRequest::File { path: frame }
    }
}

/// A length cut down to the reply buffer's.
pub open spec fn capped(len: u64) -> usize {
    if len < 512 {
        len as usize
    } else {
        512
    }
}

/// The reply to a block request: the data, or nothing for every failure. `None`
/// for a frame that is not to be answered.
pub open spec fn block_reply_of(image: vmo::Vmo, frame: Seq<u8>) -> Option<Seq<u8>> {
    match block_request_of(frame) {
        BlockRequest::Spurious => None,
        BlockRequest::Raw { offset, len } => Some(
            if capped(len) == 0 {
                Seq::empty()
            } else {
                match image(offset, capped(len)) {
                    Some(data) => data,
                    None => Seq::empty(),
                }
            },
        ),
        BlockRequest::FileAt { offset, len, path } => Some(
            fat::file_read_at(image, path, offset, len),
        ),
        BlockRequest::File { path } => Some(fat::file_read_at(image, path, 0, 512)),
    }
}

/// Answers a request to the block service: stores the reply at the start of
/// `out` and returns its length. `None` asks for no reply.
pub fn serve_block<R: Fn(u64, usize) -> Option<Vec<u8>>>(
    read: &R,
    frame: &[u8],
    out: &mut [u8; 512],
) -> (n: Option<usize>)
    requires
        vmo::is_reader(*read),
    ensures
        n is None <==> frame@.len() == 0,
        n matches Some(len) ==> len <= 512,
        forall|image: vmo::Vmo| #[trigger]
            vmo::follows(*read, image) ==> match n {
                None => block_reply_of(image, frame@) is None && final(out)@ == old(out)@,
                Some(len) => {
                    &&& block_reply_of(image, frame@) matches Some(reply)
                    &&& len == reply.len()
                    &&& final(out)@ == bytes::overwrite(old(out)@, 0, reply)
                },
            },
{
    let ghost before = out@;
    assert(bytes::overwrite(before, 0, Seq::<u8>::empty()) =~= before);
    if frame.len() == 0 {
        return None;
    }
    if frame.len() == 16 {
        let offset: u64 = bytes::read_u64(frame, 0);
        let asked: u64 = bytes::read_u64(frame, 8);
        let len: usize = if asked < 512 {
            asked as usize
        } else {
            512
        };
        if len == 0 {
            return Some(0);
        }
        return match read(offset, len) {
            Some(data) => {
                bytes::put_bytes(out, 0, &data);
                Some(len)
            },
            None => Some(0),
        };
    }
    if frame[0] == 0x01 && frame.len() >= 17 {
        let offset: u64 = bytes::read_u64(frame, 1);
        let len: u64 = bytes::read_u64(frame, 9);
        Some(fat::serve_file_read_at(read, &frame[17..frame.len()], offset, len, out))
    } else {
        Some(fat::serve_file_read(read, frame, out))
    }
}

/// The reply of the network service: control words get a token, anything else
/// comes back as it is. `None` for an empty frame, which is not answered.
pub open spec fn net_reply_of(frame: Seq<u8>) -> Option<Seq<u8>> {
    if frame == seq![0x63u8, 0x6f, 0x6e, 0x6e] {
        Some(frame)
    } else if frame.len() > 5 && frame.subrange(0, 5) == seq![0x70u8, 0x69, 0x70, 0x65, 0x3a] {
        Some(seq![0x70u8, 0x69, 0x70, 0x65])
    } else if frame.len() > 0 {
        Some(frame)
    } else {
        None
    }
}

/// Answers a frame of the network service.
pub fn net_reply(frame: &[u8]) -> (r: Option<Vec<u8>>)
    ensures
        vmo::answer(r) == net_reply_of(frame@),
{
    if frame.len() == 0 {
        return None;
    }
    let mut out: Vec<u8> = Vec::new();
    let prefix: [u8; 5] = [0x70, 0x69, 0x70, 0x65, 0x3a];
    assert(prefix@ =~= seq![0x70u8, 0x69, 0x70, 0x65, 0x3a]);
    if frame.len() > 5 && bytes::bytes_equal(&frame[0..5], &prefix) {
        bytes::append(&mut out, &prefix[0..4]);
        assert(out@ =~= seq![0x70u8, 0x69, 0x70, 0x65]);
    } else {
        bytes::append(&mut out, frame);
        assert(out@ =~= frame@);
    }
    Some(out)
}

/// Why a key did not reach the terminal server.
#[derive(Clone, Copy, Debug, PartialEq, Eq, Structural)]
pub enum KeyFailure {
    Exchange,
    Parse,
    Status,
}

impl KeyFailure {
    /// What the log says of it.
    pub open spec fn text_of(self) -> Seq<char> {
        match self {
            KeyFailure::Exchange => "ttyd: interactive input fail\n"@,
            KeyFailure::Parse => "ttyd: interactive parse fail\n"@,
            KeyFailure::Status => "ttyd: interactive status fail\n"@,
        }
    }

    /// Returns [`KeyFailure::text_of`].
    pub fn text(self) -> (s: &'static str)
        ensures
            s@ == self.text_of(),
    {
        match self {
            KeyFailure::Exchange => "ttyd: interactive input fail\n",
            KeyFailure::Parse => "ttyd: interactive parse fail\n",
            KeyFailure::Status => "ttyd: interactive status fail\n",
        }
    }
}

/// What a key brought: bytes to show, and the line that it completed.
#[derive(Debug)]
pub struct KeyOutcome {
    pub echo: Vec<u8>,
    pub line: Option<Vec<u8>>,
}

/// A [`KeyOutcome`] as plain data.
#[verifier::ext_equal]
pub struct KeyView {
    pub echo: Seq<u8>,
    pub line: Option<Seq<u8>>,
}

impl View for KeyOutcome {
    type V = KeyView;

    open spec fn view(&self) -> KeyView {
        KeyView { echo: self.echo@, line: vmo::answer(self.line) }
    }
}

/// What the terminal server's reply to a key brings. A line that overflowed is
/// shown like any other key.
pub open spec fn key_outcome_of(reply: Option<Seq<u8>>) -> Result<KeyView, KeyFailure> {
    match reply {
        None => Err(KeyFailure::Exchange),
        Some(raw) => match ttyd::reply_of(raw) {
            None => Err(KeyFailure::Parse),
            Some(v) => if v.status != 0x00 && v.status != 0x02 {
                Err(KeyFailure::Status)
            } else {
                Ok(KeyView { echo: v.echo, line: v.line })
            },
        },
    }
}

/// Reads the terminal server's reply to a key.
pub fn key_outcome(reply: Option<&[u8]>) -> (r: Result<KeyOutcome, KeyFailure>)
    ensures
        match r {
            Ok(k) => key_outcome_of(
                match reply {
                    Some(raw) => Some(raw@),
                    None => None,
                },
            ) == Ok::<KeyView, KeyFailure>(k@),
            Err(e) => key_outcome_of(
                match reply {
                    Some(raw) => Some(raw@),
                    None => None,
                },
            ) == Err::<KeyView, KeyFailure>(e),
        },
{
    let raw: &[u8] = match reply {
        None => return Err(KeyFailure::Exchange),
        Some(raw) => raw,
    };
    let parsed: ttyd::Reply = match ttyd::Reply::parse(raw) {
        None => return Err(KeyFailure::Parse),
        Some(p) => p,
    };
    if parsed.status != ttyd::TTY_OK && parsed.status != ttyd::TTY_OVERFLOW {
        return Err(KeyFailure::Status);
    }
    let mut echo: Vec<u8> = Vec::new();
    bytes::append(&mut echo, parsed.echo);
    assert(echo@ =~= parsed.echo@);
    let line: Option<Vec<u8>> = match parsed.line {
        None => None,
        Some(l) => {
            let mut line: Vec<u8> = Vec::new();
            bytes::append(&mut line, l);
            assert(line@ =~= l@);
            Some(line)
        },
    };
    Ok(KeyOutcome { echo, line })
}

/// Every key is shown as the terminal server echoes it, and a line comes out
/// just when enter is pressed on it.
pub proof fn keys_reach_the_terminal(t: ttyd::TtyView, cap: int, key: u8, room: int)
    requires
        t.line.len() <= cap <= u16::MAX,
        room >= 5 + 255 + cap,
    ensures
        key_outcome_of(
            Some(ttyd::answer(t, cap, ttyd::request_frame(ttyd::Request::Input(key)), room)),
        ) == Ok::<KeyView, KeyFailure>(
            KeyView {
                echo: ttyd::echo_for(t.line, cap, key, cap),
                line: if ttyd::is_enter(key) {
                    Some(t.line)
                } else {
                    None
                },
            },
        ),
{
    let e = ttyd::request_frame(ttyd::Request::Input(key));
    assert(e[0] == 0x01 && e[1] == key && e.len() == 2);
    let v = ttyd::respond(t, cap, e).1->0;
    assert(v.echo.len() <= 3);
    ttyd::replies_round_trip(v.status, v.echo, v.line);
}

/// A wake-up goes to the handler whose object woke the loop; one by the watched terminal goes to it
/// alone.
pub proof fn wake_ups_go_to_their_object(s: Sources, source: Handle)
    ensures
        wake_of(s, source).terminal <==> s.terminal == Some(source),
        s.terminal == Some(source) ==> !wake_of(s, source).console && !wake_of(s, source).block
            && !wake_of(s, source).net && !wake_of(s, source).keyboard,
        s.terminal != Some(source) ==> {
            &&& wake_of(s, source).console <==> source == s.console
            &&& wake_of(s, source).block <==> source == s.block
            &&& wake_of(s, source).net <==> source == s.net
            &&& wake_of(s, source).keyboard <==> source == s.keyboard
        },
{
}

/// A frame's length and first byte say what it asks for: nothing, part of the boot image, part of a
/// file, or the start of a file.
pub proof fn block_frames_are_told_by_their_length(frame: Seq<u8>)
    ensures
        frame.len() == 0 ==> block_request_of(frame) is Spurious,
        frame.len() == 16 ==> block_request_of(frame) == (BlockRequest::Raw {
            offset: bytes::le64(frame, 0) as u64,
            len: bytes::le64(frame, 8) as u64,
        }),
        frame.len() >= 17 && frame[0] == 1 ==> block_request_of(frame) == (BlockRequest::FileAt {
            offset: bytes::le64(frame, 1) as u64,
            len: bytes::le64(frame, 9) as u64,
            path: frame.subrange(17, frame.len() as int),
        }),
        frame.len() >= 17 && frame[0] != 1 ==> block_request_of(frame) == (BlockRequest::File {
            path: frame,
        }),
        0 < frame.len() < 16 ==> block_request_of(frame) == (BlockRequest::File { path: frame }),
{
}

/// A request for part of the boot image returns its bytes from the offset on, as many as it asks for up to
/// 512, and nothing where the image does not hold them all.
pub proof fn raw_requests_return_the_image(img: Seq<u8>, frame: Seq<u8>)
    requires
        frame.len() == 16,
        img.len() <= u64::MAX,
    ensures
        ({
            let off = bytes::le64(frame, 0);
            let asked = bytes::le64(frame, 8);
            let n = if asked < 512 {
                asked
            } else {
                512
            };
            let r = block_reply_of(vmo::image_vmo(img), frame);
            &&& r is Some
            &&& off + n <= img.len() ==> r->0 == img.subrange(off, off + n)
            &&& off + n > img.len() ==> r->0 == Seq::<u8>::empty()
        }),
{
    let off = bytes::le64(frame, 0);
    if off <= img.len() {
        assert(img.subrange(off, off) =~= Seq::empty());
    }
}

/// Requests for a file return what the file holds there: at an offset where one is given, and the first
/// 512 bytes where only a path is. An empty frame is not answered.
pub proof fn file_requests_return_the_file(image: vmo::Vmo, frame: Seq<u8>)
    ensures
        frame.len() == 0 ==> block_reply_of(image, frame) is None,
        frame.len() >= 17 && frame[0] == 1 ==> block_reply_of(image, frame) == Some(
            fat::file_read_at(
                image,
                frame.subrange(17, frame.len() as int),
                bytes::le64(frame, 1) as u64,
                bytes::le64(frame, 9) as u64,
            ),
        ),
        (0 < frame.len() < 16) || (frame.len() >= 17 && frame[0] != 1) ==> block_reply_of(
            image,
            frame,
        ) == Some(fat::file_read_at(image, frame, 0, 512)),
{
}

/// The network service answers `pipe:` with something behind it by `pipe`, every other frame by itself,
/// and an empty one not at all.
pub proof fn net_frames_come_back(text: Seq<u8>, frame: Seq<u8>)
    ensures
        text.len() > 0 ==> net_reply_of(seq![0x70u8, 0x69u8, 0x70u8, 0x65u8, 0x3au8] + text) == Some(
            seq![0x70u8, 0x69u8, 0x70u8, 0x65u8],
        ),
        frame.len() == 0 ==> net_reply_of(frame) is None,
        0 < frame.len() <= 5 ==> net_reply_of(frame) == Some(frame),
        frame.len() > 5 && !(frame[0] == 0x70 && frame[1] == 0x69 && frame[2] == 0x70 && frame[3]
            == 0x65 && frame[4] == 0x3a) ==> net_reply_of(frame) == Some(frame),
{
    let pipe = seq![0x70u8, 0x69u8, 0x70u8, 0x65u8, 0x3au8];
    assert((pipe + text).subrange(0, 5) =~= pipe);
    if text.len() > 0 {
        assert((pipe + text).len() > 5);
        assert(seq![0x63u8, 0x6fu8, 0x6eu8, 0x6eu8].len() == 4);
    }
    if frame.len() > 5 && frame.subrange(0, 5) == pipe {
        let part = frame.subrange(0, 5);
        assert(part[0] == frame[0] && part[1] == frame[1] && part[2] == frame[2]);
        assert(part[3] == frame[3] && part[4] == frame[4]);
    }
}

/// A key is lost without a reply, with a reply that cannot be read, and with one whose status is neither
/// 0 nor 2; otherwise its echo and its line are those of the reply.
pub proof fn key_replies_are_taken_over(raw: Seq<u8>)
    ensures
        key_outcome_of(None) == Err::<KeyView, KeyFailure>(KeyFailure::Exchange),
        ttyd::reply_of(raw) is None ==> key_outcome_of(Some(raw)) == Err::<KeyView, KeyFailure>(
            KeyFailure::Parse,
        ),
        ttyd::reply_of(raw) matches Some(v) ==> {
            &&& v.status == 0 || v.status == 2 ==> key_outcome_of(Some(raw)) == Ok::<
                KeyView,
                KeyFailure,
            >(KeyView { echo: v.echo, line: v.line })
            &&& v.status == 1 || v.status > 2 ==> key_outcome_of(Some(raw)) == Err::<
                KeyView,
                KeyFailure,
            >(KeyFailure::Status)
        },
{
}

} // verus!
