//! The health server: a liveness probe and two advisory counters. Its state is
//! lost on restart, and nothing depends on it.

use vstd::prelude::*;

use crate::bytes;
pub use crate::transport::Transport;
use crate::transport::{frames_add_up, since};

verus! {

pub const OP_PING: u8 = 0x01;

pub const OP_STATUS: u8 = 0x02;

pub const OP_SHUTDOWN: u8 = 0x03;

pub const OP_PONG: u8 = 0x81;

pub const OP_STATUS_OK: u8 = 0x82;

pub const OP_ERROR: u8 = 0xee;

/// A request to the health server.
#[derive(Clone, Copy, Debug, PartialEq, Eq, Structural)]
pub enum Request {
    /// Liveness probe, answered by [`Response::Pong`].
    Ping,
    /// Asks for the counters, answered by [`Response::Status`].
    Status,
    /// Ends the serve loop without a reply.
    Shutdown,
}

/// A reply of the health server.
#[derive(Clone, Copy, Debug, PartialEq, Eq, Structural)]
pub enum Response {
    /// Answer to [`Request::Ping`].
    Pong,
    /// Answer to [`Request::Status`]: uptime in ticks and requests served.
    Status { uptime_ticks: u64, served: u64 },
    /// The request frame was malformed.
    Error,
}

/// The frame of a request.
pub open spec fn request_frame(r: Request) -> Seq<u8> {
    match r {
        Request::Ping => seq![0x01u8],
        Request::Status => seq![0x02u8],
        Request::Shutdown => seq![0x03u8],
    }
}

/// The request in a frame, which its first byte decides.
pub open spec fn request_of(s: Seq<u8>) -> Option<Request> {
    if s.len() == 0 {
        None
    } else if s[0] == 0x01 {
        Some(Request::Ping)
    } else if s[0] == 0x02 {
        Some(Request::Status)
    } else if s[0] == 0x03 {
        Some(Request::Shutdown)
    } else {
        None
    }
}

/// The frame of a reply.
pub open spec fn response_frame(r: Response) -> Seq<u8> {
    match r {
        Response::Pong => seq![0x81u8],
        Response::Status { uptime_ticks, served } => seq![0x82u8] + bytes::le_bytes8(
            uptime_ticks as int,
        ) + bytes::le_bytes8(served as int),
        Response::Error => seq![0xeeu8],
    }
}

/// The reply in a frame.
pub open spec fn response_of(s: Seq<u8>) -> Option<Response> {
    if s.len() == 0 {
        None
    } else if s[0] == 0x81 {
        Some(Response::Pong)
    } else if s[0] == 0xee {
        Some(Response::Error)
    } else if s[0] == 0x82 && s.len() >= 17 {
        Some(
            Response::Status {
                uptime_ticks: bytes::le64(s, 1) as u64,
                served: bytes::le64(s, 9) as u64,
            },
        )
    } else {
        None
    }
}

/// A request is decoded from its frame.
pub proof fn requests_round_trip(r: Request)
    ensures
        request_of(request_frame(r)) == Some(r),
{
}

/// A reply is decoded from its frame.
pub proof fn responses_round_trip(r: Response)
    ensures
        response_of(response_frame(r)) == Some(r),
{
    match r {
        Response::Status { uptime_ticks, served } => {
            let s = response_frame(r);
            let a = bytes::le_bytes8(uptime_ticks as int);
            let b = bytes::le_bytes8(served as int);
            bytes::lemma_le64_round_trip(uptime_ticks as int);
            bytes::lemma_le64_round_trip(served as int);
            assert forall|i: int| 0 <= i < 8 implies s[1 + i] == a[i] by {}
            assert forall|i: int| 0 <= i < 8 implies s[9 + i] == b[i] by {}
            bytes::lemma_fields_agree(s, 1, a);
            bytes::lemma_fields_agree(s, 9, b);
        },
        _ => {},
    }
}

impl Request {
    /// Decodes a request. `None` on a malformed frame.
    pub fn decode(raw: &[u8]) -> (r: Option<Request>)
        ensures
            r == request_of(raw@),
    {
        if raw.len() == 0 {
            None
        } else if raw[0] == OP_PING {
            Some(Request::Ping)
        } else if raw[0] == OP_STATUS {
            Some(Request::Status)
        } else if raw[0] == OP_SHUTDOWN {
            Some(Request::Shutdown)
        } else {
            None
        }
    }

    /// Encodes a request.
    pub fn encode(self) -> (v: Vec<u8>)
        ensures
            v@ == request_frame(self),
    {
        let code: u8 = match self {
            Request::Ping => OP_PING,
            Request::Status => OP_STATUS,
            Request::Shutdown => OP_SHUTDOWN,
        };
        let mut v: Vec<u8> = Vec::new();
        v.push(code);
        assert(v@ =~= request_frame(self));
        v
    }
}

fn push_u64(out: &mut Vec<u8>, value: u64)
    ensures
        final(out)@ == old(out)@ + bytes::le_bytes8(value as int),
{
    let mut raw = [0u8; 8];
    bytes::put_u64(&mut raw, 0, value);
    assert(raw@ =~= bytes::le_bytes8(value as int));
    let mut i: usize = 0;
    while i < 8
        invariant
            i <= 8,
            raw@ == bytes::le_bytes8(value as int),
            out@ == old(out)@ + raw@.subrange(0, i as int),
        decreases 8 - i,
    {
        out.push(raw[i]);
        i += 1;
        assert(out@ =~= old(out)@ + raw@.subrange(0, i as int));
    }
    assert(raw@.subrange(0, 8) =~= raw@);
}

impl Response {
    /// Encodes a reply.
    pub fn encode(self) -> (v: Vec<u8>)
        ensures
            v@ == response_frame(self),
    {
        let mut v: Vec<u8> = Vec::new();
        match self {
            Response::Pong => {
                v.push(OP_PONG);
            },
            Response::Status { uptime_ticks, served } => {
                v.push(OP_STATUS_OK);
                push_u64(&mut v, uptime_ticks);
                push_u64(&mut v, served);
            },
            Response::Error => {
                v.push(OP_ERROR);
            },
        }
        assert(v@ =~= response_frame(self));
        v
    }

    /// Decodes a reply.
    pub fn decode(raw: &[u8]) -> (r: Option<Response>)
        ensures
            r == response_of(raw@),
    {
        if raw.len() == 0 {
            None
        } else if raw[0] == OP_PONG {
            Some(Response::Pong)
        } else if raw[0] == OP_ERROR {
            Some(Response::Error)
        } else if raw[0] == OP_STATUS_OK && raw.len() >= 17 {
            Some(
                Response::Status {
                    uptime_ticks: bytes::read_u64(raw, 1),
                    served: bytes::read_u64(raw, 9),
                },
            )
        } else {
            None
        }
    }
}

/// The server's counters.
#[derive(Clone, Copy, Debug)]
pub struct Health {
    uptime_ticks: u64,
    served: u64,
}

/// The counters as plain values.
#[verifier::ext_equal]
pub struct HealthView {
    pub uptime_ticks: u64,
    pub served: u64,
}

impl View for Health {
    type V = HealthView;

    closed spec fn view(&self) -> HealthView {
        HealthView { uptime_ticks: self.uptime_ticks, served: self.served }
    }
}

/// A 64-bit counter that sticks at its maximum.
pub open spec fn counted(n: u64, more: int) -> u64 {
    if n + more > u64::MAX {
        u64::MAX
    } else {
        (n + more) as u64
    }
}

/// What a request does to the counters, and its reply.
pub open spec fn handled(h: HealthView, r: Request) -> (HealthView, Response) {
    let next = HealthView { served: counted(h.served, 1), ..h };
    match r {
        Request::Ping => (next, Response::Pong),
        Request::Status => (
            next,
            Response::Status { uptime_ticks: h.uptime_ticks, served: next.served },
        ),
        Request::Shutdown => (h, Response::Error),
    }
}

/// What a request frame does to the counters, and its reply.
pub open spec fn dispatched(h: HealthView, raw: Seq<u8>) -> (HealthView, Response) {
    match request_of(raw) {
        Some(r) => handled(h, r),
        None => (h, Response::Error),
    }
}

impl Health {
    pub fn new() -> (h: Health)
        ensures
            h@ == (HealthView { uptime_ticks: 0, served: 0 }),
    {
        Health { uptime_ticks: 0, served: 0 }
    }

    /// Advances the uptime counter.
    pub fn tick(&mut self, ticks: u64)
        ensures
            final(self)@ == (HealthView {
                uptime_ticks: counted(old(self)@.uptime_ticks, ticks as int),
                ..old(self)@
            }),
    {
        self.uptime_ticks = self.uptime_ticks.saturating_add(ticks);
    }

    /// Handles one request and counts it if it is answered.
    pub fn handle(&mut self, req: Request) -> (r: Response)
        ensures
            (final(self)@, r) == handled(old(self)@, req),
    {
        match req {
            Request::Ping => {
                self.served = self.served.saturating_add(1);
                Response::Pong
            },
            Request::Status => {
                self.served = self.served.saturating_add(1);
                Response::Status { uptime_ticks: self.uptime_ticks, served: self.served }
            },
            Request::Shutdown => Response::Error,
        }
    }

    /// Maps request bytes to reply bytes. A malformed frame is answered by
    /// [`Response::Error`].
    pub fn dispatch(&mut self, raw: &[u8]) -> (reply: Vec<u8>)
        ensures
            final(self)@ == dispatched(old(self)@, raw@).0,
            reply@ == response_frame(dispatched(old(self)@, raw@).1),
    {
        match Request::decode(raw) {
            Some(req) => {
                let r: Response = self.handle(req);
                r.encode()
            },
            None => Response::Error.encode(),
        }
    }
}

impl Default for Health {
    fn default() -> (h: Self)
        ensures
            h@ == (HealthView { uptime_ticks: 0, served: 0 }),
    {
        Health::new()
    }
}

/// One exchange: the request was no shutdown, the counters moved on, and the
/// reply was sent.
pub open spec fn exchanged(
    before: HealthView,
    request: Seq<u8>,
    sent_before: Seq<Seq<u8>>,
    after: HealthView,
    sent_after: Seq<Seq<u8>>,
) -> bool {
    &&& request_of(request) != Some(Request::Shutdown)
    &&& after == dispatched(before, request).0
    &&& sent_after == sent_before.push(response_frame(dispatched(before, request).1))
}

/// Handles one request and its reply. `false`, with nothing sent, once the
/// transport has closed or a shutdown request arrived.
pub fn serve_once<T: Transport>(t: &mut T, state: &mut Health, buf: &mut [u8]) -> (go_on: bool)
    ensures
        final(buf)@.len() == old(buf)@.len(),
        !go_on ==> final(state)@ == old(state)@ && final(t).sent() == old(t).sent(),
        go_on ==> final(t).incoming() < old(t).incoming(),
        ({
            ||| !go_on && final(t).received() == old(t).received() && final(t).closed()
            ||| exists|request: Seq<u8>|
                final(t).received() == #[trigger] old(t).received().push(request) && if go_on {
                    exchanged(
                        old(state)@,
                        request,
                        old(t).sent(),
                        final(state)@,
                        final(t).sent(),
                    )
                } else {
                    request_of(request) == Some(Request::Shutdown)
                }
        }),
{
    let ghost heard = t.received();
    let n: usize = match t.recv(buf) {
        None => return false,
        Some(n) => n,
    };
    let request: &[u8] = &buf[0..n];
    assert(t.received() == heard.push(request@));
    match Request::decode(request) {
        Some(Request::Shutdown) => return false,
        _ => {},
    }
    let ghost before = state@;
    let ghost had = t.sent();
    let reply: Vec<u8> = state.dispatch(request);
    t.send(&reply);
    assert(exchanged(before, request@, had, state@, t.sent()));
    true
}

/// The counters after a series of requests.
pub open spec fn counters_after(h: HealthView, requests: Seq<Seq<u8>>) -> HealthView
    decreases requests.len(),
{
    if requests.len() == 0 {
        h
    } else {
        dispatched(counters_after(h, requests.drop_last()), requests.last()).0
    }
}

/// The replies to a series of requests, after those already `sent`.
pub open spec fn replies_after(
    h: HealthView,
    requests: Seq<Seq<u8>>,
    sent: Seq<Seq<u8>>,
) -> Seq<Seq<u8>>
    decreases requests.len(),
{
    if requests.len() == 0 {
        sent
    } else {
        replies_after(h, requests.drop_last(), sent).push(
            response_frame(
                dispatched(counters_after(h, requests.drop_last()), requests.last()).1,
            ),
        )
    }
}

/// Whether the last of some requests is a shutdown.
pub open spec fn ends_in_shutdown(requests: Seq<Seq<u8>>) -> bool {
    requests.len() > 0 && request_of(requests.last()) == Some(Request::Shutdown)
}

/// The requests that are answered: all but a shutdown at the end.
pub open spec fn answered(requests: Seq<Seq<u8>>) -> Seq<Seq<u8>> {
    if ends_in_shutdown(requests) {
        requests.drop_last()
    } else {
        requests
    }
}

/// Serves a fresh instance until the transport closes or asks for shutdown:
/// every request that was received is answered in order, one reply each, and
/// nothing is read behind a shutdown.
pub fn serve<T: Transport>(t: &mut T)
    ensures
        old(t).received().is_prefix_of(final(t).received()),
        ({
            let all = since(old(t).received(), final(t).received());
            &&& final(t).closed() || ends_in_shutdown(all)
            &&& forall|i: int|
                0 <= i < all.len() - 1 ==> request_of(#[trigger] all[i]) != Some(Request::Shutdown)
            &&& final(t).sent() == replies_after(
                HealthView { uptime_ticks: 0, served: 0 },
                answered(all),
                old(t).sent(),
            )
        }),
{
    let mut state: Health = Health::new();
    let ghost first = state@;
    let ghost heard = t.received();
    let mut buf = [0u8; 64];
    let mut go_on: bool = true;
    assert(since(heard, t.received()) =~= Seq::<Seq<u8>>::empty());
    assert(t.received().subrange(0, heard.len() as int) =~= heard);
    while go_on
        invariant
            heard.is_prefix_of(t.received()),
            heard == old(t).received(),
            go_on ==> forall|i: int|
                0 <= i < since(heard, t.received()).len() ==> request_of(
                    #[trigger] since(heard, t.received())[i],
                ) != Some(Request::Shutdown),
            forall|i: int|
                0 <= i < since(heard, t.received()).len() - 1 ==> request_of(
                    #[trigger] since(heard, t.received())[i],
                ) != Some(Request::Shutdown),
            !go_on ==> t.closed() || ends_in_shutdown(since(heard, t.received())),
            state@ == counters_after(first, answered(since(heard, t.received()))),
            t.sent() == replies_after(first, answered(since(heard, t.received())), old(t).sent()),
        decreases (if go_on {
            t.incoming() + 1
        } else {
            0
        }),
    {
        let ghost so_far = t.received();
        let ghost all = since(heard, so_far);
        go_on = serve_once(t, &mut state, &mut buf);
        proof {
            if t.received() != so_far {
                let request = t.received().last();
                assert(t.received() == so_far.push(request));
                frames_add_up(heard, so_far, request);
                assert(all.push(request).drop_last() =~= all);
            }
        }
    }
}

/// The first byte of a frame is the request: 1 a probe, 2 a question for the counters, 3 a shutdown, and
/// any other none.
pub proof fn first_bytes_are_requests(s: Seq<u8>)
    ensures
        s.len() == 0 ==> request_of(s) is None,
        s.len() > 0 && s[0] == 1 ==> request_of(s) == Some(Request::Ping),
        s.len() > 0 && s[0] == 2 ==> request_of(s) == Some(Request::Status),
        s.len() > 0 && s[0] == 3 ==> request_of(s) == Some(Request::Shutdown),
        s.len() > 0 && s[0] != 1 && s[0] != 2 && s[0] != 3 ==> request_of(s) is None,
        request_frame(Request::Ping) == seq![1u8],
        request_frame(Request::Status) == seq![2u8],
        request_frame(Request::Shutdown) == seq![3u8],
{
}

/// A reply is the byte 0x81, the byte 0xee, or the byte 0x82 with the two counters behind it, eight bytes
/// each, low bytes first.
pub proof fn replies_are_these_bytes(uptime_ticks: u64, served: u64, s: Seq<u8>)
    ensures
        response_frame(Response::Pong) == seq![0x81u8],
        response_frame(Response::Error) == seq![0xeeu8],
        ({
            let f = response_frame(Response::Status { uptime_ticks, served });
            &&& f.len() == 17
            &&& f[0] == 0x82
            &&& bytes::le64(f, 1) == uptime_ticks
            &&& bytes::le64(f, 9) == served
        }),
        s.len() > 0 && s[0] == 0x81 ==> response_of(s) == Some(Response::Pong),
        s.len() > 0 && s[0] == 0xee ==> response_of(s) == Some(Response::Error),
        s.len() >= 17 && s[0] == 0x82 ==> response_of(s) == Some(
            Response::Status {
                uptime_ticks: bytes::le64(s, 1) as u64,
                served: bytes::le64(s, 9) as u64,
            },
        ),
        s.len() < 17 && (s.len() == 0 || s[0] == 0x82) ==> response_of(s) is None,
        s.len() > 0 && s[0] != 0x81 && s[0] != 0x82 && s[0] != 0xee ==> response_of(s) is None,
{
    let f = response_frame(Response::Status { uptime_ticks, served });
    responses_round_trip(Response::Status { uptime_ticks, served });
    bytes::lemma_le64_round_trip(uptime_ticks as int);
    bytes::lemma_le64_round_trip(served as int);
    bytes::lemma_fields_agree(f, 1, bytes::le_bytes8(uptime_ticks as int));
    bytes::lemma_fields_agree(f, 9, bytes::le_bytes8(served as int));
}

/// A counter counts by as much as it is told, and stays at the highest 64-bit value once it is there.
pub proof fn counters_stick_at_their_maximum(n: u64, more: int)
    requires
        more >= 0,
    ensures
        n + more <= 0xffff_ffff_ffff_ffff ==> counted(n, more) == n + more,
        n + more > 0xffff_ffff_ffff_ffff ==> counted(n, more) == 0xffff_ffff_ffff_ffff,
{
}

/// A probe and a question for the counters are each counted as one request served, and the answer holds
/// the count with that one; a frame that is no request gets an error and is not counted.
pub proof fn answered_requests_are_counted(h: HealthView, raw: Seq<u8>)
    ensures
        ({
            let (after, reply) = dispatched(h, raw);
            let more = if h.served < 0xffff_ffff_ffff_ffff {
                h.served + 1
            } else {
                0xffff_ffff_ffff_ffff
            };
            &&& after.uptime_ticks == h.uptime_ticks
            &&& raw.len() > 0 && raw[0] == 1 ==> reply == Response::Pong && after.served == more
            &&& raw.len() > 0 && raw[0] == 2 ==> after.served == more && reply == (
            Response::Status { uptime_ticks: h.uptime_ticks, served: after.served })
            &&& raw.len() == 0 || (raw[0] != 1 && raw[0] != 2) ==> reply == Response::Error && after
                == h
        }),
{
}

/// Requests are answered one after the other, one reply each: what comes after some of them starts from
/// the counters that those left, and its replies stand behind theirs.
pub proof fn requests_are_answered_in_order(
    h: HealthView,
    a: Seq<Seq<u8>>,
    b: Seq<Seq<u8>>,
    sent: Seq<Seq<u8>>,
)
    ensures
        counters_after(h, Seq::empty()) == h,
        replies_after(h, Seq::empty(), sent) == sent,
        b.len() == 1 ==> counters_after(h, b) == dispatched(h, b[0]).0,
        b.len() == 1 ==> replies_after(h, b, sent) == sent + seq![
            response_frame(dispatched(h, b[0]).1),
        ],
        counters_after(h, a + b) == counters_after(counters_after(h, a), b),
        replies_after(h, a + b, sent) == replies_after(
            counters_after(h, a),
            b,
            replies_after(h, a, sent),
        ),
        replies_after(h, b, sent).len() == sent.len() + b.len(),
    decreases b.len(),
{
    reveal_with_fuel(counters_after, 2);
    reveal_with_fuel(replies_after, 2);
    if b.len() == 0 {
        assert(a + b =~= a);
    } else {
        requests_are_answered_in_order(h, a, b.drop_last(), sent);
        assert((a + b).drop_last() =~= a + b.drop_last());
        assert((a + b).last() == b.last());
    }
    if b.len() == 1 {
        assert(b.drop_last() =~= Seq::empty());
        let reply = response_frame(dispatched(h, b[0]).1);
        assert(sent.push(reply) =~= sent + seq![reply]);
    }
}

/// The requests that are answered are all of them but a last one that starts with the byte 3.
pub proof fn all_but_a_shutdown_is_answered(requests: Seq<Seq<u8>>, last: Seq<u8>)
    ensures
        last.len() > 0 && last[0] == 3 ==> answered(requests.push(last)) == requests,
        last.len() == 0 || last[0] != 3 ==> answered(requests.push(last)) == requests.push(last),
        answered(Seq::empty()) == Seq::<Seq<u8>>::empty(),
{
    assert(requests.push(last).drop_last() =~= requests);
}

} // verus!
