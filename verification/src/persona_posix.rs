//! The POSIX personality: file descriptors that index typed capability slots.
//! The standard streams route to a terminal over its request protocol.

use vstd::prelude::*;

use crate::bytes;
use crate::ttyd;

verus! {

pub const STDIN_FILENO: i32 = 0;

pub const STDOUT_FILENO: i32 = 1;

pub const STDERR_FILENO: i32 = 2;

pub const MAX_FDS: usize = 16;

#[derive(Clone, Copy, Debug, PartialEq, Eq, Structural)]
pub enum PosixErrno {
    BadFd,
    NoDevice,
}

pub type PosixResult<T> = Result<T, PosixErrno>;

/// The handle of a terminal session.
#[derive(Clone, Copy, Debug, PartialEq, Eq, Structural)]
pub struct TtyStream {
    pub handle: u32,
}

/// What a descriptor slot holds.
#[derive(Clone, Copy, Debug, PartialEq, Eq, Structural)]
pub enum Fd {
    Closed,
    Null,
    Tty(TtyStream),
}

/// Writes to a terminal.
pub trait TtyWrite: Sized {
    /// What one write may do to the terminal, and its result.
    closed spec fn written(
        self,
        stream: TtyStream,
        bytes: Seq<u8>,
        after: Self,
        r: PosixResult<usize>,
    ) -> bool {
        arbitrary()
    }

    fn write(&mut self, stream: TtyStream, bytes: &[u8]) -> (r: PosixResult<usize>)
        ensures
            old(self).written(stream, bytes@, *final(self), r),
    ;
}

/// Reads from a terminal.
pub trait TtyRead: Sized {
    /// What one read into `out` may do to the terminal and to `out`, and its
    /// result.
    closed spec fn was_read(
        self,
        stream: TtyStream,
        out: Seq<u8>,
        after: Self,
        filled: Seq<u8>,
        r: PosixResult<usize>,
    ) -> bool {
        arbitrary()
    }

    fn read(&mut self, stream: TtyStream, out: &mut [u8]) -> (r: PosixResult<usize>)
        ensures
            final(out)@.len() == old(out)@.len(),
            old(self).was_read(stream, old(out)@, *final(self), final(out)@, r),
    ;
}

/// One exchange of frames with a terminal server.
pub trait TtyRpcTransport: Sized {
    /// What one exchange may do to the transport, and what it brings back.
    closed spec fn called(
        self,
        stream: TtyStream,
        request: Seq<u8>,
        after: Self,
        outcome: PosixResult<Seq<u8>>,
    ) -> bool {
        arbitrary()
    }

    /// Sends `request`, stores the reply at the start of `reply` and returns
    /// its length.
    fn call(&mut self, stream: TtyStream, request: &[u8], reply: &mut [u8]) -> (r: PosixResult<
        usize,
    >)
        ensures
            final(reply)@.len() == old(reply)@.len(),
            r matches Ok(n) ==> n <= final(reply)@.len(),
            old(self).called(stream, request@, *final(self), received(final(reply)@, r)),
    ;
}

/// The reply that an exchange left in its buffer.
pub open spec fn received(reply: Seq<u8>, r: PosixResult<usize>) -> PosixResult<Seq<u8>> {
    match r {
        Ok(n) => Ok(reply.subrange(0, n as int)),
        Err(e) => Err(e),
    }
}

/// The terminal echoed just the byte that was written.
pub open spec fn accepted(reply: Seq<u8>, byte: u8) -> bool {
    match ttyd::reply_of(reply) {
        Some(v) => v.status == 0x00 && v.echo == seq![byte] && v.line is None,
        None => false,
    }
}

/// The error of a write exchange, if it failed.
pub open spec fn write_error(outcome: PosixResult<Seq<u8>>, byte: u8) -> Option<PosixErrno> {
    match outcome {
        Err(e) => Some(e),
        Ok(reply) => if accepted(reply, byte) {
            None
        } else {
            Some(PosixErrno::NoDevice)
        },
    }
}

/// The line that a read exchange brought; empty where none was waiting.
pub open spec fn read_line(outcome: PosixResult<Seq<u8>>) -> PosixResult<Seq<u8>> {
    match outcome {
        Err(e) => Err(e),
        Ok(reply) => match ttyd::reply_of(reply) {
            Some(v) => if v.status != 0x00 || v.echo.len() != 0 {
                Err(PosixErrno::NoDevice)
            } else {
                match v.line {
                    Some(l) => Ok(l),
                    None => Ok(Seq::empty()),
                }
            },
            None => Err(PosixErrno::NoDevice),
        },
    }
}

/// One byte was written over `t`, with error `e` if any.
pub open spec fn wrote_byte<T: TtyRpcTransport>(
    t: T,
    stream: TtyStream,
    byte: u8,
    after: T,
    e: Option<PosixErrno>,
) -> bool {
    exists|outcome: PosixResult<Seq<u8>>| #[trigger]
        t.called(stream, ttyd::request_frame(ttyd::Request::Write(byte)), after, outcome)
            && write_error(outcome, byte) == e
}

/// All of `bytes` were written over `t`, one exchange each.
pub open spec fn wrote_all<T: TtyRpcTransport>(
    t: T,
    stream: TtyStream,
    bytes: Seq<u8>,
    after: T,
) -> bool
    decreases bytes.len(),
{
    if bytes.len() == 0 {
        t == after
    } else {
        exists|mid: T|
            wrote_all(t, stream, bytes.drop_last(), mid) && #[trigger] wrote_byte(
                mid,
                stream,
                bytes.last(),
                after,
                None,
            )
    }
}

/// The first `done` bytes were written and the next one failed with `e`.
pub open spec fn failed_at<T: TtyRpcTransport>(
    t: T,
    stream: TtyStream,
    bytes: Seq<u8>,
    done: int,
    mid: T,
    after: T,
    e: PosixErrno,
) -> bool {
    &&& 0 <= done < bytes.len()
    &&& wrote_all(t, stream, bytes.subrange(0, done), mid)
    &&& wrote_byte(mid, stream, bytes[done], after, Some(e))
}

/// The terminal server takes every written byte.
pub proof fn terminal_accepts_output(t: ttyd::TtyView, cap: int, byte: u8, room: int)
    requires
        room >= 6,
    ensures
        accepted(
            ttyd::answer(t, cap, ttyd::request_frame(ttyd::Request::Write(byte)), room),
            byte,
        ),
{
    ttyd::output_does_not_touch_the_session(t, cap, byte);
    ttyd::replies_round_trip(0x00, seq![byte], None);
}

/// A read brings the line that waits at the terminal server, whole, or nothing.
pub proof fn terminal_hands_over_its_line(t: ttyd::TtyView, cap: int, room: int)
    requires
        t.submitted matches Some(l) ==> l.len() <= u16::MAX && l.len() + 5 <= room,
        room >= 5,
    ensures
        read_line(Ok(ttyd::answer(t, cap, ttyd::request_frame(ttyd::Request::Read), room))) == Ok::<
            Seq<u8>,
            PosixErrno,
        >(
            match t.submitted {
                Some(l) => l,
                None => Seq::empty(),
            },
        ),
{
    let read = ttyd::request_frame(ttyd::Request::Read);
    assert(read[0] == 0x03 && read.len() == 1);
    ttyd::replies_round_trip(0x00, Seq::empty(), t.submitted);
}

/// A terminal client over an exchange of frames.
#[derive(Clone, Debug, PartialEq, Eq)]
pub struct TtyRpc<T> {
    transport: T,
}

impl<T> TtyRpc<T> {
    /// The transport.
    pub closed spec fn inner(self) -> T {
        self.transport
    }

    pub fn new(transport: T) -> (r: TtyRpc<T>)
        ensures
            r.inner() == transport,
    {
        TtyRpc { transport }
    }

    pub fn transport(&self) -> (r: &T)
        ensures
            *r == self.inner(),
    {
        &self.transport
    }

    pub fn transport_mut(&mut self) -> (r: &mut T)
        ensures
            *r == old(self).inner(),
            final(self).inner() == *final(r),
    {
        &mut self.transport
    }

    pub fn into_inner(self) -> (r: T)
        ensures
            r == self.inner(),
    {
        self.transport
    }
}

impl<T: TtyRpcTransport> TtyWrite for TtyRpc<T> {
    /// Each byte is one write request. The write stops at the first that the
    /// terminal does not echo.
    open spec fn written(
        self,
        stream: TtyStream,
        bytes: Seq<u8>,
        after: Self,
        r: PosixResult<usize>,
    ) -> bool {
        match r {
            Ok(n) => n == bytes.len() && wrote_all(self.inner(), stream, bytes, after.inner()),
            Err(e) => exists|done: int, mid: T| #[trigger]
                failed_at(self.inner(), stream, bytes, done, mid, after.inner(), e),
        }
    }

    fn write(&mut self, stream: TtyStream, bytes: &[u8]) -> (r: PosixResult<usize>) {
        let mut request = [0u8; ttyd::REQUEST_BUF_BYTES];
        let mut reply = [0u8; ttyd::REPLY_BUF_BYTES];
        let count: usize = bytes.len();
        let mut i: usize = 0;
        assert(bytes@.subrange(0, 0) =~= Seq::empty());
        while i < count
            invariant
                i <= count == bytes@.len(),
                wrote_all(
                    old(self).inner(),
                    stream,
                    bytes@.subrange(0, i as int),
                    self.inner(),
                ),
            decreases count - i,
        {
            let byte: u8 = bytes[i];
            let ghost mid = self.inner();
            let frame_len: usize = match ttyd::Request::write(byte).encode_into(&mut request) {
                None => return Err(PosixErrno::NoDevice),
                Some(n) => n,
            };
            let frame: &[u8] = &request[0..frame_len];
            assert(frame@ =~= ttyd::request_frame(ttyd::Request::Write(byte)));
            let outcome: PosixResult<usize> = self.transport.call(stream, frame, &mut reply);
            let ghost what = received(reply@, outcome);
            assert(mid.called(
                stream,
                ttyd::request_frame(ttyd::Request::Write(byte)),
                self.inner(),
                what,
            ));
            let error: Option<PosixErrno> = match outcome {
                Err(e) => Some(e),
                Ok(n) => match ttyd::Reply::parse(&reply[0..n]) {
                    None => Some(PosixErrno::NoDevice),
                    Some(parsed) => {
                        if parsed.status != ttyd::TTY_OK || parsed.echo.len() != 1
                            || parsed.echo[0] != byte || parsed.line.is_some() {
                            Some(PosixErrno::NoDevice)
                        } else {
                            assert(parsed.echo@ =~= seq![byte]);
                            None
                        }
                    },
                },
            };
            assert(error == write_error(what, byte));
            assert(wrote_byte(mid, stream, byte, self.inner(), error));
            match error {
                Some(e) => {
                    assert(failed_at(
                        old(self).inner(),
                        stream,
                        bytes@,
                        i as int,
                        mid,
                        self.inner(),
                        e,
                    ));
                    return Err(e);
                },
                None => {},
            }
            i += 1;
            let ghost done = bytes@.subrange(0, i as int);
            assert(done.drop_last() =~= bytes@.subrange(0, i - 1));
            assert(wrote_all(old(self).inner(), stream, done.drop_last(), mid));
            assert(wrote_byte(mid, stream, done.last(), self.inner(), None));
        }
        assert(bytes@.subrange(0, count as int) =~= bytes@);
        Ok(count)
    }
}

impl<T: TtyRpcTransport> TtyRead for TtyRpc<T> {
    /// One read request; as much of the line as fits is stored.
    open spec fn was_read(
        self,
        stream: TtyStream,
        out: Seq<u8>,
        after: Self,
        filled: Seq<u8>,
        r: PosixResult<usize>,
    ) -> bool {
        exists|outcome: PosixResult<Seq<u8>>| #[trigger]
            self.inner().called(
                stream,
                ttyd::request_frame(ttyd::Request::Read),
                after.inner(),
                outcome,
            ) && match read_line(outcome) {
                Err(e) => r == Err::<usize, PosixErrno>(e) && filled == out,
                Ok(line) => {
                    &&& r matches Ok(n)
                    &&& n == (if line.len() < out.len() {
                        line.len()
                    } else {
                        out.len()
                    })
                    &&& filled == bytes::overwrite(out, 0, line.subrange(0, n as int))
                },
            }
    }

    fn read(&mut self, stream: TtyStream, out: &mut [u8]) -> (r: PosixResult<usize>) {
        let mut request = [0u8; ttyd::REQUEST_BUF_BYTES];
        let mut reply = [0u8; ttyd::REPLY_BUF_BYTES];
        let ghost before = out@;
        let frame_len: usize = match ttyd::Request::read().encode_into(&mut request) {
            None => return Err(PosixErrno::NoDevice),
            Some(n) => n,
        };
        let frame: &[u8] = &request[0..frame_len];
        assert(frame@ =~= ttyd::request_frame(ttyd::Request::Read));
        let outcome: PosixResult<usize> = self.transport.call(stream, frame, &mut reply);
        assert(old(self).inner().called(
            stream,
            ttyd::request_frame(ttyd::Request::Read),
            self.inner(),
            received(reply@, outcome),
        ));
        let reply_len: usize = match outcome {
            Err(e) => return Err(e),
            Ok(n) => n,
        };
        let parsed: ttyd::Reply = match ttyd::Reply::parse(&reply[0..reply_len]) {
            None => return Err(PosixErrno::NoDevice),
            Some(parsed) => parsed,
        };
        if parsed.status != ttyd::TTY_OK || parsed.echo.len() != 0 {
            return Err(PosixErrno::NoDevice);
        }
        match parsed.line {
            None => {
                assert(out@ =~= bytes::overwrite(before, 0, Seq::<u8>::empty().subrange(0, 0)));
                Ok(0)
            },
            Some(line) => {
                let n: usize = bytes::min_len(line.len(), out.len());
                bytes::put_bytes(out, 0, &line[0..n]);
                Ok(n)
            },
        }
    }
}

/// The slot of a descriptor, if it has one.
pub open spec fn slot_of(fd: i32) -> Option<int> {
    if 0 <= fd < 16 {
        Some(fd as int)
    } else {
        None
    }
}

/// What a descriptor stands for in a table of slots.
pub open spec fn entry_of(slots: Seq<Fd>, fd: i32) -> PosixResult<Fd> {
    match slot_of(fd) {
        Some(i) => if slots[i] is Closed {
            Err(PosixErrno::BadFd)
        } else {
            Ok(slots[i])
        },
        None => Err(PosixErrno::BadFd),
    }
}

/// A process's descriptors.
#[derive(Clone, Debug, PartialEq, Eq)]
pub struct FdTable {
    slots: [Fd; 16],
}

impl View for FdTable {
    type V = Seq<Fd>;

    closed spec fn view(&self) -> Seq<Fd> {
        self.slots@
    }
}

impl FdTable {
    /// Every table has a slot for each descriptor.
    pub proof fn lemma_len(self)
        ensures
            self@.len() == 16,
    {
    }

    /// A table with every descriptor closed.
    pub fn empty() -> (t: FdTable)
        ensures
            t@ == Seq::new(16, |i: int| Fd::Closed),
    {
        let slots = [Fd::Closed; MAX_FDS];
        assert(slots@ =~= Seq::new(16, |i: int| Fd::Closed));
        FdTable { slots }
    }

    /// A table whose standard streams are the terminal `tty`.
    pub fn with_stdio(tty: TtyStream) -> (t: FdTable)
        ensures
            t@ == Seq::new(
                16,
                |i: int|
                    if i < 3 {
                        Fd::Tty(tty)
                    } else {
                        Fd::Closed
                    },
            ),
    {
        let mut table: FdTable = FdTable::empty();
        table.slots[STDIN_FILENO as usize] = Fd::Tty(tty);
        table.slots[STDOUT_FILENO as usize] = Fd::Tty(tty);
        table.slots[STDERR_FILENO as usize] = Fd::Tty(tty);
        assert(table@ =~= Seq::new(
            16,
            |i: int|
                if i < 3 {
                    Fd::Tty(tty)
                } else {
                    Fd::Closed
                },
        ));
        table
    }

    /// The entry of an open descriptor.
    pub fn get(&self, fd: i32) -> (r: PosixResult<Fd>)
        ensures
            r == entry_of(self@, fd),
    {
        let index: usize = match fd_index(fd) {
            Err(e) => return Err(e),
            Ok(i) => i,
        };
        match self.slots[index] {
            Fd::Closed => Err(PosixErrno::BadFd),
            entry => Ok(entry),
        }
    }

    /// Puts `entry` into a descriptor's slot, whatever it held.
    pub fn install(&mut self, fd: i32, entry: Fd) -> (r: PosixResult<()>)
        ensures
            match slot_of(fd) {
                Some(i) => {
                    &&& r is Ok
                    &&& final(self)@ == old(self)@.update(i, entry)
                    &&& entry_of(final(self)@, fd) == (if entry is Closed {
                        Err(PosixErrno::BadFd)
                    } else {
                        Ok(entry)
                    })
                },
                None => r == Err::<(), PosixErrno>(PosixErrno::BadFd) && final(self)@ == old(self)@,
            },
            forall|other: i32|
                other != fd ==> #[trigger] entry_of(final(self)@, other) == entry_of(
                    old(self)@,
                    other,
                ),
    {
        let index: usize = match fd_index(fd) {
            Err(e) => return Err(e),
            Ok(i) => i,
        };
        self.slots[index] = entry;
        Ok(())
    }

    /// Closes an open descriptor.
    pub fn close(&mut self, fd: i32) -> (r: PosixResult<()>)
        ensures
            match entry_of(old(self)@, fd) {
                Ok(_) => r is Ok && final(self)@ == old(self)@.update(fd as int, Fd::Closed),
                Err(e) => r == Err::<(), PosixErrno>(e) && final(self)@ == old(self)@,
            },
            entry_of(final(self)@, fd) == Err::<Fd, PosixErrno>(PosixErrno::BadFd),
            forall|other: i32|
                other != fd ==> #[trigger] entry_of(final(self)@, other) == entry_of(
                    old(self)@,
                    other,
                ),
    {
        let index: usize = match fd_index(fd) {
            Err(e) => return Err(e),
            Ok(i) => i,
        };
        if self.slots[index] == Fd::Closed {
            return Err(PosixErrno::BadFd);
        }
        self.slots[index] = Fd::Closed;
        Ok(())
    }

    /// Writes to a descriptor: a terminal gets the bytes, the null device takes
    /// them all.
    pub fn write<W: TtyWrite>(&mut self, fd: i32, bytes: &[u8], tty: &mut W) -> (r: PosixResult<
        usize,
    >)
        ensures
            final(self)@ == old(self)@,
            match entry_of(old(self)@, fd) {
                Ok(Fd::Tty(stream)) => old(tty).written(stream, bytes@, *final(tty), r),
                Ok(_) => r == Ok::<usize, PosixErrno>(bytes.len()) && *final(tty) == *old(tty),
                Err(e) => r == Err::<usize, PosixErrno>(e) && *final(tty) == *old(tty),
            },
    {
        match self.get(fd) {
            Ok(Fd::Tty(stream)) => tty.write(stream, bytes),
            Ok(Fd::Null) => Ok(bytes.len()),
            Ok(Fd::Closed) => Err(PosixErrno::BadFd),
            Err(e) => Err(e),
        }
    }

    /// Reads from a descriptor: a terminal fills `out`, the null device is at
    /// its end.
    pub fn read<R: TtyRead>(&mut self, fd: i32, out: &mut [u8], tty: &mut R) -> (r: PosixResult<
        usize,
    >)
        ensures
            final(self)@ == old(self)@,
            final(out)@.len() == old(out)@.len(),
            match entry_of(old(self)@, fd) {
                Ok(Fd::Tty(stream)) => old(tty).was_read(
                    stream,
                    old(out)@,
                    *final(tty),
                    final(out)@,
                    r,
                ),
                Ok(_) => r == Ok::<usize, PosixErrno>(0) && final(out)@ == old(out)@ && *final(tty)
                    == *old(tty),
                Err(e) => r == Err::<usize, PosixErrno>(e) && final(out)@ == old(out)@
                    && *final(tty) == *old(tty),
            },
    {
        match self.get(fd) {
            Ok(Fd::Tty(stream)) => tty.read(stream, out),
            Ok(Fd::Null) => Ok(0),
            Ok(Fd::Closed) => Err(PosixErrno::BadFd),
            Err(e) => Err(e),
        }
    }
}

/// The slot index of a descriptor.
fn fd_index(fd: i32) -> (r: PosixResult<usize>)
    ensures
        match slot_of(fd) {
            Some(i) => r matches Ok(index) && index == i,
            None => r == Err::<usize, PosixErrno>(PosixErrno::BadFd),
        },
{
    if fd < 0 {
        return Err(PosixErrno::BadFd);
    }
    let index: usize = fd as usize;
    if index < MAX_FDS {
        Ok(index)
    } else {
        Err(PosixErrno::BadFd)
    }
}

/// In any table, a closed descriptor is bad until something is installed in it,
/// what was installed is read back, and no other descriptor is touched by
/// closing or installing.
pub proof fn slots_are_independent(table: FdTable, fd: i32, other: i32, entry: Fd)
    requires
        0 <= fd < 16,
    ensures
        entry_of(table@.update(fd as int, Fd::Closed), fd) == Err::<Fd, PosixErrno>(
            PosixErrno::BadFd,
        ),
        !(entry is Closed) ==> entry_of(table@.update(fd as int, entry), fd) == Ok::<
            Fd,
            PosixErrno,
        >(entry),
        other != fd ==> entry_of(table@.update(fd as int, entry), other) == entry_of(table@, other),
{
    table.lemma_len();
}

/// A written byte is taken just where the reply's status is 0, its echo is that byte alone and it carries no
/// line: bytes 0 to 4 are 0, 0, 1, 0 and 0, and byte 5 is the byte.
pub proof fn output_is_taken_where_it_is_echoed(reply: Seq<u8>, byte: u8)
    ensures
        accepted(reply, byte) <==> reply.len() >= 6 && reply[0] == 0 && reply[1] == 0 && reply[2] == 1
            && reply[3] == 0 && reply[4] == 0 && reply[5] == byte,
{
    if reply.len() >= 6 && reply[2] == 1 {
        let echo = reply.subrange(5, 6);
        assert(echo[0] == reply[5]);
        if reply[5] == byte {
            assert(echo =~= seq![byte]);
        }
    }
    if accepted(reply, byte) {
        let v = ttyd::reply_of(reply)->0;
        assert(v.echo == reply.subrange(5, 5 + reply[2]));
        assert(v.echo.len() == 1);
        assert(v.echo[0] == byte);
    }
}

/// An exchange that fails keeps its own error, and one that brings the wrong reply is an absent device.
pub proof fn wrong_replies_are_no_device(e: PosixErrno, reply: Seq<u8>, byte: u8)
    ensures
        write_error(Err(e), byte) == Some(e),
        write_error(Ok(reply), byte) is None <==> accepted(reply, byte),
        !accepted(reply, byte) ==> write_error(Ok(reply), byte) == Some(PosixErrno::NoDevice),
        read_line(Err(e)) == Err::<Seq<u8>, PosixErrno>(e),
        ttyd::reply_of(reply) is None ==> read_line(Ok(reply)) == Err::<Seq<u8>, PosixErrno>(
            PosixErrno::NoDevice,
        ),
        ttyd::reply_of(reply) matches Some(v) ==> {
            &&& v.status != 0 || v.echo.len() > 0 ==> read_line(Ok(reply)) == Err::<
                Seq<u8>,
                PosixErrno,
            >(PosixErrno::NoDevice)
            &&& v.status == 0 && v.echo.len() == 0 && v.line is None ==> read_line(Ok(reply)) == Ok::<
                Seq<u8>,
                PosixErrno,
            >(Seq::empty())
            &&& v.status == 0 && v.echo.len() == 0 && v.line is Some ==> read_line(Ok(reply)) == Ok::<
                Seq<u8>,
                PosixErrno,
            >(v.line->0)
        },
{
}

/// Writing is one exchange for each byte, in order: nothing for none, the request of the byte 2 and the byte
/// for one, and the exchanges of the first bytes before those of the others.
pub proof fn bytes_are_written_one_by_one<T: TtyRpcTransport>(
    t: T,
    stream: TtyStream,
    a: Seq<u8>,
    b: Seq<u8>,
    byte: u8,
    request: Seq<u8>,
    after: T,
)
    requires
        request == seq![0x02u8, byte],
    ensures
        wrote_all(t, stream, Seq::empty(), after) <==> t == after,
        wrote_all(t, stream, seq![byte], after) <==> exists|outcome: PosixResult<Seq<u8>>| #[trigger]
            t.called(stream, request, after, outcome) && write_error(outcome, byte) is None,
        wrote_all(t, stream, a + b, after) <==> exists|mid: T|
            wrote_all(t, stream, a, mid) && #[trigger] wrote_all(mid, stream, b, after),
    decreases b.len(),
{
    reveal_with_fuel(wrote_all, 2);
    let one = seq![byte];
    assert(one.drop_last() =~= Seq::empty());
    assert(ttyd::request_frame(ttyd::Request::Write(byte)) == request);
    if wrote_all(t, stream, one, after) {
        let mid = choose|mid: T|
            wrote_all(t, stream, one.drop_last(), mid) && #[trigger] wrote_byte(
                mid,
                stream,
                byte,
                after,
                None,
            );
        assert(mid == t);
    }
    if wrote_byte(t, stream, byte, after, None) {
        assert(wrote_all(t, stream, one.drop_last(), t));
    }
    if b.len() == 0 {
        assert(a + b =~= a);
        assert(wrote_all(t, stream, a + b, after) ==> wrote_all(after, stream, b, after));
    } else {
        let part = b.drop_last();
        let last = b.last();
        assert((a + b).drop_last() =~= a + part);
        assert((a + b).last() == last);
        if wrote_all(t, stream, a + b, after) {
            let near = choose|near: T|
                wrote_all(t, stream, a + part, near) && #[trigger] wrote_byte(
                    near,
                    stream,
                    last,
                    after,
                    None,
                );
            bytes_are_written_one_by_one(t, stream, a, part, byte, request, near);
            let mid = choose|mid: T|
                wrote_all(t, stream, a, mid) && #[trigger] wrote_all(mid, stream, part, near);
            assert(wrote_all(mid, stream, b, after));
        }
        if exists|mid: T|
            wrote_all(t, stream, a, mid) && #[trigger] wrote_all(mid, stream, b, after) {
            let mid = choose|mid: T|
                wrote_all(t, stream, a, mid) && #[trigger] wrote_all(mid, stream, b, after);
            let near = choose|near: T|
                wrote_all(mid, stream, part, near) && #[trigger] wrote_byte(
                    near,
                    stream,
                    last,
                    after,
                    None,
                );
            bytes_are_written_one_by_one(t, stream, a, part, byte, request, near);
            assert(wrote_all(t, stream, a + part, near));
        }
    }
}

/// The descriptors are 0 to 15; one that is closed is as bad as one that there is not, and any other stands
/// for what its slot holds.
pub proof fn descriptors_are_slot_numbers(slots: Seq<Fd>, fd: i32)
    ensures
        fd < 0 || fd > 15 ==> slot_of(fd) is None && entry_of(slots, fd) == Err::<Fd, PosixErrno>(
            PosixErrno::BadFd,
        ),
        0 <= fd <= 15 ==> slot_of(fd) == Some(fd as int),
        0 <= fd <= 15 && slots[fd as int] is Closed ==> entry_of(slots, fd) == Err::<
            Fd,
            PosixErrno,
        >(PosixErrno::BadFd),
        0 <= fd <= 15 && !(slots[fd as int] is Closed) ==> entry_of(slots, fd) == Ok::<
            Fd,
            PosixErrno,
        >(slots[fd as int]),
{
}

} // verus!
