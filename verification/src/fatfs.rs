//! The FAT filesystem server: a table of open files, and the answers to open and
//! read requests. The volume and the frames' encoding are the caller's.

use vstd::prelude::*;

use crate::bytes;
pub use crate::transport::Transport;
use crate::transport::{frames_add_up, since};

verus! {

/// Most files that are open at a time.
pub const MAX_OPEN_FILES: usize = 8;

/// Room for a reply: a status and the data of one read.
pub const REPLY_BUF_BYTES: usize = 257;

/// A directory entry.
#[derive(Clone, Copy, Debug, PartialEq, Eq, Structural)]
pub struct DirEntry {
    pub first_cluster: u32,
    pub size: u32,
    pub directory: bool,
}

/// A request.
#[derive(Clone, Debug, PartialEq, Eq)]
pub enum VfsRequest {
    Open { path: Vec<u8> },
    Read { handle: u32, offset: u64, len: u32 },
}

/// The bytes of the protocol's statuses.
#[derive(Clone, Copy, Debug, PartialEq, Eq, Structural)]
pub struct VfsCodes {
    pub ok: u8,
    pub not_found: u8,
    pub is_dir: u8,
    pub bad_handle: u8,
    pub bad_request: u8,
}

/// The first free slot of a table, from `i` on.
pub open spec fn free_from(slots: Seq<Option<DirEntry>>, i: int) -> Option<int>
    decreases slots.len() - i,
{
    if i >= slots.len() {
        None
    } else if slots[i] is None {
        Some(i)
    } else {
        free_from(slots, i + 1)
    }
}

/// The entry that a handle stands for. Zero is no handle.
pub open spec fn entry_of(slots: Seq<Option<DirEntry>>, handle: u32) -> Option<DirEntry> {
    if 1 <= handle <= slots.len() {
        slots[handle - 1]
    } else {
        None
    }
}

/// The open files. Handles are small positive numbers.
#[derive(Clone, Copy, Debug, PartialEq, Eq)]
pub struct OpenTable {
    slots: [Option<DirEntry>; 8],
}

impl View for OpenTable {
    type V = Seq<Option<DirEntry>>;

    closed spec fn view(&self) -> Seq<Option<DirEntry>> {
        self.slots@
    }
}

impl OpenTable {
    /// Every table has the same number of slots.
    pub proof fn lemma_len(self)
        ensures
            self@.len() == 8,
    {
    }

    pub fn new() -> (t: OpenTable)
        ensures
            t@ == Seq::new(8, |i: int| None::<DirEntry>),
    {
        let slots: [Option<DirEntry>; 8] = [None, None, None, None, None, None, None, None];
        assert(slots@ =~= Seq::new(8, |i: int| None::<DirEntry>));
        OpenTable { slots }
    }

    /// Opens a file in the first free slot and returns its handle. `None` where
    /// there is none.
    pub fn insert(&mut self, entry: DirEntry) -> (h: Option<u32>)
        ensures
            match free_from(old(self)@, 0) {
                Some(i) => h is Some && h->0 == i + 1 && final(self)@ == old(self)@.update(
                    i,
                    Some(entry),
                ),
                None => h is None && final(self)@ == old(self)@,
            },
    {
        let mut i: usize = 0;
        while i < MAX_OPEN_FILES
            invariant
                i <= 8,
                *self == *old(self),
                free_from(self@, 0) == free_from(self@, i as int),
            decreases 8 - i,
        {
            if self.slots[i].is_none() {
                self.slots[i] = Some(entry);
                return Some((i + 1) as u32);
            }
            i += 1;
        }
        None
    }

    /// The handle that the next file would be opened under. `None` where there is no
    /// free slot.
    fn next_handle(&self) -> (h: Option<u32>)
        ensures
            match free_from(self@, 0) {
                Some(i) => h is Some && h->0 == i + 1,
                None => h is None,
            },
    {
        let mut i: usize = 0;
        while i < MAX_OPEN_FILES
            invariant
                i <= 8,
                free_from(self@, 0) == free_from(self@, i as int),
            decreases 8 - i,
        {
            if self.slots[i].is_none() {
                return Some((i + 1) as u32);
            }
            i += 1;
        }
        None
    }

    /// The entry of an open file.
    pub fn get(&self, handle: u32) -> (e: Option<DirEntry>)
        ensures
            e == entry_of(self@, handle),
    {
        if handle == 0 || handle as usize > MAX_OPEN_FILES {
            return None;
        }
        self.slots[handle as usize - 1]
    }
}

impl Default for OpenTable {
    fn default() -> (t: Self)
        ensures
            t@ == Seq::new(8, |i: int| None::<DirEntry>),
    {
        OpenTable::new()
    }
}

proof fn lemma_free_from(slots: Seq<Option<DirEntry>>, i: int)
    requires
        0 <= i,
    ensures
        free_from(slots, i) matches Some(k) ==> i <= k < slots.len() && slots[k] is None && forall|
            j: int,
        |
            i <= j < k ==> (#[trigger] slots[j]) is Some,
        free_from(slots, i) is None ==> forall|j: int|
            i <= j < slots.len() ==> (#[trigger] slots[j]) is Some,
    decreases slots.len() - i,
{
    if i < slots.len() && slots[i] is Some {
        lemma_free_from(slots, i + 1);
    }
}

/// An open file is found under its new handle, no handle that was in use is
/// given out again, and every other file stays as it was. A table refuses a file
/// only when it is full.
pub proof fn open_files_keep_their_handles(table: OpenTable, entry: DirEntry, other: u32)
    ensures
        free_from(table@, 0) matches Some(i) ==> {
            let n = table@.update(i, Some(entry));
            let h = (i + 1) as u32;
            &&& entry_of(table@, h) is None
            &&& entry_of(n, h) == Some(entry)
            &&& other != h ==> entry_of(n, other) == entry_of(table@, other)
        },
        free_from(table@, 0) is None ==> forall|j: int|
            0 <= j < table@.len() ==> (#[trigger] table@[j]) is Some,
{
    table.lemma_len();
    lemma_free_from(table@, 0);
}

/// A reply: as much of a frame as fits, at the start of the buffer.
pub open spec fn replied(before: Seq<u8>, frame: Seq<u8>, after: Seq<u8>, n: int) -> bool {
    &&& n == (if frame.len() <= before.len() {
        frame.len()
    } else {
        before.len()
    })
    &&& after == bytes::overwrite(before, 0, frame.subrange(0, n))
}

fn write_frame(reply: &mut [u8], frame: &[u8]) -> (n: usize)
    ensures
        replied(old(reply)@, frame@, final(reply)@, n as int),
        n <= old(reply)@.len(),
        final(reply)@.len() == old(reply)@.len(),
{
    let n: usize = bytes::min_len(reply.len(), frame.len());
    bytes::put_bytes(reply, 0, &frame[0..n]);
    n
}

fn write_status(reply: &mut [u8], status: u8) -> (n: usize)
    ensures
        replied(old(reply)@, seq![status], final(reply)@, n as int),
        n <= old(reply)@.len(),
        final(reply)@.len() == old(reply)@.len(),
{
    let frame: [u8; 1] = [status];
    assert(frame@ =~= seq![status]);
    write_frame(reply, &frame)
}

/// The answer to an open request, once the volume has been asked for the path.
///
/// A buffer that holds a status but not the whole frame is answered with a bad
/// request, and the file is not opened.
pub open spec fn opened<E: Fn(u32, u64) -> Vec<u8>>(
    codes: VfsCodes,
    encode: E,
    slots: Seq<Option<DirEntry>>,
    found: Option<DirEntry>,
    before: Seq<u8>,
    slots_after: Seq<Option<DirEntry>>,
    after: Seq<u8>,
    n: int,
) -> bool {
    match found {
        None => slots_after == slots && replied(before, seq![codes.not_found], after, n),
        Some(d) => if d.directory {
            slots_after == slots && replied(before, seq![codes.is_dir], after, n)
        } else {
            match free_from(slots, 0) {
                None => slots_after == slots && replied(before, seq![codes.bad_handle], after, n),
                Some(i) => exists|frame: Vec<u8>| #[trigger]
                    call_ensures(encode, ((i + 1) as u32, d.size as u64), frame) && if 1
                        <= before.len() < frame@.len() {
                        slots_after == slots && replied(before, seq![codes.bad_request], after, n)
                    } else {
                        slots_after == slots.update(i, Some(d)) && replied(before, frame@, after, n)
                    },
            }
        },
    }
}

/// How much of a read fits a buffer behind its status.
pub open spec fn read_room(len: u32, room: int) -> usize {
    if len < room - 1 {
        len as usize
    } else {
        (room - 1) as usize
    }
}

/// What a request is answered, and what it does to the table.
pub open spec fn dispatched<
    V: Fn(&Vec<u8>) -> Option<DirEntry>,
    R: Fn(DirEntry, u64, usize) -> Vec<u8>,
    E: Fn(u32, u64) -> Vec<u8>,
>(
    codes: VfsCodes,
    resolve: V,
    read_at: R,
    encode: E,
    slots: Seq<Option<DirEntry>>,
    request: Option<VfsRequest>,
    before: Seq<u8>,
    slots_after: Seq<Option<DirEntry>>,
    after: Seq<u8>,
    n: int,
) -> bool {
    match request {
        None => slots_after == slots && replied(before, seq![codes.bad_request], after, n),
        Some(VfsRequest::Open { path }) => exists|found: Option<DirEntry>| #[trigger]
            call_ensures(resolve, (&path,), found) && opened(
                codes,
                encode,
                slots,
                found,
                before,
                slots_after,
                after,
                n,
            ),
        Some(VfsRequest::Read { handle, offset, len }) => slots_after == slots && if before.len()
            == 0 {
            n == 0 && after == before
        } else {
            match entry_of(slots, handle) {
                None => replied(before, seq![codes.bad_handle], after, n),
                Some(d) => exists|data: Vec<u8>| #[trigger]
                    call_ensures(
                        read_at,
                        (d, offset, read_room(len, before.len() as int)),
                        data,
                    ) && n == 1 + data@.len() && after == bytes::overwrite(
                        before,
                        0,
                        seq![codes.ok] + data@,
                    ),
            }
        },
    }
}

/// The volume can be asked for anything, and returns no more than was asked for.
pub open spec fn is_volume<
    V: Fn(&Vec<u8>) -> Option<DirEntry>,
    R: Fn(DirEntry, u64, usize) -> Vec<u8>,
    E: Fn(u32, u64) -> Vec<u8>,
>(resolve: V, read_at: R, encode: E) -> bool {
    &&& forall|p: &Vec<u8>| call_requires(resolve, (p,))
    &&& forall|d: DirEntry, at: u64, n: usize| call_requires(read_at, (d, at, n))
    &&& forall|d: DirEntry, at: u64, n: usize, data: Vec<u8>| #[trigger]
        call_ensures(read_at, (d, at, n), data) ==> data@.len() <= n
    &&& forall|h: u32, size: u64| call_requires(encode, (h, size))
}

/// What one request asks of the volume can be asked of it: the path of an open, the frame of a
/// file that is then opened, and the part of an open file that a read is for. Nothing else is
/// asked.
pub open spec fn can_serve<
    V: Fn(&Vec<u8>) -> Option<DirEntry>,
    R: Fn(DirEntry, u64, usize) -> Vec<u8>,
    E: Fn(u32, u64) -> Vec<u8>,
>(
    resolve: V,
    read_at: R,
    encode: E,
    slots: Seq<Option<DirEntry>>,
    request: Option<VfsRequest>,
    room: int,
) -> bool {
    match request {
        None => true,
        Some(VfsRequest::Open { path }) => call_requires(resolve, (&path,)) && forall|d: DirEntry|
            #![trigger call_ensures(resolve, (&path,), Some(d))]
            call_ensures(resolve, (&path,), Some(d)) && !d.directory && free_from(slots, 0) is Some
                ==> call_requires(encode, ((free_from(slots, 0)->0 + 1) as u32, d.size as u64)),
        Some(VfsRequest::Read { handle, offset, len }) => room > 0 ==> (entry_of(
            slots,
            handle,
        ) matches Some(d) ==> {
            let asked = (d, offset, read_room(len, room));
            &&& call_requires(read_at, asked)
            &&& forall|data: Vec<u8>| #[trigger]
                call_ensures(read_at, asked, data) ==> data@.len() <= asked.2
        }),
    }
}

/// Answers one request: stores the reply at the start of `reply` and returns its
/// length. `resolve` finds a path on the volume, `read_at` reads part of a file,
/// and `encode` makes the frame of a successful open.
pub fn dispatch<
    V: Fn(&Vec<u8>) -> Option<DirEntry>,
    R: Fn(DirEntry, u64, usize) -> Vec<u8>,
    E: Fn(u32, u64) -> Vec<u8>,
>(
    codes: &VfsCodes,
    resolve: &V,
    read_at: &R,
    encode: &E,
    open_files: &mut OpenTable,
    request: &Option<VfsRequest>,
    reply: &mut [u8],
) -> (n: usize)
    requires
        can_serve(
            *resolve,
            *read_at,
            *encode,
            old(open_files)@,
            *request,
            old(reply)@.len() as int,
        ),
    ensures
        n <= old(reply)@.len(),
        final(reply)@.len() == old(reply)@.len(),
        dispatched(
            *codes,
            *resolve,
            *read_at,
            *encode,
            old(open_files)@,
            *request,
            old(reply)@,
            final(open_files)@,
            final(reply)@,
            n as int,
        ),
{
    match request {
        None => write_status(reply, codes.bad_request),
        Some(VfsRequest::Open { path }) => {
            let found: Option<DirEntry> = (*resolve)(path);
            assert(call_ensures(*resolve, (path,), found));
            let entry: DirEntry = match found {
                None => return write_status(reply, codes.not_found),
                Some(e) => e,
            };
            if entry.directory {
                return write_status(reply, codes.is_dir);
            }
            let handle: u32 = match open_files.next_handle() {
                None => return write_status(reply, codes.bad_handle),
                Some(h) => h,
            };
            let frame: Vec<u8> = (*encode)(handle, entry.size as u64);
            proof {
                open_files.lemma_len();
                lemma_free_from(open_files@, 0);
            }
            assert(call_ensures(*encode, (handle, entry.size as u64), frame));
            if reply.len() >= 1 && frame.len() > reply.len() {
                return write_status(reply, codes.bad_request);
            }
            let _ = open_files.insert(entry);
            write_frame(reply, &frame)
        },
        Some(VfsRequest::Read { handle, offset, len }) => {
            if reply.len() == 0 {
                return 0;
            }
            let entry: DirEntry = match open_files.get(*handle) {
                None => return write_status(reply, codes.bad_handle),
                Some(e) => e,
            };
            let room: usize = reply.len();
            let cap: usize = bytes::min_len(*len as usize, room - 1);
            let data: Vec<u8> = (*read_at)(entry, *offset, cap);
            assert(call_ensures(*read_at, (entry, *offset, cap), data));
            let ghost before = reply@;
            reply[0] = codes.ok;
            bytes::put_bytes(reply, 1, &data);
            assert(reply@ =~= bytes::overwrite(before, 0, seq![codes.ok] + data@));
            1 + data.len()
        },
    }
}

/// The server: the files that one client has open.
#[derive(Clone, Copy, Debug, PartialEq, Eq)]
pub struct FatServer {
    open_files: OpenTable,
}

impl View for FatServer {
    type V = Seq<Option<DirEntry>>;

    closed spec fn view(&self) -> Seq<Option<DirEntry>> {
        self.open_files@
    }
}

/// A request frame was read as `request`.
pub open spec fn read_as<C: Fn(&[u8]) -> Option<VfsRequest>>(
    decode: C,
    input: Seq<u8>,
    request: Option<VfsRequest>,
) -> bool {
    exists|raw: &[u8]| raw@ == input && #[trigger] call_ensures(decode, (raw,), request)
}

/// The server's table, its reply buffer and what has been sent.
pub struct ServerState {
    pub slots: Seq<Option<DirEntry>>,
    pub reply: Seq<u8>,
    pub sent: Seq<Seq<u8>>,
}

/// One exchange: `input` came in, was read as some request and answered, and the
/// reply was sent if it is not empty.
pub open spec fn served<
    C: Fn(&[u8]) -> Option<VfsRequest>,
    V: Fn(&Vec<u8>) -> Option<DirEntry>,
    R: Fn(DirEntry, u64, usize) -> Vec<u8>,
    E: Fn(u32, u64) -> Vec<u8>,
>(
    codes: VfsCodes,
    decode: C,
    resolve: V,
    read_at: R,
    encode: E,
    input: Seq<u8>,
    a: ServerState,
    b: ServerState,
) -> bool {
    exists|request: Option<VfsRequest>, n: int|
        0 <= n <= b.reply.len() && #[trigger] read_as(decode, input, request)
            && #[trigger] dispatched(
            codes,
            resolve,
            read_at,
            encode,
            a.slots,
            request,
            a.reply,
            b.slots,
            b.reply,
            n,
        ) && b.sent == (if n == 0 {
            a.sent
        } else {
            a.sent.push(b.reply.subrange(0, n))
        })
}

/// States that follow each other by one exchange each, on these inputs.
pub open spec fn is_run<
    C: Fn(&[u8]) -> Option<VfsRequest>,
    V: Fn(&Vec<u8>) -> Option<DirEntry>,
    R: Fn(DirEntry, u64, usize) -> Vec<u8>,
    E: Fn(u32, u64) -> Vec<u8>,
>(
    codes: VfsCodes,
    decode: C,
    resolve: V,
    read_at: R,
    encode: E,
    inputs: Seq<Seq<u8>>,
    states: Seq<ServerState>,
) -> bool {
    &&& states.len() == inputs.len() + 1
    &&& forall|i: int|
        0 <= i < inputs.len() ==> served(
            codes,
            decode,
            resolve,
            read_at,
            encode,
            #[trigger] inputs[i],
            states[i],
            states[i + 1],
        )
}

impl FatServer {
    pub fn new() -> (s: FatServer)
        ensures
            s@ == Seq::new(8, |i: int| None::<DirEntry>),
    {
        FatServer { open_files: OpenTable::new() }
    }

    /// Handles one exchange. `decode` reads a request frame. `false`, with
    /// nothing sent, once the transport has closed.
    pub fn serve_once<
        C: Fn(&[u8]) -> Option<VfsRequest>,
        V: Fn(&Vec<u8>) -> Option<DirEntry>,
        R: Fn(DirEntry, u64, usize) -> Vec<u8>,
        E: Fn(u32, u64) -> Vec<u8>,
        T: Transport,
    >(
        &mut self,
        codes: &VfsCodes,
        decode: &C,
        resolve: &V,
        read_at: &R,
        encode: &E,
        transport: &mut T,
        request_buf: &mut [u8],
        reply_buf: &mut [u8],
    ) -> (go_on: bool)
        requires
            is_volume(*resolve, *read_at, *encode),
            forall|raw: &[u8]| call_requires(*decode, (raw,)),
        ensures
            final(request_buf)@.len() == old(request_buf)@.len(),
            final(reply_buf)@.len() == old(reply_buf)@.len(),
            !go_on ==> final(self)@ == old(self)@ && final(transport).sent() == old(
                transport,
            ).sent(),
            go_on ==> final(transport).incoming() < old(transport).incoming(),
            !go_on ==> final(transport).received() == old(transport).received() && final(transport).closed(),
            go_on ==> exists|input: Seq<u8>|
                final(transport).received() == #[trigger] old(transport).received().push(input)
                    && served(
                    *codes,
                    *decode,
                    *resolve,
                    *read_at,
                    *encode,
                    input,
                    ServerState {
                        slots: old(self)@,
                        reply: old(reply_buf)@,
                        sent: old(transport).sent(),
                    },
                    ServerState {
                        slots: final(self)@,
                        reply: final(reply_buf)@,
                        sent: final(transport).sent(),
                    },
                ),
    {
        let ghost a = ServerState { slots: self@, reply: reply_buf@, sent: transport.sent() };
        let ghost heard = transport.received();
        let n: usize = match transport.recv(request_buf) {
            None => return false,
            Some(n) => n,
        };
        let raw: &[u8] = &request_buf[0..n];
        let request: Option<VfsRequest> = (*decode)(raw);
        assert(read_as(*decode, raw@, request));
        let len: usize = dispatch(
            codes,
            resolve,
            read_at,
            encode,
            &mut self.open_files,
            &request,
            reply_buf,
        );
        assert(dispatched(
            *codes,
            *resolve,
            *read_at,
            *encode,
            a.slots,
            request,
            a.reply,
            self@,
            reply_buf@,
            len as int,
        ));
        if len != 0 {
            transport.send(&reply_buf[0..len]);
        }
        let ghost b = ServerState { slots: self@, reply: reply_buf@, sent: transport.sent() };
        let ghost input = request_buf@.subrange(0, n as int);
        assert(transport.received() == heard.push(input));
        assert(read_as(*decode, input, request));
        assert(dispatched(
            *codes,
            *resolve,
            *read_at,
            *encode,
            a.slots,
            request,
            a.reply,
            b.slots,
            b.reply,
            len as int,
        ));
        assert(b.sent == (if len == 0 {
            a.sent
        } else {
            a.sent.push(b.reply.subrange(0, len as int))
        }));
        assert(served(*codes, *decode, *resolve, *read_at, *encode, input, a, b));
        true
    }

    /// Serves until the transport closes: every request that was received is
    /// answered in order, over one table.
    pub fn serve<
        C: Fn(&[u8]) -> Option<VfsRequest>,
        V: Fn(&Vec<u8>) -> Option<DirEntry>,
        R: Fn(DirEntry, u64, usize) -> Vec<u8>,
        E: Fn(u32, u64) -> Vec<u8>,
        T: Transport,
    >(
        &mut self,
        codes: &VfsCodes,
        decode: &C,
        resolve: &V,
        read_at: &R,
        encode: &E,
        transport: &mut T,
        request_buf: &mut [u8],
    )
        requires
            is_volume(*resolve, *read_at, *encode),
            forall|raw: &[u8]| call_requires(*decode, (raw,)),
        ensures
            final(transport).closed(),
            old(transport).received().is_prefix_of(final(transport).received()),
            exists|states: Seq<ServerState>|
                #[trigger] is_run(
                    *codes,
                    *decode,
                    *resolve,
                    *read_at,
                    *encode,
                    since(old(transport).received(), final(transport).received()),
                    states,
                ) && states.first().slots == old(self)@ && states.last().slots == final(self)@
                    && states.first().sent == old(transport).sent()
                    && states.last().sent == final(transport).sent(),
    {
        let mut reply_buf = [0u8; REPLY_BUF_BYTES];
        let ghost heard = transport.received();
        let ghost mut inputs: Seq<Seq<u8>> = Seq::empty();
        assert(since(heard, heard) =~= inputs);
        assert(heard.subrange(0, heard.len() as int) =~= heard);
        let ghost mut states: Seq<ServerState> = seq![
            ServerState { slots: self@, reply: reply_buf@, sent: transport.sent() },
        ];
        let mut go_on: bool = true;
        while go_on
            invariant
                is_volume(*resolve, *read_at, *encode),
                forall|raw: &[u8]| call_requires(*decode, (raw,)),
                is_run(*codes, *decode, *resolve, *read_at, *encode, inputs, states),
                heard == old(transport).received(),
                heard.is_prefix_of(transport.received()),
                inputs == since(heard, transport.received()),
                !go_on ==> transport.closed(),
                states.first().slots == old(self)@,
                states.first().sent == old(transport).sent(),
                states.last().slots == self@,
                states.last().sent == transport.sent(),
                go_on ==> states.last().reply == reply_buf@,
            decreases (if go_on {
                transport.incoming() + 1
            } else {
                0
            }),
        {
            let ghost a = states.last();
            let ghost so_far = transport.received();
            go_on = self.serve_once(
                codes,
                decode,
                resolve,
                read_at,
                encode,
                transport,
                request_buf,
                &mut reply_buf,
            );
            proof {
                if go_on {
                    let b = ServerState {
                        slots: self@,
                        reply: reply_buf@,
                        sent: transport.sent(),
                    };
                    let input = choose|input: Seq<u8>|
                        transport.received() == #[trigger] so_far.push(input) && served(
                            *codes,
                            *decode,
                            *resolve,
                            *read_at,
                            *encode,
                            input,
                            a,
                            b,
                        );
                    frames_add_up(heard, so_far, input);
                    let (i0, s0) = (inputs, states);
                    inputs = inputs.push(input);
                    states = states.push(b);
                    assert forall|i: int| 0 <= i < inputs.len() implies served(
                        *codes,
                        *decode,
                        *resolve,
                        *read_at,
                        *encode,
                        #[trigger] inputs[i],
                        states[i],
                        states[i + 1],
                    ) by {
                        if i < i0.len() {
                            assert(inputs[i] == i0[i]);
                            assert(states[i] == s0[i] && states[i + 1] == s0[i + 1]);
                        } else {
                            assert(inputs[i] == input);
                            assert(states[i] == a && states[i + 1] == b);
                        }
                    }
                }
            }
        }
    }
}

impl Default for FatServer {
    fn default() -> (s: Self)
        ensures
            s@ == Seq::new(8, |i: int| None::<DirEntry>),
    {
        FatServer::new()
    }
}

proof fn lemma_first_free(slots: Seq<Option<DirEntry>>, m: int, i: int)
    requires
        0 <= m <= i <= slots.len(),
        forall|j: int| m <= j < i ==> (#[trigger] slots[j]) is Some,
    ensures
        i < slots.len() && slots[i] is None ==> free_from(slots, m) == Some(i),
        i == slots.len() ==> free_from(slots, m) is None,
    decreases i - m,
{
    if m < i {
        assert(slots[m] is Some);
        lemma_first_free(slots, m + 1, i);
    }
}

/// The first slot that holds nothing is the free one, and a table without one has none.
pub proof fn the_first_empty_slot_is_free(slots: Seq<Option<DirEntry>>, i: int)
    requires
        0 <= i <= slots.len(),
        forall|j: int| 0 <= j < i ==> (#[trigger] slots[j]) is Some,
    ensures
        i < slots.len() && slots[i] is None ==> free_from(slots, 0) == Some(i),
        i == slots.len() ==> free_from(slots, 0) is None,
{
    lemma_first_free(slots, 0, i);
}

/// Handle 1 is the first slot, and zero and what lies behind the last slot are no handles.
pub proof fn handles_count_from_one(slots: Seq<Option<DirEntry>>, handle: u32)
    ensures
        handle == 0 ==> entry_of(slots, handle) is None,
        handle > slots.len() ==> entry_of(slots, handle) is None,
        0 < handle <= slots.len() ==> entry_of(slots, handle) == slots[handle - 1],
{
}

/// A reply is the frame's start, as far as the buffer goes; what lies behind it stays.
pub proof fn replies_are_cut_at_the_buffer(
    before: Seq<u8>,
    frame: Seq<u8>,
    after: Seq<u8>,
    n: int,
    i: int,
)
    requires
        replied(before, frame, after, n),
        0 <= i < before.len(),
    ensures
        after.len() == before.len(),
        n <= frame.len() && n <= before.len(),
        n == frame.len() || n == before.len(),
        i < n ==> after[i] == frame[i],
        i >= n ==> after[i] == before[i],
{
}

/// A read asks for as much as it wants and no more than fits the buffer behind the status.
pub proof fn reads_leave_room_for_the_status(len: u32, room: int)
    requires
        1 <= room <= usize::MAX,
    ensures
        read_room(len, room) <= len,
        read_room(len, room) + 1 <= room,
        read_room(len, room) == len || read_room(len, room) + 1 == room,
{
}

/// A frame that is no request, a path that is not found, a directory, a full table and a handle that is not
/// open each get their own status and leave the table as it was.
pub proof fn refusals_change_nothing<
    V: Fn(&Vec<u8>) -> Option<DirEntry>,
    R: Fn(DirEntry, u64, usize) -> Vec<u8>,
    E: Fn(u32, u64) -> Vec<u8>,
>(
    codes: VfsCodes,
    resolve: V,
    read_at: R,
    encode: E,
    slots: Seq<Option<DirEntry>>,
    handle: u32,
    offset: u64,
    len: u32,
    d: DirEntry,
    before: Seq<u8>,
    slots_after: Seq<Option<DirEntry>>,
    after: Seq<u8>,
    n: int,
)
    requires
        before.len() > 0,
    ensures
        dispatched(codes, resolve, read_at, encode, slots, None, before, slots_after, after, n)
            ==> slots_after == slots && n == 1 && after[0] == codes.bad_request,
        opened(codes, encode, slots, None, before, slots_after, after, n) ==> slots_after == slots
            && n == 1 && after[0] == codes.not_found,
        d.directory && opened(codes, encode, slots, Some(d), before, slots_after, after, n)
            ==> slots_after == slots && n == 1 && after[0] == codes.is_dir,
        !d.directory && free_from(slots, 0) is None && opened(
            codes,
            encode,
            slots,
            Some(d),
            before,
            slots_after,
            after,
            n,
        ) ==> slots_after == slots && n == 1 && after[0] == codes.bad_handle,
        entry_of(slots, handle) is None && dispatched(
            codes,
            resolve,
            read_at,
            encode,
            slots,
            Some(VfsRequest::Read { handle, offset, len }),
            before,
            slots_after,
            after,
            n,
        ) ==> slots_after == slots && n == 1 && after[0] == codes.bad_handle,
{
}

/// A file that is opened takes the first free slot, and its frame is made of the slot's handle and the
/// file's size; the reply is that frame where it fits. A read of an open file changes no slot and is
/// answered by the status and what the volume gave for it.
pub proof fn files_are_opened_and_read<
    V: Fn(&Vec<u8>) -> Option<DirEntry>,
    R: Fn(DirEntry, u64, usize) -> Vec<u8>,
    E: Fn(u32, u64) -> Vec<u8>,
>(
    codes: VfsCodes,
    resolve: V,
    read_at: R,
    encode: E,
    slots: Seq<Option<DirEntry>>,
    handle: u32,
    offset: u64,
    len: u32,
    d: DirEntry,
    before: Seq<u8>,
    slots_after: Seq<Option<DirEntry>>,
    after: Seq<u8>,
    n: int,
    asked: usize,
    j: int,
)
    requires
        before.len() > 0,
        asked == (if len < before.len() - 1 {
            len as int
        } else {
            before.len() - 1
        }),
    ensures
        !d.directory && free_from(slots, 0) is Some && opened(
            codes,
            encode,
            slots,
            Some(d),
            before,
            slots_after,
            after,
            n,
        ) ==> exists|frame: Vec<u8>| #[trigger]
            call_ensures(encode, ((free_from(slots, 0)->0 + 1) as u32, d.size as u64), frame) && (
            frame@.len() <= before.len() ==> n == frame@.len() && after.subrange(0, n) == frame@
                && slots_after == slots.update(free_from(slots, 0)->0, Some(d))) && (frame@.len()
                > before.len() ==> n == 1 && after[0] == codes.bad_request && slots_after == slots),
        entry_of(slots, handle) == Some(d) && dispatched(
            codes,
            resolve,
            read_at,
            encode,
            slots,
            Some(VfsRequest::Read { handle, offset, len }),
            before,
            slots_after,
            after,
            n,
        ) ==> slots_after == slots && exists|data: Vec<u8>| #[trigger]
            call_ensures(read_at, (d, offset, asked), data) && n == 1 + data@.len() && after[0] == codes.ok && (0 <= j < data@.len() && 1 + j
                < before.len() ==> after[1 + j] == data@[j]),
{
    if !d.directory && free_from(slots, 0) is Some && opened(
        codes,
        encode,
        slots,
        Some(d),
        before,
        slots_after,
        after,
        n,
    ) {
        let i = free_from(slots, 0)->0;
        let frame = choose|frame: Vec<u8>| #[trigger]
            call_ensures(encode, ((i + 1) as u32, d.size as u64), frame) && if 1 <= before.len()
                < frame@.len() {
                slots_after == slots && replied(before, seq![codes.bad_request], after, n)
            } else {
                slots_after == slots.update(i, Some(d)) && replied(before, frame@, after, n)
            };
        if frame@.len() <= before.len() {
            assert(after.subrange(0, n) =~= frame@);
        }
    }
}

} // verus!
