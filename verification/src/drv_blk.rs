//! A block device over a linear store: bounds, reads, writes and the wire
//! protocol.

use vstd::prelude::*;

use crate::bytes;

verus! {

/// Logical block size.
pub const BLOCK_SIZE: u64 = 512;

/// Command byte: read blocks.
pub const CMD_READ: u8 = 0x00;

/// Command byte: write blocks. The data follows the header.
pub const CMD_WRITE: u8 = 0x01;

/// Response status: success.
pub const STATUS_OK: u8 = 0x00;

/// Response status: the range lies outside the device or its mapping.
pub const STATUS_BAD_LBA: u8 = 0x01;

/// Response status: the data length does not match the block count.
pub const STATUS_BAD_LEN: u8 = 0x02;

/// Wire length of a request header.
pub const REQUEST_LEN: usize = 11;

/// Size of a response buffer.
pub const RESPONSE_LEN: usize = 4096;

/// Most bytes of a store that the driver maps.
pub const MAX_VMO_MAP: u64 = 0x0100_0000;

/// A block device backed by a contiguous store.
pub struct BlockDevice {
    block_count: u64,
}

/// The blocks `lba..lba + count` exist on a device of `blocks`.
pub open spec fn in_bounds(blocks: int, lba: int, count: int) -> bool {
    count > 0 && lba + count <= blocks
}

impl BlockDevice {
    /// Number of blocks.
    pub closed spec fn blocks(self) -> int {
        self.block_count as int
    }

    pub closed spec fn wf(self) -> bool {
        self.block_count <= u64::MAX / 512
    }

    /// A device over `vmo_len` bytes. A partial block at the end is not part of
    /// it.
    pub fn new(vmo_len: u64) -> (d: BlockDevice)
        ensures
            d.wf(),
            d.blocks() == vmo_len / 512,
    {
        BlockDevice { block_count: vmo_len / BLOCK_SIZE }
    }

    pub fn block_count(&self) -> (n: u64)
        ensures
            n == self.blocks(),
    {
        self.block_count
    }

    /// Byte offset of a block.
    pub fn offset_for_lba(lba: u64) -> (r: u64)
        requires
            lba <= u64::MAX / 512,
        ensures
            r == lba * 512,
    {
        lba * BLOCK_SIZE
    }

    /// Whether `count` blocks from `lba` on exist, and are any.
    pub fn check_bounds(&self, lba: u64, count: u64) -> (r: bool)
        ensures
            r == in_bounds(self.blocks(), lba as int, count as int),
    {
        count > 0 && lba < self.block_count && count <= self.block_count - lba
    }

    /// Start and length in bytes of a range of blocks, or `None` where it lies
    /// outside the device or outside a store of `store_len` bytes.
    fn byte_span(&self, lba: u64, count: u16) -> (r: Option<(u64, usize)>)
        requires
            self.wf(),
        ensures
            r is Some <==> in_bounds(self.blocks(), lba as int, count as int),
            r matches Some((offset, len)) ==> offset == lba * 512 && len == count * 512
                && offset + len <= u64::MAX,
    {
        if !self.check_bounds(lba, count as u64) {
            return None;
        }
        Some((Self::offset_for_lba(lba), count as usize * 512))
    }

    /// Reads `count` blocks at `lba` out of `store`.
    pub fn read_blocks<'a>(&self, store: &'a [u8], lba: u64, count: u16) -> (r: Result<
        &'a [u8],
        u8,
    >)
        requires
            self.wf(),
        ensures
            r is Ok <==> readable(self.blocks(), store@.len() as int, lba as int, count as int),
            r matches Ok(data) ==> data@ == blocks_at(store@, lba as int, count as int),
            r matches Err(e) ==> e == STATUS_BAD_LBA,
    {
        let (offset, len): (u64, usize) = match self.byte_span(lba, count) {
            None => return Err(STATUS_BAD_LBA),
            Some(span) => span,
        };
        if offset + len as u64 > store.len() as u64 {
            return Err(STATUS_BAD_LBA);
        }
        let start: usize = offset as usize;
        Ok(&store[start..start + len])
    }

    /// Writes `data`, which must be just `count` blocks, at `lba` into `store`.
    pub fn write_blocks(&self, store: &mut [u8], lba: u64, count: u16, data: &[u8]) -> (status: u8)
        requires
            self.wf(),
        ensures
            status == write_status(
                self.blocks(),
                old(store)@.len() as int,
                lba as int,
                count as int,
                data@.len() as int,
            ),
            final(store)@ == (if status == STATUS_OK {
                bytes::overwrite(old(store)@, lba * 512, data@)
            } else {
                old(store)@
            }),
    {
        let (offset, len): (u64, usize) = match self.byte_span(lba, count) {
            None => return STATUS_BAD_LBA,
            Some(span) => span,
        };
        if data.len() != len {
            return STATUS_BAD_LEN;
        }
        if offset + len as u64 > store.len() as u64 {
            return STATUS_BAD_LBA;
        }
        bytes::put_bytes(store, offset as usize, data);
        STATUS_OK
    }
}

/// A range that exists on the device and lies in the store.
pub open spec fn readable(blocks: int, store_len: int, lba: int, count: int) -> bool {
    in_bounds(blocks, lba, count) && (lba + count) * 512 <= store_len
}

/// The bytes of a range of blocks.
pub open spec fn blocks_at(store: Seq<u8>, lba: int, count: int) -> Seq<u8> {
    store.subrange(lba * 512, (lba + count) * 512)
}

/// The status of a write: the device's bounds come first, then the length of
/// the data, then the extent of the store.
pub open spec fn write_status(
    blocks: int,
    store_len: int,
    lba: int,
    count: int,
    data_len: int,
) -> u8 {
    if !in_bounds(blocks, lba, count) {
        0x01
    } else if data_len != count * 512 {
        0x02
    } else if (lba + count) * 512 > store_len {
        0x01
    } else {
        0x00
    }
}

/// What was written is read back.
pub proof fn read_returns_what_was_written(
    store: Seq<u8>,
    blocks: int,
    lba: int,
    count: int,
    data: Seq<u8>,
)
    requires
        0 <= lba,
        write_status(blocks, store.len() as int, lba, count, data.len() as int) == STATUS_OK,
    ensures
        readable(blocks, store.len() as int, lba, count),
        blocks_at(bytes::overwrite(store, lba * 512, data), lba, count) == data,
{
    assert(blocks_at(bytes::overwrite(store, lba * 512, data), lba, count) =~= data);
}

/// A write touches only its own blocks.
pub proof fn write_leaves_other_blocks_alone(
    store: Seq<u8>,
    blocks: int,
    lba: int,
    count: int,
    data: Seq<u8>,
    other: int,
    other_count: int,
)
    requires
        0 <= lba,
        0 <= other,
        write_status(blocks, store.len() as int, lba, count, data.len() as int) == STATUS_OK,
        readable(blocks, store.len() as int, other, other_count),
        other + other_count <= lba || lba + count <= other,
    ensures
        blocks_at(bytes::overwrite(store, lba * 512, data), other, other_count) == blocks_at(
            store,
            other,
            other_count,
        ),
{
    assert(blocks_at(bytes::overwrite(store, lba * 512, data), other, other_count) =~= blocks_at(
        store,
        other,
        other_count,
    ));
}

/// A block request on the wire.
#[derive(Clone, Copy, Debug, PartialEq, Eq, Structural)]
pub struct Request {
    /// [`CMD_READ`] or [`CMD_WRITE`].
    pub cmd: u8,
    /// First block.
    pub lba: u64,
    /// Number of blocks.
    pub count: u16,
}

/// The header of a request.
pub open spec fn request_frame(r: Request) -> Seq<u8> {
    seq![r.cmd] + bytes::le_bytes8(r.lba as int) + bytes::le_bytes2(r.count as int)
}

/// The request in a frame; what follows the header is not looked at.
pub open spec fn request_of(s: Seq<u8>) -> Option<Request> {
    if s.len() < 11 {
        None
    } else {
        Some(
            Request {
                cmd: s[0],
                lba: bytes::le64(s, 1) as u64,
                count: bytes::le16(s, 9) as u16,
            },
        )
    }
}

/// A request is decoded from its header, whatever follows it.
pub proof fn requests_round_trip(r: Request, tail: Seq<u8>)
    ensures
        request_frame(r).len() == REQUEST_LEN,
        request_of(request_frame(r) + tail) == Some(r),
{
    let s = request_frame(r) + tail;
    let a = bytes::le_bytes8(r.lba as int);
    let b = bytes::le_bytes2(r.count as int);
    bytes::lemma_le64_round_trip(r.lba as int);
    bytes::lemma_le16_round_trip(r.count as int);
    assert forall|i: int| 0 <= i < 8 implies s[1 + i] == a[i] by {}
    assert forall|i: int| 0 <= i < 2 implies s[9 + i] == b[i] by {}
    bytes::lemma_fields_agree(s, 1, a);
    bytes::lemma_fields_agree(s, 9, b);
}

impl Request {
    /// A request to read `count` blocks from `lba` on.
    pub fn read(lba: u64, count: u16) -> (r: Request)
        ensures
            r == (Request { cmd: CMD_READ, lba, count }),
    {
        Request { cmd: CMD_READ, lba, count }
    }

    /// A request to write `count` blocks from `lba` on.
    pub fn write(lba: u64, count: u16) -> (r: Request)
        ensures
            r == (Request { cmd: CMD_WRITE, lba, count }),
    {
        Request { cmd: CMD_WRITE, lba, count }
    }

    /// Encodes the header.
    pub fn encode(&self) -> (buf: [u8; 11])
        ensures
            buf@ == request_frame(*self),
    {
        let mut buf = [0u8; REQUEST_LEN];
        buf[0] = self.cmd;
        bytes::put_u64(&mut buf, 1, self.lba);
        bytes::put_u16(&mut buf, 9, self.count);
        assert(buf@ =~= request_frame(*self));
        buf
    }

    /// Decodes a frame. `None` where it is shorter than a header.
    pub fn decode(raw: &[u8]) -> (r: Option<Request>)
        ensures
            r == request_of(raw@),
    {
        if raw.len() < REQUEST_LEN {
            return None;
        }
        Some(
            Request {
                cmd: raw[0],
                lba: bytes::read_u64(raw, 1),
                count: bytes::read_u16(raw, 9),
            },
        )
    }
}

/// The request and data of a write frame, or the status that rejects it.
pub open spec fn write_frame_of(raw: Seq<u8>) -> Result<(Request, Seq<u8>), u8> {
    match request_of(raw) {
        None => Err(0x02u8),
        Some(r) => if r.cmd != 0x01 {
            Err(0x01u8)
        } else if raw.len() - 11 != r.count * 512 {
            Err(0x02u8)
        } else {
            Ok((r, raw.subrange(11, raw.len() as int)))
        },
    }
}

/// A frame made of a write header and as many blocks as it says is split into
/// the two again.
pub proof fn write_frames_round_trip(lba: u64, count: u16, data: Seq<u8>)
    requires
        data.len() == count * 512,
    ensures
        write_frame_of(request_frame(Request { cmd: CMD_WRITE, lba, count }) + data) == Ok::<
            (Request, Seq<u8>),
            u8,
        >((Request { cmd: CMD_WRITE, lba, count }, data)),
{
    let r = Request { cmd: CMD_WRITE, lba, count };
    let s = request_frame(r) + data;
    requests_round_trip(r, data);
    assert(s.subrange(11, s.len() as int) =~= data);
}

/// Splits a write frame into its request and its data. [`STATUS_BAD_LEN`] for
/// a frame without a header or with other than `count` blocks of data,
/// [`STATUS_BAD_LBA`] for a command that is no write.
pub fn split_write_frame(raw: &[u8]) -> (r: Result<(Request, &[u8]), u8>)
    ensures
        match r {
            Ok((request, data)) => write_frame_of(raw@) == Ok::<(Request, Seq<u8>), u8>(
                (request, data@),
            ),
            Err(e) => write_frame_of(raw@) == Err::<(Request, Seq<u8>), u8>(e),
        },
{
    let request: Request = match Request::decode(raw) {
        None => return Err(STATUS_BAD_LEN),
        Some(r) => r,
    };
    if request.cmd != CMD_WRITE {
        return Err(STATUS_BAD_LBA);
    }
    if raw.len() - REQUEST_LEN != request.count as usize * 512 {
        return Err(STATUS_BAD_LEN);
    }
    Ok((request, &raw[REQUEST_LEN..raw.len()]))
}

/// Why a read response holds no data.
#[derive(Clone, Copy, Debug, PartialEq, Eq, Structural)]
pub enum ResponseError {
    /// The response has no status byte.
    Empty,
    /// The server returned this status.
    Status(u8),
}

/// Takes the data out of a read response.
pub fn read_payload(resp: &[u8]) -> (r: Result<&[u8], ResponseError>)
    ensures
        match r {
            Ok(data) => resp@.len() > 0 && resp@[0] == STATUS_OK && data@ == resp@.subrange(
                1,
                resp@.len() as int,
            ),
            Err(ResponseError::Empty) => resp@.len() == 0,
            Err(ResponseError::Status(s)) => resp@.len() > 0 && s == resp@[0] && s != STATUS_OK,
        },
{
    if resp.len() == 0 {
        return Err(ResponseError::Empty);
    }
    if resp[0] == STATUS_OK {
        Ok(&resp[1..resp.len()])
    } else {
        Err(ResponseError::Status(resp[0]))
    }
}

/// How much of a store of `vmo_len` bytes the driver maps: whole pages, and no
/// more than its cap.
pub fn map_length(vmo_len: u64) -> (r: u64)
    ensures
        r % 4096 == 0,
        r <= vmo_len,
        r <= MAX_VMO_MAP,
        r + 4096 > vmo_len || r == MAX_VMO_MAP,
{
    let capped: u64 = if vmo_len < MAX_VMO_MAP {
        vmo_len
    } else {
        MAX_VMO_MAP
    };
    capped - capped % 4096
}

/// The response to a request of a read-only device: for a read, the status and
/// as much of the data as fits; for a write, only whether the range exists.
pub open spec fn response_to(blocks: int, store: Seq<u8>, r: Request) -> Seq<u8> {
    if r.cmd == 0x00 {
        if readable(blocks, store.len() as int, r.lba as int, r.count as int) {
            let data = blocks_at(store, r.lba as int, r.count as int);
            seq![0x00u8] + data.subrange(
                0,
                if data.len() < 4095 {
                    data.len() as int
                } else {
                    4095
                },
            )
        } else {
            seq![0x01u8]
        }
    } else if r.cmd == 0x01 && in_bounds(blocks, r.lba as int, r.count as int) {
        seq![0x00u8]
    } else {
        seq![0x01u8]
    }
}

/// Answers one request frame of a read-only device: stores the response at the
/// start of `buf` and returns its length. `None`, for a frame without a whole
/// header, asks for no response.
pub fn respond(dev: &BlockDevice, store: &[u8], frame: &[u8], buf: &mut [u8; 4096]) -> (n: Option<
    usize,
>)
    requires
        dev.wf(),
    ensures
        n is None <==> request_of(frame@) is None,
        n is None ==> final(buf)@ == old(buf)@,
        n matches Some(len) ==> {
            let response = response_to(dev.blocks(), store@, request_of(frame@)->0);
            &&& len == response.len()
            &&& final(buf)@ == bytes::overwrite(old(buf)@, 0, response)
        },
{
    let request: Request = match Request::decode(frame) {
        None => return None,
        Some(r) => r,
    };
    let ghost before = buf@;
    let ghost response = response_to(dev.blocks(), store@, request);
    if request.cmd == CMD_READ {
        match dev.read_blocks(store, request.lba, request.count) {
            Ok(data) => {
                buf[0] = STATUS_OK;
                let len: usize = bytes::min_len(data.len(), RESPONSE_LEN - 1);
                bytes::put_bytes(buf, 1, &data[0..len]);
                assert(buf@ =~= bytes::overwrite(before, 0, response));
                Some(1 + len)
            },
            Err(status) => {
                buf[0] = status;
                assert(buf@ =~= bytes::overwrite(before, 0, response));
                Some(1)
            },
        }
    } else {
        buf[0] = if request.cmd == CMD_WRITE && dev.check_bounds(
            request.lba,
            request.count as u64,
        ) {
            STATUS_OK
        } else {
            STATUS_BAD_LBA
        };
        assert(buf@ =~= bytes::overwrite(before, 0, response));
        Some(1)
    }
}

/// A range of blocks is on a device just where it has a block and every one of its blocks is.
pub proof fn ranges_lie_on_the_device(blocks: int, lba: int, count: int)
    requires
        0 <= lba,
        0 <= count,
    ensures
        in_bounds(blocks, lba, count) <==> count > 0 && forall|b: int|
            lba <= b < lba + count ==> #[trigger] block_start(b) < 512 * blocks,
{
    if count > 0 {
        assert(block_start(lba + count - 1) == 512 * (lba + count - 1));
    }
}

/// Where block `b` starts.
pub open spec fn block_start(b: int) -> int {
    512 * b
}

/// A range can be read just where it is on the device and its last byte is in the store, and it reads
/// as 512 bytes for each block, block `lba + k` at `512 * k`.
pub proof fn blocks_are_512_bytes(store: Seq<u8>, blocks: int, lba: int, count: int, k: int, j: int)
    requires
        0 <= lba,
    ensures
        readable(blocks, store.len() as int, lba, count) <==> 1 <= count && lba + count <= blocks
            && 512 * lba + 512 * count <= store.len(),
        readable(blocks, store.len() as int, lba, count) ==> blocks_at(store, lba, count).len()
            == 512 * count,
        readable(blocks, store.len() as int, lba, count) && 0 <= k < count && 0 <= j < 512
            ==> blocks_at(store, lba, count)[512 * k + j] == store[512 * (lba + k) + j],
{
}

/// The statuses of a write: 1 outside the device, 2 where the data is not 512 bytes for each block, 1
/// outside the store, and 0 where it is done.
pub proof fn writes_are_checked_in_order(
    blocks: int,
    store_len: int,
    lba: int,
    count: int,
    data_len: int,
)
    ensures
        count <= 0 || lba + count > blocks ==> write_status(blocks, store_len, lba, count, data_len)
            == 1,
        count > 0 && lba + count <= blocks && data_len != 512 * count ==> write_status(
            blocks,
            store_len,
            lba,
            count,
            data_len,
        ) == 2,
        count > 0 && lba + count <= blocks && data_len == 512 * count ==> write_status(
            blocks,
            store_len,
            lba,
            count,
            data_len,
        ) == (if 512 * (lba + count) > store_len {
            1u8
        } else {
            0u8
        }),
{
}

/// A header is the command, the first block in eight bytes and the number of blocks in two, low bytes
/// first; a frame of fewer than eleven bytes is no request.
pub proof fn headers_are_eleven_bytes(s: Seq<u8>, r: Request)
    ensures
        s.len() < 11 ==> request_of(s) is None,
        s.len() >= 11 ==> {
            &&& request_of(s) is Some
            &&& request_of(s)->0.cmd == s[0]
            &&& request_of(s)->0.lba == bytes::le64(s, 1)
            &&& request_of(s)->0.count == s[9] + 0x100 * s[10]
        },
        request_frame(r).len() == 11,
        request_frame(r)[0] == r.cmd,
        bytes::le64(request_frame(r), 1) == r.lba,
        request_frame(r)[9] + 0x100 * request_frame(r)[10] == r.count,
{
    requests_round_trip(r, Seq::empty());
    assert(request_frame(r) + Seq::<u8>::empty() =~= request_frame(r));
}

/// A write frame is split just where it has a header with the command 1 and 512 bytes behind it for each
/// block; the data is what stands behind the header.
pub proof fn write_frames_carry_their_blocks(raw: Seq<u8>)
    ensures
        raw.len() < 11 ==> write_frame_of(raw) == Err::<(Request, Seq<u8>), u8>(2),
        raw.len() >= 11 && raw[0] != 1 ==> write_frame_of(raw) == Err::<(Request, Seq<u8>), u8>(1),
        raw.len() >= 11 && raw[0] == 1 && raw.len() != 11 + 512 * (raw[9] + 0x100 * raw[10])
            ==> write_frame_of(raw) == Err::<(Request, Seq<u8>), u8>(2),
        raw.len() >= 11 && raw[0] == 1 && raw.len() == 11 + 512 * (raw[9] + 0x100 * raw[10]) ==> {
            let (r, data) = write_frame_of(raw)->Ok_0;
            &&& write_frame_of(raw) is Ok
            &&& r.cmd == 1 && r.lba == bytes::le64(raw, 1) && r.count == raw[9] + 0x100 * raw[10]
            &&& data == raw.subrange(11, raw.len() as int)
        },
{
}

/// What a read-only device answers: a read of blocks that are there gets a zero and their bytes, as far
/// as 4096 bytes go; a write to such blocks gets a zero, and everything else a one.
pub proof fn devices_answer_reads(blocks: int, store: Seq<u8>, r: Request, i: int)
    ensures
        ({
            let a = response_to(blocks, store, r);
            let there = r.count > 0 && r.lba + r.count <= blocks;
            let stored = 512 * (r.lba + r.count) <= store.len();
            &&& r.cmd == 0 && there && stored ==> {
                &&& a[0] == 0
                &&& a.len() == (if 512 * r.count < 4095 {
                    1 + 512 * r.count
                } else {
                    4096
                })
                &&& 0 <= i < a.len() - 1 ==> a[1 + i] == store[512 * r.lba + i]
            }
            &&& r.cmd == 1 && there ==> a == seq![0u8]
            &&& (r.cmd == 0 && !(there && stored)) || (r.cmd == 1 && !there) || r.cmd > 1 ==> a
                == seq![1u8]
        }),
{
}

} // verus!
