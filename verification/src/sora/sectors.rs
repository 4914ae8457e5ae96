//! Sectors of a disk image that lies inside the boot image: read straight from
//! it, or spliced from the blocks that the block driver serves.

use vstd::prelude::*;

use crate::bytes;
use crate::drv_blk;
use crate::sora::initrd;
use crate::sora::vmo;

verus! {

/// Bytes of a sector.
pub const SECTOR_SIZE: u64 = 512;

/// Most bytes that one read of a memory object copies.
pub const VMO_READ_MAX: usize = 256;

/// A disk image inside the boot image.
#[derive(Clone, Copy, Debug, PartialEq, Eq, Structural)]
pub struct InitrdSectors {
    pub base: u64,
    pub len: u64,
}

/// Sector `lba` of a disk image of `len` bytes at `base`, in two reads. `None`
/// where it lies past the image's end or a read is refused.
pub open spec fn sector_of(image: vmo::Vmo, d: InitrdSectors, lba: u32) -> Option<Seq<u8>> {
    let at = d.base + lba * 512;
    if lba * 512 + 512 > d.len || at + 256 > u64::MAX {
        None
    } else {
        match (image(at as u64, 256), image((at + 256) as u64, 256)) {
            (Some(a), Some(b)) => Some(a + b),
            _ => None,
        }
    }
}

impl InitrdSectors {
    /// Reads one sector.
    pub fn read_sector<R: Fn(u64, usize) -> Option<Vec<u8>>>(&self, read: &R, lba: u32) -> (r: Option<
        Vec<u8>,
    >)
        requires
            vmo::is_reader(*read),
        ensures
            r matches Some(v) ==> v@.len() == 512,
            forall|image: vmo::Vmo| #[trigger]
                vmo::follows(*read, image) ==> vmo::answer(r) == sector_of(image, *self, lba),
    {
        let off: u64 = lba as u64 * SECTOR_SIZE;
        if off + SECTOR_SIZE > self.len {
            return None;
        }
        if self.base > u64::MAX - 256 - off {
            return None;
        }
        let at: u64 = self.base + off;
        let mut out: Vec<u8> = match read(at, VMO_READ_MAX) {
            None => return None,
            Some(v) => v,
        };
        match read(at + 256, VMO_READ_MAX) {
            None => None,
            Some(rest) => {
                bytes::append(&mut out, &rest);
                Some(out)
            },
        }
    }
}

/// A sector that lies in the image is read whole.
pub proof fn sectors_are_parts_of_the_image(img: Seq<u8>, d: InitrdSectors, lba: u32)
    requires
        img.len() <= u64::MAX,
        d.base + d.len <= img.len(),
        lba * 512 + 512 <= d.len,
    ensures
        sector_of(vmo::image_vmo(img), d, lba) == Some(
            img.subrange(d.base + lba * 512, d.base + lba * 512 + 512),
        ),
{
    let at = d.base + lba * 512;
    assert(img.subrange(at, at + 256) + img.subrange(at + 256, at + 512) =~= img.subrange(
        at,
        at + 512,
    ));
}

/// The block in a reply of the block driver. `None` for an error or less than a
/// block.
pub fn block_of(reply: &[u8]) -> (r: Option<&[u8]>)
    ensures
        match r {
            Some(b) => reply@.len() >= 513 && reply@[0] == drv_blk::STATUS_OK && b@
                == reply@.subrange(1, 513),
            None => reply@.len() < 513 || reply@[0] != drv_blk::STATUS_OK,
        },
{
    match drv_blk::read_payload(reply) {
        Ok(data) => {
            if data.len() >= 512 {
                assert(data@.subrange(0, 512) =~= reply@.subrange(1, 513));
                Some(&data[0..512])
            } else {
                None
            }
        },
        Err(_) => None,
    }
}

/// Whether the driver's reply is just one block, the boot image's first.
pub fn is_boot_block(reply: &[u8]) -> (r: bool)
    ensures
        r == (reply@.len() == 513 && reply@[0] == drv_blk::STATUS_OK && reply@.subrange(1, 9)
            == initrd::magic()),
{
    match drv_blk::read_payload(reply) {
        Ok(data) => {
            if data.len() != 512 {
                return false;
            }
            assert(data@.subrange(0, 8) =~= reply@.subrange(1, 9));
            let magic: [u8; 8] = [0x4b, 0x55, 0x4d, 0x4f, 0x52, 0x44, 0x30, 0x31];
            assert(magic@ =~= initrd::magic());
            bytes::bytes_equal(&data[0..8], &magic)
        },
        Err(_) => false,
    }
}

/// The answers of a block device: what a read of one block returns.
pub type Blocks = spec_fn(u64) -> Option<Seq<u8>>;

/// The reader can be asked for any block and returns whole blocks.
pub open spec fn is_block_reader<B: Fn(u64) -> Option<Vec<u8>>>(read: B) -> bool {
    &&& forall|lba: u64| call_requires(read, (lba,))
    &&& forall|lba: u64, r: Option<Vec<u8>>| #[trigger]
        call_ensures(read, (lba,), r) ==> (r matches Some(v) ==> v@.len() == 512)
}

/// The reader's answers are those of `blocks`.
pub open spec fn follows_blocks<B: Fn(u64) -> Option<Vec<u8>>>(read: B, blocks: Blocks) -> bool {
    forall|lba: u64, r: Option<Vec<u8>>| #[trigger]
        call_ensures(read, (lba,), r) ==> vmo::answer(r) == blocks(lba)
}

/// A disk image at byte `base` of a block device. It need not begin at a block's
/// start, so a sector may straddle two blocks.
#[derive(Clone, Copy, Debug, PartialEq, Eq, Structural)]
pub struct BlkSectors {
    pub base: u64,
}

/// Sector `lba` of an image at `base`, spliced from the blocks that it lies in.
pub open spec fn spliced(blocks: Blocks, base: int, lba: int) -> Option<Seq<u8>> {
    let at = base + lba * 512;
    let first = at / 512;
    let skew = at % 512;
    if at > u64::MAX {
        None
    } else {
        match blocks(first as u64) {
            None => None,
            Some(a) => if skew == 0 {
                Some(a)
            } else {
                match blocks((first + 1) as u64) {
                    None => None,
                    Some(b) => Some(a.subrange(skew, 512) + b.subrange(0, skew)),
                }
            },
        }
    }
}

impl BlkSectors {
    /// Reads one sector.
    pub fn read_sector<B: Fn(u64) -> Option<Vec<u8>>>(&self, read: &B, lba: u32) -> (r: Option<
        Vec<u8>,
    >)
        requires
            is_block_reader(*read),
        ensures
            r matches Some(v) ==> v@.len() == 512,
            forall|blocks: Blocks| #[trigger]
                follows_blocks(*read, blocks) ==> vmo::answer(r) == spliced(
                    blocks,
                    self.base as int,
                    lba as int,
                ),
    {
        let off: u64 = lba as u64 * SECTOR_SIZE;
        if self.base > u64::MAX - off {
            return None;
        }
        let at: u64 = self.base + off;
        let first: u64 = at / SECTOR_SIZE;
        let skew: usize = (at % SECTOR_SIZE) as usize;
        let head: Vec<u8> = match read(first) {
            None => return None,
            Some(v) => v,
        };
        if skew == 0 {
            return Some(head);
        }
        match read(first + 1) {
            None => None,
            Some(tail) => {
                let mut out: Vec<u8> = Vec::new();
                bytes::append(&mut out, &head[skew..512]);
                bytes::append(&mut out, &tail[0..skew]);
                assert(out@ =~= head@.subrange(skew as int, 512) + tail@.subrange(
                    0,
                    skew as int,
                ));
                Some(out)
            },
        }
    }
}

/// The blocks of a store.
pub open spec fn blocks_of(store: Seq<u8>) -> Blocks {
    |lba: u64|
        if lba * 512 + 512 <= store.len() {
            Some(drv_blk::blocks_at(store, lba as int, 1))
        } else {
            None
        }
}

/// A sector read through the block driver is the same part of the store as one
/// read directly, wherever the image begins.
pub proof fn splicing_is_transparent(store: Seq<u8>, base: int, lba: int)
    requires
        0 <= base,
        0 <= lba,
        store.len() <= u64::MAX,
        (base + lba * 512) % 512 == 0 ==> base + lba * 512 + 512 <= store.len(),
        (base + lba * 512) % 512 != 0 ==> (base + lba * 512) / 512 * 512 + 1024 <= store.len(),
    ensures
        spliced(blocks_of(store), base, lba) == Some(
            store.subrange(base + lba * 512, base + lba * 512 + 512),
        ),
{
    let at = base + lba * 512;
    let first = at / 512;
    let skew = at % 512;
    assert(at == first * 512 + skew);
    let a = drv_blk::blocks_at(store, first, 1);
    let b = drv_blk::blocks_at(store, first + 1, 1);
    if skew == 0 {
        assert(a =~= store.subrange(at, at + 512));
    } else {
        assert(a.subrange(skew, 512) + b.subrange(0, skew) =~= store.subrange(at, at + 512));
    }
}

/// A sector that ends behind the disk image is not read, and neither is one that the boot image does not
/// hold whole.
pub proof fn sectors_behind_the_end_are_refused(img: Seq<u8>, d: InitrdSectors, lba: u32)
    requires
        img.len() <= u64::MAX,
    ensures
        512 * (lba + 1) > d.len ==> sector_of(vmo::image_vmo(img), d, lba) is None,
        d.base + 512 * (lba + 1) > img.len() ==> sector_of(vmo::image_vmo(img), d, lba) is None,
{
}

/// A sector that starts at a block's start is that block; any other needs two blocks, its first bytes
/// from the end of the one and the others from the start of the next. A block that is refused leaves
/// none.
pub proof fn sectors_lie_in_two_blocks_at_most(blocks: Blocks, block: int, skew: int, lba: int)
    requires
        0 <= block,
        0 <= skew < 512,
        512 * block + skew <= u64::MAX,
        512 * block + skew - 512 * lba >= 0,
    ensures
        ({
            let r = spliced(blocks, 512 * block + skew - 512 * lba, lba);
            let a = blocks(block as u64);
            let b = blocks((block + 1) as u64);
            &&& a is None ==> r is None
            &&& skew == 0 ==> r == a
            &&& skew > 0 && b is None ==> r is None
            &&& skew > 0 && a is Some && b is Some ==> r == Some(
                a->0.subrange(skew, 512) + b->0.subrange(0, skew),
            )
        }),
{
    let at = 512 * block + skew;
    assert(at / 512 == block && at % 512 == skew);
}

} // verus!
