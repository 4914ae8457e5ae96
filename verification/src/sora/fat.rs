//! Reading files of a FAT32 image that lies inside the boot image.

use vstd::prelude::*;

use crate::bytes;
use crate::sora::initrd;
use crate::sora::vmo;

verus! {

pub const SECTOR_LEN: usize = 512;

pub const DIR_ENTRY_LEN: usize = 32;

/// First cluster number that marks the end of a chain.
pub const CHAIN_END: u32 = 0x0fff_fff8;

const ATTR_LONG_NAME: u8 = 0x0f;

const ATTR_VOLUME_ID: u8 = 0x08;

/// The path `bin/fat32.img`.
pub open spec fn image_path() -> Seq<u8> {
    seq![0x62u8, 0x69, 0x6e, 0x2f, 0x66, 0x61, 0x74, 0x33, 0x32, 0x2e, 0x69, 0x6d, 0x67]
}

/// What precedes the first dot of a path.
pub open spec fn base_name(path: Seq<u8>) -> Seq<u8> {
    path.subrange(0, bytes::first_index(path, 0x2e))
}

/// What follows the first dot of a path.
pub open spec fn extension(path: Seq<u8>) -> Seq<u8> {
    let dot = bytes::first_index(path, 0x2e);
    if dot < path.len() {
        path.subrange(dot + 1, path.len() as int)
    } else {
        Seq::empty()
    }
}

/// A path has a short directory name when its base has one to eight bytes and
/// its extension at most three.
pub open spec fn has_short_name(path: Seq<u8>) -> bool {
    1 <= base_name(path).len() <= 8 && extension(path).len() <= 3
}

/// The eleven bytes of a short directory name: the base padded to eight bytes
/// with spaces, then the extension padded to three.
pub open spec fn short_name(path: Seq<u8>) -> Seq<u8> {
    Seq::new(
        11,
        |i: int|
            if i < 8 {
                if i < base_name(path).len() {
                    base_name(path)[i]
                } else {
                    0x20
                }
            } else if i - 8 < extension(path).len() {
                extension(path)[i - 8]
            } else {
                0x20
            },
    )
}

/// Converts a path such as `HELLO.TXT` to the eleven bytes of a directory
/// entry's name. `None` when a part does not fit.
pub fn path_to_8_3(path: &[u8]) -> (r: Option<[u8; 11]>)
    ensures
        r is Some <==> has_short_name(path@),
        r matches Some(name) ==> name@ == short_name(path@),
{
    let dot: usize = bytes::find_byte(path, 0x2e);
    let base: &[u8] = &path[0..dot];
    let ext_start: usize = if dot < path.len() {
        dot + 1
    } else {
        dot
    };
    let ext: &[u8] = &path[ext_start..path.len()];
    assert(base@ == base_name(path@));
    assert(ext@ == extension(path@));
    if base.len() > 8 || ext.len() > 3 || base.len() == 0 {
        return None;
    }
    let mut name = [0x20u8; 11];
    bytes::put_bytes(&mut name, 0, base);
    bytes::put_bytes(&mut name, 8, ext);
    assert(name@ =~= short_name(path@));
    Some(name)
}

/// The geometry fields of a boot sector.
#[derive(Clone, Copy, Debug, PartialEq, Eq, Structural)]
pub struct Layout {
    pub bytes_per_sector: u64,
    pub sectors_per_cluster: u64,
    pub reserved_sectors: u64,
    pub fat_count: u64,
    pub sectors_per_fat: u64,
    pub root_cluster: u64,
}

impl Layout {
    /// What the fields can hold.
    pub open spec fn wf(self) -> bool {
        &&& self.bytes_per_sector < 0x1_0000
        &&& self.sectors_per_cluster < 0x100
        &&& self.reserved_sectors < 0x1_0000
        &&& self.fat_count < 0x100
        &&& self.sectors_per_fat < 0x1_0000_0000
        &&& self.root_cluster < 0x1_0000_0000
    }

    /// First sector of the data region.
    pub open spec fn data_start(self) -> int {
        self.reserved_sectors + self.fat_count * self.sectors_per_fat
    }

    /// Bytes in one cluster.
    pub open spec fn cluster_len(self) -> int {
        self.sectors_per_cluster * self.bytes_per_sector
    }

    /// Offset of a cluster's first byte in the image.
    pub open spec fn cluster_offset(self, cluster: int) -> int {
        (self.data_start() + (cluster - 2) * self.sectors_per_cluster) * self.bytes_per_sector
    }

    /// Offset of the first allocation table in the image.
    pub open spec fn fat_offset(self) -> int {
        self.reserved_sectors * self.bytes_per_sector
    }
}

/// The geometry that a boot sector states.
pub open spec fn layout_of(sector: Seq<u8>) -> Layout {
    Layout {
        bytes_per_sector: bytes::le16(sector, 0x0b) as u64,
        sectors_per_cluster: sector[0x0d] as u64,
        reserved_sectors: bytes::le16(sector, 0x0e) as u64,
        fat_count: sector[0x10] as u64,
        sectors_per_fat: bytes::le32(sector, 0x24) as u64,
        root_cluster: bytes::le32(sector, 0x2c) as u64,
    }
}

/// Reads the geometry fields of a boot sector.
pub fn parse_layout(sector: &[u8]) -> (l: Layout)
    requires
        sector@.len() == SECTOR_LEN,
    ensures
        l == layout_of(sector@),
        l.wf(),
{
    Layout {
        bytes_per_sector: bytes::read_u16(sector, 0x0b) as u64,
        sectors_per_cluster: sector[0x0d] as u64,
        reserved_sectors: bytes::read_u16(sector, 0x0e) as u64,
        fat_count: sector[0x10] as u64,
        sectors_per_fat: bytes::read_u32(sector, 0x24) as u64,
        root_cluster: bytes::read_u32(sector, 0x2c) as u64,
    }
}

/// A directory entry that names a file or a directory, as opposed to a volume
/// label or a part of a long name.
pub open spec fn is_listed(dir: Seq<u8>, pos: int) -> bool {
    dir[pos + 11] != 0x0f && dir[pos + 11] != 0x08
}

/// First cluster and size of the file in the entry at `pos`.
pub open spec fn entry_file(dir: Seq<u8>, pos: int) -> (u32, u32) {
    (
        (0x1_0000 * bytes::le16(dir, pos + 20) + bytes::le16(dir, pos + 26)) as u32,
        bytes::le32(dir, pos + 28) as u32,
    )
}

/// First cluster and size of the first file from `pos` on that carries `name`.
/// A zero byte in place of a name ends the directory.
pub open spec fn find_in_sector(dir: Seq<u8>, name: Seq<u8>, pos: int) -> Option<(u32, u32)>
    decreases 512 - pos,
{
    if pos < 0 || pos + 32 > 512 || dir[pos] == 0 {
        None
    } else if is_listed(dir, pos) && dir.subrange(pos, pos + 11) == name {
        Some(entry_file(dir, pos))
    } else {
        find_in_sector(dir, name, pos + 32)
    }
}

/// Looks a short name up in one directory sector.
pub fn find_entry(dir: &[u8], name: &[u8]) -> (r: Option<(u32, u32)>)
    requires
        dir@.len() == SECTOR_LEN,
        name@.len() == 11,
    ensures
        r == find_in_sector(dir@, name@, 0),
{
    let mut pos: usize = 0;
    while pos + DIR_ENTRY_LEN <= SECTOR_LEN && dir[pos] != 0
        invariant
            dir@.len() == 512,
            name@.len() == 11,
            pos % 32 == 0,
            pos <= 512,
            find_in_sector(dir@, name@, 0) == find_in_sector(dir@, name@, pos as int),
        decreases 512 - pos,
    {
        let attr: u8 = dir[pos + 11];
        if attr != ATTR_LONG_NAME && attr != ATTR_VOLUME_ID && bytes::bytes_equal(
            &dir[pos..pos + 11],
            name,
        ) {
            let hi: u32 = bytes::read_u16(dir, pos + 20) as u32;
            let lo: u32 = bytes::read_u16(dir, pos + 26) as u32;
            return Some((0x1_0000 * hi + lo, bytes::read_u32(dir, pos + 28)));
        }
        pos += DIR_ENTRY_LEN;
    }
    None
}

/// The name that a listing shows for the entry at `pos`: the base up to its
/// first space and, where there is one, a dot and the extension.
pub open spec fn listed_name(dir: Seq<u8>, pos: int) -> Seq<u8> {
    let base = dir.subrange(pos, pos + 8);
    let ext = dir.subrange(pos + 8, pos + 11);
    let shown_base = base.subrange(0, bytes::first_index(base, 0x20));
    let shown_ext = ext.subrange(0, bytes::first_index(ext, 0x20));
    if shown_base.len() == 0 {
        Seq::empty()
    } else if shown_ext.len() == 0 {
        shown_base
    } else {
        shown_base + seq![0x2eu8] + shown_ext
    }
}

/// The lines of a directory listing from `pos` on.
pub open spec fn listing_from(dir: Seq<u8>, pos: int) -> Seq<u8>
    decreases 512 - pos,
{
    if pos < 0 || pos + 32 > 512 || dir[pos] == 0 {
        Seq::empty()
    } else if is_listed(dir, pos) && listed_name(dir, pos).len() > 0 {
        listed_name(dir, pos) + seq![0x0au8] + listing_from(dir, pos + 32)
    } else {
        listing_from(dir, pos + 32)
    }
}

/// Lists the short names in one directory sector, one per line.
pub fn list_sector(dir: &[u8]) -> (out: Vec<u8>)
    requires
        dir@.len() == SECTOR_LEN,
    ensures
        out@ == listing_from(dir@, 0),
{
    let mut out: Vec<u8> = Vec::new();
    let mut pos: usize = 0;
    while pos + DIR_ENTRY_LEN <= SECTOR_LEN && dir[pos] != 0
        invariant
            dir@.len() == 512,
            pos <= 512,
            listing_from(dir@, 0) == out@ + listing_from(dir@, pos as int),
        decreases 512 - pos,
    {
        let attr: u8 = dir[pos + 11];
        if attr != ATTR_LONG_NAME && attr != ATTR_VOLUME_ID {
            let base: &[u8] = &dir[pos..pos + 8];
            let ext: &[u8] = &dir[pos + 8..pos + 11];
            let nl: usize = bytes::find_byte(base, 0x20);
            let el: usize = bytes::find_byte(ext, 0x20);
            let ghost before = out@;
            if nl > 0 {
                bytes::append(&mut out, &base[0..nl]);
                if el > 0 {
                    out.push(0x2e);
                    bytes::append(&mut out, &ext[0..el]);
                }
                out.push(0x0a);
                assert(out@ =~= before + listed_name(dir@, pos as int) + seq![0x0au8]);
            }
            proof {
                let rest = listing_from(dir@, pos + 32);
                if nl > 0 {
                    assert(before + (listed_name(dir@, pos as int) + seq![0x0au8] + rest)
                        =~= out@ + rest);
                }
            }
        }
        pos += DIR_ENTRY_LEN;
    }
    assert(out@ + Seq::<u8>::empty() =~= out@);
    out
}

/// A read at an offset that may lie beyond what the kernel can address.
pub open spec fn ask(image: vmo::Vmo, at: int, n: int) -> Option<Seq<u8>> {
    if 0 <= at <= u64::MAX && 0 <= n <= usize::MAX {
        image(at as u64, n as usize)
    } else {
        None
    }
}

/// A cluster number that belongs to a chain.
pub open spec fn in_chain(cluster: u32) -> bool {
    2 <= cluster < CHAIN_END
}

/// The allocation table's entry for `cluster`, of a volume that starts at
/// `base`. `None` where the table cannot be read.
pub open spec fn next_cluster(image: vmo::Vmo, base: int, l: Layout, cluster: u32) -> Option<u32> {
    let entry = 4 * cluster as int;
    let bps = l.bytes_per_sector as int;
    if bps == 0 || entry % bps + 4 > 512 {
        None
    } else {
        match ask(image, base + l.fat_offset() + (entry / bps) * bps, 512) {
            None => None,
            Some(sector) => Some(bytes::le32(sector, entry % bps) as u32),
        }
    }
}

/// The cluster that holds byte `skip` of a chain, and the offset in it. The
/// chain may end first.
pub open spec fn seek(image: vmo::Vmo, base: int, l: Layout, cluster: u32, skip: int) -> Option<
    (u32, int),
>
    decreases skip,
{
    if l.cluster_len() <= 0 {
        None
    } else if skip >= l.cluster_len() && in_chain(cluster) {
        match next_cluster(image, base, l, cluster) {
            None => None,
            Some(next) => seek(image, base, l, next, skip - l.cluster_len()),
        }
    } else {
        Some((cluster, skip))
    }
}

/// Up to `want` bytes of a chain, from offset `skip` of `cluster` on. A refused
/// read ends the data.
pub open spec fn read_chain(
    image: vmo::Vmo,
    base: int,
    l: Layout,
    cluster: u32,
    skip: int,
    want: int,
) -> Seq<u8>
    decreases want,
{
    if !in_chain(cluster) || want <= 0 || skip >= l.cluster_len() {
        Seq::empty()
    } else {
        let room = l.cluster_len() - skip;
        let n = if room < want {
            room
        } else {
            want
        };
        match ask(image, base + l.cluster_offset(cluster as int) + skip, n) {
            None => Seq::empty(),
            Some(data) => data + match next_cluster(image, base, l, cluster) {
                None => Seq::empty(),
                Some(next) => read_chain(image, base, l, next, 0, want - n),
            },
        }
    }
}

/// How many bytes a request may return: no more than were asked for, than the
/// file holds from there on, and than fit a sector.
pub open spec fn granted(file_off: u64, req_len: u64, size: u32) -> int {
    let left = size - file_off;
    let cap = if req_len < 512 {
        req_len as int
    } else {
        512
    };
    if left < cap {
        left
    } else {
        cap
    }
}

/// The bytes of a chain's file at `file_off`.
pub open spec fn read_file(
    image: vmo::Vmo,
    base: int,
    l: Layout,
    cluster: u32,
    size: u32,
    file_off: u64,
    req_len: u64,
) -> Seq<u8> {
    if cluster == 0 || file_off >= size {
        Seq::empty()
    } else {
        match seek(image, base, l, cluster, file_off as int) {
            None => Seq::empty(),
            Some((at, skip)) => read_chain(
                image,
                base,
                l,
                at,
                skip,
                granted(file_off, req_len, size),
            ),
        }
    }
}

/// The bytes of the file `path` in the root directory of the volume at `base`.
pub open spec fn read_path(
    image: vmo::Vmo,
    base: int,
    path: Seq<u8>,
    file_off: u64,
    req_len: u64,
) -> Seq<u8> {
    match ask(image, base, 512) {
        None => Seq::empty(),
        Some(boot) => {
            let l = layout_of(boot);
            match ask(image, base + l.data_start() * l.bytes_per_sector, 512) {
                None => Seq::empty(),
                Some(dir) => match find_in_sector(dir, short_name(path), 0) {
                    None => Seq::empty(),
                    Some((cluster, size)) => read_file(
                        image,
                        base,
                        l,
                        cluster,
                        size,
                        file_off,
                        req_len,
                    ),
                },
            }
        },
    }
}

/// What a read request for a file of the disk image in the boot image returns.
/// An image at offset zero is no image.
pub open spec fn file_read_at(image: vmo::Vmo, path: Seq<u8>, file_off: u64, req_len: u64) -> Seq<
    u8,
> {
    if !has_short_name(path) {
        Seq::empty()
    } else {
        match initrd::find_file(image, image_path()) {
            None => Seq::empty(),
            Some((base, _)) => if base == 0 {
                Seq::empty()
            } else {
                read_path(image, base as int, path, file_off, req_len)
            },
        }
    }
}

/// The arithmetic of a well-formed geometry stays far inside 64 bits.
proof fn lemma_layout_bounds(l: Layout, cluster: u32)
    requires
        l.wf(),
    ensures
        0 <= l.data_start() < 0x200_0000_0000,
        0 <= l.data_start() * l.bytes_per_sector < 0x1000_0000_0000_0000,
        0 <= l.cluster_len() < 0x100_0000,
        0 <= l.fat_offset() < 0x1_0000_0000,
        0 <= l.fat_count * l.sectors_per_fat < 0x100_0000_0000,
        cluster >= 2 ==> {
            &&& 0 <= (cluster - 2) * l.sectors_per_cluster < 0x100_0000_0000
            &&& 0 <= l.cluster_offset(cluster as int) < 0x1000_0000_0000_0000
        },
{
    let bps = l.bytes_per_sector as int;
    let spc = l.sectors_per_cluster as int;
    let nf = l.fat_count as int;
    let spf = l.sectors_per_fat as int;
    let rs = l.reserved_sectors as int;
    assert(0 <= nf * spf < 0x100_0000_0000) by (nonlinear_arith)
        requires
            0 <= nf < 0x100,
            0 <= spf < 0x1_0000_0000,
    ;
    let ds = l.data_start();
    assert(0 <= ds * bps < 0x1000_0000_0000_0000) by (nonlinear_arith)
        requires
            0 <= ds < 0x200_0000_0000,
            0 <= bps < 0x1_0000,
    ;
    assert(0 <= spc * bps < 0x100_0000) by (nonlinear_arith)
        requires
            0 <= spc < 0x100,
            0 <= bps < 0x1_0000,
    ;
    assert(0 <= rs * bps < 0x1_0000_0000) by (nonlinear_arith)
        requires
            0 <= rs < 0x1_0000,
            0 <= bps < 0x1_0000,
    ;
    if cluster >= 2 {
        let c = cluster - 2;
        assert(0 <= c * spc < 0x100_0000_0000) by (nonlinear_arith)
            requires
                0 <= c < 0x1_0000_0000,
                0 <= spc < 0x100,
        ;
        let sec = ds + c * spc;
        assert(0 <= sec * bps < 0x1000_0000_0000_0000) by (nonlinear_arith)
            requires
                0 <= sec < 0x400_0000_0000,
                0 <= bps < 0x1_0000,
        ;
    }
}

/// Asks the reader for a range whose start may not fit.
fn ask_at<R: Fn(u64, usize) -> Option<Vec<u8>>>(read: &R, base: u64, off: u64, n: usize) -> (r:
    Option<Vec<u8>>)
    requires
        vmo::is_reader(*read),
    ensures
        forall|image: vmo::Vmo| #[trigger]
            vmo::follows(*read, image) ==> vmo::answer(r) == ask(image, base + off, n as int),
        r matches Some(v) ==> v@.len() == n,
{
    match base.checked_add(off) {
        None => None,
        Some(at) => (*read)(at, n),
    }
}

/// Reads the allocation table's entry for a cluster.
fn fat_entry<R: Fn(u64, usize) -> Option<Vec<u8>>>(
    read: &R,
    base: u64,
    l: Layout,
    cluster: u32,
) -> (r: Option<u32>)
    requires
        vmo::is_reader(*read),
        l.wf(),
    ensures
        forall|image: vmo::Vmo| #[trigger]
            vmo::follows(*read, image) ==> r == next_cluster(image, base as int, l, cluster),
{
    let bps: u64 = l.bytes_per_sector;
    if bps == 0 {
        return None;
    }
    let entry: u64 = 4 * (cluster as u64);
    let idx: u64 = entry % bps;
    if idx + 4 > 512 {
        return None;
    }
    proof {
        lemma_layout_bounds(l, cluster);
        vstd::arithmetic::div_mod::lemma_fundamental_div_mod(entry as int, bps as int);
        assert((entry as int / bps as int) * (bps as int) == (bps as int) * (entry as int
            / bps as int)) by (nonlinear_arith);
    }
    let off: u64 = l.reserved_sectors * bps + (entry - idx);
    match ask_at(read, base, off, SECTOR_LEN) {
        None => None,
        Some(sector) => Some(bytes::read_u32(&sector, idx as usize)),
    }
}

/// Resolves a path in the root directory of the disk image and stores up to
/// `req_len` of the file's bytes from `file_off` on in `out`. Returns how many
/// were stored; zero stands for every failure.
#[verifier::rlimit(40)]
pub fn serve_file_read_at<R: Fn(u64, usize) -> Option<Vec<u8>>>(
    read: &R,
    path: &[u8],
    file_off: u64,
    req_len: u64,
    out: &mut [u8; 512],
) -> (n: usize)
    requires
        vmo::is_reader(*read),
    ensures
        n <= 512,
        forall|image: vmo::Vmo| #[trigger]
            vmo::follows(*read, image) ==> final(out)@ == bytes::overwrite(
                old(out)@,
                0,
                file_read_at(image, path@, file_off, req_len),
            ) && n == file_read_at(image, path@, file_off, req_len).len(),
{
    let ghost before = out@;
    assert(bytes::overwrite(before, 0, Seq::<u8>::empty()) =~= before);
    let name = match path_to_8_3(path) {
        None => return 0,
        Some(name) => name,
    };
    let fat_path: [u8; 13] = [
        0x62, 0x69, 0x6e, 0x2f, 0x66, 0x61, 0x74, 0x33, 0x32, 0x2e, 0x69, 0x6d, 0x67,
    ];
    assert(fat_path@ =~= image_path());
    let base: u64 = match initrd::find_initrd_file(read, &fat_path) {
        None => return 0,
        Some((off, _)) => off,
    };
    if base == 0 {
        return 0;
    }
    let boot = match ask_at(read, base, 0, SECTOR_LEN) {
        None => return 0,
        Some(boot) => boot,
    };
    let l: Layout = parse_layout(&boot);
    proof {
        lemma_layout_bounds(l, 0);
    }
    let bps: u64 = l.bytes_per_sector;
    let data_start: u64 = l.reserved_sectors + l.fat_count * l.sectors_per_fat;
    let dir = match ask_at(read, base, data_start * bps, SECTOR_LEN) {
        None => return 0,
        Some(dir) => dir,
    };
    let (first, size): (u32, u32) = match find_entry(&dir, &name) {
        None => return 0,
        Some(file) => file,
    };
    if first == 0 || file_off >= size as u64 {
        return 0;
    }
    let left: u64 = size as u64 - file_off;
    let cap: u64 = if req_len < 512 {
        req_len
    } else {
        512
    };
    let max_len: usize = if left < cap {
        left as usize
    } else {
        cap as usize
    };
    let cluster_len: u64 = l.sectors_per_cluster * bps;
    if cluster_len == 0 {
        return 0;
    }
    let mut cluster: u32 = first;
    let mut skip: u64 = file_off;
    while skip >= cluster_len && cluster >= 2 && cluster < CHAIN_END
        invariant
            vmo::is_reader(*read),
            l.wf(),
            cluster_len == l.cluster_len(),
            cluster_len > 0,
            out@ == before,
            before == old(out)@,
            bytes::overwrite(before, 0, Seq::<u8>::empty()) == before,
            forall|image: vmo::Vmo| #[trigger]
                vmo::follows(*read, image) ==> file_read_at(image, path@, file_off, req_len)
                    == match seek(image, base as int, l, cluster, skip as int) {
                    None => Seq::empty(),
                    Some((at, rest)) => read_chain(image, base as int, l, at, rest, max_len as int),
                },
        decreases skip,
    {
        match fat_entry(read, base, l, cluster) {
            None => return 0,
            Some(next) => {
                skip = skip - cluster_len;
                cluster = next;
            },
        }
    }
    let mut written: usize = 0;
    let ghost mut done: Seq<u8> = Seq::empty();
    while cluster >= 2 && cluster < CHAIN_END && written < max_len
        invariant
            vmo::is_reader(*read),
            l.wf(),
            cluster_len == l.cluster_len(),
            cluster_len > 0,
            bps == l.bytes_per_sector,
            data_start == l.data_start(),
            in_chain(cluster) ==> skip < cluster_len,
            written <= max_len,
            max_len <= 512,
            written == done.len(),
            before == old(out)@,
            out@ == bytes::overwrite(before, 0, done),
            forall|image: vmo::Vmo| #[trigger]
                vmo::follows(*read, image) ==> file_read_at(image, path@, file_off, req_len)
                    == done + read_chain(
                    image,
                    base as int,
                    l,
                    cluster,
                    skip as int,
                    max_len - written,
                ),
        decreases max_len - written,
    {
        proof {
            lemma_layout_bounds(l, cluster);
            assert(done + Seq::<u8>::empty() =~= done);
        }
        let sec: u64 = data_start + (cluster as u64 - 2) * l.sectors_per_cluster;
        let room: u64 = cluster_len - skip;
        let want: usize = max_len - written;
        let to_read: usize = if room < want as u64 {
            room as usize
        } else {
            want
        };
        let data = match ask_at(read, base, sec * bps + skip, to_read) {
            None => return written,
            Some(data) => data,
        };
        let ghost prev = done;
        bytes::put_bytes(out, written, &data);
        proof {
            done = done + data@;
            assert(out@ =~= bytes::overwrite(before, 0, done));
            assert(done + Seq::<u8>::empty() =~= done);
        }
        written = written + to_read;
        let ghost at = cluster;
        let ghost from = skip;
        match fat_entry(read, base, l, cluster) {
            None => return written,
            Some(next) => {
                cluster = next;
                skip = 0;
            },
        }
        proof {
            assert forall|image: vmo::Vmo| #[trigger] vmo::follows(*read, image) implies file_read_at(
                image,
                path@,
                file_off,
                req_len,
            ) == done + read_chain(image, base as int, l, cluster, 0, max_len - written) by {
                let rest = read_chain(image, base as int, l, cluster, 0, max_len - written);
                assert(prev + (data@ + rest) =~= done + rest);
            }
        }
    }
    assert(done + Seq::<u8>::empty() =~= done);
    written
}

/// Reads a file of the disk image from its start.
pub fn serve_file_read<R: Fn(u64, usize) -> Option<Vec<u8>>>(
    read: &R,
    path: &[u8],
    out: &mut [u8; 512],
) -> (n: usize)
    requires
        vmo::is_reader(*read),
    ensures
        n <= 512,
        forall|image: vmo::Vmo| #[trigger]
            vmo::follows(*read, image) ==> final(out)@ == bytes::overwrite(
                old(out)@,
                0,
                file_read_at(image, path@, 0, 512),
            ) && n == file_read_at(image, path@, 0, 512).len(),
{
    serve_file_read_at(read, path, 0, 512, out)
}

/// The names in the first sector of the root directory of the disk image in the
/// boot image. `None` where there is no image or it cannot be read.
pub open spec fn root_listing(image: vmo::Vmo) -> Option<Seq<u8>> {
    match initrd::find_file(image, image_path()) {
        None => None,
        Some((base, _)) => if base == 0 {
            None
        } else {
            match ask(image, base as int, 512) {
                None => None,
                Some(boot) => {
                    let l = layout_of(boot);
                    if l.root_cluster < 2 {
                        None
                    } else {
                        match ask(image, base + l.cluster_offset(l.root_cluster as int), 512) {
                            None => None,
                            Some(dir) => Some(listing_from(dir, 0)),
                        }
                    }
                },
            }
        },
    }
}

/// Lists the root directory of the disk image, one name per line.
pub fn list_root<R: Fn(u64, usize) -> Option<Vec<u8>>>(read: &R) -> (r: Option<Vec<u8>>)
    requires
        vmo::is_reader(*read),
    ensures
        forall|image: vmo::Vmo| #[trigger]
            vmo::follows(*read, image) ==> vmo::answer(r) == root_listing(image),
{
    let fat_path: [u8; 13] = [
        0x62, 0x69, 0x6e, 0x2f, 0x66, 0x61, 0x74, 0x33, 0x32, 0x2e, 0x69, 0x6d, 0x67,
    ];
    assert(fat_path@ =~= image_path());
    let base: u64 = match initrd::find_initrd_file(read, &fat_path) {
        None => return None,
        Some((off, _)) => off,
    };
    if base == 0 {
        return None;
    }
    let boot: Vec<u8> = match ask_at(read, base, 0, SECTOR_LEN) {
        None => return None,
        Some(v) => v,
    };
    let l: Layout = parse_layout(&boot);
    if l.root_cluster < 2 {
        return None;
    }
    proof {
        lemma_layout_bounds(l, l.root_cluster as u32);
    }
    let data_start: u64 = l.reserved_sectors + l.fat_count * l.sectors_per_fat;
    let sector: u64 = data_start + (l.root_cluster - 2) * l.sectors_per_cluster;
    let dir: Vec<u8> = match ask_at(read, base, sector * l.bytes_per_sector, SECTOR_LEN) {
        None => return None,
        Some(v) => v,
    };
    Some(list_sector(&dir))
}

/// Part of a chain's data, within its first cluster's reach, is the same part
/// of all of it.
proof fn lemma_chain_part(
    img: Seq<u8>,
    base: int,
    l: Layout,
    cluster: u32,
    total: int,
    skip: int,
    want: int,
)
    requires
        l.wf(),
        base >= 0,
        img.len() <= u64::MAX,
        0 <= skip < l.cluster_len(),
        0 <= want,
        skip + want <= total <= usize::MAX,
        read_chain(vmo::image_vmo(img), base, l, cluster, 0, total).len() == total,
    ensures
        read_chain(vmo::image_vmo(img), base, l, cluster, skip, want) == read_chain(
            vmo::image_vmo(img),
            base,
            l,
            cluster,
            0,
            total,
        ).subrange(skip, skip + want),
    decreases total,
{
    let image = vmo::image_vmo(img);
    let whole = read_chain(image, base, l, cluster, 0, total);
    if want > 0 {
        let cl = l.cluster_len();
        let at = base + l.cluster_offset(cluster as int);
        lemma_layout_bounds(l, cluster);
        let n0 = if cl < total {
            cl
        } else {
            total
        };
        let n = if cl - skip < want {
            cl - skip
        } else {
            want
        };
        assert(ask(image, at, n0) is Some);
        assert(ask(image, at + skip, n) is Some);
        let data0 = ask(image, at, n0)->0;
        let data = ask(image, at + skip, n)->0;
        assert(data =~= data0.subrange(skip, skip + n));
        match next_cluster(image, base, l, cluster) {
            None => {
                assert(whole =~= data0);
                assert(read_chain(image, base, l, cluster, skip, want) =~= data);
            },
            Some(next) => {
                let rest0 = read_chain(image, base, l, next, 0, total - n0);
                let rest = read_chain(image, base, l, next, 0, want - n);
                assert(whole == data0 + rest0);
                if want - n > 0 {
                    lemma_chain_part(img, base, l, next, total - n0, 0, want - n);
                    assert(rest == rest0.subrange(0, want - n));
                } else {
                    assert(rest =~= Seq::<u8>::empty());
                }
                assert(data + rest =~= whole.subrange(skip, skip + want));
            },
        }
    } else {
        assert(read_chain(image, base, l, cluster, skip, want) =~= whole.subrange(
            skip,
            skip + want,
        ));
    }
}

/// Seeking in a chain finds the cluster that holds the byte sought.
proof fn lemma_seek_part(
    img: Seq<u8>,
    base: int,
    l: Layout,
    cluster: u32,
    total: int,
    off: int,
    want: int,
)
    requires
        l.wf(),
        base >= 0,
        img.len() <= u64::MAX,
        l.cluster_len() > 0,
        0 <= off < total,
        0 <= want,
        off + want <= total <= usize::MAX,
        read_chain(vmo::image_vmo(img), base, l, cluster, 0, total).len() == total,
    ensures
        seek(vmo::image_vmo(img), base, l, cluster, off) matches Some((at, skip)) && read_chain(
            vmo::image_vmo(img),
            base,
            l,
            at,
            skip,
            want,
        ) == read_chain(vmo::image_vmo(img), base, l, cluster, 0, total).subrange(off, off + want),
    decreases off,
{
    let image = vmo::image_vmo(img);
    let whole = read_chain(image, base, l, cluster, 0, total);
    let cl = l.cluster_len();
    if off >= cl {
        let data0 = ask(image, base + l.cluster_offset(cluster as int), cl)->0;
        match next_cluster(image, base, l, cluster) {
            None => {
                assert(whole =~= data0);
                assert(false);
            },
            Some(next) => {
                let rest = read_chain(image, base, l, next, 0, total - cl);
                assert(whole == data0 + rest);
                lemma_seek_part(img, base, l, next, total - cl, off - cl, want);
                assert(rest.subrange(off - cl, off - cl + want) =~= whole.subrange(
                    off,
                    off + want,
                ));
            },
        }
    } else {
        lemma_chain_part(img, base, l, cluster, total, off, want);
    }
}

/// A read at any offset of a file returns the bytes that lie there in the file
/// as a whole, for every volume whose chain holds as many bytes as the
/// directory says.
pub proof fn reads_are_parts_of_the_file(
    img: Seq<u8>,
    base: int,
    l: Layout,
    cluster: u32,
    size: u32,
    file_off: u64,
    req_len: u64,
)
    requires
        l.wf(),
        base >= 0,
        img.len() <= u64::MAX,
        l.cluster_len() > 0,
        file_off < size,
        read_chain(vmo::image_vmo(img), base, l, cluster, 0, size as int).len() == size,
    ensures
        read_file(vmo::image_vmo(img), base, l, cluster, size, file_off, req_len) == read_chain(
            vmo::image_vmo(img),
            base,
            l,
            cluster,
            0,
            size as int,
        ).subrange(file_off as int, file_off + granted(file_off, req_len, size)),
{
    lemma_seek_part(
        img,
        base,
        l,
        cluster,
        size as int,
        file_off as int,
        granted(file_off, req_len, size),
    );
}

/// Entry `k` of a directory sector carries a name: it is neither a part of a long name nor a volume
/// label, and its first eleven bytes are the name.
pub open spec fn carries(dir: Seq<u8>, k: int, name: Seq<u8>) -> bool {
    &&& dir[32 * k + 11] != 0x0f
    &&& dir[32 * k + 11] != 0x08
    &&& forall|j: int| 0 <= j < 11 ==> dir[32 * k + j] == #[trigger] name[j]
}

/// The first byte of entry `k`.
pub open spec fn first_byte(dir: Seq<u8>, k: int) -> u8 {
    dir[32 * k]
}

/// The directory goes on to entry `k`: no entry up to it starts with a zero byte.
pub open spec fn reaches(dir: Seq<u8>, k: int) -> bool {
    forall|z: int| 0 <= z <= k ==> #[trigger] first_byte(dir, z) != 0
}

proof fn lemma_carries(dir: Seq<u8>, k: int, name: Seq<u8>)
    requires
        dir.len() == 512,
        name.len() == 11,
        0 <= k < 16,
    ensures
        carries(dir, k, name) <==> is_listed(dir, 32 * k) && dir.subrange(32 * k, 32 * k + 11)
            == name,
{
    let part = dir.subrange(32 * k, 32 * k + 11);
    if carries(dir, k, name) {
        assert forall|j: int| 0 <= j < 11 implies part[j] == name[j] by {
            assert(dir[32 * k + j] == name[j]);
        }
        assert(part =~= name);
    }
    if part == name {
        assert forall|j: int| 0 <= j < 11 implies dir[32 * k + j] == #[trigger] name[j] by {
            assert(part[j] == dir[32 * k + j]);
        }
    }
}

proof fn lemma_find_first(dir: Seq<u8>, name: Seq<u8>, m: int, k: int)
    requires
        dir.len() == 512,
        name.len() == 11,
        0 <= m <= k < 16,
        reaches(dir, k),
        carries(dir, k, name),
        forall|e: int| 0 <= e < k ==> !#[trigger] carries(dir, e, name),
    ensures
        find_in_sector(dir, name, 32 * m) == Some(entry_file(dir, 32 * k)),
    decreases k - m,
{
    assert(first_byte(dir, m) != 0);
    lemma_carries(dir, m, name);
    if m < k {
        assert(!carries(dir, m, name));
        lemma_find_first(dir, name, m + 1, k);
    }
}

proof fn lemma_find_none(dir: Seq<u8>, name: Seq<u8>, m: int, k: int)
    requires
        dir.len() == 512,
        name.len() == 11,
        0 <= m <= k < 16,
        find_in_sector(dir, name, 32 * m) is None,
        reaches(dir, k),
    ensures
        !carries(dir, k, name),
    decreases k - m,
{
    assert(first_byte(dir, m) != 0);
    lemma_carries(dir, m, name);
    if m < k {
        lemma_find_none(dir, name, m + 1, k);
    }
}

proof fn lemma_find_some(dir: Seq<u8>, name: Seq<u8>, m: int) -> (k: int)
    requires
        dir.len() == 512,
        name.len() == 11,
        0 <= m <= 16,
        forall|z: int| 0 <= z < m ==> #[trigger] first_byte(dir, z) != 0,
        find_in_sector(dir, name, 32 * m) is Some,
    ensures
        m <= k < 16,
        reaches(dir, k),
        carries(dir, k, name),
    decreases 16 - m,
{
    lemma_carries(dir, m, name);
    if carries(dir, m, name) {
        assert(reaches(dir, m));
        m
    } else {
        lemma_find_some(dir, name, m + 1)
    }
}

/// A lookup returns the first cluster and the size of the first of the sixteen entries that carries
/// the name, of those before the first entry that starts with a zero byte; nothing just where none
/// of them does. The cluster's high half is in bytes 20 and 21 of the entry and its low half in bytes
/// 26 and 27, the size is in bytes 28 to 31, low bytes first.
pub proof fn lookups_find_the_first_entry(dir: Seq<u8>, name: Seq<u8>, k: int)
    requires
        dir.len() == 512,
        name.len() == 11,
    ensures
        0 <= k < 16 && reaches(dir, k) && carries(dir, k, name) && (forall|e: int|
            0 <= e < k ==> !#[trigger] carries(dir, e, name)) ==> {
            let r = find_in_sector(dir, name, 0);
            let (cluster, size) = r->0;
            &&& r is Some
            &&& cluster == 0x1_0000 * (dir[32 * k + 20] + 0x100 * dir[32 * k + 21]) + (dir[32 * k
                + 26] + 0x100 * dir[32 * k + 27])
            &&& size == dir[32 * k + 28] + 0x100 * dir[32 * k + 29] + 0x1_0000 * dir[32 * k + 30]
                + 0x100_0000 * dir[32 * k + 31]
        },
        find_in_sector(dir, name, 0) is None <==> forall|e: int|
            0 <= e < 16 && reaches(dir, e) ==> !#[trigger] carries(dir, e, name),
{
    if 0 <= k < 16 && reaches(dir, k) && carries(dir, k, name) && (forall|e: int|
        0 <= e < k ==> !#[trigger] carries(dir, e, name)) {
        lemma_find_first(dir, name, 0, k);
    }
    if find_in_sector(dir, name, 0) is None {
        assert forall|e: int| 0 <= e < 16 && reaches(dir, e) implies !#[trigger] carries(
            dir,
            e,
            name,
        ) by {
            lemma_find_none(dir, name, 0, e);
        }
    } else {
        let found = lemma_find_some(dir, name, 0);
        assert(carries(dir, found, name));
    }
}

/// A path of a base, a dot and an extension has a short name just where the base is one to eight
/// bytes long and the extension three at most; the name is the base, spaces up to eight bytes, the
/// extension and spaces up to eleven. A path without a dot is a base alone.
pub proof fn short_names_are_padded(base: Seq<u8>, ext: Seq<u8>, i: int)
    requires
        forall|j: int| 0 <= j < base.len() ==> #[trigger] base[j] != 0x2e,
        0 <= i < 11,
    ensures
        ({
            let path = base + seq![0x2eu8] + ext;
            &&& has_short_name(path) <==> 1 <= base.len() <= 8 && ext.len() <= 3
            &&& has_short_name(base) <==> 1 <= base.len() <= 8
            &&& short_name(path).len() == 11
            &&& short_name(base).len() == 11
            &&& i < 8 && i < base.len() ==> short_name(path)[i] == base[i] && short_name(base)[i]
                == base[i]
            &&& base.len() <= i < 8 ==> short_name(path)[i] == 0x20 && short_name(base)[i] == 0x20
            &&& 8 <= i < 8 + ext.len() ==> short_name(path)[i] == ext[i - 8]
            &&& 8 + ext.len() <= i ==> short_name(path)[i] == 0x20
            &&& 8 <= i ==> short_name(base)[i] == 0x20
        }),
{
    let path = base + seq![0x2eu8] + ext;
    assert forall|j: int| 0 <= j < base.len() implies path[j] != 0x2e by {
        assert(path[j] == base[j]);
    }
    bytes::lemma_first_index(path, 0x2e, base.len() as int);
    bytes::lemma_first_index(base, 0x2e, base.len() as int);
    assert(base_name(path) =~= base);
    assert(extension(path) =~= ext);
    assert(base_name(base) =~= base);
    assert(extension(base) =~= Seq::empty());
}

/// Where a boot sector states its geometry, low bytes first.
pub proof fn boot_sectors_state_the_geometry(sector: Seq<u8>)
    requires
        sector.len() == 512,
    ensures
        layout_of(sector).wf(),
        layout_of(sector).bytes_per_sector == sector[11] + 0x100 * sector[12],
        layout_of(sector).sectors_per_cluster == sector[13],
        layout_of(sector).reserved_sectors == sector[14] + 0x100 * sector[15],
        layout_of(sector).fat_count == sector[16],
        layout_of(sector).sectors_per_fat == sector[36] + 0x100 * sector[37] + 0x1_0000 * sector[38]
            + 0x100_0000 * sector[39],
        layout_of(sector).root_cluster == sector[44] + 0x100 * sector[45] + 0x1_0000 * sector[46]
            + 0x100_0000 * sector[47],
{
}

/// A volume holds its reserved sectors, then its allocation tables, then cluster 2 and, one behind
/// the other, those that follow it.
pub proof fn clusters_lie_behind_the_tables(l: Layout, c: int)
    ensures
        l.fat_offset() == l.bytes_per_sector * l.reserved_sectors,
        l.cluster_offset(2) == l.bytes_per_sector * (l.reserved_sectors + l.sectors_per_fat
            * l.fat_count),
        l.cluster_offset(c + 1) == l.cluster_offset(c) + l.bytes_per_sector
            * l.sectors_per_cluster,
        l.cluster_len() == l.bytes_per_sector * l.sectors_per_cluster,
{
    let bps = l.bytes_per_sector as int;
    let spc = l.sectors_per_cluster as int;
    let nf = l.fat_count as int;
    let spf = l.sectors_per_fat as int;
    let rs = l.reserved_sectors as int;
    let ds = rs + nf * spf;
    assert(rs * bps == bps * rs) by (nonlinear_arith);
    assert(spc * bps == bps * spc) by (nonlinear_arith);
    assert(nf * spf == spf * nf) by (nonlinear_arith);
    assert((ds + 0 * spc) * bps == bps * ds) by (nonlinear_arith);
    assert((ds + (c + 1 - 2) * spc) * bps == (ds + (c - 2) * spc) * bps + bps * spc)
        by (nonlinear_arith);
}

/// The bytes of a run of clusters on a volume at `base`: each is a data cluster that lies in the
/// image, and the allocation table's entry for it, four bytes at four times its number, low byte
/// first, is the cluster behind it.
pub open spec fn is_chain(img: Seq<u8>, base: int, l: Layout, chain: Seq<u32>) -> bool {
    &&& forall|j: int|
        0 <= j < chain.len() ==> 2 <= #[trigger] chain[j] && chain[j] < 0x0fff_fff8 && base
            + l.cluster_offset(chain[j] as int) + l.cluster_len() <= img.len()
    &&& forall|j: int|
        0 <= j < chain.len() - 1 ==> {
            let entry = 4 * #[trigger] chain[j];
            let within = entry % (l.bytes_per_sector as int);
            let at = base + l.fat_offset() + entry;
            &&& within + 4 <= 512
            &&& at - within + 512 <= img.len()
            &&& chain[j + 1] == img[at] + 0x100 * img[at + 1] + 0x1_0000 * img[at + 2] + 0x100_0000
                * img[at + 3]
        }
}

proof fn lemma_next_in_chain(img: Seq<u8>, base: int, l: Layout, chain: Seq<u32>, j: int)
    requires
        l.wf(),
        l.cluster_len() > 0,
        base >= 0,
        img.len() <= u64::MAX,
        is_chain(img, base, l, chain),
        0 <= j < chain.len() - 1,
    ensures
        next_cluster(vmo::image_vmo(img), base, l, chain[j]) == Some(chain[j + 1]),
{
    let bps = l.bytes_per_sector as int;
    assert(bps > 0) by (nonlinear_arith)
        requires
            l.sectors_per_cluster * bps > 0,
            bps >= 0,
    ;
    let entry = 4 * chain[j] as int;
    let within = entry % bps;
    vstd::arithmetic::div_mod::lemma_fundamental_div_mod(entry, bps);
    assert((entry / bps) * bps == bps * (entry / bps)) by (nonlinear_arith);
    lemma_layout_bounds(l, 0);
    let at = base + l.fat_offset() + entry - within;
    let image = vmo::image_vmo(img);
    assert(at == base + l.fat_offset() + (entry / bps) * bps);
    assert((entry / bps) * bps >= 0) by (nonlinear_arith)
        requires
            entry >= 0,
            bps > 0,
    ;
    assert(ask(image, at, 512) == Some(img.subrange(at, at + 512)));
    let sector = img.subrange(at, at + 512);
    assert(sector[within] == img[at + within]);
    assert(sector[within + 1] == img[at + within + 1]);
    assert(sector[within + 2] == img[at + within + 2]);
    assert(sector[within + 3] == img[at + within + 3]);
}

proof fn lemma_seek_at(img: Seq<u8>, base: int, l: Layout, chain: Seq<u32>, j: int, skip: int)
    requires
        l.wf(),
        l.cluster_len() > 0,
        base >= 0,
        img.len() <= u64::MAX,
        is_chain(img, base, l, chain),
        0 <= j,
        0 <= skip,
        j + skip / l.cluster_len() < chain.len(),
    ensures
        seek(vmo::image_vmo(img), base, l, chain[j], skip) == Some(
            (chain[j + skip / l.cluster_len()], skip % l.cluster_len()),
        ),
    decreases skip,
{
    let cl = l.cluster_len();
    if skip >= cl {
        vstd::arithmetic::div_mod::lemma_div_plus_one(skip - cl, cl);
        vstd::arithmetic::div_mod::lemma_mod_add_multiples_vanish(skip - cl, cl);
        vstd::arithmetic::div_mod::lemma_div_pos_is_pos(skip - cl, cl);
        assert(chain[j] >= 2);
        lemma_next_in_chain(img, base, l, chain, j);
        lemma_seek_at(img, base, l, chain, j + 1, skip - cl);
    } else {
        vstd::arithmetic::div_mod::lemma_basic_div(skip, cl);
        vstd::arithmetic::div_mod::lemma_small_mod(skip as nat, cl as nat);
    }
}

proof fn lemma_read_at(
    img: Seq<u8>,
    base: int,
    l: Layout,
    chain: Seq<u32>,
    j: int,
    skip: int,
    want: int,
)
    requires
        l.wf(),
        l.cluster_len() > 0,
        base >= 0,
        img.len() <= u64::MAX,
        is_chain(img, base, l, chain),
        0 <= j < chain.len(),
        0 <= skip < l.cluster_len(),
        0 <= want <= usize::MAX,
        skip + want <= (chain.len() - j) * l.cluster_len(),
    ensures
        ({
            let r = read_chain(vmo::image_vmo(img), base, l, chain[j], skip, want);
            &&& r.len() == want
            &&& forall|i: int|
                0 <= i < want ==> #[trigger] r[i] == img[base + l.cluster_offset(
                    chain[j + (skip + i) / l.cluster_len()] as int,
                ) + (skip + i) % l.cluster_len()]
        }),
    decreases want,
{
    let image = vmo::image_vmo(img);
    let cl = l.cluster_len();
    let c = chain[j];
    assert(chain[j] >= 2);
    if want > 0 {
        let room = cl - skip;
        let n = if room < want {
            room
        } else {
            want
        };
        lemma_layout_bounds(l, c);
        let at = base + l.cluster_offset(c as int) + skip;
        assert(ask(image, at, n) == Some(img.subrange(at, at + n)));
        let data = img.subrange(at, at + n);
        let r = read_chain(image, base, l, c, skip, want);
        if room < want {
            assert(j + 1 < chain.len()) by (nonlinear_arith)
                requires
                    cl < skip + want,
                    skip + want <= (chain.len() - j) * cl,
                    cl > 0,
            ;
            lemma_next_in_chain(img, base, l, chain, j);
            assert((chain.len() - (j + 1)) * cl == (chain.len() - j) * cl - cl)
                by (nonlinear_arith);
            lemma_read_at(img, base, l, chain, j + 1, 0, want - n);
            let rest = read_chain(image, base, l, chain[j + 1], 0, want - n);
            assert(r == data + rest);
            assert forall|i: int| 0 <= i < want implies #[trigger] r[i] == img[base
                + l.cluster_offset(chain[j + (skip + i) / cl] as int) + (skip + i) % cl] by {
                if i < n {
                    vstd::arithmetic::div_mod::lemma_basic_div(skip + i, cl);
                    vstd::arithmetic::div_mod::lemma_small_mod((skip + i) as nat, cl as nat);
                    assert(data[i] == img[at + i]);
                } else {
                    let k = i - n;
                    assert(skip + i == k + cl);
                    vstd::arithmetic::div_mod::lemma_div_plus_one(k, cl);
                    vstd::arithmetic::div_mod::lemma_mod_add_multiples_vanish(k, cl);
                    assert(rest[k] == img[base + l.cluster_offset(
                        chain[j + 1 + (0 + k) / cl] as int,
                    ) + (0 + k) % cl]);
                }
            }
        } else {
            match next_cluster(image, base, l, c) {
                None => {},
                Some(next) => {
                    assert(read_chain(image, base, l, next, 0, want - n) =~= Seq::empty());
                },
            }
            assert(data + Seq::<u8>::empty() =~= data);
            assert(r == data);
            assert forall|i: int| 0 <= i < want implies #[trigger] r[i] == img[base
                + l.cluster_offset(chain[j + (skip + i) / cl] as int) + (skip + i) % cl] by {
                vstd::arithmetic::div_mod::lemma_basic_div(skip + i, cl);
                vstd::arithmetic::div_mod::lemma_small_mod((skip + i) as nat, cl as nat);
                assert(data[i] == img[at + i]);
            }
        }
    }
}

/// A request returns no more bytes than it asks for, than a sector holds and than the file has left;
/// of these three, the least.
pub proof fn requests_are_granted_up_to_a_sector(file_off: u64, req_len: u64, size: u32)
    requires
        file_off < size,
    ensures
        granted(file_off, req_len, size) <= req_len,
        granted(file_off, req_len, size) <= 512,
        file_off + granted(file_off, req_len, size) <= size,
        granted(file_off, req_len, size) == req_len || granted(file_off, req_len, size) == 512
            || file_off + granted(file_off, req_len, size) == size,
{
}

/// A read of a file returns the bytes that the file's clusters hold: byte `i` of the reply is byte
/// `file_off + i` of the file, which lies in the cluster of the chain that stands at that offset
/// divided by a cluster's length.
pub proof fn files_are_read_along_their_chain(
    img: Seq<u8>,
    base: int,
    l: Layout,
    chain: Seq<u32>,
    size: u32,
    file_off: u64,
    req_len: u64,
    i: int,
)
    requires
        l.wf(),
        l.sectors_per_cluster > 0 && l.bytes_per_sector > 0,
        base >= 0,
        img.len() <= u64::MAX,
        chain.len() > 0,
        is_chain(img, base, l, chain),
        size <= chain.len() * (l.sectors_per_cluster * l.bytes_per_sector),
        file_off < size,
        0 <= i < req_len,
        i < 512,
        file_off + i < size,
    ensures
        ({
            let r = read_file(
                vmo::image_vmo(img),
                base,
                l,
                chain[0],
                size,
                file_off,
                req_len,
            );
            let cl = l.sectors_per_cluster * l.bytes_per_sector;
            let c = chain[(file_off + i) / cl];
            &&& r.len() == granted(file_off, req_len, size)
            &&& r[i] == img[base + (l.reserved_sectors + l.fat_count * l.sectors_per_fat + (c - 2)
                * l.sectors_per_cluster) * l.bytes_per_sector + (file_off + i) % cl]
        }),
{
    let cl = l.cluster_len();
    assert(cl > 0) by (nonlinear_arith)
        requires
            cl == l.sectors_per_cluster * l.bytes_per_sector,
            l.sectors_per_cluster > 0,
            l.bytes_per_sector > 0,
    ;
    let off = file_off as int;
    let j = off / cl;
    let skip = off % cl;
    vstd::arithmetic::div_mod::lemma_fundamental_div_mod(off, cl);
    vstd::arithmetic::div_mod::lemma_div_pos_is_pos(off, cl);
    vstd::arithmetic::div_mod::lemma_mod_bound(off, cl);
    assert(j < chain.len()) by (nonlinear_arith)
        requires
            off == cl * j + skip,
            skip >= 0,
            off < chain.len() * cl,
            cl > 0,
    ;
    lemma_seek_at(img, base, l, chain, 0, off);
    let want = granted(file_off, req_len, size);
    assert(skip + want <= (chain.len() - j) * cl) by (nonlinear_arith)
        requires
            off == cl * j + skip,
            off + want <= chain.len() * cl,
    ;
    lemma_read_at(img, base, l, chain, j, skip, want);
    assert(chain[0] >= 2);
    let r = read_chain(vmo::image_vmo(img), base, l, chain[j], skip, want);
    assert(r[i] == img[base + l.cluster_offset(chain[j + (skip + i) / cl] as int) + (skip + i)
        % cl]);
    assert((off + i) == (skip + i) + cl * j);
    vstd::arithmetic::div_mod::lemma_hoist_over_denominator(skip + i, j, cl as nat);
    assert(j * cl == cl * j) by (nonlinear_arith);
    vstd::arithmetic::div_mod::lemma_mod_multiples_vanish(j, skip + i, cl);
}

/// The line that a listing has for entry `k`: its name and a newline, or nothing for a part of a
/// long name, a volume label and an entry without a base.
pub open spec fn entry_line(dir: Seq<u8>, k: int) -> Seq<u8> {
    if dir[32 * k + 11] == 0x0f || dir[32 * k + 11] == 0x08 || dir[32 * k] == 0x20 {
        Seq::empty()
    } else {
        listed_name(dir, 32 * k) + seq![0x0au8]
    }
}

proof fn lemma_listing(dir: Seq<u8>, m: int, n: int)
    requires
        dir.len() == 512,
        0 <= m <= n <= 16,
        forall|z: int| 0 <= z < n ==> #[trigger] first_byte(dir, z) != 0,
        n < 16 ==> first_byte(dir, n) == 0,
    ensures
        listing_from(dir, 32 * m) == Seq::new(
            (n - m) as nat,
            |k: int| entry_line(dir, m + k),
        ).flatten(),
    decreases n - m,
{
    let lines = Seq::new((n - m) as nat, |k: int| entry_line(dir, m + k));
    if m < n {
        assert(first_byte(dir, m) != 0);
        lemma_listing(dir, m + 1, n);
        let later = Seq::new((n - (m + 1)) as nat, |k: int| entry_line(dir, m + 1 + k));
        assert(lines.drop_first() =~= later);
        let base = dir.subrange(32 * m, 32 * m + 8);
        let ext = dir.subrange(32 * m + 8, 32 * m + 11);
        bytes::lemma_first_index_bounds(base, 0x20);
        bytes::lemma_first_index_bounds(ext, 0x20);
        assert(base[0] == dir[32 * m]);
        if base[0] == 0x20 {
            bytes::lemma_first_index(base, 0x20, 0);
        }
        let rest = listing_from(dir, 32 * (m + 1));
        assert(lines.first() == entry_line(dir, m));
        assert(Seq::<u8>::empty() + rest =~= rest);
    } else {
        assert(lines =~= Seq::empty());
        assert(n == 16 || first_byte(dir, n) == 0);
    }
}

/// A listing has one line for every entry before the first that starts with a zero byte, in the
/// order of the entries.
pub proof fn listings_hold_every_name(dir: Seq<u8>, n: int)
    requires
        dir.len() == 512,
        0 <= n <= 16,
        forall|z: int| 0 <= z < n ==> #[trigger] first_byte(dir, z) != 0,
        n < 16 ==> first_byte(dir, n) == 0,
    ensures
        listing_from(dir, 0) == Seq::new(n as nat, |k: int| entry_line(dir, k)).flatten(),
{
    lemma_listing(dir, 0, n);
    assert(Seq::new((n - 0) as nat, |k: int| entry_line(dir, 0 + k)) =~= Seq::new(
        n as nat,
        |k: int| entry_line(dir, k),
    ));
}

/// The name that a listing shows is an entry's first eight bytes up to the first space and, where
/// the next three bytes do not begin with one, a dot and these up to theirs.
pub proof fn listed_names_lose_their_padding(dir: Seq<u8>, pos: int, n: int, e: int)
    requires
        0 <= pos,
        pos + 11 <= dir.len(),
        1 <= n <= 8,
        0 <= e <= 3,
        forall|i: int| pos <= i < pos + n ==> #[trigger] dir[i] != 0x20,
        n < 8 ==> dir[pos + n] == 0x20,
        forall|i: int| pos + 8 <= i < pos + 8 + e ==> #[trigger] dir[i] != 0x20,
        e < 3 ==> dir[pos + 8 + e] == 0x20,
    ensures
        e == 0 ==> listed_name(dir, pos) == dir.subrange(pos, pos + n),
        e > 0 ==> listed_name(dir, pos) == dir.subrange(pos, pos + n) + seq![0x2eu8]
            + dir.subrange(pos + 8, pos + 8 + e),
{
    let base = dir.subrange(pos, pos + 8);
    let ext = dir.subrange(pos + 8, pos + 11);
    assert forall|i: int| 0 <= i < n implies base[i] != 0x20 by {
        assert(base[i] == dir[pos + i]);
    }
    assert forall|i: int| 0 <= i < e implies ext[i] != 0x20 by {
        assert(ext[i] == dir[pos + 8 + i]);
    }
    bytes::lemma_first_index(base, 0x20, n);
    bytes::lemma_first_index(ext, 0x20, e);
    assert(base.subrange(0, n) =~= dir.subrange(pos, pos + n));
    assert(ext.subrange(0, e) =~= dir.subrange(pos + 8, pos + 8 + e));
}

/// A file of the disk image is read from the image as a whole: the volume starts where the boot image
/// holds `bin/fat32.img`, its boot sector gives the geometry, the root directory's first sector
/// stands behind the allocation tables, and the entry that carries the path's short name gives the
/// first cluster and the size.
pub proof fn disk_files_are_read_by_path(
    img: Seq<u8>,
    base: u64,
    path: Seq<u8>,
    k: int,
    chain: Seq<u32>,
    size: u32,
    file_off: u64,
    req_len: u64,
    i: int,
)
    requires
        img.len() <= u64::MAX,
        ({
            let found = initrd::find_file(
                vmo::image_vmo(img),
                seq![
                    0x62u8,
                    0x69u8,
                    0x6eu8,
                    0x2fu8,
                    0x66u8,
                    0x61u8,
                    0x74u8,
                    0x33u8,
                    0x32u8,
                    0x2eu8,
                    0x69u8,
                    0x6du8,
                    0x67u8,
                ],
            );
            let (at, _) = found->0;
            found is Some && at == base
        }),
        base > 0,
        base + 512 <= img.len(),
        has_short_name(path),
        ({
            let l = layout_of(img.subrange(base as int, base + 512));
            let root = base + (l.reserved_sectors + l.fat_count * l.sectors_per_fat)
                * l.bytes_per_sector;
            let dir = img.subrange(root, root + 512);
            &&& l.sectors_per_cluster > 0 && l.bytes_per_sector > 0
            &&& root + 512 <= img.len()
            &&& 0 <= k < 16
            &&& reaches(dir, k)
            &&& carries(dir, k, short_name(path))
            &&& forall|e: int| 0 <= e < k ==> !#[trigger] carries(dir, e, short_name(path))
            &&& chain.len() > 0
            &&& chain[0] == 0x1_0000 * (dir[32 * k + 20] + 0x100 * dir[32 * k + 21]) + (dir[32 * k
                + 26] + 0x100 * dir[32 * k + 27])
            &&& size == dir[32 * k + 28] + 0x100 * dir[32 * k + 29] + 0x1_0000 * dir[32 * k + 30]
                + 0x100_0000 * dir[32 * k + 31]
            &&& is_chain(img, base as int, l, chain)
            &&& size <= chain.len() * (l.sectors_per_cluster * l.bytes_per_sector)
        }),
        0 <= i < req_len,
        i < 512,
        file_off + i < size,
    ensures
        ({
            let l = layout_of(img.subrange(base as int, base + 512));
            let r = file_read_at(vmo::image_vmo(img), path, file_off, req_len);
            let cl = l.sectors_per_cluster * l.bytes_per_sector;
            let c = chain[(file_off + i) / cl];
            &&& r.len() == granted(file_off, req_len, size)
            &&& r[i] == img[base + (l.reserved_sectors + l.fat_count * l.sectors_per_fat + (c - 2)
                * l.sectors_per_cluster) * l.bytes_per_sector + (file_off + i) % cl]
        }),
{
    let image = vmo::image_vmo(img);
    let boot = img.subrange(base as int, base + 512);
    let l = layout_of(boot);
    boot_sectors_state_the_geometry(boot);
    lemma_layout_bounds(l, 0);
    let root = base + (l.reserved_sectors + l.fat_count * l.sectors_per_fat) * l.bytes_per_sector;
    let dir = img.subrange(root, root + 512);
    assert(ask(image, base as int, 512) == Some(boot));
    assert(ask(image, root, 512) == Some(dir));
    lookups_find_the_first_entry(dir, short_name(path), k);
    assert(find_in_sector(dir, short_name(path), 0) == Some((chain[0], size)));
    assert(image_path() =~= seq![
        0x62u8,
        0x69u8,
        0x6eu8,
        0x2fu8,
        0x66u8,
        0x61u8,
        0x74u8,
        0x33u8,
        0x32u8,
        0x2eu8,
        0x69u8,
        0x6du8,
        0x67u8,
    ]);
    files_are_read_along_their_chain(img, base as int, l, chain, size, file_off, req_len, i);
}

/// A read returns nothing for a path without a short name, where there is no disk image or it stands
/// at offset zero, for a name that no entry carries, and at or behind the end of the file.
pub proof fn missing_files_read_as_nothing(
    img: Seq<u8>,
    path: Seq<u8>,
    file_off: u64,
    req_len: u64,
)
    ensures
        ({
            let image = vmo::image_vmo(img);
            let r = file_read_at(image, path, file_off, req_len);
            let found = initrd::find_file(image, image_path());
            let (base, _) = found->0;
            &&& !has_short_name(path) ==> r.len() == 0
            &&& found is None || base == 0 ==> r.len() == 0
            &&& found is Some && base + 512 <= img.len() && img.len() <= u64::MAX ==> {
                let l = layout_of(img.subrange(base as int, base + 512));
                let root = base + (l.reserved_sectors + l.fat_count * l.sectors_per_fat)
                    * l.bytes_per_sector;
                let dir = img.subrange(root, root + 512);
                let entry = find_in_sector(dir, short_name(path), 0);
                let (cluster, size) = entry->0;
                &&& root + 512 > img.len() ==> r.len() == 0
                &&& entry is None ==> r.len() == 0
                &&& cluster == 0 || file_off >= size ==> r.len() == 0
            }
        }),
{
    let image = vmo::image_vmo(img);
    let found = initrd::find_file(image, image_path());
    let (base, _) = found->0;
    if found is Some && base + 512 <= img.len() && img.len() <= u64::MAX {
        let boot = img.subrange(base as int, base + 512);
        assert(ask(image, base as int, 512) == Some(boot));
        boot_sectors_state_the_geometry(boot);
        let l = layout_of(boot);
        lemma_layout_bounds(l, 0);
        let root = base + l.data_start() * l.bytes_per_sector;
        if root + 512 <= img.len() {
            assert(ask(image, root, 512) == Some(img.subrange(root, root + 512)));
        } else {
            assert(ask(image, root, 512) is None);
        }
    }
}

/// The root directory is listed from its cluster, where the volume has one and it lies in the image;
/// there is no listing otherwise.
pub proof fn roots_are_listed_from_their_cluster(img: Seq<u8>, base: u64, len: u64)
    requires
        img.len() <= u64::MAX,
        initrd::find_file(vmo::image_vmo(img), image_path()) == Some((base, len)),
        base + 512 <= img.len(),
    ensures
        base == 0 ==> root_listing(vmo::image_vmo(img)) is None,
        base > 0 ==> {
            let l = layout_of(img.subrange(base as int, base + 512));
            let root = base + (l.reserved_sectors + l.fat_count * l.sectors_per_fat + (
            l.root_cluster - 2) * l.sectors_per_cluster) * l.bytes_per_sector;
            &&& l.root_cluster < 2 ==> root_listing(vmo::image_vmo(img)) is None
            &&& l.root_cluster >= 2 && root + 512 <= img.len() ==> root_listing(
                vmo::image_vmo(img),
            ) == Some(listing_from(img.subrange(root, root + 512), 0))
            &&& l.root_cluster >= 2 && root + 512 > img.len() ==> root_listing(
                vmo::image_vmo(img),
            ) is None
        },
{
    let image = vmo::image_vmo(img);
    let boot = img.subrange(base as int, base + 512);
    assert(ask(image, base as int, 512) == Some(boot));
    boot_sectors_state_the_geometry(boot);
    let l = layout_of(boot);
    lemma_layout_bounds(l, l.root_cluster as u32);
    if l.root_cluster >= 2 {
        let root = base + l.cluster_offset(l.root_cluster as int);
        if root + 512 <= img.len() {
            assert(ask(image, root, 512) == Some(img.subrange(root, root + 512)));
        } else {
            assert(ask(image, root, 512) is None);
        }
    }
}

} // verus!
