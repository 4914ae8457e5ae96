//! The boot image's file table: a 16-byte header, then one 80-byte entry per
//! file (a NUL-padded path, its offset and its length).

use vstd::prelude::*;

use crate::bytes;
use crate::sora::vmo;

verus! {

pub const HEADER_LEN: usize = 16;

pub const ENTRY_LEN: usize = 80;

pub const PATH_LEN: usize = 64;

/// The eight bytes `KUMORD01` that open a boot image.
pub open spec fn magic() -> Seq<u8> {
    seq![0x4bu8, 0x55, 0x4d, 0x4f, 0x52, 0x44, 0x30, 0x31]
}

/// The number of entries that a header announces.
pub open spec fn entry_count(header: Seq<u8>) -> int {
    bytes::le32(header, 12)
}

/// Offset of entry `i` in the image.
pub open spec fn entry_base(i: int) -> int {
    16 + 80 * i
}

/// The path of an entry: its path field up to the first NUL.
pub open spec fn entry_path(entry: Seq<u8>) -> Seq<u8> {
    entry.subrange(0, bytes::first_index(entry.subrange(0, 64), 0))
}

/// The offset and length that an entry gives for its file.
pub open spec fn entry_extent(entry: Seq<u8>) -> (u64, u64) {
    (bytes::le64(entry, 64) as u64, bytes::le64(entry, 72) as u64)
}

/// The extent of the first entry from number `i` on that carries `path`. A
/// refused read ends the search without a result.
pub open spec fn find_from(image: vmo::Vmo, path: Seq<u8>, i: int, count: int) -> Option<(u64, u64)>
    decreases count - i,
{
    if i >= count {
        None
    } else {
        match image(entry_base(i) as u64, 80) {
            None => None,
            Some(entry) => if entry_path(entry) == path {
                Some(entry_extent(entry))
            } else {
                find_from(image, path, i + 1, count)
            },
        }
    }
}

/// The extent of the file `path` in the image.
pub open spec fn find_file(image: vmo::Vmo, path: Seq<u8>) -> Option<(u64, u64)> {
    match image(0, 16) {
        None => None,
        Some(header) => find_from(image, path, 0, entry_count(header)),
    }
}

/// The length of an entry's path.
fn path_len(entry: &[u8]) -> (n: usize)
    requires
        entry@.len() == ENTRY_LEN,
    ensures
        n == bytes::first_index(entry@.subrange(0, 64), 0),
        n <= 64,
        entry@.subrange(0, n as int) == entry_path(entry@),
{
    bytes::find_byte(&entry[0..PATH_LEN], 0)
}

/// Whether an entry carries `path`.
pub fn entry_is(entry: &[u8], path: &[u8]) -> (same: bool)
    requires
        entry@.len() == ENTRY_LEN,
    ensures
        same == (entry_path(entry@) == path@),
{
    let n: usize = path_len(entry);
    bytes::bytes_equal(&entry[0..n], path)
}

/// The offset and length in an entry.
pub fn extent(entry: &[u8]) -> (r: (u64, u64))
    requires
        entry@.len() == ENTRY_LEN,
    ensures
        r == entry_extent(entry@),
{
    (bytes::read_u64(entry, 64), bytes::read_u64(entry, 72))
}

/// Locates a file of the boot image by path.
pub fn find_initrd_file<R: Fn(u64, usize) -> Option<Vec<u8>>>(read: &R, path: &[u8]) -> (r: Option<
    (u64, u64),
>)
    requires
        vmo::is_reader(*read),
    ensures
        forall|image: vmo::Vmo| #[trigger]
            vmo::follows(*read, image) ==> r == find_file(image, path@),
{
    let header = match (*read)(0, HEADER_LEN) {
        None => return None,
        Some(h) => h,
    };
    let count: u32 = bytes::read_u32(&header, 12);
    let mut i: u32 = 0;
    while i < count
        invariant
            vmo::is_reader(*read),
            i <= count,
            forall|image: vmo::Vmo| #[trigger]
                vmo::follows(*read, image) ==> find_file(image, path@) == find_from(
                    image,
                    path@,
                    i as int,
                    count as int,
                ),
        decreases count - i,
    {
        let at: u64 = 16 + 80 * (i as u64);
        match (*read)(at, ENTRY_LEN) {
            None => return None,
            Some(entry) => {
                if entry_is(&entry, path) {
                    return Some(extent(&entry));
                }
            },
        }
        i += 1;
    }
    None
}

/// The extent of the first entry from number `i` on that carries `path`, where
/// an entry's path and extent are read apart.
pub open spec fn find_split_from(
    image: vmo::Vmo,
    path: Seq<u8>,
    i: int,
    count: int,
) -> Option<(u64, u64)>
    decreases count - i,
{
    if i >= count {
        None
    } else {
        match image(entry_base(i) as u64, 64) {
            None => None,
            Some(name) => match image((entry_base(i) + 64) as u64, 16) {
                None => None,
                Some(tail) => if name.subrange(0, bytes::first_index(name, 0)) == path {
                    Some((bytes::le64(tail, 0) as u64, bytes::le64(tail, 8) as u64))
                } else {
                    find_split_from(image, path, i + 1, count)
                },
            },
        }
    }
}

/// The extent of the file `path` in an image that opens with the magic.
pub open spec fn find_checked(image: vmo::Vmo, path: Seq<u8>) -> Option<(u64, u64)> {
    match image(0, 16) {
        None => None,
        Some(header) => if header.subrange(0, 8) == magic() {
            find_split_from(image, path, 0, entry_count(header))
        } else {
            None
        },
    }
}

/// Locates a file by path in an image that must open with the magic.
pub fn initrd_find<R: Fn(u64, usize) -> Option<Vec<u8>>>(read: &R, want: &[u8]) -> (r: Option<
    (u64, u64),
>)
    requires
        vmo::is_reader(*read),
    ensures
        forall|image: vmo::Vmo| #[trigger]
            vmo::follows(*read, image) ==> r == find_checked(image, want@),
{
    let header = match (*read)(0, HEADER_LEN) {
        None => return None,
        Some(h) => h,
    };
    let expected: [u8; 8] = [0x4b, 0x55, 0x4d, 0x4f, 0x52, 0x44, 0x30, 0x31];
    assert(expected@ =~= magic());
    if !bytes::bytes_equal(&header[0..8], &expected) {
        return None;
    }
    let count: u32 = bytes::read_u32(&header, 12);
    let mut i: u32 = 0;
    while i < count
        invariant
            vmo::is_reader(*read),
            i <= count,
            forall|image: vmo::Vmo| #[trigger]
                vmo::follows(*read, image) ==> find_checked(image, want@) == find_split_from(
                    image,
                    want@,
                    i as int,
                    count as int,
                ),
        decreases count - i,
    {
        let base: u64 = 16 + 80 * (i as u64);
        let name = match (*read)(base, PATH_LEN) {
            None => return None,
            Some(name) => name,
        };
        let tail = match (*read)(base + 64, 16) {
            None => return None,
            Some(tail) => tail,
        };
        let n: usize = bytes::find_byte(&name, 0);
        if bytes::bytes_equal(&name[0..n], want) {
            return Some((bytes::read_u64(&tail, 0), bytes::read_u64(&tail, 8)));
        }
        i += 1;
    }
    None
}

/// `a + b`, or the largest 64-bit value where that does not fit.
pub open spec fn sat_add(a: int, b: int) -> int {
    if a + b > u64::MAX {
        u64::MAX as int
    } else {
        a + b
    }
}

/// The highest end of a file among the entries from number `i` on, or `high`
/// if none lies above it. A refused read ends the walk.
pub open spec fn data_end_from(image: vmo::Vmo, i: int, count: int, high: int) -> int
    decreases count - i,
{
    if i >= count {
        high
    } else {
        match image(entry_base(i) as u64, 80) {
            None => high,
            Some(entry) => {
                let end = sat_add(entry_extent(entry).0 as int, entry_extent(entry).1 as int);
                data_end_from(
                    image,
                    i + 1,
                    count,
                    if end > high {
                        end
                    } else {
                        high
                    },
                )
            },
        }
    }
}

/// The size that the boot image's file table accounts for: the highest end of
/// a file, and the header and the table on top. Zero without a header.
pub open spec fn table_size(image: vmo::Vmo) -> int {
    match image(0, 16) {
        None => 0,
        Some(header) => sat_add(
            sat_add(data_end_from(image, 0, entry_count(header), 0), 16),
            80 * entry_count(header),
        ),
    }
}

/// Computes how large a block device over the boot image has to be.
pub fn initrd_size<R: Fn(u64, usize) -> Option<Vec<u8>>>(read: &R) -> (size: u64)
    requires
        vmo::is_reader(*read),
    ensures
        forall|image: vmo::Vmo| #[trigger]
            vmo::follows(*read, image) ==> size == table_size(image),
{
    let header = match (*read)(0, HEADER_LEN) {
        None => return 0,
        Some(h) => h,
    };
    let count: u32 = bytes::read_u32(&header, 12);
    let mut high: u64 = 0;
    let mut i: u32 = 0;
    let mut more: bool = true;
    while more && i < count
        invariant
            vmo::is_reader(*read),
            i <= count,
            forall|image: vmo::Vmo| #[trigger]
                vmo::follows(*read, image) ==> image(0, 16) == Some(header@) && data_end_from(
                    image,
                    0,
                    count as int,
                    0,
                ) == if more {
                    data_end_from(image, i as int, count as int, high as int)
                } else {
                    high as int
                },
        decreases count - i,
    {
        match (*read)(16 + 80 * (i as u64), ENTRY_LEN) {
            None => {
                more = false;
            },
            Some(entry) => {
                let (off, len): (u64, u64) = extent(&entry);
                let end: u64 = off.saturating_add(len);
                if end > high {
                    high = end;
                }
            },
        }
        i += 1;
    }
    high.saturating_add(16).saturating_add(80 * (count as u64))
}

/// In an image that is wholly readable, what the search returns is the extent
/// in the first entry that carries the path; it returns nothing only where no
/// entry does.
pub proof fn search_returns_the_first_match(img: Seq<u8>, path: Seq<u8>, i: int, count: int)
    requires
        0 <= i <= count,
        count < 0x1_0000_0000,
        entry_base(count) <= img.len(),
    ensures
        match find_from(vmo::image_vmo(img), path, i, count) {
            Some(ext) => exists|k: int|
                #![trigger entry_base(k)]
                i <= k < count && entry_path(img.subrange(entry_base(k), entry_base(k) + 80))
                    == path && entry_extent(img.subrange(entry_base(k), entry_base(k) + 80)) == ext
                    && forall|j: int|
                    #![trigger entry_base(j)]
                    i <= j < k ==> entry_path(img.subrange(entry_base(j), entry_base(j) + 80))
                        != path,
            None => forall|j: int|
                #![trigger entry_base(j)]
                i <= j < count ==> entry_path(img.subrange(entry_base(j), entry_base(j) + 80))
                    != path,
        },
    decreases count - i,
{
    if i < count {
        let entry = img.subrange(entry_base(i), entry_base(i) + 80);
        assert(vmo::image_vmo(img)(entry_base(i) as u64, 80) == Some(entry));
        if entry_path(entry) != path {
            search_returns_the_first_match(img, path, i + 1, count);
            match find_from(vmo::image_vmo(img), path, i + 1, count) {
                Some(ext) => {
                    let k = choose|k: int|
                        #![trigger entry_base(k)]
                        i + 1 <= k < count && entry_path(
                            img.subrange(entry_base(k), entry_base(k) + 80),
                        ) == path && entry_extent(img.subrange(entry_base(k), entry_base(k) + 80))
                            == ext && forall|j: int|
                            #![trigger entry_base(j)]
                            i + 1 <= j < k ==> entry_path(
                                img.subrange(entry_base(j), entry_base(j) + 80),
                            ) != path;
                    assert(i <= k < count);
                    assert(entry_base(k) == entry_base(k));
                },
                None => {},
            }
        } else {
            assert(entry_base(i) == entry_base(i));
        }
    }
}

/// The 64 bytes from `at` on hold a path: its bytes, none of them zero, and a zero byte behind them
/// unless they fill the field.
pub open spec fn holds_path(img: Seq<u8>, at: int, path: Seq<u8>) -> bool {
    &&& path.len() <= 64
    &&& forall|j: int| 0 <= j < path.len() ==> #[trigger] path[j] != 0 && img[at + j] == path[j]
    &&& path.len() < 64 ==> img[at + path.len()] == 0
}

proof fn lemma_holds_path(img: Seq<u8>, at: int, field: Seq<u8>, path: Seq<u8>)
    requires
        0 <= at,
        at + 64 <= img.len(),
        field == img.subrange(at, at + 64),
    ensures
        holds_path(img, at, path) <==> field.subrange(0, bytes::first_index(field, 0)) == path,
{
    bytes::lemma_first_index_bounds(field, 0);
    let n = bytes::first_index(field, 0);
    let name = field.subrange(0, n);
    if holds_path(img, at, path) {
        assert forall|i: int| 0 <= i < path.len() implies field[i] != 0 by {
            assert(field[i] == img[at + i]);
            assert(path[i] != 0);
        }
        bytes::lemma_first_index(field, 0, path.len() as int);
        assert forall|i: int| 0 <= i < n implies name[i] == path[i] by {
            assert(path[i] != 0);
        }
        assert(name =~= path);
    }
    if name == path {
        assert forall|j: int| 0 <= j < path.len() implies #[trigger] path[j] != 0 && img[at + j]
            == path[j] by {
            assert(name[j] == field[j]);
        }
    }
}

proof fn lemma_entry_path(img: Seq<u8>, k: int, path: Seq<u8>)
    requires
        0 <= k,
        16 + 80 * k + 80 <= img.len(),
    ensures
        ({
            let entry = img.subrange(16 + 80 * k, 16 + 80 * k + 80);
            &&& entry_path(entry) == path <==> holds_path(img, 16 + 80 * k, path)
            &&& entry_extent(entry).0 == bytes::le64(img, 16 + 80 * k + 64)
            &&& entry_extent(entry).1 == bytes::le64(img, 16 + 80 * k + 72)
        }),
{
    let at = 16 + 80 * k;
    let entry = img.subrange(at, at + 80);
    let field = entry.subrange(0, 64);
    assert(field =~= img.subrange(at, at + 64));
    lemma_holds_path(img, at, field, path);
    bytes::lemma_first_index_bounds(field, 0);
    let n = bytes::first_index(field, 0);
    assert(entry.subrange(0, n) =~= field.subrange(0, n));
    let off = entry.subrange(64, 72);
    let len = entry.subrange(72, 80);
    bytes::lemma_fields_agree(entry, 64, off);
    bytes::lemma_fields_agree(entry, 72, len);
    bytes::lemma_fields_agree(img, at + 64, off);
    bytes::lemma_fields_agree(img, at + 72, len);
}

/// The start of entry `k` of the file table.
pub open spec fn table_place(k: int) -> int {
    16 + 80 * k
}

proof fn lemma_find(img: Seq<u8>, path: Seq<u8>, i: int, count: int)
    requires
        0 <= i <= count < 0x1_0000_0000,
        16 + 80 * count <= img.len(),
    ensures
        ({
            let r = find_from(vmo::image_vmo(img), path, i, count);
            &&& forall|k: int|
                i <= k < count && holds_path(img, #[trigger] table_place(k), path) && (forall|j:
                    int|
                    i <= j < k ==> !holds_path(img, #[trigger] table_place(j), path)) ==> {
                    let (off, len) = r->0;
                    &&& r is Some
                    &&& off == bytes::le64(img, 16 + 80 * k + 64)
                    &&& len == bytes::le64(img, 16 + 80 * k + 72)
                }
            &&& (forall|j: int|
                i <= j < count ==> !holds_path(img, #[trigger] table_place(j), path)) ==> r is None
        }),
    decreases count - i,
{
    if i < count {
        let entry = img.subrange(16 + 80 * i, 16 + 80 * i + 80);
        assert(vmo::image_vmo(img)((16 + 80 * i) as u64, 80) == Some(entry));
        lemma_entry_path(img, i, path);
        assert(table_place(i) == 16 + 80 * i);
        lemma_find(img, path, i + 1, count);
        let r = find_from(vmo::image_vmo(img), path, i, count);
        assert forall|k: int|
            i <= k < count && holds_path(img, #[trigger] table_place(k), path) && (forall|j: int|
                i <= j < k ==> !holds_path(img, #[trigger] table_place(j), path)) implies {
            let (off, len) = r->0;
            &&& r is Some
            &&& off == bytes::le64(img, 16 + 80 * k + 64)
            &&& len == bytes::le64(img, 16 + 80 * k + 72)
        } by {
            if k > i {
                assert(!holds_path(img, table_place(i), path));
            }
        }
    }
}

/// A file is found by its path. The image's bytes 12 to 15 count the entries, low byte first; entry
/// `k` starts at `16 + 80 * k` with 64 bytes for the path, and gives the file's offset in the eight
/// bytes from 64 on and its length in the eight bytes from 72 on. The first entry with the path
/// counts, and nothing is found just where no entry has it.
pub proof fn files_are_found_by_path(img: Seq<u8>, path: Seq<u8>, k: int)
    requires
        img.len() >= 16,
        16 + 80 * (img[12] + 0x100 * img[13] + 0x1_0000 * img[14] + 0x100_0000 * img[15])
            <= img.len(),
    ensures
        ({
            let count = img[12] + 0x100 * img[13] + 0x1_0000 * img[14] + 0x100_0000 * img[15];
            let r = find_file(vmo::image_vmo(img), path);
            &&& 0 <= k < count && holds_path(img, 16 + 80 * k, path) && (forall|j: int|
                0 <= j < k ==> !holds_path(img, #[trigger] table_place(j), path)) ==> {
                let (off, len) = r->0;
                &&& r is Some
                &&& off == bytes::le64(img, 16 + 80 * k + 64)
                &&& len == bytes::le64(img, 16 + 80 * k + 72)
            }
            &&& (forall|j: int|
                0 <= j < count ==> !holds_path(img, #[trigger] table_place(j), path)) ==> r is None
        }),
{
    let count = img[12] + 0x100 * img[13] + 0x1_0000 * img[14] + 0x100_0000 * img[15];
    let header = img.subrange(0, 16);
    assert(vmo::image_vmo(img)(0, 16) == Some(header));
    assert(entry_count(header) == count);
    lemma_find(img, path, 0, count);
    assert(table_place(k) == 16 + 80 * k);
}

proof fn lemma_searches_agree(img: Seq<u8>, path: Seq<u8>, i: int, count: int)
    requires
        0 <= i <= count < 0x1_0000_0000,
        16 + 80 * count <= img.len(),
    ensures
        find_split_from(vmo::image_vmo(img), path, i, count) == find_from(
            vmo::image_vmo(img),
            path,
            i,
            count,
        ),
    decreases count - i,
{
    if i < count {
        lemma_searches_agree(img, path, i + 1, count);
        let at = 16 + 80 * i;
        let image = vmo::image_vmo(img);
        let entry = img.subrange(at, at + 80);
        let name = img.subrange(at, at + 64);
        let tail = img.subrange(at + 64, at + 80);
        assert(image(at as u64, 80) == Some(entry));
        assert(image(at as u64, 64) == Some(name));
        assert(image((at + 64) as u64, 16) == Some(tail));
        assert(entry.subrange(0, 64) =~= name);
        bytes::lemma_first_index_bounds(name, 0);
        let n = bytes::first_index(name, 0);
        assert(entry.subrange(0, n) =~= name.subrange(0, n));
        let off = entry.subrange(64, 72);
        let len = entry.subrange(72, 80);
        bytes::lemma_fields_agree(entry, 64, off);
        bytes::lemma_fields_agree(entry, 72, len);
        bytes::lemma_fields_agree(tail, 0, off);
        bytes::lemma_fields_agree(tail, 8, len);
    }
}

/// The search that asks for the magic finds what the other one finds in an image that opens with
/// the bytes of `KUMORD01`, and nothing in any other.
pub proof fn checked_searches_ask_for_the_magic(img: Seq<u8>, path: Seq<u8>)
    requires
        img.len() >= 16,
        16 + 80 * (img[12] + 0x100 * img[13] + 0x1_0000 * img[14] + 0x100_0000 * img[15])
            <= img.len(),
    ensures
        img.subrange(0, 8) == seq![0x4bu8, 0x55u8, 0x4du8, 0x4fu8, 0x52u8, 0x44u8, 0x30u8, 0x31u8]
            ==> find_checked(vmo::image_vmo(img), path) == find_file(vmo::image_vmo(img), path),
        img.subrange(0, 8) != seq![0x4bu8, 0x55u8, 0x4du8, 0x4fu8, 0x52u8, 0x44u8, 0x30u8, 0x31u8]
            ==> find_checked(vmo::image_vmo(img), path) is None,
{
    let count = img[12] + 0x100 * img[13] + 0x1_0000 * img[14] + 0x100_0000 * img[15];
    let header = img.subrange(0, 16);
    assert(vmo::image_vmo(img)(0, 16) == Some(header));
    assert(entry_count(header) == count);
    assert(header.subrange(0, 8) =~= img.subrange(0, 8));
    lemma_searches_agree(img, path, 0, count);
}

/// Where the file of entry `k` ends, as far as 64 bits can say.
pub open spec fn file_end(img: Seq<u8>, k: int) -> int {
    let end = bytes::le64(img, 16 + 80 * k + 64) + bytes::le64(img, 16 + 80 * k + 72);
    if end > 0xffff_ffff_ffff_ffff {
        0xffff_ffff_ffff_ffff
    } else {
        end
    }
}

proof fn lemma_data_end(img: Seq<u8>, i: int, count: int, high: int)
    requires
        0 <= i <= count < 0x1_0000_0000,
        16 + 80 * count <= img.len(),
    ensures
        ({
            let end = data_end_from(vmo::image_vmo(img), i, count, high);
            &&& end >= high
            &&& forall|k: int| i <= k < count ==> #[trigger] file_end(img, k) <= end
            &&& end == high || exists|k: int| i <= k < count && #[trigger] file_end(img, k) == end
        }),
    decreases count - i,
{
    if i < count {
        let entry = img.subrange(16 + 80 * i, 16 + 80 * i + 80);
        assert(vmo::image_vmo(img)((16 + 80 * i) as u64, 80) == Some(entry));
        lemma_entry_path(img, i, Seq::empty());
        let end = sat_add(entry_extent(entry).0 as int, entry_extent(entry).1 as int);
        assert(end == file_end(img, i));
        let next = if end > high {
            end
        } else {
            high
        };
        lemma_data_end(img, i + 1, count, next);
    }
}

/// The block device over a boot image is as large as the highest end of a file, the header's 16
/// bytes and 80 bytes for each entry together, as far as 64 bits can say; without an entry no file
/// counts.
pub proof fn tables_account_for_every_file(img: Seq<u8>) -> (high: int)
    requires
        img.len() >= 16,
        16 + 80 * (img[12] + 0x100 * img[13] + 0x1_0000 * img[14] + 0x100_0000 * img[15])
            <= img.len(),
    ensures
        ({
            let count = img[12] + 0x100 * img[13] + 0x1_0000 * img[14] + 0x100_0000 * img[15];
            let size = high + 16 + 80 * count;
            &&& 0 <= high
            &&& forall|k: int| 0 <= k < count ==> #[trigger] file_end(img, k) <= high
            &&& high == 0 || exists|k: int| 0 <= k < count && #[trigger] file_end(img, k) == high
            &&& size <= 0xffff_ffff_ffff_ffff ==> table_size(vmo::image_vmo(img)) == size
            &&& size > 0xffff_ffff_ffff_ffff ==> table_size(vmo::image_vmo(img))
                == 0xffff_ffff_ffff_ffff
        }),
{
    let count = img[12] + 0x100 * img[13] + 0x1_0000 * img[14] + 0x100_0000 * img[15];
    let header = img.subrange(0, 16);
    assert(vmo::image_vmo(img)(0, 16) == Some(header));
    assert(entry_count(header) == count);
    lemma_data_end(img, 0, count, 0);
    data_end_from(vmo::image_vmo(img), 0, count, 0)
}

/// Searches and sizes go as far as the image can be read: without a header there is nothing.
pub proof fn unreadable_headers_hold_nothing(image: vmo::Vmo, path: Seq<u8>)
    requires
        image(0, 16) is None,
    ensures
        find_file(image, path) is None,
        find_checked(image, path) is None,
        table_size(image) == 0,
{
}

} // verus!
