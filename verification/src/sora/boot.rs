//! What boot reads from the boot image: its report of a file, and the boot script.

use vstd::prelude::*;

use crate::bytes;
use crate::kumoza;
use crate::sora::initrd;
use crate::sora::sequence::t;
use crate::sora::vmo;
use crate::text;

verus! {

/// Most bytes of the boot script that are run.
pub const MANIFEST_LEN: usize = 256;

/// What the boot image says of a file: its name and up to four bytes of it.
pub open spec fn file_report(image: vmo::Vmo, path: Seq<u8>) -> Seq<u8> {
    match initrd::find_file(image, path) {
        None => t("file not found\n"),
        Some((off, len)) => {
            let n: usize = if len < 4 {
                len as usize
            } else {
                4
            };
            t("found: ") + path + t("\n") + match image(off, n) {
                Some(head) => head + t("\n"),
                None => Seq::empty(),
            }
        },
    }
}

/// Reports a file of the boot image.
pub fn describe_file<R: Fn(u64, usize) -> Option<Vec<u8>>>(read: &R, path: &[u8]) -> (out: Vec<u8>)
    requires
        vmo::is_reader(*read),
    ensures
        forall|image: vmo::Vmo| #[trigger]
            vmo::follows(*read, image) ==> out@ == file_report(image, path@),
{
    let (off, len): (u64, u64) = match initrd::find_initrd_file(read, path) {
        None => return text::to_bytes("file not found\n"),
        Some(e) => e,
    };
    let n: usize = if len < 4 {
        len as usize
    } else {
        4
    };
    let mut out: Vec<u8> = text::to_bytes("found: ");
    bytes::append(&mut out, path);
    text::append_text(&mut out, "\n");
    let ghost named = out@;
    match read(off, n) {
        Some(head) => {
            bytes::append(&mut out, &head);
            text::append_text(&mut out, "\n");
            assert(out@ =~= named + (head@ + t("\n")));
        },
        None => {
            assert(out@ =~= named + Seq::<u8>::empty());
        },
    }
    out
}

/// What became of the boot script.
#[derive(Debug)]
pub enum Autoexec {
    Missing,
    Unreadable,
    Lines(Vec<Vec<u8>>),
}

/// The lines of the boot script, without comments and blanks. Only its start is
/// looked at.
pub open spec fn script_lines(image: vmo::Vmo, path: Seq<u8>) -> Option<Option<Seq<Seq<u8>>>> {
    match initrd::find_file(image, path) {
        None => None,
        Some((off, len)) => {
            let n: usize = if len < 256 {
                len as usize
            } else {
                256
            };
            match image(off, n) {
                None => Some(None),
                Some(manifest) => Some(Some(kumoza::manifest_lines(manifest))),
            }
        },
    }
}

/// The lists of bytes as plain data.
pub open spec fn texts(v: Seq<Vec<u8>>) -> Seq<Seq<u8>> {
    v.map_values(|w: Vec<u8>| w@)
}

/// Reads the boot script.
pub fn autoexec<R: Fn(u64, usize) -> Option<Vec<u8>>>(read: &R, path: &[u8]) -> (r: Autoexec)
    requires
        vmo::is_reader(*read),
    ensures
        forall|image: vmo::Vmo| #[trigger]
            vmo::follows(*read, image) ==> match r {
                Autoexec::Missing => script_lines(image, path@) is None,
                Autoexec::Unreadable => script_lines(image, path@) == Some(
                    None::<Seq<Seq<u8>>>,
                ),
                Autoexec::Lines(v) => script_lines(image, path@) == Some(Some(texts(v@))),
            },
{
    let (off, len): (u64, u64) = match initrd::find_initrd_file(read, path) {
        None => return Autoexec::Missing,
        Some(e) => e,
    };
    let n: usize = if len < 256 {
        len as usize
    } else {
        MANIFEST_LEN
    };
    let manifest: Vec<u8> = match read(off, n) {
        None => return Autoexec::Unreadable,
        Some(v) => v,
    };
    let lines: Vec<&[u8]> = kumoza::autoexec_lines(&manifest);
    let mut out: Vec<Vec<u8>> = Vec::new();
    let mut i: usize = 0;
    while i < lines.len()
        invariant
            i <= lines@.len(),
            out@.len() == i,
            forall|j: int| 0 <= j < i ==> (#[trigger] out@[j])@ == lines@[j]@,
        decreases lines@.len() - i,
    {
        let mut line: Vec<u8> = Vec::new();
        bytes::append(&mut line, lines[i]);
        assert(line@ =~= lines@[i as int]@);
        out.push(line);
        i += 1;
    }
    assert(texts(out@) =~= kumoza::manifest_lines(manifest@));
    Autoexec::Lines(out)
}

/// The report of a file in a readable image is its path and its first four bytes, or fewer where it is
/// shorter, each on a line; of a file that is not there, only that.
pub proof fn reports_show_four_bytes(img: Seq<u8>, path: Seq<u8>)
    ensures
        ({
            let found = initrd::find_file(vmo::image_vmo(img), path);
            let (off, len) = found->0;
            let r = file_report(vmo::image_vmo(img), path);
            &&& found is None ==> r == t("file not found\n")
            &&& found is Some && len >= 4 && off + 4 <= img.len() ==> r == t("found: ") + path + t(
                "\n",
            ) + (img.subrange(off as int, off + 4) + t("\n"))
            &&& found is Some && len < 4 && off + len <= img.len() ==> r == t("found: ") + path + t(
                "\n",
            ) + (img.subrange(off as int, off + len) + t("\n"))
        }),
{
}

/// The boot script is its first 256 bytes, or all of it where it is shorter.
pub proof fn scripts_are_read_from_their_start(img: Seq<u8>, path: Seq<u8>)
    ensures
        ({
            let found = initrd::find_file(vmo::image_vmo(img), path);
            let (off, len) = found->0;
            let r = script_lines(vmo::image_vmo(img), path);
            &&& found is None ==> r is None
            &&& found is Some && len >= 256 && off + 256 <= img.len() ==> r == Some(
                Some(kumoza::manifest_lines(img.subrange(off as int, off + 256))),
            )
            &&& found is Some && len < 256 && off + len <= img.len() ==> r == Some(
                Some(kumoza::manifest_lines(img.subrange(off as int, off + len))),
            )
            &&& found is Some && len >= 256 && off + 256 > img.len() ==> r == Some(
                None::<Seq<Seq<u8>>>,
            )
        }),
{
}

} // verus!
