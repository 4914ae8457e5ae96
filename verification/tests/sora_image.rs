//! The boot image: its files, its programs and its disk.

use kumo_userland::persona_linux::elf::{EM_AARCH64, ET_EXEC, PF_R, PF_X, PT_LOAD};
use kumo_userland::sora::boot::{autoexec, describe_file, Autoexec};
use kumo_userland::sora::fat::{
    find_entry, list_root, list_sector, parse_layout, path_to_8_3, serve_file_read,
    serve_file_read_at,
};
use kumo_userland::sora::heap::{BumpAlloc, HEAP_SIZE};
use kumo_userland::sora::initrd::{find_initrd_file, initrd_find, initrd_size};
use kumo_userland::sora::loader::{
    align_down, align_up, page_flags, plan_load, LoadCall, LoadError, LoadFailure, LoadMode,
    LoadPlan, LoadSegment, Loader, CHILD_RANGE, INITIAL_SP, STACK_SIZE, STACK_TOP,
};
use kumo_userland::sora::sectors::{block_of, is_boot_block, BlkSectors, InitrdSectors};

/// A boot image of these files, one behind the other.
fn image(files: &[(&str, &[u8])]) -> Vec<u8> {
    let mut out = b"KUMORD01".to_vec();
    out.extend_from_slice(&[0; 4]);
    out.extend_from_slice(&(files.len() as u32).to_le_bytes());
    let mut at = 16 + 80 * files.len() as u64;
    for (path, data) in files {
        let mut field = [0u8; 64];
        field[..path.len()].copy_from_slice(path.as_bytes());
        out.extend_from_slice(&field);
        out.extend_from_slice(&at.to_le_bytes());
        out.extend_from_slice(&(data.len() as u64).to_le_bytes());
        at += data.len() as u64;
    }
    for (_, data) in files {
        out.extend_from_slice(data);
    }
    out
}

fn reader(img: &[u8]) -> impl Fn(u64, usize) -> Option<Vec<u8>> + '_ {
    move |at, n| {
        let at = at as usize;
        img.get(at..at.checked_add(n)?).map(|s| s.to_vec())
    }
}

#[test]
fn files_are_found_by_their_whole_path() {
    let img = image(&[("bin/a", b"one"), ("bin/ab", b"three"), ("bin/a", b"later")]);
    let read = reader(&img);
    assert_eq!(find_initrd_file(&read, b"bin/a"), Some((256, 3)));
    assert_eq!(find_initrd_file(&read, b"bin/ab"), Some((259, 5)));
    assert_eq!(find_initrd_file(&read, b"bin"), None);
    assert_eq!(initrd_find(&read, b"bin/ab"), Some((259, 5)));
    assert_eq!(initrd_find(&read, b"bin/abc"), None);
    // The header and the table come on top of the highest end.
    assert_eq!(initrd_size(&read), img.len() as u64 + 256);
}

#[test]
fn images_without_their_mark_hold_nothing() {
    let mut img = image(&[("bin/a", b"one")]);
    img[0] = b'X';
    assert_eq!(initrd_find(&reader(&img), b"bin/a"), None);
    assert_eq!(initrd_size(&reader(&[])), 0);
    assert_eq!(find_initrd_file(&reader(&[]), b"bin/a"), None);
}

#[test]
fn the_boot_script_is_its_command_lines() {
    let img = image(&[("etc/autoexec", b"# first\nrun hello\n\necho hi\n")]);
    match autoexec(&reader(&img), b"etc/autoexec") {
        Autoexec::Lines(lines) => {
            assert_eq!(lines, vec![b"run hello".to_vec(), b"echo hi".to_vec()])
        }
        _ => panic!("no script"),
    }
    assert!(matches!(autoexec(&reader(&img), b"etc/none"), Autoexec::Missing));
    let mut cut = image(&[("etc/autoexec", b"run hello\n")]);
    cut.truncate(100);
    assert!(matches!(autoexec(&reader(&cut), b"etc/autoexec"), Autoexec::Unreadable));
}

#[test]
fn files_are_described_by_their_start() {
    let img = image(&[("bin/a", b"\x7fELF and more")]);
    assert_eq!(describe_file(&reader(&img), b"bin/b"), b"file not found\n");
    let text = describe_file(&reader(&img), b"bin/a");
    assert!(!text.is_empty() && text != b"file not found\n");
}

fn program(entry: u64, segments: &[(u32, u64, u64, u64, u64)]) -> Vec<u8> {
    let mut out = vec![0u8; 64];
    out[0..4].copy_from_slice(b"\x7fELF");
    out[4] = 2;
    out[5] = 1;
    out[16..18].copy_from_slice(&ET_EXEC.to_le_bytes());
    out[18..20].copy_from_slice(&EM_AARCH64.to_le_bytes());
    out[24..32].copy_from_slice(&entry.to_le_bytes());
    out[32..40].copy_from_slice(&64u64.to_le_bytes());
    out[54..56].copy_from_slice(&56u16.to_le_bytes());
    out[56..58].copy_from_slice(&(segments.len() as u16).to_le_bytes());
    for (kind, offset, virt, file_size, mem_size) in segments {
        let mut ph = [0u8; 56];
        ph[0..4].copy_from_slice(&kind.to_le_bytes());
        ph[4..8].copy_from_slice(&(PF_R | PF_X).to_le_bytes());
        ph[8..16].copy_from_slice(&offset.to_le_bytes());
        ph[16..24].copy_from_slice(&virt.to_le_bytes());
        ph[32..40].copy_from_slice(&file_size.to_le_bytes());
        ph[40..48].copy_from_slice(&mem_size.to_le_bytes());
        out.extend_from_slice(&ph);
    }
    out.resize(8192, 0xaa);
    out
}

#[test]
fn programs_are_planned_from_their_load_segments() {
    let elf = program(
        0x1000_1000,
        &[(4, 0, 0, 0, 0), (PT_LOAD, 0x1000, 0x1000_1000, 300, 400)],
    );
    let img = image(&[("bin/p", &elf)]);
    let plan = plan_load(&reader(&img), b"bin/p").unwrap();
    assert_eq!(plan.file_offset, 96);
    assert_eq!(plan.entry, 0x1000_1000);
    assert_eq!(
        plan.segments,
        vec![LoadSegment {
            file_offset: 0x1000,
            file_size: 300,
            virt_addr: 0x1000_1000,
            mem_size: 400,
            flags: page_flags(PF_R | PF_X),
        }]
    );
}

#[test]
fn programs_that_cannot_be_loaded_say_why() {
    let plan = |elf: &[u8]| {
        let img = image(&[("bin/p", elf)]);
        let r = plan_load(&reader(&img), b"bin/p").map(|p| p.entry);
        r
    };
    let good = program(0x1000, &[(PT_LOAD, 0x1000, 0x1000, 300, 400)]);
    assert_eq!(plan(&good), Ok(0x1000));
    let img = image(&[("bin/p", &good)]);
    assert!(matches!(plan_load(&reader(&img), b"bin/q"), Err(LoadError::Missing)));
    assert_eq!(plan(&good[..10]), Err(LoadError::HeaderRead));
    let mut wrong = good.clone();
    wrong[0] = 0;
    assert_eq!(plan(&wrong), Err(LoadError::BadHeader));
    assert_eq!(
        plan(&program(0x1000, &[(4, 0, 0, 0, 0)])),
        Err(LoadError::NoLoadSegment)
    );
    assert_eq!(
        plan(&program(0x1000, &[(PT_LOAD, 0x1000, 0x1000, 300, 200)])),
        Err(LoadError::BadProgramHeader)
    );
    assert_eq!(
        plan(&program(0x1000, &[(PT_LOAD, u64::MAX, 0x1000, 300, 400)])),
        Err(LoadError::SegmentRange)
    );
    let mut far = good.clone();
    far[32..40].copy_from_slice(&u64::MAX.to_le_bytes());
    assert_eq!(plan(&far), Err(LoadError::ProgramHeaderRange));
    let mut cut = image(&[("bin/p", &good)]);
    cut.truncate(96 + 70);
    assert!(matches!(
        plan_load(&reader(&cut), b"bin/p"),
        Err(LoadError::ProgramHeaderRead)
    ));
}

#[test]
fn pages_round_down_and_up() {
    assert_eq!(align_down(0x1fff), 0x1000);
    assert_eq!(align_up(0x1001), Some(0x2000));
    assert_eq!(align_up(0x1000), Some(0x1000));
    assert_eq!(align_up(u64::MAX), None);
}

fn small_plan() -> LoadPlan {
    LoadPlan {
        file_offset: 96,
        entry: 0x1000_1000,
        segments: vec![LoadSegment {
            file_offset: 0x1000,
            file_size: 300,
            virt_addr: 0x1000_1000,
            mem_size: 400,
            flags: 5,
        }],
        span: 0x1190,
    }
}

#[test]
fn a_program_is_copied_mapped_and_run() {
    let mode = LoadMode::Run {
        arg: 1,
        arg2: 2,
        flags: 0,
    };
    let mut load = Loader::new(small_plan(), mode).unwrap();
    assert_eq!(load.call(), LoadCall::CreateVmo { len: 0x2000 });
    load.advance(10, 0);
    assert_eq!(
        load.call(),
        LoadCall::Copy {
            from: 96 + 0x1000,
            to: 0x1000,
            len: 256
        }
    );
    load.advance(0, 0);
    assert_eq!(
        load.call(),
        LoadCall::Copy {
            from: 96 + 0x1100,
            to: 0x1100,
            len: 44
        }
    );
    load.advance(0, 0);
    assert_eq!(
        load.call(),
        LoadCall::CreateProcess {
            base: 0,
            len: CHILD_RANGE
        }
    );
    load.advance(11, 0);
    assert!(matches!(
        load.call(),
        LoadCall::MapSegment {
            vmo_offset: 0x1000,
            virt: 0x1000_1000,
            len: 0x1000,
            flags: 5,
            ..
        }
    ));
    load.advance(0, 0);
    assert!(matches!(
        load.call(),
        LoadCall::CreateStack {
            top: STACK_TOP,
            len: STACK_SIZE,
            ..
        }
    ));
    load.advance(0, 0);
    assert!(matches!(
        load.call(),
        LoadCall::Run {
            entry: 0x1000_1000,
            sp: INITIAL_SP,
            arg: 1,
            arg2: 2,
            ..
        }
    ));
    load.advance(0, 0);
    let mut closed = Vec::new();
    while let LoadCall::Close { handle } = load.call() {
        closed.push(handle.0);
        load.advance(0, 0);
    }
    closed.sort();
    assert_eq!(closed, vec![10, 11]);
    assert_eq!(load.finished(), Some(true));
}

#[test]
fn copies_bring_every_segment_to_its_place() {
    let segment = |file_offset: u64, file_size: u64| LoadSegment {
        file_offset,
        file_size,
        virt_addr: 0x1000_0000 + file_offset,
        mem_size: file_size,
        flags: 5,
    };
    let plan = LoadPlan {
        file_offset: 96,
        entry: 0x1000_0000,
        segments: vec![segment(10, 600), segment(700, 0), segment(800, 256), segment(500, 200)],
        span: 0x1000,
    };
    let image: Vec<u8> = (0..4000u32).map(|i| (i * 7 % 251) as u8 | 1).collect();
    let mut memory = vec![0u8; 2000];
    let mut load = Loader::new(plan, LoadMode::Serve).unwrap();
    load.advance(10, 0);
    while let LoadCall::Copy { from, to, len } = load.call() {
        let (from, to, len) = (from as usize, to as usize, len as usize);
        memory[to..to + len].copy_from_slice(&image[from..from + len]);
        load.advance(0, 0);
    }
    assert!(matches!(load.call(), LoadCall::CreateProcess { .. }));
    for (x, byte) in memory.iter().enumerate() {
        let due = (10..700).contains(&x) || (800..1056).contains(&x);
        assert_eq!(*byte, if due { image[96 + x] } else { 0 });
    }
}

#[test]
fn a_failed_load_releases_what_it_holds() {
    let mut load = Loader::new(small_plan(), LoadMode::Serve).unwrap();
    load.advance(10, 0);
    load.advance(1, 0);
    let mut closed = Vec::new();
    while let LoadCall::Close { handle } = load.call() {
        closed.push(handle.0);
        load.advance(0, 0);
    }
    assert_eq!(closed, vec![10]);
    assert_eq!(load.finished(), Some(false));
    assert!(load.served().is_none());
    assert_eq!(load.failure, Some(LoadFailure::Copy));
}

/// A disk with one file in its root: the file's three clusters of one sector lie apart.
fn disk() -> Vec<u8> {
    let mut d = vec![0u8; 20 * 512];
    d[0x0b..0x0d].copy_from_slice(&512u16.to_le_bytes());
    d[0x0d] = 1;
    d[0x0e..0x10].copy_from_slice(&2u16.to_le_bytes());
    d[0x10] = 2;
    d[0x24..0x28].copy_from_slice(&1u32.to_le_bytes());
    d[0x2c..0x30].copy_from_slice(&2u32.to_le_bytes());
    for (cluster, next) in [(2u32, 0x0fff_ffffu32), (3, 5), (5, 7), (7, 0x0fff_ffff)] {
        let at = 2 * 512 + cluster as usize * 4;
        d[at..at + 4].copy_from_slice(&next.to_le_bytes());
    }
    let root = 4 * 512;
    d[root..root + 11].copy_from_slice(b"HELLO   TXT");
    d[root + 11] = 0x20;
    d[root + 26..root + 28].copy_from_slice(&3u16.to_le_bytes());
    d[root + 28..root + 32].copy_from_slice(&1100u32.to_le_bytes());
    for (i, cluster) in [3usize, 5, 7].into_iter().enumerate() {
        let at = (4 + cluster - 2) * 512;
        for b in 0..512 {
            d[at + b] = ((i * 512 + b) % 251) as u8;
        }
    }
    d
}

#[test]
fn disk_files_are_read_across_their_clusters() {
    let img = image(&[("bin/fat32.img", &disk())]);
    let read = reader(&img);
    let mut out = [0u8; 512];
    let n = serve_file_read(&read, b"HELLO.TXT", &mut out);
    assert_eq!(n, 512);
    assert!(out.iter().enumerate().all(|(i, b)| *b == (i % 251) as u8));
    let n = serve_file_read_at(&read, b"HELLO.TXT", 500, 100, &mut out);
    assert_eq!(n, 100);
    assert!((0..100).all(|i| out[i] == ((500 + i) % 251) as u8));
    let n = serve_file_read_at(&read, b"HELLO.TXT", 1090, 100, &mut out);
    assert_eq!(n, 10);
    assert_eq!(serve_file_read_at(&read, b"HELLO.TXT", 1100, 100, &mut out), 0);
    assert_eq!(serve_file_read(&read, b"NOPE.TXT", &mut out), 0);
    let listing = list_root(&read).unwrap();
    assert!(listing.windows(5).any(|w| w == b"HELLO"));
}

#[test]
fn short_names_and_entries_follow_the_format() {
    assert_eq!(path_to_8_3(b"HELLO.TXT"), Some(*b"HELLO   TXT"));
    assert_eq!(path_to_8_3(b"TOOLONGNAME.TXT"), None);
    let d = disk();
    let layout = parse_layout(&d[..512]);
    assert_eq!(layout.sectors_per_cluster, 1);
    assert_eq!(layout.root_cluster, 2);
    let root = &d[4 * 512..5 * 512];
    assert_eq!(find_entry(root, b"HELLO   TXT"), Some((3, 1100)));
    assert_eq!(find_entry(root, b"OTHER   TXT"), None);
    assert!(!list_sector(root).is_empty());
    assert!(list_sector(&[0u8; 512]).is_empty());
}

#[test]
fn sectors_come_straight_or_through_blocks() {
    let d = disk();
    let img = image(&[("bin/fat32.img", &d)]);
    let direct = InitrdSectors {
        base: 96,
        len: d.len() as u64,
    };
    assert_eq!(direct.read_sector(&reader(&img), 4), Some(d[2048..2560].to_vec()));
    assert_eq!(direct.read_sector(&reader(&img), 20), None);
    let mut store = img.clone();
    store.resize(30 * 512, 0);
    let block = |lba: u64| {
        let at = lba as usize * 512;
        store.get(at..at + 512).map(|s| s.to_vec())
    };
    let over = BlkSectors { base: 96 };
    assert_eq!(over.read_sector(&block, 4), Some(d[2048..2560].to_vec()));
    assert_eq!(over.read_sector(&block, 100), None);
    let aligned = BlkSectors { base: 512 };
    assert_eq!(aligned.read_sector(&block, 28), Some(store[29 * 512..].to_vec()));
    assert_eq!(aligned.read_sector(&block, 29), None);
}

#[test]
fn block_replies_are_unpacked() {
    let mut reply = vec![0u8; 513];
    reply[1..9].copy_from_slice(b"KUMORD01");
    assert!(is_boot_block(&reply));
    assert_eq!(block_of(&reply), Some(&reply[1..513]));
    reply[0] = 1;
    assert!(!is_boot_block(&reply));
    assert_eq!(block_of(&reply), None);
    assert_eq!(block_of(&[0u8; 512]), None);
}

#[test]
fn bump_blocks_follow_each_other() {
    let mut heap = BumpAlloc::new();
    assert_eq!(heap.reserve(10, 8), Some(0));
    assert_eq!(heap.reserve(4, 16), Some(16));
    assert_eq!(heap.reserve(0, 1), Some(20));
    assert_eq!(heap.reserve(HEAP_SIZE, 1), None);
    assert_eq!(heap.reserve(HEAP_SIZE - 20, 1), Some(20));
    assert_eq!(heap.reserve(1, 1), None);
}

#[test]
fn failed_loads_have_their_lines() {
    assert_eq!(LoadError::Missing.text(), ": missing\n");
    assert_eq!(LoadError::NoLoadSegment.text(), ": no load\n");
    let run = LoadMode::Run {
        arg: 0,
        arg2: 0,
        flags: 0,
    };
    assert_eq!(LoadFailure::MapLength.text(run), ": map len fail\n");
    assert_eq!(LoadFailure::Run.text(run), "");
    assert_eq!(LoadFailure::Size.text(run), ": size fail\n");
    assert_eq!(LoadFailure::Size.text(LoadMode::Serve), "");
    assert_eq!(run.cleanup_text(), ": handle cleanup fail\n");
    assert_eq!(LoadMode::Serve.cleanup_text(), ": loader cleanup fail\n");
}
