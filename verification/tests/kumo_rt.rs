//! The process runtime.

use kumo_userland::abi::{Handle, STATUS_OK};
use kumo_userland::kumo_rt::heap::{
    class_index, growth_size, needed_span, BlockLayout, HeapCore, MultiRegionHeap, RegionSource,
    Release, Span, GROWTH_MIN, MAX_REGIONS, NUM_CLASSES, RETAIN_CAP,
};
use kumo_userland::kumo_rt::startup::{
    Startup, StartupStep, STARTUP_TAG_CAP0, STARTUP_TAG_STDOUT,
};
use kumo_userland::kumo_rt::{irq_window, run_one, Server};
use linked_list_allocator::Heap;
use std::mem::MaybeUninit;

struct EchoServer;

impl Server for EchoServer {
    fn name(&self) -> &'static str {
        "echo"
    }

    fn dispatch(&mut self, _channel: Handle, _message: &[u8]) -> i32 {
        STATUS_OK
    }
}

#[test]
fn dispatches_one_message() {
    let mut server = EchoServer;
    assert_eq!(run_one(&mut server, Handle(0), b"hello"), STATUS_OK);
}

#[test]
fn startup_tags_install_explicit_handles_and_reject_unknown_tags() {
    let mut startup = Startup::default();
    assert_eq!(startup.install(STARTUP_TAG_STDOUT, Handle(7)), None);
    assert_eq!(startup.install(STARTUP_TAG_CAP0, Handle(9)), None);
    assert_eq!(startup.stdout, Some(Handle(7)));
    assert_eq!(startup.cap0, Some(Handle(9)));
    assert_eq!(startup.install(b'?', Handle(11)), Some(Handle(11)));
}

#[test]
fn duplicate_startup_tag_replaces_and_returns_old_handle() {
    let mut startup = Startup::default();
    assert_eq!(startup.install(STARTUP_TAG_STDOUT, Handle(3)), None);
    assert_eq!(
        startup.install(STARTUP_TAG_STDOUT, Handle(4)),
        Some(Handle(3))
    );
    assert_eq!(startup.stdout, Some(Handle(4)));
}

#[test]
fn the_startup_message_is_read_to_its_end() {
    let mut startup = Startup::default();
    assert_eq!(startup.on_read(1, b'i', 5), StartupStep::Next);
    assert_eq!(startup.on_read(1, b'a', 0), StartupStep::Next);
    assert_eq!(
        startup.on_read(1, b'z', 6),
        StartupStep::Close { unused: Handle(6) }
    );
    assert_eq!(startup.on_read(0, b'o', 7), StartupStep::Done);
    assert_eq!(startup.stdin, Some(Handle(5)));
    assert_eq!(startup.argv, None);
    assert_eq!(startup.stdout, None);
}

#[test]
fn interrupt_windows_hold_base_and_count() {
    assert_eq!(irq_window(33, 2), 0x21_0000_0002);
}

const HOST_CHUNK: usize = 64 * 1024;

/// A span of leaked memory, with a fresh allocator over it.
fn leaked_span(len: usize) -> Span {
    let memory: &'static mut [MaybeUninit<u8>] =
        vec![MaybeUninit::<u8>::uninit(); len].leak();
    let base = memory.as_ptr() as usize;
    Span {
        heap: Heap::from_slice(memory),
        base,
        len,
    }
}

struct HostSource {
    grows_allowed: usize,
    grows_taken: usize,
}

impl HostSource {
    fn new(grows_allowed: usize) -> Self {
        Self {
            grows_allowed,
            grows_taken: 0,
        }
    }
}

impl RegionSource for HostSource {
    fn grow(&mut self, min: usize) -> Option<Span> {
        if self.grows_taken >= self.grows_allowed {
            return None;
        }
        self.grows_taken += 1;
        Some(leaked_span(min.max(HOST_CHUNK)))
    }
}

fn heap_with_floor(floor: usize, grows_allowed: usize) -> MultiRegionHeap<HostSource> {
    MultiRegionHeap::new(leaked_span(floor), HostSource::new(grows_allowed))
}

fn core_with_floor(floor: usize, grows_allowed: usize) -> HeapCore<HostSource> {
    HeapCore::new(leaked_span(floor), HostSource::new(grows_allowed))
}

fn layout(size: usize, align: usize) -> BlockLayout {
    BlockLayout { size, align }
}

/// Asserts that no two of the blocks share a byte.
fn assert_apart(blocks: &[(usize, usize)]) {
    let mut sorted = blocks.to_vec();
    sorted.sort();
    for pair in sorted.windows(2) {
        assert!(pair[0].0 + pair[0].1 <= pair[1].0, "blocks overlap");
    }
}

#[test]
fn serves_small_allocations_from_the_floor_without_growing() {
    let mut heap = heap_with_floor(16 * 1024, 8);
    let p = heap.allocate(layout(64, 8));
    assert!(p.is_some());
    assert_eq!(
        heap.region_count(),
        1,
        "a small alloc must not grow the heap"
    );
    assert_eq!(heap.owner(p.unwrap()), Some(0));
}

#[test]
fn grows_a_new_region_when_the_floor_is_exhausted() {
    let mut heap = heap_with_floor(2 * 1024, 8);
    let mut blocks = Vec::new();
    for _ in 0..64 {
        let p = heap.allocate(layout(512, 8));
        assert!(
            p.is_some(),
            "growth must keep allocations succeeding past the floor"
        );
        blocks.push((p.unwrap(), 512));
    }
    assert!(
        heap.region_count() > 1,
        "sustained allocation past the floor must admit new regions",
    );
    assert_apart(&blocks);
}

#[test]
fn dealloc_routes_across_regions_and_memory_round_trips() {
    let mut heap = heap_with_floor(2 * 1024, 32);
    let mut blocks = Vec::new();
    for i in 0..200usize {
        let size = 32 + (i % 7) * 96;
        let p = heap.allocate(layout(size, 8)).expect("allocation");
        blocks.push((p, size));
    }
    assert_apart(&blocks);
    for (p, size) in blocks {
        let owner = heap.owner(p).expect("owner");
        let span = heap.regions.slots[owner].as_ref().expect("region");
        assert!(span.base <= p && p + size <= span.base + span.len);
        assert!(span.contains(p));
    }
    assert_eq!(heap.owner(1), None);
    assert!(
        heap.region_count() > 1,
        "the churn should have forced growth"
    );
}

#[test]
fn returns_null_when_the_source_is_tapped_out() {
    let mut heap = heap_with_floor(1024, 0);
    let mut got_none = false;
    for _ in 0..32 {
        if heap.allocate(layout(512, 8)).is_none() {
            got_none = true;
            break;
        }
    }
    assert!(
        got_none,
        "a heap with no growth source must return none when full"
    );
    assert_eq!(
        heap.region_count(),
        1,
        "no region admitted when growth is denied"
    );
}

#[test]
fn size_class_recycles_a_freed_block_of_the_same_class() {
    let mut core = core_with_floor(16 * 1024, 4);
    let asked = layout(48, 8); // rounds up to the 64 class
    let p1 = core.allocate(asked);
    assert!(p1.is_some());
    assert_eq!(core.release(p1.unwrap(), asked), Release::Retained);
    assert_eq!(core.cache_len(2), 1, "a class-sized free must be retained");
    let p2 = core.allocate(asked);
    assert_eq!(p2, p1, "a same-class alloc must recycle the freed block");
    assert_eq!(core.cache_len(2), 0, "the recycled block leaves the list");
}

#[test]
fn size_class_returns_overflow_past_the_retention_cap_to_the_backing() {
    let mut core = core_with_floor(256 * 1024, 8);
    let asked = layout(16, 8); // the smallest class
    let mut blocks = Vec::new();
    for _ in 0..(RETAIN_CAP + 10) {
        blocks.push(core.allocate(asked).expect("allocation"));
    }
    let mut returned = 0;
    for p in blocks {
        match core.release(p, asked) {
            Release::Retained => {}
            Release::Returned { layout: l, region } => {
                assert_eq!(l, layout(16, 16));
                assert_eq!(region, Some(0));
                returned += 1;
            }
        }
    }
    assert_eq!(returned, 10);
    assert_eq!(
        core.cache_len(0),
        RETAIN_CAP,
        "the class list must saturate at the retention cap"
    );
}

#[test]
fn large_and_overaligned_requests_bypass_the_cache() {
    let mut core = core_with_floor(64 * 1024, 8);
    let big = layout(1024, 8);
    let pb = core.allocate(big).expect("allocation");
    assert_eq!(
        core.release(pb, big),
        Release::Returned {
            layout: big,
            region: Some(0)
        }
    );
    let aligned = layout(64, 64);
    let pa = core.allocate(aligned).expect("allocation");
    assert_eq!(pa % 64, 0, "over-aligned request must honor its align");
    assert_eq!(
        core.release(pa, aligned),
        Release::Returned {
            layout: aligned,
            region: Some(0)
        }
    );
    for index in 0..NUM_CLASSES {
        assert_eq!(
            core.cache_len(index),
            0,
            "bypassing requests must never populate a class list"
        );
    }
}

#[test]
fn size_class_round_trips_memory_under_mixed_churn() {
    let mut core = core_with_floor(4 * 1024, 32);
    let mut live: Vec<(usize, BlockLayout)> = Vec::new();
    for i in 0..400usize {
        let asked = layout([8, 24, 100, 200, 600][i % 5], 8);
        let p = core.allocate(asked).expect("allocation");
        live.push((p, asked));
        if i % 3 == 0 && live.len() > 5 {
            let (op, ol) = live.remove(1);
            core.release(op, ol);
        }
        let blocks: Vec<(usize, usize)> = live.iter().map(|(p, l)| (*p, l.size)).collect();
        assert_apart(&blocks);
    }
    for (p, asked) in live {
        core.release(p, asked);
    }
    assert!(
        core.region_count() > 1,
        "sustained churn should still drive backing growth under the cache"
    );
}

#[test]
fn the_number_of_regions_is_capped() {
    let mut heap = heap_with_floor(1024, 1000);
    let mut blocks = 0;
    while heap.allocate(layout(HOST_CHUNK, 8)).is_some() {
        blocks += 1;
    }
    assert_eq!(heap.region_count(), MAX_REGIONS);
    assert_eq!(blocks, MAX_REGIONS - 1);
}

#[test]
fn classes_and_spans_follow_the_layout() {
    assert_eq!(class_index(layout(0, 1)), Some(0));
    assert_eq!(class_index(layout(17, 16)), Some(1));
    assert_eq!(class_index(layout(256, 8)), Some(4));
    assert_eq!(class_index(layout(257, 8)), None);
    assert_eq!(class_index(layout(8, 32)), None);
    assert_eq!(needed_span(layout(100, 8)), 124);
    assert_eq!(needed_span(layout(usize::MAX, 8)), usize::MAX);
    assert_eq!(growth_size(1), Some(GROWTH_MIN));
    assert_eq!(growth_size(GROWTH_MIN + 1), Some(GROWTH_MIN + 4096));
    assert_eq!(growth_size(usize::MAX), None);
}

#[test]
fn no_block_is_rounded_past_the_end_of_the_address_space() {
    let at_the_top = Span {
        heap: Heap::empty(),
        base: usize::MAX - 100,
        len: 50,
    };
    let mut heap = MultiRegionHeap::new(at_the_top, HostSource::new(0));
    assert_eq!(heap.allocate(layout(8, 64)), None);
    let mut heap = heap_with_floor(16 * 1024, 0);
    assert_eq!(heap.allocate(layout(8, 1 << (usize::BITS - 1))), None);
    assert!(heap.allocate(layout(8, 64)).is_some());
}
