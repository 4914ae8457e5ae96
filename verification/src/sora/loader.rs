//! Loading an executable of the boot image into a new process: what to load,
//! and the sequence of kernel calls that loads it.

use vstd::prelude::*;

use crate::abi::{handle_of, to_handle, Handle, NO_HANDLE};
use crate::bytes;
use crate::persona_linux::elf;
use crate::sora::initrd;
use crate::sora::vmo;

verus! {

pub const PAGE_SIZE: u64 = 4096;

pub const MAX_SEGMENTS: usize = 8;

pub const CHUNK_LEN: u64 = 256;

pub const STACK_TOP: u64 = 0x1001_0000;

pub const STACK_SIZE: u64 = 0x4000;

/// Initial stack pointer of a new process.
pub const INITIAL_SP: u64 = 0x1000_fff0;

/// Extent of a new process's address range.
pub const CHILD_RANGE: u64 = 0x2000_0000;

/// The page that holds `value`.
pub open spec fn page_floor(value: int) -> int {
    value - value % 4096
}

/// The end of the page that holds the byte before `value`.
pub open spec fn page_ceil(value: int) -> int {
    page_floor(value + 4095)
}

/// Rounds down to a page boundary.
pub fn align_down(value: u64) -> (r: u64)
    ensures
        r == page_floor(value as int),
{
    value - value % PAGE_SIZE
}

/// Rounds up to a page boundary, where that fits.
pub fn align_up(value: u64) -> (r: Option<u64>)
    ensures
        r is Some <==> value + 4095 <= u64::MAX,
        r matches Some(v) ==> v == page_ceil(value as int),
{
    match value.checked_add(PAGE_SIZE - 1) {
        None => None,
        Some(v) => Some(align_down(v)),
    }
}

/// The mapping permission bits for a segment's flags: read is bit 0, write
/// bit 1, execute bit 2, each where the segment's flag is set.
pub open spec fn page_flags_of(flags: u32) -> u64 {
    ((if flags & 4 != 0 {
        1int
    } else {
        0
    }) + (if flags & 2 != 0 {
        2int
    } else {
        0
    }) + (if flags & 1 != 0 {
        4int
    } else {
        0
    })) as u64
}

/// Translates a segment's flags to mapping permissions.
pub fn page_flags(elf_flags: u32) -> (r: u64)
    ensures
        r == page_flags_of(elf_flags),
{
    let mut flags: u64 = 0;
    if elf_flags & elf::PF_R != 0 {
        flags = flags + 1;
    }
    if elf_flags & elf::PF_W != 0 {
        flags = flags + 2;
    }
    if elf_flags & elf::PF_X != 0 {
        flags = flags + 4;
    }
    flags
}

/// One segment to load.
#[derive(Clone, Copy, Debug, PartialEq, Eq, Structural)]
pub struct LoadSegment {
    pub file_offset: u64,
    pub file_size: u64,
    pub virt_addr: u64,
    pub mem_size: u64,
    pub flags: u64,
}

/// Why an executable cannot be loaded.
#[derive(Clone, Copy, Debug, PartialEq, Eq, Structural)]
pub enum LoadError {
    Missing,
    HeaderRead,
    BadHeader,
    ProgramHeaderRange,
    ProgramHeaderRead,
    BadProgramHeader,
    SegmentRange,
    NoLoadSegment,
}

impl LoadError {
    /// What the log says of it, behind the name of the program.
    pub open spec fn text_of(self) -> Seq<char> {
        match self {
            LoadError::Missing => ": missing\n"@,
            LoadError::HeaderRead => ": hdr read fail\n"@,
            LoadError::BadHeader => ": bad hdr\n"@,
            LoadError::ProgramHeaderRange => ": ph range fail\n"@,
            LoadError::ProgramHeaderRead => ": ph read fail\n"@,
            LoadError::BadProgramHeader => ": bad ph\n"@,
            LoadError::SegmentRange => ": segment range fail\n"@,
            LoadError::NoLoadSegment => ": no load\n"@,
        }
    }

    /// Returns [`LoadError::text_of`].
    pub fn text(self) -> (s: &'static str)
        ensures
            s@ == self.text_of(),
    {
        match self {
            LoadError::Missing => ": missing\n",
            LoadError::HeaderRead => ": hdr read fail\n",
            LoadError::BadHeader => ": bad hdr\n",
            LoadError::ProgramHeaderRange => ": ph range fail\n",
            LoadError::ProgramHeaderRead => ": ph read fail\n",
            LoadError::BadProgramHeader => ": bad ph\n",
            LoadError::SegmentRange => ": segment range fail\n",
            LoadError::NoLoadSegment => ": no load\n",
        }
    }
}

/// What to load: where the file lies in the boot image, its entry point, its
/// segments, and how many bytes of memory they span.
#[derive(Debug)]
pub struct LoadPlan {
    pub file_offset: u64,
    pub entry: u64,
    pub segments: Vec<LoadSegment>,
    pub span: u64,
}

/// A plan's fields as mathematical values.
#[verifier::ext_equal]
pub struct PlanView {
    pub file_offset: u64,
    pub entry: u64,
    pub segments: Seq<LoadSegment>,
    pub span: u64,
}

impl View for LoadPlan {
    type V = PlanView;

    open spec fn view(&self) -> PlanView {
        PlanView {
            file_offset: self.file_offset,
            entry: self.entry,
            segments: self.segments@,
            span: self.span,
        }
    }
}

/// The larger of two integers.
pub open spec fn max(a: int, b: int) -> int {
    if a >= b {
        a
    } else {
        b
    }
}

/// The segment that a loadable program header describes.
pub open spec fn segment_of(ph: elf::ProgramHeader) -> LoadSegment {
    LoadSegment {
        file_offset: ph.file_offset,
        file_size: ph.file_size,
        virt_addr: ph.virt_addr,
        mem_size: ph.mem_size,
        flags: page_flags_of(ph.flags),
    }
}

/// Collects the loadable segments from program header `i` on, and the highest
/// end of a segment in memory, counted from the start of the file.
pub open spec fn segments_from(
    image: vmo::Vmo,
    table: int,
    file_len: u64,
    i: int,
    count: int,
    found: Seq<LoadSegment>,
    span: int,
) -> Result<(Seq<LoadSegment>, int), LoadError>
    decreases count - i,
{
    if i >= count {
        Ok((found, span))
    } else {
        let at = table + 56 * i;
        match (if at <= u64::MAX {
            image(at as u64, 56)
        } else {
            None
        }) {
            None => Err(LoadError::ProgramHeaderRead),
            Some(raw) => match elf::program_header_of(raw) {
                Err(_) => Err(LoadError::BadProgramHeader),
                Ok(ph) => if ph.kind != 1 {
                    segments_from(image, table, file_len, i + 1, count, found, span)
                } else if initrd::sat_add(ph.file_offset as int, ph.file_size as int) > file_len {
                    Err(LoadError::SegmentRange)
                } else {
                    segments_from(
                        image,
                        table,
                        file_len,
                        i + 1,
                        count,
                        found.push(segment_of(ph)),
                        max(span, initrd::sat_add(ph.file_offset as int, ph.mem_size as int)),
                    )
                },
            },
        }
    }
}

/// What a boot image's file `path` loads as.
pub open spec fn plan_of(image: vmo::Vmo, path: Seq<u8>) -> Result<PlanView, LoadError> {
    match initrd::find_file(image, path) {
        None => Err(LoadError::Missing),
        Some((off, len)) => match image(off, 64) {
            None => Err(LoadError::HeaderRead),
            Some(raw) => match elf::header_of(raw) {
                Err(_) => Err(LoadError::BadHeader),
                Ok(h) => if h.phnum > 8 || initrd::sat_add(h.phoff as int, 56 * h.phnum) > len {
                    Err(LoadError::ProgramHeaderRange)
                } else {
                    match segments_from(
                        image,
                        off + h.phoff,
                        len,
                        0,
                        h.phnum as int,
                        Seq::empty(),
                        0,
                    ) {
                        Err(e) => Err(e),
                        Ok((segments, span)) => if segments.len() == 0 {
                            Err(LoadError::NoLoadSegment)
                        } else {
                            Ok(
                                PlanView {
                                    file_offset: off,
                                    entry: h.entry,
                                    segments,
                                    span: span as u64,
                                },
                            )
                        },
                    }
                },
            },
        },
    }
}

/// Whether a planning result is the one stated.
pub open spec fn plan_is(
    r: Result<LoadPlan, LoadError>,
    expected: Result<PlanView, LoadError>,
) -> bool {
    match (r, expected) {
        (Ok(plan), Ok(view)) => plan@ == view,
        (Err(a), Err(b)) => a == b,
        _ => false,
    }
}

/// Works out what to load for the file `path`.
pub fn plan_load<R: Fn(u64, usize) -> Option<Vec<u8>>>(read: &R, path: &[u8]) -> (r: Result<
    LoadPlan,
    LoadError,
>)
    requires
        vmo::is_reader(*read),
    ensures
        forall|image: vmo::Vmo| #[trigger]
            vmo::follows(*read, image) ==> plan_is(r, plan_of(image, path@)),
        r matches Ok(plan) ==> 1 <= plan.segments@.len() <= MAX_SEGMENTS,
{
    let (off, len): (u64, u64) = match initrd::find_initrd_file(read, path) {
        None => return Err(LoadError::Missing),
        Some(file) => file,
    };
    let raw = match (*read)(off, elf::ELF_HEADER_LEN) {
        None => return Err(LoadError::HeaderRead),
        Some(raw) => raw,
    };
    let h: elf::ElfHeader = match elf::parse_header(&raw) {
        Err(_) => return Err(LoadError::BadHeader),
        Ok(h) => h,
    };
    if h.phnum > 8 || h.phoff.saturating_add(56 * (h.phnum as u64)) > len {
        return Err(LoadError::ProgramHeaderRange);
    }
    let mut segments: Vec<LoadSegment> = Vec::new();
    let mut span: u64 = 0;
    let mut i: u64 = 0;
    let count: u64 = h.phnum as u64;
    while i < count
        invariant
            vmo::is_reader(*read),
            i <= count <= 8,
            segments@.len() <= i,
            count == h.phnum,
            forall|image: vmo::Vmo| #[trigger]
                vmo::follows(*read, image) ==> {
                    let whole = segments_from(
                        image,
                        off + h.phoff,
                        len,
                        0,
                        count as int,
                        Seq::empty(),
                        0,
                    );
                    &&& whole == segments_from(
                        image,
                        off + h.phoff,
                        len,
                        i as int,
                        count as int,
                        segments@,
                        span as int,
                    )
                    &&& plan_of(image, path@) == match whole {
                        Err(e) => Err(e),
                        Ok((found, end)) => if found.len() == 0 {
                            Err(LoadError::NoLoadSegment)
                        } else {
                            Ok(
                                PlanView {
                                    file_offset: off,
                                    entry: h.entry,
                                    segments: found,
                                    span: end as u64,
                                },
                            )
                        },
                    }
                },
        decreases count - i,
    {
        let at: u64 = match off.checked_add(h.phoff) {
            None => return Err(LoadError::ProgramHeaderRead),
            Some(table) => match table.checked_add(56 * i) {
                None => return Err(LoadError::ProgramHeaderRead),
                Some(at) => at,
            },
        };
        let raw = match (*read)(at, elf::ELF_PHDR_LEN) {
            None => return Err(LoadError::ProgramHeaderRead),
            Some(raw) => raw,
        };
        let ph: elf::ProgramHeader = match elf::parse_program_header(&raw) {
            Err(_) => return Err(LoadError::BadProgramHeader),
            Ok(ph) => ph,
        };
        if ph.kind == elf::PT_LOAD {
            if ph.file_offset.saturating_add(ph.file_size) > len {
                return Err(LoadError::SegmentRange);
            }
            let end: u64 = ph.file_offset.saturating_add(ph.mem_size);
            if end > span {
                span = end;
            }
            segments.push(
                LoadSegment {
                    file_offset: ph.file_offset,
                    file_size: ph.file_size,
                    virt_addr: ph.virt_addr,
                    mem_size: ph.mem_size,
                    flags: page_flags(ph.flags),
                },
            );
        }
        i += 1;
    }
    if segments.len() == 0 {
        return Err(LoadError::NoLoadSegment);
    }
    Ok(LoadPlan { file_offset: off, entry: h.entry, segments, span })
}

/// What becomes of a loaded process: it is run at once with two arguments, or
/// it is handed to a supervisor with a request channel.
#[derive(Clone, Copy, Debug, PartialEq, Eq, Structural)]
pub enum LoadMode {
    Run { arg: u64, arg2: u64, flags: u64 },
    Serve,
}

impl LoadMode {
    /// What the log says, behind the name of the program, where a handle could not be closed.
    pub fn cleanup_text(self) -> (s: &'static str)
        ensures
            s@ == (if self is Serve {
                ": loader cleanup fail\n"@
            } else {
                ": handle cleanup fail\n"@
            }),
    {
        match self {
            LoadMode::Serve => ": loader cleanup fail\n",
            LoadMode::Run { .. } => ": handle cleanup fail\n",
        }
    }
}

/// The step at which a load stopped.
#[derive(Clone, Copy, Debug, PartialEq, Eq, Structural)]
pub enum LoadFailure {
    Size,
    Vmo,
    Copy,
    Process,
    MapLength,
    MapSegment,
    Stack,
    Run,
    Channel,
}

impl LoadFailure {
    /// What the log says of it, behind the name of the program: nothing of a process that does
    /// not run, nor of the size of a server.
    pub open spec fn text_of(self, mode: LoadMode) -> Seq<char> {
        match self {
            LoadFailure::Size => if mode is Serve {
                ""@
            } else {
                ": size fail\n"@
            },
            LoadFailure::Vmo => ": vmo fail\n"@,
            LoadFailure::Copy => ": copy fail\n"@,
            LoadFailure::Process => ": process fail\n"@,
            LoadFailure::MapLength => ": map len fail\n"@,
            LoadFailure::MapSegment => ": map fail\n"@,
            LoadFailure::Stack => ": as fail\n"@,
            LoadFailure::Run => ""@,
            LoadFailure::Channel => ": channel fail\n"@,
        }
    }

    /// Returns [`LoadFailure::text_of`].
    pub fn text(self, mode: LoadMode) -> (s: &'static str)
        ensures
            s@ == self.text_of(mode),
    {
        match self {
            LoadFailure::Size => match mode {
                LoadMode::Serve => "",
                LoadMode::Run { .. } => ": size fail\n",
            },
            LoadFailure::Vmo => ": vmo fail\n",
            LoadFailure::Copy => ": copy fail\n",
            LoadFailure::Process => ": process fail\n",
            LoadFailure::MapLength => ": map len fail\n",
            LoadFailure::MapSegment => ": map fail\n",
            LoadFailure::Stack => ": as fail\n",
            LoadFailure::Run => "",
            LoadFailure::Channel => ": channel fail\n",
        }
    }
}

/// Where a load stands.
#[derive(Clone, Copy, Debug, PartialEq, Eq, Structural)]
pub enum LoadPhase {
    Allocate,
    Copy { segment: usize, copied: u64 },
    Spawn,
    MapSegment { segment: usize },
    Stack,
    Start,
    Connect,
    Cleanup { slot: usize },
    Finished,
}

/// The kernel call that a load waits for. `Copy` stands for a read of the boot
/// image and a write of the same bytes to the new memory object.
#[derive(Clone, Copy, Debug, PartialEq, Eq, Structural)]
pub enum LoadCall {
    CreateVmo { len: u64 },
    Copy { from: u64, to: u64, len: u64 },
    CreateProcess { base: u64, len: u64 },
    MapSegment { process: Handle, vmo: Handle, vmo_offset: u64, virt: u64, len: u64, flags: u64 },
    CreateStack { process: Handle, top: u64, len: u64 },
    Run { process: Handle, entry: u64, sp: u64, arg: u64, arg2: u64, flags: u64 },
    CreateChannel,
    Close { handle: Handle },
    Nothing,
}

/// What a supervisor gets for a served process.
#[derive(Clone, Copy, Debug, PartialEq, Eq, Structural)]
pub struct Loaded {
    pub process: Handle,
    pub entry: u64,
    pub sp: u64,
    pub server: Handle,
    pub client: Handle,
}

/// A load in progress: the plan, the handles acquired so far, and how it goes.
#[derive(Debug)]
pub struct Loader {
    pub plan: LoadPlan,
    pub vmo_len: u64,
    pub mode: LoadMode,
    pub phase: LoadPhase,
    pub vmo: Option<Handle>,
    pub process: Option<Handle>,
    pub client: Option<Handle>,
    pub server: Option<Handle>,
    pub loaded: bool,
    pub clean: bool,
    pub failure: Option<LoadFailure>,
}

/// Length of a segment's mapping: from the page of its first byte to the end
/// of the page of its last. `None` where that does not fit.
pub open spec fn map_len(s: LoadSegment) -> Option<u64> {
    let end = initrd::sat_add(s.virt_addr as int % 4096, s.mem_size as int);
    if end + 4095 <= u64::MAX {
        Some(page_ceil(end) as u64)
    } else {
        None
    }
}

/// The copy of the next chunk at or after byte `copied` of segment `i`, or the
/// step after copying.
pub open spec fn copy_phase(segments: Seq<LoadSegment>, i: int, copied: u64) -> LoadPhase
    decreases segments.len() - i,
{
    if i >= segments.len() {
        LoadPhase::Spawn
    } else if copied < segments[i].file_size {
        LoadPhase::Copy { segment: i as usize, copied }
    } else {
        copy_phase(segments, i + 1, 0)
    }
}

/// Every byte range that the load copies can be addressed.
pub open spec fn copies_fit(p: PlanView) -> bool {
    forall|i: int|
        0 <= i < p.segments.len() ==> p.file_offset + (#[trigger] p.segments[i]).file_offset
            + p.segments[i].file_size <= u64::MAX
}

/// How many bytes of memory a plan needs. A load that runs at once rejects an
/// empty one.
pub open spec fn vmo_len_of(span: u64, mode: LoadMode) -> Option<u64> {
    if span + 4095 > u64::MAX || (mode is Run && page_ceil(span as int) == 0) {
        None
    } else {
        Some(page_ceil(span as int) as u64)
    }
}

impl Loader {
    /// The handle that cleanup slot `i` holds: the memory object, the process
    /// and the two ends of the request channel.
    pub open spec fn slot(self, i: int) -> Option<Handle> {
        if i == 0 {
            self.vmo
        } else if i == 1 {
            self.process
        } else if i == 2 {
            self.client
        } else {
            self.server
        }
    }

    /// Handles that go to the supervisor.
    pub open spec fn kept(self, h: Handle) -> bool {
        self.loaded && self.mode is Serve && (self.process == Some(h) || self.client == Some(h)
            || self.server == Some(h))
    }

    /// The handles that cleanup closes from slot `i` on, in order.
    pub open spec fn closes_from(self, i: int) -> Seq<Handle>
        decreases 4 - i,
    {
        if i >= 4 {
            Seq::empty()
        } else {
            match self.slot(i) {
                Some(h) => if self.kept(h) {
                    self.closes_from(i + 1)
                } else {
                    seq![h] + self.closes_from(i + 1)
                },
                None => self.closes_from(i + 1),
            }
        }
    }

    /// The first slot from `i` on whose handle has to be closed.
    pub open spec fn cleanup_phase(self, i: int) -> LoadPhase
        decreases 4 - i,
    {
        if i >= 4 {
            LoadPhase::Finished
        } else {
            match self.slot(i) {
                Some(h) => if self.kept(h) {
                    self.cleanup_phase(i + 1)
                } else {
                    LoadPhase::Cleanup { slot: i as usize }
                },
                None => self.cleanup_phase(i + 1),
            }
        }
    }

    /// The state after the loading proper ended, with or without success.
    pub open spec fn ended(self, failure: Option<LoadFailure>) -> Loader {
        let s = Loader { loaded: failure is None, failure, ..self };
        Loader { phase: s.cleanup_phase(0), ..s }
    }

    /// The state that maps segment `i` next, or sets the stack up after the
    /// last one.
    pub open spec fn mapping(self, i: int) -> Loader {
        if i >= self.plan.segments@.len() {
            Loader { phase: LoadPhase::Stack, ..self }
        } else if map_len(self.plan.segments@[i]) is Some {
            Loader { phase: LoadPhase::MapSegment { segment: i as usize }, ..self }
        } else {
            self.ended(Some(LoadFailure::MapLength))
        }
    }

    /// Length of the next chunk of a segment.
    pub open spec fn chunk(self, segment: int, copied: u64) -> int {
        let left = self.plan.segments@[segment].file_size - copied;
        if left < 256 {
            left
        } else {
            256
        }
    }

    /// What holds of every load: the phase's operands exist.
    pub open spec fn wf(self) -> bool {
        &&& copies_fit(self.plan@)
        &&& match self.phase {
            LoadPhase::Allocate => self.vmo is None && self.process is None && self.client is None
                && self.server is None && !self.loaded,
            LoadPhase::Copy { segment, copied } => self.vmo is Some && segment
                < self.plan.segments@.len() && copied < self.plan.segments@[segment
                as int].file_size && !self.loaded,
            LoadPhase::Spawn => self.vmo is Some && !self.loaded,
            LoadPhase::MapSegment { segment } => self.vmo is Some && self.process is Some && segment
                < self.plan.segments@.len() && map_len(self.plan.segments@[segment as int]) is Some
                && !self.loaded,
            LoadPhase::Stack | LoadPhase::Connect => self.vmo is Some && self.process is Some
                && !self.loaded,
            LoadPhase::Start => self.vmo is Some && self.process is Some && self.mode is Run
                && !self.loaded,
            LoadPhase::Cleanup { slot } => slot < 4 && self.slot(slot as int) is Some
                && !self.kept(self.slot(slot as int)->0) && (self.loaded && self.mode is Serve
                ==> self.process is Some && self.server is Some && self.client is Some),
            LoadPhase::Finished => self.loaded && self.mode is Serve ==> self.process is Some
                && self.server is Some && self.client is Some,
        }
    }

    /// The call that the load waits for.
    pub open spec fn call_of(self) -> LoadCall {
        match self.phase {
            LoadPhase::Allocate => LoadCall::CreateVmo { len: self.vmo_len },
            LoadPhase::Copy { segment, copied } => {
                let s = self.plan.segments@[segment as int];
                LoadCall::Copy {
                    from: (self.plan.file_offset + s.file_offset + copied) as u64,
                    to: (s.file_offset + copied) as u64,
                    len: self.chunk(segment as int, copied) as u64,
                }
            },
            LoadPhase::Spawn => LoadCall::CreateProcess { base: 0, len: CHILD_RANGE },
            LoadPhase::MapSegment { segment } => {
                let s = self.plan.segments@[segment as int];
                LoadCall::MapSegment {
                    process: self.process->0,
                    vmo: self.vmo->0,
                    vmo_offset: page_floor(s.file_offset as int) as u64,
                    virt: page_floor(s.virt_addr as int) as u64,
                    len: map_len(s)->0,
                    flags: s.flags,
                }
            },
            LoadPhase::Stack => LoadCall::CreateStack {
                process: self.process->0,
                top: STACK_TOP,
                len: STACK_SIZE,
            },
            LoadPhase::Start => match self.mode {
                LoadMode::Run { arg, arg2, flags } => LoadCall::Run {
                    process: self.process->0,
                    entry: self.plan.entry,
                    sp: INITIAL_SP,
                    arg,
                    arg2,
                    flags,
                },
                LoadMode::Serve => LoadCall::Nothing,
            },
            LoadPhase::Connect => LoadCall::CreateChannel,
            LoadPhase::Cleanup { slot } => LoadCall::Close { handle: self.slot(slot as int)->0 },
            LoadPhase::Finished => LoadCall::Nothing,
        }
    }

    /// The state after the call returned `a` (and `b`, where it returns two
    /// results).
    pub open spec fn after(self, a: u64, b: u64) -> Loader {
        match self.phase {
            LoadPhase::Allocate => if a == u64::MAX {
                Loader {
                    phase: LoadPhase::Finished,
                    failure: Some(LoadFailure::Vmo),
                    ..self
                }
            } else {
                Loader {
                    vmo: Some(handle_of(a)),
                    phase: copy_phase(self.plan.segments@, 0, 0),
                    ..self
                }
            },
            LoadPhase::Copy { segment, copied } => if a != 0 {
                self.ended(Some(LoadFailure::Copy))
            } else {
                Loader {
                    phase: copy_phase(
                        self.plan.segments@,
                        segment as int,
                        (copied + self.chunk(segment as int, copied)) as u64,
                    ),
                    ..self
                }
            },
            LoadPhase::Spawn => if a == u64::MAX {
                self.ended(Some(LoadFailure::Process))
            } else {
                (Loader { process: Some(handle_of(a)), ..self }).mapping(0)
            },
            LoadPhase::MapSegment { segment } => if a != 0 {
                self.ended(Some(LoadFailure::MapSegment))
            } else {
                self.mapping(segment + 1)
            },
            LoadPhase::Stack => if a == u64::MAX {
                self.ended(Some(LoadFailure::Stack))
            } else {
                Loader {
                    phase: if self.mode is Run {
                        LoadPhase::Start
                    } else {
                        LoadPhase::Connect
                    },
                    ..self
                }
            },
            LoadPhase::Start => self.ended(
                if a == 0 {
                    None
                } else {
                    Some(LoadFailure::Run)
                },
            ),
            LoadPhase::Connect => {
                let s = Loader {
                    client: if a == u64::MAX {
                        None
                    } else {
                        Some(handle_of(a))
                    },
                    server: if b == u64::MAX {
                        None
                    } else {
                        Some(handle_of(b))
                    },
                    ..self
                };
                s.ended(
                    if a == u64::MAX || b == u64::MAX {
                        Some(LoadFailure::Channel)
                    } else {
                        None
                    },
                )
            },
            LoadPhase::Cleanup { slot } => {
                let s = Loader { clean: self.clean && a == 0, ..self };
                Loader { phase: s.cleanup_phase(slot + 1), ..s }
            },
            LoadPhase::Finished => self,
        }
    }

    /// Prepares a load. Nothing is acquired yet, so nothing has to be released
    /// where the plan's memory does not fit.
    pub fn new(plan: LoadPlan, mode: LoadMode) -> (r: Result<Loader, LoadFailure>)
        ensures
            match r {
                Ok(l) => l.wf() && l.plan@ == plan@ && l.mode == mode && Some(l.vmo_len)
                    == vmo_len_of(plan.span, mode) && l.phase is Allocate && l.clean
                    && l.failure is None && copies_fit(plan@),
                Err(LoadFailure::Size) => vmo_len_of(plan.span, mode) is None,
                Err(e) => e == LoadFailure::Copy && vmo_len_of(plan.span, mode) is Some
                    && !copies_fit(plan@),
            },
    {
        let vmo_len: u64 = match align_up(plan.span) {
            None => return Err(LoadFailure::Size),
            Some(len) => len,
        };
        match mode {
            LoadMode::Run { .. } => {
                if vmo_len == 0 {
                    return Err(LoadFailure::Size);
                }
            },
            LoadMode::Serve => {},
        }
        let mut i: usize = 0;
        while i < plan.segments.len()
            invariant
                i <= plan.segments@.len(),
                vmo_len_of(plan.span, mode) is Some,
                forall|j: int|
                    0 <= j < i ==> plan.file_offset + (
                    #[trigger] plan.segments@[j]).file_offset + plan.segments@[j].file_size
                        <= u64::MAX,
            decreases plan.segments@.len() - i,
        {
            let s: LoadSegment = plan.segments[i];
            let fits: bool = match plan.file_offset.checked_add(s.file_offset) {
                None => false,
                Some(at) => at.checked_add(s.file_size).is_some(),
            };
            if !fits {
                assert(!copies_fit(plan@)) by {
                    let bad = plan@.segments[i as int];
                    assert(plan@.file_offset + bad.file_offset + bad.file_size > u64::MAX);
                }
                return Err(LoadFailure::Copy);
            }
            i += 1;
        }
        Ok(
            Loader {
                plan,
                vmo_len,
                mode,
                phase: LoadPhase::Allocate,
                vmo: None,
                process: None,
                client: None,
                server: None,
                loaded: false,
                clean: true,
                failure: None,
            },
        )
    }

    fn handle_at(&self, i: usize) -> (h: Option<Handle>)
        ensures
            h == self.slot(i as int),
    {
        if i == 0 {
            self.vmo
        } else if i == 1 {
            self.process
        } else if i == 2 {
            self.client
        } else {
            self.server
        }
    }

    fn keeps(&self, h: Handle) -> (r: bool)
        ensures
            r == self.kept(h),
    {
        let serve: bool = match self.mode {
            LoadMode::Serve => true,
            LoadMode::Run { .. } => false,
        };
        let is_process: bool = match self.process {
            Some(p) => p == h,
            None => false,
        };
        let is_client: bool = match self.client {
            Some(p) => p == h,
            None => false,
        };
        let is_server: bool = match self.server {
            Some(p) => p == h,
            None => false,
        };
        self.loaded && serve && (is_process || is_client || is_server)
    }

    fn cleanup_from(&self, from: usize) -> (p: LoadPhase)
        requires
            from <= 4,
        ensures
            p == self.cleanup_phase(from as int),
            p matches LoadPhase::Cleanup { slot } ==> slot < 4 && self.slot(slot as int) is Some
                && !self.kept(self.slot(slot as int)->0),
            p is Cleanup || p is Finished,
    {
        let mut i: usize = from;
        while i < 4
            invariant
                i <= 4,
                self.cleanup_phase(from as int) == self.cleanup_phase(i as int),
            decreases 4 - i,
        {
            match self.handle_at(i) {
                Some(h) => {
                    if !self.keeps(h) {
                        return LoadPhase::Cleanup { slot: i };
                    }
                },
                None => {},
            }
            i += 1;
        }
        LoadPhase::Finished
    }

    fn end(&mut self, failure: Option<LoadFailure>)
        requires
            copies_fit(old(self).plan@),
            failure is None && old(self).mode is Serve ==> old(self).process is Some && old(
                self,
            ).server is Some && old(self).client is Some,
        ensures
            *final(self) == old(self).ended(failure),
            final(self).wf(),
    {
        self.loaded = failure.is_none();
        self.failure = failure;
        self.phase = self.cleanup_from(0);
    }

    fn next_copy(&self, segment: usize, copied: u64) -> (p: LoadPhase)
        ensures
            p == copy_phase(self.plan.segments@, segment as int, copied),
            p matches LoadPhase::Copy { segment: s, copied: c } ==> s < self.plan.segments@.len()
                && c < self.plan.segments@[s as int].file_size,
            p is Copy || p is Spawn,
    {
        let mut i: usize = segment;
        let mut from: u64 = copied;
        while i < self.plan.segments.len()
            invariant
                copy_phase(self.plan.segments@, segment as int, copied) == copy_phase(
                    self.plan.segments@,
                    i as int,
                    from,
                ),
            decreases self.plan.segments@.len() - i,
        {
            if from < self.plan.segments[i].file_size {
                return LoadPhase::Copy { segment: i, copied: from };
            }
            i += 1;
            from = 0;
        }
        LoadPhase::Spawn
    }

    fn map_next(&mut self, i: usize)
        requires
            copies_fit(old(self).plan@),
            old(self).vmo is Some,
            old(self).process is Some,
            !old(self).loaded,
        ensures
            *final(self) == old(self).mapping(i as int),
            final(self).wf(),
    {
        if i >= self.plan.segments.len() {
            self.phase = LoadPhase::Stack;
        } else if segment_map_len(self.plan.segments[i]).is_some() {
            self.phase = LoadPhase::MapSegment { segment: i };
        } else {
            self.end(Some(LoadFailure::MapLength));
        }
    }

    /// The call to make next.
    pub fn call(&self) -> (c: LoadCall)
        requires
            self.wf(),
        ensures
            c == self.call_of(),
    {
        match self.phase {
            LoadPhase::Allocate => LoadCall::CreateVmo { len: self.vmo_len },
            LoadPhase::Copy { segment, copied } => {
                let s: LoadSegment = self.plan.segments[segment];
                assert(self.plan@.segments[segment as int] == s);
                let left: u64 = s.file_size - copied;
                let len: u64 = if left < CHUNK_LEN {
                    left
                } else {
                    CHUNK_LEN
                };
                LoadCall::Copy {
                    from: self.plan.file_offset + s.file_offset + copied,
                    to: s.file_offset + copied,
                    len,
                }
            },
            LoadPhase::Spawn => LoadCall::CreateProcess { base: 0, len: CHILD_RANGE },
            LoadPhase::MapSegment { segment } => {
                let s: LoadSegment = self.plan.segments[segment];
                LoadCall::MapSegment {
                    process: self.process.unwrap(),
                    vmo: self.vmo.unwrap(),
                    vmo_offset: align_down(s.file_offset),
                    virt: align_down(s.virt_addr),
                    len: segment_map_len(s).unwrap(),
                    flags: s.flags,
                }
            },
            LoadPhase::Stack => LoadCall::CreateStack {
                process: self.process.unwrap(),
                top: STACK_TOP,
                len: STACK_SIZE,
            },
            LoadPhase::Start => match self.mode {
                LoadMode::Run { arg, arg2, flags } => LoadCall::Run {
                    process: self.process.unwrap(),
                    entry: self.plan.entry,
                    sp: INITIAL_SP,
                    arg,
                    arg2,
                    flags,
                },
                LoadMode::Serve => LoadCall::Nothing,
            },
            LoadPhase::Connect => LoadCall::CreateChannel,
            LoadPhase::Cleanup { slot } => LoadCall::Close {
                handle: self.handle_at(slot).unwrap(),
            },
            LoadPhase::Finished => LoadCall::Nothing,
        }
    }

    /// Takes the results of the call and moves on.
    pub fn advance(&mut self, a: u64, b: u64)
        requires
            old(self).wf(),
        ensures
            final(self).wf(),
            *final(self) == old(self).after(a, b),
    {
        match self.phase {
            LoadPhase::Allocate => {
                if a == NO_HANDLE {
                    self.phase = LoadPhase::Finished;
                    self.failure = Some(LoadFailure::Vmo);
                } else {
                    self.vmo = Some(to_handle(a));
                    self.phase = self.next_copy(0, 0);
                }
            },
            LoadPhase::Copy { segment, copied } => {
                if a != 0 {
                    self.end(Some(LoadFailure::Copy));
                } else {
                    let size: u64 = self.plan.segments[segment].file_size;
                    let left: u64 = size - copied;
                    let len: u64 = if left < CHUNK_LEN {
                        left
                    } else {
                        CHUNK_LEN
                    };
                    self.phase = self.next_copy(segment, copied + len);
                }
            },
            LoadPhase::Spawn => {
                if a == NO_HANDLE {
                    self.end(Some(LoadFailure::Process));
                } else {
                    self.process = Some(to_handle(a));
                    self.map_next(0);
                }
            },
            LoadPhase::MapSegment { segment } => {
                if a != 0 {
                    self.end(Some(LoadFailure::MapSegment));
                } else {
                    let count: usize = self.plan.segments.len();
                    assert(segment < count);
                    self.map_next(segment + 1);
                }
            },
            LoadPhase::Stack => {
                if a == NO_HANDLE {
                    self.end(Some(LoadFailure::Stack));
                } else {
                    self.phase = match self.mode {
                        LoadMode::Run { .. } => LoadPhase::Start,
                        LoadMode::Serve => LoadPhase::Connect,
                    };
                }
            },
            LoadPhase::Start => {
                let failure: Option<LoadFailure> = if a == 0 {
                    None
                } else {
                    Some(LoadFailure::Run)
                };
                self.end(failure);
            },
            LoadPhase::Connect => {
                self.client = if a == NO_HANDLE {
                    None
                } else {
                    Some(to_handle(a))
                };
                self.server = if b == NO_HANDLE {
                    None
                } else {
                    Some(to_handle(b))
                };
                let failure: Option<LoadFailure> = if a == NO_HANDLE || b == NO_HANDLE {
                    Some(LoadFailure::Channel)
                } else {
                    None
                };
                self.end(failure);
            },
            LoadPhase::Cleanup { slot } => {
                self.clean = self.clean && a == 0;
                self.phase = self.cleanup_from(slot + 1);
            },
            LoadPhase::Finished => {},
        }
    }

    /// Whether the load is over, and whether everything went well: the process
    /// was loaded and every handle that had to be closed was.
    pub fn finished(&self) -> (r: Option<bool>)
        ensures
            r is Some <==> self.phase is Finished,
            r matches Some(ok) ==> ok == (self.loaded && self.clean),
    {
        match self.phase {
            LoadPhase::Finished => Some(self.loaded && self.clean),
            _ => None,
        }
    }

    /// What the supervisor gets of a finished load.
    pub fn served(&self) -> (r: Option<Loaded>)
        requires
            self.wf(),
        ensures
            r is Some <==> self.phase is Finished && self.mode is Serve && self.loaded
                && self.clean,
            r matches Some(l) ==> l == (Loaded {
                process: self.process->0,
                entry: self.plan.entry,
                sp: INITIAL_SP,
                server: self.server->0,
                client: self.client->0,
            }),
    {
        match (self.phase, self.mode) {
            (LoadPhase::Finished, LoadMode::Serve) => {
                if self.loaded && self.clean {
                    Some(
                        Loaded {
                            process: self.process.unwrap(),
                            entry: self.plan.entry,
                            sp: INITIAL_SP,
                            server: self.server.unwrap(),
                            client: self.client.unwrap(),
                        },
                    )
                } else {
                    None
                }
            },
            _ => None,
        }
    }
}

/// Length of a segment's mapping.
pub fn segment_map_len(s: LoadSegment) -> (r: Option<u64>)
    ensures
        r == map_len(s),
{
    let delta: u64 = s.virt_addr % PAGE_SIZE;
    align_up(delta.saturating_add(s.mem_size))
}

/// A load that fails closes every handle it acquired.
pub proof fn failed_load_closes_everything(l: Loader, failure: LoadFailure)
    ensures
        l.ended(Some(failure)).closes_from(0) == (match l.vmo {
            Some(h) => seq![h],
            None => Seq::empty(),
        }) + (match l.process {
            Some(h) => seq![h],
            None => Seq::empty(),
        }) + (match l.client {
            Some(h) => seq![h],
            None => Seq::empty(),
        }) + (match l.server {
            Some(h) => seq![h],
            None => Seq::empty(),
        }),
{
    let e = l.ended(Some(failure));
    reveal_with_fuel(Loader::closes_from, 5);
    assert(e.closes_from(4) == Seq::<Handle>::empty());
    let d = (match l.server {
        Some(h) => seq![h],
        None => Seq::empty(),
    });
    assert(e.closes_from(3) =~= d);
    let c = (match l.client {
        Some(h) => seq![h],
        None => Seq::empty(),
    });
    assert(e.closes_from(2) =~= c + d);
    let b = (match l.process {
        Some(h) => seq![h],
        None => Seq::empty(),
    });
    assert(e.closes_from(1) =~= b + (c + d));
    let a = (match l.vmo {
        Some(h) => seq![h],
        None => Seq::empty(),
    });
    assert(e.closes_from(0) =~= a + b + c + d);
}

/// A served load that succeeds hands its process and channel on and closes
/// only the memory object it loaded through.
pub proof fn served_load_closes_only_its_vmo(l: Loader)
    requires
        l.mode is Serve,
        l.vmo is Some,
        l.process is Some,
        l.client is Some,
        l.server is Some,
        l.vmo != l.process,
        l.vmo != l.client,
        l.vmo != l.server,
    ensures
        l.ended(None).closes_from(0) == seq![l.vmo->0],
{
    let e = l.ended(None);
    reveal_with_fuel(Loader::closes_from, 5);
    assert(e.closes_from(0) =~= seq![l.vmo->0]);
}

/// A load that runs its process at once keeps nothing.
pub proof fn run_load_closes_both_handles(l: Loader)
    requires
        l.mode is Run,
        l.vmo is Some,
        l.process is Some,
        l.client is None,
        l.server is None,
    ensures
        l.ended(None).closes_from(0) == seq![l.vmo->0, l.process->0],
{
    let e = l.ended(None);
    reveal_with_fuel(Loader::closes_from, 5);
    assert(e.closes_from(0) =~= seq![l.vmo->0, l.process->0]);
}

/// Cleanup closes the first handle that is due, whatever came of earlier
/// closes, and goes on with the rest; it ends when none is left.
pub proof fn cleanup_goes_on_after_an_error(l: Loader, a: u64, b: u64)
    requires
        l.wf(),
        l.phase is Cleanup,
    ensures
        ({
            let slot = l.phase->Cleanup_slot as int;
            &&& l.closes_from(slot).len() > 0
            &&& l.call_of() == (LoadCall::Close { handle: l.closes_from(slot)[0] })
            &&& match l.after(a, b).phase {
                LoadPhase::Cleanup { slot: next } => l.after(a, b).closes_from(next as int)
                    == l.closes_from(slot).subrange(1, l.closes_from(slot).len() as int),
                LoadPhase::Finished => l.closes_from(slot).len() == 1,
                _ => false,
            }
        }),
{
    let slot = l.phase->Cleanup_slot as int;
    let n = l.after(a, b);
    assert(l.closes_from(slot) == seq![l.slot(slot)->0] + l.closes_from(slot + 1));
    let s = Loader { clean: l.clean && a == 0, ..l };
    lemma_cleanup_phase(s, slot + 1);
    lemma_same_closes(l, s, slot + 1);
    match n.phase {
        LoadPhase::Cleanup { slot: next } => {
            lemma_same_closes(s, n, next as int);
        },
        _ => {},
    }
    assert(l.closes_from(slot).subrange(1, l.closes_from(slot).len() as int) =~= l.closes_from(
        slot + 1,
    ));
}

/// The next slot to clean up holds the next handle to close.
proof fn lemma_cleanup_phase(l: Loader, i: int)
    requires
        0 <= i,
    ensures
        match l.cleanup_phase(i) {
            LoadPhase::Cleanup { slot } => i <= slot < 4 && l.closes_from(slot as int)
                == l.closes_from(i),
            LoadPhase::Finished => l.closes_from(i).len() == 0,
            _ => false,
        },
    decreases 4 - i,
{
    if i < 4 {
        match l.slot(i) {
            Some(h) => {
                if l.kept(h) {
                    lemma_cleanup_phase(l, i + 1);
                }
            },
            None => {
                lemma_cleanup_phase(l, i + 1);
            },
        }
    }
}

/// What is due depends on the handles alone.
proof fn lemma_same_closes(l: Loader, m: Loader, i: int)
    requires
        l.vmo == m.vmo,
        l.process == m.process,
        l.client == m.client,
        l.server == m.server,
        l.loaded == m.loaded,
        l.mode == m.mode,
    ensures
        l.closes_from(i) == m.closes_from(i),
    decreases 4 - i,
{
    if i < 4 {
        lemma_same_closes(l, m, i + 1);
    }
}

/// Byte `x` of the memory object lies in the file bytes of a segment: of segment `i` from byte
/// `copied` on, or of a later one.
pub open spec fn is_due(segments: Seq<LoadSegment>, i: int, copied: int, x: int) -> bool {
    exists|j: int|
        i <= j < segments.len() && (#[trigger] segments[j]).file_offset + (if j == i {
            copied
        } else {
            0
        }) <= x < segments[j].file_offset + segments[j].file_size
}

/// How many bytes are left to copy.
pub open spec fn bytes_due(segments: Seq<LoadSegment>, i: int, copied: int) -> int
    decreases segments.len() - i,
{
    if i >= segments.len() {
        0
    } else if copied < segments[i].file_size {
        segments[i].file_size - copied + bytes_due(segments, i + 1, 0)
    } else {
        bytes_due(segments, i + 1, 0)
    }
}

/// The load and the memory object after at most `n` copies out of `image`, all of which succeed.
pub open spec fn after_copies(l: Loader, image: Seq<u8>, memory: Seq<u8>, n: nat) -> (
    Loader,
    Seq<u8>,
)
    decreases n,
{
    match l.call_of() {
        LoadCall::Copy { from, to, len } => if n == 0 {
            (l, memory)
        } else {
            after_copies(
                l.after(0, 0),
                image,
                bytes::overwrite(memory, to as int, image.subrange(from as int, from + len)),
                (n - 1) as nat,
            )
        },
        _ => (l, memory),
    }
}

/// The bytes of every segment lie in the image and fit the memory object.
pub open spec fn segments_fit(p: PlanView, image: Seq<u8>, memory: Seq<u8>) -> bool {
    forall|i: int|
        0 <= i < p.segments.len() ==> p.file_offset + (#[trigger] p.segments[i]).file_offset
            + p.segments[i].file_size <= image.len() && p.segments[i].file_offset
            + p.segments[i].file_size <= memory.len()
}

/// The next copy is where the first byte is due.
proof fn lemma_copy_phase(segments: Seq<LoadSegment>, i: int, copied: u64)
    requires
        0 <= i,
        segments.len() <= usize::MAX,
    ensures
        match copy_phase(segments, i, copied) {
            LoadPhase::Copy { segment, copied: c } => {
                &&& i <= segment < segments.len()
                &&& c < segments[segment as int].file_size
                &&& bytes_due(segments, segment as int, c as int) == bytes_due(
                    segments,
                    i,
                    copied as int,
                )
                &&& forall|x: int|
                    is_due(segments, segment as int, c as int, x) <==> #[trigger] is_due(
                        segments,
                        i,
                        copied as int,
                        x,
                    )
            },
            LoadPhase::Spawn => forall|x: int| !(#[trigger] is_due(segments, i, copied as int, x)),
            _ => false,
        },
        bytes_due(segments, i, copied as int) >= 0,
    decreases segments.len() - i,
{
    if i < segments.len() {
        lemma_copy_phase(segments, i + 1, 0);
        if copied >= segments[i].file_size {
            assert forall|x: int| is_due(segments, i + 1, 0, x) == #[trigger] is_due(
                segments,
                i,
                copied as int,
                x,
            ) by {
                if is_due(segments, i, copied as int, x) {
                    let j = choose|j: int|
                        i <= j < segments.len() && (#[trigger] segments[j]).file_offset + (if j
                            == i {
                            copied as int
                        } else {
                            0
                        }) <= x < segments[j].file_offset + segments[j].file_size;
                    assert(j != i);
                    assert(segments[j].file_offset <= x);
                }
                if is_due(segments, i + 1, 0, x) {
                    let j = choose|j: int|
                        i + 1 <= j < segments.len() && (#[trigger] segments[j]).file_offset + (if j
                            == i + 1 {
                            0int
                        } else {
                            0
                        }) <= x < segments[j].file_offset + segments[j].file_size;
                    assert(segments[j].file_offset <= x);
                }
            }
        }
    }
}

proof fn lemma_after_copies(l: Loader, image: Seq<u8>, memory: Seq<u8>, n: nat, i: int, copied: u64)
    requires
        copies_fit(l.plan@),
        segments_fit(l.plan@, image, memory),
        0 <= i,
        l.phase == copy_phase(l.plan.segments@, i, copied),
        n >= bytes_due(l.plan.segments@, i, copied as int),
    ensures
        ({
            let (end, filled) = after_copies(l, image, memory, n);
            &&& end == (Loader { phase: LoadPhase::Spawn, ..l })
            &&& filled.len() == memory.len()
            &&& forall|x: int|
                0 <= x < memory.len() ==> #[trigger] filled[x] == (if is_due(
                    l.plan.segments@,
                    i,
                    copied as int,
                    x,
                ) {
                    image[l.plan.file_offset + x]
                } else {
                    memory[x]
                })
        }),
    decreases n,
{
    let segments = l.plan.segments@;
    assert(segments.len() == l.plan.segments.len());
    lemma_copy_phase(segments, i, copied);
    match l.phase {
        LoadPhase::Copy { segment, copied: c } => {
            let s = l.plan@.segments[segment as int];
            let len = l.chunk(segment as int, c);
            let at = s.file_offset + c;
            let from = l.plan.file_offset + at;
            let next = (c + len) as u64;
            lemma_copy_phase(segments, segment + 1, 0);
            assert(n > 0);
            let written = bytes::overwrite(memory, at, image.subrange(from, from + len));
            assert(written.len() == memory.len());
            assert(l.call_of() == (LoadCall::Copy {
                from: from as u64,
                to: at as u64,
                len: len as u64,
            }));
            lemma_after_copies(
                l.after(0, 0),
                image,
                written,
                (n - 1) as nat,
                segment as int,
                next,
            );
            let (end, filled) = after_copies(l, image, memory, n);
            assert forall|x: int| 0 <= x < memory.len() implies #[trigger] filled[x] == (
            if is_due(segments, i, copied as int, x) {
                image[l.plan.file_offset + x]
            } else {
                memory[x]
            }) by {
                let due = is_due(segments, segment as int, c as int, x);
                let later = is_due(segments, segment as int, next as int, x);
                assert(due == is_due(segments, i, copied as int, x));
                if at <= x < at + len {
                    assert(segments[segment as int].file_offset + c <= x);
                    assert(due);
                    assert(written[x] == image[l.plan.file_offset + x]);
                } else {
                    assert(written[x] == memory[x]);
                    if due {
                        let j = choose|j: int|
                            segment <= j < segments.len() && (#[trigger] segments[j]).file_offset
                                + (if j == segment {
                                c as int
                            } else {
                                0
                            }) <= x < segments[j].file_offset + segments[j].file_size;
                        assert(segments[j].file_offset + (if j == segment {
                            next as int
                        } else {
                            0
                        }) <= x);
                    }
                    if later {
                        let j = choose|j: int|
                            segment <= j < segments.len() && (#[trigger] segments[j]).file_offset
                                + (if j == segment {
                                next as int
                            } else {
                                0
                            }) <= x < segments[j].file_offset + segments[j].file_size;
                        assert(segments[j].file_offset + (if j == segment {
                            c as int
                        } else {
                            0
                        }) <= x);
                    }
                }
            }
        },
        _ => {},
    }
}

/// The copies together bring every file byte of every segment to its place in the memory object
/// and touch no other byte, and then the process is made. No more copies are needed than there
/// are bytes.
pub proof fn copies_fill_the_segments(
    l: Loader,
    vmo: u64,
    image: Seq<u8>,
    memory: Seq<u8>,
    n: nat,
)
    requires
        l.wf(),
        l.phase is Allocate,
        vmo != u64::MAX,
        segments_fit(l.plan@, image, memory),
        n >= bytes_due(l.plan@.segments, 0, 0),
    ensures
        ({
            let (end, filled) = after_copies(l.after(vmo, 0), image, memory, n);
            &&& end == (Loader { phase: LoadPhase::Spawn, ..l.after(vmo, 0) })
            &&& filled.len() == memory.len()
            &&& forall|x: int|
                0 <= x < memory.len() ==> #[trigger] filled[x] == (if is_due(
                    l.plan@.segments,
                    0,
                    0,
                    x,
                ) {
                    image[l.plan@.file_offset + x]
                } else {
                    memory[x]
                })
        }),
{
    lemma_after_copies(l.after(vmo, 0), image, memory, n, 0, 0);
}

/// Program header `i` of a table in a file is of a segment to load: its kind is 1.
pub open spec fn is_loadable(img: Seq<u8>, table: int, i: int) -> bool {
    bytes::le32(img, table + 56 * i) == 1
}

/// How many of the first `i` program headers are of segments to load.
pub open spec fn loadable_before(img: Seq<u8>, table: int, i: int) -> int
    decreases i,
{
    if i <= 0 {
        0
    } else if is_loadable(img, table, i - 1) {
        loadable_before(img, table, i - 1) + 1
    } else {
        loadable_before(img, table, i - 1)
    }
}

/// A segment is what the program header at `at` says: offset, address, size in the file, size in
/// memory, and a permission for each flag, read for 4, write for 2 and execute for 1.
pub open spec fn describes(img: Seq<u8>, at: int, s: LoadSegment) -> bool {
    let flags = bytes::le32(img, at + 4) as u32;
    &&& s.file_offset == bytes::le64(img, at + 8)
    &&& s.virt_addr == bytes::le64(img, at + 16)
    &&& s.file_size == bytes::le64(img, at + 32)
    &&& s.mem_size == bytes::le64(img, at + 40)
    &&& s.flags < 8
    &&& s.flags % 2 == 1 <==> flags & 4 != 0
    &&& s.flags / 2 % 2 == 1 <==> flags & 2 != 0
    &&& s.flags / 4 == 1 <==> flags & 1 != 0
}

/// Where the segment of the program header at `at` ends in memory, counted from the start of the
/// file, as far as 64 bits can say.
pub open spec fn memory_end(img: Seq<u8>, at: int) -> int {
    let end = bytes::le64(img, at + 8) + bytes::le64(img, at + 40);
    if end > 0xffff_ffff_ffff_ffff {
        0xffff_ffff_ffff_ffff
    } else {
        end
    }
}

proof fn lemma_program_header(img: Seq<u8>, at: int)
    requires
        0 <= at,
        at + 56 <= img.len(),
    ensures
        ({
            let raw = img.subrange(at, at + 56);
            &&& raw.len() == 56
            &&& forall|k: int| 0 <= k <= 52 ==> #[trigger] bytes::le32(raw, k) == bytes::le32(
                img,
                at + k,
            )
            &&& forall|k: int| 0 <= k <= 48 ==> #[trigger] bytes::le64(raw, k) == bytes::le64(
                img,
                at + k,
            )
        }),
{
}

proof fn lemma_segments(
    img: Seq<u8>,
    table: int,
    len: u64,
    i: int,
    count: int,
    found: Seq<LoadSegment>,
    span: int,
)
    requires
        0 <= table,
        0 <= i <= count,
        img.len() <= u64::MAX,
        segments_from(vmo::image_vmo(img), table, len, i, count, found, span) is Ok,
    ensures
        ({
            let (segments, end) = segments_from(
                vmo::image_vmo(img),
                table,
                len,
                i,
                count,
                found,
                span,
            )->Ok_0;
            let had = loadable_before(img, table, i);
            &&& segments.len() == found.len() + loadable_before(img, table, count) - had
            &&& had <= loadable_before(img, table, count)
            &&& segments.subrange(0, found.len() as int) == found
            &&& end >= span
            &&& forall|k: int|
                i <= k < count && #[trigger] is_loadable(img, table, k) ==> {
                    let at = found.len() + loadable_before(img, table, k) - had;
                    &&& found.len() <= at < segments.len()
                    &&& describes(img, table + 56 * k, segments[at])
                    &&& memory_end(img, table + 56 * k) <= end
                }
            &&& end == span || exists|k: int|
                i <= k < count && #[trigger] is_loadable(img, table, k) && memory_end(
                    img,
                    table + 56 * k,
                ) == end
        }),
    decreases count - i,
{
    if i < count {
        let image = vmo::image_vmo(img);
        let at = table + 56 * i;
        let raw = img.subrange(at, at + 56);
        assert(at + 56 <= img.len());
        assert(image(at as u64, 56) == Some(raw));
        lemma_program_header(img, at);
        elf::program_headers_are_read_by_position(raw);
        let ph = elf::program_header_of(raw)->Ok_0;
        assert(bytes::le32(raw, 0) == bytes::le32(img, at + 0));
        assert(bytes::le32(raw, 4) == bytes::le32(img, at + 4));
        assert(bytes::le64(raw, 8) == bytes::le64(img, at + 8));
        assert(bytes::le64(raw, 16) == bytes::le64(img, at + 16));
        assert(bytes::le64(raw, 32) == bytes::le64(img, at + 32));
        assert(bytes::le64(raw, 40) == bytes::le64(img, at + 40));
        let had = loadable_before(img, table, i);
        let all = loadable_before(img, table, count);
        if ph.kind == 1 {
            assert(is_loadable(img, table, i));
            let s = segment_of(ph);
            let more = found.push(s);
            let ahead = initrd::sat_add(ph.file_offset as int, ph.mem_size as int);
            let next = max(span, ahead);
            lemma_segments(img, table, len, i + 1, count, more, next);
            assert(loadable_before(img, table, i + 1) == had + 1);
            let (segments, end) = segments_from(image, table, len, i, count, found, span)->Ok_0;
            assert(segments.subrange(0, more.len() as int) == more);
            assert(segments.subrange(0, found.len() as int) =~= found) by {
                assert forall|k: int| 0 <= k < found.len() implies segments[k] == found[k] by {
                    assert(segments.subrange(0, more.len() as int)[k] == more[k]);
                }
            }
            assert(segments[found.len() as int] == s) by {
                assert(segments.subrange(0, more.len() as int)[found.len() as int]
                    == more[found.len() as int]);
            }
            permissions_follow_the_flags(ph.flags);
            assert(describes(img, at, s));
            assert(ahead == memory_end(img, at));
            assert forall|k: int| i <= k < count && #[trigger] is_loadable(img, table, k) implies {
                let at = found.len() + loadable_before(img, table, k) - had;
                &&& found.len() <= at < segments.len()
                &&& describes(img, table + 56 * k, segments[at])
                &&& memory_end(img, table + 56 * k) <= end
            } by {
                if k > i {
                    let there = more.len() + loadable_before(img, table, k) - (had + 1);
                    assert(there == found.len() + loadable_before(img, table, k) - had);
                }
            }
        } else {
            assert(!is_loadable(img, table, i));
            lemma_segments(img, table, len, i + 1, count, found, span);
            assert(loadable_before(img, table, i + 1) == had);
        }
    } else {
        assert(found.subrange(0, found.len() as int) =~= found);
    }
}

/// Each flag of a segment gives one permission: bit 0, to read, for flag 4, bit 1, to write, for flag
/// 2, and bit 2, to execute, for flag 1. There are no other permissions.
pub proof fn permissions_follow_the_flags(flags: u32)
    ensures
        page_flags_of(flags) < 8,
        page_flags_of(flags) % 2 == 1 <==> flags & 4 != 0,
        page_flags_of(flags) / 2 % 2 == 1 <==> flags & 2 != 0,
        page_flags_of(flags) / 4 == 1 <==> flags & 1 != 0,
{
}

/// The planned segments are those of the file's loadable program headers, one for one and in their
/// order: as many as there are headers of kind 1, and the segment of header `i` stands behind those of
/// the headers of kind 1 before it. The header at the file's start gives the entry point at 24, the
/// offset of the program headers at 32 and their number at 56. The plan spans memory up to the highest
/// end of a segment.
pub proof fn plans_hold_every_loadable_header(
    img: Seq<u8>,
    path: Seq<u8>,
    off: u64,
    len: u64,
    i: int,
)
    requires
        img.len() <= u64::MAX,
        initrd::find_file(vmo::image_vmo(img), path) == Some((off, len)),
        plan_of(vmo::image_vmo(img), path) is Ok,
    ensures
        ({
            let p = plan_of(vmo::image_vmo(img), path)->Ok_0;
            let count = img[off + 56] + 0x100 * img[off + 57];
            let table = off + bytes::le64(img, off + 32);
            &&& p.file_offset == off
            &&& p.entry == bytes::le64(img, off + 24)
            &&& count <= 8
            &&& p.segments.len() == loadable_before(img, table, count)
            &&& p.segments.len() > 0
            &&& 0 <= i < count && bytes::le32(img, table + 56 * i) == 1 ==> {
                let at = loadable_before(img, table, i);
                &&& 0 <= at < p.segments.len()
                &&& describes(img, table + 56 * i, p.segments[at])
                &&& memory_end(img, table + 56 * i) <= p.span
            }
            &&& p.span == 0 || exists|k: int|
                0 <= k < count && #[trigger] is_loadable(img, table, k) && memory_end(
                    img,
                    table + 56 * k,
                ) == p.span
        }),
{
    let image = vmo::image_vmo(img);
    let raw = img.subrange(off as int, off + 64);
    assert(image(off, 64) == Some(raw));
    elf::headers_are_read_by_position(raw);
    let h = elf::header_of(raw)->Ok_0;
    assert(raw[56] == img[off + 56] && raw[57] == img[off + 57]);
    assert(bytes::le64(raw, 24) == bytes::le64(img, off + 24));
    assert(bytes::le64(raw, 32) == bytes::le64(img, off + 32));
    let count = h.phnum as int;
    let table = off + h.phoff;
    lemma_segments(img, table, len, 0, count, Seq::empty(), 0);
    let (segments, end) = segments_from(image, table, len, 0, count, Seq::empty(), 0)->Ok_0;
    if 0 <= i < count && bytes::le32(img, table + 56 * i) == 1 {
        assert(is_loadable(img, table, i));
    }
    assert(end <= 0xffff_ffff_ffff_ffff);
}

proof fn lemma_segments_accepted(
    img: Seq<u8>,
    table: int,
    len: u64,
    i: int,
    count: int,
    found: Seq<LoadSegment>,
    span: int,
)
    requires
        0 <= table,
        0 <= i <= count,
        img.len() <= u64::MAX,
        table + 56 * count <= img.len(),
        forall|k: int|
            i <= k < count ==> {
                let at = #[trigger] header_place(table, k);
                &&& bytes::le64(img, at + 32) <= bytes::le64(img, at + 40)
                &&& bytes::le32(img, at) == 1 ==> bytes::le64(img, at + 8) + bytes::le64(
                    img,
                    at + 32,
                ) <= len
            },
    ensures
        segments_from(vmo::image_vmo(img), table, len, i, count, found, span) is Ok,
    decreases count - i,
{
    if i < count {
        let at = table + 56 * i;
        let raw = img.subrange(at, at + 56);
        assert(vmo::image_vmo(img)(at as u64, 56) == Some(raw));
        lemma_program_header(img, at);
        elf::program_headers_are_read_by_position(raw);
        assert(header_place(table, i) == at);
        assert(bytes::le32(raw, 0) == bytes::le32(img, at + 0));
        assert(bytes::le64(raw, 8) == bytes::le64(img, at + 8));
        assert(bytes::le64(raw, 32) == bytes::le64(img, at + 32));
        assert(bytes::le64(raw, 40) == bytes::le64(img, at + 40));
        let ph = elf::program_header_of(raw)->Ok_0;
        let more = found.push(segment_of(ph));
        let next = max(span, initrd::sat_add(ph.file_offset as int, ph.mem_size as int));
        if ph.kind == 1 {
            lemma_segments_accepted(img, table, len, i + 1, count, more, next);
        } else {
            lemma_segments_accepted(img, table, len, i + 1, count, found, span);
        }
    }
}

/// Where program header `k` of a table stands.
pub open spec fn header_place(table: int, k: int) -> int {
    table + 56 * k
}

proof fn lemma_some_loadable(img: Seq<u8>, table: int, k: int, count: int)
    requires
        0 <= k < count,
        is_loadable(img, table, k),
    ensures
        loadable_before(img, table, count) > 0,
    decreases count,
{
    lemma_loadable_is_a_count(img, table, count - 1);
    if k < count - 1 {
        lemma_some_loadable(img, table, k, count - 1);
    }
}

proof fn lemma_loadable_is_a_count(img: Seq<u8>, table: int, count: int)
    ensures
        loadable_before(img, table, count) >= 0,
    decreases count,
{
    if count > 0 {
        lemma_loadable_is_a_count(img, table, count - 1);
    }
}

/// A file is planned where it is in the boot image, its header is accepted, it has one to eight
/// program headers that lie in the file, none of them is smaller in memory than in the file, and those
/// of kind 1, of which there is at least one, lie in the file too.
pub proof fn sound_files_are_planned(img: Seq<u8>, path: Seq<u8>, off: u64, len: u64, k: int)
    requires
        img.len() <= u64::MAX,
        initrd::find_file(vmo::image_vmo(img), path) == Some((off, len)),
        off + len <= img.len(),
        len >= 64,
        img.subrange(off as int, off + 6) == seq![0x7fu8, 0x45u8, 0x4cu8, 0x46u8, 2u8, 1u8],
        img[off + 16] == 2 && img[off + 17] == 0,
        img[off + 18] == 183 && img[off + 19] == 0,
        img[off + 54] == 56 && img[off + 55] == 0,
        img[off + 56] <= 8 && img[off + 57] == 0,
        bytes::le64(img, off + 32) + 56 * img[off + 56] <= len,
        forall|j: int|
            0 <= j < img[off + 56] ==> {
                let at = #[trigger] header_place(off + bytes::le64(img, off + 32), j);
                &&& bytes::le64(img, at + 32) <= bytes::le64(img, at + 40)
                &&& bytes::le32(img, at) == 1 ==> bytes::le64(img, at + 8) + bytes::le64(
                    img,
                    at + 32,
                ) <= len
            },
        0 <= k < img[off + 56],
        bytes::le32(img, off + bytes::le64(img, off + 32) + 56 * k) == 1,
    ensures
        plan_of(vmo::image_vmo(img), path) is Ok,
{
    let image = vmo::image_vmo(img);
    let raw = img.subrange(off as int, off + 64);
    assert(image(off, 64) == Some(raw));
    let start = img.subrange(off as int, off + 6);
    assert forall|j: int| 0 <= j < 6 implies raw[j] == #[trigger] start[j] by {}
    assert(raw[0] == start[0] && raw[1] == start[1] && raw[2] == start[2]);
    assert(raw[3] == start[3] && raw[4] == start[4] && raw[5] == start[5]);
    elf::headers_are_read_by_position(raw);
    assert(bytes::le64(raw, 32) == bytes::le64(img, off + 32));
    assert(raw[16] == img[off + 16] && raw[17] == img[off + 17]);
    assert(raw[18] == img[off + 18] && raw[19] == img[off + 19]);
    assert(raw[54] == img[off + 54] && raw[55] == img[off + 55]);
    assert(raw[56] == img[off + 56] && raw[57] == img[off + 57]);
    let h = elf::header_of(raw)->Ok_0;
    let table = off + h.phoff;
    let count = h.phnum as int;
    lemma_segments_accepted(img, table, len, 0, count, Seq::empty(), 0);
    lemma_segments(img, table, len, 0, count, Seq::empty(), 0);
    assert(is_loadable(img, table, k));
    lemma_some_loadable(img, table, k, count);
}

/// A file that is not in the boot image, whose header cannot be read or is refused, or that has more
/// than eight program headers or some behind its end, is not planned, and the error says which of
/// these it is, the first that holds.
pub proof fn unsound_files_are_refused(img: Seq<u8>, path: Seq<u8>)
    requires
        img.len() <= u64::MAX,
    ensures
        ({
            let found = initrd::find_file(vmo::image_vmo(img), path);
            let (off, len) = found->0;
            let r = plan_of(vmo::image_vmo(img), path);
            let h = elf::header_of(img.subrange(off as int, off + 64));
            let count = img[off + 56] + 0x100 * img[off + 57];
            &&& found is None ==> r == Err::<PlanView, LoadError>(LoadError::Missing)
            &&& found is Some && off + 64 > img.len() ==> r == Err::<PlanView, LoadError>(
                LoadError::HeaderRead,
            )
            &&& found is Some && off + 64 <= img.len() && h is Err ==> r == Err::<
                PlanView,
                LoadError,
            >(LoadError::BadHeader)
            &&& found is Some && off + 64 <= img.len() && h is Ok && len < u64::MAX && (count > 8
                || bytes::le64(img, off + 32) + 56 * count > len) ==> r == Err::<PlanView, LoadError>(
                LoadError::ProgramHeaderRange,
            )
        }),
{
    let found = initrd::find_file(vmo::image_vmo(img), path);
    let (off, len) = found->0;
    if found is Some && off + 64 <= img.len() {
        let raw = img.subrange(off as int, off + 64);
        assert(vmo::image_vmo(img)(off, 64) == Some(raw));
        elf::headers_are_read_by_position(raw);
        assert(bytes::le64(raw, 32) == bytes::le64(img, off + 32));
        assert(raw[56] == img[off + 56] && raw[57] == img[off + 57]);
    }
}

/// The start of a value's page is the multiple of 4096 at or below it, and the end of a range's last
/// page is the multiple of 4096 at or above the range's end.
pub proof fn pages_are_multiples_of_4096(value: int)
    requires
        value >= 0,
    ensures
        page_floor(value) % 4096 == 0,
        page_floor(value) <= value < page_floor(value) + 4096,
        page_ceil(value) % 4096 == 0,
        page_ceil(value) - 4096 < value <= page_ceil(value),
{
}

/// A segment's mapping is made of whole pages, from that of its first byte to that of its last, and is
/// no longer than that; it is missing just where its length does not fit 64 bits.
pub proof fn mappings_cover_their_segment(s: LoadSegment)
    ensures
        ({
            let first = s.virt_addr - s.virt_addr % 4096;
            let needed = s.virt_addr + s.mem_size - first;
            &&& map_len(s) is Some <==> needed + 4095 <= u64::MAX
            &&& map_len(s) matches Some(len) ==> {
                &&& len % 4096 == 0
                &&& first + len >= s.virt_addr + s.mem_size
                &&& len < needed + 4096
            }
        }),
{
}

/// A plan's memory object is made of whole pages and no larger than its span asks for. It is refused
/// where its size does not fit 64 bits, and where it would be empty and the process run at once.
pub proof fn memory_objects_hold_the_span(span: u64, mode: LoadMode)
    ensures
        vmo_len_of(span, mode) is None <==> span + 4095 > u64::MAX || (mode is Run && span == 0),
        vmo_len_of(span, mode) matches Some(len) ==> len % 4096 == 0 && span <= len && len < span
            + 4096,
{
}

/// A load after `n` calls that all succeeded.
pub open spec fn after_successes(l: Loader, n: int) -> Loader
    decreases n,
{
    if n <= 0 {
        l
    } else {
        after_successes(l, n - 1).after(0, 0)
    }
}

proof fn lemma_mapped(l: Loader, i: int)
    requires
        0 <= i <= l.plan.segments@.len(),
        l.plan.segments@.len() <= usize::MAX,
        forall|j: int|
            0 <= j < l.plan.segments@.len() ==> map_len(#[trigger] l.plan.segments@[j]) is Some,
    ensures
        after_successes(l.mapping(0), i) == l.mapping(i),
    decreases i,
{
    if i > 0 {
        lemma_mapped(l, i - 1);
        assert(map_len(l.plan.segments@[i - 1]) is Some);
    }
}

/// The calls that set a process up. It gets addresses from 0 to 0x2000_0000; then each segment is
/// mapped, in the plan's order, from the page of its offset in the memory object to the page of its
/// address, with its permissions; then comes a stack of 0x4000 bytes below 0x1001_0000, and then the
/// process is run from its entry point with its stack pointer at 0x1000_fff0, or a channel is made for
/// it.
pub proof fn processes_are_set_up_in_order(l: Loader, process: u64, stack: u64, i: int)
    requires
        l.phase is Spawn,
        l.vmo is Some,
        l.plan.segments@.len() <= usize::MAX,
        process != u64::MAX,
        stack != u64::MAX,
        forall|j: int|
            0 <= j < l.plan.segments@.len() ==> map_len(#[trigger] l.plan.segments@[j]) is Some,
    ensures
        ({
            let count = l.plan.segments@.len() as int;
            let spawned = l.after(process, 0);
            let stacked = after_successes(spawned, count);
            let ready = stacked.after(stack, 0);
            let p = Handle(process as u32);
            &&& l.call_of() == (LoadCall::CreateProcess { base: 0, len: 0x2000_0000 })
            &&& 0 <= i < count ==> {
                let s = l.plan.segments@[i];
                after_successes(spawned, i).call_of() == (LoadCall::MapSegment {
                    process: p,
                    vmo: l.vmo->0,
                    vmo_offset: (s.file_offset - s.file_offset % 4096) as u64,
                    virt: (s.virt_addr - s.virt_addr % 4096) as u64,
                    len: map_len(s)->0,
                    flags: s.flags,
                })
            }
            &&& stacked.call_of() == (LoadCall::CreateStack {
                process: p,
                top: 0x1001_0000,
                len: 0x4000,
            })
            &&& l.mode matches LoadMode::Run { arg, arg2, flags } ==> ready.call_of() == (
            LoadCall::Run {
                process: p,
                entry: l.plan.entry,
                sp: 0x1000_fff0,
                arg,
                arg2,
                flags,
            })
            &&& l.mode is Serve ==> ready.call_of() == LoadCall::CreateChannel
            &&& ready.process == Some(p)
            &&& ready.vmo == l.vmo
            &&& ready.plan == l.plan
        }),
{
    let m = Loader { process: Some(handle_of(process)), ..l };
    assert(l.after(process, 0) == m.mapping(0));
    lemma_mapped(m, l.plan.segments@.len() as int);
    if 0 <= i < l.plan.segments@.len() {
        lemma_mapped(m, i);
        assert(map_len(l.plan.segments@[i]) is Some);
    }
}

/// How a load ends. The process runs where its last call returns zero, and a served one is handed over
/// where both ends of its channel could be made; either is then loaded, without a failure.
pub proof fn loads_end_with_their_last_call(l: Loader, a: u64, b: u64)
    ensures
        l.phase is Start ==> {
            let e = l.after(a, b);
            &&& e.loaded <==> a == 0
            &&& a == 0 ==> e.failure is None
            &&& a != 0 ==> e.failure == Some(LoadFailure::Run)
        },
        l.phase is Connect ==> {
            let e = l.after(a, b);
            &&& e.loaded <==> a != u64::MAX && b != u64::MAX
            &&& e.loaded ==> e.failure is None
            &&& !e.loaded ==> e.failure == Some(LoadFailure::Channel)
            &&& a != u64::MAX ==> e.client == Some(Handle(a as u32))
            &&& a == u64::MAX ==> e.client is None
            &&& b != u64::MAX ==> e.server == Some(Handle(b as u32))
            &&& b == u64::MAX ==> e.server is None
        },
{
}

/// A call that fails ends the load, and the failure names the call.
pub proof fn failures_name_their_call(l: Loader, a: u64, b: u64)
    ensures
        l.phase is Allocate && a == u64::MAX ==> l.after(a, b).failure == Some(LoadFailure::Vmo)
            && l.after(a, b).phase is Finished,
        l.phase is Allocate && a != u64::MAX ==> l.after(a, b).vmo == Some(Handle(a as u32)),
        l.phase is Copy && a != 0 ==> l.after(a, b).failure == Some(LoadFailure::Copy) && !l.after(
            a,
            b,
        ).loaded,
        l.phase is Spawn && a == u64::MAX ==> l.after(a, b).failure == Some(LoadFailure::Process)
            && !l.after(a, b).loaded,
        l.phase is MapSegment && a != 0 ==> l.after(a, b).failure == Some(LoadFailure::MapSegment)
            && !l.after(a, b).loaded,
        l.phase is Stack && a == u64::MAX ==> l.after(a, b).failure == Some(LoadFailure::Stack)
            && !l.after(a, b).loaded,
        l.phase is Cleanup ==> l.after(a, b).clean == (l.clean && a == 0),
        l.phase is Finished ==> l.after(a, b) == l,
{
}

/// Every copy takes at most 256 bytes, and takes them from where they lie in the image to where they
/// lie in the file.
pub proof fn copies_are_short(l: Loader)
    requires
        l.wf(),
        l.phase is Copy,
    ensures
        ({
            let s = l.plan.segments@[l.phase->Copy_segment as int];
            let copied = l.phase->copied;
            &&& l.call_of() is Copy
            &&& l.call_of()->from == l.plan.file_offset + s.file_offset + copied
            &&& l.call_of()->to == s.file_offset + copied
            &&& 0 < l.call_of()->Copy_len <= 256
            &&& copied + l.call_of()->Copy_len <= s.file_size
            &&& l.call_of()->Copy_len == 256 || copied + l.call_of()->Copy_len == s.file_size
        }),
{
    let segment = l.phase->Copy_segment as int;
    assert(l.plan@.segments[segment] == l.plan.segments@[segment]);
}

} // verus!
