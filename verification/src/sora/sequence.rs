//! The boot sequence: which kernel call comes next, what its result means, and
//! what the log says.

use vstd::prelude::*;
use vstd::utf8::encode_utf8;

use crate::abi::{handle_of, to_handle, Handle};
use crate::bytes;
use crate::numerals;
use crate::sora::initrd;
use crate::sora::sectors;
use crate::sora::vmo;
use crate::text;

verus! {

pub const QEMU_PL011_MMIO_BASE: u64 = 0x0900_0000;

pub const QEMU_PL011_MMIO_SIZE: u64 = 0x1000;

pub const QEMU_PL011_IRQ: u32 = 33;

pub const TIMER_IRQ: u32 = 27;

/// Where the boot information is mapped.
pub const BOOTINFO_VA: u64 = 0x3000_0000;

/// What the foreign program prints.
pub const LINUX_TEXT: &'static str = "M10 linux hello\n";

/// What the scratch object must hold.
pub const SCRATCH_TEXT: &'static str = "VMO_OK";

/// A framebuffer's place and shape.
#[derive(Clone, Copy, Debug, PartialEq, Eq, Structural)]
pub struct Screen {
    pub phys: u64,
    pub len: u64,
    pub width: u32,
    pub height: u32,
    pub stride: u32,
    /// The shape can be that of a screen.
    pub plausible: bool,
}

/// What boot starts from.
#[derive(Clone, Copy, Debug, PartialEq, Eq, Structural)]
pub struct BootEnv {
    /// Address of the framebuffer; zero on a serial console.
    pub fb_va: u64,
    pub console: u64,
    pub initrd: Handle,
    pub net: Handle,
    /// The boot information, or zero.
    pub bootinfo: u64,
    /// Bytes of the boot image.
    pub initrd_size: u64,
}

/// The programs that boot runs.
#[derive(Clone, Copy, Debug, PartialEq, Eq, Structural)]
pub enum Program {
    DrvSerial,
    DrvBlk,
    DrvFb,
    LinuxHello,
}

impl Program {
    /// What the log calls it while it is loaded.
    pub fn name(self) -> (s: &'static str)
        ensures
            s@ == (match self {
                Program::DrvSerial => "drv-serial"@,
                Program::DrvBlk => "drv-blk"@,
                Program::DrvFb => "drv-fb"@,
                Program::LinuxHello => "M10 elf"@,
            }),
    {
        match self {
            Program::DrvSerial => "drv-serial",
            Program::DrvBlk => "drv-blk",
            Program::DrvFb => "drv-fb",
            Program::LinuxHello => "M10 elf",
        }
    }
}

/// What a duplicated handle may be used for.
#[derive(Clone, Copy, Debug, PartialEq, Eq, Structural)]
pub enum Access {
    Read,
    ReadTransfer,
    ReadDuplicate,
}

/// Where boot stands.
#[derive(Clone, Copy, Debug, PartialEq, Eq, Structural)]
pub enum BootPhase {
    /// A child process is made, to see that it can be.
    Child,
    ChildMap { child: u64 },
    ChildThread { child: u64 },
    ChildStart { thread: Handle },
    /// The timer's interrupt is claimed.
    Timer,
    /// The serial driver needs its device.
    SerialResource,
    SerialRun { device: u64 },
    /// The block driver needs the boot image.
    BlkDuplicate,
    BlkPair { store: Handle },
    BlkSend { server: Handle, peer: u64, store: Handle },
    BlkRun { server: Handle, peer: u64 },
    BlkSettle { server: Handle },
    BlkTrial { server: Handle },
    /// The disk image is read straight from the boot image.
    FatDirect,
    /// The disk image is read through the block driver.
    FatOverBlk { client: Handle },
    /// The boot information is mapped.
    FbMap,
    FbInfo,
    FbResource { screen: Screen },
    FbPair { resource: Handle },
    FbSendResource { server: Handle, peer: u64, resource: Handle },
    FbSendConsole { server: Handle, peer: u64 },
    FbSendInfo { server: Handle, peer: u64 },
    FbRun { peer: u64 },
    /// A channel end is handed to the network channel.
    NetChannel,
    NetSend { channel: Handle },
    /// A channel end is moved through a channel.
    PairA,
    PairB { a: u64, b: u64 },
    PairWrite { channel: Handle, moved: Handle },
    PairMove { channel: Handle, moved: Handle, sent: bool },
    /// A foreign program of a few instructions is run.
    LinuxVmo,
    LinuxText { vmo: Handle },
    LinuxCode { vmo: Handle, text: bool },
    LinuxProcess { vmo: Handle },
    LinuxMap { vmo: Handle, process: Handle },
    LinuxStack { process: Handle },
    LinuxRun { process: Handle },
    /// A foreign program of the boot image is run.
    LinuxElf,
    /// Programs get a narrower handle of the boot image.
    Alias,
    /// Programs get their words in a scratch object.
    ArgvVmo,
    ArgvAlias,
    /// A closed handle must be refused.
    ProbeDuplicate,
    ProbeClose { handle: Handle },
    ProbeKoid { handle: Handle },
    /// The boot script and the trials of the servers run.
    Trials,
    /// A scratch object must hold what is written to it.
    ScratchVmo,
    ScratchWrite { vmo: Handle },
    ScratchRead { vmo: Handle },
    /// Boot is over.
    Finished,
}

/// The kernel call, or the piece of outside work, that boot waits for.
#[derive(Clone, Copy, Debug)]
pub enum BootCall {
    CreateProcess { base: u64, len: u64 },
    MapVmo { process: Handle, vmo: Handle, offset: u64, virt: u64, len: u64, flags: u64 },
    CreateThread { process: Handle },
    StartThread { thread: Handle, entry: u64, sp: u64, arg: u64 },
    CreateInterrupt { irq: u32 },
    CreateResource { base: u64, len: u64, irq: u32, irqs: u32 },
    /// Loads and runs a program of the boot image.
    Run { program: Program, arg: u64, arg2: u64, flags: u64 },
    Duplicate { handle: Handle, access: Access },
    CreatePair,
    /// Sends a size as eight bytes, and a handle.
    SendSize { channel: Handle, size: u64, handle: Handle },
    Wait,
    /// Asks the block driver for blocks.
    ReadBlock { client: Handle, lba: u64, count: u16 },
    /// Reads the disk image, straight or through the block driver.
    ProbeFat { over: Option<Handle> },
    MapBootInfo { vmo: Handle, virt: u64, len: u64 },
    ReadBootInfo { virt: u64 },
    /// Sends one byte and a handle.
    SendHandle { channel: Handle, tag: u8, handle: Handle },
    CreateChannel,
    /// Sends one byte.
    Send { channel: Handle, tag: u8 },
    CreateVmo { len: u64 },
    WriteText { vmo: Handle, at: u64, text: &'static str },
    /// Writes the foreign program.
    WriteCode { vmo: Handle, at: u64 },
    CreateStack { process: Handle, top: u64, len: u64 },
    RunAt { process: Handle, entry: u64, sp: u64 },
    Close { handle: Handle },
    Koid { handle: Handle },
    /// Runs the boot script and the trials.
    RunTrials,
    ReadVmo { vmo: Handle, at: u64, bytes: usize },
    Nothing,
}

/// What a read of the disk image found: the start of two files, where they are
/// there.
#[derive(Debug)]
pub enum FatProbe {
    NoImage,
    NoMount,
    Mounted { hello: Option<Vec<u8>>, nested: Option<Vec<u8>> },
}

/// A [`FatProbe`] as plain data.
#[verifier::ext_equal]
pub enum ProbeView {
    NoImage,
    NoMount,
    Mounted { hello: Option<Seq<u8>>, nested: Option<Seq<u8>> },
}

impl View for FatProbe {
    type V = ProbeView;

    open spec fn view(&self) -> ProbeView {
        match self {
            FatProbe::NoImage => ProbeView::NoImage,
            FatProbe::NoMount => ProbeView::NoMount,
            FatProbe::Mounted { hello, nested } => ProbeView::Mounted {
                hello: vmo::answer(*hello),
                nested: vmo::answer(*nested),
            },
        }
    }
}

/// What came back.
#[derive(Debug)]
pub enum BootEvent {
    Returned(u64),
    Pair(u64, u64),
    Ran(bool),
    Data(Option<Vec<u8>>),
    Fat(FatProbe),
    Screen(Option<Screen>),
}

/// A [`BootEvent`] as plain data.
#[verifier::ext_equal]
pub enum BootEventView {
    Returned(u64),
    Pair(u64, u64),
    Ran(bool),
    Data(Option<Seq<u8>>),
    Fat(ProbeView),
    Screen(Option<Screen>),
}

impl View for BootEvent {
    type V = BootEventView;

    open spec fn view(&self) -> BootEventView {
        match self {
            BootEvent::Returned(a) => BootEventView::Returned(*a),
            BootEvent::Pair(a, b) => BootEventView::Pair(*a, *b),
            BootEvent::Ran(ok) => BootEventView::Ran(*ok),
            BootEvent::Data(d) => BootEventView::Data(vmo::answer(*d)),
            BootEvent::Fat(p) => BootEventView::Fat(p@),
            BootEvent::Screen(s) => BootEventView::Screen(*s),
        }
    }
}

/// The bytes of a text.
pub open spec fn t(s: &str) -> Seq<u8> {
    encode_utf8(s@)
}

/// One text or the other.
pub open spec fn either(c: bool, yes: &str, no: &str) -> Seq<u8> {
    if c {
        t(yes)
    } else {
        t(no)
    }
}

fn push_either(out: &mut Vec<u8>, c: bool, yes: &str, no: &str)
    ensures
        final(out)@ == old(out)@ + either(c, yes, no),
{
    if c {
        text::append_text(out, yes);
    } else {
        text::append_text(out, no);
    }
}

/// A number as at least four hexadecimal digits.
pub open spec fn hex4(v: u64) -> Seq<u8> {
    numerals::padded(numerals::digits(v as nat, 16), 4, 0x30)
}

/// A framebuffer's place and shape, for the log.
pub open spec fn geometry_text(s: Screen) -> Seq<u8> {
    t("phys=") + numerals::hex(s.phys as nat) + t(" len=") + numerals::hex(s.len as nat) + t(" w=")
        + numerals::hex(s.width as nat) + t(" h=") + numerals::hex(s.height as nat) + t(" stride=")
        + numerals::hex(s.stride as nat) + t("\n")
}

/// Appends a framebuffer's place and shape.
pub fn push_geometry(out: &mut Vec<u8>, s: &Screen)
    ensures
        final(out)@ == old(out)@ + geometry_text(*s),
{
    text::append_text(out, "phys=");
    numerals::push_hex(out, s.phys);
    text::append_text(out, " len=");
    numerals::push_hex(out, s.len);
    text::append_text(out, " w=");
    numerals::push_hex(out, s.width as u64);
    text::append_text(out, " h=");
    numerals::push_hex(out, s.height as u64);
    text::append_text(out, " stride=");
    numerals::push_hex(out, s.stride as u64);
    text::append_text(out, "\n");
    assert(out@ =~= old(out)@ + geometry_text(*s));
}

/// A file's start, or that it is missing.
pub open spec fn file_text(found: Option<Seq<u8>>, name: &str, missing: &str) -> Seq<u8> {
    match found {
        Some(data) => t(name) + data + t("\n"),
        None => t(missing),
    }
}

fn push_file(out: &mut Vec<u8>, found: &Option<Vec<u8>>, name: &str, missing: &str)
    ensures
        final(out)@ == old(out)@ + file_text(vmo::answer(*found), name, missing),
{
    match found {
        Some(data) => {
            text::append_text(out, name);
            bytes::append(out, data);
            text::append_text(out, "\n");
            assert(out@ =~= old(out)@ + file_text(vmo::answer(*found), name, missing));
        },
        None => {
            text::append_text(out, missing);
        },
    }
}

/// What the log says of the disk image, read straight.
pub open spec fn direct_report_text(p: ProbeView) -> Seq<u8> {
    match p {
        ProbeView::NoImage => t("fatfs: image not found\n"),
        ProbeView::NoMount => t("fatfs: mount failed\n"),
        ProbeView::Mounted { hello, nested } => file_text(
            hello,
            "fatfs: HELLO.TXT = ",
            "fatfs: HELLO.TXT missing\n",
        ) + file_text(
            nested,
            "fatfs-path: /EFI/BOOT/BOOTAA64.EFI = ",
            "fatfs-path: /EFI/BOOT/BOOTAA64.EFI missing\n",
        ),
    }
}

fn push_direct_report(out: &mut Vec<u8>, p: &FatProbe)
    ensures
        final(out)@ == old(out)@ + direct_report_text(p@),
{
    match p {
        FatProbe::NoImage => {
            text::append_text(out, "fatfs: image not found\n");
        },
        FatProbe::NoMount => {
            text::append_text(out, "fatfs: mount failed\n");
        },
        FatProbe::Mounted { hello, nested } => {
            push_file(out, hello, "fatfs: HELLO.TXT = ", "fatfs: HELLO.TXT missing\n");
            push_file(
                out,
                nested,
                "fatfs-path: /EFI/BOOT/BOOTAA64.EFI = ",
                "fatfs-path: /EFI/BOOT/BOOTAA64.EFI missing\n",
            );
            assert(out@ =~= old(out)@ + direct_report_text(p@));
        },
    }
}

/// What the log says of the disk image, read through the block driver.
pub open spec fn over_blk_report_text(p: ProbeView) -> Seq<u8> {
    match p {
        ProbeView::NoImage => t("fatfs-blk: image not found\n"),
        ProbeView::NoMount => t("fatfs-blk: mount failed\n"),
        ProbeView::Mounted { hello, .. } => file_text(
            hello,
            "fatfs-blk: HELLO.TXT = ",
            "fatfs-blk: HELLO.TXT missing\n",
        ),
    }
}

fn push_over_blk_report(out: &mut Vec<u8>, p: &FatProbe)
    ensures
        final(out)@ == old(out)@ + over_blk_report_text(p@),
{
    match p {
        FatProbe::NoImage => {
            text::append_text(out, "fatfs-blk: image not found\n");
        },
        FatProbe::NoMount => {
            text::append_text(out, "fatfs-blk: mount failed\n");
        },
        FatProbe::Mounted { hello, .. } => {
            push_file(out, hello, "fatfs-blk: HELLO.TXT = ", "fatfs-blk: HELLO.TXT missing\n");
        },
    }
}

/// A block driver's reply that holds just the boot image's first block.
pub open spec fn is_first_block(data: Option<Seq<u8>>) -> bool {
    data matches Some(r) && r.len() == 513 && r[0] == 0x00 && r.subrange(1, 9) == initrd::magic()
}

fn first_block(data: &Option<Vec<u8>>) -> (r: bool)
    ensures
        r == is_first_block(vmo::answer(*data)),
{
    match data {
        Some(reply) => sectors::is_boot_block(reply),
        None => false,
    }
}

/// The scratch object held what was written.
pub open spec fn is_scratch(data: Option<Seq<u8>>) -> bool {
    data == Some(encode_utf8(SCRATCH_TEXT@))
}

fn scratch_ok(data: &Option<Vec<u8>>) -> (r: bool)
    ensures
        r == is_scratch(vmo::answer(*data)),
{
    match data {
        Some(got) => bytes::bytes_equal(got, SCRATCH_TEXT.as_bytes()),
        None => false,
    }
}

/// Instruction words as the bytes that the processor fetches.
pub open spec fn code_bytes(words: Seq<u32>) -> Seq<u8>
    decreases words.len(),
{
    if words.len() == 0 {
        Seq::empty()
    } else {
        code_bytes(words.drop_last()) + bytes::le_bytes4(words.last() as int)
    }
}

/// Encodes instruction words.
pub fn encode_words(words: &[u32]) -> (out: Vec<u8>)
    ensures
        out@ == code_bytes(words@),
{
    let mut out: Vec<u8> = Vec::new();
    let mut i: usize = 0;
    assert(words@.subrange(0, 0) =~= Seq::empty());
    while i < words.len()
        invariant
            i <= words@.len(),
            out@ == code_bytes(words@.subrange(0, i as int)),
        decreases words@.len() - i,
    {
        let mut raw = [0u8; 4];
        bytes::put_u32(&mut raw, 0, words[i]);
        assert(raw@ =~= bytes::le_bytes4(words@[i as int] as int));
        bytes::append(&mut out, &raw);
        i += 1;
        assert(words@.subrange(0, i as int).drop_last() =~= words@.subrange(0, i - 1));
    }
    assert(words@.subrange(0, i as int) =~= words@);
    out
}

/// The foreign program: it writes sixteen bytes at a fixed address to its
/// standard output and ends with status zero, by the numbers of its own system
/// calls.
pub open spec fn linux_words() -> Seq<u32> {
    seq![
        0xd2800020u32,
        0xd2a20001,
        0xf2820001,
        0xd2800202,
        0xd2800808,
        0xd4000001,
        0xd2800000,
        0xd2800bc8,
        0xd4000001,
    ]
}

/// The foreign program's bytes.
pub fn linux_code() -> (out: Vec<u8>)
    ensures
        out@ == code_bytes(linux_words()),
{
    let words: [u32; 9] = [
        0xd2800020,
        0xd2a20001,
        0xf2820001,
        0xd2800202,
        0xd2800808,
        0xd4000001,
        0xd2800000,
        0xd2800bc8,
        0xd4000001,
    ];
    assert(words@ =~= linux_words());
    encode_words(&words)
}

/// Boot in progress.
#[derive(Clone, Copy, Debug, PartialEq, Eq, Structural)]
pub struct Boot {
    pub env: BootEnv,
    pub phase: BootPhase,
    /// The block driver's channel, once it runs.
    pub blk: Option<Handle>,
    /// The boot image's handle for programs, as the kernel returned it.
    pub prog_initrd: u64,
    /// The scratch object for programs' words, and its read-only alias.
    pub argv_vmo: u64,
    pub argv_ro: u64,
}

impl Boot {
    pub open spec fn at(self, phase: BootPhase) -> Boot {
        Boot { phase, ..self }
    }

    /// The serial driver is started only where there is no framebuffer.
    pub open spec fn after_timer(self) -> BootPhase {
        if self.env.fb_va == 0 {
            BootPhase::SerialResource
        } else {
            BootPhase::BlkDuplicate
        }
    }

    /// The framebuffer driver is started only where there is a framebuffer.
    pub open spec fn after_fat_over_blk(self) -> BootPhase {
        if self.env.fb_va != 0 && self.env.bootinfo != 0 {
            BootPhase::FbMap
        } else {
            BootPhase::NetChannel
        }
    }

    /// The disk image is read a second time where the block driver runs.
    pub open spec fn after_fat(self) -> BootPhase {
        match self.blk {
            Some(client) => BootPhase::FatOverBlk { client },
            None => self.after_fat_over_blk(),
        }
    }

    fn next_after_timer(&self) -> (p: BootPhase)
        ensures
            p == self.after_timer(),
    {
        if self.env.fb_va == 0 {
            BootPhase::SerialResource
        } else {
            BootPhase::BlkDuplicate
        }
    }

    fn next_after_fat_over_blk(&self) -> (p: BootPhase)
        ensures
            p == self.after_fat_over_blk(),
    {
        if self.env.fb_va != 0 && self.env.bootinfo != 0 {
            BootPhase::FbMap
        } else {
            BootPhase::NetChannel
        }
    }

    fn next_after_fat(&self) -> (p: BootPhase)
        ensures
            p == self.after_fat(),
    {
        match self.blk {
            Some(client) => BootPhase::FatOverBlk { client },
            None => self.next_after_fat_over_blk(),
        }
    }

    /// What boot waits for.
    pub open spec fn call_of(self) -> BootCall {
        match self.phase {
            BootPhase::Child => BootCall::CreateProcess { base: 0, len: 0x2000_0000 },
            BootPhase::ChildMap { child } => BootCall::MapVmo {
                process: handle_of(child),
                vmo: self.env.initrd,
                offset: 0,
                virt: 0x1000_0000,
                len: 0x1000,
                flags: 1,
            },
            BootPhase::ChildThread { child } => BootCall::CreateThread {
                process: handle_of(child),
            },
            BootPhase::ChildStart { thread } => BootCall::StartThread {
                thread,
                entry: 0x4000_0000,
                sp: 0x5000_0000,
                arg: 0,
            },
            BootPhase::Timer => BootCall::CreateInterrupt { irq: TIMER_IRQ },
            BootPhase::SerialResource => BootCall::CreateResource {
                base: QEMU_PL011_MMIO_BASE,
                len: QEMU_PL011_MMIO_SIZE,
                irq: QEMU_PL011_IRQ,
                irqs: 1,
            },
            BootPhase::SerialRun { device } => BootCall::Run {
                program: Program::DrvSerial,
                arg: device,
                arg2: self.env.console,
                flags: 1,
            },
            BootPhase::BlkDuplicate => BootCall::Duplicate {
                handle: self.env.initrd,
                access: Access::ReadTransfer,
            },
            BootPhase::BlkPair { .. } => BootCall::CreatePair,
            BootPhase::BlkSend { server, store, .. } => BootCall::SendSize {
                channel: server,
                size: self.env.initrd_size,
                handle: store,
            },
            BootPhase::BlkRun { peer, .. } => BootCall::Run {
                program: Program::DrvBlk,
                arg: 0,
                arg2: peer,
                flags: 1,
            },
            BootPhase::BlkSettle { .. } => BootCall::Wait,
            BootPhase::BlkTrial { server } => BootCall::ReadBlock {
                client: server,
                lba: 0,
                count: 1,
            },
            BootPhase::FatDirect => BootCall::ProbeFat { over: None },
            BootPhase::FatOverBlk { client } => BootCall::ProbeFat { over: Some(client) },
            BootPhase::FbMap => BootCall::MapBootInfo {
                vmo: handle_of(self.env.bootinfo),
                virt: BOOTINFO_VA,
                len: 4096,
            },
            BootPhase::FbInfo => BootCall::ReadBootInfo { virt: BOOTINFO_VA },
            BootPhase::FbResource { screen } => BootCall::CreateResource {
                base: screen.phys,
                len: screen.len,
                irq: 0,
                irqs: 0,
            },
            BootPhase::FbPair { .. } => BootCall::CreatePair,
            BootPhase::FbSendResource { server, resource, .. } => BootCall::SendHandle {
                channel: server,
                tag: 0x46,
                handle: resource,
            },
            BootPhase::FbSendConsole { server, .. } => BootCall::SendHandle {
                channel: server,
                tag: 0x43,
                handle: handle_of(self.env.console),
            },
            BootPhase::FbSendInfo { server, .. } => BootCall::SendHandle {
                channel: server,
                tag: 0x42,
                handle: handle_of(self.env.bootinfo),
            },
            BootPhase::FbRun { peer } => BootCall::Run {
                program: Program::DrvFb,
                arg: 0,
                arg2: peer,
                flags: 1,
            },
            BootPhase::NetChannel => BootCall::CreateChannel,
            BootPhase::NetSend { channel } => BootCall::SendHandle {
                channel: self.env.net,
                tag: 0x68,
                handle: channel,
            },
            BootPhase::PairA => BootCall::CreatePair,
            BootPhase::PairB { .. } => BootCall::CreatePair,
            BootPhase::PairWrite { channel, .. } => BootCall::Send { channel, tag: 0x54 },
            BootPhase::PairMove { channel, moved, .. } => BootCall::SendHandle {
                channel,
                tag: 0x78,
                handle: moved,
            },
            BootPhase::LinuxVmo => BootCall::CreateVmo { len: 0x2000 },
            BootPhase::LinuxText { vmo } => BootCall::WriteText {
                vmo,
                at: 0x1000,
                text: LINUX_TEXT,
            },
            BootPhase::LinuxCode { vmo, .. } => BootCall::WriteCode { vmo, at: 0x1100 },
            BootPhase::LinuxProcess { .. } => BootCall::CreateProcess { base: 0, len: 0x2000_0000 },
            BootPhase::LinuxMap { vmo, process } => BootCall::MapVmo {
                process,
                vmo,
                offset: 0,
                virt: 0x1000_0000,
                len: 0x2000,
                flags: 5,
            },
            BootPhase::LinuxStack { process } => BootCall::CreateStack {
                process,
                top: 0x1001_0000,
                len: 0x4000,
            },
            BootPhase::LinuxRun { process } => BootCall::RunAt {
                process,
                entry: 0x1000_1100,
                sp: 0x1000_fff0,
            },
            BootPhase::LinuxElf => BootCall::Run {
                program: Program::LinuxHello,
                arg: 0,
                arg2: 0,
                flags: 0,
            },
            BootPhase::Alias => BootCall::Duplicate {
                handle: self.env.initrd,
                access: Access::ReadDuplicate,
            },
            BootPhase::ArgvVmo => BootCall::CreateVmo { len: 256 },
            BootPhase::ArgvAlias => BootCall::Duplicate {
                handle: handle_of(self.argv_vmo),
                access: Access::ReadDuplicate,
            },
            BootPhase::ProbeDuplicate => BootCall::Duplicate {
                handle: self.env.initrd,
                access: Access::Read,
            },
            BootPhase::ProbeClose { handle } => BootCall::Close { handle },
            BootPhase::ProbeKoid { handle } => BootCall::Koid { handle },
            BootPhase::Trials => BootCall::RunTrials,
            BootPhase::ScratchVmo => BootCall::CreateVmo { len: 0x1000 },
            BootPhase::ScratchWrite { vmo } => BootCall::WriteText {
                vmo,
                at: 8,
                text: SCRATCH_TEXT,
            },
            BootPhase::ScratchRead { vmo } => BootCall::ReadVmo { vmo, at: 8, bytes: 6 },
            BootPhase::Finished => BootCall::Nothing,
        }
    }

    /// The state after an event, and what the log says. An event that does not
    /// answer the call changes nothing.
    pub open spec fn after(self, e: BootEventView) -> (Boot, Seq<u8>) {
        match (self.phase, e) {
            (BootPhase::Child, BootEventView::Returned(a)) => if a == u64::MAX {
                (self.at(BootPhase::Timer), Seq::empty())
            } else {
                (self.at(BootPhase::ChildMap { child: a }), Seq::empty())
            },
            (BootPhase::ChildMap { child }, BootEventView::Returned(a)) => (
                self.at(BootPhase::ChildThread { child }),
                t("child process h") + hex4(child) + t(" map=") + either(a == 0, "ok", "fail"),
            ),
            (BootPhase::ChildThread { .. }, BootEventView::Returned(a)) => if a == u64::MAX {
                (self.at(BootPhase::Timer), t(" thread=fail\n"))
            } else {
                (self.at(BootPhase::ChildStart { thread: handle_of(a) }), Seq::empty())
            },
            (BootPhase::ChildStart { .. }, BootEventView::Returned(a)) => (
                self.at(BootPhase::Timer),
                t(" thread=") + either(a == 0, "ok\n", "fail\n"),
            ),
            (BootPhase::Timer, BootEventView::Returned(a)) => (
                self.at(self.after_timer()),
                either(a != u64::MAX, "timer irq ok\n", "") + either(self.env.fb_va != 0, "drv-serial: skipped (framebuffer console, no PL011)\n", ""),
            ),
            (BootPhase::SerialResource, BootEventView::Returned(a)) => if a == u64::MAX {
                (self.at(BootPhase::BlkDuplicate), t("drv-serial: resource fail\n"))
            } else {
                (self.at(BootPhase::SerialRun { device: a }), Seq::empty())
            },
            (BootPhase::SerialRun { .. }, BootEventView::Ran(ok)) => (
                self.at(BootPhase::BlkDuplicate),
                either(ok, "drv-serial: run ok\n", "drv-serial: run fail\n"),
            ),
            (BootPhase::BlkDuplicate, BootEventView::Returned(a)) => if a == 0 || a == u64::MAX {
                (self.at(BootPhase::FatDirect), Seq::empty())
            } else {
                (self.at(BootPhase::BlkPair { store: handle_of(a) }), Seq::empty())
            },
            (BootPhase::BlkPair { store }, BootEventView::Pair(a, b)) => if a == u64::MAX || b == u64::MAX {
                (self.at(BootPhase::FatDirect), Seq::empty())
            } else {
                (self.at(BootPhase::BlkSend { server: handle_of(a), peer: b, store }), Seq::empty())
            },
            (BootPhase::BlkSend { server, peer, .. }, BootEventView::Returned(_)) => (
                self.at(BootPhase::BlkRun { server, peer }),
                Seq::empty(),
            ),
            (BootPhase::BlkRun { server, .. }, BootEventView::Ran(ok)) => if ok {
                (
                    Boot { blk: Some(server), phase: BootPhase::BlkSettle { server }, ..self },
                    t("drv-blk: run ok\n"),
                )
            } else {
                (self.at(BootPhase::FatDirect), t("drv-blk: run fail\n"))
            },
            (BootPhase::BlkSettle { server }, BootEventView::Returned(_)) => (
                self.at(BootPhase::BlkTrial { server }),
                Seq::empty(),
            ),
            (BootPhase::BlkTrial { .. }, BootEventView::Data(data)) => (
                self.at(BootPhase::FatDirect),
                either(is_first_block(data), "blk-rt: ok\n", "blk-rt: fail\n"),
            ),
            (BootPhase::FatDirect, BootEventView::Fat(probe)) => (
                self.at(self.after_fat()),
                direct_report_text(probe),
            ),
            (BootPhase::FatOverBlk { .. }, BootEventView::Fat(probe)) => (
                self.at(self.after_fat_over_blk()),
                over_blk_report_text(probe),
            ),
            (BootPhase::FbMap, BootEventView::Returned(a)) => if a == 0 {
                (self.at(BootPhase::FbInfo), Seq::empty())
            } else {
                (
                    self.at(BootPhase::NetChannel),
                    t("drv-fb: bootinfo map fail st=") + numerals::hex(a as nat) + t("\n"),
                )
            },
            (BootPhase::FbInfo, BootEventView::Screen(screen)) => if screen is None {
                (self.at(BootPhase::NetChannel), Seq::empty())
            } else if !screen->0.plausible {
                (
                    self.at(BootPhase::NetChannel),
                    t("drv-fb: implausible framebuffer geometry ") + geometry_text(screen->0),
                )
            } else {
                (self.at(BootPhase::FbResource { screen: screen->0 }), Seq::empty())
            },
            (BootPhase::FbResource { screen }, BootEventView::Returned(a)) => if a == u64::MAX {
                (
                    self.at(BootPhase::NetChannel),
                    t("drv-fb: resource fail ") + geometry_text(screen),
                )
            } else {
                (self.at(BootPhase::FbPair { resource: handle_of(a) }), Seq::empty())
            },
            (BootPhase::FbPair { resource }, BootEventView::Pair(a, b)) => if a == u64::MAX || b == u64::MAX {
                (self.at(BootPhase::NetChannel), t("drv-fb: channel fail\n"))
            } else {
                (
                    self.at(BootPhase::FbSendResource { server: handle_of(a), peer: b, resource }),
                    Seq::empty(),
                )
            },
            (BootPhase::FbSendResource { server, peer, .. }, BootEventView::Returned(_)) => (
                self.at(BootPhase::FbSendConsole { server, peer }),
                Seq::empty(),
            ),
            (BootPhase::FbSendConsole { server, peer }, BootEventView::Returned(_)) => (
                self.at(BootPhase::FbSendInfo { server, peer }),
                Seq::empty(),
            ),
            (BootPhase::FbSendInfo { peer, .. }, BootEventView::Returned(_)) => (
                self.at(BootPhase::FbRun { peer }),
                Seq::empty(),
            ),
            (BootPhase::FbRun { .. }, BootEventView::Ran(ok)) => (
                self.at(BootPhase::NetChannel),
                either(ok, "drv-fb: run ok\n", "drv-fb: run fail\n"),
            ),
            (BootPhase::NetChannel, BootEventView::Returned(a)) => if a == u64::MAX {
                (self.at(BootPhase::PairA), Seq::empty())
            } else {
                (self.at(BootPhase::NetSend { channel: handle_of(a) }), Seq::empty())
            },
            (BootPhase::NetSend { .. }, BootEventView::Returned(_)) => (
                self.at(BootPhase::PairA),
                Seq::empty(),
            ),
            (BootPhase::PairA, BootEventView::Pair(a, b)) => (
                self.at(BootPhase::PairB { a, b }),
                Seq::empty(),
            ),
            (BootPhase::PairB { a, b }, BootEventView::Pair(c, d)) => if a == u64::MAX || b == u64::MAX || c == u64::MAX || d == u64::MAX {
                (self.at(BootPhase::LinuxVmo), Seq::empty())
            } else {
                (
                    self.at(BootPhase::PairWrite { channel: handle_of(a), moved: handle_of(d) }),
                    Seq::empty(),
                )
            },
            (BootPhase::PairWrite { channel, moved }, BootEventView::Returned(a)) => (
                self.at(BootPhase::PairMove { channel, moved, sent: a == 0 }),
                Seq::empty(),
            ),
            (BootPhase::PairMove { sent, .. }, BootEventView::Returned(a)) => (
                self.at(BootPhase::LinuxVmo),
                either(sent && a == 0, "P10-f: ch-write+transfer ok\n", "P10-f: ch-write fail\n"),
            ),
            (BootPhase::LinuxVmo, BootEventView::Returned(a)) => if a == u64::MAX {
                (self.at(BootPhase::LinuxElf), t("M10 linux: vmo fail\n"))
            } else {
                (self.at(BootPhase::LinuxText { vmo: handle_of(a) }), Seq::empty())
            },
            (BootPhase::LinuxText { vmo }, BootEventView::Returned(a)) => (
                self.at(BootPhase::LinuxCode { vmo, text: a == 0 }),
                Seq::empty(),
            ),
            (BootPhase::LinuxCode { vmo, text }, BootEventView::Returned(a)) => if !text || a != 0 {
                (self.at(BootPhase::LinuxElf), t("M10 linux: write fail\n"))
            } else {
                (self.at(BootPhase::LinuxProcess { vmo }), Seq::empty())
            },
            (BootPhase::LinuxProcess { vmo }, BootEventView::Returned(a)) => if a == u64::MAX {
                (self.at(BootPhase::LinuxElf), t("M10 linux: process fail\n"))
            } else {
                (self.at(BootPhase::LinuxMap { vmo, process: handle_of(a) }), Seq::empty())
            },
            (BootPhase::LinuxMap { process, .. }, BootEventView::Returned(a)) => if a != 0 {
                (self.at(BootPhase::LinuxElf), t("M10 linux: map fail\n"))
            } else {
                (self.at(BootPhase::LinuxStack { process }), Seq::empty())
            },
            (BootPhase::LinuxStack { process }, BootEventView::Returned(a)) => if a == u64::MAX {
                (self.at(BootPhase::LinuxElf), t("M10 linux: as fail\n"))
            } else {
                (self.at(BootPhase::LinuxRun { process }), Seq::empty())
            },
            (BootPhase::LinuxRun { .. }, BootEventView::Returned(a)) => (
                self.at(BootPhase::LinuxElf),
                either(a == 0, "M10 linux: run ok\n", "M10 linux: run fail\n"),
            ),
            (BootPhase::LinuxElf, BootEventView::Ran(ok)) => (
                self.at(BootPhase::Alias),
                either(ok, "M10-c Check ok\n", "M10 elf: run fail\n"),
            ),
            (BootPhase::Alias, BootEventView::Returned(a)) => (
                Boot { prog_initrd: a, phase: BootPhase::ArgvVmo, ..self },
                either(a == 0 || a == u64::MAX, "initrd read-only dup fail\n", ""),
            ),
            (BootPhase::ArgvVmo, BootEventView::Returned(a)) => if a == u64::MAX {
                (self.at(BootPhase::ProbeDuplicate), t("argv vmo create fail\n"))
            } else {
                (Boot { argv_vmo: a, phase: BootPhase::ArgvAlias, ..self }, Seq::empty())
            },
            (BootPhase::ArgvAlias, BootEventView::Returned(a)) => if a == 0 || a == u64::MAX {
                (self.at(BootPhase::ProbeDuplicate), t("argv read-only dup fail\n"))
            } else {
                (Boot { argv_ro: a, phase: BootPhase::ProbeDuplicate, ..self }, Seq::empty())
            },
            (BootPhase::ProbeDuplicate, BootEventView::Returned(a)) => if a == 0 || a == u64::MAX {
                (self.at(BootPhase::Trials), t("handle close: sora fail\n"))
            } else {
                (self.at(BootPhase::ProbeClose { handle: handle_of(a) }), Seq::empty())
            },
            (BootPhase::ProbeClose { handle }, BootEventView::Returned(a)) => if a != 0 {
                (self.at(BootPhase::Trials), t("handle close: sora fail\n"))
            } else {
                (self.at(BootPhase::ProbeKoid { handle }), Seq::empty())
            },
            (BootPhase::ProbeKoid { .. }, BootEventView::Returned(a)) => (
                self.at(BootPhase::Trials),
                either(a == u64::MAX, "handle close: sora ok\n", "handle close: sora fail\n"),
            ),
            (BootPhase::Trials, BootEventView::Ran(_)) => (
                self.at(BootPhase::ScratchVmo),
                Seq::empty(),
            ),
            (BootPhase::ScratchVmo, BootEventView::Returned(a)) => if a == u64::MAX {
                (self.at(BootPhase::Finished), Seq::empty())
            } else {
                (self.at(BootPhase::ScratchWrite { vmo: handle_of(a) }), Seq::empty())
            },
            (BootPhase::ScratchWrite { vmo }, BootEventView::Returned(a)) => if a != 0 {
                (self.at(BootPhase::Finished), Seq::empty())
            } else {
                (self.at(BootPhase::ScratchRead { vmo }), Seq::empty())
            },
            (BootPhase::ScratchRead { .. }, BootEventView::Data(data)) => (
                self.at(BootPhase::Finished),
                either(is_scratch(data), "anon vmo write ok\n", ""),
            ),
            _ => (self, Seq::empty()),
        }
    }

    pub fn new(env: BootEnv) -> (b: Boot)
        ensures
            b == (Boot {
                env,
                phase: BootPhase::Child,
                blk: None,
                prog_initrd: 0,
                argv_vmo: 0,
                argv_ro: 0,
            }),
    {
        Boot {
            env,
            phase: BootPhase::Child,
            blk: None,
            prog_initrd: 0,
            argv_vmo: 0,
            argv_ro: 0,
        }
    }

    /// What to do next.
    pub fn call(&self) -> (c: BootCall)
        ensures
            c == self.call_of(),
    {
        match self.phase {
            BootPhase::Child => BootCall::CreateProcess { base: 0, len: 0x2000_0000 },
            BootPhase::ChildMap { child } => BootCall::MapVmo {
                process: to_handle(child),
                vmo: self.env.initrd,
                offset: 0,
                virt: 0x1000_0000,
                len: 0x1000,
                flags: 1,
            },
            BootPhase::ChildThread { child } => BootCall::CreateThread {
                process: to_handle(child),
            },
            BootPhase::ChildStart { thread } => BootCall::StartThread {
                thread,
                entry: 0x4000_0000,
                sp: 0x5000_0000,
                arg: 0,
            },
            BootPhase::Timer => BootCall::CreateInterrupt { irq: TIMER_IRQ },
            BootPhase::SerialResource => BootCall::CreateResource {
                base: QEMU_PL011_MMIO_BASE,
                len: QEMU_PL011_MMIO_SIZE,
                irq: QEMU_PL011_IRQ,
                irqs: 1,
            },
            BootPhase::SerialRun { device } => BootCall::Run {
                program: Program::DrvSerial,
                arg: device,
                arg2: self.env.console,
                flags: 1,
            },
            BootPhase::BlkDuplicate => BootCall::Duplicate {
                handle: self.env.initrd,
                access: Access::ReadTransfer,
            },
            BootPhase::BlkPair { .. } => BootCall::CreatePair,
            BootPhase::BlkSend { server, store, .. } => BootCall::SendSize {
                channel: server,
                size: self.env.initrd_size,
                handle: store,
            },
            BootPhase::BlkRun { peer, .. } => BootCall::Run {
                program: Program::DrvBlk,
                arg: 0,
                arg2: peer,
                flags: 1,
            },
            BootPhase::BlkSettle { .. } => BootCall::Wait,
            BootPhase::BlkTrial { server } => BootCall::ReadBlock {
                client: server,
                lba: 0,
                count: 1,
            },
            BootPhase::FatDirect => BootCall::ProbeFat { over: None },
            BootPhase::FatOverBlk { client } => BootCall::ProbeFat { over: Some(client) },
            BootPhase::FbMap => BootCall::MapBootInfo {
                vmo: to_handle(self.env.bootinfo),
                virt: BOOTINFO_VA,
                len: 4096,
            },
            BootPhase::FbInfo => BootCall::ReadBootInfo { virt: BOOTINFO_VA },
            BootPhase::FbResource { screen } => BootCall::CreateResource {
                base: screen.phys,
                len: screen.len,
                irq: 0,
                irqs: 0,
            },
            BootPhase::FbPair { .. } => BootCall::CreatePair,
            BootPhase::FbSendResource { server, resource, .. } => BootCall::SendHandle {
                channel: server,
                tag: 0x46,
                handle: resource,
            },
            BootPhase::FbSendConsole { server, .. } => BootCall::SendHandle {
                channel: server,
                tag: 0x43,
                handle: to_handle(self.env.console),
            },
            BootPhase::FbSendInfo { server, .. } => BootCall::SendHandle {
                channel: server,
                tag: 0x42,
                handle: to_handle(self.env.bootinfo),
            },
            BootPhase::FbRun { peer } => BootCall::Run {
                program: Program::DrvFb,
                arg: 0,
                arg2: peer,
                flags: 1,
            },
            BootPhase::NetChannel => BootCall::CreateChannel,
            BootPhase::NetSend { channel } => BootCall::SendHandle {
                channel: self.env.net,
                tag: 0x68,
                handle: channel,
            },
            BootPhase::PairA => BootCall::CreatePair,
            BootPhase::PairB { .. } => BootCall::CreatePair,
            BootPhase::PairWrite { channel, .. } => BootCall::Send { channel, tag: 0x54 },
            BootPhase::PairMove { channel, moved, .. } => BootCall::SendHandle {
                channel,
                tag: 0x78,
                handle: moved,
            },
            BootPhase::LinuxVmo => BootCall::CreateVmo { len: 0x2000 },
            BootPhase::LinuxText { vmo } => BootCall::WriteText {
                vmo,
                at: 0x1000,
                text: LINUX_TEXT,
            },
            BootPhase::LinuxCode { vmo, .. } => BootCall::WriteCode { vmo, at: 0x1100 },
            BootPhase::LinuxProcess { .. } => BootCall::CreateProcess { base: 0, len: 0x2000_0000 },
            BootPhase::LinuxMap { vmo, process } => BootCall::MapVmo {
                process,
                vmo,
                offset: 0,
                virt: 0x1000_0000,
                len: 0x2000,
                flags: 5,
            },
            BootPhase::LinuxStack { process } => BootCall::CreateStack {
                process,
                top: 0x1001_0000,
                len: 0x4000,
            },
            BootPhase::LinuxRun { process } => BootCall::RunAt {
                process,
                entry: 0x1000_1100,
                sp: 0x1000_fff0,
            },
            BootPhase::LinuxElf => BootCall::Run {
                program: Program::LinuxHello,
                arg: 0,
                arg2: 0,
                flags: 0,
            },
            BootPhase::Alias => BootCall::Duplicate {
                handle: self.env.initrd,
                access: Access::ReadDuplicate,
            },
            BootPhase::ArgvVmo => BootCall::CreateVmo { len: 256 },
            BootPhase::ArgvAlias => BootCall::Duplicate {
                handle: to_handle(self.argv_vmo),
                access: Access::ReadDuplicate,
            },
            BootPhase::ProbeDuplicate => BootCall::Duplicate {
                handle: self.env.initrd,
                access: Access::Read,
            },
            BootPhase::ProbeClose { handle } => BootCall::Close { handle },
            BootPhase::ProbeKoid { handle } => BootCall::Koid { handle },
            BootPhase::Trials => BootCall::RunTrials,
            BootPhase::ScratchVmo => BootCall::CreateVmo { len: 0x1000 },
            BootPhase::ScratchWrite { vmo } => BootCall::WriteText {
                vmo,
                at: 8,
                text: SCRATCH_TEXT,
            },
            BootPhase::ScratchRead { vmo } => BootCall::ReadVmo { vmo, at: 8, bytes: 6 },
            BootPhase::Finished => BootCall::Nothing,
        }
    }

    /// Takes what came back and returns what to log.
    pub fn advance(&mut self, e: &BootEvent) -> (out: Vec<u8>)
        ensures
            (*final(self), out@) == old(self).after(e@),
    {
        let mut out: Vec<u8> = Vec::new();
        match (self.phase, e) {
            (BootPhase::Child, BootEvent::Returned(a)) => {
                let a: u64 = *a;
                if a == u64::MAX {
                    self.phase = BootPhase::Timer;
                } else {
                    self.phase = BootPhase::ChildMap { child: a };
                }
            },
            (BootPhase::ChildMap { child }, BootEvent::Returned(a)) => {
                let a: u64 = *a;
                text::append_text(&mut out, "child process h");
                numerals::push_hex_wide(&mut out, child, 4);
                text::append_text(&mut out, " map=");
                push_either(&mut out, a == 0, "ok", "fail");
                self.phase = BootPhase::ChildThread { child };
            },
            (BootPhase::ChildThread { .. }, BootEvent::Returned(a)) => {
                let a: u64 = *a;
                if a == u64::MAX {
                    text::append_text(&mut out, " thread=fail\n");
                    self.phase = BootPhase::Timer;
                } else {
                    self.phase = BootPhase::ChildStart { thread: to_handle(a) };
                }
            },
            (BootPhase::ChildStart { .. }, BootEvent::Returned(a)) => {
                let a: u64 = *a;
                text::append_text(&mut out, " thread=");
                push_either(&mut out, a == 0, "ok\n", "fail\n");
                self.phase = BootPhase::Timer;
            },
            (BootPhase::Timer, BootEvent::Returned(a)) => {
                let a: u64 = *a;
                push_either(&mut out, a != u64::MAX, "timer irq ok\n", "");
                push_either(&mut out, self.env.fb_va != 0, "drv-serial: skipped (framebuffer console, no PL011)\n", "");
                self.phase = self.next_after_timer();
            },
            (BootPhase::SerialResource, BootEvent::Returned(a)) => {
                let a: u64 = *a;
                if a == u64::MAX {
                    text::append_text(&mut out, "drv-serial: resource fail\n");
                    self.phase = BootPhase::BlkDuplicate;
                } else {
                    self.phase = BootPhase::SerialRun { device: a };
                }
            },
            (BootPhase::SerialRun { .. }, BootEvent::Ran(ok)) => {
                let ok: bool = *ok;
                push_either(&mut out, ok, "drv-serial: run ok\n", "drv-serial: run fail\n");
                self.phase = BootPhase::BlkDuplicate;
            },
            (BootPhase::BlkDuplicate, BootEvent::Returned(a)) => {
                let a: u64 = *a;
                if a == 0 || a == u64::MAX {
                    self.phase = BootPhase::FatDirect;
                } else {
                    self.phase = BootPhase::BlkPair { store: to_handle(a) };
                }
            },
            (BootPhase::BlkPair { store }, BootEvent::Pair(a, b)) => {
                let a: u64 = *a;
                let b: u64 = *b;
                if a == u64::MAX || b == u64::MAX {
                    self.phase = BootPhase::FatDirect;
                } else {
                    self.phase = BootPhase::BlkSend { server: to_handle(a), peer: b, store };
                }
            },
            (BootPhase::BlkSend { server, peer, .. }, BootEvent::Returned(_)) => {
                self.phase = BootPhase::BlkRun { server, peer };
            },
            (BootPhase::BlkRun { server, .. }, BootEvent::Ran(ok)) => {
                let ok: bool = *ok;
                if ok {
                    text::append_text(&mut out, "drv-blk: run ok\n");
                    self.blk = Some(server);
                    self.phase = BootPhase::BlkSettle { server };
                } else {
                    text::append_text(&mut out, "drv-blk: run fail\n");
                    self.phase = BootPhase::FatDirect;
                }
            },
            (BootPhase::BlkSettle { server }, BootEvent::Returned(_)) => {
                self.phase = BootPhase::BlkTrial { server };
            },
            (BootPhase::BlkTrial { .. }, BootEvent::Data(data)) => {
                push_either(&mut out, first_block(data), "blk-rt: ok\n", "blk-rt: fail\n");
                self.phase = BootPhase::FatDirect;
            },
            (BootPhase::FatDirect, BootEvent::Fat(probe)) => {
                push_direct_report(&mut out, probe);
                self.phase = self.next_after_fat();
            },
            (BootPhase::FatOverBlk { .. }, BootEvent::Fat(probe)) => {
                push_over_blk_report(&mut out, probe);
                self.phase = self.next_after_fat_over_blk();
            },
            (BootPhase::FbMap, BootEvent::Returned(a)) => {
                let a: u64 = *a;
                if a == 0 {
                    self.phase = BootPhase::FbInfo;
                } else {
                    text::append_text(&mut out, "drv-fb: bootinfo map fail st=");
                    numerals::push_hex(&mut out, a);
                    text::append_text(&mut out, "\n");
                    self.phase = BootPhase::NetChannel;
                }
            },
            (BootPhase::FbInfo, BootEvent::Screen(screen)) => {
                match screen {
                    None => {
                        self.phase = BootPhase::NetChannel;
                    },
                    Some(screen) => {
                        if !screen.plausible {
                            self.phase = BootPhase::NetChannel;
                            text::append_text(&mut out, "drv-fb: implausible framebuffer geometry ");
                            push_geometry(&mut out, screen);
                        } else {
                            self.phase = BootPhase::FbResource { screen: *screen };
                        }
                    },
                }
            },
            (BootPhase::FbResource { screen }, BootEvent::Returned(a)) => {
                let a: u64 = *a;
                if a == u64::MAX {
                    text::append_text(&mut out, "drv-fb: resource fail ");
                    push_geometry(&mut out, &screen);
                    self.phase = BootPhase::NetChannel;
                } else {
                    self.phase = BootPhase::FbPair { resource: to_handle(a) };
                }
            },
            (BootPhase::FbPair { resource }, BootEvent::Pair(a, b)) => {
                let a: u64 = *a;
                let b: u64 = *b;
                if a == u64::MAX || b == u64::MAX {
                    text::append_text(&mut out, "drv-fb: channel fail\n");
                    self.phase = BootPhase::NetChannel;
                } else {
                    self.phase = BootPhase::FbSendResource { server: to_handle(a), peer: b, resource };
                }
            },
            (BootPhase::FbSendResource { server, peer, .. }, BootEvent::Returned(_)) => {
                self.phase = BootPhase::FbSendConsole { server, peer };
            },
            (BootPhase::FbSendConsole { server, peer }, BootEvent::Returned(_)) => {
                self.phase = BootPhase::FbSendInfo { server, peer };
            },
            (BootPhase::FbSendInfo { peer, .. }, BootEvent::Returned(_)) => {
                self.phase = BootPhase::FbRun { peer };
            },
            (BootPhase::FbRun { .. }, BootEvent::Ran(ok)) => {
                let ok: bool = *ok;
                push_either(&mut out, ok, "drv-fb: run ok\n", "drv-fb: run fail\n");
                self.phase = BootPhase::NetChannel;
            },
            (BootPhase::NetChannel, BootEvent::Returned(a)) => {
                let a: u64 = *a;
                if a == u64::MAX {
                    self.phase = BootPhase::PairA;
                } else {
                    self.phase = BootPhase::NetSend { channel: to_handle(a) };
                }
            },
            (BootPhase::NetSend { .. }, BootEvent::Returned(_)) => {
                self.phase = BootPhase::PairA;
            },
            (BootPhase::PairA, BootEvent::Pair(a, b)) => {
                let a: u64 = *a;
                let b: u64 = *b;
                self.phase = BootPhase::PairB { a, b };
            },
            (BootPhase::PairB { a, b }, BootEvent::Pair(c, d)) => {
                let c: u64 = *c;
                let d: u64 = *d;
                if a == u64::MAX || b == u64::MAX || c == u64::MAX || d == u64::MAX {
                    self.phase = BootPhase::LinuxVmo;
                } else {
                    self.phase = BootPhase::PairWrite { channel: to_handle(a), moved: to_handle(d) };
                }
            },
            (BootPhase::PairWrite { channel, moved }, BootEvent::Returned(a)) => {
                let a: u64 = *a;
                self.phase = BootPhase::PairMove { channel, moved, sent: a == 0 };
            },
            (BootPhase::PairMove { sent, .. }, BootEvent::Returned(a)) => {
                let a: u64 = *a;
                push_either(&mut out, sent && a == 0, "P10-f: ch-write+transfer ok\n", "P10-f: ch-write fail\n");
                self.phase = BootPhase::LinuxVmo;
            },
            (BootPhase::LinuxVmo, BootEvent::Returned(a)) => {
                let a: u64 = *a;
                if a == u64::MAX {
                    text::append_text(&mut out, "M10 linux: vmo fail\n");
                    self.phase = BootPhase::LinuxElf;
                } else {
                    self.phase = BootPhase::LinuxText { vmo: to_handle(a) };
                }
            },
            (BootPhase::LinuxText { vmo }, BootEvent::Returned(a)) => {
                let a: u64 = *a;
                self.phase = BootPhase::LinuxCode { vmo, text: a == 0 };
            },
            (BootPhase::LinuxCode { vmo, text }, BootEvent::Returned(a)) => {
                let a: u64 = *a;
                if !text || a != 0 {
                    text::append_text(&mut out, "M10 linux: write fail\n");
                    self.phase = BootPhase::LinuxElf;
                } else {
                    self.phase = BootPhase::LinuxProcess { vmo };
                }
            },
            (BootPhase::LinuxProcess { vmo }, BootEvent::Returned(a)) => {
                let a: u64 = *a;
                if a == u64::MAX {
                    text::append_text(&mut out, "M10 linux: process fail\n");
                    self.phase = BootPhase::LinuxElf;
                } else {
                    self.phase = BootPhase::LinuxMap { vmo, process: to_handle(a) };
                }
            },
            (BootPhase::LinuxMap { process, .. }, BootEvent::Returned(a)) => {
                let a: u64 = *a;
                if a != 0 {
                    text::append_text(&mut out, "M10 linux: map fail\n");
                    self.phase = BootPhase::LinuxElf;
                } else {
                    self.phase = BootPhase::LinuxStack { process };
                }
            },
            (BootPhase::LinuxStack { process }, BootEvent::Returned(a)) => {
                let a: u64 = *a;
                if a == u64::MAX {
                    text::append_text(&mut out, "M10 linux: as fail\n");
                    self.phase = BootPhase::LinuxElf;
                } else {
                    self.phase = BootPhase::LinuxRun { process };
                }
            },
            (BootPhase::LinuxRun { .. }, BootEvent::Returned(a)) => {
                let a: u64 = *a;
                push_either(&mut out, a == 0, "M10 linux: run ok\n", "M10 linux: run fail\n");
                self.phase = BootPhase::LinuxElf;
            },
            (BootPhase::LinuxElf, BootEvent::Ran(ok)) => {
                let ok: bool = *ok;
                push_either(&mut out, ok, "M10-c Check ok\n", "M10 elf: run fail\n");
                self.phase = BootPhase::Alias;
            },
            (BootPhase::Alias, BootEvent::Returned(a)) => {
                let a: u64 = *a;
                push_either(&mut out, a == 0 || a == u64::MAX, "initrd read-only dup fail\n", "");
                self.prog_initrd = a;
                self.phase = BootPhase::ArgvVmo;
            },
            (BootPhase::ArgvVmo, BootEvent::Returned(a)) => {
                let a: u64 = *a;
                if a == u64::MAX {
                    text::append_text(&mut out, "argv vmo create fail\n");
                    self.phase = BootPhase::ProbeDuplicate;
                } else {
                    self.argv_vmo = a;
                    self.phase = BootPhase::ArgvAlias;
                }
            },
            (BootPhase::ArgvAlias, BootEvent::Returned(a)) => {
                let a: u64 = *a;
                if a == 0 || a == u64::MAX {
                    text::append_text(&mut out, "argv read-only dup fail\n");
                    self.phase = BootPhase::ProbeDuplicate;
                } else {
                    self.argv_ro = a;
                    self.phase = BootPhase::ProbeDuplicate;
                }
            },
            (BootPhase::ProbeDuplicate, BootEvent::Returned(a)) => {
                let a: u64 = *a;
                if a == 0 || a == u64::MAX {
                    text::append_text(&mut out, "handle close: sora fail\n");
                    self.phase = BootPhase::Trials;
                } else {
                    self.phase = BootPhase::ProbeClose { handle: to_handle(a) };
                }
            },
            (BootPhase::ProbeClose { handle }, BootEvent::Returned(a)) => {
                let a: u64 = *a;
                if a != 0 {
                    text::append_text(&mut out, "handle close: sora fail\n");
                    self.phase = BootPhase::Trials;
                } else {
                    self.phase = BootPhase::ProbeKoid { handle };
                }
            },
            (BootPhase::ProbeKoid { .. }, BootEvent::Returned(a)) => {
                let a: u64 = *a;
                push_either(&mut out, a == u64::MAX, "handle close: sora ok\n", "handle close: sora fail\n");
                self.phase = BootPhase::Trials;
            },
            (BootPhase::Trials, BootEvent::Ran(_)) => {
                self.phase = BootPhase::ScratchVmo;
            },
            (BootPhase::ScratchVmo, BootEvent::Returned(a)) => {
                let a: u64 = *a;
                if a == u64::MAX {
                    self.phase = BootPhase::Finished;
                } else {
                    self.phase = BootPhase::ScratchWrite { vmo: to_handle(a) };
                }
            },
            (BootPhase::ScratchWrite { vmo }, BootEvent::Returned(a)) => {
                let a: u64 = *a;
                if a != 0 {
                    self.phase = BootPhase::Finished;
                } else {
                    self.phase = BootPhase::ScratchRead { vmo };
                }
            },
            (BootPhase::ScratchRead { .. }, BootEvent::Data(data)) => {
                push_either(&mut out, scratch_ok(data), "anon vmo write ok\n", "");
                self.phase = BootPhase::Finished;
            },
            _ => {},
        }
        assert(out@ =~= old(self).after(e@).1);
        out
    }
}

/// How many steps are left at most.
pub open spec fn steps_left(p: BootPhase) -> nat {
    match p {
        BootPhase::Child => 47,
        BootPhase::ChildMap { .. } => 46,
        BootPhase::ChildThread { .. } => 45,
        BootPhase::ChildStart { .. } => 44,
        BootPhase::Timer => 43,
        BootPhase::SerialResource => 42,
        BootPhase::SerialRun { .. } => 41,
        BootPhase::BlkDuplicate => 40,
        BootPhase::BlkPair { .. } => 39,
        BootPhase::BlkSend { .. } => 38,
        BootPhase::BlkRun { .. } => 37,
        BootPhase::BlkSettle { .. } => 36,
        BootPhase::BlkTrial { .. } => 35,
        BootPhase::FatDirect => 34,
        BootPhase::FatOverBlk { .. } => 33,
        BootPhase::FbMap => 32,
        BootPhase::FbInfo => 31,
        BootPhase::FbResource { .. } => 30,
        BootPhase::FbPair { .. } => 29,
        BootPhase::FbSendResource { .. } => 28,
        BootPhase::FbSendConsole { .. } => 27,
        BootPhase::FbSendInfo { .. } => 26,
        BootPhase::FbRun { .. } => 25,
        BootPhase::NetChannel => 24,
        BootPhase::NetSend { .. } => 23,
        BootPhase::PairA => 22,
        BootPhase::PairB { .. } => 21,
        BootPhase::PairWrite { .. } => 20,
        BootPhase::PairMove { .. } => 19,
        BootPhase::LinuxVmo => 18,
        BootPhase::LinuxText { .. } => 17,
        BootPhase::LinuxCode { .. } => 16,
        BootPhase::LinuxProcess { .. } => 15,
        BootPhase::LinuxMap { .. } => 14,
        BootPhase::LinuxStack { .. } => 13,
        BootPhase::LinuxRun { .. } => 12,
        BootPhase::LinuxElf => 11,
        BootPhase::Alias => 10,
        BootPhase::ArgvVmo => 9,
        BootPhase::ArgvAlias => 8,
        BootPhase::ProbeDuplicate => 7,
        BootPhase::ProbeClose { .. } => 6,
        BootPhase::ProbeKoid { .. } => 5,
        BootPhase::Trials => 4,
        BootPhase::ScratchVmo => 3,
        BootPhase::ScratchWrite { .. } => 2,
        BootPhase::ScratchRead { .. } => 1,
        BootPhase::Finished => 0,
    }
}

/// Boot never goes back: an event changes nothing, or takes boot at least one
/// step nearer to its end.
#[verifier::rlimit(60)]
pub proof fn boot_moves_forward(b: Boot, e: BootEventView)
    ensures
        b.after(e) == (b, Seq::<u8>::empty()) || steps_left(b.after(e).0.phase) < steps_left(
            b.phase,
        ),
{
}

/// The serial driver is started only without a framebuffer, and the
/// framebuffer driver only with one whose shape is plausible.
pub proof fn drivers_fit_the_console(b: Boot, e: BootEventView)
    requires
        b.phase is SerialRun ==> b.env.fb_va == 0,
        b.phase is SerialResource ==> b.env.fb_va == 0,
        b.phase is FbMap || b.phase is FbInfo || b.phase is FbResource ==> b.env.fb_va != 0,
        b.phase matches BootPhase::FbResource { screen } ==> screen.plausible,
    ensures
        ({
            let n = b.after(e).0;
            &&& n.env == b.env
            &&& n.phase is SerialRun || n.phase is SerialResource ==> n.env.fb_va == 0
            &&& n.phase is FbMap || n.phase is FbInfo || n.phase is FbResource ==> n.env.fb_va != 0
            &&& n.phase matches BootPhase::FbResource { screen } ==> screen.plausible
        }),
{
}

/// The trial of a child: a process of 0x2000_0000 addresses gets the first page of the boot image at
/// 0x1000_0000, to read, and a thread that starts at 0x4000_0000 with its stack at 0x5000_0000; the log
/// tells what came of the map and of the thread. Then comes the timer.
pub proof fn a_child_is_made_and_started(b: Boot, child: u64, map: u64, thread: u64, start: u64)
    requires
        b.phase is Child,
        child != u64::MAX,
        thread != u64::MAX,
    ensures
        ({
            let (b1, _) = b.after(BootEventView::Returned(child));
            let (b2, l2) = b1.after(BootEventView::Returned(map));
            let (b3, l3) = b2.after(BootEventView::Returned(thread));
            let (b4, l4) = b3.after(BootEventView::Returned(start));
            let p = Handle(child as u32);
            &&& b.call_of() == (BootCall::CreateProcess { base: 0, len: 0x2000_0000 })
            &&& b1.call_of() == (BootCall::MapVmo {
                process: p,
                vmo: b.env.initrd,
                offset: 0,
                virt: 0x1000_0000,
                len: 0x1000,
                flags: 1,
            })
            &&& l2 == t("child process h") + numerals::padded(
                numerals::digits(child as nat, 16),
                4,
                0x30,
            ) + t(" map=") + (if map == 0 {
                t("ok")
            } else {
                t("fail")
            })
            &&& b2.call_of() == (BootCall::CreateThread { process: p })
            &&& b3.call_of() == (BootCall::StartThread {
                thread: Handle(thread as u32),
                entry: 0x4000_0000,
                sp: 0x5000_0000,
                arg: 0,
            })
            &&& l3 == Seq::<u8>::empty()
            &&& l4 == t(" thread=") + (if start == 0 {
                t("ok\n")
            } else {
                t("fail\n")
            })
            &&& b4.call_of() == (BootCall::CreateInterrupt { irq: 27 })
            &&& b.after(BootEventView::Returned(u64::MAX)).0.call_of() == (
            BootCall::CreateInterrupt { irq: 27 })
            &&& b2.after(BootEventView::Returned(u64::MAX)) == (
                b2.at(BootPhase::Timer),
                t(" thread=fail\n"),
            )
        }),
{
}

/// Without a framebuffer the serial driver runs, with its device's 0x1000 bytes at 0x0900_0000 and
/// interrupt 33, and with the console; with one it is skipped, and the log says so. Either way the block
/// driver comes next.
pub proof fn the_serial_driver_gets_its_device(b: Boot, timer: u64, device: u64, ran: bool)
    requires
        b.phase is Timer,
        device != u64::MAX,
    ensures
        ({
            let (b1, l1) = b.after(BootEventView::Returned(timer));
            let (b2, _) = b1.after(BootEventView::Returned(device));
            let (b3, l3) = b2.after(BootEventView::Ran(ran));
            let claimed = if timer != u64::MAX {
                t("timer irq ok\n")
            } else {
                t("")
            };
            &&& b.env.fb_va == 0 ==> {
                &&& l1 == claimed + t("")
                &&& b1.call_of() == (BootCall::CreateResource {
                    base: 0x0900_0000,
                    len: 0x1000,
                    irq: 33,
                    irqs: 1,
                })
                &&& b2.call_of() == (BootCall::Run {
                    program: Program::DrvSerial,
                    arg: device,
                    arg2: b.env.console,
                    flags: 1,
                })
                &&& l3 == (if ran {
                    t("drv-serial: run ok\n")
                } else {
                    t("drv-serial: run fail\n")
                })
                &&& b3 == b.at(BootPhase::BlkDuplicate)
                &&& b1.after(BootEventView::Returned(u64::MAX)) == (
                    b.at(BootPhase::BlkDuplicate),
                    t("drv-serial: resource fail\n"),
                )
            }
            &&& b.env.fb_va != 0 ==> {
                &&& l1 == claimed + t("drv-serial: skipped (framebuffer console, no PL011)\n")
                &&& b1 == b.at(BootPhase::BlkDuplicate)
            }
        }),
{
}

/// The block driver gets the boot image and its size over a channel of its own, runs with the other end,
/// and must then serve the image's first block. Where any of it fails the disk image is read straight.
#[verifier::rlimit(40)]
pub proof fn the_block_driver_gets_the_boot_image(
    b: Boot,
    store: u64,
    server: u64,
    peer: u64,
    x: u64,
    data: Option<Seq<u8>>,
)
    requires
        b.phase is BlkDuplicate,
        store != 0 && store != u64::MAX,
        server != u64::MAX,
        peer != u64::MAX,
    ensures
        ({
            let (b1, _) = b.after(BootEventView::Returned(store));
            let (b2, _) = b1.after(BootEventView::Pair(server, peer));
            let (b3, _) = b2.after(BootEventView::Returned(x));
            let (b4, l4) = b3.after(BootEventView::Ran(true));
            let (b5, _) = b4.after(BootEventView::Returned(x));
            let (b6, _) = b5.after(BootEventView::Data(data));
            let h = Handle(server as u32);
            &&& b.call_of() == (BootCall::Duplicate {
                handle: b.env.initrd,
                access: Access::ReadTransfer,
            })
            &&& b1.call_of() == BootCall::CreatePair
            &&& b2.call_of() == (BootCall::SendSize {
                channel: h,
                size: b.env.initrd_size,
                handle: Handle(store as u32),
            })
            &&& b3.call_of() == (BootCall::Run {
                program: Program::DrvBlk,
                arg: 0,
                arg2: peer,
                flags: 1,
            })
            &&& b4.blk == Some(h)
            &&& l4 == t("drv-blk: run ok\n")
            &&& b4.call_of() == BootCall::Wait
            &&& b5.call_of() == (BootCall::ReadBlock { client: h, lba: 0, count: 1 })
            &&& b6.call_of() == (BootCall::ProbeFat { over: None })
        }),
{
}

/// The block driver is given up where its store, its channel or its process cannot be had; the disk image
/// is then read straight.
pub proof fn the_block_driver_may_be_missing(b: Boot, a: u64)
    ensures
        b.phase is BlkDuplicate && (a == 0 || a == u64::MAX) ==> b.after(BootEventView::Returned(a)).0
            == b.at(BootPhase::FatDirect),
        b.phase is BlkPair ==> b.after(BootEventView::Pair(u64::MAX, a)).0 == b.at(
            BootPhase::FatDirect,
        ) && b.after(BootEventView::Pair(a, u64::MAX)).0 == b.at(BootPhase::FatDirect),
        b.phase is BlkRun ==> b.after(BootEventView::Ran(false)) == (
            b.at(BootPhase::FatDirect),
            t("drv-blk: run fail\n"),
        ),
{
}

/// The block driver passes its trial just where its reply is a zero and one block that opens with the
/// bytes of `KUMORD01`.
pub proof fn the_first_block_is_the_boot_images(b: Boot, data: Option<Seq<u8>>)
    requires
        b.phase is BlkTrial,
    ensures
        ({
            let good = data is Some && data->0.len() == 513 && data->0[0] == 0 && data->0.subrange(
                1,
                9,
            ) == seq![0x4bu8, 0x55u8, 0x4du8, 0x4fu8, 0x52u8, 0x44u8, 0x30u8, 0x31u8];
            let log = b.after(BootEventView::Data(data)).1;
            &&& good ==> log == t("blk-rt: ok\n")
            &&& !good ==> log == t("blk-rt: fail\n")
        }),
{
}

/// The disk image is read straight and, where the block driver runs, once more through it; then comes
/// the framebuffer driver where there is a framebuffer and boot information, or the network channel.
pub proof fn the_disk_image_is_read_twice(b: Boot, p: ProbeView)
    requires
        b.phase is FatDirect || b.phase is FatOverBlk,
    ensures
        ({
            let n = b.after(BootEventView::Fat(p)).0;
            let screen = b.env.fb_va != 0 && b.env.bootinfo != 0;
            &&& b.phase is FatDirect && b.blk is Some ==> n.call_of() == (BootCall::ProbeFat {
                over: b.blk,
            })
            &&& (b.phase is FatOverBlk || b.blk is None) && screen ==> n.call_of() == (
            BootCall::MapBootInfo {
                vmo: Handle(b.env.bootinfo as u32),
                virt: 0x3000_0000,
                len: 4096,
            })
            &&& (b.phase is FatOverBlk || b.blk is None) && !screen ==> n.call_of()
                == BootCall::CreateChannel
        }),
{
}

/// What the log says of the disk image: that it is missing or cannot be mounted, or the start of each of
/// its files, or that the file is missing.
pub proof fn the_disk_image_is_reported(hello: Option<Seq<u8>>, nested: Option<Seq<u8>>)
    ensures
        direct_report_text(ProbeView::NoImage) == t("fatfs: image not found\n"),
        direct_report_text(ProbeView::NoMount) == t("fatfs: mount failed\n"),
        over_blk_report_text(ProbeView::NoImage) == t("fatfs-blk: image not found\n"),
        over_blk_report_text(ProbeView::NoMount) == t("fatfs-blk: mount failed\n"),
        direct_report_text(ProbeView::Mounted { hello, nested }) == (match hello {
            Some(data) => t("fatfs: HELLO.TXT = ") + data + t("\n"),
            None => t("fatfs: HELLO.TXT missing\n"),
        }) + (match nested {
            Some(data) => t("fatfs-path: /EFI/BOOT/BOOTAA64.EFI = ") + data + t("\n"),
            None => t("fatfs-path: /EFI/BOOT/BOOTAA64.EFI missing\n"),
        }),
        over_blk_report_text(ProbeView::Mounted { hello, nested }) == (match hello {
            Some(data) => t("fatfs-blk: HELLO.TXT = ") + data + t("\n"),
            None => t("fatfs-blk: HELLO.TXT missing\n"),
        }),
{
}

/// The framebuffer driver gets the screen's memory, the console and the boot information, in this order,
/// each with its letter, over a channel whose other end it runs with.
#[verifier::rlimit(40)]
pub proof fn the_framebuffer_driver_gets_its_screen(
    b: Boot,
    screen: Screen,
    resource: u64,
    server: u64,
    peer: u64,
    x: u64,
    ran: bool,
)
    requires
        b.phase is FbMap,
        screen.plausible,
        resource != u64::MAX,
        server != u64::MAX,
        peer != u64::MAX,
    ensures
        ({
            let (b1, _) = b.after(BootEventView::Returned(0));
            let (b2, _) = b1.after(BootEventView::Screen(Some(screen)));
            let (b3, _) = b2.after(BootEventView::Returned(resource));
            let (b4, _) = b3.after(BootEventView::Pair(server, peer));
            let (b5, _) = b4.after(BootEventView::Returned(x));
            let (b6, _) = b5.after(BootEventView::Returned(x));
            let (b7, _) = b6.after(BootEventView::Returned(x));
            let (b8, l8) = b7.after(BootEventView::Ran(ran));
            let h = Handle(server as u32);
            &&& b1.call_of() == (BootCall::ReadBootInfo { virt: 0x3000_0000 })
            &&& b2.call_of() == (BootCall::CreateResource {
                base: screen.phys,
                len: screen.len,
                irq: 0,
                irqs: 0,
            })
            &&& b3.call_of() == BootCall::CreatePair
            &&& b4.call_of() == (BootCall::SendHandle {
                channel: h,
                tag: 0x46,
                handle: Handle(resource as u32),
            })
            &&& b5.call_of() == (BootCall::SendHandle {
                channel: h,
                tag: 0x43,
                handle: Handle(b.env.console as u32),
            })
            &&& b6.call_of() == (BootCall::SendHandle {
                channel: h,
                tag: 0x42,
                handle: Handle(b.env.bootinfo as u32),
            })
            &&& b7.call_of() == (BootCall::Run {
                program: Program::DrvFb,
                arg: 0,
                arg2: peer,
                flags: 1,
            })
            &&& l8 == (if ran {
                t("drv-fb: run ok\n")
            } else {
                t("drv-fb: run fail\n")
            })
            &&& b8 == b.at(BootPhase::NetChannel)
        }),
{
}

/// A framebuffer that cannot be used is passed over, and the log says why.
pub proof fn unusable_screens_are_passed_over(b: Boot, screen: Screen, a: u64)
    ensures
        b.phase is FbMap && a != 0 ==> b.after(BootEventView::Returned(a)) == (
            b.at(BootPhase::NetChannel),
            t("drv-fb: bootinfo map fail st=") + numerals::hex(a as nat) + t("\n"),
        ),
        b.phase is FbInfo ==> b.after(BootEventView::Screen(None)) == (
            b.at(BootPhase::NetChannel),
            Seq::<u8>::empty(),
        ),
        b.phase is FbInfo && !screen.plausible ==> b.after(BootEventView::Screen(Some(screen))) == (
            b.at(BootPhase::NetChannel),
            t("drv-fb: implausible framebuffer geometry ") + geometry_text(screen),
        ),
        b.phase is FbPair ==> b.after(BootEventView::Pair(u64::MAX, a)) == (
            b.at(BootPhase::NetChannel),
            t("drv-fb: channel fail\n"),
        ),
        geometry_text(screen) == t("phys=") + numerals::hex(screen.phys as nat) + t(" len=")
            + numerals::hex(screen.len as nat) + t(" w=") + numerals::hex(screen.width as nat) + t(
            " h=",
        ) + numerals::hex(screen.height as nat) + t(" stride=") + numerals::hex(
            screen.stride as nat,
        ) + t("\n"),
{
}

/// A channel end goes to the network channel, and another is moved through a channel: the second end of
/// the second pair, behind a first byte, both through the first end of the first pair.
#[verifier::rlimit(40)]
pub proof fn channel_ends_are_moved(b: Boot, net: u64, a0: u64, b0: u64, c: u64, d: u64, x: u64, y: u64)
    requires
        b.phase is NetChannel,
        net != u64::MAX,
        a0 != u64::MAX && b0 != u64::MAX && c != u64::MAX && d != u64::MAX,
    ensures
        ({
            let (b1, _) = b.after(BootEventView::Returned(net));
            let (b2, _) = b1.after(BootEventView::Returned(x));
            let (b3, _) = b2.after(BootEventView::Pair(a0, b0));
            let (b4, _) = b3.after(BootEventView::Pair(c, d));
            let (b5, _) = b4.after(BootEventView::Returned(x));
            let (b6, l6) = b5.after(BootEventView::Returned(y));
            &&& b.call_of() == BootCall::CreateChannel
            &&& b1.call_of() == (BootCall::SendHandle {
                channel: b.env.net,
                tag: 0x68,
                handle: Handle(net as u32),
            })
            &&& b2.call_of() == BootCall::CreatePair
            &&& b3.call_of() == BootCall::CreatePair
            &&& b4.call_of() == (BootCall::Send { channel: Handle(a0 as u32), tag: 0x54 })
            &&& b5.call_of() == (BootCall::SendHandle {
                channel: Handle(a0 as u32),
                tag: 0x78,
                handle: Handle(d as u32),
            })
            &&& l6 == (if x == 0 && y == 0 {
                t("P10-f: ch-write+transfer ok\n")
            } else {
                t("P10-f: ch-write fail\n")
            })
            &&& b6 == b.at(BootPhase::LinuxVmo)
            &&& b.after(BootEventView::Returned(u64::MAX)).0 == b.at(BootPhase::PairA)
            &&& b3.after(BootEventView::Pair(u64::MAX, d)).0 == b3.at(BootPhase::LinuxVmo)
            &&& b3.after(BootEventView::Pair(c, u64::MAX)).0 == b3.at(BootPhase::LinuxVmo)
        }),
{
}

/// The foreign program: its text at 0x1000 and its code at 0x1100 of an object of 0x2000 bytes, which is
/// mapped at 0x1000_0000 to read and execute; it runs from its code with its stack below 0x1001_0000.
#[verifier::rlimit(40)]
pub proof fn the_foreign_program_is_run(b: Boot, vmo: u64, process: u64, stack: u64, ran: u64)
    requires
        b.phase is LinuxVmo,
        vmo != u64::MAX && process != u64::MAX && stack != u64::MAX,
    ensures
        ({
            let zero = BootEventView::Returned(0);
            let (b1, _) = b.after(BootEventView::Returned(vmo));
            let (b2, _) = b1.after(zero);
            let (b3, _) = b2.after(zero);
            let (b4, _) = b3.after(BootEventView::Returned(process));
            let (b5, _) = b4.after(zero);
            let (b6, _) = b5.after(BootEventView::Returned(stack));
            let (b7, l7) = b6.after(BootEventView::Returned(ran));
            let v = Handle(vmo as u32);
            let p = Handle(process as u32);
            &&& b.call_of() == (BootCall::CreateVmo { len: 0x2000 })
            &&& b1.call_of() == (BootCall::WriteText { vmo: v, at: 0x1000, text: LINUX_TEXT })
            &&& b2.call_of() == (BootCall::WriteCode { vmo: v, at: 0x1100 })
            &&& b3.call_of() == (BootCall::CreateProcess { base: 0, len: 0x2000_0000 })
            &&& b4.call_of() == (BootCall::MapVmo {
                process: p,
                vmo: v,
                offset: 0,
                virt: 0x1000_0000,
                len: 0x2000,
                flags: 5,
            })
            &&& b5.call_of() == (BootCall::CreateStack { process: p, top: 0x1001_0000, len: 0x4000 })
            &&& b6.call_of() == (BootCall::RunAt {
                process: p,
                entry: 0x1000_1100,
                sp: 0x1000_fff0,
            })
            &&& l7 == (if ran == 0 {
                t("M10 linux: run ok\n")
            } else {
                t("M10 linux: run fail\n")
            })
            &&& b7.call_of() == (BootCall::Run {
                program: Program::LinuxHello,
                arg: 0,
                arg2: 0,
                flags: 0,
            })
        }),
{
}

/// A step of the foreign program that fails ends its trial, and the log names the step.
pub proof fn the_foreign_program_fails_by_step(b: Boot, a: u64)
    requires
        a != 0,
    ensures
        ({
            let r = b.after(BootEventView::Returned(a));
            let max = b.after(BootEventView::Returned(u64::MAX));
            let end = b.at(BootPhase::LinuxElf);
            &&& b.phase is LinuxVmo ==> max == (end, t("M10 linux: vmo fail\n"))
            &&& b.phase is LinuxCode ==> r == (end, t("M10 linux: write fail\n"))
            &&& b.phase is LinuxProcess ==> max == (end, t("M10 linux: process fail\n"))
            &&& b.phase is LinuxMap ==> r == (end, t("M10 linux: map fail\n"))
            &&& b.phase is LinuxStack ==> max == (end, t("M10 linux: as fail\n"))
        }),
{
}

/// Programs get a handle of the boot image to read and to pass on, and one of a scratch object of 256 bytes
/// for their words; the log tells what could not be had.
pub proof fn programs_get_narrow_handles(b: Boot, ran: bool, image: u64, vmo: u64, alias: u64)
    requires
        b.phase is LinuxElf,
        vmo != u64::MAX,
    ensures
        ({
            let (b1, l1) = b.after(BootEventView::Ran(ran));
            let (b2, l2) = b1.after(BootEventView::Returned(image));
            let (b3, _) = b2.after(BootEventView::Returned(vmo));
            let (b4, l4) = b3.after(BootEventView::Returned(alias));
            let bad = alias == 0 || alias == u64::MAX;
            &&& l1 == (if ran {
                t("M10-c Check ok\n")
            } else {
                t("M10 elf: run fail\n")
            })
            &&& b1.call_of() == (BootCall::Duplicate {
                handle: b.env.initrd,
                access: Access::ReadDuplicate,
            })
            &&& b2.prog_initrd == image
            &&& l2 == (if image == 0 || image == u64::MAX {
                t("initrd read-only dup fail\n")
            } else {
                t("")
            })
            &&& b2.call_of() == (BootCall::CreateVmo { len: 256 })
            &&& b2.after(BootEventView::Returned(u64::MAX)) == (
                b2.at(BootPhase::ProbeDuplicate),
                t("argv vmo create fail\n"),
            )
            &&& b3.argv_vmo == vmo
            &&& b3.call_of() == (BootCall::Duplicate {
                handle: Handle(vmo as u32),
                access: Access::ReadDuplicate,
            })
            &&& bad ==> b4.argv_ro == b.argv_ro && l4 == t("argv read-only dup fail\n")
            &&& !bad ==> b4.argv_ro == alias && l4 == Seq::<u8>::empty()
            &&& b4.call_of() == (BootCall::Duplicate {
                handle: b.env.initrd,
                access: Access::Read,
            })
        }),
{
}

/// A handle that is closed must be refused: it passes just where it could be made and closed and is then not
/// found. The trials of the servers come next, whatever came of it.
pub proof fn closed_handles_must_be_refused(b: Boot, h: u64, close: u64, koid: u64)
    requires
        b.phase is ProbeDuplicate,
        h != 0 && h != u64::MAX,
        close != 0,
    ensures
        ({
            let (b1, _) = b.after(BootEventView::Returned(h));
            let (b2, _) = b1.after(BootEventView::Returned(0));
            let (b3, l3) = b2.after(BootEventView::Returned(koid));
            let end = b.at(BootPhase::Trials);
            &&& b1.call_of() == (BootCall::Close { handle: Handle(h as u32) })
            &&& b2.call_of() == (BootCall::Koid { handle: Handle(h as u32) })
            &&& b3 == end
            &&& l3 == (if koid == u64::MAX {
                t("handle close: sora ok\n")
            } else {
                t("handle close: sora fail\n")
            })
            &&& b.after(BootEventView::Returned(0)) == (end, t("handle close: sora fail\n"))
            &&& b.after(BootEventView::Returned(u64::MAX)) == (end, t("handle close: sora fail\n"))
            &&& b1.after(BootEventView::Returned(close)) == (end, t("handle close: sora fail\n"))
            &&& end.call_of() == BootCall::RunTrials
        }),
{
}

/// The last trial: what is written at byte 8 of an object of 0x1000 bytes must be read back there.
pub proof fn scratch_objects_hold_what_is_written(b: Boot, ran: bool, vmo: u64, data: Option<Seq<u8>>)
    requires
        b.phase is Trials,
        vmo != u64::MAX,
    ensures
        ({
            let (b1, _) = b.after(BootEventView::Ran(ran));
            let (b2, _) = b1.after(BootEventView::Returned(vmo));
            let (b3, _) = b2.after(BootEventView::Returned(0));
            let (b4, l4) = b3.after(BootEventView::Data(data));
            let v = Handle(vmo as u32);
            &&& b1.call_of() == (BootCall::CreateVmo { len: 0x1000 })
            &&& b2.call_of() == (BootCall::WriteText { vmo: v, at: 8, text: SCRATCH_TEXT })
            &&& b3.call_of() == (BootCall::ReadVmo { vmo: v, at: 8, bytes: 6 })
            &&& l4 == (if data == Some(encode_utf8("VMO_OK"@)) {
                t("anon vmo write ok\n")
            } else {
                t("")
            })
            &&& b4 == b.at(BootPhase::Finished)
            &&& b4.call_of() == BootCall::Nothing
        }),
{
}

/// Instruction words become four bytes each, one after the other, the low byte first.
pub proof fn instructions_are_four_bytes(words: Seq<u32>, i: int)
    requires
        0 <= i < words.len(),
    ensures
        code_bytes(words).len() == 4 * words.len(),
        bytes::le32(code_bytes(words), 4 * i) == words[i],
    decreases words.len(),
{
    let part = words.drop_last();
    let last = words.last();
    bytes::lemma_le32_round_trip(last as int);
    let all = code_bytes(words);
    if words.len() == 1 {
        assert(part =~= Seq::empty());
        assert(code_bytes(part) == Seq::<u8>::empty());
        assert(all =~= bytes::le_bytes4(last as int));
    } else if i < part.len() {
        instructions_are_four_bytes(part, i);
        let front = code_bytes(part);
        assert(part[i] == words[i]);
        assert(all[4 * i] == front[4 * i] && all[4 * i + 1] == front[4 * i + 1]);
        assert(all[4 * i + 2] == front[4 * i + 2] && all[4 * i + 3] == front[4 * i + 3]);
    } else {
        instructions_are_four_bytes(part, 0);
        bytes::lemma_fields_agree(all, 4 * i, bytes::le_bytes4(last as int));
    }
}

/// The foreign program puts 1, the address 0x1000_1000, 16 and 64 in registers 0, 1, 2 and 8 and makes a system
/// call, then 0 and 94 in registers 0 and 8 and makes another. An instruction that sets the low half of a register
/// is 0xd280_0000, its high half 0xd2a0_0000, and its low half alone 0xf280_0000, with the number at bit 5 and the
/// register at bit 0.
pub proof fn the_foreign_program_writes_and_ends()
    ensures
        ({
            let w = linux_words();
            &&& w.len() == 9
            &&& w[0] == 0xd280_0000 + 1 * 32 + 0
            &&& w[1] == 0xd2a0_0000 + 0x1000 * 32 + 1
            &&& w[2] == 0xf280_0000 + 0x1000 * 32 + 1
            &&& w[3] == 0xd280_0000 + 16 * 32 + 2
            &&& w[4] == 0xd280_0000 + 64 * 32 + 8
            &&& w[5] == 0xd400_0001
            &&& w[6] == 0xd280_0000 + 0 * 32 + 0
            &&& w[7] == 0xd280_0000 + 94 * 32 + 8
            &&& w[8] == w[5]
        }),
{
}

} // verus!
