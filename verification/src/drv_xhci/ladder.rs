//! Taking a controller over: it is mapped, described in the log, reset, given
//! its rings and tried with a command that does nothing; then its devices are
//! brought up, and in the end it is left at rest.

use vstd::prelude::*;

use crate::abi::{handle_of, to_handle, Handle};
use crate::bytes;
use crate::drv_xhci::events::{Poll, RingEvent};
use crate::drv_xhci::words::{align_up, scratchpad_count, scratchpads_of, PAGE_SIZE};
use crate::numerals;
use crate::sora::sequence::t;
use crate::text;

verus! {

/// The first line of the log.
pub const STARTING: &'static str = "drv-xhci starting\n";

/// Where the controller's registers and its first page are mapped.
pub const MMIO_VA: u64 = 0x1100_0000;

pub const DMA_VA: u64 = 0x1200_0000;

/// Ports that are described.
pub const MAX_LOGGED_PORTS: u8 = 16;

/// Device slots that are enabled.
pub const NOOP_MAX_SLOTS: u8 = 8;

/// What the driver is told at its start.
#[derive(Clone, Copy, Debug, PartialEq, Eq, Structural)]
pub struct XhciConfig {
    pub mmio_base: u64,
    pub mmio_length: u64,
    pub irq: u32,
    /// The stream of the controller's accesses, where it has one.
    pub stream: Option<u32>,
}

/// The controller's capability registers.
#[derive(Clone, Copy, Debug, PartialEq, Eq, Structural)]
pub struct Caps {
    pub caplength: u8,
    pub hciversion: u16,
    pub slots: u8,
    pub interrupters: u16,
    pub ports: u8,
    pub context_bytes: u8,
    pub xecp: u32,
}

/// Where the controller's register sets lie, and what its status says.
#[derive(Clone, Copy, Debug, PartialEq, Eq, Structural)]
pub struct Layout {
    pub operational: u64,
    pub runtime: u64,
    pub doorbell: u64,
    pub command_ring: u64,
    pub dcbaa: u64,
    pub erst_size: u64,
    pub usbcmd: u32,
    pub usbsts: u32,
    pub page_size: u32,
    pub running: bool,
    pub reset: bool,
    pub halted: bool,
    pub not_ready: bool,
    pub system_error: bool,
    pub pages_4k: bool,
    pub ring_ready: bool,
}

/// What a port's register says, for the log.
#[derive(Clone, Copy, Debug, PartialEq, Eq, Structural)]
pub struct PortLine {
    pub index: u8,
    pub raw: u32,
    pub connected: bool,
    pub enabled: bool,
    pub link_state: u8,
    pub speed: u8,
    pub powered: bool,
}

/// Where the driver stands.
#[derive(Clone, Copy, Debug, PartialEq, Eq, Structural)]
pub enum LadderPhase {
    Config,
    Mint,
    MapMmio { vmo: Handle },
    Caps,
    Layout,
    DmaAlloc,
    DmaMap { raw: u64, phys: u64 },
    Image,
    /// How many scratchpad buffers does the controller want?
    Scratchpads,
    ScratchAlloc { count: u32 },
    Reset,
    ResetWait,
    Program,
    Start,
    Doorbell,
    NoOp,
    Devices,
    Quiesce,
    Exit { code: i32 },
}

/// What the driver waits for.
#[derive(Clone, Copy, Debug, PartialEq, Eq, Structural)]
pub enum LadderCall {
    ReadConfig,
    MintMmio { base: u64, len: u64 },
    MapMmio { vmo: Handle, va: u64, len: u64 },
    ReadCaps,
    ReadLayout,
    AllocPage,
    MapPage { raw: u64, va: u64 },
    BuildImage { slots: u8 },
    ReadScratchpads,
    AllocScratchpads { count: u32 },
    Reset,
    WaitReset,
    Program,
    Start,
    RingDoorbell,
    WaitNoOp,
    BringUpDevices,
    Quiesce,
    Exit { code: i32 },
}

/// What came of the command that does nothing.
#[derive(Clone, Copy, Debug, PartialEq, Eq, Structural)]
pub enum NoOp {
    Completed { cc: u8, slot: u8, parameter: u32 },
    Broken,
    TimedOut,
}

/// What came back.
#[derive(Debug)]
pub enum LadderEvent {
    /// The configuration, and the device's resource.
    Config(Option<XhciConfig>, u64),
    Returned(u64),
    /// The capabilities, and the three words that they were read from.
    Caps(Option<Caps>, (u32, u32, u32)),
    /// The layout, the two offsets that it was computed from, and the ports.
    Layout(Option<Layout>, (u32, u32), Vec<PortLine>),
    Page(u64, u64),
    Done(bool),
    NoOp(NoOp),
}

/// A [`LadderEvent`] as plain data.
#[verifier::ext_equal]
pub enum LadderEventView {
    Config(Option<XhciConfig>, u64),
    Returned(u64),
    Caps(Option<Caps>, (u32, u32, u32)),
    Layout(Option<Layout>, (u32, u32), Seq<PortLine>),
    Page(u64, u64),
    Done(bool),
    NoOp(NoOp),
}

impl View for LadderEvent {
    type V = LadderEventView;

    open spec fn view(&self) -> LadderEventView {
        match self {
            LadderEvent::Config(c, r) => LadderEventView::Config(*c, *r),
            LadderEvent::Returned(a) => LadderEventView::Returned(*a),
            LadderEvent::Caps(c, w) => LadderEventView::Caps(*c, *w),
            LadderEvent::Layout(l, w, p) => LadderEventView::Layout(*l, *w, p@),
            LadderEvent::Page(a, b) => LadderEventView::Page(*a, *b),
            LadderEvent::Done(ok) => LadderEventView::Done(*ok),
            LadderEvent::NoOp(n) => LadderEventView::NoOp(*n),
        }
    }
}

pub open spec fn flag(c: bool) -> Seq<u8> {
    numerals::hex(
        if c {
            1
        } else {
            0
        },
    )
}

fn push_flag(out: &mut Vec<u8>, c: bool)
    ensures
        final(out)@ == old(out)@ + flag(c),
{
    if c {
        numerals::push_hex(out, 1);
    } else {
        numerals::push_hex(out, 0);
    }
}

/// What the log says of the configuration.
pub open spec fn config_text(c: XhciConfig) -> Seq<u8> {
    t("drv-xhci: usb0 mmio=") + numerals::hex(c.mmio_base as nat) + t(" len=") + numerals::hex(
        c.mmio_length as nat,
    ) + t(" irq=") + numerals::hex(c.irq as nat) + t(" stream=") + (match c.stream {
        Some(s) => numerals::hex(s as nat),
        None => t("none"),
    }) + t("\n")
}

fn push_config(out: &mut Vec<u8>, c: XhciConfig)
    ensures
        final(out)@ == old(out)@ + config_text(c),
{
    let mut line: Vec<u8> = text::to_bytes("drv-xhci: usb0 mmio=");
    numerals::push_hex(&mut line, c.mmio_base);
    text::append_text(&mut line, " len=");
    numerals::push_hex(&mut line, c.mmio_length);
    text::append_text(&mut line, " irq=");
    numerals::push_hex(&mut line, c.irq as u64);
    text::append_text(&mut line, " stream=");
    match c.stream {
        Some(s) => {
            numerals::push_hex(&mut line, s as u64);
        },
        None => {
            text::append_text(&mut line, "none");
        },
    }
    text::append_text(&mut line, "\n");
    bytes::append(out, &line);
}

/// What the log says of the capabilities.
pub open spec fn caps_text(c: Caps) -> Seq<u8> {
    t("drv-xhci: cap=") + numerals::hex(c.caplength as nat) + t(" hci=") + numerals::hex(
        c.hciversion as nat,
    ) + t(" slots=") + numerals::hex(c.slots as nat) + t(" intrs=") + numerals::hex(
        c.interrupters as nat,
    ) + t(" ports=") + numerals::hex(c.ports as nat) + t(" ctx=") + numerals::hex(
        c.context_bytes as nat,
    ) + t(" xecp=") + numerals::hex(c.xecp as nat) + t("\n")
}

fn push_caps(out: &mut Vec<u8>, c: Caps)
    ensures
        final(out)@ == old(out)@ + caps_text(c),
{
    let mut line: Vec<u8> = text::to_bytes("drv-xhci: cap=");
    numerals::push_hex(&mut line, c.caplength as u64);
    text::append_text(&mut line, " hci=");
    numerals::push_hex(&mut line, c.hciversion as u64);
    text::append_text(&mut line, " slots=");
    numerals::push_hex(&mut line, c.slots as u64);
    text::append_text(&mut line, " intrs=");
    numerals::push_hex(&mut line, c.interrupters as u64);
    text::append_text(&mut line, " ports=");
    numerals::push_hex(&mut line, c.ports as u64);
    text::append_text(&mut line, " ctx=");
    numerals::push_hex(&mut line, c.context_bytes as u64);
    text::append_text(&mut line, " xecp=");
    numerals::push_hex(&mut line, c.xecp as u64);
    text::append_text(&mut line, "\n");
    bytes::append(out, &line);
}

/// What the log says of the layout.
pub open spec fn layout_text(l: Layout) -> Seq<u8> {
    t("drv-xhci: layout op=") + numerals::hex(l.operational as nat) + t(" run=") + numerals::hex(
        l.runtime as nat,
    ) + t(" db=") + numerals::hex(l.doorbell as nat) + t(" crcr=") + numerals::hex(
        l.command_ring as nat,
    ) + t(" dcbaa=") + numerals::hex(l.dcbaa as nat) + t(" ir0_erstsz=") + numerals::hex(
        l.erst_size as nat,
    ) + t("\n")
}

fn push_layout(out: &mut Vec<u8>, l: Layout)
    ensures
        final(out)@ == old(out)@ + layout_text(l),
{
    let mut line: Vec<u8> = text::to_bytes("drv-xhci: layout op=");
    numerals::push_hex(&mut line, l.operational);
    text::append_text(&mut line, " run=");
    numerals::push_hex(&mut line, l.runtime);
    text::append_text(&mut line, " db=");
    numerals::push_hex(&mut line, l.doorbell);
    text::append_text(&mut line, " crcr=");
    numerals::push_hex(&mut line, l.command_ring);
    text::append_text(&mut line, " dcbaa=");
    numerals::push_hex(&mut line, l.dcbaa);
    text::append_text(&mut line, " ir0_erstsz=");
    numerals::push_hex(&mut line, l.erst_size);
    text::append_text(&mut line, "\n");
    bytes::append(out, &line);
}

/// What the log says of the controller's status.
pub open spec fn status_text(l: Layout) -> Seq<u8> {
    t("drv-xhci: status usbcmd=") + numerals::hex(l.usbcmd as nat) + t(" usbsts=") + numerals::hex(
        l.usbsts as nat,
    ) + t(" pagesize=") + numerals::hex(l.page_size as nat) + t(" run=") + flag(l.running) + t(
        " hcrst=",
    ) + flag(l.reset) + t(" hch=") + flag(l.halted) + t(" cnr=") + flag(l.not_ready) + t(" hse=")
        + flag(l.system_error) + t(" page4k=") + flag(l.pages_4k) + t(" ring_ready=") + flag(
        l.ring_ready,
    ) + t("\n")
}

fn push_status(out: &mut Vec<u8>, l: Layout)
    ensures
        final(out)@ == old(out)@ + status_text(l),
{
    let mut line: Vec<u8> = text::to_bytes("drv-xhci: status usbcmd=");
    numerals::push_hex(&mut line, l.usbcmd as u64);
    text::append_text(&mut line, " usbsts=");
    numerals::push_hex(&mut line, l.usbsts as u64);
    text::append_text(&mut line, " pagesize=");
    numerals::push_hex(&mut line, l.page_size as u64);
    text::append_text(&mut line, " run=");
    push_flag(&mut line, l.running);
    text::append_text(&mut line, " hcrst=");
    push_flag(&mut line, l.reset);
    text::append_text(&mut line, " hch=");
    push_flag(&mut line, l.halted);
    text::append_text(&mut line, " cnr=");
    push_flag(&mut line, l.not_ready);
    text::append_text(&mut line, " hse=");
    push_flag(&mut line, l.system_error);
    text::append_text(&mut line, " page4k=");
    push_flag(&mut line, l.pages_4k);
    text::append_text(&mut line, " ring_ready=");
    push_flag(&mut line, l.ring_ready);
    text::append_text(&mut line, "\n");
    bytes::append(out, &line);
}

/// What the log says of a port.
pub open spec fn port_text(p: PortLine) -> Seq<u8> {
    t("drv-xhci: port") + numerals::hex(p.index as nat) + t(" raw=") + numerals::hex(p.raw as nat)
        + t(" ccs=") + flag(p.connected) + t(" ped=") + flag(p.enabled) + t(" pls=")
        + numerals::hex(p.link_state as nat) + t(" speed=") + numerals::hex(p.speed as nat) + t(
        " pp=",
    ) + flag(p.powered) + t("\n")
}

fn push_port(out: &mut Vec<u8>, p: PortLine)
    ensures
        final(out)@ == old(out)@ + port_text(p),
{
    let mut line: Vec<u8> = text::to_bytes("drv-xhci: port");
    numerals::push_hex(&mut line, p.index as u64);
    text::append_text(&mut line, " raw=");
    numerals::push_hex(&mut line, p.raw as u64);
    text::append_text(&mut line, " ccs=");
    push_flag(&mut line, p.connected);
    text::append_text(&mut line, " ped=");
    push_flag(&mut line, p.enabled);
    text::append_text(&mut line, " pls=");
    numerals::push_hex(&mut line, p.link_state as u64);
    text::append_text(&mut line, " speed=");
    numerals::push_hex(&mut line, p.speed as u64);
    text::append_text(&mut line, " pp=");
    push_flag(&mut line, p.powered);
    text::append_text(&mut line, "\n");
    bytes::append(out, &line);
}

/// What the log says of the ports.
pub open spec fn ports_text(v: Seq<PortLine>) -> Seq<u8>
    decreases v.len(),
{
    if v.len() == 0 {
        Seq::empty()
    } else {
        ports_text(v.drop_last()) + port_text(v.last())
    }
}

fn push_ports(out: &mut Vec<u8>, v: &Vec<PortLine>)
    ensures
        final(out)@ == old(out)@ + ports_text(v@),
{
    let mut i: usize = 0;
    assert(v@.subrange(0, 0) =~= Seq::empty());
    assert(out@ =~= old(out)@ + ports_text(v@.subrange(0, 0)));
    while i < v.len()
        invariant
            i <= v@.len(),
            out@ == old(out)@ + ports_text(v@.subrange(0, i as int)),
        decreases v@.len() - i,
    {
        push_port(out, v[i]);
        i += 1;
        assert(v@.subrange(0, i as int).drop_last() =~= v@.subrange(0, i - 1));
        assert(out@ =~= old(out)@ + ports_text(v@.subrange(0, i as int)));
    }
    assert(v@.subrange(0, i as int) =~= v@);
}

/// That some ports are not described.
pub open spec fn truncated_text(ports: u8) -> Seq<u8> {
    if ports > 16 {
        t("drv-xhci: port log truncated\n")
    } else {
        Seq::empty()
    }
}

fn push_truncated(out: &mut Vec<u8>, ports: u8)
    ensures
        final(out)@ == old(out)@ + truncated_text(ports),
{
    if ports > MAX_LOGGED_PORTS {
        text::append_text(out, "drv-xhci: port log truncated\n");
    } else {
        assert(out@ =~= old(out)@ + truncated_text(ports));
    }
}

/// Whether a register window is whole pages, and whether its end fits.
#[derive(Clone, Copy, Debug, PartialEq, Eq, Structural)]
pub enum Window {
    Whole,
    Ragged,
    TooLong,
}

pub open spec fn window_of(len: u64) -> Window {
    if len + 4095 > u64::MAX {
        Window::TooLong
    } else if len % 4096 != 0 {
        Window::Ragged
    } else {
        Window::Whole
    }
}

fn window(len: u64) -> (w: Window)
    ensures
        w == window_of(len),
{
    match align_up(len, PAGE_SIZE) {
        None => Window::TooLong,
        Some(up) => if up != len {
            Window::Ragged
        } else {
            Window::Whole
        },
    }
}

/// Taking over in progress.
#[derive(Clone, Copy, Debug, PartialEq, Eq, Structural)]
pub struct Ladder {
    pub phase: LadderPhase,
    pub config: XhciConfig,
    /// The ports that the controller has.
    pub ports: u8,
}

impl Ladder {
    pub fn new() -> (l: Ladder)
        ensures
            l == (Ladder {
                phase: LadderPhase::Config,
                config: XhciConfig { mmio_base: 0, mmio_length: 0, irq: 0, stream: None },
                ports: 0,
            }),
    {
        Ladder {
            phase: LadderPhase::Config,
            config: XhciConfig { mmio_base: 0, mmio_length: 0, irq: 0, stream: None },
            ports: 0,
        }
    }

    /// What the driver waits for.
    pub open spec fn call_of(self) -> LadderCall {
        match self.phase {
            LadderPhase::Config => LadderCall::ReadConfig,
            LadderPhase::Mint => LadderCall::MintMmio {
                base: self.config.mmio_base,
                len: self.config.mmio_length,
            },
            LadderPhase::MapMmio { vmo } => LadderCall::MapMmio {
                vmo,
                va: MMIO_VA,
                len: self.config.mmio_length,
            },
            LadderPhase::Caps => LadderCall::ReadCaps,
            LadderPhase::Layout => LadderCall::ReadLayout,
            LadderPhase::DmaAlloc => LadderCall::AllocPage,
            LadderPhase::DmaMap { raw, .. } => LadderCall::MapPage { raw, va: DMA_VA },
            LadderPhase::Image => LadderCall::BuildImage { slots: NOOP_MAX_SLOTS },
            LadderPhase::Scratchpads => LadderCall::ReadScratchpads,
            LadderPhase::ScratchAlloc { count } => LadderCall::AllocScratchpads { count },
            LadderPhase::Reset => LadderCall::Reset,
            LadderPhase::ResetWait => LadderCall::WaitReset,
            LadderPhase::Program => LadderCall::Program,
            LadderPhase::Start => LadderCall::Start,
            LadderPhase::Doorbell => LadderCall::RingDoorbell,
            LadderPhase::NoOp => LadderCall::WaitNoOp,
            LadderPhase::Devices => LadderCall::BringUpDevices,
            LadderPhase::Quiesce => LadderCall::Quiesce,
            LadderPhase::Exit { code } => LadderCall::Exit { code },
        }
    }

    /// The state after an event, and what the log says. An event that does not
    /// answer the call changes nothing.
    pub open spec fn after(self, e: LadderEventView) -> (Ladder, Seq<u8>) {
        match (self.phase, e) {
            (LadderPhase::Config, LadderEventView::Config(None, _)) => (
                Ladder { phase: LadderPhase::Exit { code: 1 }, ..self },
                t("drv-xhci: bad bootstrap\n"),
            ),
            (LadderPhase::Config, LadderEventView::Config(Some(config), resource)) => if resource == 0 || resource == u64::MAX {
                (
                    Ladder { phase: LadderPhase::Exit { code: 1 }, ..self },
                    t("drv-xhci: missing resource\n"),
                )
            } else if window_of(config.mmio_length) == Window::TooLong {
                (
                    Ladder { phase: LadderPhase::Exit { code: 1 }, ..self },
                    config_text(config) + t("drv-xhci: mmio len overflow\n"),
                )
            } else if window_of(config.mmio_length) == Window::Ragged {
                (
                    Ladder { phase: LadderPhase::Exit { code: 1 }, ..self },
                    config_text(config) + t("drv-xhci: mmio len unaligned\n"),
                )
            } else {
                (Ladder { config: config, phase: LadderPhase::Mint, ..self }, config_text(config))
            },
            (LadderPhase::Mint, LadderEventView::Returned(a)) => if a == 0 || a == u64::MAX {
                (
                    Ladder { phase: LadderPhase::Exit { code: 1 }, ..self },
                    t("drv-xhci: mmio vmo mint failed\n"),
                )
            } else {
                (Ladder { phase: LadderPhase::MapMmio { vmo: handle_of(a) }, ..self }, Seq::empty())
            },
            (LadderPhase::MapMmio { .. }, LadderEventView::Returned(a)) => if a != 0 {
                (
                    Ladder { phase: LadderPhase::Exit { code: 1 }, ..self },
                    t("drv-xhci: mmio map failed st=") + numerals::hex(a as nat) + t("\n"),
                )
            } else {
                (Ladder { phase: LadderPhase::Caps, ..self }, Seq::empty())
            },
            (LadderPhase::Caps, LadderEventView::Caps(None, (cap, hcs, hcc))) => (
                Ladder { phase: LadderPhase::Exit { code: 1 }, ..self },
                t("drv-xhci: invalid caps cap=")
                    + numerals::hex(cap as nat)
                    + t(" hcs=")
                    + numerals::hex(hcs as nat)
                    + t(" hcc=")
                    + numerals::hex(hcc as nat)
                    + t("\n"),
            ),
            (LadderPhase::Caps, LadderEventView::Caps(Some(caps), _)) => {
                (Ladder { ports: caps.ports, phase: LadderPhase::Layout, ..self }, caps_text(caps))
            },
            (LadderPhase::Layout, LadderEventView::Layout(None, (dboff, rtsoff), ports)) => (
                Ladder { phase: LadderPhase::Exit { code: 0 }, ..self },
                t("drv-xhci: layout raw dboff=")
                    + numerals::hex(dboff as nat)
                    + t(" rtsoff=")
                    + numerals::hex(rtsoff as nat)
                    + t("\n")
                    + t("drv-xhci: layout outside grant\n")
                    + ports_text(ports)
                    + truncated_text(self.ports)
                    + t("drv-xhci: first light done\n"),
            ),
            (LadderPhase::Layout, LadderEventView::Layout(Some(layout), (dboff, rtsoff), ports)) => (
                Ladder { phase: LadderPhase::DmaAlloc, ..self },
                t("drv-xhci: layout raw dboff=")
                    + numerals::hex(dboff as nat)
                    + t(" rtsoff=")
                    + numerals::hex(rtsoff as nat)
                    + t("\n")
                    + layout_text(layout)
                    + status_text(layout)
                    + ports_text(ports)
                    + truncated_text(self.ports),
            ),
            (LadderPhase::DmaAlloc, LadderEventView::Page(raw, phys)) => if raw == u64::MAX || phys == 0 {
                (Ladder { phase: LadderPhase::Quiesce, ..self }, t("drv-xhci: dma vmo fail\n"))
            } else {
                (Ladder { phase: LadderPhase::DmaMap { raw, phys }, ..self }, Seq::empty())
            },
            (LadderPhase::DmaMap { phys, .. }, LadderEventView::Returned(a)) => if a != 0 {
                (
                    Ladder { phase: LadderPhase::Quiesce, ..self },
                    t("drv-xhci: dma map fail st=") + numerals::hex(a as nat) + t("\n"),
                )
            } else {
                (
                    Ladder { phase: LadderPhase::Image, ..self },
                    t("drv-xhci: dma phys=")
                        + numerals::hex(phys as nat)
                        + t(" va=")
                        + numerals::hex(DMA_VA as nat)
                        + t("\n"),
                )
            },
            (LadderPhase::Image, LadderEventView::Done(ok)) => if !ok {
                (Ladder { phase: LadderPhase::Quiesce, ..self }, t("drv-xhci: noop image fail\n"))
            } else {
                (Ladder { phase: LadderPhase::Scratchpads, ..self }, Seq::empty())
            },
            (LadderPhase::Scratchpads, LadderEventView::Returned(a)) => if (scratchpads_of(a as u32) as u32) == 0 {
                (
                    Ladder { phase: LadderPhase::Reset, ..self },
                    t("drv-xhci: scratchpad=")
                        + numerals::hex((scratchpads_of(a as u32) as u32) as nat)
                        + t("\n"),
                )
            } else {
                (
                    Ladder {
                        phase: LadderPhase::ScratchAlloc { count: (scratchpads_of(a as u32) as u32) },
                        ..self
                    },
                    t("drv-xhci: scratchpad=")
                        + numerals::hex((scratchpads_of(a as u32) as u32) as nat)
                        + t("\n"),
                )
            },
            (LadderPhase::ScratchAlloc { .. }, LadderEventView::Page(raw, phys)) => if raw == u64::MAX || phys == 0 {
                (
                    Ladder { phase: LadderPhase::Quiesce, ..self },
                    t("drv-xhci: scratchpad alloc fail\n"),
                )
            } else {
                (Ladder { phase: LadderPhase::Reset, ..self }, Seq::empty())
            },
            (LadderPhase::Reset, LadderEventView::Done(ok)) => if !ok {
                (Ladder { phase: LadderPhase::Quiesce, ..self }, t("drv-xhci: reset write fail\n"))
            } else {
                (Ladder { phase: LadderPhase::ResetWait, ..self }, Seq::empty())
            },
            (LadderPhase::ResetWait, LadderEventView::Done(ok)) => if !ok {
                (Ladder { phase: LadderPhase::Quiesce, ..self }, t("drv-xhci: reset timeout\n"))
            } else {
                (Ladder { phase: LadderPhase::Program, ..self }, Seq::empty())
            },
            (LadderPhase::Program, LadderEventView::Done(ok)) => if !ok {
                (
                    Ladder { phase: LadderPhase::Quiesce, ..self },
                    t("drv-xhci: register program fail\n"),
                )
            } else {
                (Ladder { phase: LadderPhase::Start, ..self }, Seq::empty())
            },
            (LadderPhase::Start, LadderEventView::Done(ok)) => if !ok {
                (Ladder { phase: LadderPhase::Quiesce, ..self }, t("drv-xhci: start fail\n"))
            } else {
                (Ladder { phase: LadderPhase::Doorbell, ..self }, Seq::empty())
            },
            (LadderPhase::Doorbell, LadderEventView::Done(ok)) => if !ok {
                (Ladder { phase: LadderPhase::Quiesce, ..self }, t("drv-xhci: doorbell fail\n"))
            } else {
                (Ladder { phase: LadderPhase::NoOp, ..self }, Seq::empty())
            },
            (LadderPhase::NoOp, LadderEventView::NoOp(NoOp::Completed { cc, slot, parameter })) => if cc == 1 {
                (
                    Ladder { phase: LadderPhase::Devices, ..self },
                    t("drv-xhci: noop cc=")
                        + numerals::hex(cc as nat)
                        + t(" slot=")
                        + numerals::hex(slot as nat)
                        + t(" param=")
                        + numerals::hex(parameter as nat)
                        + t("\n"),
                )
            } else {
                (
                    Ladder { phase: LadderPhase::Quiesce, ..self },
                    t("drv-xhci: noop cc=")
                        + numerals::hex(cc as nat)
                        + t(" slot=")
                        + numerals::hex(slot as nat)
                        + t(" param=")
                        + numerals::hex(parameter as nat)
                        + t("\n"),
                )
            },
            (LadderPhase::NoOp, LadderEventView::NoOp(NoOp::Broken)) => (
                Ladder { phase: LadderPhase::Quiesce, ..self },
                t("drv-xhci: noop event decode error\n"),
            ),
            (LadderPhase::NoOp, LadderEventView::NoOp(NoOp::TimedOut)) => {
                (Ladder { phase: LadderPhase::Quiesce, ..self }, t("drv-xhci: noop timeout\n"))
            },
            (LadderPhase::Devices, LadderEventView::Returned(_)) => {
                (Ladder { phase: LadderPhase::Quiesce, ..self }, Seq::empty())
            },
            (LadderPhase::Quiesce, LadderEventView::Returned(_)) => (
                Ladder { phase: LadderPhase::Exit { code: 0 }, ..self },
                t("drv-xhci: first light done\n"),
            ),
            _ => (self, Seq::empty()),
        }
    }

    /// What to do next.
    pub fn call(&self) -> (c: LadderCall)
        ensures
            c == self.call_of(),
    {
        match self.phase {
            LadderPhase::Config => LadderCall::ReadConfig,
            LadderPhase::Mint => LadderCall::MintMmio {
                base: self.config.mmio_base,
                len: self.config.mmio_length,
            },
            LadderPhase::MapMmio { vmo } => LadderCall::MapMmio {
                vmo,
                va: MMIO_VA,
                len: self.config.mmio_length,
            },
            LadderPhase::Caps => LadderCall::ReadCaps,
            LadderPhase::Layout => LadderCall::ReadLayout,
            LadderPhase::DmaAlloc => LadderCall::AllocPage,
            LadderPhase::DmaMap { raw, .. } => LadderCall::MapPage { raw, va: DMA_VA },
            LadderPhase::Image => LadderCall::BuildImage { slots: NOOP_MAX_SLOTS },
            LadderPhase::Scratchpads => LadderCall::ReadScratchpads,
            LadderPhase::ScratchAlloc { count } => LadderCall::AllocScratchpads { count },
            LadderPhase::Reset => LadderCall::Reset,
            LadderPhase::ResetWait => LadderCall::WaitReset,
            LadderPhase::Program => LadderCall::Program,
            LadderPhase::Start => LadderCall::Start,
            LadderPhase::Doorbell => LadderCall::RingDoorbell,
            LadderPhase::NoOp => LadderCall::WaitNoOp,
            LadderPhase::Devices => LadderCall::BringUpDevices,
            LadderPhase::Quiesce => LadderCall::Quiesce,
            LadderPhase::Exit { code } => LadderCall::Exit { code },
        }
    }

    /// Takes what came back and returns what to log.
    pub fn advance(&mut self, e: &LadderEvent) -> (out: Vec<u8>)
        ensures
            (*final(self), out@) == old(self).after(e@),
    {
        let mut out: Vec<u8> = Vec::new();
        match (self.phase, e) {
            (LadderPhase::Config, LadderEvent::Config(None, _)) => {
                text::append_text(&mut out, "drv-xhci: bad bootstrap\n");
                self.phase = LadderPhase::Exit { code: 1 };
            },
            (LadderPhase::Config, LadderEvent::Config(Some(config), resource)) => {
                let config: XhciConfig = *config;
                let resource: u64 = *resource;
                if resource == 0 || resource == u64::MAX {
                    text::append_text(&mut out, "drv-xhci: missing resource\n");
                    self.phase = LadderPhase::Exit { code: 1 };
                } else if window(config.mmio_length) == Window::TooLong {
                    push_config(&mut out, config);
                    text::append_text(&mut out, "drv-xhci: mmio len overflow\n");
                    self.phase = LadderPhase::Exit { code: 1 };
                } else if window(config.mmio_length) == Window::Ragged {
                    push_config(&mut out, config);
                    text::append_text(&mut out, "drv-xhci: mmio len unaligned\n");
                    self.phase = LadderPhase::Exit { code: 1 };
                } else {
                    push_config(&mut out, config);
                    self.config = config;
                    self.phase = LadderPhase::Mint;
                }
            },
            (LadderPhase::Mint, LadderEvent::Returned(a)) => {
                let a: u64 = *a;
                if a == 0 || a == u64::MAX {
                    text::append_text(&mut out, "drv-xhci: mmio vmo mint failed\n");
                    self.phase = LadderPhase::Exit { code: 1 };
                } else {
                    self.phase = LadderPhase::MapMmio { vmo: to_handle(a) };
                }
            },
            (LadderPhase::MapMmio { .. }, LadderEvent::Returned(a)) => {
                let a: u64 = *a;
                if a != 0 {
                    text::append_text(&mut out, "drv-xhci: mmio map failed st=");
                    numerals::push_hex(&mut out, a as u64);
                    text::append_text(&mut out, "\n");
                    self.phase = LadderPhase::Exit { code: 1 };
                } else {
                    self.phase = LadderPhase::Caps;
                }
            },
            (LadderPhase::Caps, LadderEvent::Caps(None, (cap, hcs, hcc))) => {
                let cap: u32 = *cap;
                let hcs: u32 = *hcs;
                let hcc: u32 = *hcc;
                text::append_text(&mut out, "drv-xhci: invalid caps cap=");
                numerals::push_hex(&mut out, cap as u64);
                text::append_text(&mut out, " hcs=");
                numerals::push_hex(&mut out, hcs as u64);
                text::append_text(&mut out, " hcc=");
                numerals::push_hex(&mut out, hcc as u64);
                text::append_text(&mut out, "\n");
                self.phase = LadderPhase::Exit { code: 1 };
            },
            (LadderPhase::Caps, LadderEvent::Caps(Some(caps), _)) => {
                let caps: Caps = *caps;
                push_caps(&mut out, caps);
                self.ports = caps.ports;
                self.phase = LadderPhase::Layout;
            },
            (LadderPhase::Layout, LadderEvent::Layout(None, (dboff, rtsoff), ports)) => {
                let dboff: u32 = *dboff;
                let rtsoff: u32 = *rtsoff;
                text::append_text(&mut out, "drv-xhci: layout raw dboff=");
                numerals::push_hex(&mut out, dboff as u64);
                text::append_text(&mut out, " rtsoff=");
                numerals::push_hex(&mut out, rtsoff as u64);
                text::append_text(&mut out, "\n");
                text::append_text(&mut out, "drv-xhci: layout outside grant\n");
                push_ports(&mut out, ports);
                push_truncated(&mut out, self.ports);
                text::append_text(&mut out, "drv-xhci: first light done\n");
                self.phase = LadderPhase::Exit { code: 0 };
            },
            (LadderPhase::Layout, LadderEvent::Layout(Some(layout), (dboff, rtsoff), ports)) => {
                let layout: Layout = *layout;
                let dboff: u32 = *dboff;
                let rtsoff: u32 = *rtsoff;
                text::append_text(&mut out, "drv-xhci: layout raw dboff=");
                numerals::push_hex(&mut out, dboff as u64);
                text::append_text(&mut out, " rtsoff=");
                numerals::push_hex(&mut out, rtsoff as u64);
                text::append_text(&mut out, "\n");
                push_layout(&mut out, layout);
                push_status(&mut out, layout);
                push_ports(&mut out, ports);
                push_truncated(&mut out, self.ports);
                self.phase = LadderPhase::DmaAlloc;
            },
            (LadderPhase::DmaAlloc, LadderEvent::Page(raw, phys)) => {
                let raw: u64 = *raw;
                let phys: u64 = *phys;
                if raw == u64::MAX || phys == 0 {
                    text::append_text(&mut out, "drv-xhci: dma vmo fail\n");
                    self.phase = LadderPhase::Quiesce;
                } else {
                    self.phase = LadderPhase::DmaMap { raw, phys };
                }
            },
            (LadderPhase::DmaMap { phys, .. }, LadderEvent::Returned(a)) => {
                let a: u64 = *a;
                if a != 0 {
                    text::append_text(&mut out, "drv-xhci: dma map fail st=");
                    numerals::push_hex(&mut out, a as u64);
                    text::append_text(&mut out, "\n");
                    self.phase = LadderPhase::Quiesce;
                } else {
                    text::append_text(&mut out, "drv-xhci: dma phys=");
                    numerals::push_hex(&mut out, phys as u64);
                    text::append_text(&mut out, " va=");
                    numerals::push_hex(&mut out, DMA_VA as u64);
                    text::append_text(&mut out, "\n");
                    self.phase = LadderPhase::Image;
                }
            },
            (LadderPhase::Image, LadderEvent::Done(ok)) => {
                let ok: bool = *ok;
                if !ok {
                    text::append_text(&mut out, "drv-xhci: noop image fail\n");
                    self.phase = LadderPhase::Quiesce;
                } else {
                    self.phase = LadderPhase::Scratchpads;
                }
            },
            (LadderPhase::Scratchpads, LadderEvent::Returned(a)) => {
                let a: u64 = *a;
                if scratchpad_count(a as u32) == 0 {
                    text::append_text(&mut out, "drv-xhci: scratchpad=");
                    numerals::push_hex(&mut out, scratchpad_count(a as u32) as u64);
                    text::append_text(&mut out, "\n");
                    self.phase = LadderPhase::Reset;
                } else {
                    text::append_text(&mut out, "drv-xhci: scratchpad=");
                    numerals::push_hex(&mut out, scratchpad_count(a as u32) as u64);
                    text::append_text(&mut out, "\n");
                    self.phase = LadderPhase::ScratchAlloc { count: scratchpad_count(a as u32) };
                }
            },
            (LadderPhase::ScratchAlloc { .. }, LadderEvent::Page(raw, phys)) => {
                let raw: u64 = *raw;
                let phys: u64 = *phys;
                if raw == u64::MAX || phys == 0 {
                    text::append_text(&mut out, "drv-xhci: scratchpad alloc fail\n");
                    self.phase = LadderPhase::Quiesce;
                } else {
                    self.phase = LadderPhase::Reset;
                }
            },
            (LadderPhase::Reset, LadderEvent::Done(ok)) => {
                let ok: bool = *ok;
                if !ok {
                    text::append_text(&mut out, "drv-xhci: reset write fail\n");
                    self.phase = LadderPhase::Quiesce;
                } else {
                    self.phase = LadderPhase::ResetWait;
                }
            },
            (LadderPhase::ResetWait, LadderEvent::Done(ok)) => {
                let ok: bool = *ok;
                if !ok {
                    text::append_text(&mut out, "drv-xhci: reset timeout\n");
                    self.phase = LadderPhase::Quiesce;
                } else {
                    self.phase = LadderPhase::Program;
                }
            },
            (LadderPhase::Program, LadderEvent::Done(ok)) => {
                let ok: bool = *ok;
                if !ok {
                    text::append_text(&mut out, "drv-xhci: register program fail\n");
                    self.phase = LadderPhase::Quiesce;
                } else {
                    self.phase = LadderPhase::Start;
                }
            },
            (LadderPhase::Start, LadderEvent::Done(ok)) => {
                let ok: bool = *ok;
                if !ok {
                    text::append_text(&mut out, "drv-xhci: start fail\n");
                    self.phase = LadderPhase::Quiesce;
                } else {
                    self.phase = LadderPhase::Doorbell;
                }
            },
            (LadderPhase::Doorbell, LadderEvent::Done(ok)) => {
                let ok: bool = *ok;
                if !ok {
                    text::append_text(&mut out, "drv-xhci: doorbell fail\n");
                    self.phase = LadderPhase::Quiesce;
                } else {
                    self.phase = LadderPhase::NoOp;
                }
            },
            (LadderPhase::NoOp, LadderEvent::NoOp(NoOp::Completed { cc, slot, parameter })) => {
                let cc: u8 = *cc;
                let slot: u8 = *slot;
                let parameter: u32 = *parameter;
                if cc == 1 {
                    text::append_text(&mut out, "drv-xhci: noop cc=");
                    numerals::push_hex(&mut out, cc as u64);
                    text::append_text(&mut out, " slot=");
                    numerals::push_hex(&mut out, slot as u64);
                    text::append_text(&mut out, " param=");
                    numerals::push_hex(&mut out, parameter as u64);
                    text::append_text(&mut out, "\n");
                    self.phase = LadderPhase::Devices;
                } else {
                    text::append_text(&mut out, "drv-xhci: noop cc=");
                    numerals::push_hex(&mut out, cc as u64);
                    text::append_text(&mut out, " slot=");
                    numerals::push_hex(&mut out, slot as u64);
                    text::append_text(&mut out, " param=");
                    numerals::push_hex(&mut out, parameter as u64);
                    text::append_text(&mut out, "\n");
                    self.phase = LadderPhase::Quiesce;
                }
            },
            (LadderPhase::NoOp, LadderEvent::NoOp(NoOp::Broken)) => {
                text::append_text(&mut out, "drv-xhci: noop event decode error\n");
                self.phase = LadderPhase::Quiesce;
            },
            (LadderPhase::NoOp, LadderEvent::NoOp(NoOp::TimedOut)) => {
                text::append_text(&mut out, "drv-xhci: noop timeout\n");
                self.phase = LadderPhase::Quiesce;
            },
            (LadderPhase::Devices, LadderEvent::Returned(_)) => {
                self.phase = LadderPhase::Quiesce;
            },
            (LadderPhase::Quiesce, LadderEvent::Returned(_)) => {
                text::append_text(&mut out, "drv-xhci: first light done\n");
                self.phase = LadderPhase::Exit { code: 0 };
            },
            _ => {},
        }
        assert(out@ =~= old(self).after(e@).1);
        out
    }
}

/// How many steps are left at most.
pub open spec fn steps_left(p: LadderPhase) -> nat {
    match p {
        LadderPhase::Config => 18,
        LadderPhase::Mint => 17,
        LadderPhase::MapMmio { .. } => 16,
        LadderPhase::Caps => 15,
        LadderPhase::Layout => 14,
        LadderPhase::DmaAlloc => 13,
        LadderPhase::DmaMap { .. } => 12,
        LadderPhase::Image => 11,
        LadderPhase::Scratchpads => 10,
        LadderPhase::ScratchAlloc { .. } => 9,
        LadderPhase::Reset => 8,
        LadderPhase::ResetWait => 7,
        LadderPhase::Program => 6,
        LadderPhase::Start => 5,
        LadderPhase::Doorbell => 4,
        LadderPhase::NoOp => 3,
        LadderPhase::Devices => 2,
        LadderPhase::Quiesce => 1,
        LadderPhase::Exit { .. } => 0,
    }
}

/// Taking over never goes back.
pub proof fn ladder_moves_forward(l: Ladder, e: LadderEventView)
    ensures
        l.after(e) == (l, Seq::<u8>::empty()) || steps_left(l.after(e).0.phase) < steps_left(
            l.phase,
        ),
{
}

/// A controller whose registers are known is left at rest: from the allocation
/// of its first page on, the driver exits only after the call that quiesces it.
pub proof fn controller_is_left_at_rest(l: Ladder, e: LadderEventView)
    requires
        1 <= steps_left(l.phase) <= 13,
    ensures
        l.after(e).0.phase is Exit <==> l.phase is Quiesce && e is Returned,
        l.after(e).0.phase matches LadderPhase::Exit { code } ==> code == 0,
{
}

/// What a look at the event ring says of the proving command. An unrelated event, and none, say
/// nothing.
pub open spec fn noop_of(p: Poll, iova: u64) -> Option<NoOp> {
    match p {
        Poll::Event(RingEvent::Command { command_iova, parameter, completion_code, slot }) => if command_iova
            == iova {
            Some(NoOp::Completed { cc: completion_code, slot, parameter })
        } else {
            None
        },
        Poll::Event(_) => None,
        Poll::Broken => Some(NoOp::Broken),
        Poll::Empty => None,
    }
}

/// Computes [`noop_of`].
pub fn noop_seen(p: Poll, iova: u64) -> (r: Option<NoOp>)
    ensures
        r == noop_of(p, iova),
{
    match p {
        Poll::Event(RingEvent::Command { command_iova, parameter, completion_code, slot }) => {
            if command_iova == iova {
                Some(NoOp::Completed { cc: completion_code, slot, parameter })
            } else {
                None
            }
        },
        Poll::Event(_) => None,
        Poll::Broken => Some(NoOp::Broken),
        Poll::Empty => None,
    }
}

/// A wait for the proving command.
#[derive(Clone, Copy, Debug, PartialEq, Eq, Structural)]
pub struct NoOpWait {
    pub iova: u64,
    pub limit: u32,
    pub spin: u32,
}

impl NoOpWait {
    /// Begins a wait of at most `limit` looks.
    pub fn new(iova: u64, limit: u32) -> (w: NoOpWait)
        requires
            limit > 0,
        ensures
            w == (NoOpWait { iova, limit, spin: 0 }),
    {
        NoOpWait { iova, limit, spin: 0 }
    }

    /// What a look at the event ring comes to. `None` where another is due.
    pub open spec fn outcome(self, p: Poll) -> Option<NoOp> {
        match noop_of(p, self.iova) {
            Some(seen) => Some(seen),
            None => if self.spin + 1 < self.limit {
                None
            } else {
                Some(NoOp::TimedOut)
            },
        }
    }

    /// Takes one look at the event ring.
    pub fn step(&mut self, p: Poll) -> (r: Option<NoOp>)
        requires
            old(self).spin < old(self).limit,
        ensures
            r == old(self).outcome(p),
            r is None ==> *final(self) == (NoOpWait {
                spin: (old(self).spin + 1) as u32,
                ..*old(self)
            }) && final(self).spin < final(self).limit,
            r is Some ==> *final(self) == *old(self),
    {
        match noop_seen(p, self.iova) {
            Some(seen) => Some(seen),
            None => {
                if self.spin < self.limit - 1 {
                    self.spin = self.spin + 1;
                    None
                } else {
                    Some(NoOp::TimedOut)
                }
            },
        }
    }
}

/// What a wait for the end of a reset has come to.
#[derive(Clone, Copy, Debug, PartialEq, Eq, Structural)]
pub enum ResetWaited {
    Again,
    Ready,
    TimedOut,
}

/// A wait for the end of a reset.
#[derive(Clone, Copy, Debug, PartialEq, Eq, Structural)]
pub struct ResetWait {
    pub limit: u32,
    pub spin: u32,
}

impl ResetWait {
    pub fn new(limit: u32) -> (w: ResetWait)
        requires
            limit > 0,
        ensures
            w == (ResetWait { limit, spin: 0 }),
    {
        ResetWait { limit, spin: 0 }
    }

    /// Takes one look at the controller: whether its reset is over, and whether
    /// its rings can be programmed.
    pub fn step(&mut self, reset_over: bool, ring_ready: bool) -> (w: ResetWaited)
        requires
            old(self).spin < old(self).limit,
        ensures
            w == (if reset_over && ring_ready {
                ResetWaited::Ready
            } else if old(self).spin + 1 < old(self).limit {
                ResetWaited::Again
            } else {
                ResetWaited::TimedOut
            }),
            w is Again ==> final(self).spin == old(self).spin + 1 && final(self).limit == old(
                self,
            ).limit,
            !(w is Again) ==> *final(self) == *old(self),
    {
        if reset_over && ring_ready {
            ResetWaited::Ready
        } else if self.spin < self.limit - 1 {
            self.spin = self.spin + 1;
            ResetWaited::Again
        } else {
            ResetWaited::TimedOut
        }
    }
}

/// A register window can be mapped where it is whole pages of 4096 bytes and rounding it up does not overflow.
pub proof fn windows_are_whole_pages(len: u64)
    ensures
        window_of(len) is TooLong <==> len > u64::MAX - 4095,
        window_of(len) is Whole <==> len <= u64::MAX - 4095 && len % 4096 == 0,
{
}

/// A whole window is minted and mapped at 0x1100_0000, where the configuration comes with a resource.
pub proof fn registers_are_mapped_first(l: Ladder, config: XhciConfig, resource: u64, a: u64)
    ensures
        l.call_of() is ReadConfig && resource != 0 && resource != u64::MAX && config.mmio_length
            <= u64::MAX - 4095 && config.mmio_length % 4096 == 0 ==> ({
            let n = l.after(LadderEventView::Config(Some(config), resource)).0;
            n.config == config && n.call_of() == (LadderCall::MintMmio {
                base: config.mmio_base,
                len: config.mmio_length,
            })
        }),
        l.call_of() is MintMmio && a != 0 && a != u64::MAX ==> l.after(
            LadderEventView::Returned(a),
        ).0.call_of() == (LadderCall::MapMmio {
            vmo: handle_of(a),
            va: 0x1100_0000,
            len: l.config.mmio_length,
        }),
        l.call_of() is MapMmio ==> l.after(LadderEventView::Returned(0)).0.call_of() is ReadCaps,
{
}

/// The capabilities are read, and how many ports there are is kept; then the layout is read, and a page is
/// allocated.
pub proof fn the_controller_is_described_first(
    l: Ladder,
    caps: Caps,
    words: (u32, u32, u32),
    layout: Layout,
    offsets: (u32, u32),
    ports: Seq<PortLine>,
)
    ensures
        l.call_of() is ReadCaps ==> ({
            let n = l.after(LadderEventView::Caps(Some(caps), words)).0;
            n.ports == caps.ports && n.config == l.config && n.call_of() is ReadLayout
        }),
        l.call_of() is ReadLayout ==> l.after(
            LadderEventView::Layout(Some(layout), offsets, ports),
        ).0.call_of() is AllocPage,
{
}

/// The page is mapped at 0x1200_0000, its address is logged, and the rings are built in it, for eight slots.
pub proof fn rings_are_built_in_a_page(l: Ladder, raw: u64, phys: u64)
    requires
        l.call_of() is AllocPage,
        raw != u64::MAX,
        phys != 0,
    ensures
        ({
            let n = l.after(LadderEventView::Page(raw, phys)).0;
            let m = n.after(LadderEventView::Returned(0));
            &&& n.call_of() == (LadderCall::MapPage { raw, va: 0x1200_0000 })
            &&& m.0.call_of() == (LadderCall::BuildImage { slots: 8 })
            &&& m.1 == t("drv-xhci: dma phys=") + numerals::hex(phys as nat) + t(" va=")
                + numerals::hex(0x1200_0000) + t("\n")
        }),
{
}

/// The scratchpads that the controller wants are allocated; it is reset, waited for, programmed and started, its
/// doorbell is rung, the command that does nothing is waited for, and where that completes with code 1 the devices
/// are brought up. Then it is left at rest, and the driver ends with zero.
pub proof fn the_controller_is_proved_by_a_command(
    l: Ladder,
    a: u64,
    raw: u64,
    phys: u64,
    slot: u8,
    parameter: u32,
)
    ensures
        l.call_of() is BuildImage ==> l.after(
            LadderEventView::Done(true),
        ).0.call_of() is ReadScratchpads,
        l.call_of() is ReadScratchpads && scratchpads_of(a as u32) as u32 == 0 ==> l.after(
            LadderEventView::Returned(a),
        ).0.call_of() is Reset,
        l.call_of() is ReadScratchpads && scratchpads_of(a as u32) as u32 != 0 ==> l.after(
            LadderEventView::Returned(a),
        ).0.call_of() == (LadderCall::AllocScratchpads { count: scratchpads_of(a as u32) as u32 }),
        l.call_of() is AllocScratchpads && raw != u64::MAX && phys != 0 ==> l.after(
            LadderEventView::Page(raw, phys),
        ).0.call_of() is Reset,
        l.call_of() is Reset ==> l.after(LadderEventView::Done(true)).0.call_of() is WaitReset,
        l.call_of() is WaitReset ==> l.after(LadderEventView::Done(true)).0.call_of() is Program,
        l.call_of() is Program ==> l.after(LadderEventView::Done(true)).0.call_of() is Start,
        l.call_of() is Start ==> l.after(LadderEventView::Done(true)).0.call_of() is RingDoorbell,
        l.call_of() is RingDoorbell ==> l.after(
            LadderEventView::Done(true),
        ).0.call_of() is WaitNoOp,
        l.call_of() is WaitNoOp ==> l.after(
            LadderEventView::NoOp(NoOp::Completed { cc: 1, slot, parameter }),
        ).0.call_of() is BringUpDevices,
        l.call_of() is BringUpDevices ==> l.after(
            LadderEventView::Returned(a),
        ).0.call_of() is Quiesce,
        l.call_of() is Quiesce ==> l.after(LadderEventView::Returned(a)).0.call_of() == (
        LadderCall::Exit { code: 0 }),
{
}

/// Until the layout is read a failure ends the driver with one, and a layout outside the window with zero.
pub proof fn early_failures_end_the_driver(
    l: Ladder,
    config: XhciConfig,
    resource: u64,
    a: u64,
    words: (u32, u32, u32),
    offsets: (u32, u32),
    ports: Seq<PortLine>,
)
    ensures
        l.call_of() is ReadConfig ==> l.after(
            LadderEventView::Config(None, resource),
        ).0.call_of() == (LadderCall::Exit { code: 1 }),
        l.call_of() is ReadConfig && (resource == 0 || resource == u64::MAX || config.mmio_length
            > u64::MAX - 4095 || config.mmio_length % 4096 != 0) ==> l.after(
            LadderEventView::Config(Some(config), resource),
        ).0.call_of() == (LadderCall::Exit { code: 1 }),
        l.call_of() is MintMmio && (a == 0 || a == u64::MAX) ==> l.after(
            LadderEventView::Returned(a),
        ).0.call_of() == (LadderCall::Exit { code: 1 }),
        l.call_of() is MapMmio && a != 0 ==> l.after(LadderEventView::Returned(a)).0.call_of() == (
        LadderCall::Exit { code: 1 }),
        l.call_of() is ReadCaps ==> l.after(LadderEventView::Caps(None, words)).0.call_of() == (
        LadderCall::Exit { code: 1 }),
        l.call_of() is ReadLayout ==> l.after(
            LadderEventView::Layout(None, offsets, ports),
        ).0.call_of() == (LadderCall::Exit { code: 0 }),
{
}

/// From the first page on any failure leaves the controller at rest.
pub proof fn failures_leave_the_controller_at_rest(
    l: Ladder,
    a: u64,
    raw: u64,
    phys: u64,
    cc: u8,
    slot: u8,
    parameter: u32,
)
    ensures
        (l.call_of() is AllocPage || l.call_of() is AllocScratchpads) && (raw == u64::MAX || phys
            == 0) ==> l.after(LadderEventView::Page(raw, phys)).0.call_of() is Quiesce,
        l.call_of() is MapPage && a != 0 ==> l.after(
            LadderEventView::Returned(a),
        ).0.call_of() is Quiesce,
        l.call_of() is BuildImage || l.call_of() is Reset || l.call_of() is WaitReset
            || l.call_of() is Program || l.call_of() is Start || l.call_of() is RingDoorbell
            ==> l.after(LadderEventView::Done(false)).0.call_of() is Quiesce,
        l.call_of() is WaitNoOp ==> l.after(
            LadderEventView::NoOp(NoOp::Broken),
        ).0.call_of() is Quiesce && l.after(
            LadderEventView::NoOp(NoOp::TimedOut),
        ).0.call_of() is Quiesce,
        l.call_of() is WaitNoOp && cc != 1 ==> l.after(
            LadderEventView::NoOp(NoOp::Completed { cc, slot, parameter }),
        ).0.call_of() is Quiesce,
{
}

/// What the log says of ports is what it says of each of them, in order.
pub proof fn ports_are_described_in_order(v: Seq<PortLine>, p: PortLine)
    ensures
        ports_text(v.push(p)) == ports_text(v) + port_text(p),
        ports_text(Seq::<PortLine>::empty()).len() == 0,
{
    assert(v.push(p).drop_last() =~= v);
}

/// Where there are more than sixteen ports the log says that the rest is left out.
pub proof fn sixteen_ports_are_described(n: u8)
    ensures
        n <= 16 ==> truncated_text(n).len() == 0,
        n > 16 ==> truncated_text(n) == t("drv-xhci: port log truncated\n"),
{
}

/// A wait for the proving command ends with the completion of that command, with a broken ring, or with its last
/// look; events of other commands and of transfers are passed over.
pub proof fn waits_end_with_their_command(
    w: NoOpWait,
    at: u64,
    parameter: u32,
    cc: u8,
    slot: u8,
    other: RingEvent,
)
    requires
        w.spin < w.limit,
    ensures
        w.outcome(
            Poll::Event(
                RingEvent::Command {
                    command_iova: w.iova,
                    parameter,
                    completion_code: cc,
                    slot,
                },
            ),
        ) == Some(NoOp::Completed { cc, slot, parameter }),
        w.outcome(Poll::Broken) == Some(NoOp::Broken),
        w.spin + 1 == w.limit ==> w.outcome(Poll::Empty) == Some(NoOp::TimedOut),
        w.spin + 1 < w.limit ==> w.outcome(Poll::Empty) is None,
        at != w.iova ==> w.outcome(
            Poll::Event(
                RingEvent::Command { command_iova: at, parameter, completion_code: cc, slot },
            ),
        ) == w.outcome(Poll::Empty),
        !(other is Command) ==> w.outcome(Poll::Event(other)) == w.outcome(Poll::Empty),
{
}

/// The configuration is logged by its base, length, interrupt and stream, in this order, and a missing stream as
/// `none`; the capabilities by their seven numbers.
pub proof fn the_controller_is_logged_field_by_field(c: XhciConfig, caps: Caps)
    ensures
        ({
            let start = t("drv-xhci: usb0 mmio=") + numerals::hex(c.mmio_base as nat) + t(" len=")
                + numerals::hex(c.mmio_length as nat) + t(" irq=") + numerals::hex(c.irq as nat)
                + t(" stream=");
            &&& c.stream is None ==> config_text(c) == start + t("none") + t("\n")
            &&& c.stream matches Some(s) ==> config_text(c) == start + numerals::hex(s as nat) + t(
                "\n",
            )
        }),
        caps_text(caps) == t("drv-xhci: cap=") + numerals::hex(caps.caplength as nat) + t(" hci=")
            + numerals::hex(caps.hciversion as nat) + t(" slots=") + numerals::hex(
            caps.slots as nat,
        ) + t(" intrs=") + numerals::hex(caps.interrupters as nat) + t(" ports=") + numerals::hex(
            caps.ports as nat,
        ) + t(" ctx=") + numerals::hex(caps.context_bytes as nat) + t(" xecp=") + numerals::hex(
            caps.xecp as nat,
        ) + t("\n"),
{
}

/// The layout is logged by where the register sets lie, the status by three registers and seven flags, each 1 where
/// it is set and 0 where not.
pub proof fn the_layout_is_logged_field_by_field(l: Layout)
    ensures
        flag(true) == numerals::hex(1) && flag(false) == numerals::hex(0),
        layout_text(l) == t("drv-xhci: layout op=") + numerals::hex(l.operational as nat) + t(
            " run=",
        ) + numerals::hex(l.runtime as nat) + t(" db=") + numerals::hex(l.doorbell as nat) + t(
            " crcr=",
        ) + numerals::hex(l.command_ring as nat) + t(" dcbaa=") + numerals::hex(l.dcbaa as nat) + t(
            " ir0_erstsz=",
        ) + numerals::hex(l.erst_size as nat) + t("\n"),
        status_text(l) == t("drv-xhci: status usbcmd=") + numerals::hex(l.usbcmd as nat) + t(
            " usbsts=",
        ) + numerals::hex(l.usbsts as nat) + t(" pagesize=") + numerals::hex(l.page_size as nat)
            + t(" run=") + flag(l.running) + t(" hcrst=") + flag(l.reset) + t(" hch=") + flag(
            l.halted,
        ) + t(" cnr=") + flag(l.not_ready) + t(" hse=") + flag(l.system_error) + t(" page4k=")
            + flag(l.pages_4k) + t(" ring_ready=") + flag(l.ring_ready) + t("\n"),
{
}

/// A port is logged by its number, its register, and what the register says.
pub proof fn ports_are_logged_field_by_field(p: PortLine)
    ensures
        port_text(p) == t("drv-xhci: port") + numerals::hex(p.index as nat) + t(" raw=")
            + numerals::hex(p.raw as nat) + t(" ccs=") + flag(p.connected) + t(" ped=") + flag(
            p.enabled,
        ) + t(" pls=") + numerals::hex(p.link_state as nat) + t(" speed=") + numerals::hex(
            p.speed as nat,
        ) + t(" pp=") + flag(p.powered) + t("\n"),
{
}

} // verus!
