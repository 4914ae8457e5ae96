//! Bringing devices up: which command or transfer comes next, what its result
//! means, and what the log says. The device on the first usable root port is
//! addressed and read; a hub is powered and scanned, and the first device behind
//! it is addressed through it; a boot keyboard is configured and served.

use vstd::prelude::*;

use crate::abi::{handle_of, to_handle, Handle};
use crate::bytes;
use crate::drv_xhci::events::IRQ_EVENT_DRAIN_LIMIT;
use crate::drv_xhci::setup::{
    Setup, HUB_FEATURE_C_PORT_RESET, HUB_FEATURE_PORT_POWER, HUB_FEATURE_PORT_RESET,
};
use crate::drv_xhci::words::{
    behind_hub, downstream_device, ep0_max_packet, first_packet_size, hub_port_speed, hub_speed_of,
    Device, HUB_PASS_BUDGET_NS,
};
use crate::numerals;
use crate::sora::initrd::sat_add;
use crate::sora::sequence::t;
use crate::text;

verus! {

/// Where the pages of the root device and of a device behind a hub are mapped.
pub const ENUM_VA: u64 = 0x1300_0000;

pub const DEV2_VA: u64 = 0x1400_0000;

pub const USB_CLASS_HUB: u8 = 9;

pub const DEVICE_DESCRIPTOR_LEN: u16 = 18;

/// Bytes of the buffer that control transfers fill.
pub const DATA_BUF_LEN: u16 = 256;

/// Rounds of waiting for a hub's report, for a port to come out of reset, and
/// for a keyboard's report.
pub const HUB_STATUS_WAIT_ROUNDS: u32 = 16;

pub const HUB_RESET_POLL_ROUNDS: u32 = 64;

pub const REPORT_WAIT_ROUNDS: u32 = 240;

/// Reports that are read where there is no interrupt to wait for.
pub const KEYBOARD_REPORT_LIMIT: u32 = 24;

/// Delays after power and after a reset, in spins.
pub const POWER_SETTLE_SPINS: u32 = 500_000;

pub const RESET_SETTLE_SPINS: u32 = 200_000;

/// An interrupt endpoint that sends to the host.
#[derive(Clone, Copy, Debug, PartialEq, Eq, Structural)]
pub struct Endpoint {
    pub address: u8,
    pub max_packet: u16,
    pub interval: u8,
}

/// A boot interface.
#[derive(Clone, Copy, Debug, PartialEq, Eq, Structural)]
pub struct Hid {
    pub interface: u8,
    pub protocol: u8,
    pub endpoint: Endpoint,
    pub keyboard: bool,
}

/// The device on a root port.
#[derive(Clone, Copy, Debug, PartialEq, Eq, Structural)]
pub enum RootPhase {
    Alloc,
    MapPage { raw: u64 },
    Port,
    Enable,
    Contexts,
    Address,
    /// The first bytes of the device descriptor state the packet size.
    FirstBytes,
    Evaluate { mps: u16 },
    Descriptor,
    /// The descriptor did not come; the controller's status is logged.
    Status,
    ConfigHeader,
    Config { len: u16 },
    FindHub { len: u16 },
    FindHid { len: u16 },
}

/// A hub.
#[derive(Clone, Copy, Debug, PartialEq, Eq, Structural)]
pub enum HubPhase {
    Descriptor,
    /// The time that the work may take begins.
    Begin,
    SetConfig,
    Configure { endpoint: Endpoint },
    PowerClock { port: u8 },
    Power { port: u8 },
    Settle,
    ArmStatus { index: u8 },
    StatusClock { round: u32 },
    Status { round: u32 },
    ScanClock { port: u8 },
    Scan { port: u8 },
    /// A device was found; there may be no time left for it.
    Reach { port: u8 },
}

/// A device behind a hub.
#[derive(Clone, Copy, Debug, PartialEq, Eq, Structural)]
pub enum DownPhase {
    Reset { port: u8 },
    Clock { port: u8, round: u32 },
    Delay { port: u8, round: u32 },
    Poll { port: u8, round: u32 },
    Acknowledge { port: u8, speed: u8 },
    Alloc { port: u8, speed: u8 },
    MapPage { port: u8, speed: u8, raw: u64, phys: u64 },
    Enable { port: u8, speed: u8, phys: u64 },
    Contexts,
    Address,
    FirstBytes,
    Evaluate { mps: u16 },
    Descriptor,
    ConfigHeader,
    Config { len: u16 },
    FindHid { len: u16 },
}

/// A keyboard.
#[derive(Clone, Copy, Debug, PartialEq, Eq, Structural)]
pub enum KeyPhase {
    SetConfig,
    Configure,
    SetProtocol,
    Ring,
    Interrupt,
    CreatePort,
    BindPort { target: Handle },
    Arm,
    /// A transfer is to be queued.
    Queue,
    Wait,
    Service,
    Complete,
    PollQueue,
    Poll { round: u32 },
}

/// Where the driver stands.
#[derive(Clone, Copy, Debug, PartialEq, Eq, Structural)]
pub enum Phase {
    Root(RootPhase),
    Hub(HubPhase),
    Down(DownPhase),
    Keys(KeyPhase),
    Done,
}

/// A command to the controller.
#[derive(Clone, Copy, Debug, PartialEq, Eq, Structural)]
pub enum Command {
    EnableSlot,
    AddressDevice { dev: Device },
    EvaluateContext { dev: Device, mps: u16 },
    ConfigureEndpoint { dev: Device, endpoint: Endpoint },
}

/// What the driver waits for.
#[derive(Clone, Copy, Debug, PartialEq, Eq, Structural)]
pub enum UsbCall {
    /// A page of contiguous memory.
    AllocPage,
    MapPage { raw: u64, va: u64 },
    /// The scan for the first usable port.
    FindPort,
    Command(Command),
    /// The control endpoint's ring and the contexts of a device.
    BuildContexts { dev: Device, mps: u16 },
    /// A control transfer.
    Control { dev: Device, setup: Setup },
    ReadStatus,
    /// A hub's interrupt endpoint in the configuration that was read.
    FindInterrupt { len: u16 },
    /// A boot interface in the configuration that was read.
    FindHid { len: u16 },
    Clock,
    Delay { spins: u32 },
    /// A ring for a hub's reports, with one transfer in it.
    ArmStatus { dev: Device, index: u8 },
    Poll { slot: u8, limit: u32 },
    /// A ring for a keyboard's reports.
    MakeRing { dev: Device },
    CreateInterrupt { irq: u32 },
    CreatePort,
    Bind { target: Handle, interrupt: Handle },
    /// Clears what is pending, enables the interrupter and completes once.
    Arm { interrupt: Handle },
    /// Queues a transfer and rings the slot's doorbell.
    Queue { dev: Device, index: u8, len: u16 },
    WaitInterrupt { bound: Option<Handle>, interrupt: Handle },
    /// Clears what is pending, tells the controller the ring's position, and
    /// polls.
    Service { slot: u8, limit: u32 },
    Complete { interrupt: Handle },
    Nothing,
}

/// What came of a command. `index` is the context index of the endpoint that was
/// configured.
#[derive(Clone, Copy, Debug, PartialEq, Eq, Structural)]
pub enum Completion {
    Unbuilt,
    TimedOut,
    Completed { cc: u8, slot: u8, index: u8 },
}

/// What came of the contexts.
#[derive(Clone, Copy, Debug, PartialEq, Eq, Structural)]
pub enum Built {
    Ready,
    NoRing,
    NoSlot,
    NoEndpoint,
    NoOffset,
}

/// What came of queueing a transfer.
#[derive(Clone, Copy, Debug, PartialEq, Eq, Structural)]
pub enum Queued {
    Unbuilt,
    Full,
    Done,
}

/// What came back.
#[derive(Debug)]
pub enum UsbEvent {
    Page(u64, u64),
    Returned(u64),
    /// The port and its speed, and every port's register.
    Port(Option<(u8, u8)>, Vec<u32>),
    Command(Completion),
    Built(Built),
    /// The completion code and what was not transferred, and the buffer.
    Control(Option<(u8, u32)>, Vec<u8>),
    Endpoint(Option<Endpoint>),
    Interface(Option<Hid>),
    Ready(bool),
    Queued(Queued),
    /// The completion code, the report, and the characters of the keys that
    /// went down.
    Transfer(Option<u8>, Vec<u8>, Vec<u8>),
}

/// A [`UsbEvent`] as plain data.
#[verifier::ext_equal]
pub enum UsbEventView {
    Page(u64, u64),
    Returned(u64),
    Port(Option<(u8, u8)>, Seq<u32>),
    Command(Completion),
    Built(Built),
    Control(Option<(u8, u32)>, Seq<u8>),
    Endpoint(Option<Endpoint>),
    Interface(Option<Hid>),
    Ready(bool),
    Queued(Queued),
    Transfer(Option<u8>, Seq<u8>, Seq<u8>),
}

impl View for UsbEvent {
    type V = UsbEventView;

    open spec fn view(&self) -> UsbEventView {
        match self {
            UsbEvent::Page(a, b) => UsbEventView::Page(*a, *b),
            UsbEvent::Returned(a) => UsbEventView::Returned(*a),
            UsbEvent::Port(p, raws) => UsbEventView::Port(*p, raws@),
            UsbEvent::Command(c) => UsbEventView::Command(*c),
            UsbEvent::Built(b) => UsbEventView::Built(*b),
            UsbEvent::Control(r, data) => UsbEventView::Control(*r, data@),
            UsbEvent::Endpoint(e) => UsbEventView::Endpoint(*e),
            UsbEvent::Interface(h) => UsbEventView::Interface(*h),
            UsbEvent::Ready(ok) => UsbEventView::Ready(*ok),
            UsbEvent::Queued(q) => UsbEventView::Queued(*q),
            UsbEvent::Transfer(c, r, k) => UsbEventView::Transfer(*c, r@, k@),
        }
    }
}

/// Byte `i` of a buffer; zero past its end.
pub open spec fn byte_of(data: Seq<u8>, i: int) -> u8 {
    if i < data.len() {
        data[i]
    } else {
        0
    }
}

fn byte_at(data: &Vec<u8>, i: usize) -> (b: u8)
    ensures
        b == byte_of(data@, i as int),
{
    if i < data.len() {
        data[i]
    } else {
        0
    }
}

/// The two bytes at `i`, least significant first.
pub open spec fn word_of(data: Seq<u8>, i: int) -> u16 {
    (byte_of(data, i) + byte_of(data, i + 1) * 0x100) as u16
}

fn word_at(data: &Vec<u8>, i: usize) -> (w: u16)
    requires
        i < 0x100,
    ensures
        w == word_of(data@, i as int),
{
    byte_at(data, i) as u16 + byte_at(data, i + 1) as u16 * 0x100
}

/// A length cut down to the buffer's.
pub open spec fn capped(len: u16) -> u16 {
    if len < 256 {
        len
    } else {
        256
    }
}

fn cap_len(len: u16) -> (n: u16)
    ensures
        n == capped(len),
{
    if len < DATA_BUF_LEN {
        len
    } else {
        DATA_BUF_LEN
    }
}

/// Numbers in hexadecimal, each with a blank behind it.
pub open spec fn hex_list_text(v: Seq<u32>) -> Seq<u8>
    decreases v.len(),
{
    if v.len() == 0 {
        Seq::empty()
    } else {
        hex_list_text(v.drop_last()) + numerals::hex(v.last() as nat) + t(" ")
    }
}

fn push_hex_list(out: &mut Vec<u8>, v: &Vec<u32>)
    ensures
        final(out)@ == old(out)@ + hex_list_text(v@),
{
    let mut i: usize = 0;
    assert(v@.subrange(0, 0) =~= Seq::empty());
    assert(out@ =~= old(out)@ + hex_list_text(v@.subrange(0, 0)));
    while i < v.len()
        invariant
            i <= v@.len(),
            out@ == old(out)@ + hex_list_text(v@.subrange(0, i as int)),
        decreases v@.len() - i,
    {
        numerals::push_hex(out, v[i] as u64);
        text::append_text(out, " ");
        i += 1;
        assert(v@.subrange(0, i as int).drop_last() =~= v@.subrange(0, i - 1));
        assert(out@ =~= old(out)@ + hex_list_text(v@.subrange(0, i as int)));
    }
    assert(v@.subrange(0, i as int) =~= v@);
}

/// Bytes in hexadecimal, each with a blank behind it.
pub open spec fn byte_list_text(v: Seq<u8>) -> Seq<u8>
    decreases v.len(),
{
    if v.len() == 0 {
        Seq::empty()
    } else {
        byte_list_text(v.drop_last()) + numerals::hex(v.last() as nat) + t(" ")
    }
}

fn push_byte_list(out: &mut Vec<u8>, v: &Vec<u8>)
    ensures
        final(out)@ == old(out)@ + byte_list_text(v@),
{
    let mut i: usize = 0;
    assert(v@.subrange(0, 0) =~= Seq::empty());
    assert(out@ =~= old(out)@ + byte_list_text(v@.subrange(0, 0)));
    while i < v.len()
        invariant
            i <= v@.len(),
            out@ == old(out)@ + byte_list_text(v@.subrange(0, i as int)),
        decreases v@.len() - i,
    {
        numerals::push_hex(out, v[i] as u64);
        text::append_text(out, " ");
        i += 1;
        assert(v@.subrange(0, i as int).drop_last() =~= v@.subrange(0, i - 1));
        assert(out@ =~= old(out)@ + byte_list_text(v@.subrange(0, i as int)));
    }
    assert(v@.subrange(0, i as int) =~= v@);
}

/// The printable characters of what was typed, each in quotes.
pub open spec fn quoted_text(v: Seq<u8>) -> Seq<u8>
    decreases v.len(),
{
    if v.len() == 0 {
        Seq::empty()
    } else {
        quoted_text(v.drop_last()) + if 0x20 <= v.last() < 0x7f {
            t(" '") + seq![v.last()] + t("'")
        } else {
            Seq::empty()
        }
    }
}

fn push_quoted(out: &mut Vec<u8>, v: &Vec<u8>)
    ensures
        final(out)@ == old(out)@ + quoted_text(v@),
{
    let mut i: usize = 0;
    assert(v@.subrange(0, 0) =~= Seq::empty());
    assert(out@ =~= old(out)@ + quoted_text(v@.subrange(0, 0)));
    while i < v.len()
        invariant
            i <= v@.len(),
            out@ == old(out)@ + quoted_text(v@.subrange(0, i as int)),
        decreases v@.len() - i,
    {
        let b: u8 = v[i];
        if b >= 0x20 && b < 0x7f {
            text::append_text(out, " '");
            out.push(b);
            text::append_text(out, "'");
        }
        i += 1;
        assert(v@.subrange(0, i as int).drop_last() =~= v@.subrange(0, i - 1));
        assert(out@ =~= old(out)@ + quoted_text(v@.subrange(0, i as int)));
    }
    assert(v@.subrange(0, i as int) =~= v@);
}

/// A flag as a number.
pub open spec fn flag_text(c: bool) -> Seq<u8> {
    numerals::hex(
        if c {
            1
        } else {
            0
        },
    )
}

fn push_flag(out: &mut Vec<u8>, c: bool)
    ensures
        final(out)@ == old(out)@ + flag_text(c),
{
    if c {
        numerals::push_hex(out, 1);
    } else {
        numerals::push_hex(out, 0);
    }
}

/// What the log says of a hub without ports.
pub open spec fn no_ports_text(ports: u8) -> Seq<u8> {
    if ports == 0 {
        t("drv-xhci: hub scan done\n")
    } else {
        Seq::empty()
    }
}

fn push_no_ports(out: &mut Vec<u8>, ports: u8)
    ensures
        final(out)@ == old(out)@ + no_ports_text(ports),
{
    if ports == 0 {
        text::append_text(out, "drv-xhci: hub scan done\n");
    } else {
        assert(out@ =~= old(out)@ + no_ports_text(ports));
    }
}

/// The first connected port of a hub, after a look at one more.
pub open spec fn seen(down: Option<u8>, port: u8, status: u16) -> Option<u8> {
    if down is None && status % 2 == 1 {
        Some(port)
    } else {
        down
    }
}

fn note_port(down: Option<u8>, port: u8, status: u16) -> (r: Option<u8>)
    ensures
        r == seen(down, port, status),
{
    match down {
        Some(p) => Some(p),
        None => if status % 2 == 1 {
            Some(port)
        } else {
            None
        },
    }
}

/// What follows a scan: the first connected port, if there was one.
pub open spec fn reach(down: Option<u8>) -> Phase {
    match down {
        Some(port) => Phase::Hub(HubPhase::Reach { port }),
        None => Phase::Done,
    }
}

fn to_reach(down: Option<u8>) -> (p: Phase)
    ensures
        p == reach(down),
{
    match down {
        Some(port) => Phase::Hub(HubPhase::Reach { port }),
        None => Phase::Done,
    }
}

/// Bringing up in progress.
#[derive(Clone, Copy, Debug, PartialEq, Eq, Structural)]
pub struct Bringup {
    pub phase: Phase,
    /// The controller's interrupt, or zero.
    pub irq: u32,
    /// The device on the root port.
    pub root: Device,
    /// The device that becomes the keyboard.
    pub dev: Device,
    pub class: u8,
    pub config: u8,
    /// The hub's interrupt endpoint, and its context index once it is configured.
    pub endpoint: Option<Endpoint>,
    pub hub_index: Option<u8>,
    pub hub_ports: u8,
    /// When the work on the hub must end.
    pub end_ns: u64,
    /// The hub's first connected port.
    pub down: Option<u8>,
    pub hid: Hid,
    /// The keyboard endpoint's context index.
    pub index: u8,
    pub interrupt: Handle,
    pub port: Option<Handle>,
    /// A transfer is queued and has not completed.
    pub pending: bool,
    /// Reports read without an interrupt.
    pub received: u32,
}

impl Bringup {
    /// What follows a hub's configuration: its ports are powered one by one.
    pub open spec fn first_power(self) -> Phase {
        if self.hub_ports >= 1 {
            Phase::Hub(HubPhase::PowerClock { port: 1 })
        } else {
            Phase::Hub(HubPhase::Settle)
        }
    }

    fn to_first_power(&self) -> (p: Phase)
        ensures
            p == self.first_power(),
    {
        if self.hub_ports >= 1 {
            Phase::Hub(HubPhase::PowerClock { port: 1 })
        } else {
            Phase::Hub(HubPhase::Settle)
        }
    }

    /// What follows power: the ports are looked at one by one, if there are any.
    pub open spec fn first_scan_phase(self) -> Phase {
        if self.hub_ports >= 1 {
            Phase::Hub(HubPhase::ScanClock { port: 1 })
        } else {
            Phase::Done
        }
    }

    fn to_first_scan(&self) -> (p: Phase)
        ensures
            p == self.first_scan_phase(),
    {
        if self.hub_ports >= 1 {
            Phase::Hub(HubPhase::ScanClock { port: 1 })
        } else {
            Phase::Done
        }
    }

    /// The start: nothing is known of any device, and no transfer is outstanding.
    pub open spec fn start(irq: u32) -> Bringup {
        let nowhere = Device {
            slot: 0,
            va: ENUM_VA,
            phys: 0,
            speed: 0,
            root_port: 0,
            route: 0,
            tt_slot: 0,
            tt_port: 0,
        };
        Bringup {
            phase: Phase::Root(RootPhase::Alloc),
            irq,
            root: nowhere,
            dev: nowhere,
            class: 0,
            config: 0,
            endpoint: None,
            hub_index: None,
            hub_ports: 0,
            end_ns: 0,
            down: None,
            hid: Hid {
                interface: 0,
                protocol: 0,
                endpoint: Endpoint { address: 0, max_packet: 0, interval: 0 },
                keyboard: false,
            },
            index: 0,
            interrupt: Handle(0),
            port: None,
            pending: false,
            received: 0,
        }
    }

    pub fn new(irq: u32) -> (b: Bringup)
        ensures
            b == Bringup::start(irq),
            b.wf(),
    {
        let nowhere: Device = Device {
            slot: 0,
            va: ENUM_VA,
            phys: 0,
            speed: 0,
            root_port: 0,
            route: 0,
            tt_slot: 0,
            tt_port: 0,
        };
        Bringup {
            phase: Phase::Root(RootPhase::Alloc),
            irq,
            root: nowhere,
            dev: nowhere,
            class: 0,
            config: 0,
            endpoint: None,
            hub_index: None,
            hub_ports: 0,
            end_ns: 0,
            down: None,
            hid: Hid {
                interface: 0,
                protocol: 0,
                endpoint: Endpoint { address: 0, max_packet: 0, interval: 0 },
                keyboard: false,
            },
            index: 0,
            interrupt: Handle(0),
            port: None,
            pending: false,
            received: 0,
        }
    }

    /// A slot that the controller may hand out.
    pub open spec fn good_slot(d: Device) -> bool {
        1 <= d.slot < 32
    }

    /// Devices are used only once they have a slot, and a transfer is queued
    /// only while none is outstanding.
    pub open spec fn wf(self) -> bool {
        match self.phase {
            Phase::Root(p) => self.received == 0 && match p {
                RootPhase::Alloc => true,
                RootPhase::MapPage { .. } => true,
                RootPhase::Port => true,
                RootPhase::Enable => true,
                _ => Self::good_slot(self.root),
            },
            Phase::Hub(p) => self.received == 0 && Self::good_slot(self.root) && match p {
                HubPhase::PowerClock { port } => 1 <= port <= self.hub_ports,
                HubPhase::Power { port } => 1 <= port <= self.hub_ports,
                HubPhase::ScanClock { port } => 1 <= port <= self.hub_ports,
                HubPhase::Scan { port } => 1 <= port <= self.hub_ports,
                HubPhase::StatusClock { round } => round < HUB_STATUS_WAIT_ROUNDS,
                HubPhase::Status { round } => round < HUB_STATUS_WAIT_ROUNDS,
                _ => true,
            },
            Phase::Down(p) => self.received == 0 && Self::good_slot(self.root) && match p {
                DownPhase::Reset { .. } => true,
                DownPhase::Clock { round, .. } => round < HUB_RESET_POLL_ROUNDS,
                DownPhase::Delay { round, .. } => round < HUB_RESET_POLL_ROUNDS,
                DownPhase::Poll { round, .. } => round < HUB_RESET_POLL_ROUNDS,
                DownPhase::Acknowledge { .. } => true,
                DownPhase::Alloc { .. } => true,
                DownPhase::MapPage { .. } => true,
                DownPhase::Enable { .. } => true,
                _ => Self::good_slot(self.dev),
            },
            Phase::Keys(p) => Self::good_slot(self.dev) && match p {
                KeyPhase::Queue => !self.pending,
                KeyPhase::Poll { round } => round < REPORT_WAIT_ROUNDS && self.received
                    < KEYBOARD_REPORT_LIMIT,
                KeyPhase::PollQueue => self.received < KEYBOARD_REPORT_LIMIT,
                KeyPhase::Wait => true,
                KeyPhase::Service => true,
                KeyPhase::Complete => true,
                _ => self.received == 0,
            },
            Phase::Done => true,
        }
    }

    /// The state after an event while the device on a root port is brought up, and what the log says.
    pub open spec fn after_root(self, p: RootPhase, e: UsbEventView) -> (Bringup, Seq<u8>) {
        match (p, e) {
            (RootPhase::Alloc, UsbEventView::Page(raw, phys)) => if raw == u64::MAX || phys == 0 {
                (Bringup { phase: Phase::Done, ..self }, t("drv-xhci: enum vmo fail\n"))
            } else {
                (
                    Bringup {
                        root: Device { phys, ..self.root },
                        phase: Phase::Root(RootPhase::MapPage { raw }),
                        ..self
                    },
                    Seq::empty(),
                )
            },
            (RootPhase::MapPage { .. }, UsbEventView::Returned(a)) => if a != 0 {
                (Bringup { phase: Phase::Done, ..self }, t("drv-xhci: enum map fail\n"))
            } else {
                (
                    Bringup { phase: Phase::Root(RootPhase::Port), ..self },
                    t("drv-xhci: enum phys=") + numerals::hex(self.root.phys as nat) + t("\n"),
                )
            },
            (RootPhase::Port, UsbEventView::Port(None, raws)) => (
                Bringup { phase: Phase::Done, ..self },
                t("drv-xhci: no enabled port raw=") + hex_list_text(raws) + t("\n"),
            ),
            (RootPhase::Port, UsbEventView::Port(Some((port, speed)), _)) => (
                Bringup {
                    root: Device { root_port: port, speed, ..self.root },
                    phase: Phase::Root(RootPhase::Enable),
                    ..self
                },
                t("drv-xhci: dev port=")
                    + numerals::hex(port as nat)
                    + t(" speed=")
                    + numerals::hex(speed as nat)
                    + t("\n"),
            ),
            (RootPhase::Enable, UsbEventView::Command(Completion::Unbuilt)) => {
                (Bringup { phase: Phase::Done, ..self }, t("drv-xhci: enable build fail\n"))
            },
            (RootPhase::Enable, UsbEventView::Command(Completion::TimedOut)) => {
                (Bringup { phase: Phase::Done, ..self }, t("drv-xhci: enable slot timeout\n"))
            },
            (RootPhase::Enable, UsbEventView::Command(Completion::Completed { cc, slot, .. })) => if cc != 1 {
                (
                    Bringup { phase: Phase::Done, ..self },
                    t("drv-xhci: enable slot cc=") + numerals::hex(cc as nat) + t("\n"),
                )
            } else if slot == 0 || slot >= 32 {
                (
                    Bringup { phase: Phase::Done, ..self },
                    t("drv-xhci: slot enabled id=")
                        + numerals::hex(slot as nat)
                        + t("\n")
                        + t("drv-xhci: slot id out of range\n"),
                )
            } else {
                (
                    Bringup {
                        root: Device { slot, ..self.root },
                        phase: Phase::Root(RootPhase::Contexts),
                        ..self
                    },
                    t("drv-xhci: slot enabled id=") + numerals::hex(slot as nat) + t("\n"),
                )
            },
            (RootPhase::Contexts, UsbEventView::Built(built)) => if built == Built::NoRing {
                (Bringup { phase: Phase::Done, ..self }, t("drv-xhci: ep0 ring fail\n"))
            } else if built == Built::NoSlot {
                (Bringup { phase: Phase::Done, ..self }, t("drv-xhci: slot ctx fail\n"))
            } else if built == Built::NoEndpoint {
                (Bringup { phase: Phase::Done, ..self }, t("drv-xhci: ep0 ctx fail\n"))
            } else if built == Built::NoOffset {
                (Bringup { phase: Phase::Done, ..self }, t("drv-xhci: ctx offset fail\n"))
            } else {
                (Bringup { phase: Phase::Root(RootPhase::Address), ..self }, Seq::empty())
            },
            (RootPhase::Address, UsbEventView::Command(Completion::Unbuilt)) => {
                (Bringup { phase: Phase::Done, ..self }, t("drv-xhci: addr build fail\n"))
            },
            (RootPhase::Address, UsbEventView::Command(Completion::TimedOut)) => {
                (Bringup { phase: Phase::Done, ..self }, t("drv-xhci: addr dev timeout\n"))
            },
            (RootPhase::Address, UsbEventView::Command(Completion::Completed { cc, .. })) => if cc != 1 {
                (
                    Bringup { phase: Phase::Done, ..self },
                    t("drv-xhci: addr dev cc=") + numerals::hex(cc as nat) + t("\n"),
                )
            } else {
                (
                    Bringup { phase: Phase::Root(RootPhase::FirstBytes), ..self },
                    t("drv-xhci: addr dev cc=0x1 ok\n"),
                )
            },
            (RootPhase::FirstBytes, UsbEventView::Control(None, _)) => {
                (Bringup { phase: Phase::Done, ..self }, t("drv-xhci: desc8 timeout\n"))
            },
            (RootPhase::FirstBytes, UsbEventView::Control(Some((cc, _)), data)) => if cc != 1 {
                (
                    Bringup { phase: Phase::Done, ..self },
                    t("drv-xhci: desc8 cc=") + numerals::hex(cc as nat) + t("\n"),
                )
            } else if byte_of(data, 7) != 0 && byte_of(data, 7) as u16 != first_packet_size(self.root.speed) {
                (
                    Bringup {
                        phase: Phase::Root(RootPhase::Evaluate { mps: byte_of(data, 7) as u16 }),
                        ..self
                    },
                    Seq::empty(),
                )
            } else {
                (Bringup { phase: Phase::Root(RootPhase::Descriptor), ..self }, Seq::empty())
            },
            (RootPhase::Evaluate { .. }, UsbEventView::Command(Completion::Unbuilt)) => {
                (Bringup { phase: Phase::Done, ..self }, t("drv-xhci: eval ep0 ctx fail\n"))
            },
            (RootPhase::Evaluate { .. }, UsbEventView::Command(Completion::TimedOut)) => {
                (Bringup { phase: Phase::Done, ..self }, t("drv-xhci: eval ctx timeout\n"))
            },
            (RootPhase::Evaluate { mps }, UsbEventView::Command(Completion::Completed { cc, .. })) => if cc != 1 {
                (
                    Bringup { phase: Phase::Done, ..self },
                    t("drv-xhci: eval ctx cc=") + numerals::hex(cc as nat) + t("\n"),
                )
            } else {
                (
                    Bringup { phase: Phase::Root(RootPhase::Descriptor), ..self },
                    t("drv-xhci: eval ctx cc=0x1 mps0=") + numerals::hex(mps as nat) + t("\n"),
                )
            },
            (RootPhase::Descriptor, UsbEventView::Control(None, _)) => {
                (Bringup { phase: Phase::Root(RootPhase::Status), ..self }, Seq::empty())
            },
            (RootPhase::Descriptor, UsbEventView::Control(Some((cc, rem)), data)) => (
                Bringup {
                    class: byte_of(data, 4),
                    phase: Phase::Root(RootPhase::ConfigHeader),
                    ..self
                },
                t("drv-xhci: desc cc=")
                    + numerals::hex(cc as nat)
                    + t(" rem=")
                    + numerals::hex(rem as nat)
                    + t(" len=")
                    + numerals::hex(byte_of(data, 0) as nat)
                    + t(" type=")
                    + numerals::hex(byte_of(data, 1) as nat)
                    + t(" class=")
                    + numerals::hex(byte_of(data, 4) as nat)
                    + t(" mps0=")
                    + numerals::hex(byte_of(data, 7) as nat)
                    + t(" vid=")
                    + numerals::hex(word_of(data, 8) as nat)
                    + t(" pid=")
                    + numerals::hex(word_of(data, 10) as nat)
                    + t("\n"),
            ),
            (RootPhase::Status, UsbEventView::Returned(a)) => (
                Bringup { phase: Phase::Done, ..self },
                t("drv-xhci: desc timeout usbsts=") + numerals::hex(a as nat) + t("\n"),
            ),
            (RootPhase::ConfigHeader, UsbEventView::Control(None, _)) => {
                (Bringup { phase: Phase::Done, ..self }, t("drv-xhci: cfg header timeout\n"))
            },
            (RootPhase::ConfigHeader, UsbEventView::Control(Some(_), data)) => (
                Bringup {
                    phase: Phase::Root(RootPhase::Config { len: capped(word_of(data, 2)) }),
                    ..self
                },
                t("drv-xhci: cfg total=")
                    + numerals::hex(word_of(data, 2) as nat)
                    + t(" numif=")
                    + numerals::hex(byte_of(data, 4) as nat)
                    + t("\n"),
            ),
            (RootPhase::Config { .. }, UsbEventView::Control(None, _)) => {
                (Bringup { phase: Phase::Done, ..self }, t("drv-xhci: cfg timeout\n"))
            },
            (RootPhase::Config { len }, UsbEventView::Control(Some(_), data)) => if self.class == USB_CLASS_HUB {
                (
                    Bringup {
                        config: byte_of(data, 5),
                        phase: Phase::Root(RootPhase::FindHub { len }),
                        ..self
                    },
                    Seq::empty(),
                )
            } else {
                (
                    Bringup {
                        config: byte_of(data, 5),
                        phase: Phase::Root(RootPhase::FindHid { len }),
                        ..self
                    },
                    Seq::empty(),
                )
            },
            (RootPhase::FindHub { .. }, UsbEventView::Endpoint(None)) => (
                Bringup { endpoint: None, phase: Phase::Hub(HubPhase::Descriptor), ..self },
                Seq::empty(),
            ),
            (RootPhase::FindHub { .. }, UsbEventView::Endpoint(Some(ep))) => (
                Bringup { endpoint: Some(ep), phase: Phase::Hub(HubPhase::Descriptor), ..self },
                Seq::empty(),
            ),
            (RootPhase::FindHid { .. }, UsbEventView::Interface(None)) => {
                (Bringup { phase: Phase::Done, ..self }, t("drv-xhci: no hid boot iface\n"))
            },
            (RootPhase::FindHid { .. }, UsbEventView::Interface(Some(hid))) => if hid.keyboard {
                (
                    Bringup {
                        hid: hid,
                        dev: self.root,
                        phase: Phase::Keys(KeyPhase::SetConfig),
                        ..self
                    },
                    t("drv-xhci: hid if=")
                        + numerals::hex(hid.interface as nat)
                        + t(" proto=")
                        + numerals::hex(hid.protocol as nat)
                        + t(" ep=")
                        + numerals::hex(hid.endpoint.address as nat)
                        + t(" mps=")
                        + numerals::hex(hid.endpoint.max_packet as nat)
                        + t(" interval=")
                        + numerals::hex(hid.endpoint.interval as nat)
                        + t("\n"),
                )
            } else {
                (
                    Bringup { phase: Phase::Done, ..self },
                    t("drv-xhci: hid if=")
                        + numerals::hex(hid.interface as nat)
                        + t(" proto=")
                        + numerals::hex(hid.protocol as nat)
                        + t(" ep=")
                        + numerals::hex(hid.endpoint.address as nat)
                        + t(" mps=")
                        + numerals::hex(hid.endpoint.max_packet as nat)
                        + t(" interval=")
                        + numerals::hex(hid.endpoint.interval as nat)
                        + t("\n"),
                )
            },
            _ => (self, Seq::empty()),
        }
    }

    /// The state after an event while a hub is configured and scanned, and what the log says.
    pub open spec fn after_hub(self, p: HubPhase, e: UsbEventView) -> (Bringup, Seq<u8>) {
        match (p, e) {
            (HubPhase::Descriptor, UsbEventView::Control(None, _)) => {
                (Bringup { phase: Phase::Done, ..self }, t("drv-xhci: hub desc timeout\n"))
            },
            (HubPhase::Descriptor, UsbEventView::Control(Some((cc, _)), data)) => if cc != 1 {
                (
                    Bringup { phase: Phase::Done, ..self },
                    t("drv-xhci: hub desc cc=") + numerals::hex(cc as nat) + t("\n"),
                )
            } else {
                (
                    Bringup {
                        hub_ports: byte_of(data, 2),
                        phase: Phase::Hub(HubPhase::Begin),
                        ..self
                    },
                    t("drv-xhci: hub ports=") + numerals::hex(byte_of(data, 2) as nat) + t("\n"),
                )
            },
            (HubPhase::Begin, UsbEventView::Returned(a)) => (
                Bringup {
                    end_ns: sat_add(a as int, HUB_PASS_BUDGET_NS as int) as u64,
                    phase: Phase::Hub(HubPhase::SetConfig),
                    ..self
                },
                Seq::empty(),
            ),
            (HubPhase::SetConfig, UsbEventView::Control(None, _)) => {
                (Bringup { phase: Phase::Done, ..self }, t("drv-xhci: hub set config timeout\n"))
            },
            (HubPhase::SetConfig, UsbEventView::Control(Some((cc, _)), _)) => if cc != 1 {
                (
                    Bringup { phase: Phase::Done, ..self },
                    t("drv-xhci: hub set config cc=") + numerals::hex(cc as nat) + t("\n"),
                )
            } else if self.endpoint is Some {
                (
                    Bringup {
                        phase: Phase::Hub(HubPhase::Configure { endpoint: self.endpoint->0 }),
                        ..self
                    },
                    t("drv-xhci: hub set config cc=0x1\n"),
                )
            } else {
                (
                    Bringup { phase: self.first_power(), ..self },
                    t("drv-xhci: hub set config cc=0x1\n") + t("drv-xhci: hub no int ep\n"),
                )
            },
            (HubPhase::Configure { .. }, UsbEventView::Command(Completion::Unbuilt)) => {
                (Bringup { phase: self.first_power(), ..self }, Seq::empty())
            },
            (HubPhase::Configure { .. }, UsbEventView::Command(Completion::TimedOut)) => {
                (Bringup { phase: self.first_power(), ..self }, t("drv-xhci: config ep timeout\n"))
            },
            (HubPhase::Configure { .. }, UsbEventView::Command(Completion::Completed { cc, index, .. })) => if cc != 1 {
                (
                    Bringup { phase: self.first_power(), ..self },
                    t("drv-xhci: config ep cc=") + numerals::hex(cc as nat) + t("\n"),
                )
            } else {
                (
                    Bringup { hub_index: Some(index), phase: self.first_power(), ..self },
                    t("drv-xhci: hub config ep cc=0x1\n"),
                )
            },
            (HubPhase::PowerClock { port }, UsbEventView::Returned(a)) => if a >= self.end_ns {
                (
                    Bringup { phase: Phase::Done, ..self },
                    t("drv-xhci: hub pass budget spent (power)\n"),
                )
            } else {
                (Bringup { phase: Phase::Hub(HubPhase::Power { port }), ..self }, Seq::empty())
            },
            (HubPhase::Power { port }, UsbEventView::Control(_, _)) => if port < self.hub_ports {
                (
                    Bringup {
                        phase: Phase::Hub(HubPhase::PowerClock { port: (port + 1) as u8 }),
                        ..self
                    },
                    Seq::empty(),
                )
            } else {
                (Bringup { phase: Phase::Hub(HubPhase::Settle), ..self }, Seq::empty())
            },
            (HubPhase::Settle, UsbEventView::Returned(_)) => if self.hub_index is Some {
                (
                    Bringup {
                        phase: Phase::Hub(HubPhase::ArmStatus { index: self.hub_index->0 }),
                        ..self
                    },
                    Seq::empty(),
                )
            } else {
                (Bringup { phase: self.first_scan_phase(), ..self }, no_ports_text(self.hub_ports))
            },
            (HubPhase::ArmStatus { .. }, UsbEventView::Ready(ok)) => if ok {
                (
                    Bringup { phase: Phase::Hub(HubPhase::StatusClock { round: 0 }), ..self },
                    Seq::empty(),
                )
            } else {
                (Bringup { phase: self.first_scan_phase(), ..self }, no_ports_text(self.hub_ports))
            },
            (HubPhase::StatusClock { round }, UsbEventView::Returned(a)) => if a >= self.end_ns {
                (
                    Bringup { phase: self.first_scan_phase(), ..self },
                    t("drv-xhci: hub status idle\n") + no_ports_text(self.hub_ports),
                )
            } else {
                (Bringup { phase: Phase::Hub(HubPhase::Status { round }), ..self }, Seq::empty())
            },
            (HubPhase::Status { round }, UsbEventView::Transfer(None, _, _)) => if round < HUB_STATUS_WAIT_ROUNDS - 1 {
                (
                    Bringup {
                        phase: Phase::Hub(HubPhase::StatusClock { round: (round + 1) as u32 }),
                        ..self
                    },
                    Seq::empty(),
                )
            } else {
                (
                    Bringup { phase: self.first_scan_phase(), ..self },
                    t("drv-xhci: hub status idle\n") + no_ports_text(self.hub_ports),
                )
            },
            (HubPhase::Status { .. }, UsbEventView::Transfer(Some(cc), report, _)) => (
                Bringup { phase: self.first_scan_phase(), ..self },
                t("drv-xhci: hub status cc=")
                    + numerals::hex(cc as nat)
                    + t(" ")
                    + byte_list_text(report)
                    + t("\n")
                    + no_ports_text(self.hub_ports),
            ),
            (HubPhase::ScanClock { port }, UsbEventView::Returned(a)) => if a >= self.end_ns {
                (
                    Bringup { phase: reach(self.down), ..self },
                    t("drv-xhci: hub pass budget spent (scan)\n") + t("drv-xhci: hub scan done\n"),
                )
            } else {
                (Bringup { phase: Phase::Hub(HubPhase::Scan { port }), ..self }, Seq::empty())
            },
            (HubPhase::Scan { port }, UsbEventView::Control(None, _)) => if port < self.hub_ports {
                (
                    Bringup {
                        phase: Phase::Hub(HubPhase::ScanClock { port: (port + 1) as u8 }),
                        ..self
                    },
                    t("drv-xhci: hub port status timeout\n"),
                )
            } else {
                (
                    Bringup { phase: reach(self.down), ..self },
                    t("drv-xhci: hub port status timeout\n") + t("drv-xhci: hub scan done\n"),
                )
            },
            (HubPhase::Scan { port }, UsbEventView::Control(Some((cc, _)), data)) => if cc != 1 && port < self.hub_ports {
                (
                    Bringup {
                        phase: Phase::Hub(HubPhase::ScanClock { port: (port + 1) as u8 }),
                        ..self
                    },
                    t("drv-xhci: hub port status cc=") + numerals::hex(cc as nat) + t("\n"),
                )
            } else if cc != 1 {
                (
                    Bringup { phase: reach(self.down), ..self },
                    t("drv-xhci: hub port status cc=")
                        + numerals::hex(cc as nat)
                        + t("\n")
                        + t("drv-xhci: hub scan done\n"),
                )
            } else if port < self.hub_ports {
                (
                    Bringup {
                        down: seen(self.down, port, word_of(data, 0)),
                        phase: Phase::Hub(HubPhase::ScanClock { port: (port + 1) as u8 }),
                        ..self
                    },
                    t("drv-xhci: hub port")
                        + numerals::hex(port as nat)
                        + t(" status=")
                        + numerals::hex(word_of(data, 0) as nat)
                        + t(" conn=")
                        + numerals::hex((word_of(data, 0) % 2) as nat)
                        + t("\n"),
                )
            } else {
                (
                    Bringup {
                        down: seen(self.down, port, word_of(data, 0)),
                        phase: reach(seen(self.down, port, word_of(data, 0))),
                        ..self
                    },
                    t("drv-xhci: hub port")
                        + numerals::hex(port as nat)
                        + t(" status=")
                        + numerals::hex(word_of(data, 0) as nat)
                        + t(" conn=")
                        + numerals::hex((word_of(data, 0) % 2) as nat)
                        + t("\n")
                        + t("drv-xhci: hub scan done\n"),
                )
            },
            (HubPhase::Reach { port }, UsbEventView::Returned(a)) => if a >= self.end_ns {
                (
                    Bringup { phase: Phase::Done, ..self },
                    t("drv-xhci: hub pass budget spent; downstream deferred\n"),
                )
            } else {
                (Bringup { phase: Phase::Down(DownPhase::Reset { port }), ..self }, Seq::empty())
            },
            _ => (self, Seq::empty()),
        }
    }

    /// The state after an event while a device behind a hub is brought up, and what the log says.
    pub open spec fn after_down(self, p: DownPhase, e: UsbEventView) -> (Bringup, Seq<u8>) {
        match (p, e) {
            (DownPhase::Reset { .. }, UsbEventView::Control(None, _)) => {
                (Bringup { phase: Phase::Done, ..self }, t("drv-xhci: hub port reset timeout\n"))
            },
            (DownPhase::Reset { port }, UsbEventView::Control(Some((cc, _)), _)) => if cc != 1 {
                (
                    Bringup { phase: Phase::Done, ..self },
                    t("drv-xhci: hub port reset cc=") + numerals::hex(cc as nat) + t("\n"),
                )
            } else {
                (
                    Bringup { phase: Phase::Down(DownPhase::Clock { port, round: 0 }), ..self },
                    Seq::empty(),
                )
            },
            (DownPhase::Clock { port, round }, UsbEventView::Returned(a)) => if a >= self.end_ns {
                (
                    Bringup { phase: Phase::Done, ..self },
                    t("drv-xhci: hub pass budget spent (reset)\n"),
                )
            } else {
                (
                    Bringup { phase: Phase::Down(DownPhase::Delay { port, round }), ..self },
                    Seq::empty(),
                )
            },
            (DownPhase::Delay { port, round }, UsbEventView::Returned(_)) => {
                (Bringup { phase: Phase::Down(DownPhase::Poll { port, round }), ..self }, Seq::empty())
            },
            (DownPhase::Poll { port, round }, UsbEventView::Control(None, _)) => if round < HUB_RESET_POLL_ROUNDS - 1 {
                (
                    Bringup {
                        phase: Phase::Down(DownPhase::Clock { port, round: (round + 1) as u32 }),
                        ..self
                    },
                    Seq::empty(),
                )
            } else {
                (Bringup { phase: Phase::Done, ..self }, t("drv-xhci: hub port never enabled\n"))
            },
            (DownPhase::Poll { port, round }, UsbEventView::Control(Some(_), data)) => if hub_speed_of(word_of(data, 0)) is Some {
                (
                    Bringup {
                        phase: Phase::Down(DownPhase::Acknowledge { port, speed: hub_speed_of(word_of(data, 0))->0 }),
                        ..self
                    },
                    t("drv-xhci: hub dev port=")
                        + numerals::hex(port as nat)
                        + t(" speed=")
                        + numerals::hex(hub_speed_of(word_of(data, 0))->0 as nat)
                        + t("\n"),
                )
            } else if round < HUB_RESET_POLL_ROUNDS - 1 {
                (
                    Bringup {
                        phase: Phase::Down(DownPhase::Clock { port, round: (round + 1) as u32 }),
                        ..self
                    },
                    Seq::empty(),
                )
            } else {
                (Bringup { phase: Phase::Done, ..self }, t("drv-xhci: hub port never enabled\n"))
            },
            (DownPhase::Acknowledge { port, speed }, UsbEventView::Control(_, _)) => (
                Bringup { phase: Phase::Down(DownPhase::Alloc { port, speed }), ..self },
                Seq::empty(),
            ),
            (DownPhase::Alloc { port, speed }, UsbEventView::Page(raw, phys)) => if raw == u64::MAX || phys == 0 {
                (Bringup { phase: Phase::Done, ..self }, t("drv-xhci: hub dev vmo fail\n"))
            } else {
                (
                    Bringup {
                        phase: Phase::Down(DownPhase::MapPage { port, speed, raw, phys }),
                        ..self
                    },
                    Seq::empty(),
                )
            },
            (DownPhase::MapPage { port, speed, phys, .. }, UsbEventView::Returned(a)) => if a != 0 {
                (Bringup { phase: Phase::Done, ..self }, t("drv-xhci: hub dev map fail\n"))
            } else {
                (
                    Bringup { phase: Phase::Down(DownPhase::Enable { port, speed, phys }), ..self },
                    Seq::empty(),
                )
            },
            (DownPhase::Enable { .. }, UsbEventView::Command(Completion::Unbuilt)) => {
                (Bringup { phase: Phase::Done, ..self }, t("drv-xhci: hub dev enable build fail\n"))
            },
            (DownPhase::Enable { .. }, UsbEventView::Command(Completion::TimedOut)) => {
                (Bringup { phase: Phase::Done, ..self }, t("drv-xhci: hub dev enable timeout\n"))
            },
            (DownPhase::Enable { port, speed, phys }, UsbEventView::Command(Completion::Completed { cc, slot, .. })) => if cc != 1 {
                (
                    Bringup { phase: Phase::Done, ..self },
                    t("drv-xhci: hub dev enable cc=") + numerals::hex(cc as nat) + t("\n"),
                )
            } else if slot == 0 || slot >= 32 {
                (Bringup { phase: Phase::Done, ..self }, t("drv-xhci: hub dev slot out of range\n"))
            } else {
                (
                    Bringup {
                        dev: behind_hub(self.root, port, speed, slot, DEV2_VA, phys),
                        phase: Phase::Down(DownPhase::Contexts),
                        ..self
                    },
                    t("drv-xhci: hub dev slot=") + numerals::hex(slot as nat) + t("\n"),
                )
            },
            (DownPhase::Contexts, UsbEventView::Built(built)) => if built == Built::NoRing {
                (Bringup { phase: Phase::Done, ..self }, t("drv-xhci: hub dev ep0 ring fail\n"))
            } else if built == Built::NoEndpoint {
                (Bringup { phase: Phase::Done, ..self }, t("drv-xhci: hub dev ep0 ctx fail\n"))
            } else if built != Built::Ready {
                (Bringup { phase: Phase::Done, ..self }, t("drv-xhci: hub dev ctx offset fail\n"))
            } else {
                (Bringup { phase: Phase::Down(DownPhase::Address), ..self }, Seq::empty())
            },
            (DownPhase::Address, UsbEventView::Command(Completion::Unbuilt)) => {
                (Bringup { phase: Phase::Done, ..self }, t("drv-xhci: hub dev addr build fail\n"))
            },
            (DownPhase::Address, UsbEventView::Command(Completion::TimedOut)) => {
                (Bringup { phase: Phase::Done, ..self }, t("drv-xhci: hub dev addr timeout\n"))
            },
            (DownPhase::Address, UsbEventView::Command(Completion::Completed { cc, .. })) => if cc != 1 {
                (
                    Bringup { phase: Phase::Done, ..self },
                    t("drv-xhci: hub dev addr cc=") + numerals::hex(cc as nat) + t("\n"),
                )
            } else {
                (
                    Bringup { phase: Phase::Down(DownPhase::FirstBytes), ..self },
                    t("drv-xhci: hub dev addr cc=0x1 ok\n"),
                )
            },
            (DownPhase::FirstBytes, UsbEventView::Control(None, _)) => {
                (Bringup { phase: Phase::Done, ..self }, t("drv-xhci: dev desc8 timeout\n"))
            },
            (DownPhase::FirstBytes, UsbEventView::Control(Some((cc, _)), data)) => if cc != 1 {
                (
                    Bringup { phase: Phase::Done, ..self },
                    t("drv-xhci: dev desc8 cc=") + numerals::hex(cc as nat) + t("\n"),
                )
            } else if byte_of(data, 7) != 0 && byte_of(data, 7) as u16 != first_packet_size(self.dev.speed) {
                (
                    Bringup {
                        phase: Phase::Down(DownPhase::Evaluate { mps: byte_of(data, 7) as u16 }),
                        ..self
                    },
                    Seq::empty(),
                )
            } else {
                (Bringup { phase: Phase::Down(DownPhase::Descriptor), ..self }, Seq::empty())
            },
            (DownPhase::Evaluate { .. }, UsbEventView::Command(Completion::Unbuilt)) => {
                (Bringup { phase: Phase::Done, ..self }, Seq::empty())
            },
            (DownPhase::Evaluate { .. }, UsbEventView::Command(Completion::TimedOut)) => {
                (Bringup { phase: Phase::Done, ..self }, t("drv-xhci: dev eval ctx timeout\n"))
            },
            (DownPhase::Evaluate { mps }, UsbEventView::Command(Completion::Completed { cc, .. })) => if cc != 1 {
                (
                    Bringup { phase: Phase::Done, ..self },
                    t("drv-xhci: dev eval ctx cc=") + numerals::hex(cc as nat) + t("\n"),
                )
            } else {
                (
                    Bringup { phase: Phase::Down(DownPhase::Descriptor), ..self },
                    t("drv-xhci: dev eval ctx mps0=") + numerals::hex(mps as nat) + t("\n"),
                )
            },
            (DownPhase::Descriptor, UsbEventView::Control(None, _)) => {
                (Bringup { phase: Phase::Done, ..self }, t("drv-xhci: dev desc timeout\n"))
            },
            (DownPhase::Descriptor, UsbEventView::Control(Some((cc, _)), data)) => if cc != 1 {
                (
                    Bringup { phase: Phase::Done, ..self },
                    t("drv-xhci: dev desc cc=") + numerals::hex(cc as nat) + t("\n"),
                )
            } else {
                (
                    Bringup { phase: Phase::Down(DownPhase::ConfigHeader), ..self },
                    t("drv-xhci: dev desc vid=")
                        + numerals::hex(word_of(data, 8) as nat)
                        + t(" pid=")
                        + numerals::hex(word_of(data, 10) as nat)
                        + t("\n"),
                )
            },
            (DownPhase::ConfigHeader, UsbEventView::Control(None, _)) => {
                (Bringup { phase: Phase::Done, ..self }, Seq::empty())
            },
            (DownPhase::ConfigHeader, UsbEventView::Control(Some(_), data)) => (
                Bringup {
                    phase: Phase::Down(DownPhase::Config { len: capped(word_of(data, 2)) }),
                    ..self
                },
                Seq::empty(),
            ),
            (DownPhase::Config { .. }, UsbEventView::Control(None, _)) => {
                (Bringup { phase: Phase::Done, ..self }, Seq::empty())
            },
            (DownPhase::Config { len }, UsbEventView::Control(Some(_), data)) => (
                Bringup {
                    config: byte_of(data, 5),
                    phase: Phase::Down(DownPhase::FindHid { len }),
                    ..self
                },
                Seq::empty(),
            ),
            (DownPhase::FindHid { .. }, UsbEventView::Interface(None)) => {
                (Bringup { phase: Phase::Done, ..self }, t("drv-xhci: dev no hid boot iface\n"))
            },
            (DownPhase::FindHid { .. }, UsbEventView::Interface(Some(hid))) => if hid.keyboard {
                (
                    Bringup { hid: hid, phase: Phase::Keys(KeyPhase::SetConfig), ..self },
                    t("drv-xhci: dev hid if=")
                        + numerals::hex(hid.interface as nat)
                        + t(" proto=")
                        + numerals::hex(hid.protocol as nat)
                        + t(" ep=")
                        + numerals::hex(hid.endpoint.address as nat)
                        + t("\n"),
                )
            } else {
                (
                    Bringup { phase: Phase::Done, ..self },
                    t("drv-xhci: dev hid if=")
                        + numerals::hex(hid.interface as nat)
                        + t(" proto=")
                        + numerals::hex(hid.protocol as nat)
                        + t(" ep=")
                        + numerals::hex(hid.endpoint.address as nat)
                        + t("\n")
                        + t("drv-xhci: hub dev not a boot keyboard\n"),
                )
            },
            _ => (self, Seq::empty()),
        }
    }

    /// The state after an event while a keyboard is configured and read, and what the log says.
    pub open spec fn after_keys(self, p: KeyPhase, e: UsbEventView) -> (Bringup, Seq<u8>) {
        match (p, e) {
            (KeyPhase::SetConfig, UsbEventView::Control(None, _)) => {
                (Bringup { phase: Phase::Done, ..self }, t("drv-xhci: set config timeout\n"))
            },
            (KeyPhase::SetConfig, UsbEventView::Control(Some((cc, _)), _)) => if cc != 1 {
                (
                    Bringup { phase: Phase::Done, ..self },
                    t("drv-xhci: set config cc=") + numerals::hex(cc as nat) + t("\n"),
                )
            } else {
                (
                    Bringup { phase: Phase::Keys(KeyPhase::Configure), ..self },
                    t("drv-xhci: set config cc=0x1\n"),
                )
            },
            (KeyPhase::Configure, UsbEventView::Command(Completion::Unbuilt)) => {
                (Bringup { phase: Phase::Done, ..self }, Seq::empty())
            },
            (KeyPhase::Configure, UsbEventView::Command(Completion::TimedOut)) => {
                (Bringup { phase: Phase::Done, ..self }, t("drv-xhci: config ep timeout\n"))
            },
            (KeyPhase::Configure, UsbEventView::Command(Completion::Completed { cc, index, .. })) => if cc != 1 {
                (
                    Bringup { phase: Phase::Done, ..self },
                    t("drv-xhci: config ep cc=") + numerals::hex(cc as nat) + t("\n"),
                )
            } else {
                (
                    Bringup { index: index, phase: Phase::Keys(KeyPhase::SetProtocol), ..self },
                    t("drv-xhci: config ep cc=0x1\n"),
                )
            },
            (KeyPhase::SetProtocol, UsbEventView::Control(None, _)) => {
                (Bringup { phase: Phase::Done, ..self }, t("drv-xhci: set proto timeout\n"))
            },
            (KeyPhase::SetProtocol, UsbEventView::Control(Some((cc, _)), _)) => if cc != 1 {
                (
                    Bringup { phase: Phase::Done, ..self },
                    t("drv-xhci: set proto cc=") + numerals::hex(cc as nat) + t("\n"),
                )
            } else {
                (
                    Bringup { phase: Phase::Keys(KeyPhase::Ring), ..self },
                    t("drv-xhci: set proto cc=0x1\n"),
                )
            },
            (KeyPhase::Ring, UsbEventView::Ready(ok)) => if !ok {
                (Bringup { phase: Phase::Done, ..self }, t("drv-xhci: int ring fail\n"))
            } else if self.irq == 0 {
                (
                    Bringup { phase: Phase::Done, ..self },
                    t("drv-xhci: keyboard found but no irq granted; not serving\n"),
                )
            } else {
                (Bringup { phase: Phase::Keys(KeyPhase::Interrupt), ..self }, Seq::empty())
            },
            (KeyPhase::Interrupt, UsbEventView::Returned(a)) => if a == 0 || a == u64::MAX {
                (
                    Bringup { phase: Phase::Keys(KeyPhase::PollQueue), ..self },
                    t("drv-xhci: interrupt create fail; polling\n")
                        + t("drv-xhci: keyboard armed; press keys\n"),
                )
            } else {
                (
                    Bringup {
                        interrupt: handle_of(a),
                        phase: Phase::Keys(KeyPhase::CreatePort),
                        ..self
                    },
                    Seq::empty(),
                )
            },
            (KeyPhase::CreatePort, UsbEventView::Returned(a)) => if a == 0 || a == u64::MAX {
                (
                    Bringup { port: None, phase: Phase::Keys(KeyPhase::Arm), ..self },
                    t("drv-xhci: irq port create fail\n"),
                )
            } else {
                (
                    Bringup {
                        phase: Phase::Keys(KeyPhase::BindPort { target: handle_of(a) }),
                        ..self
                    },
                    Seq::empty(),
                )
            },
            (KeyPhase::BindPort { target }, UsbEventView::Returned(a)) => if a == 0 {
                (
                    Bringup { port: Some(target), phase: Phase::Keys(KeyPhase::Arm), ..self },
                    Seq::empty(),
                )
            } else {
                (
                    Bringup { port: None, phase: Phase::Keys(KeyPhase::Arm), ..self },
                    t("drv-xhci: irq port bind fail\n"),
                )
            },
            (KeyPhase::Arm, UsbEventView::Returned(_)) => (
                Bringup { pending: false, phase: Phase::Keys(KeyPhase::Queue), ..self },
                t("drv-xhci: keyboard irq-driven port=")
                    + flag_text(self.port is Some)
                    + t("; type at the shell\n"),
            ),
            (KeyPhase::Queue, UsbEventView::Queued(queued)) => if queued == Queued::Unbuilt {
                (Bringup { phase: Phase::Done, ..self }, t("drv-xhci: normal trb fail\n"))
            } else if queued == Queued::Full {
                (
                    Bringup { phase: Phase::Keys(KeyPhase::Wait), ..self },
                    t("drv-xhci: int ring full; draining\n"),
                )
            } else {
                (
                    Bringup { pending: true, phase: Phase::Keys(KeyPhase::Wait), ..self },
                    Seq::empty(),
                )
            },
            (KeyPhase::Wait, UsbEventView::Returned(_)) => {
                (Bringup { phase: Phase::Keys(KeyPhase::Service), ..self }, Seq::empty())
            },
            (KeyPhase::Service, UsbEventView::Transfer(None, _, _)) => {
                (Bringup { phase: Phase::Keys(KeyPhase::Complete), ..self }, Seq::empty())
            },
            (KeyPhase::Service, UsbEventView::Transfer(Some(_), _, _)) => (
                Bringup { pending: false, phase: Phase::Keys(KeyPhase::Complete), ..self },
                Seq::empty(),
            ),
            (KeyPhase::Complete, UsbEventView::Returned(_)) => if self.pending {
                (Bringup { phase: Phase::Keys(KeyPhase::Wait), ..self }, Seq::empty())
            } else {
                (Bringup { phase: Phase::Keys(KeyPhase::Queue), ..self }, Seq::empty())
            },
            (KeyPhase::PollQueue, UsbEventView::Queued(queued)) => if queued == Queued::Unbuilt {
                (Bringup { phase: Phase::Done, ..self }, t("drv-xhci: normal trb fail\n"))
            } else if queued == Queued::Full {
                (Bringup { phase: Phase::Done, ..self }, t("drv-xhci: int enqueue fail\n"))
            } else {
                (Bringup { phase: Phase::Keys(KeyPhase::Poll { round: 0 }), ..self }, Seq::empty())
            },
            (KeyPhase::Poll { round }, UsbEventView::Transfer(None, _, _)) => if round < REPORT_WAIT_ROUNDS - 1 {
                (
                    Bringup {
                        phase: Phase::Keys(KeyPhase::Poll { round: (round + 1) as u32 }),
                        ..self
                    },
                    Seq::empty(),
                )
            } else {
                (
                    Bringup { phase: Phase::Done, ..self },
                    t("drv-xhci: report idle\n") + t("drv-xhci: keyboard read done\n"),
                )
            },
            (KeyPhase::Poll { .. }, UsbEventView::Transfer(Some(cc), report, shown)) => if self.received < KEYBOARD_REPORT_LIMIT - 1 {
                (
                    Bringup {
                        received: (self.received + 1) as u32,
                        phase: Phase::Keys(KeyPhase::PollQueue),
                        ..self
                    },
                    t("drv-xhci: report cc=")
                        + numerals::hex(cc as nat)
                        + t(" ")
                        + byte_list_text(report)
                        + quoted_text(shown)
                        + t("\n"),
                )
            } else {
                (
                    Bringup { phase: Phase::Done, ..self },
                    t("drv-xhci: report cc=")
                        + numerals::hex(cc as nat)
                        + t(" ")
                        + byte_list_text(report)
                        + quoted_text(shown)
                        + t("\n")
                        + t("drv-xhci: keyboard read done\n"),
                )
            },
            _ => (self, Seq::empty()),
        }
    }

    /// The state after an event, and what the log says. An event that does not
    /// answer the call changes nothing.
    pub open spec fn after(self, e: UsbEventView) -> (Bringup, Seq<u8>) {
        match self.phase {
            Phase::Root(p) => self.after_root(p, e),
            Phase::Hub(p) => self.after_hub(p, e),
            Phase::Down(p) => self.after_down(p, e),
            Phase::Keys(p) => self.after_keys(p, e),
            Phase::Done => (self, Seq::empty()),
        }
    }

    fn advance_root(&mut self, p: RootPhase, e: &UsbEvent) -> (out: Vec<u8>)
        requires
            old(self).phase == Phase::Root(p),
        ensures
            (*final(self), out@) == old(self).after_root(p, e@),
    {
        let mut out: Vec<u8> = Vec::new();
        match (p, e) {
            (RootPhase::Alloc, UsbEvent::Page(raw, phys)) => {
                let raw: u64 = *raw;
                let phys: u64 = *phys;
                if raw == u64::MAX || phys == 0 {
                    text::append_text(&mut out, "drv-xhci: enum vmo fail\n");
                    self.phase = Phase::Done;
                } else {
                    self.root = Device { phys, ..self.root };
                    self.phase = Phase::Root(RootPhase::MapPage { raw });
                }
            },
            (RootPhase::MapPage { .. }, UsbEvent::Returned(a)) => {
                let a: u64 = *a;
                if a != 0 {
                    text::append_text(&mut out, "drv-xhci: enum map fail\n");
                    self.phase = Phase::Done;
                } else {
                    text::append_text(&mut out, "drv-xhci: enum phys=");
                    numerals::push_hex(&mut out, self.root.phys as u64);
                    text::append_text(&mut out, "\n");
                    self.phase = Phase::Root(RootPhase::Port);
                }
            },
            (RootPhase::Port, UsbEvent::Port(None, raws)) => {
                text::append_text(&mut out, "drv-xhci: no enabled port raw=");
                push_hex_list(&mut out, raws);
                text::append_text(&mut out, "\n");
                self.phase = Phase::Done;
            },
            (RootPhase::Port, UsbEvent::Port(Some((port, speed)), _)) => {
                let port: u8 = *port;
                let speed: u8 = *speed;
                text::append_text(&mut out, "drv-xhci: dev port=");
                numerals::push_hex(&mut out, port as u64);
                text::append_text(&mut out, " speed=");
                numerals::push_hex(&mut out, speed as u64);
                text::append_text(&mut out, "\n");
                self.root = Device { root_port: port, speed, ..self.root };
                self.phase = Phase::Root(RootPhase::Enable);
            },
            (RootPhase::Enable, UsbEvent::Command(Completion::Unbuilt)) => {
                text::append_text(&mut out, "drv-xhci: enable build fail\n");
                self.phase = Phase::Done;
            },
            (RootPhase::Enable, UsbEvent::Command(Completion::TimedOut)) => {
                text::append_text(&mut out, "drv-xhci: enable slot timeout\n");
                self.phase = Phase::Done;
            },
            (RootPhase::Enable, UsbEvent::Command(Completion::Completed { cc, slot, .. })) => {
                let cc: u8 = *cc;
                let slot: u8 = *slot;
                if cc != 1 {
                    text::append_text(&mut out, "drv-xhci: enable slot cc=");
                    numerals::push_hex(&mut out, cc as u64);
                    text::append_text(&mut out, "\n");
                    self.phase = Phase::Done;
                } else if slot == 0 || slot >= 32 {
                    text::append_text(&mut out, "drv-xhci: slot enabled id=");
                    numerals::push_hex(&mut out, slot as u64);
                    text::append_text(&mut out, "\n");
                    text::append_text(&mut out, "drv-xhci: slot id out of range\n");
                    self.phase = Phase::Done;
                } else {
                    text::append_text(&mut out, "drv-xhci: slot enabled id=");
                    numerals::push_hex(&mut out, slot as u64);
                    text::append_text(&mut out, "\n");
                    self.root = Device { slot, ..self.root };
                    self.phase = Phase::Root(RootPhase::Contexts);
                }
            },
            (RootPhase::Contexts, UsbEvent::Built(built)) => {
                let built: Built = *built;
                if built == Built::NoRing {
                    text::append_text(&mut out, "drv-xhci: ep0 ring fail\n");
                    self.phase = Phase::Done;
                } else if built == Built::NoSlot {
                    text::append_text(&mut out, "drv-xhci: slot ctx fail\n");
                    self.phase = Phase::Done;
                } else if built == Built::NoEndpoint {
                    text::append_text(&mut out, "drv-xhci: ep0 ctx fail\n");
                    self.phase = Phase::Done;
                } else if built == Built::NoOffset {
                    text::append_text(&mut out, "drv-xhci: ctx offset fail\n");
                    self.phase = Phase::Done;
                } else {
                    self.phase = Phase::Root(RootPhase::Address);
                }
            },
            (RootPhase::Address, UsbEvent::Command(Completion::Unbuilt)) => {
                text::append_text(&mut out, "drv-xhci: addr build fail\n");
                self.phase = Phase::Done;
            },
            (RootPhase::Address, UsbEvent::Command(Completion::TimedOut)) => {
                text::append_text(&mut out, "drv-xhci: addr dev timeout\n");
                self.phase = Phase::Done;
            },
            (RootPhase::Address, UsbEvent::Command(Completion::Completed { cc, .. })) => {
                let cc: u8 = *cc;
                if cc != 1 {
                    text::append_text(&mut out, "drv-xhci: addr dev cc=");
                    numerals::push_hex(&mut out, cc as u64);
                    text::append_text(&mut out, "\n");
                    self.phase = Phase::Done;
                } else {
                    text::append_text(&mut out, "drv-xhci: addr dev cc=0x1 ok\n");
                    self.phase = Phase::Root(RootPhase::FirstBytes);
                }
            },
            (RootPhase::FirstBytes, UsbEvent::Control(None, _)) => {
                text::append_text(&mut out, "drv-xhci: desc8 timeout\n");
                self.phase = Phase::Done;
            },
            (RootPhase::FirstBytes, UsbEvent::Control(Some((cc, _)), data)) => {
                let cc: u8 = *cc;
                if cc != 1 {
                    text::append_text(&mut out, "drv-xhci: desc8 cc=");
                    numerals::push_hex(&mut out, cc as u64);
                    text::append_text(&mut out, "\n");
                    self.phase = Phase::Done;
                } else if byte_at(data, 7) != 0 && byte_at(data, 7) as u16 != ep0_max_packet(self.root.speed) {
                    self.phase = Phase::Root(RootPhase::Evaluate { mps: byte_at(data, 7) as u16 });
                } else {
                    self.phase = Phase::Root(RootPhase::Descriptor);
                }
            },
            (RootPhase::Evaluate { .. }, UsbEvent::Command(Completion::Unbuilt)) => {
                text::append_text(&mut out, "drv-xhci: eval ep0 ctx fail\n");
                self.phase = Phase::Done;
            },
            (RootPhase::Evaluate { .. }, UsbEvent::Command(Completion::TimedOut)) => {
                text::append_text(&mut out, "drv-xhci: eval ctx timeout\n");
                self.phase = Phase::Done;
            },
            (RootPhase::Evaluate { mps }, UsbEvent::Command(Completion::Completed { cc, .. })) => {
                let cc: u8 = *cc;
                if cc != 1 {
                    text::append_text(&mut out, "drv-xhci: eval ctx cc=");
                    numerals::push_hex(&mut out, cc as u64);
                    text::append_text(&mut out, "\n");
                    self.phase = Phase::Done;
                } else {
                    text::append_text(&mut out, "drv-xhci: eval ctx cc=0x1 mps0=");
                    numerals::push_hex(&mut out, mps as u64);
                    text::append_text(&mut out, "\n");
                    self.phase = Phase::Root(RootPhase::Descriptor);
                }
            },
            (RootPhase::Descriptor, UsbEvent::Control(None, _)) => {
                self.phase = Phase::Root(RootPhase::Status);
            },
            (RootPhase::Descriptor, UsbEvent::Control(Some((cc, rem)), data)) => {
                let cc: u8 = *cc;
                let rem: u32 = *rem;
                text::append_text(&mut out, "drv-xhci: desc cc=");
                numerals::push_hex(&mut out, cc as u64);
                text::append_text(&mut out, " rem=");
                numerals::push_hex(&mut out, rem as u64);
                text::append_text(&mut out, " len=");
                numerals::push_hex(&mut out, byte_at(data, 0) as u64);
                text::append_text(&mut out, " type=");
                numerals::push_hex(&mut out, byte_at(data, 1) as u64);
                text::append_text(&mut out, " class=");
                numerals::push_hex(&mut out, byte_at(data, 4) as u64);
                text::append_text(&mut out, " mps0=");
                numerals::push_hex(&mut out, byte_at(data, 7) as u64);
                text::append_text(&mut out, " vid=");
                numerals::push_hex(&mut out, word_at(data, 8) as u64);
                text::append_text(&mut out, " pid=");
                numerals::push_hex(&mut out, word_at(data, 10) as u64);
                text::append_text(&mut out, "\n");
                self.class = byte_at(data, 4);
                self.phase = Phase::Root(RootPhase::ConfigHeader);
            },
            (RootPhase::Status, UsbEvent::Returned(a)) => {
                let a: u64 = *a;
                text::append_text(&mut out, "drv-xhci: desc timeout usbsts=");
                numerals::push_hex(&mut out, a as u64);
                text::append_text(&mut out, "\n");
                self.phase = Phase::Done;
            },
            (RootPhase::ConfigHeader, UsbEvent::Control(None, _)) => {
                text::append_text(&mut out, "drv-xhci: cfg header timeout\n");
                self.phase = Phase::Done;
            },
            (RootPhase::ConfigHeader, UsbEvent::Control(Some(_), data)) => {
                text::append_text(&mut out, "drv-xhci: cfg total=");
                numerals::push_hex(&mut out, word_at(data, 2) as u64);
                text::append_text(&mut out, " numif=");
                numerals::push_hex(&mut out, byte_at(data, 4) as u64);
                text::append_text(&mut out, "\n");
                self.phase = Phase::Root(RootPhase::Config { len: cap_len(word_at(data, 2)) });
            },
            (RootPhase::Config { .. }, UsbEvent::Control(None, _)) => {
                text::append_text(&mut out, "drv-xhci: cfg timeout\n");
                self.phase = Phase::Done;
            },
            (RootPhase::Config { len }, UsbEvent::Control(Some(_), data)) => {
                if self.class == USB_CLASS_HUB {
                    self.config = byte_at(data, 5);
                    self.phase = Phase::Root(RootPhase::FindHub { len });
                } else {
                    self.config = byte_at(data, 5);
                    self.phase = Phase::Root(RootPhase::FindHid { len });
                }
            },
            (RootPhase::FindHub { .. }, UsbEvent::Endpoint(None)) => {
                self.endpoint = None;
                self.phase = Phase::Hub(HubPhase::Descriptor);
            },
            (RootPhase::FindHub { .. }, UsbEvent::Endpoint(Some(ep))) => {
                let ep: Endpoint = *ep;
                self.endpoint = Some(ep);
                self.phase = Phase::Hub(HubPhase::Descriptor);
            },
            (RootPhase::FindHid { .. }, UsbEvent::Interface(None)) => {
                text::append_text(&mut out, "drv-xhci: no hid boot iface\n");
                self.phase = Phase::Done;
            },
            (RootPhase::FindHid { .. }, UsbEvent::Interface(Some(hid))) => {
                let hid: Hid = *hid;
                if hid.keyboard {
                    text::append_text(&mut out, "drv-xhci: hid if=");
                    numerals::push_hex(&mut out, hid.interface as u64);
                    text::append_text(&mut out, " proto=");
                    numerals::push_hex(&mut out, hid.protocol as u64);
                    text::append_text(&mut out, " ep=");
                    numerals::push_hex(&mut out, hid.endpoint.address as u64);
                    text::append_text(&mut out, " mps=");
                    numerals::push_hex(&mut out, hid.endpoint.max_packet as u64);
                    text::append_text(&mut out, " interval=");
                    numerals::push_hex(&mut out, hid.endpoint.interval as u64);
                    text::append_text(&mut out, "\n");
                    self.hid = hid;
                    self.dev = self.root;
                    self.phase = Phase::Keys(KeyPhase::SetConfig);
                } else {
                    text::append_text(&mut out, "drv-xhci: hid if=");
                    numerals::push_hex(&mut out, hid.interface as u64);
                    text::append_text(&mut out, " proto=");
                    numerals::push_hex(&mut out, hid.protocol as u64);
                    text::append_text(&mut out, " ep=");
                    numerals::push_hex(&mut out, hid.endpoint.address as u64);
                    text::append_text(&mut out, " mps=");
                    numerals::push_hex(&mut out, hid.endpoint.max_packet as u64);
                    text::append_text(&mut out, " interval=");
                    numerals::push_hex(&mut out, hid.endpoint.interval as u64);
                    text::append_text(&mut out, "\n");
                    self.phase = Phase::Done;
                }
            },
            _ => {},
        }
        assert(out@ =~= old(self).after_root(p, e@).1);
        out
    }

    fn advance_hub(&mut self, p: HubPhase, e: &UsbEvent) -> (out: Vec<u8>)
        requires
            old(self).phase == Phase::Hub(p),
        ensures
            (*final(self), out@) == old(self).after_hub(p, e@),
    {
        let mut out: Vec<u8> = Vec::new();
        match (p, e) {
            (HubPhase::Descriptor, UsbEvent::Control(None, _)) => {
                text::append_text(&mut out, "drv-xhci: hub desc timeout\n");
                self.phase = Phase::Done;
            },
            (HubPhase::Descriptor, UsbEvent::Control(Some((cc, _)), data)) => {
                let cc: u8 = *cc;
                if cc != 1 {
                    text::append_text(&mut out, "drv-xhci: hub desc cc=");
                    numerals::push_hex(&mut out, cc as u64);
                    text::append_text(&mut out, "\n");
                    self.phase = Phase::Done;
                } else {
                    text::append_text(&mut out, "drv-xhci: hub ports=");
                    numerals::push_hex(&mut out, byte_at(data, 2) as u64);
                    text::append_text(&mut out, "\n");
                    self.hub_ports = byte_at(data, 2);
                    self.phase = Phase::Hub(HubPhase::Begin);
                }
            },
            (HubPhase::Begin, UsbEvent::Returned(a)) => {
                let a: u64 = *a;
                self.end_ns = (a).saturating_add(HUB_PASS_BUDGET_NS);
                self.phase = Phase::Hub(HubPhase::SetConfig);
            },
            (HubPhase::SetConfig, UsbEvent::Control(None, _)) => {
                text::append_text(&mut out, "drv-xhci: hub set config timeout\n");
                self.phase = Phase::Done;
            },
            (HubPhase::SetConfig, UsbEvent::Control(Some((cc, _)), _)) => {
                let cc: u8 = *cc;
                if cc != 1 {
                    text::append_text(&mut out, "drv-xhci: hub set config cc=");
                    numerals::push_hex(&mut out, cc as u64);
                    text::append_text(&mut out, "\n");
                    self.phase = Phase::Done;
                } else if self.endpoint.is_some() {
                    text::append_text(&mut out, "drv-xhci: hub set config cc=0x1\n");
                    self.phase = Phase::Hub(HubPhase::Configure { endpoint: self.endpoint.unwrap() });
                } else {
                    text::append_text(&mut out, "drv-xhci: hub set config cc=0x1\n");
                    text::append_text(&mut out, "drv-xhci: hub no int ep\n");
                    self.phase = self.to_first_power();
                }
            },
            (HubPhase::Configure { .. }, UsbEvent::Command(Completion::Unbuilt)) => {
                self.phase = self.to_first_power();
            },
            (HubPhase::Configure { .. }, UsbEvent::Command(Completion::TimedOut)) => {
                text::append_text(&mut out, "drv-xhci: config ep timeout\n");
                self.phase = self.to_first_power();
            },
            (HubPhase::Configure { .. }, UsbEvent::Command(Completion::Completed { cc, index, .. })) => {
                let cc: u8 = *cc;
                let index: u8 = *index;
                if cc != 1 {
                    text::append_text(&mut out, "drv-xhci: config ep cc=");
                    numerals::push_hex(&mut out, cc as u64);
                    text::append_text(&mut out, "\n");
                    self.phase = self.to_first_power();
                } else {
                    text::append_text(&mut out, "drv-xhci: hub config ep cc=0x1\n");
                    self.hub_index = Some(index);
                    self.phase = self.to_first_power();
                }
            },
            (HubPhase::PowerClock { port }, UsbEvent::Returned(a)) => {
                let a: u64 = *a;
                if a >= self.end_ns {
                    text::append_text(&mut out, "drv-xhci: hub pass budget spent (power)\n");
                    self.phase = Phase::Done;
                } else {
                    self.phase = Phase::Hub(HubPhase::Power { port });
                }
            },
            (HubPhase::Power { port }, UsbEvent::Control(_, _)) => {
                if port < self.hub_ports {
                    self.phase = Phase::Hub(HubPhase::PowerClock { port: port + 1 });
                } else {
                    self.phase = Phase::Hub(HubPhase::Settle);
                }
            },
            (HubPhase::Settle, UsbEvent::Returned(_)) => {
                if self.hub_index.is_some() {
                    self.phase = Phase::Hub(HubPhase::ArmStatus { index: self.hub_index.unwrap() });
                } else {
                    push_no_ports(&mut out, self.hub_ports);
                    self.phase = self.to_first_scan();
                }
            },
            (HubPhase::ArmStatus { .. }, UsbEvent::Ready(ok)) => {
                let ok: bool = *ok;
                if ok {
                    self.phase = Phase::Hub(HubPhase::StatusClock { round: 0 });
                } else {
                    push_no_ports(&mut out, self.hub_ports);
                    self.phase = self.to_first_scan();
                }
            },
            (HubPhase::StatusClock { round }, UsbEvent::Returned(a)) => {
                let a: u64 = *a;
                if a >= self.end_ns {
                    text::append_text(&mut out, "drv-xhci: hub status idle\n");
                    push_no_ports(&mut out, self.hub_ports);
                    self.phase = self.to_first_scan();
                } else {
                    self.phase = Phase::Hub(HubPhase::Status { round });
                }
            },
            (HubPhase::Status { round }, UsbEvent::Transfer(None, _, _)) => {
                if round < HUB_STATUS_WAIT_ROUNDS - 1 {
                    self.phase = Phase::Hub(HubPhase::StatusClock { round: round + 1 });
                } else {
                    text::append_text(&mut out, "drv-xhci: hub status idle\n");
                    push_no_ports(&mut out, self.hub_ports);
                    self.phase = self.to_first_scan();
                }
            },
            (HubPhase::Status { .. }, UsbEvent::Transfer(Some(cc), report, _)) => {
                let cc: u8 = *cc;
                text::append_text(&mut out, "drv-xhci: hub status cc=");
                numerals::push_hex(&mut out, cc as u64);
                text::append_text(&mut out, " ");
                push_byte_list(&mut out, report);
                text::append_text(&mut out, "\n");
                push_no_ports(&mut out, self.hub_ports);
                self.phase = self.to_first_scan();
            },
            (HubPhase::ScanClock { port }, UsbEvent::Returned(a)) => {
                let a: u64 = *a;
                if a >= self.end_ns {
                    text::append_text(&mut out, "drv-xhci: hub pass budget spent (scan)\n");
                    text::append_text(&mut out, "drv-xhci: hub scan done\n");
                    self.phase = to_reach(self.down);
                } else {
                    self.phase = Phase::Hub(HubPhase::Scan { port });
                }
            },
            (HubPhase::Scan { port }, UsbEvent::Control(None, _)) => {
                if port < self.hub_ports {
                    text::append_text(&mut out, "drv-xhci: hub port status timeout\n");
                    self.phase = Phase::Hub(HubPhase::ScanClock { port: port + 1 });
                } else {
                    text::append_text(&mut out, "drv-xhci: hub port status timeout\n");
                    text::append_text(&mut out, "drv-xhci: hub scan done\n");
                    self.phase = to_reach(self.down);
                }
            },
            (HubPhase::Scan { port }, UsbEvent::Control(Some((cc, _)), data)) => {
                let cc: u8 = *cc;
                if cc != 1 && port < self.hub_ports {
                    text::append_text(&mut out, "drv-xhci: hub port status cc=");
                    numerals::push_hex(&mut out, cc as u64);
                    text::append_text(&mut out, "\n");
                    self.phase = Phase::Hub(HubPhase::ScanClock { port: port + 1 });
                } else if cc != 1 {
                    text::append_text(&mut out, "drv-xhci: hub port status cc=");
                    numerals::push_hex(&mut out, cc as u64);
                    text::append_text(&mut out, "\n");
                    text::append_text(&mut out, "drv-xhci: hub scan done\n");
                    self.phase = to_reach(self.down);
                } else if port < self.hub_ports {
                    text::append_text(&mut out, "drv-xhci: hub port");
                    numerals::push_hex(&mut out, port as u64);
                    text::append_text(&mut out, " status=");
                    numerals::push_hex(&mut out, word_at(data, 0) as u64);
                    text::append_text(&mut out, " conn=");
                    numerals::push_hex(&mut out, (word_at(data, 0) % 2) as u64);
                    text::append_text(&mut out, "\n");
                    self.down = note_port(self.down, port, word_at(data, 0));
                    self.phase = Phase::Hub(HubPhase::ScanClock { port: port + 1 });
                } else {
                    text::append_text(&mut out, "drv-xhci: hub port");
                    numerals::push_hex(&mut out, port as u64);
                    text::append_text(&mut out, " status=");
                    numerals::push_hex(&mut out, word_at(data, 0) as u64);
                    text::append_text(&mut out, " conn=");
                    numerals::push_hex(&mut out, (word_at(data, 0) % 2) as u64);
                    text::append_text(&mut out, "\n");
                    text::append_text(&mut out, "drv-xhci: hub scan done\n");
                    self.down = note_port(self.down, port, word_at(data, 0));
                    self.phase = to_reach(note_port(self.down, port, word_at(data, 0)));
                }
            },
            (HubPhase::Reach { port }, UsbEvent::Returned(a)) => {
                let a: u64 = *a;
                if a >= self.end_ns {
                    text::append_text(&mut out, "drv-xhci: hub pass budget spent; downstream deferred\n");
                    self.phase = Phase::Done;
                } else {
                    self.phase = Phase::Down(DownPhase::Reset { port });
                }
            },
            _ => {},
        }
        assert(out@ =~= old(self).after_hub(p, e@).1);
        out
    }

    fn advance_down(&mut self, p: DownPhase, e: &UsbEvent) -> (out: Vec<u8>)
        requires
            old(self).phase == Phase::Down(p),
        ensures
            (*final(self), out@) == old(self).after_down(p, e@),
    {
        let mut out: Vec<u8> = Vec::new();
        match (p, e) {
            (DownPhase::Reset { .. }, UsbEvent::Control(None, _)) => {
                text::append_text(&mut out, "drv-xhci: hub port reset timeout\n");
                self.phase = Phase::Done;
            },
            (DownPhase::Reset { port }, UsbEvent::Control(Some((cc, _)), _)) => {
                let cc: u8 = *cc;
                if cc != 1 {
                    text::append_text(&mut out, "drv-xhci: hub port reset cc=");
                    numerals::push_hex(&mut out, cc as u64);
                    text::append_text(&mut out, "\n");
                    self.phase = Phase::Done;
                } else {
                    self.phase = Phase::Down(DownPhase::Clock { port, round: 0 });
                }
            },
            (DownPhase::Clock { port, round }, UsbEvent::Returned(a)) => {
                let a: u64 = *a;
                if a >= self.end_ns {
                    text::append_text(&mut out, "drv-xhci: hub pass budget spent (reset)\n");
                    self.phase = Phase::Done;
                } else {
                    self.phase = Phase::Down(DownPhase::Delay { port, round });
                }
            },
            (DownPhase::Delay { port, round }, UsbEvent::Returned(_)) => {
                self.phase = Phase::Down(DownPhase::Poll { port, round });
            },
            (DownPhase::Poll { port, round }, UsbEvent::Control(None, _)) => {
                if round < HUB_RESET_POLL_ROUNDS - 1 {
                    self.phase = Phase::Down(DownPhase::Clock { port, round: round + 1 });
                } else {
                    text::append_text(&mut out, "drv-xhci: hub port never enabled\n");
                    self.phase = Phase::Done;
                }
            },
            (DownPhase::Poll { port, round }, UsbEvent::Control(Some(_), data)) => {
                if hub_port_speed(word_at(data, 0)).is_some() {
                    text::append_text(&mut out, "drv-xhci: hub dev port=");
                    numerals::push_hex(&mut out, port as u64);
                    text::append_text(&mut out, " speed=");
                    numerals::push_hex(&mut out, hub_port_speed(word_at(data, 0)).unwrap() as u64);
                    text::append_text(&mut out, "\n");
                    self.phase = Phase::Down(DownPhase::Acknowledge { port, speed: hub_port_speed(word_at(data, 0)).unwrap() });
                } else if round < HUB_RESET_POLL_ROUNDS - 1 {
                    self.phase = Phase::Down(DownPhase::Clock { port, round: round + 1 });
                } else {
                    text::append_text(&mut out, "drv-xhci: hub port never enabled\n");
                    self.phase = Phase::Done;
                }
            },
            (DownPhase::Acknowledge { port, speed }, UsbEvent::Control(_, _)) => {
                self.phase = Phase::Down(DownPhase::Alloc { port, speed });
            },
            (DownPhase::Alloc { port, speed }, UsbEvent::Page(raw, phys)) => {
                let raw: u64 = *raw;
                let phys: u64 = *phys;
                if raw == u64::MAX || phys == 0 {
                    text::append_text(&mut out, "drv-xhci: hub dev vmo fail\n");
                    self.phase = Phase::Done;
                } else {
                    self.phase = Phase::Down(DownPhase::MapPage { port, speed, raw, phys });
                }
            },
            (DownPhase::MapPage { port, speed, phys, .. }, UsbEvent::Returned(a)) => {
                let a: u64 = *a;
                if a != 0 {
                    text::append_text(&mut out, "drv-xhci: hub dev map fail\n");
                    self.phase = Phase::Done;
                } else {
                    self.phase = Phase::Down(DownPhase::Enable { port, speed, phys });
                }
            },
            (DownPhase::Enable { .. }, UsbEvent::Command(Completion::Unbuilt)) => {
                text::append_text(&mut out, "drv-xhci: hub dev enable build fail\n");
                self.phase = Phase::Done;
            },
            (DownPhase::Enable { .. }, UsbEvent::Command(Completion::TimedOut)) => {
                text::append_text(&mut out, "drv-xhci: hub dev enable timeout\n");
                self.phase = Phase::Done;
            },
            (DownPhase::Enable { port, speed, phys }, UsbEvent::Command(Completion::Completed { cc, slot, .. })) => {
                let cc: u8 = *cc;
                let slot: u8 = *slot;
                if cc != 1 {
                    text::append_text(&mut out, "drv-xhci: hub dev enable cc=");
                    numerals::push_hex(&mut out, cc as u64);
                    text::append_text(&mut out, "\n");
                    self.phase = Phase::Done;
                } else if slot == 0 || slot >= 32 {
                    text::append_text(&mut out, "drv-xhci: hub dev slot out of range\n");
                    self.phase = Phase::Done;
                } else {
                    text::append_text(&mut out, "drv-xhci: hub dev slot=");
                    numerals::push_hex(&mut out, slot as u64);
                    text::append_text(&mut out, "\n");
                    self.dev = downstream_device(self.root, port, speed, slot, DEV2_VA, phys);
                    self.phase = Phase::Down(DownPhase::Contexts);
                }
            },
            (DownPhase::Contexts, UsbEvent::Built(built)) => {
                let built: Built = *built;
                if built == Built::NoRing {
                    text::append_text(&mut out, "drv-xhci: hub dev ep0 ring fail\n");
                    self.phase = Phase::Done;
                } else if built == Built::NoEndpoint {
                    text::append_text(&mut out, "drv-xhci: hub dev ep0 ctx fail\n");
                    self.phase = Phase::Done;
                } else if built != Built::Ready {
                    text::append_text(&mut out, "drv-xhci: hub dev ctx offset fail\n");
                    self.phase = Phase::Done;
                } else {
                    self.phase = Phase::Down(DownPhase::Address);
                }
            },
            (DownPhase::Address, UsbEvent::Command(Completion::Unbuilt)) => {
                text::append_text(&mut out, "drv-xhci: hub dev addr build fail\n");
                self.phase = Phase::Done;
            },
            (DownPhase::Address, UsbEvent::Command(Completion::TimedOut)) => {
                text::append_text(&mut out, "drv-xhci: hub dev addr timeout\n");
                self.phase = Phase::Done;
            },
            (DownPhase::Address, UsbEvent::Command(Completion::Completed { cc, .. })) => {
                let cc: u8 = *cc;
                if cc != 1 {
                    text::append_text(&mut out, "drv-xhci: hub dev addr cc=");
                    numerals::push_hex(&mut out, cc as u64);
                    text::append_text(&mut out, "\n");
                    self.phase = Phase::Done;
                } else {
                    text::append_text(&mut out, "drv-xhci: hub dev addr cc=0x1 ok\n");
                    self.phase = Phase::Down(DownPhase::FirstBytes);
                }
            },
            (DownPhase::FirstBytes, UsbEvent::Control(None, _)) => {
                text::append_text(&mut out, "drv-xhci: dev desc8 timeout\n");
                self.phase = Phase::Done;
            },
            (DownPhase::FirstBytes, UsbEvent::Control(Some((cc, _)), data)) => {
                let cc: u8 = *cc;
                if cc != 1 {
                    text::append_text(&mut out, "drv-xhci: dev desc8 cc=");
                    numerals::push_hex(&mut out, cc as u64);
                    text::append_text(&mut out, "\n");
                    self.phase = Phase::Done;
                } else if byte_at(data, 7) != 0 && byte_at(data, 7) as u16 != ep0_max_packet(self.dev.speed) {
                    self.phase = Phase::Down(DownPhase::Evaluate { mps: byte_at(data, 7) as u16 });
                } else {
                    self.phase = Phase::Down(DownPhase::Descriptor);
                }
            },
            (DownPhase::Evaluate { .. }, UsbEvent::Command(Completion::Unbuilt)) => {
                self.phase = Phase::Done;
            },
            (DownPhase::Evaluate { .. }, UsbEvent::Command(Completion::TimedOut)) => {
                text::append_text(&mut out, "drv-xhci: dev eval ctx timeout\n");
                self.phase = Phase::Done;
            },
            (DownPhase::Evaluate { mps }, UsbEvent::Command(Completion::Completed { cc, .. })) => {
                let cc: u8 = *cc;
                if cc != 1 {
                    text::append_text(&mut out, "drv-xhci: dev eval ctx cc=");
                    numerals::push_hex(&mut out, cc as u64);
                    text::append_text(&mut out, "\n");
                    self.phase = Phase::Done;
                } else {
                    text::append_text(&mut out, "drv-xhci: dev eval ctx mps0=");
                    numerals::push_hex(&mut out, mps as u64);
                    text::append_text(&mut out, "\n");
                    self.phase = Phase::Down(DownPhase::Descriptor);
                }
            },
            (DownPhase::Descriptor, UsbEvent::Control(None, _)) => {
                text::append_text(&mut out, "drv-xhci: dev desc timeout\n");
                self.phase = Phase::Done;
            },
            (DownPhase::Descriptor, UsbEvent::Control(Some((cc, _)), data)) => {
                let cc: u8 = *cc;
                if cc != 1 {
                    text::append_text(&mut out, "drv-xhci: dev desc cc=");
                    numerals::push_hex(&mut out, cc as u64);
                    text::append_text(&mut out, "\n");
                    self.phase = Phase::Done;
                } else {
                    text::append_text(&mut out, "drv-xhci: dev desc vid=");
                    numerals::push_hex(&mut out, word_at(data, 8) as u64);
                    text::append_text(&mut out, " pid=");
                    numerals::push_hex(&mut out, word_at(data, 10) as u64);
                    text::append_text(&mut out, "\n");
                    self.phase = Phase::Down(DownPhase::ConfigHeader);
                }
            },
            (DownPhase::ConfigHeader, UsbEvent::Control(None, _)) => {
                self.phase = Phase::Done;
            },
            (DownPhase::ConfigHeader, UsbEvent::Control(Some(_), data)) => {
                self.phase = Phase::Down(DownPhase::Config { len: cap_len(word_at(data, 2)) });
            },
            (DownPhase::Config { .. }, UsbEvent::Control(None, _)) => {
                self.phase = Phase::Done;
            },
            (DownPhase::Config { len }, UsbEvent::Control(Some(_), data)) => {
                self.config = byte_at(data, 5);
                self.phase = Phase::Down(DownPhase::FindHid { len });
            },
            (DownPhase::FindHid { .. }, UsbEvent::Interface(None)) => {
                text::append_text(&mut out, "drv-xhci: dev no hid boot iface\n");
                self.phase = Phase::Done;
            },
            (DownPhase::FindHid { .. }, UsbEvent::Interface(Some(hid))) => {
                let hid: Hid = *hid;
                if hid.keyboard {
                    text::append_text(&mut out, "drv-xhci: dev hid if=");
                    numerals::push_hex(&mut out, hid.interface as u64);
                    text::append_text(&mut out, " proto=");
                    numerals::push_hex(&mut out, hid.protocol as u64);
                    text::append_text(&mut out, " ep=");
                    numerals::push_hex(&mut out, hid.endpoint.address as u64);
                    text::append_text(&mut out, "\n");
                    self.hid = hid;
                    self.phase = Phase::Keys(KeyPhase::SetConfig);
                } else {
                    text::append_text(&mut out, "drv-xhci: dev hid if=");
                    numerals::push_hex(&mut out, hid.interface as u64);
                    text::append_text(&mut out, " proto=");
                    numerals::push_hex(&mut out, hid.protocol as u64);
                    text::append_text(&mut out, " ep=");
                    numerals::push_hex(&mut out, hid.endpoint.address as u64);
                    text::append_text(&mut out, "\n");
                    text::append_text(&mut out, "drv-xhci: hub dev not a boot keyboard\n");
                    self.phase = Phase::Done;
                }
            },
            _ => {},
        }
        assert(out@ =~= old(self).after_down(p, e@).1);
        out
    }

    fn advance_keys(&mut self, p: KeyPhase, e: &UsbEvent) -> (out: Vec<u8>)
        requires
            old(self).phase == Phase::Keys(p),
        ensures
            (*final(self), out@) == old(self).after_keys(p, e@),
    {
        let mut out: Vec<u8> = Vec::new();
        match (p, e) {
            (KeyPhase::SetConfig, UsbEvent::Control(None, _)) => {
                text::append_text(&mut out, "drv-xhci: set config timeout\n");
                self.phase = Phase::Done;
            },
            (KeyPhase::SetConfig, UsbEvent::Control(Some((cc, _)), _)) => {
                let cc: u8 = *cc;
                if cc != 1 {
                    text::append_text(&mut out, "drv-xhci: set config cc=");
                    numerals::push_hex(&mut out, cc as u64);
                    text::append_text(&mut out, "\n");
                    self.phase = Phase::Done;
                } else {
                    text::append_text(&mut out, "drv-xhci: set config cc=0x1\n");
                    self.phase = Phase::Keys(KeyPhase::Configure);
                }
            },
            (KeyPhase::Configure, UsbEvent::Command(Completion::Unbuilt)) => {
                self.phase = Phase::Done;
            },
            (KeyPhase::Configure, UsbEvent::Command(Completion::TimedOut)) => {
                text::append_text(&mut out, "drv-xhci: config ep timeout\n");
                self.phase = Phase::Done;
            },
            (KeyPhase::Configure, UsbEvent::Command(Completion::Completed { cc, index, .. })) => {
                let cc: u8 = *cc;
                let index: u8 = *index;
                if cc != 1 {
                    text::append_text(&mut out, "drv-xhci: config ep cc=");
                    numerals::push_hex(&mut out, cc as u64);
                    text::append_text(&mut out, "\n");
                    self.phase = Phase::Done;
                } else {
                    text::append_text(&mut out, "drv-xhci: config ep cc=0x1\n");
                    self.index = index;
                    self.phase = Phase::Keys(KeyPhase::SetProtocol);
                }
            },
            (KeyPhase::SetProtocol, UsbEvent::Control(None, _)) => {
                text::append_text(&mut out, "drv-xhci: set proto timeout\n");
                self.phase = Phase::Done;
            },
            (KeyPhase::SetProtocol, UsbEvent::Control(Some((cc, _)), _)) => {
                let cc: u8 = *cc;
                if cc != 1 {
                    text::append_text(&mut out, "drv-xhci: set proto cc=");
                    numerals::push_hex(&mut out, cc as u64);
                    text::append_text(&mut out, "\n");
                    self.phase = Phase::Done;
                } else {
                    text::append_text(&mut out, "drv-xhci: set proto cc=0x1\n");
                    self.phase = Phase::Keys(KeyPhase::Ring);
                }
            },
            (KeyPhase::Ring, UsbEvent::Ready(ok)) => {
                let ok: bool = *ok;
                if !ok {
                    text::append_text(&mut out, "drv-xhci: int ring fail\n");
                    self.phase = Phase::Done;
                } else if self.irq == 0 {
                    text::append_text(&mut out, "drv-xhci: keyboard found but no irq granted; not serving\n");
                    self.phase = Phase::Done;
                } else {
                    self.phase = Phase::Keys(KeyPhase::Interrupt);
                }
            },
            (KeyPhase::Interrupt, UsbEvent::Returned(a)) => {
                let a: u64 = *a;
                if a == 0 || a == u64::MAX {
                    text::append_text(&mut out, "drv-xhci: interrupt create fail; polling\n");
                    text::append_text(&mut out, "drv-xhci: keyboard armed; press keys\n");
                    self.phase = Phase::Keys(KeyPhase::PollQueue);
                } else {
                    self.interrupt = to_handle(a);
                    self.phase = Phase::Keys(KeyPhase::CreatePort);
                }
            },
            (KeyPhase::CreatePort, UsbEvent::Returned(a)) => {
                let a: u64 = *a;
                if a == 0 || a == u64::MAX {
                    text::append_text(&mut out, "drv-xhci: irq port create fail\n");
                    self.port = None;
                    self.phase = Phase::Keys(KeyPhase::Arm);
                } else {
                    self.phase = Phase::Keys(KeyPhase::BindPort { target: to_handle(a) });
                }
            },
            (KeyPhase::BindPort { target }, UsbEvent::Returned(a)) => {
                let a: u64 = *a;
                if a == 0 {
                    self.port = Some(target);
                    self.phase = Phase::Keys(KeyPhase::Arm);
                } else {
                    text::append_text(&mut out, "drv-xhci: irq port bind fail\n");
                    self.port = None;
                    self.phase = Phase::Keys(KeyPhase::Arm);
                }
            },
            (KeyPhase::Arm, UsbEvent::Returned(_)) => {
                text::append_text(&mut out, "drv-xhci: keyboard irq-driven port=");
                push_flag(&mut out, self.port.is_some());
                text::append_text(&mut out, "; type at the shell\n");
                self.pending = false;
                self.phase = Phase::Keys(KeyPhase::Queue);
            },
            (KeyPhase::Queue, UsbEvent::Queued(queued)) => {
                let queued: Queued = *queued;
                if queued == Queued::Unbuilt {
                    text::append_text(&mut out, "drv-xhci: normal trb fail\n");
                    self.phase = Phase::Done;
                } else if queued == Queued::Full {
                    text::append_text(&mut out, "drv-xhci: int ring full; draining\n");
                    self.phase = Phase::Keys(KeyPhase::Wait);
                } else {
                    self.pending = true;
                    self.phase = Phase::Keys(KeyPhase::Wait);
                }
            },
            (KeyPhase::Wait, UsbEvent::Returned(_)) => {
                self.phase = Phase::Keys(KeyPhase::Service);
            },
            (KeyPhase::Service, UsbEvent::Transfer(None, _, _)) => {
                self.phase = Phase::Keys(KeyPhase::Complete);
            },
            (KeyPhase::Service, UsbEvent::Transfer(Some(_), _, _)) => {
                self.pending = false;
                self.phase = Phase::Keys(KeyPhase::Complete);
            },
            (KeyPhase::Complete, UsbEvent::Returned(_)) => {
                if self.pending {
                    self.phase = Phase::Keys(KeyPhase::Wait);
                } else {
                    self.phase = Phase::Keys(KeyPhase::Queue);
                }
            },
            (KeyPhase::PollQueue, UsbEvent::Queued(queued)) => {
                let queued: Queued = *queued;
                if queued == Queued::Unbuilt {
                    text::append_text(&mut out, "drv-xhci: normal trb fail\n");
                    self.phase = Phase::Done;
                } else if queued == Queued::Full {
                    text::append_text(&mut out, "drv-xhci: int enqueue fail\n");
                    self.phase = Phase::Done;
                } else {
                    self.phase = Phase::Keys(KeyPhase::Poll { round: 0 });
                }
            },
            (KeyPhase::Poll { round }, UsbEvent::Transfer(None, _, _)) => {
                if round < REPORT_WAIT_ROUNDS - 1 {
                    self.phase = Phase::Keys(KeyPhase::Poll { round: round + 1 });
                } else {
                    text::append_text(&mut out, "drv-xhci: report idle\n");
                    text::append_text(&mut out, "drv-xhci: keyboard read done\n");
                    self.phase = Phase::Done;
                }
            },
            (KeyPhase::Poll { .. }, UsbEvent::Transfer(Some(cc), report, shown)) => {
                let cc: u8 = *cc;
                if self.received < KEYBOARD_REPORT_LIMIT - 1 {
                    text::append_text(&mut out, "drv-xhci: report cc=");
                    numerals::push_hex(&mut out, cc as u64);
                    text::append_text(&mut out, " ");
                    push_byte_list(&mut out, report);
                    push_quoted(&mut out, shown);
                    text::append_text(&mut out, "\n");
                    self.received = self.received + 1;
                    self.phase = Phase::Keys(KeyPhase::PollQueue);
                } else {
                    text::append_text(&mut out, "drv-xhci: report cc=");
                    numerals::push_hex(&mut out, cc as u64);
                    text::append_text(&mut out, " ");
                    push_byte_list(&mut out, report);
                    push_quoted(&mut out, shown);
                    text::append_text(&mut out, "\n");
                    text::append_text(&mut out, "drv-xhci: keyboard read done\n");
                    self.phase = Phase::Done;
                }
            },
            _ => {},
        }
        assert(out@ =~= old(self).after_keys(p, e@).1);
        out
    }

    /// Takes what came back and returns what to log.
    pub fn advance(&mut self, e: &UsbEvent) -> (out: Vec<u8>)
        ensures
            (*final(self), out@) == old(self).after(e@),
    {
        match self.phase {
            Phase::Root(p) => self.advance_root(p, e),
            Phase::Hub(p) => self.advance_hub(p, e),
            Phase::Down(p) => self.advance_down(p, e),
            Phase::Keys(p) => self.advance_keys(p, e),
            Phase::Done => Vec::new(),
        }
    }
}

impl Bringup {
    /// What the driver waits for.
    pub open spec fn call_of(self) -> UsbCall {
        match self.phase {
            Phase::Root(p) => self.root_call(p),
            Phase::Hub(p) => self.hub_call(p),
            Phase::Down(p) => self.down_call(p),
            Phase::Keys(p) => self.key_call(p),
            Phase::Done => UsbCall::Nothing,
        }
    }

    pub open spec fn root_call(self, p: RootPhase) -> UsbCall {
        match p {
            RootPhase::Alloc => UsbCall::AllocPage,
            RootPhase::MapPage { raw } => UsbCall::MapPage { raw, va: ENUM_VA },
            RootPhase::Port => UsbCall::FindPort,
            RootPhase::Enable => UsbCall::Command(Command::EnableSlot),
            RootPhase::Contexts => UsbCall::BuildContexts {
                dev: self.root,
                mps: first_packet_size(self.root.speed),
            },
            RootPhase::Address => UsbCall::Command(Command::AddressDevice { dev: self.root }),
            RootPhase::FirstBytes => UsbCall::Control {
                dev: self.root,
                setup: Setup::DeviceDescriptor { len: 8 },
            },
            RootPhase::Evaluate { mps } => UsbCall::Command(
                Command::EvaluateContext {
                    dev: self.root,
                    mps,
                },
            ),
            RootPhase::Descriptor => UsbCall::Control {
                dev: self.root,
                setup: Setup::DeviceDescriptor { len: DEVICE_DESCRIPTOR_LEN },
            },
            RootPhase::Status => UsbCall::ReadStatus,
            RootPhase::ConfigHeader => UsbCall::Control {
                dev: self.root,
                setup: Setup::ConfigDescriptor { len: 9 },
            },
            RootPhase::Config { len } => UsbCall::Control {
                dev: self.root,
                setup: Setup::ConfigDescriptor { len },
            },
            RootPhase::FindHub { len } => UsbCall::FindInterrupt { len },
            RootPhase::FindHid { len } => UsbCall::FindHid { len },
        }
    }

    pub open spec fn hub_call(self, p: HubPhase) -> UsbCall {
        match p {
            HubPhase::Descriptor => UsbCall::Control {
                dev: self.root,
                setup: Setup::HubDescriptor { super_speed: self.root.speed >= 4 },
            },
            HubPhase::Begin => UsbCall::Clock,
            HubPhase::SetConfig => UsbCall::Control {
                dev: self.root,
                setup: Setup::SetConfiguration { value: self.config },
            },
            HubPhase::Configure { endpoint } => UsbCall::Command(
                Command::ConfigureEndpoint {
                    dev: self.root,
                    endpoint,
                },
            ),
            HubPhase::PowerClock { .. } => UsbCall::Clock,
            HubPhase::Power { port } => UsbCall::Control {
                dev: self.root,
                setup: Setup::SetPortFeature { feature: HUB_FEATURE_PORT_POWER, port },
            },
            HubPhase::Settle => UsbCall::Delay { spins: POWER_SETTLE_SPINS },
            HubPhase::ArmStatus { index } => UsbCall::ArmStatus { dev: self.root, index },
            HubPhase::StatusClock { .. } => UsbCall::Clock,
            HubPhase::Status { .. } => UsbCall::Poll {
                slot: self.root.slot,
                limit: IRQ_EVENT_DRAIN_LIMIT,
            },
            HubPhase::ScanClock { .. } => UsbCall::Clock,
            HubPhase::Scan { port } => UsbCall::Control {
                dev: self.root,
                setup: Setup::PortStatus { port },
            },
            HubPhase::Reach { .. } => UsbCall::Clock,
        }
    }

    pub open spec fn down_call(self, p: DownPhase) -> UsbCall {
        match p {
            DownPhase::Reset { port } => UsbCall::Control {
                dev: self.root,
                setup: Setup::SetPortFeature { feature: HUB_FEATURE_PORT_RESET, port },
            },
            DownPhase::Clock { .. } => UsbCall::Clock,
            DownPhase::Delay { .. } => UsbCall::Delay { spins: RESET_SETTLE_SPINS },
            DownPhase::Poll { port, .. } => UsbCall::Control {
                dev: self.root,
                setup: Setup::PortStatus { port },
            },
            DownPhase::Acknowledge { port, .. } => UsbCall::Control {
                dev: self.root,
                setup: Setup::ClearPortFeature { feature: HUB_FEATURE_C_PORT_RESET, port },
            },
            DownPhase::Alloc { .. } => UsbCall::AllocPage,
            DownPhase::MapPage { raw, .. } => UsbCall::MapPage { raw, va: DEV2_VA },
            DownPhase::Enable { .. } => UsbCall::Command(Command::EnableSlot),
            DownPhase::Contexts => UsbCall::BuildContexts {
                dev: self.dev,
                mps: first_packet_size(self.dev.speed),
            },
            DownPhase::Address => UsbCall::Command(Command::AddressDevice { dev: self.dev }),
            DownPhase::FirstBytes => UsbCall::Control {
                dev: self.dev,
                setup: Setup::DeviceDescriptor { len: 8 },
            },
            DownPhase::Evaluate { mps } => UsbCall::Command(
                Command::EvaluateContext {
                    dev: self.dev,
                    mps,
                },
            ),
            DownPhase::Descriptor => UsbCall::Control {
                dev: self.dev,
                setup: Setup::DeviceDescriptor { len: DEVICE_DESCRIPTOR_LEN },
            },
            DownPhase::ConfigHeader => UsbCall::Control {
                dev: self.dev,
                setup: Setup::ConfigDescriptor { len: 9 },
            },
            DownPhase::Config { len } => UsbCall::Control {
                dev: self.dev,
                setup: Setup::ConfigDescriptor { len },
            },
            DownPhase::FindHid { len } => UsbCall::FindHid { len },
        }
    }

    pub open spec fn key_call(self, p: KeyPhase) -> UsbCall {
        match p {
            KeyPhase::SetConfig => UsbCall::Control {
                dev: self.dev,
                setup: Setup::SetConfiguration { value: self.config },
            },
            KeyPhase::Configure => UsbCall::Command(
                Command::ConfigureEndpoint {
                    dev: self.dev,
                    endpoint: self.hid.endpoint,
                },
            ),
            KeyPhase::SetProtocol => UsbCall::Control {
                dev: self.dev,
                setup: Setup::SetBootProtocol { interface: self.hid.interface },
            },
            KeyPhase::Ring => UsbCall::MakeRing { dev: self.dev },
            KeyPhase::Interrupt => UsbCall::CreateInterrupt { irq: self.irq },
            KeyPhase::CreatePort => UsbCall::CreatePort,
            KeyPhase::BindPort { target } => UsbCall::Bind { target, interrupt: self.interrupt },
            KeyPhase::Arm => UsbCall::Arm { interrupt: self.interrupt },
            KeyPhase::Queue => UsbCall::Queue {
                dev: self.dev,
                index: self.index,
                len: self.hid.endpoint.max_packet,
            },
            KeyPhase::Wait => UsbCall::WaitInterrupt {
                bound: self.port,
                interrupt: self.interrupt,
            },
            KeyPhase::Service => UsbCall::Service {
                slot: self.dev.slot,
                limit: IRQ_EVENT_DRAIN_LIMIT,
            },
            KeyPhase::Complete => UsbCall::Complete { interrupt: self.interrupt },
            KeyPhase::PollQueue => UsbCall::Queue {
                dev: self.dev,
                index: self.index,
                len: self.hid.endpoint.max_packet,
            },
            KeyPhase::Poll { .. } => UsbCall::Poll {
                slot: self.dev.slot,
                limit: IRQ_EVENT_DRAIN_LIMIT,
            },
        }
    }

    /// What to do next.
    pub fn call(&self) -> (c: UsbCall)
        ensures
            c == self.call_of(),
    {
        match self.phase {
            Phase::Root(p) => self.next_root_call(p),
            Phase::Hub(p) => self.next_hub_call(p),
            Phase::Down(p) => self.next_down_call(p),
            Phase::Keys(p) => self.next_key_call(p),
            Phase::Done => UsbCall::Nothing,
        }
    }

    fn next_root_call(&self, p: RootPhase) -> (c: UsbCall)
        ensures
            c == self.root_call(p),
    {
        match p {
            RootPhase::Alloc => UsbCall::AllocPage,
            RootPhase::MapPage { raw } => UsbCall::MapPage { raw, va: ENUM_VA },
            RootPhase::Port => UsbCall::FindPort,
            RootPhase::Enable => UsbCall::Command(Command::EnableSlot),
            RootPhase::Contexts => UsbCall::BuildContexts {
                dev: self.root,
                mps: ep0_max_packet(self.root.speed),
            },
            RootPhase::Address => UsbCall::Command(Command::AddressDevice { dev: self.root }),
            RootPhase::FirstBytes => UsbCall::Control {
                dev: self.root,
                setup: Setup::DeviceDescriptor { len: 8 },
            },
            RootPhase::Evaluate { mps } => UsbCall::Command(
                Command::EvaluateContext {
                    dev: self.root,
                    mps,
                },
            ),
            RootPhase::Descriptor => UsbCall::Control {
                dev: self.root,
                setup: Setup::DeviceDescriptor { len: DEVICE_DESCRIPTOR_LEN },
            },
            RootPhase::Status => UsbCall::ReadStatus,
            RootPhase::ConfigHeader => UsbCall::Control {
                dev: self.root,
                setup: Setup::ConfigDescriptor { len: 9 },
            },
            RootPhase::Config { len } => UsbCall::Control {
                dev: self.root,
                setup: Setup::ConfigDescriptor { len },
            },
            RootPhase::FindHub { len } => UsbCall::FindInterrupt { len },
            RootPhase::FindHid { len } => UsbCall::FindHid { len },
        }
    }

    fn next_hub_call(&self, p: HubPhase) -> (c: UsbCall)
        ensures
            c == self.hub_call(p),
    {
        match p {
            HubPhase::Descriptor => UsbCall::Control {
                dev: self.root,
                setup: Setup::HubDescriptor { super_speed: self.root.speed >= 4 },
            },
            HubPhase::Begin => UsbCall::Clock,
            HubPhase::SetConfig => UsbCall::Control {
                dev: self.root,
                setup: Setup::SetConfiguration { value: self.config },
            },
            HubPhase::Configure { endpoint } => UsbCall::Command(
                Command::ConfigureEndpoint {
                    dev: self.root,
                    endpoint,
                },
            ),
            HubPhase::PowerClock { .. } => UsbCall::Clock,
            HubPhase::Power { port } => UsbCall::Control {
                dev: self.root,
                setup: Setup::SetPortFeature { feature: HUB_FEATURE_PORT_POWER, port },
            },
            HubPhase::Settle => UsbCall::Delay { spins: POWER_SETTLE_SPINS },
            HubPhase::ArmStatus { index } => UsbCall::ArmStatus { dev: self.root, index },
            HubPhase::StatusClock { .. } => UsbCall::Clock,
            HubPhase::Status { .. } => UsbCall::Poll {
                slot: self.root.slot,
                limit: IRQ_EVENT_DRAIN_LIMIT,
            },
            HubPhase::ScanClock { .. } => UsbCall::Clock,
            HubPhase::Scan { port } => UsbCall::Control {
                dev: self.root,
                setup: Setup::PortStatus { port },
            },
            HubPhase::Reach { .. } => UsbCall::Clock,
        }
    }

    fn next_down_call(&self, p: DownPhase) -> (c: UsbCall)
        ensures
            c == self.down_call(p),
    {
        match p {
            DownPhase::Reset { port } => UsbCall::Control {
                dev: self.root,
                setup: Setup::SetPortFeature { feature: HUB_FEATURE_PORT_RESET, port },
            },
            DownPhase::Clock { .. } => UsbCall::Clock,
            DownPhase::Delay { .. } => UsbCall::Delay { spins: RESET_SETTLE_SPINS },
            DownPhase::Poll { port, .. } => UsbCall::Control {
                dev: self.root,
                setup: Setup::PortStatus { port },
            },
            DownPhase::Acknowledge { port, .. } => UsbCall::Control {
                dev: self.root,
                setup: Setup::ClearPortFeature { feature: HUB_FEATURE_C_PORT_RESET, port },
            },
            DownPhase::Alloc { .. } => UsbCall::AllocPage,
            DownPhase::MapPage { raw, .. } => UsbCall::MapPage { raw, va: DEV2_VA },
            DownPhase::Enable { .. } => UsbCall::Command(Command::EnableSlot),
            DownPhase::Contexts => UsbCall::BuildContexts {
                dev: self.dev,
                mps: ep0_max_packet(self.dev.speed),
            },
            DownPhase::Address => UsbCall::Command(Command::AddressDevice { dev: self.dev }),
            DownPhase::FirstBytes => UsbCall::Control {
                dev: self.dev,
                setup: Setup::DeviceDescriptor { len: 8 },
            },
            DownPhase::Evaluate { mps } => UsbCall::Command(
                Command::EvaluateContext {
                    dev: self.dev,
                    mps,
                },
            ),
            DownPhase::Descriptor => UsbCall::Control {
                dev: self.dev,
                setup: Setup::DeviceDescriptor { len: DEVICE_DESCRIPTOR_LEN },
            },
            DownPhase::ConfigHeader => UsbCall::Control {
                dev: self.dev,
                setup: Setup::ConfigDescriptor { len: 9 },
            },
            DownPhase::Config { len } => UsbCall::Control {
                dev: self.dev,
                setup: Setup::ConfigDescriptor { len },
            },
            DownPhase::FindHid { len } => UsbCall::FindHid { len },
        }
    }

    fn next_key_call(&self, p: KeyPhase) -> (c: UsbCall)
        ensures
            c == self.key_call(p),
    {
        match p {
            KeyPhase::SetConfig => UsbCall::Control {
                dev: self.dev,
                setup: Setup::SetConfiguration { value: self.config },
            },
            KeyPhase::Configure => UsbCall::Command(
                Command::ConfigureEndpoint {
                    dev: self.dev,
                    endpoint: self.hid.endpoint,
                },
            ),
            KeyPhase::SetProtocol => UsbCall::Control {
                dev: self.dev,
                setup: Setup::SetBootProtocol { interface: self.hid.interface },
            },
            KeyPhase::Ring => UsbCall::MakeRing { dev: self.dev },
            KeyPhase::Interrupt => UsbCall::CreateInterrupt { irq: self.irq },
            KeyPhase::CreatePort => UsbCall::CreatePort,
            KeyPhase::BindPort { target } => UsbCall::Bind { target, interrupt: self.interrupt },
            KeyPhase::Arm => UsbCall::Arm { interrupt: self.interrupt },
            KeyPhase::Queue => UsbCall::Queue {
                dev: self.dev,
                index: self.index,
                len: self.hid.endpoint.max_packet,
            },
            KeyPhase::Wait => UsbCall::WaitInterrupt {
                bound: self.port,
                interrupt: self.interrupt,
            },
            KeyPhase::Service => UsbCall::Service {
                slot: self.dev.slot,
                limit: IRQ_EVENT_DRAIN_LIMIT,
            },
            KeyPhase::Complete => UsbCall::Complete { interrupt: self.interrupt },
            KeyPhase::PollQueue => UsbCall::Queue {
                dev: self.dev,
                index: self.index,
                len: self.hid.endpoint.max_packet,
            },
            KeyPhase::Poll { .. } => UsbCall::Poll {
                slot: self.dev.slot,
                limit: IRQ_EVENT_DRAIN_LIMIT,
            },
        }
    }
}

/// The driver after a series of events.
pub open spec fn after_all(b: Bringup, events: Seq<UsbEventView>) -> Bringup
    decreases events.len(),
{
    if events.len() == 0 {
        b
    } else {
        after_all(b, events.drop_last()).after(events.last()).0
    }
}

proof fn lemma_wf_root(b: Bringup, p: RootPhase, e: UsbEventView)
    requires
        b.phase == Phase::Root(p),
        b.wf(),
    ensures
        b.after_root(p, e).0.wf(),
{
}

proof fn lemma_wf_hub(b: Bringup, p: HubPhase, e: UsbEventView)
    requires
        b.phase == Phase::Hub(p),
        b.wf(),
    ensures
        b.after_hub(p, e).0.wf(),
{
}

proof fn lemma_wf_down(b: Bringup, p: DownPhase, e: UsbEventView)
    requires
        b.phase == Phase::Down(p),
        b.wf(),
    ensures
        b.after_down(p, e).0.wf(),
{
}

proof fn lemma_wf_keys(b: Bringup, p: KeyPhase, e: UsbEventView)
    requires
        b.phase == Phase::Keys(p),
        b.wf(),
    ensures
        b.after_keys(p, e).0.wf(),
{
}

proof fn lemma_wf(b: Bringup, e: UsbEventView)
    requires
        b.wf(),
    ensures
        b.after(e).0.wf(),
{
    match b.phase {
        Phase::Root(p) => lemma_wf_root(b, p, e),
        Phase::Hub(p) => lemma_wf_hub(b, p, e),
        Phase::Down(p) => lemma_wf_down(b, p, e),
        Phase::Keys(p) => lemma_wf_keys(b, p, e),
        Phase::Done => {},
    }
}

/// Whatever the controller answers, a device is used only once it has a slot
/// that the device context array can hold, and no keyboard transfer is queued
/// while one is outstanding.
pub proof fn driver_stays_well_formed(b: Bringup, events: Seq<UsbEventView>)
    requires
        b.wf(),
    ensures
        after_all(b, events).wf(),
    decreases events.len(),
{
    if events.len() > 0 {
        driver_stays_well_formed(b, events.drop_last());
        lemma_wf(after_all(b, events.drop_last()), events.last());
    }
}

/// The keyboard is being served by interrupts.
pub open spec fn serving(b: Bringup) -> bool {
    b.phase == Phase::Keys(KeyPhase::Queue) || b.phase == Phase::Keys(KeyPhase::Wait) || b.phase
        == Phase::Keys(KeyPhase::Service) || b.phase == Phase::Keys(KeyPhase::Complete)
}

/// A keyboard that is served goes on being served: a full ring, a spurious wake
/// or a failed transfer does not end it. Only a transfer that cannot be built
/// does.
pub proof fn served_keyboard_stays_served(b: Bringup, e: UsbEventView)
    requires
        serving(b),
    ensures
        serving(b.after(e).0) || e == UsbEventView::Queued(Queued::Unbuilt),
{
}

/// A transfer is queued again just when the outstanding one has completed.
pub proof fn transfer_is_queued_after_completion(b: Bringup, a: u64)
    requires
        b.phase == Phase::Keys(KeyPhase::Complete),
    ensures
        b.after(UsbEventView::Returned(a)).0.phase == Phase::Keys(
            if b.pending {
                KeyPhase::Wait
            } else {
                KeyPhase::Queue
            },
        ),
{
}

/// Every interrupt is answered by the call that tells the controller the ring's
/// position, and then completed, whether or not an event was found.
pub proof fn every_interrupt_is_serviced(b: Bringup, a: u64, found: UsbEventView)
    requires
        b.phase == Phase::Keys(KeyPhase::Wait),
        found is Transfer,
    ensures
        ({
            let b1 = b.after(UsbEventView::Returned(a)).0;
            let b2 = b1.after(found).0;
            &&& b1.call_of() == (UsbCall::Service {
                slot: b.dev.slot,
                limit: IRQ_EVENT_DRAIN_LIMIT,
            })
            &&& b2.call_of() == (UsbCall::Complete { interrupt: b.interrupt })
        }),
{
}

/// A bound on the steps to the end, where there is one.
pub open spec fn steps_left(b: Bringup) -> int {
    match b.phase {
        Phase::Root(p) => match p {
            RootPhase::Alloc => 50013,
            RootPhase::MapPage { .. } => 50012,
            RootPhase::Port => 50011,
            RootPhase::Enable => 50010,
            RootPhase::Contexts => 50009,
            RootPhase::Address => 50008,
            RootPhase::FirstBytes => 50007,
            RootPhase::Evaluate { .. } => 50006,
            RootPhase::Descriptor => 50005,
            RootPhase::Status => 50004,
            RootPhase::ConfigHeader => 50003,
            RootPhase::Config { .. } => 50002,
            RootPhase::FindHub { .. } => 50001,
            RootPhase::FindHid { .. } => 50000,
        },
        Phase::Hub(p) => match p {
            HubPhase::Descriptor => 40003,
            HubPhase::Begin => 40002,
            HubPhase::SetConfig => 40001,
            HubPhase::Configure { .. } => 40000,
            HubPhase::PowerClock { port } => 35001 + 2 * (255 - port),
            HubPhase::Power { port } => 35000 + 2 * (255 - port),
            HubPhase::Settle => 34999,
            HubPhase::ArmStatus { .. } => 34998,
            HubPhase::StatusClock { round } => 34001 + 2 * (16 - round),
            HubPhase::Status { round } => 34000 + 2 * (16 - round),
            HubPhase::ScanClock { port } => 33001 + 2 * (255 - port),
            HubPhase::Scan { port } => 33000 + 2 * (255 - port),
            HubPhase::Reach { .. } => 32000,
        },
        Phase::Down(p) => match p {
            DownPhase::Reset { .. } => 30000,
            DownPhase::Clock { round, .. } => 20002 + 3 * (64 - round),
            DownPhase::Delay { round, .. } => 20001 + 3 * (64 - round),
            DownPhase::Poll { round, .. } => 20000 + 3 * (64 - round),
            DownPhase::Acknowledge { .. } => 19999,
            DownPhase::Alloc { .. } => 19998,
            DownPhase::MapPage { .. } => 19997,
            DownPhase::Enable { .. } => 19996,
            DownPhase::Contexts => 19995,
            DownPhase::Address => 19994,
            DownPhase::FirstBytes => 19993,
            DownPhase::Evaluate { .. } => 19992,
            DownPhase::Descriptor => 19991,
            DownPhase::ConfigHeader => 19990,
            DownPhase::Config { .. } => 19989,
            DownPhase::FindHid { .. } => 19988,
        },
        Phase::Keys(p) => match p {
            KeyPhase::SetConfig => 10007,
            KeyPhase::Configure => 10006,
            KeyPhase::SetProtocol => 10005,
            KeyPhase::Ring => 10004,
            KeyPhase::Interrupt => 10003,
            KeyPhase::CreatePort => 10002,
            KeyPhase::BindPort { .. } => 10001,
            KeyPhase::Arm => 10000,
            KeyPhase::PollQueue => 260 + 300 * (24 - b.received),
            KeyPhase::Poll { round } => 10 + 300 * (24 - b.received) + (240 - round),
            _ => 1,
        },
        Phase::Done => 0,
    }
}

proof fn lemma_progress_root(b: Bringup, p: RootPhase, e: UsbEventView)
    requires
        b.phase == Phase::Root(p),
        b.wf(),
    ensures
        b.after_root(p, e) == (b, Seq::<u8>::empty()) || steps_left(b.after_root(p, e).0)
            < steps_left(b),
{
}

proof fn lemma_progress_hub(b: Bringup, p: HubPhase, e: UsbEventView)
    requires
        b.phase == Phase::Hub(p),
        b.wf(),
    ensures
        b.after_hub(p, e) == (b, Seq::<u8>::empty()) || steps_left(b.after_hub(p, e).0)
            < steps_left(b),
{
}

proof fn lemma_progress_down(b: Bringup, p: DownPhase, e: UsbEventView)
    requires
        b.phase == Phase::Down(p),
        b.wf(),
    ensures
        b.after_down(p, e) == (b, Seq::<u8>::empty()) || steps_left(b.after_down(p, e).0)
            < steps_left(b),
{
}

proof fn lemma_progress_keys(b: Bringup, p: KeyPhase, e: UsbEventView)
    requires
        b.phase == Phase::Keys(p),
        b.wf(),
        !serving(b),
    ensures
        b.after_keys(p, e) == (b, Seq::<u8>::empty()) || steps_left(b.after_keys(p, e).0)
            < steps_left(b),
{
}

/// Until a keyboard is served, every event changes nothing or takes the driver
/// nearer to its end: no port, hub or device can keep it busy for ever.
pub proof fn work_before_serving_is_bounded(b: Bringup, e: UsbEventView)
    requires
        b.wf(),
        !serving(b),
    ensures
        b.after(e) == (b, Seq::<u8>::empty()) || steps_left(b.after(e).0) < steps_left(b),
        steps_left(b) >= 0,
{
    match b.phase {
        Phase::Root(p) => lemma_progress_root(b, p, e),
        Phase::Hub(p) => lemma_progress_hub(b, p, e),
        Phase::Down(p) => lemma_progress_down(b, p, e),
        Phase::Keys(p) => lemma_progress_keys(b, p, e),
        Phase::Done => {},
    }
}

/// Once the time for a hub has passed, none of its ports is powered, scanned or
/// reset any more.
pub proof fn spent_time_ends_the_hub(b: Bringup, now: u64)
    requires
        b.phase is Hub || b.phase is Down,
        b.call_of() is Clock,
        b.phase != Phase::Hub(HubPhase::Begin),
        now >= b.end_ns,
    ensures
        ({
            let n = b.after(UsbEventView::Returned(now)).0;
            n.phase is Done || n.call_of() is Clock
        }),
{
}

/// What is written to the keyboard channel for the keys that went down: the
/// characters of each, in order; nothing for a key without any, or where there
/// is no channel.
pub open spec fn deliveries_of(channel: u32, keys: Seq<Seq<u8>>) -> Seq<Seq<u8>> {
    if channel == 0 {
        Seq::empty()
    } else {
        keys.filter(|k: Seq<u8>| k.len() > 0)
    }
}

/// Picks what is written to the keyboard channel.
pub fn deliveries(channel: u32, keys: Vec<Vec<u8>>) -> (out: Vec<Vec<u8>>)
    ensures
        out@.map_values(|k: Vec<u8>| k@) == deliveries_of(
            channel,
            keys@.map_values(|k: Vec<u8>| k@),
        ),
{
    let mut out: Vec<Vec<u8>> = Vec::new();
    if channel == 0 {
        assert(out@.map_values(|k: Vec<u8>| k@) =~= Seq::<Seq<u8>>::empty());
        return out;
    }
    let ghost all = keys@.map_values(|k: Vec<u8>| k@);
    let ghost some = |k: Seq<u8>| k.len() > 0;
    let mut i: usize = 0;
    proof {
        reveal(Seq::filter);
    }
    assert(all.subrange(0, 0) =~= Seq::empty());
    assert(out@.map_values(|k: Vec<u8>| k@) =~= all.subrange(0, 0).filter(some));
    while i < keys.len()
        invariant
            i <= keys@.len(),
            all == keys@.map_values(|k: Vec<u8>| k@),
            some == (|k: Seq<u8>| k.len() > 0),
            out@.map_values(|k: Vec<u8>| k@) == all.subrange(0, i as int).filter(some),
        decreases keys@.len() - i,
    {
        let ghost before = out@.map_values(|k: Vec<u8>| k@);
        if keys[i].len() > 0 {
            let mut key: Vec<u8> = Vec::new();
            bytes::append(&mut key, &keys[i]);
            assert(key@ =~= keys@[i as int]@);
            out.push(key);
            assert(out@.map_values(|k: Vec<u8>| k@) =~= before.push(key@));
        }
        i += 1;
        proof {
            reveal(Seq::filter);
            let part = all.subrange(0, i as int);
            assert(part.drop_last() =~= all.subrange(0, i - 1));
            assert(part.last() == keys@[i - 1]@);
            assert(part.filter(some) =~= if some(part.last()) {
                part.drop_last().filter(some).push(part.last())
            } else {
                part.drop_last().filter(some)
            });
        }
    }
    assert(all.subrange(0, i as int) =~= all);
    out
}

/// The root device's page is mapped at 0x1300_0000, and its port and slot are kept as they come; a slot is one of 1
/// to 31. Its contexts are built for the first packet size of its speed, and it is addressed.
pub proof fn root_devices_are_addressed(
    b: Bringup,
    raw: u64,
    phys: u64,
    port: u8,
    speed: u8,
    raws: Seq<u32>,
    slot: u8,
    index: u8,
)
    requires
        b.phase is Root,
    ensures
        b.call_of() is AllocPage && raw != u64::MAX && phys != 0 ==> ({
            let n = b.after(UsbEventView::Page(raw, phys)).0;
            &&& n.root == (Device { phys, ..b.root })
            &&& n.call_of() == (UsbCall::MapPage { raw, va: 0x1300_0000 })
        }),
        b.call_of() is MapPage ==> b.after(UsbEventView::Returned(0)).0.call_of() is FindPort,
        b.call_of() is FindPort ==> ({
            let n = b.after(UsbEventView::Port(Some((port, speed)), raws)).0;
            &&& n.root == (Device { root_port: port, speed, ..b.root })
            &&& n.call_of() == UsbCall::Command(Command::EnableSlot)
        }),
        b.call_of() == UsbCall::Command(Command::EnableSlot) && 1 <= slot <= 31 ==> ({
            let n = b.after(UsbEventView::Command(Completion::Completed { cc: 1, slot, index })).0;
            &&& n.root == (Device { slot, ..b.root })
            &&& n.call_of() == (UsbCall::BuildContexts {
                dev: n.root,
                mps: first_packet_size(b.root.speed),
            })
            &&& n.after(UsbEventView::Built(Built::Ready)).0.call_of() == UsbCall::Command(
                Command::AddressDevice { dev: n.root },
            )
        }),
        b.call_of() == UsbCall::Command(Command::AddressDevice { dev: b.root }) ==> b.after(
            UsbEventView::Command(Completion::Completed { cc: 1, slot, index }),
        ).0.call_of() == (UsbCall::Control {
            dev: b.root,
            setup: Setup::DeviceDescriptor { len: 8 },
        }),
{
}

/// Byte 7 of the device descriptor is the packet size: where it is neither zero nor the size that was guessed the
/// contexts are brought up to date. Then the whole descriptor of 18 bytes is read, and byte 4 is the class.
pub proof fn root_descriptors_are_read(
    b: Bringup,
    cc: u8,
    rem: u32,
    data: Seq<u8>,
    slot: u8,
    index: u8,
    mps: u16,
)
    requires
        data.len() >= 18,
    ensures
        b.phase == Phase::Root(RootPhase::FirstBytes) ==> ({
            let n = b.after(UsbEventView::Control(Some((1u8, rem)), data)).0;
            if data[7] == 0 || data[7] == first_packet_size(b.root.speed) {
                n.call_of() == (UsbCall::Control {
                    dev: b.root,
                    setup: Setup::DeviceDescriptor { len: 18 },
                })
            } else {
                n.call_of() == UsbCall::Command(
                    Command::EvaluateContext { dev: b.root, mps: data[7] as u16 },
                )
            }
        }),
        b.phase == Phase::Root(RootPhase::Evaluate { mps }) ==> b.after(
            UsbEventView::Command(Completion::Completed { cc: 1, slot, index }),
        ).0.call_of() == (UsbCall::Control {
            dev: b.root,
            setup: Setup::DeviceDescriptor { len: 18 },
        }),
        b.phase == Phase::Root(RootPhase::Descriptor) ==> ({
            let n = b.after(UsbEventView::Control(Some((cc, rem)), data)).0;
            &&& n.class == data[4]
            &&& n.root == b.root
            &&& n.call_of() == (UsbCall::Control {
                dev: b.root,
                setup: Setup::ConfigDescriptor { len: 9 },
            })
        }),
{
}

/// The configuration's length stands at 2, low byte first, and at most 256 bytes of it are read; byte 5 is its
/// value. In a hub the interrupt endpoint is looked for, in any other device a boot interface, and a keyboard is
/// configured with that value.
pub proof fn root_configurations_are_read(
    b: Bringup,
    cc: u8,
    rem: u32,
    data: Seq<u8>,
    len: u16,
    ep: Option<Endpoint>,
    hid: Hid,
)
    requires
        data.len() >= 9,
    ensures
        b.phase == Phase::Root(RootPhase::ConfigHeader) ==> ({
            let total = data[2] + 256 * data[3];
            let n = b.after(UsbEventView::Control(Some((cc, rem)), data)).0;
            n.call_of() == (UsbCall::Control {
                dev: b.root,
                setup: Setup::ConfigDescriptor {
                    len: (if total > 256 {
                        256int
                    } else {
                        total
                    }) as u16,
                },
            })
        }),
        b.phase == Phase::Root(RootPhase::Config { len }) ==> ({
            let n = b.after(UsbEventView::Control(Some((cc, rem)), data)).0;
            &&& n.config == data[5]
            &&& b.class == 9 ==> n.call_of() == (UsbCall::FindInterrupt { len })
            &&& b.class != 9 ==> n.call_of() == (UsbCall::FindHid { len })
        }),
        b.phase == Phase::Root(RootPhase::FindHub { len }) ==> ({
            let n = b.after(UsbEventView::Endpoint(ep)).0;
            &&& n.endpoint == ep
            &&& n.call_of() == (UsbCall::Control {
                dev: b.root,
                setup: Setup::HubDescriptor { super_speed: b.root.speed >= 4 },
            })
        }),
        b.phase == Phase::Root(RootPhase::FindHid { len }) ==> ({
            let n = b.after(UsbEventView::Interface(Some(hid))).0;
            &&& !hid.keyboard ==> n.call_of() is Nothing
            &&& hid.keyboard ==> n.hid == hid && n.dev == b.root && n.call_of() == (
            UsbCall::Control {
                dev: b.root,
                setup: Setup::SetConfiguration { value: b.config },
            })
        }),
{
}

/// Byte 2 of a hub's descriptor says how many ports it has. It has 400 ms from then on; it is configured, and so is
/// its interrupt endpoint where it has one.
pub proof fn hubs_are_configured(b: Bringup, rem: u32, data: Seq<u8>, now: u64, slot: u8, index: u8)
    requires
        data.len() >= 3,
    ensures
        b.phase == Phase::Hub(HubPhase::Descriptor) && now <= u64::MAX - 400_000_000 ==> ({
            let n = b.after(UsbEventView::Control(Some((1u8, rem)), data)).0;
            let m = n.after(UsbEventView::Returned(now)).0;
            &&& n.hub_ports == data[2]
            &&& n.call_of() is Clock
            &&& m.end_ns == now + 400_000_000
            &&& m.call_of() == (UsbCall::Control {
                dev: b.root,
                setup: Setup::SetConfiguration { value: b.config },
            })
        }),
        b.phase == Phase::Hub(HubPhase::SetConfig) ==> ({
            let n = b.after(UsbEventView::Control(Some((1u8, rem)), data)).0;
            &&& b.endpoint matches Some(endpoint) ==> n.call_of() == UsbCall::Command(
                Command::ConfigureEndpoint { dev: b.root, endpoint },
            ) && n.after(
                UsbEventView::Command(Completion::Completed { cc: 1, slot, index }),
            ).0.hub_index == Some(index)
            &&& b.endpoint is None && b.hub_ports > 0 ==> n.phase == Phase::Hub(
                HubPhase::PowerClock { port: 1 },
            )
            &&& b.endpoint is None && b.hub_ports == 0 ==> n.call_of() == (UsbCall::Delay {
                spins: 500_000,
            })
        }),
{
}

/// In the time that a hub has, every port is powered, each in its turn, and then they are given 500000 spins.
pub proof fn every_port_is_powered(
    b: Bringup,
    port: u8,
    now: u64,
    answer: Option<(u8, u32)>,
    data: Seq<u8>,
)
    requires
        b.phase == Phase::Hub(HubPhase::PowerClock { port }),
        1 <= port <= b.hub_ports,
        now < b.end_ns,
    ensures
        ({
            let n = b.after(UsbEventView::Returned(now)).0;
            let m = n.after(UsbEventView::Control(answer, data)).0;
            &&& n.call_of() == (UsbCall::Control {
                dev: b.root,
                setup: Setup::SetPortFeature { feature: 8, port },
            })
            &&& m.hub_ports == b.hub_ports && m.end_ns == b.end_ns
            &&& port < b.hub_ports ==> m.phase == Phase::Hub(
                HubPhase::PowerClock { port: (port + 1) as u8 },
            )
            &&& port == b.hub_ports ==> m.call_of() == (UsbCall::Delay { spins: 500_000 })
        }),
{
}

/// A hub with a configured endpoint is waited for, sixteen looks of 4096 events at most; then, and at once where it
/// has none, its ports are scanned from the first on.
pub proof fn hub_reports_are_waited_for(
    b: Bringup,
    a: u64,
    index: u8,
    round: u32,
    report: Seq<u8>,
    keys: Seq<u8>,
)
    requires
        b.hub_ports >= 1,
    ensures
        b.phase == Phase::Hub(HubPhase::Settle) ==> ({
            let n = b.after(UsbEventView::Returned(a)).0;
            &&& b.hub_index matches Some(at) ==> n.call_of() == (UsbCall::ArmStatus {
                dev: b.root,
                index: at,
            })
            &&& b.hub_index is None ==> n.phase == Phase::Hub(HubPhase::ScanClock { port: 1 })
        }),
        b.phase == Phase::Hub(HubPhase::ArmStatus { index }) ==> b.after(
            UsbEventView::Ready(true),
        ).0.phase == Phase::Hub(HubPhase::StatusClock { round: 0 }) && b.after(
            UsbEventView::Ready(false),
        ).0.phase == Phase::Hub(HubPhase::ScanClock { port: 1 }),
        b.phase == Phase::Hub(HubPhase::StatusClock { round }) && a < b.end_ns ==> ({
            let n = b.after(UsbEventView::Returned(a)).0;
            let m = n.after(UsbEventView::Transfer(None, report, keys)).0;
            &&& n.call_of() == (UsbCall::Poll { slot: b.root.slot, limit: 4096 })
            &&& round < 15 ==> m.phase == Phase::Hub(
                HubPhase::StatusClock { round: (round + 1) as u32 },
            )
            &&& round >= 15 ==> m.phase == Phase::Hub(HubPhase::ScanClock { port: 1 })
        }),
{
}

/// In the time that a hub has, the status of every port is read, each in its turn, whatever comes of it. The first
/// whose lowest bit is set is kept, and at the end of the scan it is reset.
pub proof fn the_first_connected_port_is_reached(
    b: Bringup,
    port: u8,
    now: u64,
    rem: u32,
    data: Seq<u8>,
)
    requires
        b.phase == Phase::Hub(HubPhase::ScanClock { port }),
        1 <= port <= b.hub_ports,
        now < b.end_ns,
        data.len() >= 2,
    ensures
        ({
            let n = b.after(UsbEventView::Returned(now)).0;
            let m = n.after(UsbEventView::Control(Some((1u8, rem)), data)).0;
            let none = n.after(UsbEventView::Control(None, data)).0;
            &&& n.call_of() == (UsbCall::Control {
                dev: b.root,
                setup: Setup::PortStatus { port },
            })
            &&& b.down is Some ==> m.down == b.down
            &&& b.down is None && data[0] % 2 == 1 ==> m.down == Some(port)
            &&& b.down is None && data[0] % 2 == 0 ==> m.down is None
            &&& none.down == b.down
            &&& port < b.hub_ports ==> m.phase == Phase::Hub(
                HubPhase::ScanClock { port: (port + 1) as u8 },
            ) && none.phase == m.phase
            &&& port == b.hub_ports && m.down is None ==> m.call_of() is Nothing
            &&& port == b.hub_ports && m.down is Some ==> m.after(
                UsbEventView::Returned(now),
            ).0.call_of() == (UsbCall::Control {
                dev: b.root,
                setup: Setup::SetPortFeature { feature: 4, port: m.down->0 },
            })
        }),
{
    let s = word_of(data, 0);
    assert(s == data[0] + data[1] * 0x100);
    assert(s % 2 == data[0] % 2);
}

/// A port that is reset is looked at after 200000 spins, 64 times at most, until it says that it is enabled; then
/// the change is acknowledged.
pub proof fn resets_are_waited_for(
    b: Bringup,
    port: u8,
    round: u32,
    now: u64,
    a: u64,
    cc: u8,
    rem: u32,
    data: Seq<u8>,
)
    requires
        data.len() >= 2,
    ensures
        b.phase == Phase::Down(DownPhase::Reset { port }) ==> b.after(
            UsbEventView::Control(Some((1u8, rem)), data),
        ).0.phase == Phase::Down(DownPhase::Clock { port, round: 0 }),
        b.phase == Phase::Down(DownPhase::Clock { port, round }) && now < b.end_ns ==> ({
            let n = b.after(UsbEventView::Returned(now)).0;
            let m = n.after(UsbEventView::Returned(a)).0;
            let o = m.after(UsbEventView::Control(Some((cc, rem)), data)).0;
            let speed = hub_speed_of((data[0] + 256 * data[1]) as u16);
            &&& n.call_of() == (UsbCall::Delay { spins: 200_000 })
            &&& m.call_of() == (UsbCall::Control {
                dev: b.root,
                setup: Setup::PortStatus { port },
            })
            &&& speed is Some ==> o.phase == Phase::Down(
                DownPhase::Acknowledge { port, speed: speed->0 },
            ) && o.call_of() == (UsbCall::Control {
                dev: b.root,
                setup: Setup::ClearPortFeature { feature: 20, port },
            })
            &&& speed is None && round < 63 ==> o.phase == Phase::Down(
                DownPhase::Clock { port, round: (round + 1) as u32 },
            )
            &&& speed is None && round >= 63 ==> o.call_of() is Nothing
        }),
{
}

/// A device behind a hub has a page of its own, mapped at 0x1400_0000, and a slot of its own, one of 1 to 31; it is
/// on the hub's root port, with the port's speed.
pub proof fn devices_behind_hubs_are_enabled(
    b: Bringup,
    port: u8,
    speed: u8,
    raw: u64,
    phys: u64,
    slot: u8,
    index: u8,
    answer: Option<(u8, u32)>,
    data: Seq<u8>,
)
    requires
        b.phase == Phase::Down(DownPhase::Acknowledge { port, speed }),
        raw != u64::MAX,
        phys != 0,
        1 <= slot <= 31,
    ensures
        ({
            let n = b.after(UsbEventView::Control(answer, data)).0;
            let m = n.after(UsbEventView::Page(raw, phys)).0;
            let o = m.after(UsbEventView::Returned(0)).0;
            let q = o.after(UsbEventView::Command(Completion::Completed { cc: 1, slot, index })).0;
            &&& n.call_of() is AllocPage
            &&& m.call_of() == (UsbCall::MapPage { raw, va: 0x1400_0000 })
            &&& o.call_of() == UsbCall::Command(Command::EnableSlot)
            &&& q.root == b.root
            &&& q.dev.slot == slot && q.dev.phys == phys && q.dev.va == 0x1400_0000
            &&& q.dev.speed == speed && q.dev.root_port == b.root.root_port
            &&& q.dev.route == port % 16
            &&& q.call_of() == (UsbCall::BuildContexts {
                dev: q.dev,
                mps: first_packet_size(speed),
            })
            &&& q.after(UsbEventView::Built(Built::Ready)).0.call_of() == UsbCall::Command(
                Command::AddressDevice { dev: q.dev },
            )
        }),
{
}

/// A device behind a hub is read as one on a root port is: eight bytes, the packet size, the whole descriptor.
pub proof fn descriptors_behind_hubs_are_read(
    b: Bringup,
    rem: u32,
    data: Seq<u8>,
    slot: u8,
    index: u8,
    mps: u16,
)
    requires
        data.len() >= 18,
    ensures
        b.phase == Phase::Down(DownPhase::Address) ==> b.after(
            UsbEventView::Command(Completion::Completed { cc: 1, slot, index }),
        ).0.call_of() == (UsbCall::Control {
            dev: b.dev,
            setup: Setup::DeviceDescriptor { len: 8 },
        }),
        b.phase == Phase::Down(DownPhase::FirstBytes) ==> ({
            let n = b.after(UsbEventView::Control(Some((1u8, rem)), data)).0;
            if data[7] == 0 || data[7] == first_packet_size(b.dev.speed) {
                n.call_of() == (UsbCall::Control {
                    dev: b.dev,
                    setup: Setup::DeviceDescriptor { len: 18 },
                })
            } else {
                n.call_of() == UsbCall::Command(
                    Command::EvaluateContext { dev: b.dev, mps: data[7] as u16 },
                )
            }
        }),
        b.phase == Phase::Down(DownPhase::Evaluate { mps }) ==> b.after(
            UsbEventView::Command(Completion::Completed { cc: 1, slot, index }),
        ).0.call_of() == (UsbCall::Control {
            dev: b.dev,
            setup: Setup::DeviceDescriptor { len: 18 },
        }),
        b.phase == Phase::Down(DownPhase::Descriptor) ==> b.after(
            UsbEventView::Control(Some((1u8, rem)), data),
        ).0.call_of() == (UsbCall::Control {
            dev: b.dev,
            setup: Setup::ConfigDescriptor { len: 9 },
        }),
{
}

/// And so is its configuration: at most 256 bytes, byte 5 its value, and a boot keyboard in it is configured.
pub proof fn configurations_behind_hubs_are_read(
    b: Bringup,
    cc: u8,
    rem: u32,
    data: Seq<u8>,
    len: u16,
    hid: Hid,
)
    requires
        data.len() >= 9,
    ensures
        b.phase == Phase::Down(DownPhase::ConfigHeader) ==> ({
            let total = data[2] + 256 * data[3];
            let n = b.after(UsbEventView::Control(Some((cc, rem)), data)).0;
            n.call_of() == (UsbCall::Control {
                dev: b.dev,
                setup: Setup::ConfigDescriptor {
                    len: (if total > 256 {
                        256int
                    } else {
                        total
                    }) as u16,
                },
            })
        }),
        b.phase == Phase::Down(DownPhase::Config { len }) ==> ({
            let n = b.after(UsbEventView::Control(Some((cc, rem)), data)).0;
            n.config == data[5] && n.call_of() == (UsbCall::FindHid { len })
        }),
        b.phase == Phase::Down(DownPhase::FindHid { len }) ==> ({
            let n = b.after(UsbEventView::Interface(Some(hid))).0;
            &&& !hid.keyboard ==> n.call_of() is Nothing
            &&& hid.keyboard ==> n.hid == hid && n.dev == b.dev && n.call_of() == (
            UsbCall::Control {
                dev: b.dev,
                setup: Setup::SetConfiguration { value: b.config },
            })
        }),
{
}

/// A keyboard is configured, its endpoint too, and set to the boot protocol; a ring is made for it. It is served
/// only where an interrupt was granted.
pub proof fn keyboards_are_configured(b: Bringup, rem: u32, data: Seq<u8>, slot: u8, index: u8)
    ensures
        b.phase == Phase::Keys(KeyPhase::SetConfig) ==> ({
            let n = b.after(UsbEventView::Control(Some((1u8, rem)), data)).0;
            let m = n.after(UsbEventView::Command(Completion::Completed { cc: 1, slot, index })).0;
            &&& n.call_of() == UsbCall::Command(
                Command::ConfigureEndpoint { dev: b.dev, endpoint: b.hid.endpoint },
            )
            &&& m.index == index
            &&& m.call_of() == (UsbCall::Control {
                dev: b.dev,
                setup: Setup::SetBootProtocol { interface: b.hid.interface },
            })
        }),
        b.phase == Phase::Keys(KeyPhase::SetProtocol) ==> ({
            let n = b.after(UsbEventView::Control(Some((1u8, rem)), data)).0;
            let m = n.after(UsbEventView::Ready(true)).0;
            &&& n.call_of() == (UsbCall::MakeRing { dev: b.dev })
            &&& b.irq == 0 ==> m.call_of() is Nothing
            &&& b.irq != 0 ==> m.call_of() == (UsbCall::CreateInterrupt { irq: b.irq })
        }),
{
}

/// An interrupt that was created is bound to a port where one can be had, and armed either way; then transfers of
/// the endpoint's packet size are queued. Without an interrupt they are queued at once.
pub proof fn interrupts_are_bound_where_possible(b: Bringup, a: u64, p: u64, bound: u64, e: u64)
    requires
        b.phase == Phase::Keys(KeyPhase::Interrupt),
        a != 0 && a != u64::MAX,
        p != 0 && p != u64::MAX,
    ensures
        ({
            let queue = UsbCall::Queue {
                dev: b.dev,
                index: b.index,
                len: b.hid.endpoint.max_packet,
            };
            let none = b.after(UsbEventView::Returned(0)).0;
            let n = b.after(UsbEventView::Returned(a)).0;
            let m = n.after(UsbEventView::Returned(p)).0;
            let o = m.after(UsbEventView::Returned(bound)).0;
            let without = n.after(UsbEventView::Returned(0)).0;
            &&& none.call_of() == queue && none.phase == Phase::Keys(KeyPhase::PollQueue)
            &&& n.interrupt == handle_of(a)
            &&& n.call_of() is CreatePort
            &&& m.call_of() == (UsbCall::Bind { target: handle_of(p), interrupt: handle_of(a) })
            &&& without.port is None
            &&& without.call_of() == (UsbCall::Arm { interrupt: handle_of(a) })
            &&& bound == 0 ==> o.port == Some(handle_of(p))
            &&& bound != 0 ==> o.port is None
            &&& o.call_of() == (UsbCall::Arm { interrupt: handle_of(a) })
            &&& o.after(UsbEventView::Returned(e)).0.call_of() == queue
        }),
{
}

/// A queued transfer is waited for on the port, or on the interrupt itself. Where there is no interrupt a report is
/// looked for 240 times, and 24 reports are read.
pub proof fn reports_are_waited_for(
    b: Bringup,
    round: u32,
    cc: u8,
    report: Seq<u8>,
    keys: Seq<u8>,
)
    ensures
        b.phase == Phase::Keys(KeyPhase::Queue) ==> ({
            let n = b.after(UsbEventView::Queued(Queued::Done)).0;
            &&& n.pending
            &&& n.call_of() == (UsbCall::WaitInterrupt { bound: b.port, interrupt: b.interrupt })
        }),
        b.phase == Phase::Keys(KeyPhase::PollQueue) ==> b.after(
            UsbEventView::Queued(Queued::Done),
        ).0.phase == Phase::Keys(KeyPhase::Poll { round: 0 }),
        b.phase == Phase::Keys(KeyPhase::Poll { round }) ==> ({
            let none = b.after(UsbEventView::Transfer(None, report, keys)).0;
            let n = b.after(UsbEventView::Transfer(Some(cc), report, keys)).0;
            &&& b.call_of() == (UsbCall::Poll { slot: b.dev.slot, limit: 4096 })
            &&& round < 239 ==> none.phase == Phase::Keys(
                KeyPhase::Poll { round: (round + 1) as u32 },
            )
            &&& round >= 239 ==> none.call_of() is Nothing
            &&& b.received < 23 ==> n.received == b.received + 1 && n.phase == Phase::Keys(
                KeyPhase::PollQueue,
            )
            &&& b.received >= 23 ==> n.call_of() is Nothing
        }),
{
}

/// Commands that cannot be built, do not complete, or complete with another code than 1 end the work, but for the
/// configuration of a hub's endpoint, without which the hub is powered all the same.
#[verifier::spinoff_prover]
pub proof fn failed_commands_end_the_work(b: Bringup, bad: Completion)
    requires
        b.call_of() is Command,
        match bad {
            Completion::Completed { cc, .. } => cc != 1,
            _ => true,
        },
    ensures
        !(b.phase is Hub) ==> b.after(UsbEventView::Command(bad)).0.call_of() is Nothing,
        b.phase is Hub ==> ({
            let n = b.after(UsbEventView::Command(bad)).0;
            &&& n.hub_index == b.hub_index
            &&& b.hub_ports > 0 ==> n.phase == Phase::Hub(HubPhase::PowerClock { port: 1 })
            &&& b.hub_ports == 0 ==> n.phase == Phase::Hub(HubPhase::Settle)
        }),
{
}

/// A slot that is zero or above 31 is not used.
#[verifier::spinoff_prover]
pub proof fn slots_are_below_32(b: Bringup, slot: u8, index: u8)
    requires
        b.call_of() == UsbCall::Command(Command::EnableSlot),
        slot == 0 || slot > 31,
    ensures
        b.after(
            UsbEventView::Command(Completion::Completed { cc: 1, slot, index }),
        ).0.call_of() is Nothing,
{
}

/// Memory that was not allocated or mapped ends the work.
#[verifier::spinoff_prover]
pub proof fn devices_need_their_page(b: Bringup, raw: u64, phys: u64, a: u64)
    ensures
        b.call_of() is AllocPage && (raw == u64::MAX || phys == 0) ==> b.after(
            UsbEventView::Page(raw, phys),
        ).0.call_of() is Nothing,
        b.call_of() is MapPage && a != 0 ==> b.after(
            UsbEventView::Returned(a),
        ).0.call_of() is Nothing,
{
}

/// So do contexts that were not built.
#[verifier::spinoff_prover]
pub proof fn devices_need_their_contexts(b: Bringup, built: Built)
    requires
        b.call_of() is BuildContexts,
        built != Built::Ready,
    ensures
        b.after(UsbEventView::Built(built)).0.call_of() is Nothing,
{
}

/// And so do a device without a boot interface and a keyboard without a ring.
#[verifier::spinoff_prover]
pub proof fn keyboards_need_their_interface(b: Bringup)
    ensures
        b.call_of() is FindHid ==> b.after(UsbEventView::Interface(None)).0.call_of() is Nothing,
        b.call_of() is MakeRing ==> b.after(UsbEventView::Ready(false)).0.call_of() is Nothing,
{
}

/// A control transfer that does not come back ends the work on a root device, on a hub until its ports are
/// powered, on a device behind a hub once its port is enabled, and on a keyboard; of a root device that does not
/// give its descriptor the controller's status is read first.
#[verifier::spinoff_prover]
pub proof fn lost_transfers_end_the_work(b: Bringup, data: Seq<u8>)
    requires
        b.call_of() is Control,
    ensures
        b.phase is Root && b.phase != Phase::Root(RootPhase::Descriptor) ==> b.after(
            UsbEventView::Control(None, data),
        ).0.call_of() is Nothing,
        b.phase == Phase::Root(RootPhase::Descriptor) ==> b.after(
            UsbEventView::Control(None, data),
        ).0.call_of() is ReadStatus,
        b.phase == Phase::Hub(HubPhase::Descriptor) || b.phase == Phase::Hub(HubPhase::SetConfig)
            ==> b.after(UsbEventView::Control(None, data)).0.call_of() is Nothing,
        b.phase is Down && !(b.phase->Down_0 is Poll) && !(b.phase->Down_0 is Acknowledge)
            ==> b.after(UsbEventView::Control(None, data)).0.call_of() is Nothing,
        b.phase is Keys ==> b.after(UsbEventView::Control(None, data)).0.call_of() is Nothing,
{
}

/// Lists are logged number by number, in order, each in hexadecimal with a blank behind it; of what was typed the
/// printable characters are logged, each in quotes.
pub proof fn lists_are_logged_in_order(v: Seq<u32>, n: u32, w: Seq<u8>, c: u8)
    ensures
        hex_list_text(v.push(n)) == hex_list_text(v) + numerals::hex(n as nat) + t(" "),
        byte_list_text(w.push(c)) == byte_list_text(w) + numerals::hex(c as nat) + t(" "),
        c < 0x20 || c > 0x7e ==> quoted_text(w.push(c)) == quoted_text(w),
        0x20 <= c <= 0x7e ==> quoted_text(w.push(c)) == quoted_text(w) + (t(" '") + seq![c] + t(
            "'",
        )),
        hex_list_text(Seq::<u32>::empty()).len() == 0,
        byte_list_text(Seq::<u8>::empty()).len() == 0,
        quoted_text(Seq::<u8>::empty()).len() == 0,
{
    assert(v.push(n).drop_last() =~= v);
    assert(w.push(c).drop_last() =~= w);
    assert(quoted_text(w) + Seq::<u8>::empty() =~= quoted_text(w));
}

/// Without a channel nothing is written. With one, what the keys typed is written key by key, in order, and keys
/// that typed nothing are passed over.
pub proof fn keys_are_written_in_order(channel: u32, keys: Seq<Seq<u8>>, key: Seq<u8>)
    ensures
        deliveries_of(0, keys).len() == 0,
        channel != 0 && key.len() == 0 ==> deliveries_of(channel, keys.push(key)) == deliveries_of(
            channel,
            keys,
        ),
        channel != 0 && key.len() > 0 ==> deliveries_of(channel, keys.push(key)) == deliveries_of(
            channel,
            keys,
        ).push(key),
        deliveries_of(channel, Seq::empty()).len() == 0,
{
    let p = |k: Seq<u8>| k.len() > 0;
    reveal(Seq::filter);
    assert(keys.push(key).drop_last() =~= keys);
    assert(keys.push(key).last() == key);
    assert(keys.push(key).filter(p) == if p(key) {
        keys.filter(p).push(key)
    } else {
        keys.filter(p)
    });
}

} // verus!
