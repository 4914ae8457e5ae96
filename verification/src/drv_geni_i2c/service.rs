//! The I2C controller driver at work: how it comes up, which requests it serves, and what it
//! answers. The controller itself is driven by the caller, who hands its results in.

use vstd::prelude::*;
use vstd::utf8::encode_utf8;

use crate::abi::{handle_of, to_handle, Handle, NO_HANDLE};
use crate::bytes;
use crate::drv_geni_i2c::ProbeConfig;
use crate::numerals;
use crate::text;

verus! {

/// Where the controller's registers are mapped.
pub const MMIO_VA: u64 = 0x1100_0000;

/// How often the controller is polled before it is given up on.
pub const POLL_LIMIT: usize = 1_000_000;

/// The most bytes that one transfer reads.
pub const READ_ROOM: usize = 512;

/// Bytes of the buffer for a log line.
pub const LOG_ROOM: usize = 128;

/// The tag `S` of the message that brings the serving channel.
pub const SERVE_TAG: u8 = 0x53;

/// The status of a transfer that asks for more than it may.
pub const INVALID: i32 = -1;

pub const STARTING: &'static str = "drv-geni-i2c: starting\n";

/// At most the first `n` bytes of `s`.
pub open spec fn cut(s: Seq<u8>, n: int) -> Seq<u8> {
    if s.len() > n {
        s.take(n)
    } else {
        s
    }
}

/// A log line with a number in base sixteen behind its label, as far as the buffer goes.
pub open spec fn hex_line(label: Seq<u8>, value: nat) -> Seq<u8> {
    cut(cut(label, LOG_ROOM as int) + numerals::digits(value, 16) + seq![0x0au8], LOG_ROOM as int)
}

/// Writes [`hex_line`].
pub fn log_hex(label: &[u8], value: u64) -> (line: Vec<u8>)
    ensures
        line@ == hex_line(label@, value as nat),
{
    let mut out: Vec<u8> = Vec::new();
    bytes::append(&mut out, label);
    if out.len() > LOG_ROOM {
        out.truncate(LOG_ROOM);
    }
    assert(out@ =~= cut(label@, LOG_ROOM as int));
    numerals::push_hex_wide(&mut out, value, 0);
    out.push(0x0a);
    assert(out@ =~= cut(label@, LOG_ROOM as int) + numerals::digits(value as nat, 16) + seq![
        0x0au8,
    ]);
    if out.len() > LOG_ROOM {
        out.truncate(LOG_ROOM);
    }
    out
}

/// Where the driver is while it comes up.
#[derive(Clone, Copy, Debug, PartialEq, Eq, Structural)]
pub enum GeniPhase {
    ReadConfig,
    Mint,
    MapIn,
    Initialize,
    ReadServe,
    CreatePort,
    Bind,
    Koid,
    Serving,
    Failed,
}

/// A call that the driver makes while it comes up.
#[derive(Clone, Copy, Debug, PartialEq, Eq, Structural)]
pub enum GeniCall {
    ReadConfig,
    Mint { resource: Handle, base: u64, length: u64 },
    MapIn { vmo: Handle, at: u64, length: u64 },
    Initialize,
    ReadServe,
    CreatePort,
    Bind { port: Handle, channel: Handle },
    Koid { channel: Handle },
    Serve { port: Handle, koid: u64, channel: Handle },
    Exit { code: u64 },
}

/// What a call came back with.
#[derive(Clone, Copy, Debug, PartialEq, Eq)]
pub enum GeniEvent {
    /// The bootstrap message: its length, the handle with it, and the configuration in it.
    Config { received: usize, raw: u64, config: Option<ProbeConfig> },
    /// The controller: the code of its error, if it has one.
    Initialized { error: Option<u64> },
    /// The message with the serving channel.
    Serve { received: usize, tag: u8, raw: u64 },
    /// The raw result of any other call.
    Raw(u64),
}

/// The driver while it comes up.
#[derive(Clone, Copy, Debug, PartialEq, Eq)]
pub struct GeniStart {
    pub phase: GeniPhase,
    pub resource: Handle,
    pub base: u64,
    pub length: u64,
    pub vmo: Handle,
    pub channel: Handle,
    pub port: Handle,
    pub koid: u64,
}

/// The bytes of a text.
pub open spec fn t(s: &str) -> Seq<u8> {
    encode_utf8(s@)
}

impl GeniStart {
    pub open spec fn failed(self) -> GeniStart {
        GeniStart { phase: GeniPhase::Failed, ..self }
    }

    pub open spec fn call_of(self) -> GeniCall {
        match self.phase {
            GeniPhase::ReadConfig => GeniCall::ReadConfig,
            GeniPhase::Mint => GeniCall::Mint {
                resource: self.resource,
                base: self.base,
                length: self.length,
            },
            GeniPhase::MapIn => GeniCall::MapIn {
                vmo: self.vmo,
                at: MMIO_VA,
                length: self.length,
            },
            GeniPhase::Initialize => GeniCall::Initialize,
            GeniPhase::ReadServe => GeniCall::ReadServe,
            GeniPhase::CreatePort => GeniCall::CreatePort,
            GeniPhase::Bind => GeniCall::Bind { port: self.port, channel: self.channel },
            GeniPhase::Koid => GeniCall::Koid { channel: self.channel },
            GeniPhase::Serving => GeniCall::Serve {
                port: self.port,
                koid: self.koid,
                channel: self.channel,
            },
            GeniPhase::Failed => GeniCall::Exit { code: 1 },
        }
    }

    /// The driver after its call came back with `e`, and what it logs then. A result that does
    /// not belong to the call changes nothing.
    pub open spec fn after(self, e: GeniEvent) -> (GeniStart, Seq<u8>) {
        match (self.phase, e) {
            (
                GeniPhase::ReadConfig,
                GeniEvent::Config { received, raw, config },
            ) => if received != ProbeConfig::BYTES || raw == 0 {
                (self.failed(), t("drv-geni-i2c: bootstrap failed\n"))
            } else {
                match config {
                    None => (self.failed(), t("drv-geni-i2c: config invalid\n")),
                    Some(c) => (
                        GeniStart {
                            phase: GeniPhase::Mint,
                            resource: handle_of(raw),
                            base: c.mmio_base,
                            length: c.mmio_length,
                            ..self
                        },
                        t("drv-geni-i2c: config ok\n"),
                    ),
                }
            },
            (GeniPhase::Mint, GeniEvent::Raw(raw)) => if raw == NO_HANDLE {
                (self.failed(), t("drv-geni-i2c: MMIO mint failed\n"))
            } else {
                (
                    GeniStart { phase: GeniPhase::MapIn, vmo: handle_of(raw), ..self },
                    Seq::empty(),
                )
            },
            (GeniPhase::MapIn, GeniEvent::Raw(raw)) => if raw != 0 {
                (self.failed(), t("drv-geni-i2c: MMIO map failed\n"))
            } else {
                (
                    GeniStart { phase: GeniPhase::Initialize, ..self },
                    t("drv-geni-i2c: MMIO mapped\n"),
                )
            },
            (GeniPhase::Initialize, GeniEvent::Initialized { error }) => match error {
                Some(code) => (
                    self.failed(),
                    hex_line(t("drv-geni-i2c: GENI init error=0x"), code as nat),
                ),
                None => (
                    GeniStart { phase: GeniPhase::ReadServe, ..self },
                    t("drv-geni-i2c: GENI FIFO ready\n"),
                ),
            },
            (GeniPhase::ReadServe, GeniEvent::Serve { received, tag, raw }) => if received != 1
                || tag != SERVE_TAG || raw == 0 {
                (self.failed(), t("drv-geni-i2c: serve channel missing\n"))
            } else {
                (
                    GeniStart { phase: GeniPhase::CreatePort, channel: handle_of(raw), ..self },
                    t("drv-geni-i2c: serve channel ok\n"),
                )
            },
            (GeniPhase::CreatePort, GeniEvent::Raw(raw)) => if raw == NO_HANDLE {
                (self.failed(), t("drv-geni-i2c: port failed\n"))
            } else {
                (
                    GeniStart { phase: GeniPhase::Bind, port: handle_of(raw), ..self },
                    Seq::empty(),
                )
            },
            (GeniPhase::Bind, GeniEvent::Raw(raw)) => if raw != 0 {
                (self.failed(), t("drv-geni-i2c: bind failed\n"))
            } else {
                (GeniStart { phase: GeniPhase::Koid, ..self }, Seq::empty())
            },
            (GeniPhase::Koid, GeniEvent::Raw(raw)) => (
                GeniStart { phase: GeniPhase::Serving, koid: raw, ..self },
                t("drv-geni-i2c: ready\n"),
            ),
            _ => (self, Seq::empty()),
        }
    }

    /// A driver that has made no call yet.
    pub fn new() -> (s: GeniStart)
        ensures
            s == (GeniStart {
                phase: GeniPhase::ReadConfig,
                resource: Handle(0),
                base: 0,
                length: 0,
                vmo: Handle(0),
                channel: Handle(0),
                port: Handle(0),
                koid: 0,
            }),
    {
        GeniStart {
            phase: GeniPhase::ReadConfig,
            resource: Handle(0),
            base: 0,
            length: 0,
            vmo: Handle(0),
            channel: Handle(0),
            port: Handle(0),
            koid: 0,
        }
    }

    /// The call to make now.
    pub fn call(&self) -> (c: GeniCall)
        ensures
            c == self.call_of(),
    {
        match self.phase {
            GeniPhase::ReadConfig => GeniCall::ReadConfig,
            GeniPhase::Mint => GeniCall::Mint {
                resource: self.resource,
                base: self.base,
                length: self.length,
            },
            GeniPhase::MapIn => GeniCall::MapIn {
                vmo: self.vmo,
                at: MMIO_VA,
                length: self.length,
            },
            GeniPhase::Initialize => GeniCall::Initialize,
            GeniPhase::ReadServe => GeniCall::ReadServe,
            GeniPhase::CreatePort => GeniCall::CreatePort,
            GeniPhase::Bind => GeniCall::Bind { port: self.port, channel: self.channel },
            GeniPhase::Koid => GeniCall::Koid { channel: self.channel },
            GeniPhase::Serving => GeniCall::Serve {
                port: self.port,
                koid: self.koid,
                channel: self.channel,
            },
            GeniPhase::Failed => GeniCall::Exit { code: 1 },
        }
    }

    /// Takes in what the call came back with and returns the log line.
    pub fn advance(&mut self, e: GeniEvent) -> (line: Vec<u8>)
        ensures
            (*final(self), line@) == old(self).after(e),
    {
        match (self.phase, e) {
            (GeniPhase::ReadConfig, GeniEvent::Config { received, raw, config }) => {
                if received != ProbeConfig::BYTES || raw == 0 {
                    self.phase = GeniPhase::Failed;
                    return text::to_bytes("drv-geni-i2c: bootstrap failed\n");
                }
                match config {
                    None => {
                        self.phase = GeniPhase::Failed;
                        text::to_bytes("drv-geni-i2c: config invalid\n")
                    },
                    Some(c) => {
                        self.resource = to_handle(raw);
                        self.base = c.mmio_base;
                        self.length = c.mmio_length;
                        self.phase = GeniPhase::Mint;
                        text::to_bytes("drv-geni-i2c: config ok\n")
                    },
                }
            },
            (GeniPhase::Mint, GeniEvent::Raw(raw)) => {
                if raw == NO_HANDLE {
                    self.phase = GeniPhase::Failed;
                    text::to_bytes("drv-geni-i2c: MMIO mint failed\n")
                } else {
                    self.vmo = to_handle(raw);
                    self.phase = GeniPhase::MapIn;
                    Vec::new()
                }
            },
            (GeniPhase::MapIn, GeniEvent::Raw(raw)) => {
                if raw != 0 {
                    self.phase = GeniPhase::Failed;
                    text::to_bytes("drv-geni-i2c: MMIO map failed\n")
                } else {
                    self.phase = GeniPhase::Initialize;
                    text::to_bytes("drv-geni-i2c: MMIO mapped\n")
                }
            },
            (GeniPhase::Initialize, GeniEvent::Initialized { error }) => match error {
                Some(code) => {
                    self.phase = GeniPhase::Failed;
                    log_hex(text::to_bytes("drv-geni-i2c: GENI init error=0x").as_slice(), code)
                },
                None => {
                    self.phase = GeniPhase::ReadServe;
                    text::to_bytes("drv-geni-i2c: GENI FIFO ready\n")
                },
            },
            (GeniPhase::ReadServe, GeniEvent::Serve { received, tag, raw }) => {
                if received != 1 || tag != SERVE_TAG || raw == 0 {
                    self.phase = GeniPhase::Failed;
                    text::to_bytes("drv-geni-i2c: serve channel missing\n")
                } else {
                    self.channel = to_handle(raw);
                    self.phase = GeniPhase::CreatePort;
                    text::to_bytes("drv-geni-i2c: serve channel ok\n")
                }
            },
            (GeniPhase::CreatePort, GeniEvent::Raw(raw)) => {
                if raw == NO_HANDLE {
                    self.phase = GeniPhase::Failed;
                    text::to_bytes("drv-geni-i2c: port failed\n")
                } else {
                    self.port = to_handle(raw);
                    self.phase = GeniPhase::Bind;
                    Vec::new()
                }
            },
            (GeniPhase::Bind, GeniEvent::Raw(raw)) => {
                if raw != 0 {
                    self.phase = GeniPhase::Failed;
                    text::to_bytes("drv-geni-i2c: bind failed\n")
                } else {
                    self.phase = GeniPhase::Koid;
                    Vec::new()
                }
            },
            (GeniPhase::Koid, GeniEvent::Raw(raw)) => {
                self.koid = raw;
                self.phase = GeniPhase::Serving;
                text::to_bytes("drv-geni-i2c: ready\n")
            },
            _ => Vec::new(),
        }
    }
}

/// What becomes of a wake-up.
#[derive(Clone, Copy, Debug, PartialEq, Eq, Structural)]
pub enum Admission {
    /// Nothing to do: the next wake-up is awaited.
    Skip,
    /// The request is too short: its answer channel is closed without an answer.
    Refuse { reply: Handle },
    /// The request is served, and its answer channel closed afterwards.
    Serve { reply: Handle },
}

/// Whether a wake-up brought a request: it came from the serving channel, and the message has
/// content, an answer channel and at least a whole header.
pub open spec fn admitted(
    source: u64,
    koid: u64,
    n: usize,
    header_len: usize,
    reply_raw: u64,
) -> Admission {
    if source != koid || n == 0 || reply_raw == 0 {
        Admission::Skip
    } else if n < header_len {
        Admission::Refuse { reply: handle_of(reply_raw) }
    } else {
        Admission::Serve { reply: handle_of(reply_raw) }
    }
}

/// Computes [`admitted`].
pub fn on_wake(
    source: u64,
    koid: u64,
    n: usize,
    header_len: usize,
    reply_raw: u64,
) -> (a: Admission)
    ensures
        a == admitted(source, koid, n, header_len, reply_raw),
{
    if source != koid || n == 0 || reply_raw == 0 {
        Admission::Skip
    } else if n < header_len {
        Admission::Refuse { reply: to_handle(reply_raw) }
    } else {
        Admission::Serve { reply: to_handle(reply_raw) }
    }
}

/// What a request asks for.
#[derive(Clone, Copy, Debug, PartialEq, Eq, Structural)]
pub enum BusOp {
    /// The operations that the driver knows.
    Funcs,
    /// An empty write, which tells whether a device answers.
    WriteQuick,
    /// One byte.
    ReadByte,
    /// A write, a read, or a write and then a read.
    Transfer { write_len: usize, read_len: usize },
    /// Anything else.
    Unknown,
}

/// What the driver does for a request.
#[derive(Clone, Copy, Debug, PartialEq, Eq, Structural)]
pub enum BusPlan {
    TellFunctions,
    WriteNothing { address: u8 },
    ReadOne { address: u8 },
    /// Writes the request's bytes from `from` to `to`, then reads.
    WriteRead { address: u8, from: usize, to: usize, read_len: usize },
    Write { address: u8, from: usize, to: usize },
    Read { address: u8, read_len: usize },
    /// An empty transfer, which succeeds.
    Empty,
    /// A transfer that goes beyond the request or the buffer.
    Reject,
    /// No answer at all.
    Ignore,
}

/// The plan for a request of `n` bytes. A transfer's data begins behind its `transfer_len` bytes
/// of fixed part; one that does not even hold that part is ignored.
pub open spec fn planned(n: usize, transfer_len: usize, op: BusOp, address: u8) -> BusPlan {
    match op {
        BusOp::Funcs => BusPlan::TellFunctions,
        BusOp::WriteQuick => BusPlan::WriteNothing { address },
        BusOp::ReadByte => BusPlan::ReadOne { address },
        BusOp::Transfer { write_len, read_len } => if n < transfer_len {
            BusPlan::Ignore
        } else if transfer_len + write_len > n || read_len > READ_ROOM {
            BusPlan::Reject
        } else {
            let to = (transfer_len + write_len) as usize;
            if write_len > 0 && read_len > 0 {
                BusPlan::WriteRead { address, from: transfer_len, to, read_len }
            } else if write_len > 0 {
                BusPlan::Write { address, from: transfer_len, to }
            } else if read_len > 0 {
                BusPlan::Read { address, read_len }
            } else {
                BusPlan::Empty
            }
        },
        BusOp::Unknown => BusPlan::Ignore,
    }
}

/// Computes [`planned`].
pub fn plan(n: usize, transfer_len: usize, op: BusOp, address: u8) -> (p: BusPlan)
    ensures
        p == planned(n, transfer_len, op, address),
{
    match op {
        BusOp::Funcs => BusPlan::TellFunctions,
        BusOp::WriteQuick => BusPlan::WriteNothing { address },
        BusOp::ReadByte => BusPlan::ReadOne { address },
        BusOp::Transfer { write_len, read_len } => {
            if n < transfer_len {
                return BusPlan::Ignore;
            }
            if write_len > n - transfer_len || read_len > READ_ROOM {
                return BusPlan::Reject;
            }
            let to: usize = transfer_len + write_len;
            if write_len > 0 && read_len > 0 {
                BusPlan::WriteRead { address, from: transfer_len, to, read_len }
            } else if write_len > 0 {
                BusPlan::Write { address, from: transfer_len, to }
            } else if read_len > 0 {
                BusPlan::Read { address, read_len }
            } else {
                BusPlan::Empty
            }
        },
        BusOp::Unknown => BusPlan::Ignore,
    }
}

/// A plan never leaves the request or the buffer: what it writes lies behind the fixed part and
/// inside the message, and what it reads fits.
pub proof fn plans_stay_in_bounds(n: usize, transfer_len: usize, op: BusOp, address: u8)
    ensures
        planned(n, transfer_len, op, address) matches BusPlan::WriteRead { from, to, read_len, .. }
            ==> transfer_len <= from <= to <= n && read_len <= READ_ROOM,
        planned(n, transfer_len, op, address) matches BusPlan::Write { from, to, .. }
            ==> transfer_len <= from <= to <= n,
        planned(n, transfer_len, op, address) matches BusPlan::Read { read_len, .. } ==> read_len
            <= READ_ROOM,
{
}

/// The status for a controller's result: zero, or the code of its error below zero.
pub open spec fn status_for(error: Option<i32>) -> int {
    match error {
        None => 0,
        Some(code) => -code,
    }
}

/// Computes [`status_for`].
pub fn status_of(error: Option<i32>) -> (status: i32)
    requires
        error matches Some(code) ==> code != i32::MIN,
    ensures
        status == status_for(error),
{
    match error {
        None => 0,
        Some(code) => 0 - code,
    }
}

/// How many bytes the answer to a transfer carries: those that were read, if all went well.
pub open spec fn answered_len(status: i32, read_len: usize) -> usize {
    if status == 0 {
        read_len
    } else {
        0
    }
}

/// The bytes behind the answer's fixed part.
pub open spec fn answer_data(status: i32, read: Seq<u8>) -> Seq<u8> {
    if status == 0 {
        read
    } else {
        Seq::empty()
    }
}

/// The answer to a transfer: its fixed part, then what was read.
pub fn transfer_answer(head: &[u8], status: i32, read: &[u8]) -> (message: Vec<u8>)
    requires
        head.len() + read.len() <= usize::MAX,
    ensures
        message@ == head@ + answer_data(status, read@),
        message@.len() == head.len() + answered_len(status, read@.len() as usize),
{
    let mut out: Vec<u8> = Vec::new();
    bytes::append(&mut out, head);
    if status == 0 {
        bytes::append(&mut out, read);
    }
    assert(out@ =~= head@ + answer_data(status, read@));
    out
}

/// How many calls are left until the driver serves.
pub open spec fn calls_left(p: GeniPhase) -> int {
    match p {
        GeniPhase::ReadConfig => 8,
        GeniPhase::Mint => 7,
        GeniPhase::MapIn => 6,
        GeniPhase::Initialize => 5,
        GeniPhase::ReadServe => 4,
        GeniPhase::CreatePort => 3,
        GeniPhase::Bind => 2,
        GeniPhase::Koid => 1,
        GeniPhase::Serving | GeniPhase::Failed => 0,
    }
}

/// Whether `e` is a result of the call that is made in phase `p`.
pub open spec fn belongs(p: GeniPhase, e: GeniEvent) -> bool {
    match p {
        GeniPhase::ReadConfig => e is Config,
        GeniPhase::Initialize => e is Initialized,
        GeniPhase::ReadServe => e is Serve,
        _ => e is Raw,
    }
}

/// The driver serves only after every step succeeded, and no step is taken twice: each result
/// brings it closer to serving, or ends it.
pub proof fn startup_moves_forward(s: GeniStart, e: GeniEvent)
    requires
        belongs(s.phase, e),
    ensures
        calls_left(s.phase) > 0 ==> s.after(e).0.phase == GeniPhase::Failed || calls_left(
            s.after(e).0.phase,
        ) == calls_left(s.phase) - 1,
        calls_left(s.phase) == 0 ==> s.after(e).0 == s,
{
}

/// How the driver comes up: it takes its window's handle and place out of the configuration, maps it at
/// 0x1100_0000, brings the controller up, takes the serving channel, binds it to a port and serves it.
#[verifier::rlimit(40)]
pub proof fn drivers_come_up_step_by_step(
    s: GeniStart,
    resource: u64,
    c: ProbeConfig,
    vmo: u64,
    channel: u64,
    port: u64,
    koid: u64,
)
    requires
        s.phase is ReadConfig,
        resource != 0 && channel != 0,
        vmo != u64::MAX && port != u64::MAX,
    ensures
        ({
            let (s1, l1) = s.after(
                GeniEvent::Config { received: 32, raw: resource, config: Some(c) },
            );
            let (s2, l2) = s1.after(GeniEvent::Raw(vmo));
            let (s3, l3) = s2.after(GeniEvent::Raw(0));
            let (s4, l4) = s3.after(GeniEvent::Initialized { error: None });
            let (s5, l5) = s4.after(GeniEvent::Serve { received: 1, tag: 0x53, raw: channel });
            let (s6, l6) = s5.after(GeniEvent::Raw(port));
            let (s7, l7) = s6.after(GeniEvent::Raw(0));
            let (s8, l8) = s7.after(GeniEvent::Raw(koid));
            let ch = Handle(channel as u32);
            let po = Handle(port as u32);
            &&& s.call_of() == GeniCall::ReadConfig
            &&& s1.call_of() == (GeniCall::Mint {
                resource: Handle(resource as u32),
                base: c.mmio_base,
                length: c.mmio_length,
            })
            &&& s2.call_of() == (GeniCall::MapIn {
                vmo: Handle(vmo as u32),
                at: 0x1100_0000,
                length: c.mmio_length,
            })
            &&& s3.call_of() == GeniCall::Initialize
            &&& s4.call_of() == GeniCall::ReadServe
            &&& s5.call_of() == GeniCall::CreatePort
            &&& s6.call_of() == (GeniCall::Bind { port: po, channel: ch })
            &&& s7.call_of() == (GeniCall::Koid { channel: ch })
            &&& s8.call_of() == (GeniCall::Serve { port: po, koid, channel: ch })
            &&& l1 == t("drv-geni-i2c: config ok\n")
            &&& l2 == Seq::<u8>::empty()
            &&& l3 == t("drv-geni-i2c: MMIO mapped\n")
            &&& l4 == t("drv-geni-i2c: GENI FIFO ready\n")
            &&& l5 == t("drv-geni-i2c: serve channel ok\n")
            &&& l6 == Seq::<u8>::empty()
            &&& l7 == Seq::<u8>::empty()
            &&& l8 == t("drv-geni-i2c: ready\n")
        }),
{
}

/// A step that fails ends the driver with code 1, and the log names the step.
pub proof fn failed_steps_are_named(
    s: GeniStart,
    raw: u64,
    received: usize,
    tag: u8,
    c: Option<ProbeConfig>,
    code: u64,
)
    ensures
        s.failed().call_of() == (GeniCall::Exit { code: 1 }),
        s.phase is ReadConfig && (received != 32 || raw == 0) ==> s.after(
            GeniEvent::Config { received, raw, config: c },
        ) == (s.failed(), t("drv-geni-i2c: bootstrap failed\n")),
        s.phase is ReadConfig && raw != 0 ==> s.after(
            GeniEvent::Config { received: 32, raw, config: None },
        ) == (s.failed(), t("drv-geni-i2c: config invalid\n")),
        s.phase is Mint ==> s.after(GeniEvent::Raw(u64::MAX)) == (
            s.failed(),
            t("drv-geni-i2c: MMIO mint failed\n"),
        ),
        s.phase is MapIn && raw != 0 ==> s.after(GeniEvent::Raw(raw)) == (
            s.failed(),
            t("drv-geni-i2c: MMIO map failed\n"),
        ),
        s.phase is Initialize ==> s.after(GeniEvent::Initialized { error: Some(code) }) == (
            s.failed(),
            hex_line(t("drv-geni-i2c: GENI init error=0x"), code as nat),
        ),
        s.phase is ReadServe && (received != 1 || tag != 0x53 || raw == 0) ==> s.after(
            GeniEvent::Serve { received, tag, raw },
        ) == (s.failed(), t("drv-geni-i2c: serve channel missing\n")),
        s.phase is CreatePort ==> s.after(GeniEvent::Raw(u64::MAX)) == (
            s.failed(),
            t("drv-geni-i2c: port failed\n"),
        ),
        s.phase is Bind && raw != 0 ==> s.after(GeniEvent::Raw(raw)) == (
            s.failed(),
            t("drv-geni-i2c: bind failed\n"),
        ),
{
}

/// A wake-up brings a request just where it is the serving channel's and its message has content and an answer
/// channel; one that is shorter than a header is refused.
pub proof fn requests_need_a_header_and_a_reply(
    source: u64,
    koid: u64,
    n: usize,
    header: usize,
    reply: u64,
)
    ensures
        source != koid || n == 0 || reply == 0 ==> admitted(source, koid, n, header, reply)
            == Admission::Skip,
        source == koid && 0 < n < header && reply != 0 ==> admitted(source, koid, n, header, reply) == (
        Admission::Refuse { reply: Handle(reply as u32) }),
        source == koid && n > 0 && n >= header && reply != 0 ==> admitted(
            source,
            koid,
            n,
            header,
            reply,
        ) == (Admission::Serve { reply: Handle(reply as u32) }),
{
}

/// What each request is planned as. A transfer is rejected where its data goes beyond the message or it reads more
/// than 512 bytes, and ignored where it lacks its fixed part; otherwise it writes what it carries and then reads
/// what it asks for.
pub proof fn requests_are_planned_by_kind(n: usize, fixed: usize, address: u8, w: usize, r: usize)
    requires
        fixed + w <= usize::MAX,
    ensures
        planned(n, fixed, BusOp::Funcs, address) == BusPlan::TellFunctions,
        planned(n, fixed, BusOp::WriteQuick, address) == (BusPlan::WriteNothing { address }),
        planned(n, fixed, BusOp::ReadByte, address) == (BusPlan::ReadOne { address }),
        planned(n, fixed, BusOp::Unknown, address) == BusPlan::Ignore,
        ({
            let p = planned(n, fixed, BusOp::Transfer { write_len: w, read_len: r }, address);
            let fits = fixed <= n && fixed + w <= n && r <= 512;
            &&& n < fixed ==> p == BusPlan::Ignore
            &&& n >= fixed && (fixed + w > n || r > 512) ==> p == BusPlan::Reject
            &&& fits && w > 0 && r > 0 ==> p == (BusPlan::WriteRead {
                address,
                from: fixed,
                to: (fixed + w) as usize,
                read_len: r,
            })
            &&& fits && w > 0 && r == 0 ==> p == (BusPlan::Write {
                address,
                from: fixed,
                to: (fixed + w) as usize,
            })
            &&& fits && w == 0 && r > 0 ==> p == (BusPlan::Read { address, read_len: r })
            &&& fits && w == 0 && r == 0 ==> p == BusPlan::Empty
        }),
{
}

/// A transfer that went well has the status zero and its data behind the fixed part; one that did not has the
/// error's code below zero and no data.
pub proof fn answers_carry_data_on_success(code: i32, status: i32, read: Seq<u8>, len: usize)
    ensures
        status_for(None) == 0,
        status_for(Some(code)) + code == 0,
        answered_len(0, len) == len,
        answer_data(0, read) == read,
        status != 0 ==> answered_len(status, len) == 0 && answer_data(status, read) == Seq::<
            u8,
        >::empty(),
{
}

/// A log line is its label, the number's hexadecimal digits and a newline, as far as 128 bytes go.
pub proof fn log_lines_fit_128_bytes(label: Seq<u8>, value: nat)
    ensures
        hex_line(label, value).len() <= 128,
        label.len() + numerals::digits(value, 16).len() + 1 <= 128 ==> hex_line(label, value) == label
            + numerals::digits(value, 16) + seq![0x0au8],
{
}

} // verus!
