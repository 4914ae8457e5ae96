//! Starting the driver: the bootstrap messages, the controller, the device's
//! descriptors, its power and reset, and what the log says of each.

use vstd::prelude::*;

use crate::abi::{handle_of, to_handle, Handle};
use crate::bytes;
use crate::drv_i2c_hid::config::ProbeConfig;
use crate::drv_i2c_hid::report::{
    bounded_input_frame_len, bounded_report_descriptor_len, ReportProbeError,
};
use crate::drv_i2c_hid::stats::{
    quirks_of, DeviceQuirks, StartupLatencyTrace, StartupMilestone, TraceView, since,
};
use crate::numerals;
use crate::sora::sequence::t;
use crate::text;

verus! {

pub const MMIO_VA: u64 = 0x1100_0000;

pub const POLL_LIMIT: usize = 1_000_000;

pub const POWER_ON_SETTLE_NS: u64 = 60_000_000;

pub const RESET_ACK_TIMEOUT_NS: u64 = 1_000_000_000;

/// Most bytes of a report that sets the lamps.
pub const MAX_LED_OUTPUT_PAYLOAD_BYTES: usize = 16;

/// What a device's descriptor says.
#[derive(Clone, Copy, Debug, PartialEq, Eq, Structural)]
pub struct Descriptor {
    pub vendor_id: u16,
    pub product_id: u16,
    pub report_descriptor_length: u16,
    pub report_descriptor_register: u16,
    pub input_register: u16,
    pub max_input_length: u16,
    pub output_register: u16,
    pub max_output_length: u16,
    pub command_register: u16,
    pub data_register: u16,
}

/// A report that sets the lamps.
#[derive(Clone, Copy, Debug, PartialEq, Eq, Structural)]
pub struct LedReport {
    pub report_id: Option<u8>,
    pub payload_bytes: usize,
    pub caps_lock_bit: Option<u16>,
}

/// A device's mouse report, by its number, or why it has none.
#[derive(Clone, Copy, Debug, PartialEq, Eq, Structural)]
pub enum MouseFound {
    Report(Option<u8>),
    Rejected(u64),
}

/// What a report descriptor says: the keyboard's report, the mouse's or why
/// there is none, and the lamps'.
#[derive(Clone, Copy, Debug, PartialEq, Eq, Structural)]
pub struct Reports {
    pub keyboard_id: Option<u8>,
    pub mouse: MouseFound,
    pub led: Option<LedReport>,
}

/// Why the lamps were not set.
#[derive(Clone, Copy, Debug, PartialEq, Eq, Structural)]
pub enum LedSyncError {
    NoCapsLockLed,
    PayloadTooLong,
    NoOutputPath,
    Format,
    Transfer,
}

/// An error's number in the log.
pub open spec fn led_code(e: LedSyncError) -> u64 {
    match e {
        LedSyncError::NoCapsLockLed => 0,
        LedSyncError::PayloadTooLong => 1,
        LedSyncError::NoOutputPath => 2,
        LedSyncError::Format => 3,
        LedSyncError::Transfer => 4,
    }
}

pub fn led_error_code(e: LedSyncError) -> (n: u64)
    ensures
        n == led_code(e),
{
    match e {
        LedSyncError::NoCapsLockLed => 0,
        LedSyncError::PayloadTooLong => 1,
        LedSyncError::NoOutputPath => 2,
        LedSyncError::Format => 3,
        LedSyncError::Transfer => 4,
    }
}

/// By which register a report reaches the device.
#[derive(Clone, Copy, Debug, PartialEq, Eq, Structural)]
pub enum OutputPath {
    /// Straight to the output register.
    Plain,
    /// By a command, with its data in the data register.
    Command,
}

/// The bit of a byte.
pub open spec fn bit_value(n: int) -> u8 {
    if n == 0 {
        1
    } else if n == 1 {
        2
    } else if n == 2 {
        4
    } else if n == 3 {
        8
    } else if n == 4 {
        16
    } else if n == 5 {
        32
    } else if n == 6 {
        64
    } else {
        128
    }
}

/// The bytes that set or clear the caps lock lamp and clear every other.
pub open spec fn led_bytes(led: LedReport, caps_lock: bool) -> Seq<u8> {
    Seq::new(
        led.payload_bytes as nat,
        |i: int|
            if caps_lock && i == led.caps_lock_bit->0 / 8 {
                bit_value(led.caps_lock_bit->0 as int % 8)
            } else {
                0
            },
    )
}

/// How the lamps are set, or why they cannot be.
pub open spec fn led_plan_of(d: Descriptor, led: LedReport) -> Result<OutputPath, LedSyncError> {
    match led.caps_lock_bit {
        None => Err(LedSyncError::NoCapsLockLed),
        Some(b) => if led.payload_bytes == 0 || led.payload_bytes > 16 || b / 8
            >= led.payload_bytes {
            Err(LedSyncError::PayloadTooLong)
        } else if d.output_register != 0 && d.max_output_length != 0 {
            Ok(OutputPath::Plain)
        } else if d.command_register != 0 && d.data_register != 0 {
            Ok(OutputPath::Command)
        } else {
            Err(LedSyncError::NoOutputPath)
        },
    }
}

/// Plans a report that sets the caps lock lamp: its way and its bytes.
pub fn caps_lock_led(d: Descriptor, led: LedReport, caps_lock: bool) -> (r: Result<
    (OutputPath, Vec<u8>),
    LedSyncError,
>)
    ensures
        match r {
            Ok((path, payload)) => led_plan_of(d, led) == Ok::<OutputPath, LedSyncError>(path)
                && payload@ == led_bytes(led, caps_lock),
            Err(e) => led_plan_of(d, led) == Err::<OutputPath, LedSyncError>(e),
        },
{
    let bit: usize = match led.caps_lock_bit {
        None => return Err(LedSyncError::NoCapsLockLed),
        Some(b) => b as usize,
    };
    if led.payload_bytes == 0 || led.payload_bytes > MAX_LED_OUTPUT_PAYLOAD_BYTES || bit / 8
        >= led.payload_bytes {
        return Err(LedSyncError::PayloadTooLong);
    }
    let path: OutputPath = if d.output_register != 0 && d.max_output_length != 0 {
        OutputPath::Plain
    } else if d.command_register != 0 && d.data_register != 0 {
        OutputPath::Command
    } else {
        return Err(LedSyncError::NoOutputPath);
    };
    let place: usize = bit % 8;
    let value: u8 = if place == 0 {
        1
    } else if place == 1 {
        2
    } else if place == 2 {
        4
    } else if place == 3 {
        8
    } else if place == 4 {
        16
    } else if place == 5 {
        32
    } else if place == 6 {
        64
    } else {
        128
    };
    let mut payload: Vec<u8> = Vec::new();
    let mut i: usize = 0;
    while i < led.payload_bytes
        invariant
            i <= led.payload_bytes,
            led.caps_lock_bit is Some,
            bit == led.caps_lock_bit->0,
            value == bit_value(bit as int % 8),
            payload@ == led_bytes(led, caps_lock).subrange(0, i as int),
        decreases led.payload_bytes - i,
    {
        payload.push(
            if caps_lock && i == bit / 8 {
                value
            } else {
                0
            },
        );
        i += 1;
        assert(payload@ =~= led_bytes(led, caps_lock).subrange(0, i as int));
    }
    assert(payload@ =~= led_bytes(led, caps_lock));
    Ok((path, payload))
}

/// A number in hexadecimal.
pub open spec fn x(v: u64) -> Seq<u8> {
    numerals::padded(numerals::digits(v as nat, 16), 1, 0x30)
}

fn push_x(out: &mut Vec<u8>, v: u64)
    ensures
        final(out)@ == old(out)@ + x(v),
{
    numerals::push_hex_wide(out, v, 1);
}

/// A number in hexadecimal behind a label, and the end of the line.
pub open spec fn labelled_text(label: &str, v: u64) -> Seq<u8> {
    t(label) + x(v) + t("\n")
}

pub fn push_labelled(out: &mut Vec<u8>, label: &str, v: u64)
    ensures
        final(out)@ == old(out)@ + labelled_text(label, v),
{
    let mut line: Vec<u8> = text::to_bytes(label);
    push_x(&mut line, v);
    text::append_text(&mut line, "\n");
    bytes::append(out, &line);
}

/// Bytes as pairs of digits, each with a blank behind it.
pub open spec fn pairs(v: Seq<u8>) -> Seq<u8>
    decreases v.len(),
{
    if v.len() == 0 {
        Seq::empty()
    } else {
        pairs(v.drop_last()) + numerals::padded(numerals::digits(v.last() as nat, 16), 2, 0x30) + t(
            " ",
        )
    }
}

/// The start of a frame, at most sixteen bytes.
pub open spec fn shown(v: Seq<u8>) -> Seq<u8> {
    if v.len() <= 16 {
        v
    } else {
        v.subrange(0, 16)
    }
}

/// The start of a frame behind a label.
pub open spec fn frame_text(label: &str, v: Seq<u8>) -> Seq<u8> {
    t(label) + pairs(shown(v)) + t("\n")
}

pub fn push_frame(out: &mut Vec<u8>, label: &str, v: &[u8])
    ensures
        final(out)@ == old(out)@ + frame_text(label, v@),
{
    let n: usize = bytes::min_len(v.len(), 16);
    let part: &[u8] = &v[0..n];
    assert(part@ =~= shown(v@));
    let mut line: Vec<u8> = text::to_bytes(label);
    let mut list: Vec<u8> = Vec::new();
    let mut i: usize = 0;
    assert(part@.subrange(0, 0) =~= Seq::empty());
    while i < n
        invariant
            i <= n == part@.len(),
            list@ == pairs(part@.subrange(0, i as int)),
        decreases n - i,
    {
        numerals::push_hex_wide(&mut list, part[i] as u64, 2);
        text::append_text(&mut list, " ");
        i += 1;
        assert(part@.subrange(0, i as int).drop_last() =~= part@.subrange(0, i - 1));
    }
    assert(part@.subrange(0, i as int) =~= part@);
    bytes::append(&mut line, &list);
    text::append_text(&mut line, "\n");
    bytes::append(out, &line);
}

/// A time, or that there is none.
pub open spec fn time_text(v: Option<u64>) -> Seq<u8> {
    match v {
        Some(ns) => t("0x") + x(ns),
        None => t("none"),
    }
}

fn push_time(out: &mut Vec<u8>, v: Option<u64>)
    ensures
        final(out)@ == old(out)@ + time_text(v),
{
    match v {
        Some(ns) => {
            let mut line: Vec<u8> = text::to_bytes("0x");
            push_x(&mut line, ns);
            bytes::append(out, &line);
        },
        None => {
            text::append_text(out, "none");
        },
    }
}

/// How long it took to reach a step.
pub open spec fn elapsed_of(v: TraceView, m: StartupMilestone) -> Option<u64> {
    match v.marks[m.place()] {
        Some(at) => Some(since(at, v.start_ns)),
        None => None,
    }
}

/// How long it took from one step to another.
pub open spec fn span_of(v: TraceView, a: StartupMilestone, b: StartupMilestone) -> Option<u64> {
    match (v.marks[a.place()], v.marks[b.place()]) {
        (Some(s), Some(e)) => Some(since(e, s)),
        _ => None,
    }
}

/// One line of the startup times.
pub open spec fn startup_line_text(
    v: TraceView,
    label: &str,
    m: StartupMilestone,
    previous: StartupMilestone,
) -> Seq<u8> {
    t("drv-i2c-hid: startup ") + t(label) + t(" total=") + time_text(elapsed_of(v, m)) + t(" step=")
        + time_text(span_of(v, previous, m)) + t("\n")
}

fn push_startup_line(
    out: &mut Vec<u8>,
    trace: StartupLatencyTrace,
    label: &str,
    m: StartupMilestone,
    previous: StartupMilestone,
)
    ensures
        final(out)@ == old(out)@ + startup_line_text(trace@, label, m, previous),
{
    let mut line: Vec<u8> = text::to_bytes("drv-i2c-hid: startup ");
    text::append_text(&mut line, label);
    text::append_text(&mut line, " total=");
    push_time(&mut line, trace.elapsed_ns(m));
    text::append_text(&mut line, " step=");
    push_time(&mut line, trace.span_ns(previous, m));
    text::append_text(&mut line, "\n");
    bytes::append(out, &line);
}

/// The startup times.
pub open spec fn startup_text(v: TraceView) -> Seq<u8> {
    t("drv-i2c-hid: startup-latency-ns begin\n") + (t("drv-i2c-hid: startup config total=")
        + time_text(elapsed_of(v, StartupMilestone::ConfigOk)) + t("\n")) + startup_line_text(
        v,
        "channels",
        StartupMilestone::ChannelsOk,
        StartupMilestone::ConfigOk,
    ) + startup_line_text(
        v,
        "mmio",
        StartupMilestone::MmioMapped,
        StartupMilestone::ChannelsOk,
    ) + startup_line_text(
        v,
        "geni",
        StartupMilestone::GeniReady,
        StartupMilestone::MmioMapped,
    ) + startup_line_text(
        v,
        "hdesc",
        StartupMilestone::HidDescriptorOk,
        StartupMilestone::GeniReady,
    ) + startup_line_text(
        v,
        "set-power",
        StartupMilestone::SetPowerDone,
        StartupMilestone::HidDescriptorOk,
    ) + startup_line_text(
        v,
        "settle",
        StartupMilestone::PowerSettleDone,
        StartupMilestone::SetPowerDone,
    ) + startup_line_text(
        v,
        "reset-write",
        StartupMilestone::ResetDone,
        StartupMilestone::ResetBegin,
    ) + startup_line_text(
        v,
        "irq-create",
        StartupMilestone::AttentionCreated,
        StartupMilestone::ResetDone,
    ) + startup_line_text(
        v,
        "reset-sync",
        StartupMilestone::ResetSyncDone,
        StartupMilestone::AttentionCreated,
    ) + startup_line_text(
        v,
        "rdesc",
        StartupMilestone::ReportDescriptorOk,
        StartupMilestone::ResetSyncDone,
    ) + startup_line_text(
        v,
        "ready",
        StartupMilestone::Ready,
        StartupMilestone::ReportDescriptorOk,
    ) + t("drv-i2c-hid: startup-latency-ns end\n")
}

/// Reports the startup times.
pub fn startup_latency(trace: StartupLatencyTrace) -> (out: Vec<u8>)
    ensures
        out@ == startup_text(trace@),
{
    let mut first: Vec<u8> = text::to_bytes("drv-i2c-hid: startup config total=");
    push_time(&mut first, trace.elapsed_ns(StartupMilestone::ConfigOk));
    text::append_text(&mut first, "\n");
    let mut out: Vec<u8> = text::to_bytes("drv-i2c-hid: startup-latency-ns begin\n");
    bytes::append(&mut out, &first);
    push_startup_line(
        &mut out,
        trace,
        "channels",
        StartupMilestone::ChannelsOk,
        StartupMilestone::ConfigOk,
    );
    push_startup_line(
        &mut out,
        trace,
        "mmio",
        StartupMilestone::MmioMapped,
        StartupMilestone::ChannelsOk,
    );
    push_startup_line(
        &mut out,
        trace,
        "geni",
        StartupMilestone::GeniReady,
        StartupMilestone::MmioMapped,
    );
    push_startup_line(
        &mut out,
        trace,
        "hdesc",
        StartupMilestone::HidDescriptorOk,
        StartupMilestone::GeniReady,
    );
    push_startup_line(
        &mut out,
        trace,
        "set-power",
        StartupMilestone::SetPowerDone,
        StartupMilestone::HidDescriptorOk,
    );
    push_startup_line(
        &mut out,
        trace,
        "settle",
        StartupMilestone::PowerSettleDone,
        StartupMilestone::SetPowerDone,
    );
    push_startup_line(
        &mut out,
        trace,
        "reset-write",
        StartupMilestone::ResetDone,
        StartupMilestone::ResetBegin,
    );
    push_startup_line(
        &mut out,
        trace,
        "irq-create",
        StartupMilestone::AttentionCreated,
        StartupMilestone::ResetDone,
    );
    push_startup_line(
        &mut out,
        trace,
        "reset-sync",
        StartupMilestone::ResetSyncDone,
        StartupMilestone::AttentionCreated,
    );
    push_startup_line(
        &mut out,
        trace,
        "rdesc",
        StartupMilestone::ReportDescriptorOk,
        StartupMilestone::ResetSyncDone,
    );
    push_startup_line(
        &mut out,
        trace,
        "ready",
        StartupMilestone::Ready,
        StartupMilestone::ReportDescriptorOk,
    );
    text::append_text(&mut out, "drv-i2c-hid: startup-latency-ns end\n");
    out
}

/// Where startup stands.
#[derive(Clone, Copy, Debug, PartialEq, Eq, Structural)]
pub enum StartPhase {
    Config,
    Keyboard,
    Mouse,
    Mint,
    MapMmio { vmo: Handle },
    Geni,
    Descriptor,
    SetPower,
    Settle,
    Reset,
    Attention,
    ResetWait,
    ResetRead,
    Wake,
    WakeSettle,
    ReportDescriptor { len: usize },
    Led,
    Ready,
    Exit,
}

/// What startup waits for.
#[derive(Clone, Copy, Debug, PartialEq, Eq, Structural)]
pub enum StartCall {
    ReadConfig,
    ReadKeyboardChannel,
    ReadMouseChannel,
    MintMmio { base: u64, len: u64 },
    MapMmio { vmo: Handle, va: u64, len: u64 },
    OpenController { polls: usize },
    ReadDescriptor { address: u8, register: u16 },
    PowerOn { address: u8, register: u16 },
    Sleep { ns: u64 },
    Reset { address: u8, register: u16 },
    /// Creates the attention interrupt, on its falling edge or as it is.
    CreateAttention { irq: u32, falling: bool },
    WaitAttention { ns: u64 },
    /// Reads a frame and completes the interrupt.
    ReadFrame { address: u8, count: usize },
    ReadReports { address: u8, register: u16, count: usize },
    /// Clears the caps lock lamp.
    ClearLed { led: LedReport },
    Serve,
    Exit,
}

/// What came of the first bootstrap message.
#[derive(Clone, Copy, Debug, PartialEq, Eq, Structural)]
pub enum Told {
    Nothing,
    Invalid,
    Config(ProbeConfig),
}

/// What came of a descriptor.
#[derive(Clone, Copy, Debug, PartialEq, Eq, Structural)]
pub enum Described {
    Transfer(u64),
    Parse(u64),
    Device(Descriptor),
}

/// What came of the report descriptor.
#[derive(Clone, Copy, Debug, PartialEq, Eq, Structural)]
pub enum Reported {
    Transfer(u64),
    Parse(u64),
    Reports(Reports),
}

/// What came of the frame that ends a reset.
#[derive(Debug)]
pub enum Synced {
    Read(u64),
    Complete,
    Frame(Vec<u8>),
}

/// A [`Synced`] as plain data.
#[verifier::ext_equal]
pub enum SyncedView {
    Read(u64),
    Complete,
    Frame(Seq<u8>),
}

/// What came back.
#[derive(Debug)]
pub enum StartEvent {
    Told(Told),
    Done(bool),
    Returned(u64),
    /// A transfer succeeded, or failed with this code.
    Tried(Option<u64>),
    Described(Described),
    Synced(Synced),
    Reported(Reported),
    Lamps(Option<LedSyncError>),
}

/// A [`StartEvent`] as plain data.
#[verifier::ext_equal]
pub enum StartEventView {
    Told(Told),
    Done(bool),
    Returned(u64),
    Tried(Option<u64>),
    Described(Described),
    Synced(SyncedView),
    Reported(Reported),
    Lamps(Option<LedSyncError>),
}

impl View for StartEvent {
    type V = StartEventView;

    open spec fn view(&self) -> StartEventView {
        match self {
            StartEvent::Told(a) => StartEventView::Told(*a),
            StartEvent::Done(ok) => StartEventView::Done(*ok),
            StartEvent::Returned(a) => StartEventView::Returned(*a),
            StartEvent::Tried(a) => StartEventView::Tried(*a),
            StartEvent::Described(d) => StartEventView::Described(*d),
            StartEvent::Synced(Synced::Read(c)) => StartEventView::Synced(SyncedView::Read(*c)),
            StartEvent::Synced(Synced::Complete) => StartEventView::Synced(SyncedView::Complete),
            StartEvent::Synced(Synced::Frame(v)) => StartEventView::Synced(SyncedView::Frame(v@)),
            StartEvent::Reported(r) => StartEventView::Reported(*r),
            StartEvent::Lamps(l) => StartEventView::Lamps(*l),
        }
    }
}

/// Whether a bootstrap message is the expected tag with a handle.
pub fn channel_ok(tag: &[u8], expected: u8, raw: u64) -> (r: bool)
    ensures
        r == (tag@ == seq![expected] && raw != 0),
{
    let r: bool = tag.len() == 1 && tag[0] == expected && raw != 0;
    proof {
        if tag@.len() == 1 && tag@[0] == expected {
            assert(tag@ =~= seq![expected]);
        }
    }
    r
}

/// What the log says of a device.
pub open spec fn device_text(d: Descriptor) -> Seq<u8> {
    t("drv-i2c-hid: descriptor ok\n") + labelled_text(
        "drv-i2c-hid: vendor=0x",
        d.vendor_id as u64,
    ) + labelled_text("drv-i2c-hid: product=0x", d.product_id as u64) + labelled_text(
        "drv-i2c-hid: report-len=0x",
        d.report_descriptor_length as u64,
    ) + labelled_text("drv-i2c-hid: input-reg=0x", d.input_register as u64) + labelled_text(
        "drv-i2c-hid: max-input=0x",
        d.max_input_length as u64,
    ) + if quirks_of(d.vendor_id).no_wakeup_after_reset {
        t("drv-i2c-hid: elan no-wakeup-after-reset quirk\n")
    } else {
        Seq::empty()
    }
}

fn push_device(out: &mut Vec<u8>, d: Descriptor)
    ensures
        final(out)@ == old(out)@ + device_text(d),
{
    let mut line: Vec<u8> = text::to_bytes("drv-i2c-hid: descriptor ok\n");
    push_labelled(&mut line, "drv-i2c-hid: vendor=0x", d.vendor_id as u64);
    push_labelled(&mut line, "drv-i2c-hid: product=0x", d.product_id as u64);
    push_labelled(&mut line, "drv-i2c-hid: report-len=0x", d.report_descriptor_length as u64);
    push_labelled(&mut line, "drv-i2c-hid: input-reg=0x", d.input_register as u64);
    push_labelled(&mut line, "drv-i2c-hid: max-input=0x", d.max_input_length as u64);
    if DeviceQuirks::for_vendor_product(d.vendor_id, d.product_id).no_wakeup_after_reset {
        text::append_text(&mut line, "drv-i2c-hid: elan no-wakeup-after-reset quirk\n");
    } else {
        let ghost same = line@;
        assert(same + Seq::<u8>::empty() =~= same);
    }
    bytes::append(out, &line);
}

/// A report's number, or that it has none.
pub open spec fn id_text(some: &str, none: &str, id: Option<u8>) -> Seq<u8> {
    match id {
        Some(n) => labelled_text(some, n as u64),
        None => t(none),
    }
}

fn push_id(out: &mut Vec<u8>, some: &str, none: &str, id: Option<u8>)
    ensures
        final(out)@ == old(out)@ + id_text(some, none, id),
{
    match id {
        Some(n) => {
            push_labelled(out, some, n as u64);
        },
        None => {
            text::append_text(out, none);
        },
    }
}

/// What the log says of the reports.
pub open spec fn reports_text(len: usize, r: Reports) -> Seq<u8> {
    t("drv-i2c-hid: report descriptor ok\n") + labelled_text(
        "drv-i2c-hid: rdesc-len=0x",
        len as u64,
    ) + (match r.mouse {
        MouseFound::Report(_) => Seq::empty(),
        MouseFound::Rejected(code) => labelled_text("drv-i2c-hid: boot-mouse reject reason=0x", code),
    }) + (match r.led {
        Some(l) => id_text(
            "drv-i2c-hid: led-output-report-id=0x",
            "drv-i2c-hid: led-output-report-id=none\n",
            l.report_id,
        ) + labelled_text("drv-i2c-hid: led-output-bytes=0x", l.payload_bytes as u64)
            + labelled_text(
            "drv-i2c-hid: led-caps-bit=0x",
            match l.caps_lock_bit {
                Some(b) => b as u64,
                None => 0xffff,
            },
        ),
        None => t("drv-i2c-hid: led-output-report=none\n"),
    }) + id_text(
        "drv-i2c-hid: keyboard-report-id=0x",
        "drv-i2c-hid: keyboard-report-id=none\n",
        r.keyboard_id,
    ) + (match r.mouse {
        MouseFound::Report(id) => id_text(
            "drv-i2c-hid: mouse-report-id=0x",
            "drv-i2c-hid: mouse-report-id=none\n",
            id,
        ),
        MouseFound::Rejected(_) => t("drv-i2c-hid: mouse-report=none\n"),
    })
}

fn push_reports(out: &mut Vec<u8>, len: usize, r: Reports)
    ensures
        final(out)@ == old(out)@ + reports_text(len, r),
{
    let mut line: Vec<u8> = text::to_bytes("drv-i2c-hid: report descriptor ok\n");
    push_labelled(&mut line, "drv-i2c-hid: rdesc-len=0x", len as u64);
    match r.mouse {
        MouseFound::Report(_) => {
            let ghost same = line@;
            assert(same + Seq::<u8>::empty() =~= same);
        },
        MouseFound::Rejected(code) => {
            push_labelled(&mut line, "drv-i2c-hid: boot-mouse reject reason=0x", code);
        },
    }
    match r.led {
        Some(l) => {
            let mut part: Vec<u8> = Vec::new();
            push_id(
                &mut part,
                "drv-i2c-hid: led-output-report-id=0x",
                "drv-i2c-hid: led-output-report-id=none\n",
                l.report_id,
            );
            assert(part@ =~= id_text(
                "drv-i2c-hid: led-output-report-id=0x",
                "drv-i2c-hid: led-output-report-id=none\n",
                l.report_id,
            ));
            push_labelled(&mut part, "drv-i2c-hid: led-output-bytes=0x", l.payload_bytes as u64);
            let bit: u64 = match l.caps_lock_bit {
                Some(b) => b as u64,
                None => 0xffff,
            };
            push_labelled(&mut part, "drv-i2c-hid: led-caps-bit=0x", bit);
            bytes::append(&mut line, &part);
        },
        None => {
            text::append_text(&mut line, "drv-i2c-hid: led-output-report=none\n");
        },
    }
    push_id(
        &mut line,
        "drv-i2c-hid: keyboard-report-id=0x",
        "drv-i2c-hid: keyboard-report-id=none\n",
        r.keyboard_id,
    );
    match r.mouse {
        MouseFound::Report(id) => {
            push_id(
                &mut line,
                "drv-i2c-hid: mouse-report-id=0x",
                "drv-i2c-hid: mouse-report-id=none\n",
                id,
            );
        },
        MouseFound::Rejected(_) => {
            text::append_text(&mut line, "drv-i2c-hid: mouse-report=none\n");
        },
    }
    bytes::append(out, &line);
}

/// That the device's attention line is taken on its falling edge.
pub open spec fn falling_text(falling: bool) -> Seq<u8> {
    if falling {
        t("drv-i2c-hid: elan falling-edge attention quirk\n")
    } else {
        Seq::empty()
    }
}

fn push_falling(out: &mut Vec<u8>, falling: bool)
    ensures
        final(out)@ == old(out)@ + falling_text(falling),
{
    if falling {
        text::append_text(out, "drv-i2c-hid: elan falling-edge attention quirk\n");
    } else {
        assert(out@ =~= old(out)@ + falling_text(falling));
    }
}

/// The length word at the start of a frame.
pub open spec fn length_word(v: Seq<u8>) -> u64 {
    if v.len() >= 2 {
        bytes::le16(v, 0) as u64
    } else {
        0
    }
}

pub fn frame_length(v: &[u8]) -> (n: u64)
    ensures
        n == length_word(v@),
        n <= 0xffff,
{
    if v.len() >= 2 {
        bytes::read_u16(v, 0) as u64
    } else {
        0
    }
}

/// What the log says of the frame that ends a reset.
pub open spec fn sync_text(v: Seq<u8>) -> Seq<u8> {
    labelled_text("drv-i2c-hid: reset sync len=0x", length_word(v)) + frame_text(
        "drv-i2c-hid: reset raw= ",
        v,
    )
}

fn push_sync(out: &mut Vec<u8>, v: &Vec<u8>)
    ensures
        final(out)@ == old(out)@ + sync_text(v@),
{
    let mut line: Vec<u8> = Vec::new();
    push_labelled(&mut line, "drv-i2c-hid: reset sync len=0x", frame_length(v));
    assert(line@ =~= labelled_text("drv-i2c-hid: reset sync len=0x", length_word(v@)));
    push_frame(&mut line, "drv-i2c-hid: reset raw= ", v);
    bytes::append(out, &line);
}

/// Startup in progress.
#[derive(Clone, Copy, Debug, PartialEq, Eq, Structural)]
pub struct HidStart {
    pub phase: StartPhase,
    pub config: ProbeConfig,
    pub descriptor: Descriptor,
    pub quirks: DeviceQuirks,
    pub frame_len: usize,
    pub reports: Reports,
}

/// What follows a device's reset and power: its report descriptor, if that fits
/// the buffer for it.
pub open spec fn after_power(length: u16) -> StartPhase {
    if length == 0 || length > 256 {
        StartPhase::Exit
    } else {
        StartPhase::ReportDescriptor { len: length as usize }
    }
}

fn to_report(length: u16) -> (p: StartPhase)
    ensures
        p == after_power(length),
{
    match bounded_report_descriptor_len(length) {
        Err(_) => StartPhase::Exit,
        Ok(len) => StartPhase::ReportDescriptor { len },
    }
}

/// What the log says then.
pub open spec fn power_text(length: u16) -> Seq<u8> {
    t("drv-i2c-hid: power-on + reset issued\n") + if length == 0 {
        labelled_text("drv-i2c-hid: report descriptor length error=0x", 0)
    } else if length > 256 {
        labelled_text("drv-i2c-hid: report descriptor length error=0x", 1)
    } else {
        Seq::empty()
    }
}

fn push_power(out: &mut Vec<u8>, length: u16)
    ensures
        final(out)@ == old(out)@ + power_text(length),
{
    let mut line: Vec<u8> = text::to_bytes("drv-i2c-hid: power-on + reset issued\n");
    match bounded_report_descriptor_len(length) {
        Err(ReportProbeError::Empty) => {
            push_labelled(&mut line, "drv-i2c-hid: report descriptor length error=0x", 0);
        },
        Err(ReportProbeError::TooLong) => {
            push_labelled(&mut line, "drv-i2c-hid: report descriptor length error=0x", 1);
        },
        Ok(_) => {
            let ghost same = line@;
            assert(same + Seq::<u8>::empty() =~= same);
        },
    }
    bytes::append(out, &line);
}

/// What follows the end of a reset: a device without quirks is woken again.
pub open spec fn after_sync(q: DeviceQuirks, length: u16) -> StartPhase {
    if q.no_wakeup_after_reset {
        after_power(length)
    } else {
        StartPhase::Wake
    }
}

fn to_wake(q: DeviceQuirks, length: u16) -> (p: StartPhase)
    ensures
        p == after_sync(q, length),
{
    if q.no_wakeup_after_reset {
        to_report(length)
    } else {
        StartPhase::Wake
    }
}

pub open spec fn synced_text(q: DeviceQuirks, length: u16) -> Seq<u8> {
    if q.no_wakeup_after_reset {
        power_text(length)
    } else {
        Seq::empty()
    }
}

fn push_synced(out: &mut Vec<u8>, q: DeviceQuirks, length: u16)
    ensures
        final(out)@ == old(out)@ + synced_text(q, length),
{
    if q.no_wakeup_after_reset {
        push_power(out, length);
    } else {
        assert(out@ =~= old(out)@ + synced_text(q, length));
    }
}

/// Whether input frames fit the buffer for them.
pub open spec fn frames_fit(len: u16) -> bool {
    2 <= len <= 64
}

fn check_frames(len: u16) -> (r: bool)
    ensures
        r == frames_fit(len),
{
    match bounded_input_frame_len(len) {
        Ok(_) => true,
        Err(_) => false,
    }
}

impl HidStart {
    pub fn new() -> (s: HidStart)
        ensures
            s == (HidStart {
                phase: StartPhase::Config,
                config: ProbeConfig {
                    mmio_base: 0,
                    mmio_length: 0,
                    bus_frequency_hz: 0,
                    source_clock: crate::bus_config::SourceClock::Mhz19_2,
                    i2c_address: 0,
                    hid_descriptor_register: 0,
                    attention_irq: 0,
                },
                descriptor: Descriptor {
                    vendor_id: 0,
                    product_id: 0,
                    report_descriptor_length: 0,
                    report_descriptor_register: 0,
                    input_register: 0,
                    max_input_length: 0,
                    output_register: 0,
                    max_output_length: 0,
                    command_register: 0,
                    data_register: 0,
                },
                quirks: DeviceQuirks {
                    no_wakeup_after_reset: false,
                    bogus_irq: false,
                    force_trigger_falling: false,
                },
                frame_len: 0,
                reports: Reports { keyboard_id: None, mouse: MouseFound::Report(None), led: None },
            }),
    {
        HidStart {
            phase: StartPhase::Config,
            config: ProbeConfig {
                mmio_base: 0,
                mmio_length: 0,
                bus_frequency_hz: 0,
                source_clock: crate::bus_config::SourceClock::Mhz19_2,
                i2c_address: 0,
                hid_descriptor_register: 0,
                attention_irq: 0,
            },
            descriptor: Descriptor {
                vendor_id: 0,
                product_id: 0,
                report_descriptor_length: 0,
                report_descriptor_register: 0,
                input_register: 0,
                max_input_length: 0,
                output_register: 0,
                max_output_length: 0,
                command_register: 0,
                data_register: 0,
            },
            quirks: DeviceQuirks {
                no_wakeup_after_reset: false,
                bogus_irq: false,
                force_trigger_falling: false,
            },
            frame_len: 0,
            reports: Reports { keyboard_id: None, mouse: MouseFound::Report(None), led: None },
        }
    }

    /// What startup waits for.
    pub open spec fn call_of(self) -> StartCall {
        match self.phase {
            StartPhase::Config => StartCall::ReadConfig,
            StartPhase::Keyboard => StartCall::ReadKeyboardChannel,
            StartPhase::Mouse => StartCall::ReadMouseChannel,
            StartPhase::Mint => StartCall::MintMmio {
                base: self.config.mmio_base,
                len: self.config.mmio_length,
            },
            StartPhase::MapMmio { vmo } => StartCall::MapMmio {
                vmo,
                va: MMIO_VA,
                len: self.config.mmio_length,
            },
            StartPhase::Geni => StartCall::OpenController { polls: POLL_LIMIT },
            StartPhase::Descriptor => StartCall::ReadDescriptor {
                address: self.config.i2c_address,
                register: self.config.hid_descriptor_register,
            },
            StartPhase::SetPower => StartCall::PowerOn {
                address: self.config.i2c_address,
                register: self.descriptor.command_register,
            },
            StartPhase::Settle => StartCall::Sleep { ns: POWER_ON_SETTLE_NS },
            StartPhase::Reset => StartCall::Reset {
                address: self.config.i2c_address,
                register: self.descriptor.command_register,
            },
            StartPhase::Attention => StartCall::CreateAttention {
                irq: self.config.attention_irq,
                falling: self.quirks.force_trigger_falling,
            },
            StartPhase::ResetWait => StartCall::WaitAttention { ns: RESET_ACK_TIMEOUT_NS },
            StartPhase::ResetRead => StartCall::ReadFrame {
                address: self.config.i2c_address,
                count: self.frame_len,
            },
            StartPhase::Wake => StartCall::PowerOn {
                address: self.config.i2c_address,
                register: self.descriptor.command_register,
            },
            StartPhase::WakeSettle => StartCall::Sleep { ns: POWER_ON_SETTLE_NS },
            StartPhase::ReportDescriptor { len } => StartCall::ReadReports {
                address: self.config.i2c_address,
                register: self.descriptor.report_descriptor_register,
                count: len,
            },
            StartPhase::Ready => StartCall::Serve,
            StartPhase::Exit => StartCall::Exit,
            StartPhase::Led => match self.reports.led {
                Some(led) => StartCall::ClearLed { led },
                None => StartCall::Serve,
            },
        }
    }

    /// The state after an event, and what the log says. An event that does not
    /// answer the call changes nothing.
    pub open spec fn after(self, e: StartEventView) -> (HidStart, Seq<u8>) {
        match (self.phase, e) {
            (StartPhase::Config, StartEventView::Told(Told::Nothing)) => {
                (HidStart { phase: StartPhase::Exit, ..self }, t("drv-i2c-hid: bootstrap failed\n"))
            },
            (StartPhase::Config, StartEventView::Told(Told::Invalid)) => {
                (HidStart { phase: StartPhase::Exit, ..self }, t("drv-i2c-hid: config invalid\n"))
            },
            (StartPhase::Config, StartEventView::Told(Told::Config(config))) => (
                HidStart { config: config, phase: StartPhase::Keyboard, ..self },
                t("drv-i2c-hid: config ok\n"),
            ),
            (StartPhase::Keyboard, StartEventView::Done(ok)) => if !ok {
                (
                    HidStart { phase: StartPhase::Exit, ..self },
                    t("drv-i2c-hid: keyboard bootstrap failed\n"),
                )
            } else {
                (
                    HidStart { phase: StartPhase::Mouse, ..self },
                    t("drv-i2c-hid: keyboard channel ok\n"),
                )
            },
            (StartPhase::Mouse, StartEventView::Done(ok)) => if !ok {
                (
                    HidStart { phase: StartPhase::Exit, ..self },
                    t("drv-i2c-hid: mouse bootstrap failed\n"),
                )
            } else {
                (HidStart { phase: StartPhase::Mint, ..self }, t("drv-i2c-hid: mouse channel ok\n"))
            },
            (StartPhase::Mint, StartEventView::Returned(a)) => if a == u64::MAX {
                (HidStart { phase: StartPhase::Exit, ..self }, t("drv-i2c-hid: MMIO mint failed\n"))
            } else {
                (
                    HidStart { phase: StartPhase::MapMmio { vmo: handle_of(a) }, ..self },
                    Seq::empty(),
                )
            },
            (StartPhase::MapMmio { .. }, StartEventView::Returned(a)) => if a != 0 {
                (HidStart { phase: StartPhase::Exit, ..self }, t("drv-i2c-hid: MMIO map failed\n"))
            } else {
                (HidStart { phase: StartPhase::Geni, ..self }, t("drv-i2c-hid: MMIO mapped\n"))
            },
            (StartPhase::Geni, StartEventView::Tried(Some(code))) => (
                HidStart { phase: StartPhase::Exit, ..self },
                labelled_text("drv-i2c-hid: GENI init error=0x", code),
            ),
            (StartPhase::Geni, StartEventView::Tried(None)) => (
                HidStart { phase: StartPhase::Descriptor, ..self },
                t("drv-i2c-hid: GENI FIFO ready\n"),
            ),
            (StartPhase::Descriptor, StartEventView::Described(Described::Transfer(code))) => (
                HidStart { phase: StartPhase::Exit, ..self },
                labelled_text("drv-i2c-hid: transfer error=0x", code),
            ),
            (StartPhase::Descriptor, StartEventView::Described(Described::Parse(code))) => (
                HidStart { phase: StartPhase::Exit, ..self },
                labelled_text("drv-i2c-hid: descriptor error=0x", code),
            ),
            (StartPhase::Descriptor, StartEventView::Described(Described::Device(device))) => if !frames_fit(device.max_input_length) {
                (
                    HidStart {
                        descriptor: device,
                        quirks: quirks_of(device.vendor_id),
                        phase: StartPhase::Exit,
                        ..self
                    },
                    device_text(device) + t("drv-i2c-hid: input frame length invalid\n"),
                )
            } else {
                (
                    HidStart {
                        descriptor: device,
                        quirks: quirks_of(device.vendor_id),
                        frame_len: device.max_input_length as usize,
                        phase: StartPhase::SetPower,
                        ..self
                    },
                    device_text(device)
                        + labelled_text("drv-i2c-hid: irq read size=0x", device.max_input_length as u64)
                        + t("drv-i2c-hid: set-power begin\n"),
                )
            },
            (StartPhase::SetPower, StartEventView::Tried(Some(code))) => (
                HidStart { phase: StartPhase::Exit, ..self },
                labelled_text("drv-i2c-hid: set-power error=0x", code),
            ),
            (StartPhase::SetPower, StartEventView::Tried(None)) => (
                HidStart { phase: StartPhase::Settle, ..self },
                t("drv-i2c-hid: set-power done\n") + t("drv-i2c-hid: power-on settle begin\n"),
            ),
            (StartPhase::Settle, StartEventView::Done(ok)) => if !ok {
                (
                    HidStart { phase: StartPhase::Exit, ..self },
                    t("drv-i2c-hid: power-on settle wait failed\n"),
                )
            } else {
                (
                    HidStart { phase: StartPhase::Reset, ..self },
                    t("drv-i2c-hid: power-on settle done\n") + t("drv-i2c-hid: reset begin\n"),
                )
            },
            (StartPhase::Reset, StartEventView::Tried(Some(code))) => (
                HidStart { phase: StartPhase::Exit, ..self },
                labelled_text("drv-i2c-hid: reset error=0x", code),
            ),
            (StartPhase::Reset, StartEventView::Tried(None)) => (
                HidStart { phase: StartPhase::Attention, ..self },
                t("drv-i2c-hid: reset done\n") + falling_text(self.quirks.force_trigger_falling),
            ),
            (StartPhase::Attention, StartEventView::Returned(a)) => if a == u64::MAX {
                (
                    HidStart { phase: StartPhase::Exit, ..self },
                    t("drv-i2c-hid: attention interrupt create failed\n"),
                )
            } else {
                (
                    HidStart { phase: StartPhase::ResetWait, ..self },
                    t("drv-i2c-hid: attention interrupt created\n")
                        + t("drv-i2c-hid: reset sync wait begin\n"),
                )
            },
            (StartPhase::ResetWait, StartEventView::Done(ok)) => if ok {
                (HidStart { phase: StartPhase::ResetRead, ..self }, Seq::empty())
            } else {
                (
                    HidStart {
                        phase: after_sync(self.quirks, self.descriptor.report_descriptor_length),
                        ..self
                    },
                    t("drv-i2c-hid: reset sync timeout\n")
                        + synced_text(self.quirks, self.descriptor.report_descriptor_length),
                )
            },
            (StartPhase::ResetRead, StartEventView::Synced(SyncedView::Read(code))) => (
                HidStart { phase: StartPhase::Exit, ..self },
                labelled_text("drv-i2c-hid: reset sync read error=0x", code),
            ),
            (StartPhase::ResetRead, StartEventView::Synced(SyncedView::Complete)) => (
                HidStart { phase: StartPhase::Exit, ..self },
                t("drv-i2c-hid: reset sync complete failed\n"),
            ),
            (StartPhase::ResetRead, StartEventView::Synced(SyncedView::Frame(frame))) => (
                HidStart {
                    phase: after_sync(self.quirks, self.descriptor.report_descriptor_length),
                    ..self
                },
                sync_text(frame)
                    + synced_text(self.quirks, self.descriptor.report_descriptor_length),
            ),
            (StartPhase::Wake, StartEventView::Tried(Some(code))) => (
                HidStart { phase: StartPhase::Exit, ..self },
                labelled_text("drv-i2c-hid: post-reset set-power error=0x", code),
            ),
            (StartPhase::Wake, StartEventView::Tried(None)) => {
                (HidStart { phase: StartPhase::WakeSettle, ..self }, Seq::empty())
            },
            (StartPhase::WakeSettle, StartEventView::Done(ok)) => if !ok {
                (
                    HidStart { phase: StartPhase::Exit, ..self },
                    t("drv-i2c-hid: post-reset settle wait failed\n"),
                )
            } else {
                (
                    HidStart {
                        phase: after_power(self.descriptor.report_descriptor_length),
                        ..self
                    },
                    power_text(self.descriptor.report_descriptor_length),
                )
            },
            (StartPhase::ReportDescriptor { .. }, StartEventView::Reported(Reported::Transfer(code))) => (
                HidStart { phase: StartPhase::Exit, ..self },
                labelled_text("drv-i2c-hid: report descriptor transfer error=0x", code),
            ),
            (StartPhase::ReportDescriptor { .. }, StartEventView::Reported(Reported::Parse(code))) => (
                HidStart { phase: StartPhase::Exit, ..self },
                labelled_text("drv-i2c-hid: report descriptor parse error=0x", code),
            ),
            (StartPhase::ReportDescriptor { len }, StartEventView::Reported(Reported::Reports(reports))) => if reports.led is Some {
                (
                    HidStart { reports: reports, phase: StartPhase::Led, ..self },
                    reports_text(len, reports),
                )
            } else {
                (
                    HidStart { reports: reports, phase: StartPhase::Ready, ..self },
                    reports_text(len, reports),
                )
            },
            (StartPhase::Led, StartEventView::Lamps(None)) => {
                (HidStart { phase: StartPhase::Ready, ..self }, t("drv-i2c-hid: led-state sync off\n"))
            },
            (StartPhase::Led, StartEventView::Lamps(Some(error))) => (
                HidStart { phase: StartPhase::Ready, ..self },
                labelled_text("drv-i2c-hid: led-state sync error=0x", led_code(error)),
            ),
            _ => (self, Seq::empty()),
        }
    }

    /// What to do next.
    pub fn call(&self) -> (c: StartCall)
        ensures
            c == self.call_of(),
    {
        match self.phase {
            StartPhase::Config => StartCall::ReadConfig,
            StartPhase::Keyboard => StartCall::ReadKeyboardChannel,
            StartPhase::Mouse => StartCall::ReadMouseChannel,
            StartPhase::Mint => StartCall::MintMmio {
                base: self.config.mmio_base,
                len: self.config.mmio_length,
            },
            StartPhase::MapMmio { vmo } => StartCall::MapMmio {
                vmo,
                va: MMIO_VA,
                len: self.config.mmio_length,
            },
            StartPhase::Geni => StartCall::OpenController { polls: POLL_LIMIT },
            StartPhase::Descriptor => StartCall::ReadDescriptor {
                address: self.config.i2c_address,
                register: self.config.hid_descriptor_register,
            },
            StartPhase::SetPower => StartCall::PowerOn {
                address: self.config.i2c_address,
                register: self.descriptor.command_register,
            },
            StartPhase::Settle => StartCall::Sleep { ns: POWER_ON_SETTLE_NS },
            StartPhase::Reset => StartCall::Reset {
                address: self.config.i2c_address,
                register: self.descriptor.command_register,
            },
            StartPhase::Attention => StartCall::CreateAttention {
                irq: self.config.attention_irq,
                falling: self.quirks.force_trigger_falling,
            },
            StartPhase::ResetWait => StartCall::WaitAttention { ns: RESET_ACK_TIMEOUT_NS },
            StartPhase::ResetRead => StartCall::ReadFrame {
                address: self.config.i2c_address,
                count: self.frame_len,
            },
            StartPhase::Wake => StartCall::PowerOn {
                address: self.config.i2c_address,
                register: self.descriptor.command_register,
            },
            StartPhase::WakeSettle => StartCall::Sleep { ns: POWER_ON_SETTLE_NS },
            StartPhase::ReportDescriptor { len } => StartCall::ReadReports {
                address: self.config.i2c_address,
                register: self.descriptor.report_descriptor_register,
                count: len,
            },
            StartPhase::Ready => StartCall::Serve,
            StartPhase::Exit => StartCall::Exit,
            StartPhase::Led => match self.reports.led {
                Some(led) => StartCall::ClearLed { led },
                None => StartCall::Serve,
            },
        }
    }

    /// Takes what came back and returns what to log.
    pub fn advance(&mut self, e: &StartEvent) -> (out: Vec<u8>)
        ensures
            (*final(self), out@) == old(self).after(e@),
    {
        let mut out: Vec<u8> = Vec::new();
        match (self.phase, e) {
            (StartPhase::Config, StartEvent::Told(Told::Nothing)) => {
                text::append_text(&mut out, "drv-i2c-hid: bootstrap failed\n");
                self.phase = StartPhase::Exit;
            },
            (StartPhase::Config, StartEvent::Told(Told::Invalid)) => {
                text::append_text(&mut out, "drv-i2c-hid: config invalid\n");
                self.phase = StartPhase::Exit;
            },
            (StartPhase::Config, StartEvent::Told(Told::Config(config))) => {
                let config: ProbeConfig = *config;
                text::append_text(&mut out, "drv-i2c-hid: config ok\n");
                self.config = config;
                self.phase = StartPhase::Keyboard;
            },
            (StartPhase::Keyboard, StartEvent::Done(ok)) => {
                let ok: bool = *ok;
                if !ok {
                    text::append_text(&mut out, "drv-i2c-hid: keyboard bootstrap failed\n");
                    self.phase = StartPhase::Exit;
                } else {
                    text::append_text(&mut out, "drv-i2c-hid: keyboard channel ok\n");
                    self.phase = StartPhase::Mouse;
                }
            },
            (StartPhase::Mouse, StartEvent::Done(ok)) => {
                let ok: bool = *ok;
                if !ok {
                    text::append_text(&mut out, "drv-i2c-hid: mouse bootstrap failed\n");
                    self.phase = StartPhase::Exit;
                } else {
                    text::append_text(&mut out, "drv-i2c-hid: mouse channel ok\n");
                    self.phase = StartPhase::Mint;
                }
            },
            (StartPhase::Mint, StartEvent::Returned(a)) => {
                let a: u64 = *a;
                if a == u64::MAX {
                    text::append_text(&mut out, "drv-i2c-hid: MMIO mint failed\n");
                    self.phase = StartPhase::Exit;
                } else {
                    self.phase = StartPhase::MapMmio { vmo: to_handle(a) };
                }
            },
            (StartPhase::MapMmio { .. }, StartEvent::Returned(a)) => {
                let a: u64 = *a;
                if a != 0 {
                    text::append_text(&mut out, "drv-i2c-hid: MMIO map failed\n");
                    self.phase = StartPhase::Exit;
                } else {
                    text::append_text(&mut out, "drv-i2c-hid: MMIO mapped\n");
                    self.phase = StartPhase::Geni;
                }
            },
            (StartPhase::Geni, StartEvent::Tried(Some(code))) => {
                let code: u64 = *code;
                push_labelled(&mut out, "drv-i2c-hid: GENI init error=0x", code);
                self.phase = StartPhase::Exit;
            },
            (StartPhase::Geni, StartEvent::Tried(None)) => {
                text::append_text(&mut out, "drv-i2c-hid: GENI FIFO ready\n");
                self.phase = StartPhase::Descriptor;
            },
            (StartPhase::Descriptor, StartEvent::Described(Described::Transfer(code))) => {
                let code: u64 = *code;
                push_labelled(&mut out, "drv-i2c-hid: transfer error=0x", code);
                self.phase = StartPhase::Exit;
            },
            (StartPhase::Descriptor, StartEvent::Described(Described::Parse(code))) => {
                let code: u64 = *code;
                push_labelled(&mut out, "drv-i2c-hid: descriptor error=0x", code);
                self.phase = StartPhase::Exit;
            },
            (StartPhase::Descriptor, StartEvent::Described(Described::Device(device))) => {
                let device: Descriptor = *device;
                if !check_frames(device.max_input_length) {
                    push_device(&mut out, device);
                    text::append_text(&mut out, "drv-i2c-hid: input frame length invalid\n");
                    self.descriptor = device;
                    self.quirks = DeviceQuirks::for_vendor_product(device.vendor_id, device.product_id);
                    self.phase = StartPhase::Exit;
                } else {
                    push_device(&mut out, device);
                    push_labelled(&mut out, "drv-i2c-hid: irq read size=0x", device.max_input_length as u64);
                    text::append_text(&mut out, "drv-i2c-hid: set-power begin\n");
                    self.descriptor = device;
                    self.quirks = DeviceQuirks::for_vendor_product(device.vendor_id, device.product_id);
                    self.frame_len = device.max_input_length as usize;
                    self.phase = StartPhase::SetPower;
                }
            },
            (StartPhase::SetPower, StartEvent::Tried(Some(code))) => {
                let code: u64 = *code;
                push_labelled(&mut out, "drv-i2c-hid: set-power error=0x", code);
                self.phase = StartPhase::Exit;
            },
            (StartPhase::SetPower, StartEvent::Tried(None)) => {
                text::append_text(&mut out, "drv-i2c-hid: set-power done\n");
                text::append_text(&mut out, "drv-i2c-hid: power-on settle begin\n");
                self.phase = StartPhase::Settle;
            },
            (StartPhase::Settle, StartEvent::Done(ok)) => {
                let ok: bool = *ok;
                if !ok {
                    text::append_text(&mut out, "drv-i2c-hid: power-on settle wait failed\n");
                    self.phase = StartPhase::Exit;
                } else {
                    text::append_text(&mut out, "drv-i2c-hid: power-on settle done\n");
                    text::append_text(&mut out, "drv-i2c-hid: reset begin\n");
                    self.phase = StartPhase::Reset;
                }
            },
            (StartPhase::Reset, StartEvent::Tried(Some(code))) => {
                let code: u64 = *code;
                push_labelled(&mut out, "drv-i2c-hid: reset error=0x", code);
                self.phase = StartPhase::Exit;
            },
            (StartPhase::Reset, StartEvent::Tried(None)) => {
                text::append_text(&mut out, "drv-i2c-hid: reset done\n");
                push_falling(&mut out, self.quirks.force_trigger_falling);
                self.phase = StartPhase::Attention;
            },
            (StartPhase::Attention, StartEvent::Returned(a)) => {
                let a: u64 = *a;
                if a == u64::MAX {
                    text::append_text(&mut out, "drv-i2c-hid: attention interrupt create failed\n");
                    self.phase = StartPhase::Exit;
                } else {
                    text::append_text(&mut out, "drv-i2c-hid: attention interrupt created\n");
                    text::append_text(&mut out, "drv-i2c-hid: reset sync wait begin\n");
                    self.phase = StartPhase::ResetWait;
                }
            },
            (StartPhase::ResetWait, StartEvent::Done(ok)) => {
                let ok: bool = *ok;
                if ok {
                    self.phase = StartPhase::ResetRead;
                } else {
                    text::append_text(&mut out, "drv-i2c-hid: reset sync timeout\n");
                    push_synced(&mut out, self.quirks, self.descriptor.report_descriptor_length);
                    self.phase = to_wake(self.quirks, self.descriptor.report_descriptor_length);
                }
            },
            (StartPhase::ResetRead, StartEvent::Synced(Synced::Read(code))) => {
                let code: u64 = *code;
                push_labelled(&mut out, "drv-i2c-hid: reset sync read error=0x", code);
                self.phase = StartPhase::Exit;
            },
            (StartPhase::ResetRead, StartEvent::Synced(Synced::Complete)) => {
                text::append_text(&mut out, "drv-i2c-hid: reset sync complete failed\n");
                self.phase = StartPhase::Exit;
            },
            (StartPhase::ResetRead, StartEvent::Synced(Synced::Frame(frame))) => {
                push_sync(&mut out, frame);
                push_synced(&mut out, self.quirks, self.descriptor.report_descriptor_length);
                self.phase = to_wake(self.quirks, self.descriptor.report_descriptor_length);
            },
            (StartPhase::Wake, StartEvent::Tried(Some(code))) => {
                let code: u64 = *code;
                push_labelled(&mut out, "drv-i2c-hid: post-reset set-power error=0x", code);
                self.phase = StartPhase::Exit;
            },
            (StartPhase::Wake, StartEvent::Tried(None)) => {
                self.phase = StartPhase::WakeSettle;
            },
            (StartPhase::WakeSettle, StartEvent::Done(ok)) => {
                let ok: bool = *ok;
                if !ok {
                    text::append_text(&mut out, "drv-i2c-hid: post-reset settle wait failed\n");
                    self.phase = StartPhase::Exit;
                } else {
                    push_power(&mut out, self.descriptor.report_descriptor_length);
                    self.phase = to_report(self.descriptor.report_descriptor_length);
                }
            },
            (StartPhase::ReportDescriptor { .. }, StartEvent::Reported(Reported::Transfer(code))) => {
                let code: u64 = *code;
                push_labelled(&mut out, "drv-i2c-hid: report descriptor transfer error=0x", code);
                self.phase = StartPhase::Exit;
            },
            (StartPhase::ReportDescriptor { .. }, StartEvent::Reported(Reported::Parse(code))) => {
                let code: u64 = *code;
                push_labelled(&mut out, "drv-i2c-hid: report descriptor parse error=0x", code);
                self.phase = StartPhase::Exit;
            },
            (StartPhase::ReportDescriptor { len }, StartEvent::Reported(Reported::Reports(reports))) => {
                let reports: Reports = *reports;
                if reports.led.is_some() {
                    push_reports(&mut out, len, reports);
                    self.reports = reports;
                    self.phase = StartPhase::Led;
                } else {
                    push_reports(&mut out, len, reports);
                    self.reports = reports;
                    self.phase = StartPhase::Ready;
                }
            },
            (StartPhase::Led, StartEvent::Lamps(None)) => {
                text::append_text(&mut out, "drv-i2c-hid: led-state sync off\n");
                self.phase = StartPhase::Ready;
            },
            (StartPhase::Led, StartEvent::Lamps(Some(error))) => {
                let error: LedSyncError = *error;
                push_labelled(&mut out, "drv-i2c-hid: led-state sync error=0x", led_error_code(error));
                self.phase = StartPhase::Ready;
            },
            _ => {},
        }
        assert(out@ =~= old(self).after(e@).1);
        out
    }
}

/// The steps that are reached by going from one phase to another.
pub open spec fn reached(before: StartPhase, now: StartPhase) -> Seq<StartupMilestone> {
    match (before, now) {
        (StartPhase::Config, StartPhase::Keyboard) => seq![StartupMilestone::ConfigOk],
        (StartPhase::Mouse, StartPhase::Mint) => seq![StartupMilestone::ChannelsOk],
        (StartPhase::MapMmio { .. }, StartPhase::Geni) => seq![StartupMilestone::MmioMapped],
        (StartPhase::Geni, StartPhase::Descriptor) => seq![StartupMilestone::GeniReady],
        (StartPhase::Descriptor, StartPhase::SetPower) => seq![StartupMilestone::HidDescriptorOk],
        (StartPhase::SetPower, StartPhase::Settle) => seq![StartupMilestone::SetPowerDone],
        (StartPhase::Settle, StartPhase::Reset) => seq![
            StartupMilestone::PowerSettleDone,
            StartupMilestone::ResetBegin,
        ],
        (StartPhase::Reset, StartPhase::Attention) => seq![StartupMilestone::ResetDone],
        (StartPhase::Attention, StartPhase::ResetWait) => seq![StartupMilestone::AttentionCreated],
        (StartPhase::ResetWait, StartPhase::Wake) => seq![StartupMilestone::ResetSyncDone],
        (StartPhase::ResetRead, StartPhase::Wake) => seq![StartupMilestone::ResetSyncDone],
        (StartPhase::ResetWait, StartPhase::ReportDescriptor { .. }) => seq![StartupMilestone::ResetSyncDone],
        (StartPhase::ResetRead, StartPhase::ReportDescriptor { .. }) => seq![StartupMilestone::ResetSyncDone],
        (StartPhase::ReportDescriptor { .. }, StartPhase::Led) => seq![StartupMilestone::ReportDescriptorOk],
        (StartPhase::ReportDescriptor { .. }, StartPhase::Ready) => seq![
            StartupMilestone::ReportDescriptorOk,
            StartupMilestone::Ready,
        ],
        (StartPhase::Led, StartPhase::Ready) => seq![StartupMilestone::Ready],
        _ => seq![],
    }
}

/// Lists the steps that were reached by going from one phase to another.
pub fn milestones(before: StartPhase, now: StartPhase) -> (v: Vec<StartupMilestone>)
    ensures
        v@ == reached(before, now),
{
    let mut v: Vec<StartupMilestone> = Vec::new();
    match (before, now) {
        (StartPhase::Config, StartPhase::Keyboard) => {
            v.push(StartupMilestone::ConfigOk);
        },
        (StartPhase::Mouse, StartPhase::Mint) => {
            v.push(StartupMilestone::ChannelsOk);
        },
        (StartPhase::MapMmio { .. }, StartPhase::Geni) => {
            v.push(StartupMilestone::MmioMapped);
        },
        (StartPhase::Geni, StartPhase::Descriptor) => {
            v.push(StartupMilestone::GeniReady);
        },
        (StartPhase::Descriptor, StartPhase::SetPower) => {
            v.push(StartupMilestone::HidDescriptorOk);
        },
        (StartPhase::SetPower, StartPhase::Settle) => {
            v.push(StartupMilestone::SetPowerDone);
        },
        (StartPhase::Settle, StartPhase::Reset) => {
            v.push(StartupMilestone::PowerSettleDone);
            v.push(StartupMilestone::ResetBegin);
        },
        (StartPhase::Reset, StartPhase::Attention) => {
            v.push(StartupMilestone::ResetDone);
        },
        (StartPhase::Attention, StartPhase::ResetWait) => {
            v.push(StartupMilestone::AttentionCreated);
        },
        (StartPhase::ResetWait, StartPhase::Wake) => {
            v.push(StartupMilestone::ResetSyncDone);
        },
        (StartPhase::ResetRead, StartPhase::Wake) => {
            v.push(StartupMilestone::ResetSyncDone);
        },
        (StartPhase::ResetWait, StartPhase::ReportDescriptor { .. }) => {
            v.push(StartupMilestone::ResetSyncDone);
        },
        (StartPhase::ResetRead, StartPhase::ReportDescriptor { .. }) => {
            v.push(StartupMilestone::ResetSyncDone);
        },
        (StartPhase::ReportDescriptor { .. }, StartPhase::Led) => {
            v.push(StartupMilestone::ReportDescriptorOk);
        },
        (StartPhase::ReportDescriptor { .. }, StartPhase::Ready) => {
            v.push(StartupMilestone::ReportDescriptorOk);
            v.push(StartupMilestone::Ready);
        },
        (StartPhase::Led, StartPhase::Ready) => {
            v.push(StartupMilestone::Ready);
        },
        _ => {},
    }
    assert(v@ =~= reached(before, now));
    v
}

/// How many steps are left at most.
pub open spec fn steps_left(p: StartPhase) -> nat {
    match p {
        StartPhase::Config => 18,
        StartPhase::Keyboard => 17,
        StartPhase::Mouse => 16,
        StartPhase::Mint => 15,
        StartPhase::MapMmio { .. } => 14,
        StartPhase::Geni => 13,
        StartPhase::Descriptor => 12,
        StartPhase::SetPower => 11,
        StartPhase::Settle => 10,
        StartPhase::Reset => 9,
        StartPhase::Attention => 8,
        StartPhase::ResetWait => 7,
        StartPhase::ResetRead => 6,
        StartPhase::Wake => 5,
        StartPhase::WakeSettle => 4,
        StartPhase::ReportDescriptor { .. } => 3,
        StartPhase::Led => 2,
        StartPhase::Ready => 1,
        StartPhase::Exit => 0,
    }
}

/// Startup never goes back.
pub proof fn startup_moves_forward(s: HidStart, e: StartEventView)
    ensures
        s.after(e) == (s, Seq::<u8>::empty()) || steps_left(s.after(e).0.phase) < steps_left(
            s.phase,
        ),
{
}

/// A device of a vendor with quirks is not woken after its reset, and its
/// attention line is taken on its falling edge; any other is woken, and its line
/// is taken as it is.
pub proof fn quirks_are_honoured(s: HidStart, e: StartEventView)
    requires
        s.quirks == quirks_of(s.descriptor.vendor_id),
    ensures
        ({
            let n = s.after(e).0;
            let q = quirks_of(n.descriptor.vendor_id);
            &&& n.quirks == q
            &&& s.phase is ResetWait && e == StartEventView::Done(false) ==> (n.phase is Wake
                <==> !q.no_wakeup_after_reset)
            &&& s.phase is ResetRead && (e matches StartEventView::Synced(SyncedView::Frame(_)))
                ==> (n.phase is Wake <==> !q.no_wakeup_after_reset)
            &&& n.phase is Attention ==> n.call_of() == (StartCall::CreateAttention {
                irq: n.config.attention_irq,
                falling: q.force_trigger_falling,
            })
        }),
{
}

/// Exactly one bit of a lamp report can be set, the caps lock bit, counted from the lowest bit of the first byte;
/// it is set where the lamp is to be on.
pub proof fn lamp_reports_hold_one_bit(led: LedReport, caps_lock: bool, b: u16, i: int)
    requires
        led.caps_lock_bit == Some(b),
        0 <= i < led.payload_bytes,
    ensures
        led_bytes(led, caps_lock).len() == led.payload_bytes,
        !caps_lock || i != b / 8 ==> led_bytes(led, caps_lock)[i] == 0,
        caps_lock && b == 8 * i ==> led_bytes(led, caps_lock)[i] == 1,
        caps_lock && b == 8 * i + 1 ==> led_bytes(led, caps_lock)[i] == 2,
        caps_lock && b == 8 * i + 2 ==> led_bytes(led, caps_lock)[i] == 4,
        caps_lock && b == 8 * i + 3 ==> led_bytes(led, caps_lock)[i] == 8,
        caps_lock && b == 8 * i + 4 ==> led_bytes(led, caps_lock)[i] == 16,
        caps_lock && b == 8 * i + 5 ==> led_bytes(led, caps_lock)[i] == 32,
        caps_lock && b == 8 * i + 6 ==> led_bytes(led, caps_lock)[i] == 64,
        caps_lock && b == 8 * i + 7 ==> led_bytes(led, caps_lock)[i] == 128,
{
}

/// A lamp report is sent where the device has a caps lock lamp whose bit lies in a report of 1 to 16 bytes: by the
/// output register where there is one that takes bytes, else by the command register where there are that and a
/// data register.
pub proof fn lamp_reports_take_the_output_register(d: Descriptor, led: LedReport)
    ensures
        led.caps_lock_bit is None ==> led_plan_of(d, led) == Err::<OutputPath, LedSyncError>(
            LedSyncError::NoCapsLockLed,
        ),
        led.caps_lock_bit matches Some(b) ==> {
            let fits = 1 <= led.payload_bytes <= 16 && b < 8 * led.payload_bytes;
            let plain = d.output_register > 0 && d.max_output_length > 0;
            let command = d.command_register > 0 && d.data_register > 0;
            &&& !fits ==> led_plan_of(d, led) == Err::<OutputPath, LedSyncError>(
                LedSyncError::PayloadTooLong,
            )
            &&& fits && plain ==> led_plan_of(d, led) == Ok::<OutputPath, LedSyncError>(
                OutputPath::Plain,
            )
            &&& fits && !plain && command ==> led_plan_of(d, led) == Ok::<OutputPath, LedSyncError>(
                OutputPath::Command,
            )
            &&& fits && !plain && !command ==> led_plan_of(d, led) == Err::<
                OutputPath,
                LedSyncError,
            >(LedSyncError::NoOutputPath)
        },
{
}

/// The configuration and the two channels are read first; then the registers are minted and mapped at 0x1100_0000,
/// the controller is opened with a million polls, and the device's descriptor is read from the register that the
/// configuration names.
pub proof fn the_controller_is_opened_first(s: HidStart, config: ProbeConfig, a: u64)
    ensures
        s.call_of() is ReadConfig ==> ({
            let n = s.after(StartEventView::Told(Told::Config(config))).0;
            n.config == config && n.call_of() is ReadKeyboardChannel
        }),
        s.call_of() is ReadKeyboardChannel ==> s.after(
            StartEventView::Done(true),
        ).0.call_of() is ReadMouseChannel,
        s.call_of() is ReadMouseChannel ==> s.after(StartEventView::Done(true)).0.call_of() == (
        StartCall::MintMmio { base: s.config.mmio_base, len: s.config.mmio_length }),
        s.call_of() is MintMmio && a != u64::MAX ==> s.after(
            StartEventView::Returned(a),
        ).0.call_of() == (StartCall::MapMmio {
            vmo: handle_of(a),
            va: 0x1100_0000,
            len: s.config.mmio_length,
        }),
        s.call_of() is MapMmio ==> s.after(StartEventView::Returned(0)).0.call_of() == (
        StartCall::OpenController { polls: 1_000_000 }),
        s.call_of() is OpenController ==> s.after(StartEventView::Tried(None)).0.call_of() == (
        StartCall::ReadDescriptor {
            address: s.config.i2c_address,
            register: s.config.hid_descriptor_register,
        }),
{
}

/// A device whose frames have 2 to 64 bytes is switched on by its command register, given 60 ms and reset by the
/// same register; its attention line is created and waited for, a second at most, and a frame of its longest
/// length is read.
pub proof fn devices_are_switched_on_and_reset(s: HidStart, d: Descriptor, a: u64)
    ensures
        s.call_of() is ReadDescriptor && 2 <= d.max_input_length <= 64 ==> ({
            let n = s.after(StartEventView::Described(Described::Device(d))).0;
            &&& n.descriptor == d
            &&& n.frame_len == d.max_input_length
            &&& n.call_of() == (StartCall::PowerOn {
                address: s.config.i2c_address,
                register: d.command_register,
            })
            &&& n.after(StartEventView::Tried(None)).0.call_of() == (StartCall::Sleep {
                ns: 60_000_000,
            })
            &&& n.after(StartEventView::Tried(None)).0.after(
                StartEventView::Done(true),
            ).0.call_of() == (StartCall::Reset {
                address: s.config.i2c_address,
                register: d.command_register,
            })
        }),
        s.call_of() is Reset ==> s.after(StartEventView::Tried(None)).0.call_of() == (
        StartCall::CreateAttention {
            irq: s.config.attention_irq,
            falling: s.quirks.force_trigger_falling,
        }),
        s.call_of() is CreateAttention && a != u64::MAX ==> s.after(
            StartEventView::Returned(a),
        ).0.call_of() == (StartCall::WaitAttention { ns: 1_000_000_000 }),
        s.call_of() is WaitAttention ==> s.after(StartEventView::Done(true)).0.call_of() == (
        StartCall::ReadFrame { address: s.config.i2c_address, count: s.frame_len }),
{
}

/// Once its reset is over, by a frame or by the wait's end, a device is switched on again and given 60 ms, unless
/// its vendor's devices are not to be; then its report descriptor is read, whole, where it has 1 to 256 bytes.
pub proof fn reports_are_read_after_the_reset(s: HidStart, frame: Seq<u8>, over: StartEventView)
    requires
        s.call_of() is WaitAttention && over == StartEventView::Done(false)
            || s.call_of() is ReadFrame && over == StartEventView::Synced(SyncedView::Frame(frame)),
    ensures
        ({
            let n = s.after(over).0;
            let len = s.descriptor.report_descriptor_length;
            let last = if s.quirks.no_wakeup_after_reset {
                n
            } else {
                n.after(StartEventView::Tried(None)).0.after(StartEventView::Done(true)).0
            };
            &&& !s.quirks.no_wakeup_after_reset ==> n.call_of() == (StartCall::PowerOn {
                address: s.config.i2c_address,
                register: s.descriptor.command_register,
            }) && n.after(StartEventView::Tried(None)).0.call_of() == (StartCall::Sleep {
                ns: 60_000_000,
            })
            &&& 1 <= len <= 256 ==> last.call_of() == (StartCall::ReadReports {
                address: s.config.i2c_address,
                register: s.descriptor.report_descriptor_register,
                count: len as usize,
            })
            &&& len == 0 || len > 256 ==> last.call_of() is Exit
        }),
{
}

/// What the report descriptor says is kept; a caps lock lamp is cleared, whether that works or not, and then the
/// device is served.
pub proof fn devices_are_served_in_the_end(s: HidStart, r: Reports, failed: Option<LedSyncError>)
    requires
        s.call_of() is ReadReports,
    ensures
        ({
            let n = s.after(StartEventView::Reported(Reported::Reports(r))).0;
            &&& n.reports == r
            &&& n.config == s.config && n.descriptor == s.descriptor
            &&& r.led is None ==> n.call_of() is Serve
            &&& r.led matches Some(led) ==> n.call_of() == (StartCall::ClearLed { led })
                && n.after(StartEventView::Lamps(failed)).0.call_of() is Serve
        }),
{
}

/// Any call that fails but the wait for the reset's end and the lamps' report ends the driver.
pub proof fn failures_end_the_driver(s: HidStart, d: Descriptor, code: u64, a: u64)
    ensures
        s.call_of() is ReadConfig ==> s.after(
            StartEventView::Told(Told::Nothing),
        ).0.call_of() is Exit && s.after(StartEventView::Told(Told::Invalid)).0.call_of() is Exit,
        s.call_of() is ReadKeyboardChannel || s.call_of() is ReadMouseChannel
            || s.call_of() is Sleep ==> s.after(StartEventView::Done(false)).0.call_of() is Exit,
        s.call_of() is MintMmio || s.call_of() is CreateAttention ==> s.after(
            StartEventView::Returned(u64::MAX),
        ).0.call_of() is Exit,
        s.call_of() is MapMmio && a != 0 ==> s.after(
            StartEventView::Returned(a),
        ).0.call_of() is Exit,
        s.call_of() is OpenController || s.call_of() is PowerOn || s.call_of() is Reset ==> s.after(
            StartEventView::Tried(Some(code)),
        ).0.call_of() is Exit,
        s.call_of() is ReadDescriptor ==> s.after(
            StartEventView::Described(Described::Transfer(code)),
        ).0.call_of() is Exit && s.after(
            StartEventView::Described(Described::Parse(code)),
        ).0.call_of() is Exit,
        s.call_of() is ReadDescriptor && !(2 <= d.max_input_length <= 64) ==> s.after(
            StartEventView::Described(Described::Device(d)),
        ).0.call_of() is Exit,
        s.call_of() is ReadFrame ==> s.after(
            StartEventView::Synced(SyncedView::Read(code)),
        ).0.call_of() is Exit && s.after(
            StartEventView::Synced(SyncedView::Complete),
        ).0.call_of() is Exit,
        s.call_of() is ReadReports ==> s.after(
            StartEventView::Reported(Reported::Transfer(code)),
        ).0.call_of() is Exit && s.after(
            StartEventView::Reported(Reported::Parse(code)),
        ).0.call_of() is Exit,
{
}

/// Steps are reached one at a time and in order, but for the end of the settling time, with which the reset
/// begins, and the end of startup without lamps; failing reaches none.
pub proof fn steps_are_reached_in_order(s: HidStart, vmo: Handle, len: usize)
    ensures
        reached(StartPhase::Config, StartPhase::Keyboard) == seq![StartupMilestone::ConfigOk],
        reached(StartPhase::Keyboard, StartPhase::Mouse).len() == 0,
        reached(StartPhase::Mouse, StartPhase::Mint) == seq![StartupMilestone::ChannelsOk],
        reached(StartPhase::MapMmio { vmo }, StartPhase::Geni) == seq![
            StartupMilestone::MmioMapped,
        ],
        reached(StartPhase::Geni, StartPhase::Descriptor) == seq![StartupMilestone::GeniReady],
        reached(StartPhase::Descriptor, StartPhase::SetPower) == seq![
            StartupMilestone::HidDescriptorOk,
        ],
        reached(StartPhase::SetPower, StartPhase::Settle) == seq![StartupMilestone::SetPowerDone],
        reached(StartPhase::Settle, StartPhase::Reset) == seq![
            StartupMilestone::PowerSettleDone,
            StartupMilestone::ResetBegin,
        ],
        reached(StartPhase::Reset, StartPhase::Attention) == seq![StartupMilestone::ResetDone],
        reached(StartPhase::Attention, StartPhase::ResetWait) == seq![
            StartupMilestone::AttentionCreated,
        ],
        reached(StartPhase::ResetWait, StartPhase::Wake) == seq![StartupMilestone::ResetSyncDone],
        reached(StartPhase::ResetRead, StartPhase::ReportDescriptor { len }) == seq![
            StartupMilestone::ResetSyncDone,
        ],
        reached(StartPhase::ReportDescriptor { len }, StartPhase::Led) == seq![
            StartupMilestone::ReportDescriptorOk,
        ],
        reached(StartPhase::ReportDescriptor { len }, StartPhase::Ready) == seq![
            StartupMilestone::ReportDescriptorOk,
            StartupMilestone::Ready,
        ],
        reached(StartPhase::Led, StartPhase::Ready) == seq![StartupMilestone::Ready],
        reached(s.phase, StartPhase::Exit).len() == 0,
{
}

proof fn lemma_two_digits(b: u8)
    ensures
        ({
            let d = numerals::padded(numerals::digits(b as nat, 16), 2, 0x30);
            &&& d.len() == 2
            &&& d[0] == numerals::digit(b as int / 16)
            &&& d[1] == numerals::digit(b as int % 16)
        }),
{
    reveal_with_fuel(numerals::digits, 3);
    numerals::padding_goes_in_front(numerals::digits(b as nat, 16), 2, 0x30, 0);
}

/// A frame is shown by its first sixteen bytes at most, each as two digits of base 16 and a blank.
pub proof fn frames_are_shown_in_pairs(v: Seq<u8>, i: int)
    requires
        0 <= i < v.len(),
    ensures
        shown(v).len() == (if v.len() > 16 {
            16int
        } else {
            v.len() as int
        }),
        i < 16 ==> shown(v)[i] == v[i],
        pairs(v).len() == 3 * v.len(),
        ({
            let p = pairs(v);
            let high = v[i] / 16;
            let low = v[i] % 16;
            &&& p[3 * i] == (if high < 10 {
                0x30 + high
            } else {
                0x61 + high - 10
            })
            &&& p[3 * i + 1] == (if low < 10 {
                0x30 + low
            } else {
                0x61 + low - 10
            })
            &&& p[3 * i + 2] == 0x20
        }),
    decreases v.len(),
{
    let part = v.drop_last();
    let d = numerals::padded(numerals::digits(v.last() as nat, 16), 2, 0x30);
    reveal_strlit(" ");
    assert(" "@ =~= seq![' ']);
    assert(vstd::utf8::is_ascii_chars(" "@));
    vstd::utf8::is_ascii_chars_encode_utf8(" "@);
    assert(" "@[0] == ' ');
    assert(t(" ") =~= seq![0x20u8]);
    lemma_two_digits(v.last());
    assert(pairs(v) =~= pairs(part) + d + t(" "));
    if part.len() == 0 {
        assert(pairs(part) =~= Seq::<u8>::empty());
    }
    if part.len() > 0 {
        let at = if i < part.len() {
            i
        } else {
            0
        };
        frames_are_shown_in_pairs(part, at);
    }
}

/// Numbers are logged in base 16 without leading zeros, behind their label, and end the line; a time is logged
/// behind `0x`, and as `none` where there is none.
pub proof fn numbers_are_logged_behind_their_label(label: &str, v: u64)
    ensures
        labelled_text(label, v) == t(label) + numerals::digits(v as nat, 16) + t("\n"),
        time_text(Some(v)) == t("0x") + numerals::digits(v as nat, 16),
        time_text(None) == t("none"),
{
    lemma_some_digits(v as nat);
}

proof fn lemma_some_digits(v: nat)
    ensures
        numerals::digits(v, 16).len() >= 1,
{
    reveal_with_fuel(numerals::digits, 1);
}

/// A step's time runs from the start, and its span from the step before; there is none where a step was not
/// reached, and a clock that went back counts as none passed.
pub proof fn spans_run_between_steps(v: TraceView, a: StartupMilestone, b: StartupMilestone)
    ensures
        v.marks[b.place()] is None ==> elapsed_of(v, b) is None && span_of(v, a, b) is None,
        v.marks[a.place()] is None ==> span_of(v, a, b) is None,
        v.marks[b.place()] matches Some(at) ==> elapsed_of(v, b) == Some(
            (if at < v.start_ns {
                0
            } else {
                at - v.start_ns
            }) as u64,
        ),
        v.marks[a.place()] is Some && v.marks[b.place()] is Some ==> span_of(v, a, b) == Some(
            (if v.marks[b.place()]->0 < v.marks[a.place()]->0 {
                0
            } else {
                v.marks[b.place()]->0 - v.marks[a.place()]->0
            }) as u64,
        ),
{
}

/// A line of the startup times names its step and tells the time from the start, then the span from the step
/// before.
pub proof fn startup_lines_tell_two_times(
    v: TraceView,
    label: &str,
    m: StartupMilestone,
    previous: StartupMilestone,
)
    ensures
        startup_line_text(v, label, m, previous) == t("drv-i2c-hid: startup ") + t(label) + t(
            " total=",
        ) + time_text(elapsed_of(v, m)) + t(" step=") + time_text(span_of(v, previous, m)) + t(
            "\n",
        ),
{
}

/// A device is described by its vendor, its product, the length of its report descriptor, its input register and
/// its longest frame, in this order; one of the vendor with quirks has a line more.
pub proof fn devices_are_described_field_by_field(d: Descriptor)
    ensures
        ({
            let fields = t("drv-i2c-hid: descriptor ok\n") + labelled_text(
                "drv-i2c-hid: vendor=0x",
                d.vendor_id as u64,
            ) + labelled_text("drv-i2c-hid: product=0x", d.product_id as u64) + labelled_text(
                "drv-i2c-hid: report-len=0x",
                d.report_descriptor_length as u64,
            ) + labelled_text("drv-i2c-hid: input-reg=0x", d.input_register as u64)
                + labelled_text("drv-i2c-hid: max-input=0x", d.max_input_length as u64);
            &&& quirks_of(d.vendor_id).no_wakeup_after_reset ==> device_text(d) == fields + t(
                "drv-i2c-hid: elan no-wakeup-after-reset quirk\n",
            )
            &&& !quirks_of(d.vendor_id).no_wakeup_after_reset ==> device_text(d) == fields
        }),
{
}

/// What a failed call returned is logged behind a line of its own.
pub proof fn failures_are_logged_with_their_code(s: HidStart, code: u64)
    ensures
        s.phase is Geni ==> s.after(StartEventView::Tried(Some(code))).1 == labelled_text(
            "drv-i2c-hid: GENI init error=0x",
            code,
        ),
        s.phase is Descriptor ==> s.after(
            StartEventView::Described(Described::Transfer(code)),
        ).1 == labelled_text("drv-i2c-hid: transfer error=0x", code) && s.after(
            StartEventView::Described(Described::Parse(code)),
        ).1 == labelled_text("drv-i2c-hid: descriptor error=0x", code),
        s.phase is SetPower ==> s.after(StartEventView::Tried(Some(code))).1 == labelled_text(
            "drv-i2c-hid: set-power error=0x",
            code,
        ),
        s.phase is Reset ==> s.after(StartEventView::Tried(Some(code))).1 == labelled_text(
            "drv-i2c-hid: reset error=0x",
            code,
        ),
        s.phase is Wake ==> s.after(StartEventView::Tried(Some(code))).1 == labelled_text(
            "drv-i2c-hid: post-reset set-power error=0x",
            code,
        ),
        s.phase is ResetRead ==> s.after(
            StartEventView::Synced(SyncedView::Read(code)),
        ).1 == labelled_text("drv-i2c-hid: reset sync read error=0x", code),
        s.phase is ReportDescriptor ==> s.after(
            StartEventView::Reported(Reported::Transfer(code)),
        ).1 == labelled_text("drv-i2c-hid: report descriptor transfer error=0x", code) && s.after(
            StartEventView::Reported(Reported::Parse(code)),
        ).1 == labelled_text("drv-i2c-hid: report descriptor parse error=0x", code),
{
}

/// The lamps' errors are numbered from zero on, each by a number of its own.
pub proof fn lamp_errors_have_their_own_number(a: LedSyncError, b: LedSyncError)
    ensures
        led_code(a) == led_code(b) ==> a == b,
        led_code(LedSyncError::NoCapsLockLed) == 0,
        led_code(LedSyncError::PayloadTooLong) == 1,
        led_code(LedSyncError::NoOutputPath) == 2,
        led_code(LedSyncError::Format) == 3,
        led_code(LedSyncError::Transfer) == 4,
{
}

/// A report descriptor without bytes is refused with 0 and one above 256 bytes with 1; the log says so.
pub proof fn report_lengths_are_refused_by_number(length: u16)
    ensures
        ({
            let line = t("drv-i2c-hid: power-on + reset issued\n");
            &&& length == 0 ==> power_text(length) == line + labelled_text(
                "drv-i2c-hid: report descriptor length error=0x",
                0,
            )
            &&& length > 256 ==> power_text(length) == line + labelled_text(
                "drv-i2c-hid: report descriptor length error=0x",
                1,
            )
            &&& 1 <= length <= 256 ==> power_text(length) == line
        }),
{
}

} // verus!
