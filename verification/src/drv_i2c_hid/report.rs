//! Reading of input frames: what kind of report a frame is, which keys went
//! down, and what the pointer did.

use vstd::prelude::*;

use crate::drv_i2c_hid::stats::DeviceQuirks;
use crate::hid::{
    apply_caps_lock_to_ascii, other_case, BootMouseReport, DecodeError, InputFrame, KeyEvent,
    KeyEventView, MouseButtons, MouseReport, ProtocolError, BOOT_MOUSE_REPORT_BYTES, REPORT_BYTES,
};

verus! {

pub const MOUSE_EVENT_BYTES: usize = 3;

pub const INPUT_POLL_FRAMES: usize = 32;

pub const MAX_INPUT_FRAME_BYTES: usize = 64;

pub const MAX_REPORT_DESCRIPTOR_BYTES: usize = 256;

pub const MAX_PRESSED_ASCII_BYTES: usize = 6;

pub const MAX_PRESSED_TERMINAL_BYTES: usize = 24;

#[derive(Clone, Copy, Debug, PartialEq, Eq, Structural)]
pub enum ReportProbeError {
    Empty,
    TooLong,
}

#[derive(Clone, Copy, Debug, PartialEq, Eq, Structural)]
pub enum InputProbeError {
    InvalidLength,
    Protocol(ProtocolError),
    Decode(DecodeError),
}

/// What a frame is.
#[derive(Clone, Copy, Debug, PartialEq, Eq, Structural)]
pub enum InputReportClass {
    Reset,
    BogusIrq,
    KeyboardReport,
    MouseReport,
    ForeignReportId { report_id: u8 },
    ProtocolError(ProtocolError),
}

/// The length of a report descriptor, where it fits the buffer for it.
pub fn bounded_report_descriptor_len(length: u16) -> (r: Result<usize, ReportProbeError>)
    ensures
        r == (if length == 0 {
            Err(ReportProbeError::Empty)
        } else if length > 256 {
            Err(ReportProbeError::TooLong)
        } else {
            Ok(length as usize)
        }),
{
    let length: usize = length as usize;
    if length == 0 {
        Err(ReportProbeError::Empty)
    } else if length > MAX_REPORT_DESCRIPTOR_BYTES {
        Err(ReportProbeError::TooLong)
    } else {
        Ok(length)
    }
}

/// The length of an input frame, where it fits the buffer for it.
pub fn bounded_input_frame_len(length: u16) -> (r: Result<usize, InputProbeError>)
    ensures
        r == (if 2 <= length <= 64 {
            Ok::<usize, InputProbeError>(length as usize)
        } else {
            Err::<usize, InputProbeError>(InputProbeError::InvalidLength)
        }),
{
    let length: usize = length as usize;
    if length < 2 || length > MAX_INPUT_FRAME_BYTES {
        Err(InputProbeError::InvalidLength)
    } else {
        Ok(length)
    }
}

/// A frame of ones, from a device that is known to send them.
pub open spec fn is_bogus(raw: Seq<u8>, quirks: DeviceQuirks) -> bool {
    quirks.bogus_irq && raw.len() >= 2 && raw[0] == 0xff && raw[1] == 0xff
}

fn bogus(raw: &[u8], quirks: DeviceQuirks) -> (r: bool)
    ensures
        r == is_bogus(raw@, quirks),
{
    quirks.bogus_irq && raw.len() >= 2 && raw[0] == 0xff && raw[1] == 0xff
}

/// What a report's payload is by the keyboard's report number alone.
pub open spec fn keyboard_class(payload: Seq<u8>, report_id: Option<u8>) -> InputReportClass {
    let not_keyboard = InputReportClass::ProtocolError(ProtocolError::NotBootKeyboardReport);
    match report_id {
        Some(expected) => if payload.len() == 0 {
            InputReportClass::ProtocolError(ProtocolError::Truncated)
        } else if payload[0] != expected {
            InputReportClass::ForeignReportId { report_id: payload[0] }
        } else if payload.len() == 9 {
            InputReportClass::KeyboardReport
        } else {
            not_keyboard
        },
        None => if payload.len() == 8 {
            InputReportClass::KeyboardReport
        } else {
            not_keyboard
        },
    }
}

/// A payload that is taken for a mouse report: by its number, or by its length
/// where mouse reports have none.
pub open spec fn could_be_mouse(payload: Seq<u8>, report_id: Option<u8>) -> bool {
    match report_id {
        Some(expected) => payload.len() > 0 && payload[0] == expected,
        None => payload.len() == 3,
    }
}

fn payload_could_be_report(payload: &[u8], report_id: Option<u8>) -> (r: bool)
    ensures
        r == could_be_mouse(payload@, report_id),
{
    match report_id {
        Some(expected) => payload.len() > 0 && payload[0] == expected,
        None => payload.len() == BOOT_MOUSE_REPORT_BYTES,
    }
}

/// What a frame is. `frame` is the frame's parse and `mouse_outcome` that of its
/// mouse report, which is looked at only where the frame is taken for one.
pub open spec fn class_of(
    raw: Seq<u8>,
    frame: Result<InputFrame, ProtocolError>,
    keyboard_report_id: Option<u8>,
    mouse_report: Option<MouseReport>,
    mouse_outcome: Result<BootMouseReport, ProtocolError>,
    quirks: DeviceQuirks,
) -> InputReportClass {
    if is_bogus(raw, quirks) {
        InputReportClass::BogusIrq
    } else {
        match frame {
            Err(e) => InputReportClass::ProtocolError(e),
            Ok(InputFrame::Reset) => InputReportClass::Reset,
            Ok(InputFrame::Report(payload)) => if mouse_report matches Some(m) && could_be_mouse(
                payload@,
                m.report_id,
            ) {
                match mouse_outcome {
                    Ok(_) => InputReportClass::MouseReport,
                    Err(e) => InputReportClass::ProtocolError(e),
                }
            } else {
                keyboard_class(payload@, keyboard_report_id)
            },
        }
    }
}

/// Classifies a frame of a device without a mouse report.
pub fn classify_input_report(
    raw: &[u8],
    frame: Result<InputFrame, ProtocolError>,
    report_id: Option<u8>,
    quirks: DeviceQuirks,
) -> (c: InputReportClass)
    ensures
        forall|m: Result<BootMouseReport, ProtocolError>|
            c == #[trigger] class_of(raw@, frame, report_id, None, m, quirks),
{
    classify_input_report_with_mouse(
        raw,
        frame,
        report_id,
        None,
        Err(ProtocolError::NotBootMouseReport),
        quirks,
    )
}

/// Classifies a frame.
pub fn classify_input_report_with_mouse(
    raw: &[u8],
    frame: Result<InputFrame, ProtocolError>,
    keyboard_report_id: Option<u8>,
    mouse_report: Option<MouseReport>,
    mouse_outcome: Result<BootMouseReport, ProtocolError>,
    quirks: DeviceQuirks,
) -> (c: InputReportClass)
    ensures
        c == class_of(raw@, frame, keyboard_report_id, mouse_report, mouse_outcome, quirks),
{
    if bogus(raw, quirks) {
        return InputReportClass::BogusIrq;
    }
    let payload: &[u8] = match frame {
        Err(e) => return InputReportClass::ProtocolError(e),
        Ok(InputFrame::Reset) => return InputReportClass::Reset,
        Ok(InputFrame::Report(payload)) => payload,
    };
    match mouse_report {
        Some(m) => {
            if payload_could_be_report(payload, m.report_id) {
                return match mouse_outcome {
                    Ok(_) => InputReportClass::MouseReport,
                    Err(e) => InputReportClass::ProtocolError(e),
                };
            }
        },
        None => {},
    }
    match keyboard_report_id {
        Some(expected) => {
            if payload.len() == 0 {
                InputReportClass::ProtocolError(ProtocolError::Truncated)
            } else if payload[0] != expected {
                InputReportClass::ForeignReportId { report_id: payload[0] }
            } else if payload.len() - 1 == REPORT_BYTES {
                InputReportClass::KeyboardReport
            } else {
                InputReportClass::ProtocolError(ProtocolError::NotBootKeyboardReport)
            }
        },
        None => {
            if payload.len() == REPORT_BYTES {
                InputReportClass::KeyboardReport
            } else {
                InputReportClass::ProtocolError(ProtocolError::NotBootKeyboardReport)
            }
        },
    }
}

/// What a frame says of the pointer. `None` for a frame without a report.
pub fn decode_mouse_probe(
    raw: &[u8],
    frame: Result<InputFrame, ProtocolError>,
    mouse_outcome: Result<BootMouseReport, ProtocolError>,
    quirks: DeviceQuirks,
) -> (r: Result<Option<BootMouseReport>, ProtocolError>)
    ensures
        r == (if is_bogus(raw@, quirks) {
            Ok(None)
        } else {
            match frame {
                Err(e) => Err(e),
                Ok(InputFrame::Reset) => Ok(None),
                Ok(InputFrame::Report(_)) => match mouse_outcome {
                    Ok(m) => Ok(Some(m)),
                    Err(e) => Err(e),
                },
            }
        }),
{
    if bogus(raw, quirks) {
        return Ok(None);
    }
    match frame {
        Err(e) => Err(e),
        Ok(InputFrame::Reset) => Ok(None),
        Ok(InputFrame::Report(_)) => match mouse_outcome {
            Ok(m) => Ok(Some(m)),
            Err(e) => Err(e),
        },
    }
}

/// A signed byte's two's complement.
pub open spec fn as_byte(v: i8) -> u8 {
    if v < 0 {
        (v + 256) as u8
    } else {
        v as u8
    }
}

fn to_byte(v: i8) -> (b: u8)
    ensures
        b == as_byte(v),
{
    if v < 0 {
        (v as i16 + 256) as u8
    } else {
        v as u8
    }
}

/// The signed byte of a two's complement.
pub open spec fn from_byte(b: u8) -> i8 {
    if b >= 128 {
        (b - 256) as i8
    } else {
        b as i8
    }
}

fn to_signed(b: u8) -> (v: i8)
    ensures
        v == from_byte(b),
{
    if b >= 128 {
        (b as i16 - 256) as i8
    } else {
        b as i8
    }
}

/// A pointer event: its buttons and how far it moved.
pub open spec fn mouse_event_bytes(r: BootMouseReport) -> Seq<u8> {
    seq![r.buttons@, as_byte(r.x_delta), as_byte(r.y_delta)]
}

pub fn encode_mouse_event(report: BootMouseReport) -> (raw: [u8; 3])
    ensures
        raw@ == mouse_event_bytes(report),
{
    let raw: [u8; 3] = [report.buttons.bits(), to_byte(report.x_delta), to_byte(report.y_delta)];
    assert(raw@ =~= mouse_event_bytes(report));
    raw
}

/// Three bytes hold this pointer event.
pub open spec fn holds_mouse_event(raw: Seq<u8>, r: BootMouseReport) -> bool {
    &&& r.buttons.wf()
    &&& r.buttons@ == raw[0] & 7
    &&& r.x_delta == from_byte(raw[1])
    &&& r.y_delta == from_byte(raw[2])
}

/// Decodes a pointer event. `None` for any other length.
pub fn decode_mouse_event(raw: &[u8]) -> (r: Option<BootMouseReport>)
    ensures
        r is Some <==> raw@.len() == 3,
        r matches Some(m) ==> holds_mouse_event(raw@, m),
{
    if raw.len() == MOUSE_EVENT_BYTES {
        Some(
            BootMouseReport {
                buttons: MouseButtons::from_bits(raw[0]),
                x_delta: to_signed(raw[1]),
                y_delta: to_signed(raw[2]),
            },
        )
    } else {
        None
    }
}

/// What was sent of a pointer event is read back, and nothing else is.
pub proof fn mouse_events_round_trip(sent: BootMouseReport, read: BootMouseReport)
    requires
        sent.buttons.wf(),
    ensures
        mouse_event_bytes(sent).len() == 3,
        holds_mouse_event(mouse_event_bytes(sent), read) <==> read == sent,
{
    read.buttons.lemma_bits(sent.buttons);
}

/// The keys that a report says went down.
#[derive(Clone, Copy, Debug, PartialEq, Eq)]
pub struct InputProbe {
    pub event_count: usize,
    pub first_pressed_usage: Option<u8>,
    pub first_pressed_ascii: Option<u8>,
    pub caps_lock_toggle: bool,
    pub pressed_ascii: [u8; 6],
    pub pressed_ascii_len: usize,
    pub pressed_terminal: [u8; 24],
    pub pressed_terminal_len: usize,
}

/// An [`InputProbe`] as plain data.
#[verifier::ext_equal]
pub struct ProbeView {
    pub event_count: int,
    pub first_pressed_usage: Option<u8>,
    pub first_pressed_ascii: Option<u8>,
    pub caps_lock_toggle: bool,
    pub ascii: Seq<u8>,
    pub terminal: Seq<u8>,
}

impl View for InputProbe {
    type V = ProbeView;

    open spec fn view(&self) -> ProbeView {
        ProbeView {
            event_count: self.event_count as int,
            first_pressed_usage: self.first_pressed_usage,
            first_pressed_ascii: self.first_pressed_ascii,
            caps_lock_toggle: self.caps_lock_toggle,
            ascii: self.pressed_ascii@.subrange(0, self.pressed_ascii_len as int),
            terminal: self.pressed_terminal@.subrange(0, self.pressed_terminal_len as int),
        }
    }
}

impl InputProbe {
    pub open spec fn wf(self) -> bool {
        self.pressed_ascii_len <= 6 && self.pressed_terminal_len <= 24
    }

    /// The characters of the keys that went down.
    pub fn pressed_ascii(&self) -> (r: &[u8])
        ensures
            r@ == self.pressed_ascii@.subrange(
                0,
                if self.pressed_ascii_len <= 6 {
                    self.pressed_ascii_len as int
                } else {
                    6
                },
            ),
    {
        if self.pressed_ascii_len <= MAX_PRESSED_ASCII_BYTES {
            &self.pressed_ascii[0..self.pressed_ascii_len]
        } else {
            &self.pressed_ascii[0..6]
        }
    }

    /// The bytes that those keys send to a terminal.
    pub fn pressed_terminal_bytes(&self) -> (r: &[u8])
        ensures
            r@ == self.pressed_terminal@.subrange(
                0,
                if self.pressed_terminal_len <= 24 {
                    self.pressed_terminal_len as int
                } else {
                    24
                },
            ),
    {
        if self.pressed_terminal_len <= MAX_PRESSED_TERMINAL_BYTES {
            &self.pressed_terminal[0..self.pressed_terminal_len]
        } else {
            &self.pressed_terminal[0..24]
        }
    }
}

/// The start of `s`, at most `n` bytes of it.
pub open spec fn clipped(s: Seq<u8>, n: int) -> Seq<u8> {
    if s.len() <= n {
        s
    } else {
        s.subrange(0, n)
    }
}

/// A key's character, as caps lock leaves it.
pub open spec fn character(e: KeyEventView, caps_lock: bool) -> Option<u8> {
    match e.ascii {
        Some(b) => Some(
            if caps_lock {
                other_case(b)
            } else {
                b
            },
        ),
        None => None,
    }
}

/// What a key adds to a probe. Characters past the room for them are lost; a key
/// without a character sends its terminal bytes as they are.
pub open spec fn with_event(p: ProbeView, e: KeyEventView, caps_lock: bool) -> ProbeView {
    if !e.pressed {
        p
    } else {
        let c = character(e, caps_lock);
        ProbeView {
            event_count: p.event_count,
            caps_lock_toggle: p.caps_lock_toggle || e.usage == 0x39,
            first_pressed_usage: if p.first_pressed_usage is None {
                Some(e.usage)
            } else {
                p.first_pressed_usage
            },
            first_pressed_ascii: if p.first_pressed_usage is None {
                c
            } else {
                p.first_pressed_ascii
            },
            ascii: match c {
                Some(b) => clipped(p.ascii.push(b), 6),
                None => p.ascii,
            },
            terminal: match c {
                Some(b) => clipped(p.terminal.push(b), 24),
                None => clipped(p.terminal + e.terminal, 24),
            },
        }
    }
}

/// The probe of no key at all.
pub open spec fn no_keys(event_count: int) -> ProbeView {
    ProbeView {
        event_count,
        first_pressed_usage: None,
        first_pressed_ascii: None,
        caps_lock_toggle: false,
        ascii: Seq::empty(),
        terminal: Seq::empty(),
    }
}

/// The probe of a series of events.
pub open spec fn probe_of(events: Seq<KeyEventView>, caps_lock: bool) -> ProbeView
    decreases events.len(),
{
    if events.len() == 0 {
        no_keys(0)
    } else {
        let p = probe_of(events.drop_last(), caps_lock);
        with_event(ProbeView { event_count: events.len() as int, ..p }, events.last(), caps_lock)
    }
}

/// Events as plain data.
pub open spec fn event_views(v: Seq<KeyEvent>) -> Seq<KeyEventView> {
    v.map_values(|e: KeyEvent| e@)
}

pub fn no_input_probe() -> (p: InputProbe)
    ensures
        p.wf(),
        p@ == no_keys(0),
{
    let p: InputProbe = InputProbe {
        event_count: 0,
        first_pressed_usage: None,
        first_pressed_ascii: None,
        caps_lock_toggle: false,
        pressed_ascii: [0; 6],
        pressed_ascii_len: 0,
        pressed_terminal: [0; 24],
        pressed_terminal_len: 0,
    };
    assert(p@.ascii =~= Seq::empty());
    assert(p@.terminal =~= Seq::empty());
    p
}

fn add_terminal(p: &mut InputProbe, byte: u8)
    requires
        old(p).wf(),
    ensures
        final(p).wf(),
        final(p)@ == (ProbeView { terminal: clipped(old(p)@.terminal.push(byte), 24), ..old(p)@ }),
{
    if p.pressed_terminal_len < MAX_PRESSED_TERMINAL_BYTES {
        p.pressed_terminal[p.pressed_terminal_len] = byte;
        p.pressed_terminal_len = p.pressed_terminal_len + 1;
    }
    assert(p@.terminal =~= clipped(old(p)@.terminal.push(byte), 24));
    assert(p@.ascii =~= old(p)@.ascii);
}

fn add_ascii(p: &mut InputProbe, byte: u8)
    requires
        old(p).wf(),
    ensures
        final(p).wf(),
        final(p)@ == (ProbeView { ascii: clipped(old(p)@.ascii.push(byte), 6), ..old(p)@ }),
{
    if p.pressed_ascii_len < MAX_PRESSED_ASCII_BYTES {
        p.pressed_ascii[p.pressed_ascii_len] = byte;
        p.pressed_ascii_len = p.pressed_ascii_len + 1;
    }
    assert(p@.ascii =~= clipped(old(p)@.ascii.push(byte), 6));
    assert(p@.terminal =~= old(p)@.terminal);
}

fn add_event(p: &mut InputProbe, e: &KeyEvent, caps_lock: bool)
    requires
        old(p).wf(),
    ensures
        final(p).wf(),
        final(p)@ == with_event(old(p)@, e@, caps_lock),
{
    if !e.pressed {
        return;
    }
    let ghost given = p@;
    if e.usage == 0x39 {
        p.caps_lock_toggle = true;
    }
    let ascii: Option<u8> = match e.ascii {
        Some(b) => Some(apply_caps_lock_to_ascii(b, caps_lock)),
        None => None,
    };
    if p.first_pressed_usage.is_none() {
        p.first_pressed_usage = Some(e.usage);
        p.first_pressed_ascii = ascii;
    }
    assert(p@.ascii =~= given.ascii);
    assert(p@.terminal =~= given.terminal);
    match ascii {
        Some(b) => {
            add_ascii(p, b);
            add_terminal(p, b);
        },
        None => {
            let ghost start = p@;
            let mut i: usize = 0;
            assert(clipped(start.terminal + e.terminal@.subrange(0, 0), 24) =~= start.terminal);
            while i < e.terminal.len()
                invariant
                    i <= e.terminal@.len(),
                    p.wf(),
                    start.terminal.len() <= 24,
                    p@ == (ProbeView {
                        terminal: clipped(
                            start.terminal + e.terminal@.subrange(0, i as int),
                            24,
                        ),
                        ..start
                    }),
                decreases e.terminal@.len() - i,
            {
                let ghost part = start.terminal + e.terminal@.subrange(0, i as int);
                add_terminal(p, e.terminal[i]);
                i += 1;
                assert(clipped(clipped(part, 24).push(e.terminal@[i - 1]), 24) =~= clipped(
                    start.terminal + e.terminal@.subrange(0, i as int),
                    24,
                ));
            }
            assert(e.terminal@.subrange(0, i as int) =~= e.terminal@);
        },
    }
}

/// Gathers the keys that went down.
pub fn input_probe_from_events_with_caps_lock(events: &Vec<KeyEvent>, caps_lock: bool) -> (p:
    InputProbe)
    ensures
        p.wf(),
        p@ == probe_of(event_views(events@), caps_lock),
{
    let mut p: InputProbe = no_input_probe();
    let ghost all = event_views(events@);
    let mut i: usize = 0;
    assert(all.subrange(0, 0) =~= Seq::empty());
    while i < events.len()
        invariant
            i <= events@.len(),
            all == event_views(events@),
            p.wf(),
            p@ == probe_of(all.subrange(0, i as int), caps_lock),
        decreases events@.len() - i,
    {
        let ghost before = p@;
        p.event_count = i + 1;
        assert(p@ =~= ProbeView { event_count: i + 1, ..before });
        add_event(&mut p, &events[i], caps_lock);
        i += 1;
        let ghost part = all.subrange(0, i as int);
        assert(part.drop_last() =~= all.subrange(0, i - 1));
        assert(part.last() == events@[i - 1]@);
    }
    assert(all.subrange(0, i as int) =~= all);
    p
}

/// What a keyboard's frame says. `frame` is the frame's parse, and `events` what
/// the keyboard report in it was decoded to, or why it was not. A frame without
/// a report says that no key went down.
pub open spec fn input_of(
    raw: Seq<u8>,
    frame: Result<InputFrame, ProtocolError>,
    events: Result<Seq<KeyEventView>, InputProbeError>,
    quirks: DeviceQuirks,
    caps_lock: bool,
) -> Result<ProbeView, InputProbeError> {
    if is_bogus(raw, quirks) {
        Ok(no_keys(0))
    } else {
        match frame {
            Err(e) => Err(InputProbeError::Protocol(e)),
            Ok(InputFrame::Reset) => Ok(no_keys(0)),
            Ok(InputFrame::Report(_)) => match events {
                Err(e) => Err(e),
                Ok(v) => Ok(probe_of(v, caps_lock)),
            },
        }
    }
}

/// A probe or an error, as plain data.
pub open spec fn outcome(r: Result<InputProbe, InputProbeError>) -> Result<
    ProbeView,
    InputProbeError,
> {
    match r {
        Ok(p) => Ok(p@),
        Err(e) => Err(e),
    }
}

/// What a decoder brought, as plain data.
pub open spec fn brought(events: Result<Vec<KeyEvent>, InputProbeError>) -> Result<
    Seq<KeyEventView>,
    InputProbeError,
> {
    match events {
        Ok(v) => Ok(event_views(v@)),
        Err(e) => Err(e),
    }
}

/// Reads a keyboard's frame while caps lock is on or off.
pub fn decode_with_quirks_and_caps_lock(
    raw: &[u8],
    frame: Result<InputFrame, ProtocolError>,
    events: Result<Vec<KeyEvent>, InputProbeError>,
    quirks: DeviceQuirks,
    caps_lock: bool,
) -> (r: Result<InputProbe, InputProbeError>)
    ensures
        outcome(r) == input_of(raw@, frame, brought(events), quirks, caps_lock),
        r matches Ok(p) ==> p.wf(),
{
    if bogus(raw, quirks) {
        return Ok(no_input_probe());
    }
    match frame {
        Err(e) => Err(InputProbeError::Protocol(e)),
        Ok(InputFrame::Reset) => Ok(no_input_probe()),
        Ok(InputFrame::Report(_)) => match events {
            Err(e) => Err(e),
            Ok(v) => Ok(input_probe_from_events_with_caps_lock(&v, caps_lock)),
        },
    }
}

/// Reads a keyboard's frame without caps lock.
pub fn decode_with_quirks(
    raw: &[u8],
    frame: Result<InputFrame, ProtocolError>,
    events: Result<Vec<KeyEvent>, InputProbeError>,
    quirks: DeviceQuirks,
) -> (r: Result<InputProbe, InputProbeError>)
    ensures
        outcome(r) == input_of(raw@, frame, brought(events), quirks, false),
        r matches Ok(p) ==> p.wf(),
{
    decode_with_quirks_and_caps_lock(raw, frame, events, quirks, false)
}

/// Reads a keyboard's frame of a device without quirks.
pub fn decode_input_probe(
    raw: &[u8],
    frame: Result<InputFrame, ProtocolError>,
    events: Result<Vec<KeyEvent>, InputProbeError>,
) -> (r: Result<InputProbe, InputProbeError>)
    ensures
        outcome(r) == input_of(
            raw@,
            frame,
            brought(events),
            DeviceQuirks {
                no_wakeup_after_reset: false,
                bogus_irq: false,
                force_trigger_falling: false,
            },
            false,
        ),
        r matches Ok(p) ==> p.wf(),
{
    decode_with_quirks(
        raw,
        frame,
        events,
        DeviceQuirks {
            no_wakeup_after_reset: false,
            bogus_irq: false,
            force_trigger_falling: false,
        },
    )
}

/// Caps lock swaps the case of letters and leaves everything else of a probe as
/// it is: the events, the keys, and whether caps lock itself was pressed.
pub proof fn caps_lock_touches_only_letters(events: Seq<KeyEventView>)
    ensures
        ({
            let plain = probe_of(events, false);
            let caps = probe_of(events, true);
            &&& caps.event_count == plain.event_count
            &&& caps.first_pressed_usage == plain.first_pressed_usage
            &&& caps.caps_lock_toggle == plain.caps_lock_toggle
            &&& caps.ascii == plain.ascii.map_values(|b: u8| other_case(b))
            &&& caps.terminal.len() == plain.terminal.len()
        }),
    decreases events.len(),
{
    if events.len() > 0 {
        caps_lock_touches_only_letters(events.drop_last());
        let p = probe_of(events.drop_last(), false);
        let c = probe_of(events.drop_last(), true);
        let e = events.last();
        if e.pressed && e.ascii is Some {
            let b = e.ascii->0;
            let f = |b: u8| other_case(b);
            assert(clipped(c.ascii.push(other_case(b)), 6) =~= clipped(
                p.ascii.push(b),
                6,
            ).map_values(f));
        }
    } else {
        assert(probe_of(events, true).ascii =~= probe_of(events, false).ascii.map_values(
            |b: u8| other_case(b),
        ));
    }
}

/// A frame of ones from a device that sends them is bogus, whatever else it holds; then the frame's own parse
/// counts: an error is one, the end of a reset is one, and a report is a mouse's where it is taken for one
/// and otherwise what it is by the keyboard's report number.
pub proof fn frames_are_classed_in_order(
    raw: Seq<u8>,
    frame: Result<InputFrame, ProtocolError>,
    keyboard: Option<u8>,
    mouse: Option<MouseReport>,
    outcome: Result<BootMouseReport, ProtocolError>,
    quirks: DeviceQuirks,
)
    ensures
        ({
            let c = class_of(raw, frame, keyboard, mouse, outcome, quirks);
            let ones = quirks.bogus_irq && raw.len() >= 2 && raw[0] == 0xff && raw[1] == 0xff;
            &&& ones ==> c == InputReportClass::BogusIrq
            &&& !ones ==> match frame {
                Err(e) => c == InputReportClass::ProtocolError(e),
                Ok(InputFrame::Reset) => c == InputReportClass::Reset,
                Ok(InputFrame::Report(p)) => {
                    let moused = mouse is Some && match mouse->0.report_id {
                        Some(id) => p@.len() > 0 && p@[0] == id,
                        None => p@.len() == 3,
                    };
                    &&& moused && outcome is Ok ==> c == InputReportClass::MouseReport
                    &&& moused && outcome is Err ==> c == InputReportClass::ProtocolError(
                        outcome->Err_0,
                    )
                    &&& !moused ==> c == keyboard_class(p@, keyboard)
                },
            }
        }),
{
}

/// A keyboard's report is eight bytes, behind its number where it has one; another number makes a foreign
/// report, and no byte at all a truncated one.
pub proof fn keyboard_reports_are_eight_bytes(p: Seq<u8>, id: u8)
    ensures
        p.len() == 8 ==> keyboard_class(p, None) == InputReportClass::KeyboardReport,
        p.len() != 8 ==> keyboard_class(p, None) == InputReportClass::ProtocolError(
            ProtocolError::NotBootKeyboardReport,
        ),
        p.len() == 0 ==> keyboard_class(p, Some(id)) == InputReportClass::ProtocolError(
            ProtocolError::Truncated,
        ),
        p.len() > 0 && p[0] != id ==> keyboard_class(p, Some(id)) == (
        InputReportClass::ForeignReportId { report_id: p[0] }),
        p.len() == 9 && p[0] == id ==> keyboard_class(p, Some(id))
            == InputReportClass::KeyboardReport,
        p.len() > 0 && p.len() != 9 && p[0] == id ==> keyboard_class(p, Some(id))
            == InputReportClass::ProtocolError(ProtocolError::NotBootKeyboardReport),
{
}

/// A signed byte and its two's complement are 256 apart below zero, and the same from zero on.
pub proof fn signed_bytes_are_twos_complement(v: i8, b: u8)
    ensures
        v >= 0 ==> as_byte(v) == v,
        v < 0 ==> as_byte(v) == v + 256,
        b < 128 ==> from_byte(b) == b,
        b >= 128 ==> from_byte(b) == b - 256,
        from_byte(as_byte(v)) == v,
        as_byte(from_byte(b)) == b,
{
}

/// A pointer event is three bytes: the buttons and the two deltas.
pub proof fn pointer_events_are_three_bytes(r: BootMouseReport)
    ensures
        mouse_event_bytes(r).len() == 3,
        mouse_event_bytes(r)[0] == r.buttons@,
        from_byte(mouse_event_bytes(r)[1]) == r.x_delta,
        from_byte(mouse_event_bytes(r)[2]) == r.y_delta,
{
}

/// A key that goes up adds nothing but its count. The first key that goes down gives the probe its number and
/// character; every key with a character adds it, as caps lock leaves it, to the six characters and the 24
/// terminal bytes that there is room for, and every other key adds its terminal bytes. Key 0x39 is caps lock.
pub proof fn keys_add_what_they_stand_for(p: ProbeView, e: KeyEventView, caps_lock: bool)
    ensures
        !e.pressed ==> with_event(p, e, caps_lock) == p,
        e.pressed ==> {
            let n = with_event(p, e, caps_lock);
            &&& n.event_count == p.event_count
            &&& n.caps_lock_toggle <==> p.caps_lock_toggle || e.usage == 0x39
            &&& p.first_pressed_usage is None ==> n.first_pressed_usage == Some(e.usage)
            &&& p.first_pressed_usage is Some ==> n.first_pressed_usage == p.first_pressed_usage
                && n.first_pressed_ascii == p.first_pressed_ascii
            &&& e.ascii is None ==> n.ascii == p.ascii
            &&& e.ascii is None && p.first_pressed_usage is None ==> n.first_pressed_ascii is None
            &&& e.ascii is None && p.terminal.len() + e.terminal.len() <= 24 ==> n.terminal
                == p.terminal + e.terminal
            &&& e.ascii is Some ==> {
                let c = if caps_lock {
                    other_case(e.ascii->0)
                } else {
                    e.ascii->0
                };
                &&& p.first_pressed_usage is None ==> n.first_pressed_ascii == Some(c)
                &&& p.ascii.len() < 6 ==> n.ascii == p.ascii + seq![c]
                &&& p.ascii.len() == 6 ==> n.ascii == p.ascii
                &&& p.terminal.len() < 24 ==> n.terminal == p.terminal + seq![c]
                &&& p.terminal.len() == 24 ==> n.terminal == p.terminal
            }
        },
{
    if e.pressed && e.ascii is Some {
        let c = character(e, caps_lock)->0;
        assert(p.ascii.push(c) =~= p.ascii + seq![c]);
        assert(p.terminal.push(c) =~= p.terminal + seq![c]);
        if p.ascii.len() == 6 {
            assert(p.ascii.push(c).subrange(0, 6) =~= p.ascii);
        }
        if p.terminal.len() == 24 {
            assert(p.terminal.push(c).subrange(0, 24) =~= p.terminal);
        }
    }
}

/// A probe of some events and one more is the probe of those with the one added, and counts it.
pub proof fn probes_grow_event_by_event(events: Seq<KeyEventView>, e: KeyEventView, caps_lock: bool)
    ensures
        probe_of(Seq::empty(), caps_lock) == (ProbeView {
            event_count: 0,
            first_pressed_usage: None,
            first_pressed_ascii: None,
            caps_lock_toggle: false,
            ascii: Seq::empty(),
            terminal: Seq::empty(),
        }),
        probe_of(events, caps_lock).event_count == events.len(),
        probe_of(events.push(e), caps_lock) == with_event(
            ProbeView {
                event_count: events.len() as int + 1,
                ..probe_of(events, caps_lock)
            },
            e,
            caps_lock,
        ),
{
    assert(events.push(e).drop_last() =~= events);
    if events.len() > 0 {
        let p = probe_of(events.drop_last(), caps_lock);
        keys_add_what_they_stand_for(
            ProbeView { event_count: events.len() as int, ..p },
            events.last(),
            caps_lock,
        );
    }
}

/// What is clipped keeps its start.
pub proof fn clipping_keeps_the_start(s: Seq<u8>, n: int, i: int)
    requires
        0 <= n,
    ensures
        clipped(s, n).len() <= n,
        s.len() <= n ==> clipped(s, n) == s,
        s.len() > n ==> clipped(s, n).len() == n,
        0 <= i < s.len() && i < n ==> clipped(s, n)[i] == s[i],
{
}

/// A frame that carries no report says that no key went down; a bad frame and a report that cannot be decoded
/// are errors, and any other is the probe of its events.
pub proof fn keyboard_frames_are_read_in_order(
    raw: Seq<u8>,
    frame: Result<InputFrame, ProtocolError>,
    events: Result<Seq<KeyEventView>, InputProbeError>,
    quirks: DeviceQuirks,
    caps_lock: bool,
)
    ensures
        ({
            let r = input_of(raw, frame, events, quirks, caps_lock);
            let ones = quirks.bogus_irq && raw.len() >= 2 && raw[0] == 0xff && raw[1] == 0xff;
            &&& ones ==> r == Ok::<ProbeView, InputProbeError>(probe_of(Seq::empty(), caps_lock))
            &&& !ones ==> match frame {
                Err(e) => r == Err::<ProbeView, InputProbeError>(InputProbeError::Protocol(e)),
                Ok(InputFrame::Reset) => r == Ok::<ProbeView, InputProbeError>(
                    probe_of(Seq::empty(), caps_lock),
                ),
                Ok(InputFrame::Report(_)) => match events {
                    Err(e) => r == Err::<ProbeView, InputProbeError>(e),
                    Ok(v) => r == Ok::<ProbeView, InputProbeError>(probe_of(v, caps_lock)),
                },
            }
        }),
{
}

/// A frame counts as bogus where its first two bytes are 255 and the device is known to send such frames. A payload
/// is a mouse report where it has the report's number, or three bytes where there is none.
pub proof fn payloads_are_taken_by_number_or_length(
    raw: Seq<u8>,
    quirks: DeviceQuirks,
    payload: Seq<u8>,
    id: u8,
)
    ensures
        is_bogus(raw, quirks) ==> quirks.bogus_irq && raw.len() >= 2,
        quirks.bogus_irq && raw.len() >= 2 ==> (is_bogus(raw, quirks) <==> raw[0] == 255 && raw[1]
            == 255),
        could_be_mouse(payload, None) <==> payload.len() == 3,
        payload.len() == 0 ==> !could_be_mouse(payload, Some(id)),
        payload.len() > 0 ==> (could_be_mouse(payload, Some(id)) <==> payload[0] == id),
{
}

} // verus!
