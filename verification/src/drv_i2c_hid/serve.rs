//! Serving interrupts: what a frame is, what is forwarded, what is counted and
//! what is logged. A report that cannot be read is dropped; the driver goes on.

use vstd::prelude::*;

use crate::bytes;
use crate::drv_i2c_hid::report::{
    brought, class_of, classify_input_report_with_mouse, decode_mouse_probe,
    decode_with_quirks_and_caps_lock, input_of, InputProbe, InputProbeError,
    InputReportClass, ProbeView,
};
use crate::drv_i2c_hid::startup::{
    frame_length, labelled_text, length_word, push_labelled, x,
};
use crate::drv_i2c_hid::stats::{
    bumped, has_activity, is_reset_like, should_log_input_report_stats_snapshot, summary_due,
    BoundedFailureLog, DeviceQuirks, InputReportStats, ResetStormGuard, IRQ_TICK_LOG_LIMIT,
    NONEMPTY_FRAME_LOG_LIMIT, RAW_FRAME_LOG_LIMIT,
};
use crate::hid::{
    BootMouseReport, InputFrame, KeyEvent, MouseReport, ProtocolError,
};
use crate::numerals;
use crate::sora::sequence::t;
use crate::text;

verus! {

/// What is to be done about a frame.
#[derive(Clone, Copy, Debug, PartialEq, Eq, Structural)]
pub enum FrameAction {
    /// It carries nothing; the driver may have to pause.
    Idle { pause: bool },
    /// The pointer moved.
    Pointer(BootMouseReport),
    /// A pointer report that cannot be read, to be logged or not.
    BadPointer { error: ProtocolError, log: bool },
    /// Anything else goes to the keyboard's decoder.
    Keyboard,
}

/// What is to be done about a frame, and what is logged of it.
#[derive(Clone, Copy, Debug, PartialEq, Eq, Structural)]
pub struct FrameStep {
    /// The frame's length word.
    pub tick: Option<u64>,
    /// The frame's first bytes, as they came and as a frame with something in it.
    pub raw: bool,
    pub frame: bool,
    pub action: FrameAction,
}

/// What is to be done about a keyboard's frame.
#[derive(Clone, Copy, Debug)]
pub enum KeyAction {
    /// The keys that went down, and the caps lock lamp where it changes.
    Keys { probe: InputProbe, lamp: Option<bool> },
    /// It cannot be read; how many could not so far, where that is logged.
    Dropped { error: InputProbeError, count: Option<u32> },
}

/// What became of a byte that was forwarded.
#[derive(Clone, Copy, Debug, PartialEq, Eq, Structural)]
pub enum Forwarded {
    Sent,
    /// Lost, and how many were so far, where that is logged.
    Lost(Option<u32>),
}

/// The serve loop's state.
#[derive(Clone, Copy, Debug)]
pub struct HidLoop {
    quirks: DeviceQuirks,
    keyboard_id: Option<u8>,
    mouse: Option<MouseReport>,
    interrupts: u32,
    shown: u32,
    keyboard_failures: BoundedFailureLog,
    mouse_failures: BoundedFailureLog,
    decode_failures: BoundedFailureLog,
    lamp_failures: BoundedFailureLog,
    stats: InputReportStats,
    summaries: u32,
    storm: ResetStormGuard,
    caps_lock: bool,
}

/// The serve loop's state as plain data.
#[verifier::ext_equal]
pub struct LoopView {
    pub quirks: DeviceQuirks,
    pub keyboard_id: Option<u8>,
    pub mouse: Option<MouseReport>,
    pub interrupts: u32,
    pub shown: u32,
    pub keyboard_failures: u32,
    pub mouse_failures: u32,
    pub decode_failures: u32,
    pub lamp_failures: u32,
    pub stats: InputReportStats,
    pub summaries: u32,
    pub storm: u32,
    pub caps_lock: bool,
}

impl View for HidLoop {
    type V = LoopView;

    closed spec fn view(&self) -> LoopView {
        LoopView {
            quirks: self.quirks,
            keyboard_id: self.keyboard_id,
            mouse: self.mouse,
            interrupts: self.interrupts,
            shown: self.shown,
            keyboard_failures: self.keyboard_failures.total(),
            mouse_failures: self.mouse_failures.total(),
            decode_failures: self.decode_failures.total(),
            lamp_failures: self.lamp_failures.total(),
            stats: self.stats,
            summaries: self.summaries,
            storm: self.storm.run(),
            caps_lock: self.caps_lock,
        }
    }
}

/// A counter that begins again at zero.
pub open spec fn wrapped(n: u32) -> u32 {
    if n == u32::MAX {
        0
    } else {
        (n + 1) as u32
    }
}

impl LoopView {
    /// The class of a frame.
    pub open spec fn class(
        self,
        raw: Seq<u8>,
        frame: Result<InputFrame, ProtocolError>,
        mouse: Result<BootMouseReport, ProtocolError>,
    ) -> InputReportClass {
        class_of(raw, frame, self.keyboard_id, self.mouse, mouse, self.quirks)
    }

    /// The state after a frame of some class was counted.
    pub open spec fn counted(self, raw: Seq<u8>, class: InputReportClass) -> LoopView {
        LoopView {
            interrupts: wrapped(self.interrupts),
            stats: self.stats.with_class(class),
            storm: if is_reset_like(class) {
                bumped(self.storm)
            } else {
                0
            },
            shown: if length_word(raw) != 0 && self.shown < 8 {
                (self.shown + 1) as u32
            } else {
                self.shown
            },
            ..self
        }
    }

    /// What is to be done about a frame.
    pub open spec fn action(
        self,
        class: InputReportClass,
        mouse: Result<BootMouseReport, ProtocolError>,
    ) -> FrameAction {
        if is_reset_like(class) {
            let run = bumped(self.storm);
            FrameAction::Idle { pause: run >= 8 && run % 8 == 0 }
        } else if class is MouseReport {
            match mouse {
                Ok(m) => FrameAction::Pointer(m),
                Err(error) => FrameAction::BadPointer { error, log: self.decode_failures < 4 },
            }
        } else {
            FrameAction::Keyboard
        }
    }

    /// The state after a frame, and what is to be done about it.
    pub open spec fn after_frame(
        self,
        raw: Seq<u8>,
        frame: Result<InputFrame, ProtocolError>,
        mouse: Result<BootMouseReport, ProtocolError>,
    ) -> (LoopView, FrameStep) {
        let class = self.class(raw, frame, mouse);
        (
            self.counted(raw, class),
            FrameStep {
                tick: if wrapped(self.interrupts) <= 8 {
                    Some(length_word(raw))
                } else {
                    None
                },
                raw: wrapped(self.interrupts) <= 2,
                frame: length_word(raw) != 0 && self.shown < 8,
                action: self.action(class, mouse),
            },
        )
    }

    /// The state after a keyboard's frame was decoded to `r`.
    pub open spec fn after_keys(self, r: Result<ProbeView, InputProbeError>) -> LoopView {
        match r {
            Ok(p) => LoopView {
                caps_lock: if p.caps_lock_toggle {
                    !self.caps_lock
                } else {
                    self.caps_lock
                },
                ..self
            },
            Err(e) => LoopView {
                decode_failures: bumped(self.decode_failures),
                stats: match e {
                    InputProbeError::Decode(d) => InputReportStats {
                        decode_errors: bumped(self.stats.decode_errors),
                        last_decode_error: Some(d),
                        ..self.stats
                    },
                    _ => self.stats,
                },
                ..self
            },
        }
    }
}

impl HidLoop {
    pub fn new(quirks: DeviceQuirks, keyboard_id: Option<u8>, mouse: Option<MouseReport>) -> (l:
        HidLoop)
        ensures
            l@.quirks == quirks,
            l@.keyboard_id == keyboard_id,
            l@.mouse == mouse,
            l@.interrupts == 0 && l@.shown == 0 && l@.summaries == 0 && l@.storm == 0,
            l@.keyboard_failures == 0 && l@.mouse_failures == 0 && l@.decode_failures == 0
                && l@.lamp_failures == 0,
            l@.stats == InputReportStats::zero(),
            !l@.caps_lock,
    {
        HidLoop {
            quirks,
            keyboard_id,
            mouse,
            interrupts: 0,
            shown: 0,
            keyboard_failures: BoundedFailureLog::new(),
            mouse_failures: BoundedFailureLog::new(),
            decode_failures: BoundedFailureLog::new(),
            lamp_failures: BoundedFailureLog::new(),
            stats: InputReportStats::new(),
            summaries: 0,
            storm: ResetStormGuard::new(),
            caps_lock: false,
        }
    }

    pub fn stats(&self) -> (s: InputReportStats)
        ensures
            s == self@.stats,
    {
        self.stats
    }

    pub fn caps_lock(&self) -> (c: bool)
        ensures
            c == self@.caps_lock,
    {
        self.caps_lock
    }

    /// Counts a frame and decides what is to be done about it. `frame` is the
    /// frame's parse and `mouse` that of its pointer report.
    pub fn on_frame(
        &mut self,
        raw: &[u8],
        frame: Result<InputFrame, ProtocolError>,
        mouse: Result<BootMouseReport, ProtocolError>,
    ) -> (s: FrameStep)
        ensures
            s == old(self)@.after_frame(raw@, frame, mouse).1,
            final(self)@ == (match s.action {
                FrameAction::BadPointer { .. } => LoopView {
                    decode_failures: bumped(old(self)@.decode_failures),
                    ..old(self)@.after_frame(raw@, frame, mouse).0
                },
                _ => old(self)@.after_frame(raw@, frame, mouse).0,
            }),
    {
        self.interrupts = if self.interrupts == u32::MAX {
            0
        } else {
            self.interrupts + 1
        };
        let len: u64 = frame_length(raw);
        let class: InputReportClass = classify_input_report_with_mouse(
            raw,
            frame,
            self.keyboard_id,
            self.mouse,
            mouse,
            self.quirks,
        );
        self.stats.record_class(class);
        let pause: bool = self.storm.record(class);
        let tick: Option<u64> = if self.interrupts <= IRQ_TICK_LOG_LIMIT {
            Some(len)
        } else {
            None
        };
        let raw_shown: bool = self.interrupts <= RAW_FRAME_LOG_LIMIT;
        let frame_shown: bool = len != 0 && self.shown < NONEMPTY_FRAME_LOG_LIMIT;
        if frame_shown {
            self.shown = self.shown + 1;
        }
        let action: FrameAction = match class {
            InputReportClass::Reset => FrameAction::Idle { pause },
            InputReportClass::BogusIrq => FrameAction::Idle { pause },
            InputReportClass::MouseReport => match decode_mouse_probe(
                raw,
                frame,
                mouse,
                self.quirks,
            ) {
                Ok(Some(m)) => FrameAction::Pointer(m),
                Ok(None) => FrameAction::Idle { pause },
                Err(error) => FrameAction::BadPointer { error, log: self.decode_failures.record() },
            },
            _ => FrameAction::Keyboard,
        };
        FrameStep { tick, raw: raw_shown, frame: frame_shown, action }
    }

    /// Takes what became of a pointer event. A loss is counted while it is still
    /// logged.
    pub fn on_pointer_sent(&mut self, ok: bool) -> (f: Forwarded)
        ensures
            ({
                let o = old(self)@;
                if ok {
                    f == Forwarded::Sent && final(self)@ == (LoopView {
                        stats: InputReportStats {
                            forwarded_mouse: bumped(o.stats.forwarded_mouse),
                            ..o.stats
                        },
                        ..o
                    })
                } else {
                    f == Forwarded::Lost(
                        if o.mouse_failures < 4 {
                            Some(bumped(o.mouse_failures))
                        } else {
                            None
                        },
                    ) && final(self)@ == (LoopView {
                        mouse_failures: bumped(o.mouse_failures),
                        stats: if o.mouse_failures < 4 {
                            InputReportStats {
                                mouse_write_drops: bumped(o.stats.mouse_write_drops),
                                ..o.stats
                            }
                        } else {
                            o.stats
                        },
                        ..o
                    })
                }
            }),
    {
        if ok {
            self.stats.record_forwarded_mouse();
            Forwarded::Sent
        } else if self.mouse_failures.record() {
            self.stats.record_mouse_write_drop();
            Forwarded::Lost(Some(self.mouse_failures.count()))
        } else {
            Forwarded::Lost(None)
        }
    }

    /// Takes what a keyboard's frame was decoded to.
    pub fn on_keys(
        &mut self,
        raw: &[u8],
        frame: Result<InputFrame, ProtocolError>,
        events: Result<Vec<KeyEvent>, InputProbeError>,
    ) -> (a: KeyAction)
        ensures
            ({
                let o = old(self)@;
                let r = input_of(raw@, frame, brought(events), o.quirks, o.caps_lock);
                &&& final(self)@ == o.after_keys(r)
                &&& match a {
                    KeyAction::Keys { probe, lamp } => {
                        &&& probe.wf()
                        &&& r == Ok::<ProbeView, InputProbeError>(probe@)
                        &&& lamp == (if probe@.caps_lock_toggle {
                            Some(!o.caps_lock)
                        } else {
                            None
                        })
                    },
                    KeyAction::Dropped { error, count } => {
                        &&& r == Err::<ProbeView, InputProbeError>(error)
                        &&& count == (if o.decode_failures < 4 {
                            Some(bumped(o.decode_failures))
                        } else {
                            None
                        })
                    },
                }
            }),
    {
        match decode_with_quirks_and_caps_lock(raw, frame, events, self.quirks, self.caps_lock) {
            Ok(probe) => {
                let lamp: Option<bool> = if probe.caps_lock_toggle {
                    self.caps_lock = !self.caps_lock;
                    Some(self.caps_lock)
                } else {
                    None
                };
                KeyAction::Keys { probe, lamp }
            },
            Err(error) => {
                match error {
                    InputProbeError::Decode(d) => {
                        self.stats.record_decode_error(d);
                    },
                    _ => {},
                }
                let log: bool = self.decode_failures.record();
                let count: Option<u32> = if log {
                    Some(self.decode_failures.count())
                } else {
                    None
                };
                KeyAction::Dropped { error, count }
            },
        }
    }

    /// Takes what became of a typed byte. A loss is counted while it is still
    /// logged.
    pub fn on_key_sent(&mut self, ok: bool) -> (f: Forwarded)
        ensures
            ({
                let o = old(self)@;
                if ok {
                    f == Forwarded::Sent && final(self)@ == (LoopView {
                        stats: InputReportStats {
                            forwarded_ascii: bumped(o.stats.forwarded_ascii),
                            ..o.stats
                        },
                        ..o
                    })
                } else {
                    f == Forwarded::Lost(
                        if o.keyboard_failures < 4 {
                            Some(bumped(o.keyboard_failures))
                        } else {
                            None
                        },
                    ) && final(self)@ == (LoopView {
                        keyboard_failures: bumped(o.keyboard_failures),
                        stats: if o.keyboard_failures < 4 {
                            InputReportStats {
                                keyboard_write_drops: bumped(o.stats.keyboard_write_drops),
                                ..o.stats
                            }
                        } else {
                            o.stats
                        },
                        ..o
                    })
                }
            }),
    {
        if ok {
            self.stats.record_forwarded_ascii();
            Forwarded::Sent
        } else if self.keyboard_failures.record() {
            self.stats.record_keyboard_write_drop();
            Forwarded::Lost(Some(self.keyboard_failures.count()))
        } else {
            Forwarded::Lost(None)
        }
    }

    /// Counts lamps that could not be set and returns whether to log that.
    pub fn on_lamp_failure(&mut self) -> (log: bool)
        ensures
            log == (old(self)@.lamp_failures < 4),
            final(self)@ == (LoopView {
                lamp_failures: bumped(old(self)@.lamp_failures),
                ..old(self)@
            }),
    {
        self.lamp_failures.record()
    }

    /// Whether the counters are to be logged now; if so, that is counted.
    pub fn summary(&mut self) -> (due: bool)
        ensures
            due == (has_activity(old(self)@.stats) && summary_due(
                old(self)@.stats.frames,
                old(self)@.summaries,
            )),
            final(self)@ == (LoopView {
                summaries: if due {
                    bumped(old(self)@.summaries)
                } else {
                    old(self)@.summaries
                },
                ..old(self)@
            }),
    {
        if should_log_input_report_stats_snapshot(&self.stats, self.summaries) {
            self.summaries = self.summaries.saturating_add(1);
            true
        } else {
            false
        }
    }
}

/// A report that cannot be read changes nothing that the next one depends on:
/// the device's quirks and reports, and caps lock.
pub proof fn bad_reports_do_not_poison_the_next(
    l: LoopView,
    raw: Seq<u8>,
    frame: Result<InputFrame, ProtocolError>,
    mouse: Result<BootMouseReport, ProtocolError>,
    error: InputProbeError,
)
    ensures
        ({
            let n = l.after_frame(raw, frame, mouse).0.after_keys(Err(error));
            &&& n.quirks == l.quirks
            &&& n.keyboard_id == l.keyboard_id
            &&& n.mouse == l.mouse
            &&& n.caps_lock == l.caps_lock
        }),
{
}

/// Caps lock pressed twice leaves it as it was.
pub proof fn caps_lock_toggles(l: LoopView, a: ProbeView, b: ProbeView)
    requires
        a.caps_lock_toggle,
        b.caps_lock_toggle,
    ensures
        l.after_keys(Ok(a)).caps_lock == !l.caps_lock,
        l.after_keys(Ok(a)).after_keys(Ok(b)).caps_lock == l.caps_lock,
{
}

/// What the log says of a failed read.
pub open spec fn error_text(e: InputProbeError, code: u64) -> Seq<u8> {
    match e {
        InputProbeError::InvalidLength => t("drv-i2c-hid: input frame length invalid\n"),
        InputProbeError::Protocol(_) => labelled_text(
            "drv-i2c-hid: input frame protocol error=0x",
            code,
        ),
        InputProbeError::Decode(_) => labelled_text(
            "drv-i2c-hid: input frame decode error=0x",
            code,
        ),
    }
}

/// Appends what the log says of a failed read, whose error has this code.
pub fn push_error(out: &mut Vec<u8>, e: InputProbeError, code: u64)
    ensures
        final(out)@ == old(out)@ + error_text(e, code),
{
    match e {
        InputProbeError::InvalidLength => {
            text::append_text(out, "drv-i2c-hid: input frame length invalid\n");
        },
        InputProbeError::Protocol(_) => {
            push_labelled(out, "drv-i2c-hid: input frame protocol error=0x", code);
        },
        InputProbeError::Decode(_) => {
            push_labelled(out, "drv-i2c-hid: input frame decode error=0x", code);
        },
    }
}

/// A counter behind its name.
pub open spec fn field(label: &str, v: u32) -> Seq<u8> {
    t(label) + x(v as u64)
}

fn push_field(out: &mut Vec<u8>, label: &str, v: u32)
    ensures
        final(out)@ == old(out)@ + field(label, v),
{
    let mut part: Vec<u8> = text::to_bytes(label);
    numerals::push_hex_wide(&mut part, v as u64, 1);
    bytes::append(out, &part);
}

/// The counters.
pub open spec fn counters_text(s: InputReportStats) -> Seq<u8> {
    field("drv-i2c-hid: stats f=0x", s.frames) + field(" k=0x", s.keyboard_reports) + field(
        " m=0x",
        s.mouse_reports,
    ) + field(" rst=0x", s.reset_frames) + field(" bog=0x", s.bogus_irq_frames) + field(
        " foreign=0x",
        s.foreign_report_ids,
    ) + field(" proto=0x", s.protocol_errors) + field(" decode=0x", s.decode_errors) + field(
        " ascii=0x",
        s.forwarded_ascii,
    ) + field(" mouse=0x", s.forwarded_mouse) + field(" drop=0x", s.keyboard_write_drops) + field(
        " mdrop=0x",
        s.mouse_write_drops,
    ) + t("\n")
}

/// What came last, where anything did. The errors' codes are those of their
/// kinds, and 255 where there was none.
pub open spec fn last_text(s: InputReportStats, protocol: u8, decode: u8) -> Seq<u8> {
    if s.last_report_id is Some || s.last_protocol_error is Some || s.last_decode_error is Some {
        field(
            "drv-i2c-hid: stats last rid=0x",
            match s.last_report_id {
                Some(id) => id as u32,
                None => 0xff,
            },
        ) + field(
            " proto=0x",
            if s.last_protocol_error is Some {
                protocol as u32
            } else {
                0xff
            },
        ) + field(
            " decode=0x",
            if s.last_decode_error is Some {
                decode as u32
            } else {
                0xff
            },
        ) + t("\n")
    } else {
        Seq::empty()
    }
}

/// Reports the counters. `protocol` and `decode` are the codes of the last
/// errors.
pub fn stats_report(s: &InputReportStats, protocol: u8, decode: u8) -> (out: Vec<u8>)
    ensures
        out@ == counters_text(*s) + last_text(*s, protocol, decode),
{
    let mut out: Vec<u8> = Vec::new();
    push_field(&mut out, "drv-i2c-hid: stats f=0x", s.frames);
    assert(out@ =~= field("drv-i2c-hid: stats f=0x", s.frames));
    push_field(&mut out, " k=0x", s.keyboard_reports);
    push_field(&mut out, " m=0x", s.mouse_reports);
    push_field(&mut out, " rst=0x", s.reset_frames);
    push_field(&mut out, " bog=0x", s.bogus_irq_frames);
    push_field(&mut out, " foreign=0x", s.foreign_report_ids);
    push_field(&mut out, " proto=0x", s.protocol_errors);
    push_field(&mut out, " decode=0x", s.decode_errors);
    push_field(&mut out, " ascii=0x", s.forwarded_ascii);
    push_field(&mut out, " mouse=0x", s.forwarded_mouse);
    push_field(&mut out, " drop=0x", s.keyboard_write_drops);
    push_field(&mut out, " mdrop=0x", s.mouse_write_drops);
    text::append_text(&mut out, "\n");
    assert(out@ == counters_text(*s));
    let mut last: Vec<u8> = Vec::new();
    if s.last_report_id.is_some() || s.last_protocol_error.is_some()
        || s.last_decode_error.is_some() {
        let id: u32 = match s.last_report_id {
            Some(id) => id as u32,
            None => 0xff,
        };
        let p: u32 = if s.last_protocol_error.is_some() {
            protocol as u32
        } else {
            0xff
        };
        let d: u32 = if s.last_decode_error.is_some() {
            decode as u32
        } else {
            0xff
        };
        push_field(&mut last, "drv-i2c-hid: stats last rid=0x", id);
        assert(last@ =~= field("drv-i2c-hid: stats last rid=0x", id));
        push_field(&mut last, " proto=0x", p);
        push_field(&mut last, " decode=0x", d);
        text::append_text(&mut last, "\n");
    }
    bytes::append(&mut out, &last);
    out
}

/// A frame that carries nothing is idle, and the driver pauses at the eighth, sixteenth and so on of them in a
/// row; a mouse's report moves the pointer or is bad, and all others go to the keyboard's decoder.
pub proof fn frames_are_acted_on_by_class(
    l: LoopView,
    class: InputReportClass,
    mouse: Result<BootMouseReport, ProtocolError>,
)
    requires
        l.storm < u32::MAX,
    ensures
        class is Reset || class is BogusIrq ==> l.action(class, mouse) == (FrameAction::Idle {
            pause: (l.storm + 1) % 8 == 0,
        }),
        class is MouseReport && mouse is Ok ==> l.action(class, mouse) == FrameAction::Pointer(
            mouse->Ok_0,
        ),
        class is MouseReport && mouse is Err ==> l.action(class, mouse) == (FrameAction::BadPointer {
            error: mouse->Err_0,
            log: l.decode_failures < 4,
        }),
        class is KeyboardReport || class is ForeignReportId || class is ProtocolError ==> l.action(
            class,
            mouse,
        ) == FrameAction::Keyboard,
{
}

/// Every frame is counted; frames that carry nothing are counted in a row, and any other ends the row. The
/// first eight frames show their length word, the first two their bytes, and the first eight with something
/// in them are shown once more.
pub proof fn frames_are_counted_and_shown(
    l: LoopView,
    raw: Seq<u8>,
    frame: Result<InputFrame, ProtocolError>,
    mouse: Result<BootMouseReport, ProtocolError>,
)
    requires
        l.interrupts < u32::MAX,
        l.storm < u32::MAX,
    ensures
        ({
            let (n, s) = l.after_frame(raw, frame, mouse);
            let class = class_of(raw, frame, l.keyboard_id, l.mouse, mouse, l.quirks);
            &&& n.interrupts == l.interrupts + 1
            &&& n.stats == l.stats.with_class(class)
            &&& class is Reset || class is BogusIrq ==> n.storm == l.storm + 1
            &&& !(class is Reset || class is BogusIrq) ==> n.storm == 0
            &&& s.tick == (if l.interrupts < 8 {
                Some(length_word(raw))
            } else {
                None
            })
            &&& s.raw <==> l.interrupts < 2
            &&& s.frame <==> length_word(raw) != 0 && l.shown < 8
            &&& s.frame ==> n.shown == l.shown + 1
            &&& !s.frame ==> n.shown == l.shown
            &&& s.action == l.action(class, mouse)
            &&& n.caps_lock == l.caps_lock && n.decode_failures == l.decode_failures
        }),
{
}

/// A report that was decoded changes caps lock where its key went down, and nothing else; one that was not is
/// counted as a failure, and as an error of decoding where it is one.
pub proof fn decoded_keys_change_only_caps_lock(l: LoopView, p: ProbeView, d: crate::hid::DecodeError, e:
    ProtocolError)
    requires
        l.decode_failures < u32::MAX,
        l.stats.decode_errors < u32::MAX,
    ensures
        l.after_keys(Ok(p)) == (LoopView {
            caps_lock: l.caps_lock != p.caps_lock_toggle,
            ..l
        }),
        l.after_keys(Err(InputProbeError::Decode(d))) == (LoopView {
            decode_failures: (l.decode_failures + 1) as u32,
            stats: InputReportStats {
                decode_errors: (l.stats.decode_errors + 1) as u32,
                last_decode_error: Some(d),
                ..l.stats
            },
            ..l
        }),
        l.after_keys(Err(InputProbeError::Protocol(e))) == (LoopView {
            decode_failures: (l.decode_failures + 1) as u32,
            ..l
        }),
{
}

/// A counter that begins again does so behind the highest 32-bit value.
pub proof fn interrupts_wrap(n: u32)
    ensures
        n < 0xffff_ffff ==> wrapped(n) == n + 1,
        wrapped(0xffff_ffff) == 0,
{
}

/// The counters are reported in one line, each behind its own name; what came last follows where anything did, with
/// 255 for what did not.
pub proof fn counters_are_reported_by_name(s: InputReportStats, protocol: u8, decode: u8)
    ensures
        field("n=0x", s.frames) == t("n=0x") + x(s.frames as u64),
        counters_text(s) == t("drv-i2c-hid: stats f=0x") + x(s.frames as u64) + (t(" k=0x") + x(
            s.keyboard_reports as u64,
        )) + (t(" m=0x") + x(s.mouse_reports as u64)) + (t(" rst=0x") + x(s.reset_frames as u64)) + (
        t(" bog=0x") + x(s.bogus_irq_frames as u64)) + (t(" foreign=0x") + x(
            s.foreign_report_ids as u64,
        )) + (t(" proto=0x") + x(s.protocol_errors as u64)) + (t(" decode=0x") + x(
            s.decode_errors as u64,
        )) + (t(" ascii=0x") + x(s.forwarded_ascii as u64)) + (t(" mouse=0x") + x(
            s.forwarded_mouse as u64,
        )) + (t(" drop=0x") + x(s.keyboard_write_drops as u64)) + (t(" mdrop=0x") + x(
            s.mouse_write_drops as u64,
        )) + t("\n"),
        s.last_report_id is None && s.last_protocol_error is None && s.last_decode_error is None
            ==> last_text(s, protocol, decode).len() == 0,
        s.last_report_id matches Some(id) ==> s.last_protocol_error is None && s.last_decode_error is None
            ==> last_text(s, protocol, decode) == t("drv-i2c-hid: stats last rid=0x") + x(id as u64) + (t(
            " proto=0x",
        ) + x(0xff)) + (t(" decode=0x") + x(0xff)) + t("\n"),
        s.last_report_id is None && s.last_protocol_error is Some && s.last_decode_error is Some
            ==> last_text(s, protocol, decode) == t("drv-i2c-hid: stats last rid=0x") + x(0xff) + (t(
            " proto=0x",
        ) + x(protocol as u64)) + (t(" decode=0x") + x(decode as u64)) + t("\n"),
{
}

/// A failed read is logged by its kind, with its code where it has one.
pub proof fn failed_reads_are_logged_by_kind(p: ProtocolError, d: crate::hid::DecodeError, code: u64)
    ensures
        error_text(InputProbeError::InvalidLength, code) == t(
            "drv-i2c-hid: input frame length invalid\n",
        ),
        error_text(InputProbeError::Protocol(p), code) == labelled_text(
            "drv-i2c-hid: input frame protocol error=0x",
            code,
        ),
        error_text(InputProbeError::Decode(d), code) == labelled_text(
            "drv-i2c-hid: input frame decode error=0x",
            code,
        ),
{
}

} // verus!
