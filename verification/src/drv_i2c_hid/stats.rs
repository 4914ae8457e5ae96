//! Bookkeeping: how long startup took, what reports came, what failures were
//! logged, and what a vendor's devices need.

use vstd::prelude::*;

use crate::drv_i2c_hid::report::InputReportClass;
use crate::hid::{DecodeError, ProtocolError};

verus! {

pub const ELAN_VENDOR_ID: u16 = 0x04f3;

pub const SOFT_FAILURE_LOG_LIMIT: u32 = 4;

pub const INPUT_REPORT_STATS_LOG_LIMIT: u32 = 8;

pub const INPUT_REPORT_STATS_FIRST_LOG_FRAME: u32 = 8;

pub const IRQ_TICK_LOG_LIMIT: u32 = 8;

pub const RAW_FRAME_LOG_LIMIT: u32 = 2;

pub const NONEMPTY_FRAME_LOG_LIMIT: u32 = 8;

pub const RESET_STORM_YIELD_AFTER: u32 = 8;

pub const RESET_STORM_YIELD_EVERY: u32 = 8;

pub const RESET_STORM_YIELD_NS: u64 = 1_000_000;

pub const STARTUP_MILESTONE_COUNT: usize = 13;

/// The steps of startup, in order.
#[derive(Clone, Copy, Debug, PartialEq, Eq, Structural)]
pub enum StartupMilestone {
    ConfigOk,
    ChannelsOk,
    MmioMapped,
    GeniReady,
    HidDescriptorOk,
    SetPowerDone,
    PowerSettleDone,
    ResetBegin,
    ResetDone,
    AttentionCreated,
    ResetSyncDone,
    ReportDescriptorOk,
    Ready,
}

impl StartupMilestone {
    pub open spec fn place(self) -> int {
        match self {
            StartupMilestone::ConfigOk => 0,
            StartupMilestone::ChannelsOk => 1,
            StartupMilestone::MmioMapped => 2,
            StartupMilestone::GeniReady => 3,
            StartupMilestone::HidDescriptorOk => 4,
            StartupMilestone::SetPowerDone => 5,
            StartupMilestone::PowerSettleDone => 6,
            StartupMilestone::ResetBegin => 7,
            StartupMilestone::ResetDone => 8,
            StartupMilestone::AttentionCreated => 9,
            StartupMilestone::ResetSyncDone => 10,
            StartupMilestone::ReportDescriptorOk => 11,
            StartupMilestone::Ready => 12,
        }
    }

    fn index(self) -> (i: usize)
        ensures
            i == self.place(),
            i < 13,
    {
        match self {
            StartupMilestone::ConfigOk => 0,
            StartupMilestone::ChannelsOk => 1,
            StartupMilestone::MmioMapped => 2,
            StartupMilestone::GeniReady => 3,
            StartupMilestone::HidDescriptorOk => 4,
            StartupMilestone::SetPowerDone => 5,
            StartupMilestone::PowerSettleDone => 6,
            StartupMilestone::ResetBegin => 7,
            StartupMilestone::ResetDone => 8,
            StartupMilestone::AttentionCreated => 9,
            StartupMilestone::ResetSyncDone => 10,
            StartupMilestone::ReportDescriptorOk => 11,
            StartupMilestone::Ready => 12,
        }
    }
}

/// When startup began and when each step was reached.
#[derive(Clone, Copy, Debug, PartialEq, Eq)]
pub struct StartupLatencyTrace {
    start_ns: u64,
    marks_ns: [u64; 13],
    seen: [bool; 13],
}

/// A trace as plain data: the time of each step that was reached.
#[verifier::ext_equal]
pub struct TraceView {
    pub start_ns: u64,
    pub marks: Seq<Option<u64>>,
}

/// A time less another, or zero.
pub open spec fn since(end: u64, start: u64) -> u64 {
    if end >= start {
        (end - start) as u64
    } else {
        0
    }
}

impl TraceView {
    /// Time from the start to a step. `None` where it was not reached.
    pub open spec fn elapsed(self, milestone: StartupMilestone) -> Option<u64> {
        match self.marks[milestone.place()] {
            Some(at) => Some(since(at, self.start_ns)),
            None => None,
        }
    }
}

impl View for StartupLatencyTrace {
    type V = TraceView;

    closed spec fn view(&self) -> TraceView {
        TraceView {
            start_ns: self.start_ns,
            marks: Seq::new(
                13,
                |i: int|
                    if self.seen@[i] {
                        Some(self.marks_ns@[i])
                    } else {
                        None
                    },
            ),
        }
    }
}

impl StartupLatencyTrace {
    /// Every trace has a mark for each step.
    pub proof fn lemma_len(self)
        ensures
            self@.marks.len() == 13,
    {
    }

    pub fn new(start_ns: u64) -> (t: StartupLatencyTrace)
        ensures
            t@ == (TraceView { start_ns, marks: Seq::new(13, |i: int| None) }),
            forall|m: StartupMilestone| (#[trigger] t@.elapsed(m)) is None,
    {
        let t: StartupLatencyTrace = StartupLatencyTrace {
            start_ns,
            marks_ns: [0; STARTUP_MILESTONE_COUNT],
            seen: [false; STARTUP_MILESTONE_COUNT],
        };
        assert(t@.marks =~= Seq::new(13, |i: int| None));
        t
    }

    pub fn start_ns(self) -> (n: u64)
        ensures
            n == self@.start_ns,
    {
        self.start_ns
    }

    /// Notes when a step was reached.
    pub fn record(&mut self, milestone: StartupMilestone, now_ns: u64)
        ensures
            final(self)@ == (TraceView {
                marks: old(self)@.marks.update(milestone.place(), Some(now_ns)),
                ..old(self)@
            }),
            final(self)@.elapsed(milestone) == Some(since(now_ns, old(self)@.start_ns)),
            forall|other: StartupMilestone|
                other != milestone ==> #[trigger] final(self)@.elapsed(other) == old(
                    self,
                )@.elapsed(other),
    {
        let i: usize = milestone.index();
        self.marks_ns[i] = now_ns;
        self.seen[i] = true;
        assert(self@.marks =~= old(self)@.marks.update(milestone.place(), Some(now_ns)));
    }

    /// Time from the start to a step. `None` where it was not reached.
    pub fn elapsed_ns(self, milestone: StartupMilestone) -> (r: Option<u64>)
        ensures
            r == self@.elapsed(milestone),
    {
        let i: usize = milestone.index();
        if !self.seen[i] {
            return None;
        }
        Some(self.marks_ns[i].saturating_sub(self.start_ns))
    }

    /// Time between two steps. `None` where one of them was not reached.
    pub fn span_ns(self, start: StartupMilestone, end: StartupMilestone) -> (r: Option<u64>)
        ensures
            r == (match (self@.marks[start.place()], self@.marks[end.place()]) {
                (Some(a), Some(b)) => Some(since(b, a)),
                _ => None,
            }),
    {
        let a: usize = start.index();
        let b: usize = end.index();
        if !self.seen[a] || !self.seen[b] {
            return None;
        }
        Some(self.marks_ns[b].saturating_sub(self.marks_ns[a]))
    }
}

impl Default for StartupLatencyTrace {
    fn default() -> (t: Self)
        ensures
            t@ == (TraceView { start_ns: 0, marks: Seq::new(13, |i: int| None) }),
    {
        StartupLatencyTrace::new(0)
    }
}

/// What came in and what became of it.
#[derive(Clone, Copy, Debug, PartialEq, Eq, Structural)]
pub struct InputReportStats {
    pub frames: u32,
    pub reset_frames: u32,
    pub bogus_irq_frames: u32,
    pub keyboard_reports: u32,
    pub mouse_reports: u32,
    pub foreign_report_ids: u32,
    pub protocol_errors: u32,
    pub decode_errors: u32,
    pub forwarded_ascii: u32,
    pub forwarded_mouse: u32,
    pub keyboard_write_drops: u32,
    pub mouse_write_drops: u32,
    pub last_report_id: Option<u8>,
    pub last_protocol_error: Option<ProtocolError>,
    pub last_decode_error: Option<DecodeError>,
}

/// A counter that sticks at its maximum.
pub open spec fn bumped(n: u32) -> u32 {
    if n == u32::MAX {
        n
    } else {
        (n + 1) as u32
    }
}

fn bump(n: u32) -> (r: u32)
    ensures
        r == bumped(n),
{
    n.saturating_add(1)
}

impl InputReportStats {
    /// Nothing came in yet.
    pub open spec fn zero() -> InputReportStats {
        InputReportStats {
            frames: 0,
            reset_frames: 0,
            bogus_irq_frames: 0,
            keyboard_reports: 0,
            mouse_reports: 0,
            foreign_report_ids: 0,
            protocol_errors: 0,
            decode_errors: 0,
            forwarded_ascii: 0,
            forwarded_mouse: 0,
            keyboard_write_drops: 0,
            mouse_write_drops: 0,
            last_report_id: None,
            last_protocol_error: None,
            last_decode_error: None,
        }
    }

    /// The counters after a frame of some class.
    pub open spec fn with_class(self, class: InputReportClass) -> InputReportStats {
        let s = InputReportStats { frames: bumped(self.frames), ..self };
        match class {
            InputReportClass::Reset => InputReportStats {
                reset_frames: bumped(self.reset_frames),
                ..s
            },
            InputReportClass::BogusIrq => InputReportStats {
                bogus_irq_frames: bumped(self.bogus_irq_frames),
                ..s
            },
            InputReportClass::KeyboardReport => InputReportStats {
                keyboard_reports: bumped(self.keyboard_reports),
                ..s
            },
            InputReportClass::MouseReport => InputReportStats {
                mouse_reports: bumped(self.mouse_reports),
                ..s
            },
            InputReportClass::ForeignReportId { report_id } => InputReportStats {
                foreign_report_ids: bumped(self.foreign_report_ids),
                last_report_id: Some(report_id),
                ..s
            },
            InputReportClass::ProtocolError(error) => InputReportStats {
                protocol_errors: bumped(self.protocol_errors),
                last_protocol_error: Some(error),
                ..s
            },
        }
    }

    pub fn new() -> (s: InputReportStats)
        ensures
            s == InputReportStats::zero(),
    {
        InputReportStats {
            frames: 0,
            reset_frames: 0,
            bogus_irq_frames: 0,
            keyboard_reports: 0,
            mouse_reports: 0,
            foreign_report_ids: 0,
            protocol_errors: 0,
            decode_errors: 0,
            forwarded_ascii: 0,
            forwarded_mouse: 0,
            keyboard_write_drops: 0,
            mouse_write_drops: 0,
            last_report_id: None,
            last_protocol_error: None,
            last_decode_error: None,
        }
    }

    /// Counts a frame.
    pub fn record_class(&mut self, class: InputReportClass)
        ensures
            *final(self) == old(self).with_class(class),
    {
        self.frames = bump(self.frames);
        match class {
            InputReportClass::Reset => {
                self.reset_frames = bump(self.reset_frames);
            },
            InputReportClass::BogusIrq => {
                self.bogus_irq_frames = bump(self.bogus_irq_frames);
            },
            InputReportClass::KeyboardReport => {
                self.keyboard_reports = bump(self.keyboard_reports);
            },
            InputReportClass::MouseReport => {
                self.mouse_reports = bump(self.mouse_reports);
            },
            InputReportClass::ForeignReportId { report_id } => {
                self.foreign_report_ids = bump(self.foreign_report_ids);
                self.last_report_id = Some(report_id);
            },
            InputReportClass::ProtocolError(error) => {
                self.protocol_errors = bump(self.protocol_errors);
                self.last_protocol_error = Some(error);
            },
        }
    }

    pub fn record_decode_error(&mut self, error: DecodeError)
        ensures
            *final(self) == (InputReportStats {
                decode_errors: bumped(old(self).decode_errors),
                last_decode_error: Some(error),
                ..*old(self)
            }),
    {
        self.decode_errors = bump(self.decode_errors);
        self.last_decode_error = Some(error);
    }

    pub fn record_forwarded_ascii(&mut self)
        ensures
            *final(self) == (InputReportStats {
                forwarded_ascii: bumped(old(self).forwarded_ascii),
                ..*old(self)
            }),
    {
        self.forwarded_ascii = bump(self.forwarded_ascii);
    }

    pub fn record_forwarded_mouse(&mut self)
        ensures
            *final(self) == (InputReportStats {
                forwarded_mouse: bumped(old(self).forwarded_mouse),
                ..*old(self)
            }),
    {
        self.forwarded_mouse = bump(self.forwarded_mouse);
    }

    pub fn record_keyboard_write_drop(&mut self)
        ensures
            *final(self) == (InputReportStats {
                keyboard_write_drops: bumped(old(self).keyboard_write_drops),
                ..*old(self)
            }),
    {
        self.keyboard_write_drops = bump(self.keyboard_write_drops);
    }

    pub fn record_mouse_write_drop(&mut self)
        ensures
            *final(self) == (InputReportStats {
                mouse_write_drops: bumped(old(self).mouse_write_drops),
                ..*old(self)
            }),
    {
        self.mouse_write_drops = bump(self.mouse_write_drops);
    }
}

impl Default for InputReportStats {
    fn default() -> (s: Self)
        ensures
            s.frames == 0,
            s.last_report_id is None,
            s.last_protocol_error is None,
            s.last_decode_error is None,
            s.reset_frames == 0 && s.bogus_irq_frames == 0 && s.keyboard_reports == 0
                && s.mouse_reports == 0 && s.foreign_report_ids == 0 && s.protocol_errors == 0
                && s.decode_errors == 0 && s.forwarded_ascii == 0 && s.forwarded_mouse == 0
                && s.keyboard_write_drops == 0 && s.mouse_write_drops == 0,
    {
        InputReportStats::new()
    }
}

/// The classes account for every frame.
pub proof fn classes_partition_the_frames(s: InputReportStats, class: InputReportClass)
    requires
        s.frames < u32::MAX,
        s.frames == s.reset_frames + s.bogus_irq_frames + s.keyboard_reports + s.mouse_reports
            + s.foreign_report_ids + s.protocol_errors,
    ensures
        ({
            let n = s.with_class(class);
            n.frames == n.reset_frames + n.bogus_irq_frames + n.keyboard_reports + n.mouse_reports
                + n.foreign_report_ids + n.protocol_errors
        }),
{
}

/// A power of two.
pub open spec fn is_power_of_two(n: int) -> bool
    decreases n,
{
    n == 1 || (n > 1 && n % 2 == 0 && is_power_of_two(n / 2))
}

fn power_of_two(n: u32) -> (r: bool)
    ensures
        r == is_power_of_two(n as int),
{
    if n == 0 {
        return false;
    }
    let mut m: u32 = n;
    while m % 2 == 0
        invariant
            m > 0,
            is_power_of_two(n as int) == is_power_of_two(m as int),
        decreases m,
    {
        m = m / 2;
    }
    m == 1
}

/// A summary is due at the frames whose number is a power of two, from the
/// eighth on, until eight were logged.
pub open spec fn summary_due(frames: u32, already_logged: u32) -> bool {
    already_logged < 8 && frames >= 8 && is_power_of_two(frames as int)
}

pub fn should_log_input_report_stats(frames: u32, already_logged: u32) -> (r: bool)
    ensures
        r == summary_due(frames, already_logged),
{
    already_logged < INPUT_REPORT_STATS_LOG_LIMIT && frames >= INPUT_REPORT_STATS_FIRST_LOG_FRAME
        && power_of_two(frames)
}

/// Something other than the end of resets came in.
pub open spec fn has_activity(s: InputReportStats) -> bool {
    s.keyboard_reports != 0 || s.mouse_reports != 0 || s.foreign_report_ids != 0
        || s.protocol_errors != 0 || s.decode_errors != 0 || s.forwarded_ascii != 0
        || s.forwarded_mouse != 0 || s.keyboard_write_drops != 0 || s.mouse_write_drops != 0
}

pub fn should_log_input_report_stats_snapshot(stats: &InputReportStats, already_logged: u32) -> (r:
    bool)
    ensures
        r == (has_activity(*stats) && summary_due(stats.frames, already_logged)),
{
    let active: bool = stats.keyboard_reports != 0 || stats.mouse_reports != 0
        || stats.foreign_report_ids != 0 || stats.protocol_errors != 0 || stats.decode_errors != 0
        || stats.forwarded_ascii != 0 || stats.forwarded_mouse != 0 || stats.keyboard_write_drops
        != 0 || stats.mouse_write_drops != 0;
    active && should_log_input_report_stats(stats.frames, already_logged)
}

/// Counts frames in a row that carry nothing, so that a device that sends
/// nothing else cannot keep the machine busy.
#[derive(Clone, Copy, Debug, PartialEq, Eq, Structural)]
pub struct ResetStormGuard {
    consecutive_reset_like: u32,
}

/// A frame that carries nothing.
pub open spec fn is_reset_like(class: InputReportClass) -> bool {
    class is Reset || class is BogusIrq
}

impl ResetStormGuard {
    /// Such frames in a row.
    pub closed spec fn run(self) -> u32 {
        self.consecutive_reset_like
    }

    pub fn new() -> (g: ResetStormGuard)
        ensures
            g.run() == 0,
    {
        ResetStormGuard { consecutive_reset_like: 0 }
    }

    pub fn consecutive_reset_like(self) -> (n: u32)
        ensures
            n == self.run(),
    {
        self.consecutive_reset_like
    }

    /// Counts a frame and returns whether the driver should pause: at every
    /// eighth frame in a row that carries nothing.
    pub fn record(&mut self, class: InputReportClass) -> (pause: bool)
        ensures
            final(self).run() == (if is_reset_like(class) {
                bumped(old(self).run())
            } else {
                0
            }),
            pause == (is_reset_like(class) && final(self).run() >= 8 && final(self).run() % 8 == 0),
    {
        match class {
            InputReportClass::Reset | InputReportClass::BogusIrq => {
                self.consecutive_reset_like = bump(self.consecutive_reset_like);
                self.consecutive_reset_like >= RESET_STORM_YIELD_AFTER
                    && self.consecutive_reset_like % RESET_STORM_YIELD_EVERY == 0
            },
            _ => {
                self.consecutive_reset_like = 0;
                false
            },
        }
    }
}

impl Default for ResetStormGuard {
    fn default() -> (g: Self)
        ensures
            g.run() == 0,
    {
        ResetStormGuard::new()
    }
}

/// Lets the first few failures be logged, then stays silent.
#[derive(Clone, Copy, Debug, PartialEq, Eq, Structural)]
pub struct BoundedFailureLog {
    count: u32,
}

impl BoundedFailureLog {
    /// Failures so far.
    pub closed spec fn total(self) -> u32 {
        self.count
    }

    pub fn new() -> (l: BoundedFailureLog)
        ensures
            l.total() == 0,
    {
        BoundedFailureLog { count: 0 }
    }

    pub fn count(self) -> (n: u32)
        ensures
            n == self.total(),
    {
        self.count
    }

    /// Counts a failure and returns whether to log it.
    pub fn record(&mut self) -> (log: bool)
        ensures
            final(self).total() == bumped(old(self).total()),
            log == (old(self).total() < 4),
    {
        let log: bool = self.count < SOFT_FAILURE_LOG_LIMIT;
        self.count = bump(self.count);
        log
    }
}

impl Default for BoundedFailureLog {
    fn default() -> (l: Self)
        ensures
            l.total() == 0,
    {
        BoundedFailureLog::new()
    }
}

/// What a device needs that the protocol does not ask for.
#[derive(Clone, Copy, Debug, PartialEq, Eq, Structural)]
pub struct DeviceQuirks {
    /// It is not woken after a reset.
    pub no_wakeup_after_reset: bool,
    /// It raises its interrupt with frames of ones.
    pub bogus_irq: bool,
    /// Its attention line is taken on its falling edge.
    pub force_trigger_falling: bool,
}

pub open spec fn quirks_of(vendor_id: u16) -> DeviceQuirks {
    let elan = vendor_id == 0x04f3;
    DeviceQuirks { no_wakeup_after_reset: elan, bogus_irq: elan, force_trigger_falling: elan }
}

impl DeviceQuirks {
    /// What a vendor's devices need.
    pub fn for_vendor_product(vendor_id: u16, _product_id: u16) -> (q: DeviceQuirks)
        ensures
            q == quirks_of(vendor_id),
    {
        let elan: bool = vendor_id == ELAN_VENDOR_ID;
        DeviceQuirks { no_wakeup_after_reset: elan, bogus_irq: elan, force_trigger_falling: elan }
    }
}

impl Default for DeviceQuirks {
    fn default() -> (q: Self)
        ensures
            q == (DeviceQuirks {
                no_wakeup_after_reset: false,
                bogus_irq: false,
                force_trigger_falling: false,
            }),
    {
        DeviceQuirks {
            no_wakeup_after_reset: false,
            bogus_irq: false,
            force_trigger_falling: false,
        }
    }
}

/// The steps of startup have the places 0 to 12, in their order, so that no two share one.
pub proof fn steps_have_their_own_place(a: StartupMilestone, b: StartupMilestone)
    ensures
        0 <= a.place() < 13,
        a != b ==> a.place() != b.place(),
        StartupMilestone::ConfigOk.place() == 0 && StartupMilestone::ChannelsOk.place() == 1
            && StartupMilestone::MmioMapped.place() == 2 && StartupMilestone::GeniReady.place() == 3
            && StartupMilestone::HidDescriptorOk.place() == 4
            && StartupMilestone::SetPowerDone.place() == 5
            && StartupMilestone::PowerSettleDone.place() == 6
            && StartupMilestone::ResetBegin.place() == 7 && StartupMilestone::ResetDone.place() == 8
            && StartupMilestone::AttentionCreated.place() == 9
            && StartupMilestone::ResetSyncDone.place() == 10
            && StartupMilestone::ReportDescriptorOk.place() == 11
            && StartupMilestone::Ready.place() == 12,
{
}

/// The time between two moments is their difference, and zero where the second is the earlier.
pub proof fn times_do_not_go_back(end: u64, start: u64)
    ensures
        end >= start ==> since(end, start) + start == end,
        end < start ==> since(end, start) == 0,
{
}

/// A counter goes up by one and stays at the highest 32-bit value.
pub proof fn counters_stick_at_their_maximum(n: u32)
    ensures
        n < 0xffff_ffff ==> bumped(n) == n + 1,
        n == 0xffff_ffff ==> bumped(n) == n,
{
}

/// A frame is counted once, and once more under its class; the number of a foreign report and the error of a
/// bad one are kept. Everything else stays.
pub proof fn frames_are_counted_by_class(s: InputReportStats, id: u8, e: ProtocolError)
    requires
        s.frames < u32::MAX && s.reset_frames < u32::MAX && s.bogus_irq_frames < u32::MAX
            && s.keyboard_reports < u32::MAX && s.mouse_reports < u32::MAX && s.foreign_report_ids
            < u32::MAX && s.protocol_errors < u32::MAX,
    ensures
        ({
            let n = InputReportStats { frames: (s.frames + 1) as u32, ..s };
            &&& s.with_class(InputReportClass::Reset) == (InputReportStats {
                reset_frames: (s.reset_frames + 1) as u32,
                ..n
            })
            &&& s.with_class(InputReportClass::BogusIrq) == (InputReportStats {
                bogus_irq_frames: (s.bogus_irq_frames + 1) as u32,
                ..n
            })
            &&& s.with_class(InputReportClass::KeyboardReport) == (InputReportStats {
                keyboard_reports: (s.keyboard_reports + 1) as u32,
                ..n
            })
            &&& s.with_class(InputReportClass::MouseReport) == (InputReportStats {
                mouse_reports: (s.mouse_reports + 1) as u32,
                ..n
            })
            &&& s.with_class(InputReportClass::ForeignReportId { report_id: id }) == (
            InputReportStats {
                foreign_report_ids: (s.foreign_report_ids + 1) as u32,
                last_report_id: Some(id),
                ..n
            })
            &&& s.with_class(InputReportClass::ProtocolError(e)) == (InputReportStats {
                protocol_errors: (s.protocol_errors + 1) as u32,
                last_protocol_error: Some(e),
                ..n
            })
        }),
{
}

/// The powers of two are one and the doubles of powers of two.
pub proof fn powers_double(n: int)
    requires
        n >= 1,
    ensures
        is_power_of_two(1),
        is_power_of_two(2 * n) <==> is_power_of_two(n),
        !is_power_of_two(2 * n + 1),
{
    reveal_with_fuel(is_power_of_two, 2);
    assert(2 * n / 2 == n);
    assert((2 * n + 1) % 2 == 1);
}

/// Summaries are due at the eighth, sixteenth, thirty-second frame and so on, eight times at most.
pub proof fn summaries_come_at_powers_of_two(frames: u32, logged: u32)
    ensures
        frames < 8 ==> !summary_due(frames, logged),
        logged >= 8 ==> !summary_due(frames, logged),
        logged < 8 && frames >= 8 ==> (summary_due(frames, logged) <==> is_power_of_two(
            frames as int,
        )),
{
}

/// A summary is worth logging where a report, an error or a byte came or went; frames that carry nothing do
/// not count.
pub proof fn empty_frames_are_no_activity(s: InputReportStats)
    ensures
        !has_activity(InputReportStats::zero()),
        !has_activity(
            InputReportStats {
                frames: s.frames,
                reset_frames: s.reset_frames,
                bogus_irq_frames: s.bogus_irq_frames,
                ..InputReportStats::zero()
            },
        ),
        s.keyboard_reports > 0 || s.mouse_reports > 0 || s.foreign_report_ids > 0
            || s.protocol_errors > 0 || s.decode_errors > 0 || s.forwarded_ascii > 0
            || s.forwarded_mouse > 0 || s.keyboard_write_drops > 0 || s.mouse_write_drops > 0
            ==> has_activity(s),
{
}

/// The ends of resets and the frames of ones carry nothing; all others do.
pub proof fn resets_and_ones_carry_nothing(id: u8, e: ProtocolError)
    ensures
        is_reset_like(InputReportClass::Reset),
        is_reset_like(InputReportClass::BogusIrq),
        !is_reset_like(InputReportClass::KeyboardReport),
        !is_reset_like(InputReportClass::MouseReport),
        !is_reset_like(InputReportClass::ForeignReportId { report_id: id }),
        !is_reset_like(InputReportClass::ProtocolError(e)),
{
}

/// The devices of vendor 0x04f3 need all three quirks, and those of other vendors none.
pub proof fn one_vendor_has_quirks(vendor_id: u16)
    ensures
        vendor_id == 0x04f3 ==> quirks_of(vendor_id).no_wakeup_after_reset && quirks_of(
            vendor_id,
        ).bogus_irq && quirks_of(vendor_id).force_trigger_falling,
        vendor_id != 0x04f3 ==> !quirks_of(vendor_id).no_wakeup_after_reset && !quirks_of(
            vendor_id,
        ).bogus_irq && !quirks_of(vendor_id).force_trigger_falling,
{
}

} // verus!
