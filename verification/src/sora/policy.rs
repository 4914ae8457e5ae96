//! Supervision policy: restarts, budgets, delays, and the release of handles.

use vstd::prelude::*;

use crate::abi::{Handle, STATUS_OK};
use crate::hid::{BootMouseReport, HidDeviceKind, I2cHidBusTopology, KeyboardTopology};

verus! {

pub const SORA_NAME: &'static str = "Sora";

pub const ROOT_SERVER_ORDINAL_ECHO: u32 = 1;

pub const POINTER_BUTTON_MASK: u8 = 0x07;

#[derive(Clone, Copy, Debug, PartialEq, Eq, Structural)]
pub struct PointerPosition {
    pub x: u32,
    pub y: u32,
}

/// A pointer on a screen: where it is, which buttons are down, and how many
/// reports moved it.
#[derive(Clone, Copy, Debug, PartialEq, Eq, Structural)]
pub struct PointerState {
    width: u32,
    height: u32,
    position: PointerPosition,
    buttons: u8,
    events: u32,
}

/// `v` moved into `0..=hi`.
pub open spec fn clamp(v: int, hi: int) -> int {
    if v < 0 {
        0
    } else if v > hi {
        hi
    } else {
        v
    }
}

impl PointerState {
    pub closed spec fn spec_width(self) -> u32 {
        self.width
    }

    pub closed spec fn spec_height(self) -> u32 {
        self.height
    }

    pub closed spec fn spec_position(self) -> PointerPosition {
        self.position
    }

    pub closed spec fn spec_buttons(self) -> u8 {
        self.buttons
    }

    pub closed spec fn spec_events(self) -> u32 {
        self.events
    }

    /// The pointer is on the screen.
    pub open spec fn wf(self) -> bool {
        &&& self.spec_position().x < self.spec_width()
        &&& self.spec_position().y < self.spec_height()
        &&& self.spec_buttons() <= 7
    }

    /// A pointer in the middle of a screen. A screen without extent counts as
    /// one pixel.
    pub fn new(width: u32, height: u32) -> (p: PointerState)
        ensures
            p.wf(),
            p.spec_width() == if width == 0 {
                1
            } else {
                width
            },
            p.spec_height() == if height == 0 {
                1
            } else {
                height
            },
            p.spec_position().x == p.spec_width() / 2,
            p.spec_position().y == p.spec_height() / 2,
            p.spec_buttons() == 0,
            p.spec_events() == 0,
    {
        let width: u32 = if width == 0 {
            1
        } else {
            width
        };
        let height: u32 = if height == 0 {
            1
        } else {
            height
        };
        PointerState {
            width,
            height,
            position: PointerPosition { x: width / 2, y: height / 2 },
            buttons: 0,
            events: 0,
        }
    }

    pub fn position(self) -> (r: PointerPosition)
        ensures
            r == self.spec_position(),
    {
        self.position
    }

    pub fn buttons(self) -> (r: u8)
        ensures
            r == self.spec_buttons(),
    {
        self.buttons
    }

    pub fn events(self) -> (r: u32)
        ensures
            r == self.spec_events(),
    {
        self.events
    }

    pub fn width(self) -> (r: u32)
        ensures
            r == self.spec_width(),
    {
        self.width
    }

    pub fn height(self) -> (r: u32)
        ensures
            r == self.spec_height(),
    {
        self.height
    }

    /// Moves the pointer by a report's deltas, stopping at the edges, and takes
    /// the report's buttons.
    pub fn apply_boot_mouse(&mut self, report: BootMouseReport)
        requires
            old(self).wf(),
        ensures
            final(self).wf(),
            final(self).spec_width() == old(self).spec_width(),
            final(self).spec_height() == old(self).spec_height(),
            final(self).spec_position().x == clamp(
                old(self).spec_position().x + report.x_delta,
                old(self).spec_width() - 1,
            ),
            final(self).spec_position().y == clamp(
                old(self).spec_position().y + report.y_delta,
                old(self).spec_height() - 1,
            ),
            final(self).spec_buttons() == report.buttons@ & 7,
            final(self).spec_events() == if old(self).spec_events() == u32::MAX {
                u32::MAX as int
            } else {
                old(self).spec_events() + 1
            },
    {
        self.position.x = clamp_delta(self.position.x, report.x_delta, self.width);
        self.position.y = clamp_delta(self.position.y, report.y_delta, self.height);
        let bits: u8 = report.buttons.bits();
        assert(bits & 7 <= 7) by (bit_vector);
        self.buttons = bits & POINTER_BUTTON_MASK;
        self.events = self.events.saturating_add(1);
    }
}

impl Default for PointerState {
    fn default() -> (p: Self)
        ensures
            p.wf(),
            p.spec_width() == 1,
            p.spec_height() == 1,
            p.spec_position() == (PointerPosition { x: 0, y: 0 }),
            p.spec_buttons() == 0,
            p.spec_events() == 0,
    {
        PointerState::new(1, 1)
    }
}

fn clamp_delta(position: u32, delta: i8, extent: u32) -> (r: u32)
    requires
        position < extent,
    ensures
        r == clamp(position + delta, extent - 1),
{
    let hi: i64 = extent as i64 - 1;
    let next: i64 = position as i64 + delta as i64;
    if next < 0 {
        0
    } else if next > hi {
        hi as u32
    } else {
        next as u32
    }
}

#[derive(Clone, Copy, Debug, PartialEq, Eq, Structural)]
pub enum RestartPolicy {
    Never,
    OnFailure,
    Always,
}

impl RestartPolicy {
    /// Whether a terminated instance is to be rebuilt.
    pub fn should_restart(self, failed: bool) -> (r: bool)
        ensures
            r == (self is Always || (self is OnFailure && failed)),
    {
        match self {
            RestartPolicy::Never => false,
            RestartPolicy::OnFailure => failed,
            RestartPolicy::Always => true,
        }
    }
}

/// A bounded number of restart attempts. Once it is spent the service is given
/// up, so an instance that keeps crashing is not rebuilt forever.
#[derive(Clone, Copy, Debug, PartialEq, Eq, Structural)]
pub struct RestartBudget {
    max_attempts: u32,
    used: u32,
}

impl RestartBudget {
    /// Attempts that are left.
    pub closed spec fn left(self) -> int {
        self.max_attempts - self.used
    }

    pub closed spec fn wf(self) -> bool {
        self.used <= self.max_attempts
    }

    pub fn new(max_attempts: u32) -> (b: RestartBudget)
        ensures
            b.wf(),
            b.left() == max_attempts,
    {
        RestartBudget { max_attempts, used: 0 }
    }

    /// Takes one attempt. `false`, with nothing taken, once none is left.
    pub fn try_consume(&mut self) -> (granted: bool)
        requires
            old(self).wf(),
        ensures
            final(self).wf(),
            granted == (old(self).left() > 0),
            final(self).left() == if granted {
                old(self).left() - 1
            } else {
                old(self).left()
            },
            !granted ==> *final(self) == *old(self),
    {
        if self.used >= self.max_attempts {
            return false;
        }
        self.used = self.used + 1;
        true
    }

    /// Whether every further attempt will be refused.
    pub fn exhausted(&self) -> (r: bool)
        requires
            self.wf(),
        ensures
            r == (self.left() == 0),
    {
        self.used >= self.max_attempts
    }
}

/// How many of `tries` attempts are granted when `left` are left.
pub open spec fn grants(left: int, tries: nat) -> int
    decreases tries,
{
    if tries == 0 {
        0
    } else if left > 0 {
        1 + grants(left - 1, (tries - 1) as nat)
    } else {
        grants(left, (tries - 1) as nat)
    }
}

/// A budget grants exactly its cap: all attempts as long as it lasts, and none afterwards.
pub proof fn budgets_grant_their_cap(cap: int, tries: nat)
    requires
        cap >= 0,
    ensures
        grants(cap, tries) == min(cap, tries as int),
    decreases tries,
{
    if tries > 0 {
        if cap > 0 {
            budgets_grant_their_cap(cap - 1, (tries - 1) as nat);
        } else {
            budgets_grant_their_cap(cap, (tries - 1) as nat);
        }
    }
}

/// A capped exponential delay between restart attempts.
#[derive(Clone, Copy, Debug, PartialEq, Eq, Structural)]
pub struct RestartBackoff {
    next_delay_ns: u64,
    max_delay_ns: u64,
}

/// The smaller of two integers.
pub open spec fn min(a: int, b: int) -> int {
    if a <= b {
        a
    } else {
        b
    }
}

impl RestartBackoff {
    /// The delay that comes next.
    pub closed spec fn upcoming(self) -> u64 {
        self.next_delay_ns
    }

    /// The cap on delays.
    pub closed spec fn cap(self) -> u64 {
        self.max_delay_ns
    }

    pub open spec fn wf(self) -> bool {
        self.upcoming() <= self.cap()
    }

    pub fn new(initial_delay_ns: u64, max_delay_ns: u64) -> (b: RestartBackoff)
        ensures
            b.wf(),
            b.cap() == max_delay_ns,
            b.upcoming() == min(initial_delay_ns as int, max_delay_ns as int),
    {
        RestartBackoff {
            next_delay_ns: if initial_delay_ns < max_delay_ns {
                initial_delay_ns
            } else {
                max_delay_ns
            },
            max_delay_ns,
        }
    }

    /// Returns this attempt's delay and doubles the next one, up to the cap.
    pub fn next_delay_ns(&mut self) -> (delay: u64)
        requires
            old(self).wf(),
        ensures
            final(self).wf(),
            delay == old(self).upcoming(),
            final(self).cap() == old(self).cap(),
            final(self).upcoming() == min(2 * old(self).upcoming(), old(self).cap() as int),
    {
        let delay: u64 = self.next_delay_ns;
        self.next_delay_ns = if delay > self.max_delay_ns / 2 {
            self.max_delay_ns
        } else {
            2 * delay
        };
        delay
    }
}

/// The delay of attempt `n` under a backoff that starts at `first`.
pub open spec fn delay_of(first: int, cap: int, n: nat) -> int
    decreases n,
{
    if n == 0 {
        min(first, cap)
    } else {
        min(2 * delay_of(first, cap, (n - 1) as nat), cap)
    }
}

/// Delays never shrink and never exceed the cap, and until the cap each is
/// twice the one before.
pub proof fn delays_double_up_to_the_cap(first: int, cap: int, n: nat)
    requires
        0 <= first,
        0 <= cap,
    ensures
        0 <= delay_of(first, cap, n) <= cap,
        delay_of(first, cap, n) <= delay_of(first, cap, n + 1),
        delay_of(first, cap, n + 1) == 2 * delay_of(first, cap, n) || delay_of(first, cap, n + 1)
            == cap,
    decreases n,
{
    if n > 0 {
        delays_double_up_to_the_cap(first, cap, (n - 1) as nat);
    }
}

/// What is needed to build a service.
#[derive(Clone, Copy, Debug, PartialEq, Eq)]
pub struct ServerRecipe<'a> {
    pub name: &'a str,
    pub image_path: &'a str,
    pub restart: RestartPolicy,
}

/// The capabilities that a supervisor holds of a running server.
#[derive(Clone, Copy, Debug, PartialEq, Eq, Structural)]
pub struct SupervisedServer {
    pub process: Handle,
    pub client: Handle,
}

/// A supervised service: how to build it, and its running instance.
#[derive(Clone, Copy, Debug, PartialEq, Eq)]
pub struct SupervisedService<'a> {
    pub recipe: ServerRecipe<'a>,
    pub instance: SupervisedServer,
}

/// Whether `keep` names a handle.
pub open spec fn is_kept(keep: Seq<Handle>, h: Handle) -> bool {
    keep.contains(h)
}

/// Handle `i` of a list is there and is to be closed.
pub open spec fn is_due(handles: Seq<Option<Handle>>, keep: Seq<Handle>, i: int) -> bool {
    0 <= i < handles.len() && handles[i] is Some && !is_kept(keep, handles[i]->0)
}

/// The closer can answer the close of `h` with `status`.
pub open spec fn closes_with<F: FnMut(Handle) -> i32>(close: F, h: Handle, status: i32) -> bool {
    call_ensures(close, (h,), status)
}

fn contains(keep: &[Handle], h: Handle) -> (r: bool)
    ensures
        r == is_kept(keep@, h),
{
    let mut i: usize = 0;
    while i < keep.len()
        invariant
            i <= keep@.len(),
            forall|j: int| 0 <= j < i ==> keep@[j] != h,
        decreases keep@.len() - i,
    {
        if keep[i] == h {
            assert(keep@[i as int] == h);
            return true;
        }
        i += 1;
    }
    false
}

/// Closes every handle that is there and not in `keep`, and goes on after an
/// error, so that one failed close strands no other handle. Returns whether
/// every close succeeded. `close` need only accept the handles that are to be
/// closed: it is asked for no other.
pub fn close_handles_except<F: FnMut(Handle) -> i32>(
    handles: &[Option<Handle>],
    keep: &[Handle],
    mut close: F,
) -> (all_closed: bool)
    requires
        forall|i: int| #[trigger]
            is_due(handles@, keep@, i) ==> call_requires(close, (handles@[i]->0,)),
    ensures
        forall|i: int| #[trigger]
            is_due(handles@, keep@, i) ==> exists|status: i32|
                closes_with(close, handles@[i]->0, status) && (all_closed ==> status == STATUS_OK),
        !all_closed ==> exists|i: int, status: i32| #[trigger]
            is_due(handles@, keep@, i) && #[trigger] closes_with(close, handles@[i]->0, status)
                && status != STATUS_OK,
{
    let ghost given = close;
    let mut all_closed: bool = true;
    let mut i: usize = 0;
    while i < handles.len()
        invariant
            i <= handles@.len(),
            close == given,
            forall|j: int| #[trigger]
                is_due(handles@, keep@, j) ==> call_requires(close, (handles@[j]->0,)),
            forall|j: int|
                j < i && #[trigger] is_due(handles@, keep@, j) ==> exists|status: i32|
                    closes_with(given, handles@[j]->0, status) && (all_closed ==> status
                        == STATUS_OK),
            !all_closed ==> exists|j: int, status: i32| #[trigger]
                is_due(handles@, keep@, j) && #[trigger] closes_with(given, handles@[j]->0, status)
                    && status != STATUS_OK,
        decreases handles@.len() - i,
    {
        match handles[i] {
            None => {},
            Some(h) => {
                if !contains(keep, h) {
                    assert(is_due(handles@, keep@, i as int));
                    let status: i32 = close(h);
                    assert(closes_with(given, h, status));
                    if status != STATUS_OK {
                        all_closed = false;
                        assert(is_due(handles@, keep@, i as int) && closes_with(
                            given,
                            handles@[i as int]->0,
                            status,
                        ) && status != STATUS_OK);
                    }
                }
            },
        }
        i += 1;
    }
    all_closed
}

/// Closes every handle that is there, going on after an error. Returns whether
/// every close succeeded.
pub fn close_handles<F: FnMut(Handle) -> i32>(handles: &[Option<Handle>], close: F) -> (all_closed:
    bool)
    requires
        forall|i: int|
            0 <= i < handles@.len() && (#[trigger] handles@[i]) is Some ==> call_requires(
                close,
                (handles@[i]->0,),
            ),
    ensures
        forall|i: int|
            0 <= i < handles@.len() && (#[trigger] handles@[i]) is Some ==> exists|status: i32|
                closes_with(close, handles@[i]->0, status) && (all_closed ==> status == STATUS_OK),
        !all_closed ==> exists|i: int, status: i32|
            0 <= i < handles@.len() && (#[trigger] handles@[i]) is Some && #[trigger] closes_with(
                close,
                handles@[i]->0,
                status,
            ) && status != STATUS_OK,
{
    let keep: [Handle; 0] = [];
    let r: bool = close_handles_except(handles, &keep, close);
    proof {
        assert forall|i: int|
            0 <= i < handles@.len() && (#[trigger] handles@[i]) is Some implies exists|status: i32|
            closes_with(close, handles@[i]->0, status) && (r ==> status == STATUS_OK) by {
            assert(is_due(handles@, keep@, i));
        }
    }
    r
}

/// How many devices of each kind a bus holds.
#[derive(Clone, Copy, Debug, PartialEq, Eq, Structural)]
pub struct I2cHidBusSummary {
    pub total: usize,
    pub keyboards: usize,
    pub touchpads: usize,
    pub unknown: usize,
}

/// How many of the first `n` devices are of a kind.
pub open spec fn count_kind(
    devices: Seq<crate::hid::HidDeviceTopology>,
    kind: HidDeviceKind,
    n: int,
) -> int
    decreases n,
{
    if n <= 0 {
        0
    } else {
        count_kind(devices, kind, n - 1) + if devices[n - 1].kind == kind {
            1int
        } else {
            0
        }
    }
}

/// Counts the devices of a bus by kind.
pub fn summarize_i2c_hid_bus(topology: &I2cHidBusTopology) -> (s: I2cHidBusSummary)
    ensures
        s.total == topology.devices@.len(),
        s.keyboards == count_kind(
            topology.devices@,
            HidDeviceKind::Keyboard,
            topology.devices@.len() as int,
        ),
        s.touchpads == count_kind(
            topology.devices@,
            HidDeviceKind::Touchpad,
            topology.devices@.len() as int,
        ),
        s.unknown == count_kind(
            topology.devices@,
            HidDeviceKind::Unknown,
            topology.devices@.len() as int,
        ),
        s.total == s.keyboards + s.touchpads + s.unknown,
{
    let mut s: I2cHidBusSummary = I2cHidBusSummary {
        total: 0,
        keyboards: 0,
        touchpads: 0,
        unknown: 0,
    };
    let mut i: usize = 0;
    while i < topology.devices.len()
        invariant
            i <= topology.devices@.len(),
            s.total == i,
            s.keyboards == count_kind(topology.devices@, HidDeviceKind::Keyboard, i as int),
            s.touchpads == count_kind(topology.devices@, HidDeviceKind::Touchpad, i as int),
            s.unknown == count_kind(topology.devices@, HidDeviceKind::Unknown, i as int),
            s.total == s.keyboards + s.touchpads + s.unknown,
        decreases topology.devices@.len() - i,
    {
        s.total = s.total + 1;
        match topology.devices[i].kind {
            HidDeviceKind::Keyboard => {
                s.keyboards = s.keyboards + 1;
            },
            HidDeviceKind::Touchpad => {
                s.touchpads = s.touchpads + 1;
            },
            HidDeviceKind::Unknown => {
                s.unknown = s.unknown + 1;
            },
        }
        i += 1;
    }
    s
}


/// A message of a channel: what it asks for, its bytes, and the handles with it.
#[derive(Clone, Copy, Debug, PartialEq, Eq)]
pub struct Message<'a> {
    pub ordinal: u32,
    pub bytes: &'a [u8],
    pub handles: &'a [Handle],
}

/// The root server.
pub struct Sora;

impl Sora {
    pub fn new() -> (s: Sora)
        ensures
            s == Sora,
    {
        Sora
    }

    /// Answers a request with its own bytes and handles.
    pub fn echo<'a>(&self, request: Message<'a>) -> (reply: Message<'a>)
        ensures
            reply.ordinal == ROOT_SERVER_ORDINAL_ECHO,
            reply.bytes@ == request.bytes@,
            reply.handles@ == request.handles@,
    {
        Message {
            ordinal: ROOT_SERVER_ORDINAL_ECHO,
            bytes: request.bytes,
            handles: request.handles,
        }
    }
}

impl crate::kumo_rt::Server for Sora {
    open spec fn dispatched(
        &self,
        channel: Handle,
        message: Seq<u8>,
        after: &Self,
        status: i32,
    ) -> bool {
        status == STATUS_OK
    }

    fn name(&self) -> (s: &'static str)
        ensures
            s@ == SORA_NAME@,
    {
        SORA_NAME
    }

    fn dispatch(&mut self, channel: Handle, message: &[u8]) -> (status: i32) {
        STATUS_OK
    }
}

/// A board's input bus, and the plan for its pins, if there is one.
#[derive(Debug)]
pub struct I2cHidRuntimeTopology {
    pub bus: I2cHidBusTopology,
    pub pinctrl_plan: Option<Vec<PinUpdate>>,
}

/// One register of a pin plan.
#[derive(Clone, Copy, Debug, PartialEq, Eq, Structural)]
pub struct PinUpdate {
    pub offset: u32,
    pub value: u32,
}

/// What a device tree yields: nothing without a bus, and no plan where the plan cannot be made.
pub fn discover_i2c_hid_runtime_topology(
    bus: Option<I2cHidBusTopology>,
    plan: Option<Vec<PinUpdate>>,
) -> (r: Option<I2cHidRuntimeTopology>)
    ensures
        match bus {
            None => r is None,
            Some(b) => r matches Some(t) && t.bus == b && t.pinctrl_plan == plan,
        },
{
    match bus {
        None => None,
        Some(bus) => Some(I2cHidRuntimeTopology { bus, pinctrl_plan: plan }),
    }
}

/// The number of the first keyboard from device `i` on.
pub open spec fn keyboard_from(
    devices: Seq<crate::hid::HidDeviceTopology>,
    i: int,
) -> Option<int>
    decreases devices.len() - i,
{
    if i >= devices.len() {
        None
    } else if devices[i].kind == HidDeviceKind::Keyboard {
        Some(i)
    } else {
        keyboard_from(devices, i + 1)
    }
}

/// The first keyboard of a bus, with what its driver needs of the controller.
pub open spec fn keyboard_of(
    base: u64,
    length: u64,
    frequency: u32,
    devices: Seq<crate::hid::HidDeviceTopology>,
) -> Option<KeyboardTopology> {
    match keyboard_from(devices, 0) {
        None => None,
        Some(i) => Some(
            KeyboardTopology {
                controller_mmio_base: base,
                controller_mmio_length: length,
                bus_frequency_hz: frequency,
                i2c_address: devices[i].i2c_address,
                hid_descriptor_register: devices[i].hid_descriptor_register,
                keyboard_interrupt: devices[i].interrupt,
            },
        ),
    }
}

/// The one device that is started: the internal keyboard. Touchpads share its controller and
/// are left alone.
pub fn select_i2c_hid_keyboard(topology: &I2cHidBusTopology) -> (k: Option<KeyboardTopology>)
    ensures
        k == keyboard_of(
            topology.controller_mmio_base,
            topology.controller_mmio_length,
            topology.bus_frequency_hz,
            topology.devices@,
        ),
{
    let mut i: usize = 0;
    while i < topology.devices.len()
        invariant
            i <= topology.devices@.len(),
            keyboard_from(topology.devices@, 0) == keyboard_from(topology.devices@, i as int),
        decreases topology.devices@.len() - i,
    {
        let device = &topology.devices[i];
        if device.kind == HidDeviceKind::Keyboard {
            return Some(
                KeyboardTopology {
                    controller_mmio_base: topology.controller_mmio_base,
                    controller_mmio_length: topology.controller_mmio_length,
                    bus_frequency_hz: topology.bus_frequency_hz,
                    i2c_address: device.i2c_address,
                    hid_descriptor_register: device.hid_descriptor_register,
                    keyboard_interrupt: device.interrupt,
                },
            );
        }
        i += 1;
    }
    None
}

/// Moving into a range leaves what lies in it and stops at the edge that is passed.
pub proof fn moves_stop_at_the_edges(v: int, hi: int)
    requires
        hi >= 0,
    ensures
        0 <= clamp(v, hi) <= hi,
        0 <= v <= hi ==> clamp(v, hi) == v,
        v < 0 ==> clamp(v, hi) == 0,
        v > hi ==> clamp(v, hi) == hi,
{
}

/// The smaller of two is one of them, and above neither.
pub proof fn the_smaller_is_below_both(a: int, b: int)
    ensures
        min(a, b) <= a,
        min(a, b) <= b,
        min(a, b) == a || min(a, b) == b,
{
}

/// A handle is due just where it is there and is none of those to keep.
pub proof fn kept_handles_are_not_due(handles: Seq<Option<Handle>>, keep: Seq<Handle>, i: int)
    requires
        0 <= i < handles.len(),
    ensures
        handles[i] is None ==> !is_due(handles, keep, i),
        handles[i] matches Some(h) ==> (is_due(handles, keep, i) <==> forall|k: int|
            0 <= k < keep.len() ==> #[trigger] keep[k] != h),
{
    if handles[i] is Some && keep.contains(handles[i]->0) {
        let k = choose|k: int| 0 <= k < keep.len() && keep[k] == handles[i]->0;
        assert(keep[k] == handles[i]->0);
    }
}

/// A count grows by one with each device of the kind, and with no other.
pub proof fn devices_are_counted_by_kind(
    devices: Seq<crate::hid::HidDeviceTopology>,
    more: crate::hid::HidDeviceTopology,
    kind: HidDeviceKind,
)
    ensures
        count_kind(Seq::empty(), kind, 0) == 0,
        count_kind(devices.push(more), kind, devices.len() as int + 1) == count_kind(
            devices,
            kind,
            devices.len() as int,
        ) + (if more.kind == kind {
            1int
        } else {
            0
        }),
{
    lemma_count_prefix(devices, more, kind, devices.len() as int);
}

proof fn lemma_count_prefix(
    devices: Seq<crate::hid::HidDeviceTopology>,
    more: crate::hid::HidDeviceTopology,
    kind: HidDeviceKind,
    n: int,
)
    requires
        n <= devices.len(),
    ensures
        count_kind(devices.push(more), kind, n) == count_kind(devices, kind, n),
    decreases n,
{
    if n > 0 {
        lemma_count_prefix(devices, more, kind, n - 1);
        assert(devices.push(more)[n - 1] == devices[n - 1]);
    }
}

proof fn lemma_keyboard_from(devices: Seq<crate::hid::HidDeviceTopology>, m: int, i: int)
    requires
        0 <= m,
        m <= i <= devices.len(),
        forall|j: int| m <= j < i ==> (#[trigger] devices[j]).kind != HidDeviceKind::Keyboard,
    ensures
        i < devices.len() && devices[i].kind == HidDeviceKind::Keyboard ==> keyboard_from(
            devices,
            m,
        ) == Some(i),
        i == devices.len() ==> keyboard_from(devices, m) is None,
    decreases i - m,
{
    if m < i {
        assert(devices[m].kind != HidDeviceKind::Keyboard);
        lemma_keyboard_from(devices, m + 1, i);
    }
}

/// The keyboard that is started is the first one of the bus, with its own address, register and
/// interrupt, and the bus's own base, length and frequency; a bus without one starts nothing.
pub proof fn the_first_keyboard_is_started(
    base: u64,
    length: u64,
    frequency: u32,
    devices: Seq<crate::hid::HidDeviceTopology>,
    i: int,
)
    requires
        0 <= i <= devices.len(),
        forall|j: int| 0 <= j < i ==> (#[trigger] devices[j]).kind != HidDeviceKind::Keyboard,
    ensures
        i == devices.len() ==> keyboard_of(base, length, frequency, devices) is None,
        i < devices.len() && devices[i].kind == HidDeviceKind::Keyboard ==> {
            let k = keyboard_of(base, length, frequency, devices);
            &&& k is Some
            &&& k->0.controller_mmio_base == base
            &&& k->0.controller_mmio_length == length
            &&& k->0.bus_frequency_hz == frequency
            &&& k->0.i2c_address == devices[i].i2c_address
            &&& k->0.hid_descriptor_register == devices[i].hid_descriptor_register
            &&& k->0.keyboard_interrupt == devices[i].interrupt
        },
{
    lemma_keyboard_from(devices, 0, i);
}

} // verus!
