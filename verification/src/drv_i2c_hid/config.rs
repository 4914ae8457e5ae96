//! What the driver is told at its start: one device's configuration, the plan
//! for a whole bus, and the devices that may be missing from it.

use vstd::prelude::*;

use crate::bus_config::{
    clock_of, head_bytes, heads_come_first, heads_round_trip, mmio_is_valid, source_clock,
    source_clock_hz, valid_mmio, SourceClock, BUS_FREQUENCY_HZ,
};
use crate::bytes;
use crate::hid::{
    AttentionIrq, HidDeviceKind, HidDeviceTopology, I2cHidBusTopology, KeyboardTopology,
};

verus! {

pub const KEYBOARD_BOOTSTRAP_TAG: u8 = 0x4b;

pub const MOUSE_BOOTSTRAP_TAG: u8 = 0x4d;

pub const OPTIONAL_PROBE_BOOTSTRAP_TAG: u8 = 0x50;

#[derive(Clone, Copy, Debug, PartialEq, Eq, Structural)]
pub enum ConfigError {
    Truncated,
    BadMagic,
    InvalidMmio,
    UnsupportedBusFrequency,
    UnsupportedSourceClock,
    InvalidAddress,
    InvalidInterrupt,
    MissingKeyboard,
    TooManyDevices,
}

/// One device's configuration. It carries no authority.
#[derive(Clone, Copy, Debug, PartialEq, Eq, Structural)]
pub struct ProbeConfig {
    pub mmio_base: u64,
    pub mmio_length: u64,
    pub bus_frequency_hz: u32,
    pub source_clock: SourceClock,
    pub i2c_address: u8,
    pub hid_descriptor_register: u16,
    pub attention_irq: u32,
}

/// The mark of a bootstrap message.
pub open spec fn magic() -> Seq<u8> {
    seq![0x49u8, 0x32, 0x48, 0x31]
}

/// A configuration that the driver can work with, or why it cannot. `gpio` says
/// whether its interrupt is a GPIO's.
pub open spec fn checked(c: ProbeConfig, gpio: bool) -> Result<ProbeConfig, ConfigError> {
    if !mmio_is_valid(c.mmio_base, c.mmio_length) {
        Err(ConfigError::InvalidMmio)
    } else if c.bus_frequency_hz != 400_000 {
        Err(ConfigError::UnsupportedBusFrequency)
    } else if c.i2c_address > 0x7f {
        Err(ConfigError::InvalidAddress)
    } else if !gpio {
        Err(ConfigError::InvalidInterrupt)
    } else {
        Ok(c)
    }
}

/// What follows the head of a message: the address, the register, a byte
/// without meaning, and the interrupt.
pub open spec fn tail_bytes(c: ProbeConfig) -> Seq<u8> {
    seq![c.i2c_address] + bytes::le_bytes2(c.hid_descriptor_register as int) + seq![0u8]
        + bytes::le_bytes4(c.attention_irq as int)
}

/// A configuration's message.
pub open spec fn encoded(c: ProbeConfig) -> Seq<u8> {
    head_bytes(magic(), c.mmio_base, c.mmio_length, c.bus_frequency_hz, c.source_clock)
        + tail_bytes(c)
}

/// The interrupt in a message.
pub open spec fn irq_of(s: Seq<u8>) -> u32 {
    bytes::le32(s, 32) as u32
}

/// The configuration in a message, or why there is none. Bytes behind the
/// message are ignored.
pub open spec fn decoded(s: Seq<u8>, gpio: bool) -> Result<ProbeConfig, ConfigError> {
    if s.len() < 36 {
        Err(ConfigError::Truncated)
    } else if s.subrange(0, 4) != magic() {
        Err(ConfigError::BadMagic)
    } else {
        match clock_of(bytes::le32(s, 24) as u32) {
            None => Err(ConfigError::UnsupportedSourceClock),
            Some(clock) => checked(
                ProbeConfig {
                    mmio_base: bytes::le64(s, 4) as u64,
                    mmio_length: bytes::le64(s, 12) as u64,
                    bus_frequency_hz: bytes::le32(s, 20) as u32,
                    source_clock: clock,
                    i2c_address: s[28],
                    hid_descriptor_register: bytes::le16(s, 29) as u16,
                    attention_irq: irq_of(s),
                },
                gpio,
            ),
        }
    }
}

/// The configuration of a device on a controller.
pub open spec fn parts_config(
    base: u64,
    len: u64,
    frequency: u32,
    address: u8,
    register: u16,
    irq: AttentionIrq,
) -> Result<ProbeConfig, ConfigError> {
    checked(
        ProbeConfig {
            mmio_base: base,
            mmio_length: len,
            bus_frequency_hz: frequency,
            source_clock: SourceClock::Mhz19_2,
            i2c_address: address,
            hid_descriptor_register: register,
            attention_irq: irq.encoded,
        },
        irq.is_gpio,
    )
}

/// The configuration of one of a bus's devices.
pub open spec fn device_config(t: I2cHidBusTopology, d: HidDeviceTopology) -> Result<
    ProbeConfig,
    ConfigError,
> {
    parts_config(
        t.controller_mmio_base,
        t.controller_mmio_length,
        t.bus_frequency_hz,
        d.i2c_address,
        d.hid_descriptor_register,
        d.interrupt,
    )
}

impl ProbeConfig {
    pub const BYTES: usize = 36;

    /// The configuration of a bus's keyboard.
    pub fn for_x13s(topology: KeyboardTopology) -> (r: Result<ProbeConfig, ConfigError>)
        ensures
            r == parts_config(
                topology.controller_mmio_base,
                topology.controller_mmio_length,
                topology.bus_frequency_hz,
                topology.i2c_address,
                topology.hid_descriptor_register,
                topology.keyboard_interrupt,
            ),
    {
        Self::for_x13s_parts(
            topology.controller_mmio_base,
            topology.controller_mmio_length,
            topology.bus_frequency_hz,
            topology.i2c_address,
            topology.hid_descriptor_register,
            topology.keyboard_interrupt,
        )
    }

    /// The configuration of one of a bus's devices.
    pub fn for_x13s_device(topology: &I2cHidBusTopology, device: HidDeviceTopology) -> (r: Result<
        ProbeConfig,
        ConfigError,
    >)
        ensures
            r == device_config(*topology, device),
    {
        Self::for_x13s_parts(
            topology.controller_mmio_base,
            topology.controller_mmio_length,
            topology.bus_frequency_hz,
            device.i2c_address,
            device.hid_descriptor_register,
            device.interrupt,
        )
    }

    fn for_x13s_parts(
        mmio_base: u64,
        mmio_length: u64,
        bus_frequency_hz: u32,
        i2c_address: u8,
        hid_descriptor_register: u16,
        interrupt: AttentionIrq,
    ) -> (r: Result<ProbeConfig, ConfigError>)
        ensures
            r == parts_config(
                mmio_base,
                mmio_length,
                bus_frequency_hz,
                i2c_address,
                hid_descriptor_register,
                interrupt,
            ),
    {
        let config: ProbeConfig = ProbeConfig {
            mmio_base,
            mmio_length,
            bus_frequency_hz,
            source_clock: SourceClock::Mhz19_2,
            i2c_address,
            hid_descriptor_register,
            attention_irq: interrupt.encoded,
        };
        config.validate(interrupt.is_gpio)
    }

    /// Encodes the configuration.
    pub fn encode(self) -> (raw: [u8; 36])
        ensures
            raw@ == encoded(self),
    {
        let mut raw = [0u8; 36];
        let mark: [u8; 4] = [0x49, 0x32, 0x48, 0x31];
        bytes::put_bytes(&mut raw, 0, &mark);
        bytes::put_u64(&mut raw, 4, self.mmio_base);
        bytes::put_u64(&mut raw, 12, self.mmio_length);
        bytes::put_u32(&mut raw, 20, self.bus_frequency_hz);
        bytes::put_u32(&mut raw, 24, source_clock_hz(self.source_clock));
        raw[28] = self.i2c_address;
        bytes::put_u16(&mut raw, 29, self.hid_descriptor_register);
        bytes::put_u32(&mut raw, 32, self.attention_irq);
        assert(raw@ =~= encoded(self));
        raw
    }

    /// Decodes and checks a message. `is_gpio` says whether an interrupt is a
    /// GPIO's.
    pub fn decode<G: Fn(u32) -> bool>(raw: &[u8], is_gpio: G) -> (r: Result<
        ProbeConfig,
        ConfigError,
    >)
        requires
            raw@.len() >= 36 ==> call_requires(is_gpio, (irq_of(raw@),)),
        ensures
            (r == decoded(raw@, true) && r == decoded(raw@, false)) || exists|gpio: bool|
                #[trigger] call_ensures(is_gpio, (irq_of(raw@),), gpio) && r == decoded(
                    raw@,
                    gpio,
                ),
    {
        if raw.len() < 36 {
            return Err(ConfigError::Truncated);
        }
        let mark: [u8; 4] = [0x49, 0x32, 0x48, 0x31];
        assert(mark@ =~= magic());
        if !bytes::bytes_equal(&raw[0..4], &mark) {
            return Err(ConfigError::BadMagic);
        }
        let clock: SourceClock = match source_clock(bytes::read_u32(raw, 24)) {
            None => return Err(ConfigError::UnsupportedSourceClock),
            Some(c) => c,
        };
        let config: ProbeConfig = ProbeConfig {
            mmio_base: bytes::read_u64(raw, 4),
            mmio_length: bytes::read_u64(raw, 12),
            bus_frequency_hz: bytes::read_u32(raw, 20),
            source_clock: clock,
            i2c_address: raw[28],
            hid_descriptor_register: bytes::read_u16(raw, 29),
            attention_irq: bytes::read_u32(raw, 32),
        };
        let gpio: bool = is_gpio(config.attention_irq);
        assert(call_ensures(is_gpio, (irq_of(raw@),), gpio));
        config.validate(gpio)
    }

    fn validate(self, gpio: bool) -> (r: Result<ProbeConfig, ConfigError>)
        ensures
            r == checked(self, gpio),
    {
        if !valid_mmio(self.mmio_base, self.mmio_length) {
            Err(ConfigError::InvalidMmio)
        } else if self.bus_frequency_hz != BUS_FREQUENCY_HZ {
            Err(ConfigError::UnsupportedBusFrequency)
        } else if self.i2c_address > 0x7f {
            Err(ConfigError::InvalidAddress)
        } else if !gpio {
            Err(ConfigError::InvalidInterrupt)
        } else {
            Ok(self)
        }
    }
}

/// A message decodes to the check of the configuration that it was made of; so a
/// valid configuration comes back as it was, and no other ever does.
pub proof fn configs_round_trip(c: ProbeConfig, gpio: bool, tail: Seq<u8>)
    ensures
        encoded(c).len() == 36,
        irq_of(encoded(c) + tail) == c.attention_irq,
        decoded(encoded(c) + tail, gpio) == checked(c, gpio),
{
    let h = head_bytes(
        magic(),
        c.mmio_base,
        c.mmio_length,
        c.bus_frequency_hz,
        c.source_clock,
    );
    let m = tail_bytes(c);
    let s = encoded(c) + tail;
    heads_come_first(h, m, tail);
    heads_round_trip(
        s,
        magic(),
        c.mmio_base,
        c.mmio_length,
        c.bus_frequency_hz,
        c.source_clock,
    );
    let r = bytes::le_bytes2(c.hid_descriptor_register as int);
    let q = bytes::le_bytes4(c.attention_irq as int);
    assert(m.len() == 8);
    assert forall|i: int| 0 <= i < 8 implies s[28 + i] == m[i] by {
        assert((h + m + tail)[28 + i] == m[i]);
    }
    assert(s[28 + 0int] == m[0]);
    assert forall|i: int| 0 <= i < 2 implies s[29 + i] == r[i] by {
        assert(s[28 + (i + 1)] == m[i + 1]);
    }
    assert forall|i: int| 0 <= i < 4 implies s[32 + i] == q[i] by {
        assert(s[28 + (i + 4)] == m[i + 4]);
    }
    bytes::lemma_fields_agree(s, 29, r);
    bytes::lemma_fields_agree(s, 32, q);
    bytes::lemma_le16_round_trip(c.hid_descriptor_register as int);
    bytes::lemma_le32_round_trip(c.attention_irq as int);
}

/// Whether the driver can do without a device.
#[derive(Clone, Copy, Debug, PartialEq, Eq, Structural)]
pub enum ProbeFailurePolicy {
    Required,
    Optional,
}

#[derive(Clone, Copy, Debug, PartialEq, Eq, Structural)]
pub struct DeviceProbeConfig {
    pub kind: HidDeviceKind,
    pub failure_policy: ProbeFailurePolicy,
    pub config: ProbeConfig,
}

/// Only a keyboard is required.
pub open spec fn policy_of(kind: HidDeviceKind) -> ProbeFailurePolicy {
    if kind is Keyboard {
        ProbeFailurePolicy::Required
    } else {
        ProbeFailurePolicy::Optional
    }
}

/// The plan for some devices of a bus, with room for `cap` of them, or the error
/// of the first that cannot be planned.
pub open spec fn planned(
    t: I2cHidBusTopology,
    devices: Seq<HidDeviceTopology>,
    cap: int,
) -> Result<Seq<DeviceProbeConfig>, ConfigError>
    decreases devices.len(),
{
    if devices.len() == 0 {
        Ok(Seq::empty())
    } else {
        match planned(t, devices.drop_last(), cap) {
            Err(e) => Err(e),
            Ok(v) => match device_config(t, devices.last()) {
                Err(e) => Err(e),
                Ok(config) => if v.len() >= cap {
                    Err(ConfigError::TooManyDevices)
                } else {
                    Ok(
                        v.push(
                            DeviceProbeConfig {
                                kind: devices.last().kind,
                                failure_policy: policy_of(devices.last().kind),
                                config,
                            },
                        ),
                    )
                },
            },
        }
    }
}

/// Where the first keyboard of a plan stands; the plan's length where it has
/// none.
pub open spec fn keyboard_place(v: Seq<DeviceProbeConfig>) -> int
    decreases v.len(),
{
    if v.len() == 0 {
        0
    } else if keyboard_place(v.drop_last()) < v.len() - 1 {
        keyboard_place(v.drop_last())
    } else if v.last().kind is Keyboard {
        v.len() - 1
    } else {
        v.len() as int
    }
}

/// How many devices of a plan have a policy.
pub open spec fn count_policy(v: Seq<DeviceProbeConfig>, p: ProbeFailurePolicy) -> int
    decreases v.len(),
{
    if v.len() == 0 {
        0
    } else {
        count_policy(v.drop_last(), p) + if v.last().failure_policy == p {
            1int
        } else {
            0
        }
    }
}

/// The plan for a bus with room for `N` devices: each device's configuration,
/// whether it is required, and the first keyboard.
#[derive(Clone, Debug, PartialEq, Eq)]
pub struct ProbePlan<const N: usize> {
    devices: Vec<DeviceProbeConfig>,
    keyboard_index: usize,
}

impl<const N: usize> View for ProbePlan<N> {
    type V = Seq<DeviceProbeConfig>;

    closed spec fn view(&self) -> Seq<DeviceProbeConfig> {
        self.devices@
    }
}

impl<const N: usize> ProbePlan<N> {
    pub closed spec fn wf(self) -> bool {
        &&& self.devices@.len() <= N
        &&& self.keyboard_index == keyboard_place(self.devices@)
        &&& self.keyboard_index < self.devices@.len()
    }

    /// Plans for a bus. It must have a keyboard.
    pub fn for_x13s(topology: &I2cHidBusTopology) -> (r: Result<ProbePlan<N>, ConfigError>)
        ensures
            match planned(*topology, topology.devices@, N as int) {
                Err(e) => r is Err && r->Err_0 == e,
                Ok(v) => if keyboard_place(v) >= v.len() {
                    r is Err && r->Err_0 == ConfigError::MissingKeyboard
                } else {
                    r is Ok && r->Ok_0.wf() && r->Ok_0@ == v
                },
            },
    {
        let mut devices: Vec<DeviceProbeConfig> = Vec::new();
        let mut keyboard_index: usize = 0;
        let ghost all = topology.devices@;
        let mut i: usize = 0;
        assert(all.subrange(0, 0) =~= Seq::empty());
        while i < topology.devices.len()
            invariant
                i <= all.len(),
                all == topology.devices@,
                devices@.len() <= N,
                planned(*topology, all.subrange(0, i as int), N as int) == Ok::<
                    Seq<DeviceProbeConfig>,
                    ConfigError,
                >(devices@),
                keyboard_index == keyboard_place(devices@),
                keyboard_index <= devices@.len(),
            decreases all.len() - i,
        {
            let device: HidDeviceTopology = topology.devices[i];
            let ghost part = all.subrange(0, i + 1);
            assert(part.drop_last() =~= all.subrange(0, i as int));
            assert(part.last() == device);
            let config: ProbeConfig = match ProbeConfig::for_x13s_device(topology, device) {
                Err(e) => {
                    proof {
                        lemma_first_error(*topology, all, i + 1, N as int);
                    }
                    return Err(e);
                },
                Ok(c) => c,
            };
            if devices.len() >= N {
                proof {
                    lemma_first_error(*topology, all, i + 1, N as int);
                }
                return Err(ConfigError::TooManyDevices);
            }
            let failure_policy: ProbeFailurePolicy = match device.kind {
                HidDeviceKind::Keyboard => ProbeFailurePolicy::Required,
                _ => ProbeFailurePolicy::Optional,
            };
            let is_keyboard: bool = match device.kind {
                HidDeviceKind::Keyboard => true,
                _ => false,
            };
            let ghost before = devices@;
            let count: usize = devices.len();
            if keyboard_index == count && !is_keyboard {
                keyboard_index = count + 1;
            }
            devices.push(DeviceProbeConfig { kind: device.kind, failure_policy, config });
            assert(devices@.drop_last() =~= before);
            i += 1;
        }
        assert(all.subrange(0, i as int) =~= all);
        if keyboard_index == devices.len() {
            return Err(ConfigError::MissingKeyboard);
        }
        Ok(ProbePlan { devices, keyboard_index })
    }

    pub fn devices(&self) -> (r: &[DeviceProbeConfig])
        ensures
            r@ == self@,
    {
        &self.devices
    }

    /// The first keyboard.
    pub fn keyboard(&self) -> (r: Option<&DeviceProbeConfig>)
        requires
            self.wf(),
        ensures
            r == Some(&self@[keyboard_place(self@)]),
    {
        Some(&self.devices[self.keyboard_index])
    }

    fn count_with(&self, p: ProbeFailurePolicy) -> (n: usize)
        ensures
            n == count_policy(self@, p),
    {
        let mut n: usize = 0;
        let mut i: usize = 0;
        assert(self.devices@.subrange(0, 0) =~= Seq::empty());
        while i < self.devices.len()
            invariant
                n <= i <= self.devices@.len(),
                n == count_policy(self.devices@.subrange(0, i as int), p),
            decreases self.devices@.len() - i,
        {
            if self.devices[i].failure_policy == p {
                n += 1;
            }
            i += 1;
            assert(self.devices@.subrange(0, i as int).drop_last() =~= self.devices@.subrange(
                0,
                i - 1,
            ));
        }
        assert(self.devices@.subrange(0, i as int) =~= self.devices@);
        n
    }

    pub fn required_count(&self) -> (n: usize)
        ensures
            n == count_policy(self@, ProbeFailurePolicy::Required),
    {
        self.count_with(ProbeFailurePolicy::Required)
    }

    pub fn optional_count(&self) -> (n: usize)
        ensures
            n == count_policy(self@, ProbeFailurePolicy::Optional),
    {
        self.count_with(ProbeFailurePolicy::Optional)
    }

    /// Whether the driver can do without what is at an address.
    pub fn can_skip_missing_address(&self, i2c_address: u8) -> (r: bool)
        ensures
            r == exists|i: int|
                0 <= i < self@.len() && (#[trigger] self@[i]).config.i2c_address == i2c_address
                    && self@[i].failure_policy == ProbeFailurePolicy::Optional,
    {
        let mut i: usize = 0;
        while i < self.devices.len()
            invariant
                i <= self.devices@.len(),
                forall|j: int|
                    0 <= j < i ==> !((#[trigger] self.devices@[j]).config.i2c_address == i2c_address
                        && self.devices@[j].failure_policy == ProbeFailurePolicy::Optional),
            decreases self.devices@.len() - i,
        {
            let d: DeviceProbeConfig = self.devices[i];
            if d.config.i2c_address == i2c_address && d.failure_policy
                == ProbeFailurePolicy::Optional {
                assert(self@[i as int].config.i2c_address == i2c_address);
                return true;
            }
            i += 1;
        }
        false
    }

    /// The optional devices, as much of each as it takes to ask for it.
    pub fn optional_probe_candidates(&self) -> (c: OptionalProbeCandidates<N>)
        requires
            self.wf(),
        ensures
            c.wf(),
            c@ == optional_of(self@),
    {
        let mut candidates: Vec<OptionalProbeCandidate> = Vec::new();
        let mut i: usize = 0;
        assert(self.devices@.subrange(0, 0) =~= Seq::empty());
        while i < self.devices.len()
            invariant
                i <= self.devices@.len(),
                candidates@.len() <= i,
                candidates@ == optional_of(self.devices@.subrange(0, i as int)),
            decreases self.devices@.len() - i,
        {
            let d: DeviceProbeConfig = self.devices[i];
            if d.failure_policy == ProbeFailurePolicy::Optional {
                candidates.push(
                    OptionalProbeCandidate {
                        i2c_address: d.config.i2c_address,
                        hid_descriptor_register: d.config.hid_descriptor_register,
                    },
                );
            }
            i += 1;
            assert(self.devices@.subrange(0, i as int).drop_last() =~= self.devices@.subrange(
                0,
                i - 1,
            ));
        }
        assert(self.devices@.subrange(0, i as int) =~= self.devices@);
        OptionalProbeCandidates { candidates }
    }
}

/// An error met early is the error of the whole plan.
proof fn lemma_first_error(
    t: I2cHidBusTopology,
    devices: Seq<HidDeviceTopology>,
    n: int,
    cap: int,
)
    requires
        0 <= n <= devices.len(),
        planned(t, devices.subrange(0, n), cap) is Err,
    ensures
        planned(t, devices, cap) == planned(t, devices.subrange(0, n), cap),
    decreases devices.len() - n,
{
    if n == devices.len() {
        assert(devices.subrange(0, n) =~= devices);
    } else {
        assert(devices.subrange(0, n + 1).drop_last() =~= devices.subrange(0, n));
        lemma_first_error(t, devices, n + 1, cap);
    }
}

/// A plan keeps every device of the bus, in order, and requires just the
/// keyboards.
pub proof fn plans_keep_every_device(
    t: I2cHidBusTopology,
    devices: Seq<HidDeviceTopology>,
    cap: int,
)
    ensures
        planned(t, devices, cap) matches Ok(v) ==> {
            &&& v.len() == devices.len()
            &&& forall|i: int|
                0 <= i < v.len() ==> (#[trigger] v[i]).kind == devices[i].kind
                    && v[i].config.i2c_address == devices[i].i2c_address
                    && v[i].failure_policy == policy_of(devices[i].kind)
            &&& count_policy(v, ProbeFailurePolicy::Required) + count_policy(
                v,
                ProbeFailurePolicy::Optional,
            ) == v.len()
        },
    decreases devices.len(),
{
    if devices.len() > 0 {
        plans_keep_every_device(t, devices.drop_last(), cap);
        if let Ok(v) = planned(t, devices, cap) {
            let u = planned(t, devices.drop_last(), cap)->Ok_0;
            assert(v.drop_last() =~= u);
            assert forall|i: int| 0 <= i < v.len() implies (#[trigger] v[i]).kind == devices[i].kind
                && v[i].config.i2c_address == devices[i].i2c_address && v[i].failure_policy
                == policy_of(devices[i].kind) by {
                if i < u.len() {
                    assert(v[i] == u[i]);
                    assert(devices.drop_last()[i] == devices[i]);
                }
            }
        }
    }
}

/// A device that may be missing.
#[derive(Clone, Copy, Debug, PartialEq, Eq, Structural)]
pub struct OptionalProbeCandidate {
    pub i2c_address: u8,
    pub hid_descriptor_register: u16,
}

/// The optional devices of a plan.
pub open spec fn optional_of(v: Seq<DeviceProbeConfig>) -> Seq<OptionalProbeCandidate>
    decreases v.len(),
{
    if v.len() == 0 {
        Seq::empty()
    } else {
        let rest = optional_of(v.drop_last());
        let d = v.last();
        if d.failure_policy == ProbeFailurePolicy::Optional {
            rest.push(
                OptionalProbeCandidate {
                    i2c_address: d.config.i2c_address,
                    hid_descriptor_register: d.config.hid_descriptor_register,
                },
            )
        } else {
            rest
        }
    }
}

/// Byte `j` of a message that names some candidates: a tag, their number, and
/// three bytes for each; the rest is zero.
pub open spec fn candidate_byte(c: Seq<OptionalProbeCandidate>, j: int) -> u8 {
    if j == 0 {
        0x50
    } else if j == 1 {
        c.len() as u8
    } else {
        let i = (j - 2) / 3;
        let k = (j - 2) % 3;
        if i >= c.len() {
            0
        } else if k == 0 {
            c[i].i2c_address
        } else if k == 1 {
            (c[i].hid_descriptor_register % 0x100) as u8
        } else {
            (c[i].hid_descriptor_register / 0x100) as u8
        }
    }
}

/// The message that names some candidates, with room for `n` of them.
pub open spec fn candidates_message(c: Seq<OptionalProbeCandidate>, n: int) -> Seq<u8> {
    Seq::new((2 + 3 * n) as nat, |j: int| candidate_byte(c, j))
}

/// Candidate `i` of a message.
pub open spec fn candidate_at(s: Seq<u8>, i: int) -> OptionalProbeCandidate {
    OptionalProbeCandidate {
        i2c_address: s[2 + 3 * i],
        hid_descriptor_register: bytes::le16(s, 3 + 3 * i) as u16,
    }
}

/// An address that a device can have.
pub open spec fn good_address(a: u8) -> bool {
    1 <= a <= 0x7f
}

/// Every candidate of a message has a good address.
pub open spec fn good_addresses(s: Seq<u8>) -> bool {
    forall|i: int| 0 <= i < s[1] ==> good_address((#[trigger] candidate_at(s, i)).i2c_address)
}

/// The candidates in a message with room for `n`, or why there are none.
pub open spec fn candidates_of(s: Seq<u8>, n: int) -> Result<
    Seq<OptionalProbeCandidate>,
    ConfigError,
> {
    if s.len() < 2 + 3 * n {
        Err(ConfigError::Truncated)
    } else if s[0] != 0x50 {
        Err(ConfigError::BadMagic)
    } else if s[1] > n {
        Err(ConfigError::TooManyDevices)
    } else if !good_addresses(s) {
        Err(ConfigError::InvalidAddress)
    } else {
        Ok(Seq::new(s[1] as nat, |i: int| candidate_at(s, i)))
    }
}

/// The devices of a bus that may be missing, at most `N` of them.
#[derive(Clone, Debug, PartialEq, Eq)]
pub struct OptionalProbeCandidates<const N: usize> {
    candidates: Vec<OptionalProbeCandidate>,
}

impl<const N: usize> View for OptionalProbeCandidates<N> {
    type V = Seq<OptionalProbeCandidate>;

    closed spec fn view(&self) -> Seq<OptionalProbeCandidate> {
        self.candidates@
    }
}

impl<const N: usize> OptionalProbeCandidates<N> {
    pub open spec fn wf(self) -> bool {
        self@.len() <= N
    }

    pub fn empty() -> (c: OptionalProbeCandidates<N>)
        ensures
            c.wf(),
            c@ == Seq::<OptionalProbeCandidate>::empty(),
    {
        OptionalProbeCandidates { candidates: Vec::new() }
    }

    pub fn candidates(&self) -> (r: &[OptionalProbeCandidate])
        ensures
            r@ == self@,
    {
        &self.candidates
    }

    /// Encodes the candidates.
    pub fn encode(&self) -> (raw: Vec<u8>)
        requires
            self.wf(),
            N <= 255,
        ensures
            raw@ == candidates_message(self@, N as int),
    {
        let mut raw: Vec<u8> = Vec::new();
        raw.push(OPTIONAL_PROBE_BOOTSTRAP_TAG);
        raw.push(self.candidates.len() as u8);
        let mut i: usize = 0;
        while i < N
            invariant
                i <= N,
                N <= 255,
                self.wf(),
                raw@.len() == 2 + 3 * i,
                forall|j: int| 0 <= j < raw@.len() ==> raw@[j] == candidate_byte(self@, j),
            decreases N - i,
        {
            let (a, lo, hi): (u8, u8, u8) = if i < self.candidates.len() {
                let c: OptionalProbeCandidate = self.candidates[i];
                (
                    c.i2c_address,
                    (c.hid_descriptor_register % 0x100) as u8,
                    (c.hid_descriptor_register / 0x100) as u8,
                )
            } else {
                (0, 0, 0)
            };
            raw.push(a);
            raw.push(lo);
            raw.push(hi);
            assert((2 + 3 * i - 2) / 3 == i && (2 + 3 * i - 2) % 3 == 0);
            assert((3 + 3 * i - 2) / 3 == i && (3 + 3 * i - 2) % 3 == 1);
            assert((4 + 3 * i - 2) / 3 == i && (4 + 3 * i - 2) % 3 == 2);
            i += 1;
        }
        assert(raw@ =~= candidates_message(self@, N as int));
        raw
    }

    /// Decodes and checks a message.
    pub fn decode(raw: &[u8]) -> (r: Result<OptionalProbeCandidates<N>, ConfigError>)
        requires
            N <= 255,
        ensures
            match r {
                Ok(c) => c.wf() && candidates_of(raw@, N as int) == Ok::<
                    Seq<OptionalProbeCandidate>,
                    ConfigError,
                >(c@),
                Err(e) => candidates_of(raw@, N as int) == Err::<
                    Seq<OptionalProbeCandidate>,
                    ConfigError,
                >(e),
            },
    {
        if raw.len() < 2 + 3 * N {
            return Err(ConfigError::Truncated);
        }
        if raw[0] != OPTIONAL_PROBE_BOOTSTRAP_TAG {
            return Err(ConfigError::BadMagic);
        }
        let count: usize = raw[1] as usize;
        if count > N {
            return Err(ConfigError::TooManyDevices);
        }
        let mut candidates: Vec<OptionalProbeCandidate> = Vec::new();
        let mut i: usize = 0;
        while i < count
            invariant
                i <= count <= N,
                N <= 255,
                raw@.len() >= 2 + 3 * N,
                count == raw@[1],
                candidates@.len() == i,
                forall|j: int|
                    0 <= j < i ==> candidates@[j] == #[trigger] candidate_at(raw@, j)
                        && good_address(candidate_at(raw@, j).i2c_address),
                raw@[0] == OPTIONAL_PROBE_BOOTSTRAP_TAG,
            decreases count - i,
        {
            let base: usize = 2 + 3 * i;
            let a: u8 = raw[base];
            if a == 0 || a > 0x7f {
                assert(!good_address(candidate_at(raw@, i as int).i2c_address));
                return Err(ConfigError::InvalidAddress);
            }
            candidates.push(
                OptionalProbeCandidate {
                    i2c_address: a,
                    hid_descriptor_register: bytes::read_u16(raw, base + 1),
                },
            );
            assert(candidates@[i as int] == candidate_at(raw@, i as int));
            i += 1;
        }
        assert forall|j: int| 0 <= j < count implies #[trigger] candidates@[j] == candidate_at(
            raw@,
            j,
        ) by {
            assert(candidate_at(raw@, j) == candidate_at(raw@, j));
        }
        assert(candidates@ =~= Seq::new(raw@[1] as nat, |i: int| candidate_at(raw@, i)));
        Ok(OptionalProbeCandidates { candidates })
    }
}

/// Candidates with good addresses come back from their message.
pub proof fn candidates_round_trip(c: Seq<OptionalProbeCandidate>, n: int)
    requires
        c.len() <= n <= 255,
        forall|i: int| 0 <= i < c.len() ==> good_address((#[trigger] c[i]).i2c_address),
    ensures
        candidates_of(candidates_message(c, n), n) == Ok::<
            Seq<OptionalProbeCandidate>,
            ConfigError,
        >(c),
{
    let s = candidates_message(c, n);
    assert(s[0] == 0x50 && s[1] == c.len());
    assert forall|i: int| 0 <= i < c.len() implies #[trigger] candidate_at(s, i) == c[i] by {
        assert((2 + 3 * i - 2) / 3 == i && (2 + 3 * i - 2) % 3 == 0);
        assert((3 + 3 * i - 2) / 3 == i && (3 + 3 * i - 2) % 3 == 1);
        assert((4 + 3 * i - 2) / 3 == i && (4 + 3 * i - 2) % 3 == 2);
        assert(s[2 + 3 * i] == c[i].i2c_address);
        assert(s[3 + 3 * i] == c[i].hid_descriptor_register % 0x100);
        assert(s[4 + 3 * i] == c[i].hid_descriptor_register / 0x100);
    }
    assert(Seq::new(s[1] as nat, |i: int| candidate_at(s, i)) =~= c);
}

/// A configuration passes just where its window is made of whole pages that do not begin at zero, its bus runs
/// at 400 kilohertz, its address has seven bits and its interrupt is a GPIO's; the first of these that does
/// not hold is the error.
pub proof fn configs_are_checked_in_order(c: ProbeConfig, gpio: bool)
    ensures
        ({
            let window = c.mmio_base > 0 && c.mmio_base % 4096 == 0 && c.mmio_length > 0
                && c.mmio_length % 4096 == 0;
            let r = checked(c, gpio);
            &&& !window ==> r == Err::<ProbeConfig, ConfigError>(ConfigError::InvalidMmio)
            &&& window && c.bus_frequency_hz != 400_000 ==> r == Err::<ProbeConfig, ConfigError>(
                ConfigError::UnsupportedBusFrequency,
            )
            &&& window && c.bus_frequency_hz == 400_000 && c.i2c_address >= 128 ==> r == Err::<
                ProbeConfig,
                ConfigError,
            >(ConfigError::InvalidAddress)
            &&& window && c.bus_frequency_hz == 400_000 && c.i2c_address < 128 && !gpio ==> r
                == Err::<ProbeConfig, ConfigError>(ConfigError::InvalidInterrupt)
            &&& window && c.bus_frequency_hz == 400_000 && c.i2c_address < 128 && gpio ==> r == Ok::<
                ProbeConfig,
                ConfigError,
            >(c)
        }),
{
}

proof fn lemma_tail_fields(h: Seq<u8>, a: u8, r: Seq<u8>, q: Seq<u8>, e: Seq<u8>)
    requires
        h.len() == 28,
        r.len() == 2,
        q.len() == 4,
        e == h + (seq![a] + r + seq![0u8] + q),
    ensures
        e.len() == 36,
        e[28] == a,
        bytes::le16(e, 29) == bytes::le16(r, 0),
        bytes::le32(e, 32) == bytes::le32(q, 0),
{
    bytes::lemma_fields_agree(e, 29, r);
    bytes::lemma_fields_agree(e, 32, q);
}

proof fn lemma_head_fields(h: Seq<u8>, m: Seq<u8>, e: Seq<u8>, c: ProbeConfig)
    requires
        h == head_bytes(
            magic(),
            c.mmio_base,
            c.mmio_length,
            c.bus_frequency_hz,
            c.source_clock,
        ),
        e == h + m,
    ensures
        h.len() == 28,
        e.subrange(0, 4) == magic(),
        bytes::le64(e, 4) == c.mmio_base,
        bytes::le64(e, 12) == c.mmio_length,
        bytes::le32(e, 20) == c.bus_frequency_hz,
        bytes::le32(e, 24) == crate::bus_config::clock_hz(c.source_clock),
{
    heads_come_first(h, m, Seq::empty());
    assert(h + m + Seq::<u8>::empty() =~= e);
    heads_round_trip(e, magic(), c.mmio_base, c.mmio_length, c.bus_frequency_hz, c.source_clock);
}

/// A message of 36 bytes opens with `I2H1`; the window's base is at 4 and its length at 12, the bus frequency
/// at 20, the clock's frequency at 24, the address at 28, the register at 29 and the interrupt at 32, low
/// bytes first.
pub proof fn messages_are_laid_out(c: ProbeConfig)
    ensures
        encoded(c).len() == 36,
        encoded(c)[0] == 0x49 && encoded(c)[1] == 0x32 && encoded(c)[2] == 0x48 && encoded(c)[3]
            == 0x31,
        bytes::le64(encoded(c), 4) == c.mmio_base,
        bytes::le64(encoded(c), 12) == c.mmio_length,
        bytes::le32(encoded(c), 20) == c.bus_frequency_hz,
        bytes::le32(encoded(c), 24) == (if c.source_clock is Mhz19_2 {
            19_200_000int
        } else {
            32_000_000
        }),
        encoded(c)[28] == c.i2c_address,
        bytes::le16(encoded(c), 29) == c.hid_descriptor_register,
        bytes::le32(encoded(c), 32) == c.attention_irq,
{
    let h = head_bytes(
        magic(),
        c.mmio_base,
        c.mmio_length,
        c.bus_frequency_hz,
        c.source_clock,
    );
    let e = encoded(c);
    let r = bytes::le_bytes2(c.hid_descriptor_register as int);
    let q = bytes::le_bytes4(c.attention_irq as int);
    lemma_head_fields(h, tail_bytes(c), e, c);
    bytes::lemma_le16_round_trip(c.hid_descriptor_register as int);
    bytes::lemma_le32_round_trip(c.attention_irq as int);
    lemma_tail_fields(h, c.i2c_address, r, q, e);
    let mark = e.subrange(0, 4);
    assert(mark[0] == e[0] && mark[1] == e[1] && mark[2] == e[2] && mark[3] == e[3]);
}

/// A message is read where it has 36 bytes or more, opens with `I2H1` and names one of the two clocks; what it then
/// says is checked.
pub proof fn messages_are_read_by_position(s: Seq<u8>, gpio: bool)
    ensures
        s.len() < 36 ==> decoded(s, gpio) == Err::<ProbeConfig, ConfigError>(
            ConfigError::Truncated,
        ),
        s.len() >= 36 && !(s[0] == 0x49 && s[1] == 0x32 && s[2] == 0x48 && s[3] == 0x31) ==> decoded(
            s,
            gpio,
        ) == Err::<ProbeConfig, ConfigError>(ConfigError::BadMagic),
        s.len() >= 36 && s[0] == 0x49 && s[1] == 0x32 && s[2] == 0x48 && s[3] == 0x31
            && bytes::le32(s, 24) != 19_200_000 && bytes::le32(s, 24) != 32_000_000 ==> decoded(
            s,
            gpio,
        ) == Err::<ProbeConfig, ConfigError>(ConfigError::UnsupportedSourceClock),
        s.len() >= 36 && s[0] == 0x49 && s[1] == 0x32 && s[2] == 0x48 && s[3] == 0x31 && (
        bytes::le32(s, 24) == 19_200_000 || bytes::le32(s, 24) == 32_000_000) ==> decoded(s, gpio)
            == checked(
            ProbeConfig {
                mmio_base: bytes::le64(s, 4) as u64,
                mmio_length: bytes::le64(s, 12) as u64,
                bus_frequency_hz: bytes::le32(s, 20) as u32,
                source_clock: if bytes::le32(s, 24) == 19_200_000 {
                    SourceClock::Mhz19_2
                } else {
                    SourceClock::Mhz32
                },
                i2c_address: s[28],
                hid_descriptor_register: bytes::le16(s, 29) as u16,
                attention_irq: bytes::le32(s, 32) as u32,
            },
            gpio,
        ),
{
    if s.len() >= 36 {
        let part = s.subrange(0, 4);
        assert(part[0] == s[0] && part[1] == s[1] && part[2] == s[2] && part[3] == s[3]);
        if s[0] == 0x49 && s[1] == 0x32 && s[2] == 0x48 && s[3] == 0x31 {
            assert(part =~= magic());
        }
    }
}

/// A device is planned with its own address, register and interrupt, its bus's window and frequency, and a
/// source clock of 19.2 megahertz.
pub proof fn devices_are_planned_on_their_bus(t: I2cHidBusTopology, d: HidDeviceTopology)
    ensures
        device_config(t, d) == checked(
            ProbeConfig {
                mmio_base: t.controller_mmio_base,
                mmio_length: t.controller_mmio_length,
                bus_frequency_hz: t.bus_frequency_hz,
                source_clock: SourceClock::Mhz19_2,
                i2c_address: d.i2c_address,
                hid_descriptor_register: d.hid_descriptor_register,
                attention_irq: d.interrupt.encoded,
            },
            d.interrupt.is_gpio,
        ),
        policy_of(HidDeviceKind::Keyboard) == ProbeFailurePolicy::Required,
        policy_of(HidDeviceKind::Touchpad) == ProbeFailurePolicy::Optional,
        policy_of(HidDeviceKind::Unknown) == ProbeFailurePolicy::Optional,
{
}

/// A plan of some devices and one more is the plan of those with the one behind it; an error of the first
/// comes first, then one of the last, and then a lack of room.
pub proof fn plans_grow_device_by_device(
    t: I2cHidBusTopology,
    devices: Seq<HidDeviceTopology>,
    d: HidDeviceTopology,
    cap: int,
)
    ensures
        planned(t, Seq::empty(), cap) == Ok::<Seq<DeviceProbeConfig>, ConfigError>(Seq::empty()),
        planned(t, devices, cap) matches Err(e) ==> planned(t, devices.push(d), cap) == Err::<
            Seq<DeviceProbeConfig>,
            ConfigError,
        >(e),
        planned(t, devices, cap) matches Ok(v) ==> {
            let r = planned(t, devices.push(d), cap);
            &&& device_config(t, d) matches Err(e) ==> r == Err::<
                Seq<DeviceProbeConfig>,
                ConfigError,
            >(e)
            &&& device_config(t, d) matches Ok(c) ==> {
                &&& v.len() >= cap ==> r == Err::<Seq<DeviceProbeConfig>, ConfigError>(
                    ConfigError::TooManyDevices,
                )
                &&& v.len() < cap ==> r == Ok::<Seq<DeviceProbeConfig>, ConfigError>(
                    v + seq![
                        DeviceProbeConfig {
                            kind: d.kind,
                            failure_policy: policy_of(d.kind),
                            config: c,
                        },
                    ],
                )
            }
        },
{
    assert(devices.push(d).drop_last() =~= devices);
    if planned(t, devices, cap) is Ok && device_config(t, d) is Ok {
        let v = planned(t, devices, cap)->Ok_0;
        let more = DeviceProbeConfig {
            kind: d.kind,
            failure_policy: policy_of(d.kind),
            config: device_config(t, d)->Ok_0,
        };
        assert(v.push(more) =~= v + seq![more]);
    }
}

/// The keyboard of a plan is its first one.
pub proof fn the_first_keyboard_counts(v: Seq<DeviceProbeConfig>, i: int)
    requires
        0 <= i <= v.len(),
        forall|j: int| 0 <= j < i ==> !((#[trigger] v[j]).kind is Keyboard),
        i < v.len() ==> v[i].kind is Keyboard,
    ensures
        keyboard_place(v) == i,
    decreases v.len(),
{
    if v.len() > 0 {
        let part = v.drop_last();
        if i < v.len() {
            let at = if i < part.len() {
                i
            } else {
                part.len() as int
            };
            assert forall|j: int| 0 <= j < at implies !((#[trigger] part[j]).kind is Keyboard) by {
                assert(part[j] == v[j]);
            }
            if i < part.len() {
                assert(part[i] == v[i]);
            }
            the_first_keyboard_counts(part, at);
        } else {
            assert forall|j: int| 0 <= j < part.len() implies !((#[trigger] part[j]).kind is Keyboard) by {
                assert(part[j] == v[j]);
            }
            the_first_keyboard_counts(part, part.len() as int);
            assert(!(v[v.len() - 1].kind is Keyboard));
        }
    }
}

/// One device more counts under its own policy, and an optional one is asked for behind the others, by its
/// address and its register.
pub proof fn devices_count_under_their_policy(v: Seq<DeviceProbeConfig>, d: DeviceProbeConfig, p:
    ProbeFailurePolicy)
    ensures
        count_policy(Seq::empty(), p) == 0,
        count_policy(v.push(d), p) == count_policy(v, p) + (if d.failure_policy == p {
            1int
        } else {
            0
        }),
        optional_of(Seq::empty()) == Seq::<OptionalProbeCandidate>::empty(),
        d.failure_policy == ProbeFailurePolicy::Required ==> optional_of(v.push(d)) == optional_of(v),
        d.failure_policy == ProbeFailurePolicy::Optional ==> optional_of(v.push(d)) == optional_of(v)
            + seq![
            OptionalProbeCandidate {
                i2c_address: d.config.i2c_address,
                hid_descriptor_register: d.config.hid_descriptor_register,
            },
        ],
{
    assert(v.push(d).drop_last() =~= v);
    let c = OptionalProbeCandidate {
        i2c_address: d.config.i2c_address,
        hid_descriptor_register: d.config.hid_descriptor_register,
    };
    assert(optional_of(v).push(c) =~= optional_of(v) + seq![c]);
}

/// A message of candidates is the byte 0x50, their number, and for each its address and its register in two
/// bytes, low byte first; what is left of its `2 + 3 * n` bytes is zero.
pub proof fn candidates_take_three_bytes(c: Seq<OptionalProbeCandidate>, n: int, i: int)
    requires
        c.len() <= n <= 255,
        0 <= i < n,
    ensures
        ({
            let s = candidates_message(c, n);
            &&& s.len() == 2 + 3 * n
            &&& s[0] == 0x50
            &&& s[1] == c.len()
            &&& i < c.len() ==> s[2 + 3 * i] == c[i].i2c_address && s[3 + 3 * i] + 0x100 * s[4 + 3
                * i] == c[i].hid_descriptor_register
            &&& i >= c.len() ==> s[2 + 3 * i] == 0 && s[3 + 3 * i] == 0 && s[4 + 3 * i] == 0
        }),
{
    assert((3 * i) / 3 == i && (3 * i) % 3 == 0);
    assert((3 * i + 1) / 3 == i && (3 * i + 1) % 3 == 1);
    assert((3 * i + 2) / 3 == i && (3 * i + 2) % 3 == 2);
}

/// A message of candidates is read just where it is long enough, opens with 0x50, names no more than there is
/// room for, and every address is from 1 to 127.
pub proof fn candidates_are_read_by_position(s: Seq<u8>, n: int, i: int)
    requires
        0 <= n <= 255,
    ensures
        s.len() < 2 + 3 * n ==> candidates_of(s, n) == Err::<
            Seq<OptionalProbeCandidate>,
            ConfigError,
        >(ConfigError::Truncated),
        s.len() >= 2 + 3 * n && s[0] != 0x50 ==> candidates_of(s, n) == Err::<
            Seq<OptionalProbeCandidate>,
            ConfigError,
        >(ConfigError::BadMagic),
        s.len() >= 2 + 3 * n && s[0] == 0x50 && s[1] > n ==> candidates_of(s, n) == Err::<
            Seq<OptionalProbeCandidate>,
            ConfigError,
        >(ConfigError::TooManyDevices),
        s.len() >= 2 + 3 * n && s[0] == 0x50 && s[1] <= n ==> {
            let r = candidates_of(s, n);
            &&& 0 <= i < s[1] && (s[2 + 3 * i] == 0 || s[2 + 3 * i] > 127) ==> r == Err::<
                Seq<OptionalProbeCandidate>,
                ConfigError,
            >(ConfigError::InvalidAddress)
            &&& r is Ok ==> r->Ok_0.len() == s[1]
            &&& r is Ok && 0 <= i < s[1] ==> r->Ok_0[i].i2c_address == s[2 + 3 * i]
                && r->Ok_0[i].hid_descriptor_register == s[3 + 3 * i] + 0x100 * s[4 + 3 * i]
            &&& (forall|k: int|
                0 <= k < s[1] ==> 1 <= (#[trigger] candidate_at(s, k)).i2c_address <= 127) ==> r is Ok
        },
{
    if 0 <= i < s[1] {
        assert(candidate_at(s, i).i2c_address == s[2 + 3 * i]);
        if good_addresses(s) {
            assert(good_address(candidate_at(s, i).i2c_address));
        }
    }
}

/// A device's configuration holds what it was made from, with the clock of 19.2 MHz, where that passes the checks.
pub proof fn configurations_hold_their_parts(
    base: u64,
    len: u64,
    frequency: u32,
    address: u8,
    register: u16,
    irq: AttentionIrq,
)
    ensures
        parts_config(base, len, frequency, address, register, irq) matches Ok(c) ==> {
            &&& c.mmio_base == base && c.mmio_length == len
            &&& c.bus_frequency_hz == frequency
            &&& c.source_clock == SourceClock::Mhz19_2
            &&& c.i2c_address == address
            &&& c.hid_descriptor_register == register
            &&& c.attention_irq == irq.encoded
        },
{
}

} // verus!
