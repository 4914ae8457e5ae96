//! The I2C controller driver: its bootstrap message and its requests.

use vstd::prelude::*;

use crate::bus_config::{
    clock_of, head_bytes, heads_come_first, heads_round_trip, mmio_is_valid, source_clock, source_clock_hz,
    valid_mmio, BUS_FREQUENCY_HZ,
};
use crate::bytes;

pub use crate::bus_config::SourceClock;

pub mod service;

verus! {

#[derive(Clone, Copy, Debug, PartialEq, Eq, Structural)]
pub enum ConfigError {
    Truncated,
    BadMagic,
    InvalidMmio,
    UnsupportedBusFrequency,
    UnsupportedSourceClock,
}

/// What the driver is told at its start.
#[derive(Clone, Copy, Debug, PartialEq, Eq, Structural)]
pub struct ProbeConfig {
    pub mmio_base: u64,
    pub mmio_length: u64,
    pub bus_frequency_hz: u32,
    pub source_clock: SourceClock,
}

/// The mark of a bootstrap message.
pub open spec fn magic() -> Seq<u8> {
    seq![0x49u8, 0x32, 0x47, 0x31]
}

/// A configuration that the driver can work with, or why it cannot.
pub open spec fn checked(c: ProbeConfig) -> Result<ProbeConfig, ConfigError> {
    if !mmio_is_valid(c.mmio_base, c.mmio_length) {
        Err(ConfigError::InvalidMmio)
    } else if c.bus_frequency_hz != 400_000 {
        Err(ConfigError::UnsupportedBusFrequency)
    } else {
        Ok(c)
    }
}

/// A configuration's message.
pub open spec fn encoded(c: ProbeConfig) -> Seq<u8> {
    head_bytes(magic(), c.mmio_base, c.mmio_length, c.bus_frequency_hz, c.source_clock) + seq![
        0u8,
        0,
        0,
        0,
    ]
}

/// The configuration in a message, or why there is none. Bytes behind the
/// message are ignored.
pub open spec fn decoded(s: Seq<u8>) -> Result<ProbeConfig, ConfigError> {
    if s.len() < 32 {
        Err(ConfigError::Truncated)
    } else if s.subrange(0, 4) != magic() {
        Err(ConfigError::BadMagic)
    } else {
        match clock_of(bytes::le32(s, 24) as u32) {
            None => Err(ConfigError::UnsupportedSourceClock),
            Some(clock) => checked(
                ProbeConfig {
                    mmio_base: bytes::le64(s, 4) as u64,
                    mmio_length: bytes::le64(s, 12) as u64,
                    bus_frequency_hz: bytes::le32(s, 20) as u32,
                    source_clock: clock,
                },
            ),
        }
    }
}

impl ProbeConfig {
    pub const BYTES: usize = 32;

    /// Encodes the configuration.
    pub fn encode(self) -> (raw: [u8; 32])
        ensures
            raw@ == encoded(self),
    {
        let mut raw = [0u8; 32];
        let mark: [u8; 4] = [0x49, 0x32, 0x47, 0x31];
        bytes::put_bytes(&mut raw, 0, &mark);
        bytes::put_u64(&mut raw, 4, self.mmio_base);
        bytes::put_u64(&mut raw, 12, self.mmio_length);
        bytes::put_u32(&mut raw, 20, self.bus_frequency_hz);
        bytes::put_u32(&mut raw, 24, source_clock_hz(self.source_clock));
        assert(raw@ =~= encoded(self));
        raw
    }

    /// Decodes and checks a message.
    pub fn decode(raw: &[u8]) -> (r: Result<ProbeConfig, ConfigError>)
        ensures
            r == decoded(raw@),
    {
        if raw.len() < 32 {
            return Err(ConfigError::Truncated);
        }
        let mark: [u8; 4] = [0x49, 0x32, 0x47, 0x31];
        assert(mark@ =~= magic());
        if !bytes::bytes_equal(&raw[0..4], &mark) {
            return Err(ConfigError::BadMagic);
        }
        let clock: SourceClock = match source_clock(bytes::read_u32(raw, 24)) {
            None => return Err(ConfigError::UnsupportedSourceClock),
            Some(c) => c,
        };
        let config: ProbeConfig = ProbeConfig {
            mmio_base: bytes::read_u64(raw, 4),
            mmio_length: bytes::read_u64(raw, 12),
            bus_frequency_hz: bytes::read_u32(raw, 20),
            source_clock: clock,
        };
        config.validate()
    }

    fn validate(self) -> (r: Result<ProbeConfig, ConfigError>)
        ensures
            r == checked(self),
    {
        if !valid_mmio(self.mmio_base, self.mmio_length) {
            Err(ConfigError::InvalidMmio)
        } else if self.bus_frequency_hz != BUS_FREQUENCY_HZ {
            Err(ConfigError::UnsupportedBusFrequency)
        } else {
            Ok(self)
        }
    }
}

/// A message decodes to the check of the configuration that it was made of; so a
/// valid configuration comes back as it was, and no other ever does.
pub proof fn configs_round_trip(c: ProbeConfig, tail: Seq<u8>)
    ensures
        encoded(c).len() == 32,
        decoded(encoded(c) + tail) == checked(c),
{
    let h = head_bytes(
        magic(),
        c.mmio_base,
        c.mmio_length,
        c.bus_frequency_hz,
        c.source_clock,
    );
    heads_come_first(h, seq![0u8, 0, 0, 0], tail);
    heads_round_trip(
        encoded(c) + tail,
        magic(),
        c.mmio_base,
        c.mmio_length,
        c.bus_frequency_hz,
        c.source_clock,
    );
}

/// A configuration passes just where its window is made of whole pages that do not begin at zero and its bus runs
/// at 400 kilohertz.
pub proof fn configs_are_checked_in_order(c: ProbeConfig)
    ensures
        ({
            let window = c.mmio_base > 0 && c.mmio_base % 4096 == 0 && c.mmio_length > 0
                && c.mmio_length % 4096 == 0;
            &&& !window ==> checked(c) == Err::<ProbeConfig, ConfigError>(ConfigError::InvalidMmio)
            &&& window && c.bus_frequency_hz != 400_000 ==> checked(c) == Err::<
                ProbeConfig,
                ConfigError,
            >(ConfigError::UnsupportedBusFrequency)
            &&& window && c.bus_frequency_hz == 400_000 ==> checked(c) == Ok::<
                ProbeConfig,
                ConfigError,
            >(c)
        }),
{
}

/// A message of 32 bytes opens with `I2G1`; the window's base is at 4 and its length at 12, the bus frequency at
/// 20 and the clock's frequency at 24, low bytes first, and four zero bytes end it.
pub proof fn messages_are_laid_out(c: ProbeConfig)
    ensures
        encoded(c).len() == 32,
        encoded(c)[0] == 0x49 && encoded(c)[1] == 0x32 && encoded(c)[2] == 0x47 && encoded(c)[3]
            == 0x31,
        bytes::le64(encoded(c), 4) == c.mmio_base,
        bytes::le64(encoded(c), 12) == c.mmio_length,
        bytes::le32(encoded(c), 20) == c.bus_frequency_hz,
        bytes::le32(encoded(c), 24) == (if c.source_clock is Mhz19_2 {
            19_200_000int
        } else {
            32_000_000
        }),
        bytes::le32(encoded(c), 28) == 0,
{
    let h = head_bytes(
        magic(),
        c.mmio_base,
        c.mmio_length,
        c.bus_frequency_hz,
        c.source_clock,
    );
    let zeros = seq![0u8, 0u8, 0u8, 0u8];
    let e = encoded(c);
    heads_come_first(h, zeros, Seq::empty());
    assert(h + zeros + Seq::<u8>::empty() =~= e);
    heads_round_trip(e, magic(), c.mmio_base, c.mmio_length, c.bus_frequency_hz, c.source_clock);
    let mark = e.subrange(0, 4);
    assert(mark[0] == e[0] && mark[1] == e[1] && mark[2] == e[2] && mark[3] == e[3]);
    assert(e[28] == 0 && e[29] == 0 && e[30] == 0 && e[31] == 0);
}

/// A message is read where it has 32 bytes or more, opens with `I2G1` and names one of the two clocks; what it
/// then says is checked.
pub proof fn messages_are_read_by_position(s: Seq<u8>)
    ensures
        s.len() < 32 ==> decoded(s) == Err::<ProbeConfig, ConfigError>(ConfigError::Truncated),
        s.len() >= 32 && !(s[0] == 0x49 && s[1] == 0x32 && s[2] == 0x47 && s[3] == 0x31) ==> decoded(s)
            == Err::<ProbeConfig, ConfigError>(ConfigError::BadMagic),
        s.len() >= 32 && s[0] == 0x49 && s[1] == 0x32 && s[2] == 0x47 && s[3] == 0x31 ==> {
            let hz = bytes::le32(s, 24);
            &&& hz != 19_200_000 && hz != 32_000_000 ==> decoded(s) == Err::<
                ProbeConfig,
                ConfigError,
            >(ConfigError::UnsupportedSourceClock)
            &&& hz == 19_200_000 || hz == 32_000_000 ==> decoded(s) == checked(
                ProbeConfig {
                    mmio_base: bytes::le64(s, 4) as u64,
                    mmio_length: bytes::le64(s, 12) as u64,
                    bus_frequency_hz: bytes::le32(s, 20) as u32,
                    source_clock: if hz == 19_200_000 {
                        SourceClock::Mhz19_2
                    } else {
                        SourceClock::Mhz32
                    },
                },
            )
        },
{
    if s.len() >= 32 {
        let part = s.subrange(0, 4);
        assert(part[0] == s[0] && part[1] == s[1] && part[2] == s[2] && part[3] == s[3]);
        if s[0] == 0x49 && s[1] == 0x32 && s[2] == 0x47 && s[3] == 0x31 {
            assert(part =~= magic());
        }
    }
}

} // verus!
