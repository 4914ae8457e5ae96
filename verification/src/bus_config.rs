//! What the I2C drivers' bootstrap messages have in common: a controller's
//! register window, its bus frequency and its source clock.

use vstd::prelude::*;

use crate::bytes;

verus! {

/// The clock that a serial engine divides.
#[derive(Clone, Copy, Debug, PartialEq, Eq, Structural)]
pub enum SourceClock {
    Mhz19_2,
    Mhz32,
}

/// A clock's frequency.
pub open spec fn clock_hz(clock: SourceClock) -> u32 {
    match clock {
        SourceClock::Mhz19_2 => 19_200_000,
        SourceClock::Mhz32 => 32_000_000,
    }
}

/// The clock of a frequency, if it is one of the two.
pub open spec fn clock_of(hz: u32) -> Option<SourceClock> {
    if hz == 19_200_000 {
        Some(SourceClock::Mhz19_2)
    } else if hz == 32_000_000 {
        Some(SourceClock::Mhz32)
    } else {
        None
    }
}

pub fn source_clock_hz(clock: SourceClock) -> (hz: u32)
    ensures
        hz == clock_hz(clock),
{
    match clock {
        SourceClock::Mhz19_2 => 19_200_000,
        SourceClock::Mhz32 => 32_000_000,
    }
}

pub fn source_clock(hz: u32) -> (c: Option<SourceClock>)
    ensures
        c == clock_of(hz),
{
    if hz == 19_200_000 {
        Some(SourceClock::Mhz19_2)
    } else if hz == 32_000_000 {
        Some(SourceClock::Mhz32)
    } else {
        None
    }
}

/// A register window of whole pages that does not begin at zero.
pub open spec fn mmio_is_valid(base: u64, len: u64) -> bool {
    base != 0 && base % 0x1000 == 0 && len >= 0x1000 && len % 0x1000 == 0
}

pub fn valid_mmio(base: u64, len: u64) -> (r: bool)
    ensures
        r == mmio_is_valid(base, len),
{
    base != 0 && base % 0x1000 == 0 && len >= 0x1000 && len % 0x1000 == 0
}

/// The one bus frequency that is supported.
pub const BUS_FREQUENCY_HZ: u32 = 400_000;

/// The first bytes of a message: a mark, the register window, the bus frequency
/// and the source clock's frequency.
pub open spec fn head_bytes(
    mark: Seq<u8>,
    base: u64,
    len: u64,
    frequency: u32,
    clock: SourceClock,
) -> Seq<u8> {
    mark + bytes::le_bytes8(base as int) + bytes::le_bytes8(len as int) + bytes::le_bytes4(
        frequency as int,
    ) + bytes::le_bytes4(clock_hz(clock) as int)
}

pub open spec fn prefixed(s: Seq<u8>, head: Seq<u8>) -> bool {
    s.len() >= head.len() && s.subrange(0, head.len() as int) == head
}

/// A message begins with its head.
pub proof fn heads_come_first(head: Seq<u8>, a: Seq<u8>, b: Seq<u8>)
    ensures
        prefixed(head + a + b, head),
{
    assert((head + a + b).subrange(0, head.len() as int) =~= head);
}

/// The fields of the first bytes are read back.
pub proof fn heads_round_trip(
    s: Seq<u8>,
    mark: Seq<u8>,
    base: u64,
    len: u64,
    frequency: u32,
    clock: SourceClock,
)
    requires
        mark.len() == 4,
        prefixed(s, head_bytes(mark, base, len, frequency, clock)),
    ensures
        s.len() >= 28,
        head_bytes(mark, base, len, frequency, clock).len() == 28,
        s.subrange(0, 4) == mark,
        bytes::le64(s, 4) == base,
        bytes::le64(s, 12) == len,
        bytes::le32(s, 20) == frequency,
        bytes::le32(s, 24) == clock_hz(clock),
        clock_of(clock_hz(clock)) == Some(clock),
{
    let h = head_bytes(mark, base, len, frequency, clock);
    let a = bytes::le_bytes8(base as int);
    let b = bytes::le_bytes8(len as int);
    let c = bytes::le_bytes4(frequency as int);
    let d = bytes::le_bytes4(clock_hz(clock) as int);
    assert forall|i: int| 0 <= i < 28 implies s[i] == h[i] by {
        assert(s.subrange(0, h.len() as int)[i] == s[i]);
    }
    assert(s.subrange(0, 4) =~= mark);
    bytes::lemma_le64_round_trip(base as int);
    bytes::lemma_le64_round_trip(len as int);
    bytes::lemma_le32_round_trip(frequency as int);
    bytes::lemma_le32_round_trip(clock_hz(clock) as int);
    assert forall|i: int| 0 <= i < 8 implies s[4 + i] == a[i] by {}
    assert forall|i: int| 0 <= i < 8 implies s[12 + i] == b[i] by {}
    assert forall|i: int| 0 <= i < 4 implies s[20 + i] == c[i] by {}
    assert forall|i: int| 0 <= i < 4 implies s[24 + i] == d[i] by {}
    bytes::lemma_fields_agree(s, 4, a);
    bytes::lemma_fields_agree(s, 12, b);
    bytes::lemma_fields_agree(s, 20, c);
    bytes::lemma_fields_agree(s, 24, d);
}

/// There are two source clocks, of 19.2 and of 32 megahertz, and a clock is known by its frequency.
pub proof fn clocks_are_known_by_frequency(hz: u32)
    ensures
        clock_hz(SourceClock::Mhz19_2) == 19_200_000,
        clock_hz(SourceClock::Mhz32) == 32_000_000,
        hz == 19_200_000 ==> clock_of(hz) == Some(SourceClock::Mhz19_2),
        hz == 32_000_000 ==> clock_of(hz) == Some(SourceClock::Mhz32),
        hz != 19_200_000 && hz != 32_000_000 ==> clock_of(hz) is None,
{
}

/// A register window is good just where it is made of one or more whole pages of 4096 bytes that do not begin
/// at zero.
pub proof fn windows_are_whole_pages(base: u64, len: u64)
    ensures
        mmio_is_valid(base, len) <==> base > 0 && base % 4096 == 0 && len > 0 && len % 4096 == 0,
{
}

} // verus!
