//! Words of the controller's registers, contexts and rings.

use vstd::prelude::*;

use crate::sora::initrd::sat_add;

verus! {

pub const PAGE_SIZE: u64 = 4096;

/// Entries of the device context array; slot zero is the controller's own.
pub const DCBAA_ENTRIES: usize = 32;

/// Offset of the scratchpad array in the first page.
pub const OFF_SCRATCH_ARRAY: u64 = 0x340;

/// Offsets in a device's page.
pub const OFF_INPUT_CTX: u64 = 0x000;

pub const OFF_OUTPUT_CTX: u64 = 0x400;

pub const OFF_EP0_RING: u64 = 0xc00;

pub const OFF_DATA: u64 = 0xd00;

pub const OFF_INT_RING: u64 = 0xe00;

pub const OFF_REPORT: u64 = 0xf00;

/// How long the work on one hub may take.
pub const HUB_PASS_BUDGET_NS: u64 = 400_000_000;

/// Rounds of a long loop between two yields.
pub const YIELD_INTERVAL: u32 = 512;

/// Rounds an address up to a multiple of `align`, a power of two. `None` where
/// that does not fit.
pub fn align_up(value: u64, align: u64) -> (r: Option<u64>)
    requires
        align > 0,
    ensures
        r is Some <==> value + align - 1 <= u64::MAX,
        r matches Some(v) ==> v % align == 0 && value <= v < value + align,
{
    match value.checked_add(align - 1) {
        None => None,
        Some(v) => {
            proof {
                let q = v as int / align as int;
                vstd::arithmetic::div_mod::lemma_fundamental_div_mod(v as int, align as int);
                vstd::arithmetic::div_mod::lemma_mod_bound(v as int, align as int);
                assert((align as int * q) % (align as int) == 0) by {
                    vstd::arithmetic::div_mod::lemma_mod_multiples_basic(q, align as int);
                    assert(align as int * q == q * align as int) by (nonlinear_arith);
                }
            }
            Some(v - v % align)
        },
    }
}

/// The largest exponent whose power of two is at most `n`.
pub open spec fn log2(n: nat) -> nat
    decreases n,
{
    if n <= 1 {
        0
    } else {
        1 + log2(n / 2)
    }
}

/// The polling exponent of an interrupt endpoint, in units of 125 microseconds:
/// a full- or low-speed interval counts milliseconds, any other is an exponent
/// plus one. The field holds at most fifteen.
pub open spec fn interval_of(speed: u8, b_interval: u8) -> u8 {
    if speed == 1 || speed == 2 {
        let frames: nat = if b_interval == 0 {
            1
        } else {
            b_interval as nat
        };
        log2(frames * 8) as u8
    } else if b_interval == 0 {
        0
    } else if b_interval > 16 {
        15
    } else {
        (b_interval - 1) as u8
    }
}

proof fn lemma_log2_bound(n: nat)
    requires
        1 <= n <= 2040,
    ensures
        log2(n) <= 10,
{
    reveal_with_fuel(log2, 12);
}

/// Computes the interval field.
pub fn xhci_interval(speed_raw: u8, b_interval: u8) -> (r: u8)
    ensures
        r == interval_of(speed_raw, b_interval),
        r <= 15,
{
    if speed_raw == 1 || speed_raw == 2 {
        let frames: u32 = if b_interval == 0 {
            1
        } else {
            b_interval as u32
        };
        let mut microframes: u32 = frames * 8;
        let mut interval: u8 = 0;
        let ghost all = microframes as nat;
        proof {
            lemma_log2_bound(all);
        }
        while microframes > 1 && interval < 15
            invariant
                1 <= microframes <= 2040,
                interval <= 10,
                log2(all) <= 10,
                log2(all) == interval + log2(microframes as nat),
            decreases microframes,
        {
            microframes = microframes / 2;
            interval = interval + 1;
        }
        interval
    } else if b_interval == 0 {
        0
    } else if b_interval > 16 {
        15
    } else {
        b_interval - 1
    }
}

/// A device's place: its slot, the page its structures live in, its speed, the
/// root port it hangs off, and how it is reached through a hub.
#[derive(Clone, Copy, Debug, PartialEq, Eq, Structural)]
pub struct Device {
    pub slot: u8,
    pub va: u64,
    pub phys: u64,
    pub speed: u8,
    pub root_port: u8,
    pub route: u32,
    pub tt_slot: u8,
    pub tt_port: u8,
}

/// The words of a slot context that software owns, and which of them are not
/// zero.
#[derive(Clone, Copy, Debug, PartialEq, Eq, Structural)]
pub struct SlotWords {
    pub dw0: u32,
    pub dw1: u32,
    pub dw2: u32,
}

/// Route in the low twenty bits, speed in the next four, the number of contexts
/// in the top five; the root port in the third byte; the hub that translates for
/// a slower device, and its port.
pub open spec fn slot_words_of(
    route: u32,
    speed: u8,
    entries: u8,
    root_port: u8,
    tt_slot: u8,
    tt_port: u8,
) -> SlotWords {
    SlotWords {
        dw0: (route % 0x10_0000 + (speed % 16) * 0x10_0000 + (entries % 32) * 0x800_0000) as u32,
        dw1: (root_port * 0x1_0000) as u32,
        dw2: (tt_slot + tt_port * 0x100) as u32,
    }
}

/// Builds the words of a slot context.
pub fn slot_context_words(
    route: u32,
    speed_raw: u8,
    context_entries: u8,
    root_hub_port: u8,
    tt_hub_slot_id: u8,
    tt_port_number: u8,
) -> (w: SlotWords)
    ensures
        w == slot_words_of(
            route,
            speed_raw,
            context_entries,
            root_hub_port,
            tt_hub_slot_id,
            tt_port_number,
        ),
{
    SlotWords {
        dw0: route % 0x10_0000 + (speed_raw % 16) as u32 * 0x10_0000 + (context_entries % 32) as u32
            * 0x800_0000,
        dw1: root_hub_port as u32 * 0x1_0000,
        dw2: tt_hub_slot_id as u32 + tt_port_number as u32 * 0x100,
    }
}

/// Raises the number of contexts to cover an endpoint's, and keeps the rest.
pub fn cover_endpoint(w: SlotWords, dci: u8) -> (r: SlotWords)
    requires
        dci < 32,
    ensures
        r == (SlotWords { dw0: (w.dw0 % 0x800_0000 + dci * 0x800_0000) as u32, ..w }),
{
    SlotWords { dw0: w.dw0 % 0x800_0000 + dci as u32 * 0x800_0000, dw1: w.dw1, dw2: w.dw2 }
}

/// Covering an endpoint is the same as building the words with as many contexts
/// in the first place.
pub proof fn covering_sets_only_the_count(d: Device, entries: u8, dci: u8)
    requires
        dci < 32,
    ensures
        ({
            let w = slot_words_of(d.route, d.speed, entries, d.root_port, d.tt_slot, d.tt_port);
            (SlotWords { dw0: (w.dw0 % 0x800_0000 + dci * 0x800_0000) as u32, ..w })
                == slot_words_of(d.route, d.speed, dci, d.root_port, d.tt_slot, d.tt_port)
        }),
{
    let low = d.route % 0x10_0000 + (d.speed % 16) * 0x10_0000;
    assert(0 <= low < 0x800_0000);
    assert((low + (entries % 32) * 0x800_0000) % 0x800_0000 == low);
}

/// A device's speed class.
#[derive(Clone, Copy, Debug, PartialEq, Eq, Structural)]
pub enum UsbSpeed {
    Full,
    Low,
    High,
    Super,
    SuperPlus,
}

pub open spec fn speed_of(raw: u8) -> UsbSpeed {
    if raw == 1 {
        UsbSpeed::Full
    } else if raw == 2 {
        UsbSpeed::Low
    } else if raw == 3 {
        UsbSpeed::High
    } else if raw == 5 {
        UsbSpeed::SuperPlus
    } else {
        UsbSpeed::Super
    }
}

/// The speed class of a port's speed field.
pub fn usb_speed(raw: u8) -> (s: UsbSpeed)
    ensures
        s == speed_of(raw),
{
    if raw == 1 {
        UsbSpeed::Full
    } else if raw == 2 {
        UsbSpeed::Low
    } else if raw == 3 {
        UsbSpeed::High
    } else if raw == 5 {
        UsbSpeed::SuperPlus
    } else {
        UsbSpeed::Super
    }
}

/// The packet size of the control endpoint before the device has stated it.
pub open spec fn first_packet_size(speed: u8) -> u16 {
    match speed_of(speed) {
        UsbSpeed::Full => 8,
        UsbSpeed::Low => 8,
        UsbSpeed::High => 64,
        _ => 512,
    }
}

pub fn ep0_max_packet(raw: u8) -> (n: u16)
    ensures
        n == first_packet_size(raw),
{
    match usb_speed(raw) {
        UsbSpeed::Full => 8,
        UsbSpeed::Low => 8,
        UsbSpeed::High => 64,
        _ => 512,
    }
}

/// The speed that a hub reports of an enabled port: low and high have a bit
/// each, full has none. `None` for a port that is not enabled.
pub open spec fn hub_speed_of(status: u16) -> Option<u8> {
    if status / 2 % 2 == 0 {
        None
    } else if status / 0x200 % 2 == 1 {
        Some(2)
    } else if status / 0x400 % 2 == 1 {
        Some(3)
    } else {
        Some(1)
    }
}

pub fn hub_port_speed(status: u16) -> (s: Option<u8>)
    ensures
        s == hub_speed_of(status),
{
    if status / 2 % 2 == 0 {
        None
    } else if status / 0x200 % 2 == 1 {
        Some(2)
    } else if status / 0x400 % 2 == 1 {
        Some(3)
    } else {
        Some(1)
    }
}

/// A full- or low-speed device behind a high-speed hub needs the hub to
/// translate for it.
pub open spec fn needs_translator(speed: u8, hub_speed: u8) -> bool {
    (speed == 1 || speed == 2) && hub_speed == 3
}

/// A device on port `port` of a hub. One tier down, the route is the hub's port.
pub open spec fn behind_hub(
    hub: Device,
    port: u8,
    speed: u8,
    slot: u8,
    va: u64,
    phys: u64,
) -> Device {
    let tt = needs_translator(speed, hub.speed);
    Device {
        slot,
        va,
        phys,
        speed,
        root_port: hub.root_port,
        route: (port % 16) as u32,
        tt_slot: if tt {
            hub.slot
        } else {
            0
        },
        tt_port: if tt {
            port
        } else {
            0
        },
    }
}

pub fn downstream_device(hub: Device, port: u8, speed: u8, slot: u8, va: u64, phys: u64) -> (d:
    Device)
    ensures
        d == behind_hub(hub, port, speed, slot, va, phys),
{
    let tt: bool = (speed == 1 || speed == 2) && hub.speed == 3;
    Device {
        slot,
        va,
        phys,
        speed,
        root_port: hub.root_port,
        route: (port % 16) as u32,
        tt_slot: if tt {
            hub.slot
        } else {
            0
        },
        tt_port: if tt {
            port
        } else {
            0
        },
    }
}

/// The dequeue pointer register for an event ring position: the address without
/// its low four bits, and the bit that clears the busy latch.
pub open spec fn erdp_of(iova: u64) -> u64 {
    (iova / 16 * 16 + 8) as u64
}

/// The two words of the dequeue pointer register, low word first.
pub fn erdp_words(iova: u64) -> (w: (u32, u32))
    ensures
        w.0 + w.1 * 0x1_0000_0000 == erdp_of(iova),
{
    let v: u64 = iova - iova % 16 + 8;
    ((v % 0x1_0000_0000) as u32, (v / 0x1_0000_0000) as u32)
}

/// The four words of a control transfer's data stage toward the host, in one
/// block that is not chained.
pub fn data_stage_words(data_phys: u64, length: u16) -> (w: (u32, u32, u32, u32))
    ensures
        w.0 + w.1 * 0x1_0000_0000 == data_phys,
        w.2 == length,
        w.3 == 3 * 0x400 + 0x1_0000,
{
    (
        (data_phys % 0x1_0000_0000) as u32,
        (data_phys / 0x1_0000_0000) as u32,
        length as u32,
        3 * 0x400 + 0x1_0000,
    )
}

/// The four words of the command that makes the controller look at a slot's
/// input context again.
pub fn evaluate_context_words(input_phys: u64, slot: u8) -> (w: (u32, u32, u32, u32))
    ensures
        w.0 + w.1 * 0x1_0000_0000 == input_phys,
        w.2 == 0,
        w.3 == 13 * 0x400 + slot * 0x100_0000,
{
    (
        (input_phys % 0x1_0000_0000) as u32,
        (input_phys / 0x1_0000_0000) as u32,
        0,
        13 * 0x400 + slot as u32 * 0x100_0000,
    )
}

/// How many scratchpad buffers the controller asks for: the high five bits and
/// the low five bits of the count stand apart in its parameter word.
pub open spec fn scratchpads_of(hcsparams2: u32) -> int {
    hcsparams2 as int / 0x20_0000 % 32 * 32 + hcsparams2 as int / 0x800_0000 % 32
}

pub fn scratchpad_count(hcsparams2: u32) -> (n: u32)
    ensures
        n == scratchpads_of(hcsparams2),
        n < 1024,
{
    hcsparams2 / 0x20_0000 % 32 * 32 + hcsparams2 / 0x800_0000 % 32
}

/// Length of the memory for `count` scratchpad buffers, a page each.
pub fn scratchpad_len(count: u32) -> (n: u64)
    ensures
        n == count * 4096,
{
    count as u64 * PAGE_SIZE
}

/// The addresses of the scratchpad buffers.
pub fn scratchpad_entries(base: u64, count: u32) -> (v: Vec<u64>)
    requires
        base + count * 4096 <= u64::MAX,
    ensures
        v@.len() == count,
        forall|i: int| 0 <= i < count ==> v@[i] == base + i * 4096,
{
    let mut v: Vec<u64> = Vec::new();
    let mut i: u32 = 0;
    while i < count
        invariant
            i <= count,
            base + count * 4096 <= u64::MAX,
            v@.len() == i,
            forall|j: int| 0 <= j < i ==> v@[j] == base + j * 4096,
        decreases count - i,
    {
        v.push(base + i as u64 * PAGE_SIZE);
        i += 1;
    }
    v
}

/// Bit `n` of a word.
pub open spec fn bit(w: u32, n: u32) -> bool {
    w & (1u32 << n) != 0
}

/// The command register of a controller at rest: neither running nor raising
/// interrupts, and otherwise as it was.
pub fn quiet_command(usbcmd: u32) -> (r: u32)
    ensures
        !bit(r, 0),
        !bit(r, 2),
        forall|n: u32| n < 32 && n != 0 && n != 2 ==> bit(r, n) == bit(usbcmd, n),
{
    let r: u32 = usbcmd & !5u32;
    assert(!bit(r, 0) && !bit(r, 2)) by (bit_vector)
        requires
            r == usbcmd & !5u32,
    ;
    assert forall|n: u32| n < 32 && n != 0 && n != 2 implies bit(r, n) == bit(usbcmd, n) by {
        assert(n < 32 && n != 0 && n != 2 ==> ((r & (1u32 << n) != 0) == (usbcmd & (1u32 << n)
            != 0))) by (bit_vector)
            requires
                r == usbcmd & !5u32,
        ;
    }
    r
}

/// The command register with interrupts on, and otherwise as it was.
pub fn loud_command(usbcmd: u32) -> (r: u32)
    ensures
        bit(r, 2),
        forall|n: u32| n < 32 && n != 2 ==> bit(r, n) == bit(usbcmd, n),
{
    let r: u32 = usbcmd | 4u32;
    assert(bit(r, 2)) by (bit_vector)
        requires
            r == usbcmd | 4u32,
    ;
    assert forall|n: u32| n < 32 && n != 2 implies bit(r, n) == bit(usbcmd, n) by {
        assert(n < 32 && n != 2 ==> ((r & (1u32 << n) != 0) == (usbcmd & (1u32 << n) != 0)))
            by (bit_vector)
            requires
                r == usbcmd | 4u32,
        ;
    }
    r
}

/// The interrupter's register with its enable bit off, and otherwise as it was.
pub fn quiet_interrupter(iman: u32) -> (r: u32)
    ensures
        !bit(r, 1),
        forall|n: u32| n < 32 && n != 1 ==> bit(r, n) == bit(iman, n),
{
    let r: u32 = iman & !2u32;
    assert(!bit(r, 1)) by (bit_vector)
        requires
            r == iman & !2u32,
    ;
    assert forall|n: u32| n < 32 && n != 1 implies bit(r, n) == bit(iman, n) by {
        assert(n < 32 && n != 1 ==> ((r & (1u32 << n) != 0) == (iman & (1u32 << n) != 0)))
            by (bit_vector)
            requires
                r == iman & !2u32,
        ;
    }
    r
}

/// The interrupter's register with its enable bit on, and otherwise as it was.
pub fn loud_interrupter(iman: u32) -> (r: u32)
    ensures
        bit(r, 1),
        forall|n: u32| n < 32 && n != 1 ==> bit(r, n) == bit(iman, n),
{
    let r: u32 = iman | 2u32;
    assert(bit(r, 1)) by (bit_vector)
        requires
            r == iman | 2u32,
    ;
    assert forall|n: u32| n < 32 && n != 1 implies bit(r, n) == bit(iman, n) by {
        assert(n < 32 && n != 1 ==> ((r & (1u32 << n) != 0) == (iman & (1u32 << n) != 0)))
            by (bit_vector)
            requires
                r == iman | 2u32,
        ;
    }
    r
}

/// What clears the status register's event bit: that bit alone, which is
/// cleared by writing it.
pub const CLEAR_EVENT: u32 = 0x8;

/// What clears the interrupter's pending bit and keeps it enabled.
pub const CLEAR_PENDING: u32 = 0x3;

/// A time by which some work must be done.
#[derive(Clone, Copy, Debug, PartialEq, Eq, Structural)]
pub struct Deadline {
    pub end_ns: u64,
}

impl Deadline {
    /// The time `budget_ns` after `now`.
    pub fn after(now: u64, budget_ns: u64) -> (d: Deadline)
        ensures
            d.end_ns == sat_add(now as int, budget_ns as int),
    {
        Deadline { end_ns: now.saturating_add(budget_ns) }
    }

    /// Whether the time has come.
    pub fn expired(self, now: u64) -> (r: bool)
        ensures
            r == (now >= self.end_ns),
    {
        now >= self.end_ns
    }
}

/// The byte with which a bootstrap message announces the keyboard channel.
pub const KEYBOARD_BOOTSTRAP_TAG: u8 = 0x6b;

/// The keyboard channel of a bootstrap message, or zero where it brings none.
pub fn keyboard_channel(tag: &[u8], raw: u64) -> (h: u32)
    ensures
        h == (if tag@ == seq![0x6bu8] && raw != 0 && raw != u64::MAX {
            raw as u32
        } else {
            0
        }),
{
    if tag.len() == 1 && tag[0] == KEYBOARD_BOOTSTRAP_TAG && raw != 0 && raw != u64::MAX {
        assert(tag@ =~= seq![0x6bu8]);
        raw as u32
    } else {
        0
    }
}

/// A logarithm grows by one with each doubling.
pub proof fn logarithms_count_doublings(n: nat)
    requires
        n >= 1,
    ensures
        log2(1) == 0,
        log2(2 * n) == log2(n) + 1,
        log2(2 * n + 1) == log2(n) + 1,
{
    assert((2 * n) / 2 == n);
    assert((2 * n + 1) / 2 == n);
}

/// A full- or low-speed device's interval of some milliseconds is eight times as many units, of which the
/// logarithm is taken, and zero counts as one; any other device's is one less than it states, from 0 to 15.
pub proof fn intervals_are_exponents(speed: u8, b: u8)
    ensures
        (speed == 1 || speed == 2) && b > 0 ==> interval_of(speed, b) == log2(8 * b as nat) as u8,
        (speed == 1 || speed == 2) && b == 0 ==> interval_of(speed, b) == 3,
        speed != 1 && speed != 2 && b == 0 ==> interval_of(speed, b) == 0,
        speed != 1 && speed != 2 && 1 <= b <= 16 ==> interval_of(speed, b) == b - 1,
        speed != 1 && speed != 2 && b > 16 ==> interval_of(speed, b) == 15,
{
    reveal_with_fuel(log2, 4);
    assert(log2(8) == 3);
}

/// The fields of a slot context: 20 bits of route, four of speed and, from bit 27 on, five for the number of
/// contexts; the root port in bits 16 to 23 of the next word; the translating hub's slot and port in the two
/// low bytes of the third.
pub proof fn slot_words_hold_their_fields(
    route: u32,
    speed: u8,
    entries: u8,
    root_port: u8,
    tt_slot: u8,
    tt_port: u8,
)
    ensures
        ({
            let w = slot_words_of(route, speed, entries, root_port, tt_slot, tt_port);
            &&& w.dw0 % 0x10_0000 == route % 0x10_0000
            &&& w.dw0 / 0x10_0000 % 16 == speed % 16
            &&& w.dw0 / 0x100_0000 % 8 == 0
            &&& w.dw0 / 0x800_0000 == entries % 32
            &&& w.dw1 / 0x1_0000 == root_port
            &&& w.dw1 % 0x1_0000 == 0
            &&& w.dw2 % 0x100 == tt_slot
            &&& w.dw2 / 0x100 == tt_port
        }),
{
}

/// The speed classes of a port's speed field, and the first packet size of each: 8 bytes for full and low
/// speed, 64 for high speed and 512 above.
pub proof fn speeds_have_their_packet_size(raw: u8)
    ensures
        speed_of(1) == UsbSpeed::Full,
        speed_of(2) == UsbSpeed::Low,
        speed_of(3) == UsbSpeed::High,
        speed_of(4) == UsbSpeed::Super,
        speed_of(5) == UsbSpeed::SuperPlus,
        raw == 0 || raw > 5 ==> speed_of(raw) == UsbSpeed::Super,
        raw == 1 || raw == 2 ==> first_packet_size(raw) == 8,
        raw == 3 ==> first_packet_size(raw) == 64,
        raw == 0 || raw > 3 ==> first_packet_size(raw) == 512,
{
}

/// A hub tells the speed of an enabled port, which is one whose bit 1 is set, by bit 9 for low, bit 10 for high
/// and neither for full speed.
pub proof fn hubs_tell_speed_by_bits(enabled: bool, low: bool, high: bool, status: u16)
    requires
        enabled <==> status / 2 % 2 == 1,
        low <==> status / 512 % 2 == 1,
        high <==> status / 1024 % 2 == 1,
    ensures
        !enabled ==> hub_speed_of(status) is None,
        enabled && low ==> hub_speed_of(status) == Some(2u8),
        enabled && !low && high ==> hub_speed_of(status) == Some(3u8),
        enabled && !low && !high ==> hub_speed_of(status) == Some(1u8),
{
}

/// A device behind a hub keeps the hub's root port and is routed by the hub's port; a full- or low-speed one
/// behind a high-speed hub names the hub and its port as its translator, and no other does.
pub proof fn devices_behind_hubs(hub: Device, port: u8, speed: u8, slot: u8, va: u64, phys: u64)
    ensures
        ({
            let d = behind_hub(hub, port, speed, slot, va, phys);
            let slow = (speed == 1 || speed == 2) && hub.speed == 3;
            &&& d.slot == slot && d.va == va && d.phys == phys && d.speed == speed
            &&& d.root_port == hub.root_port
            &&& d.route == port % 16
            &&& slow ==> d.tt_slot == hub.slot && d.tt_port == port
            &&& !slow ==> d.tt_slot == 0 && d.tt_port == 0
        }),
{
}

/// The dequeue pointer is the address without its low four bits, of which bit 3 is then set.
pub proof fn dequeue_pointers_clear_the_latch(iova: u64)
    ensures
        erdp_of(iova) / 16 == iova / 16,
        erdp_of(iova) % 16 == 8,
{
}

/// The number of scratchpads has its low five bits in bits 27 to 31 of the word, and its high five in bits 21
/// to 25.
pub proof fn scratchpad_counts_stand_apart(w: u32, lo: int, hi: int)
    requires
        lo == w as int / 0x800_0000,
        hi == w as int / 0x20_0000 % 0x20,
    ensures
        scratchpads_of(w) == 32 * hi + lo,
        0 <= scratchpads_of(w) < 1024,
{
}

} // verus!
