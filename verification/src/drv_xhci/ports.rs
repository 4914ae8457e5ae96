//! The scan for the first port with a usable device.

use vstd::prelude::*;

use crate::drv_xhci::words::bit;

verus! {

/// How often the ports are looked at before the search is given up.
pub const PORT_POLL_LIMIT: u32 = 4_000_000;

/// Ports whose resets are kept track of.
pub const MAX_LOGGED_PORTS: usize = 16;

/// What a port's register says.
#[derive(Clone, Copy, Debug, PartialEq, Eq, Structural)]
pub struct PortState {
    pub raw: u32,
    pub connected: bool,
    pub enabled: bool,
    pub speed: u8,
}

/// What to do about a port.
#[derive(Clone, Copy, Debug, PartialEq, Eq, Structural)]
pub enum PortAction {
    /// The port holds a usable device.
    Found { port: u8, speed: u8 },
    /// The port is to be reset by writing this value.
    Reset { value: u32 },
    Nothing,
}

/// The bits of a port's register that are cleared by writing them: its enable
/// bit and its change bits.
pub const WRITE_TO_CLEAR: u32 = 0x00fe_0002;

/// The bit that resets a port.
pub const PORT_RESET: u32 = 0x10;

/// The word that resets a port and clears nothing.
pub open spec fn reset_word(raw: u32) -> u32 {
    (raw & !0x00fe_0002u32) | 0x10u32
}

/// A port's reset touches none of the bits that writing clears, sets the reset
/// bit, and leaves every other bit as it was.
pub proof fn reset_clears_nothing(raw: u32)
    ensures
        reset_word(raw) & WRITE_TO_CLEAR == 0,
        bit(reset_word(raw), 4),
        reset_word(raw) & !(WRITE_TO_CLEAR | PORT_RESET) == raw & !(WRITE_TO_CLEAR | PORT_RESET),
{
    let w = reset_word(raw);
    assert(w & 0x00fe_0002u32 == 0 && w & (1u32 << 4u32) != 0 && w & !(0x00fe_0002u32 | 0x10u32)
        == raw & !(0x00fe_0002u32 | 0x10u32)) by (bit_vector)
        requires
            w == (raw & !0x00fe_0002u32) | 0x10u32,
    ;
}

/// A scan in progress: the ports that have been reset.
#[derive(Clone, Copy, Debug, PartialEq, Eq)]
pub struct PortScan {
    reset_issued: [bool; 16],
}

/// What a look at a port leads to. A connected port that is not enabled is
/// reset, once; ports past the sixteenth are never reset.
pub open spec fn action_of(resets: Seq<bool>, port: u8, s: PortState) -> PortAction {
    if !s.connected {
        PortAction::Nothing
    } else if s.enabled {
        PortAction::Found { port: (port + 1) as u8, speed: s.speed }
    } else if port < 16 && !resets[port as int] {
        PortAction::Reset { value: reset_word(s.raw) }
    } else {
        PortAction::Nothing
    }
}

/// The resets issued after a look at a port.
pub open spec fn resets_after(resets: Seq<bool>, port: u8, s: PortState) -> Seq<bool> {
    if action_of(resets, port, s) is Reset {
        resets.update(port as int, true)
    } else {
        resets
    }
}

impl View for PortScan {
    type V = Seq<bool>;

    closed spec fn view(&self) -> Seq<bool> {
        self.reset_issued@
    }
}

impl PortScan {
    /// Every scan keeps track of sixteen ports.
    pub proof fn lemma_len(self)
        ensures
            self@.len() == 16,
    {
    }

    pub fn new() -> (p: PortScan)
        ensures
            p@ == Seq::new(16, |i: int| false),
    {
        let reset_issued = [false; MAX_LOGGED_PORTS];
        assert(reset_issued@ =~= Seq::new(16, |i: int| false));
        PortScan { reset_issued }
    }

    /// Takes a look at port `port`, counted from zero.
    pub fn look(&mut self, port: u8, s: PortState) -> (a: PortAction)
        requires
            port < 255,
        ensures
            a == action_of(old(self)@, port, s),
            final(self)@ == resets_after(old(self)@, port, s),
    {
        if !s.connected {
            PortAction::Nothing
        } else if s.enabled {
            PortAction::Found { port: port + 1, speed: s.speed }
        } else if (port as usize) < MAX_LOGGED_PORTS && !self.reset_issued[port as usize] {
            self.reset_issued[port as usize] = true;
            PortAction::Reset { value: (s.raw & !WRITE_TO_CLEAR) | PORT_RESET }
        } else {
            PortAction::Nothing
        }
    }
}

/// The rounds of a search that are left. Every round looks at all ports.
#[derive(Clone, Copy, Debug, PartialEq, Eq, Structural)]
pub struct PortRounds {
    pub left: u32,
}

impl PortRounds {
    pub fn new() -> (r: PortRounds)
        ensures
            r.left == PORT_POLL_LIMIT,
    {
        PortRounds { left: PORT_POLL_LIMIT }
    }

    /// Begins another round, unless the search is to be given up.
    pub fn next(&mut self) -> (r: bool)
        ensures
            r == (old(self).left > 0),
            final(self).left == (if r {
                old(self).left - 1
            } else {
                0
            }),
    {
        if self.left == 0 {
            return false;
        }
        self.left = self.left - 1;
        true
    }
}

/// The resets issued after a series of looks.
pub open spec fn resets_after_all(resets: Seq<bool>, looks: Seq<(u8, PortState)>) -> Seq<bool>
    decreases looks.len(),
{
    if looks.len() == 0 {
        resets
    } else {
        resets_after(
            resets_after_all(resets, looks.drop_last()),
            looks.last().0,
            looks.last().1,
        )
    }
}

/// A port that was reset is not reset again, however often it is looked at.
pub proof fn ports_are_reset_once(
    scan: PortScan,
    looks: Seq<(u8, PortState)>,
    port: u8,
    s: PortState,
)
    requires
        port < 16,
        scan@[port as int],
    ensures
        resets_after_all(scan@, looks).len() == 16,
        resets_after_all(scan@, looks)[port as int],
        !(action_of(resets_after_all(scan@, looks), port, s) is Reset),
    decreases looks.len(),
{
    scan.lemma_len();
    if looks.len() > 0 {
        ports_are_reset_once(scan, looks.drop_last(), port, s);
    }
}

/// What a look at a port leads to: nothing where nothing is connected; the port's number, counted from one, and
/// its speed where it is enabled; and otherwise a reset, of each of the first sixteen ports just once.
pub proof fn looks_find_or_reset(resets: Seq<bool>, port: u8, s: PortState)
    requires
        resets.len() == 16,
        port < 255,
    ensures
        !s.connected ==> action_of(resets, port, s) == PortAction::Nothing && resets_after(
            resets,
            port,
            s,
        ) == resets,
        s.connected && s.enabled ==> action_of(resets, port, s) == (PortAction::Found {
            port: (port + 1) as u8,
            speed: s.speed,
        }) && resets_after(resets, port, s) == resets,
        s.connected && !s.enabled && (port >= 16 || resets[port as int]) ==> action_of(
            resets,
            port,
            s,
        ) == PortAction::Nothing && resets_after(resets, port, s) == resets,
        s.connected && !s.enabled && port < 16 && !resets[port as int] ==> action_of(
            resets,
            port,
            s,
        ) == (PortAction::Reset { value: reset_word(s.raw) }) && resets_after(resets, port, s)
            == resets.update(port as int, true),
{
}

} // verus!
