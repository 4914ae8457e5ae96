//! The `i2cdetect` program: it asks the bus driver for every address and prints which of them
//! answer.

use vstd::prelude::*;

use crate::abi::{handle_of, to_handle, Handle, NO_HANDLE};

verus! {

pub const STARTING: &'static str = "i2cdetect: starting up\n";

pub const BOOTSTRAP_FAILED: &'static str = "i2cdetect: bootstrap failed\n";

pub const CHANNEL_OK: &'static str = "i2cdetect: channel ok\n";

/// The line above the table.
pub const HEADING: &'static str = "     0  1  2  3  4  5  6  7  8  9  a  b  c  d  e  f\n";

/// The tag `I` of the message that brings the bus channel.
pub const CHANNEL_TAG: u8 = 0x49;

/// The first address that is probed.
pub const FIRST_ADDRESS: u8 = 0x03;

/// The last address that is probed.
pub const LAST_ADDRESS: u8 = 0x77;

/// Addresses per line.
pub const LINE_ADDRESSES: usize = 16;

/// Bytes of a line.
pub const LINE_LEN: usize = 53;

/// The bus channel in the start-up message: one byte, the right tag, and a handle with it.
pub open spec fn channel_in(received: usize, tag: u8, raw: u64) -> Option<Handle> {
    if received == 1 && tag == CHANNEL_TAG && raw != 0 {
        Some(handle_of(raw))
    } else {
        None
    }
}

/// Takes the bus channel out of the start-up message.
pub fn bus_channel(received: usize, tag: u8, raw: u64) -> (r: Option<Handle>)
    ensures
        r == channel_in(received, tag, raw),
{
    if received != 1 || tag != CHANNEL_TAG || raw == 0 {
        None
    } else {
        Some(to_handle(raw))
    }
}

/// The character of a digit below sixteen.
pub open spec fn hex_digit(v: int) -> u8 {
    if v < 10 {
        (0x30 + v) as u8
    } else {
        (0x61 + (v - 10)) as u8
    }
}

/// Computes [`hex_digit`].
pub fn hex_char(val: u8) -> (c: u8)
    requires
        val < 16,
    ensures
        c == hex_digit(val as int),
{
    if val < 10 {
        0x30 + val
    } else {
        0x61 + (val - 10)
    }
}

/// Whether an address is probed at all.
pub open spec fn is_probed(address: int) -> bool {
    FIRST_ADDRESS <= address <= LAST_ADDRESS
}

/// Computes [`is_probed`].
pub fn probed(address: u8) -> (r: bool)
    ensures
        r == is_probed(address as int),
{
    FIRST_ADDRESS <= address && address <= LAST_ADDRESS
}

/// The three columns of an address: blank where it is not probed, its number where something
/// answers, dashes where nothing does.
pub open spec fn cell(address: int, answers: bool) -> Seq<u8> {
    if !is_probed(address) {
        seq![0x20u8, 0x20u8, 0x20u8]
    } else if answers {
        seq![hex_digit(address / 16), hex_digit(address % 16), 0x20u8]
    } else {
        seq![0x2du8, 0x2du8, 0x20u8]
    }
}

/// The cells of the first `n` addresses from `base` on.
pub open spec fn cells(base: int, answers: Seq<bool>, n: int) -> Seq<u8>
    decreases n,
{
    if n <= 0 {
        Seq::empty()
    } else {
        cells(base, answers, n - 1) + cell(base + n - 1, answers[n - 1])
    }
}

/// The line for the sixteen addresses from `base` on.
pub open spec fn line_of(base: int, answers: Seq<bool>) -> Seq<u8> {
    seq![hex_digit(base / 16), hex_digit(base % 16), 0x3au8, 0x20u8] + cells(base, answers, 16)
        + seq![0x0au8]
}

/// Writes [`line_of`].
pub fn scan_line(base: u8, answers: &[bool]) -> (line: Vec<u8>)
    requires
        base < 128,
        base % 16 == 0,
        answers.len() == LINE_ADDRESSES,
    ensures
        line@ == line_of(base as int, answers@),
        line@.len() == LINE_LEN,
{
    let mut out: Vec<u8> = Vec::new();
    out.push(hex_char(base / 16));
    out.push(hex_char(base % 16));
    out.push(0x3a);
    out.push(0x20);
    let ghost head = out@;
    assert(head =~= seq![
        hex_digit(base as int / 16),
        hex_digit(base as int % 16),
        0x3au8,
        0x20u8,
    ]);
    let mut j: u8 = 0;
    while j < 16
        invariant
            j <= 16,
            base <= 112,
            answers@.len() == 16,
            out@ == head + cells(base as int, answers@, j as int),
            out@.len() == 4 + 3 * j,
            head.len() == 4,
        decreases 16 - j,
    {
        let address: u8 = base + j;
        let ghost before = out@;
        if !probed(address) {
            out.push(0x20);
            out.push(0x20);
            out.push(0x20);
        } else if answers[j as usize] {
            out.push(hex_char(address / 16));
            out.push(hex_char(address % 16));
            out.push(0x20);
        } else {
            out.push(0x2d);
            out.push(0x2d);
            out.push(0x20);
        }
        assert(out@ =~= before + cell(address as int, answers@[j as int]));
        j += 1;
        assert(out@ =~= head + cells(base as int, answers@, j as int));
    }
    out.push(0x0a);
    assert(out@ =~= line_of(base as int, answers@));
    out
}

/// A call that a probe makes.
#[derive(Clone, Copy, Debug, PartialEq, Eq, Structural)]
pub enum ProbeCall {
    CreatePort,
    CreatePair,
    Bind { port: Handle, channel: Handle },
    Koid { channel: Handle },
    /// Sends the request, and the far end of the answer channel with it.
    Send { reply: Handle },
    Wait { port: Handle },
    Receive { channel: Handle },
    Close { handle: Handle },
    /// Nothing is left to do: whether a device answered.
    Finished { present: bool },
}

/// Where a probe is.
#[derive(Clone, Copy, Debug, PartialEq, Eq, Structural)]
pub enum ProbePhase {
    Port,
    Pair,
    Bind,
    Koid,
    Send,
    Wait,
    /// The port is closed before the answer is read; `matched` says whether the wake-up came
    /// from the answer channel.
    ClosePort { matched: bool },
    Receive,
    /// Closes what is still open, then ends with `present`.
    CloseAll { present: bool },
    Done { present: bool },
}

/// What came back from a call. `raw` is its result; a pair and a read bring a second value.
#[derive(Clone, Copy, Debug, PartialEq, Eq, Structural)]
pub struct ProbeAnswer {
    pub raw: u64,
    pub other: u64,
    /// The status in the answer that was read.
    pub status: i32,
}

/// One probe of one address.
#[derive(Clone, Copy, Debug, PartialEq, Eq)]
pub struct Probe {
    pub phase: ProbePhase,
    pub port: Option<Handle>,
    pub local: Option<Handle>,
    pub remote: Option<Handle>,
    /// A handle that came with the answer.
    pub extra: Option<Handle>,
    pub koid: u64,
    /// The length of a well-formed answer.
    pub answer_len: u64,
}

impl Probe {
    /// The handle that is closed next when the probe cleans up.
    pub open spec fn open_handle(self) -> Option<Handle> {
        match self.port {
            Some(h) => Some(h),
            None => match self.local {
                Some(h) => Some(h),
                None => match self.remote {
                    Some(h) => Some(h),
                    None => self.extra,
                },
            },
        }
    }

    /// The probe without the handle that was closed.
    pub open spec fn closed_one(self) -> Probe {
        if self.port is Some {
            Probe { port: None, ..self }
        } else if self.local is Some {
            Probe { local: None, ..self }
        } else if self.remote is Some {
            Probe { remote: None, ..self }
        } else {
            Probe { extra: None, ..self }
        }
    }

    /// The phases have the handles that they work on.
    pub open spec fn wf(self) -> bool {
        match self.phase {
            ProbePhase::Port => self.open_handle() is None,
            ProbePhase::Pair => self.port is Some && self.local is None && self.remote is None
                && self.extra is None,
            ProbePhase::Bind | ProbePhase::Koid | ProbePhase::Send => self.port is Some
                && self.local is Some && self.remote is Some && self.extra is None,
            ProbePhase::Wait | ProbePhase::ClosePort { .. } => self.port is Some && self.local is Some
                && self.remote is None && self.extra is None,
            ProbePhase::Receive => self.port is None && self.local is Some && self.remote is None
                && self.extra is None,
            ProbePhase::CloseAll { .. } => self.open_handle() is Some,
            ProbePhase::Done { .. } => self.open_handle() is None,
        }
    }

    /// Ends the probe, after closing what is open.
    pub open spec fn ended(self, present: bool) -> Probe {
        Probe {
            phase: if self.open_handle() is Some {
                ProbePhase::CloseAll { present }
            } else {
                ProbePhase::Done { present }
            },
            ..self
        }
    }

    pub open spec fn call_of(self) -> ProbeCall {
        match self.phase {
            ProbePhase::Port => ProbeCall::CreatePort,
            ProbePhase::Pair => ProbeCall::CreatePair,
            ProbePhase::Bind => ProbeCall::Bind { port: self.port->0, channel: self.local->0 },
            ProbePhase::Koid => ProbeCall::Koid { channel: self.local->0 },
            ProbePhase::Send => ProbeCall::Send { reply: self.remote->0 },
            ProbePhase::Wait => ProbeCall::Wait { port: self.port->0 },
            ProbePhase::ClosePort { .. } => ProbeCall::Close { handle: self.port->0 },
            ProbePhase::Receive => ProbeCall::Receive { channel: self.local->0 },
            ProbePhase::CloseAll { .. } => ProbeCall::Close { handle: self.open_handle()->0 },
            ProbePhase::Done { present } => ProbeCall::Finished { present },
        }
    }

    /// The probe after its call came back with `a`.
    pub open spec fn after(self, a: ProbeAnswer) -> Probe {
        match self.phase {
            ProbePhase::Port => if a.raw == NO_HANDLE {
                self.ended(false)
            } else {
                Probe { phase: ProbePhase::Pair, port: Some(handle_of(a.raw)), ..self }
            },
            ProbePhase::Pair => {
                let got = Probe {
                    local: if a.raw == NO_HANDLE {
                        None
                    } else {
                        Some(handle_of(a.raw))
                    },
                    remote: if a.other == NO_HANDLE {
                        None
                    } else {
                        Some(handle_of(a.other))
                    },
                    ..self
                };
                if got.local is Some && got.remote is Some {
                    Probe { phase: ProbePhase::Bind, ..got }
                } else {
                    got.ended(false)
                }
            },
            ProbePhase::Bind => if a.raw != 0 {
                self.ended(false)
            } else {
                Probe { phase: ProbePhase::Koid, ..self }
            },
            ProbePhase::Koid => if a.raw == NO_HANDLE {
                self.ended(false)
            } else {
                Probe { phase: ProbePhase::Send, koid: a.raw, ..self }
            },
            ProbePhase::Send => if a.raw != 0 {
                self.ended(false)
            } else {
                Probe { phase: ProbePhase::Wait, remote: None, ..self }
            },
            ProbePhase::Wait => Probe {
                phase: ProbePhase::ClosePort { matched: a.raw == self.koid },
                ..self
            },
            ProbePhase::ClosePort { matched } => {
                let closed = Probe { port: None, ..self };
                if matched {
                    Probe { phase: ProbePhase::Receive, ..closed }
                } else {
                    closed.ended(false)
                }
            },
            ProbePhase::Receive => {
                let got = Probe {
                    extra: if a.other == 0 {
                        None
                    } else {
                        Some(handle_of(a.other))
                    },
                    ..self
                };
                got.ended(a.raw == self.answer_len && a.status == 0)
            },
            ProbePhase::CloseAll { present } => self.closed_one().ended(present),
            ProbePhase::Done { .. } => self,
        }
    }

    /// A probe that has not begun.
    pub fn new(answer_len: u64) -> (p: Probe)
        ensures
            p.wf(),
            p == (Probe {
                phase: ProbePhase::Port,
                port: None,
                local: None,
                remote: None,
                extra: None,
                koid: 0,
                answer_len,
            }),
    {
        Probe {
            phase: ProbePhase::Port,
            port: None,
            local: None,
            remote: None,
            extra: None,
            koid: 0,
            answer_len,
        }
    }

    fn first_open(&self) -> (h: Option<Handle>)
        ensures
            h == self.open_handle(),
    {
        if self.port.is_some() {
            self.port
        } else if self.local.is_some() {
            self.local
        } else if self.remote.is_some() {
            self.remote
        } else {
            self.extra
        }
    }

    /// The call to make now.
    pub fn call(&self) -> (c: ProbeCall)
        requires
            self.wf(),
        ensures
            c == self.call_of(),
    {
        match self.phase {
            ProbePhase::Port => ProbeCall::CreatePort,
            ProbePhase::Pair => ProbeCall::CreatePair,
            ProbePhase::Bind => ProbeCall::Bind {
                port: self.port.unwrap(),
                channel: self.local.unwrap(),
            },
            ProbePhase::Koid => ProbeCall::Koid { channel: self.local.unwrap() },
            ProbePhase::Send => ProbeCall::Send { reply: self.remote.unwrap() },
            ProbePhase::Wait => ProbeCall::Wait { port: self.port.unwrap() },
            ProbePhase::ClosePort { .. } => ProbeCall::Close { handle: self.port.unwrap() },
            ProbePhase::Receive => ProbeCall::Receive { channel: self.local.unwrap() },
            ProbePhase::CloseAll { .. } => ProbeCall::Close {
                handle: self.first_open().unwrap(),
            },
            ProbePhase::Done { present } => ProbeCall::Finished { present },
        }
    }

    fn end(&mut self, present: bool)
        ensures
            *final(self) == old(self).ended(present),
    {
        if self.first_open().is_some() {
            self.phase = ProbePhase::CloseAll { present };
        } else {
            self.phase = ProbePhase::Done { present };
        }
    }

    /// Takes in what the call came back with.
    pub fn advance(&mut self, a: ProbeAnswer)
        requires
            old(self).wf(),
        ensures
            *final(self) == old(self).after(a),
            final(self).wf(),
    {
        match self.phase {
            ProbePhase::Port => {
                if a.raw == NO_HANDLE {
                    self.end(false);
                } else {
                    self.port = Some(to_handle(a.raw));
                    self.phase = ProbePhase::Pair;
                }
            },
            ProbePhase::Pair => {
                if a.raw != NO_HANDLE {
                    self.local = Some(to_handle(a.raw));
                }
                if a.other != NO_HANDLE {
                    self.remote = Some(to_handle(a.other));
                }
                if a.raw != NO_HANDLE && a.other != NO_HANDLE {
                    self.phase = ProbePhase::Bind;
                } else {
                    self.end(false);
                }
            },
            ProbePhase::Bind => {
                if a.raw != 0 {
                    self.end(false);
                } else {
                    self.phase = ProbePhase::Koid;
                }
            },
            ProbePhase::Koid => {
                if a.raw == NO_HANDLE {
                    self.end(false);
                } else {
                    self.koid = a.raw;
                    self.phase = ProbePhase::Send;
                }
            },
            ProbePhase::Send => {
                if a.raw != 0 {
                    self.end(false);
                } else {
                    self.remote = None;
                    self.phase = ProbePhase::Wait;
                }
            },
            ProbePhase::Wait => {
                self.phase = ProbePhase::ClosePort { matched: a.raw == self.koid };
            },
            ProbePhase::ClosePort { matched } => {
                self.port = None;
                if matched {
                    self.phase = ProbePhase::Receive;
                } else {
                    self.end(false);
                }
            },
            ProbePhase::Receive => {
                if a.other != 0 {
                    self.extra = Some(to_handle(a.other));
                }
                self.end(a.raw == self.answer_len && a.status == 0);
            },
            ProbePhase::CloseAll { present } => {
                if self.port.is_some() {
                    self.port = None;
                } else if self.local.is_some() {
                    self.local = None;
                } else if self.remote.is_some() {
                    self.remote = None;
                } else {
                    self.extra = None;
                }
                self.end(present);
            },
            ProbePhase::Done { .. } => {},
        }
    }

    /// How many calls are left at most.
    pub open spec fn calls_left(self) -> int {
        let open = (if self.port is Some {
            1int
        } else {
            0
        }) + (if self.local is Some {
            1int
        } else {
            0
        }) + (if self.remote is Some {
            1int
        } else {
            0
        }) + (if self.extra is Some {
            1int
        } else {
            0
        });
        match self.phase {
            ProbePhase::Port => 20,
            ProbePhase::Pair => 19,
            ProbePhase::Bind => 18,
            ProbePhase::Koid => 17,
            ProbePhase::Send => 16,
            ProbePhase::Wait => 15,
            ProbePhase::ClosePort { .. } => 14,
            ProbePhase::Receive => 13,
            ProbePhase::CloseAll { .. } => open,
            ProbePhase::Done { .. } => 0,
        }
    }
}

/// A probe comes to an end, whatever its calls return, and then no handle that it was given is
/// still open.
pub proof fn probes_end_with_nothing_open(p: Probe, a: ProbeAnswer)
    requires
        p.wf(),
    ensures
        p.after(a).wf(),
        p.phase is Done ==> p.open_handle() is None,
        p.phase !is Done ==> 0 <= p.after(a).calls_left() < p.calls_left(),
{
}

/// A device is reported only for an answer of the right length with a good status, on the
/// channel that the answer was awaited on.
pub proof fn only_good_answers_count(p: Probe, a: ProbeAnswer)
    requires
        p.wf(),
        p.phase !is CloseAll,
        p.phase !is Done,
        p.after(a).phase == (ProbePhase::CloseAll { present: true }) || p.after(a).phase == (
        ProbePhase::Done { present: true }),
    ensures
        p.phase is Receive,
        a.raw == p.answer_len,
        a.status == 0,
{
}

/// The bus channel comes with a message of one byte, which is `I`, and a handle.
pub proof fn channels_come_with_their_letter(received: usize, tag: u8, raw: u64)
    ensures
        received == 1 && tag == 0x49 && raw != 0 ==> channel_in(received, tag, raw) == Some(
            Handle(raw as u32),
        ),
        received != 1 || tag != 0x49 || raw == 0 ==> channel_in(received, tag, raw) is None,
{
}

/// The addresses from 3 to 0x77 are probed; each takes three columns, and shows its two digits where something
/// answers and two dashes where nothing does.
pub proof fn cells_show_what_answers(address: int)
    requires
        0 <= address < 128,
    ensures
        3 <= address <= 0x77 ==> {
            let high = address / 16;
            let low = address % 16;
            &&& cell(address, true).len() == 3
            &&& cell(address, true)[0] == 0x30 + high
            &&& low < 10 ==> cell(address, true)[1] == 0x30 + low
            &&& low >= 10 ==> cell(address, true)[1] == 0x61 + (low - 10)
            &&& cell(address, true)[2] == 0x20
            &&& cell(address, false) == seq![0x2du8, 0x2du8, 0x20u8]
        },
        address < 3 || address > 0x77 ==> cell(address, true) == seq![0x20u8, 0x20u8, 0x20u8] && cell(
            address,
            false,
        ) == seq![0x20u8, 0x20u8, 0x20u8],
{
}

proof fn lemma_cells(base: int, answers: Seq<bool>, n: int, k: int, j: int)
    requires
        0 <= k < n <= 16,
        0 <= j < 3,
    ensures
        cells(base, answers, n).len() == 3 * n,
        cells(base, answers, n)[3 * k + j] == cell(base + k, answers[k])[j],
    decreases n,
{
    if n > 1 {
        let at = if k < n - 1 {
            k
        } else {
            0
        };
        lemma_cells(base, answers, n - 1, at, j);
    } else {
        assert(cells(base, answers, 0) == Seq::<u8>::empty());
    }
}

/// A line is the base in two digits, a colon and a blank, the cells of its sixteen addresses in their order,
/// and a newline.
pub proof fn lines_hold_sixteen_cells(base: int, answers: Seq<bool>, k: int, j: int)
    requires
        0 <= base < 128,
        base % 16 == 0,
        answers.len() == 16,
        0 <= k < 16,
        0 <= j < 3,
    ensures
        ({
            let line = line_of(base, answers);
            &&& line.len() == 53
            &&& line[0] == 0x30 + base / 16
            &&& line[1] == 0x30
            &&& line[2] == 0x3a && line[3] == 0x20
            &&& line[4 + 3 * k + j] == cell(base + k, answers[k])[j]
            &&& line[52] == 0x0a
        }),
{
    lemma_cells(base, answers, 16, k, j);
}

/// A probe's calls in their order: a port, a channel pair whose near end is bound to it, the far end sent with the
/// request, a wait, and, where the wake-up came from the near end, a read of it. A device is there where the
/// answer has the right length and the status zero.
#[verifier::rlimit(40)]
pub proof fn probes_ask_and_wait(
    p: Probe,
    port: u64,
    near: u64,
    far: u64,
    koid: u64,
    x: ProbeAnswer,
    reply: ProbeAnswer,
)
    requires
        p.wf(),
        p.phase is Port,
        port != u64::MAX && near != u64::MAX && far != u64::MAX && koid != u64::MAX,
    ensures
        ({
            let raw = |r: u64| ProbeAnswer { raw: r, other: 0, status: 0 };
            let p1 = p.after(raw(port));
            let p2 = p1.after(ProbeAnswer { raw: near, other: far, status: 0 });
            let p3 = p2.after(raw(0));
            let p4 = p3.after(raw(koid));
            let p5 = p4.after(raw(0));
            let p6 = p5.after(raw(koid));
            let p7 = p6.after(x);
            let h = Handle(port as u32);
            let n = Handle(near as u32);
            &&& p.call_of() == ProbeCall::CreatePort
            &&& p1.call_of() == ProbeCall::CreatePair
            &&& p2.call_of() == (ProbeCall::Bind { port: h, channel: n })
            &&& p3.call_of() == (ProbeCall::Koid { channel: n })
            &&& p4.call_of() == (ProbeCall::Send { reply: Handle(far as u32) })
            &&& p5.call_of() == (ProbeCall::Wait { port: h })
            &&& p6.call_of() == (ProbeCall::Close { handle: h })
            &&& p7.call_of() == (ProbeCall::Receive { channel: n })
            &&& p7.after(reply).phase == (ProbePhase::CloseAll {
                present: reply.raw == p.answer_len && reply.status == 0,
            })
        }),
{
}

/// A step of a probe that fails ends it without a device, and so does a wake-up by another object.
pub proof fn probes_that_fail_find_nothing(p: Probe, a: ProbeAnswer)
    requires
        p.wf(),
    ensures
        ({
            let e = p.after(a).phase;
            let over = e == (ProbePhase::CloseAll { present: false }) || e == (ProbePhase::Done {
                present: false,
            });
            &&& p.phase is Port && a.raw == u64::MAX ==> over
            &&& p.phase is Pair && (a.raw == u64::MAX || a.other == u64::MAX) ==> over
            &&& (p.phase is Bind || p.phase is Send) && a.raw != 0 ==> over
            &&& p.phase is Koid && a.raw == u64::MAX ==> over
            &&& p.phase is Wait && a.raw != p.koid ==> e == (ProbePhase::ClosePort { matched: false })
            &&& p.phase == (ProbePhase::ClosePort { matched: false }) ==> over
        }),
{
}

} // verus!
