//! Starting the framebuffer driver: nothing is claimed before it is known that
//! the framebuffer can be written.

use vstd::prelude::*;

use crate::abi::{handle_of, to_handle, Handle};
use crate::bytes;
use crate::numerals;
use crate::sora::sequence::t;
use crate::text;

verus! {

pub const BOOTINFO_VA: u64 = 0x1000_0000;

pub const FB_VA: u64 = 0x1100_0000;

/// What the console shows first.
pub const READY_TEXT: &'static str = "KUMO drv-fb console ready\n";

/// A framebuffer's place and shape.
#[derive(Clone, Copy, Debug, PartialEq, Eq, Structural)]
pub struct Geometry {
    pub phys: u64,
    pub len: u64,
    pub width: u32,
    pub height: u32,
    pub stride: u32,
}

/// Where startup stands.
#[derive(Clone, Copy, Debug, PartialEq, Eq, Structural)]
pub enum FbPhase {
    Handles,
    MapInfo,
    ReadInfo,
    Mint,
    MapFb { vmo: Handle },
    /// Both ends of the framebuffer are written.
    Probe,
    CreatePort,
    Koid { created: u64 },
    Bind { port: Handle, koid: Handle },
    Claim,
    Ready,
    Exit,
}

/// What startup waits for.
#[derive(Clone, Copy, Debug, PartialEq, Eq, Structural)]
pub enum FbCall {
    ReadHandles,
    MapInfo { vmo: Handle, va: u64, len: u64 },
    ReadInfo { va: u64 },
    Mint { resource: Handle, base: u64, len: u64 },
    MapFb { vmo: Handle, va: u64, len: u64 },
    /// Writes the first pixel and the one with this number.
    Probe { va: u64, last: u64 },
    CreatePort,
    Koid { handle: Handle },
    Bind { port: Handle, handle: Handle },
    Claim { resource: Handle, base: u64, len: u64 },
    Serve,
    Exit,
}

/// What came back.
#[derive(Clone, Copy, Debug, PartialEq, Eq, Structural)]
pub enum FbEvent {
    /// The resource, the console's channel and the boot information.
    Handles(u64, u64, u64),
    Returned(u64),
    Screen(Option<Geometry>),
}

/// A number behind a label, and the end of the line.
pub open spec fn kv_text(label: &str, v: u64) -> Seq<u8> {
    t(label) + numerals::decimal(v as nat) + t("\n")
}

/// Appends a number behind a label, and the end of the line.
pub fn push_kv(out: &mut Vec<u8>, label: &str, v: u64)
    ensures
        final(out)@ == old(out)@ + kv_text(label, v),
{
    let mut line: Vec<u8> = text::to_bytes(label);
    numerals::push_decimal(&mut line, v);
    text::append_text(&mut line, "\n");
    bytes::append(out, &line);
}

/// What the log says of a framebuffer.
pub open spec fn geometry_text(g: Geometry) -> Seq<u8> {
    kv_text("drv-fb fb.width=", g.width as u64) + kv_text("drv-fb fb.height=", g.height as u64)
        + kv_text("drv-fb fb.stride=", g.stride as u64) + kv_text("drv-fb fb.len=", g.len)
}

fn push_geometry(out: &mut Vec<u8>, g: Geometry)
    ensures
        final(out)@ == old(out)@ + geometry_text(g),
{
    push_kv(out, "drv-fb fb.width=", g.width as u64);
    push_kv(out, "drv-fb fb.height=", g.height as u64);
    push_kv(out, "drv-fb fb.stride=", g.stride as u64);
    push_kv(out, "drv-fb fb.len=", g.len);
    assert(out@ =~= old(out)@ + geometry_text(g));
}

/// The last pixel of a framebuffer.
pub open spec fn last_pixel_of(g: Geometry) -> u64 {
    if g.stride * g.height == 0 {
        0
    } else {
        (g.stride * g.height - 1) as u64
    }
}

pub fn last_pixel(g: Geometry) -> (n: u64)
    ensures
        n == last_pixel_of(g),
{
    proof {
        assert(g.stride * g.height <= 0xffff_ffff * 0xffff_ffff) by (nonlinear_arith)
            requires
                g.stride <= 0xffff_ffff,
                g.height <= 0xffff_ffff,
        ;
        assert(0 <= g.stride * g.height) by (nonlinear_arith)
            requires
                g.stride >= 0,
                g.height >= 0,
        ;
    }
    let all: u64 = g.stride as u64 * g.height as u64;
    if all == 0 {
        0
    } else {
        all - 1
    }
}

/// Startup in progress.
#[derive(Clone, Copy, Debug, PartialEq, Eq, Structural)]
pub struct FbStart {
    pub phase: FbPhase,
    pub resource: Handle,
    pub console: Handle,
    pub bootinfo: Handle,
    pub screen: Geometry,
    /// The port, and the object that it tells of.
    pub port: Handle,
    pub source: Handle,
}

impl FbStart {
    pub fn new() -> (s: FbStart)
        ensures
            s == (FbStart {
                phase: FbPhase::Handles,
                resource: Handle(0),
                console: Handle(0),
                bootinfo: Handle(0),
                screen: Geometry { phys: 0, len: 0, width: 0, height: 0, stride: 0 },
                port: Handle(0),
                source: Handle(0),
            }),
    {
        FbStart {
            phase: FbPhase::Handles,
            resource: Handle(0),
            console: Handle(0),
            bootinfo: Handle(0),
            screen: Geometry { phys: 0, len: 0, width: 0, height: 0, stride: 0 },
            port: Handle(0),
            source: Handle(0),
        }
    }

    /// What startup waits for.
    pub open spec fn call_of(self) -> FbCall {
        match self.phase {
            FbPhase::Handles => FbCall::ReadHandles,
            FbPhase::MapInfo => FbCall::MapInfo { vmo: self.bootinfo, va: BOOTINFO_VA, len: 4096 },
            FbPhase::ReadInfo => FbCall::ReadInfo { va: BOOTINFO_VA },
            FbPhase::Mint => FbCall::Mint {
                resource: self.resource,
                base: self.screen.phys,
                len: self.screen.len,
            },
            FbPhase::MapFb { vmo } => FbCall::MapFb { vmo, va: FB_VA, len: self.screen.len },
            FbPhase::Probe => FbCall::Probe { va: FB_VA, last: last_pixel_of(self.screen) },
            FbPhase::CreatePort => FbCall::CreatePort,
            FbPhase::Koid { .. } => FbCall::Koid { handle: self.console },
            FbPhase::Bind { port, .. } => FbCall::Bind { port, handle: self.console },
            FbPhase::Claim => FbCall::Claim {
                resource: self.resource,
                base: self.screen.phys,
                len: self.screen.len,
            },
            FbPhase::Ready => FbCall::Serve,
            FbPhase::Exit => FbCall::Exit,
        }
    }

    /// The state after an event, and what the log says. An event that does not
    /// answer the call changes nothing.
    pub open spec fn after(self, e: FbEvent) -> (FbStart, Seq<u8>) {
        match (self.phase, e) {
            (FbPhase::Handles, FbEvent::Handles(a, b, c)) => if a == 0 || b == 0 || c == 0 {
                (FbStart { phase: FbPhase::Exit, ..self }, t("drv-fb: missing handles\n"))
            } else {
                (
                    FbStart {
                        resource: handle_of(a),
                        console: handle_of(b),
                        bootinfo: handle_of(c),
                        phase: FbPhase::MapInfo,
                        ..self
                    },
                    Seq::empty(),
                )
            },
            (FbPhase::MapInfo, FbEvent::Returned(a)) => if a != 0 {
                (FbStart { phase: FbPhase::Exit, ..self }, t("drv-fb: bootinfo map failed\n"))
            } else {
                (FbStart { phase: FbPhase::ReadInfo, ..self }, Seq::empty())
            },
            (FbPhase::ReadInfo, FbEvent::Screen(None)) => {
                (FbStart { phase: FbPhase::Exit, ..self }, t("drv-fb: no fb in bootinfo\n"))
            },
            (FbPhase::ReadInfo, FbEvent::Screen(Some(screen))) => {
                (FbStart { screen: screen, phase: FbPhase::Mint, ..self }, geometry_text(screen))
            },
            (FbPhase::Mint, FbEvent::Returned(a)) => if a == u64::MAX {
                (FbStart { phase: FbPhase::Exit, ..self }, t("drv-fb: fb vmo mint failed\n"))
            } else {
                (FbStart { phase: FbPhase::MapFb { vmo: handle_of(a) }, ..self }, Seq::empty())
            },
            (FbPhase::MapFb { .. }, FbEvent::Returned(a)) => if a != 0 {
                (FbStart { phase: FbPhase::Exit, ..self }, t("drv-fb: fb map failed\n"))
            } else {
                (FbStart { phase: FbPhase::Probe, ..self }, t("drv-fb: probing fb write\n"))
            },
            (FbPhase::Probe, FbEvent::Returned(_)) => {
                (FbStart { phase: FbPhase::CreatePort, ..self }, t("drv-fb: fb probe ok\n"))
            },
            (FbPhase::CreatePort, FbEvent::Returned(a)) => {
                (FbStart { phase: FbPhase::Koid { created: a }, ..self }, Seq::empty())
            },
            (FbPhase::Koid { created }, FbEvent::Returned(a)) => if created == u64::MAX || a == u64::MAX {
                (FbStart { phase: FbPhase::Exit, ..self }, t("drv-fb: port setup failed\n"))
            } else {
                (
                    FbStart {
                        phase: FbPhase::Bind { port: handle_of(created), koid: handle_of(a) },
                        ..self
                    },
                    Seq::empty(),
                )
            },
            (FbPhase::Bind { port, koid }, FbEvent::Returned(a)) => if a != 0 {
                (FbStart { phase: FbPhase::Exit, ..self }, t("drv-fb: port setup failed\n"))
            } else {
                (FbStart { port: port, source: koid, phase: FbPhase::Claim, ..self }, Seq::empty())
            },
            (FbPhase::Claim, FbEvent::Returned(a)) => if a != 0 {
                (FbStart { phase: FbPhase::Exit, ..self }, t("drv-fb: framebuffer claim failed\n"))
            } else {
                (
                    FbStart { phase: FbPhase::Ready, ..self },
                    t("drv-fb: initialized\n") + t("drv-fb: console ready\n"),
                )
            },
            _ => (self, Seq::empty()),
        }
    }

    /// What to do next.
    pub fn call(&self) -> (c: FbCall)
        ensures
            c == self.call_of(),
    {
        match self.phase {
            FbPhase::Handles => FbCall::ReadHandles,
            FbPhase::MapInfo => FbCall::MapInfo { vmo: self.bootinfo, va: BOOTINFO_VA, len: 4096 },
            FbPhase::ReadInfo => FbCall::ReadInfo { va: BOOTINFO_VA },
            FbPhase::Mint => FbCall::Mint {
                resource: self.resource,
                base: self.screen.phys,
                len: self.screen.len,
            },
            FbPhase::MapFb { vmo } => FbCall::MapFb { vmo, va: FB_VA, len: self.screen.len },
            FbPhase::Probe => FbCall::Probe { va: FB_VA, last: last_pixel(self.screen) },
            FbPhase::CreatePort => FbCall::CreatePort,
            FbPhase::Koid { .. } => FbCall::Koid { handle: self.console },
            FbPhase::Bind { port, .. } => FbCall::Bind { port, handle: self.console },
            FbPhase::Claim => FbCall::Claim {
                resource: self.resource,
                base: self.screen.phys,
                len: self.screen.len,
            },
            FbPhase::Ready => FbCall::Serve,
            FbPhase::Exit => FbCall::Exit,
        }
    }

    /// Takes what came back and returns what to log.
    pub fn advance(&mut self, e: FbEvent) -> (out: Vec<u8>)
        ensures
            (*final(self), out@) == old(self).after(e),
    {
        let mut out: Vec<u8> = Vec::new();
        match (self.phase, e) {
            (FbPhase::Handles, FbEvent::Handles(a, b, c)) => {
                if a == 0 || b == 0 || c == 0 {
                    text::append_text(&mut out, "drv-fb: missing handles\n");
                    self.phase = FbPhase::Exit;
                } else {
                    self.resource = to_handle(a);
                    self.console = to_handle(b);
                    self.bootinfo = to_handle(c);
                    self.phase = FbPhase::MapInfo;
                }
            },
            (FbPhase::MapInfo, FbEvent::Returned(a)) => {
                if a != 0 {
                    text::append_text(&mut out, "drv-fb: bootinfo map failed\n");
                    self.phase = FbPhase::Exit;
                } else {
                    self.phase = FbPhase::ReadInfo;
                }
            },
            (FbPhase::ReadInfo, FbEvent::Screen(None)) => {
                text::append_text(&mut out, "drv-fb: no fb in bootinfo\n");
                self.phase = FbPhase::Exit;
            },
            (FbPhase::ReadInfo, FbEvent::Screen(Some(screen))) => {
                push_geometry(&mut out, screen);
                self.screen = screen;
                self.phase = FbPhase::Mint;
            },
            (FbPhase::Mint, FbEvent::Returned(a)) => {
                if a == u64::MAX {
                    text::append_text(&mut out, "drv-fb: fb vmo mint failed\n");
                    self.phase = FbPhase::Exit;
                } else {
                    self.phase = FbPhase::MapFb { vmo: to_handle(a) };
                }
            },
            (FbPhase::MapFb { .. }, FbEvent::Returned(a)) => {
                if a != 0 {
                    text::append_text(&mut out, "drv-fb: fb map failed\n");
                    self.phase = FbPhase::Exit;
                } else {
                    text::append_text(&mut out, "drv-fb: probing fb write\n");
                    self.phase = FbPhase::Probe;
                }
            },
            (FbPhase::Probe, FbEvent::Returned(_)) => {
                text::append_text(&mut out, "drv-fb: fb probe ok\n");
                self.phase = FbPhase::CreatePort;
            },
            (FbPhase::CreatePort, FbEvent::Returned(a)) => {
                self.phase = FbPhase::Koid { created: a };
            },
            (FbPhase::Koid { created }, FbEvent::Returned(a)) => {
                if created == u64::MAX || a == u64::MAX {
                    text::append_text(&mut out, "drv-fb: port setup failed\n");
                    self.phase = FbPhase::Exit;
                } else {
                    self.phase = FbPhase::Bind { port: to_handle(created), koid: to_handle(a) };
                }
            },
            (FbPhase::Bind { port, koid }, FbEvent::Returned(a)) => {
                if a != 0 {
                    text::append_text(&mut out, "drv-fb: port setup failed\n");
                    self.phase = FbPhase::Exit;
                } else {
                    self.port = port;
                    self.source = koid;
                    self.phase = FbPhase::Claim;
                }
            },
            (FbPhase::Claim, FbEvent::Returned(a)) => {
                if a != 0 {
                    text::append_text(&mut out, "drv-fb: framebuffer claim failed\n");
                    self.phase = FbPhase::Exit;
                } else {
                    text::append_text(&mut out, "drv-fb: initialized\n");
                    text::append_text(&mut out, "drv-fb: console ready\n");
                    self.phase = FbPhase::Ready;
                }
            },
            _ => {},
        }
        assert(out@ =~= old(self).after(e).1);
        out
    }
}

/// How many steps are left at most.
pub open spec fn steps_left(p: FbPhase) -> nat {
    match p {
        FbPhase::Handles => 11,
        FbPhase::MapInfo => 10,
        FbPhase::ReadInfo => 9,
        FbPhase::Mint => 8,
        FbPhase::MapFb { .. } => 7,
        FbPhase::Probe => 6,
        FbPhase::CreatePort => 5,
        FbPhase::Koid { .. } => 4,
        FbPhase::Bind { .. } => 3,
        FbPhase::Claim => 2,
        FbPhase::Ready => 1,
        FbPhase::Exit => 0,
    }
}

/// Startup never goes back, and the framebuffer is claimed only after it was
/// mapped, written and the console's port bound.
pub proof fn claim_comes_last(s: FbStart, e: FbEvent)
    ensures
        s.after(e) == (s, Seq::<u8>::empty()) || steps_left(s.after(e).0.phase) < steps_left(
            s.phase,
        ),
        s.after(e).0.phase is Claim && !(s.phase is Claim) ==> s.phase is Bind && e
            == FbEvent::Returned(0),
        s.after(e).0.phase is CreatePort && !(s.phase is CreatePort) ==> s.phase is Probe,
        s.after(e).0.phase is Ready && !(s.phase is Ready) ==> s.phase is Claim && e
            == FbEvent::Returned(0),
{
}

/// How the driver comes up: it maps the boot information at 0x1000_0000, takes the screen out of it, mints and maps
/// the screen's memory at 0x1100_0000, writes its first and last pixel, binds the console to a port, and only then
/// claims the framebuffer.
#[verifier::rlimit(40)]
pub proof fn drivers_come_up_step_by_step(
    s: FbStart,
    a: u64,
    b: u64,
    c: u64,
    g: Geometry,
    vmo: u64,
    port: u64,
    koid: u64,
    x: u64,
)
    requires
        s.phase is Handles,
        a != 0 && b != 0 && c != 0,
        vmo != u64::MAX && port != u64::MAX && koid != u64::MAX,
    ensures
        ({
            let zero = FbEvent::Returned(0);
            let (s1, _) = s.after(FbEvent::Handles(a, b, c));
            let (s2, _) = s1.after(zero);
            let (s3, l3) = s2.after(FbEvent::Screen(Some(g)));
            let (s4, _) = s3.after(FbEvent::Returned(vmo));
            let (s5, l5) = s4.after(zero);
            let (s6, l6) = s5.after(FbEvent::Returned(x));
            let (s7, _) = s6.after(FbEvent::Returned(port));
            let (s8, _) = s7.after(FbEvent::Returned(koid));
            let (s9, _) = s8.after(zero);
            let (s10, l10) = s9.after(zero);
            let console = Handle(b as u32);
            &&& s.call_of() == FbCall::ReadHandles
            &&& s1.call_of() == (FbCall::MapInfo {
                vmo: Handle(c as u32),
                va: 0x1000_0000,
                len: 4096,
            })
            &&& s2.call_of() == (FbCall::ReadInfo { va: 0x1000_0000 })
            &&& l3 == geometry_text(g)
            &&& s3.call_of() == (FbCall::Mint {
                resource: Handle(a as u32),
                base: g.phys,
                len: g.len,
            })
            &&& s4.call_of() == (FbCall::MapFb {
                vmo: Handle(vmo as u32),
                va: 0x1100_0000,
                len: g.len,
            })
            &&& l5 == t("drv-fb: probing fb write\n")
            &&& s5.call_of() == (FbCall::Probe { va: 0x1100_0000, last: last_pixel_of(g) })
            &&& l6 == t("drv-fb: fb probe ok\n")
            &&& s6.call_of() == FbCall::CreatePort
            &&& s7.call_of() == (FbCall::Koid { handle: console })
            &&& s8.call_of() == (FbCall::Bind { port: Handle(port as u32), handle: console })
            &&& s9.call_of() == (FbCall::Claim {
                resource: Handle(a as u32),
                base: g.phys,
                len: g.len,
            })
            &&& s9.port == Handle(port as u32) && s9.source == Handle(koid as u32)
            &&& s10.call_of() == FbCall::Serve
            &&& l10 == t("drv-fb: initialized\n") + t("drv-fb: console ready\n")
        }),
{
}

/// A step that fails ends the driver, and the log names the step.
pub proof fn failed_steps_are_named(s: FbStart, a: u64, b: u64, c: u64)
    ensures
        ({
            let out = FbStart { phase: FbPhase::Exit, ..s };
            &&& out.call_of() == FbCall::Exit
            &&& s.phase is Handles && (a == 0 || b == 0 || c == 0) ==> s.after(
                FbEvent::Handles(a, b, c),
            ) == (out, t("drv-fb: missing handles\n"))
            &&& s.phase is MapInfo && a != 0 ==> s.after(FbEvent::Returned(a)) == (
                out,
                t("drv-fb: bootinfo map failed\n"),
            )
            &&& s.phase is ReadInfo ==> s.after(FbEvent::Screen(None)) == (
                out,
                t("drv-fb: no fb in bootinfo\n"),
            )
            &&& s.phase is Mint ==> s.after(FbEvent::Returned(u64::MAX)) == (
                out,
                t("drv-fb: fb vmo mint failed\n"),
            )
            &&& s.phase is MapFb && a != 0 ==> s.after(FbEvent::Returned(a)) == (
                out,
                t("drv-fb: fb map failed\n"),
            )
            &&& s.phase is Koid ==> s.after(FbEvent::Returned(u64::MAX)) == (
                out,
                t("drv-fb: port setup failed\n"),
            )
            &&& s.phase is Bind && a != 0 ==> s.after(FbEvent::Returned(a)) == (
                out,
                t("drv-fb: port setup failed\n"),
            )
            &&& s.phase is Claim && a != 0 ==> s.after(FbEvent::Returned(a)) == (
                out,
                t("drv-fb: framebuffer claim failed\n"),
            )
        }),
{
}

/// The last pixel is the one before the end of the last line, and the log gives width, height, stride and length,
/// each on a line.
pub proof fn screens_end_with_their_last_pixel(g: Geometry)
    ensures
        g.stride > 0 && g.height > 0 ==> last_pixel_of(g) + 1 == g.stride * g.height,
        g.stride == 0 || g.height == 0 ==> last_pixel_of(g) == 0,
        geometry_text(g) == t("drv-fb fb.width=") + numerals::decimal(g.width as nat) + t("\n") + (t(
            "drv-fb fb.height=",
        ) + numerals::decimal(g.height as nat) + t("\n")) + (t("drv-fb fb.stride=")
            + numerals::decimal(g.stride as nat) + t("\n")) + (t("drv-fb fb.len=")
            + numerals::decimal(g.len as nat) + t("\n")),
{
    let a = g.stride as int;
    let b = g.height as int;
    if a > 0 && b > 0 {
        assert(1 <= a * b <= 0xffff_ffff * 0xffff_ffff) by (nonlinear_arith)
            requires
                1 <= a <= 0xffff_ffff,
                1 <= b <= 0xffff_ffff,
        ;
    } else {
        assert(a * b == 0) by (nonlinear_arith)
            requires
                a == 0 || b == 0,
        ;
    }
}

} // verus!
