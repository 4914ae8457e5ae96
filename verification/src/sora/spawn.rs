//! Starting a server from its recipe: the loaded process is run with one end of
//! its request channel, and the supervisor keeps the other.

use vstd::prelude::*;

use crate::abi::{Handle, NO_HANDLE};
use crate::sora::loader::Loaded;
use crate::sora::policy::SupervisedServer;

verus! {

/// Where a start stands.
#[derive(Clone, Copy, Debug, PartialEq, Eq, Structural)]
pub enum SpawnPhase {
    /// The process is to be run.
    Run,
    /// The run failed; the handle in this slot is to be closed.
    Close { slot: u8 },
    /// The server's end of the channel must have left the supervisor.
    Probe,
    /// It is over, with an instance or without.
    Finished { started: bool },
}

/// The kernel call that a start waits for.
#[derive(Clone, Copy, Debug, PartialEq, Eq, Structural)]
pub enum SpawnCall {
    Run { process: Handle, entry: u64, sp: u64, arg: u64, arg2: u64, flags: u64 },
    Close { handle: Handle },
    Koid { handle: Handle },
    Nothing,
}

/// What a start reports.
#[derive(Clone, Copy, Debug, PartialEq, Eq, Structural)]
pub enum SpawnNote {
    /// A handle of a process that did not run could not be closed.
    CleanupFailed,
    /// The server's end of the channel is still here.
    TransferFailed,
    /// The server holds its end of the channel.
    Transferred,
}

impl SpawnNote {
    /// What the log says of it.
    pub open spec fn text_of(self) -> Seq<char> {
        match self {
            SpawnNote::CleanupFailed => "spawn: failure cleanup fail\n"@,
            SpawnNote::TransferFailed => "spawn: bootstrap transfer fail\n"@,
            SpawnNote::Transferred => "spawn: bootstrap transfer ok\n"@,
        }
    }

    /// Returns [`SpawnNote::text_of`].
    pub fn text(self) -> (s: &'static str)
        ensures
            s@ == self.text_of(),
    {
        match self {
            SpawnNote::CleanupFailed => "spawn: failure cleanup fail\n",
            SpawnNote::TransferFailed => "spawn: bootstrap transfer fail\n",
            SpawnNote::Transferred => "spawn: bootstrap transfer ok\n",
        }
    }
}

/// A start in progress.
#[derive(Clone, Copy, Debug, PartialEq, Eq, Structural)]
pub struct Spawn {
    pub loaded: Loaded,
    pub flags: u64,
    pub phase: SpawnPhase,
    pub clean: bool,
}

impl Spawn {
    /// The handles that a failed start closes, in order.
    pub open spec fn slot(self, i: int) -> Handle {
        if i == 0 {
            self.loaded.process
        } else if i == 1 {
            self.loaded.server
        } else {
            self.loaded.client
        }
    }

    pub open spec fn wf(self) -> bool {
        self.phase matches SpawnPhase::Close { slot } ==> slot < 3
    }

    /// The call that the start waits for.
    pub open spec fn call_of(self) -> SpawnCall {
        match self.phase {
            SpawnPhase::Run => SpawnCall::Run {
                process: self.loaded.process,
                entry: self.loaded.entry,
                sp: self.loaded.sp,
                arg: self.loaded.server.0 as u64,
                arg2: 0,
                flags: self.flags,
            },
            SpawnPhase::Close { slot } => SpawnCall::Close { handle: self.slot(slot as int) },
            SpawnPhase::Probe => SpawnCall::Koid { handle: self.loaded.server },
            SpawnPhase::Finished { .. } => SpawnCall::Nothing,
        }
    }

    /// The state after the call returned `a`, and what is reported.
    pub open spec fn after(self, a: u64) -> (Spawn, Option<SpawnNote>) {
        match self.phase {
            SpawnPhase::Run => (
                Spawn {
                    phase: if a == 0 {
                        SpawnPhase::Probe
                    } else {
                        SpawnPhase::Close { slot: 0 }
                    },
                    ..self
                },
                None,
            ),
            SpawnPhase::Close { slot } => {
                let clean = self.clean && a == 0;
                if slot < 2 {
                    (Spawn { phase: SpawnPhase::Close { slot: (slot + 1) as u8 }, clean, ..self }, None)
                } else {
                    (
                        Spawn { phase: SpawnPhase::Finished { started: false }, clean, ..self },
                        if clean {
                            None
                        } else {
                            Some(SpawnNote::CleanupFailed)
                        },
                    )
                }
            },
            SpawnPhase::Probe => if a != u64::MAX {
                (
                    Spawn { phase: SpawnPhase::Finished { started: false }, ..self },
                    Some(SpawnNote::TransferFailed),
                )
            } else {
                (
                    Spawn { phase: SpawnPhase::Finished { started: true }, ..self },
                    Some(SpawnNote::Transferred),
                )
            },
            SpawnPhase::Finished { .. } => (self, None),
        }
    }

    /// Begins a start of a loaded process.
    pub fn new(loaded: Loaded, flags: u64) -> (s: Spawn)
        ensures
            s == (Spawn { loaded, flags, phase: SpawnPhase::Run, clean: true }),
            s.wf(),
    {
        Spawn { loaded, flags, phase: SpawnPhase::Run, clean: true }
    }

    /// The kernel call to make next.
    pub fn call(&self) -> (c: SpawnCall)
        requires
            self.wf(),
        ensures
            c == self.call_of(),
    {
        match self.phase {
            SpawnPhase::Run => SpawnCall::Run {
                process: self.loaded.process,
                entry: self.loaded.entry,
                sp: self.loaded.sp,
                arg: self.loaded.server.0 as u64,
                arg2: 0,
                flags: self.flags,
            },
            SpawnPhase::Close { slot } => SpawnCall::Close {
                handle: if slot == 0 {
                    self.loaded.process
                } else if slot == 1 {
                    self.loaded.server
                } else {
                    self.loaded.client
                },
            },
            SpawnPhase::Probe => SpawnCall::Koid { handle: self.loaded.server },
            SpawnPhase::Finished { .. } => SpawnCall::Nothing,
        }
    }

    /// Takes the call's result.
    pub fn advance(&mut self, a: u64) -> (note: Option<SpawnNote>)
        requires
            old(self).wf(),
        ensures
            final(self).wf(),
            (*final(self), note) == old(self).after(a),
    {
        match self.phase {
            SpawnPhase::Run => {
                self.phase = if a == 0 {
                    SpawnPhase::Probe
                } else {
                    SpawnPhase::Close { slot: 0 }
                };
                None
            },
            SpawnPhase::Close { slot } => {
                self.clean = self.clean && a == 0;
                if slot < 2 {
                    self.phase = SpawnPhase::Close { slot: slot + 1 };
                    None
                } else {
                    self.phase = SpawnPhase::Finished { started: false };
                    if self.clean {
                        None
                    } else {
                        Some(SpawnNote::CleanupFailed)
                    }
                }
            },
            SpawnPhase::Probe => {
                if a != NO_HANDLE {
                    self.phase = SpawnPhase::Finished { started: false };
                    Some(SpawnNote::TransferFailed)
                } else {
                    self.phase = SpawnPhase::Finished { started: true };
                    Some(SpawnNote::Transferred)
                }
            },
            SpawnPhase::Finished { .. } => None,
        }
    }

    /// The running instance of a finished start.
    pub fn instance(&self) -> (r: Option<SupervisedServer>)
        ensures
            r == (if self.phase == (SpawnPhase::Finished { started: true }) {
                Some(
                    SupervisedServer { process: self.loaded.process, client: self.loaded.client },
                )
            } else {
                None
            }),
    {
        match self.phase {
            SpawnPhase::Finished { started: true } => Some(
                SupervisedServer { process: self.loaded.process, client: self.loaded.client },
            ),
            _ => None,
        }
    }
}

/// A process that does not run is given up whole: its handle and both ends of
/// its channel are closed, one after the other, whatever each close returned.
pub proof fn failed_run_closes_all_three(s: Spawn, run: u64, a: u64, b: u64, c: u64)
    requires
        s.phase is Run,
        run != 0,
    ensures
        ({
            let s1 = s.after(run).0;
            let s2 = s1.after(a).0;
            let s3 = s2.after(b).0;
            let s4 = s3.after(c).0;
            &&& s1.call_of() == (SpawnCall::Close { handle: s.loaded.process })
            &&& s2.call_of() == (SpawnCall::Close { handle: s.loaded.server })
            &&& s3.call_of() == (SpawnCall::Close { handle: s.loaded.client })
            &&& s4.phase == (SpawnPhase::Finished { started: false })
            &&& s3.after(c).1 is Some <==> !(s.clean && a == 0 && b == 0 && c == 0)
        }),
{
}

/// A start succeeds just when the process runs and the supervisor no longer
/// holds the server's end of the channel.
pub proof fn start_succeeds_iff_run_and_transferred(s: Spawn, run: u64, koid: u64)
    requires
        s.phase is Run,
    ensures
        s.after(run).0.after(koid).0.phase == (SpawnPhase::Finished { started: true }) <==> run == 0
            && koid == u64::MAX,
{
}

/// A loaded process is run at its entry point on its own stack, with the number of the server's end of
/// the channel as its first argument and zero as its second; then that end is looked for. It has gone
/// where it is not found, and the log says so either way.
pub proof fn servers_start_with_their_channel(s: Spawn, koid: u64)
    requires
        s.phase is Run,
    ensures
        s.call_of() == (SpawnCall::Run {
            process: s.loaded.process,
            entry: s.loaded.entry,
            sp: s.loaded.sp,
            arg: s.loaded.server.0 as u64,
            arg2: 0,
            flags: s.flags,
        }),
        s.after(0).1 is None,
        s.after(0).0.call_of() == (SpawnCall::Koid { handle: s.loaded.server }),
        koid == u64::MAX ==> s.after(0).0.after(koid) == (
            Spawn { phase: SpawnPhase::Finished { started: true }, ..s },
            Some(SpawnNote::Transferred),
        ),
        koid != u64::MAX ==> s.after(0).0.after(koid) == (
            Spawn { phase: SpawnPhase::Finished { started: false }, ..s },
            Some(SpawnNote::TransferFailed),
        ),
{
}

/// A start that is over stays as it is, and a failed cleanup is told once, behind the last close.
pub proof fn finished_starts_stay(s: Spawn, a: u64)
    ensures
        s.phase is Finished ==> s.after(a) == (s, None::<SpawnNote>) && s.call_of()
            == SpawnCall::Nothing,
        s.phase matches SpawnPhase::Close { slot } && slot < 2 ==> s.after(a).1 is None
            && s.after(a).0.clean == (s.clean && a == 0),
        s.phase matches SpawnPhase::Close { slot } && slot == 2 ==> s.after(a).1 == (if s.clean && a
            == 0 {
            None
        } else {
            Some(SpawnNote::CleanupFailed)
        }),
{
}

} // verus!
