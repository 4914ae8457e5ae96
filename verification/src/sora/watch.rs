//! Supervision of the interactive terminal server: it is started, watched
//! through a port, and rebuilt when it ends, as often as its budget allows.

use vstd::prelude::*;

use crate::abi::{handle_of, to_handle, Handle, NO_HANDLE};
use crate::sora::policy::{RestartBudget, RestartPolicy, SupervisedServer};
use crate::sora::smoke::WaitStatus;

verus! {

/// How often the terminal server is rebuilt.
pub const TTYD_MAX_RESTARTS: u32 = 3;

/// Where supervision stands.
#[derive(Clone, Copy, Debug, PartialEq, Eq, Structural)]
pub enum WatchPhase {
    /// The first instance is to be started.
    First,
    /// The first instance's identity is asked for.
    FirstIdentity { fresh: SupervisedServer },
    /// The first instance is to be watched.
    FirstBind { fresh: SupervisedServer, koid: Handle },
    /// The first instance is asked to end, to see it rebuilt.
    FirstProbe { fresh: SupervisedServer },
    /// The loop waits.
    Idle,
    /// An instance ended; its watch is to be dropped.
    Unbind { dead: SupervisedServer, source: Handle },
    /// Its process handle is to be closed.
    CloseProcess { dead: SupervisedServer, source: Handle },
    /// Its channel is to be closed.
    CloseClient { dead: SupervisedServer, source: Handle, clean: bool },
    /// A replacement is to be started.
    Rebuild { source: Handle },
    /// The replacement is asked to clear its line.
    Try { fresh: SupervisedServer, source: Handle },
    /// The replacement's identity is asked for.
    Identity { fresh: SupervisedServer, source: Handle },
    /// The replacement is to be watched.
    Bind { fresh: SupervisedServer, source: Handle, koid: Handle },
    /// The replacement is given up; its process handle is to be closed.
    DropProcess { fresh: SupervisedServer, why: WatchNote },
    /// Its channel is to be closed.
    DropClient { fresh: SupervisedServer, why: WatchNote },
}

/// What supervision reports.
#[derive(Clone, Copy, Debug, PartialEq, Eq, Structural)]
pub enum WatchNote {
    Armed,
    ArmFailed,
    ProbeSent,
    ProbeFailed,
    UnbindFailed,
    CleanupFailed,
    RestartRequired,
    RestartOk,
    IdentityFailed,
    RearmFailed,
    ServeFailed,
    SpawnFailed,
    BudgetExhausted,
    Terminated,
}

impl WatchNote {
    /// What the log says of it.
    pub open spec fn text_of(self) -> Seq<char> {
        match self {
            WatchNote::Armed => "ttyd: supervision armed\n"@,
            WatchNote::ArmFailed => "ttyd: supervision arm fail\n"@,
            WatchNote::ProbeSent => "ttyd: restart probe sent\n"@,
            WatchNote::ProbeFailed => "ttyd: restart probe fail\n"@,
            WatchNote::UnbindFailed => "ttyd: dead watch unbind fail\n"@,
            WatchNote::CleanupFailed => "ttyd: dead instance cleanup fail\n"@,
            WatchNote::RestartRequired => "ttyd: restart required\n"@,
            WatchNote::RestartOk => "ttyd: restart ok\n"@,
            WatchNote::IdentityFailed => "ttyd: restart identity fail\n"@,
            WatchNote::RearmFailed => "ttyd: restart rearm fail\n"@,
            WatchNote::ServeFailed => "ttyd: restart serve fail\n"@,
            WatchNote::SpawnFailed => "ttyd: restart spawn fail\n"@,
            WatchNote::BudgetExhausted => "ttyd: restart budget exhausted\n"@,
            WatchNote::Terminated => "ttyd: terminated\n"@,
        }
    }

    /// Returns [`WatchNote::text_of`].
    pub fn text(self) -> (s: &'static str)
        ensures
            s@ == self.text_of(),
    {
        match self {
            WatchNote::Armed => "ttyd: supervision armed\n",
            WatchNote::ArmFailed => "ttyd: supervision arm fail\n",
            WatchNote::ProbeSent => "ttyd: restart probe sent\n",
            WatchNote::ProbeFailed => "ttyd: restart probe fail\n",
            WatchNote::UnbindFailed => "ttyd: dead watch unbind fail\n",
            WatchNote::CleanupFailed => "ttyd: dead instance cleanup fail\n",
            WatchNote::RestartRequired => "ttyd: restart required\n",
            WatchNote::RestartOk => "ttyd: restart ok\n",
            WatchNote::IdentityFailed => "ttyd: restart identity fail\n",
            WatchNote::RearmFailed => "ttyd: restart rearm fail\n",
            WatchNote::ServeFailed => "ttyd: restart serve fail\n",
            WatchNote::SpawnFailed => "ttyd: restart spawn fail\n",
            WatchNote::BudgetExhausted => "ttyd: restart budget exhausted\n",
            WatchNote::Terminated => "ttyd: terminated\n",
        }
    }
}

/// The session of a terminal server that was just started, given the status of the wait that
/// lets it work, and what the log says. A server that does not park is no session.
pub fn session_of(server: SupervisedServer, status: u64, w: &WaitStatus) -> (r: (
    Option<SupervisedServer>,
    &'static str,
))
    ensures
        status == w.parked ==> r.0 == Some(server) && r.1@ == "ttyd: interactive ok\n"@,
        status != w.parked ==> r.0 is None && r.1@ == "ttyd: interactive park fail\n"@,
{
    if w.child_parked(status) {
        (Some(server), "ttyd: interactive ok\n")
    } else {
        (None, "ttyd: interactive park fail\n")
    }
}

/// What supervision waits for.
#[derive(Clone, Copy, Debug, PartialEq, Eq, Structural)]
pub enum WatchCall {
    Spawn,
    Koid { process: Handle },
    Bind { process: Handle },
    Shutdown { client: Handle },
    Wait,
    Unbind { process: Handle },
    Close { handle: Handle },
    Clear { client: Handle },
}

/// What came back.
#[derive(Clone, Copy, Debug, PartialEq, Eq, Structural)]
pub enum WatchEvent {
    /// A start returned an instance or none.
    Spawned(Option<SupervisedServer>),
    /// A kernel call returned this value.
    Returned(u64),
    /// A request was sent or answered well, or not.
    Answered(bool),
    /// The port was woken by this object.
    Woken(Handle),
}

/// Supervision in progress.
#[derive(Clone, Copy, Debug)]
pub struct TtyWatch {
    restart: RestartPolicy,
    budget: RestartBudget,
    service: Option<SupervisedServer>,
    koid: Option<Handle>,
    phase: WatchPhase,
}

/// Supervision as plain data.
#[verifier::ext_equal]
pub struct WatchView {
    pub restart: RestartPolicy,
    pub left: int,
    pub service: Option<SupervisedServer>,
    pub koid: Option<Handle>,
    pub phase: WatchPhase,
}

impl View for TtyWatch {
    type V = WatchView;

    closed spec fn view(&self) -> WatchView {
        WatchView {
            restart: self.restart,
            left: self.budget.left(),
            service: self.service,
            koid: self.koid,
            phase: self.phase,
        }
    }
}

impl WatchView {
    /// What supervision waits for.
    pub open spec fn call(self) -> WatchCall {
        match self.phase {
            WatchPhase::First => WatchCall::Spawn,
            WatchPhase::FirstIdentity { fresh } => WatchCall::Koid { process: fresh.process },
            WatchPhase::FirstBind { fresh, .. } => WatchCall::Bind { process: fresh.process },
            WatchPhase::FirstProbe { fresh } => WatchCall::Shutdown { client: fresh.client },
            WatchPhase::Idle => WatchCall::Wait,
            WatchPhase::Unbind { dead, .. } => WatchCall::Unbind { process: dead.process },
            WatchPhase::CloseProcess { dead, .. } => WatchCall::Close { handle: dead.process },
            WatchPhase::CloseClient { dead, .. } => WatchCall::Close { handle: dead.client },
            WatchPhase::Rebuild { .. } => WatchCall::Spawn,
            WatchPhase::Try { fresh, .. } => WatchCall::Clear { client: fresh.client },
            WatchPhase::Identity { fresh, .. } => WatchCall::Koid { process: fresh.process },
            WatchPhase::Bind { fresh, .. } => WatchCall::Bind { process: fresh.process },
            WatchPhase::DropProcess { fresh, .. } => WatchCall::Close { handle: fresh.process },
            WatchPhase::DropClient { fresh, .. } => WatchCall::Close { handle: fresh.client },
        }
    }

    /// Policy wants an ended instance rebuilt.
    pub open spec fn wants_restart(self) -> bool {
        self.restart is Always || self.restart is OnFailure
    }

    /// The dead instance is gone: rebuild it, or give it up. One unit of the
    /// budget is spent only where policy wants a restart.
    pub open spec fn decided(self, source: Handle) -> (WatchView, WatchNote) {
        if !self.wants_restart() {
            (WatchView { phase: WatchPhase::Idle, ..self }, WatchNote::Terminated)
        } else if self.left <= 0 {
            (WatchView { phase: WatchPhase::Idle, ..self }, WatchNote::BudgetExhausted)
        } else {
            (
                WatchView { phase: WatchPhase::Rebuild { source }, left: self.left - 1, ..self },
                WatchNote::RestartRequired,
            )
        }
    }

    /// The state after an event, and what is reported. An event that does not
    /// answer the call changes nothing.
    pub open spec fn after(self, e: WatchEvent) -> (WatchView, Seq<WatchNote>) {
        match (self.phase, e) {
            (WatchPhase::First, WatchEvent::Spawned(None)) => (
                WatchView { phase: WatchPhase::Idle, ..self },
                seq![WatchNote::ArmFailed],
            ),
            (WatchPhase::First, WatchEvent::Spawned(Some(fresh))) => (
                WatchView {
                    service: Some(fresh),
                    phase: WatchPhase::FirstIdentity { fresh },
                    ..self
                },
                seq![],
            ),
            (WatchPhase::FirstIdentity { fresh }, WatchEvent::Returned(a)) => if a == u64::MAX {
                (
                    WatchView { phase: WatchPhase::FirstProbe { fresh }, ..self },
                    seq![WatchNote::ArmFailed],
                )
            } else {
                (
                    WatchView {
                        phase: WatchPhase::FirstBind { fresh, koid: handle_of(a) },
                        ..self
                    },
                    seq![],
                )
            },
            (WatchPhase::FirstBind { fresh, koid }, WatchEvent::Returned(a)) => (
                WatchView {
                    koid: if a == 0 {
                        Some(koid)
                    } else {
                        None
                    },
                    phase: WatchPhase::FirstProbe { fresh },
                    ..self
                },
                if a == 0 {
                    seq![WatchNote::Armed]
                } else {
                    seq![WatchNote::ArmFailed]
                },
            ),
            (WatchPhase::FirstProbe { .. }, WatchEvent::Answered(sent)) => (
                WatchView { phase: WatchPhase::Idle, ..self },
                if sent {
                    seq![WatchNote::ProbeSent]
                } else {
                    seq![WatchNote::ProbeFailed]
                },
            ),
            (WatchPhase::Idle, WatchEvent::Woken(source)) => if self.koid == Some(source) {
                match self.service {
                    Some(dead) => (
                        WatchView {
                            service: None,
                            koid: None,
                            phase: WatchPhase::Unbind { dead, source },
                            ..self
                        },
                        seq![],
                    ),
                    None => (WatchView { koid: None, ..self }, seq![]),
                }
            } else {
                (self, seq![])
            },
            (WatchPhase::Unbind { dead, source }, WatchEvent::Returned(a)) => (
                WatchView { phase: WatchPhase::CloseProcess { dead, source }, ..self },
                if a == 0 {
                    seq![]
                } else {
                    seq![WatchNote::UnbindFailed]
                },
            ),
            (WatchPhase::CloseProcess { dead, source }, WatchEvent::Returned(a)) => (
                WatchView {
                    phase: WatchPhase::CloseClient { dead, source, clean: a == 0 },
                    ..self
                },
                seq![],
            ),
            (WatchPhase::CloseClient { source, clean, .. }, WatchEvent::Returned(a)) => {
                let (next, note) = self.decided(source);
                (
                    next,
                    if clean && a == 0 {
                        seq![note]
                    } else {
                        seq![WatchNote::CleanupFailed, note]
                    },
                )
            },
            (WatchPhase::Rebuild { .. }, WatchEvent::Spawned(None)) => (
                WatchView { phase: WatchPhase::Idle, ..self },
                seq![WatchNote::SpawnFailed],
            ),
            (WatchPhase::Rebuild { source }, WatchEvent::Spawned(Some(fresh))) => (
                WatchView { phase: WatchPhase::Try { fresh, source }, ..self },
                seq![],
            ),
            (WatchPhase::Try { fresh, source }, WatchEvent::Answered(serves)) => (
                WatchView {
                    phase: if serves {
                        WatchPhase::Identity { fresh, source }
                    } else {
                        WatchPhase::DropProcess { fresh, why: WatchNote::ServeFailed }
                    },
                    ..self
                },
                seq![],
            ),
            (WatchPhase::Identity { fresh, source }, WatchEvent::Returned(a)) => (
                WatchView {
                    phase: if a == u64::MAX {
                        WatchPhase::DropProcess { fresh, why: WatchNote::RearmFailed }
                    } else {
                        WatchPhase::Bind { fresh, source, koid: handle_of(a) }
                    },
                    ..self
                },
                seq![],
            ),
            (WatchPhase::Bind { fresh, source, koid }, WatchEvent::Returned(a)) => if a != 0 {
                (
                    WatchView {
                        phase: WatchPhase::DropProcess { fresh, why: WatchNote::RearmFailed },
                        ..self
                    },
                    seq![],
                )
            } else if koid == source {
                (
                    WatchView {
                        phase: WatchPhase::DropProcess { fresh, why: WatchNote::IdentityFailed },
                        ..self
                    },
                    seq![],
                )
            } else {
                (
                    WatchView {
                        service: Some(fresh),
                        koid: Some(koid),
                        phase: WatchPhase::Idle,
                        ..self
                    },
                    seq![WatchNote::RestartOk],
                )
            },
            (WatchPhase::DropProcess { fresh, why }, WatchEvent::Returned(_)) => (
                WatchView { phase: WatchPhase::DropClient { fresh, why }, ..self },
                seq![],
            ),
            (WatchPhase::DropClient { why, .. }, WatchEvent::Returned(_)) => (
                WatchView { phase: WatchPhase::Idle, ..self },
                seq![why],
            ),
            _ => (self, seq![]),
        }
    }
}

fn one(note: WatchNote) -> (v: Vec<WatchNote>)
    ensures
        v@ == seq![note],
{
    let mut v: Vec<WatchNote> = Vec::new();
    v.push(note);
    assert(v@ =~= seq![note]);
    v
}

impl TtyWatch {
    pub closed spec fn wf(self) -> bool {
        self.budget.wf()
    }

    /// Supervision of a server that is yet to be started.
    pub fn new(restart: RestartPolicy, max_restarts: u32) -> (w: TtyWatch)
        ensures
            w.wf(),
            w@ == (WatchView {
                restart,
                left: max_restarts as int,
                service: None,
                koid: None,
                phase: WatchPhase::First,
            }),
    {
        TtyWatch {
            restart,
            budget: RestartBudget::new(max_restarts),
            service: None,
            koid: None,
            phase: WatchPhase::First,
        }
    }

    /// The running instance, if there is one.
    pub fn service(&self) -> (r: Option<SupervisedServer>)
        ensures
            r == self@.service,
    {
        self.service
    }

    /// The object whose end is watched.
    pub fn watched(&self) -> (r: Option<Handle>)
        ensures
            r == self@.koid,
    {
        self.koid
    }

    /// What to do next.
    pub fn call(&self) -> (c: WatchCall)
        ensures
            c == self@.call(),
    {
        match self.phase {
            WatchPhase::First => WatchCall::Spawn,
            WatchPhase::FirstIdentity { fresh } => WatchCall::Koid { process: fresh.process },
            WatchPhase::FirstBind { fresh, .. } => WatchCall::Bind { process: fresh.process },
            WatchPhase::FirstProbe { fresh } => WatchCall::Shutdown { client: fresh.client },
            WatchPhase::Idle => WatchCall::Wait,
            WatchPhase::Unbind { dead, .. } => WatchCall::Unbind { process: dead.process },
            WatchPhase::CloseProcess { dead, .. } => WatchCall::Close { handle: dead.process },
            WatchPhase::CloseClient { dead, .. } => WatchCall::Close { handle: dead.client },
            WatchPhase::Rebuild { .. } => WatchCall::Spawn,
            WatchPhase::Try { fresh, .. } => WatchCall::Clear { client: fresh.client },
            WatchPhase::Identity { fresh, .. } => WatchCall::Koid { process: fresh.process },
            WatchPhase::Bind { fresh, .. } => WatchCall::Bind { process: fresh.process },
            WatchPhase::DropProcess { fresh, .. } => WatchCall::Close { handle: fresh.process },
            WatchPhase::DropClient { fresh, .. } => WatchCall::Close { handle: fresh.client },
        }
    }

    /// Rebuilds the ended server or gives it up.
    fn decide(&mut self, source: Handle) -> (note: WatchNote)
        requires
            old(self).wf(),
        ensures
            final(self).wf(),
            (final(self)@, note) == old(self)@.decided(source),
    {
        if !self.restart.should_restart(true) {
            self.phase = WatchPhase::Idle;
            WatchNote::Terminated
        } else if self.budget.try_consume() {
            self.phase = WatchPhase::Rebuild { source };
            WatchNote::RestartRequired
        } else {
            self.phase = WatchPhase::Idle;
            WatchNote::BudgetExhausted
        }
    }

    /// Takes what came back of the call.
    pub fn advance(&mut self, e: WatchEvent) -> (notes: Vec<WatchNote>)
        requires
            old(self).wf(),
        ensures
            final(self).wf(),
            (final(self)@, notes@) == old(self)@.after(e),
    {
        match (self.phase, e) {
            (WatchPhase::First, WatchEvent::Spawned(None)) => {
                self.phase = WatchPhase::Idle;
                one(WatchNote::ArmFailed)
            },
            (WatchPhase::First, WatchEvent::Spawned(Some(fresh))) => {
                self.service = Some(fresh);
                self.phase = WatchPhase::FirstIdentity { fresh };
                Vec::new()
            },
            (WatchPhase::FirstIdentity { fresh }, WatchEvent::Returned(a)) => {
                if a == NO_HANDLE {
                    self.phase = WatchPhase::FirstProbe { fresh };
                    one(WatchNote::ArmFailed)
                } else {
                    self.phase = WatchPhase::FirstBind { fresh, koid: to_handle(a) };
                    Vec::new()
                }
            },
            (WatchPhase::FirstBind { fresh, koid }, WatchEvent::Returned(a)) => {
                self.phase = WatchPhase::FirstProbe { fresh };
                if a == 0 {
                    self.koid = Some(koid);
                    one(WatchNote::Armed)
                } else {
                    self.koid = None;
                    one(WatchNote::ArmFailed)
                }
            },
            (WatchPhase::FirstProbe { .. }, WatchEvent::Answered(sent)) => {
                self.phase = WatchPhase::Idle;
                if sent {
                    one(WatchNote::ProbeSent)
                } else {
                    one(WatchNote::ProbeFailed)
                }
            },
            (WatchPhase::Idle, WatchEvent::Woken(source)) => {
                if self.koid == Some(source) {
                    self.koid = None;
                    match self.service {
                        Some(dead) => {
                            self.service = None;
                            self.phase = WatchPhase::Unbind { dead, source };
                        },
                        None => {},
                    }
                }
                Vec::new()
            },
            (WatchPhase::Unbind { dead, source }, WatchEvent::Returned(a)) => {
                self.phase = WatchPhase::CloseProcess { dead, source };
                if a == 0 {
                    Vec::new()
                } else {
                    one(WatchNote::UnbindFailed)
                }
            },
            (WatchPhase::CloseProcess { dead, source }, WatchEvent::Returned(a)) => {
                self.phase = WatchPhase::CloseClient { dead, source, clean: a == 0 };
                Vec::new()
            },
            (WatchPhase::CloseClient { source, clean, .. }, WatchEvent::Returned(a)) => {
                let note: WatchNote = self.decide(source);
                if clean && a == 0 {
                    one(note)
                } else {
                    let mut notes: Vec<WatchNote> = one(WatchNote::CleanupFailed);
                    notes.push(note);
                    assert(notes@ =~= seq![WatchNote::CleanupFailed, note]);
                    notes
                }
            },
            (WatchPhase::Rebuild { .. }, WatchEvent::Spawned(None)) => {
                self.phase = WatchPhase::Idle;
                one(WatchNote::SpawnFailed)
            },
            (WatchPhase::Rebuild { source }, WatchEvent::Spawned(Some(fresh))) => {
                self.phase = WatchPhase::Try { fresh, source };
                Vec::new()
            },
            (WatchPhase::Try { fresh, source }, WatchEvent::Answered(serves)) => {
                self.phase = if serves {
                    WatchPhase::Identity { fresh, source }
                } else {
                    WatchPhase::DropProcess { fresh, why: WatchNote::ServeFailed }
                };
                Vec::new()
            },
            (WatchPhase::Identity { fresh, source }, WatchEvent::Returned(a)) => {
                self.phase = if a == NO_HANDLE {
                    WatchPhase::DropProcess { fresh, why: WatchNote::RearmFailed }
                } else {
                    WatchPhase::Bind { fresh, source, koid: to_handle(a) }
                };
                Vec::new()
            },
            (WatchPhase::Bind { fresh, source, koid }, WatchEvent::Returned(a)) => {
                if a != 0 {
                    self.phase = WatchPhase::DropProcess { fresh, why: WatchNote::RearmFailed };
                    Vec::new()
                } else if koid == source {
                    self.phase = WatchPhase::DropProcess { fresh, why: WatchNote::IdentityFailed };
                    Vec::new()
                } else {
                    self.service = Some(fresh);
                    self.koid = Some(koid);
                    self.phase = WatchPhase::Idle;
                    one(WatchNote::RestartOk)
                }
            },
            (WatchPhase::DropProcess { fresh, why }, WatchEvent::Returned(_)) => {
                self.phase = WatchPhase::DropClient { fresh, why };
                Vec::new()
            },
            (WatchPhase::DropClient { why, .. }, WatchEvent::Returned(_)) => {
                self.phase = WatchPhase::Idle;
                one(why)
            },
            _ => Vec::new(),
        }
    }
}

/// Supervision after a series of events.
pub open spec fn after_all(w: WatchView, events: Seq<WatchEvent>) -> WatchView
    decreases events.len(),
{
    if events.len() == 0 {
        w
    } else {
        after_all(w, events.drop_last()).after(events.last()).0
    }
}

/// How many of a series of events led to a rebuild.
pub open spec fn rebuilds(w: WatchView, events: Seq<WatchEvent>) -> int
    decreases events.len(),
{
    if events.len() == 0 {
        0
    } else {
        let before = after_all(w, events.drop_last());
        let now = before.after(events.last()).0;
        rebuilds(w, events.drop_last()) + if now.phase is Rebuild && !(before.phase is Rebuild) {
            1int
        } else {
            0
        }
    }
}

/// However often the server ends, it is rebuilt no more often than its budget
/// allows, and each rebuild spends just one unit.
pub proof fn rebuilds_are_bounded(w: WatchView, events: Seq<WatchEvent>)
    requires
        w.left >= 0,
    ensures
        rebuilds(w, events) <= w.left,
        after_all(w, events).left == w.left - rebuilds(w, events),
        after_all(w, events).left >= 0,
    decreases events.len(),
{
    if events.len() > 0 {
        rebuilds_are_bounded(w, events.drop_last());
    }
}

/// A server whose policy is never to restart is not rebuilt, and its budget is
/// not touched.
pub proof fn never_means_never(w: WatchView, events: Seq<WatchEvent>)
    requires
        w.restart is Never,
        !(w.phase is Rebuild),
    ensures
        rebuilds(w, events) == 0,
        after_all(w, events).left == w.left,
        after_all(w, events).restart is Never,
        !(after_all(w, events).phase is Rebuild),
    decreases events.len(),
{
    if events.len() > 0 {
        never_means_never(w, events.drop_last());
    }
}

/// A watched object always belongs to a running instance, and while an
/// instance is being replaced none is watched.
pub open spec fn consistent(w: WatchView) -> bool {
    &&& w.koid is Some ==> w.service is Some
    &&& match w.phase {
        WatchPhase::First => w.service is None && w.koid is None,
        WatchPhase::FirstIdentity { fresh } => w.service == Some(fresh) && w.koid is None,
        WatchPhase::FirstBind { fresh, .. } => w.service == Some(fresh) && w.koid is None,
        WatchPhase::FirstProbe { fresh } => w.service == Some(fresh),
        WatchPhase::Idle => true,
        _ => w.service is None && w.koid is None,
    }
}

/// Whatever happens, a watched object belongs to a running instance, and none is watched while
/// an instance is being replaced.
pub proof fn watch_stays_consistent(w: WatchView, events: Seq<WatchEvent>)
    requires
        consistent(w),
    ensures
        consistent(after_all(w, events)),
    decreases events.len(),
{
    if events.len() > 0 {
        watch_stays_consistent(w, events.drop_last());
    }
}

/// A server that ends is unwatched and both its handles are closed before
/// anything else is done, whatever those calls return.
pub proof fn dead_instance_is_released(
    w: WatchView,
    dead: SupervisedServer,
    source: Handle,
    a: u64,
    b: u64,
    c: u64,
)
    requires
        w.phase is Idle,
        w.service == Some(dead),
        w.koid == Some(source),
    ensures
        ({
            let w1 = w.after(WatchEvent::Woken(source)).0;
            let w2 = w1.after(WatchEvent::Returned(a)).0;
            let w3 = w2.after(WatchEvent::Returned(b)).0;
            let w4 = w3.after(WatchEvent::Returned(c)).0;
            &&& w1.call() == (WatchCall::Unbind { process: dead.process })
            &&& w2.call() == (WatchCall::Close { handle: dead.process })
            &&& w3.call() == (WatchCall::Close { handle: dead.client })
            &&& w4.phase is Idle || w4.phase is Rebuild
            &&& w4.phase is Rebuild <==> w.wants_restart() && w.left > 0
        }),
{
}

/// A replacement is watched just when it answers, has an identity other than
/// its predecessor's and can be bound; otherwise both its handles are closed.
pub proof fn replacement_is_kept_or_released(
    w: WatchView,
    fresh: SupervisedServer,
    source: Handle,
    serves: bool,
    koid: u64,
    bind: u64,
)
    requires
        w.phase == (WatchPhase::Try { fresh, source }),
    ensures
        ({
            let w1 = w.after(WatchEvent::Answered(serves)).0;
            let w2 = if serves {
                w1.after(WatchEvent::Returned(koid)).0
            } else {
                w1
            };
            let w3 = if serves && koid != u64::MAX {
                w2.after(WatchEvent::Returned(bind)).0
            } else {
                w2
            };
            if serves && koid != u64::MAX && bind == 0 && handle_of(koid) != source {
                w3.phase is Idle && w3.service == Some(fresh) && w3.koid == Some(handle_of(koid))
            } else {
                &&& w3.call() == (WatchCall::Close { handle: fresh.process })
                &&& w3.after(WatchEvent::Returned(0)).0.call() == (WatchCall::Close {
                    handle: fresh.client,
                })
                &&& w3.after(WatchEvent::Returned(0)).0.after(WatchEvent::Returned(0)).0 == (
                WatchView { phase: WatchPhase::Idle, ..w3 })
            }
        }),
{
}

/// The first instance is started, its identity asked for, bound to the port, and then asked to end so
/// that its rebuild is seen. It is watched just where it has an identity and could be bound, and the log
/// says which; without an instance nothing is watched.
pub proof fn the_first_instance_is_watched(
    w: WatchView,
    fresh: SupervisedServer,
    koid: u64,
    bind: u64,
    sent: bool,
)
    requires
        w.phase is First,
    ensures
        ({
            let (w1, n1) = w.after(WatchEvent::Spawned(Some(fresh)));
            let (w2, n2) = w1.after(WatchEvent::Returned(koid));
            let (w3, n3) = w2.after(WatchEvent::Returned(bind));
            let (none, n0) = w.after(WatchEvent::Spawned(None));
            &&& w.call() == WatchCall::Spawn
            &&& w1.call() == (WatchCall::Koid { process: fresh.process })
            &&& w1.service == Some(fresh)
            &&& n1 == Seq::<WatchNote>::empty()
            &&& koid == u64::MAX ==> {
                &&& n2 == seq![WatchNote::ArmFailed]
                &&& w2.koid == w.koid
                &&& w2.call() == (WatchCall::Shutdown { client: fresh.client })
            }
            &&& koid != u64::MAX ==> {
                &&& n2 == Seq::<WatchNote>::empty()
                &&& w2.call() == (WatchCall::Bind { process: fresh.process })
                &&& w3.call() == (WatchCall::Shutdown { client: fresh.client })
                &&& bind == 0 ==> w3.koid == Some(Handle(koid as u32)) && n3 == seq![
                    WatchNote::Armed,
                ]
                &&& bind != 0 ==> w3.koid is None && n3 == seq![WatchNote::ArmFailed]
                &&& w3.service == Some(fresh)
                &&& w3.left == w.left
                &&& w3.after(WatchEvent::Answered(sent)).0 == (WatchView {
                    phase: WatchPhase::Idle,
                    ..w3
                })
                &&& w3.after(WatchEvent::Answered(true)).1 == seq![WatchNote::ProbeSent]
                &&& w3.after(WatchEvent::Answered(false)).1 == seq![WatchNote::ProbeFailed]
            }
            &&& none == (WatchView { phase: WatchPhase::Idle, ..w })
            &&& n0 == seq![WatchNote::ArmFailed]
        }),
{
}

/// What is reported of an instance that ends: an unbind or a close that fails, and then that it is
/// rebuilt, that its budget is spent, or that it is gone for good.
pub proof fn ends_are_reported(
    w: WatchView,
    dead: SupervisedServer,
    source: Handle,
    a: u64,
    b: u64,
    c: u64,
)
    requires
        w.phase is Idle,
        w.service == Some(dead),
        w.koid == Some(source),
    ensures
        ({
            let (w1, n1) = w.after(WatchEvent::Woken(source));
            let (w2, n2) = w1.after(WatchEvent::Returned(a));
            let (w3, n3) = w2.after(WatchEvent::Returned(b));
            let (w4, n4) = w3.after(WatchEvent::Returned(c));
            let note = if w.restart is Never {
                WatchNote::Terminated
            } else if w.left <= 0 {
                WatchNote::BudgetExhausted
            } else {
                WatchNote::RestartRequired
            };
            &&& n1 == Seq::<WatchNote>::empty()
            &&& n2 == (if a == 0 {
                seq![]
            } else {
                seq![WatchNote::UnbindFailed]
            })
            &&& n3 == Seq::<WatchNote>::empty()
            &&& b == 0 && c == 0 ==> n4 == seq![note]
            &&& b != 0 || c != 0 ==> n4 == seq![WatchNote::CleanupFailed, note]
            &&& w4.service is None
            &&& w4.koid is None
            &&& note == WatchNote::RestartRequired ==> w4.left == w.left - 1 && w4.call()
                == WatchCall::Spawn
            &&& note != WatchNote::RestartRequired ==> w4.left == w.left && w4.call()
                == WatchCall::Wait
        }),
{
}

/// Being woken by another object than the watched one changes nothing.
pub proof fn other_objects_do_not_count(w: WatchView, source: Handle)
    requires
        w.phase is Idle,
        w.koid != Some(source),
    ensures
        w.after(WatchEvent::Woken(source)) == (w, Seq::<WatchNote>::empty()),
{
}

/// What is reported of a replacement: that it serves, or the first thing that went wrong with it.
pub proof fn replacements_are_reported(
    w: WatchView,
    fresh: SupervisedServer,
    source: Handle,
    koid: u64,
    bind: u64,
)
    requires
        w.phase == (WatchPhase::Rebuild { source }),
    ensures
        ({
            let w1 = w.after(WatchEvent::Spawned(Some(fresh))).0;
            let good = w1.after(WatchEvent::Answered(true)).0;
            let named = good.after(WatchEvent::Returned(koid)).0;
            let bound = named.after(WatchEvent::Returned(bind)).0;
            &&& w.after(WatchEvent::Spawned(None)) == (
                WatchView { phase: WatchPhase::Idle, ..w },
                seq![WatchNote::SpawnFailed],
            )
            &&& w1.call() == (WatchCall::Clear { client: fresh.client })
            &&& good.call() == (WatchCall::Koid { process: fresh.process })
            &&& dropped(w1.after(WatchEvent::Answered(false)).0, fresh, WatchNote::ServeFailed)
            &&& koid == u64::MAX ==> dropped(named, fresh, WatchNote::RearmFailed)
            &&& koid != u64::MAX ==> {
                &&& named.call() == (WatchCall::Bind { process: fresh.process })
                &&& bind != 0 ==> dropped(bound, fresh, WatchNote::RearmFailed)
                &&& bind == 0 && Handle(koid as u32) == source ==> dropped(
                    bound,
                    fresh,
                    WatchNote::IdentityFailed,
                )
                &&& bind == 0 && Handle(koid as u32) != source ==> {
                    &&& named.after(WatchEvent::Returned(bind)).1 == seq![WatchNote::RestartOk]
                    &&& bound.service == Some(fresh)
                    &&& bound.koid == Some(Handle(koid as u32))
                    &&& bound.left == w.left
                    &&& bound.call() == WatchCall::Wait
                }
            }
        }),
{
}

/// A replacement is given up: both its handles are closed, whatever the closes return, and then the
/// reason is reported.
pub open spec fn dropped(w: WatchView, fresh: SupervisedServer, why: WatchNote) -> bool {
    &&& w.call() == (WatchCall::Close { handle: fresh.process })
    &&& forall|a: u64, b: u64|
        #![trigger w.after(WatchEvent::Returned(a)).0.after(WatchEvent::Returned(b))]
        {
            let (w1, n1) = w.after(WatchEvent::Returned(a));
            let (w2, n2) = w1.after(WatchEvent::Returned(b));
            &&& w1.call() == (WatchCall::Close { handle: fresh.client })
            &&& n1 == Seq::<WatchNote>::empty()
            &&& n2 == seq![why]
            &&& w2 == (WatchView { phase: WatchPhase::Idle, ..w })
        }
}

} // verus!
