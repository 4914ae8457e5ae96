//! Boot-time trials of the servers: scripts of requests with the replies that
//! they must bring.

use vstd::prelude::*;
use vstd::utf8::encode_utf8;

use crate::bytes;
use crate::sora::vmo;
use crate::svc_health;
use crate::ttyd;

verus! {

/// One step of a trial. `slot` says which of the trial's instances it concerns.
#[derive(Clone, Copy, Debug)]
pub enum Step {
    /// An instance is started.
    Spawn { slot: usize, fail: &'static str },
    /// An instance is started at an address where nothing is mapped.
    SpawnAstray { slot: usize, fail: &'static str },
    /// The process handle of an instance must be good.
    Identify { slot: usize, ok: &'static str, fail: &'static str },
    /// The children run until all of them wait.
    Park { fail: &'static str },
    /// A health request must bring this reply.
    Health {
        slot: usize,
        request: svc_health::Request,
        want: svc_health::Response,
        fail: &'static str,
    },
    /// A key must bring this echo and this line.
    Key {
        slot: usize,
        key: u8,
        echo: &'static str,
        line: Option<&'static str>,
        no_reply: &'static str,
        no_parse: &'static str,
        fail: &'static str,
    },
    /// A key must bring some reply.
    Feed { slot: usize, key: u8, fail: &'static str },
    /// A text written to standard output must come out of the terminal.
    PosixWrite { slot: usize, output: &'static str, no_call: &'static str, fail: &'static str },
    /// A read of standard input must bring this text.
    PosixRead { slot: usize, input: &'static str, fail: &'static str },
    /// A health server is asked to end; others must be left, or none.
    Stop { slot: usize, last: bool, fail: &'static str },
    /// A terminal server is asked to end.
    Quit { slot: usize },
    /// The children run; none must be left.
    Gone,
    /// The end of an instance's channel is to be watched.
    Watch { slot: usize },
    /// An instance is made to fail.
    Provoke { slot: usize },
    /// The watch must be woken by just these signals.
    Closed { signals: u32, no_wake: &'static str, fail: &'static str },
    /// A health server is asked to end; none must be left.
    StopLast { slot: usize },
}

/// What came back of a step.
#[derive(Debug)]
pub enum StepEvent {
    /// Something was done, or not.
    Done(bool),
    /// The children ran and the wait returned this status.
    Status(u64),
    /// An exchange brought a reply, or failed.
    Reply(Option<Vec<u8>>),
    /// A write returned a count, or failed, and the terminal showed this.
    Wrote(Option<usize>, Vec<u8>),
    /// A read brought this, or failed.
    Took(Option<Vec<u8>>),
    /// A request was sent or not, and then the wait returned this status.
    Sent(bool, u64),
    /// The watch returned this packet.
    Packet(u64),
    /// There was no instance to start; loading it has said why.
    Unloaded,
}

/// A [`StepEvent`] as plain data.
#[verifier::ext_equal]
pub enum EventView {
    Done(bool),
    Status(u64),
    Reply(Option<Seq<u8>>),
    Wrote(Option<usize>, Seq<u8>),
    Took(Option<Seq<u8>>),
    Sent(bool, u64),
    Packet(u64),
    Unloaded,
}

impl View for StepEvent {
    type V = EventView;

    open spec fn view(&self) -> EventView {
        match self {
            StepEvent::Done(ok) => EventView::Done(*ok),
            StepEvent::Status(s) => EventView::Status(*s),
            StepEvent::Reply(r) => EventView::Reply(vmo::answer(*r)),
            StepEvent::Wrote(n, out) => EventView::Wrote(*n, out@),
            StepEvent::Took(r) => EventView::Took(vmo::answer(*r)),
            StepEvent::Sent(ok, s) => EventView::Sent(*ok, *s),
            StepEvent::Packet(p) => EventView::Packet(*p),
            StepEvent::Unloaded => EventView::Unloaded,
        }
    }
}

/// The statuses of a wait: children are left and all of them wait, or none is
/// left.
#[derive(Clone, Copy, Debug, PartialEq, Eq, Structural)]
pub struct WaitStatus {
    pub parked: u64,
    pub gone: u64,
}

impl WaitStatus {
    /// Whether children are left, all of them waiting.
    pub fn child_parked(&self, status: u64) -> (r: bool)
        ensures
            r == (status == self.parked),
    {
        status == self.parked
    }

    /// Whether no child is left.
    pub fn all_residents_gone(&self, status: u64) -> (r: bool)
        ensures
            r == (status == self.gone),
    {
        status == self.gone
    }
}

/// What a step reports: nothing, or a line for the log, and whether the trial
/// goes on.
#[derive(Clone, Copy, Debug)]
pub struct Outcome {
    pub go_on: bool,
    pub line: Option<&'static str>,
}

pub open spec fn fine() -> Outcome {
    Outcome { go_on: true, line: None }
}

pub open spec fn failed(line: &'static str) -> Outcome {
    Outcome { go_on: false, line: Some(line) }
}

pub open spec fn checked(ok: bool, line: &'static str) -> Outcome {
    if ok {
        fine()
    } else {
        failed(line)
    }
}

/// A text is missing or equals these bytes.
pub open spec fn line_is(want: Option<&'static str>, line: Option<Seq<u8>>) -> bool {
    match want {
        Some(w) => line == Some(encode_utf8(w@)),
        None => line is None,
    }
}

/// What comes of a step. An event that does not answer the step fails it.
pub open spec fn outcome_of(step: Step, e: EventView, w: WaitStatus) -> Outcome {
    match (step, e) {
        (Step::Spawn { fail, .. }, EventView::Done(ok)) => checked(ok, fail),
        (Step::SpawnAstray { fail, .. }, EventView::Done(ok)) => checked(ok, fail),
        (Step::Identify { ok: line, fail, .. }, EventView::Done(ok)) => if ok {
            Outcome { go_on: true, line: Some(line) }
        } else {
            failed(fail)
        },
        (Step::Park { fail }, EventView::Status(s)) => checked(s == w.parked, fail),
        (Step::Health { want, fail, .. }, EventView::Reply(r)) => checked(
            r matches Some(raw) && svc_health::response_of(raw) == Some(want),
            fail,
        ),
        (Step::Key { echo, line, no_reply, no_parse, fail, .. }, EventView::Reply(r)) => match r {
            None => failed(no_reply),
            Some(raw) => match ttyd::reply_of(raw) {
                None => failed(no_parse),
                Some(v) => checked(
                    v.status == 0x00 && v.echo == encode_utf8(echo@) && line_is(line, v.line),
                    fail,
                ),
            },
        },
        (Step::Feed { fail, .. }, EventView::Reply(r)) => checked(r is Some, fail),
        (Step::PosixWrite { output, no_call, fail, .. }, EventView::Wrote(n, shown)) => if n
            matches Some(count) && count == encode_utf8(output@).len() {
            checked(shown == encode_utf8(output@), fail)
        } else {
            failed(no_call)
        },
        (Step::PosixRead { input, fail, .. }, EventView::Took(r)) => checked(
            r == Some(encode_utf8(input@)),
            fail,
        ),
        (Step::Stop { last, fail, .. }, EventView::Status(s)) => checked(
            s == (if last {
                w.gone
            } else {
                w.parked
            }),
            fail,
        ),
        (Step::Quit { .. }, EventView::Sent(ok, s)) => Outcome {
            go_on: ok && (s == w.parked || s == w.gone),
            line: None,
        },
        (Step::Gone, EventView::Status(s)) => Outcome { go_on: s == w.gone, line: None },
        (Step::Watch { .. }, EventView::Done(ok)) => Outcome { go_on: ok, line: None },
        (Step::Provoke { .. }, EventView::Done(ok)) => Outcome { go_on: ok, line: None },
        (Step::Closed { signals, no_wake, fail }, EventView::Packet(p)) => if p == 0 {
            failed(no_wake)
        } else {
            checked(p % 0x1_0000_0000 == signals, fail)
        },
        (Step::StopLast { .. }, EventView::Status(s)) => Outcome { go_on: s == w.gone, line: None },
        _ => Outcome { go_on: false, line: None },
    }
}

fn judge(ok: bool, line: &'static str) -> (o: Outcome)
    ensures
        o == checked(ok, line),
{
    if ok {
        Outcome { go_on: true, line: None }
    } else {
        Outcome { go_on: false, line: Some(line) }
    }
}

fn is_text(raw: &[u8], s: &str) -> (r: bool)
    ensures
        r == (raw@ == encode_utf8(s@)),
{
    bytes::bytes_equal(raw, s.as_bytes())
}

/// Judges what came back of a key.
fn judge_key(
    reply: Option<&[u8]>,
    echo: &'static str,
    line: Option<&'static str>,
    no_reply: &'static str,
    no_parse: &'static str,
    fail: &'static str,
) -> (o: Outcome)
    ensures
        o == (match reply {
            None => failed(no_reply),
            Some(raw) => match ttyd::reply_of(raw@) {
                None => failed(no_parse),
                Some(v) => checked(
                    v.status == 0x00 && v.echo == encode_utf8(echo@) && line_is(line, v.line),
                    fail,
                ),
            },
        }),
{
    let raw: &[u8] = match reply {
        None => return judge(false, no_reply),
        Some(raw) => raw,
    };
    let v: ttyd::Reply = match ttyd::Reply::parse(raw) {
        None => return judge(false, no_parse),
        Some(v) => v,
    };
    let line_ok: bool = match (line, v.line) {
        (Some(w), Some(l)) => is_text(l, w),
        (None, None) => true,
        _ => false,
    };
    judge(v.status == ttyd::TTY_OK && is_text(v.echo, echo) && line_ok, fail)
}

/// Judges what came back of a step.
pub fn outcome(step: &Step, e: &StepEvent, w: &WaitStatus) -> (o: Outcome)
    ensures
        o == outcome_of(*step, e@, *w),
{
    match (*step, e) {
        (Step::Spawn { fail, .. }, StepEvent::Done(ok)) => judge(*ok, fail),
        (Step::SpawnAstray { fail, .. }, StepEvent::Done(ok)) => judge(*ok, fail),
        (Step::Identify { ok: line, fail, .. }, StepEvent::Done(ok)) => {
            if *ok {
                Outcome { go_on: true, line: Some(line) }
            } else {
                judge(false, fail)
            }
        },
        (Step::Park { fail }, StepEvent::Status(s)) => judge(w.child_parked(*s), fail),
        (Step::Health { want, fail, .. }, StepEvent::Reply(r)) => {
            let ok: bool = match r {
                Some(raw) => match svc_health::Response::decode(raw) {
                    Some(got) => got == want,
                    None => false,
                },
                None => false,
            };
            judge(ok, fail)
        },
        (Step::Key { echo, line, no_reply, no_parse, fail, .. }, StepEvent::Reply(r)) => match r {
            Some(raw) => judge_key(Some(raw), echo, line, no_reply, no_parse, fail),
            None => judge_key(None, echo, line, no_reply, no_parse, fail),
        },
        (Step::Feed { fail, .. }, StepEvent::Reply(r)) => judge(r.is_some(), fail),
        (Step::PosixWrite { output, no_call, fail, .. }, StepEvent::Wrote(n, shown)) => {
            let called: bool = match n {
                Some(count) => *count == output.as_bytes().len(),
                None => false,
            };
            if called {
                judge(is_text(shown, output), fail)
            } else {
                judge(false, no_call)
            }
        },
        (Step::PosixRead { input, fail, .. }, StepEvent::Took(r)) => {
            let ok: bool = match r {
                Some(got) => is_text(got, input),
                None => false,
            };
            judge(ok, fail)
        },
        (Step::Stop { last, fail, .. }, StepEvent::Status(s)) => {
            let ok: bool = if last {
                w.all_residents_gone(*s)
            } else {
                w.child_parked(*s)
            };
            judge(ok, fail)
        },
        (Step::Quit { .. }, StepEvent::Sent(ok, s)) => Outcome {
            go_on: *ok && (w.child_parked(*s) || w.all_residents_gone(*s)),
            line: None,
        },
        (Step::Gone, StepEvent::Status(s)) => Outcome {
            go_on: w.all_residents_gone(*s),
            line: None,
        },
        (Step::Watch { .. }, StepEvent::Done(ok)) => Outcome { go_on: *ok, line: None },
        (Step::Provoke { .. }, StepEvent::Done(ok)) => Outcome { go_on: *ok, line: None },
        (Step::Closed { signals, no_wake, fail }, StepEvent::Packet(p)) => {
            if *p == 0 {
                judge(false, no_wake)
            } else {
                judge(*p % 0x1_0000_0000 == signals as u64, fail)
            }
        },
        (Step::StopLast { .. }, StepEvent::Status(s)) => Outcome {
            go_on: w.all_residents_gone(*s),
            line: None,
        },
        _ => Outcome { go_on: false, line: None },
    }
}

/// A trial in progress: its script, the steps done so far, and whether one of
/// them failed.
#[derive(Debug)]
pub struct Trial {
    pub steps: Vec<Step>,
    pub done: usize,
    pub failed: bool,
    pub wait: WaitStatus,
}

impl Trial {
    pub open spec fn wf(self) -> bool {
        self.done <= self.steps@.len()
    }

    pub fn new(steps: Vec<Step>, wait: WaitStatus) -> (t: Trial)
        ensures
            t == (Trial { steps, done: 0, failed: false, wait }),
            t.wf(),
    {
        Trial { steps, done: 0, failed: false, wait }
    }

    /// The step to do next. `None` once the trial is over.
    pub fn step(&self) -> (s: Option<Step>)
        requires
            self.wf(),
        ensures
            s == (if self.failed || self.done == self.steps@.len() {
                None
            } else {
                Some(self.steps@[self.done as int])
            }),
    {
        if self.failed || self.done == self.steps.len() {
            None
        } else {
            Some(self.steps[self.done])
        }
    }

    /// Takes what came back of the step and returns the line to log, if any.
    pub fn advance(&mut self, e: &StepEvent) -> (line: Option<&'static str>)
        requires
            old(self).wf(),
            !old(self).failed,
            old(self).done < old(self).steps@.len(),
        ensures
            final(self).wf(),
            ({
                let o = outcome_of(
                    old(self).steps@[old(self).done as int],
                    e@,
                    old(self).wait,
                );
                &&& line == o.line
                &&& final(self).steps == old(self).steps
                &&& final(self).wait == old(self).wait
                &&& final(self).failed == !o.go_on
                &&& final(self).done == (if o.go_on {
                    old(self).done + 1
                } else {
                    old(self).done as int
                })
            }),
    {
        let count: usize = self.steps.len();
        let step: Step = self.steps[self.done];
        let o: Outcome = outcome(&step, e, &self.wait);
        if o.go_on {
            self.done = self.done + 1;
        } else {
            self.failed = true;
        }
        o.line
    }

    /// Whether every step was done and none failed.
    pub fn passed(&self) -> (r: bool)
        requires
            self.wf(),
        ensures
            r == (!self.failed && self.done == self.steps@.len()),
    {
        !self.failed && self.done == self.steps.len()
    }
}

/// Two health servers side by side: each answers on its own channel and counts
/// only its own requests, and one goes on when the other ends.
pub open spec fn pair_script() -> Seq<Step> {
    let status = svc_health::Response::Status { uptime_ticks: 0, served: 2 };
    seq![
        Step::Spawn { slot: 0, fail: "svc-pair: run1 fail\n" },
        Step::Spawn { slot: 1, fail: "svc-pair: run2 fail\n" },
        Step::Park { fail: "svc-pair: park fail\n" },
        Step::Health {
            slot: 0,
            request: svc_health::Request::Ping,
            want: svc_health::Response::Pong,
            fail: "svc-pair: ping1 fail\n",
        },
        Step::Health {
            slot: 1,
            request: svc_health::Request::Ping,
            want: svc_health::Response::Pong,
            fail: "svc-pair: ping2 fail\n",
        },
        Step::Health {
            slot: 0,
            request: svc_health::Request::Status,
            want: status,
            fail: "svc-pair: status1 fail\n",
        },
        Step::Health {
            slot: 1,
            request: svc_health::Request::Status,
            want: status,
            fail: "svc-pair: status2 fail\n",
        },
        Step::Stop { slot: 0, last: false, fail: "svc-pair: shutdown1 fail\n" },
        Step::Health {
            slot: 1,
            request: svc_health::Request::Ping,
            want: svc_health::Response::Pong,
            fail: "svc-pair: survivor fail\n",
        },
        Step::Stop { slot: 1, last: true, fail: "svc-pair: shutdown2 fail\n" },
    ]
}

/// The trial of [`pair_script`].
pub fn svc_health_pair_smoke() -> (v: Vec<Step>)
    ensures
        v@ == pair_script(),
{
    let status: svc_health::Response = svc_health::Response::Status { uptime_ticks: 0, served: 2 };
    let ping: svc_health::Request = svc_health::Request::Ping;
    let ask: svc_health::Request = svc_health::Request::Status;
    let pong: svc_health::Response = svc_health::Response::Pong;
    let mut v: Vec<Step> = Vec::new();
    v.push(Step::Spawn { slot: 0, fail: "svc-pair: run1 fail\n" });
    v.push(Step::Spawn { slot: 1, fail: "svc-pair: run2 fail\n" });
    v.push(Step::Park { fail: "svc-pair: park fail\n" });
    v.push(Step::Health { slot: 0, request: ping, want: pong, fail: "svc-pair: ping1 fail\n" });
    v.push(Step::Health { slot: 1, request: ping, want: pong, fail: "svc-pair: ping2 fail\n" });
    v.push(Step::Health { slot: 0, request: ask, want: status, fail: "svc-pair: status1 fail\n" });
    v.push(Step::Health { slot: 1, request: ask, want: status, fail: "svc-pair: status2 fail\n" });
    v.push(Step::Stop { slot: 0, last: false, fail: "svc-pair: shutdown1 fail\n" });
    v.push(Step::Health { slot: 1, request: ping, want: pong, fail: "svc-pair: survivor fail\n" });
    v.push(Step::Stop { slot: 1, last: true, fail: "svc-pair: shutdown2 fail\n" });
    assert(v@ =~= pair_script());
    v
}

/// A health server ends and is started again: the new instance counts from
/// zero.
pub open spec fn restart_script() -> Seq<Step> {
    seq![
        Step::Spawn { slot: 0, fail: "svc-restart: a spawn fail\n" },
        Step::Park { fail: "svc-restart: a park fail\n" },
        Step::Health {
            slot: 0,
            request: svc_health::Request::Ping,
            want: svc_health::Response::Pong,
            fail: "svc-restart: a ping fail\n",
        },
        Step::Health {
            slot: 0,
            request: svc_health::Request::Status,
            want: svc_health::Response::Status { uptime_ticks: 0, served: 2 },
            fail: "svc-restart: a status fail\n",
        },
        Step::Stop { slot: 0, last: true, fail: "svc-restart: a shutdown fail\n" },
        Step::Spawn { slot: 1, fail: "svc-restart: respawn fail\n" },
        Step::Park { fail: "svc-restart: b park fail\n" },
        Step::Health {
            slot: 1,
            request: svc_health::Request::Status,
            want: svc_health::Response::Status { uptime_ticks: 0, served: 1 },
            fail: "svc-restart: b state fail\n",
        },
        Step::Stop { slot: 1, last: true, fail: "svc-restart: b shutdown fail\n" },
    ]
}

/// The trial of [`restart_script`].
pub fn svc_health_restart_smoke() -> (v: Vec<Step>)
    ensures
        v@ == restart_script(),
{
    let mut v: Vec<Step> = Vec::new();
    v.push(Step::Spawn { slot: 0, fail: "svc-restart: a spawn fail\n" });
    v.push(Step::Park { fail: "svc-restart: a park fail\n" });
    v.push(
        Step::Health {
            slot: 0,
            request: svc_health::Request::Ping,
            want: svc_health::Response::Pong,
            fail: "svc-restart: a ping fail\n",
        },
    );
    v.push(
        Step::Health {
            slot: 0,
            request: svc_health::Request::Status,
            want: svc_health::Response::Status { uptime_ticks: 0, served: 2 },
            fail: "svc-restart: a status fail\n",
        },
    );
    v.push(Step::Stop { slot: 0, last: true, fail: "svc-restart: a shutdown fail\n" });
    v.push(Step::Spawn { slot: 1, fail: "svc-restart: respawn fail\n" });
    v.push(Step::Park { fail: "svc-restart: b park fail\n" });
    v.push(
        Step::Health {
            slot: 1,
            request: svc_health::Request::Status,
            want: svc_health::Response::Status { uptime_ticks: 0, served: 1 },
            fail: "svc-restart: b state fail\n",
        },
    );
    v.push(Step::Stop { slot: 1, last: true, fail: "svc-restart: b shutdown fail\n" });
    assert(v@ =~= restart_script());
    v
}

/// A process that faults at once ends alone.
pub open spec fn containment_script() -> Seq<Step> {
    seq![Step::SpawnAstray { slot: 0, fail: "svc-crash: run fail\n" }, Step::Gone]
}

/// The address at which [`containment_script`] starts its process.
pub const BOGUS_ENTRY: u64 = 0xdead_0000;

/// The trial of [`containment_script`].
pub fn crash_containment_smoke() -> (v: Vec<Step>)
    ensures
        v@ == containment_script(),
{
    let mut v: Vec<Step> = Vec::new();
    v.push(Step::SpawnAstray { slot: 0, fail: "svc-crash: run fail\n" });
    v.push(Step::Gone);
    assert(v@ =~= containment_script());
    v
}

/// A health server fails, its watch tells so, and the instance started in its
/// place counts from zero. `peer_closed` is the signal of a channel whose other
/// end is gone.
pub open spec fn crash_restart_script(peer_closed: u32) -> Seq<Step> {
    seq![
        Step::Spawn { slot: 0, fail: "svc-crash-restart: spawn fail\n" },
        Step::Health {
            slot: 0,
            request: svc_health::Request::Ping,
            want: svc_health::Response::Pong,
            fail: "svc-crash-restart: ping 1 fail\n",
        },
        Step::Watch { slot: 0 },
        Step::Provoke { slot: 0 },
        Step::Closed {
            signals: peer_closed,
            no_wake: "svc-crash-restart: port wait fail\n",
            fail: "svc-crash-restart: missing PEER_CLOSED signal\n",
        },
        Step::Spawn { slot: 1, fail: "svc-crash-restart: respawn fail\n" },
        Step::Health {
            slot: 1,
            request: svc_health::Request::Status,
            want: svc_health::Response::Status { uptime_ticks: 0, served: 1 },
            fail: "svc-crash-restart: fresh status fail\n",
        },
        Step::StopLast { slot: 1 },
    ]
}

/// The trial of [`crash_restart_script`].
pub fn crash_restart_smoke(peer_closed: u32) -> (v: Vec<Step>)
    ensures
        v@ == crash_restart_script(peer_closed),
{
    let mut v: Vec<Step> = Vec::new();
    v.push(Step::Spawn { slot: 0, fail: "svc-crash-restart: spawn fail\n" });
    v.push(
        Step::Health {
            slot: 0,
            request: svc_health::Request::Ping,
            want: svc_health::Response::Pong,
            fail: "svc-crash-restart: ping 1 fail\n",
        },
    );
    v.push(Step::Watch { slot: 0 });
    v.push(Step::Provoke { slot: 0 });
    v.push(
        Step::Closed {
            signals: peer_closed,
            no_wake: "svc-crash-restart: port wait fail\n",
            fail: "svc-crash-restart: missing PEER_CLOSED signal\n",
        },
    );
    v.push(Step::Spawn { slot: 1, fail: "svc-crash-restart: respawn fail\n" });
    v.push(
        Step::Health {
            slot: 1,
            request: svc_health::Request::Status,
            want: svc_health::Response::Status { uptime_ticks: 0, served: 1 },
            fail: "svc-crash-restart: fresh status fail\n",
        },
    );
    v.push(Step::StopLast { slot: 1 });
    assert(v@ =~= crash_restart_script(peer_closed));
    v
}

/// A terminal server echoes two keys and hands over the line that enter
/// completes.
pub open spec fn ttyd_script() -> Seq<Step> {
    seq![
        Step::Spawn { slot: 0, fail: "ttyd: spawn fail\n" },
        Step::Identify {
            slot: 0,
            ok: "ttyd: process handle ok\n",
            fail: "ttyd: process handle fail\n",
        },
        Step::Park { fail: "ttyd: park fail\n" },
        Step::Key {
            slot: 0,
            key: 0x68,
            echo: "h",
            line: None,
            no_reply: "ttyd: h fail\n",
            no_parse: "ttyd: h parse fail\n",
            fail: "ttyd: h reply fail\n",
        },
        Step::Key {
            slot: 0,
            key: 0x69,
            echo: "i",
            line: None,
            no_reply: "ttyd: i fail\n",
            no_parse: "ttyd: i parse fail\n",
            fail: "ttyd: i reply fail\n",
        },
        Step::Key {
            slot: 0,
            key: 0x0a,
            echo: "\r\n",
            line: Some("hi"),
            no_reply: "ttyd: enter fail\n",
            no_parse: "ttyd: enter parse fail\n",
            fail: "ttyd: line fail\n",
        },
        Step::Quit { slot: 0 },
    ]
}

/// The trial of [`ttyd_script`].
pub fn ttyd_smoke() -> (v: Vec<Step>)
    ensures
        v@ == ttyd_script(),
{
    let mut v: Vec<Step> = Vec::new();
    v.push(Step::Spawn { slot: 0, fail: "ttyd: spawn fail\n" });
    v.push(
        Step::Identify {
            slot: 0,
            ok: "ttyd: process handle ok\n",
            fail: "ttyd: process handle fail\n",
        },
    );
    v.push(Step::Park { fail: "ttyd: park fail\n" });
    v.push(
        Step::Key {
            slot: 0,
            key: 0x68,
            echo: "h",
            line: None,
            no_reply: "ttyd: h fail\n",
            no_parse: "ttyd: h parse fail\n",
            fail: "ttyd: h reply fail\n",
        },
    );
    v.push(
        Step::Key {
            slot: 0,
            key: 0x69,
            echo: "i",
            line: None,
            no_reply: "ttyd: i fail\n",
            no_parse: "ttyd: i parse fail\n",
            fail: "ttyd: i reply fail\n",
        },
    );
    v.push(
        Step::Key {
            slot: 0,
            key: 0x0a,
            echo: "\r\n",
            line: Some("hi"),
            no_reply: "ttyd: enter fail\n",
            no_parse: "ttyd: enter parse fail\n",
            fail: "ttyd: line fail\n",
        },
    );
    v.push(Step::Quit { slot: 0 });
    assert(v@ =~= ttyd_script());
    v
}

/// Standard output reaches the terminal.
pub open spec fn posix_write_script() -> Seq<Step> {
    seq![
        Step::Spawn { slot: 0, fail: "persona-posix: tty spawn fail\n" },
        Step::Park { fail: "persona-posix: tty park fail\n" },
        Step::PosixWrite {
            slot: 0,
            output: "ok\n",
            no_call: "persona-posix: tty write call fail\n",
            fail: "persona-posix: tty output fail\n",
        },
        Step::Quit { slot: 0 },
    ]
}

/// The trial of [`posix_write_script`].
pub fn persona_posix_tty_write_smoke() -> (v: Vec<Step>)
    ensures
        v@ == posix_write_script(),
{
    let mut v: Vec<Step> = Vec::new();
    v.push(Step::Spawn { slot: 0, fail: "persona-posix: tty spawn fail\n" });
    v.push(Step::Park { fail: "persona-posix: tty park fail\n" });
    v.push(
        Step::PosixWrite {
            slot: 0,
            output: "ok\n",
            no_call: "persona-posix: tty write call fail\n",
            fail: "persona-posix: tty output fail\n",
        },
    );
    v.push(Step::Quit { slot: 0 });
    assert(v@ =~= posix_write_script());
    v
}

/// Standard input hands over a typed line once.
pub open spec fn posix_read_script() -> Seq<Step> {
    let feed = "persona-posix: tty read feed fail\n";
    seq![
        Step::Spawn { slot: 0, fail: "persona-posix: tty read spawn fail\n" },
        Step::Park { fail: "persona-posix: tty read park fail\n" },
        Step::Feed { slot: 0, key: 0x6f, fail: feed },
        Step::Feed { slot: 0, key: 0x6b, fail: feed },
        Step::Feed { slot: 0, key: 0x0a, fail: feed },
        Step::PosixRead { slot: 0, input: "ok", fail: "persona-posix: tty read call fail\n" },
        Step::PosixRead { slot: 0, input: "", fail: "persona-posix: tty read drain fail\n" },
        Step::Quit { slot: 0 },
    ]
}

/// The trial of [`posix_read_script`].
pub fn persona_posix_tty_read_smoke() -> (v: Vec<Step>)
    ensures
        v@ == posix_read_script(),
{
    let feed: &'static str = "persona-posix: tty read feed fail\n";
    let mut v: Vec<Step> = Vec::new();
    v.push(Step::Spawn { slot: 0, fail: "persona-posix: tty read spawn fail\n" });
    v.push(Step::Park { fail: "persona-posix: tty read park fail\n" });
    v.push(Step::Feed { slot: 0, key: 0x6f, fail: feed });
    v.push(Step::Feed { slot: 0, key: 0x6b, fail: feed });
    v.push(Step::Feed { slot: 0, key: 0x0a, fail: feed });
    v.push(Step::PosixRead { slot: 0, input: "ok", fail: "persona-posix: tty read call fail\n" });
    v.push(Step::PosixRead { slot: 0, input: "", fail: "persona-posix: tty read drain fail\n" });
    v.push(Step::Quit { slot: 0 });
    assert(v@ =~= posix_read_script());
    v
}

/// What a terminal has shown during a trial; it keeps the first sixteen bytes.
#[derive(Clone, Debug)]
pub struct Shown {
    bytes: Vec<u8>,
}

impl View for Shown {
    type V = Seq<u8>;

    closed spec fn view(&self) -> Seq<u8> {
        self.bytes@
    }
}

/// The start of `s`, at most `n` bytes of it.
pub open spec fn clipped(s: Seq<u8>, n: int) -> Seq<u8> {
    if s.len() <= n {
        s
    } else {
        s.subrange(0, n)
    }
}

impl Shown {
    pub open spec fn wf(self) -> bool {
        self@.len() <= 16
    }

    pub fn new() -> (s: Shown)
        ensures
            s.wf(),
            s@ == Seq::<u8>::empty(),
    {
        Shown { bytes: Vec::new() }
    }

    pub fn output(&self) -> (r: &[u8])
        ensures
            r@ == self@,
    {
        &self.bytes
    }

    /// Takes the echo out of a terminal's reply.
    pub fn collect(&mut self, reply: &[u8])
        requires
            old(self).wf(),
        ensures
            final(self).wf(),
            final(self)@ == (match ttyd::reply_of(reply@) {
                Some(v) => clipped(old(self)@ + v.echo, 16),
                None => old(self)@,
            }),
    {
        match ttyd::Reply::parse(reply) {
            None => {},
            Some(v) => {
                let ghost before = self@;
                let room: usize = 16 - self.bytes.len();
                let take: usize = bytes::min_len(v.echo.len(), room);
                bytes::append(&mut self.bytes, &v.echo[0..take]);
                assert(self@ =~= clipped(before + v.echo@, 16));
            },
        }
    }
}

/// The health servers of a trial: the counters of each running instance.
pub type Residents = Map<int, svc_health::HealthView>;

/// What a step brings where every server does its work, and what is left
/// running.
pub open spec fn played(step: Step, r: Residents, w: WaitStatus) -> (EventView, Residents) {
    let fresh = svc_health::HealthView { uptime_ticks: 0, served: 0 };
    match step {
        Step::Spawn { slot, .. } => (EventView::Done(true), r.insert(slot as int, fresh)),
        Step::Health { slot, request, .. } => {
            let (h, reply) = svc_health::dispatched(
                r[slot as int],
                svc_health::request_frame(request),
            );
            (
                EventView::Reply(Some(svc_health::response_frame(reply))),
                r.insert(slot as int, h),
            )
        },
        Step::Stop { slot, .. } => {
            let left = r.remove(slot as int);
            (
                EventView::Status(
                    if left.dom() == Set::<int>::empty() {
                        w.gone
                    } else {
                        w.parked
                    },
                ),
                left,
            )
        },
        _ => (EventView::Status(w.parked), r),
    }
}

/// Every step of a script passes where every server does its work.
pub open spec fn plays_well(steps: Seq<Step>, r: Residents, w: WaitStatus) -> bool
    decreases steps.len(),
{
    if steps.len() == 0 {
        true
    } else {
        let (e, next) = played(steps[0], r, w);
        outcome_of(steps[0], e, w).go_on && plays_well(
            steps.subrange(1, steps.len() as int),
            next,
            w,
        )
    }
}

proof fn lemma_first_step(steps: Seq<Step>, step: Step, rest: Seq<Step>, r: Residents, w: WaitStatus)
    requires
        steps == seq![step] + rest,
        outcome_of(step, played(step, r, w).0, w).go_on,
        plays_well(rest, played(step, r, w).1, w),
    ensures
        plays_well(steps, r, w),
{
    assert(steps.subrange(1, steps.len() as int) =~= rest);
}

proof fn lemma_health_step(slot: usize, r: Residents, w: WaitStatus, step: Step)
    requires
        step matches Step::Health { slot: s, request, want, .. } && s == slot
            && svc_health::handled(r[slot as int], request).1 == want,
    ensures
        outcome_of(step, played(step, r, w).0, w).go_on,
        step matches Step::Health { request, .. } ==> played(step, r, w).1 == r.insert(
            slot as int,
            svc_health::handled(r[slot as int], request).0,
        ),
{
    match step {
        Step::Health { slot: _, request, want, fail: _ } => {
            svc_health::requests_round_trip(request);
            svc_health::responses_round_trip(want);
        },
        _ => {},
    }
}

/// The trial of two health servers passes where both do their work: neither
/// sees the other's requests, and each ends alone.
pub proof fn pair_trial_passes(w: WaitStatus)
    ensures
        plays_well(pair_script(), Map::empty(), w),
{
    let s = pair_script();
    let r0: Residents = Map::empty();
    let r1 = played(s[0], r0, w).1;
    let r2 = played(s[1], r1, w).1;
    let r3 = played(s[2], r2, w).1;
    lemma_health_step(0, r3, w, s[3]);
    let r4 = played(s[3], r3, w).1;
    lemma_health_step(1, r4, w, s[4]);
    let r5 = played(s[4], r4, w).1;
    lemma_health_step(0, r5, w, s[5]);
    let r6 = played(s[5], r5, w).1;
    lemma_health_step(1, r6, w, s[6]);
    let r7 = played(s[6], r6, w).1;
    let r8 = played(s[7], r7, w).1;
    assert(r8.dom().contains(1));
    lemma_health_step(1, r8, w, s[8]);
    let r9 = played(s[8], r8, w).1;
    let r10 = played(s[9], r9, w).1;
    assert(r10.dom() =~= Set::empty());
    let tail = |i: int| s.subrange(i, 10);
    assert(plays_well(tail(10), r10, w));
    assert(tail(9) =~= seq![s[9]] + tail(10));
    lemma_first_step(tail(9), s[9], tail(10), r9, w);
    assert(tail(8) =~= seq![s[8]] + tail(9));
    lemma_first_step(tail(8), s[8], tail(9), r8, w);
    assert(tail(7) =~= seq![s[7]] + tail(8));
    lemma_first_step(tail(7), s[7], tail(8), r7, w);
    assert(tail(6) =~= seq![s[6]] + tail(7));
    lemma_first_step(tail(6), s[6], tail(7), r6, w);
    assert(tail(5) =~= seq![s[5]] + tail(6));
    lemma_first_step(tail(5), s[5], tail(6), r5, w);
    assert(tail(4) =~= seq![s[4]] + tail(5));
    lemma_first_step(tail(4), s[4], tail(5), r4, w);
    assert(tail(3) =~= seq![s[3]] + tail(4));
    lemma_first_step(tail(3), s[3], tail(4), r3, w);
    assert(tail(2) =~= seq![s[2]] + tail(3));
    lemma_first_step(tail(2), s[2], tail(3), r2, w);
    assert(tail(1) =~= seq![s[1]] + tail(2));
    lemma_first_step(tail(1), s[1], tail(2), r1, w);
    assert(s =~= seq![s[0]] + tail(1));
    lemma_first_step(s, s[0], tail(1), r0, w);
}

/// The trial of a restart passes where the server does its work and the new
/// instance is a fresh one.
pub proof fn restart_trial_passes(w: WaitStatus)
    ensures
        plays_well(restart_script(), Map::empty(), w),
{
    let s = restart_script();
    let r0: Residents = Map::empty();
    let r1 = played(s[0], r0, w).1;
    let r2 = played(s[1], r1, w).1;
    lemma_health_step(0, r2, w, s[2]);
    let r3 = played(s[2], r2, w).1;
    lemma_health_step(0, r3, w, s[3]);
    let r4 = played(s[3], r3, w).1;
    let r5 = played(s[4], r4, w).1;
    assert(r5.dom() =~= Set::empty());
    let r6 = played(s[5], r5, w).1;
    let r7 = played(s[6], r6, w).1;
    lemma_health_step(1, r7, w, s[7]);
    let r8 = played(s[7], r7, w).1;
    let r9 = played(s[8], r8, w).1;
    assert(r9.dom() =~= Set::empty());
    let tail = |i: int| s.subrange(i, 9);
    assert(plays_well(tail(9), r9, w));
    assert(tail(8) =~= seq![s[8]] + tail(9));
    lemma_first_step(tail(8), s[8], tail(9), r8, w);
    assert(tail(7) =~= seq![s[7]] + tail(8));
    lemma_first_step(tail(7), s[7], tail(8), r7, w);
    assert(tail(6) =~= seq![s[6]] + tail(7));
    lemma_first_step(tail(6), s[6], tail(7), r6, w);
    assert(tail(5) =~= seq![s[5]] + tail(6));
    lemma_first_step(tail(5), s[5], tail(6), r5, w);
    assert(tail(4) =~= seq![s[4]] + tail(5));
    lemma_first_step(tail(4), s[4], tail(5), r4, w);
    assert(tail(3) =~= seq![s[3]] + tail(4));
    lemma_first_step(tail(3), s[3], tail(4), r3, w);
    assert(tail(2) =~= seq![s[2]] + tail(3));
    lemma_first_step(tail(2), s[2], tail(3), r2, w);
    assert(tail(1) =~= seq![s[1]] + tail(2));
    lemma_first_step(tail(1), s[1], tail(2), r1, w);
    assert(s =~= seq![s[0]] + tail(1));
    lemma_first_step(s, s[0], tail(1), r0, w);
}

/// A step that starts or finds an instance passes just where that was done, and fails with its own
/// complaint.
pub proof fn starts_pass_where_done(slot: usize, line: &'static str, fail: &'static str, ok: bool, w:
    WaitStatus)
    ensures
        ({
            let spawn = outcome_of(Step::Spawn { slot, fail }, EventView::Done(ok), w);
            let astray = outcome_of(Step::SpawnAstray { slot, fail }, EventView::Done(ok), w);
            let found = outcome_of(
                Step::Identify { slot, ok: line, fail },
                EventView::Done(ok),
                w,
            );
            &&& spawn.go_on == ok && astray.go_on == ok && found.go_on == ok
            &&& ok ==> spawn.line is None && astray.line is None && found.line == Some(line)
            &&& !ok ==> spawn.line == Some(fail) && astray.line == Some(fail) && found.line == Some(
                fail,
            )
            &&& outcome_of(Step::Watch { slot }, EventView::Done(ok), w).go_on == ok
            &&& outcome_of(Step::Provoke { slot }, EventView::Done(ok), w).go_on == ok
        }),
{
}

/// A step that waits passes just where the wait returned the status that it wants: that all children
/// wait, or that none is left.
pub proof fn waits_pass_on_their_status(
    slot: usize,
    last: bool,
    fail: &'static str,
    sent: bool,
    status: u64,
    w: WaitStatus,
)
    ensures
        ({
            let e = EventView::Status(status);
            let stop = outcome_of(Step::Stop { slot, last, fail }, e, w);
            &&& outcome_of(Step::Park { fail }, e, w).go_on <==> status == w.parked
            &&& status != w.parked ==> outcome_of(Step::Park { fail }, e, w).line == Some(fail)
            &&& last ==> (stop.go_on <==> status == w.gone)
            &&& !last ==> (stop.go_on <==> status == w.parked)
            &&& !stop.go_on ==> stop.line == Some(fail)
            &&& outcome_of(Step::Gone, e, w).go_on <==> status == w.gone
            &&& outcome_of(Step::StopLast { slot }, e, w).go_on <==> status == w.gone
            &&& outcome_of(Step::Quit { slot }, EventView::Sent(sent, status), w).go_on <==> sent && (
            status == w.parked || status == w.gone)
        }),
{
}

/// A health request passes just where the reply is the wanted one.
pub proof fn health_replies_have_to_fit(
    slot: usize,
    request: svc_health::Request,
    want: svc_health::Response,
    fail: &'static str,
    raw: Seq<u8>,
    w: WaitStatus,
)
    ensures
        ({
            let step = Step::Health { slot, request, want, fail };
            let o = outcome_of(step, EventView::Reply(Some(raw)), w);
            &&& o.go_on <==> svc_health::response_of(raw) == Some(want)
            &&& !o.go_on ==> o.line == Some(fail)
            &&& !outcome_of(step, EventView::Reply(None), w).go_on
        }),
{
}

/// A key passes just where its reply has the status 0, the wanted echo and the wanted line; a missing
/// reply and one that cannot be read have complaints of their own.
pub proof fn key_replies_have_to_fit(
    slot: usize,
    key: u8,
    echo: &'static str,
    line: Option<&'static str>,
    no_reply: &'static str,
    no_parse: &'static str,
    fail: &'static str,
    raw: Seq<u8>,
    w: WaitStatus,
)
    ensures
        ({
            let step = Step::Key { slot, key, echo, line, no_reply, no_parse, fail };
            let o = outcome_of(step, EventView::Reply(Some(raw)), w);
            &&& outcome_of(step, EventView::Reply(None), w) == (Outcome {
                go_on: false,
                line: Some(no_reply),
            })
            &&& ttyd::reply_of(raw) is None ==> o == (Outcome {
                go_on: false,
                line: Some(no_parse),
            })
            &&& ttyd::reply_of(raw) matches Some(v) ==> {
                let good = v.status == 0 && v.echo == encode_utf8(echo@) && match line {
                    Some(l) => v.line == Some(encode_utf8(l@)),
                    None => v.line is None,
                };
                &&& good ==> o == (Outcome { go_on: true, line: None })
                &&& !good ==> o == (Outcome { go_on: false, line: Some(fail) })
            }
        }),
{
}

/// A write passes where it took the whole text and the terminal showed just that; a read where it brought
/// the wanted text. A key that is only fed wants any reply.
pub proof fn texts_have_to_fit(
    slot: usize,
    text: &'static str,
    no_call: &'static str,
    fail: &'static str,
    count: Option<usize>,
    data: Seq<u8>,
    key: u8,
    w: WaitStatus,
)
    ensures
        ({
            let write = outcome_of(
                Step::PosixWrite { slot, output: text, no_call, fail },
                EventView::Wrote(count, data),
                w,
            );
            let read = outcome_of(
                Step::PosixRead { slot, input: text, fail },
                EventView::Took(Some(data)),
                w,
            );
            let all = count is Some && count->0 == encode_utf8(text@).len();
            &&& write.go_on <==> all && data == encode_utf8(text@)
            &&& !all ==> write.line == Some(no_call)
            &&& all && data != encode_utf8(text@) ==> write.line == Some(fail)
            &&& read.go_on <==> data == encode_utf8(text@)
            &&& !read.go_on ==> read.line == Some(fail)
            &&& !outcome_of(Step::PosixRead { slot, input: text, fail }, EventView::Took(None), w).go_on
            &&& outcome_of(Step::Feed { slot, key, fail }, EventView::Reply(Some(data)), w).go_on
            &&& !outcome_of(Step::Feed { slot, key, fail }, EventView::Reply(None), w).go_on
        }),
{
}

/// A watch passes where its packet is there and its low 32 bits are the wanted signals.
pub proof fn packets_have_to_carry_the_signals(
    signals: u32,
    no_wake: &'static str,
    fail: &'static str,
    packet: u64,
    w: WaitStatus,
)
    ensures
        ({
            let o = outcome_of(Step::Closed { signals, no_wake, fail }, EventView::Packet(packet), w);
            &&& packet == 0 ==> o == (Outcome { go_on: false, line: Some(no_wake) })
            &&& packet != 0 ==> (o.go_on <==> packet % 0x1_0000_0000 == signals)
            &&& packet != 0 && !o.go_on ==> o.line == Some(fail)
        }),
{
}

/// What is clipped keeps its start.
pub proof fn clipping_keeps_the_start(s: Seq<u8>, n: int, i: int)
    requires
        0 <= n,
    ensures
        clipped(s, n).len() <= n,
        s.len() <= n ==> clipped(s, n) == s,
        s.len() > n ==> clipped(s, n).len() == n,
        0 <= i < s.len() && i < n ==> clipped(s, n)[i] == s[i],
{
}

/// The trials of the terminal type `hi` and `ok`, a key each, and then enter; what they want of the line is what
/// they typed, and only enter brings a line. A second read brings nothing.
pub proof fn terminal_trials_want_what_they_type()
    ensures
        ({
            let s = ttyd_script();
            &&& s.len() == 7
            &&& s[0] is Spawn && s[1] is Identify && s[2] is Park && s[6] is Quit
            &&& s[3] matches Step::Key { key, echo, line, .. } && key == 0x68 && echo@ == "h"@
                && line is None
            &&& s[4] matches Step::Key { key, echo, line, .. } && key == 0x69 && echo@ == "i"@
                && line is None
            &&& s[5] matches Step::Key { key, echo, line, .. } && key == 0x0a && echo@ == "\r\n"@
                && line is Some && line->0@ == "hi"@
        }),
        ({
            let s = posix_read_script();
            &&& s.len() == 8
            &&& s[0] is Spawn && s[1] is Park && s[7] is Quit
            &&& s[2] matches Step::Feed { key, .. } && key == 0x6f
            &&& s[3] matches Step::Feed { key, .. } && key == 0x6b
            &&& s[4] matches Step::Feed { key, .. } && key == 0x0a
            &&& s[5] matches Step::PosixRead { input, .. } && input@ == "ok"@
            &&& s[6] matches Step::PosixRead { input, .. } && input@ == ""@
        }),
        ({
            let s = posix_write_script();
            &&& s.len() == 4
            &&& s[0] is Spawn && s[1] is Park && s[3] is Quit
            &&& s[2] matches Step::PosixWrite { output, .. } && output@ == "ok\n"@
        }),
{
}

/// In the trial of a crash the server answers before it is made to fail, its watch brings the signal that was asked
/// for, and the server in its place has served one request and no more.
pub proof fn crash_trials_want_a_fresh_server(peer_closed: u32)
    ensures
        ({
            let s = crash_restart_script(peer_closed);
            &&& s.len() == 8
            &&& s[0] matches Step::Spawn { slot, .. } && slot == 0
            &&& s[1] matches Step::Health { slot, request, want, .. } && slot == 0
                && request == svc_health::Request::Ping && want == svc_health::Response::Pong
            &&& s[2] is Watch && s[3] is Provoke
            &&& s[4] matches Step::Closed { signals, .. } && signals == peer_closed
            &&& s[5] matches Step::Spawn { slot, .. } && slot == 1
            &&& s[6] matches Step::Health { slot, request, want, .. } && slot == 1
                && request == svc_health::Request::Status && want == (
            svc_health::Response::Status { uptime_ticks: 0, served: 1 })
            &&& s[7] is StopLast
        }),
        containment_script().len() == 2 && containment_script()[0] is SpawnAstray
            && containment_script()[1] is Gone,
{
}

} // verus!
