//! Waiting for the event that answers a command or a transfer.

use vstd::prelude::*;

use crate::drv_xhci::words::YIELD_INTERVAL;

verus! {

/// Polls of the event ring before a command or a transfer is given up.
pub const EVENT_POLL_LIMIT: u32 = 2_000_000;

/// Polls after an interrupt, which has told that an event is there.
pub const IRQ_EVENT_DRAIN_LIMIT: u32 = 4096;

/// Polls of a controller that is being reset.
pub const RESET_POLL_LIMIT: u32 = 2_000_000;

/// An event of the ring.
#[derive(Clone, Copy, Debug, PartialEq, Eq, Structural)]
pub enum RingEvent {
    Command { command_iova: u64, parameter: u32, completion_code: u8, slot: u8 },
    Transfer { completion_code: u8, remaining: u32, slot: u8, trb_iova: u64 },
    Other,
}

/// One poll of the ring.
#[derive(Clone, Copy, Debug, PartialEq, Eq, Structural)]
pub enum Poll {
    Empty,
    Event(RingEvent),
    Broken,
}

/// What is waited for: the end of one command, or any transfer of one slot.
#[derive(Clone, Copy, Debug, PartialEq, Eq, Structural)]
pub enum Want {
    Command { iova: u64 },
    Transfer { slot: u8 },
}

/// What a wait has come to.
#[derive(Clone, Copy, Debug, PartialEq, Eq, Structural)]
pub enum Waited {
    /// Poll again.
    Again,
    /// The event came; the ring's position is to be told to the controller.
    Came(RingEvent),
    /// The ring cannot be read, or the polls are used up.
    Failed,
}

/// An event answers what is waited for.
pub open spec fn answers(want: Want, e: RingEvent) -> bool {
    match (want, e) {
        (Want::Command { iova }, RingEvent::Command { command_iova, .. }) => command_iova == iova,
        (Want::Transfer { slot }, RingEvent::Transfer { slot: s, .. }) => s == slot,
        _ => false,
    }
}

/// A wait in progress.
#[derive(Clone, Copy, Debug, PartialEq, Eq, Structural)]
pub struct EventWait {
    pub want: Want,
    pub limit: u32,
    pub spin: u32,
}

impl EventWait {
    pub open spec fn wf(self) -> bool {
        self.spin < self.limit
    }

    /// What a poll leads to.
    pub open spec fn outcome(self, p: Poll) -> Waited {
        match p {
            Poll::Broken => Waited::Failed,
            Poll::Event(e) => if answers(self.want, e) {
                Waited::Came(e)
            } else if self.spin + 1 < self.limit {
                Waited::Again
            } else {
                Waited::Failed
            },
            Poll::Empty => if self.spin + 1 < self.limit {
                Waited::Again
            } else {
                Waited::Failed
            },
        }
    }

    /// Begins a wait of at most `limit` polls.
    pub fn new(want: Want, limit: u32) -> (w: EventWait)
        requires
            limit > 0,
        ensures
            w == (EventWait { want, limit, spin: 0 }),
            w.wf(),
    {
        EventWait { want, limit, spin: 0 }
    }

    /// Whether others should get a turn before the next poll of a transfer.
    pub fn should_yield(&self) -> (r: bool)
        ensures
            r == (self.want is Transfer && self.spin != 0 && self.spin % 512 == 0),
    {
        match self.want {
            Want::Transfer { .. } => self.spin != 0 && self.spin % YIELD_INTERVAL == 0,
            Want::Command { .. } => false,
        }
    }

    /// Takes one poll of the ring. Events that answer something else are
    /// passed over.
    pub fn step(&mut self, p: Poll) -> (w: Waited)
        requires
            old(self).wf(),
        ensures
            w == old(self).outcome(p),
            w is Again ==> final(self).wf() && *final(self) == (EventWait {
                spin: (old(self).spin + 1) as u32,
                ..*old(self)
            }),
            !(w is Again) ==> *final(self) == *old(self),
    {
        match p {
            Poll::Broken => return Waited::Failed,
            Poll::Event(e) => {
                let hit: bool = match (self.want, e) {
                    (Want::Command { iova }, RingEvent::Command { command_iova, .. }) => {
                        command_iova == iova
                    },
                    (Want::Transfer { slot }, RingEvent::Transfer { slot: s, .. }) => s == slot,
                    _ => false,
                };
                if hit {
                    return Waited::Came(e);
                }
            },
            Poll::Empty => {},
        }
        if self.spin < self.limit - 1 {
            self.spin = self.spin + 1;
            Waited::Again
        } else {
            Waited::Failed
        }
    }
}

/// What a wait comes to over a series of polls.
pub open spec fn waited(w: EventWait, polls: Seq<Poll>) -> Waited
    decreases polls.len(),
{
    if polls.len() == 0 {
        Waited::Again
    } else {
        match w.outcome(polls[0]) {
            Waited::Again => waited(
                EventWait { spin: (w.spin + 1) as u32, ..w },
                polls.subrange(1, polls.len() as int),
            ),
            o => o,
        }
    }
}

/// A wait ends within its limit, and what came is what was waited for.
pub proof fn waits_are_bounded(w: EventWait, polls: Seq<Poll>)
    requires
        w.wf(),
    ensures
        polls.len() >= w.limit - w.spin ==> !(waited(w, polls) is Again),
        waited(w, polls) matches Waited::Came(e) ==> answers(w.want, e) && exists|i: int|
            0 <= i < polls.len() && polls[i] == Poll::Event(e),
    decreases polls.len(),
{
    if polls.len() > 0 {
        match w.outcome(polls[0]) {
            Waited::Again => {
                let rest = polls.subrange(1, polls.len() as int);
                let next = EventWait { spin: (w.spin + 1) as u32, ..w };
                waits_are_bounded(next, rest);
                if let Waited::Came(e) = waited(next, rest) {
                    let i = choose|i: int| 0 <= i < rest.len() && rest[i] == Poll::Event(e);
                    assert(polls[i + 1] == Poll::Event(e));
                }
            },
            Waited::Came(e) => {
                assert(polls[0] == Poll::Event(e));
            },
            Waited::Failed => {},
        }
    }
}

/// A command's end answers the wait for that command, and a transfer's the wait for its slot; nothing else
/// answers.
pub proof fn events_answer_their_wait(
    iova: u64,
    slot: u8,
    at: u64,
    parameter: u32,
    code: u8,
    of: u8,
    remaining: u32,
)
    ensures
        ({
            let command = RingEvent::Command {
                command_iova: at,
                parameter,
                completion_code: code,
                slot: of,
            };
            let transfer = RingEvent::Transfer {
                completion_code: code,
                remaining,
                slot: of,
                trb_iova: at,
            };
            &&& answers(Want::Command { iova }, command) <==> at == iova
            &&& answers(Want::Transfer { slot }, transfer) <==> of == slot
            &&& !answers(Want::Command { iova }, transfer)
            &&& !answers(Want::Transfer { slot }, command)
            &&& !answers(Want::Command { iova }, RingEvent::Other)
            &&& !answers(Want::Transfer { slot }, RingEvent::Other)
        }),
{
}

/// A wait goes on over an empty poll and over an event that answers something else, until its polls are used
/// up; the event that answers it ends it, even at the last poll, and so does a broken ring.
pub proof fn waits_pass_other_events_over(w: EventWait, e: RingEvent)
    ensures
        w.outcome(Poll::Broken) == Waited::Failed,
        answers(w.want, e) ==> w.outcome(Poll::Event(e)) == Waited::Came(e),
        !answers(w.want, e) ==> w.outcome(Poll::Event(e)) == w.outcome(Poll::Empty),
        w.spin + 1 < w.limit ==> w.outcome(Poll::Empty) == Waited::Again,
        w.spin + 1 >= w.limit ==> w.outcome(Poll::Empty) == Waited::Failed,
{
}

} // verus!
