//! In-process work queues: a bounded ring of work, a queue with one worker and a
//! queue with many, and a cell that runs one initializer. Work runs on the
//! worker that takes it; nothing here blocks.

use vstd::prelude::*;

verus! {

#[derive(Clone, Copy, Debug, PartialEq, Eq, Structural)]
pub enum SubmitError {
    /// The queue has no free slot. No work was accepted.
    Full,
}

#[derive(Clone, Copy, Debug, PartialEq, Eq, Structural)]
pub enum WorkerError {
    /// A serial queue already has its one worker.
    AlreadyClaimed,
}

/// One piece of work: a function and the word that it is called with.
#[derive(Clone, Copy, Debug)]
pub struct Work<F> {
    pub function: F,
    pub context: usize,
}

/// The work can be done.
pub open spec fn runnable<F: Fn(usize) -> usize>(w: Work<F>) -> bool {
    call_requires(w.function, (w.context,))
}

/// The work can return `r`.
pub open spec fn yields<F: Fn(usize) -> usize>(w: Work<F>, r: usize) -> bool {
    call_ensures(w.function, (w.context,), r)
}

/// A bounded ring of work, first in first out.
#[derive(Debug)]
pub struct QueueState<F, const N: usize> {
    slots: Vec<Option<Work<F>>>,
    head: usize,
    len: usize,
}

/// The slot of the item at a place in the queue.
pub open spec fn slot_of(head: int, i: int, n: int) -> int {
    if head + i < n {
        head + i
    } else {
        head + i - n
    }
}

impl<F: Copy, const N: usize> View for QueueState<F, N> {
    type V = Seq<Work<F>>;

    closed spec fn view(&self) -> Seq<Work<F>> {
        Seq::new(
            self.len as nat,
            |i: int| self.slots@[slot_of(self.head as int, i, N as int)]->0,
        )
    }
}

impl<F: Copy, const N: usize> QueueState<F, N> {
    pub closed spec fn wf(self) -> bool {
        &&& self.slots@.len() == N
        &&& self.len <= N
        &&& N > 0 ==> self.head < N
        &&& forall|i: int|
            0 <= i < self.len ==> (#[trigger] self.slots@[slot_of(
                self.head as int,
                i,
                N as int,
            )]) is Some
    }

    /// A ring never holds more than its slots.
    pub proof fn lemma_len(self)
        requires
            self.wf(),
        ensures
            self@.len() <= N,
    {
    }

    pub fn new() -> (q: QueueState<F, N>)
        ensures
            q.wf(),
            q@ == Seq::<Work<F>>::empty(),
    {
        let mut slots: Vec<Option<Work<F>>> = Vec::new();
        let mut i: usize = 0;
        while i < N
            invariant
                i <= N,
                slots@.len() == i,
            decreases N - i,
        {
            slots.push(None);
            i += 1;
        }
        let q: QueueState<F, N> = QueueState { slots, head: 0, len: 0 };
        assert(q@ =~= Seq::<Work<F>>::empty());
        q
    }

    /// Work that is waiting.
    pub fn len(&self) -> (n: usize)
        ensures
            n == self@.len(),
    {
        self.len
    }

    /// Adds work at the end. A full ring is left as it is.
    pub fn push(&mut self, work: Work<F>) -> (r: Result<(), SubmitError>)
        requires
            old(self).wf(),
        ensures
            final(self).wf(),
            old(self)@.len() <= N,
            r is Err <==> old(self)@.len() == N,
            r is Ok ==> final(self)@ == old(self)@.push(work),
            r is Err ==> *final(self) == *old(self),
    {
        if self.len == N {
            return Err(SubmitError::Full);
        }
        let tail: usize = if self.head < N - self.len {
            self.head + self.len
        } else {
            self.head - (N - self.len)
        };
        let ghost before = *self;
        self.slots.set(tail, Some(work));
        self.len = self.len + 1;
        proof {
            assert(tail == slot_of(before.head as int, before.len as int, N as int));
            assert forall|i: int| 0 <= i < self.len implies (#[trigger] self.slots@[slot_of(
                self.head as int,
                i,
                N as int,
            )]) is Some by {
                let k = slot_of(self.head as int, i, N as int);
                if i < before.len {
                    assert(k != tail);
                    assert(before.slots@[k] is Some);
                }
            }
            assert(self@ =~= before@.push(work)) by {
                assert forall|i: int| 0 <= i < before.len implies self@[i] == before@[i] by {
                    assert(slot_of(self.head as int, i, N as int) != tail);
                }
            }
        }
        Ok(())
    }

    /// Takes the oldest work.
    pub fn pop(&mut self) -> (w: Option<Work<F>>)
        requires
            old(self).wf(),
        ensures
            final(self).wf(),
            w is None <==> old(self)@.len() == 0,
            w is None ==> *final(self) == *old(self),
            w matches Some(work) ==> work == old(self)@.first() && final(self)@ == old(
                self,
            )@.drop_first(),
    {
        if self.len == 0 {
            return None;
        }
        let ghost before = *self;
        let index: usize = self.head;
        assert(slot_of(before.head as int, 0, N as int) == index);
        assert(self.slots@[slot_of(before.head as int, 0, N as int)] is Some);
        let work: Option<Work<F>> = self.slots[index];
        self.head = if self.head == N - 1 {
            0
        } else {
            self.head + 1
        };
        self.len = self.len - 1;
        proof {
            assert forall|i: int| 0 <= i < self.len implies (#[trigger] self.slots@[slot_of(
                self.head as int,
                i,
                N as int,
            )]) is Some by {
                assert(slot_of(self.head as int, i, N as int) == slot_of(
                    before.head as int,
                    i + 1,
                    N as int,
                ));
            }
            assert(self@ =~= before@.drop_first()) by {
                assert forall|i: int| 0 <= i < self.len implies self@[i] == before@[i + 1] by {
                    assert(slot_of(self.head as int, i, N as int) == slot_of(
                        before.head as int,
                        i + 1,
                        N as int,
                    ));
                }
            }
        }
        work
    }
}

/// Every piece of work in a queue can be done.
pub open spec fn all_runnable<F: Fn(usize) -> usize>(q: Seq<Work<F>>) -> bool {
    forall|i: int| 0 <= i < q.len() ==> runnable(#[trigger] q[i])
}

/// Runs one piece of work.
fn execute<F: Fn(usize) -> usize + Copy>(work: Work<F>) -> (r: usize)
    requires
        runnable(work),
    ensures
        yields(work, r),
{
    (work.function)(work.context)
}

/// Results of the first pieces of work of a queue, in order.
pub open spec fn results_of<F: Fn(usize) -> usize>(q: Seq<Work<F>>, results: Seq<usize>) -> bool {
    &&& results.len() <= q.len()
    &&& forall|i: int| 0 <= i < results.len() ==> #[trigger] yields(q[i], results[i])
}

/// All the work of a queue has been done.
pub open spec fn all_done<F: Fn(usize) -> usize>(q: Seq<Work<F>>) -> bool {
    exists|results: Seq<usize>| results.len() == q.len() && #[trigger] results_of(q, results)
}

/// A queue whose work is taken one by one.
#[derive(Debug)]
struct QueueCore<F, const N: usize> {
    state: QueueState<F, N>,
}

impl<F: Fn(usize) -> usize + Copy, const N: usize> QueueCore<F, N> {
    spec fn wf(self) -> bool {
        self.state.wf() && all_runnable(self.state@)
    }

    fn push(&mut self, function: F, context: usize) -> (r: Result<(), SubmitError>)
        requires
            old(self).wf(),
            old(self).state@.len() < N ==> call_requires(function, (context,)),
        ensures
            final(self).wf(),
            r is Err <==> old(self).state@.len() == N,
            r is Ok ==> final(self).state@ == old(self).state@.push(Work { function, context }),
            r is Err ==> final(self).state@ == old(self).state@,
    {
        let ghost before = self.state@;
        let r: Result<(), SubmitError> = self.state.push(Work { function, context });
        proof {
            if r is Ok {
                assert(runnable(Work { function, context }));
                assert forall|i: int| 0 <= i < self.state@.len() implies runnable(
                    #[trigger] self.state@[i],
                ) by {
                    if i < before.len() {
                        assert(self.state@[i] == before[i]);
                    }
                }
            }
        }
        r
    }

    fn try_run_one(&mut self) -> (r: Option<usize>)
        requires
            old(self).wf(),
        ensures
            final(self).wf(),
            r is None <==> old(self).state@.len() == 0,
            r is None ==> final(self).state@ == old(self).state@,
            r matches Some(v) ==> yields(old(self).state@.first(), v) && final(self).state@
                == old(self).state@.drop_first(),
    {
        let ghost before = self.state@;
        match self.state.pop() {
            None => None,
            Some(work) => {
                assert(runnable(before[0]));
                assert forall|i: int| 0 <= i < self.state@.len() implies runnable(
                    #[trigger] self.state@[i],
                ) by {
                    assert(self.state@[i] == before[i + 1]);
                }
                Some(execute(work))
            },
        }
    }

    /// Runs `count` pieces of work, oldest first.
    fn run_n(&mut self, count: usize) -> (results: Vec<usize>)
        requires
            old(self).wf(),
            count <= old(self).state@.len(),
        ensures
            final(self).wf(),
            results@.len() == count,
            results_of(old(self).state@, results@),
            final(self).state@ == old(self).state@.subrange(
                count as int,
                old(self).state@.len() as int,
            ),
    {
        let ghost before = self.state@;
        let mut results: Vec<usize> = Vec::new();
        let mut i: usize = 0;
        assert(before.subrange(0, before.len() as int) =~= before);
        while i < count
            invariant
                i <= count <= before.len(),
                self.wf(),
                results@.len() == i,
                results_of(before, results@),
                self.state@ == before.subrange(i as int, before.len() as int),
            decreases count - i,
        {
            match self.try_run_one() {
                None => {},
                Some(v) => {
                    assert(yields(before[i as int], v));
                    let ghost had = results@;
                    results.push(v);
                    assert forall|j: int| 0 <= j < results@.len() implies #[trigger] yields(
                        before[j],
                        results@[j],
                    ) by {
                        if j < had.len() {
                            assert(yields(before[j], had[j]));
                        }
                    }
                },
            }
            i += 1;
            assert(self.state@ =~= before.subrange(i as int, before.len() as int));
        }
        results
    }

    /// Adds work and runs everything up to it. Returns its result.
    fn run_through(&mut self, function: F, context: usize) -> (r: Result<usize, SubmitError>)
        requires
            old(self).wf(),
            old(self).state@.len() < N ==> call_requires(function, (context,)),
        ensures
            final(self).wf(),
            r is Err <==> old(self).state@.len() == N,
            r is Err ==> final(self).state@ == old(self).state@,
            r is Ok ==> all_done(old(self).state@),
            r matches Ok(v) ==> yields(Work { function, context }, v) && final(self).state@.len()
                == 0,
    {
        let ghost waiting = self.state@;
        match self.push(function, context) {
            Err(e) => Err(e),
            Ok(()) => {
                let ghost all = self.state@;
                let count: usize = self.state.len();
                let results: Vec<usize> = self.run_n(count);
                assert(yields(all[count - 1], results@[count - 1]));
                proof {
                    let earlier = results@.drop_last();
                    assert forall|i: int| 0 <= i < earlier.len() implies #[trigger] yields(
                        waiting[i],
                        earlier[i],
                    ) by {
                        assert(yields(all[i], results@[i]));
                    }
                    assert(results_of(waiting, earlier));
                }
                Ok(results[count - 1])
            },
        }
    }
}

/// A bounded queue with exactly one worker.
pub struct SerialQueue<F, const N: usize> {
    core: QueueCore<F, N>,
    worker_claimed: bool,
    identity: Ghost<int>,
}

/// Authority to run the work of one serial queue. While it is out, the queue hands out no
/// other.
pub struct SerialWorker {
    queue: Ghost<int>,
}

impl<F: Fn(usize) -> usize + Copy, const N: usize> SerialQueue<F, N> {
    pub closed spec fn wf(self) -> bool {
        self.core.wf()
    }

    /// The work that is waiting, oldest first.
    pub closed spec fn waiting(self) -> Seq<Work<F>> {
        self.core.state@
    }

    /// The worker has been handed out.
    pub closed spec fn claimed(self) -> bool {
        self.worker_claimed
    }

    /// The mark that this queue shares with its own workers. Which mark a new queue has is not
    /// said, so a worker of another queue cannot be shown to carry it.
    pub closed spec fn id(self) -> int {
        self.identity@
    }

    /// No more work waits than the queue has slots.
    pub proof fn lemma_len(self)
        requires
            self.wf(),
        ensures
            self.waiting().len() <= N,
    {
        self.core.state.lemma_len();
    }

    pub fn new() -> (q: SerialQueue<F, N>)
        ensures
            q.wf(),
            q.waiting() == Seq::<Work<F>>::empty(),
            !q.claimed(),
    {
        SerialQueue {
            core: QueueCore { state: QueueState::new() },
            worker_claimed: false,
            identity: Ghost(arbitrary()),
        }
    }

    pub fn capacity(&self) -> (n: usize)
        ensures
            n == N,
    {
        N
    }

    pub fn len(&self) -> (n: usize)
        ensures
            n == self.waiting().len(),
    {
        self.core.state.len()
    }

    pub fn is_empty(&self) -> (r: bool)
        ensures
            r == (self.waiting().len() == 0),
    {
        self.len() == 0
    }

    /// Hands out the queue's one worker.
    pub fn worker(&mut self) -> (r: Result<SerialWorker, WorkerError>)
        requires
            old(self).wf(),
        ensures
            final(self).wf(),
            final(self).waiting() == old(self).waiting(),
            final(self).id() == old(self).id(),
            final(self).claimed(),
            r is Ok <==> !old(self).claimed(),
            r matches Ok(w) ==> w.of() == old(self).id(),
            r matches Err(e) ==> e == WorkerError::AlreadyClaimed,
    {
        if self.worker_claimed {
            return Err(WorkerError::AlreadyClaimed);
        }
        self.worker_claimed = true;
        Ok(SerialWorker { queue: Ghost(self.id()) })
    }

    /// Takes this queue's worker back, so that another can be handed out.
    pub fn release(&mut self, _worker: SerialWorker)
        requires
            old(self).wf(),
            _worker.of() == old(self).id(),
        ensures
            final(self).wf(),
            final(self).id() == old(self).id(),
            final(self).waiting() == old(self).waiting(),
            !final(self).claimed(),
    {
        self.worker_claimed = false;
    }

    /// Adds work.
    pub fn submit_async(&mut self, function: F, context: usize) -> (r: Result<(), SubmitError>)
        requires
            old(self).wf(),
            old(self).waiting().len() < N ==> call_requires(function, (context,)),
        ensures
            final(self).wf(),
            final(self).id() == old(self).id(),
            final(self).claimed() == old(self).claimed(),
            r is Err <==> old(self).waiting().len() == N,
            r is Ok ==> final(self).waiting() == old(self).waiting().push(
                Work { function, context },
            ),
            r is Err ==> final(self).waiting() == old(self).waiting(),
    {
        self.core.push(function, context)
    }

    /// Adds work and returns its result once it has been done, after everything
    /// that was submitted before. The caller holds this queue's worker and runs
    /// the work itself.
    pub fn submit_sync(&mut self, _worker: &SerialWorker, function: F, context: usize) -> (r: Result<
        usize,
        SubmitError,
    >)
        requires
            old(self).wf(),
            _worker.of() == old(self).id(),
            old(self).waiting().len() < N ==> call_requires(function, (context,)),
        ensures
            final(self).wf(),
            final(self).id() == old(self).id(),
            final(self).claimed() == old(self).claimed(),
            r is Err <==> old(self).waiting().len() == N,
            r is Err ==> final(self).waiting() == old(self).waiting(),
            r is Ok ==> all_done(old(self).waiting()),
            r matches Ok(v) ==> call_ensures(function, (context,), v) && final(
                self
            ).waiting().len() == 0,
    {
        self.core.run_through(function, context)
    }
}

impl SerialWorker {
    /// The mark of the queue that handed this worker out.
    pub closed spec fn of(self) -> int {
        self.queue@
    }

    /// Runs the oldest work. `None` where there is none.
    pub fn try_run_one<F: Fn(usize) -> usize + Copy, const N: usize>(
        &self,
        queue: &mut SerialQueue<F, N>,
    ) -> (r: Option<usize>)
        requires
            old(queue).wf(),
            self.of() == old(queue).id(),
        ensures
            final(queue).wf(),
            final(queue).id() == old(queue).id(),
            final(queue).claimed() == old(queue).claimed(),
            r is None <==> old(queue).waiting().len() == 0,
            r is None ==> final(queue).waiting() == old(queue).waiting(),
            r matches Some(v) ==> yields(old(queue).waiting().first(), v) && final(
                queue
            ).waiting() == old(queue).waiting().drop_first(),
    {
        queue.core.try_run_one()
    }

    /// Runs the oldest work of a queue that has some.
    pub fn run_one<F: Fn(usize) -> usize + Copy, const N: usize>(
        &self,
        queue: &mut SerialQueue<F, N>,
    ) -> (v: usize)
        requires
            old(queue).wf(),
            self.of() == old(queue).id(),
            old(queue).waiting().len() > 0,
        ensures
            final(queue).wf(),
            final(queue).id() == old(queue).id(),
            final(queue).claimed() == old(queue).claimed(),
            yields(old(queue).waiting().first(), v),
            final(queue).waiting() == old(queue).waiting().drop_first(),
    {
        match queue.core.try_run_one() {
            Some(v) => v,
            None => 0,
        }
    }

    /// Runs `count` pieces of work, oldest first, and returns their results.
    pub fn run_n<F: Fn(usize) -> usize + Copy, const N: usize>(
        &self,
        queue: &mut SerialQueue<F, N>,
        count: usize,
    ) -> (results: Vec<usize>)
        requires
            old(queue).wf(),
            self.of() == old(queue).id(),
            count <= old(queue).waiting().len(),
        ensures
            final(queue).wf(),
            final(queue).id() == old(queue).id(),
            final(queue).claimed() == old(queue).claimed(),
            results@.len() == count,
            results_of(old(queue).waiting(), results@),
            final(queue).waiting() == old(queue).waiting().subrange(
                count as int,
                old(queue).waiting().len() as int,
            ),
    {
        queue.core.run_n(count)
    }
}

/// A bounded queue with any number of workers.
pub struct ConcurrentQueue<F, const N: usize> {
    core: QueueCore<F, N>,
    identity: Ghost<int>,
}

/// One worker of one concurrent queue.
pub struct ConcurrentWorker {
    queue: Ghost<int>,
}

impl<F: Fn(usize) -> usize + Copy, const N: usize> ConcurrentQueue<F, N> {
    pub closed spec fn wf(self) -> bool {
        self.core.wf()
    }

    /// The work that is waiting, oldest first.
    pub closed spec fn waiting(self) -> Seq<Work<F>> {
        self.core.state@
    }

    /// The mark that this queue shares with its own workers. Which mark a new queue has is not
    /// said, so a worker of another queue cannot be shown to carry it.
    pub closed spec fn id(self) -> int {
        self.identity@
    }

    /// No more work waits than the queue has slots.
    pub proof fn lemma_len(self)
        requires
            self.wf(),
        ensures
            self.waiting().len() <= N,
    {
        self.core.state.lemma_len();
    }

    pub fn new() -> (q: ConcurrentQueue<F, N>)
        ensures
            q.wf(),
            q.waiting() == Seq::<Work<F>>::empty(),
    {
        ConcurrentQueue {
            core: QueueCore { state: QueueState::new() },
            identity: Ghost(arbitrary()),
        }
    }

    pub fn capacity(&self) -> (n: usize)
        ensures
            n == N,
    {
        N
    }

    pub fn len(&self) -> (n: usize)
        ensures
            n == self.waiting().len(),
    {
        self.core.state.len()
    }

    pub fn is_empty(&self) -> (r: bool)
        ensures
            r == (self.waiting().len() == 0),
    {
        self.len() == 0
    }

    /// Hands out a worker.
    pub fn worker(&self) -> (w: ConcurrentWorker)
        ensures
            w.of() == self.id(),
    {
        ConcurrentWorker { queue: Ghost(self.id()) }
    }

    /// Adds work.
    pub fn submit_async(&mut self, function: F, context: usize) -> (r: Result<(), SubmitError>)
        requires
            old(self).wf(),
            old(self).waiting().len() < N ==> call_requires(function, (context,)),
        ensures
            final(self).wf(),
            final(self).id() == old(self).id(),
            r is Err <==> old(self).waiting().len() == N,
            r is Ok ==> final(self).waiting() == old(self).waiting().push(
                Work { function, context },
            ),
            r is Err ==> final(self).waiting() == old(self).waiting(),
    {
        self.core.push(function, context)
    }

    /// Adds work and returns its result once it has been done, after everything
    /// that was submitted before. The caller runs the work itself.
    pub fn submit_sync(&mut self, function: F, context: usize) -> (r: Result<usize, SubmitError>)
        requires
            old(self).wf(),
            old(self).waiting().len() < N ==> call_requires(function, (context,)),
        ensures
            final(self).wf(),
            final(self).id() == old(self).id(),
            r is Err <==> old(self).waiting().len() == N,
            r is Err ==> final(self).waiting() == old(self).waiting(),
            r is Ok ==> all_done(old(self).waiting()),
            r matches Ok(v) ==> call_ensures(function, (context,), v) && final(
                self
            ).waiting().len() == 0,
    {
        self.core.run_through(function, context)
    }
}

impl ConcurrentWorker {
    /// The mark of the queue that handed this worker out.
    pub closed spec fn of(self) -> int {
        self.queue@
    }

    /// Runs the oldest work. `None` where there is none.
    pub fn try_run_one<F: Fn(usize) -> usize + Copy, const N: usize>(
        &self,
        queue: &mut ConcurrentQueue<F, N>,
    ) -> (r: Option<usize>)
        requires
            old(queue).wf(),
            self.of() == old(queue).id(),
        ensures
            final(queue).wf(),
            final(queue).id() == old(queue).id(),
            r is None <==> old(queue).waiting().len() == 0,
            r is None ==> final(queue).waiting() == old(queue).waiting(),
            r matches Some(v) ==> yields(old(queue).waiting().first(), v) && final(
                queue
            ).waiting() == old(queue).waiting().drop_first(),
    {
        queue.core.try_run_one()
    }

    /// Runs the oldest work of a queue that has some.
    pub fn run_one<F: Fn(usize) -> usize + Copy, const N: usize>(
        &self,
        queue: &mut ConcurrentQueue<F, N>,
    ) -> (v: usize)
        requires
            old(queue).wf(),
            self.of() == old(queue).id(),
            old(queue).waiting().len() > 0,
        ensures
            final(queue).wf(),
            final(queue).id() == old(queue).id(),
            yields(old(queue).waiting().first(), v),
            final(queue).waiting() == old(queue).waiting().drop_first(),
    {
        match queue.core.try_run_one() {
            Some(v) => v,
            None => 0,
        }
    }
}

/// Where an initializer stands among its callers, each with a number of its own.
#[derive(Clone, Copy, Debug, PartialEq, Eq, Structural)]
pub enum OnceState {
    Unstarted,
    Running { caller: usize },
    Complete { result: usize },
}

/// What a caller does next.
#[derive(Clone, Copy, Debug, PartialEq, Eq, Structural)]
pub enum OnceStep {
    /// Run the initializer.
    Run,
    /// Wait for the caller that runs it.
    Wait,
    /// Return this.
    Return(usize),
}

/// What happens at the cell.
#[derive(Clone, Copy, Debug, PartialEq, Eq, Structural)]
pub enum OnceEvent {
    /// A caller arrives, or looks again.
    Look { caller: usize },
    /// A caller's initializer has returned.
    Finish { caller: usize, result: usize },
}

impl OnceState {
    /// The cell after an event, and what the caller does next. The end of an
    /// initializer counts only where its caller was let in.
    pub open spec fn after(self, e: OnceEvent) -> (OnceState, OnceStep) {
        match (self, e) {
            (OnceState::Unstarted, OnceEvent::Look { caller }) => (
                OnceState::Running { caller },
                OnceStep::Run,
            ),
            (OnceState::Running { caller: c }, OnceEvent::Finish { caller, result }) => if c
                == caller {
                (OnceState::Complete { result }, OnceStep::Return(result))
            } else {
                (self, OnceStep::Wait)
            },
            (OnceState::Complete { result }, _) => (self, OnceStep::Return(result)),
            _ => (self, OnceStep::Wait),
        }
    }

    /// Takes an event and returns what the caller does next.
    pub fn advance(&mut self, e: OnceEvent) -> (s: OnceStep)
        ensures
            (*final(self), s) == old(self).after(e),
    {
        match (*self, e) {
            (OnceState::Unstarted, OnceEvent::Look { caller }) => {
                *self = OnceState::Running { caller };
                OnceStep::Run
            },
            (OnceState::Running { caller: c }, OnceEvent::Finish { caller, result }) => {
                if c == caller {
                    *self = OnceState::Complete { result };
                    OnceStep::Return(result)
                } else {
                    OnceStep::Wait
                }
            },
            (OnceState::Complete { result }, _) => OnceStep::Return(result),
            _ => OnceStep::Wait,
        }
    }
}

/// The cell after a series of events.
pub open spec fn cell_after(s: OnceState, events: Seq<OnceEvent>) -> OnceState
    decreases events.len(),
{
    if events.len() == 0 {
        s
    } else {
        cell_after(s, events.drop_last()).after(events.last()).0
    }
}

/// What the caller of event `i` was told.
pub open spec fn told(s: OnceState, events: Seq<OnceEvent>, i: int) -> OnceStep {
    cell_after(s, events.subrange(0, i)).after(events[i]).1
}

proof fn lemma_gate_keeps(s: OnceState, events: Seq<OnceEvent>, i: int)
    requires
        0 <= i <= events.len(),
    ensures
        cell_after(s, events.subrange(0, i)) is Complete ==> cell_after(s, events) == cell_after(
            s,
            events.subrange(0, i),
        ),
        !(cell_after(s, events.subrange(0, i)) is Unstarted) ==> !(cell_after(
            s,
            events,
        ) is Unstarted),
    decreases events.len() - i,
{
    if i == events.len() {
        assert(events.subrange(0, i) =~= events);
    } else {
        assert(events.subrange(0, i + 1).drop_last() =~= events.subrange(0, i));
        lemma_gate_keeps(s, events, i + 1);
    }
}

/// However callers compete, at most one of them runs the initializer, and every
/// caller that returns returns the same result.
pub proof fn one_initializer_for_all(events: Seq<OnceEvent>, i: int, j: int)
    requires
        0 <= i < j < events.len(),
    ensures
        !(told(OnceState::Unstarted, events, i) is Run && told(OnceState::Unstarted, events, j) is Run),
        told(OnceState::Unstarted, events, i) matches OnceStep::Return(a) ==> told(
            OnceState::Unstarted,
            events,
            j,
        ) == OnceStep::Return(a),
{
    let s = OnceState::Unstarted;
    let before = events.subrange(0, j);
    let first = events.subrange(0, i + 1);
    assert(first.drop_last() =~= events.subrange(0, i));
    assert(before.subrange(0, i + 1) =~= first);
    lemma_gate_keeps(s, before, i + 1);
}

/// Two events, one after the other.
proof fn lemma_two_events(s: OnceState, a: OnceEvent, b: OnceEvent)
    ensures
        cell_after(s, seq![a, b]) == s.after(a).0.after(b).0,
{
    reveal_with_fuel(cell_after, 3);
    assert(seq![a, b].drop_last() =~= seq![a]);
    assert(seq![a].drop_last() =~= Seq::<OnceEvent>::empty());
}

/// A cell that runs one initializer and gives its result to every caller.
#[derive(Clone, Copy, Debug, PartialEq, Eq, Structural)]
pub struct Once {
    state: OnceState,
}

impl Once {
    /// The initializer's result, once it has run.
    pub closed spec fn result(self) -> Option<usize> {
        match self.state {
            OnceState::Complete { result } => Some(result),
            _ => None,
        }
    }

    /// Where the cell stands.
    pub closed spec fn gate(self) -> OnceState {
        self.state
    }

    /// No caller is inside.
    pub closed spec fn wf(self) -> bool {
        !(self.state is Running)
    }

    /// A caller is let in just where there is no result yet, and otherwise gets the result.
    pub proof fn lemma_gate(self, caller: usize)
        requires
            self.wf(),
        ensures
            self.gate().after(OnceEvent::Look { caller }).1 == (match self.result() {
                None => OnceStep::Run,
                Some(r) => OnceStep::Return(r),
            }),
    {
    }

    pub fn new() -> (o: Once)
        ensures
            o.wf(),
            o.gate() == OnceState::Unstarted,
            o.result() is None,
    {
        Once { state: OnceState::Unstarted }
    }

    /// Runs the first caller's initializer. Later callers' are not run, and need
    /// not be fit to run; they get the first one's result.
    pub fn call_once<F: Fn(usize) -> usize>(&mut self, function: F, context: usize) -> (r: usize)
        requires
            old(self).wf(),
            old(self).result() is None ==> call_requires(function, (context,)),
        ensures
            final(self).wf(),
            final(self).gate() == cell_after(
                old(self).gate(),
                seq![OnceEvent::Look { caller: 0 }, OnceEvent::Finish { caller: 0, result: r }],
            ),
            final(self).result() == Some(r),
            match old(self).result() {
                Some(first) => r == first,
                None => call_ensures(function, (context,), r),
            },
    {
        let r: usize = match self.state.advance(OnceEvent::Look { caller: 0 }) {
            OnceStep::Return(r) => r,
            _ => {
                let result: usize = function(context);
                let _ = self.state.advance(OnceEvent::Finish { caller: 0, result });
                result
            },
        };
        proof {
            lemma_two_events(
                old(self).gate(),
                OnceEvent::Look { caller: 0 },
                OnceEvent::Finish { caller: 0, result: r },
            );
        }
        r
    }

    pub fn is_completed(&self) -> (r: bool)
        ensures
            r == (self.result() is Some),
    {
        match self.state {
            OnceState::Complete { .. } => true,
            _ => false,
        }
    }
}

impl Default for Once {
    fn default() -> (o: Self)
        ensures
            o.wf(),
            o.gate() == OnceState::Unstarted,
            o.result() is None,
    {
        Once::new()
    }
}

/// What a waiter does about a word that another thread may have changed since it
/// was looked at: it parks only where nothing has.
#[derive(Clone, Copy, Debug, PartialEq, Eq, Structural)]
pub enum WaitStep {
    Park,
    Retry,
}

/// Decides whether a worker that found its queue empty parks. Submitting work
/// changes the queue's number, so work that came in between is not slept over.
pub fn after_empty(observed: u32, current: u32) -> (s: WaitStep)
    ensures
        s == (if observed == current {
            WaitStep::Park
        } else {
            WaitStep::Retry
        }),
{
    if observed == current {
        WaitStep::Park
    } else {
        WaitStep::Retry
    }
}

/// Work comes out in the order in which it went in: after some work was added
/// and as much was taken from the front as was there before, the first to come
/// out is the first that was added.
pub proof fn queues_are_fifo<F>(q: Seq<Work<F>>, added: Seq<Work<F>>, i: int)
    requires
        0 <= i < added.len(),
    ensures
        (q + added).subrange(q.len() + i, (q + added).len() as int).first() == added[i],
{
    assert((q + added)[q.len() + i] == added[i]);
}

/// The first caller runs the initializer, others wait while it does, its own end gives the result, and that
/// is what everyone gets from then on.
pub proof fn callers_wait_for_the_first(first: usize, other: usize, result: usize, late: usize)
    requires
        other != first,
    ensures
        ({
            let (s1, step1) = OnceState::Unstarted.after(OnceEvent::Look { caller: first });
            let (s2, step2) = s1.after(OnceEvent::Look { caller: other });
            let (s3, step3) = s2.after(OnceEvent::Finish { caller: other, result: late });
            let (s4, step4) = s3.after(OnceEvent::Finish { caller: first, result });
            let (s5, step5) = s4.after(OnceEvent::Look { caller: other });
            &&& step1 == OnceStep::Run
            &&& step2 == OnceStep::Wait && s2 == s1
            &&& step3 == OnceStep::Wait && s3 == s1
            &&& step4 == OnceStep::Return(result)
            &&& step5 == OnceStep::Return(result) && s5 == s4
        }),
{
}

/// Results belong to the work in its order: result `i` is one that piece `i` can return, and all is done
/// where every piece has one.
pub proof fn results_belong_to_their_work<F: Fn(usize) -> usize>(
    q: Seq<Work<F>>,
    results: Seq<usize>,
    i: int,
)
    ensures
        results_of(q, results) && 0 <= i < results.len() ==> i < q.len() && call_ensures(
            q[i].function,
            (q[i].context,),
            results[i],
        ),
        all_done(q) && 0 <= i < q.len() ==> exists|r: usize| #[trigger]
            call_ensures(q[i].function, (q[i].context,), r),
{
    if results_of(q, results) && 0 <= i < results.len() {
        assert(yields(q[i], results[i]));
    }
    if all_done(q) && 0 <= i < q.len() {
        let rs = choose|rs: Seq<usize>| rs.len() == q.len() && #[trigger] results_of(q, rs);
        assert(yields(q[i], rs[i]));
    }
}

} // verus!
