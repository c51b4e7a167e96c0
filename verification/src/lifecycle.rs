//! The pool as a whole: one channel, a fixed set of worker threads and the
//! owner that submits jobs and finally tears the pool down.
//!
//! The threads run concurrently, so the pool's behaviour is the set of all
//! interleavings of their steps. This module describes one step of each kind
//! over the abstract states of the channel and of the run loop, and proves
//! what holds after every history of such steps.

use crate::channel::{ChannelView, Message};
use crate::worker::{step_for, Step};
use vstd::prelude::*;

verus! {

/// What one worker's thread is doing. Jobs are numbered in the order in
/// which the channel accepted them.
pub enum Activity {
    /// In its loop and between jobs: about to consume, or waiting on an
    /// empty channel.
    Idle,
    /// Running the job with this number.
    Busy(nat),
    /// Out of its loop, after the channel signalled closure.
    Exited,
    /// Ended abnormally inside the job with this number.
    Failed(nat),
}

impl Activity {
    /// Whether the thread has terminated, normally or not.
    pub open spec fn ended(self) -> bool {
        self is Exited || self is Failed
    }

    /// Whether the worker took job `k` and has not completed it.
    pub open spec fn holds(self, k: nat) -> bool {
        self == Activity::Busy(k) || self == Activity::Failed(k)
    }
}

/// One step of the pool. The channel is only ever touched by one thread at
/// a time, so every step that touches it is atomic.
pub enum Event<J> {
    /// The owner submits a job, as `ThreadPool::execute` does.
    Submit(J),
    /// The worker with this identity makes one consume attempt, as
    /// `JobChannel::recv` does, and acts on the outcome as `next_step` says.
    Consume(nat),
    /// The worker with this identity completes the job it is running.
    Finish(nat),
    /// The job that the worker with this identity is running fails, and
    /// takes the worker's thread down with it.
    Fail(nat),
    /// The owner begins teardown by closing the channel, as
    /// `ThreadPool::shutdown` does.
    Close,
    /// The owner's join of the next worker returns. Workers are joined in
    /// creation order, the order in which `ThreadPool::shutdown` hands out
    /// their handles.
    Join,
}

/// The state of the whole pool.
pub struct System<J> {
    /// The job channel.
    pub channel: ChannelView<J>,
    /// What each worker is doing, in creation order.
    pub workers: Seq<Activity>,
    /// For each job handed out, the worker that took it.
    pub takers: Seq<nat>,
    /// For each job accepted, how many times it has been run to completion.
    pub runs: Seq<nat>,
    /// How many workers the owner has joined.
    pub joined: nat,
}

impl<J> System<J> {
    /// A freshly constructed pool of `size` workers: every worker is in its
    /// loop, nothing has been submitted.
    pub open spec fn init(size: nat) -> Self {
        System {
            channel: ChannelView::empty(),
            workers: Seq::new(size, |w: int| Activity::Idle),
            takers: Seq::empty(),
            runs: Seq::empty(),
            joined: 0,
        }
    }

    /// Whether `event` can happen in this state.
    ///
    /// Submission needs a live pool. A worker consumes only between jobs.
    /// The send side is closed once. A join needs teardown to have begun,
    /// and returns only when the joined thread has ended.
    pub open spec fn enabled(self, event: Event<J>) -> bool {
        match event {
            Event::Submit(_) => self.channel.open,
            Event::Consume(w) => w < self.workers.len() && self.workers[w as int] is Idle,
            Event::Finish(w) => w < self.workers.len() && self.workers[w as int] is Busy,
            Event::Fail(w) => w < self.workers.len() && self.workers[w as int] is Busy,
            Event::Close => self.channel.open,
            Event::Join => {
                &&& !self.channel.open
                &&& self.joined < self.workers.len()
                &&& self.workers[self.joined as int].ended()
            },
        }
    }

    /// The state after `event`.
    pub open spec fn step(self, event: Event<J>) -> Self {
        match event {
            Event::Submit(job) => System {
                channel: self.channel.send(job),
                runs: self.runs.push(0),
                ..self
            },
            Event::Consume(w) => {
                let message = self.channel.message();
                let activity = match step_for(message) {
                    Step::Run(_) => Activity::Busy(self.channel.delivered.len()),
                    Step::Wait => Activity::Idle,
                    Step::Exit => Activity::Exited,
                };
                System {
                    channel: self.channel.recv(),
                    workers: self.workers.update(w as int, activity),
                    takers: if message is Job {
                        self.takers.push(w)
                    } else {
                        self.takers
                    },
                    ..self
                }
            },
            Event::Finish(w) => {
                let k = self.workers[w as int]->Busy_0;
                System {
                    workers: self.workers.update(w as int, Activity::Idle),
                    runs: self.runs.update(k as int, self.runs[k as int] + 1),
                    ..self
                }
            },
            Event::Fail(w) => {
                let k = self.workers[w as int]->Busy_0;
                System { workers: self.workers.update(w as int, Activity::Failed(k)), ..self }
            },
            Event::Close => System { channel: self.channel.close(), ..self },
            Event::Join => System { joined: self.joined + 1, ..self },
        }
    }

    /// Whether teardown has completed: every worker has been joined.
    pub open spec fn torn_down(self) -> bool {
        self.joined == self.workers.len()
    }
}

/// The state of a pool of `size` workers after `history`.
pub open spec fn after<J>(size: nat, history: Seq<Event<J>>) -> System<J>
    decreases history.len(),
{
    if history.len() == 0 {
        System::init(size)
    } else {
        after(size, history.drop_last()).step(history.last())
    }
}

/// Whether `history` can happen to a pool of `size` workers: each event is
/// enabled in the state that the events before it lead to.
pub open spec fn admissible<J>(size: nat, history: Seq<Event<J>>) -> bool
    decreases history.len(),
{
    history.len() == 0 || (admissible(size, history.drop_last()) && after(
        size,
        history.drop_last(),
    ).enabled(history.last()))
}

/// The jobs submitted in `history`, in submission order.
pub open spec fn submitted<J>(history: Seq<Event<J>>) -> Seq<J>
    decreases history.len(),
{
    if history.len() == 0 {
        Seq::empty()
    } else {
        match history.last() {
            Event::Submit(job) => submitted(history.drop_last()).push(job),
            _ => submitted(history.drop_last()),
        }
    }
}

/// The jobs that consume attempts in `history` handed to workers, in the
/// order of those attempts.
pub open spec fn dequeued<J>(size: nat, history: Seq<Event<J>>) -> Seq<J>
    decreases history.len(),
{
    if history.len() == 0 {
        Seq::empty()
    } else {
        let earlier = dequeued(size, history.drop_last());
        match (history.last(), after(size, history.drop_last()).channel.message()) {
            (Event::Consume(_), Message::Job(job)) => earlier.push(job),
            _ => earlier,
        }
    }
}

/// Whether no job fails in `history`.
pub open spec fn failure_free<J>(history: Seq<Event<J>>) -> bool {
    forall|i: int| 0 <= i < history.len() ==> !(#[trigger] history[i] is Fail)
}

/// What holds of the state `s` that `history` leads a pool of `size`
/// workers to.
spec fn consistent<J>(size: nat, history: Seq<Event<J>>, s: System<J>) -> bool {
    &&& s.workers.len() == size
    &&& s.channel.sent() == submitted(history)
    &&& s.channel.delivered == dequeued(size, history)
    &&& s.runs.len() == s.channel.sent().len()
    &&& s.takers.len() == s.channel.delivered.len()
    &&& s.joined <= size
    &&& forall|k: int| 0 <= k < s.takers.len() ==> #[trigger] s.takers[k] < size
    &&& forall|w: int, k: nat|
        0 <= w < size && #[trigger] s.workers[w].holds(k) ==> k < s.takers.len() && s.takers[k as int]
            == w
    &&& forall|k: int|
        0 <= k < s.runs.len() ==> #[trigger] s.runs[k] == if k < s.takers.len()
            && !s.workers[s.takers[k] as int].holds(k as nat) {
            1nat
        } else {
            0nat
        }
    &&& forall|w: int|
        0 <= w < size && #[trigger] s.workers[w] is Exited ==> !s.channel.open
            && s.channel.pending.len() == 0
    &&& forall|w: int| 0 <= w < s.joined ==> (#[trigger] s.workers[w]).ended()
    &&& s.joined > 0 ==> !s.channel.open
    &&& failure_free(history) ==> forall|w: int| 0 <= w < size ==> !(#[trigger] s.workers[w] is Failed)
}

proof fn lemma_invariant<J>(size: nat, history: Seq<Event<J>>)
    requires
        admissible(size, history),
    ensures
        consistent(size, history, after(size, history)),
    decreases history.len(),
{
    if history.len() == 0 {
        let s = after(size, history);
        assert(s.channel.sent() =~= Seq::<J>::empty());
    } else {
        let before = history.drop_last();
        let event = history.last();
        lemma_invariant(size, before);
        let p = after(size, before);
        let s = after(size, history);
        assert(s == p.step(event));
        assert(failure_free(history) ==> failure_free(before)) by {
            if failure_free(history) {
                assert forall|i: int| 0 <= i < before.len() implies !(#[trigger] before[i] is Fail) by {
                    assert(before[i] == history[i]);
                }
            }
        }
        assert(failure_free(history) ==> !(event is Fail)) by {
            if failure_free(history) {
                assert(history[history.len() - 1] == event);
            }
        }
        match event {
            Event::Submit(job) => {
                assert(s.channel.sent() =~= p.channel.sent().push(job));
            },
            Event::Consume(w) => {
                assert(s.channel.sent() =~= p.channel.sent());
                assert forall|k: int| 0 <= k < s.runs.len() implies #[trigger] s.runs[k] == if k
                    < s.takers.len() && !s.workers[s.takers[k] as int].holds(k as nat) {
                    1nat
                } else {
                    0nat
                } by {
                    if k < p.takers.len() {
                        assert(p.takers[k] < size);
                        assert(!p.workers[w as int].holds(k as nat));
                    }
                }
            },
            Event::Finish(w) => {
                let j = p.workers[w as int]->Busy_0;
                assert(p.workers[w as int].holds(j));
                assert forall|k: int| 0 <= k < s.runs.len() implies #[trigger] s.runs[k] == if k
                    < s.takers.len() && !s.workers[s.takers[k] as int].holds(k as nat) {
                    1nat
                } else {
                    0nat
                } by {
                    if k < p.takers.len() {
                        assert(p.takers[k] < size);
                        if p.takers[k] == w && k != j {
                            assert(!p.workers[w as int].holds(k as nat));
                        }
                    }
                }
            },
            Event::Fail(w) => {
                let j = p.workers[w as int]->Busy_0;
                assert(p.workers[w as int].holds(j));
            },
            Event::Close => {},
            Event::Join => {},
        }
    }
}

/// Jobs leave the channel in the order in which they were submitted: the
/// jobs handed to workers so far, in the order of the consume attempts that
/// obtained them, followed by the jobs still queued, are the jobs submitted
/// so far, in submission order.
pub proof fn fifo_handoff<J>(size: nat, history: Seq<Event<J>>)
    requires
        admissible(size, history),
    ensures
        dequeued(size, history) + after(size, history).channel.pending == submitted(history),
{
    lemma_invariant(size, history);
}

/// The drain guarantee: once teardown of a pool with at least one worker
/// has completed, and provided no job failed, nothing is left in the queue
/// and every job submitted has been run to completion exactly once.
pub proof fn drain_guarantee<J>(size: nat, history: Seq<Event<J>>)
    requires
        size > 0,
        admissible(size, history),
        failure_free(history),
        after(size, history).torn_down(),
    ensures
        ({
            let end = after(size, history);
            &&& end.channel.pending.len() == 0
            &&& end.runs.len() == submitted(history).len()
            &&& forall|k: int| 0 <= k < end.runs.len() ==> end.runs[k] == 1
        }),
{
    lemma_invariant(size, history);
    let end = after(size, history);
    assert(end.workers[0].ended());
    assert forall|k: int| 0 <= k < end.runs.len() implies end.runs[k] == 1 by {
        assert(end.workers[end.takers[k] as int].ended());
    }
}

/// What teardown guarantees when jobs may fail: a job that a worker took
/// has been run to completion exactly once, unless it is the job in which
/// that worker failed; and a job is left in the queue only if every worker
/// has failed.
pub proof fn drain_despite_failures<J>(size: nat, history: Seq<Event<J>>)
    requires
        size > 0,
        admissible(size, history),
        after(size, history).torn_down(),
    ensures
        ({
            let end = after(size, history);
            &&& end.takers.len() == dequeued(size, history).len()
            &&& forall|k: int|
                0 <= k < end.takers.len() ==> #[trigger] end.runs[k] == 1
                    || end.workers[end.takers[k] as int] == Activity::Failed(k as nat)
            &&& end.channel.pending.len() > 0 ==> forall|w: int|
                0 <= w < size ==> #[trigger] end.workers[w] is Failed
        }),
{
    lemma_invariant(size, history);
    let end = after(size, history);
    assert forall|k: int| 0 <= k < end.takers.len() implies #[trigger] end.runs[k] == 1
        || end.workers[end.takers[k] as int] == Activity::Failed(k as nat) by {
        assert(end.workers[end.takers[k] as int].ended());
    }
    if end.channel.pending.len() > 0 {
        assert forall|w: int| 0 <= w < size implies #[trigger] end.workers[w] is Failed by {
            assert(end.workers[w].ended());
        }
    }
}

/// No job is ever run twice, and no two workers ever hold the same job,
/// whatever happens, failures included.
pub proof fn at_most_once<J>(size: nat, history: Seq<Event<J>>)
    requires
        admissible(size, history),
    ensures
        ({
            let now = after(size, history);
            &&& forall|k: int| 0 <= k < now.runs.len() ==> #[trigger] now.runs[k] <= 1
            &&& forall|v: int, w: int, k: nat|
                0 <= v < size && 0 <= w < size && #[trigger] now.workers[v].holds(k)
                    && #[trigger] now.workers[w].holds(k) ==> v == w
        }),
{
    lemma_invariant(size, history);
}

/// Teardown waits for every worker: its joins begin only after the channel
/// has been closed, and once it has completed no worker's thread is still
/// running.
pub proof fn teardown_outlives_workers<J>(size: nat, history: Seq<Event<J>>)
    requires
        admissible(size, history),
    ensures
        ({
            let now = after(size, history);
            &&& now.joined > 0 ==> !now.channel.open
            &&& now.torn_down() ==> forall|w: int|
                0 <= w < size ==> (#[trigger] now.workers[w]).ended()
        }),
{
    lemma_invariant(size, history);
}

} // verus!
