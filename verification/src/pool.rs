//! The owner side of the pool: the fixed set of workers and the send side of
//! the job channel.
//!
//! The pool is generic in the thread handle `H` and in the send side `S`,
//! which is whatever the owner needs to reach the channel it shares with
//! the workers. Starting a thread, getting exclusive access to the channel
//! and joining a thread are the caller's primitives; the pool decides what
//! is started, what is done to the channel, and what is joined in which
//! order.

use crate::channel::{ChannelView, JobChannel};
use crate::worker::Worker;
use vstd::prelude::*;

verus! {

/// The abstract state of a [`ThreadPool`]: the send side, present while the
/// pool is live, and one handle slot per worker, in creation order.
pub struct PoolView<S, H> {
    pub sender: Option<S>,
    pub threads: Seq<Option<H>>,
}

impl<S, H> PoolView<S, H> {
    /// The number of workers, fixed at construction.
    pub open spec fn size(self) -> nat {
        self.threads.len()
    }

    /// A pool is live while it still owns the send side.
    pub open spec fn live(self) -> bool {
        self.sender is Some
    }

    /// A pool has at least one worker. While it is live it holds every
    /// worker's handle; once it is shut down it holds none.
    pub open spec fn wf(self) -> bool {
        &&& self.threads.len() > 0
        &&& forall|i: int| 0 <= i < self.threads.len() ==> (#[trigger] self.threads[i] is Some) == self.live()
    }

    /// The handles a shutdown hands out: those of a live pool, each with its
    /// worker's identity, in creation order; none for a pool already shut down.
    pub open spec fn joinable(self) -> Seq<(usize, H)> {
        if self.live() {
            Seq::new(self.threads.len(), |i: int| (i as usize, self.threads[i].unwrap()))
        } else {
            Seq::empty()
        }
    }

    /// The state a shutdown leaves behind: the same number of workers, no
    /// send side, every handle slot empty.
    pub open spec fn shut_down(self) -> Self {
        PoolView { sender: None, threads: Seq::new(self.threads.len(), |i: int| None) }
    }
}

/// What a shutdown hands to its caller: the send side, which has done its
/// duty, and the threads that remain to be joined.
pub struct Teardown<S, H> {
    /// The send side, if the pool was still live.
    pub sender: Option<S>,
    /// The handles to join, each with its worker's identity, in creation
    /// order.
    pub threads: Vec<(usize, H)>,
}

/// A fixed-size set of workers together with the send side of the channel
/// that feeds them.
pub struct ThreadPool<S, H> {
    workers: Vec<Worker<H>>,
    sender: Option<S>,
}

impl<S, H> View for ThreadPool<S, H> {
    type V = PoolView<S, H>;

    closed spec fn view(&self) -> PoolView<S, H> {
        PoolView {
            sender: self.sender,
            threads: Seq::new(self.workers@.len(), |i: int| self.workers@[i].handle()),
        }
    }
}

impl<S, H> ThreadPool<S, H> {
    /// The pool's invariant: its view is well-formed and every worker's
    /// identity is its position in creation order.
    pub closed spec fn wf(&self) -> bool {
        &&& self@.wf()
        &&& forall|i: int|
            0 <= i < self.workers@.len() ==> (#[trigger] self.workers@[i]).spec_id() == i
    }

    /// Creates a live pool of `size` workers.
    ///
    /// The pool creates its channel and hands it to `share`, which puts it
    /// where owner and workers can both reach it and returns the owner's
    /// way there, the send side. Worker `id`, for each `id` below `size` in
    /// increasing order, is started by `spawn(id, &sender)`, and the pool
    /// keeps the handle that call returns.
    pub fn new<J, C: FnOnce(JobChannel<J>) -> S, F: Fn(usize, &S) -> H>(
        size: usize,
        share: C,
        spawn: F,
    ) -> (pool: Self)
        requires
            size > 0,
            forall|channel: JobChannel<J>|
                channel@ == ChannelView::<J>::empty() ==> share.requires((channel,)),
            forall|channel: JobChannel<J>, sender: S, id: usize|
                channel@ == ChannelView::<J>::empty() && share.ensures((channel,), sender) && id
                    < size ==> spawn.requires((id, &sender)),
        ensures
            pool.wf(),
            pool@.size() == size,
            pool@.live(),
            exists|channel: JobChannel<J>|
                channel@ == ChannelView::<J>::empty() && share.ensures(
                    (channel,),
                    pool@.sender.unwrap(),
                ),
            forall|id: usize|
                id < size ==> (#[trigger] pool@.threads[id as int]) is Some && spawn.ensures(
                    (id, &pool@.sender.unwrap()),
                    pool@.threads[id as int].unwrap(),
                ),
    {
        let channel = JobChannel::new();
        let sender = share(channel);
        let mut workers: Vec<Worker<H>> = Vec::with_capacity(size);
        for id in 0..size
            invariant
                workers@.len() == id,
                forall|k: usize| k < size ==> spawn.requires((k, &sender)),
                forall|i: int| 0 <= i < id ==> (#[trigger] workers@[i]).spec_id() == i,
                forall|i: int|
                    0 <= i < id ==> (#[trigger] workers@[i]).handle() is Some && spawn.ensures(
                        (i as usize, &sender),
                        workers@[i].handle().unwrap(),
                    ),
        {
            workers.push(Worker::new(id, &sender, &spawn));
        }
        ThreadPool { workers, sender: Some(sender) }
    }

    /// The number of workers.
    pub fn size(&self) -> (size: usize)
        ensures
            size == self@.size(),
    {
        self.workers.len()
    }

    /// Whether the pool still owns the send side, that is, whether it has
    /// not been shut down.
    pub fn is_live(&self) -> (live: bool)
        ensures
            live == self@.live(),
    {
        self.sender.is_some()
    }

    /// The send side, while the pool is live.
    pub fn sender(&self) -> (sender: Option<&S>)
        ensures
            sender is Some == self@.live(),
            sender is Some ==> *sender.unwrap() == self@.sender.unwrap(),
    {
        self.sender.as_ref()
    }

    /// Submits `job`: queues it on `channel`, the pool's channel, behind
    /// every job submitted before it. Returns without waiting for the job to
    /// run.
    ///
    /// Submitting to a pool that has been shut down is an error of the
    /// caller's, and so is handing in a closed channel.
    pub fn execute<J>(&self, channel: &mut JobChannel<J>, job: J)
        requires
            self@.live(),
            old(channel)@.open,
        ensures
            final(channel)@ == old(channel)@.send(job),
            final(channel)@.pending == old(channel)@.pending.push(job),
    {
        let accepted = channel.send(job);
        assert(accepted is Ok);
    }

    /// Begins teardown. Closes `channel`, the pool's channel, which is the
    /// one signal that makes the workers leave their loops once the queue is
    /// drained; then takes the send side and every worker's handle out of
    /// the pool and hands them to the caller, the handles in creation order.
    /// The caller joins them; each join returns when that worker has run out
    /// of jobs and left its loop.
    ///
    /// On a pool already shut down there is nothing left to hand out.
    pub fn shutdown<J>(&mut self, channel: &mut JobChannel<J>) -> (teardown: Teardown<S, H>)
        requires
            old(self).wf(),
        ensures
            final(self).wf(),
            final(self)@ == old(self)@.shut_down(),
            final(channel)@ == old(channel)@.close(),
            teardown.sender == old(self)@.sender,
            teardown.threads@ == old(self)@.joinable(),
    {
        channel.close();
        let sender = self.sender.take();
        let mut threads: Vec<(usize, H)> = Vec::new();
        let n = self.workers.len();
        for i in 0..n
            invariant
                n == self.workers@.len(),
                n == old(self).workers@.len(),
                self.sender is None,
                old(self).wf(),
                forall|k: int| 0 <= k < n ==> (#[trigger] self.workers@[k]).spec_id() == k,
                forall|k: int| 0 <= k < i ==> (#[trigger] self.workers@[k]).handle() is None,
                forall|k: int|
                    i <= k < n ==> (#[trigger] self.workers@[k]).handle() == old(
                        self,
                    ).workers@[k].handle(),
                old(self)@.live() ==> threads@.len() == i,
                !old(self)@.live() ==> threads@.len() == 0,
                forall|k: int|
                    0 <= k < threads@.len() ==> (#[trigger] threads@[k]) == (
                        k as usize,
                        old(self).workers@[k].handle().unwrap(),
                    ),
        {
            assert(old(self)@.threads[i as int] is Some == old(self)@.live());
            let id = self.workers[i].id();
            if let Some(thread) = self.workers[i].take_thread() {
                threads.push((id, thread));
            }
        }
        assert(self@.threads =~= old(self)@.shut_down().threads);
        assert(threads@ =~= old(self)@.joinable());
        Teardown { sender, threads }
    }
}

} // verus!
