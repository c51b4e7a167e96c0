//! One worker of the pool: its identity, the slot that owns its thread
//! handle, and the decision its run loop takes after each consume attempt.

use crate::channel::Message;
use vstd::prelude::*;

verus! {

/// What a worker's run loop does after one consume attempt.
#[derive(Debug, PartialEq, Eq)]
pub enum Step<J> {
    /// Run this job to completion, then consume again.
    Run(J),
    /// Nothing to do yet: block until woken, then consume again.
    Wait,
    /// Leave the loop; the thread ends.
    Exit,
}

/// The step a run loop takes on a given message: a job is run, an empty
/// channel is waited on, and closure is the only way out of the loop.
pub open spec fn step_for<J>(message: Message<J>) -> Step<J> {
    match message {
        Message::Job(job) => Step::Run(job),
        Message::Empty => Step::Wait,
        Message::Closed => Step::Exit,
    }
}

/// Decides what a worker does with the outcome of a consume attempt.
pub fn next_step<J>(message: Message<J>) -> (step: Step<J>)
    ensures
        step == step_for(message),
{
    match message {
        Message::Job(job) => Step::Run(job),
        Message::Empty => Step::Wait,
        Message::Closed => Step::Exit,
    }
}

/// A worker as the pool sees it: an identity and the handle of the thread
/// that runs its loop. The handle is present from creation until it is
/// taken to be joined, and is taken at most once.
pub struct Worker<H> {
    id: usize,
    thread: Option<H>,
}

impl<H> Worker<H> {
    /// The worker's identity.
    pub closed spec fn spec_id(&self) -> usize {
        self.id
    }

    /// The thread handle, while it has not been taken.
    pub closed spec fn handle(&self) -> Option<H> {
        self.thread
    }

    /// Starts worker `id`: `spawn` starts its thread, wired to the consume
    /// side of the channel that `sender` leads to, and the worker keeps the
    /// handle.
    pub fn new<S, F: Fn(usize, &S) -> H>(id: usize, sender: &S, spawn: &F) -> (worker: Self)
        requires
            spawn.requires((id, sender)),
        ensures
            worker.spec_id() == id,
            worker.handle() is Some,
            spawn.ensures((id, sender), worker.handle().unwrap()),
    {
        let thread = spawn(id, sender);
        Worker { id, thread: Some(thread) }
    }

    /// The worker's identity.
    #[verifier::when_used_as_spec(spec_id)]
    pub fn id(&self) -> (id: usize)
        ensures
            id == self.spec_id(),
    {
        self.id
    }

    /// Whether the thread handle is still in its slot.
    pub fn is_running(&self) -> (running: bool)
        ensures
            running == self.handle().is_some(),
    {
        self.thread.is_some()
    }

    /// Takes the thread handle out of its slot, leaving the slot empty.
    pub fn take_thread(&mut self) -> (thread: Option<H>)
        ensures
            thread == old(self).handle(),
            final(self).handle() is None,
            final(self).spec_id() == old(self).spec_id(),
    {
        self.thread.take()
    }
}

} // verus!
