//! The shared job source: an unbounded FIFO queue with a close signal.

use std::collections::VecDeque;
use vstd::prelude::*;

verus! {

/// What a consume attempt on a [`JobChannel`] yields.
#[derive(Debug, PartialEq, Eq)]
pub enum Message<J> {
    /// The oldest queued job, now owned by the consumer.
    Job(J),
    /// Nothing is queued, but the send side is still present: the consumer
    /// has to wait and try again.
    Empty,
    /// Nothing is queued and the send side is gone: no job will ever arrive.
    Closed,
}

/// The abstract state of a [`JobChannel`].
pub struct ChannelView<J> {
    /// The jobs handed out so far, in the order in which they were handed
    /// out.
    pub delivered: Seq<J>,
    /// The jobs accepted and not yet handed out, oldest first.
    pub pending: Seq<J>,
    /// Whether the send side is still present.
    pub open: bool,
}

impl<J> ChannelView<J> {
    /// A fresh channel: open, nothing accepted, nothing handed out.
    pub open spec fn empty() -> Self {
        ChannelView { delivered: Seq::empty(), pending: Seq::empty(), open: true }
    }

    /// Every job the channel ever accepted, in the order of acceptance.
    pub open spec fn sent(self) -> Seq<J> {
        self.delivered + self.pending
    }

    /// The state after a send attempt: an open channel queues the job
    /// behind all earlier ones, a closed channel is unchanged.
    pub open spec fn send(self, job: J) -> Self {
        if self.open {
            ChannelView { pending: self.pending.push(job), ..self }
        } else {
            self
        }
    }

    /// What the next consume attempt yields: the oldest queued job if there
    /// is one, and otherwise whether more jobs can still arrive.
    pub open spec fn message(self) -> Message<J> {
        if self.pending.len() > 0 {
            Message::Job(self.pending.first())
        } else if self.open {
            Message::Empty
        } else {
            Message::Closed
        }
    }

    /// The state after a consume attempt: the oldest queued job, if there is
    /// one, has been handed out.
    pub open spec fn recv(self) -> Self {
        if self.pending.len() > 0 {
            ChannelView {
                delivered: self.delivered.push(self.pending.first()),
                pending: self.pending.drop_first(),
                ..self
            }
        } else {
            self
        }
    }

    /// The state after closing: queued jobs stay queued.
    pub open spec fn close(self) -> Self {
        ChannelView { open: false, ..self }
    }
}

/// An unbounded FIFO queue of jobs with a close signal.
///
/// The queue itself does no locking and no blocking: a consumer that finds
/// it [`Message::Empty`] waits by whatever means the surrounding program
/// offers and asks again.
pub struct JobChannel<J> {
    queue: VecDeque<J>,
    open: bool,
    delivered: Ghost<Seq<J>>,
}

impl<J> View for JobChannel<J> {
    type V = ChannelView<J>;

    closed spec fn view(&self) -> ChannelView<J> {
        ChannelView { delivered: self.delivered@, pending: self.queue@, open: self.open }
    }
}

impl<J> JobChannel<J> {
    /// Creates an open channel with nothing queued.
    pub fn new() -> (channel: Self)
        ensures
            channel@ == ChannelView::<J>::empty(),
    {
        JobChannel { queue: VecDeque::new(), open: true, delivered: Ghost(Seq::empty()) }
    }

    /// Queues `job` behind every job sent before it, or hands it back if the
    /// channel has been closed.
    pub fn send(&mut self, job: J) -> (result: Result<(), J>)
        ensures
            final(self)@ == old(self)@.send(job),
            old(self)@.open ==> result == Ok::<(), J>(()),
            !old(self)@.open ==> result == Err::<(), J>(job),
    {
        if self.open {
            self.queue.push_back(job);
            Ok(())
        } else {
            Err(job)
        }
    }

    /// Hands out the oldest queued job. With nothing queued, reports whether
    /// more jobs can still arrive.
    pub fn recv(&mut self) -> (message: Message<J>)
        ensures
            message == old(self)@.message(),
            final(self)@ == old(self)@.recv(),
    {
        match self.queue.pop_front() {
            Some(job) => {
                proof {
                    self.delivered@ = self.delivered@.push(job);
                }
                assert(self.queue@ == old(self).queue@.drop_first());
                Message::Job(job)
            },
            None => {
                if self.open {
                    Message::Empty
                } else {
                    Message::Closed
                }
            },
        }
    }

    /// Closes the channel. Jobs already queued stay queued; later sends are
    /// refused.
    pub fn close(&mut self)
        ensures
            final(self)@ == old(self)@.close(),
    {
        self.open = false;
    }

    /// Whether the channel still accepts jobs.
    pub fn is_open(&self) -> (open: bool)
        ensures
            open == self@.open,
    {
        self.open
    }

    /// The number of jobs queued and not yet handed out.
    pub fn len(&self) -> (n: usize)
        ensures
            n == self@.pending.len(),
    {
        self.queue.len()
    }
}

} // verus!
