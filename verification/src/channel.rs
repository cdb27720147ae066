use vstd::prelude::*;

use crate::message::Message;

verus! {

/// Outcome of one non-suspending poll of the channel: a queued message, the
/// end of the stream, or nothing yet (the caller should suspend and retry).
#[derive(Clone, Copy, Debug, PartialEq, Eq)]
pub enum RecvPoll {
    Ready(Message),
    EndOfStream,
    WouldWait,
}

/// The shared state of the message channel: the queued messages in arrival
/// order, and whether the sending side has been dropped.  The embedding
/// program wraps one of these in its lock of choice and parks the receiving
/// task whenever a poll reports [`RecvPoll::WouldWait`].
pub struct ChannelState {
    queue: Vec<Message>,
    closed: bool,
}

/// Mathematical model of a channel: the queue as a sequence, and the closed
/// flag.
pub struct ChannelView {
    pub queue: Seq<Message>,
    pub closed: bool,
}

impl View for ChannelState {
    type V = ChannelView;

    closed spec fn view(&self) -> ChannelView {
        ChannelView { queue: self.queue@, closed: self.closed }
    }
}

/// What one poll of a channel in state `v` returns, and the state it leaves
/// behind: the front of the queue while any message is queued; the end of
/// the stream when the queue is empty and the sender is gone; otherwise
/// nothing yet.
pub open spec fn spec_poll(v: ChannelView) -> (RecvPoll, ChannelView) {
    if v.queue.len() > 0 {
        (
            RecvPoll::Ready(v.queue[0]),
            ChannelView { queue: v.queue.skip(1), closed: v.closed },
        )
    } else if v.closed {
        (RecvPoll::EndOfStream, v)
    } else {
        (RecvPoll::WouldWait, v)
    }
}

/// The channel state after `k` polls starting from `v`.
pub open spec fn state_after_polls(v: ChannelView, k: int) -> ChannelView
    decreases k,
{
    if k <= 0 {
        v
    } else {
        state_after_polls(spec_poll(v).1, k - 1)
    }
}

impl ChannelState {
    /// A fresh channel: nothing queued, sender alive.
    pub fn new() -> (c: ChannelState)
        ensures
            c@.queue == Seq::<Message>::empty(),
            !c@.closed,
    {
        ChannelState { queue: Vec::new(), closed: false }
    }

    /// Appends a message, unless the channel was already closed by dropping
    /// the sender, in which case nothing changes.
    pub fn send(&mut self, message: Message)
        ensures
            final(self)@.closed == old(self)@.closed,
            old(self)@.closed ==> final(self)@.queue == old(self)@.queue,
            !old(self)@.closed ==> final(self)@.queue == old(self)@.queue.push(message),
    {
        if !self.closed {
            self.queue.push(message);
        }
    }

    /// Marks the sending side as dropped; queued messages stay readable.
    pub fn close(&mut self)
        ensures
            final(self)@.queue == old(self)@.queue,
            final(self)@.closed,
    {
        self.closed = true;
    }

    /// Pops the oldest queued message without ever suspending, telling an
    /// empty channel apart from nothing at all.
    pub fn try_recv(&mut self) -> (r: Option<Message>)
        ensures
            final(self)@.closed == old(self)@.closed,
            old(self)@.queue.len() == 0 ==> r is None && final(self)@.queue == old(self)@.queue,
            old(self)@.queue.len() > 0 ==> r == Some(old(self)@.queue[0]) && final(self)@.queue
                == old(self)@.queue.skip(1),
    {
        if self.queue.len() == 0 {
            None
        } else {
            let message = self.queue.remove(0);
            assert(self.queue@ == old(self)@.queue.skip(1));
            Some(message)
        }
    }

    /// One step of `recv`: exactly [`spec_poll`] of the state before the
    /// call.  A caller that gets [`RecvPoll::WouldWait`] suspends until the
    /// next send or close, then polls again.
    pub fn poll_recv(&mut self) -> (r: RecvPoll)
        ensures
            r == spec_poll(old(self)@).0,
            final(self)@ == spec_poll(old(self)@).1,
    {
        if self.queue.len() > 0 {
            let message = self.queue.remove(0);
            assert(self.queue@ == old(self)@.queue.skip(1));
            RecvPoll::Ready(message)
        } else if self.closed {
            RecvPoll::EndOfStream
        } else {
            RecvPoll::WouldWait
        }
    }
}

/// Once the sender is dropped, polling drains every queued message in order
/// and reports the end of the stream exactly when the queue is exhausted,
/// never before: the `k`-th poll of a closed channel returns the `k`-th
/// queued message while one remains, and end-of-stream from then on.
pub proof fn lemma_closed_channel_ends_after_drain(v: ChannelView, k: int)
    requires
        v.closed,
        0 <= k,
    ensures
        k < v.queue.len() ==> spec_poll(state_after_polls(v, k)).0 == RecvPoll::Ready(v.queue[k]),
        k >= v.queue.len() ==> spec_poll(state_after_polls(v, k)).0 == RecvPoll::EndOfStream,
    decreases k,
{
    if k > 0 {
        let next = spec_poll(v).1;
        lemma_closed_channel_ends_after_drain(next, k - 1);
        assert(state_after_polls(v, k) == state_after_polls(next, k - 1));
    }
}

} // verus!
