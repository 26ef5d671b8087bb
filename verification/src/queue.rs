//! The queue of received messages waiting to be taken by the user, with the
//! task waker to notify when one arrives.

use vstd::prelude::*;
use std::collections::VecDeque;
use core::task::Waker;
use crate::message::StreamMessage;

verus! {

/// The task waker of `std`, held until a message arrives.
#[verifier::external_type_specification]
#[verifier::external_body]
pub struct ExWaker(core::task::Waker);

/// Calls `Waker::wake`, which schedules the task that the waker belongs to.
/// Nothing is claimed of its effect.
#[verifier::external_body]
fn wake_task(waker: Waker) {
    waker.wake()
}

/// What the user gets when asking for the next message.
pub enum NextMessage {
    /// The oldest message not taken yet.
    Message(StreamMessage),
    /// No message will ever come again.
    End,
    /// No message is there yet; the waker given will be woken when one is.
    Pending,
}

/// Messages received and not yet taken, oldest first.
pub struct ReceivedMessages {
    fused: bool,
    queue: VecDeque<StreamMessage>,
    waker: Option<Waker>,
}

/// The state of a [`ReceivedMessages`].
pub struct QueueState {
    pub fused: bool,
    pub queue: Seq<StreamMessage>,
    pub waiting: bool,
}

impl View for ReceivedMessages {
    type V = QueueState;

    closed spec fn view(&self) -> QueueState {
        QueueState { fused: self.fused, queue: self.queue@, waiting: self.waker is Some }
    }
}

impl ReceivedMessages {
    /// The waker kept to be woken when a message arrives, if any.
    pub closed spec fn kept_waker(&self) -> Option<Waker> {
        self.waker
    }

    /// Someone waits exactly when a waker is kept.
    pub proof fn lemma_waiting_means_waker_kept(&self)
        ensures
            self@.waiting == (self.kept_waker() is Some),
    {
    }
}

/// An operation on the queue of received messages.
pub enum QueueEvent {
    /// A message arrives.
    Push(StreamMessage),
    /// No message will arrive any more.
    Fuse,
    /// The user asks for the next message.
    Take,
}

/// What one operation does: the state afterwards and, for a take, what the
/// user gets.
pub open spec fn queue_step(s: QueueState, event: QueueEvent) -> (QueueState, Option<NextMessage>) {
    match event {
        QueueEvent::Push(m) => (QueueState { queue: s.queue.push(m), waiting: false, ..s }, None),
        QueueEvent::Fuse => (QueueState { fused: true, waiting: false, ..s }, None),
        QueueEvent::Take => if s.queue.len() > 0 {
            (QueueState { queue: s.queue.drop_first(), ..s }, Some(NextMessage::Message(s.queue[0])))
        } else if s.fused {
            (s, Some(NextMessage::End))
        } else {
            (QueueState { waiting: true, ..s }, Some(NextMessage::Pending))
        },
    }
}

/// The state after `events` one after another, and what the takes among
/// them gave, in order.
pub open spec fn queue_run(s: QueueState, events: Seq<QueueEvent>) -> (QueueState, Seq<NextMessage>)
    decreases events.len(),
{
    if events.len() == 0 {
        (s, seq![])
    } else {
        let (t, results) = queue_run(s, events.drop_last());
        let (u, result) = queue_step(t, events.last());
        (
            u,
            match result {
                Some(r) => results.push(r),
                None => results,
            },
        )
    }
}

/// The messages among what takes gave, in order.
pub open spec fn messages_taken(results: Seq<NextMessage>) -> Seq<StreamMessage>
    decreases results.len(),
{
    if results.len() == 0 {
        seq![]
    } else {
        let before = messages_taken(results.drop_last());
        match results.last() {
            NextMessage::Message(m) => before.push(m),
            _ => before,
        }
    }
}

/// The messages pushed among `events`, in order.
pub open spec fn messages_pushed(events: Seq<QueueEvent>) -> Seq<StreamMessage>
    decreases events.len(),
{
    if events.len() == 0 {
        seq![]
    } else {
        let before = messages_pushed(events.drop_last());
        match events.last() {
            QueueEvent::Push(m) => before.push(m),
            _ => before,
        }
    }
}

/// Every message is handed out exactly once and in the order it arrived:
/// whatever the operations, the messages taken followed by those still
/// queued are the messages queued at first followed by those pushed.  The
/// end is reported only once the queue is fused and every message queued
/// or pushed before has been taken.
pub proof fn theorem_queue_delivers_in_order(s: QueueState, events: Seq<QueueEvent>)
    ensures
        messages_taken(queue_run(s, events).1) + queue_run(s, events).0.queue == s.queue
            + messages_pushed(events),
        forall|k: int|
            0 <= k < events.len() && events[k] is Take && (#[trigger] queue_step(
                queue_run(s, events.take(k)).0,
                events[k],
            )).1 == Some(NextMessage::End) ==> {
                &&& queue_run(s, events.take(k)).0.fused
                &&& messages_taken(queue_run(s, events.take(k)).1) == s.queue + messages_pushed(
                    events.take(k),
                )
            },
{
    lemma_queue_run(s, events);
    assert forall|k: int|
        0 <= k < events.len() && events[k] is Take && (#[trigger] queue_step(
            queue_run(s, events.take(k)).0,
            events[k],
        )).1 == Some(NextMessage::End) implies {
        &&& queue_run(s, events.take(k)).0.fused
        &&& messages_taken(queue_run(s, events.take(k)).1) == s.queue + messages_pushed(
            events.take(k),
        )
    } by {
        lemma_queue_run(s, events.take(k));
        let t = queue_run(s, events.take(k)).0;
        assert(t.queue.len() == 0);
        assert(messages_taken(queue_run(s, events.take(k)).1) + t.queue =~= messages_taken(
            queue_run(s, events.take(k)).1,
        ));
    }
}

/// The messages taken followed by those still queued are those queued at
/// first followed by those pushed.
proof fn lemma_queue_run(s: QueueState, events: Seq<QueueEvent>)
    ensures
        messages_taken(queue_run(s, events).1) + queue_run(s, events).0.queue == s.queue
            + messages_pushed(events),
    decreases events.len(),
{
    if events.len() == 0 {
        assert(messages_taken(seq![]) =~= seq![]);
        assert(s.queue + messages_pushed(events) =~= s.queue);
        assert(Seq::<StreamMessage>::empty() + s.queue =~= s.queue);
    } else {
        lemma_queue_run(s, events.drop_last());
        let (t, results) = queue_run(s, events.drop_last());
        let taken = messages_taken(results);
        let pushed = messages_pushed(events.drop_last());
        match events.last() {
            QueueEvent::Push(m) => {
                assert(taken + t.queue.push(m) =~= (taken + t.queue).push(m));
                assert((s.queue + pushed).push(m) =~= s.queue + pushed.push(m));
            },
            QueueEvent::Fuse => {},
            QueueEvent::Take => {
                if t.queue.len() > 0 {
                    let r = NextMessage::Message(t.queue[0]);
                    assert(results.push(r).drop_last() =~= results);
                    assert(taken.push(t.queue[0]) + t.queue.drop_first() =~= taken + t.queue);
                } else if t.fused {
                    assert(results.push(NextMessage::End).drop_last() =~= results);
                } else {
                    assert(results.push(NextMessage::Pending).drop_last() =~= results);
                }
            },
        }
    }
}

impl ReceivedMessages {
    /// An empty queue, still open, with no one waiting.
    pub fn new() -> (messages: Self)
        ensures
            messages@ == (QueueState { fused: false, queue: seq![], waiting: false }),
            messages.kept_waker() is None,
    {
        ReceivedMessages { fused: false, queue: VecDeque::new(), waker: None }
    }

    /// Adds a message at the end of the queue and wakes whoever waits.
    pub fn push(&mut self, message: StreamMessage)
        ensures
            queue_step(old(self)@, QueueEvent::Push(message)) == (final(self)@, None::<NextMessage>),
            final(self)@ == (QueueState {
                queue: old(self)@.queue.push(message),
                waiting: false,
                ..old(self)@
            }),
            final(self).kept_waker() is None,
    {
        self.queue.push_back(message);
        self.wake();
    }

    /// Marks the end of the messages and wakes whoever waits.
    pub fn fuse(&mut self)
        ensures
            queue_step(old(self)@, QueueEvent::Fuse) == (final(self)@, None::<NextMessage>),
            final(self)@ == (QueueState { fused: true, waiting: false, ..old(self)@ }),
            final(self).kept_waker() is None,
    {
        self.fused = true;
        self.wake();
    }

    /// Wakes whoever waits, if anyone.
    pub fn wake(&mut self)
        ensures
            final(self)@ == (QueueState { waiting: false, ..old(self)@ }),
            final(self).kept_waker() is None,
    {
        if let Some(waker) = self.waker.take() {
            wake_task(waker);
        }
    }

    /// Takes the oldest message; when there is none, tells whether none will
    /// ever come, or else keeps `waker` to be woken when one does.
    pub fn next_message(&mut self, waker: Waker) -> (next: NextMessage)
        ensures
            queue_step(old(self)@, QueueEvent::Take) == (final(self)@, Some(next)),
            old(self)@.queue.len() > 0 ==> (next matches NextMessage::Message(m) && m
                == old(self)@.queue[0] && final(self)@ == (QueueState {
                queue: old(self)@.queue.drop_first(),
                ..old(self)@
            })),
            old(self)@.queue.len() == 0 && old(self)@.fused ==> next is End && final(self)@
                == old(self)@,
            old(self)@.queue.len() == 0 && !old(self)@.fused ==> next is Pending && final(self)@
                == (QueueState { waiting: true, ..old(self)@ }),
            old(self)@.queue.len() == 0 && !old(self)@.fused ==> final(self).kept_waker() == Some(
                waker,
            ),
            old(self)@.queue.len() > 0 || old(self)@.fused ==> final(self).kept_waker() == old(
                self,
            ).kept_waker(),
    {
        match self.queue.pop_front() {
            Some(message) => NextMessage::Message(message),
            None => {
                if self.fused {
                    NextMessage::End
                } else {
                    self.waker = Some(waker);
                    NextMessage::Pending
                }
            },
        }
    }
}

} // verus!
