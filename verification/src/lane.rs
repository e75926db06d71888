//! A delivery lane: the sending end of a bounded channel of events.

use crate::dispatch::{Event, ForwardEvent};
use tokio::sync::mpsc;
use vstd::prelude::*;

verus! {

/// The sending end of a bounded channel.
#[verifier::external_type_specification]
#[verifier::external_body]
#[verifier::reject_recursive_types(T)]
pub struct ExSender<T>(mpsc::Sender<T>);

/// The receiving end of a bounded channel.
#[verifier::external_type_specification]
#[verifier::external_body]
#[verifier::reject_recursive_types(T)]
pub struct ExReceiver<T>(mpsc::Receiver<T>);

/// How many events the channel of `sender` buffers at most.
pub uninterp spec fn sender_room(sender: mpsc::Sender<ForwardEvent>) -> nat;

/// The events that the channel of `sender` took, in order, whether or not they were
/// received since.
pub uninterp spec fn sender_log(sender: mpsc::Sender<ForwardEvent>) -> Seq<Event>;

/// Whether the channel of `sender` refused an event because its receiving end is closed.
pub uninterp spec fn sender_closed(sender: mpsc::Sender<ForwardEvent>) -> bool;

/// How many events the channel of `receiver` buffers at most.
pub uninterp spec fn receiver_room(receiver: mpsc::Receiver<ForwardEvent>) -> nat;

/// Whether `sender` and `receiver` are the two ends of one channel.
pub uninterp spec fn joined(
    sender: mpsc::Sender<ForwardEvent>,
    receiver: mpsc::Receiver<ForwardEvent>,
) -> bool;

/// `tokio::sync::mpsc::channel`: the two ends of one channel, which buffers `buffer`
/// events at most. Without any room it panics, and so it does with more than its counter
/// can hold. That the one end hands out in order what the other end took is not claimed:
/// it happens behind shared references.
#[verifier::external_body]
pub(crate) fn channel(buffer: usize) -> (ends: (
    mpsc::Sender<ForwardEvent>,
    mpsc::Receiver<ForwardEvent>,
))
    requires
        0 < buffer <= usize::MAX / 8,
    ensures
        sender_room(ends.0) == buffer,
        sender_log(ends.0) == Seq::<Event>::empty(),
        !sender_closed(ends.0),
        receiver_room(ends.1) == buffer,
        joined(ends.0, ends.1),
{
    mpsc::channel::<ForwardEvent>(buffer)
}

/// `Sender::try_send` on the only sender of a channel: whether the channel took the
/// event. It refuses one only where its buffer is full, so that it took as many events as
/// it has room for at least, or where its receiving end is closed, which is for good.
/// Beyond that the answer depends on how far the receiver has got, and is not claimed. The
/// sender stays one end of the same channel.
#[verifier::external_body]
pub(crate) fn try_send(sender: &mut mpsc::Sender<ForwardEvent>, event: ForwardEvent) -> (taken:
    bool)
    ensures
        sender_room(*final(sender)) == sender_room(*old(sender)),
        sender_log(*final(sender)) == if taken {
            sender_log(*old(sender)).push(event@)
        } else {
            sender_log(*old(sender))
        },
        taken ==> !sender_closed(*final(sender)),
        !taken ==> sender_log(*old(sender)).len() >= sender_room(*old(sender)) || sender_closed(
            *final(sender),
        ),
        sender_closed(*old(sender)) ==> !taken && sender_closed(*final(sender)),
        forall|receiver: mpsc::Receiver<ForwardEvent>| #[trigger]
            joined(*final(sender), receiver) == joined(*old(sender), receiver),
{
    sender.try_send(event).is_ok()
}

/// A delivery lane: the only sender of its channel.
pub struct Lane {
    sender: mpsc::Sender<ForwardEvent>,
}

impl View for Lane {
    type V = Seq<Event>;

    /// The events that the lane was handed and took, in order.
    closed spec fn view(&self) -> Seq<Event> {
        sender_log(self.sender)
    }
}

impl Lane {
    /// How many events the lane buffers at most.
    pub closed spec fn room(self) -> nat {
        sender_room(self.sender)
    }

    /// Whether the lane refused an event because nothing receives from it any more.
    pub closed spec fn closed(self) -> bool {
        sender_closed(self.sender)
    }

    /// Whether what the lane takes goes to `receiver`.
    pub closed spec fn feeds(self, receiver: mpsc::Receiver<ForwardEvent>) -> bool {
        joined(self.sender, receiver)
    }

    /// Opens a lane with room for `buffer` events.
    pub fn open(buffer: usize) -> (r: (Self, mpsc::Receiver<ForwardEvent>))
        requires
            0 < buffer <= usize::MAX / 8,
        ensures
            r.0@ == Seq::<Event>::empty(),
            r.0.room() == buffer,
            !r.0.closed(),
            receiver_room(r.1) == buffer,
            r.0.feeds(r.1),
    {
        let (sender, receiver) = channel(buffer);
        (Lane { sender }, receiver)
    }

    /// Hands `event` to the lane, without waiting for room, and says whether the lane
    /// took it. Only a lane that is saturated or closed refuses one: a lane that took
    /// fewer events than it has room for takes another one unless it is closed.
    pub fn send(&mut self, event: ForwardEvent) -> (taken: bool)
        ensures
            final(self)@ == if taken {
                old(self)@.push(event@)
            } else {
                old(self)@
            },
            final(self).room() == old(self).room(),
            taken ==> !final(self).closed(),
            !taken ==> old(self)@.len() >= old(self).room() || final(self).closed(),
            old(self).closed() ==> !taken && final(self).closed(),
            forall|receiver: mpsc::Receiver<ForwardEvent>| #[trigger]
                final(self).feeds(receiver) == old(self).feeds(receiver),
    {
        try_send(&mut self.sender, event)
    }
}

} // verus!
