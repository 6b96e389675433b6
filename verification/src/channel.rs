//! The queues between the server and a subscriber.
//!
//! Each subscriber has two: a bounded one for events and an unbounded one for
//! the notice that ends the subscription. Both come from tokio. Its handles
//! are opaque here, and a few names say what matters of them: which queue a
//! handle belongs to, how much that queue holds, and what the handle was used
//! for: what was to be put into the queue through it, with the answer that came
//! each time, and that further handles were made from it.

use tokio::sync::mpsc::error::TrySendError;
use tokio::sync::mpsc::{Receiver, Sender, UnboundedReceiver, UnboundedSender};
use vstd::prelude::*;

use crate::event::{AgentEvent, EventView};
use crate::fanout::Subscriber;
use crate::status::{Status, StatusView};

verus! {

/// The handle of tokio by which items are put into a bounded queue.
#[verifier::external_type_specification]
#[verifier::external_body]
#[verifier::reject_recursive_types(T)]
pub struct ExSender<T>(tokio::sync::mpsc::Sender<T>);

/// The end of tokio at which items are taken out of a bounded queue.
#[verifier::external_type_specification]
#[verifier::external_body]
#[verifier::reject_recursive_types(T)]
pub struct ExReceiver<T>(tokio::sync::mpsc::Receiver<T>);

/// The handle of tokio by which items are put into an unbounded queue.
#[verifier::external_type_specification]
#[verifier::external_body]
#[verifier::reject_recursive_types(T)]
pub struct ExUnboundedSender<T>(tokio::sync::mpsc::UnboundedSender<T>);

/// The end of tokio at which items are taken out of an unbounded queue.
#[verifier::external_type_specification]
#[verifier::external_body]
#[verifier::reject_recursive_types(T)]
pub struct ExUnboundedReceiver<T>(tokio::sync::mpsc::UnboundedReceiver<T>);

/// What this handle was used for, oldest first, with what the handle that it was
/// made from was used for until then. Whatever else is put into the queue is put
/// there through a handle that was made from this one, or through one that this
/// one was made from, and either shows here.
pub uninterp spec fn event_tries(sender: Sender<AgentEvent>) -> Seq<HandleUse>;

/// The number of the queue that this handle puts events into.
pub uninterp spec fn event_queue(sender: Sender<AgentEvent>) -> int;

/// The number of events that the queue of this handle holds at most.
pub uninterp spec fn event_capacity(sender: Sender<AgentEvent>) -> int;

/// The number of the queue that events are taken out of here.
pub uninterp spec fn event_source(receiver: Receiver<AgentEvent>) -> int;

/// The notices that [`send_notice`] was to put into the queue through this
/// handle, oldest first, and whether each was put there.
pub uninterp spec fn notice_tries(sender: UnboundedSender<Status>) -> Seq<(StatusView, bool)>;

/// The number of the queue that this handle puts notices into.
pub uninterp spec fn notice_queue(sender: UnboundedSender<Status>) -> int;

/// The number of the queue that notices are taken out of here.
pub uninterp spec fn notice_source(receiver: UnboundedReceiver<Status>) -> int;

/// The largest number of events that a bounded queue can be made for.
pub open spec fn max_event_queue() -> usize {
    usize::MAX / 8
}

/// How an attempt to put an event into a queue went.
#[derive(Clone, Copy, Debug, PartialEq, Eq, Structural)]
pub enum Delivery {
    /// The event is in the queue.
    Sent,
    /// The queue had no room.
    Full,
    /// Nobody takes events out of the queue any more.
    Closed,
}

/// What a handle for a queue of events is used for.
pub enum HandleUse {
    /// This event was to be put into the queue, with [`try_send`], and this is how
    /// that went.
    Tried(EventView, Delivery),
    /// Another handle was made, with [`another_sender`].
    Copied,
}

/// The events of those attempts that went well, in order.
pub open spec fn delivered(tries: Seq<HandleUse>) -> Seq<EventView>
    decreases tries.len(),
{
    if tries.len() == 0 {
        Seq::empty()
    } else {
        match tries.last() {
            HandleUse::Tried(event, Delivery::Sent) => delivered(tries.drop_last()).push(event),
            _ => delivered(tries.drop_last()),
        }
    }
}

/// The notices of those attempts that went well, in order.
pub open spec fn left(tries: Seq<(StatusView, bool)>) -> Seq<StatusView>
    decreases tries.len(),
{
    if tries.len() == 0 {
        Seq::empty()
    } else if tries.last().1 {
        left(tries.drop_last()).push(tries.last().0)
    } else {
        left(tries.drop_last())
    }
}

/// The events that were put into the queue through this handle, oldest first.
pub open spec fn sent_events(sender: Sender<AgentEvent>) -> Seq<EventView> {
    delivered(event_tries(sender))
}

/// The notices that were put into the queue through this handle, oldest first.
pub open spec fn sent_notices(sender: UnboundedSender<Status>) -> Seq<StatusView> {
    left(notice_tries(sender))
}

/// One more attempt adds its event if it went well, and nothing otherwise.
pub proof fn lemma_delivered_push(tries: Seq<HandleUse>, event: EventView, delivery: Delivery)
    ensures
        delivered(tries.push(HandleUse::Tried(event, delivery))) == if delivery is Sent {
            delivered(tries).push(event)
        } else {
            delivered(tries)
        },
        delivered(tries.push(HandleUse::Copied)) == delivered(tries),
{
    assert(tries.push(HandleUse::Tried(event, delivery)).drop_last() =~= tries);
    assert(tries.push(HandleUse::Copied).drop_last() =~= tries);
}

/// One more attempt adds its notice if it went well, and nothing otherwise.
pub proof fn lemma_left_push(tries: Seq<(StatusView, bool)>, notice: StatusView, sent: bool)
    ensures
        left(tries.push((notice, sent))) == if sent {
            left(tries).push(notice)
        } else {
            left(tries)
        },
{
    assert(tries.push((notice, sent)).drop_last() =~= tries);
}

/// Opens a bounded queue for events, with `tokio::sync::mpsc::channel`: the two
/// ends belong to one queue, which holds `capacity` events at most, and nothing
/// was to be put into it yet. It is a new queue, and so none of those that
/// `others` have. The outside function panics on a capacity of zero and
/// on one above an eighth of what a `usize` holds.
#[allow(unused_variables)]
#[verifier::external_body]
pub(crate) fn event_channel(capacity: usize, others: &Vec<Subscriber>) -> (ends: (
    Sender<AgentEvent>,
    Receiver<AgentEvent>,
))
    requires
        0 < capacity <= max_event_queue(),
    ensures
        event_tries(ends.0) == Seq::<HandleUse>::empty(),
        event_queue(ends.0) == event_source(ends.1),
        event_capacity(ends.0) == capacity,
        forall|i: int|
            0 <= i < others@.len() ==> event_queue((#[trigger] others@[i]).sender) != event_queue(
                ends.0,
            ),
{
    tokio::sync::mpsc::channel(capacity)
}

/// Another handle for the same queue of events, with the `clone` of
/// `tokio::sync::mpsc::Sender`. Both handles show that it was made, behind what
/// the first was used for before; nothing is put into the queue by that.
#[verifier::external_body]
pub(crate) fn another_sender(sender: &mut Sender<AgentEvent>) -> (other: Sender<AgentEvent>)
    ensures
        event_tries(other) == event_tries(*old(sender)).push(HandleUse::Copied),
        event_tries(*final(sender)) == event_tries(*old(sender)).push(HandleUse::Copied),
        event_queue(other) == event_queue(*old(sender)),
        event_queue(*final(sender)) == event_queue(*old(sender)),
        event_capacity(other) == event_capacity(*old(sender)),
        event_capacity(*final(sender)) == event_capacity(*old(sender)),
{
    sender.clone()
}

/// Puts `event` into the queue if there is room, with
/// `tokio::sync::mpsc::Sender::try_send`. The handle stays with its queue, and
/// the attempt is behind those made before. If the answer is `Sent`, the event
/// is in the queue; otherwise the queue is as it was. Which of the three
/// answers comes depends on the other end and on the other handles of the
/// queue.
#[verifier::external_body]
pub(crate) fn try_send(sender: &mut Sender<AgentEvent>, event: AgentEvent) -> (delivery: Delivery)
    ensures
        event_queue(*final(sender)) == event_queue(*old(sender)),
        event_capacity(*final(sender)) == event_capacity(*old(sender)),
        event_tries(*final(sender)) == event_tries(*old(sender)).push(
            HandleUse::Tried(event@, delivery),
        ),
{
    match sender.try_send(event) {
        Ok(()) => Delivery::Sent,
        Err(TrySendError::Full(_)) => Delivery::Full,
        Err(TrySendError::Closed(_)) => Delivery::Closed,
    }
}

/// Opens an unbounded queue for notices, with
/// `tokio::sync::mpsc::unbounded_channel`: the two ends belong to one queue,
/// and nothing was to be put into it yet. It is a new queue, and so none of
/// those that `others` have.
#[allow(unused_variables)]
#[verifier::external_body]
pub(crate) fn notice_channel(others: &Vec<Subscriber>) -> (ends: (
    UnboundedSender<Status>,
    UnboundedReceiver<Status>,
))
    ensures
        notice_tries(ends.0) == Seq::<(StatusView, bool)>::empty(),
        notice_queue(ends.0) == notice_source(ends.1),
        forall|i: int|
            0 <= i < others@.len() ==> notice_queue((#[trigger] others@[i]).terminate)
                != notice_queue(ends.0),
{
    tokio::sync::mpsc::unbounded_channel()
}

/// Puts `notice` into the queue, with
/// `tokio::sync::mpsc::UnboundedSender::send`. The handle stays with its queue,
/// and the attempt is behind those made before. If the answer is true, the
/// notice is in the queue; otherwise nobody takes notices out any more and the
/// queue is as it was. Which answer comes depends on the other end. The
/// outside function gives up the process on a queue of more notices than
/// memory can hold.
#[verifier::external_body]
pub(crate) fn send_notice(sender: &mut UnboundedSender<Status>, notice: Status) -> (sent: bool)
    ensures
        notice_queue(*final(sender)) == notice_queue(*old(sender)),
        notice_tries(*final(sender)) == notice_tries(*old(sender)).push((notice@, sent)),
{
    sender.send(notice).is_ok()
}

} // verus!
