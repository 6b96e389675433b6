//! A subscription, from the request to the end of its stream.

use tokio::sync::mpsc::{Receiver, Sender, UnboundedReceiver};
use vstd::prelude::*;

use crate::agent::AgentState;
use crate::channel::{
    another_sender, delivered, event_channel, event_queue, event_source, event_tries, notice_source,
    HandleUse,
};
use crate::event::{switch_event, AgentEvent, EventView, Memory};
use crate::fanout::{none_has_events, none_has_notices, SubscriberView};
use crate::status::{Code, Status, StatusView};

verus! {

/// The number of events that a subscriber may be behind.
pub const QUEUE_LENGTH: usize = 1024;

/// A subscription that stands, whose subscriber has not been told yet where
/// the agent is.
#[derive(Debug)]
pub struct Subscription {
    pub agent_id: String,
    /// The conversation that the agent was on when the subscription was made.
    pub conversation_id: String,
    /// Puts the first event into the queue.
    pub sender: Sender<AgentEvent>,
    /// Where the events come out.
    pub events: Receiver<AgentEvent>,
    /// Where the notice comes out that the subscription is broken off.
    pub notices: UnboundedReceiver<Status>,
}

/// The two ends that a subscriber takes its stream from.
#[derive(Debug)]
pub struct Ends {
    pub events: Receiver<AgentEvent>,
    pub notices: UnboundedReceiver<Status>,
}

impl AgentState {
    /// Adds a subscriber, with two queues of its own. From here on it is told
    /// every event of the agent.
    pub fn subscribe(&mut self) -> (subscription: Subscription)
        ensures
            subscription.agent_id@ == old(self)@.agent_id,
            subscription.conversation_id@ == old(self)@.conversation_id,
            event_queue(subscription.sender) == event_source(subscription.events),
            event_tries(subscription.sender) == seq![HandleUse::Copied],
            final(self)@ == old(self)@.with_subscriber(
                SubscriberView {
                    event_queue: event_source(subscription.events),
                    capacity: QUEUE_LENGTH as int,
                    event_tries: seq![HandleUse::Copied],
                    events: Seq::empty(),
                    notice_queue: notice_source(subscription.notices),
                    notice_tries: Seq::empty(),
                    notices: Seq::empty(),
                },
            ),
            none_has_events(old(self)@.subscribers, event_source(subscription.events)),
            none_has_notices(old(self)@.subscribers, notice_source(subscription.notices)),
    {
        let (mut sender, events) = event_channel(QUEUE_LENGTH, &self.fanout.subscribers);
        proof {
            let others = self@.subscribers;
            assert forall|i: int| 0 <= i < others.len() implies (#[trigger] others[i]).event_queue
                != event_source(events) by {
                assert(others[i] == self.fanout.subscribers@[i]@);
            }
        }
        let other = another_sender(&mut sender);
        proof {
            let uses = seq![HandleUse::Copied];
            assert(event_tries(sender) =~= uses);
            assert(event_tries(other) =~= uses);
            assert(uses.drop_last() =~= Seq::<HandleUse>::empty());
            assert(delivered(uses.drop_last()) =~= Seq::<EventView>::empty());
            assert(delivered(uses) =~= Seq::<EventView>::empty());
        }
        let notices = self.fanout.attach(other);
        Subscription {
            agent_id: self.agent_id.clone(),
            conversation_id: self.conversation_id.clone(),
            sender,
            events,
            notices,
        }
    }
}

impl Subscription {
    /// The first event of the subscription: the conversation that the agent is
    /// on, with the messages in `memory`.
    pub fn snapshot(&self, memory: Memory) -> (event: Result<AgentEvent, Status>)
        ensures
            match switch_event(self.agent_id@, self.conversation_id@, memory@) {
                Ok(view) => event is Ok && event->Ok_0@ == view,
                Err(error) => event is Err && event->Err_0@ == (StatusView {
                    code: Code::Internal,
                    message: error,
                }),
            },
    {
        match AgentEvent::switch_conversation(
            self.agent_id.clone(),
            self.conversation_id.clone(),
            memory,
        ) {
            Ok(event) => Ok(event),
            Err(error) => Err(Status::internal(error.as_str())),
        }
    }

    /// Hands the stream over once the first event is in the queue. The handle
    /// that put it there is let go of, so that the stream ends when the agent
    /// lets go of its own.
    pub fn open(self, first_sent: bool) -> (ends: Result<Ends, Status>)
        ensures
            first_sent <==> ends is Ok,
            first_sent ==> ends->Ok_0 == (Ends { events: self.events, notices: self.notices }),
            !first_sent ==> ends->Err_0@ == (StatusView {
                code: Code::Internal,
                message: "subscriber closed before snapshot"@,
            }),
    {
        if first_sent {
            Ok(Ends { events: self.events, notices: self.notices })
        } else {
            Err(Status::internal("subscriber closed before snapshot"))
        }
    }
}

/// How far a stream is.
#[derive(Clone, Copy, Debug, PartialEq, Eq, Structural)]
pub enum Progress {
    /// Both ends are watched, the notices before the events.
    Watching,
    /// No notice can come any more; the events are taken out to the last.
    Draining,
    /// Nothing follows.
    Ended,
}

/// What is found at the two ends at one look. At each, nothing is ready
/// (`None`), or the first thing that waits (`Some(Some(_))`), or, behind the
/// last, that nothing can come any more (`Some(None)`).
pub struct Look {
    pub notice: Option<Option<StatusView>>,
    pub event: Option<Option<EventView>>,
}

/// What is found at an end at which these things wait, and into which nothing
/// more can come if it is closed.
pub open spec fn front<T>(waiting: Seq<T>, closed: bool) -> Option<Option<T>> {
    if waiting.len() > 0 {
        Some(Some(waiting[0]))
    } else if closed {
        Some(None)
    } else {
        None
    }
}

/// What a stream does at one look: how far it is afterwards, and what it gives,
/// if anything.
pub struct Served {
    pub progress: Progress,
    pub item: Option<Result<EventView, StatusView>>,
}

impl Progress {
    /// What the stream does with what is ready at the end for events.
    pub open spec fn serve_event(self, event: Option<Option<EventView>>) -> Served {
        match event {
            Some(Some(event)) => Served { progress: self, item: Some(Ok(event)) },
            Some(None) => Served { progress: Progress::Ended, item: None },
            None => Served { progress: self, item: None },
        }
    }

    /// What the stream does at this look. A notice that is ready goes before
    /// any event, and ends the stream. The events are turned to where no notice
    /// is ready, and where none can come any more.
    pub open spec fn serve(self, look: Look) -> Served {
        match self {
            Progress::Watching => match look.notice {
                Some(Some(notice)) => Served { progress: Progress::Ended, item: Some(Err(notice)) },
                Some(None) => Progress::Draining.serve_event(look.event),
                None => self.serve_event(look.event),
            },
            Progress::Draining => self.serve_event(look.event),
            Progress::Ended => Served { progress: self, item: None },
        }
    }
}

/// What the stream does next.
#[derive(Debug)]
pub enum StreamStep {
    /// It goes on waiting.
    Wait,
    /// It gives an event and goes on.
    Give(AgentEvent),
    /// It gives an error and ends.
    Fail(Status),
    /// It ends.
    End,
}

impl StreamStep {
    /// What the stream gives at this step, if anything.
    pub open spec fn item(self) -> Option<Result<EventView, StatusView>> {
        match self {
            StreamStep::Give(event) => Some(Ok(event@)),
            StreamStep::Fail(status) => Some(Err(status@)),
            _ => None,
        }
    }

    /// The stream goes on after this step.
    pub open spec fn goes_on(self) -> bool {
        self is Wait || self is Give
    }

    /// The step is what the stream does, as `served` says.
    pub open spec fn shows(self, served: Served) -> bool {
        &&& self.item() == served.item
        &&& self.goes_on() <==> !(served.progress is Ended)
    }
}

/// A notice, if there is one, by its view.
pub open spec fn notice_view(notice: Option<Status>) -> Option<StatusView> {
    match notice {
        Some(status) => Some(status@),
        None => None,
    }
}

/// An event, if there is one, by its view.
pub open spec fn event_view(event: Option<AgentEvent>) -> Option<EventView> {
    match event {
        Some(event) => Some(event@),
        None => None,
    }
}

/// What was found at the two ends.
pub open spec fn look_of(
    notice: Option<Option<Status>>,
    event: Option<Option<AgentEvent>>,
) -> Look {
    Look {
        notice: match notice {
            Some(notice) => Some(notice_view(notice)),
            None => None,
        },
        event: match event {
            Some(event) => Some(event_view(event)),
            None => None,
        },
    }
}

impl Progress {
    /// A stream at its beginning.
    pub fn start() -> (progress: Progress)
        ensures
            progress is Watching,
    {
        Progress::Watching
    }

    /// Whether the stream watches for a notice.
    pub fn watches_notices(&self) -> (watches: bool)
        ensures
            watches <==> *self is Watching,
    {
        match self {
            Progress::Watching => true,
            Progress::Draining => false,
            Progress::Ended => false,
        }
    }

    /// A notice came out, or the end of the notices was reached.
    pub fn on_notice(&mut self, notice: Option<Status>) -> (step: StreamStep)
        requires
            *old(self) is Watching,
        ensures
            *final(self) == old(self).serve(look_of(Some(notice), None)).progress,
            step.shows(old(self).serve(look_of(Some(notice), None))),
    {
        match notice {
            Some(status) => {
                *self = Progress::Ended;
                StreamStep::Fail(status)
            },
            None => {
                *self = Progress::Draining;
                StreamStep::Wait
            },
        }
    }

    /// An event came out, or the end of the events was reached.
    pub fn on_event(&mut self, event: Option<AgentEvent>) -> (step: StreamStep)
        requires
            !(*old(self) is Ended),
        ensures
            *final(self) == old(self).serve(look_of(None, Some(event))).progress,
            step.shows(old(self).serve(look_of(None, Some(event)))),
    {
        match event {
            Some(event) => StreamStep::Give(event),
            None => {
                *self = Progress::Ended;
                StreamStep::End
            },
        }
    }

    /// Serves what is ready at the two ends, `None` where nothing is. A notice
    /// goes before an event: with it the stream ends, and the event is dropped
    /// with all that wait behind it.
    pub fn on_ready(
        &mut self,
        notice: Option<Option<Status>>,
        event: Option<Option<AgentEvent>>,
    ) -> (step: StreamStep)
        ensures
            *final(self) == old(self).serve(look_of(notice, event)).progress,
            step.shows(old(self).serve(look_of(notice, event))),
    {
        if self.watches_notices() {
            if let Some(notice) = notice {
                match self.on_notice(notice) {
                    StreamStep::Wait => {},
                    step => return step,
                }
            }
        }
        if *self == Progress::Ended {
            return StreamStep::End;
        }
        match event {
            Some(event) => self.on_event(event),
            None => StreamStep::Wait,
        }
    }
}

/// How far a stream is after these looks.
pub open spec fn progress_after(progress: Progress, looks: Seq<Look>) -> Progress
    decreases looks.len(),
{
    if looks.len() == 0 {
        progress
    } else {
        progress_after(progress, looks.drop_last()).serve(looks.last()).progress
    }
}

/// Everything that a stream gives that has come this far, at these looks.
pub open spec fn stream(progress: Progress, looks: Seq<Look>) -> Seq<
    Result<EventView, StatusView>,
>
    decreases looks.len(),
{
    if looks.len() == 0 {
        Seq::empty()
    } else {
        let earlier = stream(progress, looks.drop_last());
        match progress_after(progress, looks.drop_last()).serve(looks.last()).item {
            Some(item) => earlier.push(item),
            None => earlier,
        }
    }
}

} // verus!
