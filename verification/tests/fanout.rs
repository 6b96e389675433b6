//! Subscribers, and the streams that they read.

use tokio::sync::mpsc;

use yaca_agent::channel::Delivery;
use yaca_agent::event::{AgentEvent, EventKind};
use yaca_agent::fanout::{Fanout, Outcome, Subscriber};
use yaca_agent::server::chosen_model;
use yaca_agent::status::{Code, Status};
use yaca_agent::subscription::{Progress, StreamStep};
use yaca_agent::turn::complete;

fn update() -> AgentEvent {
    AgentEvent {
        agent_id: "a".to_string(),
        kind: EventKind::UpdateMessage {
            index: 0,
            update: "x".to_string(),
            turn_id: "t".to_string(),
        },
    }
}

fn gone() -> AgentEvent {
    AgentEvent::agent_destroyed("a".to_string(), "agent destroyed")
}

fn overflow() -> Status {
    Status::resource_exhausted("subscription queue overflowed on a non-droppable event")
}

#[test]
fn only_updates_are_droppable() {
    assert!(update().droppable());
    assert!(!gone().droppable());
    assert!(!AgentEvent::turn_completed("a".to_string(), "t".to_string(), String::new())
        .droppable());
}

#[test]
fn each_subscriber_has_its_own_outcome() {
    let mut fanout = Fanout::default();
    let mut ends = Vec::new();
    for capacity in [1, 8, 8, 1, 8] {
        let (sender, receiver) = mpsc::channel(capacity);
        let notices = fanout.attach(sender);
        ends.push((receiver, notices));
    }
    // The first and the fourth are full, the second is gone.
    fanout.broadcast(update());
    let (receiver, _notices) = ends.remove(1);
    drop(receiver);

    let report = fanout.broadcast(gone());
    assert_eq!(
        report.outcomes,
        vec![
            Outcome::Overflowed { notified: true },
            Outcome::Gone,
            Outcome::Delivered,
            Outcome::Overflowed { notified: true },
            Outcome::Delivered,
        ]
    );
    assert_eq!(report.departed.len(), 3);
    assert_eq!(fanout.subscribers.len(), 2);

    // What is left of the ends: first, third, fourth, fifth.
    assert_eq!(ends[0].1.try_recv().unwrap(), overflow());
    assert!(ends[1].1.try_recv().is_err());
    assert_eq!(ends[2].1.try_recv().unwrap(), overflow());
    assert!(ends[3].1.try_recv().is_err());
    for i in [1, 3] {
        assert_eq!(ends[i].0.try_recv().unwrap(), update());
        assert_eq!(ends[i].0.try_recv().unwrap(), gone());
        assert!(ends[i].0.try_recv().is_err());
    }
}

#[test]
fn overflow_without_anyone_to_notify() {
    let mut fanout = Fanout::default();
    let (sender, _receiver) = mpsc::channel(1);
    drop(fanout.attach(sender));
    fanout.broadcast(update());
    let report = fanout.broadcast(gone());
    assert_eq!(report.outcomes, vec![Outcome::Overflowed { notified: false }]);
    assert!(fanout.subscribers.is_empty());
}

#[test]
fn those_who_leave_are_taken_out_from_the_back() {
    let mut fanout = Fanout::default();
    let mut receivers = Vec::new();
    let mut senders = Vec::new();
    for _ in 0..4 {
        let (sender, receiver) = mpsc::channel(4);
        senders.push(sender.clone());
        let notices = fanout.attach(sender);
        receivers.push((receiver, notices));
    }
    let outcomes = vec![Outcome::Gone, Outcome::Delivered, Outcome::Gone, Outcome::Skipped];
    let out = fanout.prune(&outcomes);
    // Taking out the third puts the fourth in its place; taking out the first
    // puts that one at the front.
    assert_eq!(out.len(), 2);
    assert!(out[0].sender.same_channel(&senders[2]));
    assert!(out[1].sender.same_channel(&senders[0]));
    assert_eq!(fanout.subscribers.len(), 2);
    assert!(fanout.subscribers[0].sender.same_channel(&senders[3]));
    assert!(fanout.subscribers[1].sender.same_channel(&senders[1]));
}

#[test]
fn settling_draws_the_consequence() {
    let (sender, _receiver) = mpsc::channel(1);
    let (terminate, mut notices) = mpsc::unbounded_channel();
    let mut subscriber = Subscriber { sender, terminate };
    assert_eq!(subscriber.settle(Delivery::Sent, false), Outcome::Delivered);
    assert_eq!(subscriber.settle(Delivery::Full, true), Outcome::Skipped);
    assert_eq!(subscriber.settle(Delivery::Closed, true), Outcome::Gone);
    assert!(notices.try_recv().is_err());
    assert_eq!(
        subscriber.settle(Delivery::Full, false),
        Outcome::Overflowed { notified: true }
    );
    assert_eq!(notices.try_recv().unwrap(), overflow());
}

#[test]
fn closing_leaves_what_is_in_the_queues() {
    let mut fanout = Fanout::default();
    let (sender, mut receiver) = mpsc::channel(4);
    let mut notices = fanout.attach(sender);
    fanout.broadcast(gone());
    let closed = fanout.close_all();
    assert_eq!(closed.len(), 1);
    drop(closed);
    assert_eq!(receiver.try_recv().unwrap(), gone());
    assert_eq!(receiver.try_recv(), Err(mpsc::error::TryRecvError::Disconnected));
    assert!(matches!(
        notices.try_recv(),
        Err(mpsc::error::TryRecvError::Disconnected)
    ));
}

#[test]
fn who_stays_misses_only_updates() {
    let mut fanout = Fanout::default();
    let (sender, mut receiver) = mpsc::channel(2);
    let _notices = fanout.attach(sender);
    let done = AgentEvent::turn_completed("a".to_string(), "t".to_string(), String::new());
    fanout.broadcast(done.clone());
    fanout.broadcast(update());
    assert_eq!(fanout.broadcast(update()).outcomes, vec![Outcome::Skipped]);
    assert_eq!(receiver.try_recv().unwrap(), done);
    fanout.broadcast(gone());
    assert_eq!(receiver.try_recv().unwrap(), update());
    assert_eq!(receiver.try_recv().unwrap(), gone());
    assert!(receiver.try_recv().is_err());
}

#[test]
fn notice_ends_the_stream() {
    let mut progress = Progress::start();
    assert!(progress.watches_notices());
    match progress.on_event(Some(update())) {
        StreamStep::Give(event) => assert_eq!(event, update()),
        other => panic!("unexpected step {other:?}"),
    }
    match progress.on_notice(Some(overflow())) {
        StreamStep::Fail(status) => assert_eq!(status, overflow()),
        other => panic!("unexpected step {other:?}"),
    }
    assert_eq!(progress, Progress::Ended);
    assert!(!progress.watches_notices());
}

#[test]
fn ready_notice_goes_before_a_ready_event() {
    let mut progress = Progress::start();
    match progress.on_ready(Some(Some(overflow())), Some(Some(update()))) {
        StreamStep::Fail(status) => assert_eq!(status, overflow()),
        other => panic!("unexpected step {other:?}"),
    }
    assert_eq!(progress, Progress::Ended);
    assert!(matches!(progress.on_ready(None, Some(Some(update()))), StreamStep::End));
}

#[test]
fn ready_event_is_served_where_no_notice_is() {
    let mut progress = Progress::start();
    assert!(matches!(progress.on_ready(None, None), StreamStep::Wait));
    assert!(matches!(progress.on_ready(None, Some(Some(update()))), StreamStep::Give(_)));
    assert_eq!(progress, Progress::Watching);
    assert!(matches!(progress.on_ready(Some(None), Some(Some(gone()))), StreamStep::Give(_)));
    assert_eq!(progress, Progress::Draining);
    assert!(matches!(progress.on_ready(None, None), StreamStep::Wait));
    assert!(matches!(progress.on_ready(Some(Some(overflow())), Some(None)), StreamStep::End));
    assert_eq!(progress, Progress::Ended);
}

#[test]
fn stream_without_notice_drains_and_ends() {
    let mut progress = Progress::start();
    assert!(matches!(progress.on_notice(None), StreamStep::Wait));
    assert_eq!(progress, Progress::Draining);
    assert!(!progress.watches_notices());
    assert!(matches!(progress.on_event(Some(gone())), StreamStep::Give(_)));
    assert!(matches!(progress.on_event(None), StreamStep::End));
    assert_eq!(progress, Progress::Ended);
}

#[test]
fn turn_ends_in_one_of_three_ways() {
    let done = complete(false, Ok(()));
    assert_eq!(done.error, "");
    assert!(done.reply.is_ok());
    let failed = complete(false, Err("e".to_string()));
    assert_eq!(failed.error, "e");
    assert_eq!(failed.reply.unwrap_err().code, Code::Internal);
    let cancelled = complete(true, Ok(()));
    assert_eq!(cancelled.error, "cancelled");
    assert_eq!(cancelled.reply.unwrap_err(), Status::cancelled("turn cancelled"));
}

#[test]
fn model_of_the_request_comes_before_the_configured_one() {
    assert_eq!(chosen_model("small".to_string(), String::new()), "small");
    assert_eq!(chosen_model("small".to_string(), "big".to_string()), "big");
}
