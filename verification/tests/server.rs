//! Requests against the server, with an agent that does as the test says.

use std::cell::RefCell;
use std::rc::Rc;

use tokio::sync::mpsc;
use tokio::sync::mpsc::error::TryRecvError;
use tokio_util::sync::CancellationToken;

use yaca_agent::agent::AgentState;
use yaca_agent::cancel::turn_cancelled;
use yaca_agent::event::{AgentEvent, EventKind, Memory};
use yaca_agent::fanout::{Fanout, Outcome};
use yaca_agent::request::{
    CancelTurnRequest, CreateAgentRequest, CreateAgentResponse, DestroyAgentRequest,
    DestroyAgentResponse, GetConversationRequest, LoadConversationRequest, SendTurnRequest,
    SendTurnResponse, SubscribeRequest,
};
use yaca_agent::server::{AgentServer, CreateStep, DestroyStep};
use yaca_agent::status::{Code, Status};
use yaca_agent::subscription::{Ends, Progress, StreamStep};
use yaca_agent::turn::{DecodedTurn, RunningTurn, TurnEnd};

type Handle = Rc<RefCell<AgentState>>;
type Server = AgentServer<Handle>;

const VERSION: &str = "yaca/1";

fn new_server() -> Server {
    AgentServer::new(VERSION.to_string())
}

fn create_request(conversation_id: &str) -> CreateAgentRequest {
    CreateAgentRequest {
        conversation_id: conversation_id.to_string(),
        model: String::new(),
        payload_version: VERSION.to_string(),
    }
}

fn create(server: &mut Server, conversation_id: &str) -> CreateAgentResponse {
    match server.create_agent(create_request(conversation_id)).unwrap() {
        CreateStep::Attach(response) => response,
        CreateStep::Build(pending) => {
            let (_, agent, state) = pending.built(Ok(()), &mut server.mint).unwrap();
            server.finish_create(agent, Rc::new(RefCell::new(state)))
        }
    }
}

fn handle(server: &Server, agent_id: &str) -> Handle {
    server
        .subscribe(SubscribeRequest { agent_id: agent_id.to_string() })
        .unwrap()
        .clone()
}

fn decoded_turn(server: &Server, agent_id: &str, turn_id: &str) -> DecodedTurn {
    let (_, found) = server
        .send_turn(SendTurnRequest {
            agent_id: agent_id.to_string(),
            message_json: "\"hi\"",
            turn_id: turn_id.to_string(),
            max_tokens: 1024,
        })
        .unwrap();
    assert_eq!(found.message_json, "\"hi\"");
    let (input, turn) = found.decoded(Ok("hi")).unwrap();
    assert_eq!(input.message, "hi");
    assert_eq!(input.max_tokens, 1024);
    turn
}

fn begin(server: &mut Server, agent_id: &str, turn_id: &str) -> RunningTurn {
    let agent = handle(server, agent_id);
    let turn = decoded_turn(server, agent_id, turn_id);
    let mut state = agent.borrow_mut();
    let (_, running) = turn.begin(&mut state, &mut server.mint, Some(())).unwrap();
    running
}

fn finish(agent: &Handle, turn: RunningTurn, result: Result<(), String>) -> TurnEnd {
    turn.finish(&mut agent.borrow_mut(), result)
}

/// Subscribes, puts the snapshot into the queue and takes it out again.
fn subscribe_and_drain_snapshot(server: &Server, agent_id: &str) -> Ends {
    let agent = handle(server, agent_id);
    let subscription = agent.borrow_mut().subscribe();
    let snapshot = subscription.snapshot(Memory::Encoded("[]".to_string())).unwrap();
    let sent = subscription.sender.try_send(snapshot).is_ok();
    let mut ends = subscription.open(sent).unwrap();
    let first = ends.events.try_recv().unwrap();
    assert!(
        matches!(first.kind, EventKind::SwitchConversation { .. }),
        "first event must be the synthesized snapshot, got {first:?}"
    );
    ends
}

/// Everything that the stream gives until it would wait or has ended.
fn drain(ends: &mut Ends) -> (Vec<Result<AgentEvent, Status>>, bool) {
    let mut progress = Progress::start();
    let mut items = Vec::new();
    loop {
        let notice = if progress.watches_notices() {
            match ends.notices.try_recv() {
                Ok(status) => Some(Some(status)),
                Err(TryRecvError::Disconnected) => Some(None),
                Err(TryRecvError::Empty) => None,
            }
        } else {
            None
        };
        let event = match ends.events.try_recv() {
            Ok(event) => Some(Some(event)),
            Err(TryRecvError::Disconnected) => Some(None),
            Err(TryRecvError::Empty) => None,
        };
        let step = progress.on_ready(notice, event);
        match step {
            StreamStep::Wait => return (items, false),
            StreamStep::Give(event) => items.push(Ok(event)),
            StreamStep::Fail(status) => {
                items.push(Err(status));
                return (items, true);
            }
            StreamStep::End => return (items, true),
        }
    }
}

fn completed(agent_id: &str, turn_id: &str, error: &str) -> AgentEvent {
    AgentEvent {
        agent_id: agent_id.to_string(),
        kind: EventKind::TurnCompleted {
            turn_id: turn_id.to_string(),
            error: error.to_string(),
        },
    }
}

fn update(n: usize) -> AgentEvent {
    AgentEvent {
        agent_id: "a".to_string(),
        kind: EventKind::UpdateMessage {
            index: n,
            update: format!("x{n}"),
            turn_id: "t".to_string(),
        },
    }
}

fn new_message() -> AgentEvent {
    AgentEvent {
        agent_id: "a".to_string(),
        kind: EventKind::NewMessage {
            index: 0,
            message: "hi".to_string(),
            turn_id: "t".to_string(),
        },
    }
}

#[test]
fn payload_version_mismatch_is_rejected() {
    let server = new_server();
    let err = server
        .create_agent(CreateAgentRequest {
            conversation_id: "c".to_string(),
            model: String::new(),
            payload_version: "wrong/version".to_string(),
        })
        .unwrap_err();
    assert_eq!(err.code, Code::FailedPrecondition);
    assert_eq!(
        err.message,
        "payload version mismatch: expected yaca/1, got wrong/version"
    );
}

#[test]
fn create_agent_is_idempotent_per_conversation() {
    let mut server = new_server();

    let a1 = create(&mut server, "shared");
    let a2 = create(&mut server, "shared");
    assert_eq!(a1.agent_id, a2.agent_id, "same conversation must attach to one agent");
    assert_eq!(a2.payload_version, VERSION);

    let a3 = create(&mut server, "other");
    assert_ne!(a1.agent_id, a3.agent_id, "different conversations get distinct agents");
    assert_eq!(create(&mut server, "shared").agent_id, a1.agent_id);
}

#[test]
fn full_turn_emits_snapshot_new_update_completed() {
    let mut server = new_server();
    let id = create(&mut server, "main").agent_id;
    let agent = handle(&server, &id);
    let mut ends = subscribe_and_drain_snapshot(&server, &id);

    let turn = begin(&mut server, &id, "turn-1");
    assert!(!turn.token.is_cancelled());
    agent.borrow_mut().on_new_message(0, Ok("hi".to_string())).unwrap();
    agent.borrow_mut().on_update_message(0, Ok("x".to_string())).unwrap();
    let end = finish(&agent, turn, Ok(()));
    assert_eq!(end.reply, Ok(SendTurnResponse {}));

    let mut new_seen = false;
    let mut update_seen = false;
    loop {
        let event = ends.events.try_recv().unwrap();
        assert_eq!(event.agent_id, id);
        match event.kind {
            EventKind::NewMessage { index, turn_id, .. } => {
                assert_eq!(index, 0, "fresh conversation opens at index 0");
                assert_eq!(turn_id, "turn-1");
                new_seen = true;
            }
            EventKind::UpdateMessage { turn_id, .. } => {
                assert_eq!(turn_id, "turn-1");
                update_seen = true;
            }
            EventKind::TurnCompleted { turn_id, error } => {
                assert_eq!(turn_id, "turn-1");
                assert!(error.is_empty(), "successful turn has empty error: {error}");
                break;
            }
            other => panic!("unexpected event {other:?}"),
        }
    }
    assert!(new_seen, "expected a NewMessage event");
    assert!(update_seen, "expected an UpdateMessage event");
}

#[test]
fn cancel_turn_mid_turn_yields_cancelled() {
    let mut server = new_server();
    let id = create(&mut server, "main").agent_id;
    let agent = handle(&server, &id);
    let mut ends = subscribe_and_drain_snapshot(&server, &id);

    let turn = begin(&mut server, &id, "turn-1");
    let token = turn.token.clone();
    agent.borrow_mut().on_new_message(0, Ok("hi".to_string())).unwrap();
    let found = server.cancel_turn(CancelTurnRequest { agent_id: id.clone() }).unwrap();
    found.borrow_mut().cancel_turn();
    assert!(token.is_cancelled(), "the agent must be told to stop");

    let end = finish(&agent, turn, Ok(()));
    assert!(end.cancelled);
    let err = end.reply.expect_err("cancelled turn must fail the unary");
    assert_eq!(err.code, Code::Cancelled);
    assert!(err.message.contains("cancelled"), "{}", err.message);

    loop {
        match ends.events.try_recv().unwrap().kind {
            EventKind::TurnCompleted { turn_id, error } => {
                assert_eq!(turn_id, "turn-1");
                assert_eq!(error, "cancelled");
                break;
            }
            EventKind::NewMessage { .. } | EventKind::UpdateMessage { .. } => continue,
            other => panic!("unexpected event {other:?}"),
        }
    }
}

#[test]
fn concurrent_send_turn_returns_agent_busy() {
    let mut server = new_server();
    let id = create(&mut server, "main").agent_id;
    let agent = handle(&server, &id);
    let mut ends = subscribe_and_drain_snapshot(&server, &id);

    let first = begin(&mut server, &id, "turn-1");

    let second = decoded_turn(&server, &id, "turn-2")
        .begin(&mut agent.borrow_mut(), &mut server.mint, None::<()>);
    let err = second.expect_err("second concurrent turn must be rejected");
    assert_eq!(err.code, Code::FailedPrecondition);
    assert!(err.message.contains("agent busy"), "{}", err.message);
    assert_eq!(agent.borrow().turn_id.as_deref(), Some("turn-1"));

    agent.borrow_mut().cancel_turn();
    let end = finish(&agent, first, Err("stopped".to_string()));
    assert!(end.cancelled);
    assert_eq!(ends.events.try_recv().unwrap(), completed(&id, "turn-1", "cancelled"));
}

#[test]
fn destroy_agent_mid_turn_aborts_and_closes_stream() {
    let mut server = new_server();
    let id = create(&mut server, "main").agent_id;
    let agent = handle(&server, &id);
    let mut ends = subscribe_and_drain_snapshot(&server, &id);

    let turn = begin(&mut server, &id, "turn-1");
    let token = turn.token.clone();

    match server.destroy_agent(DestroyAgentRequest { agent_id: id.clone() }) {
        DestroyStep::Absent(_) => panic!("the agent is there"),
        DestroyStep::Removed(removed) => {
            let (response, farewell) = server.finish_destroy(&mut removed.borrow_mut());
            assert_eq!(response, DestroyAgentResponse {});
            assert_eq!(farewell.closed.len(), 1);
        }
    }
    assert!(token.is_cancelled(), "the turn in flight must be told to stop");

    let end = finish(&agent, turn, Err("aborted".to_string()));
    assert!(end.reply.is_err(), "destroyed turn must fail its unary");

    let (items, ended) = drain(&mut ends);
    assert!(ended, "the stream must end");
    let mut saw_destroyed = false;
    for item in items {
        match item {
            Ok(AgentEvent { kind: EventKind::AgentDestroyed { reason }, .. }) => {
                assert_eq!(reason, "agent destroyed");
                saw_destroyed = true;
            }
            Ok(_) => {}
            Err(err) => panic!("unexpected stream error after destroy: {err:?}"),
        }
    }
    assert!(saw_destroyed, "subscriber must observe AgentDestroyed");
}

#[test]
fn fanout_drops_updates_and_terminates_on_non_droppable_overflow() {
    let mut fanout = Fanout::default();
    let (sender, _receiver) = mpsc::channel(2);
    let mut terminate = fanout.attach(sender);

    // Fill the subscriber queue with droppable updates.
    for n in 0..2 {
        let report = fanout.broadcast(update(n));
        assert_eq!(report.outcomes, vec![Outcome::Delivered]);
    }
    // A droppable overflow is silently dropped; the subscription survives.
    let report = fanout.broadcast(update(2));
    assert_eq!(report.outcomes, vec![Outcome::Skipped]);
    assert!(
        terminate.try_recv().is_err(),
        "droppable overflow must not terminate the subscription"
    );
    assert_eq!(fanout.subscribers.len(), 1);

    // A non-droppable overflow terminates the subscription with RESOURCE_EXHAUSTED.
    let report = fanout.broadcast(new_message());
    assert_eq!(report.outcomes, vec![Outcome::Overflowed { notified: true }]);
    let status = terminate
        .try_recv()
        .expect("non-droppable overflow must terminate the subscription");
    assert_eq!(status.code, Code::ResourceExhausted);
    assert_eq!(status.message, "subscription queue overflowed on a non-droppable event");
    assert_eq!(fanout.subscribers.len(), 0);
    assert_eq!(report.departed.len(), 1);
}

#[test]
fn subscriber_disconnect_mid_turn_does_not_fail_turn() {
    let mut server = new_server();
    let id = create(&mut server, "main").agent_id;
    let agent = handle(&server, &id);
    {
        let _ends = subscribe_and_drain_snapshot(&server, &id);
    }

    let turn = begin(&mut server, &id, "turn-1");
    agent.borrow_mut().on_new_message(0, Ok("hi".to_string())).unwrap();
    assert!(agent.borrow().fanout.subscribers.is_empty());
    let end = finish(&agent, turn, Ok(()));
    assert_eq!(end.reply, Ok(SendTurnResponse {}));
}

#[test]
fn unknown_agent_is_refused_everywhere() {
    let server = new_server();
    let id = || "nobody".to_string();
    let refusals = vec![
        server
            .send_turn(SendTurnRequest {
                agent_id: id(),
                message_json: "{}",
                turn_id: "t".to_string(),
                max_tokens: 1024,
            })
            .map(|_| ())
            .unwrap_err(),
        server.cancel_turn(CancelTurnRequest { agent_id: id() }).map(|_| ()).unwrap_err(),
        server
            .load_conversation(LoadConversationRequest {
                agent_id: id(),
                conversation_id: "c".to_string(),
            })
            .map(|_| ())
            .unwrap_err(),
        server
            .get_conversation(GetConversationRequest { agent_id: id() })
            .map(|_| ())
            .unwrap_err(),
        server.subscribe(SubscribeRequest { agent_id: id() }).map(|_| ()).unwrap_err(),
    ];
    for refusal in refusals {
        assert_eq!(refusal, Status::not_found("agent not found"));
    }
}

#[test]
fn agent_that_cannot_be_built_is_refused() {
    let mut server = new_server();
    let mut request = create_request("c");
    request.model = "big".to_string();
    match server.create_agent(request).unwrap() {
        CreateStep::Attach(_) => panic!("there is no agent"),
        CreateStep::Build(pending) => {
            assert_eq!(pending.conversation_id, "c");
            assert_eq!(pending.model, "big");
            let err = pending
                .built::<()>(Err("no key".to_string()), &mut server.mint)
                .map(|_| ())
                .unwrap_err();
            assert_eq!(err, Status::internal("no key"));
        }
    }
}

#[test]
fn agent_names_are_random_uuids() {
    let mut server = new_server();
    let id = create(&mut server, "c").agent_id;
    assert_eq!(id.len(), 36);
    for (i, c) in id.chars().enumerate() {
        if i == 8 || i == 13 || i == 18 || i == 23 {
            assert_eq!(c, '-');
        } else {
            assert!(c.is_ascii_digit() || ('a'..='f').contains(&c));
        }
    }
    assert_eq!(id.chars().nth(14), Some('4'));
    assert!(matches!(id.chars().nth(19), Some('8' | '9' | 'a' | 'b')));
}

#[test]
fn message_that_is_not_understood_is_refused() {
    let mut server = new_server();
    let id = create(&mut server, "main").agent_id;
    let (_, found) = server
        .send_turn(SendTurnRequest {
            agent_id: id,
            message_json: "{",
            turn_id: "t".to_string(),
            max_tokens: 1024,
        })
        .unwrap();
    let err = found
        .decoded::<()>(Err("expected value".to_string()))
        .map(|_| ())
        .unwrap_err();
    assert_eq!(err, Status::invalid_argument("expected value"));
}

#[test]
fn failed_turn_tells_client_and_subscribers_the_same() {
    let mut server = new_server();
    let id = create(&mut server, "main").agent_id;
    let agent = handle(&server, &id);
    let mut ends = subscribe_and_drain_snapshot(&server, &id);
    let turn = begin(&mut server, &id, "t");
    let end = finish(&agent, turn, Err("model down".to_string()));
    assert!(!end.cancelled);
    assert_eq!(end.reply, Err(Status::internal("model down")));
    assert_eq!(ends.events.try_recv().unwrap(), completed(&id, "t", "model down"));
}

#[test]
fn cancel_before_a_turn_does_not_concern_it() {
    let mut server = new_server();
    let id = create(&mut server, "main").agent_id;
    let agent = handle(&server, &id);
    agent.borrow_mut().cancel_turn();
    let turn = begin(&mut server, &id, "t");
    let end = finish(&agent, turn, Ok(()));
    assert!(!end.cancelled);
    assert_eq!(end.reply, Ok(SendTurnResponse {}));
}

#[test]
fn cancel_of_a_later_turn_does_not_concern_this_one() {
    let mut server = new_server();
    let id = create(&mut server, "main").agent_id;
    let agent = handle(&server, &id);
    let first = begin(&mut server, &id, "t1");
    let second = begin(&mut server, &id, "t2");
    agent.borrow_mut().cancel_turn();
    assert!(!finish(&agent, first, Ok(())).cancelled);
    assert!(finish(&agent, second, Ok(())).cancelled);
}

#[test]
fn token_that_the_agent_cancels_itself_counts() {
    let mut server = new_server();
    let id = create(&mut server, "main").agent_id;
    let agent = handle(&server, &id);
    let turn = begin(&mut server, &id, "t");
    turn.token.cancel();
    let end = finish(&agent, turn, Ok(()));
    assert!(end.cancelled);
    assert_eq!(end.reply, Err(Status::cancelled("turn cancelled")));
}

#[test]
fn cancelled_overrides_the_result() {
    let mut server = new_server();
    let id = create(&mut server, "main").agent_id;
    let agent = handle(&server, &id);
    let turn = begin(&mut server, &id, "t");
    let end = turn.finish_as(&mut agent.borrow_mut(), true, Err("x".to_string()));
    assert_eq!(end.reply, Err(Status::cancelled("turn cancelled")));
}

#[test]
fn destroying_twice_is_destroying_once() {
    let mut server = new_server();
    let id = create(&mut server, "main").agent_id;
    let spared = create(&mut server, "other").agent_id;
    match server.destroy_agent(DestroyAgentRequest { agent_id: id.clone() }) {
        DestroyStep::Absent(_) => panic!("the agent is there"),
        DestroyStep::Removed(removed) => {
            server.finish_destroy(&mut removed.borrow_mut());
        }
    }
    match server.destroy_agent(DestroyAgentRequest { agent_id: id.clone() }) {
        DestroyStep::Absent(response) => assert_eq!(response, DestroyAgentResponse {}),
        DestroyStep::Removed(_) => panic!("the agent is gone"),
    }
    assert!(server.subscribe(SubscribeRequest { agent_id: id.clone() }).is_err());
    assert_eq!(create(&mut server, "other").agent_id, spared);
    assert_ne!(create(&mut server, "main").agent_id, id);
}

fn load(server: &mut Server, agent_id: &str, conversation_id: &str) -> Result<(), Status> {
    let (agent, pending) = {
        let (agent, pending) = server.load_conversation(LoadConversationRequest {
            agent_id: agent_id.to_string(),
            conversation_id: conversation_id.to_string(),
        })?;
        (agent.clone(), pending)
    };
    let loaded = pending.loaded(&mut agent.borrow_mut(), Ok(()))?;
    server.finish_load(loaded);
    Ok(())
}

fn conversation_of(server: &Server, agent_id: &str) -> String {
    let agent = server
        .get_conversation(GetConversationRequest { agent_id: agent_id.to_string() })
        .unwrap();
    let response = agent.borrow().get_conversation();
    response.conversation_id
}

#[test]
fn load_moves_the_conversation() {
    let mut server = new_server();
    let a = create(&mut server, "first").agent_id;
    assert_eq!(conversation_of(&server, &a), "first");
    load(&mut server, &a, "second").unwrap();
    assert_eq!(conversation_of(&server, &a), "second");
    assert_eq!(create(&mut server, "second").agent_id, a);
    let b = create(&mut server, "first").agent_id;
    assert_ne!(a, b);
}

#[test]
fn load_of_ones_own_conversation_changes_nothing() {
    let mut server = new_server();
    let a = create(&mut server, "c").agent_id;
    load(&mut server, &a, "c").unwrap();
    assert_eq!(conversation_of(&server, &a), "c");
    assert_eq!(create(&mut server, "c").agent_id, a);
}

#[test]
fn conversation_of_another_agent_is_not_to_be_had() {
    let mut server = new_server();
    let a = create(&mut server, "first").agent_id;
    let b = create(&mut server, "second").agent_id;
    let err = load(&mut server, &a, "second").unwrap_err();
    assert_eq!(err, Status::failed_precondition("conversation is owned by another agent"));
    assert_eq!(conversation_of(&server, &a), "first");
    assert_eq!(create(&mut server, "second").agent_id, b);
}

#[test]
fn conversation_that_cannot_be_loaded_changes_nothing() {
    let mut server = new_server();
    let a = create(&mut server, "first").agent_id;
    let agent = handle(&server, &a);
    let (_, pending) = server
        .load_conversation(LoadConversationRequest {
            agent_id: a.clone(),
            conversation_id: "second".to_string(),
        })
        .unwrap();
    let err = pending
        .loaded(&mut agent.borrow_mut(), Err("disk".to_string()))
        .map(|_| ())
        .unwrap_err();
    assert_eq!(err, Status::internal("disk"));
    assert_eq!(conversation_of(&server, &a), "first");
}

#[test]
fn snapshot_tells_where_the_agent_is() {
    let mut server = new_server();
    let a = create(&mut server, "here").agent_id;
    let agent = handle(&server, &a);
    let subscription = agent.borrow_mut().subscribe();
    let event = subscription.snapshot(Memory::Encoded("[1]".to_string())).unwrap();
    assert_eq!(
        event,
        AgentEvent {
            agent_id: a.clone(),
            kind: EventKind::SwitchConversation {
                conversation_id: "here".to_string(),
                messages: Ok("[1]".to_string()),
            },
        }
    );
    let event = subscription.snapshot(Memory::Failed("lost".to_string())).unwrap();
    assert_eq!(
        event.kind,
        EventKind::SwitchConversation {
            conversation_id: "here".to_string(),
            messages: Err("lost".to_string()),
        }
    );
    let err = subscription.snapshot(Memory::Unencodable("cycle".to_string())).unwrap_err();
    assert_eq!(err, Status::internal("cycle"));
    let err = subscription.open(false).map(|_| ()).unwrap_err();
    assert_eq!(err, Status::internal("subscriber closed before snapshot"));
}

#[test]
fn subscription_queue_holds_its_length() {
    let mut server = new_server();
    let a = create(&mut server, "c").agent_id;
    let agent = handle(&server, &a);
    let subscription = agent.borrow_mut().subscribe();
    for _ in 0..1024 {
        assert!(subscription.sender.try_send(new_message()).is_ok());
    }
    assert!(subscription.sender.try_send(new_message()).is_err());
}

#[test]
fn change_of_conversation_is_told() {
    let mut server = new_server();
    let a = create(&mut server, "c").agent_id;
    let agent = handle(&server, &a);
    let mut ends = subscribe_and_drain_snapshot(&server, &a);
    let told = agent
        .borrow_mut()
        .on_switch_conversation("d".to_string(), Memory::Encoded("[]".to_string()))
        .unwrap();
    assert_eq!(told.outcomes, vec![Outcome::Delivered]);
    assert_eq!(
        ends.events.try_recv().unwrap().kind,
        EventKind::SwitchConversation {
            conversation_id: "d".to_string(),
            messages: Ok("[]".to_string()),
        }
    );
    let err = agent
        .borrow_mut()
        .on_switch_conversation("e".to_string(), Memory::Unencodable("bad".to_string()))
        .map(|_| ())
        .unwrap_err();
    assert_eq!(err, "bad");
    assert!(ends.events.try_recv().is_err());
}

#[test]
fn message_outside_a_turn_has_no_turn() {
    let mut server = new_server();
    let a = create(&mut server, "c").agent_id;
    let agent = handle(&server, &a);
    let mut ends = subscribe_and_drain_snapshot(&server, &a);
    agent.borrow_mut().on_new_message(3, Ok("m".to_string())).unwrap();
    assert_eq!(
        ends.events.try_recv().unwrap().kind,
        EventKind::NewMessage {
            index: 3,
            message: "m".to_string(),
            turn_id: String::new(),
        }
    );
    let err = agent
        .borrow_mut()
        .on_new_message(4, Err("bad".to_string()))
        .map(|_| ())
        .unwrap_err();
    assert_eq!(err, "bad");
    let err = agent
        .borrow_mut()
        .on_update_message(4, Err("worse".to_string()))
        .map(|_| ())
        .unwrap_err();
    assert_eq!(err, "worse");
    assert!(ends.events.try_recv().is_err());
}

#[test]
fn turn_needs_the_agent_to_itself() {
    let mut server = new_server();
    let id = create(&mut server, "main").agent_id;
    let agent = handle(&server, &id);
    let lock = tokio::sync::Mutex::new("agent");

    let turn = decoded_turn(&server, &id, "t1");
    let (guard, first) = turn.take_up(&mut agent.borrow_mut(), &mut server.mint, &lock).unwrap();
    assert_eq!(*guard, "agent");
    assert_eq!(first.turn_id, "t1");

    let turn = decoded_turn(&server, &id, "t2");
    let err = turn
        .take_up(&mut agent.borrow_mut(), &mut server.mint, &lock)
        .map(|_| ())
        .unwrap_err();
    assert_eq!(err, Status::failed_precondition("agent busy"));
    assert_eq!(agent.borrow().turn_id.as_deref(), Some("t1"));

    drop(guard);
    let turn = decoded_turn(&server, &id, "t3");
    assert!(turn.take_up(&mut agent.borrow_mut(), &mut server.mint, &lock).is_ok());
    assert_eq!(agent.borrow().turn_id.as_deref(), Some("t3"));
}

#[test]
fn cancel_lasts_until_the_turn_ends() {
    let mut server = new_server();
    let id = create(&mut server, "main").agent_id;
    let agent = handle(&server, &id);
    let turn = begin(&mut server, &id, "t");
    agent.borrow_mut().cancel_turn();
    let mut ends = subscribe_and_drain_snapshot(&server, &id);
    agent.borrow_mut().on_new_message(0, Ok("m".to_string())).unwrap();
    load(&mut server, &id, "elsewhere").unwrap();
    agent.borrow_mut().cancel_turn();
    let end = finish(&agent, turn, Ok(()));
    assert!(end.cancelled);
    let (items, ended) = drain(&mut ends);
    assert!(!ended);
    assert_eq!(items.len(), 2);
    assert_eq!(items[1], Ok(completed(&id, "t", "cancelled")));
}

#[test]
fn agents_and_conversations_match_through_a_day() {
    let mut server = new_server();
    let a = create(&mut server, "x").agent_id;
    let b = create(&mut server, "y").agent_id;
    load(&mut server, &a, "z").unwrap();
    load(&mut server, &b, "x").unwrap();
    assert!(load(&mut server, &a, "x").is_err());
    assert_eq!(create(&mut server, "z").agent_id, a);
    assert_eq!(create(&mut server, "x").agent_id, b);
    let c = create(&mut server, "y").agent_id;
    assert!(c != a && c != b);
    match server.destroy_agent(DestroyAgentRequest { agent_id: a.clone() }) {
        DestroyStep::Absent(_) => panic!("the agent is there"),
        DestroyStep::Removed(removed) => {
            server.finish_destroy(&mut removed.borrow_mut());
        }
    }
    load(&mut server, &b, "z").unwrap();
    assert_eq!(create(&mut server, "z").agent_id, b);
    assert_eq!(create(&mut server, "y").agent_id, c);
}

#[test]
fn last_of_two_agents_on_a_conversation_is_attached() {
    let mut server = new_server();
    let mut pending = Vec::new();
    for _ in 0..2 {
        match server.create_agent(create_request("c")).unwrap() {
            CreateStep::Attach(_) => panic!("there is no agent yet"),
            CreateStep::Build(agent) => pending.push(agent),
        }
    }
    let second = pending.pop().unwrap();
    let first = pending.pop().unwrap();
    for (agent, name) in [(first, "one"), (second, "two")] {
        let (new, state) = agent.named(name.to_string(), &mut server.mint);
        server.finish_create(new, Rc::new(RefCell::new(state)));
    }
    assert_eq!(create(&mut server, "c").agent_id, "two");
    assert_eq!(conversation_of(&server, "one"), "c");
}

#[test]
fn subscriber_that_overflows_sees_the_notice_first() {
    let mut fanout = Fanout::default();
    let (sender, events) = mpsc::channel(1);
    let notices = fanout.attach(sender);
    fanout.broadcast(update(0));
    fanout.broadcast(new_message());
    let mut ends = Ends { events, notices };
    let (items, ended) = drain(&mut ends);
    assert!(ended);
    assert_eq!(items.len(), 1);
    assert_eq!(items[0].as_ref().unwrap_err().code, Code::ResourceExhausted);
}

#[test]
fn turn_is_cancelled_just_when_its_token_says_so() {
    let mut token = CancellationToken::new();
    let latest = token.clone();
    assert!(!turn_cancelled(&mut token, &latest));

    let another = CancellationToken::new();
    another.cancel();
    assert!(!turn_cancelled(&mut token, &another));

    latest.cancel();
    assert!(turn_cancelled(&mut token, &latest));
    assert!(turn_cancelled(&mut token, &CancellationToken::new()));
}

#[test]
fn every_turn_has_a_token_of_its_own() {
    let mut server = new_server();
    let id = create(&mut server, "main").agent_id;
    let agent = handle(&server, &id);
    let mut tokens = vec![agent.borrow().cancel.clone()];
    for turn_id in ["t1", "t2", "t3"] {
        let turn = begin(&mut server, &id, turn_id);
        assert!(!tokens.contains(&turn.token));
        assert!(turn.token == agent.borrow().cancel);
        assert!(!turn.token.is_cancelled());
        tokens.push(turn.token.clone());
        let end = finish(&agent, turn, Ok(()));
        assert!(!end.cancelled);
        assert_eq!(end.reply, Ok(SendTurnResponse {}));
        agent.borrow_mut().cancel_turn();
    }
}

#[test]
fn subscriber_hears_events_in_order() {
    let mut fanout = Fanout::default();
    let (sender, mut events) = mpsc::channel(2);
    let _notices = fanout.attach(sender);
    fanout.broadcast(update(0));
    fanout.broadcast(new_message());
    let report = fanout.broadcast(update(1));
    assert_eq!(report.outcomes, vec![Outcome::Skipped]);
    assert_eq!(events.try_recv().unwrap(), update(0));
    fanout.broadcast(update(2));
    assert_eq!(events.try_recv().unwrap(), new_message());
    assert_eq!(events.try_recv().unwrap(), update(2));
    assert!(events.try_recv().is_err());
    assert_eq!(fanout.subscribers.len(), 1);
}

#[test]
fn cancel_reaches_one_agent() {
    let mut server = new_server();
    let one = create(&mut server, "c1").agent_id;
    let two = create(&mut server, "c2").agent_id;
    let (first, second) = (handle(&server, &one), handle(&server, &two));
    assert!(first.borrow().cancel != second.borrow().cancel);
    let mine = begin(&mut server, &one, "t");
    let theirs = begin(&mut server, &two, "t");
    assert!(mine.token != theirs.token);
    first.borrow_mut().cancel_turn();
    assert!(!finish(&second, theirs, Ok(())).cancelled);
    assert!(finish(&first, mine, Ok(())).cancelled);
}

#[test]
fn new_subscriber_has_queues_of_its_own() {
    let mut server = new_server();
    let id = create(&mut server, "main").agent_id;
    let agent = handle(&server, &id);
    let mut first = subscribe_and_drain_snapshot(&server, &id);
    let mut second = subscribe_and_drain_snapshot(&server, &id);
    assert!(first.events.try_recv().is_err(), "the snapshot is for the new stream alone");
    assert_eq!(agent.borrow().fanout.subscribers.len(), 2);

    agent.borrow_mut().publish(update(0));
    assert_eq!(first.events.try_recv().unwrap(), update(0));
    assert!(first.events.try_recv().is_err());
    assert_eq!(second.events.try_recv().unwrap(), update(0));
    assert!(second.events.try_recv().is_err());
}

#[test]
fn agent_is_on_the_last_loaded_conversation() {
    let mut server = new_server();
    let id = create(&mut server, "c1").agent_id;
    assert_eq!(conversation_of(&server, &id), "c1");
    load(&mut server, &id, "c2").unwrap();
    load(&mut server, &id, "c3").unwrap();
    create(&mut server, "c4");
    load(&mut server, &id, "c4").unwrap_err();
    assert_eq!(conversation_of(&server, &id), "c3");
}

#[test]
fn stream_gives_a_closed_queue() {
    let mut fanout = Fanout::default();
    let (sender, events) = mpsc::channel(8);
    let notices = fanout.attach(sender);
    fanout.broadcast(update(0));
    fanout.broadcast(new_message());
    fanout.broadcast(update(1));
    drop(fanout.close_all());
    let mut ends = Ends { events, notices };
    let (items, ended) = drain(&mut ends);
    assert!(ended);
    assert_eq!(items, vec![Ok(update(0)), Ok(new_message()), Ok(update(1))]);
}
