//! A turn, from the request to its answer.
//!
//! A request goes through three values, each of which is got only from the one
//! before: the agent is known, the message is understood, the turn runs.

use tokio::sync::{Mutex, MutexGuard};
use tokio_util::sync::CancellationToken;
use vstd::prelude::*;

use crate::agent::{published, AgentState, AgentStateView};
use crate::cancel::{
    cancelled_through, token_number, token_view, turn_cancelled, TokenMint, TokenView,
};
use crate::event::{turn_completed_event, AgentEvent};
use crate::fanout::Broadcast;
use crate::lock::try_lock;
use crate::request::SendTurnResponse;
use crate::status::{Code, Status, StatusView};

verus! {

/// A turn for an agent that exists.
#[derive(Debug)]
pub struct FoundTurn<E, L> {
    pub turn_id: String,
    /// The message that is to be understood.
    pub message_json: E,
    pub max_tokens: L,
}

/// What the agent is given for a turn.
#[derive(Debug)]
pub struct TurnInput<M, L> {
    pub message: M,
    pub max_tokens: L,
}

/// A turn whose message is understood.
#[derive(Debug)]
pub struct DecodedTurn {
    pub turn_id: String,
}

/// A turn that the agent is at.
#[derive(Debug)]
pub struct RunningTurn {
    pub turn_id: String,
    /// What tells the agent to stop.
    pub token: CancellationToken,
    /// The handle that the agent had for the turn before.
    pub previous: CancellationToken,
}

/// The refusal of a turn whose agent is at something else.
pub open spec fn busy_status() -> StatusView {
    StatusView { code: Code::FailedPrecondition, message: "agent busy"@ }
}

/// The result of a run with its error as characters.
pub open spec fn result_view(result: Result<(), String>) -> Result<(), Seq<char>> {
    match result {
        Ok(()) => Ok(()),
        Err(error) => Err(error@),
    }
}

/// The error that subscribers are told when a turn is over. A turn that was
/// cancelled says so, however it ended otherwise; one that went well has the
/// empty error.
pub open spec fn turn_error(cancelled: bool, result: Result<(), Seq<char>>) -> Seq<char> {
    if cancelled {
        "cancelled"@
    } else {
        match result {
            Ok(()) => Seq::empty(),
            Err(error) => error,
        }
    }
}

/// The refusal with which the request of a turn ends, if it ends with one.
pub open spec fn turn_refusal(cancelled: bool, result: Result<(), Seq<char>>) -> Option<
    StatusView,
> {
    if cancelled {
        Some(StatusView { code: Code::Cancelled, message: "turn cancelled"@ })
    } else {
        match result {
            Ok(()) => None,
            Err(error) => Some(StatusView { code: Code::Internal, message: error }),
        }
    }
}

/// The state of an agent that takes up the turn `turn_id` under the token of
/// that number.
pub open spec fn turn_begun(
    before: AgentStateView,
    turn_id: Seq<char>,
    number: int,
) -> AgentStateView {
    AgentStateView {
        turn_id: Some(turn_id),
        cancel: TokenView::unused(number),
        ..before
    }
}

/// How a turn ends.
#[derive(Debug)]
pub struct Completion {
    /// What subscribers are told.
    pub error: String,
    /// What the client is told.
    pub reply: Result<SendTurnResponse, Status>,
}

/// A turn that is over.
#[derive(Debug)]
pub struct TurnEnd {
    /// The handle that it ran under.
    pub token: CancellationToken,
    /// The handle that the agent had for the turn before.
    pub previous: CancellationToken,
    /// Whether it was cancelled.
    pub cancelled: bool,
    /// What the client is told.
    pub reply: Result<SendTurnResponse, Status>,
    /// What became of the event that the turn is over.
    pub report: Broadcast,
}

/// The reply is `Ok`, or it is this refusal.
pub open spec fn replies(
    reply: Result<SendTurnResponse, Status>,
    refusal: Option<StatusView>,
) -> bool {
    match refusal {
        None => reply is Ok,
        Some(status) => reply is Err && reply->Err_0@ == status,
    }
}

/// How a turn ends that was cancelled or not, and in which the agent succeeded
/// or failed.
pub fn complete(cancelled: bool, result: Result<(), String>) -> (completion: Completion)
    ensures
        completion.error@ == turn_error(cancelled, result_view(result)),
        replies(completion.reply, turn_refusal(cancelled, result_view(result))),
{
    if cancelled {
        Completion {
            error: "cancelled".to_owned(),
            reply: Err(Status::cancelled("turn cancelled")),
        }
    } else {
        match result {
            Ok(()) => Completion { error: String::new(), reply: Ok(SendTurnResponse {  }) },
            Err(error) => {
                let status = Status::internal(error.as_str());
                Completion { error, reply: Err(status) }
            },
        }
    }
}

impl<E, L> FoundTurn<E, L> {
    /// Goes on with a message that is understood; the text of an error says
    /// why it is not.
    pub fn decoded<M>(self, message: Result<M, String>) -> (turn: Result<
        (TurnInput<M, L>, DecodedTurn),
        Status,
    >)
        ensures
            match message {
                Ok(message) => {
                    &&& turn is Ok
                    &&& turn->Ok_0.0 == (TurnInput { message, max_tokens: self.max_tokens })
                    &&& turn->Ok_0.1.turn_id == self.turn_id
                },
                Err(error) => turn is Err && turn->Err_0@ == (StatusView {
                    code: Code::InvalidArgument,
                    message: error@,
                }),
            },
    {
        match message {
            Ok(message) => Ok(
                (
                    TurnInput { message, max_tokens: self.max_tokens },
                    DecodedTurn { turn_id: self.turn_id },
                ),
            ),
            Err(error) => Err(Status::invalid_argument(error.as_str())),
        }
    }
}

/// The turn `turn_id` runs, under a token of its own: it is above the agent's
/// latest one and above all that the mint had made, the newest of which had the
/// number `minted`. The mint's newest is now `number`, that of this turn.
pub open spec fn taken_up(
    turn_id: String,
    before: AgentStateView,
    minted: int,
    running: RunningTurn,
    after: AgentStateView,
    number: int,
) -> bool {
    &&& running.turn_id == turn_id
    &&& token_view(running.token) == TokenView::unused(number)
    &&& token_view(running.previous) == before.cancel
    &&& after == turn_begun(before, turn_id@, number)
    &&& number > before.cancel.number
    &&& number > minted
}

impl DecodedTurn {
    /// Takes the agent's lock and begins the turn under it, unless the agent
    /// is at something else. The lock is tried once, and its answer decides.
    pub fn take_up<'a, T>(
        self,
        state: &mut AgentState,
        mint: &mut TokenMint,
        agent: &'a Mutex<T>,
    ) -> (turn: Result<(MutexGuard<'a, T>, RunningTurn), Status>)
        ensures
            final(state).attempts@ == old(state).attempts@.push(turn is Ok),
            final(mint).names == old(mint).names,
            match turn {
                Ok((_, running)) => taken_up(
                    self.turn_id,
                    old(state)@.tried(true),
                    old(mint).number(),
                    running,
                    final(state)@,
                    final(mint).number(),
                ),
                Err(status) => {
                    &&& status@ == busy_status()
                    &&& *final(state) == (AgentState {
                        attempts: final(state).attempts,
                        ..*old(state)
                    })
                    &&& *final(mint) == *old(mint)
                },
            },
    {
        let guard = try_lock(agent, &mut state.attempts);
        self.begin(state, mint, guard)
    }

    /// Begins the turn if the caller has the agent to itself, which `guard`
    /// stands for. The agent is to run under the token of the result, which is
    /// made for this turn.
    pub fn begin<G>(
        self,
        state: &mut AgentState,
        mint: &mut TokenMint,
        guard: Option<G>,
    ) -> (turn: Result<(G, RunningTurn), Status>)
        ensures
            final(state).attempts == old(state).attempts,
            final(mint).names == old(mint).names,
            match guard {
                Some(guard) => {
                    &&& turn is Ok
                    &&& turn->Ok_0.0 == guard
                    &&& taken_up(
                        self.turn_id,
                        old(state)@,
                        old(mint).number(),
                        turn->Ok_0.1,
                        final(state)@,
                        final(mint).number(),
                    )
                },
                None => {
                    &&& turn is Err
                    &&& turn->Err_0@ == busy_status()
                    &&& *final(state) == *old(state)
                    &&& *final(mint) == *old(mint)
                },
            },
    {
        match guard {
            Some(guard) => {
                state.turn_id = Some(self.turn_id.clone());
                let (token, mut previous) = mint.make(Some(&state.cancel));
                core::mem::swap(&mut state.cancel, &mut previous);
                Ok((guard, RunningTurn { turn_id: self.turn_id, token, previous }))
            },
            None => Err(Status::failed_precondition("agent busy")),
        }
    }
}

impl RunningTurn {
    /// Ends the turn: the subscribers are told that it is over. Whether it was
    /// cancelled is asked now, after the agent is done, and goes by the answer.
    pub fn finish(self, state: &mut AgentState, result: Result<(), String>) -> (end: TurnEnd)
        ensures
            token_view(end.token) == token_view(self.token).asked(end.cancelled),
            end.previous == self.previous,
            cancelled_through(self.token) ==> end.cancelled,
            old(state)@.cancel.cancelled && old(state)@.cancel.number == token_number(self.token)
                ==> end.cancelled,
            replies(end.reply, turn_refusal(end.cancelled, result_view(result))),
            published(
                old(state)@,
                turn_completed_event(
                    old(state)@.agent_id,
                    self.turn_id@,
                    turn_error(end.cancelled, result_view(result)),
                ),
                final(state)@,
                end.report,
            ),
    {
        let mut token = self.token;
        let cancelled = turn_cancelled(&mut token, &state.cancel);
        let turn = RunningTurn { turn_id: self.turn_id, token, previous: self.previous };
        turn.finish_as(state, cancelled, result)
    }

    /// Ends a turn of which it is known whether it was cancelled.
    pub fn finish_as(
        self,
        state: &mut AgentState,
        cancelled: bool,
        result: Result<(), String>,
    ) -> (end: TurnEnd)
        ensures
            end.cancelled == cancelled,
            end.token == self.token,
            end.previous == self.previous,
            replies(end.reply, turn_refusal(cancelled, result_view(result))),
            published(
                old(state)@,
                turn_completed_event(
                    old(state)@.agent_id,
                    self.turn_id@,
                    turn_error(cancelled, result_view(result)),
                ),
                final(state)@,
                end.report,
            ),
    {
        let completion = complete(cancelled, result);
        let event = AgentEvent::turn_completed(
            state.agent_id.clone(),
            self.turn_id,
            completion.error,
        );
        let report = state.publish(event);
        TurnEnd {
            token: self.token,
            previous: self.previous,
            cancelled,
            reply: completion.reply,
            report,
        }
    }
}

} // verus!
