//! The cancellation of a turn that is under way.
//!
//! A turn runs under a token of tokio-util, which is made for it. The agent has
//! one handle for the token, the turn another; to cancel through one of them
//! cancels the turn.
//! Handles are opaque here, and three names say what matters of them: which
//! token a handle is for, whether it was used to cancel, and what it answered
//! when it was asked.

use tokio_util::sync::CancellationToken;
use vstd::prelude::*;

use crate::ids::DrawLog;

verus! {

/// A handle of tokio-util for a token.
#[verifier::external_type_specification]
#[verifier::external_body]
pub struct ExCancellationToken(tokio_util::sync::CancellationToken);

/// The number of the token that this handle is for. Tokens are numbered in the
/// order in which they are made.
pub uninterp spec fn token_number(token: CancellationToken) -> int;

/// The token was cancelled through this handle.
pub uninterp spec fn cancelled_through(token: CancellationToken) -> bool;

/// What this handle has answered to [`ask`], oldest first: whether the token
/// was cancelled by then.
pub uninterp spec fn answers(token: CancellationToken) -> Seq<bool>;

/// A handle by what the names say of it. That it was used to cancel is not all:
/// the token may have been cancelled through another handle.
#[verifier::ext_equal]
pub struct TokenView {
    pub number: int,
    pub cancelled: bool,
    pub answers: Seq<bool>,
}

impl TokenView {
    /// A handle for the token of that number, which nobody has used yet.
    pub open spec fn unused(number: int) -> TokenView {
        TokenView { number, cancelled: false, answers: Seq::empty() }
    }

    /// The same handle, used to cancel.
    pub open spec fn used_to_cancel(self) -> TokenView {
        TokenView { cancelled: true, ..self }
    }

    /// The same handle, asked once more.
    pub open spec fn asked(self, answer: bool) -> TokenView {
        TokenView { answers: self.answers.push(answer), ..self }
    }
}

/// The view of a handle.
pub open spec fn token_view(token: CancellationToken) -> TokenView {
    TokenView {
        number: token_number(token),
        cancelled: cancelled_through(token),
        answers: answers(token),
    }
}

/// The number of the newest token that was made with this log.
pub struct TokenLog {
    newest: Ghost<int>,
}

impl View for TokenLog {
    type V = int;

    closed spec fn view(&self) -> int {
        self.newest@
    }
}

impl TokenLog {
    /// No token was made yet. Tokens are numbered from one.
    pub(crate) fn new() -> (log: TokenLog)
        ensures
            log@ == 0,
    {
        TokenLog { newest: Ghost(0) }
    }
}

/// Makes a token, with `CancellationToken::new`, and a second handle for it, with
/// the `clone` of `CancellationToken`: it is cancelled whenever the token is, and
/// the other way round. The token is none of those that there were, and so its
/// number is above that in the log and that of `also`; the log has its number
/// now. Nobody has used the two handles yet.
#[allow(unused_variables)]
#[verifier::external_body]
pub(crate) fn new_token(log: &mut TokenLog, also: Option<&CancellationToken>) -> (handles: (
    CancellationToken,
    CancellationToken,
))
    ensures
        token_number(handles.0) == final(log)@,
        token_number(handles.1) == final(log)@,
        final(log)@ > old(log)@,
        also matches Some(also) ==> token_number(handles.0) > token_number(*also),
        !cancelled_through(handles.0),
        !cancelled_through(handles.1),
        answers(handles.0) == Seq::<bool>::empty(),
        answers(handles.1) == Seq::<bool>::empty(),
{
    let token = CancellationToken::new();
    (token.clone(), token)
}

/// Makes the tokens of all agents, and knows the number of the newest and the
/// names that were drawn for agents.
pub struct TokenMint {
    pub tokens: TokenLog,
    pub names: DrawLog,
}

impl TokenMint {
    /// The number of the newest token.
    pub open spec fn number(&self) -> int {
        self.tokens@
    }

    /// A mint that has made no token, and for which no name was drawn.
    pub fn new() -> (mint: TokenMint)
        ensures
            mint.number() == 0,
            mint.names@ == Seq::<Seq<char>>::empty(),
    {
        TokenMint { tokens: TokenLog::new(), names: DrawLog::new() }
    }

    /// Makes a token, and gives two handles for it. It is above every token that
    /// the mint has made, and above `than`, wherever that comes from.
    pub fn make(&mut self, than: Option<&CancellationToken>) -> (handles: (
        CancellationToken,
        CancellationToken,
    ))
        ensures
            token_view(handles.0) == TokenView::unused(final(self).number()),
            token_view(handles.1) == TokenView::unused(final(self).number()),
            final(self).number() > old(self).number(),
            than matches Some(than) ==> final(self).number() > token_number(*than),
            final(self).names == old(self).names,
    {
        new_token(&mut self.tokens, than)
    }
}

/// Cancels the token for all who have a handle for it, with
/// `CancellationToken::cancel`.
#[verifier::external_body]
pub(crate) fn cancel(token: &mut CancellationToken)
    ensures
        token_number(*final(token)) == token_number(*old(token)),
        cancelled_through(*final(token)),
        answers(*final(token)) == answers(*old(token)),
{
    token.cancel();
}

/// Asks whether the token is cancelled, with `CancellationToken::is_cancelled`,
/// which is true from the moment when the token is cancelled, through whatever
/// handle: through this one, or through `by`, if that is for the same token.
/// The answer is behind those given before. Where the token was cancelled
/// through neither, nothing is claimed of the answer: it depends on whether
/// someone has cancelled through another handle by now.
#[allow(unused_variables)]
#[verifier::external_body]
pub(crate) fn ask(token: &mut CancellationToken, by: &CancellationToken) -> (cancelled: bool)
    ensures
        token_number(*final(token)) == token_number(*old(token)),
        cancelled_through(*final(token)) == cancelled_through(*old(token)),
        answers(*final(token)) == answers(*old(token)).push(cancelled),
        cancelled_through(*old(token)) ==> cancelled,
        cancelled_through(*by) && token_number(*by) == token_number(*old(token)) ==> cancelled,
{
    token.is_cancelled()
}

/// Whether the turn that runs under `token` is cancelled, which is what the
/// token answers; `latest` is the handle that the agent has for its latest turn.
/// Through either the turn may have been cancelled; otherwise the answer depends
/// on those who have another handle.
pub fn turn_cancelled(token: &mut CancellationToken, latest: &CancellationToken) -> (cancelled:
    bool)
    ensures
        token_view(*final(token)) == token_view(*old(token)).asked(cancelled),
        cancelled_through(*old(token)) ==> cancelled,
        cancelled_through(*latest) && token_number(*latest) == token_number(*old(token))
            ==> cancelled,
{
    ask(token, latest)
}

} // verus!
