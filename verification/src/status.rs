//! The status with which a request is refused or a stream is broken off.

use vstd::prelude::*;

verus! {

/// The kinds of refusal that the server gives.
#[derive(Clone, Copy, Debug, PartialEq, Eq, Structural)]
pub enum Code {
    Cancelled,
    InvalidArgument,
    NotFound,
    ResourceExhausted,
    FailedPrecondition,
    Internal,
}

/// A refusal: its kind, and a message for the person who reads it.
#[derive(Debug, PartialEq, Eq)]
pub struct Status {
    pub code: Code,
    pub message: String,
}

/// A [`Status`] with its message as characters.
pub struct StatusView {
    pub code: Code,
    pub message: Seq<char>,
}

impl View for Status {
    type V = StatusView;

    open spec fn view(&self) -> StatusView {
        StatusView { code: self.code, message: self.message@ }
    }
}

impl Status {
    /// A status of kind `code` that says `message`.
    pub fn new(code: Code, message: &str) -> (status: Status)
        ensures
            status@ == (StatusView { code, message: message@ }),
    {
        Status { code, message: message.to_owned() }
    }

    /// The turn was cancelled.
    pub fn cancelled(message: &str) -> (status: Status)
        ensures
            status@ == (StatusView { code: Code::Cancelled, message: message@ }),
    {
        Status::new(Code::Cancelled, message)
    }

    /// The request itself cannot be understood.
    pub fn invalid_argument(message: &str) -> (status: Status)
        ensures
            status@ == (StatusView { code: Code::InvalidArgument, message: message@ }),
    {
        Status::new(Code::InvalidArgument, message)
    }

    /// The request names something that does not exist.
    pub fn not_found(message: &str) -> (status: Status)
        ensures
            status@ == (StatusView { code: Code::NotFound, message: message@ }),
    {
        Status::new(Code::NotFound, message)
    }

    /// A queue is full.
    pub fn resource_exhausted(message: &str) -> (status: Status)
        ensures
            status@ == (StatusView { code: Code::ResourceExhausted, message: message@ }),
    {
        Status::new(Code::ResourceExhausted, message)
    }

    /// The request cannot be served in the present state.
    pub fn failed_precondition(message: &str) -> (status: Status)
        ensures
            status@ == (StatusView { code: Code::FailedPrecondition, message: message@ }),
    {
        Status::new(Code::FailedPrecondition, message)
    }

    /// Something behind the server failed.
    pub fn internal(message: &str) -> (status: Status)
        ensures
            status@ == (StatusView { code: Code::Internal, message: message@ }),
    {
        Status::new(Code::Internal, message)
    }
}

} // verus!
