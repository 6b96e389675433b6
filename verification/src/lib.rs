//! The request handling of an agent server, without its transport: which
//! agent a request reaches, who owns a conversation, how a turn ends and what
//! every subscriber is sent.
//!
//! Waiting is left to the caller. A request that has to wait in the middle is
//! split into steps: each step returns either the reply or the value that the
//! next step is called on.

pub mod agent;
pub mod cancel;
pub mod channel;
pub mod event;
pub mod fanout;
pub mod ids;
pub mod laws;
pub mod lock;
pub mod meaning;
pub mod registry;
pub mod request;
pub mod series;
pub mod server;
pub mod status;
pub mod subscription;
pub mod turn;
