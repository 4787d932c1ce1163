//! A client-side session manager for a hosted chat-completion service: a
//! registry of chat sessions with a current-session marker, per-session
//! newest-first histories with the outbound filtering rule, construction of
//! each request body, judgement of each reply, and the parts the durable
//! store holds. The transport itself and the store's file live outside this
//! crate; everything here is specified and verified.

pub mod chat;
pub mod json;
pub mod laws;
pub mod managers;
pub mod model;

use vstd::prelude::*;

verus! {

/// Origin of the remote completion service; every request URL starts here.
pub const BASE_API_URL: &'static str = "https://api.aimlapi.com";

/// Every failure this library reports to a caller.
#[derive(Debug, PartialEq, Eq, Structural, Clone, Copy)]
pub enum ClientError {
    /// A referenced session identifier is absent from the registry.
    NotFound,
    /// No API key was configured before a completion was attempted.
    MissingCredential,
    /// The transport reported a connection failure.
    Transport,
    /// The completion endpoint answered with a status other than 201.
    UnexpectedStatus(u16),
    /// The completion reply held no string at `choices[0].message.content`.
    MalformedResponse,
    /// The model-catalog reply was not a JSON object of string entries.
    Parse,
}

} // verus!
