//! The enrollment server's decisions: where it listens, how it answers a
//! registration, and what each failure looks like on the wire.

use vstd::prelude::*;
use vstd::string::StringExecFns;

use crate::config::{AgentId, CollectorProfile};
use crate::text::{decimal, decimal_text};

verus! {

/// A failed request.
#[derive(Debug, PartialEq, Eq)]
pub enum ServerError {
    /// The enrollment token was refused.
    Unauthorized,
    /// Something went wrong on the server; the text says what.
    Internal(String),
}

/// The HTTP status of a failure.
pub open spec fn error_status(e: ServerError) -> u16 {
    match e {
        ServerError::Unauthorized => 401,
        ServerError::Internal(_) => 500,
    }
}

/// The body sent with a failure.
pub open spec fn error_body(e: ServerError) -> Seq<char> {
    match e {
        ServerError::Unauthorized => "authentication failed\n"@,
        ServerError::Internal(_) => "internal server error\n"@,
    }
}

impl ServerError {
    /// The HTTP status and body that answer this failure; internal details
    /// are not sent.
    pub fn response_parts(&self) -> (r: (u16, &'static str))
        ensures
            r.0 == error_status(*self),
            r.1@ == error_body(*self),
    {
        match self {
            ServerError::Unauthorized => (401, "authentication failed\n"),
            ServerError::Internal(_) => (500, "internal server error\n"),
        }
    }
}

/// Where the server listens.
#[derive(Debug)]
pub struct Server {
    pub addr: &'static str,
    pub port: u32,
}

impl Server {
    /// The socket address `addr:port`.
    pub fn address(&self) -> (r: String)
        ensures
            r@ == self.addr@ + ":"@ + decimal(self.port as nat),
    {
        let mut r = String::from_str(self.addr);
        r.append(":");
        let port = decimal_text(self.port);
        r.append(port.as_str());
        r
    }
}

/// A registration request from an agent.
#[derive(Debug, Clone, PartialEq, Eq)]
pub struct Register {
    pub token: String,
    pub agent_id: AgentId,
    pub public_key: String,
}

/// The answer to a registration: refused when the token was not admitted;
/// an internal error when the token's collector profile could not be read;
/// otherwise the profile.
pub fn register_response(token_admitted: bool, collector_profile: Option<CollectorProfile>) -> (r:
    Result<CollectorProfile, ServerError>)
    ensures
        !token_admitted ==> r == Err::<CollectorProfile, ServerError>(ServerError::Unauthorized),
        token_admitted && collector_profile is None ==> (r matches Err(ServerError::Internal(m))
            && m@ == "Failed to register agent"@),
        token_admitted && collector_profile is Some ==> r == Ok::<CollectorProfile, ServerError>(
            collector_profile->0,
        ),
{
    if !token_admitted {
        return Err(ServerError::Unauthorized);
    }
    match collector_profile {
        Some(p) => Ok(p),
        None => Err(ServerError::Internal(String::from_str("Failed to register agent"))),
    }
}

/// Pushing a configuration to an enrolled collector is not implemented:
/// every call answers with an internal error saying so.
pub fn send_collector_config() -> (r: Result<(), ServerError>)
    ensures
        r matches Err(ServerError::Internal(m)) && m@ == "not yet implemented"@,
{
    Err(ServerError::Internal(String::from_str("not yet implemented")))
}

} // verus!
