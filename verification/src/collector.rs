//! The collector agent's side: what it asks the server when enrolling, what
//! it keeps afterwards, and where each kind of network event is published.

use vstd::prelude::*;
use vstd::string::StringExecFns;

use crate::config::CollectorProfile;

verus! {

/// The kinds of network events the collector forwards.
#[derive(Debug, Clone, Copy, PartialEq, Eq)]
pub enum EventKind {
    Connect,
    Accept,
    Close,
    Bind,
    Listen,
}

/// The topic an event kind is published to.
pub open spec fn kind_topic(k: EventKind) -> Seq<char> {
    match k {
        EventKind::Connect => "connect"@,
        EventKind::Accept => "accept"@,
        EventKind::Close => "close"@,
        EventKind::Bind => "bind"@,
        EventKind::Listen => "listen"@,
    }
}

impl EventKind {
    /// The topic this kind of event is published to.
    pub fn topic(&self) -> (r: &'static str)
        ensures
            r@ == kind_topic(*self),
    {
        match self {
            EventKind::Connect => "connect",
            EventKind::Accept => "accept",
            EventKind::Close => "close",
            EventKind::Bind => "bind",
            EventKind::Listen => "listen",
        }
    }
}

/// The enrollment request line and headers.
pub open spec fn enroll_request_text(server: Seq<char>, token: Seq<char>, agent: Seq<char>, public_key: Seq<char>) -> Seq<char> {
    "GET /enroll?token="@ + token + "&agent_id="@ + agent + "&public_key="@ + public_key
        + " HTTP/1.1\r\nHost: "@ + server + "\r\nConnection: close\r\n\r\n"@
}

/// The HTTP request a collector sends to enroll.
pub fn enroll_request(server: &str, token: &str, agent: &str, public_key: &str) -> (r: String)
    ensures
        r@ == enroll_request_text(server@, token@, agent@, public_key@),
{
    let mut r = String::from_str("GET /enroll?token=");
    r.append(token);
    r.append("&agent_id=");
    r.append(agent);
    r.append("&public_key=");
    r.append(public_key);
    r.append(" HTTP/1.1\r\nHost: ");
    r.append(server);
    r.append("\r\nConnection: close\r\n\r\n");
    r
}

/// What the collector keeps after enrolling.
#[derive(Debug, Clone, PartialEq, Eq)]
pub struct Config {
    pub boot_strap_servers: Vec<String>,
    pub agent_id: String,
}

/// The collector's saved configuration: the profile's bootstrap servers and
/// the agent's identifier.
pub fn config_after_enrollment(profile: CollectorProfile, agent_id: String) -> (r: Config)
    ensures
        r.boot_strap_servers@ == profile.config.kafka.bootstrap_servers@,
        r.agent_id@ == agent_id@,
{
    Config { boot_strap_servers: profile.config.kafka.bootstrap_servers, agent_id }
}

} // verus!
