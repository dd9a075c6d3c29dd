//! Zero-touch provisioning: the decisions around asking the server for a
//! configuration with a bootstrap token.
use vstd::prelude::*;

use crate::exporter::retry::exp2;
use crate::text::push_str;

verus! {

/// Attempts made before provisioning gives up.
pub const MAX_BOOTSTRAP_RETRIES: u32 = 5;

/// Seconds waited after the first failed attempt.
pub const BASE_BACKOFF_SECS: u64 = 5;

/// What the server hands a provisioned agent.
pub struct BootstrapResult {
    pub agent_id: String,
    pub config_yaml: Vec<u8>,
}

/// Why the configuration file could not be written.
#[derive(Debug)]
pub enum WriteError {
    Io(String),
    AlreadyExists,
}

/// Why provisioning with the server failed.
#[derive(Debug)]
pub enum NegotiateError {
    Config(String),
    Transport(String),
    ChannelClosed,
    Rpc(String),
    Timeout,
    StreamClosed,
    Rejected(String),
    Expired(String),
    ServerError(String),
    UnexpectedResponse,
}

impl WriteError {
    /// The error's text: `io: <e>` or `config file already exists`.
    pub fn message(&self) -> (m: String)
        ensures
            m@ == match self {
                WriteError::Io(e) => "io: "@ + e@,
                WriteError::AlreadyExists => "config file already exists"@,
            },
    {
        let mut m = String::new();
        match self {
            WriteError::Io(e) => {
                push_str(&mut m, "io: ");
                push_str(&mut m, e.as_str());
            },
            WriteError::AlreadyExists => {
                push_str(&mut m, "config file already exists");
            },
        }
        m
    }
}

impl NegotiateError {
    /// The error's text, as the agent logs it.
    pub fn message(&self) -> (m: String)
        ensures
            m@ == match self {
                NegotiateError::Config(e) => "config: "@ + e@,
                NegotiateError::Transport(e) => "transport: "@ + e@,
                NegotiateError::ChannelClosed => "channel closed"@,
                NegotiateError::Rpc(e) => "rpc: "@ + e@,
                NegotiateError::Timeout => "bootstrap timeout"@,
                NegotiateError::StreamClosed => "stream closed"@,
                NegotiateError::Rejected(e) => "rejected: "@ + e@,
                NegotiateError::Expired(e) => "expired: "@ + e@,
                NegotiateError::ServerError(e) => "server error: "@ + e@,
                NegotiateError::UnexpectedResponse => "unexpected server response"@,
            },
    {
        let mut m = String::new();
        match self {
            NegotiateError::Config(e) => {
                push_str(&mut m, "config: ");
                push_str(&mut m, e.as_str());
            },
            NegotiateError::Transport(e) => {
                push_str(&mut m, "transport: ");
                push_str(&mut m, e.as_str());
            },
            NegotiateError::ChannelClosed => {
                push_str(&mut m, "channel closed");
            },
            NegotiateError::Rpc(e) => {
                push_str(&mut m, "rpc: ");
                push_str(&mut m, e.as_str());
            },
            NegotiateError::Timeout => {
                push_str(&mut m, "bootstrap timeout");
            },
            NegotiateError::StreamClosed => {
                push_str(&mut m, "stream closed");
            },
            NegotiateError::Rejected(e) => {
                push_str(&mut m, "rejected: ");
                push_str(&mut m, e.as_str());
            },
            NegotiateError::Expired(e) => {
                push_str(&mut m, "expired: ");
                push_str(&mut m, e.as_str());
            },
            NegotiateError::ServerError(e) => {
                push_str(&mut m, "server error: ");
                push_str(&mut m, e.as_str());
            },
            NegotiateError::UnexpectedResponse => {
                push_str(&mut m, "unexpected server response");
            },
        }
        m
    }
}

/// Seconds to wait after failed attempt `attempt` (from 1): five seconds,
/// doubled for each earlier attempt.
pub fn bootstrap_backoff_secs(attempt: u32) -> (secs: u64)
    requires
        1 <= attempt,
        BASE_BACKOFF_SECS * exp2((attempt - 1) as nat) <= u64::MAX,
    ensures
        secs == BASE_BACKOFF_SECS * exp2((attempt - 1) as nat),
{
    let mut p: u64 = 1;
    let mut i: u32 = 0;
    while i < attempt - 1
        invariant
            1 <= attempt,
            i <= attempt - 1,
            p == exp2(i as nat),
            BASE_BACKOFF_SECS * exp2((attempt - 1) as nat) <= u64::MAX,
        decreases attempt - 1 - i,
    {
        proof {
            lemma_exp2_step_bound(i as nat, (attempt - 1) as nat);
        }
        p = p * 2;
        i = i + 1;
    }
    BASE_BACKOFF_SECS * p
}

proof fn lemma_exp2_step_bound(i: nat, n: nat)
    requires
        i < n,
    ensures
        2 * exp2(i) <= exp2(n),
    decreases n,
{
    if i + 1 < n {
        lemma_exp2_step_bound(i, (n - 1) as nat);
    }
}

/// An environment value counts only when it is not empty.
pub fn non_empty(value: Option<String>) -> (r: Option<String>)
    ensures
        match value {
            Some(v) => if v@.len() > 0 { r matches Some(w) && w@ == v@ } else { r is None },
            None => r is None,
        },
{
    match value {
        Some(v) => if v.as_str().is_empty() { None } else { Some(v) },
        None => None,
    }
}


/// Provisioning is needed exactly when no configuration file exists yet.
pub fn needs_bootstrap(config_exists: bool) -> (r: bool)
    ensures
        r == !config_exists,
{
    !config_exists
}

/// The status a bootstrap response carries.
#[derive(Debug, Clone, Copy, PartialEq, Eq, Structural)]
pub enum BootstrapStatus {
    BootstrapOk,
    BootstrapInvalidToken,
    BootstrapExpiredToken,
}

/// The first message the server sends on the provisioning stream. A status
/// number that names no known status is carried as `None`.
pub enum ServerReply {
    BootstrapResponse { status: Option<BootstrapStatus>, agent_id: String, config_yaml: Vec<u8>, message: String },
    Error { message: String },
    Other,
}

/// What a reply means: an accepted token gives the agent id and its
/// configuration; a rejected or expired token, a server error or any other
/// message is an error carrying the server's text. An unknown status counts
/// as an invalid token.
pub fn interpret_reply(reply: ServerReply) -> (r: Result<BootstrapResult, NegotiateError>)
    ensures
        match reply {
            ServerReply::BootstrapResponse { status, agent_id, config_yaml, message } => match status {
                Some(BootstrapStatus::BootstrapOk) => (r matches Ok(b) && b.agent_id@ == agent_id@ && b.config_yaml@ == config_yaml@),
                Some(BootstrapStatus::BootstrapExpiredToken) => (r matches Err(NegotiateError::Expired(m)) && m@ == message@),
                _ => (r matches Err(NegotiateError::Rejected(m)) && m@ == message@),
            },
            ServerReply::Error { message } => (r matches Err(NegotiateError::ServerError(m)) && m@ == message@),
            ServerReply::Other => (r matches Err(NegotiateError::UnexpectedResponse)),
        },
{
    match reply {
        ServerReply::BootstrapResponse { status, agent_id, config_yaml, message } => match status {
            Some(BootstrapStatus::BootstrapOk) => Ok(BootstrapResult { agent_id, config_yaml }),
            Some(BootstrapStatus::BootstrapExpiredToken) => Err(NegotiateError::Expired(message)),
            _ => Err(NegotiateError::Rejected(message)),
        },
        ServerReply::Error { message } => Err(NegotiateError::ServerError(message)),
        ServerReply::Other => Err(NegotiateError::UnexpectedResponse),
    }
}

/// What follows a provisioning attempt.
#[derive(Debug, Clone, Copy, PartialEq, Eq, Structural)]
pub enum BootstrapAction {
    /// The server accepted: write the configuration.
    Provision,
    /// Wait, then make attempt `next_attempt`.
    Retry { delay_secs: u64, next_attempt: u32 },
    /// Wait, then report that every attempt failed.
    GiveUp { delay_secs: u64 },
}

/// Decides what follows attempt `attempt` (from 1). A failed attempt is
/// followed by a wait of `bootstrap_backoff_secs(attempt)`; after the last
/// allowed attempt provisioning gives up.
pub fn after_attempt(attempt: u32, succeeded: bool) -> (r: BootstrapAction)
    requires
        1 <= attempt <= MAX_BOOTSTRAP_RETRIES,
    ensures
        succeeded ==> r == BootstrapAction::Provision,
        !succeeded && attempt < MAX_BOOTSTRAP_RETRIES ==> r == (BootstrapAction::Retry {
            delay_secs: (BASE_BACKOFF_SECS * exp2((attempt - 1) as nat)) as u64,
            next_attempt: (attempt + 1) as u32,
        }),
        !succeeded && attempt == MAX_BOOTSTRAP_RETRIES ==> r == (BootstrapAction::GiveUp {
            delay_secs: (BASE_BACKOFF_SECS * exp2((attempt - 1) as nat)) as u64,
        }),
{
    if succeeded {
        return BootstrapAction::Provision;
    }
    proof {
        lemma_exp2_small((attempt - 1) as nat);
    }
    let delay = bootstrap_backoff_secs(attempt);
    if attempt < MAX_BOOTSTRAP_RETRIES {
        BootstrapAction::Retry { delay_secs: delay, next_attempt: attempt + 1 }
    } else {
        BootstrapAction::GiveUp { delay_secs: delay }
    }
}

proof fn lemma_exp2_small(n: nat)
    requires
        n < 5,
    ensures
        exp2(n) <= 16,
{
    reveal_with_fuel(exp2, 6);
}

} // verus!
