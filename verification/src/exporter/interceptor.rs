use vstd::prelude::*;

verus! {

/// Adds the agent's identity to every request.
#[derive(Debug, Clone)]
pub struct AuthInterceptor {
    agent_id: String,
    key_id: String,
}

impl AuthInterceptor {
    /// The agent id sent with requests.
    pub closed spec fn agent(&self) -> Seq<char> {
        self.agent_id@
    }

    /// The key id sent with requests.
    pub closed spec fn key(&self) -> Seq<char> {
        self.key_id@
    }

    /// An interceptor for `agent_id` signing with `key_id`.
    pub fn new(agent_id: String, key_id: String) -> (i: AuthInterceptor)
        ensures
            i.agent() == agent_id@,
            i.key() == key_id@,
    {
        AuthInterceptor { agent_id, key_id }
    }

    /// The metadata the interceptor adds: `x-agent-id` and `x-key-id`.
    pub fn headers(&self) -> (h: Vec<(String, String)>)
        ensures
            h@.len() == 2,
            h@[0].0@ == "x-agent-id"@ && h@[0].1@ == self.agent(),
            h@[1].0@ == "x-key-id"@ && h@[1].1@ == self.key(),
    {
        let mut h: Vec<(String, String)> = Vec::new();
        h.push((String::from_str("x-agent-id"), self.agent_id.clone()));
        h.push((String::from_str("x-key-id"), self.key_id.clone()));
        h
    }
}

} // verus!
