use vstd::prelude::*;

use crate::text::{chars_of, decimal, push_decimal, push_str, string_from_chars};

verus! {

/// Why a push over HTTP failed.
#[derive(Debug)]
pub enum HttpFallbackError {
    Serialize(String),
    Transport(String),
    Rejected(u16),
}

impl HttpFallbackError {
    /// The error's text: `serialize: <e>`, `transport: <e>` or
    /// `rejected with status <code>`.
    pub fn message(&self) -> (m: String)
        ensures
            m@ == match self {
                HttpFallbackError::Serialize(e) => "serialize: "@ + e@,
                HttpFallbackError::Transport(e) => "transport: "@ + e@,
                HttpFallbackError::Rejected(code) => "rejected with status "@ + decimal(*code as nat),
            },
    {
        let mut m = String::new();
        match self {
            HttpFallbackError::Serialize(e) => {
                push_str(&mut m, "serialize: ");
                push_str(&mut m, e.as_str());
            },
            HttpFallbackError::Transport(e) => {
                push_str(&mut m, "transport: ");
                push_str(&mut m, e.as_str());
            },
            HttpFallbackError::Rejected(code) => {
                push_str(&mut m, "rejected with status ");
                push_decimal(&mut m, *code as u64);
            },
        }
        m
    }
}

/// A 2xx status is success; any other is a rejection with that status.
pub fn status_result(status: u16) -> (r: Result<(), HttpFallbackError>)
    ensures
        200 <= status < 300 ==> r is Ok,
        !(200 <= status < 300) ==> (r matches Err(HttpFallbackError::Rejected(c)) && c == status),
{
    if status >= 200 && status < 300 {
        Ok(())
    } else {
        Err(HttpFallbackError::Rejected(status))
    }
}

/// The base URL without trailing slashes.
pub open spec fn trim_slashes_spec(s: Seq<char>) -> Seq<char>
    decreases s.len(),
{
    if s.len() > 0 && s.last() == '/' {
        trim_slashes_spec(s.drop_last())
    } else {
        s
    }
}

/// `base_url.trim_end_matches('/')`.
pub fn trim_base_url(base_url: &str) -> (out: String)
    ensures
        out@ == trim_slashes_spec(base_url@),
{
    let cs = chars_of(base_url);
    let mut n: usize = cs.len();
    assert(cs@.subrange(0, n as int) =~= cs@);
    while n > 0 && cs[n - 1] == '/'
        invariant
            n <= cs@.len(),
            cs@ == base_url@,
            trim_slashes_spec(base_url@) == trim_slashes_spec(cs@.subrange(0, n as int)),
        decreases n,
    {
        assert(cs@.subrange(0, n as int).drop_last() =~= cs@.subrange(0, n - 1));
        n = n - 1;
    }
    let mut kept: Vec<char> = Vec::new();
    let mut i: usize = 0;
    while i < n
        invariant
            n <= cs@.len(),
            i <= n,
            kept@ == cs@.subrange(0, i as int),
        decreases n - i,
    {
        kept.push(cs[i]);
        i = i + 1;
        assert(kept@ =~= cs@.subrange(0, i as int));
    }
    assert(cs@.subrange(0, 0) =~= Seq::<char>::empty());
    string_from_chars(&kept)
}

/// The endpoint metrics are posted to: `<base>/v1/agent/metrics`.
pub fn metrics_url(base_url: &str) -> (out: String)
    ensures
        out@ == base_url@ + "/v1/agent/metrics"@,
{
    let mut out = String::new();
    push_str(&mut out, base_url);
    push_str(&mut out, "/v1/agent/metrics");
    assert(out@ =~= base_url@ + "/v1/agent/metrics"@);
    out
}

} // verus!
