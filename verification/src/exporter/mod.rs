//! Sending batches: retry policy, the decisions of the send loop, the HTTP
//! fallback's rules and the identity added to requests.
pub mod http_fallback;
pub mod interceptor;
pub mod retry;
pub mod send_loop;
