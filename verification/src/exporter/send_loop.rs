use vstd::prelude::*;

use super::retry::{delay_spec, RetryPolicy};

verus! {

/// What became of one push of a batch.
#[derive(Debug, Clone, Copy, PartialEq, Eq, Structural)]
pub enum PushOutcome {
    /// The server stored the batch.
    Accepted,
    /// The server refused the batch for good.
    Rejected,
    /// The server asked for the batch again later.
    Retry,
    /// The server answered with a status this agent does not know.
    UnknownStatus,
    /// The request did not get an answer.
    TransportError,
}

/// What the send loop does next with a batch.
#[derive(Debug, Clone, Copy, PartialEq, Eq, Structural)]
pub enum SendStep {
    /// Acknowledge the record in the log; `delivered` counts it as sent.
    Ack { delivered: bool },
    /// Wait `delay_nanos` nanoseconds, then make attempt `next_attempt`.
    RetryAfter { delay_nanos: u128, next_attempt: u32 },
    /// Leave the record unacknowledged and go on with the next one.
    GiveUp,
}

/// Sends the log's pending batches, retrying under a policy.
pub struct SendLoop {
    pub retry_policy: RetryPolicy,
}

/// The step that follows an outcome at attempt `attempt`.
pub open spec fn send_step_spec(policy: RetryPolicy, outcome: PushOutcome, attempt: u32) -> SendStep {
    match outcome {
        PushOutcome::Accepted => SendStep::Ack { delivered: true },
        PushOutcome::Rejected => SendStep::Ack { delivered: false },
        _ => {
            let may = match policy.max_attempts {
                Some(max) => attempt < max,
                None => true,
            };
            if may {
                SendStep::RetryAfter {
                    delay_nanos: delay_spec(policy.base_delay_nanos, policy.max_delay_nanos, attempt as nat) as u128,
                    next_attempt: (attempt + 1) as u32,
                }
            } else {
                SendStep::GiveUp
            }
        },
    }
}

impl SendLoop {
    /// Decides what to do after a push: an accepted batch is acknowledged and
    /// counted, a rejected one acknowledged without counting; otherwise the
    /// batch is retried after the policy's delay while the policy allows the
    /// attempt, else given up.
    pub fn next_step(&self, outcome: PushOutcome, attempt: u32) -> (step: SendStep)
        requires
            attempt < u32::MAX,
        ensures
            step == send_step_spec(self.retry_policy, outcome, attempt),
    {
        match outcome {
            PushOutcome::Accepted => SendStep::Ack { delivered: true },
            PushOutcome::Rejected => SendStep::Ack { delivered: false },
            _ => {
                if !self.retry_policy.should_retry(attempt) {
                    SendStep::GiveUp
                } else {
                    let delay_nanos = self.retry_policy.delay_for_attempt(attempt);
                    SendStep::RetryAfter { delay_nanos, next_attempt: attempt + 1 }
                }
            },
        }
    }
}

/// Law: a record is acknowledged exactly when the server accepted or rejected
/// its batch, and counted as sent exactly when it was accepted.
pub proof fn lemma_ack_only_on_answer(policy: RetryPolicy, outcome: PushOutcome, attempt: u32)
    ensures
        (send_step_spec(policy, outcome, attempt) is Ack) <==> (outcome == PushOutcome::Accepted
            || outcome == PushOutcome::Rejected),
        send_step_spec(policy, outcome, attempt) == (SendStep::Ack { delivered: true }) <==> outcome
            == PushOutcome::Accepted,
{
}

/// Law: retries of one batch are bounded by the policy: each retry moves to
/// the next attempt, and with `max_attempts: Some(m)` no attempt past `m` is
/// ever scheduled, so the loop over one batch ends.
pub proof fn lemma_retries_bounded(policy: RetryPolicy, outcome: PushOutcome, attempt: u32)
    requires
        attempt < u32::MAX,
    ensures
        send_step_spec(policy, outcome, attempt) matches SendStep::RetryAfter { next_attempt, .. } ==> {
            &&& next_attempt == attempt + 1
            &&& (policy.max_attempts matches Some(m) ==> next_attempt <= m)
        },
{
}

} // verus!
