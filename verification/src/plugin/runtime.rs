use vstd::prelude::*;

use super::error::PluginError;
use crate::text::{chars_of, contains_seq, push_signed_decimal, push_str, signed_decimal, vec_contains};

verus! {

/// What one plugin run produced: the metric JSON strings and log lines it emitted.
pub struct ExecutionResult {
    pub metrics_json: Vec<String>,
    pub logs: Vec<String>,
}

/// How a plugin's entry function ended.
pub enum EntryOutcome {
    /// It returned this code.
    Returned(i32),
    /// It trapped or failed with this message.
    Trapped(String),
}

/// The result of a run, given how the entry function ended: code 0 hands
/// back what was emitted; another code is an execution error "plugin
/// returned code <code>"; a failure whose message mentions `epoch` is a
/// timeout, one that mentions `memory` hit the memory limit, any other is an
/// execution error with that message.
pub fn finish_run(outcome: EntryOutcome, metrics_json: Vec<String>, logs: Vec<String>) -> (r: Result<
    ExecutionResult,
    PluginError,
>)
    ensures
        match outcome {
            EntryOutcome::Returned(code) => if code == 0 {
                r matches Ok(res) && res.metrics_json@ == metrics_json@ && res.logs@ == logs@
            } else {
                r matches Err(PluginError::Execution(m)) && m@ == "plugin returned code "@ + signed_decimal(code as int)
            },
            EntryOutcome::Trapped(msg) => if contains_seq(msg@, "epoch"@) {
                r matches Err(PluginError::Timeout)
            } else if contains_seq(msg@, "memory"@) {
                r matches Err(PluginError::MemoryLimit)
            } else {
                r matches Err(PluginError::Execution(m)) && m@ == msg@
            },
        },
{
    match outcome {
        EntryOutcome::Returned(code) => {
            if code == 0 {
                Ok(ExecutionResult { metrics_json, logs })
            } else {
                let mut m = String::new();
                push_str(&mut m, "plugin returned code ");
                push_signed_decimal(&mut m, code as i64);
                Err(PluginError::Execution(m))
            }
        },
        EntryOutcome::Trapped(msg) => {
            let cs = chars_of(msg.as_str());
            let epoch = chars_of("epoch");
            let memory = chars_of("memory");
            if vec_contains(&cs, &epoch) {
                Err(PluginError::Timeout)
            } else if vec_contains(&cs, &memory) {
                Err(PluginError::MemoryLimit)
            } else {
                Err(PluginError::Execution(msg))
            }
        },
    }
}

} // verus!
