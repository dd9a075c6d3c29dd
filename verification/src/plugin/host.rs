use vstd::prelude::*;

verus! {

/// What a plugin run has handed the host so far, and how many metrics it may emit.
pub struct HostBuffers {
    pub collected_json: Vec<String>,
    pub logs: Vec<String>,
    pub max_metrics: u64,
}

/// The byte range `[start, end)` of guest memory a host call names with a
/// pointer and a length (both read as unsigned machine words), when it lies
/// within the memory.
pub open spec fn guest_range_spec(ptr: i32, len: i32, mem_len: usize) -> Option<(usize, usize)> {
    let start = ptr as usize;
    let n = len as usize;
    if start + n > usize::MAX {
        None
    } else if start + n > mem_len {
        None
    } else {
        Some((start, (start + n) as usize))
    }
}

/// The range a host call names in a memory of `mem_len` bytes, or `None`
/// when it overflows or runs past the end.
pub fn guest_range(ptr: i32, len: i32, mem_len: usize) -> (r: Option<(usize, usize)>)
    ensures
        r == guest_range_spec(ptr, len, mem_len),
{
    let start = ptr as usize;
    let n = len as usize;
    match start.checked_add(n) {
        None => None,
        Some(end) => {
            if end > mem_len {
                None
            } else {
                Some((start, end))
            }
        },
    }
}

impl HostBuffers {
    /// Empty buffers allowing `max_metrics` metrics.
    pub fn new(max_metrics: u64) -> (h: HostBuffers)
        ensures
            h.collected_json@.len() == 0,
            h.logs@.len() == 0,
            h.max_metrics == max_metrics,
    {
        HostBuffers { collected_json: Vec::new(), logs: Vec::new(), max_metrics }
    }

    /// The `log` host call: keeps the message when it could be read.
    pub fn log(&mut self, message: Option<String>)
        ensures
            final(self).collected_json@ == old(self).collected_json@,
            final(self).max_metrics == old(self).max_metrics,
            final(self).logs@ == match message {
                Some(m) => old(self).logs@.push(m),
                None => old(self).logs@,
            },
    {
        match message {
            Some(m) => self.logs.push(m),
            None => {},
        }
    }

    /// The `emit_metric_json` host call: refuses (-1) once the limit is
    /// reached or when the string could not be read; otherwise keeps it (0).
    pub fn emit(&mut self, json: Option<String>) -> (r: i32)
        ensures
            final(self).logs@ == old(self).logs@,
            final(self).max_metrics == old(self).max_metrics,
            old(self).collected_json@.len() <= old(self).max_metrics ==> final(self).collected_json@.len()
                <= final(self).max_metrics,
            if old(self).collected_json@.len() >= old(self).max_metrics {
                r == -1 && final(self).collected_json@ == old(self).collected_json@
            } else {
                match json {
                    Some(j) => r == 0 && final(self).collected_json@ == old(self).collected_json@.push(j),
                    None => r == -1 && final(self).collected_json@ == old(self).collected_json@,
                }
            },
    {
        if self.collected_json.len() as u64 >= self.max_metrics {
            return -1;
        }
        match json {
            Some(j) => {
                self.collected_json.push(j);
                0
            },
            None => -1,
        }
    }
}

} // verus!
