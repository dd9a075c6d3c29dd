use vstd::prelude::*;

verus! {

/// Why a plugin could not be loaded or run.
#[derive(Debug)]
pub enum PluginError {
    Compile(String),
    Instantiation(String),
    Execution(String),
    Timeout,
    MemoryLimit,
    InvalidOutput(String),
    Io(std::io::Error),
}

} // verus!
