use vstd::prelude::*;

use super::schema::AgentConfig;

verus! {

/// `serde_yaml::Error`, carried through as an opaque value.
#[verifier::external_type_specification]
#[verifier::external_body]
pub struct ExYamlError(serde_yaml::Error);

/// Why a configuration could not be loaded.
#[derive(Debug)]
pub enum LoadError {
    Io(std::io::Error),
    Parse(serde_yaml::Error),
    Validation(String),
}

/// The rule a configuration breaks first, if any: an empty server URL, a
/// zero collection interval, an empty log directory, checked in that order.
pub open spec fn validation_failure(cfg: AgentConfig) -> Option<Seq<char>> {
    if cfg.server@.len() == 0 {
        Some("server URL must not be empty"@)
    } else if cfg.collect.interval_seconds == 0 {
        Some("collect.interval_seconds must be > 0"@)
    } else if cfg.buffer.wal_dir@.len() == 0 {
        Some("buffer.wal_dir must not be empty"@)
    } else {
        None
    }
}

/// Checks a parsed configuration against the rules of `validation_failure`.
pub fn validate(cfg: &AgentConfig) -> (r: Result<(), LoadError>)
    ensures
        match validation_failure(*cfg) {
            None => r is Ok,
            Some(msg) => r matches Err(LoadError::Validation(m)) && m@ == msg,
        },
{
    if cfg.server.as_str().is_empty() {
        return Err(LoadError::Validation(String::from_str("server URL must not be empty")));
    }
    if cfg.collect.interval_seconds == 0 {
        return Err(LoadError::Validation(String::from_str("collect.interval_seconds must be > 0")));
    }
    if cfg.buffer.wal_dir.as_str().is_empty() {
        return Err(LoadError::Validation(String::from_str("buffer.wal_dir must not be empty")));
    }
    Ok(())
}

} // verus!
