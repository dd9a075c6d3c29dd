use vstd::prelude::*;

use crate::text::{join_path, join_path_spec};

verus! {

/// Where the agent keeps its files under one root directory.
pub struct VolumeLayout {
    root: String,
}

/// What a look at the volume found.
#[derive(Debug, Clone, Copy, PartialEq, Eq, Structural)]
pub struct VolumeCheck {
    pub root_exists: bool,
    pub root_writable: bool,
    pub config_exists: bool,
    pub state_exists: bool,
    pub wal_exists: bool,
}

impl VolumeLayout {
    /// The root directory.
    pub closed spec fn root_path(&self) -> Seq<char> {
        self.root@
    }

    /// The state directory: `<root>/state`.
    pub open spec fn state_dir_spec(&self) -> Seq<char> {
        join_path_spec(self.root_path(), "state"@)
    }

    /// A layout rooted at `root`.
    pub fn new(root: &str) -> (l: VolumeLayout)
        ensures
            l.root_path() == root@,
    {
        VolumeLayout { root: String::from_str(root) }
    }

    /// The root directory.
    pub fn root(&self) -> (r: &str)
        ensures
            r@ == self.root_path(),
    {
        self.root.as_str()
    }

    /// `<root>/config.yml`
    pub fn config_file(&self) -> (p: String)
        ensures
            p@ == join_path_spec(self.root_path(), "config.yml"@),
    {
        join_path(self.root.as_str(), "config.yml")
    }

    /// `<root>/state`
    pub fn state_dir(&self) -> (p: String)
        ensures
            p@ == self.state_dir_spec(),
    {
        join_path(self.root.as_str(), "state")
    }

    /// `<root>/state/agent.state.json`
    pub fn state_file(&self) -> (p: String)
        ensures
            p@ == join_path_spec(self.state_dir_spec(), "agent.state.json"@),
    {
        let dir = self.state_dir();
        join_path(dir.as_str(), "agent.state.json")
    }

    /// The log directory: the custom one when given, else `<root>/wal`.
    pub fn wal_dir(&self, custom: Option<&str>) -> (p: String)
        ensures
            p@ == match custom {
                Some(d) => d@,
                None => join_path_spec(self.root_path(), "wal"@),
            },
    {
        match custom {
            Some(d) => String::from_str(d),
            None => join_path(self.root.as_str(), "wal"),
        }
    }
}

} // verus!
