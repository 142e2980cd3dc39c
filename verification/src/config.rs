//! Configuration for a documentation request: which crate, which item
//! inside it, and whether to read the pre-rendered page of the online host
//! or a locally built one. The acquisition itself is the caller's concern;
//! this type only carries the choices.

use vstd::prelude::*;

verus! {

/// Configuration options for fetching documentation.
pub struct Config {
    /// The name of the crate to fetch documentation for.
    pub crate_name: String,
    /// Optional path to a specific item within the crate.
    pub item_path: Option<String>,
    /// Whether to fetch documentation from the online host instead of
    /// building locally.
    pub online: bool,
}

impl Config {
    /// A fresh configuration for the named crate: no item path, offline.
    pub fn new(crate_name: &str) -> (c: Config)
        ensures
            c.crate_name@ == crate_name@,
            c.item_path is None,
            c.online == false,
    {
        Config { crate_name: String::from_str(crate_name), item_path: None, online: false }
    }

    /// The same configuration, now naming an item within the crate.
    pub fn with_item_path(self, item_path: &str) -> (c: Config)
        ensures
            c.crate_name == self.crate_name,
            c.item_path matches Some(p) && p@ == item_path@,
            c.online == self.online,
    {
        Config {
            crate_name: self.crate_name,
            item_path: Some(String::from_str(item_path)),
            online: self.online,
        }
    }

    /// The same configuration, choosing the online host or the local build.
    pub fn with_online(self, online: bool) -> (c: Config)
        ensures
            c.crate_name == self.crate_name,
            c.item_path == self.item_path,
            c.online == online,
    {
        Config { crate_name: self.crate_name, item_path: self.item_path, online }
    }
}

} // verus!
