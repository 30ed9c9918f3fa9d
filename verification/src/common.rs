//! The state a host hands to each capability, and the lookup of the state
//! a capability instance is opened with.

use vstd::prelude::*;
use crate::resource::{find_last, lookup_last};

verus! {

/// The state of one capability as the host configured it.
#[derive(Debug)]
pub struct BasicState {
    /// The kind of secret store the capability reads its secrets from.
    pub secret_store: Option<String>,
    /// The name of the implementation that backs the capability.
    pub implementor: String,
    /// The name under which the capability was configured.
    pub name: String,
    /// The configuration entries of the capability, if it has any.
    pub configs_map: Option<Vec<(String, String)>>,
    /// The path of the application's configuration file.
    pub slightfile_path: String,
}

impl BasicState {
    /// The state of a capability configured under `name`.
    pub fn new(
        secret_store: Option<String>,
        implementor: String,
        name: String,
        configs_map: Option<Vec<(String, String)>>,
        slightfile_path: String,
    ) -> (r: BasicState)
        ensures
            r.secret_store == secret_store,
            r.implementor == implementor,
            r.name == name,
            r.configs_map == configs_map,
            r.slightfile_path == slightfile_path,
    {
        BasicState { secret_store, implementor, name, configs_map, slightfile_path }
    }
}

/// The state a capability instance opened under `name` uses: the state
/// configured under that name, or else the one configured under the
/// capability's implementor.
pub open spec fn state_for(
    store: Seq<(String, BasicState)>,
    name: Seq<char>,
    implementor: Seq<char>,
) -> Option<BasicState> {
    match lookup_last(store, name) {
        Some(s) => Some(s),
        None => lookup_last(store, implementor),
    }
}

/// Looks up the state of a capability instance opened under `name`.
pub fn find_state<'a>(store: &'a Vec<(String, BasicState)>, name: &str, implementor: &str) -> (r:
    Option<&'a BasicState>)
    ensures
        match r {
            Some(s) => state_for(store@, name@, implementor@) == Some(*s),
            None => state_for(store@, name@, implementor@) is None,
        },
{
    match find_last(store, name) {
        Some(i) => Some(&store[i].1),
        None => match find_last(store, implementor) {
            Some(i) => Some(&store[i].1),
            None => None,
        },
    }
}

} // verus!
